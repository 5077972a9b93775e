use crate::cast::{i64_to_usize, usize_to_i64};
use crate::error::KvError;
use crate::key_range::{KeyRange, KeyRangeView, range_view};
use crate::key_value::{copy_bytes, copy_kvs, kv_views, EtcdKeyValue, KeyValueView, ResponseHeader};
use crate::range::matching;
use vstd::prelude::*;

verus! {

/// A delete as it goes on the wire.
#[derive(Debug, Clone)]
pub struct DeleteRangeRequest {
    /// Lower bound of the range, inclusive.
    pub key: Vec<u8>,
    /// Upper bound of the range, exclusive; empty for a single key.
    pub range_end: Vec<u8>,
    /// Whether to return the entries as they were before the delete.
    pub prev_kv: bool,
}

/// The answer to a delete as it comes from the wire.
#[derive(Debug, Clone)]
pub struct DeleteRangeResponse {
    /// The response header, if one was sent.
    pub header: Option<ResponseHeader>,
    /// Number of keys deleted.
    pub deleted: i64,
    /// The deleted entries as they were before the delete, when asked for.
    pub prev_kvs: Vec<EtcdKeyValue>,
}

/// The key range that a wire delete removes.
pub open spec fn delete_key_range(w: DeleteRangeRequest) -> KeyRangeView {
    range_view(w.key@, w.range_end@)
}

/// `w` is a new delete over `kr`, without capture of the previous entries.
pub open spec fn fresh_delete_request(kr: KeyRangeView, w: DeleteRangeRequest) -> bool {
    w.key@ == kr.key && w.range_end@ == kr.range_end && !w.prev_kv
}

/// The previous entries that a decoded response reports: those on the wire
/// when they were asked for, none otherwise.
pub open spec fn decoded_prev_kvs(wire: Seq<KeyValueView>, prev_kv: bool) -> Seq<KeyValueView> {
    if prev_kv {
        wire
    } else {
        Seq::empty()
    }
}

/// The entries of `store`, in store order, whose keys fall outside `kr`.
pub open spec fn not_matching(store: Seq<KeyValueView>, kr: KeyRangeView) -> Seq<KeyValueView>
    decreases store.len(),
{
    if store.len() == 0 {
        Seq::empty()
    } else {
        let rest = not_matching(store.drop_last(), kr);
        if kr.contains(store.last().key) {
            rest
        } else {
            rest.push(store.last())
        }
    }
}

/// Request for deleting key-value pairs.
#[derive(Debug, Clone)]
pub struct EtcdDeleteRequest {
    proto: DeleteRangeRequest,
}

impl View for EtcdDeleteRequest {
    type V = DeleteRangeRequest;

    closed spec fn view(&self) -> DeleteRangeRequest {
        self.proto
    }
}

impl EtcdDeleteRequest {
    /// Creates a request that deletes `key_range`, without capture of the
    /// previous entries.
    pub fn new(key_range: KeyRange) -> (r: EtcdDeleteRequest)
        ensures
            fresh_delete_request(key_range@, r@),
    {
        let (key, range_end) = key_range.into_parts();
        EtcdDeleteRequest { proto: DeleteRangeRequest { key, range_end, prev_kv: false } }
    }

    /// Sets whether the response returns the entries as they were before the
    /// delete.
    pub fn set_prev_kv(&mut self, prev_kv: bool)
        ensures
            final(self)@ == (DeleteRangeRequest { prev_kv, ..old(self)@ }),
    {
        self.proto.prev_kv = prev_kv;
    }

    /// The lower bound of the range.
    pub fn get_key(&self) -> (r: &[u8])
        ensures
            r@ == self@.key@,
    {
        self.proto.key.as_slice()
    }

    /// The key range that the request deletes.
    pub fn get_key_range(&self) -> (r: KeyRange)
        ensures
            r@ == delete_key_range(self@),
    {
        KeyRange::from_parts(copy_bytes(&self.proto.key), copy_bytes(&self.proto.range_end))
    }

    /// Whether the response returns the previous entries.
    pub fn request_prev_kv(&self) -> (r: bool)
        ensures
            r == self@.prev_kv,
    {
        self.proto.prev_kv
    }

    /// Deletes from a store holding `store` (in its own order) the entries
    /// whose keys fall in the range, and answers with their number and, when
    /// asked for, the entries themselves.
    pub fn evaluate(&self, store: &mut Vec<EtcdKeyValue>, header: ResponseHeader) -> (r:
        DeleteRangeResponse)
        requires
            old(store).len() <= i64::MAX,
        ensures
            kv_views(final(store)@) == not_matching(kv_views(old(store)@), delete_key_range(self@)),
            r.header == Some(header),
            r.deleted == matching(kv_views(old(store)@), delete_key_range(self@)).len(),
            kv_views(r.prev_kvs@) == decoded_prev_kvs(
                matching(kv_views(old(store)@), delete_key_range(self@)),
                self@.prev_kv,
            ),
    {
        let range = self.get_key_range();
        let ghost views = kv_views(store@);
        let ghost kr = delete_key_range(self@);
        let mut kept: Vec<EtcdKeyValue> = Vec::new();
        let mut removed: Vec<EtcdKeyValue> = Vec::new();
        let mut i: usize = 0;
        while i < store.len()
            invariant
                i <= store.len(),
                store.len() <= i64::MAX,
                views == kv_views(store@),
                range@ == kr,
                kv_views(kept@) == not_matching(views.subrange(0, i as int), kr),
                kv_views(removed@) == matching(views.subrange(0, i as int), kr),
                removed.len() <= i,
            decreases store.len() - i,
        {
            assert(views.subrange(0, i + 1).drop_last() =~= views.subrange(0, i as int));
            assert(views[i as int] == store@[i as int]@);
            let ghost before_kept = kv_views(kept@);
            let ghost before_removed = kv_views(removed@);
            if store[i].in_range(&range) {
                removed.push(store[i].copied());
                assert(kv_views(removed@) =~= before_removed.push(views[i as int]));
            } else {
                kept.push(store[i].copied());
                assert(kv_views(kept@) =~= before_kept.push(views[i as int]));
            }
            i += 1;
        }
        assert(views.subrange(0, store.len() as int) =~= views);
        std::mem::swap(store, &mut kept);
        let deleted = usize_to_i64(removed.len());
        if !self.proto.prev_kv {
            removed = Vec::new();
            assert(kv_views(removed@) =~= Seq::<KeyValueView>::empty());
        }
        DeleteRangeResponse { header: Some(header), deleted, prev_kvs: removed }
    }
}

impl From<EtcdDeleteRequest> for DeleteRangeRequest {
    fn from(e: EtcdDeleteRequest) -> (r: DeleteRangeRequest) {
        e.proto
    }
}

impl vstd::std_specs::convert::FromSpecImpl<EtcdDeleteRequest> for DeleteRangeRequest {
    open spec fn obeys_from_spec() -> bool {
        true
    }

    open spec fn from_spec(e: EtcdDeleteRequest) -> DeleteRangeRequest {
        e@
    }
}

/// Response for `DeleteRequest`.
#[derive(Debug)]
pub struct EtcdDeleteResponse {
    proto: DeleteRangeResponse,
}

impl View for EtcdDeleteResponse {
    type V = DeleteRangeResponse;

    closed spec fn view(&self) -> DeleteRangeResponse {
        self.proto
    }
}

impl EtcdDeleteResponse {
    /// Decodes the wire answer to `request`. Previous entries that the
    /// request did not ask for are dropped, whatever the wire holds.
    pub fn new(delete_response: DeleteRangeResponse, request: &EtcdDeleteRequest) -> (r:
        EtcdDeleteResponse)
        ensures
            r@.header == delete_response.header,
            r@.deleted == delete_response.deleted,
            kv_views(r@.prev_kvs@) == decoded_prev_kvs(
                kv_views(delete_response.prev_kvs@),
                request@.prev_kv,
            ),
    {
        let mut proto = delete_response;
        if !request.proto.prev_kv {
            proto.prev_kvs = Vec::new();
            assert(kv_views(proto.prev_kvs@) =~= Seq::<KeyValueView>::empty());
        }
        EtcdDeleteResponse { proto }
    }

    /// Takes the header out of the response, leaving none in its place.
    pub fn take_header(&mut self) -> (r: Option<ResponseHeader>)
        ensures
            r == old(self)@.header,
            final(self)@ == (DeleteRangeResponse { header: None, ..old(self)@ }),
    {
        self.proto.header.take()
    }

    /// The number of keys deleted; `InvalidArgument` when the wire number is
    /// negative or does not fit a `usize`.
    pub fn count_deleted(&self) -> (r: Result<usize, KvError>)
        ensures
            0 <= self@.deleted <= usize::MAX ==> r == Ok::<usize, KvError>(
                self@.deleted as usize,
            ),
            !(0 <= self@.deleted <= usize::MAX) ==> r == Err::<usize, KvError>(
                KvError::InvalidArgument,
            ),
    {
        if self.proto.deleted < 0 || self.proto.deleted as u64 > usize::MAX as u64 {
            return Err(KvError::InvalidArgument);
        }
        Ok(i64_to_usize(self.proto.deleted))
    }

    /// Takes the previous entries out of the response, leaving none in their
    /// place.
    pub fn take_prev_kvs(&mut self) -> (r: Vec<EtcdKeyValue>)
        ensures
            r@ == old(self)@.prev_kvs@,
            final(self)@.prev_kvs@.len() == 0,
            final(self)@.header == old(self)@.header,
            final(self)@.deleted == old(self)@.deleted,
    {
        let mut kvs: Vec<EtcdKeyValue> = Vec::new();
        std::mem::swap(&mut kvs, &mut self.proto.prev_kvs);
        kvs
    }

    /// Whether the response holds previous entries.
    pub fn has_prev_kvs(&self) -> (r: bool)
        ensures
            r == (self@.prev_kvs@.len() > 0),
    {
        !self.proto.prev_kvs.is_empty()
    }

    /// A copy of the previous entries in the response.
    pub fn get_prev_kvs(&self) -> (r: Vec<EtcdKeyValue>)
        ensures
            kv_views(r@) == kv_views(self@.prev_kvs@),
    {
        copy_kvs(&self.proto.prev_kvs)
    }

    /// The revision of the store after the delete; `MissingHeader` when the
    /// response carried no header.
    pub fn get_revision(&self) -> (r: Result<i64, KvError>)
        ensures
            self@.header matches Some(h) ==> r == Ok::<i64, KvError>(h.revision),
            self@.header is None ==> r == Err::<i64, KvError>(KvError::MissingHeader),
    {
        match self.proto.header {
            Some(h) => Ok(h.revision),
            None => Err(KvError::MissingHeader),
        }
    }
}

/// A delete request built from a key range carries that same range.
pub proof fn lemma_delete_request_round_trip(kr: KeyRangeView, w: DeleteRangeRequest)
    requires
        fresh_delete_request(kr, w),
    ensures
        delete_key_range(w) == kr,
{
}

/// Deleting a range that no entry of the store falls in deletes nothing,
/// reports no previous entries, and leaves the store as it was.
pub proof fn lemma_delete_nothing(store: Seq<KeyValueView>, kr: KeyRangeView, prev_kv: bool)
    requires
        matching(store, kr).len() == 0,
    ensures
        decoded_prev_kvs(matching(store, kr), prev_kv).len() == 0,
        not_matching(store, kr) == store,
    decreases store.len(),
{
    if store.len() > 0 {
        assert(!kr.contains(store.last().key));
        lemma_delete_nothing(store.drop_last(), kr, prev_kv);
        assert(store.drop_last().push(store.last()) =~= store);
    }
}

/// Without capture of the previous entries, a decoded delete response holds
/// none, whatever the wire carried.
pub proof fn lemma_no_capture_no_prev_kvs(wire: Seq<KeyValueView>)
    ensures
        decoded_prev_kvs(wire, false).len() == 0,
{
}

} // verus!
