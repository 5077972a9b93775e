use crate::cast::{i64_to_usize, usize_to_i64};
use crate::error::KvError;
use crate::key_range::{KeyRange, KeyRangeView, range_view};
use crate::key_value::{copy_kvs, kv_views, EtcdKeyValue, KeyValueView, ResponseHeader};
use vstd::prelude::*;

verus! {

/// A range read as it goes on the wire.
#[derive(Debug, Clone)]
pub struct RangeRequest {
    /// Lower bound of the range, inclusive.
    pub key: Vec<u8>,
    /// Upper bound of the range, exclusive; empty for a single key.
    pub range_end: Vec<u8>,
    /// Most keys to return; 0 for no limit.
    pub limit: i64,
    /// Revision to read at; 0 for the latest.
    pub revision: i64,
    /// Order of the results.
    pub sort_order: i32,
    /// Field that the results are sorted by.
    pub sort_target: i32,
    /// Whether a local, possibly stale, read is enough.
    pub serializable: bool,
    /// Return the keys without their values.
    pub keys_only: bool,
    /// Return only the number of keys.
    pub count_only: bool,
    /// Lower bound on the revision of the last write, 0 for none.
    pub min_mod_revision: i64,
    /// Upper bound on the revision of the last write, 0 for none.
    pub max_mod_revision: i64,
    /// Lower bound on the creation revision, 0 for none.
    pub min_create_revision: i64,
    /// Upper bound on the creation revision, 0 for none.
    pub max_create_revision: i64,
}

/// The answer to a range read as it comes from the wire.
#[derive(Debug, Clone)]
pub struct RangeResponse {
    /// The response header, if one was sent.
    pub header: Option<ResponseHeader>,
    /// The entries returned, at most `limit` of them.
    pub kvs: Vec<EtcdKeyValue>,
    /// Whether the range holds more entries than were returned.
    pub more: bool,
    /// Number of keys in the range, regardless of the limit.
    pub count: i64,
}

/// The key range that a wire request reads.
pub open spec fn request_key_range(w: RangeRequest) -> KeyRangeView {
    range_view(w.key@, w.range_end@)
}

/// `w` is a new request over `kr`: no limit, the latest revision, no order,
/// a linearizable read, values included, no revision filters.
pub open spec fn fresh_range_request(kr: KeyRangeView, w: RangeRequest) -> bool {
    &&& w.key@ == kr.key
    &&& w.range_end@ == kr.range_end
    &&& w.limit == 0
    &&& w.revision == 0
    &&& w.sort_order == 0
    &&& w.sort_target == 0
    &&& !w.serializable
    &&& !w.keys_only
    &&& !w.count_only
    &&& w.min_mod_revision == 0
    &&& w.max_mod_revision == 0
    &&& w.min_create_revision == 0
    &&& w.max_create_revision == 0
}

/// The wire limit for a requested limit: the same number, or the largest
/// wire integer when it does not fit.
pub open spec fn wire_limit(limit: usize) -> i64 {
    if limit as int > i64::MAX as int {
        i64::MAX
    } else {
        limit as i64
    }
}

/// The entries of `store`, in store order, whose keys fall in `kr`.
pub open spec fn matching(store: Seq<KeyValueView>, kr: KeyRangeView) -> Seq<KeyValueView>
    decreases store.len(),
{
    if store.len() == 0 {
        Seq::empty()
    } else {
        let rest = matching(store.drop_last(), kr);
        if kr.contains(store.last().key) {
            rest.push(store.last())
        } else {
            rest
        }
    }
}

/// Whether `total` matching entries overflow one page of `limit`; a limit of
/// 0 or less sets no bound.
pub open spec fn more_after(total: int, limit: i64) -> bool {
    limit > 0 && total > limit
}

/// A historical read at `revision` asks for what the store no longer keeps
/// when the oldest revision it keeps is `compacted`; 0 reads the latest.
pub open spec fn is_compacted(revision: i64, compacted: i64) -> bool {
    0 < revision < compacted
}

/// The entries that one read with `limit` returns out of `m`.
pub open spec fn page(m: Seq<KeyValueView>, limit: i64) -> Seq<KeyValueView> {
    if more_after(m.len() as int, limit) {
        m.take(limit as int)
    } else {
        m
    }
}

/// Request for fetching key-value pairs.
#[derive(Debug)]
pub struct EtcdRangeRequest {
    proto: RangeRequest,
}

impl View for EtcdRangeRequest {
    type V = RangeRequest;

    closed spec fn view(&self) -> RangeRequest {
        self.proto
    }
}

impl EtcdRangeRequest {
    /// Creates a request that reads `key_range` with no limit, at the latest
    /// revision.
    pub fn new(key_range: KeyRange) -> (r: EtcdRangeRequest)
        ensures
            fresh_range_request(key_range@, r@),
    {
        let (key, range_end) = key_range.into_parts();
        EtcdRangeRequest {
            proto: RangeRequest {
                key,
                range_end,
                limit: 0,
                revision: 0,
                sort_order: 0,
                sort_target: 0,
                serializable: false,
                keys_only: false,
                count_only: false,
                min_mod_revision: 0,
                max_mod_revision: 0,
                min_create_revision: 0,
                max_create_revision: 0,
            },
        }
    }

    /// Sets the most keys to return; 0 means no limit. A limit beyond the wire
    /// integer is clamped to its largest value.
    pub fn set_limit(&mut self, limit: usize)
        ensures
            final(self)@ == (RangeRequest { limit: wire_limit(limit), ..old(self)@ }),
    {
        if limit as u64 > i64::MAX as u64 {
            self.proto.limit = i64::MAX;
        } else {
            self.proto.limit = usize_to_i64(limit);
        }
    }

    /// Sets the revision to read at: 0 for the latest, a positive one for a
    /// historical read. A negative revision is refused and the request is
    /// left as it was.
    pub fn set_revision(&mut self, revision: i64) -> (r: Result<(), KvError>)
        ensures
            revision < 0 ==> r == Err::<(), KvError>(KvError::InvalidArgument) && final(self)@
                == old(self)@,
            revision >= 0 ==> r is Ok && final(self)@ == (RangeRequest {
                revision,
                ..old(self)@
            }),
    {
        if revision < 0 {
            return Err(KvError::InvalidArgument);
        }
        self.proto.revision = revision;
        Ok(())
    }

    /// Sets whether a local, possibly stale, read is enough.
    pub fn set_serializable(&mut self, serializable: bool)
        ensures
            final(self)@ == (RangeRequest { serializable, ..old(self)@ }),
    {
        self.proto.serializable = serializable;
    }

    /// The key range that the request reads.
    pub fn get_key_range(&self) -> (r: KeyRange)
        ensures
            r@ == request_key_range(self@),
    {
        KeyRange::from_parts(
            crate::key_value::copy_bytes(&self.proto.key),
            crate::key_value::copy_bytes(&self.proto.range_end),
        )
    }

    /// Whether the request reads a single key.
    pub fn is_single_key(&self) -> (r: bool)
        ensures
            r == (self@.range_end@.len() == 0),
    {
        self.proto.range_end.len() == 0
    }

    /// The answer that a store holding `store` (in its own order, as of the
    /// revision read) gives to the request: the entries whose keys fall in
    /// the range, cut to the limit, whether more remain, and how many match in
    /// all. A historical read below `compacted`, the oldest revision that the
    /// store still keeps, fails with `RevisionCompacted`.
    pub fn evaluate(&self, store: &Vec<EtcdKeyValue>, compacted: i64, header: ResponseHeader) -> (r:
        Result<RangeResponse, KvError>)
        requires
            store.len() <= i64::MAX,
        ensures
            is_compacted(self@.revision, compacted) <==> r == Err::<RangeResponse, KvError>(
                KvError::RevisionCompacted,
            ),
            r is Ok <==> !is_compacted(self@.revision, compacted),
            r matches Ok(resp) ==> {
                &&& resp.header == Some(header)
                &&& kv_views(resp.kvs@) == page(
                    matching(kv_views(store@), request_key_range(self@)),
                    self@.limit,
                )
                &&& resp.more == more_after(
                    matching(kv_views(store@), request_key_range(self@)).len() as int,
                    self@.limit,
                )
                &&& resp.count == matching(kv_views(store@), request_key_range(self@)).len()
            },
    {
        if self.proto.revision > 0 && self.proto.revision < compacted {
            return Err(KvError::RevisionCompacted);
        }
        let range = self.get_key_range();
        let limit = self.proto.limit;
        let ghost views = kv_views(store@);
        let ghost kr = request_key_range(self@);
        let mut kvs: Vec<EtcdKeyValue> = Vec::new();
        let mut count: usize = 0;
        let mut i: usize = 0;
        while i < store.len()
            invariant
                i <= store.len(),
                store.len() <= i64::MAX,
                views == kv_views(store@),
                range@ == kr,
                limit == self@.limit,
                count == matching(views.subrange(0, i as int), kr).len(),
                count <= i,
                kv_views(kvs@) == page(matching(views.subrange(0, i as int), kr), limit),
            decreases store.len() - i,
        {
            let ghost before = matching(views.subrange(0, i as int), kr);
            assert(views.subrange(0, i + 1).drop_last() =~= views.subrange(0, i as int));
            assert(views[i as int] == store@[i as int]@);
            if store[i].in_range(&range) {
                if limit <= 0 || (count as u64) < (limit as u64) {
                    kvs.push(store[i].copied());
                    assert(kv_views(kvs@) =~= page(before, limit).push(views[i as int]));
                } else {
                    assert(before.push(views[i as int]).take(limit as int) =~= before.take(
                        limit as int,
                    ));
                }
                count += 1;
            }
            i += 1;
        }
        assert(views.subrange(0, store.len() as int) =~= views);
        let more = limit > 0 && (count as u64) > (limit as u64);
        Ok(RangeResponse { header: Some(header), kvs, more, count: usize_to_i64(count) })
    }
}

impl From<EtcdRangeRequest> for RangeRequest {
    fn from(e: EtcdRangeRequest) -> (r: RangeRequest) {
        e.proto
    }
}

impl vstd::std_specs::convert::FromSpecImpl<EtcdRangeRequest> for RangeRequest {
    open spec fn obeys_from_spec() -> bool {
        true
    }

    open spec fn from_spec(e: EtcdRangeRequest) -> RangeRequest {
        e@
    }
}

/// Response for `RangeRequest`.
#[derive(Debug)]
pub struct EtcdRangeResponse {
    proto: RangeResponse,
}

impl View for EtcdRangeResponse {
    type V = RangeResponse;

    closed spec fn view(&self) -> RangeResponse {
        self.proto
    }
}

impl EtcdRangeResponse {
    /// Wraps a response that came from the wire.
    pub fn new(range_response: RangeResponse) -> (r: EtcdRangeResponse)
        ensures
            r@ == range_response,
    {
        EtcdRangeResponse { proto: range_response }
    }

    /// Takes the header out of the response, leaving none in its place.
    pub fn take_header(&mut self) -> (r: Option<ResponseHeader>)
        ensures
            r == old(self)@.header,
            final(self)@ == (RangeResponse { header: None, ..old(self)@ }),
    {
        self.proto.header.take()
    }

    /// Takes the entries out of the response, leaving none in their place.
    pub fn take_kvs(&mut self) -> (r: Vec<EtcdKeyValue>)
        ensures
            r@ == old(self)@.kvs@,
            final(self)@.kvs@.len() == 0,
            final(self)@.header == old(self)@.header,
            final(self)@.more == old(self)@.more,
            final(self)@.count == old(self)@.count,
    {
        let mut kvs: Vec<EtcdKeyValue> = Vec::new();
        std::mem::swap(&mut kvs, &mut self.proto.kvs);
        kvs
    }

    /// Whether the range holds more entries than were returned. Only a read
    /// with a limit sets it.
    pub fn has_more(&self) -> (r: bool)
        ensures
            r == self@.more,
    {
        self.proto.more
    }

    /// The number of keys in the range; `InvalidArgument` when the wire
    /// number is negative or does not fit a `usize`.
    pub fn count(&self) -> (r: Result<usize, KvError>)
        ensures
            0 <= self@.count <= usize::MAX ==> r == Ok::<usize, KvError>(self@.count as usize),
            !(0 <= self@.count <= usize::MAX) ==> r == Err::<usize, KvError>(
                KvError::InvalidArgument,
            ),
    {
        if self.proto.count < 0 || self.proto.count as u64 > usize::MAX as u64 {
            return Err(KvError::InvalidArgument);
        }
        Ok(i64_to_usize(self.proto.count))
    }

    /// A copy of the entries in the response.
    pub fn get_kvs(&self) -> (r: Vec<EtcdKeyValue>)
        ensures
            kv_views(r@) == kv_views(self@.kvs@),
    {
        copy_kvs(&self.proto.kvs)
    }
}

impl From<RangeResponse> for EtcdRangeResponse {
    fn from(resp: RangeResponse) -> (r: EtcdRangeResponse) {
        EtcdRangeResponse { proto: resp }
    }
}

impl vstd::std_specs::convert::FromSpecImpl<RangeResponse> for EtcdRangeResponse {
    open spec fn obeys_from_spec() -> bool {
        true
    }

    open spec fn from_spec(resp: RangeResponse) -> EtcdRangeResponse {
        EtcdRangeResponse::spec_wrap(resp)
    }
}

impl EtcdRangeResponse {
    /// The response that wraps `resp`.
    pub closed spec fn spec_wrap(resp: RangeResponse) -> EtcdRangeResponse {
        EtcdRangeResponse { proto: resp }
    }
}

/// Converting a wire response with `From` wraps it unchanged, as
/// `EtcdRangeResponse::new` does.
pub proof fn lemma_from_wraps_unchanged(resp: RangeResponse)
    ensures
        EtcdRangeResponse::spec_wrap(resp)@ == resp,
{
}

/// A request built from a key range gives back that same range.
pub proof fn lemma_range_request_round_trip(kr: KeyRangeView, w: RangeRequest)
    requires
        fresh_range_request(kr, w),
    ensures
        request_key_range(w) == kr,
{
}

/// With a positive limit `n`, a read over a range of more than `n` matching
/// entries returns exactly `n` of them and reports more; over at most `n`, it
/// returns them all and reports no more.
pub proof fn lemma_limit_pages(store: Seq<KeyValueView>, kr: KeyRangeView, n: i64)
    requires
        n > 0,
    ensures
        matching(store, kr).len() > n ==> page(matching(store, kr), n).len() == n && more_after(
            matching(store, kr).len() as int,
            n,
        ),
        matching(store, kr).len() <= n ==> page(matching(store, kr), n) == matching(store, kr)
            && !more_after(matching(store, kr).len() as int, n),
{
}

} // verus!
