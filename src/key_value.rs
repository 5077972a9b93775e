use crate::key_range::KeyRange;
use vstd::prelude::*;

verus! {

/// The header that every response carries.
#[derive(Debug, Clone, Copy, PartialEq, Eq, Structural)]
pub struct ResponseHeader {
    /// Id of the cluster that sent the response.
    pub cluster_id: u64,
    /// Id of the member that sent the response.
    pub member_id: u64,
    /// Revision of the store once the operation took effect.
    pub revision: i64,
    /// Raft term of the member.
    pub raft_term: u64,
}

/// The mathematical value of a stored entry.
pub struct KeyValueView {
    pub key: Seq<u8>,
    pub value: Seq<u8>,
    pub create_revision: i64,
    pub mod_revision: i64,
    pub version: i64,
    pub lease: i64,
}

/// One entry of the store, as a response reports it.
#[derive(Debug, Clone)]
pub struct EtcdKeyValue {
    /// The key.
    pub key: Vec<u8>,
    /// The value held under the key.
    pub value: Vec<u8>,
    /// Revision of the write that created the key.
    pub create_revision: i64,
    /// Revision of the last write to the key.
    pub mod_revision: i64,
    /// Number of writes to the key since its creation.
    pub version: i64,
    /// Id of the lease attached to the key; 0 for none.
    pub lease: i64,
}

impl View for EtcdKeyValue {
    type V = KeyValueView;

    open spec fn view(&self) -> KeyValueView {
        KeyValueView {
            key: self.key@,
            value: self.value@,
            create_revision: self.create_revision,
            mod_revision: self.mod_revision,
            version: self.version,
            lease: self.lease,
        }
    }
}

/// The values of a sequence of entries.
pub open spec fn kv_views(s: Seq<EtcdKeyValue>) -> Seq<KeyValueView> {
    s.map_values(|kv: EtcdKeyValue| kv@)
}

/// Copies a vector of bytes.
pub(crate) fn copy_bytes(b: &Vec<u8>) -> (r: Vec<u8>)
    ensures
        r@ == b@,
{
    let r = b.clone();
    assert(r@ =~= b@);
    r
}

impl EtcdKeyValue {
    /// A copy of the entry.
    pub fn copied(&self) -> (r: EtcdKeyValue)
        ensures
            r@ == self@,
    {
        EtcdKeyValue {
            key: copy_bytes(&self.key),
            value: copy_bytes(&self.value),
            create_revision: self.create_revision,
            mod_revision: self.mod_revision,
            version: self.version,
            lease: self.lease,
        }
    }

    /// Whether the entry's key falls in `range`.
    pub fn in_range(&self, range: &KeyRange) -> (r: bool)
        ensures
            r == range@.contains(self@.key),
    {
        range.contains(self.key.as_slice())
    }
}

/// Copies a sequence of entries.
pub fn copy_kvs(kvs: &Vec<EtcdKeyValue>) -> (r: Vec<EtcdKeyValue>)
    ensures
        kv_views(r@) == kv_views(kvs@),
{
    let mut r: Vec<EtcdKeyValue> = Vec::new();
    let mut i: usize = 0;
    while i < kvs.len()
        invariant
            i <= kvs.len(),
            r.len() == i,
            forall|j: int| 0 <= j < i ==> (#[trigger] r@[j])@ == kvs@[j]@,
        decreases kvs.len() - i,
    {
        r.push(kvs[i].copied());
        i += 1;
    }
    assert(kv_views(r@) =~= kv_views(kvs@));
    r
}

} // verus!
