use crate::error::KvError;
use vstd::prelude::*;

verus! {

/// `a[j] == b[j]` for every index `j` below `n`.
pub open spec fn agree_below(a: Seq<u8>, b: Seq<u8>, n: int) -> bool {
    forall|j: int| 0 <= j < n ==> #[trigger] a[j] == b[j]
}

/// `a` sorts before `b`, and `i` is where they first part: either `a` ends
/// there while `b` goes on, or both go on and `a` has the smaller byte.
pub open spec fn lt_at(a: Seq<u8>, b: Seq<u8>, i: int) -> bool {
    &&& 0 <= i <= a.len()
    &&& i <= b.len()
    &&& agree_below(a, b, i)
    &&& ((i == a.len() && i < b.len()) || (i < a.len() && i < b.len() && a[i] < b[i]))
}

/// Lexicographic order on byte strings, the order in which the store sorts
/// its keys.
pub open spec fn lex_lt(a: Seq<u8>, b: Seq<u8>) -> bool {
    exists|i: int| #[trigger] lt_at(a, b, i)
}

/// `s` begins with `p`.
pub open spec fn starts_with(s: Seq<u8>, p: Seq<u8>) -> bool {
    p.len() <= s.len() && agree_below(s, p, p.len() as int)
}

/// Index of the last byte of `p` that is not `0xFF`, or `-1` when there is
/// none.
pub open spec fn last_below_max(p: Seq<u8>) -> int
    decreases p.len(),
{
    if p.len() == 0 {
        -1
    } else if p.last() != 0xFFu8 {
        p.len() - 1
    } else {
        last_below_max(p.drop_last())
    }
}

/// The end of the range of keys that begin with `p`: `p` with its trailing
/// `0xFF` bytes dropped and its last byte then raised by one; the sentinel
/// `[0]` (no upper bound) when every byte of `p` is `0xFF`.
pub open spec fn prefix_end(p: Seq<u8>) -> Seq<u8> {
    let k = last_below_max(p);
    if k < 0 {
        seq![0u8]
    } else {
        p.subrange(0, k).push((p[k] + 1) as u8)
    }
}

/// The sentinel range end that stands for "no upper bound".
pub open spec fn is_unbounded_end(range_end: Seq<u8>) -> bool {
    range_end == seq![0u8]
}

/// The mathematical value of a key range.
pub struct KeyRangeView {
    pub key: Seq<u8>,
    pub range_end: Seq<u8>,
}

impl KeyRangeView {
    /// The range holds one key: its range end is empty.
    pub open spec fn is_single_key(self) -> bool {
        self.range_end.len() == 0
    }

    /// Whether `k` falls in the range: the key itself when the range end is
    /// empty; every key from `key` on when it is the sentinel; otherwise the
    /// keys from `key` (inclusive) up to `range_end` (exclusive).
    pub open spec fn contains(self, k: Seq<u8>) -> bool {
        if self.range_end.len() == 0 {
            k == self.key
        } else if is_unbounded_end(self.range_end) {
            !lex_lt(k, self.key)
        } else {
            !lex_lt(k, self.key) && lex_lt(k, self.range_end)
        }
    }

    /// Every range that a constructor builds: a non-empty key, or the
    /// sentinel end of the range over all keys.
    pub open spec fn wf(self) -> bool {
        self.key.len() > 0 || is_unbounded_end(self.range_end)
    }
}

/// The range that `KeyRange::single(k)` builds.
pub open spec fn single_view(k: Seq<u8>) -> KeyRangeView {
    KeyRangeView { key: k, range_end: Seq::empty() }
}

/// The range that `KeyRange::prefix(p)` builds.
pub open spec fn prefix_view(p: Seq<u8>) -> KeyRangeView {
    KeyRangeView { key: p, range_end: prefix_end(p) }
}

/// The range that `KeyRange::all()` builds.
pub open spec fn all_view() -> KeyRangeView {
    KeyRangeView { key: Seq::empty(), range_end: seq![0u8] }
}

/// The range that `KeyRange::from_key(k)` builds.
pub open spec fn from_key_view(k: Seq<u8>) -> KeyRangeView {
    KeyRangeView { key: k, range_end: seq![0u8] }
}

/// The range that `KeyRange::range(k, e)` builds.
pub open spec fn range_view(k: Seq<u8>, e: Seq<u8>) -> KeyRangeView {
    KeyRangeView { key: k, range_end: e }
}

/// Where two byte strings first part decides their order.
pub proof fn lemma_lex_decided(a: Seq<u8>, b: Seq<u8>, i: int)
    requires
        0 <= i <= a.len(),
        i <= b.len(),
        agree_below(a, b, i),
        i == a.len() || i == b.len() || a[i] != b[i],
    ensures
        lex_lt(a, b) == ((i == a.len() && i < b.len()) || (i < a.len() && i < b.len() && a[i]
            < b[i])),
{
    if (i == a.len() && i < b.len()) || (i < a.len() && i < b.len() && a[i] < b[i]) {
        assert(lt_at(a, b, i));
    } else {
        assert forall|k: int| !lt_at(a, b, k) by {
            if 0 <= k < i {
                assert(a[k] == b[k]);
            } else if k > i && k <= a.len() && k <= b.len() && agree_below(a, b, k) {
                assert(a[i] == b[i]);
            }
        }
    }
}

/// Any two byte strings are ordered, or one begins with the other.
pub proof fn lemma_lex_total(a: Seq<u8>, b: Seq<u8>)
    ensures
        lex_lt(a, b) || lex_lt(b, a) || starts_with(a, b) || starts_with(b, a),
{
    lemma_lex_total_from(a, b, 0);
}

proof fn lemma_lex_total_from(a: Seq<u8>, b: Seq<u8>, i: int)
    requires
        0 <= i <= a.len(),
        i <= b.len(),
        agree_below(a, b, i),
    ensures
        lex_lt(a, b) || lex_lt(b, a) || starts_with(a, b) || starts_with(b, a),
    decreases a.len() - i,
{
    if i == a.len() || i == b.len() {
        if i == a.len() {
            assert(agree_below(b, a, a.len() as int));
        }
    } else if a[i] == b[i] {
        lemma_lex_total_from(a, b, i + 1);
    } else if a[i] < b[i] {
        assert(lt_at(a, b, i));
    } else {
        assert(lt_at(b, a, i));
    }
}

/// No byte string sorts before itself, and no two sort before each other.
pub proof fn lemma_lex_asymmetric(a: Seq<u8>, b: Seq<u8>)
    ensures
        !(lex_lt(a, b) && lex_lt(b, a)),
        !lex_lt(a, a),
{
    if lex_lt(a, b) && lex_lt(b, a) {
        let i = choose|i: int| lt_at(a, b, i);
        let k = choose|k: int| lt_at(b, a, k);
        if i < k {
            assert(b[i] == a[i]);
        } else if k < i {
            assert(a[k] == b[k]);
        }
    }
    if lex_lt(a, a) {
        let i = choose|i: int| lt_at(a, a, i);
    }
}

/// What `last_below_max` finds.
pub proof fn lemma_last_below_max(p: Seq<u8>)
    ensures
        -1 <= last_below_max(p) < p.len(),
        last_below_max(p) >= 0 ==> p[last_below_max(p)] != 0xFFu8,
        forall|j: int| last_below_max(p) < j < p.len() ==> #[trigger] p[j] == 0xFFu8,
    decreases p.len(),
{
    if p.len() > 0 && p.last() == 0xFFu8 {
        lemma_last_below_max(p.drop_last());
        assert forall|j: int| last_below_max(p) < j < p.len() implies #[trigger] p[j]
            == 0xFFu8 by {
            if j < p.len() - 1 {
                assert(p.drop_last()[j] == p[j]);
            }
        }
    }
}

/// The range end of a prefix range is the least byte string above every key
/// that begins with the prefix: every such key sorts before it, and below it
/// stands no string that sorts after all of them. When the prefix is all
/// `0xFF` bytes, no byte string is above all such keys, and the range end is
/// the sentinel for "no upper bound".
pub proof fn lemma_prefix_end_least_upper_bound(p: Seq<u8>)
    requires
        p.len() > 0,
    ensures
        (forall|j: int| 0 <= j < p.len() ==> p[j] == 0xFFu8) ==> is_unbounded_end(prefix_end(p)),
        (exists|j: int| 0 <= j < p.len() && p[j] != 0xFFu8) ==> {
            &&& forall|s: Seq<u8>| starts_with(s, p) ==> lex_lt(s, prefix_end(p))
            &&& forall|t: Seq<u8>|
                lex_lt(t, prefix_end(p)) ==> exists|s: Seq<u8>|
                    starts_with(s, p) && !lex_lt(s, t)
        },
{
    lemma_last_below_max(p);
    let k = last_below_max(p);
    let r = prefix_end(p);
    if exists|j: int| 0 <= j < p.len() && p[j] != 0xFFu8 {
        let j0 = choose|j: int| 0 <= j < p.len() && p[j] != 0xFFu8;
        assert(k >= 0);
        assert(r.len() == k + 1);
        assert(agree_below(r, p, k));
        assert forall|s: Seq<u8>| starts_with(s, p) implies lex_lt(s, r) by {
            assert(s[k] == p[k]);
            assert(lt_at(s, r, k));
        }
        assert forall|t: Seq<u8>| lex_lt(t, r) implies exists|s: Seq<u8>|
            starts_with(s, p) && !lex_lt(s, t) by {
            lemma_lex_asymmetric(t, t);
            lemma_lex_asymmetric(t, p);
            assert(agree_below(p, p, p.len() as int));
            if starts_with(t, p) {
                assert(starts_with(t, p) && !lex_lt(t, t));
            } else {
                let i = choose|i: int| lt_at(t, r, i);
                lemma_lex_total(t, p);
                if lex_lt(p, t) {
                    let m = choose|m: int| lt_at(p, t, m);
                    // t agrees with p up to k and has no larger byte than p's at k
                    if m <= k {
                        if i < m {
                            assert(t[i] == p[i]);
                            assert(r[i] == p[i]);
                        } else {
                            assert(t[m] == r[m]);
                            if m < k {
                                assert(r[m] == p[m]);
                            }
                        }
                    } else {
                        assert(p[m] == 0xFFu8);
                    }
                }
                if starts_with(p, t) && !lex_lt(t, p) {
                    lemma_lex_decided(t, p, t.len() as int);
                }
                assert(starts_with(p, p) && !lex_lt(p, t));
            }
        }
    }
}

/// A range of keys: one key, all keys that begin with a prefix, all keys from
/// a key on, or a half-open range `[key, range_end)`.
#[derive(Debug, Clone)]
pub struct KeyRange {
    key: Vec<u8>,
    range_end: Vec<u8>,
}

impl View for KeyRange {
    type V = KeyRangeView;

    closed spec fn view(&self) -> KeyRangeView {
        KeyRangeView { key: self.key@, range_end: self.range_end@ }
    }
}

/// `prefix` with its trailing `0xFF` bytes dropped and its last byte raised by
/// one; `[0]` when every byte is `0xFF`.
pub fn compute_prefix_end(prefix: &[u8]) -> (r: Vec<u8>)
    ensures
        r@ == prefix_end(prefix@),
{
    let mut i: usize = prefix.len();
    assert(prefix@.subrange(0, prefix.len() as int) =~= prefix@);
    while i > 0 && prefix[i - 1] == 0xFFu8
        invariant
            i <= prefix.len(),
            last_below_max(prefix@) == last_below_max(prefix@.subrange(0, i as int)),
        decreases i,
    {
        assert(prefix@.subrange(0, i as int).drop_last() =~= prefix@.subrange(0, i - 1));
        i -= 1;
    }
    if i == 0 {
        return vec![0u8];
    }
    let mut r: Vec<u8> = Vec::new();
    let mut j: usize = 0;
    while j < i - 1
        invariant
            0 < i <= prefix.len(),
            j <= i - 1,
            r@ =~= prefix@.subrange(0, j as int),
        decreases i - 1 - j,
    {
        r.push(prefix[j]);
        j += 1;
    }
    r.push(prefix[i - 1] + 1);
    r
}

/// Copies a byte slice into a new vector.
fn to_vec(b: &[u8]) -> (r: Vec<u8>)
    ensures
        r@ == b@,
{
    let mut r: Vec<u8> = Vec::new();
    let mut j: usize = 0;
    while j < b.len()
        invariant
            j <= b.len(),
            r@ =~= b@.subrange(0, j as int),
        decreases b.len() - j,
    {
        r.push(b[j]);
        j += 1;
    }
    assert(r@ =~= b@);
    r
}

/// Whether `a` sorts before `b` in lexicographic byte order.
pub fn lex_less(a: &[u8], b: &[u8]) -> (r: bool)
    ensures
        r == lex_lt(a@, b@),
{
    let n: usize = if a.len() < b.len() {
        a.len()
    } else {
        b.len()
    };
    let mut i: usize = 0;
    while i < n
        invariant
            n <= a.len(),
            n <= b.len(),
            n == a.len() || n == b.len(),
            i <= n,
            agree_below(a@, b@, i as int),
        decreases n - i,
    {
        if a[i] != b[i] {
            proof {
                lemma_lex_decided(a@, b@, i as int);
            }
            return a[i] < b[i];
        }
        i += 1;
    }
    proof {
        lemma_lex_decided(a@, b@, i as int);
    }
    a.len() < b.len()
}

/// Whether two byte strings are equal.
pub fn bytes_equal(a: &[u8], b: &[u8]) -> (r: bool)
    ensures
        r == (a@ == b@),
{
    if a.len() != b.len() {
        return false;
    }
    let mut i: usize = 0;
    while i < a.len()
        invariant
            a.len() == b.len(),
            i <= a.len(),
            agree_below(a@, b@, i as int),
        decreases a.len() - i,
    {
        if a[i] != b[i] {
            return false;
        }
        i += 1;
    }
    assert(a@ =~= b@);
    true
}

impl KeyRange {
    /// The range that holds exactly `key`.
    pub fn single(key: Vec<u8>) -> (r: Result<KeyRange, KvError>)
        ensures
            key@.len() == 0 <==> r == Err::<KeyRange, KvError>(KvError::InvalidArgument),
            r is Ok <==> key@.len() > 0,
            r matches Ok(kr) ==> kr@ == single_view(key@) && kr@.wf(),
    {
        if key.len() == 0 {
            return Err(KvError::InvalidArgument);
        }
        Ok(KeyRange { key, range_end: Vec::new() })
    }

    /// The range of every key that begins with `prefix`.
    pub fn prefix(prefix: Vec<u8>) -> (r: Result<KeyRange, KvError>)
        ensures
            prefix@.len() == 0 <==> r == Err::<KeyRange, KvError>(KvError::InvalidArgument),
            r is Ok <==> prefix@.len() > 0,
            r matches Ok(kr) ==> kr@ == prefix_view(prefix@) && kr@.wf(),
    {
        if prefix.len() == 0 {
            return Err(KvError::InvalidArgument);
        }
        let range_end = compute_prefix_end(prefix.as_slice());
        Ok(KeyRange { key: prefix, range_end })
    }

    /// The range of every key in the store.
    pub fn all() -> (r: KeyRange)
        ensures
            r@ == all_view(),
            r@.wf(),
    {
        let r = KeyRange { key: Vec::new(), range_end: vec![0u8] };
        assert(r@.key =~= Seq::<u8>::empty());
        assert(r@.range_end =~= seq![0u8]);
        r
    }

    /// The range of every key from `key` on.
    pub fn from_key(key: Vec<u8>) -> (r: Result<KeyRange, KvError>)
        ensures
            key@.len() == 0 <==> r == Err::<KeyRange, KvError>(KvError::InvalidArgument),
            r is Ok <==> key@.len() > 0,
            r matches Ok(kr) ==> kr@ == from_key_view(key@) && kr@.wf(),
    {
        if key.len() == 0 {
            return Err(KvError::InvalidArgument);
        }
        let r = KeyRange { key, range_end: vec![0u8] };
        assert(r@.range_end =~= seq![0u8]);
        Ok(r)
    }

    /// The half-open range from `key` (inclusive) up to `range_end`
    /// (exclusive).
    pub fn range(key: Vec<u8>, range_end: Vec<u8>) -> (r: Result<KeyRange, KvError>)
        ensures
            key@.len() == 0 <==> r == Err::<KeyRange, KvError>(KvError::InvalidArgument),
            r is Ok <==> key@.len() > 0,
            r matches Ok(kr) ==> kr@ == range_view(key@, range_end@) && kr@.wf(),
    {
        if key.len() == 0 {
            return Err(KvError::InvalidArgument);
        }
        Ok(KeyRange { key, range_end })
    }

    /// The lower bound of the range, inclusive.
    pub fn key(&self) -> (r: &[u8])
        ensures
            r@ == self@.key,
    {
        self.key.as_slice()
    }

    /// The upper bound of the range, exclusive; empty for a single key.
    pub fn range_end(&self) -> (r: &[u8])
        ensures
            r@ == self@.range_end,
    {
        self.range_end.as_slice()
    }

    /// Whether the range holds a single key.
    pub fn is_single_key(&self) -> (r: bool)
        ensures
            r == self@.is_single_key(),
    {
        self.range_end.len() == 0
    }

    /// Whether `k` falls in the range.
    pub fn contains(&self, k: &[u8]) -> (r: bool)
        ensures
            r == self@.contains(k@),
    {
        if self.range_end.len() == 0 {
            bytes_equal(k, self.key.as_slice())
        } else if self.range_end.len() == 1 && self.range_end[0] == 0u8 {
            assert(self@.range_end =~= seq![0u8]);
            !lex_less(k, self.key.as_slice())
        } else {
            proof {
                if is_unbounded_end(self@.range_end) {
                    assert(self@.range_end[0] == 0u8);
                }
            }
            !lex_less(k, self.key.as_slice()) && lex_less(k, self.range_end.as_slice())
        }
    }

    /// Splits the range into its key and range end.
    pub fn into_parts(self) -> (r: (Vec<u8>, Vec<u8>))
        ensures
            r.0@ == self@.key,
            r.1@ == self@.range_end,
    {
        (self.key, self.range_end)
    }

    /// The range with these bounds, as a request on the wire holds them.
    pub(crate) fn from_parts(key: Vec<u8>, range_end: Vec<u8>) -> (r: KeyRange)
        ensures
            r@ == range_view(key@, range_end@),
    {
        KeyRange { key, range_end }
    }
}

/// A single-key range is one; a prefix range never is.
pub proof fn lemma_single_key_modes(k: Seq<u8>)
    requires
        k.len() > 0,
    ensures
        single_view(k).is_single_key(),
        !prefix_view(k).is_single_key(),
{
    lemma_last_below_max(k);
}

} // verus!
