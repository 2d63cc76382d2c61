//! The bounded least-recently-used map (`lru::LruCache`) that remembers which
//! template sources have been registered, and under which names.
use vstd::prelude::*;

verus! {

#[verifier::external_type_specification]
#[verifier::external_body]
#[verifier::reject_recursive_types(K)]
#[verifier::reject_recursive_types(V)]
#[verifier::reject_recursive_types(S)]
pub struct ExLruCache<K, V, S>(lru::LruCache<K, V, S>);

#[verifier::external_type_specification]
#[verifier::external_body]
pub struct ExLruHasher(lru::DefaultHasher);

/// The entries of the cache, from the least recently used to the most recently used.
pub uninterp spec fn lru_entries(c: lru::LruCache<String, String>) -> Seq<(Seq<char>, Seq<char>)>;

/// The number of entries the cache was created to hold.
pub uninterp spec fn lru_capacity(c: lru::LruCache<String, String>) -> nat;

/// Entry `i` of `e` has key `k`.
pub open spec fn key_at(e: Seq<(Seq<char>, Seq<char>)>, i: int, k: Seq<char>) -> bool {
    0 <= i < e.len() && e[i].0 == k
}

/// Some entry of `e` has key `k`.
pub open spec fn has_key(e: Seq<(Seq<char>, Seq<char>)>, k: Seq<char>) -> bool {
    exists|i: int| key_at(e, i, k)
}

/// No two entries of `e` have the same key.
pub open spec fn keys_distinct(e: Seq<(Seq<char>, Seq<char>)>) -> bool {
    forall|i: int, j: int| 0 <= i < e.len() && 0 <= j < e.len() && i != j ==> #[trigger] e[i].0 != #[trigger] e[j].0
}

/// What every cache satisfies: distinct keys, at most `capacity` entries, a
/// positive capacity.
pub open spec fn lru_wf(c: lru::LruCache<String, String>) -> bool {
    &&& keys_distinct(lru_entries(c))
    &&& lru_entries(c).len() <= lru_capacity(c)
    &&& lru_capacity(c) > 0
}

/// `LruCache::new` with capacity `cap`.
#[verifier::external_body]
pub(crate) fn lru_new(cap: usize) -> (r: lru::LruCache<String, String>)
    requires
        cap > 0,
    ensures
        lru_entries(r) == Seq::<(Seq<char>, Seq<char>)>::empty(),
        lru_capacity(r) == cap,
        lru_wf(r),
{
    lru::LruCache::new(std::num::NonZeroUsize::new(cap).unwrap())
}

/// `LruCache::peek`: the value under `k`, cloned; the order is kept.
#[verifier::external_body]
pub(crate) fn lru_peek(c: &lru::LruCache<String, String>, k: &str) -> (r: Option<String>)
    ensures
        match r {
            Some(v) => exists|i: int| key_at(lru_entries(*c), i, k@) && v@ == lru_entries(*c)[i].1,
            None => !has_key(lru_entries(*c), k@),
        },
{
    c.peek(k).cloned()
}

/// `LruCache::get`: the value under `k`, cloned; the entry becomes the most
/// recently used one.
#[verifier::external_body]
pub(crate) fn lru_get(c: &mut lru::LruCache<String, String>, k: &str) -> (r: Option<String>)
    ensures
        lru_capacity(*final(c)) == lru_capacity(*old(c)),
        lru_wf(*final(c)),
        match r {
            Some(v) => exists|i: int| key_at(lru_entries(*old(c)), i, k@) && v@ == lru_entries(*old(c))[i].1
                && lru_entries(*final(c)) == lru_entries(*old(c)).remove(i).push(lru_entries(*old(c))[i]),
            None => !has_key(lru_entries(*old(c)), k@) && lru_entries(*final(c)) == lru_entries(*old(c)),
        },
{
    c.get(k).cloned()
}

/// `LruCache::push`: stores `v` under `k` as the most recently used entry. An
/// entry already under `k` is replaced and handed back; otherwise, when the
/// cache is full, the least recently used entry is removed and handed back.
#[verifier::external_body]
pub(crate) fn lru_push(c: &mut lru::LruCache<String, String>, k: String, v: String) -> (r: Option<(String, String)>)
    ensures
        lru_capacity(*final(c)) == lru_capacity(*old(c)),
        lru_wf(*final(c)),
        push_effect(lru_entries(*old(c)), lru_capacity(*old(c)), k@, v@, lru_entries(*final(c)),
            match r { Some(p) => Some((p.0@, p.1@)), None => None }),
{
    c.push(k, v)
}

/// The entries `after` and the handed-back entry `out` that pushing `(k, v)`
/// into a cache with entries `before` and capacity `cap` gives.
pub open spec fn push_effect(
    before: Seq<(Seq<char>, Seq<char>)>,
    cap: nat,
    k: Seq<char>,
    v: Seq<char>,
    after: Seq<(Seq<char>, Seq<char>)>,
    out: Option<(Seq<char>, Seq<char>)>,
) -> bool {
    if has_key(before, k) {
        exists|i: int| key_at(before, i, k) && out == Some((k, before[i].1))
            && after == before.remove(i).push((k, v))
    } else if before.len() >= cap {
        before.len() > 0 && out == Some(before[0]) && after == before.drop_first().push((k, v))
    } else {
        out is None && after == before.push((k, v))
    }
}

} // verus!
