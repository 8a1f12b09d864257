//! Response-cache keys and the freshness rule for cached query results.
use vstd::prelude::*;
use vstd::string::*;

verus! {

/// The key `prefix:c1:c2:...`, with one separator per component, so that an
/// empty component still leaves its mark.
pub open spec fn key_text(prefix: Seq<char>, components: Seq<Seq<char>>) -> Seq<char>
    decreases components.len(),
{
    if components.len() == 0 {
        prefix
    } else {
        key_text(prefix, components.drop_last()) + seq![':'] + components.last()
    }
}

/// Builds the cache key of a request from a prefix and its components.
pub fn cache_key(prefix: &str, components: &[&str]) -> (r: String)
    ensures
        r@ == key_text(prefix@, components@.map_values(|c: &str| c@)),
{
    let ghost comps = components@.map_values(|c: &str| c@);
    let mut key = String::from_str(prefix);
    let mut i: usize = 0;
    while i < components.len()
        invariant
            i <= components@.len(),
            comps == components@.map_values(|c: &str| c@),
            key@ == key_text(prefix@, comps.subrange(0, i as int)),
        decreases components@.len() - i,
    {
        key.append(":");
        key.append(components[i]);
        proof {
            let s = comps.subrange(0, i as int + 1);
            assert(s.drop_last() =~= comps.subrange(0, i as int));
            assert(s.last() == components@[i as int]@);
            reveal_strlit(":");
        }
        i = i + 1;
    }
    proof {
        assert(comps.subrange(0, components@.len() as int) =~= comps);
    }
    key
}

/// Outcome of a cache lookup.
#[derive(PartialEq, Eq, Structural, Clone, Copy, Debug)]
pub enum CacheDecision {
    /// Serve the stored bytes.
    Hit,
    /// Nothing stored under the key.
    Miss,
    /// Newer readings exist than the stored response covers: drop the
    /// entry and recompute.
    Stale,
}

/// The freshness rule. A bounded query (one with an end) is answered from
/// the cache while the entry lives; an unbounded one only while no reading
/// newer than the entry's latest sample time is known. An unknown latest
/// time, or an entry without one, counts as fresh.
pub open spec fn decision_spec(
    present: bool,
    query_end: Option<i64>,
    latest: Option<i64>,
    cached_max: Option<i64>,
) -> CacheDecision {
    if !present {
        CacheDecision::Miss
    } else if query_end is Some {
        CacheDecision::Hit
    } else if latest is Some && cached_max is Some && latest->0 > cached_max->0 {
        CacheDecision::Stale
    } else {
        CacheDecision::Hit
    }
}

/// Applies the freshness rule to a lookup: whether an entry is stored, the
/// query's end, the store's latest reading time for the query's sensors,
/// and the entry's latest sample time.
pub fn decide(present: bool, query_end: Option<i64>, latest: Option<i64>, cached_max: Option<i64>) -> (r:
    CacheDecision)
    ensures
        r == decision_spec(present, query_end, latest, cached_max),
{
    if !present {
        return CacheDecision::Miss;
    }
    if query_end.is_some() {
        return CacheDecision::Hit;
    }
    match (latest, cached_max) {
        (Some(l), Some(m)) => if l > m {
            CacheDecision::Stale
        } else {
            CacheDecision::Hit
        },
        _ => CacheDecision::Hit,
    }
}

/// Once a reading newer than a stored entry arrives, an unbounded lookup
/// misses while a bounded one still hits; and with no newer reading a
/// repeated lookup hits either way.
pub proof fn lemma_freshness(query_end: i64, latest: i64, cached_max: i64)
    ensures
        latest > cached_max ==> decision_spec(true, None, Some(latest), Some(cached_max))
            == CacheDecision::Stale,
        decision_spec(true, Some(query_end), Some(latest), Some(cached_max)) == CacheDecision::Hit,
        latest <= cached_max ==> decision_spec(true, None, Some(latest), Some(cached_max))
            == CacheDecision::Hit,
{
}

/// The weight of a cached response: its length in bytes, held at
/// `u32::MAX`.
pub fn entry_weight(len: usize) -> (r: u32)
    ensures
        len <= u32::MAX ==> r == len,
        len > u32::MAX ==> r == u32::MAX,
{
    if len <= u32::MAX as usize {
        len as u32
    } else {
        u32::MAX
    }
}

} // verus!
