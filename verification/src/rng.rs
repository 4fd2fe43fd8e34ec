//! Trusted randomness helpers: the only calls into the `rand` crate. Every
//! contract states only what holds of every possible outcome, so the verified
//! callers are correct for any drawn value. Beside each random entry point the
//! library offers a deterministic counterpart that takes the drawn number as
//! an argument (`discard_at`, `draw_dv_at`, `give_resources`), which makes the
//! engine fully reproducible under test.
use rand::seq::IndexedRandom;
use rand::seq::SliceRandom;
use vstd::prelude::*;

verus! {

/// Relies on rand::random_range: samples a value uniformly from the given
/// range, which is non-empty because `n > 0`.
#[verifier::external_body]
pub fn random_below(n: usize) -> (r: usize)
    requires
        n > 0,
    ensures
        r < n,
{
    rand::random_range(0..n)
}

/// Relies on rand's SliceRandom::shuffle: permutes the elements in place, so
/// the length and the multiset of elements are unchanged.
#[verifier::external_body]
pub fn shuffle_vec<T>(v: &mut Vec<T>)
    ensures
        final(v)@.len() == old(v)@.len(),
        final(v)@.to_multiset() == old(v)@.to_multiset(),
{
    v.shuffle(&mut rand::rng());
}

/// Relies on rand's IndexedRandom::choose_multiple: samples `k` positions
/// below `n` uniformly, without repetition.
#[verifier::external_body]
pub fn choose_distinct(n: usize, k: usize) -> (v: Vec<usize>)
    requires
        k <= n,
    ensures
        v@.len() == k,
        forall|i: int| 0 <= i < v@.len() ==> #[trigger] v@[i] < n,
        forall|i: int, j: int| 0 <= i < j < v@.len() ==> v@[i] != v@[j],
{
    let pool: Vec<usize> = (0..n).collect();
    pool.choose_multiple(&mut rand::rng(), k).copied().collect()
}

} // verus!
