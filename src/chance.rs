use vstd::prelude::*;

use rand::seq::SliceRandom;
use rand::Rng;

verus! {

/// Relies on rand's `Rng::gen_range` over the thread-local generator: the
/// draw lies in the half-open range `0..n`.
#[verifier::external_body]
pub(crate) fn random_below(n: u32) -> (r: u32)
    requires
        n > 0,
    ensures
        r < n,
{
    rand::thread_rng().gen_range(0..n)
}

/// Relies on rand's `SliceRandom::choose_multiple` over the thread-local
/// generator: it yields `n` elements of the pool (all of them when the pool
/// is smaller), each taken from the pool at a different position.
#[verifier::external_body]
pub(crate) fn sample(pool: &Vec<&'static str>, n: usize) -> (r: Vec<&'static str>)
    ensures
        r@.len() == if n < pool@.len() { n as int } else { pool@.len() as int },
        forall|i: int| 0 <= i < r@.len() ==> pool@.contains(#[trigger] r@[i]),
        pool@.no_duplicates() ==> r@.no_duplicates(),
{
    pool.choose_multiple(&mut rand::thread_rng(), n).cloned().collect()
}

} // verus!
