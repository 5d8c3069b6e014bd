//! Random choices, made by the `rand` crate.
use vstd::prelude::*;

use rand::seq::IteratorRandom;

verus! {

/// Picks up to `n` of the `items` at random with `rand`'s
/// `IteratorRandom::choose_multiple_fill`, using the thread-local generator `rand::rng()`.
///
/// `choose_multiple_fill` fills its buffer with the first `n` items and then lets each further
/// item replace a buffer slot picked at random; it returns how many slots it filled, which is
/// `n` unless there are fewer items. Each item lands in at most one slot, so every pick is one of
/// the `items` and items at different positions fill different slots. Which items are picked is
/// left open: it rests on the random generator.
#[verifier::external_body]
pub(crate) fn choose_multiple(items: Vec<usize>, n: usize) -> (picked: Vec<usize>)
    ensures
        picked.len() == if n < items.len() { n } else { items.len() },
        forall|k: int| 0 <= k < picked.len() ==> items@.contains(#[trigger] picked[k]),
        items@.no_duplicates() ==> picked@.no_duplicates(),
{
    let mut buf = vec![0usize; n];
    let filled = items.into_iter().choose_multiple_fill(&mut rand::rng(), &mut buf);
    buf[..filled].to_vec()
}

} // verus!
