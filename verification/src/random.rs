//! The random source of the engine: the calls it makes into the `rand` crate.
//! Their contracts are taken on trust from that crate's source.

use vstd::prelude::*;
use rand::seq::SliceRandom;
use crate::common::CellCoord;

verus! {

/// `rand::rngs::ThreadRng`, the handle to the calling thread's generator.
/// Nothing inside it is visible to the verifier.
#[verifier::external_type_specification]
#[verifier::external_body]
pub struct ExThreadRng(rand::rngs::ThreadRng);

/// `rand::thread_rng` returns the handle to the calling thread's generator.
/// Nothing is claimed of the handle. The call fails only where the operating
/// system cannot seed the generator.
pub assume_specification[ rand::thread_rng ]() -> (rng: rand::rngs::ThreadRng);

/// `SliceRandom::choose` on a slice returns nothing for an empty slice and
/// otherwise a reference to the element at a drawn index below the length.
/// Which element comes out is left open.
#[verifier::external_body]
pub(crate) fn choose_move(
    moves: &Vec<CellCoord>,
    rng: &mut rand::rngs::ThreadRng,
) -> (picked: Option<CellCoord>)
    ensures
        moves@.len() == 0 ==> picked is None,
        moves@.len() > 0 ==> picked is Some && moves@.contains(picked->0),
{
    moves.choose(rng).copied()
}

/// `SliceRandom::shuffle` on a slice only swaps elements in place, so the
/// slice holds the same elements, each as often as before. Their order is
/// left open.
#[verifier::external_body]
pub(crate) fn shuffle_moves(moves: &mut Vec<CellCoord>, rng: &mut rand::rngs::ThreadRng)
    ensures
        final(moves)@.to_multiset() == old(moves)@.to_multiset(),
{
    moves.shuffle(rng);
}

} // verus!
