//! Insertion-ordered sets of movements.
//!
//! A move set is an `indexmap::IndexSet<Movement>`. Its contents are modelled by
//! `move_seq`, the movements in the order in which they were first inserted.
//! What this file says of `IndexSet` is taken on trust from the crate `indexmap`;
//! everything else in the library is proved from it.

use super::movement::Movement;
use crate::unique::{extend_unique, push_unique};
use indexmap::IndexSet;
use vstd::prelude::*;

verus! {

/// `indexmap::IndexSet`, a hash set that remembers the order of insertion. The
/// library carries sets of this type around and looks into them only through the
/// functions below.
#[verifier::external_type_specification]
#[verifier::external_body]
#[verifier::reject_recursive_types(T)]
#[verifier::reject_recursive_types(S)]
pub struct ExIndexSet<T, S>(IndexSet<T, S>);

/// The movements that a set holds, in the order of their insertion: what
/// `IndexSet::iter` yields.
pub uninterp spec fn move_seq(set: IndexSet<Movement>) -> Seq<Movement>;

/// Calls `IndexSet::new`. Taken on trust: the new set holds nothing.
#[verifier::external_body]
pub(crate) fn new_move_set() -> (set: IndexSet<Movement>)
    ensures
        move_seq(set) == Seq::<Movement>::empty(),
{
    IndexSet::new()
}

/// Calls `IndexSet::insert`. Taken on trust: a movement that the set does not
/// hold yet goes to the end of it and `true` comes back; one that it holds
/// leaves the set and its order as they were and `false` comes back. Two
/// movements are the same to the set when all their fields are equal, as the
/// derived `Eq` and `Hash` of `Movement` have it.
#[verifier::external_body]
pub(crate) fn insert_move(set: &mut IndexSet<Movement>, m: Movement) -> (added: bool)
    ensures
        added == !move_seq(*old(set)).contains(m),
        move_seq(*final(set)) == push_unique(move_seq(*old(set)), m),
{
    set.insert(m)
}

/// Calls `IndexSet::iter` and copies out what it yields. Taken on trust: these
/// are the movements of the set, in the order of their insertion.
#[verifier::external_body]
pub(crate) fn listed_moves(set: &IndexSet<Movement>) -> (moves: Vec<Movement>)
    ensures
        moves@ == move_seq(*set),
{
    set.iter().copied().collect()
}

/// Returns whether `moves` holds `m`.
pub fn holds_move(moves: &Vec<Movement>, m: Movement) -> (found: bool)
    ensures
        found == moves@.contains(m),
{
    let mut i: usize = 0;
    while i < moves.len()
        invariant
            i <= moves.len(),
            forall|j: int| 0 <= j < i ==> moves@[j] != m,
        decreases moves.len() - i,
    {
        if moves[i] == m {
            return true;
        }
        i += 1;
    }
    false
}

/// Appends to `moves` the movements of `more` that it does not hold yet, in
/// their order.
pub fn append_new(moves: &mut Vec<Movement>, more: &Vec<Movement>)
    ensures
        final(moves)@ == extend_unique(old(moves)@, more@),
{
    let mut i: usize = 0;
    while i < more.len()
        invariant
            i <= more.len(),
            moves@ == extend_unique(old(moves)@, more@.take(i as int)),
        decreases more.len() - i,
    {
        proof {
            assert(more@.take(i as int + 1).drop_last() =~= more@.take(i as int));
        }
        if !holds_move(moves, more[i]) {
            moves.push(more[i]);
        }
        i += 1;
    }
    proof {
        assert(more@.take(more.len() as int) =~= more@);
    }
}

} // verus!
