//! The arena that holds a board's ladders, from the `generational_arena`
//! crate, seen as a map from raw index parts to ladders.

use vstd::prelude::*;
use generational_arena::{Arena, Index};
use crate::piece::{Ladder, LadderId};

verus! {

#[verifier::external_type_specification]
#[verifier::external_body]
#[verifier::reject_recursive_types(T)]
pub struct ExArena<T>(Arena<T>);

/// The ladders that an arena holds, by the raw parts of their index.
pub uninterp spec fn ladder_slots(a: Arena<Ladder>) -> Map<(usize, u64), Ladder>;

/// `Arena::new`: an arena that holds nothing.
#[verifier::external_body]
pub(crate) fn ladders_new() -> (r: Arena<Ladder>)
    ensures
        ladder_slots(r).is_empty(),
{
    Arena::new()
}

/// `Arena::clone` (derived): an arena that holds the same ladders under the
/// same indices.
#[verifier::external_body]
pub(crate) fn ladders_clone(a: &Arena<Ladder>) -> (r: Arena<Ladder>)
    ensures
        ladder_slots(r) == ladder_slots(*a),
{
    a.clone()
}

/// `Arena::insert`: the ladder is stored in a free slot, under an index that
/// held nothing before, and the index comes back as its raw parts. The arena
/// grows when it is full; nothing is said of the failure to allocate.
#[verifier::external_body]
pub(crate) fn ladders_insert(a: &mut Arena<Ladder>, l: Ladder) -> (id: LadderId)
    ensures
        !ladder_slots(*old(a)).contains_key(id.key()),
        ladder_slots(*final(a)) == ladder_slots(*old(a)).insert(id.key(), l),
{
    let (index, generation) = a.insert(l).into_raw_parts();
    LadderId { index, generation }
}

/// `Arena::remove`: the ladder under the index leaves the arena and is
/// handed back; an index that holds nothing leaves the arena as it was.
/// The arena's generation counter is a `u64` that grows by one per removal;
/// its overflow, after 2^64 removals, is left unsaid.
#[verifier::external_body]
pub(crate) fn ladders_remove(a: &mut Arena<Ladder>, id: LadderId) -> (r: Option<Ladder>)
    ensures
        ladder_slots(*final(a)) == ladder_slots(*old(a)).remove(id.key()),
        r == (if ladder_slots(*old(a)).contains_key(id.key()) {
            Some(ladder_slots(*old(a))[id.key()])
        } else {
            None
        }),
{
    a.remove(Index::from_raw_parts(id.index, id.generation))
}

/// `Arena::get`: the ladder stored under the index, if any.
#[verifier::external_body]
pub(crate) fn ladders_get(a: &Arena<Ladder>, id: LadderId) -> (r: Option<Ladder>)
    ensures
        r == (if ladder_slots(*a).contains_key(id.key()) {
            Some(ladder_slots(*a)[id.key()])
        } else {
            None
        }),
{
    a.get(Index::from_raw_parts(id.index, id.generation)).copied()
}

/// `IndexMut` of `Arena`: overwrites the ladder stored under an index that
/// holds one (it panics on an index that holds nothing).
#[verifier::external_body]
pub(crate) fn ladders_set(a: &mut Arena<Ladder>, id: LadderId, l: Ladder)
    requires
        ladder_slots(*old(a)).contains_key(id.key()),
    ensures
        ladder_slots(*final(a)) == ladder_slots(*old(a)).insert(id.key(), l),
{
    a[Index::from_raw_parts(id.index, id.generation)] = l;
}

/// `Arena::iter`: the ladders that the arena holds, in the arena's order.
#[verifier::external_body]
pub(crate) fn ladders_values(a: &Arena<Ladder>) -> (v: Vec<Ladder>)
    ensures
        forall|l: Ladder| #[trigger] v@.contains(l) <==> ladder_slots(*a).values().contains(l),
{
    a.iter().map(|(_, l)| *l).collect()
}

} // verus!
