use vstd::prelude::*;
use crate::snake::Tile;

verus! {

/// Declaration of heapless' fixed-capacity vector, so that the snake body
/// can keep the same backing store the device build uses. A value of this
/// type is opaque; specifications see its contents only through `tiles`.
#[verifier::external_type_specification]
#[verifier::external_body]
#[verifier::reject_recursive_types(T)]
pub struct ExHeaplessVec<T, const N: usize>(heapless::Vec<T, N>);

/// The tiles a body vector holds, in order, as specifications see them.
pub uninterp spec fn tiles(v: heapless::Vec<Tile, 100>) -> Seq<Tile>;

/// Relies on heapless::Vec::new: a fresh vector holds nothing.
#[verifier::external_body]
pub(crate) fn tiles_new() -> (v: heapless::Vec<Tile, 100>)
    ensures
        tiles(v) == Seq::<Tile>::empty(),
{
    heapless::Vec::new()
}

/// Relies on the slice view of heapless::Vec (its Deref impl): `len`
/// reports how many elements have been pushed and kept.
#[verifier::external_body]
pub(crate) fn tiles_len(v: &heapless::Vec<Tile, 100>) -> (n: usize)
    ensures
        n == tiles(*v).len(),
{
    v.len()
}

/// Relies on the slice view of heapless::Vec: indexing reads the element
/// at `i` of the elements pushed so far.
#[verifier::external_body]
pub(crate) fn tiles_get(v: &heapless::Vec<Tile, 100>, i: usize) -> (t: Tile)
    requires
        i < tiles(*v).len(),
    ensures
        t == tiles(*v)[i as int],
{
    v[i]
}

/// Relies on the mutable slice view of heapless::Vec: index assignment
/// replaces the element at `i` and nothing else.
#[verifier::external_body]
pub(crate) fn tiles_set(v: &mut heapless::Vec<Tile, 100>, i: usize, t: Tile)
    requires
        i < tiles(*old(v)).len(),
    ensures
        tiles(*final(v)) == tiles(*old(v)).update(i as int, t),
{
    v[i] = t;
}

/// Relies on heapless::Vec::push: the element is appended when the vector
/// holds fewer elements than its capacity, and handed back unchanged in
/// `Err` when the vector is full.
#[verifier::external_body]
pub(crate) fn tiles_push(v: &mut heapless::Vec<Tile, 100>, t: Tile) -> (r: Result<(), Tile>)
    ensures
        r == (if tiles(*old(v)).len() < 100 { Ok::<(), Tile>(()) } else { Err::<(), Tile>(t) }),
        tiles(*final(v)) == (if tiles(*old(v)).len() < 100 { tiles(*old(v)).push(t) } else { tiles(*old(v)) }),
{
    v.push(t)
}

} // verus!
