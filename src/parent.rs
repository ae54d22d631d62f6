use vstd::prelude::*;

verus! {

/// The directory components above an entry, outermost first: the first five
/// are kept inline, more move to the heap.
#[verifier::external_body]
#[derive(Debug)]
pub struct ParentPath {
    items: tinyvec::TinyVec<[String; 5]>,
}

/// What a parent path holds, outermost component first.
pub uninterp spec fn parent_items(p: ParentPath) -> Seq<Seq<char>>;

/// Relies on tinyvec's `TinyVec::new`: an empty vector.
#[verifier::external_body]
pub(crate) fn parent_new() -> (r: ParentPath)
    ensures
        parent_items(r) == Seq::<Seq<char>>::empty(),
{
    ParentPath { items: tinyvec::TinyVec::new() }
}

/// Relies on tinyvec's `TinyVec::len`: the number of items held.
#[verifier::external_body]
pub(crate) fn parent_len(p: &ParentPath) -> (r: usize)
    ensures
        r == parent_items(*p).len(),
{
    p.items.len()
}

/// Relies on tinyvec's `TinyVec::push`: appends at the end, moving the items
/// to the heap once the inline slots are taken.
#[verifier::external_body]
pub(crate) fn parent_push(p: &mut ParentPath, s: String)
    ensures
        parent_items(*final(p)) == parent_items(*old(p)).push(s@),
{
    p.items.push(s)
}

/// Relies on tinyvec's `TinyVec::as_slice`: the items held, in order.
#[verifier::external_body]
pub(crate) fn parent_slice(p: &ParentPath) -> (r: &[String])
    ensures
        r@.map_values(|s: String| s@) == parent_items(*p),
{
    p.items.as_slice()
}

} // verus!
