use vstd::prelude::*;

verus! {

/// Maximum depth of the call stack.
pub const STACK_CAPACITY: usize = 16;

#[verifier::external_type_specification]
#[verifier::external_body]
#[verifier::reject_recursive_types(T)]
pub struct ExHeaplessVec<T, const N: usize>(heapless::Vec<T, N>);

/// The return addresses held by a call stack, bottom first.
pub uninterp spec fn stack_items(s: heapless::Vec<u16, 16>) -> Seq<u16>;

/// Relies on heapless::Vec::new: the new vector is empty.
#[verifier::external_body]
pub(crate) fn stack_new() -> (r: heapless::Vec<u16, 16>)
    ensures
        stack_items(r) == Seq::<u16>::empty(),
{
    heapless::Vec::new()
}

/// Relies on heapless::Vec::push: below capacity the item is appended,
/// at capacity it is handed back and the vector is unchanged.
#[verifier::external_body]
pub(crate) fn stack_push(s: &mut heapless::Vec<u16, 16>, v: u16) -> (r: Result<(), u16>)
    ensures
        r == (if stack_items(*old(s)).len() < 16 { Ok::<(), u16>(()) } else { Err::<(), u16>(v) }),
        stack_items(*final(s)) == (if stack_items(*old(s)).len() < 16 {
            stack_items(*old(s)).push(v)
        } else {
            stack_items(*old(s))
        }),
{
    s.push(v)
}

/// Relies on heapless::Vec::pop: removes and returns the last item, or
/// returns `None` on an empty vector.
#[verifier::external_body]
pub(crate) fn stack_pop(s: &mut heapless::Vec<u16, 16>) -> (r: Option<u16>)
    ensures
        r == (if stack_items(*old(s)).len() == 0 {
            None::<u16>
        } else {
            Some(stack_items(*old(s)).last())
        }),
        stack_items(*final(s)) == (if stack_items(*old(s)).len() == 0 {
            stack_items(*old(s))
        } else {
            stack_items(*old(s)).drop_last()
        }),
{
    s.pop()
}

/// Relies on heapless::Vec::as_slice: the items in order, bottom first.
#[verifier::external_body]
pub(crate) fn stack_to_vec(s: &heapless::Vec<u16, 16>) -> (r: Vec<u16>)
    ensures
        r@ == stack_items(*s),
{
    s.as_slice().to_vec()
}

} // verus!
