use vstd::prelude::*;

use crate::object::{Handle, Heap, Obj};

verus! {

/// The runtime's unique "no value" singleton.
#[derive(Debug)]
pub struct PyNone;

/// The runtime's unique "operation not implemented" singleton.
#[derive(Debug)]
pub struct PyNotImplemented;

/// Handles to the shared singleton instances, registered once into a heap.
pub struct PyContext {
    pub none_handle: Handle,
    pub not_implemented_handle: Handle,
}

impl PyNone {
    /// The type constructor: every construction yields the one shared instance.
    pub fn tp_new(ctx: &PyContext) -> (h: Handle)
        ensures
            h == ctx.none_handle,
    {
        ctx.none_handle
    }

    pub fn repr(&self) -> (s: String)
        ensures
            s@ == "None"@,
    {
        "None".to_owned()
    }

    /// The "no value" singleton is falsy.
    pub fn bool(&self) -> (b: bool)
        ensures
            !b,
    {
        false
    }
}

impl PyNotImplemented {
    pub fn repr(&self) -> (s: String)
        ensures
            s@ == "NotImplemented"@,
    {
        "NotImplemented".to_owned()
    }
}

/// Register the two singletons in the heap and hand out the context that
/// names their handles.
pub fn init(heap: &mut Heap) -> (ctx: PyContext)
    ensures
        final(heap).objects@.len() == old(heap).objects@.len() + 2,
        forall|j: int|
            0 <= j < old(heap).objects@.len() ==> final(heap).objects@[j] == old(
                heap,
            ).objects@[j],
        final(heap).valid_handle(ctx.none_handle),
        final(heap).obj_at(ctx.none_handle) is NoneVal,
        final(heap).valid_handle(ctx.not_implemented_handle),
        final(heap).obj_at(ctx.not_implemented_handle) is NotImplementedVal,
{
    let none_handle = heap.allocate(Obj::NoneVal(PyNone));
    let not_implemented_handle = heap.allocate(Obj::NotImplementedVal(PyNotImplemented));
    PyContext { none_handle, not_implemented_handle }
}

} // verus!
