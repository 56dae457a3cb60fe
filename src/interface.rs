use vstd::prelude::*;

use crate::iid::{iclassfactory_iid, iid_iclassfactory, iid_iunknown, iunknown_iid, Iid};
use crate::runtime::{query_result, ComPtr, Runtime};

verus! {

/// A type that stands for one interface, so that queries and constructors can
/// be typed by it.
pub trait ComInterface {
    /// The interface's identity.
    spec fn spec_iid() -> Iid;

    fn iid() -> (r: Iid)
        ensures
            r == Self::spec_iid(),
    ;
}

/// The universal base interface.
pub struct IUnknown;

/// The factory interface.
pub struct IClassFactory;

impl ComInterface for IUnknown {
    open spec fn spec_iid() -> Iid {
        iunknown_iid()
    }

    fn iid() -> (r: Iid) {
        iid_iunknown()
    }
}

impl ComInterface for IClassFactory {
    open spec fn spec_iid() -> Iid {
        iclassfactory_iid()
    }

    fn iid() -> (r: Iid) {
        iid_iclassfactory()
    }
}

impl Runtime {
    /// Queries the instance behind `p` for the interface that `T` stands for.
    pub fn query<T: ComInterface>(&mut self, p: ComPtr) -> (r: Option<ComPtr>)
        requires
            old(self).live(p),
            old(self).refs_of(p) < u32::MAX,
        ensures
            r == query_result(old(self).class_of(p), p, T::spec_iid()),
            old(self).same_but(final(self), p.instance as int),
            final(self).instances@[p.instance as int].fields == old(self).instances@[p.instance as int].fields,
            final(self).refs_of(p) == old(self).refs_of(p) + if r is Some { 1int } else { 0int },
            final(self).wf(),
            r matches Some(q) ==> final(self).live(q),
    {
        self.query_interface(p, T::iid())
    }
}

} // verus!
