use vstd::prelude::*;

verus! {

/// A 128-bit interface or class identity, with the fields of a native GUID.
#[derive(Clone, Copy, Debug, PartialEq, Eq, Structural)]
pub struct Iid {
    pub data1: u32,
    pub data2: u16,
    pub data3: u16,
    /// The trailing eight bytes, read big-endian.
    pub data4: u64,
}

impl Iid {
    pub fn new(data1: u32, data2: u16, data3: u16, data4: u64) -> (r: Iid)
        ensures
            r == (Iid { data1, data2, data3, data4 }),
    {
        Iid { data1, data2, data3, data4 }
    }

    /// Exact equality of two identities: no prefix or partial matching.
    pub fn same(&self, other: &Iid) -> (r: bool)
        ensures
            r == (*self == *other),
    {
        *self == *other
    }
}

/// Identity of the universal base interface (`IUnknown`).
pub open spec fn iunknown_iid() -> Iid {
    Iid { data1: 0, data2: 0, data3: 0, data4: 0xC000_0000_0000_0046 }
}

/// Identity of the class factory interface (`IClassFactory`).
pub open spec fn iclassfactory_iid() -> Iid {
    Iid { data1: 1, data2: 0, data3: 0, data4: 0xC000_0000_0000_0046 }
}

/// `{00000000-0000-0000-C000-000000000046}`
pub fn iid_iunknown() -> (r: Iid)
    ensures
        r == iunknown_iid(),
{
    Iid { data1: 0, data2: 0, data3: 0, data4: 0xC000_0000_0000_0046 }
}

/// `{00000001-0000-0000-C000-000000000046}`
pub fn iid_iclassfactory() -> (r: Iid)
    ensures
        r == iclassfactory_iid(),
{
    Iid { data1: 1, data2: 0, data3: 0, data4: 0xC000_0000_0000_0046 }
}

} // verus!
