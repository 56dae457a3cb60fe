use vstd::prelude::*;

use crate::class::{find_binding, has_binding, Binding, CoClass};
use crate::iid::Iid;

verus! {

/// One entry of a vtable block.
#[derive(Clone, Copy, Debug, PartialEq, Eq, Structural)]
pub enum Slot {
    QueryInterface,
    AddRef,
    Release,
    /// A trampoline to the `index`-th method body bound to interface `iface`.
    Method { iface: Iid, index: usize },
}

/// `i` is the first binding for `iid`.
pub open spec fn first_binding(bs: Seq<Binding>, iid: Iid, i: int) -> bool {
    0 <= i < bs.len() && bs[i].iid == iid && forall|j: int| 0 <= j < i ==> (#[trigger] bs[j]).iid != iid
}

/// The number of methods that the first binding for `iid` holds; zero where none.
pub open spec fn bound_count(bs: Seq<Binding>, iid: Iid) -> nat {
    if exists|i: int| first_binding(bs, iid, i) {
        bs[choose|i: int| first_binding(bs, iid, i)].methods@.len()
    } else {
        0
    }
}

/// The three slots of the universal base interface.
pub open spec fn base_slots() -> Seq<Slot> {
    seq![Slot::QueryInterface, Slot::AddRef, Slot::Release]
}

/// The slots that an interface adds to its parent's.
pub open spec fn own_slots(iid: Iid, n: nat) -> Seq<Slot> {
    Seq::new(n, |i: int| Slot::Method { iface: iid, index: i as usize })
}

/// The vtable block of `c[k]`: its parent's block in full, then its own slots.
/// Level `c.len()` is the universal base interface.
pub open spec fn layout(bs: Seq<Binding>, c: Seq<Iid>, k: int) -> Seq<Slot>
    decreases c.len() - k,
{
    if k < 0 || k >= c.len() {
        base_slots()
    } else {
        layout(bs, c, k + 1) + own_slots(c[k], bound_count(bs, c[k]))
    }
}

/// Layout substitutability: the block of an ancestor is a leading part of the
/// block of each of its descendants, slot for slot.
pub proof fn lemma_layout_prefix(bs: Seq<Binding>, c: Seq<Iid>, k: int, j: int)
    requires
        0 <= k <= j <= c.len(),
    ensures
        layout(bs, c, j).is_prefix_of(layout(bs, c, k)),
    decreases j - k,
{
    if k < j {
        lemma_layout_prefix(bs, c, k + 1, j);
        let a = layout(bs, c, j);
        let b = layout(bs, c, k + 1);
        let own = own_slots(c[k], bound_count(bs, c[k]));
        assert(layout(bs, c, k) == b + own);
        assert forall|i: int| 0 <= i < a.len() implies a[i] == (b + own)[i] by {
            assert(a[i] == b[i]);
        }
    }
}

impl CoClass {
    /// The number of method slots that the class binds to `iid`.
    pub fn method_count(&self, iid: Iid) -> (r: usize)
        ensures
            r == bound_count(self.bindings@, iid),
    {
        let ghost bs = self.bindings@;
        match find_binding(&self.bindings, iid) {
            Some(i) => {
                assert(first_binding(bs, iid, i as int));
                assert(forall|j: int| first_binding(bs, iid, j) ==> j == i);
                self.bindings[i].methods.len()
            },
            None => {
                assert forall|j: int| !first_binding(bs, iid, j) by {
                    if first_binding(bs, iid, j) {
                        assert(bs[j].iid == iid);
                        assert(has_binding(bs, iid));
                    }
                }
                0
            },
        }
    }

    /// The slots of the vtable block of interface `hierarchies[h][k]`, or of the
    /// universal base interface where `k` is the chain's length.
    pub fn vtable_layout(&self, h: usize, k: usize) -> (r: Vec<Slot>)
        requires
            h < self.hierarchies@.len(),
            k <= self.hierarchies@[h as int]@.len(),
        ensures
            r@ == layout(self.bindings@, self.hierarchies@[h as int]@, k as int),
    {
        let chain = &self.hierarchies[h];
        let ghost c = chain@;
        let ghost bs = self.bindings@;
        let mut v: Vec<Slot> = Vec::new();
        v.push(Slot::QueryInterface);
        v.push(Slot::AddRef);
        v.push(Slot::Release);
        assert(v@ =~= base_slots());
        let mut j: usize = chain.len();
        while j > k
            invariant
                c == chain@,
                bs == self.bindings@,
                k <= j <= c.len(),
                v@ == layout(bs, c, j as int),
            decreases j,
        {
            let iid = chain[j - 1];
            let n = self.method_count(iid);
            let ghost before = v@;
            let mut i: usize = 0;
            while i < n
                invariant
                    i <= n,
                    v@ == before + own_slots(iid, i as nat),
                decreases n - i,
            {
                v.push(Slot::Method { iface: iid, index: i });
                assert(v@ =~= before + own_slots(iid, (i + 1) as nat));
                i = i + 1;
            }
            j = j - 1;
            assert(v@ == layout(bs, c, j as int));
        }
        v
    }
    /// The generation plan of the class: for each declared hierarchy, the full
    /// vtable block of its declared interface, ancestors' slots first.
    pub fn vtable_blocks(&self) -> (r: Vec<Vec<Slot>>)
        ensures
            r@.len() == self.hierarchies@.len(),
            forall|h: int|
                0 <= h < r@.len() ==> (#[trigger] r@[h])@ == layout(self.bindings@, self.hierarchies@[h]@, 0),
    {
        let mut out: Vec<Vec<Slot>> = Vec::new();
        let mut h: usize = 0;
        while h < self.hierarchies.len()
            invariant
                h <= self.hierarchies@.len(),
                out@.len() == h,
                forall|g: int|
                    0 <= g < h ==> (#[trigger] out@[g])@ == layout(self.bindings@, self.hierarchies@[g]@, 0),
            decreases self.hierarchies.len() - h,
        {
            out.push(self.vtable_layout(h, 0));
            h = h + 1;
        }
        out
    }
}

} // verus!
