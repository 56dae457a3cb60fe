use vstd::prelude::*;

use crate::class::{check_description, check_spec, CoClass, GenError};
use crate::dispatch::resolve;
use crate::hresult::{HResult, CLASS_E_CLASSNOTAVAILABLE, E_NOINTERFACE};
use crate::iid::{iunknown_iid, Iid};
use crate::layout::{layout, Slot};

verus! {

/// Errors returned to callers of the factory.
#[derive(Clone, Copy, Debug, PartialEq, Eq, Structural)]
pub enum ComError {
    /// No class of the requested identity is registered.
    ClassNotRegistered,
    /// The requested interface is reachable from no declared hierarchy.
    InterfaceNotSupported,
}

impl ComError {
    /// The native status code that stands for this error.
    pub fn hresult(&self) -> (r: HResult)
        ensures
            r < 0,
            *self == ComError::ClassNotRegistered ==> r == CLASS_E_CLASSNOTAVAILABLE,
            *self == ComError::InterfaceNotSupported ==> r == E_NOINTERFACE,
    {
        match self {
            ComError::ClassNotRegistered => CLASS_E_CLASSNOTAVAILABLE,
            ComError::InterfaceNotSupported => E_NOINTERFACE,
        }
    }
}

/// A typed handle to one vtable block of one instance: block `block` (one per
/// declared hierarchy), seen as the interface at `level` of that block's chain
/// (the chain's length meaning the universal base interface).
#[derive(Clone, Copy, Debug, PartialEq, Eq, Structural)]
pub struct ComPtr {
    pub instance: usize,
    pub block: usize,
    pub level: usize,
}

/// A factory for the class registered at `class`.
#[derive(Clone, Copy, Debug, PartialEq, Eq, Structural)]
pub struct ClassFactory {
    pub class: usize,
}

/// The live state of one constructed object: its class, its shared reference
/// count and its field storage.
pub struct Instance {
    pub class: usize,
    pub refs: u32,
    pub fields: Vec<i64>,
}

/// The class registry, read-only once built, and every instance created from it.
pub struct Runtime {
    pub classes: Vec<CoClass>,
    pub instances: Vec<Instance>,
}

/// `p` names a block and a level that the class has.
pub open spec fn ptr_in(cls: CoClass, p: ComPtr) -> bool {
    p.block < cls.hierarchies@.len() && p.level <= cls.hierarchies@[p.block as int]@.len()
}

/// The pointer that a query for `iid` through `p` hands out, if any.
pub open spec fn query_result(cls: CoClass, p: ComPtr, iid: Iid) -> Option<ComPtr> {
    match resolve(cls.chains(), iid) {
        Some((h, k)) => Some(ComPtr { instance: p.instance, block: h as usize, level: k as usize }),
        None => None,
    }
}

/// The same block seen as the parent interface; `None` at the base interface.
pub open spec fn upcast_result(cls: CoClass, p: ComPtr) -> Option<ComPtr> {
    if p.level < cls.hierarchies@[p.block as int]@.len() {
        Some(ComPtr { level: (p.level + 1) as usize, ..p })
    } else {
        None
    }
}

/// The interface that `p` is typed as.
pub open spec fn interface_of(cls: CoClass, p: ComPtr) -> Iid {
    let c = cls.hierarchies@[p.block as int]@;
    if p.level < c.len() {
        c[p.level as int]
    } else {
        iunknown_iid()
    }
}

/// The slots of the block that `p` denotes.
pub open spec fn block_layout(cls: CoClass, p: ComPtr) -> Seq<Slot> {
    layout(cls.bindings@, cls.hierarchies@[p.block as int]@, p.level as int)
}

/// The release that takes the shared count down from `refs_before` destroys the
/// instance.
pub open spec fn destroys(refs_before: int) -> bool {
    refs_before == 1
}

/// How many of `k` successive releases, starting from a count of `n`, destroy
/// the instance.
pub open spec fn destructions(n: int, k: nat) -> nat
    decreases k,
{
    if k == 0 {
        0
    } else {
        destructions(n, (k - 1) as nat) + if destroys(n - (k - 1)) {
            1nat
        } else {
            0nat
        }
    }
}

/// `i` is the first registered class with identity `clsid`.
pub open spec fn first_class(cs: Seq<CoClass>, clsid: Iid, i: int) -> bool {
    0 <= i < cs.len() && cs[i].clsid == clsid && forall|j: int|
        0 <= j < i ==> (#[trigger] cs[j]).clsid != clsid
}

pub open spec fn registered(cs: Seq<CoClass>, clsid: Iid) -> bool {
    exists|i: int| 0 <= i < cs.len() && (#[trigger] cs[i]).clsid == clsid
}

impl Runtime {
    pub open spec fn wf(&self) -> bool {
        &&& forall|c: int| 0 <= c < self.classes@.len() ==> (#[trigger] self.classes@[c]).wf()
        &&& forall|i: int|
            0 <= i < self.instances@.len() ==> (#[trigger] self.instances@[i]).class
                < self.classes@.len()
    }

    pub open spec fn class_of(&self, p: ComPtr) -> CoClass {
        self.classes@[self.instances@[p.instance as int].class as int]
    }

    pub open spec fn refs_of(&self, p: ComPtr) -> int {
        self.instances@[p.instance as int].refs as int
    }

    /// `p` denotes a block of an instance that has not been destroyed.
    pub open spec fn live(&self, p: ComPtr) -> bool {
        &&& self.wf()
        &&& p.instance < self.instances@.len()
        &&& self.instances@[p.instance as int].refs > 0
        &&& ptr_in(self.class_of(p), p)
    }

    /// Only instance `i` changed, and only in its count and fields.
    pub open spec fn same_but(&self, other: &Runtime, i: int) -> bool {
        &&& other.classes == self.classes
        &&& other.instances@.len() == self.instances@.len()
        &&& other.instances@[i].class == self.instances@[i].class
        &&& forall|j: int|
            0 <= j < self.instances@.len() && j != i ==> other.instances@[j] == self.instances@[j]
    }
}

impl Runtime {
    /// Builds a runtime over a class registry, checking every class description.
    pub fn new(classes: Vec<CoClass>) -> (r: Result<Runtime, GenError>)
        ensures
            match r {
                Ok(rt) => rt.wf() && rt.classes == classes && rt.instances@.len() == 0,
                Err(e) => exists|c: int|
                    0 <= c < classes@.len() && (forall|d: int| 0 <= d < c ==> (#[trigger] classes@[d]).wf()) && check_spec(
                        (#[trigger] classes@[c]).chains(),
                        classes@[c].bindings@,
                    ) == Err::<(), GenError>(e),
            },
    {
        let mut c: usize = 0;
        while c < classes.len()
            invariant
                forall|d: int| 0 <= d < c && d < classes@.len() ==> (#[trigger] classes@[d]).wf(),
            decreases classes.len() - c,
        {
            match check_description(&classes[c].hierarchies, &classes[c].bindings) {
                Ok(()) => {},
                Err(e) => {
                    assert(check_spec(classes@[c as int].chains(), classes@[c as int].bindings@) == Err::<(), GenError>(e));
                    return Err(e);
                },
            }
            c = c + 1;
        }
        Ok(Runtime { classes, instances: Vec::new() })
    }

    /// Looks up the factory of a registered class.
    pub fn get_class_object(&self, clsid: Iid) -> (r: Result<ClassFactory, ComError>)
        ensures
            match r {
                Ok(f) => first_class(self.classes@, clsid, f.class as int),
                Err(e) => e == ComError::ClassNotRegistered && !registered(self.classes@, clsid),
            },
    {
        let mut i: usize = 0;
        while i < self.classes.len()
            invariant
                forall|j: int| 0 <= j < i && j < self.classes@.len() ==> (#[trigger] self.classes@[j]).clsid != clsid,
            decreases self.classes.len() - i,
        {
            if self.classes[i].clsid == clsid {
                return Ok(ClassFactory { class: i });
            }
            i = i + 1;
        }
        Err(ComError::ClassNotRegistered)
    }

    /// Constructs a new instance of the factory's class with a count of one,
    /// typed as `target`; nothing is constructed when the class does not
    /// implement `target`.
    pub fn create_instance(&mut self, factory: ClassFactory, target: Iid) -> (r: Result<ComPtr, ComError>)
        requires
            old(self).wf(),
            factory.class < old(self).classes@.len(),
        ensures
            final(self).wf(),
            final(self).classes == old(self).classes,
            match resolve(old(self).classes@[factory.class as int].chains(), target) {
                None => r == Err::<ComPtr, ComError>(ComError::InterfaceNotSupported)
                    && final(self).instances@ == old(self).instances@,
                Some((h, k)) => {
                    let i = old(self).instances@.len();
                    &&& r == Ok::<ComPtr, ComError>(ComPtr { instance: i as usize, block: h as usize, level: k as usize })
                    &&& final(self).instances@.len() == i + 1
                    &&& final(self).instances@.subrange(0, i as int) == old(self).instances@
                    &&& final(self).instances@[i as int].class == factory.class
                    &&& final(self).instances@[i as int].refs == 1
                    &&& final(self).instances@[i as int].fields@ == Seq::new(
                        old(self).classes@[factory.class as int].fields@.len(),
                        |j: int| 0i64,
                    )
                    &&& final(self).live(ComPtr { instance: i as usize, block: h as usize, level: k as usize })
                },
            },
    {
        let cls = &self.classes[factory.class];
        match cls.resolve(target) {
            None => Err(ComError::InterfaceNotSupported),
            Some((h, k)) => {
                let n = cls.fields.len();
                let mut fields: Vec<i64> = Vec::new();
                let mut j: usize = 0;
                while j < n
                    invariant
                        j <= n,
                        fields@ == Seq::new(j as nat, |x: int| 0i64),
                    decreases n - j,
                {
                    fields.push(0);
                    assert(fields@ =~= Seq::new((j + 1) as nat, |x: int| 0i64));
                    j = j + 1;
                }
                let i = self.instances.len();
                let ghost before = self.instances@;
                proof {
                    crate::dispatch::lemma_resolve_some(cls.chains(), target);
                }
                self.instances.push(Instance { class: factory.class, refs: 1, fields });
                assert(self.instances@.subrange(0, i as int) =~= before);
                Ok(ComPtr { instance: i, block: h, level: k })
            },
        }
    }

    /// Looks up the class and constructs an instance of it typed as `target`.
    pub fn create_instance_of(&mut self, clsid: Iid, target: Iid) -> (r: Result<ComPtr, ComError>)
        requires
            old(self).wf(),
        ensures
            final(self).wf(),
            final(self).classes == old(self).classes,
            !registered(old(self).classes@, clsid) ==> r == Err::<ComPtr, ComError>(ComError::ClassNotRegistered)
                && final(self).instances@ == old(self).instances@,
            registered(old(self).classes@, clsid) ==> exists|c: int| #[trigger]
                first_class(old(self).classes@, clsid, c) && match resolve(
                    old(self).classes@[c].chains(),
                    target,
                ) {
                    None => r == Err::<ComPtr, ComError>(ComError::InterfaceNotSupported)
                        && final(self).instances@ == old(self).instances@,
                    Some((h, k)) => {
                        let i = old(self).instances@.len();
                        &&& r == Ok::<ComPtr, ComError>(ComPtr { instance: i as usize, block: h as usize, level: k as usize })
                        &&& final(self).instances@.len() == i + 1
                        &&& final(self).instances@.subrange(0, i as int) == old(self).instances@
                        &&& final(self).instances@[i as int].class == c
                        &&& final(self).instances@[i as int].refs == 1
                    },
                },
    {
        match self.get_class_object(clsid) {
            Err(e) => Err(e),
            Ok(f) => {
                assert(registered(self.classes@, clsid));
                self.create_instance(f, target)
            },
        }
    }

    /// Queries the instance behind `p` for `iid`. On a match the shared count
    /// goes up by one; on a miss nothing changes.
    pub fn query_interface(&mut self, p: ComPtr, iid: Iid) -> (r: Option<ComPtr>)
        requires
            old(self).live(p),
            old(self).refs_of(p) < u32::MAX,
        ensures
            r == query_result(old(self).class_of(p), p, iid),
            old(self).same_but(final(self), p.instance as int),
            final(self).instances@[p.instance as int].fields == old(self).instances@[p.instance as int].fields,
            final(self).refs_of(p) == old(self).refs_of(p) + if r is Some { 1int } else { 0int },
            final(self).wf(),
            r matches Some(q) ==> final(self).live(q),
    {
        let c = self.instances[p.instance].class;
        match self.classes[c].resolve(iid) {
            None => None,
            Some((h, k)) => {
                proof {
                    crate::dispatch::lemma_resolve_some(self.classes@[c as int].chains(), iid);
                }
                self.instances[p.instance].refs = self.instances[p.instance].refs + 1;
                Some(ComPtr { instance: p.instance, block: h, level: k })
            },
        }
    }

    /// Duplicates a reference: the shared count goes up by one. Returns the new count.
    pub fn add_ref(&mut self, p: ComPtr) -> (r: u32)
        requires
            old(self).live(p),
            old(self).refs_of(p) < u32::MAX,
        ensures
            r == old(self).refs_of(p) + 1,
            final(self).refs_of(p) == r,
            old(self).same_but(final(self), p.instance as int),
            final(self).instances@[p.instance as int].fields == old(self).instances@[p.instance as int].fields,
            final(self).wf(),
    {
        self.instances[p.instance].refs = self.instances[p.instance].refs + 1;
        self.instances[p.instance].refs
    }

    /// Gives up the reference held by `p`: the shared count goes down by one.
    /// The release that brings it to zero destroys the instance and frees its
    /// field storage. Returns the new count.
    pub fn release(&mut self, p: ComPtr) -> (r: u32)
        requires
            old(self).live(p),
        ensures
            r == old(self).refs_of(p) - 1,
            final(self).refs_of(p) == r,
            (r == 0) == destroys(old(self).refs_of(p)),
            old(self).same_but(final(self), p.instance as int),
            r == 0 ==> final(self).instances@[p.instance as int].fields@.len() == 0,
            r > 0 ==> final(self).instances@[p.instance as int].fields == old(self).instances@[p.instance as int].fields,
            final(self).wf(),
    {
        let n = self.instances[p.instance].refs - 1;
        self.instances[p.instance].refs = n;
        if n == 0 {
            self.instances[p.instance].fields = Vec::new();
        }
        n
    }

    /// The same block seen as the parent interface in its chain; the count is
    /// not touched. `None` when `p` is already the base interface.
    pub fn upcast(&self, p: ComPtr) -> (r: Option<ComPtr>)
        requires
            self.live(p),
        ensures
            r == upcast_result(self.class_of(p), p),
            r matches Some(q) ==> self.live(q),
    {
        let c = self.instances[p.instance].class;
        if p.level < self.classes[c].hierarchies[p.block].len() {
            Some(ComPtr { level: p.level + 1, ..p })
        } else {
            None
        }
    }

    /// The identity of the interface that `p` is typed as.
    pub fn interface_id(&self, p: ComPtr) -> (r: Iid)
        requires
            self.live(p),
        ensures
            r == interface_of(self.class_of(p), p),
    {
        let c = self.instances[p.instance].class;
        let chain = &self.classes[c].hierarchies[p.block];
        if p.level < chain.len() {
            chain[p.level]
        } else {
            crate::iid::iid_iunknown()
        }
    }

    /// The slots of the vtable block that `p` denotes.
    pub fn vtable(&self, p: ComPtr) -> (r: Vec<Slot>)
        requires
            self.live(p),
        ensures
            r@ == block_layout(self.class_of(p), p),
    {
        let c = self.instances[p.instance].class;
        self.classes[c].vtable_layout(p.block, p.level)
    }

    /// What slot `slot` of the block that `p` denotes forwards to; `None` past
    /// the block's end.
    pub fn dispatch(&self, p: ComPtr, slot: usize) -> (r: Option<Slot>)
        requires
            self.live(p),
        ensures
            slot < block_layout(self.class_of(p), p).len() ==> r == Some(block_layout(self.class_of(p), p)[slot as int]),
            slot >= block_layout(self.class_of(p), p).len() ==> r is None,
    {
        let v = self.vtable(p);
        if slot < v.len() {
            Some(v[slot])
        } else {
            None
        }
    }

    /// Reads field `i` of the instance behind `p`.
    pub fn field(&self, p: ComPtr, i: usize) -> (r: Option<i64>)
        requires
            self.live(p),
        ensures
            r == if i < self.instances@[p.instance as int].fields@.len() {
                Some(self.instances@[p.instance as int].fields@[i as int])
            } else {
                None::<i64>
            },
    {
        if i < self.instances[p.instance].fields.len() {
            Some(self.instances[p.instance].fields[i])
        } else {
            None
        }
    }

    /// Writes field `i` of the instance behind `p`; `false`, and nothing
    /// written, past the last field.
    pub fn set_field(&mut self, p: ComPtr, i: usize, v: i64) -> (r: bool)
        requires
            old(self).live(p),
        ensures
            r == (i < old(self).instances@[p.instance as int].fields@.len()),
            old(self).same_but(final(self), p.instance as int),
            final(self).refs_of(p) == old(self).refs_of(p),
            final(self).instances@[p.instance as int].fields@ == if r {
                old(self).instances@[p.instance as int].fields@.update(i as int, v)
            } else {
                old(self).instances@[p.instance as int].fields@
            },
            final(self).wf(),
    {
        if i < self.instances[p.instance].fields.len() {
            self.instances[p.instance].fields.set(i, v);
            true
        } else {
            false
        }
    }
}

/// Querying one declared root and then another succeeds in either order, and the
/// first query does not change what the second returns.
pub proof fn lemma_query_order(cls: CoClass, p: ComPtr, a: Iid, b: Iid, ha: int, hb: int)
    requires
        cls.wf(),
        ptr_in(cls, p),
        0 <= ha < cls.chains().len(),
        0 <= hb < cls.chains().len(),
        ha != hb,
        cls.chains()[ha].len() > 0 && a == cls.chains()[ha][0],
        cls.chains()[hb].len() > 0 && b == cls.chains()[hb][0],
    ensures
        query_result(cls, p, a) is Some,
        query_result(cls, p, b) is Some,
        query_result(cls, query_result(cls, p, a)->0, b) == query_result(cls, p, b),
        query_result(cls, query_result(cls, p, b)->0, a) == query_result(cls, p, a),
{
    let cs = cls.chains();
    assert(cs[ha][0] == a);
    assert(cs[hb][0] == b);
    crate::dispatch::lemma_resolve_some(cs, a);
    crate::dispatch::lemma_resolve_some(cs, b);
}

/// A query for an identity that the class declares nowhere yields no pointer.
pub proof fn lemma_query_miss(cls: CoClass, p: ComPtr, iid: Iid)
    requires
        cls.wf(),
        iid != iunknown_iid(),
        !crate::dispatch::implements(cls.chains(), iid),
    ensures
        query_result(cls, p, iid) is None,
{
    crate::dispatch::lemma_resolve_some(cls.chains(), iid);
}

/// Upcasting a queried pointer and querying back for the same identity gives
/// the very pointer that the first query gave; the ancestor's block is a
/// leading part of it.
pub proof fn lemma_upcast_round_trip(cls: CoClass, p: ComPtr, x: Iid, q: ComPtr, u: ComPtr)
    requires
        cls.wf(),
        query_result(cls, p, x) == Some(q),
        upcast_result(cls, q) == Some(u),
    ensures
        ptr_in(cls, q),
        ptr_in(cls, u),
        interface_of(cls, q) == x,
        query_result(cls, u, x) == Some(q),
        block_layout(cls, u).is_prefix_of(block_layout(cls, q)),
{
    let cs = cls.chains();
    if x != iunknown_iid() {
        let (h, k) = choose|h: int, k: int| crate::dispatch::first_at(cs, x, h, k);
        assert(cs[h] == cls.hierarchies@[h]@);
        assert(h < cls.hierarchies.len());
        assert(k < cls.hierarchies@[h].len());
        assert(q.block == h && q.level == k);
    } else {
        assert(cs[0] == cls.hierarchies@[0]@);
        assert(q.block == 0 && q.level == cls.hierarchies@[0].len());
    }
    crate::layout::lemma_layout_prefix(
        cls.bindings@,
        cls.hierarchies@[q.block as int]@,
        q.level as int,
        u.level as int,
    );
}

/// Starting from a shared count of `n` (one for each pointer handed out),
/// releasing fewer than `n` destroys nothing, and releasing all `n` destroys
/// the instance exactly once.
pub proof fn lemma_release_all(n: int, k: nat)
    requires
        n >= 1,
        k <= n,
    ensures
        destructions(n, k) == if k == n { 1nat } else { 0nat },
    decreases k,
{
    if k > 0 {
        lemma_release_all(n, (k - 1) as nat);
    }
}

} // verus!
