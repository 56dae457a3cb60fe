use vstd::prelude::*;

use crate::iid::Iid;

verus! {

/// Why a class description was rejected before any instance of it could exist.
#[derive(Clone, Copy, Debug, PartialEq, Eq, Structural)]
pub enum GenError {
    /// The class declares no hierarchy, or a hierarchy with no interface.
    EmptyDeclaration,
    /// A declared parent chain names one identity twice.
    CyclicHierarchy,
    /// An interface reachable from a declared root has no method binding.
    MissingImplementation,
}

/// The method bodies that a class binds to one interface, in declaration order.
pub struct Binding {
    pub iid: Iid,
    pub methods: Vec<String>,
}

/// A class description: its identity, its declared hierarchies, its method
/// bindings and its fields.
///
/// `hierarchies[h][0]` is the interface declared on the class; `hierarchies[h][k + 1]`
/// is the parent of `hierarchies[h][k]`; the last one of each chain inherits the
/// universal base interface.
pub struct CoClass {
    pub clsid: Iid,
    pub name: String,
    pub hierarchies: Vec<Vec<Iid>>,
    pub bindings: Vec<Binding>,
    pub fields: Vec<String>,
}

/// The declared chains, as sequences of identities.
pub open spec fn chains_of(hs: Seq<Vec<Iid>>) -> Seq<Seq<Iid>> {
    hs.map_values(|c: Vec<Iid>| c@)
}

/// At least one hierarchy, and no empty chain.
pub open spec fn declared(hs: Seq<Seq<Iid>>) -> bool {
    hs.len() > 0 && forall|h: int| 0 <= h < hs.len() ==> #[trigger] hs[h].len() > 0
}

/// No identity occurs twice in one chain.
pub open spec fn acyclic(c: Seq<Iid>) -> bool {
    forall|i: int, j: int| 0 <= i < j < c.len() ==> c[i] != c[j]
}

pub open spec fn all_acyclic(hs: Seq<Seq<Iid>>) -> bool {
    forall|h: int| 0 <= h < hs.len() ==> acyclic(#[trigger] hs[h])
}

pub open spec fn has_binding(bs: Seq<Binding>, iid: Iid) -> bool {
    exists|i: int| 0 <= i < bs.len() && (#[trigger] bs[i]).iid == iid
}

/// Every interface of every chain has a binding.
pub open spec fn all_bound(hs: Seq<Seq<Iid>>, bs: Seq<Binding>) -> bool {
    forall|h: int, k: int|
        0 <= h < hs.len() && 0 <= k < hs[h].len() ==> has_binding(bs, #[trigger] hs[h][k])
}

/// The outcome of checking a description, in the order the checks are made.
pub open spec fn check_spec(hs: Seq<Seq<Iid>>, bs: Seq<Binding>) -> Result<(), GenError> {
    if !declared(hs) {
        Err(GenError::EmptyDeclaration)
    } else if !all_acyclic(hs) {
        Err(GenError::CyclicHierarchy)
    } else if !all_bound(hs, bs) {
        Err(GenError::MissingImplementation)
    } else {
        Ok(())
    }
}

impl CoClass {
    pub open spec fn chains(&self) -> Seq<Seq<Iid>> {
        chains_of(self.hierarchies@)
    }

    pub open spec fn wf(&self) -> bool {
        check_spec(self.chains(), self.bindings@) is Ok
    }
}

fn chain_is_acyclic(c: &Vec<Iid>) -> (r: bool)
    ensures
        r == acyclic(c@),
{
    let mut j: usize = 1;
    while j < c.len()
        invariant
            forall|a: int, b: int| 0 <= a < b < j && b < c@.len() ==> c@[a] != c@[b],
        decreases c.len() - j,
    {
        let mut i: usize = 0;
        while i < j
            invariant
                j < c@.len(),
                i <= j,
                forall|a: int, b: int| 0 <= a < b < j ==> c@[a] != c@[b],
                forall|a: int| 0 <= a < i ==> c@[a] != c@[j as int],
            decreases j - i,
        {
            if c[i] == c[j] {
                return false;
            }
            i = i + 1;
        }
        j = j + 1;
    }
    true
}

/// The first binding for `iid`.
pub(crate) fn find_binding(bs: &Vec<Binding>, iid: Iid) -> (r: Option<usize>)
    ensures
        match r {
            Some(i) => i < bs@.len() && bs@[i as int].iid == iid && forall|j: int|
                0 <= j < i ==> (#[trigger] bs@[j]).iid != iid,
            None => !has_binding(bs@, iid),
        },
{
    let mut i: usize = 0;
    while i < bs.len()
        invariant
            forall|j: int| 0 <= j < i && j < bs@.len() ==> (#[trigger] bs@[j]).iid != iid,
        decreases bs.len() - i,
    {
        if bs[i].iid == iid {
            return Some(i);
        }
        i = i + 1;
    }
    None
}

/// Checks a class description: declared, then acyclic, then fully bound.
pub fn check_description(hs: &Vec<Vec<Iid>>, bs: &Vec<Binding>) -> (r: Result<(), GenError>)
    ensures
        r == check_spec(chains_of(hs@), bs@),
{
    let ghost cs = chains_of(hs@);
    if hs.len() == 0 {
        return Err(GenError::EmptyDeclaration);
    }
    let mut h: usize = 0;
    while h < hs.len()
        invariant
            cs == chains_of(hs@),
            forall|g: int| 0 <= g < h && g < cs.len() ==> #[trigger] cs[g].len() > 0,
        decreases hs.len() - h,
    {
        if hs[h].len() == 0 {
            assert(cs[h as int].len() == 0);
            return Err(GenError::EmptyDeclaration);
        }
        h = h + 1;
    }
    assert(declared(cs));
    let mut h: usize = 0;
    while h < hs.len()
        invariant
            cs == chains_of(hs@),
            declared(cs),
            forall|g: int| 0 <= g < h && g < cs.len() ==> acyclic(#[trigger] cs[g]),
        decreases hs.len() - h,
    {
        if !chain_is_acyclic(&hs[h]) {
            assert(!acyclic(cs[h as int]));
            return Err(GenError::CyclicHierarchy);
        }
        h = h + 1;
    }
    assert(all_acyclic(cs));
    let mut h: usize = 0;
    while h < hs.len()
        invariant
            cs == chains_of(hs@),
            declared(cs),
            all_acyclic(cs),
            forall|g: int, k: int|
                0 <= g < h && g < cs.len() && 0 <= k < cs[g].len() ==> has_binding(
                    bs@,
                    #[trigger] cs[g][k],
                ),
        decreases hs.len() - h,
    {
        let chain = &hs[h];
        let mut k: usize = 0;
        while k < chain.len()
            invariant
                cs == chains_of(hs@),
                declared(cs),
                all_acyclic(cs),
                h < hs@.len(),
                chain@ == cs[h as int],
                forall|g: int, k: int|
                    0 <= g < h && g < cs.len() && 0 <= k < cs[g].len() ==> has_binding(
                        bs@,
                        #[trigger] cs[g][k],
                    ),
                forall|j: int| 0 <= j < k && j < chain@.len() ==> has_binding(bs@, #[trigger] cs[h as int][j]),
            decreases chain.len() - k,
        {
            if find_binding(bs, chain[k]).is_none() {
                assert(!has_binding(bs@, cs[h as int][k as int]));
                return Err(GenError::MissingImplementation);
            }
            k = k + 1;
        }
        h = h + 1;
    }
    Ok(())
}

impl CoClass {
    /// Builds a class description, rejecting one that is empty, cyclic or not
    /// fully bound.
    pub fn new(
        clsid: Iid,
        name: String,
        hierarchies: Vec<Vec<Iid>>,
        bindings: Vec<Binding>,
        fields: Vec<String>,
    ) -> (r: Result<CoClass, GenError>)
        ensures
            match r {
                Ok(c) => c.wf() && c.clsid == clsid && c.name == name && c.hierarchies == hierarchies
                    && c.bindings == bindings && c.fields == fields,
                Err(e) => check_spec(chains_of(hierarchies@), bindings@) == Err::<(), GenError>(e),
            },
    {
        match check_description(&hierarchies, &bindings) {
            Ok(()) => Ok(CoClass { clsid, name, hierarchies, bindings, fields }),
            Err(e) => Err(e),
        }
    }
}

} // verus!
