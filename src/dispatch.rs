use vstd::prelude::*;

use crate::class::CoClass;
use crate::iid::{iunknown_iid, Iid};

verus! {

/// `iid` occurs in some declared chain.
pub open spec fn implements(cs: Seq<Seq<Iid>>, iid: Iid) -> bool {
    exists|h: int, k: int| 0 <= h < cs.len() && 0 <= k < cs[h].len() && #[trigger] cs[h][k] == iid
}

/// `(h, k)` is the first place where `iid` occurs, chain by chain, each from the
/// declared interface towards its ancestors.
pub open spec fn first_at(cs: Seq<Seq<Iid>>, iid: Iid, h: int, k: int) -> bool {
    &&& 0 <= h < cs.len()
    &&& 0 <= k < cs[h].len()
    &&& cs[h][k] == iid
    &&& forall|g: int, j: int| 0 <= g < h && 0 <= j < cs[g].len() ==> #[trigger] cs[g][j] != iid
    &&& forall|j: int| 0 <= j < k ==> #[trigger] cs[h][j] != iid
}

/// The one vtable block, and the level in its chain, that answers a query for
/// `iid`: the base interface is answered by the first block; any other identity
/// by its first occurrence; `None` where the class does not implement it.
pub open spec fn resolve(cs: Seq<Seq<Iid>>, iid: Iid) -> Option<(int, int)> {
    if iid == iunknown_iid() {
        Some((0, cs[0].len() as int))
    } else if exists|h: int, k: int| first_at(cs, iid, h, k) {
        let (h, k) = choose|h: int, k: int| first_at(cs, iid, h, k);
        Some((h, k))
    } else {
        None
    }
}

pub proof fn lemma_first_at_unique(cs: Seq<Seq<Iid>>, iid: Iid, h1: int, k1: int, h2: int, k2: int)
    requires
        first_at(cs, iid, h1, k1),
        first_at(cs, iid, h2, k2),
    ensures
        h1 == h2 && k1 == k2,
{
    if h1 < h2 {
        assert(cs[h1][k1] != iid);
    } else if h2 < h1 {
        assert(cs[h2][k2] != iid);
    } else if k1 < k2 {
        assert(cs[h1][k1] != iid);
    } else if k2 < k1 {
        assert(cs[h2][k2] != iid);
    }
}

/// Every occurrence has a first one before it.
pub proof fn lemma_first_exists(cs: Seq<Seq<Iid>>, iid: Iid, h: int, k: int)
    requires
        0 <= h < cs.len(),
        0 <= k < cs[h].len(),
        cs[h][k] == iid,
    ensures
        exists|g: int, j: int| first_at(cs, iid, g, j),
    decreases h, k,
{
    if exists|g: int, j: int| 0 <= g < h && 0 <= j < cs[g].len() && #[trigger] cs[g][j] == iid {
        let (g, j) = choose|g: int, j: int|
            0 <= g < h && 0 <= j < cs[g].len() && #[trigger] cs[g][j] == iid;
        lemma_first_exists(cs, iid, g, j);
    } else if exists|j: int| 0 <= j < k && #[trigger] cs[h][j] == iid {
        let j = choose|j: int| 0 <= j < k && #[trigger] cs[h][j] == iid;
        lemma_first_exists(cs, iid, h, j);
    } else {
        assert(first_at(cs, iid, h, k));
    }
}

/// A query succeeds exactly for the base interface and the implemented identities.
pub proof fn lemma_resolve_some(cs: Seq<Seq<Iid>>, iid: Iid)
    ensures
        resolve(cs, iid) is Some <==> (iid == iunknown_iid() || implements(cs, iid)),
{
    if implements(cs, iid) {
        let (h, k) = choose|h: int, k: int|
            0 <= h < cs.len() && 0 <= k < cs[h].len() && #[trigger] cs[h][k] == iid;
        lemma_first_exists(cs, iid, h, k);
    }
}

impl CoClass {
    /// Finds the vtable block and level that answer a query for `iid`.
    pub fn resolve(&self, iid: Iid) -> (r: Option<(usize, usize)>)
        requires
            self.wf(),
        ensures
            match r {
                Some((h, k)) => resolve(self.chains(), iid) == Some((h as int, k as int)),
                None => resolve(self.chains(), iid) is None,
            },
    {
        let ghost cs = self.chains();
        assert(cs.len() > 0);
        if iid == crate::iid::iid_iunknown() {
            return Some((0, self.hierarchies[0].len()));
        }
        let mut h: usize = 0;
        while h < self.hierarchies.len()
            invariant
                cs == self.chains(),
                iid != iunknown_iid(),
                h <= cs.len(),
                forall|g: int, j: int| 0 <= g < h && 0 <= j < cs[g].len() ==> #[trigger] cs[g][j] != iid,
            decreases self.hierarchies.len() - h,
        {
            let chain = &self.hierarchies[h];
            let mut k: usize = 0;
            while k < chain.len()
                invariant
                    cs == self.chains(),
                    iid != iunknown_iid(),
                    h < cs.len(),
                    chain@ == cs[h as int],
                    forall|g: int, j: int| 0 <= g < h && 0 <= j < cs[g].len() ==> #[trigger] cs[g][j] != iid,
                    forall|j: int| 0 <= j < k && j < cs[h as int].len() ==> #[trigger] cs[h as int][j] != iid,
                decreases chain.len() - k,
            {
                if chain[k] == iid {
                    assert(first_at(cs, iid, h as int, k as int));
                    proof {
                        assert(exists|h2: int, k2: int| first_at(cs, iid, h2, k2));
                        let (h2, k2) = choose|h2: int, k2: int| first_at(cs, iid, h2, k2);
                        lemma_first_at_unique(cs, iid, h as int, k as int, h2, k2);
                        assert(resolve(cs, iid) == Some((h2, k2)));
                    }
                    return Some((h, k));
                }
                k = k + 1;
            }
            h = h + 1;
        }
        assert(!exists|g: int, j: int| first_at(cs, iid, g, j));
        None
    }
}

} // verus!
