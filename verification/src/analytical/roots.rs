use vstd::prelude::*;

use crate::float::FloatType;

verus! {

/// The bounded container in which the closed-form solvers hand back their
/// results: at most four numbers, built through one explicit constructor per
/// cardinality, and read back through [`Roots::next`].
#[derive(Clone, Copy, Debug, PartialEq)]
pub struct Roots<F: FloatType> {
    pub roots: [F; 4],
    pub num_roots: usize,
    pub cursor: usize,
}

/// A freshly constructed container holding exactly the roots `s`: well
/// formed, not yet read from, and viewed as `s`.
pub open spec fn is_root_set<F: FloatType>(r: Roots<F>, s: Seq<F>) -> bool {
    &&& r.spec_wf()
    &&& r.cursor == 0
    &&& r.spec_seq() == s
}

impl<F: FloatType> Roots<F> {
    /// Well-formedness: the count fits the storage and the read cursor never
    /// passes the count.
    pub open spec fn spec_wf(self) -> bool {
        &&& self.num_roots <= 4
        &&& self.cursor <= self.num_roots
    }

    /// The roots held, in the order they were supplied.
    pub open spec fn spec_seq(self) -> Seq<F> {
        self.roots@.take(self.num_roots as int)
    }

    /// An empty set of roots.
    pub fn zero() -> (r: Self)
        ensures
            is_root_set(r, Seq::<F>::empty()),
    {
        let r = Roots { roots: [F::zero(), F::zero(), F::zero(), F::zero()], num_roots: 0, cursor: 0 };
        proof {
            assert(r.spec_seq() =~= Seq::<F>::empty());
        }
        r
    }

    /// Exactly one root.
    pub fn one(root: F) -> (r: Self)
        ensures
            is_root_set(r, seq![root]),
    {
        let r = Roots { roots: [root, F::zero(), F::zero(), F::zero()], num_roots: 1, cursor: 0 };
        proof {
            assert(r.spec_seq() =~= seq![root]);
        }
        r
    }

    /// Exactly two roots, in the order given.
    pub fn two(root1: F, root2: F) -> (r: Self)
        ensures
            is_root_set(r, seq![root1, root2]),
    {
        let r = Roots { roots: [root1, root2, F::zero(), F::zero()], num_roots: 2, cursor: 0 };
        proof {
            assert(r.spec_seq() =~= seq![root1, root2]);
        }
        r
    }

    /// Exactly three roots, in the order given.
    pub fn three(root1: F, root2: F, root3: F) -> (r: Self)
        ensures
            is_root_set(r, seq![root1, root2, root3]),
    {
        let r = Roots { roots: [root1, root2, root3, F::zero()], num_roots: 3, cursor: 0 };
        proof {
            assert(r.spec_seq() =~= seq![root1, root2, root3]);
        }
        r
    }

    /// Exactly four roots, in the order given.
    pub fn four(root1: F, root2: F, root3: F, root4: F) -> (r: Self)
        ensures
            is_root_set(r, seq![root1, root2, root3, root4]),
    {
        let r = Roots { roots: [root1, root2, root3, root4], num_roots: 4, cursor: 0 };
        proof {
            assert(r.spec_seq() =~= seq![root1, root2, root3, root4]);
        }
        r
    }

    /// Sorted dynamic insertion is not offered by this container: the call
    /// accepts the value for interface compatibility and leaves the set
    /// unchanged. Results are built through the fixed-arity constructors.
    pub fn add_new_root(&mut self, root: F)
        ensures
            *final(self) == *old(self),
    {
        let _ = root;
    }

    /// Hands out the stored roots one by one, in order; `None` once all have
    /// been read.
    pub fn next(&mut self) -> (r: Option<F>)
        requires
            old(self).spec_wf(),
        ensures
            final(self).spec_wf(),
            final(self).roots == old(self).roots,
            final(self).num_roots == old(self).num_roots,
            old(self).cursor < old(self).num_roots ==> r == Some(
                old(self).roots@[old(self).cursor as int],
            ) && final(self).cursor == old(self).cursor + 1,
            old(self).cursor >= old(self).num_roots ==> r == None::<F> && final(self).cursor == old(
                self,
            ).cursor,
    {
        if self.cursor == self.num_roots {
            None
        } else {
            let root = self.roots[self.cursor];
            self.cursor = self.cursor + 1;
            Some(root)
        }
    }
}

/// Packs at most four collected roots into a container.
pub(crate) fn roots_from_vec<F: FloatType>(xs: &Vec<F>) -> (r: Roots<F>)
    requires
        xs@.len() <= 4,
    ensures
        is_root_set(r, xs@),
{
    let r = if xs.len() == 0 {
        Roots::zero()
    } else if xs.len() == 1 {
        Roots::one(xs[0])
    } else if xs.len() == 2 {
        Roots::two(xs[0], xs[1])
    } else if xs.len() == 3 {
        Roots::three(xs[0], xs[1], xs[2])
    } else {
        Roots::four(xs[0], xs[1], xs[2], xs[3])
    };
    proof {
        assert(r.spec_seq() =~= xs@);
    }
    r
}

} // verus!
