//! The parents a node is built with: each a parent's index, that parent's
//! depth and the relationship to it, none twice.
use crate::executor::depth_below;
use crate::Relationship;
use vstd::prelude::*;

verus! {

/// A parent: its index, its depth and the relationship to it.
pub type Parent = (usize, u32, Relationship);

/// A set of parents, kept in the order they were added.
pub struct Parents {
    items: Vec<Parent>,
}

impl Parents {
    /// The parents, in the order they were added.
    pub closed spec fn view(&self) -> Seq<Parent> {
        self.items@
    }

    /// No parent occurs twice.
    #[verifier::type_invariant]
    closed spec fn inv(&self) -> bool {
        self.items@.no_duplicates()
    }

    /// No parents.
    pub fn new() -> (p: Self)
        ensures
            p@ == Seq::<Parent>::empty(),
    {
        Parents { items: Vec::new() }
    }

    /// Whether `parent` was added.
    pub fn contains(&self, parent: Parent) -> (b: bool)
        ensures
            b == self@.contains(parent),
    {
        let mut i: usize = 0;
        while i < self.items.len()
            invariant
                0 <= i <= self.items@.len(),
                forall|j: int| 0 <= j < i ==> self.items@[j] != parent,
            decreases self.items@.len() - i,
        {
            let q = self.items[i];
            if q.0 == parent.0 && q.1 == parent.1 && q.2 == parent.2 {
                assert(self.items@[i as int] == parent);
                return true;
            }
            i = i + 1;
        }
        false
    }

    /// Adds a parent; adding one twice is refused by `requires`.
    pub fn add(&mut self, parent: Parent)
        requires
            !old(self)@.contains(parent),
        ensures
            final(self)@ == old(self)@.push(parent),
    {
        proof {
            use_type_invariant(&*self);
        }
        let mut items = Vec::new();
        std::mem::swap(&mut items, &mut self.items);
        items.push(parent);
        proof {
            assert forall|a: int, b: int| 0 <= a < b < items@.len() implies items@[a] != items@[b] by {
                if b == items@.len() - 1 {
                    assert(old(self)@[a] == items@[a]);
                    assert(old(self)@.contains(items@[a]));
                }
            }
        }
        self.items = items;
    }

    /// Number of parents.
    pub fn len(&self) -> (n: usize)
        ensures
            n == self@.len(),
    {
        self.items.len()
    }

    /// The parents, in the order they were added.
    pub fn as_vec(&self) -> (v: &Vec<Parent>)
        ensures
            v@ == self@,
    {
        &self.items
    }

    /// The depth of a node with these parents: one below the deepest parent,
    /// 0 without parents; `None` when that is past the largest depth.
    pub fn child_depth(&self) -> (d: Option<u32>)
        ensures
            d matches Some(x) ==> x == depth_below(self@),
            d is None ==> depth_below(self@) > u32::MAX,
    {
        let mut deepest: Option<u32> = None;
        let mut k: usize = 0;
        while k < self.items.len()
            invariant
                0 <= k <= self.items@.len(),
                match deepest {
                    Some(m) => m == crate::executor::max_parent_depth(self.items@.subrange(0, k as int)),
                    None => crate::executor::max_parent_depth(self.items@.subrange(0, k as int)) == -1,
                },
            decreases self.items@.len() - k,
        {
            proof {
                assert(self.items@.subrange(0, k + 1).drop_last() =~= self.items@.subrange(0, k as int));
            }
            let pd = self.items[k].1;
            match deepest {
                Some(m) => {
                    if pd > m {
                        deepest = Some(pd);
                    }
                },
                None => {
                    deepest = Some(pd);
                },
            }
            k = k + 1;
        }
        proof {
            assert(self.items@.subrange(0, self.items@.len() as int) =~= self.items@);
        }
        match deepest {
            Some(m) => if m < u32::MAX {
                Some(m + 1)
            } else {
                None
            },
            None => Some(0),
        }
    }
}

} // verus!
