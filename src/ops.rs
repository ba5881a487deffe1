use std::collections::HashSet;
use vstd::prelude::*;

verus! {

broadcast use vstd::std_specs::hash::group_hash_axioms;

/// Addresses at or below this bound are never real heap blocks: containers
/// that own no allocation hold a small dangling address instead.
pub const EMPTY_ADDRESS_BOUND: usize = 256;

/// Whether `addr` stands for "no allocation".
pub open spec fn is_empty_address(addr: usize) -> bool {
    addr <= EMPTY_ADDRESS_BOUND
}

/// What the measurement contracts know of the allocator: which sizes the
/// size function may report for some block, whether an enclosing-size
/// function exists, and which sizes it may report for some interior address.
pub struct SizeModel {
    pub block_size: spec_fn(usize) -> bool,
    pub has_enclosing: bool,
    pub enclosing_block_size: spec_fn(usize) -> bool,
}

/// The allocator-facing functions of a measurement pass.
///
/// `size_of_op` maps the start address of a heap block to the size of that
/// block; `enclosing_size_of_op`, when present, maps any address inside a
/// block to the size of the whole block.
pub struct AllocatorFns<F> {
    pub size_of_op: F,
    pub enclosing_size_of_op: Option<F>,
}

impl<F: Fn(usize) -> usize> AllocatorFns<F> {
    /// The functions accept every address that is not an empty-allocation
    /// sentinel.
    pub open spec fn wf(self) -> bool {
        &&& forall|a: usize| !is_empty_address(a) ==> call_requires(self.size_of_op, (a,))
        &&& forall|a: usize|
            !is_empty_address(a) && self.enclosing_size_of_op is Some ==> call_requires(
                self.enclosing_size_of_op->Some_0,
                (a,),
            )
    }

    /// `r` is a size that `malloc_size_of` may report for the block at `addr`.
    pub open spec fn reports_size(self, addr: usize, r: usize) -> bool {
        if is_empty_address(addr) {
            r == 0
        } else {
            call_ensures(self.size_of_op, (addr,), r)
        }
    }

    /// `r` is a size that the enclosing-size function may report for the
    /// block holding the interior address `addr`.
    pub open spec fn reports_enclosing_size(self, addr: usize, r: usize) -> bool {
        &&& self.enclosing_size_of_op is Some
        &&& !is_empty_address(addr)
        &&& call_ensures(self.enclosing_size_of_op->Some_0, (addr,), r)
    }

    /// `r` is the size of some heap block, as the size function reports it.
    pub open spec fn is_block_size(self, r: usize) -> bool {
        exists|addr: usize| self.reports_size(addr, r)
    }

    /// `r` is the size of some heap block found from an interior address.
    pub open spec fn is_enclosing_block_size(self, r: usize) -> bool {
        exists|addr: usize| self.reports_enclosing_size(addr, r)
    }

    /// The sizes these functions may report, without the functions.
    pub open spec fn model(self) -> SizeModel {
        SizeModel {
            block_size: |r: usize| self.is_block_size(r),
            has_enclosing: self.enclosing_size_of_op is Some,
            enclosing_block_size: |r: usize| self.is_enclosing_block_size(r),
        }
    }
}

/// Operations used when measuring the heap usage of data structures: the
/// allocator's functions, and the set of addresses already seen in this pass
/// when the pass deduplicates shared blocks.
pub struct MallocSizeOfOps<F> {
    fns: AllocatorFns<F>,
    seen: Option<HashSet<usize>>,
}

impl<F: Fn(usize) -> usize> MallocSizeOfOps<F> {
    /// The allocator's functions, which no measurement changes.
    pub closed spec fn fns(&self) -> AllocatorFns<F> {
        self.fns
    }

    /// The addresses recorded as seen, or `None` when the pass does not
    /// track them.
    pub closed spec fn seen_addresses(&self) -> Option<Set<usize>> {
        match self.seen {
            Some(s) => Some(s@),
            None => None,
        }
    }

    /// Whether the pass tracks seen addresses.
    pub open spec fn tracks_seen(&self) -> bool {
        self.seen_addresses() is Some
    }

    /// Whether an enclosing-size function was supplied.
    pub open spec fn has_enclosing(&self) -> bool {
        self.fns().enclosing_size_of_op is Some
    }

    /// The operations of one measurement pass: the allocator's size
    /// function, its enclosing-size function if it has one, and whether the
    /// pass records seen addresses (starting from none).
    pub fn new(
        size_of: F,
        malloc_enclosing_size_of: Option<F>,
        track_seen: bool,
    ) -> (r: Self)
        ensures
            r.fns().size_of_op == size_of,
            r.fns().enclosing_size_of_op == malloc_enclosing_size_of,
            r.seen_addresses() == (if track_seen {
                Some(Set::<usize>::empty())
            } else {
                None::<Set<usize>>
            }),
    {
        let seen = if track_seen {
            Some(HashSet::new())
        } else {
            None
        };
        MallocSizeOfOps {
            fns: AllocatorFns { size_of_op: size_of, enclosing_size_of_op: malloc_enclosing_size_of },
            seen,
        }
    }

    /// Whether `addr` stands for "no allocation".
    pub fn is_empty(addr: usize) -> (r: bool)
        ensures
            r == is_empty_address(addr),
    {
        addr <= EMPTY_ADDRESS_BOUND
    }

    /// The size of the heap block that starts at `addr`; 0, without asking
    /// the allocator, when `addr` is an empty-allocation sentinel.
    pub fn malloc_size_of(&self, addr: usize) -> (r: usize)
        requires
            self.fns().wf(),
        ensures
            self.fns().reports_size(addr, r),
    {
        if Self::is_empty(addr) {
            0
        } else {
            (self.fns.size_of_op)(addr)
        }
    }

    /// Whether an enclosing-size function is available.
    pub fn has_malloc_enclosing_size_of(&self) -> (r: bool)
        ensures
            r == self.has_enclosing(),
    {
        self.fns.enclosing_size_of_op.is_some()
    }

    /// The size of the whole heap block that holds the interior address
    /// `addr`.
    pub fn malloc_enclosing_size_of(&self, addr: usize) -> (r: usize)
        requires
            self.fns().wf(),
            self.has_enclosing(),
            !is_empty_address(addr),
        ensures
            self.fns().reports_enclosing_size(addr, r),
    {
        match &self.fns.enclosing_size_of_op {
            Some(f) => f(addr),
            None => 0,
        }
    }

    /// Records `addr` as seen and says whether it had been seen before.
    pub fn have_seen_ptr(&mut self, addr: usize) -> (r: bool)
        requires
            old(self).tracks_seen(),
        ensures
            final(self).fns() == old(self).fns(),
            r == old(self).seen_addresses()->Some_0.contains(addr),
            final(self).seen_addresses() == Some(old(self).seen_addresses()->Some_0.insert(addr)),
    {
        match &mut self.seen {
            Some(s) => !s.insert(addr),
            None => false,
        }
    }
}

} // verus!
