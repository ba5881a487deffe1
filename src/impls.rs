use crate::measure::{
    any_records_seen, entries_cover_map, entries_in_map, entries_report, entry_reports, items_cover_set, items_report, parts_report, sat_add, sat_mul, size_of_items, sum_onto,
    MallocShallowSizeOf, MallocSizeOf,
};
use vstd::std_specs::btree::{key_obeys_cmp_spec, spec_btree_map_iter, spec_btree_map_len};
use vstd::std_specs::hash::{
    builds_valid_hashers, obeys_key_model, spec_hash_keys_iter, spec_hash_map_iter,
    spec_hash_map_len, spec_hash_set_len,
};
use vstd::std_specs::iter::IteratorSpec;
use crate::ops::{MallocSizeOfOps, SizeModel};
use std::collections::{BTreeMap, HashMap, HashSet, VecDeque};
use std::borrow::{Cow, ToOwned};
use std::cell::Cell;
use std::sync::{Mutex, MutexGuard, PoisonError, TryLockError};
use std::marker::PhantomData;
use std::sync::atomic::{
    AtomicBool, AtomicI16, AtomicI32, AtomicI64, AtomicI8, AtomicIsize, AtomicU16, AtomicU32,
    AtomicU64, AtomicU8, AtomicUsize,
};
use std::ops::{Range, RangeFrom, RangeInclusive, RangeTo};
use vstd::prelude::*;

verus! {

impl MallocSizeOf for () {
    open spec fn reports_deep_size(&self, m: SizeModel, r: usize) -> bool {
        r == 0
    }

    open spec fn records_seen(&self) -> bool {
        false
    }

    fn size_of<F: Fn(usize) -> usize>(&self, ops: &mut MallocSizeOfOps<F>) -> (r: usize) {
        0
    }
}

impl MallocSizeOf for bool {
    open spec fn reports_deep_size(&self, m: SizeModel, r: usize) -> bool {
        r == 0
    }

    open spec fn records_seen(&self) -> bool {
        false
    }

    fn size_of<F: Fn(usize) -> usize>(&self, ops: &mut MallocSizeOfOps<F>) -> (r: usize) {
        0
    }
}

impl MallocSizeOf for char {
    open spec fn reports_deep_size(&self, m: SizeModel, r: usize) -> bool {
        r == 0
    }

    open spec fn records_seen(&self) -> bool {
        false
    }

    fn size_of<F: Fn(usize) -> usize>(&self, ops: &mut MallocSizeOfOps<F>) -> (r: usize) {
        0
    }
}

impl MallocSizeOf for str {
    open spec fn reports_deep_size(&self, m: SizeModel, r: usize) -> bool {
        r == 0
    }

    open spec fn records_seen(&self) -> bool {
        false
    }

    fn size_of<F: Fn(usize) -> usize>(&self, ops: &mut MallocSizeOfOps<F>) -> (r: usize) {
        0
    }
}

impl MallocSizeOf for u8 {
    open spec fn reports_deep_size(&self, m: SizeModel, r: usize) -> bool {
        r == 0
    }

    open spec fn records_seen(&self) -> bool {
        false
    }

    fn size_of<F: Fn(usize) -> usize>(&self, ops: &mut MallocSizeOfOps<F>) -> (r: usize) {
        0
    }
}

impl MallocSizeOf for u16 {
    open spec fn reports_deep_size(&self, m: SizeModel, r: usize) -> bool {
        r == 0
    }

    open spec fn records_seen(&self) -> bool {
        false
    }

    fn size_of<F: Fn(usize) -> usize>(&self, ops: &mut MallocSizeOfOps<F>) -> (r: usize) {
        0
    }
}

impl MallocSizeOf for u32 {
    open spec fn reports_deep_size(&self, m: SizeModel, r: usize) -> bool {
        r == 0
    }

    open spec fn records_seen(&self) -> bool {
        false
    }

    fn size_of<F: Fn(usize) -> usize>(&self, ops: &mut MallocSizeOfOps<F>) -> (r: usize) {
        0
    }
}

impl MallocSizeOf for u64 {
    open spec fn reports_deep_size(&self, m: SizeModel, r: usize) -> bool {
        r == 0
    }

    open spec fn records_seen(&self) -> bool {
        false
    }

    fn size_of<F: Fn(usize) -> usize>(&self, ops: &mut MallocSizeOfOps<F>) -> (r: usize) {
        0
    }
}

impl MallocSizeOf for u128 {
    open spec fn reports_deep_size(&self, m: SizeModel, r: usize) -> bool {
        r == 0
    }

    open spec fn records_seen(&self) -> bool {
        false
    }

    fn size_of<F: Fn(usize) -> usize>(&self, ops: &mut MallocSizeOfOps<F>) -> (r: usize) {
        0
    }
}

impl MallocSizeOf for usize {
    open spec fn reports_deep_size(&self, m: SizeModel, r: usize) -> bool {
        r == 0
    }

    open spec fn records_seen(&self) -> bool {
        false
    }

    fn size_of<F: Fn(usize) -> usize>(&self, ops: &mut MallocSizeOfOps<F>) -> (r: usize) {
        0
    }
}

impl MallocSizeOf for i8 {
    open spec fn reports_deep_size(&self, m: SizeModel, r: usize) -> bool {
        r == 0
    }

    open spec fn records_seen(&self) -> bool {
        false
    }

    fn size_of<F: Fn(usize) -> usize>(&self, ops: &mut MallocSizeOfOps<F>) -> (r: usize) {
        0
    }
}

impl MallocSizeOf for i16 {
    open spec fn reports_deep_size(&self, m: SizeModel, r: usize) -> bool {
        r == 0
    }

    open spec fn records_seen(&self) -> bool {
        false
    }

    fn size_of<F: Fn(usize) -> usize>(&self, ops: &mut MallocSizeOfOps<F>) -> (r: usize) {
        0
    }
}

impl MallocSizeOf for i32 {
    open spec fn reports_deep_size(&self, m: SizeModel, r: usize) -> bool {
        r == 0
    }

    open spec fn records_seen(&self) -> bool {
        false
    }

    fn size_of<F: Fn(usize) -> usize>(&self, ops: &mut MallocSizeOfOps<F>) -> (r: usize) {
        0
    }
}

impl MallocSizeOf for i64 {
    open spec fn reports_deep_size(&self, m: SizeModel, r: usize) -> bool {
        r == 0
    }

    open spec fn records_seen(&self) -> bool {
        false
    }

    fn size_of<F: Fn(usize) -> usize>(&self, ops: &mut MallocSizeOfOps<F>) -> (r: usize) {
        0
    }
}

impl MallocSizeOf for i128 {
    open spec fn reports_deep_size(&self, m: SizeModel, r: usize) -> bool {
        r == 0
    }

    open spec fn records_seen(&self) -> bool {
        false
    }

    fn size_of<F: Fn(usize) -> usize>(&self, ops: &mut MallocSizeOfOps<F>) -> (r: usize) {
        0
    }
}

impl MallocSizeOf for isize {
    open spec fn reports_deep_size(&self, m: SizeModel, r: usize) -> bool {
        r == 0
    }

    open spec fn records_seen(&self) -> bool {
        false
    }

    fn size_of<F: Fn(usize) -> usize>(&self, ops: &mut MallocSizeOfOps<F>) -> (r: usize) {
        0
    }
}

impl<T: ?Sized> MallocSizeOf for &'_ T {
    open spec fn reports_deep_size(&self, m: SizeModel, r: usize) -> bool {
        r == 0
    }

    open spec fn records_seen(&self) -> bool {
        false
    }

    fn size_of<F: Fn(usize) -> usize>(&self, ops: &mut MallocSizeOfOps<F>) -> (r: usize) {
        0
    }
}

impl<T: ?Sized> MallocSizeOf for &'_ mut T {
    open spec fn reports_deep_size(&self, m: SizeModel, r: usize) -> bool {
        r == 0
    }

    open spec fn records_seen(&self) -> bool {
        false
    }

    fn size_of<F: Fn(usize) -> usize>(&self, ops: &mut MallocSizeOfOps<F>) -> (r: usize) {
        0
    }
}

impl<T> MallocSizeOf for PhantomData<T> {
    open spec fn reports_deep_size(&self, m: SizeModel, r: usize) -> bool {
        r == 0
    }

    open spec fn records_seen(&self) -> bool {
        false
    }

    fn size_of<F: Fn(usize) -> usize>(&self, ops: &mut MallocSizeOfOps<F>) -> (r: usize) {
        0
    }
}

impl<T: MallocSizeOf, const N: usize> MallocSizeOf for [T; N] {
    open spec fn reports_deep_size(&self, m: SizeModel, r: usize) -> bool {
        exists|parts: Seq<usize>| parts_report(self@, m, parts) && r == sum_onto(0, parts)
    }

    open spec fn records_seen(&self) -> bool {
        any_records_seen(self@)
    }

    fn size_of<F: Fn(usize) -> usize>(&self, ops: &mut MallocSizeOfOps<F>) -> (r: usize) {
        size_of_items(self.as_slice(), 0, ops)
    }
}

impl<T: MallocSizeOf> MallocSizeOf for [T] {
    open spec fn reports_deep_size(&self, m: SizeModel, r: usize) -> bool {
        exists|parts: Seq<usize>| parts_report(self@, m, parts) && r == sum_onto(0, parts)
    }

    open spec fn records_seen(&self) -> bool {
        any_records_seen(self@)
    }

    fn size_of<F: Fn(usize) -> usize>(&self, ops: &mut MallocSizeOfOps<F>) -> (r: usize) {
        size_of_items(self, 0, ops)
    }
}

impl<T1: MallocSizeOf, T2: MallocSizeOf> MallocSizeOf for (T1, T2) {
    open spec fn reports_deep_size(&self, m: SizeModel, r: usize) -> bool {
        exists|a: usize, b: usize|
            self.0.reports_deep_size(m, a) && self.1.reports_deep_size(m, b) && r == sat_add(a, b)
    }

    open spec fn records_seen(&self) -> bool {
        self.0.records_seen() || self.1.records_seen()
    }

    fn size_of<F: Fn(usize) -> usize>(&self, ops: &mut MallocSizeOfOps<F>) -> (r: usize) {
        let ghost m = ops.fns().model();
        let a = self.0.size_of(ops);
        let b = self.1.size_of(ops);
        let r = a.saturating_add(b);
        assert(self.0.reports_deep_size(m, a) && self.1.reports_deep_size(m, b) && r == sat_add(a, b));
        r
    }
}

impl<T1: MallocSizeOf, T2: MallocSizeOf, T3: MallocSizeOf> MallocSizeOf for (T1, T2, T3) {
    open spec fn reports_deep_size(&self, m: SizeModel, r: usize) -> bool {
        exists|a: usize, b: usize, c: usize|
            self.0.reports_deep_size(m, a) && self.1.reports_deep_size(m, b)
                && self.2.reports_deep_size(m, c) && r == sat_add(sat_add(a, b), c)
    }

    open spec fn records_seen(&self) -> bool {
        self.0.records_seen() || self.1.records_seen() || self.2.records_seen()
    }

    fn size_of<F: Fn(usize) -> usize>(&self, ops: &mut MallocSizeOfOps<F>) -> (r: usize) {
        let ghost m = ops.fns().model();
        let a = self.0.size_of(ops);
        let b = self.1.size_of(ops);
        let c = self.2.size_of(ops);
        let r = a.saturating_add(b).saturating_add(c);
        assert(self.0.reports_deep_size(m, a) && self.1.reports_deep_size(m, b)
            && self.2.reports_deep_size(m, c) && r == sat_add(sat_add(a, b), c));
        r
    }
}

impl<T1: MallocSizeOf, T2: MallocSizeOf, T3: MallocSizeOf, T4: MallocSizeOf> MallocSizeOf for (
    T1,
    T2,
    T3,
    T4,
) {
    open spec fn reports_deep_size(&self, m: SizeModel, r: usize) -> bool {
        exists|a: usize, b: usize, c: usize, d: usize|
            self.0.reports_deep_size(m, a) && self.1.reports_deep_size(m, b)
                && self.2.reports_deep_size(m, c) && self.3.reports_deep_size(m, d) && r
                == sat_add(sat_add(sat_add(a, b), c), d)
    }

    open spec fn records_seen(&self) -> bool {
        self.0.records_seen() || self.1.records_seen() || self.2.records_seen()
            || self.3.records_seen()
    }

    fn size_of<F: Fn(usize) -> usize>(&self, ops: &mut MallocSizeOfOps<F>) -> (r: usize) {
        let ghost m = ops.fns().model();
        let a = self.0.size_of(ops);
        let b = self.1.size_of(ops);
        let c = self.2.size_of(ops);
        let d = self.3.size_of(ops);
        let r = a.saturating_add(b).saturating_add(c).saturating_add(d);
        assert(self.0.reports_deep_size(m, a) && self.1.reports_deep_size(m, b)
            && self.2.reports_deep_size(m, c) && self.3.reports_deep_size(m, d) && r
            == sat_add(sat_add(sat_add(a, b), c), d));
        r
    }
}

impl<T: MallocSizeOf> MallocSizeOf for Option<T> {
    open spec fn reports_deep_size(&self, m: SizeModel, r: usize) -> bool {
        match self {
            Some(v) => v.reports_deep_size(m, r),
            None => r == 0,
        }
    }

    open spec fn records_seen(&self) -> bool {
        match self {
            Some(v) => v.records_seen(),
            None => false,
        }
    }

    fn size_of<F: Fn(usize) -> usize>(&self, ops: &mut MallocSizeOfOps<F>) -> (r: usize) {
        match self {
            Some(v) => v.size_of(ops),
            None => 0,
        }
    }
}

impl<T: MallocSizeOf, E: MallocSizeOf> MallocSizeOf for Result<T, E> {
    open spec fn reports_deep_size(&self, m: SizeModel, r: usize) -> bool {
        match self {
            Ok(v) => v.reports_deep_size(m, r),
            Err(e) => e.reports_deep_size(m, r),
        }
    }

    open spec fn records_seen(&self) -> bool {
        match self {
            Ok(v) => v.records_seen(),
            Err(e) => e.records_seen(),
        }
    }

    fn size_of<F: Fn(usize) -> usize>(&self, ops: &mut MallocSizeOfOps<F>) -> (r: usize) {
        match self {
            Ok(v) => v.size_of(ops),
            Err(e) => e.size_of(ops),
        }
    }
}

impl<T: MallocSizeOf> MallocSizeOf for Range<T> {
    open spec fn reports_deep_size(&self, m: SizeModel, r: usize) -> bool {
        exists|a: usize, b: usize|
            self.start.reports_deep_size(m, a) && self.end.reports_deep_size(m, b) && r
                == sat_add(a, b)
    }

    open spec fn records_seen(&self) -> bool {
        self.start.records_seen() || self.end.records_seen()
    }

    fn size_of<F: Fn(usize) -> usize>(&self, ops: &mut MallocSizeOfOps<F>) -> (r: usize) {
        let ghost m = ops.fns().model();
        let a = self.start.size_of(ops);
        let b = self.end.size_of(ops);
        let r = a.saturating_add(b);
        assert(self.start.reports_deep_size(m, a) && self.end.reports_deep_size(m, b) && r == sat_add(a, b));
        r
    }
}

/// `std::ops::RangeTo`, with its public field `end`.
#[verifier::external_type_specification]
#[verifier::reject_recursive_types(Idx)]
pub struct ExRangeTo<Idx>(RangeTo<Idx>);

/// `std::ops::RangeFrom`, with its public field `start`.
#[verifier::external_type_specification]
#[verifier::reject_recursive_types(Idx)]
pub struct ExRangeFrom<Idx>(RangeFrom<Idx>);

impl<T: MallocSizeOf> MallocSizeOf for RangeTo<T> {
    open spec fn reports_deep_size(&self, m: SizeModel, r: usize) -> bool {
        self.end.reports_deep_size(m, r)
    }

    open spec fn records_seen(&self) -> bool {
        self.end.records_seen()
    }

    fn size_of<F: Fn(usize) -> usize>(&self, ops: &mut MallocSizeOfOps<F>) -> (r: usize) {
        self.end.size_of(ops)
    }
}

impl<T: MallocSizeOf> MallocSizeOf for RangeFrom<T> {
    open spec fn reports_deep_size(&self, m: SizeModel, r: usize) -> bool {
        self.start.reports_deep_size(m, r)
    }

    open spec fn records_seen(&self) -> bool {
        self.start.records_seen()
    }

    fn size_of<F: Fn(usize) -> usize>(&self, ops: &mut MallocSizeOfOps<F>) -> (r: usize) {
        self.start.size_of(ops)
    }
}

/// Relies on `str::as_ptr` and `<*const u8>::addr`: the address of the
/// string's first byte. Nothing is promised of its value.
#[verifier::external_body]
fn string_address(s: &String) -> usize {
    s.as_ptr().addr()
}

/// Relies on `slice::as_ptr` and `<*const T>::addr`: the address of the
/// vector's buffer. Nothing is promised of its value.
#[verifier::external_body]
fn buffer_address<T>(v: &Vec<T>) -> usize {
    v.as_ptr().addr()
}

/// Relies on `core::ptr::from_ref` and `<*const T>::addr`: the address of
/// the referenced value. Nothing is promised of its value.
#[verifier::external_body]
fn value_address<T: ?Sized>(v: &T) -> usize {
    core::ptr::from_ref(v).addr()
}

/// Relies on `VecDeque::capacity`: how many elements the deque can hold
/// without reallocating, which is never fewer than it holds.
#[verifier::external_body]
fn deque_capacity<T>(d: &VecDeque<T>) -> (r: usize)
    ensures
        r >= d@.len(),
{
    d.capacity()
}

impl MallocSizeOf for String {
    open spec fn reports_deep_size(&self, m: SizeModel, r: usize) -> bool {
        (m.block_size)(r)
    }

    open spec fn records_seen(&self) -> bool {
        false
    }

    fn size_of<F: Fn(usize) -> usize>(&self, ops: &mut MallocSizeOfOps<F>) -> (r: usize) {
        let addr = string_address(self);
        let r = ops.malloc_size_of(addr);
        assert(ops.fns().reports_size(addr, r));
        r
    }
}

impl<T: ?Sized> MallocShallowSizeOf for Box<T> {
    open spec fn reports_shallow_size(&self, m: SizeModel, r: usize) -> bool {
        (m.block_size)(r)
    }

    fn shallow_size_of<F: Fn(usize) -> usize>(&self, ops: &mut MallocSizeOfOps<F>) -> (r: usize) {
        let addr = value_address(&**self);
        let r = ops.malloc_size_of(addr);
        assert(ops.fns().reports_size(addr, r));
        r
    }
}

impl<T: MallocSizeOf + ?Sized> MallocSizeOf for Box<T> {
    open spec fn reports_deep_size(&self, m: SizeModel, r: usize) -> bool {
        exists|shallow: usize, inner: usize|
            self.reports_shallow_size(m, shallow) && (**self).reports_deep_size(m, inner) && r
                == sat_add(shallow, inner)
    }

    open spec fn records_seen(&self) -> bool {
        (**self).records_seen()
    }

    fn size_of<F: Fn(usize) -> usize>(&self, ops: &mut MallocSizeOfOps<F>) -> (r: usize) {
        let ghost m = ops.fns().model();
        let shallow = self.shallow_size_of(ops);
        let inner = (**self).size_of(ops);
        let r = shallow.saturating_add(inner);
        assert(self.reports_shallow_size(m, shallow) && (**self).reports_deep_size(m, inner) && r
            == sat_add(shallow, inner));
        r
    }
}

impl<T> MallocShallowSizeOf for Vec<T> {
    open spec fn reports_shallow_size(&self, m: SizeModel, r: usize) -> bool {
        (m.block_size)(r)
    }

    fn shallow_size_of<F: Fn(usize) -> usize>(&self, ops: &mut MallocSizeOfOps<F>) -> (r: usize) {
        let addr = buffer_address(self);
        let r = ops.malloc_size_of(addr);
        assert(ops.fns().reports_size(addr, r));
        r
    }
}

impl<T: MallocSizeOf> MallocSizeOf for Vec<T> {
    open spec fn reports_deep_size(&self, m: SizeModel, r: usize) -> bool {
        exists|shallow: usize, parts: Seq<usize>|
            self.reports_shallow_size(m, shallow) && parts_report(self@, m, parts) && r
                == sum_onto(shallow, parts)
    }

    open spec fn records_seen(&self) -> bool {
        any_records_seen(self@)
    }

    fn size_of<F: Fn(usize) -> usize>(&self, ops: &mut MallocSizeOfOps<F>) -> (r: usize) {
        let shallow = self.shallow_size_of(ops);
        size_of_items(self.as_slice(), shallow, ops)
    }
}

impl<T> MallocShallowSizeOf for VecDeque<T> {
    open spec fn reports_shallow_size(&self, m: SizeModel, r: usize) -> bool {
        if self@.len() == 0 {
            // An empty deque is taken to hold no allocation.
            r == 0
        } else if m.has_enclosing {
            // 0 where the front element sits at an empty-allocation address
            // (elements of size zero).
            r == 0 || (m.enclosing_block_size)(r)
        } else {
            exists|capacity: usize|
                capacity >= self@.len() && r == #[trigger] sat_mul(
                    capacity,
                    vstd::layout::size_of::<T>() as usize,
                )
        }
    }

    fn shallow_size_of<F: Fn(usize) -> usize>(&self, ops: &mut MallocSizeOfOps<F>) -> (r: usize) {
        if self.len() == 0 {
            // An empty deque is taken to hold no allocation.
            0
        } else if ops.has_malloc_enclosing_size_of() {
            // The front element is an interior address of the buffer.
            let addr = value_address(&self[0]);
            if MallocSizeOfOps::<F>::is_empty(addr) {
                0
            } else {
                let r = ops.malloc_enclosing_size_of(addr);
                assert(ops.fns().reports_enclosing_size(addr, r));
                r
            }
        } else {
            // An estimate.
            let capacity = deque_capacity(self);
            let elem = core::mem::size_of::<T>();
            let r = match capacity.checked_mul(elem) {
                Some(n) => n,
                None => usize::MAX,
            };
            assert(r == sat_mul(capacity, vstd::layout::size_of::<T>() as usize));
            r
        }
    }
}

impl<T: MallocSizeOf> MallocSizeOf for VecDeque<T> {
    open spec fn reports_deep_size(&self, m: SizeModel, r: usize) -> bool {
        exists|shallow: usize, parts: Seq<usize>|
            self.reports_shallow_size(m, shallow) && parts_report(self@, m, parts) && r
                == sum_onto(shallow, parts)
    }

    open spec fn records_seen(&self) -> bool {
        any_records_seen(self@)
    }

    fn size_of<F: Fn(usize) -> usize>(&self, ops: &mut MallocSizeOfOps<F>) -> (r: usize) {
        let ghost fns = ops.fns();
        let ghost tracks = ops.tracks_seen();
        let ghost seen = ops.seen_addresses();
        let shallow = self.shallow_size_of(ops);
        let ghost mut parts: Seq<usize> = Seq::empty();
        let mut n = shallow;
        let mut i: usize = 0;
        while i < self.len()
            invariant
                i <= self@.len(),
                ops.fns() == fns,
                fns.wf(),
                ops.tracks_seen() == tracks,
                parts.len() == i,
                forall|j: int|
                    #![trigger parts[j]]
                    0 <= j < i ==> self@[j].reports_deep_size(fns.model(), parts[j]),
                n == sum_onto(shallow, parts),
                !any_records_seen(self@) ==> ops.seen_addresses() == seen,
            decreases self@.len() - i,
        {
            assert(!any_records_seen(self@) ==> !self@[i as int].records_seen());
            let s = self[i].size_of(ops);
            proof {
                let prev = parts;
                parts = parts.push(s);
                assert(parts.drop_last() =~= prev);
            }
            n = n.saturating_add(s);
            i = i + 1;
        }
        assert(parts_report(self@, fns.model(), parts));
        n
    }
}

/// Advances `iter` by one item: the head of what it has left, if any.
fn advance<I: Iterator>(iter: &mut I) -> (r: Option<I::Item>)
    ensures
        (*old(iter)).obeys_prophetic_iter_laws() && (*old(iter)).remaining().len() > 0 ==> {
            &&& (*final(iter)).remaining() == (*old(iter)).remaining().drop_first()
            &&& r == Some((*old(iter)).remaining()[0])
        },
{
    iter.next()
}

/// The estimated bookkeeping of one map entry: key, value and one word.
pub open spec fn entry_estimate<K, V>() -> usize {
    sat_add(
        sat_add(vstd::layout::size_of::<V>() as usize, vstd::layout::size_of::<K>() as usize),
        vstd::layout::size_of::<usize>() as usize,
    )
}

fn entry_size_estimate<K, V>() -> (r: usize)
    ensures
        r == entry_estimate::<K, V>(),
{
    core::mem::size_of::<V>().saturating_add(core::mem::size_of::<K>()).saturating_add(
        core::mem::size_of::<usize>(),
    )
}

fn estimate(count: usize, per_entry: usize) -> (r: usize)
    ensures
        r == sat_mul(count, per_entry),
{
    match count.checked_mul(per_entry) {
        Some(n) => n,
        None => usize::MAX,
    }
}

impl<K, V> MallocShallowSizeOf for BTreeMap<K, V> {
    open spec fn reports_shallow_size(&self, m: SizeModel, r: usize) -> bool {
        if spec_btree_map_len(self) == 0 {
            // An empty map is taken to hold no allocation.
            r == 0
        } else if m.has_enclosing {
            // 0 where the first value sits at an empty-allocation address
            // (values of size zero).
            r == 0 || (m.enclosing_block_size)(r)
        } else {
            r == sat_mul(spec_btree_map_len(self), entry_estimate::<K, V>())
        }
    }

    fn shallow_size_of<F: Fn(usize) -> usize>(&self, ops: &mut MallocSizeOfOps<F>) -> (r: usize) {
        if self.len() == 0 {
            // An empty map is taken to hold no allocation.
            0
        } else if ops.has_malloc_enclosing_size_of() {
            // The first value is an interior address of the map's storage.
            let mut values = self.values();
            match advance(&mut values) {
                Some(v) => {
                    let addr = value_address(v);
                    if MallocSizeOfOps::<F>::is_empty(addr) {
                        0
                    } else {
                        let r = ops.malloc_enclosing_size_of(addr);
                        assert(ops.fns().reports_enclosing_size(addr, r));
                        r
                    }
                },
                None => 0,
            }
        } else {
            // An estimate.
            estimate(self.len(), entry_size_estimate::<K, V>())
        }
    }
}

impl<K: MallocSizeOf, V: MallocSizeOf> MallocSizeOf for BTreeMap<K, V> {
    open spec fn reports_deep_size(&self, m: SizeModel, r: usize) -> bool {
        exists|shallow: usize, entries: Seq<(&K, &V)>, parts: Seq<usize>|
            {
                &&& self.reports_shallow_size(m, shallow)
                &&& entries_report(entries, m, parts)
                &&& r == sum_onto(shallow, parts)
                &&& key_obeys_cmp_spec::<K>() ==> entries_cover_map(entries, self@)
            }
    }

    open spec fn records_seen(&self) -> bool {
        spec_btree_map_len(self) > 0 && ((exists|k: K| k.records_seen()) || (exists|v: V|
            v.records_seen()))
    }

    fn size_of<F: Fn(usize) -> usize>(&self, ops: &mut MallocSizeOfOps<F>) -> (r: usize) {
        broadcast use vstd::std_specs::btree::group_btree_axioms;

        let ghost fns = ops.fns();
        let ghost tracks = ops.tracks_seen();
        let ghost seen = ops.seen_addresses();
        let shallow = self.shallow_size_of(ops);
        let ghost mut parts: Seq<usize> = Seq::empty();
        let ghost mut entries: Seq<(&K, &V)> = Seq::empty();
        let mut n = shallow;
        let mut iter = self.iter();
        let len = self.len();
        let mut count: usize = 0;
        while count < len
            invariant
                ops.fns() == fns,
                fns.wf(),
                ops.tracks_seen() == tracks,
                count <= len,
                len == spec_btree_map_len(self),
                entries.len() == count,
                entries_report(entries, fns.model(), parts),
                key_obeys_cmp_spec::<K>() ==> entries_in_map(entries, self@),
                key_obeys_cmp_spec::<K>() ==> entries + iter.remaining()
                    == spec_btree_map_iter(self).remaining(),
                key_obeys_cmp_spec::<K>() ==> spec_btree_map_iter(self).remaining().no_duplicates(),
                n == sum_onto(shallow, parts),
                !self.records_seen() ==> ops.seen_addresses() == seen,
            ensures
                key_obeys_cmp_spec::<K>() ==> count == len,
                entries.len() == count,
                entries_report(entries, fns.model(), parts),
                key_obeys_cmp_spec::<K>() ==> entries_in_map(entries, self@),
                key_obeys_cmp_spec::<K>() ==> entries + iter.remaining()
                    == spec_btree_map_iter(self).remaining(),
                key_obeys_cmp_spec::<K>() ==> spec_btree_map_iter(self).remaining().no_duplicates(),
                n == sum_onto(shallow, parts),
                ops.fns() == fns,
                ops.tracks_seen() == tracks,
                !self.records_seen() ==> ops.seen_addresses() == seen,
            decreases len - count,
        {
            let ghost before = iter;
            proof {
                if key_obeys_cmp_spec::<K>() {
                    let full = spec_btree_map_iter(self).remaining();
                    assert(full.len() == self@.dom().len());
                    assert(len == self@.len());
                    assert((entries + iter.remaining()).len() == full.len());
                    assert(iter.remaining().len() > 0);
                }
            }
            match advance(&mut iter) {
                Some((k, v)) => {
                    proof {
                        if !self.records_seen() {
                            assert(!k.records_seen());
                            assert(!v.records_seen());
                        }
                    }
                    let a = k.size_of(ops);
                    let b = v.size_of(ops);
                    let s = a.saturating_add(b);
                    proof {
                        assert(k.reports_deep_size(fns.model(), a) && v.reports_deep_size(
                            fns.model(),
                            b,
                        ) && s == sat_add(a, b));
                        assert(entry_reports(*k, *v, fns.model(), s));
                        let prev = parts;
                        let prev_entries = entries;
                        parts = parts.push(s);
                        entries = entries.push((k, v));
                        assert(parts.drop_last() =~= prev);
                        assert(entries_report(entries, fns.model(), parts));
                        if key_obeys_cmp_spec::<K>() {
                            let full = spec_btree_map_iter(self).remaining();
                            assert(before.remaining().len() > 0);
                            assert(entries + iter.remaining() =~= prev_entries + before.remaining());
                            assert(full[count as int] == (k, v));
                            assert forall|j: int| 0 <= j < entries.len() implies #[trigger] entries[j] == full[j] by {
                                assert((entries + iter.remaining())[j] == entries[j]);
                            }
                            assert(entries_in_map(entries, self@));
                        }
                    }
                    n = n.saturating_add(s);
                    count = count + 1;
                },
                None => {
                    break ;
                },
            }
        }
        proof {
            if key_obeys_cmp_spec::<K>() {
                let full = spec_btree_map_iter(self).remaining();
                assert(entries.len() == self@.len());
                assert(entries =~= full.subrange(0, entries.len() as int)) by {
                    assert forall|j: int| 0 <= j < entries.len() implies entries[j] == full[j] by {
                        assert((entries + iter.remaining())[j] == entries[j]);
                    }
                }
                assert(entries.no_duplicates());
            }
        }
        n
    }
}

/// Whether vstd's model of hash tables covers keys of type `K` hashed with
/// `S`: only then do its specifications say what a table holds.
pub open spec fn hashes_keys<K, S>() -> bool {
    obeys_key_model::<K>() && builds_valid_hashers::<S>()
}

/// The estimated bookkeeping of one set item: the item and one word.
pub open spec fn item_estimate<T>() -> usize {
    sat_add(vstd::layout::size_of::<T>() as usize, vstd::layout::size_of::<usize>() as usize)
}

fn item_size_estimate<T>() -> (r: usize)
    ensures
        r == item_estimate::<T>(),
{
    core::mem::size_of::<T>().saturating_add(core::mem::size_of::<usize>())
}

impl<K, V, S> MallocShallowSizeOf for HashMap<K, V, S> {
    open spec fn reports_shallow_size(&self, m: SizeModel, r: usize) -> bool {
        if spec_hash_map_len(self) == 0 {
            // An empty map is taken to hold no allocation.
            r == 0
        } else if m.has_enclosing {
            // 0 where the first value sits at an empty-allocation address
            // (values of size zero).
            r == 0 || (m.enclosing_block_size)(r)
        } else {
            r == sat_mul(spec_hash_map_len(self), entry_estimate::<K, V>())
        }
    }

    fn shallow_size_of<F: Fn(usize) -> usize>(&self, ops: &mut MallocSizeOfOps<F>) -> (r: usize) {
        if self.len() == 0 {
            // An empty map is taken to hold no allocation.
            0
        } else if ops.has_malloc_enclosing_size_of() {
            // The first value is an interior address of the map's storage.
            let mut values = self.values();
            match advance(&mut values) {
                Some(v) => {
                    let addr = value_address(v);
                    if MallocSizeOfOps::<F>::is_empty(addr) {
                        0
                    } else {
                        let r = ops.malloc_enclosing_size_of(addr);
                        assert(ops.fns().reports_enclosing_size(addr, r));
                        r
                    }
                },
                None => 0,
            }
        } else {
            // An estimate.
            estimate(self.len(), entry_size_estimate::<K, V>())
        }
    }
}

impl<K: MallocSizeOf, V: MallocSizeOf, S> MallocSizeOf for HashMap<K, V, S> {
    open spec fn reports_deep_size(&self, m: SizeModel, r: usize) -> bool {
        exists|shallow: usize, entries: Seq<(&K, &V)>, parts: Seq<usize>|
            {
                &&& self.reports_shallow_size(m, shallow)
                &&& entries_report(entries, m, parts)
                &&& r == sum_onto(shallow, parts)
                &&& hashes_keys::<K, S>() ==> entries_cover_map(entries, self@)
            }
    }

    open spec fn records_seen(&self) -> bool {
        spec_hash_map_len(self) > 0 && ((exists|k: K| k.records_seen()) || (exists|v: V|
            v.records_seen()))
    }

    fn size_of<F: Fn(usize) -> usize>(&self, ops: &mut MallocSizeOfOps<F>) -> (r: usize) {
        broadcast use vstd::std_specs::hash::group_hash_axioms;

        let ghost fns = ops.fns();
        let ghost tracks = ops.tracks_seen();
        let ghost seen = ops.seen_addresses();
        let shallow = self.shallow_size_of(ops);
        let ghost mut parts: Seq<usize> = Seq::empty();
        let ghost mut entries: Seq<(&K, &V)> = Seq::empty();
        let mut n = shallow;
        let mut iter = self.iter();
        let len = self.len();
        let mut count: usize = 0;
        while count < len
            invariant
                ops.fns() == fns,
                fns.wf(),
                ops.tracks_seen() == tracks,
                count <= len,
                len == spec_hash_map_len(self),
                entries.len() == count,
                entries_report(entries, fns.model(), parts),
                hashes_keys::<K, S>() ==> entries_in_map(entries, self@),
                hashes_keys::<K, S>() ==> entries + iter.remaining()
                    == spec_hash_map_iter(self).remaining(),
                hashes_keys::<K, S>() ==> spec_hash_map_iter(self).remaining().no_duplicates(),
                n == sum_onto(shallow, parts),
                !self.records_seen() ==> ops.seen_addresses() == seen,
            ensures
                hashes_keys::<K, S>() ==> count == len,
                entries.len() == count,
                entries_report(entries, fns.model(), parts),
                hashes_keys::<K, S>() ==> entries_in_map(entries, self@),
                hashes_keys::<K, S>() ==> entries + iter.remaining()
                    == spec_hash_map_iter(self).remaining(),
                hashes_keys::<K, S>() ==> spec_hash_map_iter(self).remaining().no_duplicates(),
                n == sum_onto(shallow, parts),
                ops.fns() == fns,
                ops.tracks_seen() == tracks,
                !self.records_seen() ==> ops.seen_addresses() == seen,
            decreases len - count,
        {
            let ghost before = iter;
            proof {
                if hashes_keys::<K, S>() {
                    let full = spec_hash_map_iter(self).remaining();
                    assert(full.len() == self@.dom().len());
                    assert(len == self@.len());
                    assert((entries + iter.remaining()).len() == full.len());
                    assert(iter.remaining().len() > 0);
                }
            }
            match advance(&mut iter) {
                Some((k, v)) => {
                    proof {
                        if !self.records_seen() {
                            assert(!k.records_seen());
                            assert(!v.records_seen());
                        }
                    }
                    let a = k.size_of(ops);
                    let b = v.size_of(ops);
                    let s = a.saturating_add(b);
                    proof {
                        assert(k.reports_deep_size(fns.model(), a) && v.reports_deep_size(
                            fns.model(),
                            b,
                        ) && s == sat_add(a, b));
                        assert(entry_reports(*k, *v, fns.model(), s));
                        let prev = parts;
                        let prev_entries = entries;
                        parts = parts.push(s);
                        entries = entries.push((k, v));
                        assert(parts.drop_last() =~= prev);
                        assert(entries_report(entries, fns.model(), parts));
                        if hashes_keys::<K, S>() {
                            let full = spec_hash_map_iter(self).remaining();
                            assert(before.remaining().len() > 0);
                            assert(entries + iter.remaining() =~= prev_entries + before.remaining());
                            assert(full[count as int] == (k, v));
                            assert forall|j: int| 0 <= j < entries.len() implies #[trigger] entries[j] == full[j] by {
                                assert((entries + iter.remaining())[j] == entries[j]);
                            }
                            assert(entries_in_map(entries, self@));
                        }
                    }
                    n = n.saturating_add(s);
                    count = count + 1;
                },
                None => {
                    break ;
                },
            }
        }
        proof {
            if hashes_keys::<K, S>() {
                let full = spec_hash_map_iter(self).remaining();
                assert(entries.len() == self@.len());
                assert(entries =~= full.subrange(0, entries.len() as int)) by {
                    assert forall|j: int| 0 <= j < entries.len() implies entries[j] == full[j] by {
                        assert((entries + iter.remaining())[j] == entries[j]);
                    }
                }
                assert(entries.no_duplicates());
            }
        }
        n
    }
}

impl<T, S> MallocShallowSizeOf for HashSet<T, S> {
    open spec fn reports_shallow_size(&self, m: SizeModel, r: usize) -> bool {
        if spec_hash_set_len(self) == 0 {
            // An empty set is taken to hold no allocation.
            r == 0
        } else if m.has_enclosing {
            // 0 where the first item sits at an empty-allocation address
            // (items of size zero).
            r == 0 || (m.enclosing_block_size)(r)
        } else {
            r == sat_mul(spec_hash_set_len(self), item_estimate::<T>())
        }
    }

    fn shallow_size_of<F: Fn(usize) -> usize>(&self, ops: &mut MallocSizeOfOps<F>) -> (r: usize) {
        if self.len() == 0 {
            // An empty set is taken to hold no allocation.
            0
        } else if ops.has_malloc_enclosing_size_of() {
            // The first item is an interior address of the set's storage,
            // which holds the items and their hashes in one block.
            let mut items = self.iter();
            match advance(&mut items) {
                Some(t) => {
                    let addr = value_address(t);
                    if MallocSizeOfOps::<F>::is_empty(addr) {
                        0
                    } else {
                        let r = ops.malloc_enclosing_size_of(addr);
                        assert(ops.fns().reports_enclosing_size(addr, r));
                        r
                    }
                },
                None => 0,
            }
        } else {
            // An estimate.
            estimate(self.len(), item_size_estimate::<T>())
        }
    }
}

impl<T: MallocSizeOf, S> MallocSizeOf for HashSet<T, S> {
    open spec fn reports_deep_size(&self, m: SizeModel, r: usize) -> bool {
        exists|shallow: usize, items: Seq<&T>, parts: Seq<usize>|
            {
                &&& self.reports_shallow_size(m, shallow)
                &&& items_report(items, m, parts)
                &&& r == sum_onto(shallow, parts)
                &&& hashes_keys::<T, S>() ==> items_cover_set(items, self@)
            }
    }

    open spec fn records_seen(&self) -> bool {
        spec_hash_set_len(self) > 0 && exists|t: T| t.records_seen()
    }

    fn size_of<F: Fn(usize) -> usize>(&self, ops: &mut MallocSizeOfOps<F>) -> (r: usize) {
        broadcast use vstd::std_specs::hash::group_hash_axioms;

        let ghost fns = ops.fns();
        let ghost tracks = ops.tracks_seen();
        let ghost seen = ops.seen_addresses();
        let shallow = self.shallow_size_of(ops);
        let ghost mut parts: Seq<usize> = Seq::empty();
        let ghost mut items: Seq<&T> = Seq::empty();
        let mut n = shallow;
        let mut iter = self.iter();
        let len = self.len();
        let mut count: usize = 0;
        while count < len
            invariant
                ops.fns() == fns,
                fns.wf(),
                ops.tracks_seen() == tracks,
                count <= len,
                len == spec_hash_set_len(self),
                items.len() == count,
                items_report(items, fns.model(), parts),
                hashes_keys::<T, S>() ==> items + iter.remaining()
                    == spec_hash_keys_iter(self).remaining(),
                n == sum_onto(shallow, parts),
                !self.records_seen() ==> ops.seen_addresses() == seen,
            ensures
                hashes_keys::<T, S>() ==> count == len,
                items.len() == count,
                items_report(items, fns.model(), parts),
                hashes_keys::<T, S>() ==> items + iter.remaining()
                    == spec_hash_keys_iter(self).remaining(),
                n == sum_onto(shallow, parts),
                ops.fns() == fns,
                ops.tracks_seen() == tracks,
                !self.records_seen() ==> ops.seen_addresses() == seen,
            decreases len - count,
        {
            let ghost before = iter;
            proof {
                if hashes_keys::<T, S>() {
                    let full = spec_hash_keys_iter(self).remaining();
                    assert(full.len() == self@.len());
                    assert(len == self@.len());
                    assert((items + iter.remaining()).len() == full.len());
                    assert(iter.remaining().len() > 0);
                }
            }
            match advance(&mut iter) {
                Some(t) => {
                    proof {
                        if !self.records_seen() {
                            assert(!t.records_seen());
                        }
                    }
                    let s = t.size_of(ops);
                    proof {
                        let prev = parts;
                        let prev_items = items;
                        parts = parts.push(s);
                        items = items.push(t);
                        assert(parts.drop_last() =~= prev);
                        assert(items_report(items, fns.model(), parts));
                        if hashes_keys::<T, S>() {
                            assert(items + iter.remaining() =~= prev_items + before.remaining());
                        }
                    }
                    n = n.saturating_add(s);
                    count = count + 1;
                },
                None => {
                    break ;
                },
            }
        }
        proof {
            if hashes_keys::<T, S>() {
                let full = spec_hash_keys_iter(self).remaining();
                assert(items =~= full.subrange(0, items.len() as int)) by {
                    assert forall|j: int| 0 <= j < items.len() implies items[j] == full[j] by {
                        assert((items + iter.remaining())[j] == items[j]);
                    }
                }
                assert(items =~= full);
                assert forall|i: int| 0 <= i < items.len() implies self@.contains(*items[i]) by {
                    assert(full.unref().to_set().contains(*full[i])) by {
                        assert(full.unref()[i] == *full[i]);
                    }
                }
                assert(items_cover_set(items, self@));
            }
        }
        n
    }
}

/// `void::Void`, a type with no values.
#[verifier::external_type_specification]
#[verifier::external_body]
pub struct ExVoid(void::Void);

/// Relies on `void::unreachable`: no `Void` value exists, so the call never
/// returns.
#[verifier::external_body]
fn unreachable_size(v: &void::Void) -> (r: usize)
    ensures
        r == 0,
{
    void::unreachable(*v)
}

impl MallocSizeOf for void::Void {
    open spec fn reports_deep_size(&self, m: SizeModel, r: usize) -> bool {
        r == 0
    }

    open spec fn records_seen(&self) -> bool {
        false
    }

    fn size_of<F: Fn(usize) -> usize>(&self, ops: &mut MallocSizeOfOps<F>) -> (r: usize) {
        unreachable_size(self)
    }
}

impl MallocSizeOf for AtomicBool {
    open spec fn reports_deep_size(&self, m: SizeModel, r: usize) -> bool {
        r == 0
    }

    open spec fn records_seen(&self) -> bool {
        false
    }

    fn size_of<F: Fn(usize) -> usize>(&self, ops: &mut MallocSizeOfOps<F>) -> (r: usize) {
        0
    }
}

impl MallocSizeOf for AtomicU8 {
    open spec fn reports_deep_size(&self, m: SizeModel, r: usize) -> bool {
        r == 0
    }

    open spec fn records_seen(&self) -> bool {
        false
    }

    fn size_of<F: Fn(usize) -> usize>(&self, ops: &mut MallocSizeOfOps<F>) -> (r: usize) {
        0
    }
}

impl MallocSizeOf for AtomicU16 {
    open spec fn reports_deep_size(&self, m: SizeModel, r: usize) -> bool {
        r == 0
    }

    open spec fn records_seen(&self) -> bool {
        false
    }

    fn size_of<F: Fn(usize) -> usize>(&self, ops: &mut MallocSizeOfOps<F>) -> (r: usize) {
        0
    }
}

impl MallocSizeOf for AtomicU32 {
    open spec fn reports_deep_size(&self, m: SizeModel, r: usize) -> bool {
        r == 0
    }

    open spec fn records_seen(&self) -> bool {
        false
    }

    fn size_of<F: Fn(usize) -> usize>(&self, ops: &mut MallocSizeOfOps<F>) -> (r: usize) {
        0
    }
}

impl MallocSizeOf for AtomicU64 {
    open spec fn reports_deep_size(&self, m: SizeModel, r: usize) -> bool {
        r == 0
    }

    open spec fn records_seen(&self) -> bool {
        false
    }

    fn size_of<F: Fn(usize) -> usize>(&self, ops: &mut MallocSizeOfOps<F>) -> (r: usize) {
        0
    }
}

impl MallocSizeOf for AtomicUsize {
    open spec fn reports_deep_size(&self, m: SizeModel, r: usize) -> bool {
        r == 0
    }

    open spec fn records_seen(&self) -> bool {
        false
    }

    fn size_of<F: Fn(usize) -> usize>(&self, ops: &mut MallocSizeOfOps<F>) -> (r: usize) {
        0
    }
}

impl MallocSizeOf for AtomicI8 {
    open spec fn reports_deep_size(&self, m: SizeModel, r: usize) -> bool {
        r == 0
    }

    open spec fn records_seen(&self) -> bool {
        false
    }

    fn size_of<F: Fn(usize) -> usize>(&self, ops: &mut MallocSizeOfOps<F>) -> (r: usize) {
        0
    }
}

impl MallocSizeOf for AtomicI16 {
    open spec fn reports_deep_size(&self, m: SizeModel, r: usize) -> bool {
        r == 0
    }

    open spec fn records_seen(&self) -> bool {
        false
    }

    fn size_of<F: Fn(usize) -> usize>(&self, ops: &mut MallocSizeOfOps<F>) -> (r: usize) {
        0
    }
}

impl MallocSizeOf for AtomicI32 {
    open spec fn reports_deep_size(&self, m: SizeModel, r: usize) -> bool {
        r == 0
    }

    open spec fn records_seen(&self) -> bool {
        false
    }

    fn size_of<F: Fn(usize) -> usize>(&self, ops: &mut MallocSizeOfOps<F>) -> (r: usize) {
        0
    }
}

impl MallocSizeOf for AtomicI64 {
    open spec fn reports_deep_size(&self, m: SizeModel, r: usize) -> bool {
        r == 0
    }

    open spec fn records_seen(&self) -> bool {
        false
    }

    fn size_of<F: Fn(usize) -> usize>(&self, ops: &mut MallocSizeOfOps<F>) -> (r: usize) {
        0
    }
}

impl MallocSizeOf for AtomicIsize {
    open spec fn reports_deep_size(&self, m: SizeModel, r: usize) -> bool {
        r == 0
    }

    open spec fn records_seen(&self) -> bool {
        false
    }

    fn size_of<F: Fn(usize) -> usize>(&self, ops: &mut MallocSizeOfOps<F>) -> (r: usize) {
        0
    }
}

impl<B: ?Sized + ToOwned> MallocSizeOf for Cow<'_, B> where B::Owned: MallocSizeOf {
    open spec fn reports_deep_size(&self, m: SizeModel, r: usize) -> bool {
        match self {
            Cow::Borrowed(_) => r == 0,
            Cow::Owned(b) => b.reports_deep_size(m, r),
        }
    }

    open spec fn records_seen(&self) -> bool {
        match self {
            Cow::Borrowed(_) => false,
            Cow::Owned(b) => b.records_seen(),
        }
    }

    fn size_of<F: Fn(usize) -> usize>(&self, ops: &mut MallocSizeOfOps<F>) -> (r: usize) {
        match self {
            Cow::Borrowed(_) => 0,
            Cow::Owned(b) => b.size_of(ops),
        }
    }
}

/// `std::cell::Cell`, whose contents Verus does not see.
#[verifier::external_type_specification]
#[verifier::external_body]
#[verifier::reject_recursive_types(T)]
pub struct ExCell<T: ?Sized>(Cell<T>);

/// Relies on `Cell::get`: a copy of the contained value.
#[verifier::external_body]
fn cell_value<T: Copy>(c: &Cell<T>) -> T {
    c.get()
}

impl<T: MallocSizeOf + Copy> MallocSizeOf for Cell<T> {
    open spec fn reports_deep_size(&self, m: SizeModel, r: usize) -> bool {
        exists|v: T| v.reports_deep_size(m, r)
    }

    open spec fn records_seen(&self) -> bool {
        exists|v: T| v.records_seen()
    }

    fn size_of<F: Fn(usize) -> usize>(&self, ops: &mut MallocSizeOfOps<F>) -> (r: usize) {
        let v = cell_value(self);
        let r = v.size_of(ops);
        assert(v.reports_deep_size(ops.fns().model(), r));
        r
    }
}

/// Relies on `RangeInclusive::start`: the range's lower bound.
#[verifier::external_body]
fn range_start<T>(r: &RangeInclusive<T>) -> &T {
    r.start()
}

/// Relies on `RangeInclusive::end`: the range's upper bound.
#[verifier::external_body]
fn range_end<T>(r: &RangeInclusive<T>) -> &T {
    r.end()
}

impl<T: MallocSizeOf> MallocSizeOf for RangeInclusive<T> {
    open spec fn reports_deep_size(&self, m: SizeModel, r: usize) -> bool {
        exists|start: T, end: T, a: usize, b: usize|
            start.reports_deep_size(m, a) && end.reports_deep_size(m, b) && r == sat_add(a, b)
    }

    open spec fn records_seen(&self) -> bool {
        exists|v: T| v.records_seen()
    }

    fn size_of<F: Fn(usize) -> usize>(&self, ops: &mut MallocSizeOfOps<F>) -> (r: usize) {
        let ghost m = ops.fns().model();
        let start = range_start(self);
        let end = range_end(self);
        let a = start.size_of(ops);
        let b = end.size_of(ops);
        let r = a.saturating_add(b);
        assert(start.reports_deep_size(m, a) && end.reports_deep_size(m, b) && r == sat_add(a, b));
        r
    }
}

/// `std::sync::Mutex`, whose contents Verus does not see.
#[verifier::external_type_specification]
#[verifier::external_body]
#[verifier::reject_recursive_types(T)]
pub struct ExMutex<T: ?Sized>(Mutex<T>);

/// `std::sync::MutexGuard`: holds the lock until dropped.
#[verifier::external_type_specification]
#[verifier::external_body]
#[verifier::reject_recursive_types(T)]
pub struct ExMutexGuard<'a, T: ?Sized + 'a>(MutexGuard<'a, T>);

/// `std::sync::PoisonError`: the lock was taken, but a holder panicked.
#[verifier::external_type_specification]
#[verifier::external_body]
#[verifier::reject_recursive_types(T)]
pub struct ExPoisonError<T>(PoisonError<T>);

/// Relies on `Mutex::try_lock`, which never blocks: the guard if the lock
/// was free; `Err(Some(_))` with the guard inside if the mutex was poisoned;
/// `Err(None)` if the lock is held elsewhere (`TryLockError::WouldBlock`).
#[verifier::external_body]
fn try_lock_mutex<T>(m: &Mutex<T>) -> Result<
    MutexGuard<'_, T>,
    Option<PoisonError<MutexGuard<'_, T>>>,
> {
    match m.try_lock() {
        Ok(g) => Ok(g),
        Err(TryLockError::Poisoned(e)) => Err(Some(e)),
        Err(TryLockError::WouldBlock) => Err(None),
    }
}

/// Relies on `PoisonError::into_inner`: the guard of a poisoned lock.
#[verifier::external_body]
fn poisoned_guard<'a, T>(e: PoisonError<MutexGuard<'a, T>>) -> MutexGuard<'a, T> {
    e.into_inner()
}

/// Relies on `MutexGuard`'s `Deref`: the value the lock protects.
#[verifier::external_body]
fn guarded<'a, 'b, T>(g: &'b MutexGuard<'a, T>) -> &'b T {
    &**g
}

/// A mutex held directly by the measured value owns its contents: they are
/// measured under the lock, which is released on return. A mutex behind a
/// shared pointer is reached only through that pointer's explicit
/// measurement, so it is not counted twice.
///
/// Measuring never waits for the lock: while another holder has it (which
/// may be the measuring thread itself), the contents cannot be read, and the
/// mutex reports 0.
impl<T: MallocSizeOf> MallocSizeOf for Mutex<T> {
    open spec fn reports_deep_size(&self, m: SizeModel, r: usize) -> bool {
        r == 0 || exists|v: T| v.reports_deep_size(m, r)
    }

    open spec fn records_seen(&self) -> bool {
        exists|v: T| v.records_seen()
    }

    fn size_of<F: Fn(usize) -> usize>(&self, ops: &mut MallocSizeOfOps<F>) -> (r: usize) {
        let guard = match try_lock_mutex(self) {
            Ok(g) => g,
            // A poisoned mutex still holds a value that owns its memory.
            Err(Some(e)) => poisoned_guard(e),
            // Held elsewhere: waiting could deadlock.
            Err(None) => {
                return 0;
            },
        };
        let v = guarded(&guard);
        proof {
            if !self.records_seen() {
                assert(!v.records_seen());
            }
        }
        let r = v.size_of(ops);
        assert(v.reports_deep_size(ops.fns().model(), r));
        r
    }
}

} // verus!
