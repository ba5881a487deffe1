use crate::ops::{MallocSizeOfOps, SizeModel};
use vstd::prelude::*;

verus! {

/// `a + b`, clamped at `usize::MAX`.
pub open spec fn sat_add(a: usize, b: usize) -> usize {
    if a + b > usize::MAX {
        usize::MAX
    } else {
        (a + b) as usize
    }
}

/// `a * b`, clamped at `usize::MAX`.
pub open spec fn sat_mul(a: usize, b: usize) -> usize {
    if a * b > usize::MAX {
        usize::MAX
    } else {
        (a * b) as usize
    }
}

/// `acc` plus every part, added left to right, each sum clamped at
/// `usize::MAX`.
pub open spec fn sum_onto(acc: usize, parts: Seq<usize>) -> usize
    decreases parts.len(),
{
    if parts.len() == 0 {
        acc
    } else {
        sat_add(sum_onto(acc, parts.drop_last()), parts.last())
    }
}

/// The exact sum of `acc` and every part.
pub open spec fn exact_sum(acc: int, parts: Seq<usize>) -> int
    decreases parts.len(),
{
    if parts.len() == 0 {
        acc
    } else {
        exact_sum(acc, parts.drop_last()) + parts.last()
    }
}

/// Measuring never changes the allocator's functions, nor whether the pass
/// tracks seen addresses.
pub open spec fn keeps_fns<F: Fn(usize) -> usize>(
    before: MallocSizeOfOps<F>,
    after: MallocSizeOfOps<F>,
) -> bool {
    &&& after.fns() == before.fns()
    &&& after.tracks_seen() == before.tracks_seen()
}

/// `parts[i]` is a deep size reported for `items[i]`, for every `i`.
pub open spec fn parts_report<T: MallocSizeOf>(items: Seq<T>, m: SizeModel, parts: Seq<usize>) -> bool {
    &&& parts.len() == items.len()
    &&& forall|i: int|
        #![trigger parts[i]]
        0 <= i < items.len() ==> items[i].reports_deep_size(m, parts[i])
}

/// `part` is the deep size of a key plus that of its value.
pub open spec fn entry_reports<K: MallocSizeOf, V: MallocSizeOf>(
    k: K,
    v: V,
    m: SizeModel,
    part: usize,
) -> bool {
    exists|a: usize, b: usize|
        k.reports_deep_size(m, a) && v.reports_deep_size(m, b) && part == sat_add(a, b)
}

/// `parts[i]` is the deep size of the `i`-th entry, key and value.
pub open spec fn entries_report<K: MallocSizeOf, V: MallocSizeOf>(
    entries: Seq<(&K, &V)>,
    m: SizeModel,
    parts: Seq<usize>,
) -> bool {
    &&& parts.len() == entries.len()
    &&& forall|i: int|
        #![trigger parts[i]]
        0 <= i < entries.len() ==> entry_reports(*entries[i].0, *entries[i].1, m, parts[i])
}

/// Every entry is one of the map's key-value pairs.
pub open spec fn entries_in_map<K, V>(entries: Seq<(&K, &V)>, map: Map<K, V>) -> bool {
    forall|i: int|
        #![trigger entries[i]]
        0 <= i < entries.len() ==> map.contains_key(*entries[i].0) && map[*entries[i].0]
            == *entries[i].1
}

/// The entries are the map's key-value pairs, each exactly once.
pub open spec fn entries_cover_map<K, V>(entries: Seq<(&K, &V)>, map: Map<K, V>) -> bool {
    &&& entries_in_map(entries, map)
    &&& entries.no_duplicates()
    &&& entries.len() == map.len()
}

/// `parts[i]` is a deep size reported for the `i`-th item of a set.
pub open spec fn items_report<T: MallocSizeOf>(items: Seq<&T>, m: SizeModel, parts: Seq<usize>) -> bool {
    &&& parts.len() == items.len()
    &&& forall|i: int|
        #![trigger parts[i]]
        0 <= i < items.len() ==> (*items[i]).reports_deep_size(m, parts[i])
}

/// The items are the set's elements, each exactly once.
pub open spec fn items_cover_set<T>(items: Seq<&T>, set: Set<T>) -> bool {
    &&& forall|i: int| #![trigger items[i]] 0 <= i < items.len() ==> set.contains(*items[i])
    &&& items.no_duplicates()
    &&& items.len() == set.len()
}

/// Whether measuring some item may record seen addresses.
pub open spec fn any_records_seen<T: MallocSizeOf>(items: Seq<T>) -> bool {
    exists|i: int| 0 <= i < items.len() && (#[trigger] items[i]).records_seen()
}

/// Deep measurement: the heap usage of everything a value owns, but not the
/// space taken by the value itself.
pub trait MallocSizeOf {
    /// `r` is a deep size that `size_of` may report for this value, given the
    /// allocator's functions.
    spec fn reports_deep_size(&self, m: SizeModel, r: usize) -> bool;

    /// Whether measuring this value may reach a conditional measurement,
    /// and so record addresses as seen.
    spec fn records_seen(&self) -> bool;

    fn size_of<F: Fn(usize) -> usize>(&self, ops: &mut MallocSizeOfOps<F>) -> (r: usize)
        requires
            old(ops).fns().wf(),
        ensures
            keeps_fns(*old(ops), *final(ops)),
            self.reports_deep_size(old(ops).fns().model(), r),
            !self.records_seen() ==> final(ops).seen_addresses() == old(ops).seen_addresses(),
    ;
}

/// Shallow measurement: the heap block a container owns directly, without
/// what its elements own.
pub trait MallocShallowSizeOf {
    /// `r` is a shallow size that `shallow_size_of` may report.
    spec fn reports_shallow_size(&self, m: SizeModel, r: usize) -> bool;

    /// A shallow measurement asks only for block sizes: it records no
    /// address as seen.
    fn shallow_size_of<F: Fn(usize) -> usize>(&self, ops: &mut MallocSizeOfOps<F>) -> (r: usize)
        requires
            old(ops).fns().wf(),
        ensures
            keeps_fns(*old(ops), *final(ops)),
            final(ops).seen_addresses() == old(ops).seen_addresses(),
            self.reports_shallow_size(old(ops).fns().model(), r),
    ;
}

/// Like `MallocSizeOf`, under another name so that no derived impl uses it:
/// for shared pointers held by their primary owner, always measured.
pub trait MallocUnconditionalSizeOf {
    fn unconditional_size_of<F: Fn(usize) -> usize>(&self, ops: &mut MallocSizeOfOps<F>) -> (r:
        usize)
        requires
            old(ops).fns().wf(),
        ensures
            keeps_fns(*old(ops), *final(ops)),
    ;
}

/// `unconditional_size_of` together with the shared block itself.
pub trait MallocUnconditionalShallowSizeOf {
    fn unconditional_shallow_size_of<F: Fn(usize) -> usize>(
        &self,
        ops: &mut MallocSizeOfOps<F>,
    ) -> (r: usize)
        requires
            old(ops).fns().wf(),
        ensures
            keeps_fns(*old(ops), *final(ops)),
    ;
}

/// Like `MallocSizeOf`, but measures only if the shared block has not been
/// seen before in this pass (see `MallocSizeOfOps::have_seen_ptr`).
pub trait MallocConditionalSizeOf {
    fn conditional_size_of<F: Fn(usize) -> usize>(&self, ops: &mut MallocSizeOfOps<F>) -> (r:
        usize)
        requires
            old(ops).fns().wf(),
        ensures
            keeps_fns(*old(ops), *final(ops)),
    ;
}

/// `conditional_size_of` together with the shared block itself.
pub trait MallocConditionalShallowSizeOf {
    fn conditional_shallow_size_of<F: Fn(usize) -> usize>(
        &self,
        ops: &mut MallocSizeOfOps<F>,
    ) -> (r: usize)
        requires
            old(ops).fns().wf(),
        ensures
            keeps_fns(*old(ops), *final(ops)),
    ;
}

/// Measures every item and adds the deep sizes onto `acc`, in order.
pub fn size_of_items<T: MallocSizeOf, F: Fn(usize) -> usize>(
    items: &[T],
    acc: usize,
    ops: &mut MallocSizeOfOps<F>,
) -> (r: usize)
    requires
        old(ops).fns().wf(),
    ensures
        keeps_fns(*old(ops), *final(ops)),
        exists|parts: Seq<usize>|
            parts_report(items@, old(ops).fns().model(), parts) && r == sum_onto(acc, parts),
        !any_records_seen(items@) ==> final(ops).seen_addresses() == old(ops).seen_addresses(),
{
    let ghost fns = ops.fns();
    let ghost tracks = ops.tracks_seen();
    let ghost seen = ops.seen_addresses();
    let ghost mut parts: Seq<usize> = Seq::empty();
    let mut n = acc;
    let mut i: usize = 0;
    while i < items.len()
        invariant
            i <= items@.len(),
            ops.fns() == fns,
            fns.wf(),
            ops.tracks_seen() == tracks,
            parts.len() == i,
            forall|j: int| #![trigger parts[j]] 0 <= j < i ==> items@[j].reports_deep_size(fns.model(), parts[j]),
            n == sum_onto(acc, parts),
            !any_records_seen(items@) ==> ops.seen_addresses() == seen,
        decreases items@.len() - i,
    {
        assert(!any_records_seen(items@) ==> !items@[i as int].records_seen());
        let s = items[i].size_of(ops);
        proof {
            let prev = parts;
            parts = parts.push(s);
            assert(parts.drop_last() =~= prev);
        }
        n = n.saturating_add(s);
        i = i + 1;
    }
    assert(parts_report(items@, fns.model(), parts));
    n
}

} // verus!
