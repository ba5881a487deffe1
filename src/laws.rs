use crate::derive_plan::{spec_field_plan, spec_plan, DeriveError, FieldInfo, MeasurePath, Step};
use crate::measure::{
    entries_cover_map, entries_report, exact_sum, parts_report, sat_add, sum_onto, MallocShallowSizeOf,
    MallocSizeOf,
};
use crate::ops::SizeModel;
use crate::impls::hashes_keys;
use std::collections::{BTreeMap, HashMap, HashSet, VecDeque};
use vstd::prelude::*;
use vstd::std_specs::btree::key_obeys_cmp_spec;

verus! {

/// The clamped running sum equals the exact sum whenever the exact sum fits
/// in a `usize`.
pub proof fn lemma_sum_exact(acc: usize, parts: Seq<usize>)
    requires
        exact_sum(acc as int, parts) <= usize::MAX,
    ensures
        sum_onto(acc, parts) == exact_sum(acc as int, parts),
    decreases parts.len(),
{
    if parts.len() > 0 {
        lemma_exact_sum_grows(acc as int, parts.drop_last());
        lemma_sum_exact(acc, parts.drop_last());
    }
}

/// Adding parts never makes the exact sum smaller than its start.
pub proof fn lemma_exact_sum_grows(acc: int, parts: Seq<usize>)
    ensures
        exact_sum(acc, parts) >= acc,
    decreases parts.len(),
{
    if parts.len() > 0 {
        lemma_exact_sum_grows(acc, parts.drop_last());
    }
}

/// `N` parts that all equal `d` add exactly `N × d` onto the start.
pub proof fn lemma_exact_sum_uniform(acc: int, parts: Seq<usize>, d: usize)
    requires
        forall|i: int| 0 <= i < parts.len() ==> parts[i] == d,
    ensures
        exact_sum(acc, parts) == acc + parts.len() * d,
    decreases parts.len(),
{
    if parts.len() > 0 {
        lemma_exact_sum_uniform(acc, parts.drop_last(), d);
        assert(parts.last() == d);
        assert((parts.len() - 1) * d + d == parts.len() * d) by (nonlinear_arith);
    }
}

/// A vector of `N` elements that each report deep size `d` reports its
/// shallow size plus `N × d`, whenever that total fits in a `usize`.
pub proof fn lemma_vec_uniform_elements<T: MallocSizeOf>(v: Vec<T>, m: SizeModel, r: usize, d: usize)
    requires
        v.reports_deep_size(m, r),
        forall|i: int, x: usize| 0 <= i < v@.len() && v@[i].reports_deep_size(m, x) ==> x == d,
    ensures
        exists|shallow: usize|
            v.reports_shallow_size(m, shallow) && (shallow + v@.len() * d <= usize::MAX ==> r
                == shallow + v@.len() * d),
{
    let (shallow, parts) = choose|shallow: usize, parts: Seq<usize>|
        v.reports_shallow_size(m, shallow) && parts_report(v@, m, parts) && r == sum_onto(
            shallow,
            parts,
        );
    assert forall|i: int| 0 <= i < parts.len() implies parts[i] == d by {
        assert(v@[i].reports_deep_size(m, parts[i]));
    }
    lemma_exact_sum_uniform(shallow as int, parts, d);
    if shallow + v@.len() * d <= usize::MAX {
        lemma_sum_exact(shallow, parts);
    }
}

/// Appending an element keeps every earlier element's contribution, and adds
/// the new element's deep size onto the earlier total.
pub proof fn lemma_append_keeps_parts<T: MallocSizeOf>(
    items: Seq<T>,
    x: T,
    m: SizeModel,
    acc: usize,
    parts: Seq<usize>,
    p: usize,
)
    requires
        parts_report(items, m, parts),
        x.reports_deep_size(m, p),
    ensures
        parts_report(items.push(x), m, parts.push(p)),
        parts.push(p).take(parts.len() as int) == parts,
        sum_onto(acc, parts.push(p)) == sat_add(sum_onto(acc, parts), p),
{
    assert(parts.push(p).drop_last() =~= parts);
    assert(parts.push(p).take(parts.len() as int) =~= parts);
    assert forall|i: int| 0 <= i < items.push(x).len() implies #[trigger] items.push(x)[i].reports_deep_size(
        m,
        parts.push(p)[i],
    ) by {
        if i < items.len() {
            assert(items.push(x)[i] == items[i]);
            assert(parts.push(p)[i] == parts[i]);
        }
    }
}

/// The exact sum is its start plus the exact sum from zero.
pub proof fn lemma_exact_sum_shift(acc: int, parts: Seq<usize>)
    ensures
        exact_sum(acc, parts) == acc + exact_sum(0, parts),
    decreases parts.len(),
{
    if parts.len() > 0 {
        lemma_exact_sum_shift(acc, parts.drop_last());
    }
}

/// A clamped running sum below `usize::MAX` never clamped: it is exact.
pub proof fn lemma_unclamped_sum_exact(acc: usize, parts: Seq<usize>)
    requires
        sum_onto(acc, parts) < usize::MAX,
    ensures
        sum_onto(acc, parts) == exact_sum(acc as int, parts),
    decreases parts.len(),
{
    if parts.len() > 0 {
        lemma_unclamped_sum_exact(acc, parts.drop_last());
    }
}

/// Each value of `T` has at most one deep size under `m`.
pub open spec fn sizes_determined<T: MallocSizeOf>(m: SizeModel) -> bool {
    forall|y: T, a: usize, b: usize|
        #[trigger] y.reports_deep_size(m, a) && #[trigger] y.reports_deep_size(m, b) ==> a == b
}

/// Appending `x` to a vector adds exactly `x`'s deep size beyond the shallow
/// sizes: every earlier element contributes what it did before, and `x`
/// counts once. This holds where element sizes are determined by the
/// elements and neither total was clamped.
pub proof fn lemma_vec_append<T: MallocSizeOf>(
    v1: Vec<T>,
    v2: Vec<T>,
    x: T,
    m: SizeModel,
    r1: usize,
    r2: usize,
)
    requires
        v2@ == v1@.push(x),
        v1.reports_deep_size(m, r1),
        v2.reports_deep_size(m, r2),
        sizes_determined::<T>(m),
        r1 < usize::MAX,
        r2 < usize::MAX,
    ensures
        exists|s1: usize, s2: usize, q: usize|
            {
                &&& v1.reports_shallow_size(m, s1)
                &&& v2.reports_shallow_size(m, s2)
                &&& x.reports_deep_size(m, q)
                &&& r2 - s2 == r1 - s1 + q
            },
{
    let (s1, p1) = choose|s1: usize, p1: Seq<usize>|
        v1.reports_shallow_size(m, s1) && parts_report(v1@, m, p1) && r1 == sum_onto(s1, p1);
    let (s2, p2) = choose|s2: usize, p2: Seq<usize>|
        v2.reports_shallow_size(m, s2) && parts_report(v2@, m, p2) && r2 == sum_onto(s2, p2);
    let q = p2.last();
    assert(p2.drop_last() =~= p1) by {
        assert forall|i: int| 0 <= i < p1.len() implies p2.drop_last()[i] == p1[i] by {
            assert(v2@[i] == v1@[i]);
            assert(v1@[i].reports_deep_size(m, p1[i]));
            assert(v2@[i].reports_deep_size(m, p2[i]));
        }
    }
    assert(v2@[v1@.len() as int] == x);
    assert(x.reports_deep_size(m, q));
    lemma_unclamped_sum_exact(s1, p1);
    lemma_unclamped_sum_exact(s2, p2);
    lemma_exact_sum_shift(s1 as int, p1);
    lemma_exact_sum_shift(s2 as int, p2);
    lemma_exact_sum_shift(0, p2);
}

/// The deep size of an ordered map is its shallow size plus, for each of its
/// entries exactly once, the deep size of the key and of the value, on
/// either way of finding the shallow size.
pub proof fn lemma_btree_map_deep_size<K: MallocSizeOf, V: MallocSizeOf>(
    map: BTreeMap<K, V>,
    m: SizeModel,
    r: usize,
)
    requires
        map.reports_deep_size(m, r),
        key_obeys_cmp_spec::<K>(),
    ensures
        exists|shallow: usize, entries: Seq<(&K, &V)>, parts: Seq<usize>|
            {
                &&& map.reports_shallow_size(m, shallow)
                &&& entries_cover_map(entries, map@)
                &&& entries_report(entries, m, parts)
                &&& exact_sum(shallow as int, parts) <= usize::MAX ==> r == exact_sum(
                    shallow as int,
                    parts,
                )
            },
{
    let (shallow, entries, parts) = choose|
        shallow: usize,
        entries: Seq<(&K, &V)>,
        parts: Seq<usize>,
    |
        {
            &&& map.reports_shallow_size(m, shallow)
            &&& entries_report(entries, m, parts)
            &&& r == sum_onto(shallow, parts)
            &&& key_obeys_cmp_spec::<K>() ==> entries_cover_map(entries, map@)
        };
    if exact_sum(shallow as int, parts) <= usize::MAX {
        lemma_sum_exact(shallow, parts);
    }
}

/// The deep size of a hash map is its shallow size plus, for each of its
/// entries exactly once, the deep size of the key and of the value, on
/// either way of finding the shallow size.
pub proof fn lemma_hash_map_deep_size<K: MallocSizeOf, V: MallocSizeOf, S>(
    map: HashMap<K, V, S>,
    m: SizeModel,
    r: usize,
)
    requires
        map.reports_deep_size(m, r),
        hashes_keys::<K, S>(),
    ensures
        exists|shallow: usize, entries: Seq<(&K, &V)>, parts: Seq<usize>|
            {
                &&& map.reports_shallow_size(m, shallow)
                &&& entries_cover_map(entries, map@)
                &&& entries_report(entries, m, parts)
                &&& exact_sum(shallow as int, parts) <= usize::MAX ==> r == exact_sum(
                    shallow as int,
                    parts,
                )
            },
{
    let (shallow, entries, parts) = choose|
        shallow: usize,
        entries: Seq<(&K, &V)>,
        parts: Seq<usize>,
    |
        {
            &&& map.reports_shallow_size(m, shallow)
            &&& entries_report(entries, m, parts)
            &&& r == sum_onto(shallow, parts)
            &&& hashes_keys::<K, S>() ==> entries_cover_map(entries, map@)
        };
    if exact_sum(shallow as int, parts) <= usize::MAX {
        lemma_sum_exact(shallow, parts);
    }
}

/// An empty deque owns no block, whether or not the allocator can size
/// blocks from interior addresses.
pub proof fn lemma_empty_deque_shallow<T>(d: VecDeque<T>, m: SizeModel, r: usize)
    requires
        d@.len() == 0,
        d.reports_shallow_size(m, r),
    ensures
        r == 0,
{
}

/// An empty ordered map owns no block, whether or not the allocator can
/// size blocks from interior addresses.
pub proof fn lemma_empty_btree_map_shallow<K, V>(map: BTreeMap<K, V>, m: SizeModel, r: usize)
    requires
        map.len() == 0,
        map.reports_shallow_size(m, r),
    ensures
        r == 0,
{
}

/// One step per measured binding: the last field adds a step exactly when it
/// is measured, after the steps of the fields before it.
proof fn lemma_plan_last(fields: Seq<FieldInfo>, steps: Seq<Step>)
    requires
        0 < fields.len() <= usize::MAX,
        spec_plan(fields) == Ok::<Seq<Step>, DeriveError>(steps),
    ensures
        spec_plan(fields.drop_last()) is Ok,
        spec_field_plan(fields.last()) is Ok,
        spec_field_plan(fields.last())->Ok_0 is None ==> steps == spec_plan(fields.drop_last())->Ok_0,
        spec_field_plan(fields.last())->Ok_0 is Some ==> steps == spec_plan(fields.drop_last())->Ok_0.push(
            Step {
                binding: (fields.len() - 1) as usize,
                path: spec_field_plan(fields.last())->Ok_0->Some_0,
                per_item: fields.last().is_array,
            },
        ),
{
}

/// Every step reads a measured binding, through the trait its markers
/// choose, item by item where the binding is an array.
proof fn lemma_plan_steps_valid(fields: Seq<FieldInfo>, steps: Seq<Step>)
    requires
        fields.len() <= usize::MAX,
        spec_plan(fields) == Ok::<Seq<Step>, DeriveError>(steps),
    ensures
        forall|i: int|
            #![trigger steps[i]]
            0 <= i < steps.len() ==> {
                &&& steps[i].binding < fields.len()
                &&& spec_field_plan(fields[steps[i].binding as int]) == Ok::<
                    Option<MeasurePath>,
                    DeriveError,
                >(Some(steps[i].path))
                &&& steps[i].per_item == fields[steps[i].binding as int].is_array
            },
    decreases fields.len(),
{
    if fields.len() > 0 {
        let init = fields.drop_last();
        lemma_plan_last(fields, steps);
        let prev = spec_plan(init)->Ok_0;
        lemma_plan_steps_valid(init, prev);
        assert forall|i: int| #![trigger steps[i]] 0 <= i < steps.len() implies {
            &&& steps[i].binding < fields.len()
            &&& spec_field_plan(fields[steps[i].binding as int]) == Ok::<
                Option<MeasurePath>,
                DeriveError,
            >(Some(steps[i].path))
            &&& steps[i].per_item == fields[steps[i].binding as int].is_array
        } by {
            if i < prev.len() {
                assert(steps[i] == prev[i]);
                assert(init[prev[i].binding as int] == fields[prev[i].binding as int]);
            } else {
                let last = fields.len() - 1;
                assert(fields[last] == fields.last());
                let st = Step {
                    binding: last as usize,
                    path: spec_field_plan(fields.last())->Ok_0->Some_0,
                    per_item: fields.last().is_array,
                };
                assert(steps == prev.push(st));
                assert(steps[i] == st);
            }
        }
    }
}

/// The steps follow the bindings' order, so none is measured twice.
proof fn lemma_plan_steps_ordered(fields: Seq<FieldInfo>, steps: Seq<Step>)
    requires
        fields.len() <= usize::MAX,
        spec_plan(fields) == Ok::<Seq<Step>, DeriveError>(steps),
    ensures
        forall|i: int| #![trigger steps[i]] 0 <= i < steps.len() ==> steps[i].binding < fields.len(),
        forall|i: int, j: int| 0 <= i < j < steps.len() ==> steps[i].binding < steps[j].binding,
    decreases fields.len(),
{
    if fields.len() > 0 {
        let init = fields.drop_last();
        lemma_plan_last(fields, steps);
        let prev = spec_plan(init)->Ok_0;
        lemma_plan_steps_ordered(init, prev);
        assert forall|i: int| #![trigger steps[i]] 0 <= i < steps.len() implies steps[i].binding
            < fields.len() by {
            if i < prev.len() {
                assert(steps[i] == prev[i]);
            }
        }
        assert forall|i: int, j: int| 0 <= i < j < steps.len() implies steps[i].binding
            < steps[j].binding by {
            assert(steps[i] == prev[i]);
            if j < prev.len() {
                assert(steps[j] == prev[j]);
            } else {
                let st = Step {
                    binding: (fields.len() - 1) as usize,
                    path: spec_field_plan(fields.last())->Ok_0->Some_0,
                    per_item: fields.last().is_array,
                };
                assert(steps == prev.push(st));
                assert(steps[j] == st);
                assert(prev[i].binding < init.len());
            }
        }
    }
}

/// Every measured binding has a step.
proof fn lemma_plan_covers(fields: Seq<FieldInfo>, steps: Seq<Step>)
    requires
        fields.len() <= usize::MAX,
        spec_plan(fields) == Ok::<Seq<Step>, DeriveError>(steps),
    ensures
        forall|b: int|
            #![trigger fields[b]]
            0 <= b < fields.len() && spec_field_plan(fields[b])->Ok_0 is Some ==> exists|i: int|
                0 <= i < steps.len() && steps[i].binding == b,
    decreases fields.len(),
{
    if fields.len() > 0 {
        let init = fields.drop_last();
        lemma_plan_last(fields, steps);
        let prev = spec_plan(init)->Ok_0;
        lemma_plan_covers(init, prev);
        assert forall|b: int|
            #![trigger fields[b]]
            0 <= b < fields.len() && spec_field_plan(fields[b])->Ok_0 is Some implies exists|i: int|
                0 <= i < steps.len() && steps[i].binding == b by {
            if b < init.len() {
                assert(init[b] == fields[b]);
                let i = choose|i: int| 0 <= i < prev.len() && prev[i].binding == b;
                assert(steps[i] == prev[i]);
            } else {
                assert(fields[b] == fields.last());
                let st = Step {
                    binding: (fields.len() - 1) as usize,
                    path: spec_field_plan(fields.last())->Ok_0->Some_0,
                    per_item: fields.last().is_array,
                };
                assert(steps == prev.push(st));
                assert(steps[prev.len() as int] == st);
            }
        }
    }
}

/// An empty hash map owns no block, whether or not the allocator can size
/// blocks from interior addresses.
pub proof fn lemma_empty_hash_map_shallow<K, V, S>(map: HashMap<K, V, S>, m: SizeModel, r: usize)
    requires
        map.len() == 0,
        map.reports_shallow_size(m, r),
    ensures
        r == 0,
{
}

/// An empty hash set owns no block, whether or not the allocator can size
/// blocks from interior addresses.
pub proof fn lemma_empty_hash_set_shallow<T, S>(set: HashSet<T, S>, m: SizeModel, r: usize)
    requires
        set.len() == 0,
        set.reports_shallow_size(m, r),
    ensures
        r == 0,
{
}

/// The generated code measures exactly the bindings that are not ignored,
/// each once and in order, through the trait their markers choose, and item
/// by item where the binding is an array.
pub proof fn lemma_plan_measures_unignored(fields: Seq<FieldInfo>, steps: Seq<Step>)
    requires
        fields.len() <= usize::MAX,
        spec_plan(fields) == Ok::<Seq<Step>, DeriveError>(steps),
    ensures
        forall|i: int|
            #![trigger steps[i]]
            0 <= i < steps.len() ==> {
                &&& steps[i].binding < fields.len()
                &&& spec_field_plan(fields[steps[i].binding as int]) == Ok::<
                    Option<MeasurePath>,
                    DeriveError,
                >(Some(steps[i].path))
                &&& steps[i].per_item == fields[steps[i].binding as int].is_array
            },
        forall|i: int, j: int| 0 <= i < j < steps.len() ==> steps[i].binding < steps[j].binding,
        forall|b: int|
            #![trigger fields[b]]
            0 <= b < fields.len() && spec_field_plan(fields[b])->Ok_0 is Some ==> exists|i: int|
                0 <= i < steps.len() && steps[i].binding == b,
{
    lemma_plan_steps_valid(fields, steps);
    lemma_plan_steps_ordered(fields, steps);
    lemma_plan_covers(fields, steps);
}

} // verus!
