use malloc_size_of::{MallocShallowSizeOf, MallocSizeOf, MallocSizeOfOps, Measurable};
use std::borrow::Cow;
use std::collections::{BTreeMap, HashMap, HashSet, VecDeque};
use std::marker::PhantomData;
use std::sync::atomic::{AtomicBool, AtomicI64, AtomicU32, AtomicUsize};

type SizeFn = fn(usize) -> usize;

const BLOCK: usize = 64;
const ENCLOSING: usize = 512;

fn block(addr: usize) -> usize {
    assert!(addr > 256);
    BLOCK
}

fn enclosing(addr: usize) -> usize {
    assert!(addr > 256);
    ENCLOSING
}

fn huge(_addr: usize) -> usize {
    usize::MAX - 10
}

fn plain_ops() -> MallocSizeOfOps<SizeFn> {
    MallocSizeOfOps::new(block as SizeFn, None, false)
}

fn enclosing_ops() -> MallocSizeOfOps<SizeFn> {
    MallocSizeOfOps::new(block as SizeFn, Some(enclosing as SizeFn), false)
}

fn bytes(n: usize) -> Vec<u8> {
    let mut v = Vec::with_capacity(n);
    v.resize(n, 7);
    v
}

#[test]
fn primitives_measure_zero() {
    let mut ops = plain_ops();
    assert_eq!(().size_of(&mut ops), 0);
    assert_eq!(true.size_of(&mut ops), 0);
    assert_eq!('x'.size_of(&mut ops), 0);
    assert_eq!(7u8.size_of(&mut ops), 0);
    assert_eq!(7u16.size_of(&mut ops), 0);
    assert_eq!(7u32.size_of(&mut ops), 0);
    assert_eq!(7u64.size_of(&mut ops), 0);
    assert_eq!(7u128.size_of(&mut ops), 0);
    assert_eq!(7usize.size_of(&mut ops), 0);
    assert_eq!((-7i8).size_of(&mut ops), 0);
    assert_eq!((-7i16).size_of(&mut ops), 0);
    assert_eq!((-7i32).size_of(&mut ops), 0);
    assert_eq!((-7i64).size_of(&mut ops), 0);
    assert_eq!((-7i128).size_of(&mut ops), 0);
    assert_eq!((-7isize).size_of(&mut ops), 0);
    assert_eq!("text".size_of(&mut ops), 0);
    assert_eq!(PhantomData::<String>.size_of(&mut ops), 0);
    let owned = String::from("not counted through a reference");
    assert_eq!(<&String as MallocSizeOf>::size_of(&&owned, &mut ops), 0);
    let mut owned_mut = String::from("x");
    assert_eq!(<&mut String as MallocSizeOf>::size_of(&&mut owned_mut, &mut ops), 0);
}

#[test]
fn string_measures_its_buffer() {
    let mut ops = plain_ops();
    assert_eq!(String::from("hello").size_of(&mut ops), BLOCK);
    assert_eq!(String::new().size_of(&mut ops), 0);
}

#[test]
fn fixed_arity_composites_sum_their_members() {
    let mut ops = plain_ops();
    assert_eq!((bytes(3), 5u32).size_of(&mut ops), BLOCK);
    assert_eq!((bytes(3), bytes(4)).size_of(&mut ops), 2 * BLOCK);
    assert_eq!((bytes(1), bytes(2), bytes(3)).size_of(&mut ops), 3 * BLOCK);
    assert_eq!((bytes(1), 0u8, bytes(3), String::from("a")).size_of(&mut ops), 3 * BLOCK);
    assert_eq!([bytes(1), bytes(2), Vec::new()].size_of(&mut ops), 2 * BLOCK);
    let slice: &[Vec<u8>] = &[bytes(1), bytes(1)];
    assert_eq!(<[Vec<u8>] as MallocSizeOf>::size_of(slice, &mut ops), 2 * BLOCK);
}

#[test]
fn absent_members_contribute_zero() {
    let mut ops = plain_ops();
    assert_eq!(Some(bytes(4)).size_of(&mut ops), BLOCK);
    assert_eq!(None::<Vec<u8>>.size_of(&mut ops), 0);
    let ok: Result<Vec<u8>, String> = Ok(bytes(2));
    let err: Result<Vec<u8>, String> = Err(String::from("e"));
    let err_empty: Result<Vec<u8>, String> = Err(String::new());
    assert_eq!(ok.size_of(&mut ops), BLOCK);
    assert_eq!(err.size_of(&mut ops), BLOCK);
    assert_eq!(err_empty.size_of(&mut ops), 0);
}

#[test]
fn ranges_measure_their_ends() {
    let mut ops = plain_ops();
    assert_eq!((bytes(1)..bytes(2)).size_of(&mut ops), 2 * BLOCK);
    assert_eq!((..bytes(2)).size_of(&mut ops), BLOCK);
    assert_eq!((bytes(2)..).size_of(&mut ops), BLOCK);
}

#[test]
fn boxes_add_their_block_to_the_contents() {
    let mut ops = plain_ops();
    let b = Box::new(bytes(8));
    assert_eq!(b.shallow_size_of(&mut ops), BLOCK);
    assert_eq!(b.size_of(&mut ops), 2 * BLOCK);
    let boxed_int = Box::new(5u64);
    assert_eq!(boxed_int.size_of(&mut ops), BLOCK);
}

#[test]
fn vec_is_shallow_plus_each_element() {
    let mut ops = plain_ops();
    let v: Vec<Vec<u8>> = (0..5).map(|i| bytes(i + 1)).collect();
    assert_eq!(v.shallow_size_of(&mut ops), BLOCK);
    assert_eq!(v.size_of(&mut ops), BLOCK + 5 * BLOCK);
    let empty: Vec<Vec<u8>> = Vec::new();
    assert_eq!(empty.size_of(&mut ops), 0);
}

#[test]
fn appending_keeps_earlier_contributions() {
    let mut ops = plain_ops();
    let mut v: Vec<Vec<u8>> = Vec::with_capacity(8);
    v.push(bytes(1));
    v.push(bytes(2));
    let before = v.size_of(&mut ops);
    v.push(bytes(3));
    let after = v.size_of(&mut ops);
    assert_eq!(before, 3 * BLOCK);
    assert_eq!(after, before + BLOCK);
}

#[test]
fn sums_clamp_at_the_largest_size() {
    let mut ops = MallocSizeOfOps::new(huge as SizeFn, None, false);
    let v = vec![String::from("a"), String::from("b")];
    assert_eq!(v.size_of(&mut ops), usize::MAX);
}

#[test]
fn deque_uses_the_front_element_as_interior_address() {
    let mut ops = enclosing_ops();
    let mut d: VecDeque<Vec<u8>> = VecDeque::with_capacity(4);
    d.push_back(bytes(1));
    d.push_front(bytes(2));
    assert_eq!(d.shallow_size_of(&mut ops), ENCLOSING);
    assert_eq!(d.size_of(&mut ops), ENCLOSING + 2 * BLOCK);
}

#[test]
fn empty_deque_owns_nothing() {
    let mut ops = enclosing_ops();
    let d: VecDeque<u64> = VecDeque::with_capacity(16);
    assert_eq!(d.shallow_size_of(&mut ops), 0);
    assert_eq!(d.size_of(&mut ops), 0);
}

#[test]
fn empty_deque_owns_nothing_on_the_estimate_path() {
    let mut ops = plain_ops();
    let d: VecDeque<u64> = VecDeque::with_capacity(16);
    assert!(d.capacity() >= 16);
    assert_eq!(d.shallow_size_of(&mut ops), 0);
    assert_eq!(d.size_of(&mut ops), 0);
}

#[test]
fn deque_estimate_without_enclosing_sizes() {
    let mut ops = plain_ops();
    let mut d: VecDeque<u64> = VecDeque::new();
    d.push_back(1);
    d.push_back(2);
    let expected = d.capacity() * 8;
    assert!(expected > 0);
    assert_eq!(d.shallow_size_of(&mut ops), expected);
    assert_eq!(d.size_of(&mut ops), expected);
}

#[test]
fn btree_map_both_ways() {
    let mut m: BTreeMap<u32, Vec<u8>> = BTreeMap::new();
    m.insert(1, bytes(1));
    m.insert(2, bytes(2));
    m.insert(3, Vec::new());
    let mut with = enclosing_ops();
    assert_eq!(m.shallow_size_of(&mut with), ENCLOSING);
    assert_eq!(m.size_of(&mut with), ENCLOSING + 2 * BLOCK);
    let mut without = plain_ops();
    let estimate = 3 * (24 + 4 + 8);
    assert_eq!(m.shallow_size_of(&mut without), estimate);
    assert_eq!(m.size_of(&mut without), estimate + 2 * BLOCK);
}

#[test]
fn btree_map_keys_are_measured() {
    let mut m: BTreeMap<String, u8> = BTreeMap::new();
    m.insert(String::from("a"), 1);
    m.insert(String::from("b"), 2);
    let mut without = plain_ops();
    let estimate = 2 * (1 + 24 + 8);
    assert_eq!(m.size_of(&mut without), estimate + 2 * BLOCK);
}

#[test]
fn empty_maps_own_nothing() {
    let mut ops = enclosing_ops();
    let b: BTreeMap<u8, u8> = BTreeMap::new();
    let h: HashMap<u8, u8> = HashMap::with_capacity(32);
    let s: HashSet<u8> = HashSet::with_capacity(32);
    assert_eq!(b.shallow_size_of(&mut ops), 0);
    assert_eq!(h.shallow_size_of(&mut ops), 0);
    assert_eq!(s.shallow_size_of(&mut ops), 0);
    assert_eq!(b.size_of(&mut ops), 0);
    assert_eq!(h.size_of(&mut ops), 0);
    assert_eq!(s.size_of(&mut ops), 0);
    let mut plain = plain_ops();
    assert_eq!(b.shallow_size_of(&mut plain), 0);
    assert_eq!(h.shallow_size_of(&mut plain), 0);
    assert_eq!(s.shallow_size_of(&mut plain), 0);
    assert_eq!(h.size_of(&mut plain), 0);
    assert_eq!(s.size_of(&mut plain), 0);
}

#[test]
fn hash_map_both_ways() {
    let mut m: HashMap<u64, String> = HashMap::new();
    m.insert(1, String::from("one"));
    m.insert(2, String::from("two"));
    let mut with = enclosing_ops();
    assert_eq!(m.shallow_size_of(&mut with), ENCLOSING);
    assert_eq!(m.size_of(&mut with), ENCLOSING + 2 * BLOCK);
    let mut without = plain_ops();
    let estimate = 2 * (24 + 8 + 8);
    assert_eq!(m.shallow_size_of(&mut without), estimate);
    assert_eq!(m.size_of(&mut without), estimate + 2 * BLOCK);
}

#[test]
fn hash_set_both_ways() {
    let mut s: HashSet<String> = HashSet::new();
    s.insert(String::from("x"));
    s.insert(String::from("y"));
    s.insert(String::from("z"));
    let mut with = enclosing_ops();
    assert_eq!(s.shallow_size_of(&mut with), ENCLOSING);
    assert_eq!(s.size_of(&mut with), ENCLOSING + 3 * BLOCK);
    let mut without = plain_ops();
    let estimate = 3 * (24 + 8);
    assert_eq!(s.shallow_size_of(&mut without), estimate);
    assert_eq!(s.size_of(&mut without), estimate + 3 * BLOCK);
}

#[test]
fn measurable_defers_to_its_value() {
    let mut ops = plain_ops();
    let mut m = Measurable(bytes(3));
    assert_eq!(m.len(), 3);
    m.push(4);
    assert_eq!(m.0.len(), 4);
    assert_eq!(m.size_of(&mut ops), BLOCK);
    let copy = m.clone();
    assert_eq!(*copy, vec![7, 7, 7, 4]);
}

#[test]
fn atomics_measure_zero() {
    let mut ops = plain_ops();
    assert_eq!(AtomicBool::new(true).size_of(&mut ops), 0);
    assert_eq!(AtomicU32::new(3).size_of(&mut ops), 0);
    assert_eq!(AtomicI64::new(-3).size_of(&mut ops), 0);
    assert_eq!(AtomicUsize::new(9).size_of(&mut ops), 0);
}

#[test]
fn cow_measures_only_owned_data() {
    let mut ops = plain_ops();
    let borrowed: Cow<'_, str> = Cow::Borrowed("borrowed");
    let owned: Cow<'_, str> = Cow::Owned(String::from("owned"));
    assert_eq!(borrowed.size_of(&mut ops), 0);
    assert_eq!(owned.size_of(&mut ops), BLOCK);
}

#[test]
fn cell_measures_its_value() {
    let mut ops = plain_ops();
    let c = std::cell::Cell::new(Some(5u32));
    assert_eq!(c.size_of(&mut ops), 0);
}

#[test]
fn inclusive_range_measures_both_ends() {
    let mut ops = plain_ops();
    assert_eq!((bytes(1)..=bytes(2)).size_of(&mut ops), 2 * BLOCK);
    assert_eq!((1u8..=9).size_of(&mut ops), 0);
}

#[test]
fn mutex_measures_its_contents() {
    let mut ops = plain_ops();
    let m = std::sync::Mutex::new(vec![bytes(1), bytes(2)]);
    assert_eq!(m.size_of(&mut ops), 3 * BLOCK);
    // The lock is released again after measuring.
    assert!(m.try_lock().is_ok());
}

#[test]
fn mutex_held_elsewhere_is_not_waited_for() {
    let mut ops = plain_ops();
    let m = std::sync::Mutex::new(bytes(4));
    let held = m.lock().unwrap();
    assert_eq!(m.size_of(&mut ops), 0);
    drop(held);
    assert_eq!(m.size_of(&mut ops), BLOCK);
}

#[test]
fn plain_measurement_records_no_addresses() {
    let mut ops = MallocSizeOfOps::new(block as SizeFn, None, true);
    let v = vec![bytes(1), bytes(2)];
    let addr = v.as_ptr() as usize;
    assert_eq!(v.size_of(&mut ops), 3 * BLOCK);
    assert_eq!(None::<Vec<u8>>.size_of(&mut ops), 0);
    assert!(!ops.have_seen_ptr(addr));
}
