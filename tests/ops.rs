use malloc_size_of::MallocSizeOfOps;

fn size_of_real_block(addr: usize) -> usize {
    assert!(addr > 256, "the allocator was asked about an empty-allocation address");
    1000
}

fn enclosing_size(addr: usize) -> usize {
    assert!(addr > 256);
    2000
}

type SizeFn = fn(usize) -> usize;

#[test]
fn sentinel_addresses_measure_zero_without_the_allocator() {
    let ops = MallocSizeOfOps::new(size_of_real_block as SizeFn, None, false);
    assert_eq!(ops.malloc_size_of(0), 0);
    assert_eq!(ops.malloc_size_of(1), 0);
    assert_eq!(ops.malloc_size_of(8), 0);
    assert_eq!(ops.malloc_size_of(256), 0);
}

#[test]
fn real_addresses_ask_the_allocator() {
    let ops = MallocSizeOfOps::new(size_of_real_block as SizeFn, None, false);
    assert_eq!(ops.malloc_size_of(257), 1000);
    assert_eq!(ops.malloc_size_of(0x7fff_0000), 1000);
}

#[test]
fn is_empty_threshold() {
    assert!(MallocSizeOfOps::<SizeFn>::is_empty(0));
    assert!(MallocSizeOfOps::<SizeFn>::is_empty(256));
    assert!(!MallocSizeOfOps::<SizeFn>::is_empty(257));
}

#[test]
fn enclosing_size_capability() {
    let without = MallocSizeOfOps::new(size_of_real_block as SizeFn, None, false);
    assert!(!without.has_malloc_enclosing_size_of());
    let with = MallocSizeOfOps::new(
        size_of_real_block as SizeFn,
        Some(enclosing_size as SizeFn),
        false,
    );
    assert!(with.has_malloc_enclosing_size_of());
    assert_eq!(with.malloc_enclosing_size_of(4096), 2000);
}

#[test]
fn have_seen_ptr_records_addresses() {
    let mut ops = MallocSizeOfOps::new(size_of_real_block as SizeFn, None, true);
    assert!(!ops.have_seen_ptr(4096));
    assert!(ops.have_seen_ptr(4096));
    assert!(!ops.have_seen_ptr(8192));
    assert!(ops.have_seen_ptr(8192));
    assert!(ops.have_seen_ptr(4096));
}
