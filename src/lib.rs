//! Heap-usage measurement of nested data structures, independent of the
//! allocator: the allocator's size functions are handed in, and every value
//! reports what it owns through the measurement traits.
pub mod derive_plan;
pub mod impls;
pub mod laws;
pub mod measurable;
pub mod measure;
pub mod ops;

pub use measurable::Measurable;
pub use measure::{
    MallocConditionalShallowSizeOf, MallocConditionalSizeOf, MallocShallowSizeOf, MallocSizeOf,
    MallocUnconditionalShallowSizeOf, MallocUnconditionalSizeOf,
};
pub use ops::MallocSizeOfOps;
