//! A process-wide memory-allocator redirection shim.
//!
//! The crate exposes a generic allocate/grow/shrink/deallocate facade
//! ([`MiMalloc`]) on top of a small set of aligned-allocation primitives
//! (the [`AllocPrimitive`] capability), together with the decision logic of
//! the libc interception stubs (`posix_memalign`, `valloc`, `pvalloc`) and
//! version/statistics accessors.
//!
//! The primitive capability is abstract: [`ModelHeap`] is an in-memory
//! reference implementation used to validate the facade and by the test
//! suite, while a deployment backs the same trait with the native
//! allocator's entry points.

mod facade;
mod heap;
mod intercept;
mod layout;
mod primitive;
mod sink;
mod version;

pub use facade::{AllocError, MiMalloc};
pub use heap::ModelHeap;
pub use intercept::{checked_page_size, posix_memalign, pvalloc, round_up_to_multiple, valloc,
    PosixMemalignOutcome, VallocOutcome};
pub use layout::{power_of_two, Block, Layout};
pub use primitive::{AllocPrimitive, StatsSink};
pub use sink::CollectingSink;
pub use version::{Version, VersionEncoding};
