//! An allocator for the earliest phase of start-up, before a heap or a page
//! allocator exists.
//!
//! One contiguous region is served from both ends: byte allocations grow
//! upward from its start, page allocations grow downward from its end.
//!
//! ```text
//! [ bytes in use |     free     | pages in use ]
//! start      byte cursor    page cursor       end
//! ```
//!
//! The byte arena is given back as a whole once every byte allocation has been
//! returned. Pages are never given back.
//!
//! The allocator does no locking. A caller that shares one between threads or
//! cores has to serialise every access to it.
//!
//! - [`allocator`] holds [`EarlyAllocator`] and its operations.
//! - [`arena`] holds the mathematical state that their contracts speak of.
//! - [`runs`] holds what follows for whole runs of calls.
//! - [`align`] holds the rounding of addresses.

pub mod align;
pub mod allocator;
pub mod arena;
pub mod runs;

pub use allocator::{AllocError, EarlyAllocator};
