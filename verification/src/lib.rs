//! A fixed-capacity in-memory cache of fixed-size pages (a buffer pool)
//! backed by a page-addressed heap image (a disk manager).
//!
//! The disk manager maps a page identity to a byte range of a flat heap
//! image, mints new identities monotonically, and reads or writes exactly
//! one page-sized block at a time. The buffer pool owns an array of frames,
//! a page table from resident identity to frame slot, and a sweep cursor;
//! its `fetch_page` entry point runs a clock-sweep eviction scan when the
//! requested page is not resident.

pub mod disk;
pub mod page;
pub mod pool;
