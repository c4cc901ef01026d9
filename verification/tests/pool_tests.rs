use buffer_pool::disk::DiskManager;
use buffer_pool::disk::IoError;
use buffer_pool::page::PAGE_SIZE;
use buffer_pool::page::PageId;
use buffer_pool::pool::BufferPoolManager;
use buffer_pool::pool::PoolError;

fn patterned_page(seed: u8) -> Vec<u8> {
    let mut v = Vec::with_capacity(PAGE_SIZE);
    let mut i: usize = 0;
    while i < PAGE_SIZE {
        v.push((seed as usize).wrapping_add(i.wrapping_mul(17)) as u8);
        i += 1;
    }
    v
}

/// A disk manager whose image already holds `n` pages, page `i` filled with
/// the pattern of seed `i`.
fn disk_with_pages(n: u8) -> DiskManager {
    let mut dm = DiskManager::new(Vec::new());
    for i in 0..n {
        dm.write_page_data(PageId(i as u64), &patterned_page(i));
    }
    dm
}

#[test]
fn miss_loads_page_from_disk() {
    let mut pool = BufferPoolManager::new(disk_with_pages(2), 2);
    let slot = pool.fetch_page(PageId(0)).unwrap();
    assert_eq!(pool.page_id_of(slot), Some(PageId(0)));
    assert_eq!(pool.page_data(slot), &patterned_page(0));
    assert!(!pool.is_dirty(slot));
    assert_eq!(pool.lease_count(slot), 1);
    assert!(pool.contains_page(PageId(0)));
}

#[test]
fn hit_returns_same_frame_and_content() {
    let mut pool = BufferPoolManager::new(disk_with_pages(2), 2);
    let slot = pool.fetch_page(PageId(0)).unwrap();
    pool.unpin_page(slot);
    let again = pool.fetch_page(PageId(0)).unwrap();
    assert_eq!(again, slot);
    assert_eq!(pool.page_data(again), &patterned_page(0));
    assert_eq!(pool.lease_count(again), 1);
}

#[test]
fn hit_returns_latest_written_content() {
    let mut pool = BufferPoolManager::new(disk_with_pages(2), 2);
    let slot = pool.fetch_page(PageId(0)).unwrap();
    let fresh = patterned_page(42);
    pool.write_page(slot, &fresh);
    assert!(pool.is_dirty(slot));
    pool.unpin_page(slot);
    let again = pool.fetch_page(PageId(0)).unwrap();
    assert_eq!(again, slot);
    assert_eq!(pool.page_data(again), &fresh);
}

#[test]
fn resident_identities_are_unique() {
    let mut pool = BufferPoolManager::new(disk_with_pages(3), 3);
    for pid in 0u64..3u64 {
        let slot = pool.fetch_page(PageId(pid)).unwrap();
        pool.unpin_page(slot);
    }
    let mut seen: Vec<u64> = Vec::new();
    for slot in 0..pool.pool_size() {
        if let Some(pid) = pool.page_id_of(slot) {
            assert!(!seen.contains(&pid.to_u64()));
            seen.push(pid.to_u64());
        }
    }
    assert_eq!(seen.len(), 3);
}

#[test]
fn eviction_never_touches_a_leased_frame() {
    // Hold leases on all frames but one; a fetch of a new identity must land
    // in the unleased frame and leave the leased ones undisturbed.
    let mut pool = BufferPoolManager::new(disk_with_pages(3), 2);
    let slot0 = pool.fetch_page(PageId(0)).unwrap();
    let slot1 = pool.fetch_page(PageId(1)).unwrap();
    pool.unpin_page(slot1);
    let slot2 = pool.fetch_page(PageId(2)).unwrap();
    assert_eq!(slot2, slot1);
    assert_eq!(pool.page_id_of(slot0), Some(PageId(0)));
    assert_eq!(pool.page_data(slot0), &patterned_page(0));
    assert_eq!(pool.lease_count(slot0), 1);
    assert!(pool.contains_page(PageId(0)));
    assert!(!pool.contains_page(PageId(1)));
    assert!(pool.contains_page(PageId(2)));
}

#[test]
fn exhaustion_returns_no_free_buffer() {
    let mut pool = BufferPoolManager::new(disk_with_pages(3), 2);
    let slot0 = pool.fetch_page(PageId(0)).unwrap();
    let slot1 = pool.fetch_page(PageId(1)).unwrap();
    let r = pool.fetch_page(PageId(2));
    assert_eq!(r, Err(PoolError::NoFreeBuffer));
    // Nothing was evicted and nothing crashed.
    assert!(pool.contains_page(PageId(0)));
    assert!(pool.contains_page(PageId(1)));
    assert!(!pool.contains_page(PageId(2)));
    assert_eq!(pool.lease_count(slot0), 1);
    assert_eq!(pool.lease_count(slot1), 1);
    // After a lease is given back, the fetch succeeds.
    pool.unpin_page(slot1);
    assert!(pool.fetch_page(PageId(2)).is_ok());
}

#[test]
fn dirty_victim_is_flushed_before_reuse() {
    let mut pool = BufferPoolManager::new(disk_with_pages(2), 1);
    let slot = pool.fetch_page(PageId(0)).unwrap();
    let changed = patterned_page(99);
    pool.write_page(slot, &changed);
    pool.unpin_page(slot);
    // Evict page 0 (dirty): its bytes must reach the disk image.
    let other = pool.fetch_page(PageId(1)).unwrap();
    assert_eq!(pool.page_data(other), &patterned_page(1));
    pool.unpin_page(other);
    // Reload page 0: the flushed bytes come back.
    let back = pool.fetch_page(PageId(0)).unwrap();
    assert_eq!(pool.page_data(back), &changed);
    assert!(!pool.is_dirty(back));
}

#[test]
fn mark_dirty_sets_the_flag() {
    let mut pool = BufferPoolManager::new(disk_with_pages(1), 1);
    let slot = pool.fetch_page(PageId(0)).unwrap();
    assert!(!pool.is_dirty(slot));
    pool.mark_dirty(slot);
    assert!(pool.is_dirty(slot));
}

#[test]
fn fetch_of_unwritten_page_is_io_error() {
    let mut pool = BufferPoolManager::new(disk_with_pages(1), 2);
    let r = pool.fetch_page(PageId(7));
    assert_eq!(r, Err(PoolError::Io(IoError::UnexpectedEof)));
    assert!(!pool.contains_page(PageId(7)));
    // The pool still serves what it has.
    assert!(pool.fetch_page(PageId(0)).is_ok());
}

#[test]
fn clock_sweep_scenario() {
    // Pool capacity 2, page size 4096. Fetch id 0 (miss, load), fetch id 1
    // (miss, load), fetch id 0 (hit), then fetch id 2 holding no leases:
    // the sweep favors id 1, since id 0 was freshly touched by the hit.
    let mut pool = BufferPoolManager::new(disk_with_pages(3), 2);
    let s0 = pool.fetch_page(PageId(0)).unwrap();
    pool.unpin_page(s0);
    let s1 = pool.fetch_page(PageId(1)).unwrap();
    pool.unpin_page(s1);
    let h0 = pool.fetch_page(PageId(0)).unwrap();
    assert_eq!(h0, s0);
    pool.unpin_page(h0);
    let s2 = pool.fetch_page(PageId(2)).unwrap();
    assert_eq!(s2, s1);
    assert!(pool.contains_page(PageId(0)));
    assert!(pool.contains_page(PageId(2)));
    assert!(!pool.contains_page(PageId(1)));
    assert_eq!(pool.page_data(s2), &patterned_page(2));
}

#[test]
fn lease_counts_are_exact() {
    let mut pool = BufferPoolManager::new(disk_with_pages(1), 1);
    let slot = pool.fetch_page(PageId(0)).unwrap();
    assert_eq!(pool.lease_count(slot), 1);
    let again = pool.fetch_page(PageId(0)).unwrap();
    assert_eq!(again, slot);
    assert_eq!(pool.lease_count(slot), 2);
    pool.unpin_page(slot);
    assert_eq!(pool.lease_count(slot), 1);
    pool.unpin_page(slot);
    assert_eq!(pool.lease_count(slot), 0);
}
