use buffer_pool::disk::DiskManager;
use buffer_pool::disk::IoError;
use buffer_pool::page::PAGE_SIZE;
use buffer_pool::page::PageId;

fn patterned_page(seed: u8) -> Vec<u8> {
    let mut v = Vec::with_capacity(PAGE_SIZE);
    let mut i: usize = 0;
    while i < PAGE_SIZE {
        v.push((seed as usize).wrapping_add(i.wrapping_mul(31)) as u8);
        i += 1;
    }
    v
}

#[test]
fn round_trip_all_zero() {
    let mut dm = DiskManager::new(Vec::new());
    let page = vec![0u8; PAGE_SIZE];
    dm.write_page_data(PageId(0), &page);
    let mut out = vec![0xABu8; PAGE_SIZE];
    assert_eq!(dm.read_page_data(PageId(0), &mut out), Ok(()));
    assert_eq!(out, page);
}

#[test]
fn round_trip_all_ff() {
    let mut dm = DiskManager::new(Vec::new());
    let page = vec![0xFFu8; PAGE_SIZE];
    dm.write_page_data(PageId(3), &page);
    let mut out = vec![0u8; PAGE_SIZE];
    assert_eq!(dm.read_page_data(PageId(3), &mut out), Ok(()));
    assert_eq!(out, page);
}

#[test]
fn round_trip_pattern() {
    let mut dm = DiskManager::new(Vec::new());
    let page = patterned_page(7);
    dm.write_page_data(PageId(1), &page);
    let mut out = vec![0u8; PAGE_SIZE];
    assert_eq!(dm.read_page_data(PageId(1), &mut out), Ok(()));
    assert_eq!(out, page);
}

#[test]
fn write_extends_with_zero_gap() {
    let mut dm = DiskManager::new(Vec::new());
    let page = patterned_page(9);
    dm.write_page_data(PageId(2), &page);
    assert_eq!(dm.heap_len(), 3 * PAGE_SIZE);
    let mut out = vec![0xEEu8; PAGE_SIZE];
    assert_eq!(dm.read_page_data(PageId(0), &mut out), Ok(()));
    assert_eq!(out, vec![0u8; PAGE_SIZE]);
    assert_eq!(dm.read_page_data(PageId(1), &mut out), Ok(()));
    assert_eq!(out, vec![0u8; PAGE_SIZE]);
    assert_eq!(dm.read_page_data(PageId(2), &mut out), Ok(()));
    assert_eq!(out, page);
}

#[test]
fn write_preserves_other_pages() {
    let mut dm = DiskManager::new(Vec::new());
    let first = patterned_page(1);
    let second = patterned_page(2);
    dm.write_page_data(PageId(0), &first);
    dm.write_page_data(PageId(1), &second);
    let mut out = vec![0u8; PAGE_SIZE];
    assert_eq!(dm.read_page_data(PageId(0), &mut out), Ok(()));
    assert_eq!(out, first);
}

#[test]
fn read_past_end_is_short_read() {
    let mut dm = DiskManager::new(Vec::new());
    let mut out = vec![0x55u8; PAGE_SIZE];
    assert_eq!(
        dm.read_page_data(PageId(0), &mut out),
        Err(IoError::UnexpectedEof)
    );
    // The buffer is left as it was.
    assert_eq!(out, vec![0x55u8; PAGE_SIZE]);
}

#[test]
fn allocation_is_monotonic() {
    let mut dm = DiskManager::new(Vec::new());
    let mut previous: Option<u64> = None;
    for expected in 0u64..5u64 {
        let id = dm.allocate_page();
        assert_eq!(id.to_u64(), expected);
        if let Some(p) = previous {
            assert!(p < id.to_u64());
        }
        previous = Some(id.to_u64());
    }
}

#[test]
fn reopening_resumes_allocation() {
    // A heap image of length L pages resumes allocation at identity L.
    let image = vec![0u8; 4 * PAGE_SIZE];
    let mut dm = DiskManager::new(image);
    assert_eq!(dm.next_page_id(), 4);
    assert_eq!(dm.allocate_page().to_u64(), 4);
    assert_eq!(dm.allocate_page().to_u64(), 5);
}

#[test]
fn into_heap_round_trips_through_reopen() {
    let mut dm = DiskManager::new(Vec::new());
    let page = patterned_page(5);
    dm.write_page_data(PageId(0), &page);
    let image = dm.into_heap();
    let mut reopened = DiskManager::new(image);
    assert_eq!(reopened.next_page_id(), 1);
    let mut out = vec![0u8; PAGE_SIZE];
    assert_eq!(reopened.read_page_data(PageId(0), &mut out), Ok(()));
    assert_eq!(out, page);
}
