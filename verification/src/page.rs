//! Page identities, the page size, and the mathematical model of a
//! page-addressed heap image.

use vstd::prelude::*;

verus! {

/// Size in bytes of one page: the unit of all disk I/O and the unit of
/// caching.
pub const PAGE_SIZE: usize = 4096;

/// Identity of one page. A distinct type rather than a plain integer, so
/// that meaningless arithmetic on identities (adding two of them, say) is
/// caught at compile time.
#[derive(Clone, Copy, Debug, Hash, PartialEq, Eq, Structural)]
pub struct PageId(pub u64);

impl View for PageId {
    type V = u64;

    open spec fn view(&self) -> u64 {
        self.0
    }
}

impl PageId {
    /// The identity as a plain integer, for callers that need to store it.
    pub fn to_u64(self) -> (r: u64)
        ensures
            r == self@,
    {
        self.0
    }
}

/// The byte offset at which page `pid` begins in a heap image.
pub open spec fn page_offset(pid: u64) -> int {
    pid * (PAGE_SIZE as int)
}

/// The identity is low enough that its page's byte range fits in memory,
/// so offset arithmetic on it cannot overflow a `usize`.
pub open spec fn page_in_bounds(pid: u64) -> bool {
    (pid + 1) * (PAGE_SIZE as int) <= usize::MAX as int
}

/// The page-sized byte block stored for `pid` in the heap image `heap`.
pub open spec fn spec_page_at(heap: Seq<u8>, pid: u64) -> Seq<u8> {
    heap.subrange(page_offset(pid), page_offset(pid) + PAGE_SIZE as int)
}

/// The heap image after writing `data` as page `pid`: the page's byte range
/// holds `data`, every byte outside it keeps its old value, and any gap
/// opened between the old end of the image and the page reads as zero.
pub open spec fn spec_write_page(heap: Seq<u8>, pid: u64, data: Seq<u8>) -> Seq<u8> {
    let end = page_offset(pid) + PAGE_SIZE as int;
    let new_len = if heap.len() >= end {
        heap.len() as int
    } else {
        end
    };
    Seq::new(
        new_len as nat,
        |i: int|
            if page_offset(pid) <= i < end {
                data[i - page_offset(pid)]
            } else if i < heap.len() {
                heap[i]
            } else {
                0u8
            },
    )
}

/// A fresh all-zero page buffer.
pub fn zeroed_page() -> (v: Vec<u8>)
    ensures
        v@.len() == PAGE_SIZE,
        forall|i: int| 0 <= i < v@.len() ==> v@[i] == 0u8,
{
    let mut v: Vec<u8> = Vec::new();
    while v.len() < PAGE_SIZE
        invariant
            v@.len() <= PAGE_SIZE,
            forall|i: int| 0 <= i < v@.len() ==> v@[i] == 0u8,
        decreases PAGE_SIZE - v@.len(),
    {
        v.push(0u8);
    }
    v
}

} // verus!
