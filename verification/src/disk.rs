//! The disk manager: a page-addressed heap image together with the counter
//! that mints new page identities.
//!
//! The heap image is a flat sequence of fixed-size pages, page `i` occupying
//! the byte range `[i * PAGE_SIZE, (i + 1) * PAGE_SIZE)`; there is no header
//! and no metadata, so a page's identity is purely positional. Opening an
//! existing image resumes identity allocation at `length / PAGE_SIZE`, so
//! every existing page keeps its identity.

use vstd::prelude::*;

use crate::page::PAGE_SIZE;
use crate::page::PageId;
use crate::page::page_in_bounds;
use crate::page::page_offset;
use crate::page::spec_page_at;
use crate::page::spec_write_page;

verus! {

/// An I/O failure surfaced by the disk manager.
#[derive(Clone, Copy, Debug, PartialEq, Eq, Structural)]
pub enum IoError {
    /// A read asked for bytes past the end of the heap image (a short read).
    UnexpectedEof,
}

/// The mathematical state of a disk manager: the bytes of the heap image,
/// the next identity to be allocated, and how many page reads have been
/// performed (so a caller can state that an operation invoked no read).
pub ghost struct DiskModel {
    pub heap: Seq<u8>,
    pub next_page_id: u64,
    pub reads: nat,
}

/// Owns the heap image; maps a page identity to a byte offset, allocates new
/// page identities monotonically, and reads or writes exactly one page-sized
/// block at a time.
pub struct DiskManager {
    heap: Vec<u8>,
    next_page_id: u64,
    reads: Ghost<nat>,
}

impl View for DiskManager {
    type V = DiskModel;

    closed spec fn view(&self) -> DiskModel {
        DiskModel { heap: self.heap@, next_page_id: self.next_page_id, reads: self.reads@ }
    }
}

impl DiskManager {
    /// Takes over a heap image and derives the next identity to allocate
    /// from its length, so that allocation resumes where it left off.
    pub fn new(heap: Vec<u8>) -> (r: Self)
        requires
            heap@.len() as int % (PAGE_SIZE as int) == 0,
        ensures
            r@.heap == heap@,
            r@.next_page_id == heap@.len() as int / (PAGE_SIZE as int),
            r@.reads == 0,
    {
        let next_page_id = (heap.len() / PAGE_SIZE) as u64;
        DiskManager { heap, next_page_id, reads: Ghost(0) }
    }

    /// Returns the next page identity and increments the internal counter;
    /// pure bookkeeping that does not touch the heap image.
    pub fn allocate_page(&mut self) -> (r: PageId)
        requires
            old(self)@.next_page_id < u64::MAX,
        ensures
            r@ == old(self)@.next_page_id,
            final(self)@.next_page_id == old(self)@.next_page_id + 1,
            final(self)@.heap == old(self)@.heap,
            final(self)@.reads == old(self)@.reads,
    {
        let page_id = self.next_page_id;
        self.next_page_id = self.next_page_id + 1;
        PageId(page_id)
    }

    /// Fills `data` (exactly one page) with page `page_id`'s bytes. Fails
    /// with a short read, leaving `data` unchanged, exactly when the heap
    /// image ends before the page's byte range does.
    pub fn read_page_data(&mut self, page_id: PageId, data: &mut Vec<u8>) -> (r: Result<
        (),
        IoError,
    >)
        requires
            old(data)@.len() == PAGE_SIZE,
            page_in_bounds(page_id@),
        ensures
            final(self)@.heap == old(self)@.heap,
            final(self)@.next_page_id == old(self)@.next_page_id,
            final(self)@.reads == old(self)@.reads + 1,
            final(data)@.len() == PAGE_SIZE,
            if page_offset(page_id@) + PAGE_SIZE as int <= old(self)@.heap.len() {
                r == Ok::<(), IoError>(()) && final(data)@ == spec_page_at(
                    old(self)@.heap,
                    page_id@,
                )
            } else {
                r == Err::<(), IoError>(IoError::UnexpectedEof) && final(data)@ == old(data)@
            },
    {
        proof {
            self.reads@ = self.reads@ + 1;
        }
        let offset = PAGE_SIZE * (page_id.0 as usize);
        if self.heap.len() >= PAGE_SIZE && offset <= self.heap.len() - PAGE_SIZE {
            let mut i: usize = 0;
            while i < PAGE_SIZE
                invariant
                    i <= PAGE_SIZE,
                    data@.len() == PAGE_SIZE,
                    offset + PAGE_SIZE as int <= self@.heap.len(),
                    offset == page_offset(page_id@),
                    forall|j: int| 0 <= j < i ==> data@[j] == self@.heap[offset + j],
                decreases PAGE_SIZE - i,
            {
                let b = self.heap[offset + i];
                data[i] = b;
                i = i + 1;
            }
            proof {
                assert(data@ =~= spec_page_at(self@.heap, page_id@));
            }
            Ok(())
        } else {
            Err(IoError::UnexpectedEof)
        }
    }

    /// Writes `data` (exactly one page) as page `page_id`, extending the
    /// heap image if necessary; bytes of any gap opened past the old end of
    /// the image are zero.
    pub fn write_page_data(&mut self, page_id: PageId, data: &Vec<u8>)
        requires
            data@.len() == PAGE_SIZE,
            page_in_bounds(page_id@),
        ensures
            final(self)@.heap == spec_write_page(old(self)@.heap, page_id@, data@),
            final(self)@.next_page_id == old(self)@.next_page_id,
            final(self)@.reads == old(self)@.reads,
    {
        let offset = PAGE_SIZE * (page_id.0 as usize);
        while self.heap.len() < offset + PAGE_SIZE
            invariant
                offset == page_offset(page_id@),
                offset + PAGE_SIZE as int <= usize::MAX as int,
                self@.next_page_id == old(self)@.next_page_id,
                self@.reads == old(self)@.reads,
                self@.heap.len() >= old(self)@.heap.len(),
                self@.heap.len() == old(self)@.heap.len() || self@.heap.len() <= offset
                    + PAGE_SIZE as int,
                forall|j: int| 0 <= j < old(self)@.heap.len() ==> self@.heap[j] == old(
                    self,
                )@.heap[j],
                forall|j: int|
                    old(self)@.heap.len() <= j < self@.heap.len() ==> self@.heap[j] == 0u8,
            decreases offset + PAGE_SIZE - self@.heap.len(),
        {
            self.heap.push(0u8);
        }
        let ghost padded = self@.heap;
        let mut i: usize = 0;
        while i < PAGE_SIZE
            invariant
                i <= PAGE_SIZE,
                offset == page_offset(page_id@),
                data@.len() == PAGE_SIZE,
                self@.next_page_id == old(self)@.next_page_id,
                self@.reads == old(self)@.reads,
                self@.heap.len() == padded.len(),
                offset + PAGE_SIZE as int <= padded.len(),
                forall|j: int| 0 <= j < i ==> self@.heap[offset + j] == data@[j],
                forall|j: int|
                    0 <= j < padded.len() && !(offset <= j < offset + i) ==> self@.heap[j]
                        == padded[j],
            decreases PAGE_SIZE - i,
        {
            let b = data[i];
            self.heap[offset + i] = b;
            i = i + 1;
        }
        proof {
            let result = spec_write_page(old(self)@.heap, page_id@, data@);
            assert(result.len() == padded.len());
            assert(self@.heap.len() == result.len());
            assert forall|k: int| 0 <= k < result.len() implies self@.heap[k] == result[k] by {
                if offset <= k < offset + PAGE_SIZE as int {
                    assert(self@.heap[offset + (k - offset)] == data@[k - offset]);
                    assert(result[k] == data@[k - offset]);
                } else {
                    assert(self@.heap[k] == padded[k]);
                    if k < old(self)@.heap.len() {
                        assert(padded[k] == old(self)@.heap[k]);
                    } else {
                        assert(padded[k] == 0u8);
                    }
                }
            }
            assert(self@.heap =~= result);
        }
    }

    /// The number of bytes in the heap image.
    pub fn heap_len(&self) -> (r: usize)
        ensures
            r == self@.heap.len(),
    {
        self.heap.len()
    }

    /// The identity the next call to `allocate_page` will return.
    pub fn next_page_id(&self) -> (r: u64)
        ensures
            r == self@.next_page_id,
    {
        self.next_page_id
    }

    /// Gives the heap image back, so that a caller owning the storage medium
    /// can persist it.
    pub fn into_heap(self) -> (r: Vec<u8>)
        ensures
            r@ == self@.heap,
    {
        self.heap
    }
}

/// Law: a page written to a heap image is read back unchanged, for any
/// page-sized content.
pub proof fn lemma_write_read_round_trip(heap: Seq<u8>, pid: u64, data: Seq<u8>)
    requires
        data.len() == PAGE_SIZE,
    ensures
        spec_page_at(spec_write_page(heap, pid, data), pid) == data,
{
    assert(spec_page_at(spec_write_page(heap, pid, data), pid) =~= data);
}

/// Law: writing one page never disturbs another page already present in the
/// heap image.
pub proof fn lemma_write_preserves_other_pages(heap: Seq<u8>, pid: u64, other: u64, data: Seq<u8>)
    requires
        data.len() == PAGE_SIZE,
        pid != other,
        page_offset(other) + PAGE_SIZE as int <= heap.len(),
    ensures
        spec_page_at(spec_write_page(heap, pid, data), other) == spec_page_at(heap, other),
{
    let p = pid as int;
    let q = other as int;
    let sz = PAGE_SIZE as int;
    assert(q * sz + sz <= p * sz || p * sz + sz <= q * sz) by (nonlinear_arith)
        requires
            p != q,
            0 <= p,
            0 <= q,
            sz == 4096,
    ;
    assert(spec_page_at(spec_write_page(heap, pid, data), other) =~= spec_page_at(heap, other));
}

/// Law: allocation is monotonic. The first two premises are what
/// `allocate_page` ensures of the call that returned `r0`; the third holds
/// of any later state, since no operation ever decreases the counter; the
/// last is what `allocate_page` ensures of the call that returned `r1`. Any
/// identity allocated later is therefore strictly greater.
pub proof fn lemma_allocation_monotonic(
    d0: DiskModel,
    d1: DiskModel,
    d2: DiskModel,
    r0: u64,
    r1: u64,
)
    requires
        r0 == d0.next_page_id,
        d1.next_page_id == d0.next_page_id + 1,
        d2.next_page_id >= d1.next_page_id,
        r1 == d2.next_page_id,
    ensures
        r0 < r1,
{
}

} // verus!
