//! The buffer pool manager: a fixed array of frames, a page table from
//! resident page identity to frame slot, and a clock-sweep cursor.
//!
//! `fetch_page` is the sole way a page becomes resident. It guarantees that
//! at most one frame caches a given identity at any time, that a resident
//! page is never re-read from disk, that a dirty victim is flushed before its
//! frame is reused, and that a frame with an outstanding lease is never
//! chosen as a victim.
//!
//! A fetched page is leased by slot index: the caller reads and mutates the
//! page through the pool's methods on that slot and gives the lease back
//! with `unpin_page`. The pool tracks the outstanding leases of each frame as
//! an exact count, checked by the eviction scan.

use std::collections::HashMap;

use vstd::prelude::*;

use crate::disk::DiskManager;
use crate::disk::DiskModel;
use crate::disk::IoError;
use crate::page::PAGE_SIZE;
use crate::page::PageId;
use crate::page::page_in_bounds;
use crate::page::page_offset;
use crate::page::spec_page_at;
use crate::page::spec_write_page;
use crate::page::zeroed_page;

verus! {

broadcast use vstd::std_specs::hash::group_hash_axioms;

/// Why a fetch could not hand out a lease.
#[derive(Clone, Copy, Debug, PartialEq, Eq, Structural)]
pub enum PoolError {
    /// Every frame is leased (or the requested frame can take no further
    /// lease), so no victim is available. Recoverable: release a lease and
    /// retry.
    NoFreeBuffer,
    /// The disk manager failed while flushing or loading a page.
    Io(IoError),
}

/// One pool slot: the cached page's identity and bytes, whether the bytes
/// have diverged from disk, a usage counter that biases the sweep, and the
/// exact count of outstanding leases.
struct Frame {
    page_id: Option<PageId>,
    data: Vec<u8>,
    is_dirty: bool,
    usage_count: u64,
    lease_count: u64,
}

/// The mathematical state of one frame.
pub ghost struct FrameModel {
    pub page_id: Option<u64>,
    pub data: Seq<u8>,
    pub is_dirty: bool,
    pub usage_count: u64,
    pub lease_count: u64,
}

/// The mathematical state of the pool: the frames, the page table from
/// resident identity to frame slot, the sweep cursor, and the disk.
pub ghost struct PoolModel {
    pub frames: Seq<FrameModel>,
    pub page_table: Map<u64, usize>,
    pub next_victim: int,
    pub disk: DiskModel,
}

spec fn frame_model(f: Frame) -> FrameModel {
    FrameModel {
        page_id: match f.page_id {
            Some(p) => Some(p@),
            None => None,
        },
        data: f.data@,
        is_dirty: f.is_dirty,
        usage_count: f.usage_count,
        lease_count: f.lease_count,
    }
}

/// A frame's internal invariant: its buffer is exactly one page; a leased
/// frame always has a positive usage counter (so the sweep never selects
/// it); a cached identity is low enough for offset arithmetic; a frame that
/// caches nothing is neither leased nor dirty.
pub open spec fn frame_inv(f: FrameModel) -> bool {
    &&& f.data.len() == PAGE_SIZE
    &&& (f.lease_count > 0 ==> f.usage_count > 0)
    &&& (f.page_id matches Some(pid) ==> page_in_bounds(pid))
    &&& (f.page_id is None ==> f.lease_count == 0 && !f.is_dirty)
}

/// The pool's invariant: the cursor points at a frame, every frame satisfies
/// its own invariant, and the page table and the frames agree exactly — an
/// identity is in the table iff some frame caches it, and then exactly that
/// frame. No two frames can therefore cache the same identity.
pub open spec fn pool_inv(p: PoolModel) -> bool {
    &&& 0 < p.frames.len()
    &&& 0 <= p.next_victim < p.frames.len()
    &&& (forall|s: int| 0 <= s < p.frames.len() ==> frame_inv(#[trigger] p.frames[s]))
    &&& (forall|pid: u64| #[trigger] p.page_table.contains_key(pid) ==> {
        &&& (p.page_table[pid] as int) < p.frames.len()
        &&& p.frames[p.page_table[pid] as int].page_id == Some(pid)
    })
    &&& (forall|s: int|
        0 <= s < p.frames.len() && (#[trigger] p.frames[s]).page_id is Some ==> {
            &&& p.page_table.contains_key(p.frames[s].page_id->0)
            &&& p.page_table[p.frames[s].page_id->0] as int == s
        })
}

/// The requested identity is resident: some frame caches it.
pub open spec fn resident(p: PoolModel, pid: u64) -> bool {
    p.page_table.contains_key(pid)
}

/// Every frame has an outstanding lease, so no victim exists.
pub open spec fn all_leased(p: PoolModel) -> bool {
    forall|s: int| 0 <= s < p.frames.len() ==> (#[trigger] p.frames[s]).lease_count > 0
}

/// The slot after `i` on the clock face of `cap` slots, for `i` within one
/// turn of the face.
pub open spec fn wrap_slot(i: int, cap: int) -> int {
    if i < 0 {
        i + cap
    } else if i >= cap {
        i - cap
    } else {
        i
    }
}

/// How many steps ago the sweep cursor, now at `cur`, visited slot `s`: one
/// for the slot visited last, up to `cap` for the slot the cursor stands on.
spec fn behind(cur: int, s: int, cap: int) -> int {
    if s < cur {
        cur - s
    } else {
        cur - s + cap
    }
}

/// What one visit of the eviction scan may do to a frame: leave it alone or,
/// if the frame is unleased, decay its usage counter (a high counter drops
/// to exactly one, a counter of one drops to zero). Identity, content, dirty
/// flag and lease count are never changed by the scan.
pub open spec fn decay_step(pre: FrameModel, post: FrameModel) -> bool {
    &&& post.page_id == pre.page_id
    &&& post.data == pre.data
    &&& post.is_dirty == pre.is_dirty
    &&& post.lease_count == pre.lease_count
    &&& (post.usage_count == pre.usage_count || (pre.lease_count == 0 && post.usage_count
        < pre.usage_count && post.usage_count <= 1))
}

/// The outcome of one eviction scan: the victim it selected, if any, the
/// frames as its decays left them, and the slot the cursor stops on.
pub ghost struct SweepOutcome {
    pub victim: Option<int>,
    pub frames: Seq<FrameModel>,
    pub cursor: int,
}

/// The frames after the scan decays the frame under the cursor: a usage
/// counter above one drops to exactly one, a counter of one drops to zero.
pub open spec fn decay_frames(frames: Seq<FrameModel>, cur: int) -> Seq<FrameModel> {
    frames.update(
        cur,
        (FrameModel {
            usage_count: if frames[cur].usage_count > 1 {
                1u64
            } else {
                0u64
            },
            ..frames[cur]
        }),
    )
}

/// The clock-sweep scan as a function of the pool state, `cur` the cursor
/// and `consecutive` how many leased frames it has just seen in a row. The
/// frame under the cursor is selected if its usage counter is zero, decayed
/// and passed if it is unleased, counted and passed if leased; once every
/// frame was seen leased in a row the scan gives up where it stands.
pub open spec fn sweep_spec(frames: Seq<FrameModel>, cur: int, consecutive: int) -> SweepOutcome
    decreases sweep_potential(frames, 0), frames.len() - consecutive,
    via sweep_spec_decreases
{
    let cap = frames.len() as int;
    if !(0 <= cur < cap) || !(0 <= consecutive < cap) {
        SweepOutcome { victim: None, frames, cursor: cur }
    } else if frames[cur].usage_count == 0 {
        SweepOutcome { victim: Some(cur), frames, cursor: wrap_slot(cur + 1, cap) }
    } else if frames[cur].lease_count == 0 {
        sweep_spec(decay_frames(frames, cur), wrap_slot(cur + 1, cap), 0)
    } else {
        sweep_spec(frames, wrap_slot(cur + 1, cap), consecutive + 1)
    }
}

#[via_fn]
proof fn sweep_spec_decreases(frames: Seq<FrameModel>, cur: int, consecutive: int) {
    let cap = frames.len() as int;
    if 0 <= cur < cap && 0 <= consecutive < cap {
        if frames[cur].usage_count != 0 && frames[cur].lease_count == 0 {
            lemma_potential_update(frames, decay_frames(frames, cur), cur, 0);
            assert(frame_potential(decay_frames(frames, cur)[cur]) < frame_potential(frames[cur]));
        }
    }
}

/// The usage counter after a cache hit: incremented, capped so it cannot
/// overflow (the counter only biases the sweep, it does not count exactly).
pub open spec fn bump(u: u64) -> u64 {
    if u < u64::MAX {
        (u + 1) as u64
    } else {
        u
    }
}

/// The frame after a cache hit on it: one more lease, a bumped usage
/// counter, everything else untouched.
pub open spec fn leased_again(f: FrameModel) -> FrameModel {
    FrameModel {
        usage_count: bump(f.usage_count),
        lease_count: (f.lease_count + 1) as u64,
        ..f
    }
}

/// The frame after a lease is given back: one lease fewer, everything else
/// untouched.
pub open spec fn lease_returned(f: FrameModel) -> FrameModel {
    FrameModel { lease_count: (f.lease_count - 1) as u64, ..f }
}

/// The heap image after the victim in `slot` is evicted: if the victim frame
/// is dirty, exactly the bytes it holds are written to its page before the
/// frame is reused; otherwise the image is untouched.
pub open spec fn heap_after_flush(pre: PoolModel, slot: int) -> Seq<u8> {
    match pre.frames[slot].page_id {
        Some(old_pid) => if pre.frames[slot].is_dirty {
            spec_write_page(pre.disk.heap, old_pid, pre.frames[slot].data)
        } else {
            pre.disk.heap
        },
        None => pre.disk.heap,
    }
}

/// A successful fetch: afterwards the page table maps the identity to the
/// returned slot and that frame caches it with at least one lease out; a
/// resident page was served as a hit, anything else as a load.
pub open spec fn fetch_ok(pre: PoolModel, post: PoolModel, pid: u64, slot: int) -> bool {
    &&& 0 <= slot < post.frames.len()
    &&& post.page_table.contains_key(pid) && post.page_table[pid] as int == slot
    &&& post.frames[slot].page_id == Some(pid)
    &&& post.frames[slot].lease_count > 0
    &&& if pre.page_table.contains_key(pid) {
        fetch_hit(pre, post, pid, slot)
    } else {
        fetch_load(pre, post, pid, slot)
    }
}

/// A cache hit: the page was resident in `slot`. The disk is untouched — in
/// particular its read counter, so no disk read is invoked — the frame keeps
/// its identity, content and dirty flag, its usage counter is bumped, one
/// more lease is out, and no other state changes.
pub open spec fn fetch_hit(pre: PoolModel, post: PoolModel, pid: u64, slot: int) -> bool {
    &&& slot == pre.page_table[pid] as int
    &&& post.disk == pre.disk
    &&& post.page_table == pre.page_table
    &&& post.next_victim == pre.next_victim
    &&& post.frames == pre.frames.update(slot, leased_again(pre.frames[slot]))
}

/// A cache miss served by eviction and load: `slot` is the victim the sweep
/// chose. The victim had no outstanding lease; if it was dirty, exactly its
/// bytes were flushed to its page before reuse; the frame now caches the
/// requested page's bytes as read from the flushed image, clean, with usage
/// counter one and one lease out; the old identity leaves the page table in
/// the same step the new one enters; other frames are at most decayed by the
/// sweep; one disk read was invoked.
pub open spec fn fetch_load(pre: PoolModel, post: PoolModel, pid: u64, slot: int) -> bool {
    &&& 0 <= slot < pre.frames.len()
    &&& pre.frames[slot].lease_count == 0
    &&& post.disk.heap == heap_after_flush(pre, slot)
    &&& post.disk.heap.len() >= page_offset(pid) + PAGE_SIZE as int
    &&& post.disk.next_page_id == pre.disk.next_page_id
    &&& post.disk.reads == pre.disk.reads + 1
    &&& post.frames[slot].data == spec_page_at(post.disk.heap, pid)
    &&& post.frames[slot].is_dirty == false
    &&& post.frames[slot].usage_count == 1
    &&& post.frames[slot].lease_count == 1
    &&& post.page_table == (match pre.frames[slot].page_id {
        Some(old_pid) => pre.page_table.remove(old_pid).insert(pid, slot as usize),
        None => pre.page_table.insert(pid, slot as usize),
    })
    &&& (forall|s: int|
        0 <= s < pre.frames.len() && s != slot ==> decay_step(
            pre.frames[s],
            #[trigger] post.frames[s],
        ))
    &&& sweep_spec(pre.frames, pre.next_victim, 0).victim == Some(slot)
    &&& (forall|s: int|
        0 <= s < pre.frames.len() && s != slot ==> #[trigger] post.frames[s] == sweep_spec(
            pre.frames,
            pre.next_victim,
            0,
        ).frames[s])
    &&& post.next_victim == wrap_slot(slot + 1, pre.frames.len() as int)
}

/// A cache miss whose disk read failed with a short read: a victim with no
/// outstanding lease was chosen and, if dirty, flushed, but no frame was
/// repointed and the page table is untouched — the image simply ends before
/// the requested page's byte range.
pub open spec fn fetch_failed_load(pre: PoolModel, post: PoolModel, pid: u64, slot: int) -> bool {
    &&& 0 <= slot < pre.frames.len()
    &&& pre.frames[slot].lease_count == 0
    &&& post.disk.heap == heap_after_flush(pre, slot)
    &&& post.disk.heap.len() < page_offset(pid) + PAGE_SIZE as int
    &&& sweep_spec(pre.frames, pre.next_victim, 0).victim == Some(slot)
    &&& post.frames == sweep_spec(pre.frames, pre.next_victim, 0).frames
    &&& post.next_victim == wrap_slot(slot + 1, pre.frames.len() as int)
}

/// Owns the frames, the page table, the sweep cursor and the disk manager;
/// `fetch_page` is its sole entry point for making a page resident.
pub struct BufferPoolManager {
    disk: DiskManager,
    frames: Vec<Frame>,
    page_table: HashMap<u64, usize>,
    next_victim: usize,
}

impl View for BufferPoolManager {
    type V = PoolModel;

    closed spec fn view(&self) -> PoolModel {
        PoolModel {
            frames: Seq::new(self.frames@.len(), |i: int| frame_model(self.frames@[i])),
            page_table: self.page_table@,
            next_victim: self.next_victim as int,
            disk: self.disk@,
        }
    }
}

/// A fresh frame caching nothing: zero content, clean, no usage, no lease.
pub open spec fn empty_frame_model() -> FrameModel {
    FrameModel {
        page_id: None,
        data: Seq::new(PAGE_SIZE as nat, |i: int| 0u8),
        is_dirty: false,
        usage_count: 0,
        lease_count: 0,
    }
}

pub open spec fn frame_potential(f: FrameModel) -> nat {
    if f.lease_count > 0 {
        0
    } else if f.usage_count > 1 {
        2
    } else {
        f.usage_count as nat
    }
}

pub open spec fn sweep_potential(frames: Seq<FrameModel>, i: int) -> nat
    decreases frames.len() - i,
{
    if i < 0 || i >= frames.len() {
        0
    } else {
        frame_potential(frames[i]) + sweep_potential(frames, i + 1)
    }
}

proof fn lemma_potential_update(a: Seq<FrameModel>, b: Seq<FrameModel>, s: int, i: int)
    requires
        a.len() == b.len(),
        0 <= s < a.len(),
        forall|j: int| 0 <= j < a.len() && j != s ==> a[j] == b[j],
        0 <= i <= a.len(),
    ensures
        sweep_potential(b, i) - sweep_potential(a, i) == if i <= s {
            frame_potential(b[s]) - frame_potential(a[s])
        } else {
            0int
        },
    decreases a.len() - i,
{
    if i < a.len() {
        lemma_potential_update(a, b, s, i + 1);
    }
}

impl BufferPoolManager {
    /// The pool is well formed: see `pool_inv`.
    pub open spec fn wf(&self) -> bool {
        pool_inv(self@)
    }

    /// Builds a pool of `pool_size` empty frames over `disk`, with an empty
    /// page table and the sweep cursor at slot zero.
    pub fn new(disk: DiskManager, pool_size: usize) -> (r: Self)
        requires
            pool_size > 0,
        ensures
            r.wf(),
            r@.disk == disk@,
            r@.frames.len() == pool_size as int,
            r@.page_table == Map::<u64, usize>::empty(),
            r@.next_victim == 0,
            forall|s: int|
                0 <= s < pool_size as int ==> (#[trigger] r@.frames[s]) == empty_frame_model(),
    {
        let mut frames: Vec<Frame> = Vec::new();
        while frames.len() < pool_size
            invariant
                frames@.len() <= pool_size,
                forall|s: int|
                    0 <= s < frames@.len() ==> (#[trigger] frame_model(frames@[s]))
                        == empty_frame_model(),
            decreases pool_size - frames@.len(),
        {
            let data = zeroed_page();
            let frame = Frame { page_id: None, data, is_dirty: false, usage_count: 0, lease_count: 0 };
            proof {
                assert(frame_model(frame).data =~= empty_frame_model().data);
            }
            frames.push(frame);
        }
        let page_table: HashMap<u64, usize> = HashMap::new();
        let r = BufferPoolManager { disk, frames, page_table, next_victim: 0 };
        r
    }

    /// How many frames the pool has.
    pub fn pool_size(&self) -> (r: usize)
        ensures
            r as int == self@.frames.len(),
    {
        self.frames.len()
    }

    /// Whether `page_id` is resident in some frame.
    pub fn contains_page(&self, page_id: PageId) -> (r: bool)
        ensures
            r == resident(self@, page_id@),
    {
        self.page_table.contains_key(&page_id.0)
    }

    /// The bytes of the page cached in `slot`.
    pub fn page_data(&self, slot: usize) -> (r: &Vec<u8>)
        requires
            (slot as int) < self@.frames.len(),
        ensures
            r@ == self@.frames[slot as int].data,
    {
        &self.frames[slot].data
    }

    /// The identity cached in `slot`, if any.
    pub fn page_id_of(&self, slot: usize) -> (r: Option<PageId>)
        requires
            (slot as int) < self@.frames.len(),
        ensures
            match r {
                Some(p) => self@.frames[slot as int].page_id == Some(p@),
                None => self@.frames[slot as int].page_id is None,
            },
    {
        self.frames[slot].page_id
    }

    /// Whether the page cached in `slot` has diverged from disk.
    pub fn is_dirty(&self, slot: usize) -> (r: bool)
        requires
            (slot as int) < self@.frames.len(),
        ensures
            r == self@.frames[slot as int].is_dirty,
    {
        self.frames[slot].is_dirty
    }

    /// How many leases are outstanding on `slot`.
    pub fn lease_count(&self, slot: usize) -> (r: u64)
        requires
            (slot as int) < self@.frames.len(),
        ensures
            r == self@.frames[slot as int].lease_count,
    {
        self.frames[slot].lease_count
    }

    /// Gives back one lease on `slot`. The frame itself is untouched, so its
    /// content stays valid for the remaining lessees.
    pub fn unpin_page(&mut self, slot: usize)
        requires
            old(self).wf(),
            (slot as int) < old(self)@.frames.len(),
            old(self)@.frames[slot as int].lease_count > 0,
        ensures
            final(self).wf(),
            final(self)@.frames == old(self)@.frames.update(
                slot as int,
                lease_returned(old(self)@.frames[slot as int]),
            ),
            final(self)@.page_table == old(self)@.page_table,
            final(self)@.next_victim == old(self)@.next_victim,
            final(self)@.disk == old(self)@.disk,
    {
        let lc = self.frames[slot].lease_count;
        self.frames[slot].lease_count = lc - 1;
        proof {
            assert(self@.frames =~= old(self)@.frames.update(
                slot as int,
                lease_returned(old(self)@.frames[slot as int]),
            ));
        }
    }

    /// Overwrites the page cached in `slot` with `data` and marks the frame
    /// dirty. Mutation goes through the pool, so the divergence from disk is
    /// always observed; it demands a lease, the caller's claim on the frame.
    pub fn write_page(&mut self, slot: usize, data: &Vec<u8>)
        requires
            old(self).wf(),
            (slot as int) < old(self)@.frames.len(),
            old(self)@.frames[slot as int].lease_count > 0,
            data@.len() == PAGE_SIZE,
        ensures
            final(self).wf(),
            final(self)@.frames == old(self)@.frames.update(
                slot as int,
                (FrameModel {
                    data: data@,
                    is_dirty: true,
                    ..old(self)@.frames[slot as int]
                }),
            ),
            final(self)@.page_table == old(self)@.page_table,
            final(self)@.next_victim == old(self)@.next_victim,
            final(self)@.disk == old(self)@.disk,
    {
        let mut copy: Vec<u8> = Vec::new();
        let mut i: usize = 0;
        while i < PAGE_SIZE
            invariant
                i <= PAGE_SIZE,
                data@.len() == PAGE_SIZE,
                copy@.len() == i,
                forall|j: int| 0 <= j < i ==> copy@[j] == data@[j],
            decreases PAGE_SIZE - i,
        {
            let b = data[i];
            copy.push(b);
            i = i + 1;
        }
        proof {
            assert(copy@ =~= data@);
        }
        self.frames[slot].data = copy;
        self.frames[slot].is_dirty = true;
        proof {
            assert(self@.frames =~= old(self)@.frames.update(
                slot as int,
                (FrameModel {
                    data: data@,
                    is_dirty: true,
                    ..old(self)@.frames[slot as int]
                }),
            ));
        }
    }

    /// Marks the page cached in `slot` dirty without changing its bytes, for
    /// a lessee that mutated the content in place.
    pub fn mark_dirty(&mut self, slot: usize)
        requires
            old(self).wf(),
            (slot as int) < old(self)@.frames.len(),
            old(self)@.frames[slot as int].lease_count > 0,
        ensures
            final(self).wf(),
            final(self)@.frames == old(self)@.frames.update(
                slot as int,
                (FrameModel { is_dirty: true, ..old(self)@.frames[slot as int] }),
            ),
            final(self)@.page_table == old(self)@.page_table,
            final(self)@.next_victim == old(self)@.next_victim,
            final(self)@.disk == old(self)@.disk,
    {
        self.frames[slot].is_dirty = true;
        proof {
            assert(self@.frames =~= old(self)@.frames.update(
                slot as int,
                (FrameModel { is_dirty: true, ..old(self)@.frames[slot as int] }),
            ));
        }
    }

    /// Tears the pool down and gives the disk manager back, so the owner of
    /// the storage medium can persist the heap image. Dirty frames are not
    /// flushed: a flush-all on shutdown is no part of the pool's contract.
    pub fn into_disk(self) -> (r: DiskManager)
        ensures
            r@ == self@.disk,
    {
        self.disk
    }

    /// The clock-sweep victim selection. Advances the persistent cursor
    /// around the frame array; a frame whose usage counter is zero is
    /// selected at once (the cursor is left on the next slot); an unleased
    /// frame with a positive counter has it decayed and survives the visit;
    /// once as many consecutive visits as the pool has frames found only
    /// leased frames, every frame is leased and the scan gives up, leaving
    /// the pool exactly as it was.
    fn find_victim(&mut self) -> (r: Option<usize>)
        requires
            old(self).wf(),
        ensures
            final(self).wf(),
            final(self)@.disk == old(self)@.disk,
            final(self)@.page_table == old(self)@.page_table,
            final(self)@.frames.len() == old(self)@.frames.len(),
            forall|s: int|
                0 <= s < old(self)@.frames.len() ==> decay_step(
                    old(self)@.frames[s],
                    #[trigger] final(self)@.frames[s],
                ),
            final(self)@.frames == sweep_spec(
                old(self)@.frames,
                old(self)@.next_victim,
                0,
            ).frames,
            final(self)@.next_victim == sweep_spec(
                old(self)@.frames,
                old(self)@.next_victim,
                0,
            ).cursor,
            match r {
                Some(v) => {
                    &&& (v as int) < old(self)@.frames.len()
                    &&& sweep_spec(old(self)@.frames, old(self)@.next_victim, 0).victim == Some(
                        v as int,
                    )
                    &&& old(self)@.frames[v as int].lease_count == 0
                    &&& final(self)@.frames[v as int].usage_count == 0
                    &&& final(self)@.next_victim == wrap_slot(
                        v as int + 1,
                        old(self)@.frames.len() as int,
                    )
                },
                None => {
                    &&& sweep_spec(old(self)@.frames, old(self)@.next_victim, 0).victim is None
                    &&& all_leased(old(self)@)
                    &&& final(self)@ == old(self)@
                },
            },
    {
        let cap = self.frames.len();
        let mut consecutive: usize = 0;
        loop
            invariant
                self.wf(),
                cap == self.frames.len(),
                cap as int == old(self)@.frames.len(),
                0 <= old(self)@.next_victim < cap as int,
                self@.disk == old(self)@.disk,
                self@.page_table == old(self)@.page_table,
                consecutive < cap,
                forall|s: int|
                    0 <= s < cap as int ==> decay_step(
                        old(self)@.frames[s],
                        #[trigger] self@.frames[s],
                    ),
                forall|s: int|
                    0 <= s < cap as int && #[trigger] behind(self@.next_victim, s, cap as int)
                        <= consecutive as int ==> old(self)@.frames[s].lease_count > 0,
                all_leased(old(self)@) ==> (self@.frames == old(self)@.frames
                    && self@.next_victim == wrap_slot(
                    old(self)@.next_victim + consecutive as int,
                    cap as int,
                )),
                sweep_spec(old(self)@.frames, old(self)@.next_victim, 0) == sweep_spec(
                    self@.frames,
                    self@.next_victim,
                    consecutive as int,
                ),
            decreases sweep_potential(self@.frames, 0), cap - consecutive,
        {
            let ghost fr0 = self@.frames;
            let ghost cur0 = self@.next_victim;
            let ghost consec0 = consecutive as int;
            let slot = self.next_victim;
            let next = if slot + 1 == cap {
                0
            } else {
                slot + 1
            };
            let usage = self.frames[slot].usage_count;
            if usage == 0 {
                self.next_victim = next;
                proof {
                    assert(decay_step(old(self)@.frames[slot as int], fr0[slot as int]));
                    assert(frame_inv(fr0[slot as int]));
                    assert(next as int == wrap_slot(slot as int + 1, cap as int));
                    assert(sweep_spec(fr0, cur0, consec0) == (SweepOutcome {
                        victim: Some(slot as int),
                        frames: fr0,
                        cursor: next as int,
                    }));
                }
                return Some(slot);
            }
            let lease = self.frames[slot].lease_count;
            if lease == 0 {
                let newu: u64 = if usage > 1 {
                    1
                } else {
                    0
                };
                self.frames[slot].usage_count = newu;
                consecutive = 0;
                self.next_victim = next;
                proof {
                    assert(self@.frames =~= fr0.update(slot as int, self@.frames[slot as int]));
                    lemma_potential_update(fr0, self@.frames, slot as int, 0);
                    assert(decay_step(old(self)@.frames[slot as int], fr0[slot as int]));
                    assert(frame_potential(self@.frames[slot as int]) < frame_potential(
                        fr0[slot as int],
                    ));
                    if all_leased(old(self)@) {
                        assert(old(self)@.frames[slot as int].lease_count > 0);
                        assert(false);
                    }
                    assert(self@.frames =~= decay_frames(fr0, slot as int));
                    assert(next as int == wrap_slot(slot as int + 1, cap as int));
                    assert(sweep_spec(fr0, cur0, consec0) == sweep_spec(
                        self@.frames,
                        next as int,
                        0,
                    ));
                }
            } else {
                consecutive = consecutive + 1;
                self.next_victim = next;
                proof {
                    assert(decay_step(old(self)@.frames[slot as int], fr0[slot as int]));
                    assert(old(self)@.frames[slot as int].lease_count > 0);
                    assert(next as int == wrap_slot(slot as int + 1, cap as int));
                    assert(sweep_spec(fr0, cur0, consec0) == sweep_spec(
                        fr0,
                        next as int,
                        consec0 + 1,
                    ));
                    assert forall|s: int|
                        0 <= s < cap as int && #[trigger] behind(self@.next_victim, s, cap as int)
                            <= consecutive as int implies old(self)@.frames[s].lease_count
                        > 0 by {
                        if s == slot as int {
                        } else {
                            assert(behind(cur0, s, cap as int) == behind(
                                self@.next_victim,
                                s,
                                cap as int,
                            ) - 1);
                        }
                    }
                }
                if consecutive == cap {
                    proof {
                        assert forall|s: int| 0 <= s < cap as int implies (#[trigger] old(
                            self,
                        )@.frames[s]).lease_count > 0 by {
                            assert(behind(self@.next_victim, s, cap as int) <= cap as int);
                        }
                        assert(all_leased(old(self)@));
                        assert(self@.frames == old(self)@.frames);
                        assert(cur0 == wrap_slot(
                            old(self)@.next_victim + (cap - 1) as int,
                            cap as int,
                        ));
                        assert(self@.next_victim == old(self)@.next_victim);
                        assert(self@ == old(self)@);
                        assert(sweep_spec(fr0, next as int, cap as int) == (SweepOutcome {
                            victim: None,
                            frames: fr0,
                            cursor: next as int,
                        }));
                    }
                    return None;
                }
            }
        }
    }

    /// Makes `page_id` resident and hands out a lease on its frame, returned
    /// as the frame's slot index.
    ///
    /// A resident page is served as a hit: no disk read is invoked and the
    /// frame's content is returned as it stands. Anything else evicts a
    /// victim chosen by the clock sweep — never a frame with an outstanding
    /// lease — flushing it first if dirty, and loads the page from disk.
    ///
    /// Errors, exactly: `NoFreeBuffer` when the page is not resident and
    /// every frame is leased (the pool is then unchanged), or on a hit whose
    /// frame can take no further lease; `Io` when the disk read failed with
    /// a short read (the flush of the victim, if any, has then still
    /// happened, but no frame or page-table state is repointed).
    pub fn fetch_page(&mut self, page_id: PageId) -> (r: Result<usize, PoolError>)
        requires
            old(self).wf(),
            page_in_bounds(page_id@),
        ensures
            final(self).wf(),
            final(self)@.frames.len() == old(self)@.frames.len(),
            final(self)@.disk.next_page_id == old(self)@.disk.next_page_id,
            match r {
                Ok(slot) => fetch_ok(old(self)@, final(self)@, page_id@, slot as int),
                Err(PoolError::NoFreeBuffer) => {
                    &&& final(self)@ == old(self)@
                    &&& if resident(old(self)@, page_id@) {
                        old(self)@.frames[old(self)@.page_table[page_id@] as int].lease_count
                            == u64::MAX
                    } else {
                        all_leased(old(self)@)
                    }
                },
                Err(PoolError::Io(e)) => {
                    &&& e == IoError::UnexpectedEof
                    &&& !resident(old(self)@, page_id@)
                    &&& final(self)@.page_table == old(self)@.page_table
                    &&& final(self)@.disk.reads == old(self)@.disk.reads + 1
                    &&& (forall|s: int|
                        0 <= s < old(self)@.frames.len() ==> decay_step(
                            old(self)@.frames[s],
                            #[trigger] final(self)@.frames[s],
                        ))
                    &&& (exists|v: int|
                        fetch_failed_load(old(self)@, final(self)@, page_id@, v))
                },
            },
            resident(old(self)@, page_id@) && old(self)@.frames[old(
                self,
            )@.page_table[page_id@] as int].lease_count < u64::MAX ==> r is Ok,
            !resident(old(self)@, page_id@) && !all_leased(old(self)@) && old(self)@.disk.heap.len()
                >= page_offset(page_id@) + PAGE_SIZE as int ==> r is Ok,
    {
        let pid_key = page_id.0;
        let slot_opt: Option<usize> = match self.page_table.get(&pid_key) {
            Some(s) => Some(*s),
            None => None,
        };
        match slot_opt {
            Some(slot) => {
                // Cache hit: bump usage, hand out one more lease.
                if self.frames[slot].lease_count == u64::MAX {
                    return Err(PoolError::NoFreeBuffer);
                }
                let usage = self.frames[slot].usage_count;
                if usage < u64::MAX {
                    self.frames[slot].usage_count = usage + 1;
                }
                let lc = self.frames[slot].lease_count;
                self.frames[slot].lease_count = lc + 1;
                proof {
                    assert(self@.frames =~= old(self)@.frames.update(
                        slot as int,
                        leased_again(old(self)@.frames[slot as int]),
                    ));
                }
                Ok(slot)
            },
            None => {
                // Cache miss: pick a victim, flush it if dirty, load the page.
                let victim = match self.find_victim() {
                    Some(v) => v,
                    None => {
                        return Err(PoolError::NoFreeBuffer);
                    },
                };
                let ghost mid = self@;
                if self.frames[victim].is_dirty {
                    match self.frames[victim].page_id {
                        Some(old_pid) => {
                            self.disk.write_page_data(old_pid, &self.frames[victim].data);
                        },
                        None => {
                            proof {
                                assert(frame_inv(mid.frames[victim as int]));
                                assert(false);
                            }
                        },
                    }
                }
                let ghost flushed = self@;
                proof {
                    assert(decay_step(old(self)@.frames[victim as int], mid.frames[victim as int]));
                    assert(flushed.disk.heap == heap_after_flush(mid, victim as int));
                    assert(heap_after_flush(mid, victim as int) == heap_after_flush(
                        old(self)@,
                        victim as int,
                    ));
                }
                let mut buf = zeroed_page();
                match self.disk.read_page_data(page_id, &mut buf) {
                    Err(e) => {
                        proof {
                            assert(fetch_failed_load(old(self)@, self@, page_id@, victim as int));
                        }
                        return Err(PoolError::Io(e));
                    },
                    Ok(()) => {},
                }
                // Commit: repoint the frame and swap the page-table entries
                // in one step.
                match self.frames[victim].page_id {
                    Some(old_pid) => {
                        self.page_table.remove(&old_pid.0);
                    },
                    None => {},
                }
                self.page_table.insert(pid_key, victim);
                self.frames[victim].page_id = Some(page_id);
                self.frames[victim].data = buf;
                self.frames[victim].is_dirty = false;
                self.frames[victim].usage_count = 1;
                self.frames[victim].lease_count = 1;
                proof {
                    assert(self@.frames[victim as int].data =~= spec_page_at(
                        self@.disk.heap,
                        page_id@,
                    ));
                    assert forall|s: int|
                        0 <= s < old(self)@.frames.len() && s != victim as int implies decay_step(
                        old(self)@.frames[s],
                        #[trigger] self@.frames[s],
                    ) by {
                        assert(self@.frames[s] == mid.frames[s]);
                    }
                }
                Ok(victim)
            },
        }
    }
}

/// Law: uniqueness. In a well-formed pool no two frames cache the same page
/// identity (frames caching nothing excluded): the page table maps each
/// resident identity to exactly one slot, and each caching frame back to its
/// table entry.
pub proof fn lemma_resident_identities_unique(p: PoolModel, s1: int, s2: int)
    requires
        pool_inv(p),
        0 <= s1 < p.frames.len(),
        0 <= s2 < p.frames.len(),
        s1 != s2,
        p.frames[s1].page_id is Some,
    ensures
        p.frames[s1].page_id != p.frames[s2].page_id,
{
    if p.frames[s1].page_id == p.frames[s2].page_id {
        let pid = p.frames[s1].page_id->0;
        assert(p.page_table[pid] as int == s1);
        assert(p.page_table[pid] as int == s2);
    }
}

/// Law: hit correctness. A fetch of a resident identity leaves the disk
/// untouched — its read counter included, so no disk read is invoked — and
/// serves exactly the bytes its frame holds, the last ones written for that
/// identity, dirty or flushed.
pub proof fn lemma_hit_returns_cached_content(pre: PoolModel, post: PoolModel, pid: u64, slot: int)
    requires
        pool_inv(pre),
        fetch_ok(pre, post, pid, slot),
        pre.page_table.contains_key(pid),
    ensures
        slot == pre.page_table[pid] as int,
        post.frames[slot].data == pre.frames[slot].data,
        post.frames[slot].is_dirty == pre.frames[slot].is_dirty,
        post.disk == pre.disk,
{
    assert(post.frames[slot] == leased_again(pre.frames[slot]));
}

/// Law: no eviction while leased. When a fetch of a non-resident identity
/// succeeds, the frame it lands in had no outstanding lease, and every other
/// frame keeps its identity, content, dirty flag and lease count — a leased
/// frame is never disturbed.
pub proof fn lemma_no_evict_while_leased(pre: PoolModel, post: PoolModel, pid: u64, slot: int)
    requires
        fetch_ok(pre, post, pid, slot),
        !pre.page_table.contains_key(pid),
    ensures
        pre.frames[slot].lease_count == 0,
        forall|s: int|
            0 <= s < pre.frames.len() && s != slot ==> {
                &&& (#[trigger] post.frames[s]).page_id == pre.frames[s].page_id
                &&& post.frames[s].data == pre.frames[s].data
                &&& post.frames[s].is_dirty == pre.frames[s].is_dirty
                &&& post.frames[s].lease_count == pre.frames[s].lease_count
            },
{
}

/// Law: exhaustion. While every frame has an outstanding lease, no frame can
/// serve as a victim: for a non-resident identity neither a load nor even a
/// failed load is possible, so a fetch can only return the pool-exhausted
/// error — never crash and never evict silently.
pub proof fn lemma_exhaustion_forces_error(pre: PoolModel, post: PoolModel, pid: u64, slot: int)
    requires
        all_leased(pre),
    ensures
        !fetch_load(pre, post, pid, slot),
        !fetch_failed_load(pre, post, pid, slot),
{
}

/// Law: flush before reuse. When a fetch of a non-resident identity evicts a
/// dirty victim, exactly the bytes the victim held at eviction time stand in
/// its page of the heap image afterwards — reading that page back yields
/// them.
pub proof fn lemma_flush_before_reuse(pre: PoolModel, post: PoolModel, pid: u64, slot: int)
    requires
        pool_inv(pre),
        fetch_ok(pre, post, pid, slot),
        !pre.page_table.contains_key(pid),
        pre.frames[slot].is_dirty,
    ensures
        pre.frames[slot].page_id matches Some(old_pid) && spec_page_at(post.disk.heap, old_pid)
            == pre.frames[slot].data,
{
    assert(frame_inv(pre.frames[slot]));
    let old_pid = pre.frames[slot].page_id->0;
    crate::disk::lemma_write_read_round_trip(pre.disk.heap, old_pid, pre.frames[slot].data);
}

} // verus!
