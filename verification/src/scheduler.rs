//! The flow-control scheduler: a global budget of outstanding chunk
//! requests, shared across all active transfers, and a FIFO backlog of the
//! requests waiting for a slot.
//!
//! `QUEUE` appends to the backlog and dispatches the head if a slot is free;
//! `READY` returns one slot and dispatches likewise. Dispatch order is
//! strictly the backlog's arrival order, never the arriving item itself.
//!
//! Backpressure is the budget alone: there is no chunk-level timeout, so a
//! slot granted to a request stays taken until its `READY` comes back.

use vstd::prelude::*;
use crate::decimal::dec_chars;
use crate::msg::frame_views;

verus! {

/// The global budget of outstanding chunk requests.
pub const MAX_SLOTS: usize = 20;

/// One chunk request waiting for a slot.
pub struct ChunkQueueItem {
    pub path: String,
    pub index: u64,
}

#[verifier::ext_equal]
pub struct ChunkItemModel {
    pub path: Seq<char>,
    pub index: u64,
}

impl View for ChunkQueueItem {
    type V = ChunkItemModel;

    open spec fn view(&self) -> ChunkItemModel {
        ChunkItemModel { path: self.path@, index: self.index }
    }
}

#[verifier::ext_equal]
pub struct SchedulerModel {
    pub slots: nat,
    pub backlog: Seq<ChunkItemModel>,
}

/// One `QUEUE` event: the backlog grows by the arriving request, and the
/// backlog's head leaves with a slot when one is free.
pub open spec fn spec_queue(m: SchedulerModel, item: ChunkItemModel)
    -> (SchedulerModel, Option<ChunkItemModel>) {
    let q = m.backlog.push(item);
    if m.slots > 0 {
        (
            SchedulerModel { slots: (m.slots - 1) as nat, backlog: q.drop_first() },
            Some(q[0]),
        )
    } else {
        (SchedulerModel { slots: m.slots, backlog: q }, None)
    }
}

/// One `READY` event: the resolved request's slot returns, and the backlog's
/// head takes it at once if anything is waiting.
pub open spec fn spec_ready(m: SchedulerModel) -> (SchedulerModel, Option<ChunkItemModel>) {
    if m.backlog.len() > 0 {
        (
            SchedulerModel { slots: m.slots, backlog: m.backlog.drop_first() },
            Some(m.backlog[0]),
        )
    } else {
        (SchedulerModel { slots: m.slots + 1, backlog: m.backlog }, None)
    }
}

/// A burst of `QUEUE` events, with what they dispatched, in order.
pub open spec fn queue_all(m: SchedulerModel, items: Seq<ChunkItemModel>)
    -> (SchedulerModel, Seq<ChunkItemModel>)
    decreases items.len(),
{
    if items.len() == 0 {
        (m, Seq::empty())
    } else {
        let first = spec_queue(m, items[0]);
        let rest = queue_all(first.0, items.drop_first());
        (
            rest.0,
            match first.1 {
                Some(x) => seq![x] + rest.1,
                None => rest.1,
            },
        )
    }
}

/// A run of `READY` events, with what they dispatched, in order.
pub open spec fn ready_all(m: SchedulerModel, k: nat) -> (SchedulerModel, Seq<ChunkItemModel>)
    decreases k,
{
    if k == 0 {
        (m, Seq::empty())
    } else {
        let first = spec_ready(m);
        let rest = ready_all(first.0, (k - 1) as nat);
        (
            rest.0,
            match first.1 {
                Some(x) => seq![x] + rest.1,
                None => rest.1,
            },
        )
    }
}

/// The flow-control state. Slots never exceed [`MAX_SLOTS`] and, being a
/// count, never go negative.
pub struct Scheduler {
    available_slots: usize,
    backlog: Vec<ChunkQueueItem>,
}

impl View for Scheduler {
    type V = SchedulerModel;

    closed spec fn view(&self) -> SchedulerModel {
        SchedulerModel {
            slots: self.available_slots as nat,
            backlog: Seq::new(self.backlog@.len(), |i: int| self.backlog@[i]@),
        }
    }
}

impl Scheduler {
    pub open spec fn wf(&self) -> bool {
        self@.slots <= MAX_SLOTS as nat
    }

    /// A fresh scheduler: the full budget, nothing waiting.
    pub fn new() -> (r: Scheduler)
        ensures
            r.wf(),
            r@.slots == MAX_SLOTS as nat,
            r@.backlog =~= Seq::<ChunkItemModel>::empty(),
    {
        Scheduler { available_slots: MAX_SLOTS, backlog: Vec::new() }
    }

    pub fn available_slots(&self) -> (r: usize)
        ensures
            r as nat == self@.slots,
    {
        self.available_slots
    }

    pub fn backlog_len(&self) -> (r: usize)
        ensures
            r == self@.backlog.len(),
    {
        self.backlog.len()
    }

    /// `QUEUE(path, index)`: append the request; if a slot is free, take it
    /// and dispatch the backlog's head — FIFO, so not necessarily the item
    /// that just arrived.
    pub fn queue(&mut self, path: String, index: u64) -> (r: Option<ChunkQueueItem>)
        requires
            old(self).wf(),
        ensures
            final(self).wf(),
            ({
                let (m, d) = spec_queue(old(self)@, ChunkItemModel { path: path@, index });
                final(self)@ == m && match r {
                    Some(item) => d == Some(item@),
                    None => d is None,
                }
            }),
    {
        let ghost q = old(self)@.backlog.push(ChunkItemModel { path: path@, index });
        self.backlog.push(ChunkQueueItem { path, index });
        proof {
            assert(self@.backlog =~= q);
        }
        if self.available_slots > 0 {
            let item = self.backlog.remove(0);
            self.available_slots = self.available_slots - 1;
            proof {
                assert(self@.backlog =~= q.drop_first());
            }
            Some(item)
        } else {
            None
        }
    }

    /// `READY()`: one outstanding request was resolved; the slot returns,
    /// and the backlog's head takes it at once if anything is waiting.
    /// Every slot handed out by `queue` or `ready` comes back through
    /// exactly one later `ready`, so the budget can never be exceeded.
    pub fn ready(&mut self) -> (r: Option<ChunkQueueItem>)
        requires
            old(self).wf(),
            old(self)@.slots < MAX_SLOTS as nat,
        ensures
            final(self).wf(),
            ({
                let (m, d) = spec_ready(old(self)@);
                final(self)@ == m && match r {
                    Some(item) => d == Some(item@),
                    None => d is None,
                }
            }),
    {
        self.available_slots = self.available_slots + 1;
        if self.backlog.len() > 0 {
            let item = self.backlog.remove(0);
            self.available_slots = self.available_slots - 1;
            proof {
                assert(self@.backlog =~= old(self)@.backlog.drop_first());
            }
            Some(item)
        } else {
            None
        }
    }
}

/// With the budget drained, a burst of `QUEUE` events dispatches nothing: it
/// only extends the backlog, in arrival order.
proof fn lemma_queue_all_starved(m: SchedulerModel, items: Seq<ChunkItemModel>)
    requires
        m.slots == 0,
    ensures
        queue_all(m, items).0.slots == 0,
        queue_all(m, items).0.backlog == m.backlog + items,
        queue_all(m, items).1 == Seq::<ChunkItemModel>::empty(),
    decreases items.len(),
{
    if items.len() == 0 {
        assert(m.backlog + items =~= m.backlog);
    } else {
        let first = spec_queue(m, items[0]);
        lemma_queue_all_starved(first.0, items.drop_first());
        assert(m.backlog.push(items[0]) + items.drop_first() =~= m.backlog + items);
    }
}

/// Slot conservation. From an empty backlog, `n` `QUEUE` events with no
/// `READY` in between dispatch exactly the first `min(n, slots)` requests,
/// in arrival order; the remaining requests wait in the backlog, still in
/// arrival order; and exactly `min(n, slots)` slots were taken.
pub proof fn lemma_slot_conservation(m: SchedulerModel, items: Seq<ChunkItemModel>)
    requires
        m.backlog.len() == 0,
    ensures
        ({
            let granted: nat = if items.len() <= m.slots { items.len() } else { m.slots };
            &&& queue_all(m, items).1 == items.take(granted as int)
            &&& queue_all(m, items).0.backlog == items.skip(granted as int)
            &&& queue_all(m, items).0.slots == m.slots - granted
        }),
    decreases items.len(),
{
    let granted: nat = if items.len() <= m.slots { items.len() } else { m.slots };
    if items.len() == 0 {
        assert(items.take(0) =~= Seq::<ChunkItemModel>::empty());
        assert(items.skip(0) =~= m.backlog);
    } else if m.slots == 0 {
        lemma_queue_all_starved(m, items);
        assert(m.backlog + items =~= items.skip(0));
        assert(items.take(0) =~= Seq::<ChunkItemModel>::empty());
    } else {
        let first = spec_queue(m, items[0]);
        assert(m.backlog.push(items[0])[0] == items[0]);
        assert(m.backlog.push(items[0]).drop_first() =~= Seq::<ChunkItemModel>::empty());
        let rest = items.drop_first();
        lemma_slot_conservation(first.0, rest);
        let g1: nat = if rest.len() <= first.0.slots { rest.len() } else { first.0.slots };
        assert(granted == g1 + 1);
        assert(seq![items[0]] + rest.take(g1 as int) =~= items.take(granted as int));
        assert(rest.skip(g1 as int) =~= items.skip(granted as int));
    }
}

/// FIFO drain. `k` `READY` events with at least `k` requests waiting
/// dispatch exactly the first `k` of them, in backlog order, and hand every
/// returned slot straight out again: the budget is unchanged.
pub proof fn lemma_ready_drains_fifo(m: SchedulerModel, k: nat)
    requires
        k <= m.backlog.len(),
    ensures
        ready_all(m, k).1 == m.backlog.take(k as int),
        ready_all(m, k).0.backlog == m.backlog.skip(k as int),
        ready_all(m, k).0.slots == m.slots,
    decreases k,
{
    if k == 0 {
        assert(m.backlog.take(0) =~= Seq::<ChunkItemModel>::empty());
        assert(m.backlog.skip(0) =~= m.backlog);
    } else {
        let first = spec_ready(m);
        lemma_ready_drains_fifo(first.0, (k - 1) as nat);
        assert(seq![m.backlog[0]] + m.backlog.drop_first().take(k - 1) =~= m.backlog.take(
            k as int));
        assert(m.backlog.drop_first().skip(k - 1) =~= m.backlog.skip(k as int));
    }
}

/// The outbound chunk request for a dispatched item: `[path, "Chk", index]`
/// on the broadcast channel. A sender must ignore requests for paths it did
/// not register.
pub fn chunk_request_frames(item: &ChunkQueueItem) -> (r: Vec<String>)
    ensures
        frame_views(r@) =~= seq![item@.path, "Chk"@, dec_chars(item@.index as nat)],
{
    let mut frames: Vec<String> = Vec::new();
    frames.push(item.path.clone());
    frames.push("Chk".to_owned());
    frames.push(crate::decimal::u64_to_dec(item.index));
    frames
}

/// The terminal success notification for a path: `[path, "Done"]`.
pub fn done_frames(path: &String) -> (r: Vec<String>)
    ensures
        frame_views(r@) =~= seq![path@, "Done"@],
{
    let mut frames: Vec<String> = Vec::new();
    frames.push(path.clone());
    frames.push("Done".to_owned());
    frames
}

/// The terminal failure notification for a path: `[path, "Err", reason]`.
pub fn err_frames(path: &String, reason: &str) -> (r: Vec<String>)
    ensures
        frame_views(r@) =~= seq![path@, "Err"@, reason@],
{
    let mut frames: Vec<String> = Vec::new();
    frames.push(path.clone());
    frames.push("Err".to_owned());
    frames.push(reason.to_owned());
    frames
}

} // verus!
