//! The milestone solidification state machine: an ordered pending queue of
//! known milestone indices, a bootstrapping kickstart, and the trigger that
//! requests every missing ancestor of a milestone's cone.

use vstd::prelude::*;

use crate::event::LatestSolidMilestoneChanged;
use crate::packet::{broadcast_heartbeat, Heartbeat};
use crate::requester::{request_message, request_milestone, MessageRequest, MilestoneRequest, RequestedMessages, RequestedMilestones};
use crate::tangle::Tangle;
use crate::traversal::{keys_of, reaches, visit_parents_depth_first, VisitFilter};
use crate::types::{MessageId, MilestoneIndex, PeerId};

verus! {

broadcast use {vstd::std_specs::hash::group_hash_axioms, vstd::seq_lib::group_seq_properties};

/// Stores a milestone index into the pending queue, keeping the queue
/// strictly descending so that the smallest index is popped first; storing
/// an index already present changes nothing.
pub fn save_index(target_index: MilestoneIndex, queue: &mut Vec<MilestoneIndex>)
    requires
        forall|i: int, j: int| 0 <= i < j < old(queue)@.len() ==> old(queue)@[i].0 > old(queue)@[j].0,
    ensures
        forall|i: int, j: int| 0 <= i < j < final(queue)@.len() ==> final(queue)@[i].0 > final(queue)@[j].0,
        forall|x: MilestoneIndex| #[trigger]
            final(queue)@.contains(x) <==> old(queue)@.contains(x) || x == target_index,
        old(queue)@.contains(target_index) ==> final(queue)@ == old(queue)@,
{
    let ghost q0 = queue@;
    let mut pos: usize = 0;
    while pos < queue.len() && queue[pos].0 > target_index.0
        invariant
            queue@ == q0,
            0 <= pos <= q0.len(),
            forall|i: int| 0 <= i < pos ==> (#[trigger] q0[i]).0 > target_index.0,
        decreases q0.len() - pos,
    {
        pos += 1;
    }
    if pos < queue.len() && queue[pos].0 == target_index.0 {
        proof {
            assert(q0[pos as int] == target_index);
            assert(q0.contains(target_index));
        }
        return;
    }
    proof {
        assert(!q0.contains(target_index)) by {
            if q0.contains(target_index) {
                let i = choose|i: int| 0 <= i < q0.len() && q0[i] == target_index;
                assert(q0[i].0 == target_index.0);
                if i < pos {
                } else {
                    assert(pos < q0.len() ==> q0[pos as int].0 < target_index.0);
                    assert(forall|a: int, b: int| 0 <= a < b < q0.len() ==> q0[a].0 > q0[b].0);
                    if pos < q0.len() && i > pos {
                        assert(q0[pos as int].0 > q0[i].0);
                    }
                }
            }
        }
    }
    queue.insert(pos, target_index);
    proof {
        let q1 = queue@;
        assert(q1 == q0.insert(pos as int, target_index));
        assert forall|i: int, j: int| 0 <= i < j < q1.len() implies q1[i].0 > q1[j].0 by {
            assert(q1[i] == if i < pos {
                q0[i]
            } else if i == pos {
                target_index
            } else {
                q0[i - 1]
            });
            assert(q1[j] == if j < pos {
                q0[j]
            } else if j == pos {
                target_index
            } else {
                q0[j - 1]
            });
            if pos < q0.len() {
                assert(q0[pos as int].0 < target_index.0);
            }
        }
        assert forall|x: MilestoneIndex| #[trigger] q1.contains(x) implies q0.contains(x) || x
            == target_index by {
            let i = choose|i: int| 0 <= i < q1.len() && q1[i] == x;
            if i < pos {
                assert(q0[i] == x);
            } else if i > pos {
                assert(q0[i - 1] == x);
            }
        }
        assert forall|x: MilestoneIndex| q0.contains(x) || x == target_index implies #[trigger] q1.contains(
            x,
        ) by {
            if x == target_index {
                assert(q1[pos as int] == x);
            } else {
                let i = choose|i: int| 0 <= i < q0.len() && q0[i] == x;
                if i < pos {
                    assert(q1[i] == x);
                } else {
                    assert(q1[i + 1] == x);
                }
            }
        }
    }
}

/// The milestone indices a kickstart asks for, scanning the window from
/// `next` up to `upto`: those neither already pending nor already known.
pub open spec fn kickstart_ids(req: Map<u32, u64>, ms: Map<u32, MessageId>, next: int, upto: int) -> Seq<u32>
    decreases upto - next,
{
    if upto <= next {
        Seq::empty()
    } else {
        let prev = kickstart_ids(req, ms, next, upto - 1);
        let k = (upto - 1) as u32;
        if !req.contains_key(k) && !ms.contains_key(k) {
            prev.push(k)
        } else {
            prev
        }
    }
}

/// Bootstrapping: when the gap between the latest known milestone and the
/// latest solid one exceeds the sync window and peers are available,
/// proactively asks for the whole upcoming window of milestone indices
/// rather than waiting for gossip pushes.
pub fn kickstart(
    tangle: &Tangle,
    requested_milestones: &mut RequestedMilestones,
    sync_count: u32,
    peers_empty: bool,
    now: u64,
) -> (r: Vec<MilestoneRequest>)
    ensures
        ({
            let next = tangle.latest_solid_milestone_index.0 as int + 1;
            let active = !peers_empty && next + sync_count < tangle.latest_milestone_index.0 as int;
            &&& (!active ==> r@.len() == 0 && final(requested_milestones).requests@ == old(requested_milestones).requests@)
            &&& (active ==> {
                &&& forall|k: u32|
                    #![trigger final(requested_milestones).requests@.contains_key(k)]
                    final(requested_milestones).requests@.contains_key(k) <==> old(requested_milestones).requests@.contains_key(k) || (next <= k < next + sync_count
                        && !tangle.milestones@.contains_key(k))
                &&& forall|k: u32| #[trigger]
                    old(requested_milestones).requests@.contains_key(k) ==> final(requested_milestones).requests@[k] == old(requested_milestones).requests@[k]
                &&& r@.map_values(|m: MilestoneRequest| m.index.0) == kickstart_ids(
                    old(requested_milestones).requests@,
                    tangle.milestones@,
                    next,
                    next + sync_count,
                )
                &&& forall|i: int| 0 <= i < r@.len() ==> (#[trigger] r@[i]).to is None
            })
        }),
{
    let ghost req0 = requested_milestones.requests@;
    let mut r: Vec<MilestoneRequest> = Vec::new();
    let next64 = tangle.get_latest_solid_milestone_index().0 as u64 + 1;
    let latest64 = tangle.get_latest_milestone_index().0 as u64;
    if peers_empty || next64 + (sync_count as u64) >= latest64 {
        return r;
    }
    let ghost next = next64 as int;
    let mut idx: u64 = next64;
    while idx < next64 + (sync_count as u64)
        invariant
            next == next64 as int,
            next64 + sync_count < latest64 <= u32::MAX,
            next64 <= idx <= next64 + sync_count,
            forall|k: u32|
                #![trigger requested_milestones.requests@.contains_key(k)]
                requested_milestones.requests@.contains_key(k) <==> req0.contains_key(k) || (next <= k < idx
                    && !tangle.milestones@.contains_key(k)),
            forall|k: u32| #[trigger] req0.contains_key(k) ==> requested_milestones.requests@[k] == req0[k],
            r@.map_values(|m: MilestoneRequest| m.index.0) == kickstart_ids(
                req0,
                tangle.milestones@,
                next,
                idx as int,
            ),
            forall|i: int| 0 <= i < r@.len() ==> (#[trigger] r@[i]).to is None,
        decreases next64 + sync_count - idx,
    {
        let ghost r_pre = r@;
        let ghost rm_pre = requested_milestones.requests@;
        let index = MilestoneIndex(idx as u32);
        proof {
            assert(rm_pre.contains_key(idx as u32) <==> req0.contains_key(idx as u32));
        }
        match request_milestone(tangle, requested_milestones, index, None, now) {
            Some(request) => {
                r.push(request);
                proof {
                    assert(r@.map_values(|m: MilestoneRequest| m.index.0) =~= r_pre.map_values(
                        |m: MilestoneRequest| m.index.0,
                    ).push(idx as u32));
                }
            },
            None => {},
        }
        idx += 1;
        proof {
            assert(kickstart_ids(req0, tangle.milestones@, next, idx as int) == (
            if !req0.contains_key((idx - 1) as u32) && !tangle.milestones@.contains_key((idx - 1) as u32) {
                kickstart_ids(req0, tangle.milestones@, next, idx - 1).push((idx - 1) as u32)
            } else {
                kickstart_ids(req0, tangle.milestones@, next, idx - 1)
            }));
            assert forall|k: u32|
                #![trigger requested_milestones.requests@.contains_key(k)]
                requested_milestones.requests@.contains_key(k) <==> (req0.contains_key(k) || (next <= k < idx
                    && !tangle.milestones@.contains_key(k))) by {
                assert(rm_pre.contains_key(k) <==> req0.contains_key(k) || (next <= k < idx - 1
                    && !tangle.milestones@.contains_key(k)));
            }
        }
    }
    r
}

/// What a milestone's cone is missing: reachable from the milestone
/// message through un-solid messages, and absent from the tangle.
pub open spec fn cone_missing(
    t: Tangle,
    req: Map<u64, crate::requester::RequestedEntry>,
    target_key: u64,
    z: u64,
) -> bool {
    reaches(t, req, VisitFilter::UnsolidFor(target_key), target_key, z) && !t.has_message(z) && !t.is_sep(z)
}

/// Triggers solidification of one milestone: walks its cone, asks for
/// every missing ancestor not already pending, and points `next_index`
/// past the milestone. It does not itself mark anything solid: solidity is
/// discovered bottom-up once the requested ancestors have arrived. A
/// milestone whose message is unknown is left alone.
pub fn trigger_solidification_unchecked(
    tangle: &Tangle,
    requested_messages: &mut RequestedMessages,
    target_index: MilestoneIndex,
    next_index: &mut MilestoneIndex,
    now: u64,
) -> (r: Vec<MessageRequest>)
    requires
        tangle.wf(),
        target_index.0 < u32::MAX,
    ensures
        !tangle.milestones@.contains_key(target_index.0) ==> r@.len() == 0 && final(requested_messages).requests@ == old(requested_messages).requests@ && *final(next_index) == *old(next_index),
        tangle.milestones@.contains_key(target_index.0) ==> ({
            let target_id = tangle.milestones@[target_index.0];
            &&& *final(next_index) == MilestoneIndex((target_index.0 + 1) as u32)
            &&& (tangle.is_solid_key(target_id.0) ==> r@.len() == 0 && final(requested_messages).requests@ == old(requested_messages).requests@)
            &&& (!tangle.is_solid_key(target_id.0) ==> {
                &&& forall|z: u64|
                    #![trigger final(requested_messages).requests@.contains_key(z)]
                    final(requested_messages).requests@.contains_key(z) <==> old(requested_messages).requests@.contains_key(z) || cone_missing(
                        *tangle,
                        old(requested_messages).requests@,
                        target_id.0,
                        z,
                    )
                &&& forall|z: u64| #[trigger]
                    old(requested_messages).requests@.contains_key(z) ==> final(requested_messages).requests@[z] == old(requested_messages).requests@[z]
                &&& forall|i: int| 0 <= i < r@.len() ==> (#[trigger] r@[i]).index == target_index
                &&& keys_of_requests(r@).no_duplicates()
                &&& forall|z: u64|
                    #![trigger keys_of_requests(r@).contains(z)]
                    keys_of_requests(r@).contains(z) <==> cone_missing(
                        *tangle,
                        old(requested_messages).requests@,
                        target_id.0,
                        z,
                    ) && !old(requested_messages).requests@.contains_key(z)
            })
        }),
{
    let mut r: Vec<MessageRequest> = Vec::new();
    let target_id = match tangle.get_milestone_message_id(target_index) {
        None => {
            return r;
        },
        Some(id) => id,
    };
    if !tangle.is_solid_message(&target_id) {
        let ghost req0 = requested_messages.requests@;
        let trav = visit_parents_depth_first(
            tangle,
            requested_messages,
            VisitFilter::UnsolidFor(target_id.0),
            target_id,
        );
        let mut i: usize = 0;
        while i < trav.missing.len()
            invariant
                tangle.wf(),
                0 <= i <= trav.missing@.len(),
                keys_of(trav.missing@).no_duplicates(),
                forall|z: u64| #[trigger]
                    keys_of(trav.missing@).contains(z) ==> !tangle.has_message(z) && !tangle.is_sep(z),
                forall|z: u64|
                    #![trigger requested_messages.requests@.contains_key(z)]
                    requested_messages.requests@.contains_key(z) <==> req0.contains_key(z) || (keys_of(
                        trav.missing@.take(i as int),
                    ).contains(z)),
                forall|z: u64| #[trigger] req0.contains_key(z) ==> requested_messages.requests@[z] == req0[z],
                forall|j: int| 0 <= j < r@.len() ==> (#[trigger] r@[j]).index == target_index,
                forall|z: u64|
                    #![trigger keys_of_requests(r@).contains(z)]
                    keys_of_requests(r@).contains(z) <==> keys_of(trav.missing@.take(i as int)).contains(z)
                        && !req0.contains_key(z),
                keys_of_requests(r@).no_duplicates(),
            decreases trav.missing@.len() - i,
        {
            let ghost r_pre = r@;
            let missing_id = trav.missing[i];
            proof {
                assert(keys_of(trav.missing@)[i as int] == missing_id.0);
                assert(keys_of(trav.missing@).contains(missing_id.0));
                assert(!keys_of(trav.missing@.take(i as int)).contains(missing_id.0)) by {
                    if keys_of(trav.missing@.take(i as int)).contains(missing_id.0) {
                        let jj = choose|jj: int|
                            0 <= jj < keys_of(trav.missing@.take(i as int)).len() && #[trigger] keys_of(
                                trav.missing@.take(i as int),
                            )[jj] == missing_id.0;
                        assert(keys_of(trav.missing@)[jj] == missing_id.0);
                    }
                }
            }
            match request_message(tangle, requested_messages, missing_id, target_index, now) {
                Some(request) => {
                    r.push(request);
                },
                None => {},
            }
            i += 1;
            proof {
                assert(keys_of(trav.missing@.take(i as int)) =~= keys_of(
                    trav.missing@.take(i - 1),
                ).push(missing_id.0));
                assert forall|z: u64|
                    #![trigger keys_of_requests(r@).contains(z)]
                    keys_of_requests(r@).contains(z) <==> keys_of(trav.missing@.take(i as int)).contains(z)
                        && !req0.contains_key(z) by {
                    if keys_of_requests(r@).contains(z) {
                        let jj = choose|jj: int|
                            0 <= jj < keys_of_requests(r@).len() && #[trigger] keys_of_requests(r@)[jj] == z;
                        if jj < r_pre.len() {
                            assert(keys_of_requests(r_pre)[jj] == z);
                            assert(keys_of_requests(r_pre).contains(z));
                        } else {
                            assert(r@[jj].id.0 == missing_id.0);
                        }
                    }
                    if keys_of(trav.missing@.take(i as int)).contains(z) && !req0.contains_key(z) {
                        if z == missing_id.0 {
                            assert(keys_of_requests(r@)[r@.len() - 1] == z);
                        } else {
                            assert(keys_of(trav.missing@.take(i - 1)).contains(z)) by {
                                let jj = choose|jj: int|
                                    0 <= jj < keys_of(trav.missing@.take(i as int)).len() && #[trigger] keys_of(
                                        trav.missing@.take(i as int),
                                    )[jj] == z;
                                assert(jj < i - 1);
                                assert(keys_of(trav.missing@.take(i - 1))[jj] == z);
                            }
                            assert(keys_of_requests(r_pre).contains(z));
                            let jj = choose|jj: int|
                                0 <= jj < keys_of_requests(r_pre).len() && #[trigger] keys_of_requests(
                                    r_pre,
                                )[jj] == z;
                            assert(keys_of_requests(r@)[jj] == z);
                        }
                    }
                }
                assert(keys_of_requests(r@).no_duplicates()) by {
                    let ks = keys_of_requests(r@);
                    assert forall|a: int, b: int| 0 <= a < b < ks.len() implies ks[a] != ks[b] by {
                        if b == ks.len() - 1 && r@.len() > r_pre.len() {
                            assert(ks[a] == keys_of_requests(r_pre)[a]);
                            assert(keys_of_requests(r_pre).contains(ks[a]));
                        } else {
                            assert(ks[a] == keys_of_requests(r_pre)[a]);
                            assert(ks[b] == keys_of_requests(r_pre)[b]);
                        }
                    }
                }
            }
        }
        proof {
            assert(trav.missing@.take(trav.missing@.len() as int) =~= trav.missing@);
        }
    }
    *next_index = MilestoneIndex(target_index.0 + 1);
    r
}

/// The message ids asked for by a list of fetch orders.
pub open spec fn keys_of_requests(v: Seq<MessageRequest>) -> Seq<u64> {
    v.map_values(|m: MessageRequest| m.id.0)
}

/// The milestone solidification state: the ordered pending queue, the next
/// index awaited, and the configured sync window.
pub struct MilestoneSolidifier {
    /// Known milestone indices not yet processed, strictly descending.
    pub queue: Vec<MilestoneIndex>,
    /// The next milestone index to solidify, always right past the latest
    /// solid one.
    pub next_ms: MilestoneIndex,
    /// The bootstrapping window.
    pub sync_count: u32,
}

impl MilestoneSolidifier {
    /// The queue is strictly descending and holds no index that could not
    /// advance the pointer.
    pub open spec fn wf(self) -> bool {
        &&& forall|i: int, j: int| 0 <= i < j < self.queue@.len() ==> self.queue@[i].0 > self.queue@[j].0
        &&& forall|i: int| 0 <= i < self.queue@.len() ==> (#[trigger] self.queue@[i]).0 < u32::MAX
    }

    /// A fresh solidifier awaiting the milestone right past the latest
    /// solid one.
    pub fn new(sync_count: u32, latest_solid: MilestoneIndex) -> (r: MilestoneSolidifier)
        requires
            latest_solid.0 < u32::MAX,
        ensures
            r.wf(),
            r.queue@ == Seq::<MilestoneIndex>::empty(),
            r.next_ms == (MilestoneIndex((latest_solid.0 + 1) as u32)),
            r.sync_count == sync_count,
    {
        MilestoneSolidifier { queue: Vec::new(), next_ms: MilestoneIndex(latest_solid.0 + 1), sync_count }
    }

    /// Handles a newly known milestone index: stores it in the pending
    /// queue, then repeatedly triggers solidification of the awaited index
    /// while it sits at the front, collecting every message request issued.
    /// Indices are processed strictly in increasing order; an index beyond
    /// the awaited one stays queued.
    pub fn handle_new_milestone(
        &mut self,
        tangle: &Tangle,
        requested_messages: &mut RequestedMessages,
        index: MilestoneIndex,
        now: u64,
    ) -> (r: Vec<MessageRequest>)
        requires
            old(self).wf(),
            tangle.wf(),
            index.0 < u32::MAX,
        ensures
            final(self).wf(),
            final(self).sync_count == old(self).sync_count,
            final(self).next_ms.0 >= old(self).next_ms.0,
            forall|x: MilestoneIndex| #[trigger]
                final(self).queue@.contains(x) ==> old(self).queue@.contains(x) || x == index,
            forall|x: MilestoneIndex|
                (old(self).queue@.contains(x) || x == index) && !(#[trigger] final(self).queue@.contains(
                    x,
                )) ==> x.0 <= final(self).next_ms.0,
            forall|x: MilestoneIndex|
                (old(self).queue@.contains(x) || x == index) && x.0 > final(self).next_ms.0 ==> #[trigger]
                    final(self).queue@.contains(x),
    {
        let mut requests: Vec<MessageRequest> = Vec::new();
        save_index(index, &mut self.queue);
        proof {
            assert forall|i: int| 0 <= i < self.queue@.len() implies (#[trigger] self.queue@[i]).0
                < u32::MAX by {
                let x = self.queue@[i];
                assert(self.queue@.contains(x));
                if old(self).queue@.contains(x) {
                    let j = choose|j: int| 0 <= j < old(self).queue@.len() && old(self).queue@[j] == x;
                    assert(old(self).queue@[j].0 < u32::MAX);
                }
            }
        }
        let ghost q_start = self.queue@;
        let mut go = true;
        while go
            invariant
                tangle.wf(),
                self.wf(),
                self.sync_count == old(self).sync_count,
                self.next_ms.0 >= old(self).next_ms.0,
                forall|x: MilestoneIndex| #[trigger] self.queue@.contains(x) ==> q_start.contains(x),
                forall|x: MilestoneIndex|
                    q_start.contains(x) && !(#[trigger] self.queue@.contains(x)) ==> x.0 <= self.next_ms.0,
                !go ==> forall|x: MilestoneIndex|
                    q_start.contains(x) && x.0 > self.next_ms.0 ==> #[trigger] self.queue@.contains(x),
            decreases 2 * self.queue@.len() + if go {
                1int
            } else {
                0int
            },
        {
            go = false;
            if self.queue.len() > 0 {
                let ghost q_pre = self.queue@;
                let top = self.queue[self.queue.len() - 1];
                if top.0 == self.next_ms.0 {
                    self.queue.pop();
                    proof {
                        assert(q_pre[q_pre.len() - 1] == top);
                        assert forall|x: MilestoneIndex| #[trigger] self.queue@.contains(x) implies q_pre.contains(
                            x,
                        ) by {
                            let i = choose|i: int| 0 <= i < self.queue@.len() && self.queue@[i] == x;
                            assert(q_pre[i] == x);
                        }
                        assert forall|x: MilestoneIndex|
                            q_pre.contains(x) && !(#[trigger] self.queue@.contains(x)) implies x
                            == top by {
                            let i = choose|i: int| 0 <= i < q_pre.len() && q_pre[i] == x;
                            if i < q_pre.len() - 1 {
                                assert(self.queue@[i] == x);
                            }
                        }
                    }
                    let mut new_requests = trigger_solidification_unchecked(
                        tangle,
                        requested_messages,
                        top,
                        &mut self.next_ms,
                        now,
                    );
                    requests.append(&mut new_requests);
                    go = true;
                } else {
                    proof {
                        assert forall|x: MilestoneIndex|
                            q_start.contains(x) && x.0 > self.next_ms.0 implies #[trigger] self.queue@.contains(
                            x,
                        ) by {
                            if !self.queue@.contains(x) {
                                assert(x.0 <= self.next_ms.0);
                            }
                        }
                    }
                }
            } else {
                proof {
                    assert forall|x: MilestoneIndex|
                        q_start.contains(x) && x.0 > self.next_ms.0 implies #[trigger] self.queue@.contains(
                        x,
                    ) by {
                        if !self.queue@.contains(x) {
                            assert(x.0 <= self.next_ms.0);
                        }
                    }
                }
            }
        }
        proof {
            assert forall|x: MilestoneIndex| #[trigger] self.queue@.contains(x) implies old(self).queue@.contains(x) || x == index by {
                assert(q_start.contains(x));
            }
        }
        requests
    }
}

/// Everything to do when the latest solid milestone advances: the tangle's
/// pointer moves, the milestone's message goes to the ledger for
/// confirmation, the milestone one sync window ahead is either solidified
/// (if known) or requested, and a heartbeat goes to every peer.
pub struct LatestSolidActions {
    /// Message id to hand to the confirmation engine.
    pub ledger_confirm: MessageId,
    /// A milestone to trigger solidification for, already known.
    pub solidify_next: Option<MilestoneIndex>,
    /// A milestone fetch order, when the one ahead is unknown.
    pub milestone_request: Option<MilestoneRequest>,
    /// The heartbeat to send to each peer.
    pub heartbeats: Vec<(PeerId, Heartbeat)>,
}

/// Reacts to the latest-solid pointer advancing to `event.index`.
pub fn on_latest_solid_milestone_changed(
    tangle: &mut Tangle,
    requested_milestones: &mut RequestedMilestones,
    event: LatestSolidMilestoneChanged,
    sync_count: u32,
    peers: &Vec<PeerId>,
    connected_peers: u8,
    synced_peers: u8,
    now: u64,
) -> (r: LatestSolidActions)
    requires
        old(tangle).wf(),
        event.index.0 > old(tangle).latest_solid_milestone_index.0,
        event.index.0 + sync_count <= u32::MAX,
    ensures
        final(tangle).wf(),
        *final(tangle) == (Tangle { latest_solid_milestone_index: event.index, ..*old(tangle) }),
        r.ledger_confirm == event.message_id,
        ({
            let next = MilestoneIndex((event.index.0 + sync_count) as u32);
            &&& (old(tangle).milestones@.contains_key(next.0) ==> r.solidify_next == Some(next)
                && r.milestone_request is None && final(requested_milestones).requests@ == old(requested_milestones).requests@)
            &&& (!old(tangle).milestones@.contains_key(next.0) ==> r.solidify_next is None && ({
                &&& (old(requested_milestones).requests@.contains_key(next.0)
                    ==> r.milestone_request is None && final(requested_milestones).requests@ == old(requested_milestones).requests@)
                &&& (!old(requested_milestones).requests@.contains_key(next.0)
                    ==> r.milestone_request == Some(MilestoneRequest { index: next, to: None })
                    && final(requested_milestones).requests@ == old(requested_milestones).requests@.insert(next.0, now))
            }))
        }),
        r.heartbeats@.len() == peers@.len(),
        forall|i: int|
            0 <= i < peers@.len() ==> (#[trigger] r.heartbeats@[i]) == (
                peers@[i],
                Heartbeat {
                    solid_milestone_index: event.index,
                    pruned_index: old(tangle).pruning_index,
                    latest_milestone_index: old(tangle).latest_milestone_index,
                    connected_peers,
                    synced_peers,
                },
            ),
{
    tangle.update_latest_solid_milestone_index(event.index);
    let next = MilestoneIndex(event.index.0 + sync_count);
    let mut solidify_next: Option<MilestoneIndex> = None;
    let mut milestone_request: Option<MilestoneRequest> = None;
    if tangle.contains_milestone(next) {
        solidify_next = Some(next);
    } else {
        milestone_request = request_milestone(tangle, requested_milestones, next, None, now);
    }
    let heartbeats = broadcast_heartbeat(
        peers,
        event.index,
        tangle.get_pruning_index(),
        tangle.get_latest_milestone_index(),
        connected_peers,
        synced_peers,
    );
    LatestSolidActions { ledger_confirm: event.message_id, solidify_next, milestone_request, heartbeats }
}

} // verus!
