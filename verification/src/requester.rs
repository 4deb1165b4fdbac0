//! Deduplicated request bookkeeping: at most one in-flight request per
//! message id or milestone index, and the decisions of when to issue one.

use vstd::prelude::*;

use std::collections::HashMap;

use crate::tangle::Tangle;
use crate::types::{MessageId, MilestoneIndex, PeerId};

verus! {

broadcast use vstd::std_specs::hash::group_hash_axioms;

/// What is recorded about an in-flight message request.
#[derive(Clone, Copy, PartialEq, Eq, Structural, Debug)]
pub struct RequestedEntry {
    /// When the request was issued, in milliseconds.
    pub time: u64,
    /// The milestone whose solidification asked for the message.
    pub index: MilestoneIndex,
}

/// The pending-fetch set for messages: an id present here has an in-flight
/// request.
pub struct RequestedMessages {
    /// In-flight requests by message identifier word.
    pub requests: HashMap<u64, RequestedEntry>,
}

/// A fetch order for one message, handed to the gossip layer.
#[derive(Clone, Copy, PartialEq, Eq, Structural, Debug)]
pub struct MessageRequest {
    /// The message asked for.
    pub id: MessageId,
    /// The milestone whose solidification asked for it.
    pub index: MilestoneIndex,
}

/// A fetch order for one milestone, handed to the gossip layer.
#[derive(Clone, Copy, PartialEq, Eq, Structural, Debug)]
pub struct MilestoneRequest {
    /// The milestone index asked for; zero asks for the latest one.
    pub index: MilestoneIndex,
    /// The peer to ask, or none for any.
    pub to: Option<PeerId>,
}

impl RequestedMessages {
    /// An empty pending set.
    pub fn new() -> (r: RequestedMessages)
        ensures
            r.requests@ == Map::<u64, RequestedEntry>::empty(),
    {
        RequestedMessages { requests: HashMap::new() }
    }

    /// Whether a request for this message is in flight.
    pub fn contains_key(&self, id: &MessageId) -> (r: bool)
        ensures
            r == self.requests@.contains_key(id.0),
    {
        self.requests.contains_key(&id.0)
    }

    /// How many requests are in flight.
    pub fn len(&self) -> (r: usize)
        ensures
            r == self.requests@.len(),
    {
        self.requests.len()
    }

    /// Removes the pending request when the message has arrived.
    pub fn remove(&mut self, id: &MessageId)
        ensures
            final(self).requests@ == old(self).requests@.remove(id.0),
    {
        self.requests.remove(&id.0);
    }
}

impl RequestedMilestones {
    /// An empty pending set.
    pub fn new() -> (r: RequestedMilestones)
        ensures
            r.requests@ == Map::<u32, u64>::empty(),
    {
        RequestedMilestones { requests: HashMap::new() }
    }

    /// Whether a request for this milestone index is in flight.
    pub fn contains_key(&self, index: &MilestoneIndex) -> (r: bool)
        ensures
            r == self.requests@.contains_key(index.0),
    {
        self.requests.contains_key(&index.0)
    }

    /// Removes the pending request when the milestone has arrived.
    pub fn remove(&mut self, index: &MilestoneIndex)
        ensures
            final(self).requests@ == old(self).requests@.remove(index.0),
    {
        self.requests.remove(&index.0);
    }
}

/// The pending-fetch set for milestones, by index, with the issue time.
pub struct RequestedMilestones {
    /// In-flight requests by milestone index.
    pub requests: HashMap<u32, u64>,
}

/// Asks for a milestone by index: a no-op if a request is already pending
/// or the milestone is already known; otherwise records the request and
/// returns the fetch order to send.
pub fn request_milestone(
    tangle: &Tangle,
    requested_milestones: &mut RequestedMilestones,
    index: MilestoneIndex,
    to: Option<PeerId>,
    now: u64,
) -> (r: Option<MilestoneRequest>)
    ensures
        old(requested_milestones).requests@.contains_key(index.0)
            || tangle.milestones@.contains_key(index.0) ==> r is None
            && final(requested_milestones).requests@ == old(requested_milestones).requests@,
        !(old(requested_milestones).requests@.contains_key(index.0)
            || tangle.milestones@.contains_key(index.0)) ==> r == Some(MilestoneRequest { index, to })
            && final(requested_milestones).requests@
            == old(requested_milestones).requests@.insert(index.0, now),
{
    if !requested_milestones.requests.contains_key(&index.0) && !tangle.contains_milestone(index) {
        requested_milestones.requests.insert(index.0, now);
        Some(MilestoneRequest { index, to })
    } else {
        None
    }
}

/// Asks for the latest milestone a peer knows, by the conventional index
/// zero.
pub fn request_latest_milestone(
    tangle: &Tangle,
    requested_milestones: &mut RequestedMilestones,
    to: Option<PeerId>,
    now: u64,
) -> (r: Option<MilestoneRequest>)
    ensures
        old(requested_milestones).requests@.contains_key(0) || tangle.milestones@.contains_key(0) ==> r is None
            && final(requested_milestones).requests@ == old(requested_milestones).requests@,
        !(old(requested_milestones).requests@.contains_key(0) || tangle.milestones@.contains_key(0)) ==> r
            == Some(MilestoneRequest { index: MilestoneIndex(0), to })
            && final(requested_milestones).requests@
            == old(requested_milestones).requests@.insert(0, now),
{
    request_milestone(tangle, requested_milestones, MilestoneIndex(0), to, now)
}

/// Asks for a message by id: a no-op if the message is already stored, is a
/// solid entry point, or a request is already pending; otherwise records
/// the request and returns the fetch order to send. No id ever has two
/// requests in flight.
pub fn request_message(
    tangle: &Tangle,
    requested_messages: &mut RequestedMessages,
    message_id: MessageId,
    index: MilestoneIndex,
    now: u64,
) -> (r: Option<MessageRequest>)
    ensures
        tangle.has_message(message_id.0) || tangle.is_sep(message_id.0)
            || old(requested_messages).requests@.contains_key(message_id.0) ==> r is None
            && final(requested_messages).requests@ == old(requested_messages).requests@,
        !(tangle.has_message(message_id.0) || tangle.is_sep(message_id.0)
            || old(requested_messages).requests@.contains_key(message_id.0)) ==> r == Some(
            MessageRequest { id: message_id, index },
        ) && final(requested_messages).requests@ == old(requested_messages).requests@.insert(
            message_id.0,
            RequestedEntry { time: now, index },
        ),
{
    if !tangle.contains(&message_id) && !tangle.is_solid_entry_point(&message_id)
        && !requested_messages.contains_key(&message_id) {
        requested_messages.requests.insert(message_id.0, RequestedEntry { time: now, index });
        Some(MessageRequest { id: message_id, index })
    } else {
        None
    }
}

} // verus!
