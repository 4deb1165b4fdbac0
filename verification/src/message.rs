//! Messages of the DAG and their mutable per-message state.

use vstd::prelude::*;

use crate::payload::OptionalPayload;
use crate::types::{ConflictReason, MessageId, MilestoneIndex};

verus! {

/// Fewest parents a message may reference.
pub const PARENTS_MIN: usize = 1;

/// Most parents a message may reference.
pub const PARENTS_MAX: usize = 8;

/// A node of the DAG: an ordered list of parent references, an optional
/// payload and the nonce of its proof of work.
#[derive(Clone, Debug)]
pub struct Message {
    pub parents: Vec<MessageId>,
    pub payload: OptionalPayload,
    pub nonce: u64,
}

impl Message {
    /// A message is admissible when its parent list length is within bounds.
    pub open spec fn is_valid(self) -> bool {
        PARENTS_MIN <= self.parents@.len() <= PARENTS_MAX
    }

    /// Builds a message; rejects an empty or oversized parent list.
    pub fn new(parents: Vec<MessageId>, payload: OptionalPayload, nonce: u64) -> (r: Result<
        Message,
        crate::types::Error,
    >)
        ensures
            PARENTS_MIN <= parents@.len() <= PARENTS_MAX ==> r == Ok::<Message, crate::types::Error>(
                Message { parents, payload, nonce },
            ),
            !(PARENTS_MIN <= parents@.len() <= PARENTS_MAX) ==> r is Err,
    {
        if parents.len() < PARENTS_MIN || parents.len() > PARENTS_MAX {
            Err(crate::types::Error::InvalidParentCount(parents.len()))
        } else {
            Ok(Message { parents, payload, nonce })
        }
    }

    /// The ordered parent references.
    pub fn parents(&self) -> (r: &Vec<MessageId>)
        ensures
            r == self.parents,
    {
        &self.parents
    }

    /// The optional payload.
    pub fn payload(&self) -> (r: &OptionalPayload)
        ensures
            r == self.payload,
    {
        &self.payload
    }

    /// The proof-of-work nonce.
    pub fn nonce(&self) -> (r: u64)
        ensures
            r == self.nonce,
    {
        self.nonce
    }

    /// Spec view of the parent list.
    pub open spec fn parents_spec(self) -> Seq<MessageId> {
        self.parents@
    }

    /// Spec view of the payload.
    pub open spec fn payload_spec(self) -> OptionalPayload {
        self.payload
    }
}

/// Flag set of a message's metadata.
#[derive(Clone, Copy, PartialEq, Eq, Structural, Debug)]
pub struct Flags {
    /// The whole ancestor cone of the message is present locally.
    pub solid: bool,
    /// The message was obtained by an explicit request rather than gossip.
    pub requested: bool,
    /// The message carries a milestone payload.
    pub milestone: bool,
}

impl Flags {
    /// Whether the solid flag is set.
    pub fn is_solid(&self) -> (r: bool)
        ensures
            r == self.solid,
    {
        self.solid
    }

    /// Whether the requested flag is set.
    pub fn is_requested(&self) -> (r: bool)
        ensures
            r == self.requested,
    {
        self.requested
    }

    /// Whether the milestone flag is set.
    pub fn is_milestone(&self) -> (r: bool)
        ensures
            r == self.milestone,
    {
        self.milestone
    }
}

/// Mutable state the tangle keeps beside each message.
///
/// The solid flag is monotonic: no operation of this crate ever clears it.
#[derive(Clone, Copy, PartialEq, Eq, Structural, Debug)]
pub struct MessageMetadata {
    pub flags: Flags,
    pub milestone_index: Option<MilestoneIndex>,
    pub omrsi: Option<MilestoneIndex>,
    pub ymrsi: Option<MilestoneIndex>,
    pub conflict: ConflictReason,
}

impl MessageMetadata {
    /// Fresh metadata as a spec value: nothing set but the requested flag.
    pub open spec fn new_spec(requested: bool) -> MessageMetadata {
        MessageMetadata {
            flags: Flags { solid: false, requested, milestone: false },
            milestone_index: None,
            omrsi: None,
            ymrsi: None,
            conflict: ConflictReason::NoConflict,
        }
    }

    /// Fresh metadata, as created when a message first arrives.
    pub fn new(requested: bool) -> (r: MessageMetadata)
        ensures
            r == MessageMetadata::new_spec(requested),
    {
        MessageMetadata {
            flags: Flags { solid: false, requested, milestone: false },
            milestone_index: None,
            omrsi: None,
            ymrsi: None,
            conflict: ConflictReason::NoConflict,
        }
    }

    /// The flag set.
    pub fn flags(&self) -> (r: Flags)
        ensures
            r == self.flags,
    {
        self.flags
    }

    /// Index of the confirmed milestone that references this message, if any.
    pub fn milestone_index(&self) -> (r: Option<MilestoneIndex>)
        ensures
            r == self.milestone_index,
    {
        self.milestone_index
    }

    /// The conflict classification assigned by the ledger.
    pub fn conflict(&self) -> (r: ConflictReason)
        ensures
            r == self.conflict,
    {
        self.conflict
    }

    /// Oldest and youngest milestone-referencing-solid-ancestor indices,
    /// available once the message is solid.
    pub fn omrsi_and_ymrsi(&self) -> (r: Option<(MilestoneIndex, MilestoneIndex)>)
        ensures
            self.omrsi is Some && self.ymrsi is Some ==> r == Some(
                (self.omrsi->0, self.ymrsi->0),
            ),
            !(self.omrsi is Some && self.ymrsi is Some) ==> r is None,
    {
        match (self.omrsi, self.ymrsi) {
            (Some(o), Some(y)) => Some((o, y)),
            _ => None,
        }
    }

    /// Spec view of the flags.
    pub open spec fn flags_spec(self) -> Flags {
        self.flags
    }

    /// Spec view of the solid flag.
    pub open spec fn is_solid_spec(self) -> bool {
        self.flags.solid
    }

    /// Spec view of the referencing milestone index.
    pub open spec fn milestone_index_spec(self) -> Option<MilestoneIndex> {
        self.milestone_index
    }

    /// Spec view of the conflict classification.
    pub open spec fn conflict_spec(self) -> ConflictReason {
        self.conflict
    }

    /// Spec view of the oldest milestone-referencing-solid-ancestor index.
    pub open spec fn omrsi_spec(self) -> Option<MilestoneIndex> {
        self.omrsi
    }

    /// Spec view of the youngest milestone-referencing-solid-ancestor index.
    pub open spec fn ymrsi_spec(self) -> Option<MilestoneIndex> {
        self.ymrsi
    }

    /// Marks the message solid and records its cone indices. Never clears
    /// the flag: callers only ever turn it on.
    pub fn mark_solid(&mut self, omrsi: MilestoneIndex, ymrsi: MilestoneIndex)
        ensures
            *final(self) == (MessageMetadata {
                flags: Flags { solid: true, ..old(self).flags },
                omrsi: Some(omrsi),
                ymrsi: Some(ymrsi),
                ..*old(self)
            }),
    {
        self.flags.solid = true;
        self.omrsi = Some(omrsi);
        self.ymrsi = Some(ymrsi);
    }

    /// Marks the message as carrying a milestone payload.
    pub fn mark_milestone(&mut self)
        ensures
            *final(self) == (MessageMetadata { flags: Flags { milestone: true, ..old(self).flags }, ..*old(self) }),
            final(self).flags.solid == old(self).flags.solid,
    {
        self.flags.milestone = true;
    }

    /// Records the milestone that references this message.
    pub fn reference(&mut self, index: MilestoneIndex)
        ensures
            *final(self) == (MessageMetadata { milestone_index: Some(index), ..*old(self) }),
            final(self).flags.solid == old(self).flags.solid,
    {
        self.milestone_index = Some(index);
    }

    /// Records the conflict classification of the message's transaction.
    pub fn set_conflict(&mut self, conflict: ConflictReason)
        ensures
            *final(self) == (MessageMetadata { conflict, ..*old(self) }),
            final(self).flags.solid == old(self).flags.solid,
    {
        self.conflict = conflict;
    }
}

} // verus!
