//! Events the pipeline publishes for API and plugin collaborators.

use vstd::prelude::*;

use crate::ledger_types::{ConsumedOutput, CreatedOutput};
use crate::types::{ConflictReason, MessageId, MilestoneIndex};

verus! {

/// A milestone was confirmed: its identity, the size of its cone and the
/// classification of every referenced message.
#[derive(Clone, Debug)]
pub struct MilestoneConfirmed {
    /// Message id of the milestone.
    pub id: MessageId,
    /// Its index.
    pub index: MilestoneIndex,
    /// Its issue time.
    pub timestamp: u64,
    /// How many messages the milestone newly references.
    pub referenced_messages: usize,
    /// Referenced messages carrying no transaction.
    pub excluded_no_transaction_messages: Vec<MessageId>,
    /// Referenced messages excluded as conflicting, with the reason.
    pub excluded_conflicting_messages: Vec<(MessageId, ConflictReason)>,
    /// Referenced messages whose transactions entered the ledger.
    pub included_messages: Vec<MessageId>,
    /// How many outputs the milestone consumed.
    pub consumed_outputs: usize,
    /// How many outputs the milestone created.
    pub created_outputs: usize,
}

/// An output left the unspent set.
pub struct OutputConsumed(pub ConsumedOutput);

/// An output entered the unspent set.
pub struct OutputCreated(pub CreatedOutput);

/// A snapshot was taken through this index.
pub struct SnapshottedIndex(pub MilestoneIndex);

/// History below this index was pruned.
pub struct PrunedIndex(pub MilestoneIndex);

/// The latest-solid pointer moved to this milestone.
#[derive(Clone, Copy, PartialEq, Eq, Structural, Debug)]
pub struct LatestSolidMilestoneChanged {
    /// The newly solid milestone's index.
    pub index: MilestoneIndex,
    /// The message id of its milestone message.
    pub message_id: MessageId,
}

/// A message's whole ancestor cone became locally known.
pub struct MessageSolidified(pub MessageId);

} // verus!
