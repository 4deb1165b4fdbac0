//! Records the ledger keeps about outputs, and the per-milestone diff.

use vstd::prelude::*;

use crate::output::Output;
use crate::payload::ReceiptPayload;
use crate::types::{MessageId, MilestoneId, MilestoneIndex, OutputId, TransactionId};

verus! {

/// An output booked into the ledger: who created it, when it was booked,
/// and the output itself.
#[derive(Clone, Copy, PartialEq, Eq, Structural, Debug)]
pub struct CreatedOutput {
    pub message_id: MessageId,
    pub milestone_index: MilestoneIndex,
    pub milestone_timestamp: u64,
    pub inner: Output,
}

impl CreatedOutput {
    /// Books an output.
    pub fn new(message_id: MessageId, milestone_index: MilestoneIndex, milestone_timestamp: u64, inner: Output) -> (r:
        CreatedOutput)
        ensures
            r == (CreatedOutput { message_id, milestone_index, milestone_timestamp, inner }),
    {
        CreatedOutput { message_id, milestone_index, milestone_timestamp, inner }
    }

    /// The message that carried the creating transaction.
    pub fn message_id(&self) -> (r: &MessageId)
        ensures
            *r == self.message_id,
    {
        &self.message_id
    }

    /// The milestone that booked the output.
    pub fn milestone_index(&self) -> (r: MilestoneIndex)
        ensures
            r == self.milestone_index,
    {
        self.milestone_index
    }

    /// The issue time of the booking milestone.
    pub fn milestone_timestamp(&self) -> (r: u64)
        ensures
            r == self.milestone_timestamp,
    {
        self.milestone_timestamp
    }

    /// The output itself.
    pub fn inner(&self) -> (r: &Output)
        ensures
            *r == self.inner,
    {
        &self.inner
    }

    /// Spec view of the booking milestone.
    pub open spec fn milestone_index_spec(self) -> MilestoneIndex {
        self.milestone_index
    }

    /// Spec view of the creating message.
    pub open spec fn message_id_spec(self) -> MessageId {
        self.message_id
    }

    /// Spec view of the output itself.
    pub open spec fn inner_spec(self) -> Output {
        self.inner
    }
}

/// The record left when an output is spent: which transaction spent it and
/// under which milestone.
#[derive(Clone, Copy, PartialEq, Eq, Structural, Debug)]
pub struct ConsumedOutput {
    pub target: TransactionId,
    pub index: MilestoneIndex,
    pub milestone_timestamp: u64,
}

impl ConsumedOutput {
    /// Records a spend.
    pub fn new(target: TransactionId, index: MilestoneIndex, milestone_timestamp: u64) -> (r: ConsumedOutput)
        ensures
            r == (ConsumedOutput { target, index, milestone_timestamp }),
    {
        ConsumedOutput { target, index, milestone_timestamp }
    }

    /// The spending transaction.
    pub fn target(&self) -> (r: &TransactionId)
        ensures
            *r == self.target,
    {
        &self.target
    }

    /// The milestone under which the spend was confirmed.
    pub fn index(&self) -> (r: MilestoneIndex)
        ensures
            r == self.index,
    {
        self.index
    }

    /// The issue time of the confirming milestone.
    pub fn milestone_timestamp(&self) -> (r: u64)
        ensures
            r == self.milestone_timestamp,
    {
        self.milestone_timestamp
    }

    /// Spec view of the confirming milestone.
    pub open spec fn index_spec(self) -> MilestoneIndex {
        self.index
    }
}

/// The UTXO mutations of one confirmed milestone: the output ids created
/// and consumed, each in confirmation order.
#[derive(Clone, PartialEq, Eq, Debug)]
pub struct OutputDiff {
    /// The confirming milestone.
    pub index: MilestoneIndex,
    /// Output ids created under it, in confirmation order.
    pub created_outputs: Vec<OutputId>,
    /// Output ids consumed under it, in confirmation order.
    pub consumed_outputs: Vec<OutputId>,
}

impl OutputDiff {
    /// The confirming milestone.
    pub fn milestone_index(&self) -> (r: MilestoneIndex)
        ensures
            r == self.index,
    {
        self.index
    }

    /// The created output ids.
    pub fn created_outputs(&self) -> (r: &Vec<OutputId>)
        ensures
            r == self.created_outputs,
    {
        &self.created_outputs
    }

    /// The consumed output ids.
    pub fn consumed_outputs(&self) -> (r: &Vec<OutputId>)
        ensures
            r == self.consumed_outputs,
    {
        &self.consumed_outputs
    }

    /// Storage keys of the created output ids.
    pub open spec fn created_keys(self) -> Set<u128> {
        self.created_outputs@.map_values(|o: OutputId| o.key_spec()).to_set()
    }

    /// Storage keys of the consumed output ids.
    pub open spec fn consumed_keys(self) -> Set<u128> {
        self.consumed_outputs@.map_values(|o: OutputId| o.key_spec()).to_set()
    }
}

/// The treasury as the ledger tracks it: the treasury output and the
/// milestone that moved it.
#[derive(Clone, Copy, PartialEq, Eq, Structural, Debug)]
pub struct TreasuryOutput {
    pub inner: crate::output::TreasuryOutput,
    pub milestone_id: MilestoneId,
}

impl TreasuryOutput {
    /// Tracks a treasury output moved by the given milestone.
    pub fn new(inner: crate::output::TreasuryOutput, milestone_id: MilestoneId) -> (r: TreasuryOutput)
        ensures
            r == (TreasuryOutput { inner, milestone_id }),
    {
        TreasuryOutput { inner, milestone_id }
    }

    /// The treasury output itself.
    pub fn inner(&self) -> (r: &crate::output::TreasuryOutput)
        ensures
            *r == self.inner,
    {
        &self.inner
    }

    /// The milestone that moved it.
    pub fn milestone_id(&self) -> (r: MilestoneId)
        ensures
            r == self.milestone_id,
    {
        self.milestone_id
    }
}

/// A receipt as stored by the ledger: the receipt payload and the milestone
/// that included it.
#[derive(Clone, Copy, PartialEq, Eq, Structural, Debug)]
pub struct Receipt {
    pub inner: ReceiptPayload,
    pub included_in: MilestoneIndex,
}

impl Receipt {
    /// Stores a receipt included under the given milestone.
    pub fn new(inner: ReceiptPayload, included_in: MilestoneIndex) -> (r: Receipt)
        ensures
            r == (Receipt { inner, included_in }),
    {
        Receipt { inner, included_in }
    }

    /// The receipt payload.
    pub fn inner(&self) -> (r: &ReceiptPayload)
        ensures
            *r == self.inner,
    {
        &self.inner
    }

    /// The milestone the receipt was included under.
    pub fn included_in(&self) -> (r: MilestoneIndex)
        ensures
            r == self.included_in,
    {
        self.included_in
    }
}

} // verus!
