//! Payloads a message can carry.

use vstd::prelude::*;

use crate::output::Output;
use crate::types::{Error, MessageId, MilestoneId, MilestoneIndex, OutputId, TransactionId};

verus! {

/// Payload kind tag of a receipt payload.
pub const RECEIPT_KIND: u32 = 3;

/// Payload kind tag of a treasury transaction payload.
pub const TREASURY_TRANSACTION_KIND: u32 = 4;

/// Payload kind tag of a tagged-data payload.
pub const TAGGED_DATA_KIND: u32 = 5;

/// Payload kind tag of a transaction payload.
pub const TRANSACTION_KIND: u32 = 6;

/// Payload kind tag of a milestone payload.
pub const MILESTONE_KIND: u32 = 7;

/// Most inputs a transaction may spend.
pub const INPUT_COUNT_MAX: usize = 128;

/// Most outputs a transaction may create.
pub const OUTPUT_COUNT_MAX: usize = 128;

/// A value transaction: the outputs it spends and the outputs it creates.
#[derive(Clone, Debug)]
pub struct TransactionPayload {
    pub id: TransactionId,
    pub inputs: Vec<OutputId>,
    pub outputs: Vec<Output>,
}

impl TransactionPayload {
    /// Input and output lists non-empty and within bounds, every input
    /// position admissible.
    pub open spec fn is_valid(self) -> bool {
        &&& 1 <= self.inputs@.len() <= INPUT_COUNT_MAX
        &&& 1 <= self.outputs@.len() <= OUTPUT_COUNT_MAX
        &&& forall|i: int| 0 <= i < self.inputs@.len() ==> (#[trigger] self.inputs@[i]).is_valid()
        &&& forall|i: int, j: int| 0 <= i < j < self.inputs@.len() ==> self.inputs@[i] != self.inputs@[j]
    }

    /// Builds a transaction payload; rejects empty or oversized lists and
    /// inadmissible input positions.
    pub fn new(id: TransactionId, inputs: Vec<OutputId>, outputs: Vec<Output>) -> (r: Result<
        TransactionPayload,
        Error,
    >)
        ensures
            r is Ok ==> r->Ok_0 == (TransactionPayload { id, inputs, outputs }),
            r is Ok <==> (TransactionPayload { id, inputs, outputs }).is_valid(),
    {
        if inputs.len() < 1 || inputs.len() > INPUT_COUNT_MAX {
            return Err(Error::InvalidInputCount(inputs.len()));
        }
        if outputs.len() < 1 || outputs.len() > OUTPUT_COUNT_MAX {
            return Err(Error::InvalidOutputCount(outputs.len()));
        }
        let mut i: usize = 0;
        while i < inputs.len()
            invariant
                0 <= i <= inputs@.len(),
                forall|j: int| 0 <= j < i ==> (#[trigger] inputs@[j]).is_valid(),
                forall|a: int, b: int| 0 <= a < b < i ==> inputs@[a] != inputs@[b],
            decreases inputs@.len() - i,
        {
            if inputs[i].index > crate::types::OUTPUT_INDEX_MAX {
                return Err(Error::InvalidOutputIndex(inputs[i].index));
            }
            let mut a: usize = 0;
            while a < i
                invariant
                    0 <= a <= i < inputs@.len(),
                    forall|b: int| 0 <= b < a ==> inputs@[b] != inputs@[i as int],
                decreases i - a,
            {
                if inputs[a] == inputs[i] {
                    return Err(Error::DuplicateInput);
                }
                a += 1;
            }
            i += 1;
        }
        Ok(TransactionPayload { id, inputs, outputs })
    }

    /// The transaction identifier.
    pub fn id(&self) -> (r: TransactionId)
        ensures
            r == self.id,
    {
        self.id
    }

    /// The outputs this transaction spends.
    pub fn inputs(&self) -> (r: &Vec<OutputId>)
        ensures
            r == self.inputs,
    {
        &self.inputs
    }

    /// The outputs this transaction creates.
    pub fn outputs(&self) -> (r: &Vec<Output>)
        ensures
            r == self.outputs,
    {
        &self.outputs
    }

    /// Spec view of the identifier.
    pub open spec fn id_spec(self) -> TransactionId {
        self.id
    }

    /// Spec view of the input list.
    pub open spec fn inputs_spec(self) -> Seq<OutputId> {
        self.inputs@
    }

    /// Spec view of the output list.
    pub open spec fn outputs_spec(self) -> Seq<Output> {
        self.outputs@
    }
}

/// The signed content of a milestone: its index, its issue time and the
/// snapshot of parents it anchors.
#[derive(Clone, Debug)]
pub struct MilestoneEssence {
    pub index: MilestoneIndex,
    pub timestamp: u64,
    pub parents: Vec<MessageId>,
}

impl MilestoneEssence {
    /// Builds a milestone essence.
    pub fn new(index: MilestoneIndex, timestamp: u64, parents: Vec<MessageId>) -> (r: MilestoneEssence)
        ensures
            r.index == index && r.timestamp == timestamp && r.parents == parents,
    {
        MilestoneEssence { index, timestamp, parents }
    }

    /// The milestone index.
    pub fn index(&self) -> (r: MilestoneIndex)
        ensures
            r == self.index,
    {
        self.index
    }

    /// The issue time, in seconds.
    pub fn timestamp(&self) -> (r: u64)
        ensures
            r == self.timestamp,
    {
        self.timestamp
    }

    /// The anchored parent snapshot.
    pub fn parents(&self) -> (r: &Vec<MessageId>)
        ensures
            r == self.parents,
    {
        &self.parents
    }

    /// Spec view of the index.
    pub open spec fn index_spec(self) -> MilestoneIndex {
        self.index
    }

    /// Spec view of the timestamp.
    pub open spec fn timestamp_spec(self) -> u64 {
        self.timestamp
    }
}

/// A milestone payload: an identifier and the signed essence. Signature and
/// quorum validity are checked by a collaborator before a value of this
/// type is trusted here.
#[derive(Clone, Debug)]
pub struct MilestonePayload {
    pub id: MilestoneId,
    pub essence: MilestoneEssence,
}

impl MilestonePayload {
    /// Builds a milestone payload.
    pub fn new(id: MilestoneId, essence: MilestoneEssence) -> (r: MilestonePayload)
        ensures
            r.id == id && r.essence == essence,
    {
        MilestonePayload { id, essence }
    }

    /// The milestone identifier.
    pub fn id(&self) -> (r: MilestoneId)
        ensures
            r == self.id,
    {
        self.id
    }

    /// The signed essence.
    pub fn essence(&self) -> (r: &MilestoneEssence)
        ensures
            r == self.essence,
    {
        &self.essence
    }

    /// Spec view of the essence.
    pub open spec fn essence_spec(self) -> MilestoneEssence {
        self.essence
    }

    /// Spec view of the milestone index.
    pub open spec fn index_spec(self) -> MilestoneIndex {
        self.essence.index_spec()
    }
}

/// A receipt of funds migrated from a legacy network.
#[derive(Clone, Copy, PartialEq, Eq, Structural, Debug)]
pub struct ReceiptPayload {
    pub migrated_at: MilestoneIndex,
    pub last: bool,
    pub amount: u64,
}

impl ReceiptPayload {
    /// Builds a receipt payload.
    pub fn new(migrated_at: MilestoneIndex, last: bool, amount: u64) -> (r: ReceiptPayload)
        ensures
            r == (ReceiptPayload { migrated_at, last, amount }),
    {
        ReceiptPayload { migrated_at, last, amount }
    }

    /// The legacy milestone index the funds migrated at.
    pub fn migrated_at(&self) -> (r: MilestoneIndex)
        ensures
            r == self.migrated_at,
    {
        self.migrated_at
    }

    /// Whether this is the final receipt of its batch.
    pub fn last(&self) -> (r: bool)
        ensures
            r == self.last,
    {
        self.last
    }

    /// The migrated amount.
    pub fn amount(&self) -> (r: u64)
        ensures
            r == self.amount,
    {
        self.amount
    }
}

/// Arbitrary bytes under a tag.
#[derive(Clone, Debug)]
pub struct TaggedDataPayload {
    pub tag: Vec<u8>,
    pub data: Vec<u8>,
}

/// Longest tag a tagged-data payload may carry.
pub const TAG_LENGTH_MAX: usize = 64;

impl TaggedDataPayload {
    /// Tag within bounds.
    pub open spec fn is_valid(self) -> bool {
        self.tag@.len() <= TAG_LENGTH_MAX
    }

    /// Builds a tagged-data payload; rejects an oversized tag.
    pub fn new(tag: Vec<u8>, data: Vec<u8>) -> (r: Result<TaggedDataPayload, Error>)
        ensures
            tag@.len() <= TAG_LENGTH_MAX ==> r is Ok && r->Ok_0 == (TaggedDataPayload { tag, data }),
            tag@.len() > TAG_LENGTH_MAX ==> r is Err,
    {
        if tag.len() > TAG_LENGTH_MAX {
            Err(Error::InvalidTagLength(tag.len()))
        } else {
            Ok(TaggedDataPayload { tag, data })
        }
    }

    /// The tag bytes.
    pub fn tag(&self) -> (r: &Vec<u8>)
        ensures
            r == self.tag,
    {
        &self.tag
    }

    /// The data bytes.
    pub fn data(&self) -> (r: &Vec<u8>)
        ensures
            r == self.data,
    {
        &self.data
    }
}

/// Moves funds between the treasury and a milestone receipt.
#[derive(Clone, Copy, PartialEq, Eq, Structural, Debug)]
pub struct TreasuryTransactionPayload {
    pub input_milestone_id: MilestoneId,
    pub output: crate::output::TreasuryOutput,
}

impl TreasuryTransactionPayload {
    /// Builds a treasury transaction payload.
    pub fn new(input_milestone_id: MilestoneId, output: crate::output::TreasuryOutput) -> (r:
        TreasuryTransactionPayload)
        ensures
            r == (TreasuryTransactionPayload { input_milestone_id, output }),
    {
        TreasuryTransactionPayload { input_milestone_id, output }
    }

    /// The milestone whose treasury output is spent.
    pub fn input_milestone_id(&self) -> (r: MilestoneId)
        ensures
            r == self.input_milestone_id,
    {
        self.input_milestone_id
    }

    /// The new treasury output.
    pub fn output(&self) -> (r: crate::output::TreasuryOutput)
        ensures
            r == self.output,
    {
        self.output
    }
}

/// A generic payload that can represent the different types defining
/// message payloads.
#[derive(Clone, Debug)]
pub enum Payload {
    /// A transaction payload.
    Transaction(Box<TransactionPayload>),
    /// A milestone payload.
    Milestone(Box<MilestonePayload>),
    /// A receipt payload.
    Receipt(Box<ReceiptPayload>),
    /// A treasury transaction payload.
    TreasuryTransaction(Box<TreasuryTransactionPayload>),
    /// A tagged data payload.
    TaggedData(Box<TaggedDataPayload>),
}

impl Payload {
    /// Spec view of the payload kind tag.
    pub open spec fn kind_spec(self) -> u32 {
        match self {
            Payload::Transaction(_) => TRANSACTION_KIND,
            Payload::Milestone(_) => MILESTONE_KIND,
            Payload::Receipt(_) => RECEIPT_KIND,
            Payload::TreasuryTransaction(_) => TREASURY_TRANSACTION_KIND,
            Payload::TaggedData(_) => TAGGED_DATA_KIND,
        }
    }

    /// Returns the payload kind of a `Payload`.
    pub fn kind(&self) -> (r: u32)
        ensures
            r == self.kind_spec(),
    {
        match self {
            Payload::Transaction(_) => TRANSACTION_KIND,
            Payload::Milestone(_) => MILESTONE_KIND,
            Payload::Receipt(_) => RECEIPT_KIND,
            Payload::TreasuryTransaction(_) => TREASURY_TRANSACTION_KIND,
            Payload::TaggedData(_) => TAGGED_DATA_KIND,
        }
    }

    /// Wraps a transaction payload.
    pub fn from_transaction(payload: TransactionPayload) -> (r: Payload)
        ensures
            r == Payload::Transaction(Box::new(payload)),
    {
        Payload::Transaction(Box::new(payload))
    }

    /// Wraps a milestone payload.
    pub fn from_milestone(payload: MilestonePayload) -> (r: Payload)
        ensures
            r == Payload::Milestone(Box::new(payload)),
    {
        Payload::Milestone(Box::new(payload))
    }

    /// Wraps a receipt payload.
    pub fn from_receipt(payload: ReceiptPayload) -> (r: Payload)
        ensures
            r == Payload::Receipt(Box::new(payload)),
    {
        Payload::Receipt(Box::new(payload))
    }

    /// Wraps a treasury transaction payload.
    pub fn from_treasury_transaction(payload: TreasuryTransactionPayload) -> (r: Payload)
        ensures
            r == Payload::TreasuryTransaction(Box::new(payload)),
    {
        Payload::TreasuryTransaction(Box::new(payload))
    }

    /// Wraps a tagged data payload.
    pub fn from_tagged_data(payload: TaggedDataPayload) -> (r: Payload)
        ensures
            r == Payload::TaggedData(Box::new(payload)),
    {
        Payload::TaggedData(Box::new(payload))
    }
}

/// Representation of an optional [`Payload`]; an `Option<Payload>` with its
/// own framing when packed to bytes.
#[derive(Clone, Debug)]
pub struct OptionalPayload(pub Option<Payload>);

impl OptionalPayload {
    /// Wraps an optional payload.
    pub fn from_option(option: Option<Payload>) -> (r: OptionalPayload)
        ensures
            r == OptionalPayload(option),
    {
        OptionalPayload(option)
    }

    /// An absent payload.
    pub fn none() -> (r: OptionalPayload)
        ensures
            r == OptionalPayload(None::<Payload>),
    {
        OptionalPayload(None)
    }

    /// A present payload.
    pub fn some(payload: Payload) -> (r: OptionalPayload)
        ensures
            r == OptionalPayload(Some(payload)),
    {
        OptionalPayload(Some(payload))
    }

    /// The wrapped option.
    pub fn as_option(&self) -> (r: &Option<Payload>)
        ensures
            r == self.0,
    {
        &self.0
    }

    /// Unwraps into the plain option.
    pub fn into_option(self) -> (r: Option<Payload>)
        ensures
            r == self.0,
    {
        self.0
    }

    /// Spec view of the wrapped option.
    pub open spec fn option_spec(self) -> Option<Payload> {
        self.0
    }

    /// Whether a payload is present.
    pub open spec fn is_some_spec(self) -> bool {
        self.0 is Some
    }
}

/// Describes all the different payload types towards API consumers. The
/// transported content is the same; only the carrier differs.
#[derive(Clone, Debug)]
pub enum PayloadDto {
    /// A transaction payload.
    Transaction(Box<TransactionPayload>),
    /// A milestone payload.
    Milestone(Box<MilestonePayload>),
    /// A receipt payload.
    Receipt(Box<ReceiptPayload>),
    /// A treasury transaction payload.
    TreasuryTransaction(Box<TreasuryTransactionPayload>),
    /// A tagged data payload.
    TaggedData(Box<TaggedDataPayload>),
}

impl PayloadDto {
    /// Reshapes a payload for API consumers.
    pub fn from_payload(value: Payload) -> (r: PayloadDto)
        ensures
            r == (match value {
                Payload::Transaction(p) => PayloadDto::Transaction(p),
                Payload::Milestone(p) => PayloadDto::Milestone(p),
                Payload::Receipt(p) => PayloadDto::Receipt(p),
                Payload::TreasuryTransaction(p) => PayloadDto::TreasuryTransaction(p),
                Payload::TaggedData(p) => PayloadDto::TaggedData(p),
            }),
    {
        match value {
            Payload::Transaction(p) => PayloadDto::Transaction(p),
            Payload::Milestone(p) => PayloadDto::Milestone(p),
            Payload::Receipt(p) => PayloadDto::Receipt(p),
            Payload::TreasuryTransaction(p) => PayloadDto::TreasuryTransaction(p),
            Payload::TaggedData(p) => PayloadDto::TaggedData(p),
        }
    }

    /// Recovers the payload an API consumer described; a transaction that
    /// breaks its structural bounds is rejected.
    pub fn try_into_payload(self) -> (r: Result<Payload, Error>)
        ensures
            (match self {
                PayloadDto::Transaction(p) => p.is_valid(),
                _ => true,
            }) <==> r is Ok,
            r is Ok ==> r->Ok_0 == (match self {
                PayloadDto::Transaction(p) => Payload::Transaction(p),
                PayloadDto::Milestone(p) => Payload::Milestone(p),
                PayloadDto::Receipt(p) => Payload::Receipt(p),
                PayloadDto::TreasuryTransaction(p) => Payload::TreasuryTransaction(p),
                PayloadDto::TaggedData(p) => Payload::TaggedData(p),
            }),
    {
        match self {
            PayloadDto::Transaction(p) => {
                let valid = transaction_structurally_valid(&p);
                if valid {
                    Ok(Payload::Transaction(p))
                } else {
                    Err(Error::InvalidInputCount(p.inputs.len()))
                }
            },
            PayloadDto::Milestone(p) => Ok(Payload::Milestone(p)),
            PayloadDto::Receipt(p) => Ok(Payload::Receipt(p)),
            PayloadDto::TreasuryTransaction(p) => Ok(Payload::TreasuryTransaction(p)),
            PayloadDto::TaggedData(p) => Ok(Payload::TaggedData(p)),
        }
    }
}

/// Whether the transaction respects its structural bounds.
pub(crate) fn transaction_structurally_valid(tx: &TransactionPayload) -> (r: bool)
    ensures
        r == tx.is_valid(),
{
    if tx.inputs.len() < 1 || tx.inputs.len() > INPUT_COUNT_MAX {
        return false;
    }
    if tx.outputs.len() < 1 || tx.outputs.len() > OUTPUT_COUNT_MAX {
        return false;
    }
    let mut j: usize = 0;
    while j < tx.inputs.len()
        invariant
            0 <= j <= tx.inputs@.len(),
            forall|i: int| 0 <= i < j ==> (#[trigger] tx.inputs@[i]).is_valid(),
            forall|a: int, b: int| 0 <= a < b < j ==> tx.inputs@[a] != tx.inputs@[b],
        decreases tx.inputs@.len() - j,
    {
        if tx.inputs[j].index > crate::types::OUTPUT_INDEX_MAX {
            return false;
        }
        let mut a: usize = 0;
        while a < j
            invariant
                0 <= a <= j < tx.inputs@.len(),
                forall|b: int| 0 <= b < a ==> tx.inputs@[b] != tx.inputs@[j as int],
            decreases j - a,
        {
            if tx.inputs[a] == tx.inputs[j] {
                return false;
            }
            a += 1;
        }
        j += 1;
    }
    true
}

} // verus!
