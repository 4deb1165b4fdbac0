//! Fixed-width identifiers and the conflict classification shared by the
//! tangle, the requesters, the solidifier and the ledger.

use vstd::prelude::*;

verus! {

/// Largest index an output may have inside one transaction.
pub const OUTPUT_INDEX_MAX: u16 = 127;

/// Total amount of tokens the ledger may carry; no output amount exceeds it.
pub const TOKEN_SUPPLY: u64 = 2_779_530_283_277_761;

/// Content-addressed identifier of a message, modelled as a 64-bit word.
#[derive(Clone, Copy, PartialEq, Eq, Structural, Debug, Hash)]
pub struct MessageId(pub u64);

/// Identifier of a milestone payload, modelled as a 64-bit word.
#[derive(Clone, Copy, PartialEq, Eq, Structural, Debug, Hash)]
pub struct MilestoneId(pub u64);

/// Identifier of a transaction payload, modelled as a 64-bit word.
#[derive(Clone, Copy, PartialEq, Eq, Structural, Debug, Hash)]
pub struct TransactionId(pub u64);

/// Position of a milestone in the single total order of the system.
#[derive(Clone, Copy, PartialEq, Eq, Structural, Debug, Hash)]
pub struct MilestoneIndex(pub u32);

/// Milestone index through which the UTXO state has been fully applied.
#[derive(Clone, Copy, PartialEq, Eq, Structural, Debug, Hash)]
pub struct LedgerIndex(pub MilestoneIndex);

/// Identifier of a gossip peer, modelled as a 64-bit word.
#[derive(Clone, Copy, PartialEq, Eq, Structural, Debug, Hash)]
pub struct PeerId(pub u64);

/// Identifier of one output of a transaction: the transaction and the
/// position of the output in it.
#[derive(Clone, Copy, PartialEq, Eq, Structural, Debug, Hash)]
pub struct OutputId {
    pub transaction_id: TransactionId,
    pub index: u16,
}

impl OutputId {
    /// Whether the output position lies in the admissible range.
    pub open spec fn is_valid(self) -> bool {
        self.index <= OUTPUT_INDEX_MAX
    }

    /// Key under which this output id is stored: transaction word and
    /// position packed into one 128-bit word, an injective encoding.
    pub open spec fn key_spec(self) -> u128 {
        ((self.transaction_id.0 as u128) * 0x1_0000 + (self.index as u128)) as u128
    }

    /// Builds an output id; rejects a position beyond [`OUTPUT_INDEX_MAX`].
    pub fn new(transaction_id: TransactionId, index: u16) -> (r: Result<OutputId, Error>)
        ensures
            index <= OUTPUT_INDEX_MAX ==> r == Ok::<OutputId, Error>(OutputId { transaction_id, index }),
            index > OUTPUT_INDEX_MAX ==> r == Err::<OutputId, Error>(Error::InvalidOutputIndex(index)),
    {
        if index <= OUTPUT_INDEX_MAX {
            Ok(OutputId { transaction_id, index })
        } else {
            Err(Error::InvalidOutputIndex(index))
        }
    }

    /// Packs the output id into its storage key.
    pub fn key(&self) -> (r: u128)
        ensures
            r == self.key_spec(),
    {
        (self.transaction_id.0 as u128) * 0x1_0000 + (self.index as u128)
    }
}

/// Two distinct output ids always pack to distinct keys.
pub proof fn lemma_output_key_injective(a: OutputId, b: OutputId)
    ensures
        a.key_spec() == b.key_spec() ==> a == b,
{
    if a.key_spec() == b.key_spec() {
        assert(a.index == b.index && a.transaction_id.0 == b.transaction_id.0) by (nonlinear_arith)
            requires
                (a.transaction_id.0 as u128) * 0x1_0000 + (a.index as u128) == (b.transaction_id.0 as u128)
                    * 0x1_0000 + (b.index as u128),
                a.index <= u16::MAX,
                b.index <= u16::MAX;
    }
}

/// Commitment to a transaction's inputs, modelled as a 64-bit word.
#[derive(Clone, Copy, PartialEq, Eq, Structural, Debug, Hash)]
pub struct InputsCommitment(pub u64);

/// An output id known to be in unspent state.
#[derive(Clone, Copy, PartialEq, Eq, Structural, Debug, Hash)]
pub struct Unspent(pub OutputId);

impl Unspent {
    /// Wraps an output id as unspent.
    pub fn new(output_id: OutputId) -> (r: Unspent)
        ensures
            r == (Unspent(output_id)),
    {
        Unspent(output_id)
    }

    /// The wrapped output id.
    pub fn id(&self) -> (r: OutputId)
        ensures
            r == self.0,
    {
        self.0
    }
}

/// Why a transaction was excluded from the ledger state during white-flag
/// confirmation. Assigned at most once per message and immutable afterwards.
#[derive(Clone, Copy, PartialEq, Eq, Structural, Debug)]
pub enum ConflictReason {
    /// The message carries no conflict.
    NoConflict,
    /// One of the inputs was already spent, by an earlier confirmation or
    /// earlier in the same batch.
    InputAlreadySpent,
    /// One of the inputs does not refer to a known unspent output.
    InputNotFound,
    /// A signature of the transaction does not verify.
    InvalidSignature,
    /// An output of the transaction would recreate an output id the ledger
    /// already knows.
    DuplicateOutput,
    /// The transaction breaks a structural bound.
    SemanticValidationFailed,
}

impl ConflictReason {
    /// Numeric code of the reason, as reported to API consumers.
    pub open spec fn code_spec(self) -> u8 {
        match self {
            ConflictReason::NoConflict => 0,
            ConflictReason::InputAlreadySpent => 1,
            ConflictReason::InputNotFound => 2,
            ConflictReason::InvalidSignature => 3,
            ConflictReason::DuplicateOutput => 4,
            ConflictReason::SemanticValidationFailed => 255,
        }
    }

    /// Numeric code of the reason, as reported to API consumers.
    pub fn code(&self) -> (r: u8)
        ensures
            r == self.code_spec(),
    {
        match self {
            ConflictReason::NoConflict => 0,
            ConflictReason::InputAlreadySpent => 1,
            ConflictReason::InputNotFound => 2,
            ConflictReason::InvalidSignature => 3,
            ConflictReason::DuplicateOutput => 4,
            ConflictReason::SemanticValidationFailed => 255,
        }
    }
}

/// Errors of the core pipeline.
#[derive(Clone, PartialEq, Eq, Structural, Debug)]
pub enum Error {
    /// An output position beyond the admissible range was supplied.
    InvalidOutputIndex(u16),
    /// A message with a parent list outside the admissible bounds.
    InvalidParentCount(usize),
    /// An output amount outside the admissible range.
    InvalidOutputAmount(u64),
    /// An unlock condition that names the identifier it should control.
    InvalidUnlockCondition,
    /// Token counters that break their ordering.
    InvalidTokenScheme,
    /// A transaction with an input list outside the admissible bounds.
    InvalidInputCount(usize),
    /// A transaction that names the same input twice.
    DuplicateInput,
    /// A transaction with an output list outside the admissible bounds.
    InvalidOutputCount(usize),
    /// A tagged-data payload with an oversized tag.
    InvalidTagLength(usize),
    /// A string that is not hexadecimal where one is needed.
    InvalidHex,
    /// A payload tag that names no payload kind was read.
    InvalidPayloadKind(u32),
    /// The length prefix of a payload disagrees with its actual length.
    InvalidPayloadLength { expected: usize, actual: usize },
    /// The byte stream ended before the announced content.
    UnexpectedEof,
    /// Confirmation was requested for a milestone that is not the immediate
    /// successor of the current ledger index.
    NonContiguousMilestones { current: u32, passed: u32 },
    /// The message given to the confirmation engine is not in the tangle.
    MilestoneMessageNotFound(MessageId),
    /// The message given to the confirmation engine carries no milestone
    /// payload.
    NoMilestonePayload(MessageId),
    /// A message of the cone under confirmation is missing from the tangle.
    MissingMessage(MessageId),
    /// The milestone under confirmation was already confirmed.
    AlreadyConfirmed(u32),
}

} // verus!
