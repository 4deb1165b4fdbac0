//! The read-only query surface consumed by API and plugin collaborators:
//! the pure computations behind each route, over the tangle and the ledger.

use vstd::prelude::*;

use crate::ledger::Ledger;
use crate::ledger_types::Receipt;
use crate::output::Output;
use crate::payload::{Payload, ReceiptPayload};
use crate::tangle::Tangle;
use crate::types::{ConflictReason, MessageId, MilestoneIndex, OutputId, TransactionId};

verus! {

/// How many milestones the confirmed pointer may lag for the node to count
/// as synchronized when answering queries.
pub const CONFIRMED_THRESHOLD: u32 = 5;

/// How many milestones the confirmed pointer may lag for the node to count
/// as healthy.
pub const HEALTH_CONFIRMED_THRESHOLD: u32 = 2;

/// How old the latest milestone may be, in seconds, for the node to count
/// as healthy.
pub const HEALTH_MILESTONE_AGE_MAX: u64 = 300;

/// Youngest-cone-index lag beyond which a tip should be promoted.
pub const YMRSI_DELTA: u32 = 8;

/// Oldest-cone-index lag beyond which a tip should be promoted.
pub const OMRSI_DELTA: u32 = 13;

/// Oldest-cone-index lag beyond which a tip should be reattached instead.
pub const BELOW_MAX_DEPTH: u32 = 15;

/// Most entries a find-by-index query reports.
pub const MAX_RESULTS: usize = 1000;

/// Errors of the query surface.
#[derive(Clone, PartialEq, Eq, Debug)]
pub enum ApiError {
    /// The request is malformed.
    BadRequest(&'static str),
    /// The queried entity is unknown.
    NotFound,
    /// The node cannot answer right now.
    ServiceUnavailable(&'static str),
    /// An internal fault.
    InternalError,
    /// The caller may not ask this.
    Forbidden,
    /// A path parameter did not parse.
    InvalidPath(String),
    /// A body did not parse as JSON.
    InvalidJson(String),
    /// A submitted message was rejected.
    InvalidBlock(crate::types::Error),
    /// A confirmation could not be applied.
    InvalidWhiteflag(crate::types::Error),
}

impl ApiError {
    /// The HTTP status code this error maps to.
    pub open spec fn status_code_spec(self) -> u16 {
        match self {
            ApiError::BadRequest(_) => 400,
            ApiError::NotFound => 404,
            ApiError::ServiceUnavailable(_) => 503,
            ApiError::InternalError => 500,
            ApiError::Forbidden => 403,
            ApiError::InvalidPath(_) => 400,
            ApiError::InvalidJson(_) => 400,
            ApiError::InvalidBlock(_) => 400,
            ApiError::InvalidWhiteflag(_) => 400,
        }
    }

    /// The HTTP status code this error maps to.
    pub fn status_code(&self) -> (r: u16)
        ensures
            r == self.status_code_spec(),
    {
        match self {
            ApiError::BadRequest(_) => 400,
            ApiError::NotFound => 404,
            ApiError::ServiceUnavailable(_) => 503,
            ApiError::InternalError => 500,
            ApiError::Forbidden => 403,
            ApiError::InvalidPath(_) => 400,
            ApiError::InvalidJson(_) => 400,
            ApiError::InvalidBlock(_) => 400,
            ApiError::InvalidWhiteflag(_) => 400,
        }
    }
}

/// Ledger inclusion state of a transaction, as reported to API consumers.
#[derive(Clone, Copy, PartialEq, Eq, Structural, Debug)]
pub enum LedgerInclusionStateDto {
    /// Excluded as conflicting.
    Conflicting,
    /// Entered the ledger.
    Included,
    /// Carries no transaction.
    NoTransaction,
}

/// Metadata of one message, as reported to API consumers.
#[derive(Clone, PartialEq, Eq, Debug)]
#[verifier::ext_equal]
pub struct MessageMetadataResponse {
    /// The queried message.
    pub message_id: MessageId,
    /// Its parents.
    pub parent_message_ids: Vec<MessageId>,
    /// Whether its whole cone is locally known.
    pub is_solid: bool,
    /// The milestone that references it, once confirmed.
    pub referenced_by_milestone_index: Option<u32>,
    /// Set when the message itself is a milestone.
    pub milestone_index: Option<u32>,
    /// How the ledger classified its transaction.
    pub ledger_inclusion_state: Option<LedgerInclusionStateDto>,
    /// The conflict code, when conflicting.
    pub conflict_reason: Option<u8>,
    /// Tip-selection hint: re-promote the message.
    pub should_promote: Option<bool>,
    /// Tip-selection hint: reattach the message.
    pub should_reattach: Option<bool>,
}

/// The tip-selection hints for a solid, unreferenced message, from the lag
/// of its cone indices behind the confirmed pointer. A lag from an index
/// ahead of the pointer counts as zero.
pub open spec fn promotion_hints(cmi: u32, omrsi: u32, ymrsi: u32) -> (Option<bool>, Option<bool>) {
    let omrsi_lag: int = if cmi >= omrsi {
        cmi - omrsi
    } else {
        0
    };
    let ymrsi_lag: int = if cmi >= ymrsi {
        cmi - ymrsi
    } else {
        0
    };
    if omrsi_lag > BELOW_MAX_DEPTH {
        (Some(false), Some(true))
    } else if ymrsi_lag > YMRSI_DELTA || omrsi_lag > OMRSI_DELTA {
        (Some(true), Some(false))
    } else {
        (Some(false), Some(false))
    }
}

/// What the metadata route answers for a stored message: the full case
/// analysis over referencing, solidity and payload kind.
pub open spec fn metadata_response_spec(t: Tangle, message_id: MessageId) -> MessageMetadataResponse {
    let m = t.msg_of(message_id.0);
    let md = t.meta_of(message_id.0);
    let base = MessageMetadataResponse {
        message_id,
        parent_message_ids: m.parents,
        is_solid: false,
        referenced_by_milestone_index: None,
        milestone_index: None,
        ledger_inclusion_state: None,
        conflict_reason: None,
        should_promote: None,
        should_reattach: None,
    };
    match md.milestone_index_spec() {
        Some(referencing) => {
            let milestone_index = if md.flags_spec().milestone {
                Some(referencing.0)
            } else {
                None
            };
            let is_transaction = match m.payload_spec().option_spec() {
                Some(p) => p is Transaction,
                None => false,
            };
            if is_transaction {
                if md.conflict_spec() != ConflictReason::NoConflict {
                    MessageMetadataResponse {
                        is_solid: true,
                        referenced_by_milestone_index: Some(referencing.0),
                        milestone_index,
                        ledger_inclusion_state: Some(LedgerInclusionStateDto::Conflicting),
                        conflict_reason: Some(md.conflict_spec().code_spec()),
                        ..base
                    }
                } else {
                    MessageMetadataResponse {
                        is_solid: true,
                        referenced_by_milestone_index: Some(referencing.0),
                        milestone_index,
                        ledger_inclusion_state: Some(LedgerInclusionStateDto::Included),
                        ..base
                    }
                }
            } else {
                MessageMetadataResponse {
                    is_solid: true,
                    referenced_by_milestone_index: Some(referencing.0),
                    milestone_index,
                    ledger_inclusion_state: Some(LedgerInclusionStateDto::NoTransaction),
                    ..base
                }
            }
        },
        None => {
            if md.is_solid_spec() {
                let hints = promotion_hints(
                    t.confirmed_milestone_index.0,
                    (md.omrsi_spec()->0).0,
                    (md.ymrsi_spec()->0).0,
                );
                MessageMetadataResponse {
                    is_solid: true,
                    should_promote: hints.0,
                    should_reattach: hints.1,
                    ..base
                }
            } else {
                MessageMetadataResponse { should_promote: Some(false), should_reattach: Some(true), ..base }
            }
        },
    }
}

/// Answers the message-metadata route: rejected while the node lags more
/// than [`CONFIRMED_THRESHOLD`] milestones, unknown ids are not found, and
/// a stored message gets the full case analysis of
/// [`metadata_response_spec`].
pub fn messages_metadata(tangle: &Tangle, message_id: MessageId) -> (r: Result<MessageMetadataResponse, ApiError>)
    requires
        tangle.wf(),
    ensures
        tangle.confirmed_milestone_index.0 + CONFIRMED_THRESHOLD < tangle.latest_milestone_index.0 ==> r
            == Err::<MessageMetadataResponse, ApiError>(
            ApiError::ServiceUnavailable("the node is not synchronized"),
        ),
        tangle.confirmed_milestone_index.0 + CONFIRMED_THRESHOLD >= tangle.latest_milestone_index.0 ==> ({
            &&& !tangle.has_message(message_id.0) ==> r == Err::<MessageMetadataResponse, ApiError>(
                ApiError::NotFound,
            )
            &&& tangle.has_message(message_id.0) ==> r is Ok && ({
                let out = r->Ok_0;
                let want = metadata_response_spec(*tangle, message_id);
                &&& out.message_id == want.message_id
                &&& out.parent_message_ids@ == want.parent_message_ids@
                &&& out.is_solid == want.is_solid
                &&& out.referenced_by_milestone_index == want.referenced_by_milestone_index
                &&& out.milestone_index == want.milestone_index
                &&& out.ledger_inclusion_state == want.ledger_inclusion_state
                &&& out.conflict_reason == want.conflict_reason
                &&& out.should_promote == want.should_promote
                &&& out.should_reattach == want.should_reattach
            })
        }),
{
    if !tangle.is_confirmed_threshold(CONFIRMED_THRESHOLD) {
        return Err(ApiError::ServiceUnavailable("the node is not synchronized"));
    }
    let (message, metadata) = match tangle.get_message_and_metadata(&message_id) {
        Some(pair) => pair,
        None => {
            return Err(ApiError::NotFound);
        },
    };
    let mut parents: Vec<MessageId> = Vec::new();
    let mut i: usize = 0;
    while i < message.parents().len()
        invariant
            tangle.wf(),
            tangle.has_message(message_id.0),
            message == tangle.msg_of(message_id.0),
            0 <= i <= message.parents@.len(),
            parents@ == message.parents@.take(i as int),
        decreases message.parents@.len() - i,
    {
        parents.push(message.parents()[i]);
        proof {
            assert(message.parents@.take(i + 1 as int) =~= message.parents@.take(i as int).push(
                message.parents@[i as int],
            ));
        }
        i += 1;
    }
    proof {
        assert(message.parents@.take(message.parents@.len() as int) =~= message.parents@);
    }
    let mut response = MessageMetadataResponse {
        message_id,
        parent_message_ids: parents,
        is_solid: false,
        referenced_by_milestone_index: None,
        milestone_index: None,
        ledger_inclusion_state: None,
        conflict_reason: None,
        should_promote: None,
        should_reattach: None,
    };
    match metadata.milestone_index() {
        Some(referencing) => {
            response.is_solid = true;
            response.referenced_by_milestone_index = Some(referencing.0);
            if metadata.flags().is_milestone() {
                response.milestone_index = Some(referencing.0);
            }
            let is_transaction = match message.payload().as_option() {
                Some(Payload::Transaction(_)) => true,
                _ => false,
            };
            if is_transaction {
                let conflict = metadata.conflict();
                if !(conflict == ConflictReason::NoConflict) {
                    response.ledger_inclusion_state = Some(LedgerInclusionStateDto::Conflicting);
                    response.conflict_reason = Some(conflict.code());
                } else {
                    response.ledger_inclusion_state = Some(LedgerInclusionStateDto::Included);
                }
            } else {
                response.ledger_inclusion_state = Some(LedgerInclusionStateDto::NoTransaction);
            }
        },
        None => {
            if metadata.flags().is_solid() {
                response.is_solid = true;
                let cmi = tangle.get_confirmed_milestone_index().0;
                let (omrsi, ymrsi) = match metadata.omrsi_and_ymrsi() {
                    Some(pair) => (pair.0.0, pair.1.0),
                    None => {
                        proof {
                            assert(tangle.meta_of(message_id.0).is_solid_spec());
                            assert(false);
                        }
                        return Err(ApiError::InternalError);
                    },
                };
                let omrsi_lag = if cmi >= omrsi {
                    cmi - omrsi
                } else {
                    0
                };
                let ymrsi_lag = if cmi >= ymrsi {
                    cmi - ymrsi
                } else {
                    0
                };
                if omrsi_lag > BELOW_MAX_DEPTH {
                    response.should_promote = Some(false);
                    response.should_reattach = Some(true);
                } else if ymrsi_lag > YMRSI_DELTA || omrsi_lag > OMRSI_DELTA {
                    response.should_promote = Some(true);
                    response.should_reattach = Some(false);
                } else {
                    response.should_promote = Some(false);
                    response.should_reattach = Some(false);
                }
            } else {
                response.should_promote = Some(false);
                response.should_reattach = Some(true);
            }
        },
    }
    Ok(response)
}

/// Metadata of a message known to be newly referenced by a milestone, as
/// published to event subscribers: solid by construction, with the
/// referencing index always present.
pub fn referenced_metadata(tangle: &Tangle, message_id: MessageId) -> (r: Result<
    MessageMetadataResponse,
    ApiError,
>)
    requires
        tangle.wf(),
    ensures
        !tangle.has_message(message_id.0) ==> r == Err::<MessageMetadataResponse, ApiError>(ApiError::NotFound),
        tangle.has_message(message_id.0) && tangle.meta_of(message_id.0).milestone_index_spec() is None ==> r
            == Err::<MessageMetadataResponse, ApiError>(ApiError::InternalError),
        tangle.has_message(message_id.0) && tangle.meta_of(message_id.0).milestone_index_spec() is Some ==> r
            is Ok && ({
            let m = tangle.msg_of(message_id.0);
            let md = tangle.meta_of(message_id.0);
            let referencing = md.milestone_index_spec()->0;
            let out = r->Ok_0;
            &&& out.message_id == message_id
            &&& out.parent_message_ids@ == m.parents@
            &&& out.is_solid == true
            &&& out.referenced_by_milestone_index == Some(referencing.0)
            &&& out.should_promote is None
            &&& out.should_reattach is None
            &&& (md.flags_spec().milestone ==> out.milestone_index == Some(referencing.0)
                && out.ledger_inclusion_state == Some(LedgerInclusionStateDto::NoTransaction)
                && out.conflict_reason is None)
            &&& (!md.flags_spec().milestone ==> out.milestone_index is None && ({
                let is_transaction = match m.payload_spec().option_spec() {
                    Some(p) => p is Transaction,
                    None => false,
                };
                &&& (is_transaction && md.conflict_spec() != ConflictReason::NoConflict
                    ==> out.ledger_inclusion_state == Some(LedgerInclusionStateDto::Conflicting)
                    && out.conflict_reason == Some(md.conflict_spec().code_spec()))
                &&& (is_transaction && md.conflict_spec() == ConflictReason::NoConflict
                    ==> out.ledger_inclusion_state == Some(LedgerInclusionStateDto::Included)
                    && out.conflict_reason is None)
                &&& (!is_transaction ==> out.ledger_inclusion_state == Some(
                    LedgerInclusionStateDto::NoTransaction,
                ) && out.conflict_reason is None)
            }))
        }),
{
    let (message, metadata) = match tangle.get_message_and_metadata(&message_id) {
        Some(pair) => pair,
        None => {
            return Err(ApiError::NotFound);
        },
    };
    let referencing = match metadata.milestone_index() {
        Some(index) => index,
        None => {
            return Err(ApiError::InternalError);
        },
    };
    let mut parents: Vec<MessageId> = Vec::new();
    let mut i: usize = 0;
    while i < message.parents().len()
        invariant
            tangle.wf(),
            tangle.has_message(message_id.0),
            message == tangle.msg_of(message_id.0),
            0 <= i <= message.parents@.len(),
            parents@ == message.parents@.take(i as int),
        decreases message.parents@.len() - i,
    {
        parents.push(message.parents()[i]);
        proof {
            assert(message.parents@.take(i + 1 as int) =~= message.parents@.take(i as int).push(
                message.parents@[i as int],
            ));
        }
        i += 1;
    }
    proof {
        assert(message.parents@.take(message.parents@.len() as int) =~= message.parents@);
    }
    let mut response = MessageMetadataResponse {
        message_id,
        parent_message_ids: parents,
        is_solid: true,
        referenced_by_milestone_index: Some(referencing.0),
        milestone_index: None,
        ledger_inclusion_state: None,
        conflict_reason: None,
        should_promote: None,
        should_reattach: None,
    };
    if metadata.flags().is_milestone() {
        response.milestone_index = Some(referencing.0);
        response.ledger_inclusion_state = Some(LedgerInclusionStateDto::NoTransaction);
    } else {
        let is_transaction = match message.payload().as_option() {
            Some(Payload::Transaction(_)) => true,
            _ => false,
        };
        if is_transaction {
            let conflict = metadata.conflict();
            if !(conflict == ConflictReason::NoConflict) {
                response.ledger_inclusion_state = Some(LedgerInclusionStateDto::Conflicting);
                response.conflict_reason = Some(conflict.code());
            } else {
                response.ledger_inclusion_state = Some(LedgerInclusionStateDto::Included);
            }
        } else {
            response.ledger_inclusion_state = Some(LedgerInclusionStateDto::NoTransaction);
        }
    }
    Ok(response)
}

/// The UTXO changes of one milestone, as reported to API consumers.
#[derive(Clone, PartialEq, Eq, Debug)]
pub struct UtxoChangesResponse {
    /// The milestone index asked about.
    pub index: u32,
    /// Output ids created under it, in confirmation order.
    pub created_outputs: Vec<OutputId>,
    /// Output ids consumed under it, in confirmation order.
    pub consumed_outputs: Vec<OutputId>,
}

/// Answers the UTXO-changes-by-index route from the ledger's recorded
/// diffs.
pub fn utxo_changes_by_milestone_index(ledger: &Ledger, index: MilestoneIndex) -> (r: Result<
    UtxoChangesResponse,
    ApiError,
>)
    requires
        ledger.wf(),
    ensures
        !(ledger.genesis_index < index.0 <= ledger.ledger_index) ==> r == Err::<UtxoChangesResponse, ApiError>(
            ApiError::NotFound,
        ),
        ledger.genesis_index < index.0 <= ledger.ledger_index ==> r is Ok && ({
            let d = ledger.diffs@[index.0 - ledger.genesis_index - 1];
            &&& r->Ok_0.index == index.0
            &&& r->Ok_0.created_outputs@ == d.created_outputs@
            &&& r->Ok_0.consumed_outputs@ == d.consumed_outputs@
        }),
{
    let diff = match ledger.fetch_output_diff(index) {
        Some(diff) => diff,
        None => {
            return Err(ApiError::NotFound);
        },
    };
    let created_outputs = copy_output_ids(diff.created_outputs());
    let consumed_outputs = copy_output_ids(diff.consumed_outputs());
    Ok(UtxoChangesResponse { index: index.0, created_outputs, consumed_outputs })
}

/// Answers the UTXO-changes-by-milestone-id route: resolves the milestone's
/// index through the tangle, then reads the ledger's diff.
pub fn utxo_changes_by_milestone_id(tangle: &Tangle, ledger: &Ledger, milestone_id: crate::types::MilestoneId) -> (r:
    Result<UtxoChangesResponse, ApiError>)
    requires
        tangle.wf(),
        ledger.wf(),
    ensures
        tangle.milestone_payload_of(milestone_id) is None ==> r == Err::<UtxoChangesResponse, ApiError>(
            ApiError::NotFound,
        ),
        tangle.milestone_payload_of(milestone_id) is Some ==> ({
            let index = tangle.milestone_payload_of(milestone_id)->0.essence.index;
            &&& (!(ledger.genesis_index < index.0 <= ledger.ledger_index) ==> r == Err::<
                UtxoChangesResponse,
                ApiError,
            >(ApiError::NotFound))
            &&& (ledger.genesis_index < index.0 <= ledger.ledger_index ==> r is Ok && ({
                let d = ledger.diffs@[index.0 - ledger.genesis_index - 1];
                &&& r->Ok_0.index == index.0
                &&& r->Ok_0.created_outputs@ == d.created_outputs@
                &&& r->Ok_0.consumed_outputs@ == d.consumed_outputs@
            }))
        }),
{
    let index = match tangle.get_milestone(milestone_id) {
        Some(payload) => payload.essence().index(),
        None => {
            return Err(ApiError::NotFound);
        },
    };
    utxo_changes_by_milestone_index(ledger, index)
}

/// Answers the milestone-scoped UTXO-changes route; the same lookup under
/// its own path.
pub fn milestone_utxo_changes(ledger: &Ledger, milestone_index: MilestoneIndex) -> (r: Result<
    UtxoChangesResponse,
    ApiError,
>)
    requires
        ledger.wf(),
    ensures
        !(ledger.genesis_index < milestone_index.0 <= ledger.ledger_index) ==> r == Err::<
            UtxoChangesResponse,
            ApiError,
        >(ApiError::NotFound),
        ledger.genesis_index < milestone_index.0 <= ledger.ledger_index ==> r is Ok && ({
            let d = ledger.diffs@[milestone_index.0 - ledger.genesis_index - 1];
            &&& r->Ok_0.index == milestone_index.0
            &&& r->Ok_0.created_outputs@ == d.created_outputs@
            &&& r->Ok_0.consumed_outputs@ == d.consumed_outputs@
        }),
{
    utxo_changes_by_milestone_index(ledger, milestone_index)
}

/// Copies a list of output ids.
fn copy_output_ids(v: &Vec<OutputId>) -> (r: Vec<OutputId>)
    ensures
        r@ == v@,
{
    let mut r: Vec<OutputId> = Vec::new();
    let mut i: usize = 0;
    while i < v.len()
        invariant
            0 <= i <= v@.len(),
            r@ == v@.take(i as int),
        decreases v@.len() - i,
    {
        r.push(v[i]);
        proof {
            assert(v@.take(i + 1 as int) =~= v@.take(i as int).push(v@[i as int]));
        }
        i += 1;
    }
    proof {
        assert(v@.take(v@.len() as int) =~= v@);
    }
    r
}

/// One booked output, as reported to API consumers.
#[derive(Clone, Copy, PartialEq, Eq, Structural, Debug)]
pub struct OutputResponse {
    /// The message whose transaction created the output.
    pub message_id: MessageId,
    /// The creating transaction.
    pub transaction_id: TransactionId,
    /// The output's position in it.
    pub output_index: u16,
    /// Whether the output has been spent.
    pub is_spent: bool,
    /// The milestone that spent it, if any.
    pub milestone_index_spent: Option<u32>,
    /// The transaction that spent it, if any.
    pub transaction_id_spent: Option<TransactionId>,
    /// The milestone that booked it.
    pub milestone_index_booked: u32,
    /// The issue time of the booking milestone.
    pub milestone_timestamp_booked: u64,
    /// The ledger index the answer was computed at.
    pub ledger_index: u32,
    /// The output itself.
    pub output: Output,
}

/// What the output routes answer for a booked output.
pub open spec fn output_response_spec(ledger: Ledger, output_id: OutputId) -> OutputResponse {
    let created = ledger.created_store@[output_id.key_spec()];
    let spent = ledger.consumed@.dom().contains(output_id.key_spec());
    OutputResponse {
        message_id: created.message_id,
        transaction_id: output_id.transaction_id,
        output_index: output_id.index,
        is_spent: spent,
        milestone_index_spent: if spent {
            Some(ledger.consumed@[output_id.key_spec()].index.0)
        } else {
            None
        },
        transaction_id_spent: if spent {
            Some(ledger.consumed@[output_id.key_spec()].target)
        } else {
            None
        },
        milestone_index_booked: created.milestone_index.0,
        milestone_timestamp_booked: created.milestone_timestamp,
        ledger_index: ledger.ledger_index,
        output: created.inner,
    }
}

/// Answers the output route: the booked output under the id, whether it is
/// spent, and the ledger index of the answer.
pub fn output(ledger: &Ledger, output_id: OutputId) -> (r: Result<OutputResponse, ApiError>)
    requires
        ledger.wf(),
    ensures
        !ledger.created_store@.dom().contains(output_id.key_spec()) ==> r == Err::<OutputResponse, ApiError>(
            ApiError::NotFound,
        ),
        ledger.created_store@.dom().contains(output_id.key_spec()) ==> r == Ok::<OutputResponse, ApiError>(
            output_response_spec(*ledger, output_id),
        ),
{
    let created = match ledger.fetch_output(&output_id) {
        Some(created) => *created,
        None => {
            return Err(ApiError::NotFound);
        },
    };
    let (is_spent, milestone_index_spent, transaction_id_spent) = match ledger.fetch_consumed_output(
        &output_id,
    ) {
        Some(consumed) => (true, Some(consumed.index().0), Some(*consumed.target())),
        None => (false, None, None),
    };
    Ok(
        OutputResponse {
            message_id: *created.message_id(),
            transaction_id: output_id.transaction_id,
            output_index: output_id.index,
            is_spent,
            milestone_index_spent,
            transaction_id_spent,
            milestone_index_booked: created.milestone_index().0,
            milestone_timestamp_booked: created.milestone_timestamp(),
            ledger_index: ledger.ledger_index().0.0,
            output: *created.inner(),
        },
    )
}

/// Answers the plural outputs route; the same lookup under its own path.
pub fn outputs(ledger: &Ledger, output_id: OutputId) -> (r: Result<OutputResponse, ApiError>)
    requires
        ledger.wf(),
    ensures
        !ledger.created_store@.dom().contains(output_id.key_spec()) ==> r == Err::<OutputResponse, ApiError>(
            ApiError::NotFound,
        ),
        ledger.created_store@.dom().contains(output_id.key_spec()) ==> r == Ok::<OutputResponse, ApiError>(
            output_response_spec(*ledger, output_id),
        ),
{
    output(ledger, output_id)
}

/// The message that carried the transaction creating the queried output's
/// initial position, for the transaction-included-message route.
pub fn transactions_included_message(ledger: &Ledger, transaction_id: TransactionId) -> (r: Result<
    MessageId,
    ApiError,
>)
    requires
        ledger.wf(),
    ensures
        ({
            let key = (OutputId { transaction_id, index: 0 }).key_spec();
            &&& (!ledger.created_store@.dom().contains(key) ==> r == Err::<MessageId, ApiError>(
                ApiError::NotFound,
            ))
            &&& (ledger.created_store@.dom().contains(key) ==> r == Ok::<MessageId, ApiError>(
                ledger.created_store@[key].message_id,
            ))
        }),
{
    let output_id = OutputId { transaction_id, index: 0 };
    match ledger.fetch_output(&output_id) {
        Some(created) => Ok(*created.message_id()),
        None => Err(ApiError::NotFound),
    }
}

/// A receipt, as reported to API consumers.
#[derive(Clone, Copy, PartialEq, Eq, Structural, Debug)]
pub struct ReceiptDto {
    /// The receipt payload.
    pub receipt: ReceiptPayload,
    /// The milestone it was included under.
    pub milestone_index: u32,
}

impl From<Receipt> for ReceiptDto {
    /// Reshapes a stored receipt for API consumers.
    fn from(value: Receipt) -> (r: ReceiptDto) {
        ReceiptDto { receipt: *value.inner(), milestone_index: value.included_in().0 }
    }
}

impl vstd::std_specs::convert::FromSpecImpl<Receipt> for ReceiptDto {
    open spec fn obeys_from_spec() -> bool {
        true
    }

    open spec fn from_spec(value: Receipt) -> ReceiptDto {
        ReceiptDto { receipt: value.inner, milestone_index: value.included_in.0 }
    }
}

/// All stored receipts, as reported to API consumers.
#[derive(Clone, PartialEq, Eq, Debug)]
pub struct ReceiptsResponse {
    /// The receipts, in the order handed in.
    pub receipts: Vec<ReceiptDto>,
}

/// Answers the receipts route over every stored receipt.
pub fn receipts(stored: &Vec<Receipt>) -> (r: ReceiptsResponse)
    ensures
        r.receipts@.len() == stored@.len(),
        forall|i: int|
            0 <= i < stored@.len() ==> (#[trigger] r.receipts@[i]) == (ReceiptDto {
                receipt: stored@[i].inner,
                milestone_index: stored@[i].included_in.0,
            }),
{
    let mut out: Vec<ReceiptDto> = Vec::new();
    let mut i: usize = 0;
    while i < stored.len()
        invariant
            0 <= i <= stored@.len(),
            out@.len() == i,
            forall|j: int|
                0 <= j < i ==> (#[trigger] out@[j]) == (ReceiptDto {
                    receipt: stored@[j].inner,
                    milestone_index: stored@[j].included_in.0,
                }),
        decreases stored@.len() - i,
    {
        let entry = ReceiptDto::from(stored[i]);
        out.push(entry);
        i += 1;
    }
    ReceiptsResponse { receipts: out }
}

/// Answers the receipts-at route over the receipts of one milestone, or
/// none when the milestone recorded none.
pub fn receipts_at(fetched: Option<Vec<Receipt>>) -> (r: ReceiptsResponse)
    ensures
        fetched is None ==> r.receipts@.len() == 0,
        fetched is Some ==> r.receipts@.len() == fetched->0@.len() && forall|i: int|
            0 <= i < fetched->0@.len() ==> (#[trigger] r.receipts@[i]) == (ReceiptDto {
                receipt: fetched->0@[i].inner,
                milestone_index: fetched->0@[i].included_in.0,
            }),
{
    match fetched {
        Some(list) => receipts(&list),
        None => ReceiptsResponse { receipts: Vec::new() },
    }
}

/// The issue time of the milestone at this index, if its message and
/// payload are stored.
pub open spec fn milestone_timestamp_at(t: Tangle, index: u32) -> Option<u64> {
    if t.milestones@.contains_key(index) && t.has_message(t.milestones@[index].0) {
        match t.msg_of(t.milestones@[index].0).payload_spec().option_spec() {
            Some(p) => match p {
                Payload::Milestone(mp) => Some(mp.essence.timestamp),
                _ => None,
            },
            _ => None,
        }
    } else {
        None
    }
}

/// Whether the node is healthy: the confirmed pointer lags at most
/// [`HEALTH_CONFIRMED_THRESHOLD`] milestones, at least one peer is
/// connected, and the latest milestone is stored and at most
/// [`HEALTH_MILESTONE_AGE_MAX`] seconds old at `now`.
pub open spec fn is_healthy_spec(t: Tangle, connected_peers: u8, now: u64) -> bool {
    &&& t.confirmed_milestone_index.0 + HEALTH_CONFIRMED_THRESHOLD >= t.latest_milestone_index.0
    &&& connected_peers > 0
    &&& match milestone_timestamp_at(t, t.latest_milestone_index.0) {
        Some(ts) => (if now >= ts {
            (now - ts) as int
        } else {
            0
        }) <= HEALTH_MILESTONE_AGE_MAX,
        None => false,
    }
}

/// Decides the health route.
pub fn is_healthy(tangle: &Tangle, connected_peers: u8, now: u64) -> (r: bool)
    requires
        tangle.wf(),
    ensures
        r == is_healthy_spec(*tangle, connected_peers, now),
{
    if !tangle.is_confirmed_threshold(HEALTH_CONFIRMED_THRESHOLD) {
        return false;
    }
    if connected_peers == 0 {
        return false;
    }
    let latest = tangle.get_latest_milestone_index();
    let message_id = match tangle.get_milestone_message_id(latest) {
        Some(id) => id,
        None => {
            return false;
        },
    };
    let message = match tangle.get(&message_id) {
        Some(m) => m,
        None => {
            return false;
        },
    };
    let timestamp = match message.payload().as_option() {
        Some(Payload::Milestone(mp)) => mp.essence().timestamp(),
        _ => {
            return false;
        },
    };
    let age = if now >= timestamp {
        now - timestamp
    } else {
        0
    };
    age <= HEALTH_MILESTONE_AGE_MAX
}

/// Answers the health route with its HTTP status code.
pub fn health(tangle: &Tangle, connected_peers: u8, now: u64) -> (r: u16)
    requires
        tangle.wf(),
    ensures
        is_healthy_spec(*tangle, connected_peers, now) ==> r == 200,
        !is_healthy_spec(*tangle, connected_peers, now) ==> r == 503,
{
    if is_healthy(tangle, connected_peers, now) {
        200
    } else {
        503
    }
}

/// Width of the padded index key under which indexed messages are stored.
pub const PADDED_INDEX_LENGTH: usize = 64;

/// Found messages for one index, as reported to API consumers.
#[derive(Clone, PartialEq, Eq, Debug)]
pub struct MessagesFindResponse {
    /// The queried index, as given.
    pub index: String,
    /// The reporting cap.
    pub max_results: usize,
    /// How many messages the store holds for the index.
    pub count: usize,
    /// At most [`MAX_RESULTS`] of them.
    pub message_ids: Vec<MessageId>,
}

/// The storage key of an index query: its bytes padded with zeros to
/// [`PADDED_INDEX_LENGTH`]. A string that is not hexadecimal is rejected;
/// callers hand in index strings of at most that decoded width.
pub fn message_index_key(index: &String) -> (r: Result<Vec<u8>, ApiError>)
    requires
        crate::hexutil::is_hex_str(index@) ==> 1 <= crate::hexutil::hex_decoded(index@).len()
            <= PADDED_INDEX_LENGTH,
    ensures
        !crate::hexutil::is_hex_str(index@) ==> r == Err::<Vec<u8>, ApiError>(
            ApiError::BadRequest("invalid index"),
        ),
        crate::hexutil::is_hex_str(index@) ==> r is Ok && ({
            let bytes = crate::hexutil::hex_decoded(index@);
            let key = r->Ok_0;
            &&& key@.len() == PADDED_INDEX_LENGTH
            &&& key@.take(bytes.len() as int) == bytes
            &&& forall|i: int| bytes.len() <= i < PADDED_INDEX_LENGTH ==> key@[i] == 0u8
        }),
{
    let mut key = match crate::hexutil::hex_decode(index.as_str()) {
        Ok(bytes) => bytes,
        Err(_) => {
            return Err(ApiError::BadRequest("invalid index"));
        },
    };
    let ghost bytes = key@;
    while key.len() < PADDED_INDEX_LENGTH
        invariant
            bytes.len() <= key@.len() <= PADDED_INDEX_LENGTH,
            key@.take(bytes.len() as int) == bytes,
            forall|i: int| bytes.len() <= i < key@.len() ==> key@[i] == 0u8,
        decreases PADDED_INDEX_LENGTH - key@.len(),
    {
        key.push(0);
        proof {
            assert(key@.take(bytes.len() as int) =~= bytes);
        }
    }
    Ok(key)
}

/// Answers the find-messages-by-index route over what the store holds for
/// the index: the full count, and at most [`MAX_RESULTS`] of the ids.
pub fn messages_find(index: String, fetched: Option<Vec<MessageId>>) -> (r: MessagesFindResponse)
    ensures
        r.index@ == index@,
        r.max_results == MAX_RESULTS,
        fetched is None ==> r.count == 0 && r.message_ids@.len() == 0,
        fetched is Some ==> r.count == fetched->0@.len() && r.message_ids@ == fetched->0@.take(
            if fetched->0@.len() <= MAX_RESULTS {
                fetched->0@.len() as int
            } else {
                MAX_RESULTS as int
            },
        ),
{
    let mut message_ids = match fetched {
        Some(ids) => ids,
        None => Vec::new(),
    };
    let count = message_ids.len();
    message_ids.truncate(MAX_RESULTS);
    proof {
        if count <= MAX_RESULTS {
            assert(message_ids@ =~= message_ids@.take(message_ids@.len() as int));
        }
    }
    MessagesFindResponse { index, max_results: MAX_RESULTS, count, message_ids }
}

} // verus!
