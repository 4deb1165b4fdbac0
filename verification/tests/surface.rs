use bee_core::api::{
    health, is_healthy, message_index_key, messages_find, messages_metadata, milestone_utxo_changes, output,
    outputs, receipts, receipts_at, referenced_metadata, transactions_included_message,
    utxo_changes_by_milestone_id, ApiError, LedgerInclusionStateDto, MAX_RESULTS,
};
use bee_core::dashboard::{auth, handle_rejection, AuthDecision, AuthResponse, CustomRejection, DashboardAuthConfig};
use bee_core::dtos::{Peer, PeerDto, PeerMetrics, PeerRelation, RelationDto};
use bee_core::ledger::Ledger;
use bee_core::ledger_types::{ConsumedOutput, CreatedOutput, OutputDiff, Receipt};
use bee_core::message::Message;
use bee_core::output::{BasicOutput, Output, TreasuryOutput};
use bee_core::packet::{broadcast_heartbeat, Heartbeat};
use bee_core::payload::{
    MilestoneEssence, MilestonePayload, OptionalPayload, Payload, ReceiptPayload, TaggedDataPayload,
    TransactionPayload, MILESTONE_KIND, RECEIPT_KIND, TAGGED_DATA_KIND, TRANSACTION_KIND,
    TREASURY_TRANSACTION_KIND,
};
use bee_core::tangle::Tangle;
use bee_core::types::{
    ConflictReason, Error, MessageId, MilestoneId, MilestoneIndex, OutputId, PeerId, TransactionId, Unspent,
};

fn plain_message(parents: Vec<MessageId>) -> Message {
    Message::new(parents, OptionalPayload::none(), 0).unwrap()
}

fn milestone_message(parents: Vec<MessageId>, index: u32, timestamp: u64) -> Message {
    let essence = MilestoneEssence::new(MilestoneIndex(index), timestamp, parents.clone());
    let payload = Payload::from_milestone(MilestonePayload::new(MilestoneId(index as u64), essence));
    Message::new(parents, OptionalPayload::some(payload), 0).unwrap()
}

#[test]
fn payload_kinds_match_their_tags() {
    let tx = TransactionPayload::new(
        TransactionId(1),
        vec![OutputId { transaction_id: TransactionId(9), index: 0 }],
        vec![Output::Basic(BasicOutput::new(5, 1).unwrap())],
    )
    .unwrap();
    assert_eq!(Payload::from_transaction(tx).kind(), TRANSACTION_KIND);
    let essence = MilestoneEssence::new(MilestoneIndex(4), 9, vec![MessageId(1)]);
    assert_eq!(Payload::from_milestone(MilestonePayload::new(MilestoneId(4), essence)).kind(), MILESTONE_KIND);
    assert_eq!(Payload::from_receipt(ReceiptPayload::new(MilestoneIndex(1), true, 10)).kind(), RECEIPT_KIND);
    let treasury = bee_core::payload::TreasuryTransactionPayload::new(
        MilestoneId(2),
        TreasuryOutput::new(50).unwrap(),
    );
    assert_eq!(Payload::from_treasury_transaction(treasury).kind(), TREASURY_TRANSACTION_KIND);
    let tagged = TaggedDataPayload::new(vec![1, 2], vec![3]).unwrap();
    assert_eq!(Payload::from_tagged_data(tagged).kind(), TAGGED_DATA_KIND);
}

#[test]
fn builders_reject_out_of_range_values() {
    assert_eq!(OutputId::new(TransactionId(1), 128), Err(Error::InvalidOutputIndex(128)));
    assert!(OutputId::new(TransactionId(1), 127).is_ok());
    assert_eq!(BasicOutput::new(0, 1), Err(Error::InvalidOutputAmount(0)));
    assert!(Message::new(vec![], OptionalPayload::none(), 0).is_err());
    let too_many = (0..9).map(MessageId).collect::<Vec<_>>();
    assert!(Message::new(too_many, OptionalPayload::none(), 0).is_err());
    let dup = vec![
        OutputId { transaction_id: TransactionId(9), index: 0 },
        OutputId { transaction_id: TransactionId(9), index: 0 },
    ];
    let outputs = vec![Output::Basic(BasicOutput::new(5, 1).unwrap())];
    assert_eq!(TransactionPayload::new(TransactionId(1), dup, outputs).unwrap_err(), Error::DuplicateInput);
}

#[test]
fn metadata_route_reports_referenced_and_unreferenced_messages() {
    let mut tangle = Tangle::new();
    let sep = MessageId(1);
    tangle.add_solid_entry_point(sep, MilestoneIndex(0));
    let id = MessageId(10);
    tangle.insert(id, plain_message(vec![sep]), false);

    // an unknown id is not found
    assert_eq!(messages_metadata(&tangle, MessageId(999)).unwrap_err(), ApiError::NotFound);

    // not yet solid: reattachment is suggested
    let unsolid = messages_metadata(&tangle, id).unwrap();
    assert!(!unsolid.is_solid);
    assert_eq!(unsolid.should_reattach, Some(true));
    assert_eq!(unsolid.should_promote, Some(false));

    // solid but unreferenced: kept as a fresh tip
    tangle.propagate_solidity();
    let solid = messages_metadata(&tangle, id).unwrap();
    assert!(solid.is_solid);
    assert_eq!(solid.should_reattach, Some(false));
    assert_eq!(solid.should_promote, Some(false));
    assert!(solid.ledger_inclusion_state.is_none());

    // referenced: the inclusion state is reported
    tangle.reference_message(id, MilestoneIndex(2), ConflictReason::NoConflict);
    let referenced = messages_metadata(&tangle, id).unwrap();
    assert!(referenced.is_solid);
    assert_eq!(referenced.referenced_by_milestone_index, Some(2));
    assert_eq!(referenced.ledger_inclusion_state, Some(LedgerInclusionStateDto::NoTransaction));
    assert_eq!(referenced.parent_message_ids, vec![sep]);

    let event_view = referenced_metadata(&tangle, id).unwrap();
    assert!(event_view.is_solid);
    assert_eq!(event_view.referenced_by_milestone_index, Some(2));
    assert_eq!(event_view.ledger_inclusion_state, Some(LedgerInclusionStateDto::NoTransaction));
}

#[test]
fn metadata_route_requires_a_synchronized_node() {
    let mut tangle = Tangle::new();
    tangle.add_milestone(MilestoneIndex(50), MilestoneId(50), MessageId(9_050));
    let rejected = messages_metadata(&tangle, MessageId(1));
    assert_eq!(rejected.unwrap_err(), ApiError::ServiceUnavailable("the node is not synchronized"));
}

#[test]
fn utxo_changes_follow_the_recorded_diff() {
    let mut tangle = Tangle::new();
    let sep = MessageId(1);
    tangle.add_solid_entry_point(sep, MilestoneIndex(0));
    let x = OutputId { transaction_id: TransactionId(900), index: 0 };
    let mut ledger = Ledger::new(MilestoneIndex(0));
    ledger.add_genesis_output(
        x,
        CreatedOutput::new(MessageId(0), MilestoneIndex(0), 0, Output::Basic(BasicOutput::new(7, 1).unwrap())),
    );
    let spender = MessageId(10);
    let tx = TransactionPayload::new(
        TransactionId(21),
        vec![x],
        vec![Output::Basic(BasicOutput::new(7, 2).unwrap())],
    )
    .unwrap();
    tangle.insert(
        spender,
        Message::new(vec![sep], OptionalPayload::some(Payload::from_transaction(tx)), 0).unwrap(),
        false,
    );
    let milestone_id = MessageId(50);
    tangle.insert(milestone_id, milestone_message(vec![spender], 1, 5_000), false);
    tangle.add_milestone(MilestoneIndex(1), MilestoneId(1), milestone_id);
    ledger.confirm(&mut tangle, milestone_id).unwrap();

    let changes = milestone_utxo_changes(&ledger, MilestoneIndex(1)).unwrap();
    assert_eq!(changes.index, 1);
    assert_eq!(changes.created_outputs, vec![OutputId { transaction_id: TransactionId(21), index: 0 }]);
    assert_eq!(changes.consumed_outputs, vec![x]);
    assert_eq!(milestone_utxo_changes(&ledger, MilestoneIndex(9)).unwrap_err(), ApiError::NotFound);
    let by_id = utxo_changes_by_milestone_id(&tangle, &ledger, MilestoneId(1)).unwrap();
    assert_eq!(by_id.index, 1);
    assert_eq!(
        utxo_changes_by_milestone_id(&tangle, &ledger, MilestoneId(9)).unwrap_err(),
        ApiError::NotFound
    );

    // the output route reports both states of the moved outputs
    let spent = output(&ledger, x).unwrap();
    assert!(spent.is_spent);
    assert_eq!(spent.milestone_index_spent, Some(1));
    assert_eq!(spent.transaction_id_spent, Some(TransactionId(21)));
    let fresh = outputs(&ledger, OutputId { transaction_id: TransactionId(21), index: 0 }).unwrap();
    assert!(!fresh.is_spent);
    assert_eq!(fresh.milestone_index_booked, 1);
    assert_eq!(fresh.milestone_timestamp_booked, 5_000);
    assert_eq!(fresh.ledger_index, 1);
    assert_eq!(output(&ledger, OutputId { transaction_id: TransactionId(77), index: 0 }).unwrap_err(), ApiError::NotFound);
    assert_eq!(transactions_included_message(&ledger, TransactionId(21)).unwrap(), spender);
    assert_eq!(transactions_included_message(&ledger, TransactionId(77)).unwrap_err(), ApiError::NotFound);
}

#[test]
fn health_checks_sync_peers_and_milestone_age() {
    let mut tangle = Tangle::new();
    let sep = MessageId(1);
    tangle.add_solid_entry_point(sep, MilestoneIndex(0));
    let milestone_id = MessageId(50);
    tangle.insert(milestone_id, milestone_message(vec![sep], 1, 10_000), false);
    tangle.add_milestone(MilestoneIndex(1), MilestoneId(1), milestone_id);
    tangle.update_confirmed_milestone_index(MilestoneIndex(1));
    assert!(is_healthy(&tangle, 3, 10_100));
    assert_eq!(health(&tangle, 3, 10_100), 200);
    // no peers
    assert!(!is_healthy(&tangle, 0, 10_100));
    // the latest milestone is too old
    assert!(!is_healthy(&tangle, 3, 10_000 + 301));
    assert_eq!(health(&tangle, 3, 10_000 + 301), 503);
}

#[test]
fn find_messages_truncates_and_checks_the_index() {
    let key = message_index_key(&String::from("abcd")).unwrap();
    assert_eq!(key.len(), 64);
    assert_eq!(key[0], 0xab);
    assert_eq!(key[1], 0xcd);
    assert!(key[2..].iter().all(|b| *b == 0));
    assert_eq!(
        message_index_key(&String::from("xyz")).unwrap_err(),
        ApiError::BadRequest("invalid index")
    );

    let many: Vec<MessageId> = (0..1_200).map(MessageId).collect();
    let response = messages_find(String::from("abcd"), Some(many));
    assert_eq!(response.count, 1_200);
    assert_eq!(response.max_results, MAX_RESULTS);
    assert_eq!(response.message_ids.len(), 1_000);
    assert_eq!(response.message_ids[999], MessageId(999));
    let empty = messages_find(String::from("abcd"), None);
    assert_eq!(empty.count, 0);
    assert!(empty.message_ids.is_empty());
}

#[test]
fn receipts_are_reshaped_for_the_api() {
    let stored = vec![
        Receipt::new(ReceiptPayload::new(MilestoneIndex(3), false, 10), MilestoneIndex(7)),
        Receipt::new(ReceiptPayload::new(MilestoneIndex(4), true, 20), MilestoneIndex(8)),
    ];
    let listed = receipts(&stored);
    assert_eq!(listed.receipts.len(), 2);
    assert_eq!(listed.receipts[0].milestone_index, 7);
    assert_eq!(listed.receipts[1].receipt.amount(), 20);
    assert!(receipts_at(None).receipts.is_empty());
    assert_eq!(receipts_at(Some(stored)).receipts.len(), 2);
}

#[test]
fn peers_are_reshaped_for_the_api() {
    let peer = Peer {
        id: String::from("peer-one"),
        alias: String::from("alias-one"),
        address: String::from("/ip4/127.0.0.1/tcp/15600"),
        relation: PeerRelation::Known,
        connected: true,
        solid_milestone_index: 5,
        pruned_index: 1,
        latest_milestone_index: 9,
        connected_peers: 3,
        synced_peers: 2,
        metrics: PeerMetrics {
            new_blocks: 1,
            received_blocks: 2,
            known_blocks: 3,
            received_block_requests: 4,
            received_milestone_requests: 5,
            received_heartbeats: 6,
            sent_blocks: 7,
            sent_block_requests: 8,
            sent_milestone_requests: 9,
            sent_heartbeats: 10,
        },
    };
    let dto = PeerDto::from_peer(peer);
    assert_eq!(dto.id, "peer-one");
    assert_eq!(dto.multi_addresses, vec![String::from("/ip4/127.0.0.1/tcp/15600")]);
    assert_eq!(dto.alias.as_deref(), Some("alias-one"));
    assert_eq!(dto.relation, RelationDto::Known);
    assert!(dto.connected);
    let gossip = dto.gossip.unwrap();
    assert_eq!(gossip.heartbeat.solid_milestone_index, 5);
    assert_eq!(gossip.heartbeat.latest_milestone_index, 9);
    assert_eq!(gossip.metrics.dropped_packets, 0);
    assert_eq!(gossip.metrics.sent_heartbeats, 10);
}

#[test]
fn heartbeats_go_to_every_peer() {
    let peers = vec![PeerId(1), PeerId(2), PeerId(3)];
    let sent = broadcast_heartbeat(&peers, MilestoneIndex(5), MilestoneIndex(1), MilestoneIndex(9), 3, 2);
    assert_eq!(sent.len(), 3);
    for (at, (to, heartbeat)) in sent.iter().enumerate() {
        assert_eq!(*to, peers[at]);
        assert_eq!(
            *heartbeat,
            Heartbeat {
                solid_milestone_index: MilestoneIndex(5),
                pruned_index: MilestoneIndex(1),
                latest_milestone_index: MilestoneIndex(9),
                connected_peers: 3,
                synced_peers: 2,
            }
        );
    }
}

#[test]
fn auth_decides_from_token_user_and_password() {
    let salt = b"0123456789abcdef";
    let hash = auth_helper::password::password_hash(b"open-sesame", salt).unwrap();
    let config = DashboardAuthConfig {
        user: String::from("operator"),
        password_salt: hex::encode(salt),
        password_hash: hex::encode(&hash),
        session_timeout: 3_600,
    };
    assert_eq!(
        auth(Some(String::from("token-text")), None, None, &config),
        AuthDecision::ValidateJwt(String::from("token-text"))
    );
    assert_eq!(
        auth(None, None, None, &config),
        AuthDecision::Reject(CustomRejection::NoUserProvided)
    );
    assert_eq!(
        auth(None, Some(String::from("intruder")), None, &config),
        AuthDecision::Reject(CustomRejection::InvalidCredentials)
    );
    assert_eq!(
        auth(None, Some(String::from("operator")), None, &config),
        AuthDecision::Reject(CustomRejection::NoPasswordProvided)
    );
    assert_eq!(
        auth(None, Some(String::from("operator")), Some(String::from("wrong")), &config),
        AuthDecision::Reject(CustomRejection::InvalidCredentials)
    );
    assert_eq!(
        auth(None, Some(String::from("operator")), Some(String::from("open-sesame")), &config),
        AuthDecision::IssueJwt
    );
    let reply = AuthResponse { jwt: String::from("token-text") };
    assert_eq!(reply.jwt, "token-text");
}

#[test]
fn rejections_map_to_their_replies() {
    assert_eq!(
        handle_rejection(Some(&CustomRejection::NoUserProvided), false, false),
        (400, "400", "user not found")
    );
    assert_eq!(
        handle_rejection(Some(&CustomRejection::NoPasswordProvided), false, false),
        (400, "400", "password not found")
    );
    assert_eq!(
        handle_rejection(Some(&CustomRejection::InvalidCredentials), false, false),
        (403, "403", "wrong username or password")
    );
    assert_eq!(
        handle_rejection(Some(&CustomRejection::InvalidJwt), false, false),
        (403, "403", "invalid JWT")
    );
    assert_eq!(
        handle_rejection(Some(&CustomRejection::InternalError(String::from("x"))), false, false),
        (500, "500", "internal server error")
    );
    assert_eq!(handle_rejection(None, true, false), (404, "404", "data not found"));
    assert_eq!(handle_rejection(None, false, true), (403, "403", "access forbidden"));
    assert_eq!(handle_rejection(None, false, false), (500, "500", "internal server error"));
}

#[test]
fn api_errors_carry_their_status_codes() {
    assert_eq!(ApiError::BadRequest("x").status_code(), 400);
    assert_eq!(ApiError::NotFound.status_code(), 404);
    assert_eq!(ApiError::ServiceUnavailable("x").status_code(), 503);
    assert_eq!(ApiError::InternalError.status_code(), 500);
    assert_eq!(ApiError::Forbidden.status_code(), 403);
    assert_eq!(ApiError::InvalidPath(String::from("p")).status_code(), 400);
    assert_eq!(ApiError::InvalidJson(String::from("j")).status_code(), 400);
    assert_eq!(ApiError::InvalidBlock(Error::InvalidHex).status_code(), 400);
    assert_eq!(ApiError::InvalidWhiteflag(Error::InvalidHex).status_code(), 400);
}

#[test]
fn random_entities_are_well_formed() {
    for _ in 0..16 {
        let id = bee_core::random::rand_output_id();
        assert!(id.index <= 127);
        let unspent: Unspent = bee_core::random::rand_unspent_output_id();
        assert!(unspent.id().index <= 127);
        let treasury = bee_core::random::rand_treasury_output();
        assert!(treasury.amount() <= bee_core::types::TOKEN_SUPPLY);
        let basic = bee_core::random::rand_basic_output();
        assert!(basic.amount() >= 1);
        let alias = bee_core::random::rand_alias_output();
        assert!(alias.amount() >= 1);
        let ledger_treasury = bee_core::random::rand_ledger_treasury_output();
        assert!(ledger_treasury.inner().amount() <= bee_core::types::TOKEN_SUPPLY);
        let consumed: ConsumedOutput = bee_core::random::rand_consumed_output();
        let _ = consumed.target();
        let created: CreatedOutput = bee_core::random::rand_created_output();
        assert!(created.inner().amount() >= 0);
        let _ = bee_core::random::rand_output();
        let _ = bee_core::random::rand_inputs_commitment();
    }
}

#[test]
fn conflict_reasons_have_stable_codes() {
    assert_eq!(ConflictReason::NoConflict.code(), 0);
    assert_eq!(ConflictReason::InputAlreadySpent.code(), 1);
    assert_eq!(ConflictReason::InputNotFound.code(), 2);
    assert_eq!(ConflictReason::InvalidSignature.code(), 3);
    assert_eq!(ConflictReason::DuplicateOutput.code(), 4);
    assert_eq!(ConflictReason::SemanticValidationFailed.code(), 255);
}

#[test]
fn output_diffs_expose_their_parts() {
    let diff = OutputDiff {
        index: MilestoneIndex(4),
        created_outputs: vec![OutputId { transaction_id: TransactionId(1), index: 0 }],
        consumed_outputs: vec![OutputId { transaction_id: TransactionId(2), index: 1 }],
    };
    assert_eq!(diff.milestone_index(), MilestoneIndex(4));
    assert_eq!(diff.created_outputs().len(), 1);
    assert_eq!(diff.consumed_outputs()[0].index, 1);
}
