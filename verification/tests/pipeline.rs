use bee_core::ledger::Ledger;
use bee_core::ledger_types::CreatedOutput;
use bee_core::message::Message;
use bee_core::output::{BasicOutput, Output};
use bee_core::payload::{MilestoneEssence, MilestonePayload, OptionalPayload, Payload, TransactionPayload};
use bee_core::requester::{request_message, RequestedMessages, RequestedMilestones};
use bee_core::solidifier::{kickstart, trigger_solidification_unchecked, MilestoneSolidifier};
use bee_core::tangle::Tangle;
use bee_core::types::{ConflictReason, Error, MessageId, MilestoneId, MilestoneIndex, OutputId, TransactionId};

fn plain_message(parents: Vec<MessageId>) -> Message {
    Message::new(parents, OptionalPayload::none(), 0).unwrap()
}

fn milestone_message(parents: Vec<MessageId>, index: u32, timestamp: u64) -> Message {
    let essence = MilestoneEssence::new(MilestoneIndex(index), timestamp, parents.clone());
    let payload = Payload::from_milestone(MilestonePayload::new(MilestoneId(index as u64), essence));
    Message::new(parents, OptionalPayload::some(payload), 0).unwrap()
}

fn transaction_message(parents: Vec<MessageId>, tx_id: u64, inputs: Vec<OutputId>, n_outputs: u16) -> Message {
    let mut outputs: Vec<Output> = Vec::new();
    for _ in 0..n_outputs {
        outputs.push(Output::Basic(BasicOutput::new(1_000, 7).unwrap()));
    }
    let tx = TransactionPayload::new(TransactionId(tx_id), inputs, outputs).unwrap();
    Message::new(parents, OptionalPayload::some(Payload::from_transaction(tx)), 0).unwrap()
}

fn genesis_output_id(word: u64) -> OutputId {
    OutputId { transaction_id: TransactionId(word), index: 0 }
}

fn seeded_ledger(genesis: u32, ids: &[OutputId]) -> Ledger {
    let mut ledger = Ledger::new(MilestoneIndex(genesis));
    for id in ids {
        let booked = CreatedOutput::new(
            MessageId(0),
            MilestoneIndex(genesis),
            0,
            Output::Basic(BasicOutput::new(1_000, 7).unwrap()),
        );
        ledger.add_genesis_output(*id, booked);
    }
    ledger
}

#[test]
fn kickstart_requests_exactly_the_sync_window() {
    let mut tangle = Tangle::new();
    // the latest known milestone is 100, nothing is solid yet
    tangle.add_milestone(MilestoneIndex(100), MilestoneId(100), MessageId(9_100));
    let mut requested = RequestedMilestones::new();
    let requests = kickstart(&tangle, &mut requested, 10, false, 0);
    assert_eq!(requests.len(), 10);
    for (at, request) in requests.iter().enumerate() {
        assert_eq!(request.index.0, (at + 1) as u32);
        assert!(request.to.is_none());
    }
    assert!(!requested.contains_key(&MilestoneIndex(0)));
    assert!(requested.contains_key(&MilestoneIndex(1)));
    assert!(requested.contains_key(&MilestoneIndex(10)));
    assert!(!requested.contains_key(&MilestoneIndex(11)));
}

#[test]
fn kickstart_waits_for_peers_and_for_a_real_gap() {
    let mut tangle = Tangle::new();
    tangle.add_milestone(MilestoneIndex(100), MilestoneId(100), MessageId(9_100));
    let mut requested = RequestedMilestones::new();
    assert_eq!(kickstart(&tangle, &mut requested, 10, true, 0).len(), 0);
    let mut close_tangle = Tangle::new();
    close_tangle.add_milestone(MilestoneIndex(5), MilestoneId(5), MessageId(9_005));
    assert_eq!(kickstart(&close_tangle, &mut requested, 10, false, 0).len(), 0);
}

#[test]
fn trigger_solidification_requests_each_missing_ancestor_once() {
    let mut tangle = Tangle::new();
    let sep = MessageId(1);
    tangle.add_solid_entry_point(sep, MilestoneIndex(0));
    let missing_a = MessageId(100);
    let missing_b = MessageId(200);
    let milestone_id = MessageId(500);
    let milestone = milestone_message(vec![missing_a, missing_b], 5, 1_000);
    tangle.insert(milestone_id, milestone, false);
    tangle.add_milestone(MilestoneIndex(5), MilestoneId(5), milestone_id);
    let mut requested = RequestedMessages::new();
    let mut next = MilestoneIndex(1);
    let requests = trigger_solidification_unchecked(&tangle, &mut requested, MilestoneIndex(5), &mut next, 0);
    assert_eq!(requests.len(), 2);
    let asked: Vec<u64> = requests.iter().map(|r| r.id.0).collect();
    assert!(asked.contains(&missing_a.0));
    assert!(asked.contains(&missing_b.0));
    assert_eq!(next, MilestoneIndex(6));
    assert!(!tangle.is_solid_message(&milestone_id));

    // both ancestors arrive and solidify on their own
    tangle.insert(missing_a, plain_message(vec![sep]), true);
    tangle.insert(missing_b, plain_message(vec![sep]), true);
    requested.remove(&missing_a);
    requested.remove(&missing_b);
    tangle.propagate_solidity();
    assert!(tangle.is_solid_message(&missing_a));
    assert!(tangle.is_solid_message(&missing_b));
    // a later pass finds the milestone solid
    assert!(tangle.is_solid_message(&milestone_id));
    let mut requested_again = RequestedMessages::new();
    let mut next_again = MilestoneIndex(5);
    let retrigger = trigger_solidification_unchecked(
        &tangle,
        &mut requested_again,
        MilestoneIndex(5),
        &mut next_again,
        0,
    );
    assert_eq!(retrigger.len(), 0);
    assert_eq!(next_again, MilestoneIndex(6));
}

#[test]
fn solid_flag_is_never_cleared() {
    let mut tangle = Tangle::new();
    let sep = MessageId(1);
    tangle.add_solid_entry_point(sep, MilestoneIndex(0));
    let id = MessageId(10);
    tangle.insert(id, plain_message(vec![sep]), false);
    tangle.propagate_solidity();
    assert!(tangle.is_solid_message(&id));
    tangle.reference_message(id, MilestoneIndex(3), ConflictReason::NoConflict);
    assert!(tangle.is_solid_message(&id));
    tangle.mark_milestone(id);
    assert!(tangle.is_solid_message(&id));
    tangle.propagate_solidity();
    assert!(tangle.is_solid_message(&id));
}

#[test]
fn insert_is_idempotent_and_requests_are_deduplicated() {
    let mut tangle = Tangle::new();
    let sep = MessageId(1);
    tangle.add_solid_entry_point(sep, MilestoneIndex(0));
    let id = MessageId(10);
    assert!(tangle.insert(id, plain_message(vec![sep]), false));
    assert!(!tangle.insert(id, plain_message(vec![sep]), false));
    assert!(tangle.contains(&id));

    let mut requested = RequestedMessages::new();
    let absent = MessageId(77);
    let first = request_message(&tangle, &mut requested, absent, MilestoneIndex(5), 0);
    assert!(first.is_some());
    let second = request_message(&tangle, &mut requested, absent, MilestoneIndex(5), 1);
    assert!(second.is_none());
    assert_eq!(requested.len(), 1);
    // present and entry-point ids are never requested
    assert!(request_message(&tangle, &mut requested, id, MilestoneIndex(5), 2).is_none());
    assert!(request_message(&tangle, &mut requested, sep, MilestoneIndex(5), 3).is_none());
}

#[test]
fn white_flag_includes_first_spender_and_flags_the_second() {
    let mut tangle = Tangle::new();
    let sep = MessageId(1);
    tangle.add_solid_entry_point(sep, MilestoneIndex(0));
    let x = genesis_output_id(900);
    let mut ledger = seeded_ledger(0, &[x]);

    let a = MessageId(10);
    let b = MessageId(11);
    tangle.insert(a, transaction_message(vec![sep], 21, vec![x], 1), false);
    tangle.insert(b, transaction_message(vec![sep], 22, vec![x], 1), false);
    let milestone_id = MessageId(50);
    tangle.insert(milestone_id, milestone_message(vec![a, b], 1, 5_000), false);
    tangle.add_milestone(MilestoneIndex(1), MilestoneId(1), milestone_id);

    let (event, _batch) = ledger.confirm(&mut tangle, milestone_id).unwrap();
    assert_eq!(event.index, MilestoneIndex(1));
    assert_eq!(event.referenced_messages, 3);
    assert_eq!(event.included_messages, vec![a]);
    assert_eq!(event.excluded_conflicting_messages, vec![(b, ConflictReason::InputAlreadySpent)]);
    assert_eq!(event.excluded_no_transaction_messages, vec![milestone_id]);
    assert_eq!(event.created_outputs, 1);
    assert_eq!(event.consumed_outputs, 1);

    // the spent input moved to the consumed records, the new output is live
    assert!(!ledger.is_unspent(&x));
    assert!(ledger.fetch_consumed_output(&x).is_some());
    let created = OutputId { transaction_id: TransactionId(21), index: 0 };
    assert!(ledger.is_unspent(&created));
    // conflict classification reached the metadata
    let metadata_b = tangle.get_metadata(&b).unwrap();
    assert_eq!(metadata_b.conflict(), ConflictReason::InputAlreadySpent);
    assert_eq!(metadata_b.milestone_index(), Some(MilestoneIndex(1)));
    let metadata_a = tangle.get_metadata(&a).unwrap();
    assert_eq!(metadata_a.conflict(), ConflictReason::NoConflict);
}

#[test]
fn confirmation_is_rejected_out_of_order() {
    let mut tangle = Tangle::new();
    let sep = MessageId(1);
    tangle.add_solid_entry_point(sep, MilestoneIndex(0));
    let mut ledger = seeded_ledger(0, &[genesis_output_id(900)]);

    let milestone_two = MessageId(60);
    tangle.insert(milestone_two, milestone_message(vec![sep], 2, 6_000), false);
    tangle.add_milestone(MilestoneIndex(2), MilestoneId(2), milestone_two);

    let before = ledger.ledger_index();
    let rejected = ledger.confirm(&mut tangle, milestone_two);
    assert_eq!(rejected.unwrap_err(), Error::NonContiguousMilestones { current: 0, passed: 2 });
    assert_eq!(ledger.ledger_index(), before);
    assert!(ledger.is_unspent(&genesis_output_id(900)));
    assert!(tangle.get_metadata(&milestone_two).unwrap().milestone_index().is_none());
}

#[test]
fn confirmations_advance_strictly_in_order_and_replay_matches() {
    let mut tangle = Tangle::new();
    let sep = MessageId(1);
    tangle.add_solid_entry_point(sep, MilestoneIndex(0));
    let x = genesis_output_id(900);
    let y = genesis_output_id(901);
    let mut ledger = seeded_ledger(0, &[x, y]);

    let a = MessageId(10);
    tangle.insert(a, transaction_message(vec![sep], 21, vec![x], 2), false);
    let milestone_one = MessageId(50);
    tangle.insert(milestone_one, milestone_message(vec![a], 1, 5_000), false);
    tangle.add_milestone(MilestoneIndex(1), MilestoneId(1), milestone_one);
    ledger.confirm(&mut tangle, milestone_one).unwrap();
    assert_eq!(ledger.ledger_index().0, MilestoneIndex(1));

    // a second milestone spends an output created by the first
    let created = OutputId { transaction_id: TransactionId(21), index: 1 };
    let b = MessageId(11);
    tangle.insert(b, transaction_message(vec![milestone_one], 22, vec![created, y], 1), false);
    let milestone_two = MessageId(60);
    tangle.insert(milestone_two, milestone_message(vec![b], 2, 6_000), false);
    tangle.add_milestone(MilestoneIndex(2), MilestoneId(2), milestone_two);
    // repeating the first milestone is rejected
    assert!(ledger.confirm(&mut tangle, milestone_one).is_err());
    ledger.confirm(&mut tangle, milestone_two).unwrap();
    assert_eq!(ledger.ledger_index().0, MilestoneIndex(2));

    // the recorded diffs carry consecutive indices
    let first = ledger.fetch_output_diff(MilestoneIndex(1)).unwrap();
    assert_eq!(first.milestone_index(), MilestoneIndex(1));
    let second = ledger.fetch_output_diff(MilestoneIndex(2)).unwrap();
    assert_eq!(second.milestone_index(), MilestoneIndex(2));
    assert!(ledger.fetch_output_diff(MilestoneIndex(3)).is_none());

    // replaying the diffs from the genesis outputs reproduces the state
    let mut unspent: std::collections::HashSet<u128> = [x, y].iter().map(|o| o.key()).collect();
    let mut consumed: std::collections::HashSet<u128> = std::collections::HashSet::new();
    for index in [1u32, 2u32] {
        let diff = ledger.fetch_output_diff(MilestoneIndex(index)).unwrap();
        for id in diff.created_outputs() {
            unspent.insert(id.key());
        }
        for id in diff.consumed_outputs() {
            unspent.remove(&id.key());
            consumed.insert(id.key());
        }
    }
    for key in &unspent {
        assert!(consumed.iter().all(|c| c != key));
    }
    let all: Vec<OutputId> = vec![
        x,
        y,
        OutputId { transaction_id: TransactionId(21), index: 0 },
        OutputId { transaction_id: TransactionId(21), index: 1 },
        OutputId { transaction_id: TransactionId(22), index: 0 },
    ];
    for id in &all {
        assert_eq!(unspent.contains(&id.key()), ledger.is_unspent(id));
        assert_eq!(consumed.contains(&id.key()), ledger.fetch_consumed_output(id).is_some());
    }
}

#[test]
fn confirmation_waits_for_a_complete_cone() {
    let mut tangle = Tangle::new();
    let sep = MessageId(1);
    tangle.add_solid_entry_point(sep, MilestoneIndex(0));
    let mut ledger = seeded_ledger(0, &[genesis_output_id(900)]);
    let missing = MessageId(33);
    let milestone_one = MessageId(50);
    tangle.insert(milestone_one, milestone_message(vec![missing], 1, 5_000), false);
    let rejected = ledger.confirm(&mut tangle, milestone_one);
    assert_eq!(rejected.unwrap_err(), Error::MissingMessage(missing));
    assert_eq!(ledger.ledger_index().0, MilestoneIndex(0));
}

#[test]
fn solidifier_queue_promotes_strictly_in_order() {
    let mut tangle = Tangle::new();
    let sep = MessageId(1);
    tangle.add_solid_entry_point(sep, MilestoneIndex(0));
    for index in 1u32..=3 {
        let id = MessageId(40 + index as u64);
        tangle.insert(id, milestone_message(vec![sep], index, 1_000 * index as u64), false);
        tangle.add_milestone(MilestoneIndex(index), MilestoneId(index as u64), id);
    }
    let mut requested = RequestedMessages::new();
    let mut solidifier = MilestoneSolidifier::new(10, MilestoneIndex(0));
    // index 3 arrives early and stays queued
    solidifier.handle_new_milestone(&tangle, &mut requested, MilestoneIndex(3), 0);
    assert_eq!(solidifier.next_ms, MilestoneIndex(1));
    assert_eq!(solidifier.queue.len(), 1);
    // once 1 and 2 arrive, the queue drains in order through 3
    solidifier.handle_new_milestone(&tangle, &mut requested, MilestoneIndex(2), 0);
    assert_eq!(solidifier.next_ms, MilestoneIndex(1));
    solidifier.handle_new_milestone(&tangle, &mut requested, MilestoneIndex(1), 0);
    assert_eq!(solidifier.next_ms, MilestoneIndex(4));
    assert_eq!(solidifier.queue.len(), 0);
}

#[test]
fn recreating_a_known_output_id_is_conflicting() {
    let mut tangle = Tangle::new();
    let sep = MessageId(1);
    tangle.add_solid_entry_point(sep, MilestoneIndex(0));
    let x = genesis_output_id(900);
    let y = genesis_output_id(901);
    let mut ledger = seeded_ledger(0, &[x, y]);

    let a = MessageId(10);
    tangle.insert(a, transaction_message(vec![sep], 21, vec![x], 1), false);
    let milestone_one = MessageId(50);
    tangle.insert(milestone_one, milestone_message(vec![a], 1, 5_000), false);
    ledger.confirm(&mut tangle, milestone_one).unwrap();

    // a second transaction reuses the transaction id, so its outputs
    // would recreate (21, 0)
    let b = MessageId(11);
    tangle.insert(b, transaction_message(vec![milestone_one], 21, vec![y], 1), false);
    let milestone_two = MessageId(60);
    tangle.insert(milestone_two, milestone_message(vec![b], 2, 6_000), false);
    let (event, _batch) = ledger.confirm(&mut tangle, milestone_two).unwrap();
    assert_eq!(event.excluded_conflicting_messages, vec![(b, ConflictReason::DuplicateOutput)]);
    assert!(ledger.is_unspent(&y));
}

#[test]
fn non_transaction_payloads_are_metadata_only() {
    let mut tangle = Tangle::new();
    let sep = MessageId(1);
    tangle.add_solid_entry_point(sep, MilestoneIndex(0));
    let mut ledger = seeded_ledger(0, &[genesis_output_id(900)]);

    let tagged = MessageId(10);
    let payload = Payload::from_tagged_data(
        bee_core::payload::TaggedDataPayload::new(vec![1], vec![2, 3]).unwrap(),
    );
    tangle.insert(
        tagged,
        Message::new(vec![sep], bee_core::payload::OptionalPayload::some(payload), 0).unwrap(),
        false,
    );
    let milestone_one = MessageId(50);
    tangle.insert(milestone_one, milestone_message(vec![tagged], 1, 5_000), false);
    let (event, _batch) = ledger.confirm(&mut tangle, milestone_one).unwrap();
    assert_eq!(event.included_messages.len(), 0);
    assert_eq!(event.excluded_conflicting_messages.len(), 0);
    assert_eq!(event.excluded_no_transaction_messages, vec![tagged, milestone_one]);
    assert!(ledger.is_unspent(&genesis_output_id(900)));
    assert_eq!(event.created_outputs, 0);
    assert_eq!(event.consumed_outputs, 0);
}

#[test]
fn spending_an_unknown_output_is_conflicting() {
    let mut tangle = Tangle::new();
    let sep = MessageId(1);
    tangle.add_solid_entry_point(sep, MilestoneIndex(0));
    let mut ledger = seeded_ledger(0, &[genesis_output_id(900)]);
    let phantom = OutputId { transaction_id: TransactionId(555), index: 3 };
    let a = MessageId(10);
    tangle.insert(a, transaction_message(vec![sep], 21, vec![phantom], 1), false);
    let milestone_one = MessageId(50);
    tangle.insert(milestone_one, milestone_message(vec![a], 1, 5_000), false);
    let (event, _batch) = ledger.confirm(&mut tangle, milestone_one).unwrap();
    assert_eq!(event.excluded_conflicting_messages, vec![(a, ConflictReason::InputNotFound)]);
}

#[test]
fn an_output_created_earlier_in_the_batch_can_be_spent_later() {
    let mut tangle = Tangle::new();
    let sep = MessageId(1);
    tangle.add_solid_entry_point(sep, MilestoneIndex(0));
    let x = genesis_output_id(900);
    let mut ledger = seeded_ledger(0, &[x]);
    let a = MessageId(10);
    tangle.insert(a, transaction_message(vec![sep], 21, vec![x], 1), false);
    let fresh = OutputId { transaction_id: TransactionId(21), index: 0 };
    let b = MessageId(11);
    tangle.insert(b, transaction_message(vec![a], 22, vec![fresh], 1), false);
    let milestone_one = MessageId(50);
    tangle.insert(milestone_one, milestone_message(vec![b], 1, 5_000), false);
    let (event, _batch) = ledger.confirm(&mut tangle, milestone_one).unwrap();
    assert_eq!(event.included_messages, vec![a, b]);
    assert!(!ledger.is_unspent(&fresh));
    assert!(ledger.fetch_consumed_output(&fresh).is_some());
    assert!(ledger.is_unspent(&OutputId { transaction_id: TransactionId(22), index: 0 }));
}
