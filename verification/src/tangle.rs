//! The tangle: the DAG of messages with their metadata, milestone
//! bookkeeping and the solidity fixpoint.

use vstd::prelude::*;

use std::collections::HashMap;

use crate::message::{Message, MessageMetadata};
use crate::payload::MilestonePayload;
use crate::types::{ConflictReason, MessageId, MilestoneId, MilestoneIndex};

verus! {

broadcast use {vstd::std_specs::hash::group_hash_axioms, vstd::seq_lib::group_seq_properties};

/// Metadata fields the solidity fixpoint may change; everything else it
/// leaves alone.
pub open spec fn same_but_solidity(a: MessageMetadata, b: MessageMetadata) -> bool {
    &&& b.milestone_index == a.milestone_index
    &&& b.conflict == a.conflict
    &&& b.flags.requested == a.flags.requested
    &&& b.flags.milestone == a.flags.milestone
}

/// In-memory DAG of messages and their metadata, with milestone-index
/// bookkeeping. The only store shared by the solidifier and the ledger.
pub struct Tangle {
    /// Messages by identifier word.
    pub messages: HashMap<u64, Message>,
    /// Metadata of each stored message.
    pub metadata: HashMap<u64, MessageMetadata>,
    /// Identifiers in insertion order; the scan order of the solidity pass.
    pub order: Vec<MessageId>,
    /// Message id of each known milestone, by milestone index.
    pub milestones: HashMap<u32, MessageId>,
    /// Message id of each known milestone, by milestone identifier word.
    pub milestone_ids: HashMap<u64, MessageId>,
    /// Historical roots: ancestor solidity below them is assumed, at the
    /// recorded milestone index.
    pub solid_entry_points: HashMap<u64, MilestoneIndex>,
    /// Highest milestone index seen so far.
    pub latest_milestone_index: MilestoneIndex,
    /// Highest milestone index whose cone is fully solid.
    pub latest_solid_milestone_index: MilestoneIndex,
    /// Highest milestone index confirmed by the ledger.
    pub confirmed_milestone_index: MilestoneIndex,
    /// Index below which history was pruned.
    pub pruning_index: MilestoneIndex,
}

impl Tangle {
    /// Whether a message with this identifier word is stored.
    pub open spec fn has_message(self, k: u64) -> bool {
        self.messages@.contains_key(k)
    }

    /// Whether this identifier word is a solid entry point.
    pub open spec fn is_sep(self, k: u64) -> bool {
        self.solid_entry_points@.contains_key(k)
    }

    /// The stored message under this identifier word.
    pub open spec fn msg_of(self, k: u64) -> Message {
        self.messages@[k]
    }

    /// The stored metadata under this identifier word.
    pub open spec fn meta_of(self, k: u64) -> MessageMetadata {
        self.metadata@[k]
    }

    /// Solid as a key: a solid entry point, or a stored message whose solid
    /// flag is set.
    pub open spec fn is_solid_key(self, k: u64) -> bool {
        self.is_sep(k) || (self.has_message(k) && self.meta_of(k).is_solid_spec())
    }

    /// Every parent of the stored message under `k` is solid.
    pub open spec fn parents_solid(self, k: u64) -> bool {
        forall|i: int|
            0 <= i < self.msg_of(k).parents@.len() ==> self.is_solid_key(
                (#[trigger] self.msg_of(k).parents@[i]).0,
            )
    }

    /// The insertion log as identifier words.
    pub open spec fn order_keys(self) -> Seq<u64> {
        self.order@.map_values(|m: MessageId| m.0)
    }

    /// Stored messages that are not yet solid.
    pub open spec fn unsolid_set(self) -> Set<u64> {
        self.messages@.dom().filter(|k: u64| !self.meta_of(k).is_solid_spec())
    }

    /// Well-formedness: metadata exactly beside messages, entry points
    /// disjoint from stored messages, stored messages admissible, the
    /// insertion log an exact enumeration of the store, and solidity sound:
    /// a solid message has all parents solid, with its cone indices set.
    pub open spec fn wf(self) -> bool {
        &&& self.metadata@.dom() == self.messages@.dom()
        &&& forall|k: u64| #[trigger] self.has_message(k) ==> !self.is_sep(k)
        &&& forall|k: u64| #[trigger] self.has_message(k) ==> self.msg_of(k).is_valid()
        &&& self.order_keys().no_duplicates()
        &&& self.order_keys().to_set() == self.messages@.dom()
        &&& forall|k: u64|
            self.has_message(k) && (#[trigger] self.meta_of(k)).is_solid_spec() ==> self.parents_solid(k)
                && self.meta_of(k).omrsi_spec() is Some && self.meta_of(k).ymrsi_spec() is Some
    }

    /// An empty tangle.
    pub fn new() -> (r: Tangle)
        ensures
            r.wf(),
            r.messages@ == Map::<u64, Message>::empty(),
            r.metadata@ == Map::<u64, MessageMetadata>::empty(),
            r.milestones@ == Map::<u32, MessageId>::empty(),
            r.milestone_ids@ == Map::<u64, MessageId>::empty(),
            r.solid_entry_points@ == Map::<u64, MilestoneIndex>::empty(),
            r.order@ == Seq::<MessageId>::empty(),
            r.latest_milestone_index == (MilestoneIndex(0)),
            r.latest_solid_milestone_index == (MilestoneIndex(0)),
            r.confirmed_milestone_index == (MilestoneIndex(0)),
            r.pruning_index == (MilestoneIndex(0)),
    {
        let r = Tangle {
            messages: HashMap::new(),
            metadata: HashMap::new(),
            order: Vec::new(),
            milestones: HashMap::new(),
            milestone_ids: HashMap::new(),
            solid_entry_points: HashMap::new(),
            latest_milestone_index: MilestoneIndex(0),
            latest_solid_milestone_index: MilestoneIndex(0),
            confirmed_milestone_index: MilestoneIndex(0),
            pruning_index: MilestoneIndex(0),
        };
        proof {
            assert(r.order_keys() =~= Seq::<u64>::empty());
            assert(r.order_keys().to_set() =~= r.messages@.dom());
        }
        r
    }

    /// Records a solid entry point at the given index. Accepted only for an
    /// identifier that carries no stored message.
    pub fn add_solid_entry_point(&mut self, id: MessageId, index: MilestoneIndex)
        requires
            old(self).wf(),
            !old(self).has_message(id.0),
        ensures
            final(self).wf(),
            final(self).solid_entry_points@ == old(self).solid_entry_points@.insert(id.0, index),
            final(self).messages@ == old(self).messages@,
            final(self).metadata@ == old(self).metadata@,
            final(self).order@ == old(self).order@,
            final(self).milestones@ == old(self).milestones@,
            final(self).milestone_ids@ == old(self).milestone_ids@,
            final(self).latest_milestone_index == old(self).latest_milestone_index,
            final(self).latest_solid_milestone_index == old(self).latest_solid_milestone_index,
            final(self).confirmed_milestone_index == old(self).confirmed_milestone_index,
            final(self).pruning_index == old(self).pruning_index,
    {
        self.solid_entry_points.insert(id.0, index);
        proof {
            assert forall|k: u64| #[trigger] self.has_message(k) implies !self.is_sep(k) && self.msg_of(
                k,
            ).is_valid() by {
                assert(old(self).has_message(k));
                assert(k != id.0);
            }
            assert forall|k: u64|
                self.has_message(k) && (#[trigger] self.meta_of(k)).is_solid_spec() implies self.parents_solid(k)
                && self.meta_of(k).omrsi_spec() is Some && self.meta_of(k).ymrsi_spec() is Some by {
                assert(old(self).has_message(k));
                assert(old(self).meta_of(k) == self.meta_of(k));
                assert(old(self).meta_of(k).is_solid_spec());
                assert(old(self).parents_solid(k));
                assert forall|i: int| 0 <= i < self.msg_of(k).parents@.len() implies self.is_solid_key(
                    (#[trigger] self.msg_of(k).parents@[i]).0,
                ) by {
                    assert(old(self).is_solid_key(old(self).msg_of(k).parents@[i].0));
                }
            }
        }
    }

    /// Whether the identifier is a solid entry point.
    pub fn is_solid_entry_point(&self, id: &MessageId) -> (r: bool)
        ensures
            r == self.is_sep(id.0),
    {
        self.solid_entry_points.contains_key(&id.0)
    }

    /// Whether a message with this identifier is stored.
    pub fn contains(&self, id: &MessageId) -> (r: bool)
        ensures
            r == self.has_message(id.0),
    {
        self.messages.contains_key(&id.0)
    }

    /// Inserts a message under its identifier. Idempotent: a second insert
    /// of an identifier already stored (or recorded as an entry point)
    /// changes nothing and reports `false`.
    pub fn insert(&mut self, id: MessageId, message: Message, requested: bool) -> (r: bool)
        requires
            old(self).wf(),
            message.is_valid(),
        ensures
            final(self).wf(),
            old(self).has_message(id.0) || old(self).is_sep(id.0) ==> r == false && *final(self) == *old(self),
            !(old(self).has_message(id.0) || old(self).is_sep(id.0)) ==> r == true && final(self).messages@ == old(
                self,
            ).messages@.insert(id.0, message) && final(self).metadata@ == old(self).metadata@.insert(
                id.0,
                MessageMetadata::new_spec(requested),
            ) && final(self).order@ == old(self).order@.push(id),
            final(self).milestones@ == old(self).milestones@,
            final(self).milestone_ids@ == old(self).milestone_ids@,
            final(self).solid_entry_points@ == old(self).solid_entry_points@,
            final(self).latest_milestone_index == old(self).latest_milestone_index,
            final(self).latest_solid_milestone_index == old(self).latest_solid_milestone_index,
            final(self).confirmed_milestone_index == old(self).confirmed_milestone_index,
            final(self).pruning_index == old(self).pruning_index,
            forall|k: u64| #[trigger]
                old(self).has_message(k) ==> final(self).has_message(k) && final(self).meta_of(k) == old(
                    self,
                ).meta_of(k),
    {
        if self.messages.contains_key(&id.0) || self.solid_entry_points.contains_key(&id.0) {
            return false;
        }
        self.messages.insert(id.0, message);
        self.metadata.insert(id.0, MessageMetadata::new(requested));
        self.order.push(id);
        proof {
            assert(self.order_keys() =~= old(self).order_keys().push(id.0));
            assert(!old(self).order_keys().contains(id.0)) by {
                if old(self).order_keys().contains(id.0) {
                    assert(old(self).order_keys().to_set().contains(id.0));
                }
            }
            assert(self.order_keys().no_duplicates()) by {
                let ks = self.order_keys();
                let old_ks = old(self).order_keys();
                assert forall|i: int, j: int| 0 <= i < j < ks.len() implies ks[i] != ks[j] by {
                    if j == ks.len() - 1 && ks[i] == ks[j] {
                        assert(old_ks[i] == id.0);
                        assert(old_ks.contains(id.0));
                    }
                }
            }
            assert(self.order_keys().to_set() =~= self.messages@.dom()) by {
                let ks = self.order_keys();
                let old_ks = old(self).order_keys();
                assert forall|x: u64| #[trigger] ks.to_set().contains(x) implies self.messages@.dom().contains(
                    x,
                ) by {
                    let i = choose|i: int| 0 <= i < ks.len() && ks[i] == x;
                    if i < old_ks.len() {
                        assert(old_ks[i] == x);
                        assert(old_ks.contains(x));
                        assert(old_ks.to_set().contains(x));
                    }
                }
                assert forall|x: u64| #[trigger] self.messages@.dom().contains(x) implies ks.to_set().contains(
                    x,
                ) by {
                    if x == id.0 {
                        assert(ks[ks.len() - 1] == x);
                        assert(ks.contains(x));
                    } else {
                        assert(old_ks.to_set().contains(x));
                        let i = choose|i: int| 0 <= i < old_ks.len() && old_ks[i] == x;
                        assert(ks[i] == x);
                        assert(ks.contains(x));
                    }
                }
            }
            assert(self.metadata@.dom() =~= self.messages@.dom());
            assert forall|k: u64| #[trigger] self.has_message(k) implies !self.is_sep(k) && self.msg_of(
                k,
            ).is_valid() by {
                if k != id.0 {
                    assert(old(self).has_message(k));
                }
            }
            assert forall|k: u64|
                self.has_message(k) && (#[trigger] self.meta_of(k)).is_solid_spec() implies self.parents_solid(k)
                && self.meta_of(k).omrsi_spec() is Some && self.meta_of(k).ymrsi_spec() is Some by {
                assert(k != id.0);
                assert(old(self).has_message(k));
                assert(old(self).meta_of(k) == self.meta_of(k));
                assert(old(self).meta_of(k).is_solid_spec());
                assert(old(self).parents_solid(k));
                assert forall|i: int| 0 <= i < self.msg_of(k).parents@.len() implies self.is_solid_key(
                    (#[trigger] self.msg_of(k).parents@[i]).0,
                ) by {
                    assert(old(self).is_solid_key(old(self).msg_of(k).parents@[i].0));
                }
            }
        }
        true
    }

    /// The stored message under this identifier, if any.
    pub fn get(&self, id: &MessageId) -> (r: Option<&Message>)
        ensures
            match r {
                Some(m) => self.has_message(id.0) && *m == self.msg_of(id.0),
                None => !self.has_message(id.0),
            },
    {
        self.messages.get(&id.0)
    }

    /// The metadata of the stored message under this identifier, if any.
    pub fn get_metadata(&self, id: &MessageId) -> (r: Option<MessageMetadata>)
        requires
            self.wf(),
        ensures
            match r {
                Some(m) => self.has_message(id.0) && m == self.meta_of(id.0),
                None => !self.has_message(id.0),
            },
    {
        match self.metadata.get(&id.0) {
            Some(m) => Some(*m),
            None => None,
        }
    }

    /// The stored message and its metadata, if any.
    pub fn get_message_and_metadata(&self, id: &MessageId) -> (r: Option<(&Message, MessageMetadata)>)
        requires
            self.wf(),
        ensures
            match r {
                Some(p) => self.has_message(id.0) && *p.0 == self.msg_of(id.0) && p.1 == self.meta_of(id.0),
                None => !self.has_message(id.0),
            },
    {
        match (self.messages.get(&id.0), self.metadata.get(&id.0)) {
            (Some(m), Some(d)) => Some((m, *d)),
            _ => None,
        }
    }

    /// Whether the identifier is solid: an entry point, or a stored message
    /// whose solid flag is set.
    pub fn is_solid_message(&self, id: &MessageId) -> (r: bool)
        requires
            self.wf(),
        ensures
            r == self.is_solid_key(id.0),
    {
        if self.solid_entry_points.contains_key(&id.0) {
            true
        } else {
            match self.metadata.get(&id.0) {
                Some(m) => m.flags().is_solid(),
                None => false,
            }
        }
    }

    /// The milestone payload stored under a milestone identifier, if the
    /// registered message is present and carries one.
    pub open spec fn milestone_payload_of(self, milestone_id: MilestoneId) -> Option<MilestonePayload> {
        if self.milestone_ids@.contains_key(milestone_id.0) && self.has_message(
            self.milestone_ids@[milestone_id.0].0,
        ) {
            match self.msg_of(self.milestone_ids@[milestone_id.0].0).payload_spec().option_spec() {
                Some(p) => match p {
                    crate::payload::Payload::Milestone(m) => Some(*m),
                    _ => None,
                },
                _ => None,
            }
        } else {
            None
        }
    }

    /// Registers a known milestone under its index and identifier, and
    /// advances the latest-known pointer if the index is ahead of it.
    pub fn add_milestone(&mut self, index: MilestoneIndex, milestone_id: MilestoneId, message_id: MessageId)
        requires
            old(self).wf(),
        ensures
            final(self).wf(),
            final(self).milestones@ == old(self).milestones@.insert(index.0, message_id),
            final(self).milestone_ids@ == old(self).milestone_ids@.insert(milestone_id.0, message_id),
            final(self).latest_milestone_index.0 == if index.0 > old(self).latest_milestone_index.0 {
                index.0
            } else {
                old(self).latest_milestone_index.0
            },
            final(self).messages@ == old(self).messages@,
            final(self).metadata@ == old(self).metadata@,
            final(self).order@ == old(self).order@,
            final(self).solid_entry_points@ == old(self).solid_entry_points@,
            final(self).latest_solid_milestone_index == old(self).latest_solid_milestone_index,
            final(self).confirmed_milestone_index == old(self).confirmed_milestone_index,
            final(self).pruning_index == old(self).pruning_index,
    {
        self.milestones.insert(index.0, message_id);
        self.milestone_ids.insert(milestone_id.0, message_id);
        if index.0 > self.latest_milestone_index.0 {
            self.latest_milestone_index = index;
        }
        proof {
            lemma_wf_metadata_update(*old(self), *self);
        }
    }

    /// Whether a milestone at this index is known.
    pub fn contains_milestone(&self, index: MilestoneIndex) -> (r: bool)
        ensures
            r == self.milestones@.contains_key(index.0),
    {
        self.milestones.contains_key(&index.0)
    }

    /// The message id of the milestone at this index, if known.
    pub fn get_milestone_message_id(&self, index: MilestoneIndex) -> (r: Option<MessageId>)
        ensures
            match r {
                Some(m) => self.milestones@.contains_key(index.0) && m == self.milestones@[index.0],
                None => !self.milestones@.contains_key(index.0),
            },
    {
        match self.milestones.get(&index.0) {
            Some(m) => Some(*m),
            None => None,
        }
    }

    /// The milestone payload registered under this milestone identifier.
    pub fn get_milestone(&self, milestone_id: MilestoneId) -> (r: Option<&MilestonePayload>)
        requires
            self.wf(),
        ensures
            match r {
                Some(p) => self.milestone_payload_of(milestone_id) == Some(*p),
                None => self.milestone_payload_of(milestone_id) is None,
            },
    {
        match self.milestone_ids.get(&milestone_id.0) {
            Some(message_id) => match self.messages.get(&message_id.0) {
                Some(message) => match message.payload().as_option() {
                    Some(crate::payload::Payload::Milestone(m)) => Some(&**m),
                    _ => None,
                },
                None => None,
            },
            None => None,
        }
    }

    /// The highest milestone index seen so far.
    pub fn get_latest_milestone_index(&self) -> (r: MilestoneIndex)
        ensures
            r == self.latest_milestone_index,
    {
        self.latest_milestone_index
    }

    /// The highest milestone index whose cone is fully solid.
    pub fn get_latest_solid_milestone_index(&self) -> (r: MilestoneIndex)
        ensures
            r == self.latest_solid_milestone_index,
    {
        self.latest_solid_milestone_index
    }

    /// Advances the latest-solid pointer. Callers only ever pass a strictly
    /// increasing value.
    pub fn update_latest_solid_milestone_index(&mut self, index: MilestoneIndex)
        requires
            old(self).wf(),
            index.0 > old(self).latest_solid_milestone_index.0,
        ensures
            final(self).wf(),
            *final(self) == (Tangle { latest_solid_milestone_index: index, ..*old(self) }),
    {
        self.latest_solid_milestone_index = index;
        proof {
            lemma_wf_metadata_update(*old(self), *self);
        }
    }

    /// The highest milestone index confirmed by the ledger.
    pub fn get_confirmed_milestone_index(&self) -> (r: MilestoneIndex)
        ensures
            r == self.confirmed_milestone_index,
    {
        self.confirmed_milestone_index
    }

    /// Advances the confirmed pointer. Callers only ever pass a strictly
    /// increasing value.
    pub fn update_confirmed_milestone_index(&mut self, index: MilestoneIndex)
        requires
            old(self).wf(),
            index.0 > old(self).confirmed_milestone_index.0,
        ensures
            final(self).wf(),
            *final(self) == (Tangle { confirmed_milestone_index: index, ..*old(self) }),
    {
        self.confirmed_milestone_index = index;
        proof {
            lemma_wf_metadata_update(*old(self), *self);
        }
    }

    /// The index below which history was pruned.
    pub fn get_pruning_index(&self) -> (r: MilestoneIndex)
        ensures
            r == self.pruning_index,
    {
        self.pruning_index
    }

    /// True exactly when the confirmed pointer is within `threshold`
    /// milestones of the latest known one.
    pub fn is_confirmed_threshold(&self, threshold: u32) -> (r: bool)
        ensures
            r == (self.confirmed_milestone_index.0 + threshold >= self.latest_milestone_index.0),
    {
        if self.latest_milestone_index.0 <= threshold {
            true
        } else {
            self.confirmed_milestone_index.0 >= self.latest_milestone_index.0 - threshold
        }
    }

    /// Records that the message is referenced by the milestone at `index`,
    /// with its conflict classification. The solid flag is untouched.
    pub fn reference_message(&mut self, id: MessageId, index: MilestoneIndex, conflict: ConflictReason)
        requires
            old(self).wf(),
            old(self).has_message(id.0),
        ensures
            final(self).wf(),
            final(self).metadata@ == old(self).metadata@.insert(
                id.0,
                MessageMetadata {
                    milestone_index: Some(index),
                    conflict,
                    ..old(self).meta_of(id.0)
                },
            ),
            final(self).messages@ == old(self).messages@,
            final(self).order@ == old(self).order@,
            final(self).milestones@ == old(self).milestones@,
            final(self).milestone_ids@ == old(self).milestone_ids@,
            final(self).solid_entry_points@ == old(self).solid_entry_points@,
            final(self).latest_milestone_index == old(self).latest_milestone_index,
            final(self).latest_solid_milestone_index == old(self).latest_solid_milestone_index,
            final(self).confirmed_milestone_index == old(self).confirmed_milestone_index,
            final(self).pruning_index == old(self).pruning_index,
            final(self).meta_of(id.0).is_solid_spec() == old(self).meta_of(id.0).is_solid_spec(),
    {
        let mut md = *self.metadata.get(&id.0).unwrap();
        md.reference(index);
        md.set_conflict(conflict);
        self.metadata.insert(id.0, md);
        proof {
            assert(self.metadata@.dom() =~= old(self).metadata@.dom());
            lemma_wf_metadata_update(*old(self), *self);
        }
    }

    /// Sets the milestone flag of a stored message's metadata. The solid
    /// flag is untouched.
    pub fn mark_milestone(&mut self, id: MessageId)
        requires
            old(self).wf(),
            old(self).has_message(id.0),
        ensures
            final(self).wf(),
            final(self).metadata@ == old(self).metadata@.insert(
                id.0,
                MessageMetadata {
                    flags: crate::message::Flags { milestone: true, ..old(self).meta_of(id.0).flags },
                    ..old(self).meta_of(id.0)
                },
            ),
            final(self).messages@ == old(self).messages@,
            final(self).order@ == old(self).order@,
            final(self).milestones@ == old(self).milestones@,
            final(self).milestone_ids@ == old(self).milestone_ids@,
            final(self).solid_entry_points@ == old(self).solid_entry_points@,
            final(self).latest_milestone_index == old(self).latest_milestone_index,
            final(self).latest_solid_milestone_index == old(self).latest_solid_milestone_index,
            final(self).confirmed_milestone_index == old(self).confirmed_milestone_index,
            final(self).pruning_index == old(self).pruning_index,
            final(self).meta_of(id.0).is_solid_spec() == old(self).meta_of(id.0).is_solid_spec(),
    {
        let mut md = *self.metadata.get(&id.0).unwrap();
        md.mark_milestone();
        self.metadata.insert(id.0, md);
        proof {
            assert(self.metadata@.dom() =~= old(self).metadata@.dom());
            lemma_wf_metadata_update(*old(self), *self);
        }
    }

    /// Runs the solidity fixpoint: repeatedly marks solid every stored
    /// message all of whose parents are solid, until no further message
    /// qualifies. Solidity is discovered bottom-up, as each message's
    /// parents complete; a solid flag once set is never cleared.
    pub fn propagate_solidity(&mut self)
        requires
            old(self).wf(),
        ensures
            final(self).wf(),
            final(self).messages@ == old(self).messages@,
            final(self).order@ == old(self).order@,
            final(self).milestones@ == old(self).milestones@,
            final(self).milestone_ids@ == old(self).milestone_ids@,
            final(self).solid_entry_points@ == old(self).solid_entry_points@,
            final(self).latest_milestone_index == old(self).latest_milestone_index,
            final(self).latest_solid_milestone_index == old(self).latest_solid_milestone_index,
            final(self).confirmed_milestone_index == old(self).confirmed_milestone_index,
            final(self).pruning_index == old(self).pruning_index,
            final(self).metadata@.dom() == old(self).metadata@.dom(),
            forall|k: u64|
                old(self).has_message(k) ==> same_but_solidity(
                    #[trigger] old(self).meta_of(k),
                    final(self).meta_of(k),
                ),
            forall|k: u64|
                old(self).has_message(k) && (#[trigger] old(self).meta_of(k)).is_solid_spec()
                    ==> final(self).meta_of(k).is_solid_spec(),
            forall|k: u64| #[trigger]
                final(self).has_message(k) && final(self).parents_solid(k)
                    ==> final(self).meta_of(k).is_solid_spec(),
    {
        let ghost orig = *self;
        let mut changed = true;
        while changed
            invariant
                self.wf(),
                self.messages@ == orig.messages@,
                self.order@ == orig.order@,
                self.milestones@ == orig.milestones@,
                self.milestone_ids@ == orig.milestone_ids@,
                self.solid_entry_points@ == orig.solid_entry_points@,
                self.latest_milestone_index == orig.latest_milestone_index,
                self.latest_solid_milestone_index == orig.latest_solid_milestone_index,
                self.confirmed_milestone_index == orig.confirmed_milestone_index,
                self.pruning_index == orig.pruning_index,
                self.metadata@.dom() == orig.metadata@.dom(),
                forall|k: u64|
                    orig.has_message(k) ==> same_but_solidity(#[trigger] orig.meta_of(k), self.meta_of(k)),
                forall|k: u64|
                    orig.has_message(k) && (#[trigger] orig.meta_of(k)).is_solid_spec() ==> self.meta_of(
                        k,
                    ).is_solid_spec(),
                !changed ==> forall|k: u64| #[trigger]
                    self.has_message(k) && self.parents_solid(k) ==> self.meta_of(k).is_solid_spec(),
            decreases self.unsolid_set().len() + if changed { 1int } else { 0int },
        {
            let ghost pass_start = *self;
            changed = false;
            let mut i: usize = 0;
            while i < self.order.len()
                invariant
                    self.wf(),
                    self.messages@ == orig.messages@,
                    self.order@ == orig.order@,
                    self.milestones@ == orig.milestones@,
                    self.milestone_ids@ == orig.milestone_ids@,
                    self.solid_entry_points@ == orig.solid_entry_points@,
                    self.latest_milestone_index == orig.latest_milestone_index,
                    self.latest_solid_milestone_index == orig.latest_solid_milestone_index,
                    self.confirmed_milestone_index == orig.confirmed_milestone_index,
                    self.pruning_index == orig.pruning_index,
                    self.metadata@.dom() == orig.metadata@.dom(),
                    pass_start.messages@ == orig.messages@,
                    pass_start.metadata@.dom() == orig.metadata@.dom(),
                    forall|k: u64|
                        orig.has_message(k) ==> same_but_solidity(#[trigger] orig.meta_of(k), self.meta_of(k)),
                    forall|k: u64|
                        orig.has_message(k) && (#[trigger] orig.meta_of(k)).is_solid_spec() ==> self.meta_of(
                            k,
                        ).is_solid_spec(),
                    forall|k: u64|
                        orig.has_message(k) && (#[trigger] pass_start.meta_of(k)).is_solid_spec() ==> self.meta_of(
                            k,
                        ).is_solid_spec(),
                    self.unsolid_set().len() <= pass_start.unsolid_set().len(),
                    changed ==> self.unsolid_set().len() < pass_start.unsolid_set().len(),
                    !changed ==> *self == pass_start,
                    !changed ==> forall|j: int|
                        0 <= j < i && self.has_message((#[trigger] self.order@[j]).0) && self.parents_solid(
                            self.order@[j].0,
                        ) ==> self.meta_of(self.order@[j].0).is_solid_spec(),
                decreases self.order@.len() - i,
            {
                let id = self.order[i];
                let k = id.0;
                proof {
                    assert(self.order_keys()[i as int] == k);
                    assert(self.order_keys().contains(k));
                    assert(self.order_keys().to_set().contains(k));
                    assert(self.has_message(k));
                }
                let md = *self.metadata.get(&k).unwrap();
                if !md.flags().is_solid() {
                    let n = self.messages.get(&k).unwrap().parents().len();
                    let mut all_solid = true;
                    let mut omin: u32 = u32::MAX;
                    let mut ymax: u32 = 0;
                    let mut j: usize = 0;
                    while j < n
                        invariant
                            self.wf(),
                            self.has_message(k),
                            n == self.msg_of(k).parents@.len(),
                            0 <= j <= n,
                            all_solid ==> forall|jj: int|
                                0 <= jj < j ==> self.is_solid_key((#[trigger] self.msg_of(k).parents@[jj]).0),
                            !all_solid ==> exists|jj: int|
                                0 <= jj < j && !self.is_solid_key((#[trigger] self.msg_of(k).parents@[jj]).0),
                        decreases n - j,
                    {
                        let p = self.messages.get(&k).unwrap().parents()[j];
                        match self.solid_entry_points.get(&p.0) {
                            Some(sep_index) => {
                                if sep_index.0 < omin {
                                    omin = sep_index.0;
                                }
                                if sep_index.0 > ymax {
                                    ymax = sep_index.0;
                                }
                            },
                            None => {
                                match self.metadata.get(&p.0) {
                                    Some(pm) => {
                                        if pm.flags().is_solid() {
                                            match pm.omrsi_and_ymrsi() {
                                                Some((o, y)) => {
                                                    if o.0 < omin {
                                                        omin = o.0;
                                                    }
                                                    if y.0 > ymax {
                                                        ymax = y.0;
                                                    }
                                                },
                                                None => {
                                                    all_solid = false;
                                                },
                                            }
                                        } else {
                                            all_solid = false;
                                        }
                                    },
                                    None => {
                                        all_solid = false;
                                    },
                                }
                            },
                        }
                        j += 1;
                    }
                    if all_solid {
                        let ghost before = *self;
                        let mut md2 = md;
                        md2.mark_solid(MilestoneIndex(omin), MilestoneIndex(ymax));
                        self.metadata.insert(k, md2);
                        changed = true;
                        proof {
                            assert(self.metadata@.dom() =~= before.metadata@.dom());
                            assert(before.parents_solid(k));
                            assert forall|ii: int|
                                0 <= ii < self.msg_of(k).parents@.len() implies self.is_solid_key(
                                (#[trigger] self.msg_of(k).parents@[ii]).0,
                            ) by {
                                assert(before.is_solid_key(before.msg_of(k).parents@[ii].0));
                            }
                            lemma_wf_metadata_update(before, *self);
                            assert(self.unsolid_set() =~= before.unsolid_set().remove(k));
                            assert(before.unsolid_set().contains(k));
                            vstd::set::axiom_set_remove_len(before.unsolid_set(), k);
                            assert(self.unsolid_set().len() < before.unsolid_set().len());
                        }
                    } else {
                        proof {
                            let jj = choose|jj: int|
                                0 <= jj < n && !self.is_solid_key((self.msg_of(k).parents@[jj]).0);
                            assert(!self.parents_solid(k));
                        }
                    }
                }
                i += 1;
            }
        }
    }
}

/// Well-formedness is kept by any update that leaves the store, the log and
/// the entry points alone, only ever turns solid flags on, and gives every
/// newly solid message solid parents and cone indices.
proof fn lemma_wf_metadata_update(a: Tangle, b: Tangle)
    requires
        a.wf(),
        b.messages@ == a.messages@,
        b.order@ == a.order@,
        b.solid_entry_points@ == a.solid_entry_points@,
        b.metadata@.dom() == a.metadata@.dom(),
        forall|k: u64|
            a.metadata@.dom().contains(k) ==> ((#[trigger] a.meta_of(k)).is_solid_spec() ==> b.meta_of(
                k,
            ).is_solid_spec()),
        forall|k: u64|
            a.metadata@.dom().contains(k) && (#[trigger] b.meta_of(k)).is_solid_spec() ==> ((
            a.meta_of(k).is_solid_spec() && b.meta_of(k).omrsi_spec() == a.meta_of(k).omrsi_spec()
                && b.meta_of(k).ymrsi_spec() == a.meta_of(k).ymrsi_spec()) || (b.parents_solid(k)
                && b.meta_of(k).omrsi_spec() is Some && b.meta_of(k).ymrsi_spec() is Some)),
    ensures
        b.wf(),
{
    assert forall|k: u64| #[trigger] b.has_message(k) implies !b.is_sep(k) && b.msg_of(k).is_valid() by {
        assert(a.has_message(k));
    }
    assert forall|k: u64|
        b.has_message(k) && (#[trigger] b.meta_of(k)).is_solid_spec() implies b.parents_solid(k)
        && b.meta_of(k).omrsi_spec() is Some && b.meta_of(k).ymrsi_spec() is Some by {
        assert(a.metadata@.dom().contains(k));
        if a.meta_of(k).is_solid_spec() {
            assert(a.parents_solid(k) && a.meta_of(k).omrsi_spec() is Some && a.meta_of(
                k,
            ).ymrsi_spec() is Some);
            assert forall|i: int| 0 <= i < b.msg_of(k).parents@.len() implies b.is_solid_key(
                (#[trigger] b.msg_of(k).parents@[i]).0,
            ) by {
                let p = a.msg_of(k).parents@[i].0;
                assert(a.is_solid_key(p));
                if !a.is_sep(p) {
                    assert(a.has_message(p) && a.meta_of(p).is_solid_spec());
                    assert(a.metadata@.dom().contains(p));
                    assert(b.meta_of(p).is_solid_spec());
                }
            }
            if !(b.meta_of(k).omrsi_spec() == a.meta_of(k).omrsi_spec() && b.meta_of(k).ymrsi_spec()
                == a.meta_of(k).ymrsi_spec()) {
                assert(b.meta_of(k).omrsi_spec() is Some && b.meta_of(k).ymrsi_spec() is Some);
            }
        } else {
            assert(b.parents_solid(k) && b.meta_of(k).omrsi_spec() is Some && b.meta_of(
                k,
            ).ymrsi_spec() is Some);
        }
    }
}

} // verus!
