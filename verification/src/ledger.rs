//! The white-flag confirmation engine: consumes one solid milestone at a
//! time, walks its newly referenced cone in the deterministic traversal
//! order, classifies each transaction, and applies the UTXO mutations as
//! one batch.

use vstd::prelude::*;

use std::collections::{HashMap, HashSet};

use crate::event::MilestoneConfirmed;
use crate::ledger_types::{ConsumedOutput, CreatedOutput, OutputDiff};
use crate::message::Message;
use crate::payload::{Payload, TransactionPayload};
use crate::message::MessageMetadata;
use crate::requester::RequestedMessages;
use crate::tangle::Tangle;
use crate::traversal::{descends, keys_of, reaches, visit_parents_depth_first, VisitFilter};
use crate::types::{ConflictReason, Error, LedgerIndex, MessageId, MilestoneIndex, OutputId, TransactionId};

verus! {

broadcast use {vstd::std_specs::hash::group_hash_axioms, vstd::seq_lib::group_seq_properties};

/// How white-flag classified one referenced message.
#[derive(Clone, Copy, PartialEq, Eq, Structural, Debug)]
pub enum MessageStatus {
    /// The transaction entered the ledger.
    Included,
    /// The transaction was excluded, with the reason.
    Conflicting(ConflictReason),
    /// The message carries no transaction; metadata only.
    NoTransaction,
}

impl MessageStatus {
    /// The conflict classification recorded in the message's metadata.
    pub open spec fn reason_spec(self) -> ConflictReason {
        match self {
            MessageStatus::Conflicting(r) => r,
            _ => ConflictReason::NoConflict,
        }
    }

    /// The conflict classification recorded in the message's metadata.
    pub fn reason(&self) -> (r: ConflictReason)
        ensures
            r == self.reason_spec(),
    {
        match self {
            MessageStatus::Conflicting(r) => *r,
            _ => ConflictReason::NoConflict,
        }
    }
}

/// The outcome of one milestone's white-flag pass, before it is applied.
#[derive(Debug)]
pub struct WhiteFlag {
    /// Classification of each message, parallel to the traversal order.
    pub statuses: Vec<MessageStatus>,
    /// Messages whose transactions entered the ledger, in traversal order.
    pub included: Vec<MessageId>,
    /// Messages excluded as conflicting, with reasons, in traversal order.
    pub excluded_conflicting: Vec<(MessageId, ConflictReason)>,
    /// Messages carrying no transaction, in traversal order.
    pub excluded_no_transaction: Vec<MessageId>,
    /// Outputs the batch creates, in traversal order.
    pub created: Vec<(OutputId, CreatedOutput)>,
    /// Outputs the batch consumes, in traversal order.
    pub consumed: Vec<(OutputId, ConsumedOutput)>,
}

/// The ghost state of a white-flag pass.
#[verifier::ext_equal]
pub struct WfView {
    /// Classification of each processed message.
    pub statuses: Seq<MessageStatus>,
    /// Included messages so far.
    pub included: Seq<MessageId>,
    /// Conflicting messages so far.
    pub conflicting: Seq<(MessageId, ConflictReason)>,
    /// Non-transaction messages so far.
    pub no_transaction: Seq<MessageId>,
    /// Outputs created so far.
    pub created: Seq<(OutputId, CreatedOutput)>,
    /// Outputs consumed so far.
    pub consumed: Seq<(OutputId, ConsumedOutput)>,
    /// Keys of the outputs created in this batch.
    pub created_keys: Map<u128, CreatedOutput>,
    /// Keys of the outputs consumed in this batch.
    pub spent_keys: Set<u128>,
}

/// The state before any message is processed.
pub open spec fn wf_empty() -> WfView {
    WfView {
        statuses: Seq::empty(),
        included: Seq::empty(),
        conflicting: Seq::empty(),
        no_transaction: Seq::empty(),
        created: Seq::empty(),
        consumed: Seq::empty(),
        created_keys: Map::empty(),
        spent_keys: Set::empty(),
    }
}

/// Whether an output is spendable at this point of the batch: unspent
/// before the milestone or created earlier in the batch, and not yet
/// consumed in the batch.
pub open spec fn unspent_now(bu: Set<u128>, st: WfView, key: u128) -> bool {
    (bu.contains(key) || st.created_keys.contains_key(key)) && !st.spent_keys.contains(key)
}

/// Whether an output is known to have been spent, before the milestone or
/// earlier in the batch.
pub open spec fn spent_now(bc: Set<u128>, st: WfView, key: u128) -> bool {
    bc.contains(key) || st.spent_keys.contains(key)
}

/// The first input, from position `j` on, that is not spendable: already
/// spent, or not a known unspent output.
pub open spec fn first_input_conflict(
    bu: Set<u128>,
    bc: Set<u128>,
    st: WfView,
    inputs: Seq<OutputId>,
    j: int,
) -> Option<ConflictReason>
    decreases inputs.len() - j,
{
    if j < 0 || j >= inputs.len() {
        None
    } else if !unspent_now(bu, st, inputs[j].key_spec()) {
        if spent_now(bc, st, inputs[j].key_spec()) {
            Some(ConflictReason::InputAlreadySpent)
        } else {
            Some(ConflictReason::InputNotFound)
        }
    } else {
        first_input_conflict(bu, bc, st, inputs, j + 1)
    }
}

/// Whether some output position from `j` on would recreate an output id
/// the ledger already knows, spent or unspent.
pub open spec fn has_duplicate_output(
    bu: Set<u128>,
    bc: Set<u128>,
    st: WfView,
    tx_id: TransactionId,
    n: int,
    j: int,
) -> bool
    decreases n - j,
{
    if j < 0 || j >= n {
        false
    } else {
        let key = (OutputId { transaction_id: tx_id, index: j as u16 }).key_spec();
        bu.contains(key) || st.created_keys.contains_key(key) || spent_now(bc, st, key)
            || has_duplicate_output(bu, bc, st, tx_id, n, j + 1)
    }
}

/// Consumes the transaction's inputs from position `j` on.
pub open spec fn add_inputs(st: WfView, tx: TransactionPayload, index: MilestoneIndex, ts: u64, j: int) -> WfView
    decreases tx.inputs@.len() - j,
{
    if j < 0 || j >= tx.inputs@.len() {
        st
    } else {
        let oid = tx.inputs@[j];
        let entry = ConsumedOutput { target: tx.id, index, milestone_timestamp: ts };
        let st2 = WfView {
            consumed: st.consumed.push((oid, entry)),
            spent_keys: st.spent_keys.insert(oid.key_spec()),
            ..st
        };
        add_inputs(st2, tx, index, ts, j + 1)
    }
}

/// Creates the transaction's outputs from position `j` on.
pub open spec fn add_outputs(
    st: WfView,
    tx: TransactionPayload,
    mid: MessageId,
    index: MilestoneIndex,
    ts: u64,
    j: int,
) -> WfView
    decreases tx.outputs@.len() - j,
{
    if j < 0 || j >= tx.outputs@.len() {
        st
    } else {
        let oid = OutputId { transaction_id: tx.id, index: j as u16 };
        let entry = CreatedOutput {
            message_id: mid,
            milestone_index: index,
            milestone_timestamp: ts,
            inner: tx.outputs@[j],
        };
        let st2 = WfView {
            created: st.created.push((oid, entry)),
            created_keys: st.created_keys.insert(oid.key_spec(), entry),
            ..st
        };
        add_outputs(st2, tx, mid, index, ts, j + 1)
    }
}

/// Excludes the message as conflicting.
pub open spec fn wf_conflict(st: WfView, mid: MessageId, r: ConflictReason) -> WfView {
    WfView {
        statuses: st.statuses.push(MessageStatus::Conflicting(r)),
        conflicting: st.conflicting.push((mid, r)),
        ..st
    }
}

/// Records the message as carrying no transaction.
pub open spec fn wf_no_transaction(st: WfView, mid: MessageId) -> WfView {
    WfView {
        statuses: st.statuses.push(MessageStatus::NoTransaction),
        no_transaction: st.no_transaction.push(mid),
        ..st
    }
}

/// Classifies one transaction: all inputs spendable and no output id
/// duplicated means inclusion, spending the inputs and creating the
/// outputs; otherwise exclusion with the decisive reason.
pub open spec fn wf_transaction(
    bu: Set<u128>,
    bc: Set<u128>,
    st: WfView,
    tx: TransactionPayload,
    mid: MessageId,
    index: MilestoneIndex,
    ts: u64,
) -> WfView {
    if !tx.is_valid() {
        wf_conflict(st, mid, ConflictReason::SemanticValidationFailed)
    } else {
        match first_input_conflict(bu, bc, st, tx.inputs@, 0) {
            Some(r) => wf_conflict(st, mid, r),
            None => if has_duplicate_output(bu, bc, st, tx.id, tx.outputs@.len() as int, 0) {
                wf_conflict(st, mid, ConflictReason::DuplicateOutput)
            } else {
                let st1 = add_inputs(st, tx, index, ts, 0);
                let st2 = add_outputs(st1, tx, mid, index, ts, 0);
                WfView {
                    statuses: st2.statuses.push(MessageStatus::Included),
                    included: st2.included.push(mid),
                    ..st2
                }
            },
        }
    }
}

/// Processes one referenced message.
pub open spec fn wf_message(
    msgs: Map<u64, Message>,
    bu: Set<u128>,
    bc: Set<u128>,
    st: WfView,
    mid: MessageId,
    index: MilestoneIndex,
    ts: u64,
) -> WfView {
    match msgs[mid.0].payload_spec().option_spec() {
        Some(p) => match p {
            Payload::Transaction(tx) => wf_transaction(bu, bc, st, *tx, mid, index, ts),
            _ => wf_no_transaction(st, mid),
        },
        None => wf_no_transaction(st, mid),
    }
}

/// The state after the first `n` messages of the traversal order: the
/// mathematical meaning of one white-flag pass.
pub open spec fn wf_fold(
    msgs: Map<u64, Message>,
    bu: Set<u128>,
    bc: Set<u128>,
    order: Seq<MessageId>,
    n: int,
    index: MilestoneIndex,
    ts: u64,
) -> WfView
    decreases n,
{
    if n <= 0 {
        wf_empty()
    } else {
        wf_message(msgs, bu, bc, wf_fold(msgs, bu, bc, order, n - 1, index, ts), order[n - 1], index, ts)
    }
}

/// Packs the walk's working data into its ghost state.
pub open spec fn pack_view(
    statuses: Seq<MessageStatus>,
    included: Seq<MessageId>,
    conflicting: Seq<(MessageId, ConflictReason)>,
    no_transaction: Seq<MessageId>,
    created: Seq<(OutputId, CreatedOutput)>,
    consumed: Seq<(OutputId, ConsumedOutput)>,
    created_keys: Map<u128, CreatedOutput>,
    spent_keys: Set<u128>,
) -> WfView {
    WfView { statuses, included, conflicting, no_transaction, created, consumed, created_keys, spent_keys }
}

/// The ledger: the unspent-output state, the spend records, and the diff
/// of every confirmed milestone, advanced strictly one milestone at a time.
pub struct Ledger {
    /// The milestone index the ledger started from.
    pub genesis_index: u32,
    /// The milestone index through which the state is fully applied.
    pub ledger_index: u32,
    /// Unspent outputs by output-id key.
    pub unspent: HashMap<u128, CreatedOutput>,
    /// Spend records by output-id key.
    pub consumed: HashMap<u128, ConsumedOutput>,
    /// Every output ever booked, spent or not, by output-id key.
    pub created_store: HashMap<u128, CreatedOutput>,
    /// Output ids the ledger started from.
    pub genesis_outputs: Vec<OutputId>,
    /// The UTXO diff of each confirmed milestone, in confirmation order.
    pub diffs: Vec<OutputDiff>,
}

/// The unspent and consumed key sets that replaying the given diffs over a
/// base unspent set yields.
pub open spec fn replay(base: Set<u128>, ds: Seq<OutputDiff>) -> (Set<u128>, Set<u128>)
    decreases ds.len(),
{
    if ds.len() == 0 {
        (base, Set::empty())
    } else {
        let prev = replay(base, ds.drop_last());
        let d = ds.last();
        (prev.0.union(d.created_keys()).difference(d.consumed_keys()), prev.1.union(d.consumed_keys()))
    }
}

impl Ledger {
    /// Keys of the outputs the ledger started from.
    pub open spec fn genesis_keys(self) -> Set<u128> {
        self.genesis_outputs@.map_values(|o: OutputId| o.key_spec()).to_set()
    }

    /// Well-formedness. The diff list records one milestone per entry,
    /// consecutively from the genesis index; no output is both unspent and
    /// consumed; and replaying all diffs from the genesis outputs yields
    /// exactly the live unspent and consumed key sets.
    pub open spec fn wf(self) -> bool {
        &&& self.ledger_index as int == self.genesis_index as int + self.diffs@.len()
        &&& forall|i: int|
            0 <= i < self.diffs@.len() ==> (#[trigger] self.diffs@[i]).index.0 as int == self.genesis_index
                + 1 + i
        &&& self.unspent@.dom().disjoint(self.consumed@.dom())
        &&& replay(self.genesis_keys(), self.diffs@) == (self.unspent@.dom(), self.consumed@.dom())
        &&& forall|k: u128| #[trigger]
            self.unspent@.dom().contains(k) ==> self.created_store@.dom().contains(k)
                && self.created_store@[k] == self.unspent@[k]
        &&& self.created_store@.dom() == self.unspent@.dom().union(self.consumed@.dom())
    }

    /// An empty ledger starting at the given milestone index.
    pub fn new(genesis_index: MilestoneIndex) -> (r: Ledger)
        ensures
            r.wf(),
            r.genesis_index == genesis_index.0,
            r.ledger_index == genesis_index.0,
            r.unspent@ == Map::<u128, CreatedOutput>::empty(),
            r.consumed@ == Map::<u128, ConsumedOutput>::empty(),
            r.created_store@ == Map::<u128, CreatedOutput>::empty(),
            r.genesis_outputs@ == Seq::<OutputId>::empty(),
            r.diffs@ == Seq::<OutputDiff>::empty(),
    {
        let r = Ledger {
            genesis_index: genesis_index.0,
            ledger_index: genesis_index.0,
            unspent: HashMap::new(),
            consumed: HashMap::new(),
            created_store: HashMap::new(),
            genesis_outputs: Vec::new(),
            diffs: Vec::new(),
        };
        proof {
            assert(r.genesis_keys() =~= Set::<u128>::empty());
            assert(replay(r.genesis_keys(), r.diffs@).0 =~= r.unspent@.dom());
            assert(replay(r.genesis_keys(), r.diffs@).1 =~= r.consumed@.dom());
            assert(r.created_store@.dom() =~= r.unspent@.dom().union(r.consumed@.dom()));
        }
        r
    }

    /// The milestone index through which the state is fully applied.
    pub fn ledger_index(&self) -> (r: LedgerIndex)
        ensures
            r == LedgerIndex(MilestoneIndex(self.ledger_index)),
    {
        LedgerIndex(MilestoneIndex(self.ledger_index))
    }

    /// Books an output the ledger starts from, before any confirmation.
    pub fn add_genesis_output(&mut self, output_id: OutputId, output: CreatedOutput)
        requires
            old(self).wf(),
            old(self).diffs@.len() == 0,
            !old(self).unspent@.dom().contains(output_id.key_spec()),
        ensures
            final(self).wf(),
            final(self).unspent@ == old(self).unspent@.insert(output_id.key_spec(), output),
            final(self).created_store@ == old(self).created_store@.insert(output_id.key_spec(), output),
            final(self).genesis_outputs@ == old(self).genesis_outputs@.push(output_id),
            final(self).consumed@ == old(self).consumed@,
            final(self).diffs@ == old(self).diffs@,
            final(self).ledger_index == old(self).ledger_index,
            final(self).genesis_index == old(self).genesis_index,
    {
        let key = output_id.key();
        self.unspent.insert(key, output);
        self.created_store.insert(key, output);
        self.genesis_outputs.push(output_id);
        proof {
            assert(self.genesis_keys() =~= old(self).genesis_keys().insert(output_id.key_spec())) by {
                let ks = self.genesis_outputs@.map_values(|o: OutputId| o.key_spec());
                let old_ks = old(self).genesis_outputs@.map_values(|o: OutputId| o.key_spec());
                assert(ks =~= old_ks.push(output_id.key_spec()));
                assert forall|x: u128| #[trigger] ks.to_set().contains(x) implies old_ks.to_set().insert(
                    output_id.key_spec(),
                ).contains(x) by {
                    let i = choose|i: int| 0 <= i < ks.len() && ks[i] == x;
                    if i < old_ks.len() {
                        assert(old_ks[i] == x);
                        assert(old_ks.contains(x));
                    }
                }
                assert forall|x: u128|
                    old_ks.to_set().insert(output_id.key_spec()).contains(x) implies #[trigger] ks.to_set().contains(
                    x,
                ) by {
                    if old_ks.to_set().contains(x) {
                        let i = choose|i: int| 0 <= i < old_ks.len() && old_ks[i] == x;
                        assert(ks[i] == x);
                        assert(ks.contains(x));
                    } else {
                        assert(ks[ks.len() - 1] == x);
                        assert(ks.contains(x));
                    }
                }
            }
            assert(replay(self.genesis_keys(), self.diffs@).0 =~= self.unspent@.dom());
            assert(replay(self.genesis_keys(), self.diffs@).1 =~= self.consumed@.dom());
            assert(self.created_store@.dom() =~= self.unspent@.dom().union(self.consumed@.dom()));
        }
    }

    /// The booked output under this id, spent or not.
    pub fn fetch_output(&self, output_id: &OutputId) -> (r: Option<&CreatedOutput>)
        ensures
            match r {
                Some(o) => self.created_store@.dom().contains(output_id.key_spec()) && *o
                    == self.created_store@[output_id.key_spec()],
                None => !self.created_store@.dom().contains(output_id.key_spec()),
            },
    {
        let key = output_id.key();
        self.created_store.get(&key)
    }

    /// The spend record under this output id, if the output was consumed.
    pub fn fetch_consumed_output(&self, output_id: &OutputId) -> (r: Option<&ConsumedOutput>)
        ensures
            match r {
                Some(o) => self.consumed@.dom().contains(output_id.key_spec()) && *o
                    == self.consumed@[output_id.key_spec()],
                None => !self.consumed@.dom().contains(output_id.key_spec()),
            },
    {
        let key = output_id.key();
        self.consumed.get(&key)
    }

    /// Whether the output is currently unspent.
    pub fn is_unspent(&self, output_id: &OutputId) -> (r: bool)
        ensures
            r == self.unspent@.dom().contains(output_id.key_spec()),
    {
        let key = output_id.key();
        self.unspent.contains_key(&key)
    }

    /// The UTXO diff of the milestone at this index, if it was confirmed
    /// here.
    pub fn fetch_output_diff(&self, index: MilestoneIndex) -> (r: Option<&OutputDiff>)
        requires
            self.wf(),
        ensures
            match r {
                Some(d) => self.genesis_index < index.0 <= self.ledger_index && *d == self.diffs@[index.0
                    - self.genesis_index - 1],
                None => !(self.genesis_index < index.0 <= self.ledger_index),
            },
    {
        if self.genesis_index < index.0 && index.0 <= self.ledger_index {
            let at = (index.0 - self.genesis_index - 1) as usize;
            Some(&self.diffs[at])
        } else {
            None
        }
    }

    /// Finds the first unspendable input of the transaction, if any, at
    /// this point of the batch.
    fn find_input_conflict(
        &self,
        created_keys: &HashMap<u128, CreatedOutput>,
        spent_keys: &HashSet<u128>,
        tx: &TransactionPayload,
        Ghost(st0): Ghost<WfView>,
    ) -> (r: Option<ConflictReason>)
        requires
            created_keys@ == st0.created_keys,
            spent_keys@ == st0.spent_keys,
        ensures
            r == first_input_conflict(self.unspent@.dom(), self.consumed@.dom(), st0, tx.inputs@, 0),
    {
        let ghost bu = self.unspent@.dom();
        let ghost bc = self.consumed@.dom();
        let mut conflict: Option<ConflictReason> = None;
        let mut j: usize = 0;
        while j < tx.inputs.len()
            invariant
                created_keys@ == st0.created_keys,
                spent_keys@ == st0.spent_keys,
                bu == self.unspent@.dom(),
                bc == self.consumed@.dom(),
                0 <= j <= tx.inputs@.len(),
                conflict is None ==> first_input_conflict(bu, bc, st0, tx.inputs@, 0)
                    == first_input_conflict(bu, bc, st0, tx.inputs@, j as int),
                conflict is Some ==> first_input_conflict(bu, bc, st0, tx.inputs@, 0) == conflict,
            decreases tx.inputs@.len() - j,
        {
            if conflict.is_none() {
                let key = tx.inputs[j].key();
                let spendable = (self.unspent.contains_key(&key) || created_keys.contains_key(&key))
                    && !spent_keys.contains(&key);
                if !spendable {
                    if self.consumed.contains_key(&key) || spent_keys.contains(&key) {
                        conflict = Some(ConflictReason::InputAlreadySpent);
                    } else {
                        conflict = Some(ConflictReason::InputNotFound);
                    }
                }
            }
            j += 1;
        }
        conflict
    }

    /// Whether some output of the transaction would recreate a known
    /// output id, at this point of the batch.
    fn find_duplicate_output(
        &self,
        created_keys: &HashMap<u128, CreatedOutput>,
        spent_keys: &HashSet<u128>,
        tx: &TransactionPayload,
        Ghost(st0): Ghost<WfView>,
    ) -> (r: bool)
        requires
            created_keys@ == st0.created_keys,
            spent_keys@ == st0.spent_keys,
        ensures
            r == has_duplicate_output(
                self.unspent@.dom(),
                self.consumed@.dom(),
                st0,
                tx.id,
                tx.outputs@.len() as int,
                0,
            ),
    {
        let ghost bu = self.unspent@.dom();
        let ghost bc = self.consumed@.dom();
        let n = tx.outputs.len();
        let mut dup = false;
        let mut j: usize = 0;
        while j < n
            invariant
                created_keys@ == st0.created_keys,
                spent_keys@ == st0.spent_keys,
                bu == self.unspent@.dom(),
                bc == self.consumed@.dom(),
                n == tx.outputs@.len(),
                0 <= j <= n,
                !dup ==> has_duplicate_output(bu, bc, st0, tx.id, n as int, 0) == has_duplicate_output(
                    bu,
                    bc,
                    st0,
                    tx.id,
                    n as int,
                    j as int,
                ),
                dup ==> has_duplicate_output(bu, bc, st0, tx.id, n as int, 0),
            decreases n - j,
        {
            if !dup {
                let oid = OutputId { transaction_id: tx.id, index: (j as u16) };
                let key = oid.key();
                if self.unspent.contains_key(&key) || created_keys.contains_key(&key)
                    || self.consumed.contains_key(&key) || spent_keys.contains(&key) {
                    dup = true;
                }
            }
            j += 1;
        }
        dup
    }

    /// Runs the white-flag pass over the traversal order of one milestone's
    /// newly referenced cone: classifies every message and collects the
    /// batch of UTXO mutations, without touching the ledger state.
    ///
    /// The result is exactly [`wf_fold`] over the order: deterministic for
    /// a fixed snapshot, so confirmation is reproducible across nodes.
    pub fn white_flag(&self, tangle: &Tangle, order: &Vec<MessageId>, index: MilestoneIndex, timestamp: u64) -> (r:
        WhiteFlag)
        requires
            tangle.wf(),
            forall|i: int| 0 <= i < order@.len() ==> tangle.has_message((#[trigger] order@[i]).0),
        ensures
            ({
                let v = wf_fold(
                    tangle.messages@,
                    self.unspent@.dom(),
                    self.consumed@.dom(),
                    order@,
                    order@.len() as int,
                    index,
                    timestamp,
                );
                &&& r.statuses@ == v.statuses
                &&& r.included@ == v.included
                &&& r.excluded_conflicting@ == v.conflicting
                &&& r.excluded_no_transaction@ == v.no_transaction
                &&& r.created@ == v.created
                &&& r.consumed@ == v.consumed
            }),
    {
        let ghost msgs = tangle.messages@;
        let ghost bu = self.unspent@.dom();
        let ghost bc = self.consumed@.dom();
        let mut statuses: Vec<MessageStatus> = Vec::new();
        let mut included: Vec<MessageId> = Vec::new();
        let mut excluded_conflicting: Vec<(MessageId, ConflictReason)> = Vec::new();
        let mut excluded_no_transaction: Vec<MessageId> = Vec::new();
        let mut created: Vec<(OutputId, CreatedOutput)> = Vec::new();
        let mut consumed: Vec<(OutputId, ConsumedOutput)> = Vec::new();
        let mut created_keys: HashMap<u128, CreatedOutput> = HashMap::new();
        let mut spent_keys: HashSet<u128> = HashSet::new();
        proof {
            assert(pack_view(
                statuses@,
                included@,
                excluded_conflicting@,
                excluded_no_transaction@,
                created@,
                consumed@,
                created_keys@,
                spent_keys@,
            ) =~= wf_empty());
        }
        let mut i: usize = 0;
        while i < order.len()
            invariant
                tangle.wf(),
                msgs == tangle.messages@,
                bu == self.unspent@.dom(),
                bc == self.consumed@.dom(),
                forall|ii: int| 0 <= ii < order@.len() ==> tangle.has_message((#[trigger] order@[ii]).0),
                0 <= i <= order@.len(),
                pack_view(
                    statuses@,
                    included@,
                    excluded_conflicting@,
                    excluded_no_transaction@,
                    created@,
                    consumed@,
                    created_keys@,
                    spent_keys@,
                ) == wf_fold(msgs, bu, bc, order@, i as int, index, timestamp),
            decreases order@.len() - i,
        {
            let ghost st0 = wf_fold(msgs, bu, bc, order@, i as int, index, timestamp);
            let id = order[i];
            let message = tangle.get(&id).unwrap();
            match message.payload().as_option() {
                Some(Payload::Transaction(boxed_tx)) => {
                    let tx: &TransactionPayload = &*boxed_tx;
                    let ghost txg = *tx;
                    let valid = crate::payload::transaction_structurally_valid(tx);
                    if !valid {
                        statuses.push(MessageStatus::Conflicting(ConflictReason::SemanticValidationFailed));
                        excluded_conflicting.push((id, ConflictReason::SemanticValidationFailed));
                        proof {
                            assert(pack_view(
                                statuses@,
                                included@,
                                excluded_conflicting@,
                                excluded_no_transaction@,
                                created@,
                                consumed@,
                                created_keys@,
                                spent_keys@,
                            ) =~= wf_message(msgs, bu, bc, st0, id, index, timestamp));
                        }
                    } else {
                        let conflict = self.find_input_conflict(&created_keys, &spent_keys, tx, Ghost(st0));
                        match conflict {
                            Some(reason) => {
                                statuses.push(MessageStatus::Conflicting(reason));
                                excluded_conflicting.push((id, reason));
                                proof {
                                    assert(pack_view(
                                        statuses@,
                                        included@,
                                        excluded_conflicting@,
                                        excluded_no_transaction@,
                                        created@,
                                        consumed@,
                                        created_keys@,
                                        spent_keys@,
                                    ) =~= wf_message(msgs, bu, bc, st0, id, index, timestamp));
                                }
                            },
                            None => {
                                let dup = self.find_duplicate_output(&created_keys, &spent_keys, tx, Ghost(st0));
                                if dup {
                                    statuses.push(MessageStatus::Conflicting(ConflictReason::DuplicateOutput));
                                    excluded_conflicting.push((id, ConflictReason::DuplicateOutput));
                                    proof {
                                        assert(pack_view(
                                            statuses@,
                                            included@,
                                            excluded_conflicting@,
                                            excluded_no_transaction@,
                                            created@,
                                            consumed@,
                                            created_keys@,
                                            spent_keys@,
                                        ) =~= wf_message(msgs, bu, bc, st0, id, index, timestamp));
                                    }
                                } else {
                                    let mut j: usize = 0;
                                    let n_in = tx.inputs.len();
                                    while j < n_in
                                        invariant
                                            n_in == txg.inputs@.len(),
                                            0 <= j <= n_in,
                                            tx.inputs@ == txg.inputs@,
                                            tx.id == txg.id,
                                            add_inputs(
                                                pack_view(
                                                    statuses@,
                                                    included@,
                                                    excluded_conflicting@,
                                                    excluded_no_transaction@,
                                                    created@,
                                                    consumed@,
                                                    created_keys@,
                                                    spent_keys@,
                                                ),
                                                txg,
                                                index,
                                                timestamp,
                                                j as int,
                                            ) == add_inputs(st0, txg, index, timestamp, 0),
                                        decreases n_in - j,
                                    {
                                        let ghost before = pack_view(
                                            statuses@,
                                            included@,
                                            excluded_conflicting@,
                                            excluded_no_transaction@,
                                            created@,
                                            consumed@,
                                            created_keys@,
                                            spent_keys@,
                                        );
                                        let oid = tx.inputs[j];
                                        let entry = ConsumedOutput::new(tx.id, index, timestamp);
                                        consumed.push((oid, entry));
                                        let key = oid.key();
                                        spent_keys.insert(key);
                                        j += 1;
                                        proof {
                                            let after = pack_view(
                                                statuses@,
                                                included@,
                                                excluded_conflicting@,
                                                excluded_no_transaction@,
                                                created@,
                                                consumed@,
                                                created_keys@,
                                                spent_keys@,
                                            );
                                            assert(after =~= (WfView {
                                                consumed: before.consumed.push((oid, entry)),
                                                spent_keys: before.spent_keys.insert(oid.key_spec()),
                                                ..before
                                            }));
                                            assert(add_inputs(before, txg, index, timestamp, j - 1)
                                                == add_inputs(after, txg, index, timestamp, j as int));
                                        }
                                    }
                                    let ghost st1 = add_inputs(st0, txg, index, timestamp, 0);
                                    let mut jo: usize = 0;
                                    let n_out = tx.outputs.len();
                                    proof {
                                        assert(txg.is_valid());
                                        assert(n_out <= 128);
                                    }
                                    while jo < n_out
                                        invariant
                                            n_out == txg.outputs@.len(),
                                            n_out <= 128,
                                            0 <= jo <= n_out,
                                            tx.outputs@ == txg.outputs@,
                                            tx.id == txg.id,
                                            id == id,
                                            add_outputs(
                                                pack_view(
                                                    statuses@,
                                                    included@,
                                                    excluded_conflicting@,
                                                    excluded_no_transaction@,
                                                    created@,
                                                    consumed@,
                                                    created_keys@,
                                                    spent_keys@,
                                                ),
                                                txg,
                                                id,
                                                index,
                                                timestamp,
                                                jo as int,
                                            ) == add_outputs(st1, txg, id, index, timestamp, 0),
                                        decreases n_out - jo,
                                    {
                                        let ghost before = pack_view(
                                            statuses@,
                                            included@,
                                            excluded_conflicting@,
                                            excluded_no_transaction@,
                                            created@,
                                            consumed@,
                                            created_keys@,
                                            spent_keys@,
                                        );
                                        let oid = OutputId { transaction_id: tx.id, index: (jo as u16) };
                                        let entry = CreatedOutput::new(id, index, timestamp, tx.outputs[jo]);
                                        created.push((oid, entry));
                                        let key = oid.key();
                                        created_keys.insert(key, entry);
                                        jo += 1;
                                        proof {
                                            let after = pack_view(
                                                statuses@,
                                                included@,
                                                excluded_conflicting@,
                                                excluded_no_transaction@,
                                                created@,
                                                consumed@,
                                                created_keys@,
                                                spent_keys@,
                                            );
                                            assert(oid == (OutputId {
                                                transaction_id: txg.id,
                                                index: ((jo - 1) as u16),
                                            }));
                                            assert(after =~= (WfView {
                                                created: before.created.push((oid, entry)),
                                                created_keys: before.created_keys.insert(oid.key_spec(), entry),
                                                ..before
                                            }));
                                            assert(add_outputs(before, txg, id, index, timestamp, jo - 1)
                                                == add_outputs(after, txg, id, index, timestamp, jo as int));
                                        }
                                    }
                                    statuses.push(MessageStatus::Included);
                                    included.push(id);
                                    proof {
                                        let after = pack_view(
                                            statuses@,
                                            included@,
                                            excluded_conflicting@,
                                            excluded_no_transaction@,
                                            created@,
                                            consumed@,
                                            created_keys@,
                                            spent_keys@,
                                        );
                                        let st2 = add_outputs(st1, txg, id, index, timestamp, 0);
                                        assert(after =~= (WfView {
                                            statuses: st2.statuses.push(MessageStatus::Included),
                                            included: st2.included.push(id),
                                            ..st2
                                        }));
                                        assert(after =~= wf_message(msgs, bu, bc, st0, id, index, timestamp));
                                    }
                                }
                            },
                        }
                    }
                },
                _ => {
                    statuses.push(MessageStatus::NoTransaction);
                    excluded_no_transaction.push(id);
                    proof {
                        assert(pack_view(
                            statuses@,
                            included@,
                            excluded_conflicting@,
                            excluded_no_transaction@,
                            created@,
                            consumed@,
                            created_keys@,
                            spent_keys@,
                        ) =~= wf_message(msgs, bu, bc, st0, id, index, timestamp));
                    }
                },
            }
            i += 1;
        }
        WhiteFlag { statuses, included, excluded_conflicting, excluded_no_transaction, created, consumed }
    }
}


/// Keys of the output ids standing in the pairs from position `j` on.
pub open spec fn pair_keys_from<T>(s: Seq<(OutputId, T)>, j: int) -> Set<u128> {
    Set::new(|k: u128| exists|jj: int| j <= jj < s.len() && (#[trigger] s[jj]).0.key_spec() == k)
}

/// Internal consistency of a white-flag state: the key collections match
/// the entry lists, no created key collides with a consumed one, and every
/// consumed key was spendable when consumed.
pub open spec fn wf_consistent(bu: Set<u128>, bc: Set<u128>, v: WfView) -> bool {
    &&& v.created_keys.dom() == v.created.map_values(|p: (OutputId, CreatedOutput)| p.0.key_spec()).to_set()
    &&& v.spent_keys == v.consumed.map_values(|p: (OutputId, ConsumedOutput)| p.0.key_spec()).to_set()
    &&& forall|j: int| 0 <= j < v.created.len() ==> !bc.contains((#[trigger] v.created[j]).0.key_spec())
    &&& forall|j: int|
        0 <= j < v.consumed.len() ==> bu.contains((#[trigger] v.consumed[j]).0.key_spec())
            || v.created_keys.dom().contains(v.consumed[j].0.key_spec())
}

/// The key of the output a transaction creates at a position.
pub open spec fn out_key(tx_id: TransactionId, jj: int) -> u128 {
    (OutputId { transaction_id: tx_id, index: jj as u16 }).key_spec()
}

/// When no input conflicts from `j` on, every input from `j` on is
/// spendable.
proof fn lemma_fic_none_all(bu: Set<u128>, bc: Set<u128>, st: WfView, inputs: Seq<OutputId>, j: int)
    requires
        0 <= j,
        first_input_conflict(bu, bc, st, inputs, j) is None,
    ensures
        forall|jj: int| j <= jj < inputs.len() ==> unspent_now(bu, st, (#[trigger] inputs[jj]).key_spec()),
    decreases inputs.len() - j,
{
    if 0 <= j < inputs.len() {
        assert(unspent_now(bu, st, inputs[j].key_spec()));
        lemma_fic_none_all(bu, bc, st, inputs, j + 1);
        assert forall|jj: int| j <= jj < inputs.len() implies unspent_now(
            bu,
            st,
            (#[trigger] inputs[jj]).key_spec(),
        ) by {
            if jj > j {
                assert(unspent_now(bu, st, inputs[jj].key_spec()));
            }
        }
    }
}

/// When no output duplicates from `j` on, no output key from `j` on is
/// known to the ledger or the batch.
proof fn lemma_no_dup_all(bu: Set<u128>, bc: Set<u128>, st: WfView, tx_id: TransactionId, n: int, j: int)
    requires
        0 <= j,
        !has_duplicate_output(bu, bc, st, tx_id, n, j),
    ensures
        forall|jj: int|
            j <= jj < n ==> !bu.contains(#[trigger] out_key(tx_id, jj)) && !st.created_keys.contains_key(
                out_key(tx_id, jj),
            ) && !spent_now(bc, st, out_key(tx_id, jj)),
    decreases n - j,
{
    if 0 <= j < n {
        assert(!bu.contains(out_key(tx_id, j)) && !st.created_keys.contains_key(out_key(tx_id, j))
            && !spent_now(bc, st, out_key(tx_id, j)));
        lemma_no_dup_all(bu, bc, st, tx_id, n, j + 1);
        assert forall|jj: int| j <= jj < n implies !bu.contains(#[trigger] out_key(tx_id, jj))
            && !st.created_keys.contains_key(out_key(tx_id, jj)) && !spent_now(
            bc,
            st,
            out_key(tx_id, jj),
        ) by {
            if jj > j {
                assert(!bu.contains(out_key(tx_id, jj)));
            }
        }
    }
}

/// What consuming the inputs changes and what it leaves alone.
proof fn lemma_add_inputs_props(
    bu: Set<u128>,
    bc: Set<u128>,
    st: WfView,
    tx: TransactionPayload,
    index: MilestoneIndex,
    ts: u64,
    j: int,
)
    requires
        wf_consistent(bu, bc, st),
        forall|jj: int| j <= jj < tx.inputs@.len() ==> unspent_now(bu, st, (#[trigger] tx.inputs@[jj]).key_spec()),
        forall|a: int, b: int| j <= a < b < tx.inputs@.len() ==> tx.inputs@[a] != tx.inputs@[b],
    ensures
        ({
            let v = add_inputs(st, tx, index, ts, j);
            &&& v.statuses == st.statuses
            &&& v.included == st.included
            &&& v.conflicting == st.conflicting
            &&& v.no_transaction == st.no_transaction
            &&& v.created == st.created
            &&& v.created_keys == st.created_keys
            &&& wf_consistent(bu, bc, v)
        }),
    decreases tx.inputs@.len() - j,
{
    if j < 0 || j >= tx.inputs@.len() {
    } else {
        let oid = tx.inputs@[j];
        let entry = ConsumedOutput { target: tx.id, index, milestone_timestamp: ts };
        let st2 = WfView {
            consumed: st.consumed.push((oid, entry)),
            spent_keys: st.spent_keys.insert(oid.key_spec()),
            ..st
        };
        assert(wf_consistent(bu, bc, st2)) by {
            let olds = st.consumed.map_values(|p: (OutputId, ConsumedOutput)| p.0.key_spec());
            let news = st2.consumed.map_values(|p: (OutputId, ConsumedOutput)| p.0.key_spec());
            assert(news =~= olds.push(oid.key_spec()));
            assert(st2.spent_keys =~= news.to_set()) by {
                assert forall|x: u128| #[trigger] news.to_set().contains(x) implies st2.spent_keys.contains(
                    x,
                ) by {
                    let i = choose|i: int| 0 <= i < news.len() && news[i] == x;
                    if i < olds.len() {
                        assert(olds[i] == x);
                        assert(olds.contains(x));
                        assert(olds.to_set().contains(x));
                    }
                }
                assert forall|x: u128| st2.spent_keys.contains(x) implies #[trigger] news.to_set().contains(
                    x,
                ) by {
                    if x == oid.key_spec() {
                        assert(news[news.len() - 1] == x);
                        assert(news.contains(x));
                    } else {
                        assert(olds.to_set().contains(x));
                        let i = choose|i: int| 0 <= i < olds.len() && olds[i] == x;
                        assert(news[i] == x);
                        assert(news.contains(x));
                    }
                }
            }
            assert(unspent_now(bu, st, oid.key_spec()));
            assert forall|jj: int|
                0 <= jj < st2.consumed.len() implies bu.contains(
                (#[trigger] st2.consumed[jj]).0.key_spec(),
            ) || st2.created_keys.dom().contains(st2.consumed[jj].0.key_spec()) by {
                if jj < st.consumed.len() {
                    assert(st2.consumed[jj] == st.consumed[jj]);
                }
            }
        }
        assert forall|jj: int| j + 1 <= jj < tx.inputs@.len() implies unspent_now(
            bu,
            st2,
            (#[trigger] tx.inputs@[jj]).key_spec(),
        ) by {
            assert(unspent_now(bu, st, tx.inputs@[jj].key_spec()));
            assert(tx.inputs@[jj] != tx.inputs@[j]);
            crate::types::lemma_output_key_injective(tx.inputs@[jj], tx.inputs@[j]);
        }
        lemma_add_inputs_props(bu, bc, st2, tx, index, ts, j + 1);
    }
}

/// What creating the outputs changes and what it leaves alone.
proof fn lemma_add_outputs_props(
    bu: Set<u128>,
    bc: Set<u128>,
    st: WfView,
    tx: TransactionPayload,
    mid: MessageId,
    index: MilestoneIndex,
    ts: u64,
    j: int,
)
    requires
        wf_consistent(bu, bc, st),
        forall|jj: int| j <= jj < tx.outputs@.len() ==> !bc.contains(#[trigger] out_key(tx.id, jj)),
    ensures
        ({
            let v = add_outputs(st, tx, mid, index, ts, j);
            &&& v.statuses == st.statuses
            &&& v.included == st.included
            &&& v.conflicting == st.conflicting
            &&& v.no_transaction == st.no_transaction
            &&& v.consumed == st.consumed
            &&& v.spent_keys == st.spent_keys
            &&& wf_consistent(bu, bc, v)
        }),
    decreases tx.outputs@.len() - j,
{
    if j < 0 || j >= tx.outputs@.len() {
    } else {
        let oid = OutputId { transaction_id: tx.id, index: j as u16 };
        let entry = CreatedOutput {
            message_id: mid,
            milestone_index: index,
            milestone_timestamp: ts,
            inner: tx.outputs@[j],
        };
        let st2 = WfView {
            created: st.created.push((oid, entry)),
            created_keys: st.created_keys.insert(oid.key_spec(), entry),
            ..st
        };
        assert(wf_consistent(bu, bc, st2)) by {
            let olds = st.created.map_values(|p: (OutputId, CreatedOutput)| p.0.key_spec());
            let news = st2.created.map_values(|p: (OutputId, CreatedOutput)| p.0.key_spec());
            assert(news =~= olds.push(oid.key_spec()));
            assert(st2.created_keys.dom() =~= news.to_set()) by {
                assert forall|x: u128| #[trigger] news.to_set().contains(x) implies st2.created_keys.dom().contains(
                    x,
                ) by {
                    let i = choose|i: int| 0 <= i < news.len() && news[i] == x;
                    if i < olds.len() {
                        assert(olds[i] == x);
                        assert(olds.contains(x));
                        assert(olds.to_set().contains(x));
                    }
                }
                assert forall|x: u128|
                    st2.created_keys.dom().contains(x) implies #[trigger] news.to_set().contains(x) by {
                    if x == oid.key_spec() {
                        assert(news[news.len() - 1] == x);
                        assert(news.contains(x));
                    } else {
                        assert(olds.to_set().contains(x));
                        let i = choose|i: int| 0 <= i < olds.len() && olds[i] == x;
                        assert(news[i] == x);
                        assert(news.contains(x));
                    }
                }
            }
            assert forall|jj: int| 0 <= jj < st2.created.len() implies !bc.contains(
                (#[trigger] st2.created[jj]).0.key_spec(),
            ) by {
                if jj < st.created.len() {
                    assert(st2.created[jj] == st.created[jj]);
                } else {
                    assert(st2.created[jj] == (oid, entry));
                    assert(oid.key_spec() == out_key(tx.id, j));
                }
            }
            assert forall|jj: int|
                0 <= jj < st2.consumed.len() implies bu.contains(
                (#[trigger] st2.consumed[jj]).0.key_spec(),
            ) || st2.created_keys.dom().contains(st2.consumed[jj].0.key_spec()) by {
                assert(st.consumed[jj] == st2.consumed[jj]);
            }
        }
        lemma_add_outputs_props(bu, bc, st2, tx, mid, index, ts, j + 1);
    }
}

/// Processing one message keeps the state consistent and classifies
/// exactly one more message.
proof fn lemma_wf_message_consistent(
    msgs: Map<u64, Message>,
    bu: Set<u128>,
    bc: Set<u128>,
    st: WfView,
    mid: MessageId,
    index: MilestoneIndex,
    ts: u64,
)
    requires
        wf_consistent(bu, bc, st),
    ensures
        wf_consistent(bu, bc, wf_message(msgs, bu, bc, st, mid, index, ts)),
        wf_message(msgs, bu, bc, st, mid, index, ts).statuses.len() == st.statuses.len() + 1,
{
    match msgs[mid.0].payload_spec().option_spec() {
        Some(p) => match p {
            Payload::Transaction(tx) => {
                let txv = *tx;
                if txv.is_valid() {
                    match first_input_conflict(bu, bc, st, txv.inputs@, 0) {
                        Some(_) => {},
                        None => {
                            if !has_duplicate_output(bu, bc, st, txv.id, txv.outputs@.len() as int, 0) {
                                lemma_fic_none_all(bu, bc, st, txv.inputs@, 0);
                                lemma_add_inputs_props(bu, bc, st, txv, index, ts, 0);
                                let st1 = add_inputs(st, txv, index, ts, 0);
                                lemma_no_dup_all(bu, bc, st, txv.id, txv.outputs@.len() as int, 0);
                                lemma_add_outputs_props(bu, bc, st1, txv, mid, index, ts, 0);
                            }
                        },
                    }
                }
            },
            _ => {},
        },
        None => {},
    }
}

/// The fold over any prefix of the order is consistent and classifies one
/// message per position.
pub proof fn lemma_wf_fold_consistent(
    msgs: Map<u64, Message>,
    bu: Set<u128>,
    bc: Set<u128>,
    order: Seq<MessageId>,
    n: int,
    index: MilestoneIndex,
    ts: u64,
)
    requires
        n <= order.len(),
    ensures
        wf_consistent(bu, bc, wf_fold(msgs, bu, bc, order, n, index, ts)),
        n >= 0 ==> wf_fold(msgs, bu, bc, order, n, index, ts).statuses.len() == n,
    decreases n,
{
    if n <= 0 {
        assert(wf_empty().created_keys.dom() =~= wf_empty().created.map_values(
            |p: (OutputId, CreatedOutput)| p.0.key_spec(),
        ).to_set());
        assert(wf_empty().spent_keys =~= wf_empty().consumed.map_values(
            |p: (OutputId, ConsumedOutput)| p.0.key_spec(),
        ).to_set());
    } else {
        lemma_wf_fold_consistent(msgs, bu, bc, order, n - 1, index, ts);
        lemma_wf_message_consistent(
            msgs,
            bu,
            bc,
            wf_fold(msgs, bu, bc, order, n - 1, index, ts),
            order[n - 1],
            index,
            ts,
        );
    }
}

/// The keys of a pair list are the keys of its id projection.
proof fn lemma_pair_keys_char<T>(s: Seq<(OutputId, T)>)
    ensures
        pair_keys_from(s, 0) =~= s.map_values(|p: (OutputId, T)| p.0.key_spec()).to_set(),
        pair_keys_from(s, 0) =~= s.map_values(|p: (OutputId, T)| p.0).map_values(
            |o: OutputId| o.key_spec(),
        ).to_set(),
{
    let m1 = s.map_values(|p: (OutputId, T)| p.0.key_spec());
    let m2 = s.map_values(|p: (OutputId, T)| p.0).map_values(|o: OutputId| o.key_spec());
    assert forall|k: u128| #[trigger] pair_keys_from(s, 0).contains(k) implies m1.to_set().contains(k)
        && m2.to_set().contains(k) by {
        let jj = choose|jj: int| 0 <= jj < s.len() && (#[trigger] s[jj]).0.key_spec() == k;
        assert(m1[jj] == k);
        assert(m1.contains(k));
        assert(m2[jj] == k);
        assert(m2.contains(k));
    }
    assert forall|k: u128| #[trigger] m1.to_set().contains(k) implies pair_keys_from(s, 0).contains(k) by {
        let jj = choose|jj: int| 0 <= jj < m1.len() && m1[jj] == k;
        assert((s[jj]).0.key_spec() == k);
    }
    assert forall|k: u128| #[trigger] m2.to_set().contains(k) implies pair_keys_from(s, 0).contains(k) by {
        let jj = choose|jj: int| 0 <= jj < m2.len() && m2[jj] == k;
        assert((s[jj]).0.key_spec() == k);
    }
}

/// Booking the created entries from position `j` on into a key-value map.
pub open spec fn insert_created_from(
    m: Map<u128, CreatedOutput>,
    s: Seq<(OutputId, CreatedOutput)>,
    j: int,
) -> Map<u128, CreatedOutput>
    decreases s.len() - j,
{
    if j < 0 || j >= s.len() {
        m
    } else {
        insert_created_from(m.insert(s[j].0.key_spec(), s[j].1), s, j + 1)
    }
}

/// Removing the consumed entries' keys from position `j` on.
pub open spec fn remove_consumed_from(
    m: Map<u128, CreatedOutput>,
    s: Seq<(OutputId, ConsumedOutput)>,
    j: int,
) -> Map<u128, CreatedOutput>
    decreases s.len() - j,
{
    if j < 0 || j >= s.len() {
        m
    } else {
        remove_consumed_from(m.remove(s[j].0.key_spec()), s, j + 1)
    }
}

/// Recording the consumed entries from position `j` on.
pub open spec fn insert_consumed_from(
    m: Map<u128, ConsumedOutput>,
    s: Seq<(OutputId, ConsumedOutput)>,
    j: int,
) -> Map<u128, ConsumedOutput>
    decreases s.len() - j,
{
    if j < 0 || j >= s.len() {
        m
    } else {
        insert_consumed_from(m.insert(s[j].0.key_spec(), s[j].1), s, j + 1)
    }
}

proof fn lemma_keys_from_step<T>(s: Seq<(OutputId, T)>, j: int)
    requires
        0 <= j < s.len(),
    ensures
        pair_keys_from(s, j) =~= pair_keys_from(s, j + 1).insert(s[j].0.key_spec()),
{
    let k0 = s[j].0.key_spec();
    assert forall|k: u128| #[trigger] pair_keys_from(s, j).contains(k) implies pair_keys_from(
        s,
        j + 1,
    ).insert(k0).contains(k) by {
        let jj = choose|jj: int| j <= jj < s.len() && (#[trigger] s[jj]).0.key_spec() == k;
        if jj > j {
            assert(pair_keys_from(s, j + 1).contains(k));
        }
    }
    assert forall|k: u128|
        pair_keys_from(s, j + 1).insert(k0).contains(k) implies #[trigger] pair_keys_from(s, j).contains(
        k,
    ) by {
        if k == k0 {
            assert(s[j].0.key_spec() == k);
        } else {
            let jj = choose|jj: int| j + 1 <= jj < s.len() && (#[trigger] s[jj]).0.key_spec() == k;
        }
    }
}

proof fn lemma_insert_created_dom(m: Map<u128, CreatedOutput>, s: Seq<(OutputId, CreatedOutput)>, j: int)
    requires
        0 <= j,
    ensures
        insert_created_from(m, s, j).dom() =~= m.dom().union(pair_keys_from(s, j)),
    decreases s.len() - j,
{
    if j >= s.len() {
        assert(pair_keys_from(s, j) =~= Set::<u128>::empty());
    } else {
        lemma_insert_created_dom(m.insert(s[j].0.key_spec(), s[j].1), s, j + 1);
        lemma_keys_from_step(s, j);
    }
}

proof fn lemma_remove_consumed_dom(m: Map<u128, CreatedOutput>, s: Seq<(OutputId, ConsumedOutput)>, j: int)
    requires
        0 <= j,
    ensures
        remove_consumed_from(m, s, j).dom() =~= m.dom().difference(pair_keys_from(s, j)),
    decreases s.len() - j,
{
    if j >= s.len() {
        assert(pair_keys_from(s, j) =~= Set::<u128>::empty());
    } else {
        lemma_remove_consumed_dom(m.remove(s[j].0.key_spec()), s, j + 1);
        lemma_keys_from_step(s, j);
    }
}

proof fn lemma_insert_consumed_dom(m: Map<u128, ConsumedOutput>, s: Seq<(OutputId, ConsumedOutput)>, j: int)
    requires
        0 <= j,
    ensures
        insert_consumed_from(m, s, j).dom() =~= m.dom().union(pair_keys_from(s, j)),
    decreases s.len() - j,
{
    if j >= s.len() {
        assert(pair_keys_from(s, j) =~= Set::<u128>::empty());
    } else {
        lemma_insert_consumed_dom(m.insert(s[j].0.key_spec(), s[j].1), s, j + 1);
        lemma_keys_from_step(s, j);
    }
}

/// Booking the same entries into a supermap keeps the submap relation.
proof fn lemma_insert_created_pointwise(
    ma: Map<u128, CreatedOutput>,
    mb: Map<u128, CreatedOutput>,
    s: Seq<(OutputId, CreatedOutput)>,
    j: int,
)
    requires
        forall|k: u128| #[trigger] ma.dom().contains(k) ==> mb.dom().contains(k) && mb[k] == ma[k],
    ensures
        forall|k: u128| #[trigger]
            insert_created_from(ma, s, j).dom().contains(k) ==> insert_created_from(mb, s, j).dom().contains(
                k,
            ) && insert_created_from(mb, s, j)[k] == insert_created_from(ma, s, j)[k],
    decreases s.len() - j,
{
    if j < 0 || j >= s.len() {
    } else {
        let k0 = s[j].0.key_spec();
        let ma2 = ma.insert(k0, s[j].1);
        let mb2 = mb.insert(k0, s[j].1);
        assert forall|k: u128| #[trigger] ma2.dom().contains(k) implies mb2.dom().contains(k) && mb2[k]
            == ma2[k] by {
            if k != k0 {
                assert(ma.dom().contains(k));
            }
        }
        lemma_insert_created_pointwise(ma2, mb2, s, j + 1);
        assert forall|k: u128| #[trigger]
            insert_created_from(ma, s, j).dom().contains(k) implies insert_created_from(
            mb,
            s,
            j,
        ).dom().contains(k) && insert_created_from(mb, s, j)[k] == insert_created_from(ma, s, j)[k] by {
            assert(insert_created_from(ma, s, j) == insert_created_from(ma2, s, j + 1));
            assert(insert_created_from(mb, s, j) == insert_created_from(mb2, s, j + 1));
            assert(insert_created_from(ma2, s, j + 1).dom().contains(k));
        }
    }
}

/// What remains after removing keys was there before, unchanged.
proof fn lemma_remove_consumed_pointwise(
    ma: Map<u128, CreatedOutput>,
    mb: Map<u128, CreatedOutput>,
    s: Seq<(OutputId, ConsumedOutput)>,
    j: int,
)
    requires
        forall|k: u128| #[trigger] ma.dom().contains(k) ==> mb.dom().contains(k) && mb[k] == ma[k],
    ensures
        forall|k: u128| #[trigger]
            remove_consumed_from(ma, s, j).dom().contains(k) ==> mb.dom().contains(k) && mb[k]
                == remove_consumed_from(ma, s, j)[k],
    decreases s.len() - j,
{
    if j < 0 || j >= s.len() {
    } else {
        let k0 = s[j].0.key_spec();
        let ma2 = ma.remove(k0);
        assert forall|k: u128| #[trigger] ma2.dom().contains(k) implies mb.dom().contains(k) && mb[k]
            == ma2[k] by {
            assert(ma.dom().contains(k));
        }
        lemma_remove_consumed_pointwise(ma2, mb, s, j + 1);
        assert forall|k: u128| #[trigger]
            remove_consumed_from(ma, s, j).dom().contains(k) implies mb.dom().contains(k) && mb[k]
            == remove_consumed_from(ma, s, j)[k] by {
            assert(remove_consumed_from(ma, s, j) == remove_consumed_from(ma2, s, j + 1));
            assert(remove_consumed_from(ma2, s, j + 1).dom().contains(k));
        }
    }
}

/// The index and issue time of the milestone payload carried by the stored
/// message, if the message is stored and carries one.
pub open spec fn milestone_essence_of(t: Tangle, mid: MessageId) -> Option<(MilestoneIndex, u64)> {
    if t.has_message(mid.0) {
        match t.msg_of(mid.0).payload_spec().option_spec() {
            Some(p) => match p {
                Payload::Milestone(mp) => Some((mp.essence.index, mp.essence.timestamp)),
                _ => None,
            },
            None => None,
        }
    } else {
        None
    }
}

/// Whether the milestone's newly referenced cone has a missing ancestor.
pub open spec fn cone_missing_exists(t: Tangle, root: MessageId) -> bool {
    exists|z: u64|
        reaches(t, Map::empty(), VisitFilter::Unreferenced, root.0, z) && !t.has_message(z) && !t.is_sep(z)
}

/// Whether `order` is the deterministic traversal order of the milestone's
/// newly referenced cone: exactly the stored, not-yet-referenced messages
/// reachable from the milestone message, without repetition.
pub open spec fn confirmation_order_ok(t: Tangle, root: MessageId, order: Seq<MessageId>) -> bool {
    &&& keys_of(order).no_duplicates()
    &&& forall|z: u64| #[trigger]
        keys_of(order).contains(z) <==> reaches(t, Map::empty(), VisitFilter::Unreferenced, root.0, z)
            && descends(t, Map::empty(), VisitFilter::Unreferenced, z)
}

/// Whether the result is a missing-ancestor rejection.
pub open spec fn is_missing_err(r: Result<(MilestoneConfirmed, WhiteFlag), Error>) -> bool {
    match r {
        Err(e) => e is MissingMessage,
        _ => false,
    }
}

/// Everything one successful confirmation did, given the traversal order
/// it walked: the batch is the white-flag fold over the order, the event
/// reports it, the UTXO key sets moved by exactly the batch, the diff was
/// recorded, and every referenced message's metadata points at the
/// milestone with its classification.
pub open spec fn confirmation_matches(
    pre: Ledger,
    pre_t: Tangle,
    post: Ledger,
    post_t: Tangle,
    event: MilestoneConfirmed,
    batch: WhiteFlag,
    root: MessageId,
    order: Seq<MessageId>,
    index: MilestoneIndex,
    ts: u64,
) -> bool {
    let v = wf_fold(pre_t.messages@, pre.unspent@.dom(), pre.consumed@.dom(), order, order.len() as int, index, ts);
    &&& confirmation_order_ok(pre_t, root, order)
    &&& batch.statuses@ == v.statuses
    &&& batch.included@ == v.included
    &&& batch.excluded_conflicting@ == v.conflicting
    &&& batch.excluded_no_transaction@ == v.no_transaction
    &&& batch.created@ == v.created
    &&& batch.consumed@ == v.consumed
    &&& event.id == root
    &&& event.index == index
    &&& event.timestamp == ts
    &&& event.referenced_messages == order.len()
    &&& event.excluded_no_transaction_messages@ == v.no_transaction
    &&& event.excluded_conflicting_messages@ == v.conflicting
    &&& event.included_messages@ == v.included
    &&& event.consumed_outputs == v.consumed.len()
    &&& event.created_outputs == v.created.len()
    &&& post.unspent@.dom() == pre.unspent@.dom().union(pair_keys_from(v.created, 0)).difference(
        pair_keys_from(v.consumed, 0),
    )
    &&& post.consumed@.dom() == pre.consumed@.dom().union(pair_keys_from(v.consumed, 0))
    &&& post.diffs@.last().index == index
    &&& post.diffs@.last().created_outputs@ == v.created.map_values(|p: (OutputId, CreatedOutput)| p.0)
    &&& post.diffs@.last().consumed_outputs@ == v.consumed.map_values(|p: (OutputId, ConsumedOutput)| p.0)
    &&& post_t.messages@ == pre_t.messages@
    &&& post_t.order@ == pre_t.order@
    &&& post_t.solid_entry_points@ == pre_t.solid_entry_points@
    &&& post_t.milestones@ == pre_t.milestones@
    &&& post_t.milestone_ids@ == pre_t.milestone_ids@
    &&& post_t.metadata@.dom() == pre_t.metadata@.dom()
    &&& v.statuses.len() == order.len()
    &&& forall|i: int|
        0 <= i < order.len() ==> post_t.meta_of((#[trigger] order[i]).0) == (MessageMetadata {
            milestone_index: Some(index),
            conflict: v.statuses[i].reason_spec(),
            ..pre_t.meta_of(order[i].0)
        })
    &&& forall|k: u64|
        pre_t.has_message(k) && !keys_of(order).contains(k) ==> post_t.meta_of(k) == pre_t.meta_of(k)
    &&& post_t.confirmed_milestone_index.0 == if index.0 > pre_t.confirmed_milestone_index.0 {
        index.0
    } else {
        pre_t.confirmed_milestone_index.0
    }
    &&& post_t.latest_milestone_index == pre_t.latest_milestone_index
    &&& post_t.latest_solid_milestone_index == pre_t.latest_solid_milestone_index
    &&& post_t.pruning_index == pre_t.pruning_index
}

/// One successful confirmation is fully described by some traversal order;
/// see [`confirmation_matches`].
pub open spec fn confirmed_correctly(
    pre: Ledger,
    pre_t: Tangle,
    post: Ledger,
    post_t: Tangle,
    event: MilestoneConfirmed,
    batch: WhiteFlag,
    root: MessageId,
    index: MilestoneIndex,
    ts: u64,
) -> bool {
    exists|order: Seq<MessageId>|
        confirmation_matches(pre, pre_t, post, post_t, event, batch, root, order, index, ts)
}

/// Copies a list of message ids.
fn copy_message_ids(v: &Vec<MessageId>) -> (r: Vec<MessageId>)
    ensures
        r@ == v@,
{
    let mut r: Vec<MessageId> = Vec::new();
    let mut i: usize = 0;
    while i < v.len()
        invariant
            0 <= i <= v@.len(),
            r@ == v@.take(i as int),
        decreases v@.len() - i,
    {
        r.push(v[i]);
        proof {
            assert(v@.take(i + 1 as int) =~= v@.take(i as int).push(v@[i as int]));
        }
        i += 1;
    }
    proof {
        assert(v@.take(v@.len() as int) =~= v@);
    }
    r
}

/// Copies a list of conflict classifications.
fn copy_conflicts(v: &Vec<(MessageId, ConflictReason)>) -> (r: Vec<(MessageId, ConflictReason)>)
    ensures
        r@ == v@,
{
    let mut r: Vec<(MessageId, ConflictReason)> = Vec::new();
    let mut i: usize = 0;
    while i < v.len()
        invariant
            0 <= i <= v@.len(),
            r@ == v@.take(i as int),
        decreases v@.len() - i,
    {
        r.push(v[i]);
        proof {
            assert(v@.take(i + 1 as int) =~= v@.take(i as int).push(v@[i as int]));
        }
        i += 1;
    }
    proof {
        assert(v@.take(v@.len() as int) =~= v@);
    }
    r
}

proof fn lemma_replay_push(base: Set<u128>, ds: Seq<OutputDiff>, d: OutputDiff)
    ensures
        replay(base, ds.push(d)).0 == replay(base, ds).0.union(d.created_keys()).difference(d.consumed_keys()),
        replay(base, ds.push(d)).1 == replay(base, ds).1.union(d.consumed_keys()),
{
    assert(ds.push(d).drop_last() =~= ds);
    assert(ds.push(d).last() == d);
}

impl Ledger {
    /// Confirms one milestone: looks up its message, rejects it unless it
    /// is the immediate successor of the current ledger index with a fully
    /// present cone, then walks the cone, classifies every transaction by
    /// white-flag, applies the whole UTXO batch, records the diff and marks
    /// every referenced message. A rejected confirmation changes nothing.
    #[verifier::rlimit(100)]
    #[verifier::spinoff_prover]
    pub fn confirm(&mut self, tangle: &mut Tangle, message_id: MessageId) -> (r: Result<
        (MilestoneConfirmed, WhiteFlag),
        Error,
    >)
        requires
            old(self).wf(),
            old(tangle).wf(),
        ensures
            r is Err ==> *final(self) == *old(self) && *final(tangle) == *old(tangle),
            r == Err::<(MilestoneConfirmed, WhiteFlag), Error>(Error::MilestoneMessageNotFound(message_id))
                <==> !old(tangle).has_message(message_id.0),
            r == Err::<(MilestoneConfirmed, WhiteFlag), Error>(Error::NoMilestonePayload(message_id)) <==> old(
                tangle,
            ).has_message(message_id.0) && milestone_essence_of(*old(tangle), message_id) is None,
            ({
                let e = milestone_essence_of(*old(tangle), message_id);
                (e is Some && (e->Some_0.0).0 as int != old(self).ledger_index as int + 1) <==> r == Err::<
                    (MilestoneConfirmed, WhiteFlag),
                    Error,
                >(
                    Error::NonContiguousMilestones {
                        current: old(self).ledger_index,
                        passed: (e->Some_0.0).0,
                    },
                )
            }),
            is_missing_err(r) <==> ({
                let e = milestone_essence_of(*old(tangle), message_id);
                e is Some && (e->Some_0.0).0 as int == old(self).ledger_index as int + 1
                    && cone_missing_exists(*old(tangle), message_id)
            }),
            r is Ok <==> ({
                let e = milestone_essence_of(*old(tangle), message_id);
                e is Some && (e->Some_0.0).0 as int == old(self).ledger_index as int + 1
                    && !cone_missing_exists(*old(tangle), message_id)
            }),
            r is Ok ==> final(self).wf() && final(tangle).wf(),
            r is Ok ==> final(self).ledger_index as int == old(self).ledger_index as int + 1
                && final(self).genesis_index == old(self).genesis_index && final(self).genesis_outputs@
                == old(self).genesis_outputs@,
            r is Ok ==> final(self).ledger_index == (milestone_essence_of(*old(tangle), message_id)->Some_0.0).0,
            r is Ok ==> final(self).diffs@.len() == old(self).diffs@.len() + 1 && (forall|i: int|
                0 <= i < old(self).diffs@.len() ==> final(self).diffs@[i] == old(self).diffs@[i]),
            r is Ok ==> confirmed_correctly(
                *old(self),
                *old(tangle),
                *final(self),
                *final(tangle),
                r->Ok_0.0,
                r->Ok_0.1,
                message_id,
                milestone_essence_of(*old(tangle), message_id)->Some_0.0,
                milestone_essence_of(*old(tangle), message_id)->Some_0.1,
            ),
    {
        let ghost orig_l = *self;
        let ghost orig_t = *tangle;
        let (index, timestamp) = match tangle.get(&message_id) {
            None => {
                return Err(Error::MilestoneMessageNotFound(message_id));
            },
            Some(message) => match message.payload().as_option() {
                Some(Payload::Milestone(mp)) => (mp.essence().index(), mp.essence().timestamp()),
                _ => {
                    return Err(Error::NoMilestonePayload(message_id));
                },
            },
        };
        proof {
            assert(milestone_essence_of(orig_t, message_id) == Some((index, timestamp)));
        }
        if (index.0 as u64) != (self.ledger_index as u64) + 1 {
            return Err(Error::NonContiguousMilestones { current: self.ledger_index, passed: index.0 });
        }
        let no_pending = RequestedMessages::new();
        let trav = visit_parents_depth_first(tangle, &no_pending, VisitFilter::Unreferenced, message_id);
        proof {
            assert(no_pending.requests@ =~= Map::<u64, crate::requester::RequestedEntry>::empty());
        }
        if trav.missing.len() > 0 {
            proof {
                assert(keys_of(trav.missing@)[0] == trav.missing@[0].0);
                assert(keys_of(trav.missing@).contains(trav.missing@[0].0));
            }
            return Err(Error::MissingMessage(trav.missing[0]));
        }
        proof {
            if cone_missing_exists(orig_t, message_id) {
                let z = choose|z: u64|
                    reaches(orig_t, Map::empty(), VisitFilter::Unreferenced, message_id.0, z)
                        && !orig_t.has_message(z) && !orig_t.is_sep(z);
                assert(keys_of(trav.missing@).contains(z));
                let i = choose|i: int| 0 <= i < keys_of(trav.missing@).len() && keys_of(trav.missing@)[i] == z;
                assert(false);
            }
            assert forall|i: int| 0 <= i < trav.visited@.len() implies tangle.has_message(
                (#[trigger] trav.visited@[i]).0,
            ) by {
                assert(keys_of(trav.visited@)[i] == trav.visited@[i].0);
                assert(keys_of(trav.visited@).contains(trav.visited@[i].0));
            }
        }
        let ghost order = trav.visited@;
        let ghost bu = self.unspent@.dom();
        let ghost bc = self.consumed@.dom();
        let batch = self.white_flag(tangle, &trav.visited, index, timestamp);
        let ghost v = wf_fold(orig_t.messages@, bu, bc, order, order.len() as int, index, timestamp);
        proof {
            lemma_wf_fold_consistent(orig_t.messages@, bu, bc, order, order.len() as int, index, timestamp);
        }
        // the diff's id lists
        let mut created_ids: Vec<OutputId> = Vec::new();
        let mut ci: usize = 0;
        while ci < batch.created.len()
            invariant
                0 <= ci <= batch.created@.len(),
                created_ids@ == batch.created@.take(ci as int).map_values(|p: (OutputId, CreatedOutput)| p.0),
            decreases batch.created@.len() - ci,
        {
            created_ids.push(batch.created[ci].0);
            proof {
                assert(batch.created@.take(ci + 1 as int).map_values(|p: (OutputId, CreatedOutput)| p.0)
                    =~= batch.created@.take(ci as int).map_values(|p: (OutputId, CreatedOutput)| p.0).push(
                    batch.created@[ci as int].0,
                ));
            }
            ci += 1;
        }
        let mut consumed_ids: Vec<OutputId> = Vec::new();
        let mut ki: usize = 0;
        while ki < batch.consumed.len()
            invariant
                0 <= ki <= batch.consumed@.len(),
                consumed_ids@ == batch.consumed@.take(ki as int).map_values(
                    |p: (OutputId, ConsumedOutput)| p.0,
                ),
            decreases batch.consumed@.len() - ki,
        {
            consumed_ids.push(batch.consumed[ki].0);
            proof {
                assert(batch.consumed@.take(ki + 1 as int).map_values(|p: (OutputId, ConsumedOutput)| p.0)
                    =~= batch.consumed@.take(ki as int).map_values(|p: (OutputId, ConsumedOutput)| p.0).push(
                    batch.consumed@[ki as int].0,
                ));
            }
            ki += 1;
        }
        proof {
            assert(batch.created@.take(batch.created@.len() as int) =~= batch.created@);
            assert(batch.consumed@.take(batch.consumed@.len() as int) =~= batch.consumed@);
        }
        // apply the batch: book the created outputs, then the spends
        let ghost un0 = self.unspent@;
        let ghost store0 = self.created_store@;
        let mut ai: usize = 0;
        while ai < batch.created.len()
            invariant
                0 <= ai <= batch.created@.len(),
                insert_created_from(self.unspent@, batch.created@, ai as int) == insert_created_from(
                    un0,
                    batch.created@,
                    0,
                ),
                insert_created_from(self.created_store@, batch.created@, ai as int) == insert_created_from(
                    store0,
                    batch.created@,
                    0,
                ),
                self.consumed@ == orig_l.consumed@,
                self.diffs@ == orig_l.diffs@,
                self.ledger_index == orig_l.ledger_index,
                self.genesis_index == orig_l.genesis_index,
                self.genesis_outputs@ == orig_l.genesis_outputs@,
            decreases batch.created@.len() - ai,
        {
            let entry = batch.created[ai];
            let key = entry.0.key();
            self.unspent.insert(key, entry.1);
            self.created_store.insert(key, entry.1);
            ai += 1;
        }
        let ghost un1 = self.unspent@;
        let ghost c0 = self.consumed@;
        let mut bi: usize = 0;
        while bi < batch.consumed.len()
            invariant
                0 <= bi <= batch.consumed@.len(),
                remove_consumed_from(self.unspent@, batch.consumed@, bi as int) == remove_consumed_from(
                    un1,
                    batch.consumed@,
                    0,
                ),
                insert_consumed_from(self.consumed@, batch.consumed@, bi as int) == insert_consumed_from(
                    c0,
                    batch.consumed@,
                    0,
                ),
                self.created_store@ == insert_created_from(store0, batch.created@, 0),
                self.diffs@ == orig_l.diffs@,
                self.ledger_index == orig_l.ledger_index,
                self.genesis_index == orig_l.genesis_index,
                self.genesis_outputs@ == orig_l.genesis_outputs@,
            decreases batch.consumed@.len() - bi,
        {
            let entry = batch.consumed[bi];
            let key = entry.0.key();
            self.unspent.remove(&key);
            self.consumed.insert(key, entry.1);
            bi += 1;
        }
        let diff = OutputDiff { index, created_outputs: created_ids, consumed_outputs: consumed_ids };
        self.diffs.push(diff);
        self.ledger_index = index.0;
        proof {
            lemma_insert_created_dom(un0, batch.created@, 0);
            lemma_remove_consumed_dom(un1, batch.consumed@, 0);
            lemma_insert_consumed_dom(c0, batch.consumed@, 0);
            lemma_insert_created_dom(store0, batch.created@, 0);
            lemma_pair_keys_char::<CreatedOutput>(batch.created@);
            lemma_pair_keys_char::<ConsumedOutput>(batch.consumed@);
            lemma_replay_push(orig_l.genesis_keys(), orig_l.diffs@, self.diffs@.last());
            assert(self.diffs@.drop_last() =~= orig_l.diffs@);
            assert(self.diffs@.last().created_keys() =~= pair_keys_from(v.created, 0));
            assert(self.diffs@.last().consumed_keys() =~= pair_keys_from(v.consumed, 0));
            assert(replay(self.genesis_keys(), self.diffs@).0 =~= self.unspent@.dom());
            assert(replay(self.genesis_keys(), self.diffs@).1 =~= self.consumed@.dom());
            // no output is both unspent and consumed
            assert forall|k: u128| #[trigger] self.unspent@.dom().contains(k) implies !self.consumed@.dom().contains(
                k,
            ) by {
                if self.consumed@.dom().contains(k) {
                    assert(!pair_keys_from(v.consumed, 0).contains(k));
                    assert(bc.contains(k));
                    if bu.contains(k) {
                        assert(orig_l.unspent@.dom().contains(k) && orig_l.consumed@.dom().contains(k));
                    } else {
                        assert(pair_keys_from(v.created, 0).contains(k));
                        let jj = choose|jj: int|
                            0 <= jj < v.created.len() && (#[trigger] v.created[jj]).0.key_spec() == k;
                        assert(!bc.contains(v.created[jj].0.key_spec()));
                    }
                }
            }
            // unspent values live in the store
            lemma_insert_created_pointwise(un0, store0, batch.created@, 0);
            lemma_remove_consumed_pointwise(un1, self.created_store@, batch.consumed@, 0);
            // the store holds exactly everything ever booked
            assert(self.created_store@.dom() =~= self.unspent@.dom().union(self.consumed@.dom())) by {
                assert forall|k: u128| #[trigger] self.created_store@.dom().contains(k) implies self.unspent@.dom().union(
                    self.consumed@.dom(),
                ).contains(k) by {
                    if !self.consumed@.dom().contains(k) && !self.unspent@.dom().contains(k) {
                        assert(!pair_keys_from(v.consumed, 0).contains(k));
                        assert(!(bu.contains(k) || pair_keys_from(v.created, 0).contains(k))
                            || pair_keys_from(v.consumed, 0).contains(k));
                        assert(bc.contains(k) || pair_keys_from(v.created, 0).contains(k));
                    }
                }
                assert forall|k: u128|
                    self.unspent@.dom().union(self.consumed@.dom()).contains(k) implies #[trigger] self.created_store@.dom().contains(
                    k,
                ) by {
                    if self.unspent@.dom().contains(k) {
                    } else {
                        assert(self.consumed@.dom().contains(k));
                        if bc.contains(k) {
                            assert(orig_l.created_store@.dom().contains(k));
                        } else {
                            assert(pair_keys_from(v.consumed, 0).contains(k));
                            let jj = choose|jj: int|
                                0 <= jj < v.consumed.len() && (#[trigger] v.consumed[jj]).0.key_spec() == k;
                            assert(bu.contains(k) || v.created_keys.dom().contains(k));
                        }
                    }
                }
            }
            assert(self.wf());
        }
        // record the classification on every referenced message
        let ghost t_before = *tangle;
        let mut mi: usize = 0;
        while mi < trav.visited.len()
            invariant
                tangle.wf(),
                0 <= mi <= trav.visited@.len(),
                order == trav.visited@,
                batch.statuses@ == v.statuses,
                v.statuses.len() == order.len(),
                keys_of(order).no_duplicates(),
                forall|ii: int| 0 <= ii < order.len() ==> t_before.has_message((#[trigger] order[ii]).0),
                tangle.messages@ == t_before.messages@,
                tangle.order@ == t_before.order@,
                tangle.solid_entry_points@ == t_before.solid_entry_points@,
                tangle.milestones@ == t_before.milestones@,
                tangle.milestone_ids@ == t_before.milestone_ids@,
                tangle.metadata@.dom() == t_before.metadata@.dom(),
                tangle.latest_milestone_index == t_before.latest_milestone_index,
                tangle.latest_solid_milestone_index == t_before.latest_solid_milestone_index,
                tangle.confirmed_milestone_index == t_before.confirmed_milestone_index,
                tangle.pruning_index == t_before.pruning_index,
                forall|jj: int|
                    0 <= jj < mi ==> tangle.meta_of((#[trigger] order[jj]).0) == (MessageMetadata {
                        milestone_index: Some(index),
                        conflict: v.statuses[jj].reason_spec(),
                        ..t_before.meta_of(order[jj].0)
                    }),
                forall|k: u64|
                    t_before.has_message(k) && !keys_of(order.take(mi as int)).contains(k)
                        ==> tangle.meta_of(k) == t_before.meta_of(k),
            decreases trav.visited@.len() - mi,
        {
            let ghost t_mid = *tangle;
            let id = trav.visited[mi];
            let status = batch.statuses[mi];
            let reason = status.reason();
            proof {
                assert(keys_of(order)[mi as int] == id.0);
                assert(keys_of(order).contains(id.0));
                assert(!keys_of(order.take(mi as int)).contains(id.0)) by {
                    if keys_of(order.take(mi as int)).contains(id.0) {
                        let jj = choose|jj: int|
                            0 <= jj < keys_of(order.take(mi as int)).len() && #[trigger] keys_of(
                                order.take(mi as int),
                            )[jj] == id.0;
                        assert(keys_of(order)[jj] == id.0);
                    }
                }
                assert(tangle.meta_of(id.0) == t_before.meta_of(id.0));
                assert(tangle.has_message(id.0));
            }
            tangle.reference_message(id, index, reason);
            mi += 1;
            proof {
                assert forall|jj: int| 0 <= jj < mi implies tangle.meta_of((#[trigger] order[jj]).0)
                    == (MessageMetadata {
                    milestone_index: Some(index),
                    conflict: v.statuses[jj].reason_spec(),
                    ..t_before.meta_of(order[jj].0)
                }) by {
                    if jj < mi - 1 {
                        assert(keys_of(order)[jj] == order[jj].0);
                        assert(order[jj].0 != id.0);
                        assert(tangle.meta_of(order[jj].0) == t_mid.meta_of(order[jj].0));
                    } else {
                        assert(status.reason_spec() == v.statuses[jj].reason_spec());
                    }
                }
                assert forall|k: u64|
                    t_before.has_message(k) && !keys_of(order.take(mi as int)).contains(k) implies tangle.meta_of(
                    k,
                ) == t_before.meta_of(k) by {
                    assert(keys_of(order.take(mi as int))[mi - 1] == id.0);
                    assert(keys_of(order.take(mi as int)).contains(id.0));
                    assert(k != id.0);
                    assert forall|kk: u64|
                        keys_of(order.take(mi - 1)).contains(kk) implies #[trigger] keys_of(
                        order.take(mi as int),
                    ).contains(kk) by {
                        let jj = choose|jj: int|
                            0 <= jj < keys_of(order.take(mi - 1)).len() && #[trigger] keys_of(
                                order.take(mi - 1),
                            )[jj] == kk;
                        assert(keys_of(order.take(mi as int))[jj] == kk);
                    }
                    assert(!keys_of(order.take(mi - 1)).contains(k));
                }
            }
        }
        proof {
            assert(order.take(order.len() as int) =~= order);
        }
        if index.0 > tangle.get_confirmed_milestone_index().0 {
            tangle.update_confirmed_milestone_index(index);
        }
        let event = MilestoneConfirmed {
            id: message_id,
            index,
            timestamp,
            referenced_messages: trav.visited.len(),
            excluded_no_transaction_messages: copy_message_ids(&batch.excluded_no_transaction),
            excluded_conflicting_messages: copy_conflicts(&batch.excluded_conflicting),
            included_messages: copy_message_ids(&batch.included),
            consumed_outputs: batch.consumed.len(),
            created_outputs: batch.created.len(),
        };
        proof {
            let e = milestone_essence_of(orig_t, message_id);
            let idx2 = e->Some_0.0;
            let ts2 = e->Some_0.1;
            assert(e == Some((index, timestamp)));
            assert(confirmation_matches(
                orig_l,
                orig_t,
                *self,
                *tangle,
                event,
                batch,
                message_id,
                order,
                idx2,
                ts2,
            ));
            assert(confirmed_correctly(orig_l, orig_t, *self, *tangle, event, batch, message_id, idx2, ts2));
        }
        Ok((event, batch))
    }

}

/// The ledger confirms milestones in strictly increasing index order, with
/// no gaps and no repeats: the recorded diffs carry exactly the
/// consecutive indices above the genesis index, however the milestones
/// arrived.
pub proof fn lemma_confirmation_order(l: Ledger)
    requires
        l.wf(),
    ensures
        forall|i: int|
            0 <= i < l.diffs@.len() ==> (#[trigger] l.diffs@[i]).index.0 as int == l.genesis_index + 1 + i,
        forall|i: int, j: int|
            0 <= i < j < l.diffs@.len() ==> l.diffs@[i].index.0 < l.diffs@[j].index.0,
        l.ledger_index as int == l.genesis_index + l.diffs@.len(),
{
    assert forall|i: int, j: int|
        0 <= i < j < l.diffs@.len() implies l.diffs@[i].index.0 < l.diffs@[j].index.0 by {
        assert(l.diffs@[i].index.0 as int == l.genesis_index + 1 + i);
        assert(l.diffs@[j].index.0 as int == l.genesis_index + 1 + j);
    }
}

/// After any completed confirmation batch, no output is both in unspent
/// state and referenced by a consumed-output record.
pub proof fn lemma_no_double_spend(l: Ledger, output_id: OutputId)
    requires
        l.wf(),
    ensures
        !(l.unspent@.dom().contains(output_id.key_spec()) && l.consumed@.dom().contains(
            output_id.key_spec(),
        )),
{
}

/// Replaying every recorded diff from the genesis outputs yields exactly
/// the live unspent and consumed key sets: the per-milestone diffs are a
/// faithful, from-scratch reconstruction of the ledger state.
pub proof fn lemma_replay_matches_state(l: Ledger)
    requires
        l.wf(),
    ensures
        replay(l.genesis_keys(), l.diffs@).0 == l.unspent@.dom(),
        replay(l.genesis_keys(), l.diffs@).1 == l.consumed@.dom(),
{
}

} // verus!
