//! The depth-first walk over parent edges: the single traversal mechanism
//! reused by the solidifier (to find un-solid ancestors) and by the ledger
//! (to compute the confirmation order).
//!
//! Parents are descended in the order they stand in each message's parent
//! list, and a message is emitted after its parents (depth-first
//! post-order), so the emitted order is reproducible across nodes for a
//! fixed snapshot. Identifiers referenced but absent from the tangle are
//! reported as missing instead of failing the walk.

use vstd::prelude::*;

use std::collections::HashSet;

use crate::requester::RequestedMessages;
use crate::tangle::Tangle;
use crate::types::MessageId;

verus! {

broadcast use {vstd::std_specs::hash::group_hash_axioms, vstd::seq_lib::group_seq_properties};

/// Which messages a walk descends into.
#[derive(Clone, Copy, PartialEq, Eq, Structural, Debug)]
pub enum VisitFilter {
    /// Descend into messages not yet referenced by a confirmed milestone:
    /// the ledger's cone of newly referenced messages.
    Unreferenced,
    /// Descend into messages that are not solid and not pending a request
    /// (a message obtained by request is descended only as the root, whose
    /// identifier word is given): the solidifier's un-solid ancestors.
    UnsolidFor(u64),
}

/// Whether the walk descends into the stored message under `k`.
pub open spec fn passes(t: Tangle, req: Map<u64, crate::requester::RequestedEntry>, f: VisitFilter, k: u64) -> bool {
    match f {
        VisitFilter::Unreferenced => t.meta_of(k).milestone_index_spec() is None,
        VisitFilter::UnsolidFor(target) => (!t.meta_of(k).flags_spec().requested || k == target)
            && !t.meta_of(k).is_solid_spec() && !req.contains_key(k),
    }
}

/// A stored, descended-into message.
pub open spec fn descends(t: Tangle, req: Map<u64, crate::requester::RequestedEntry>, f: VisitFilter, k: u64) -> bool {
    t.has_message(k) && passes(t, req, f, k)
}

/// A sequence of identifier words each of whose steps goes from a
/// descended-into message to one of its parents.
pub open spec fn is_walk(
    t: Tangle,
    req: Map<u64, crate::requester::RequestedEntry>,
    f: VisitFilter,
    w: Seq<u64>,
) -> bool {
    &&& w.len() >= 1
    &&& forall|i: int|
        0 <= i < w.len() - 1 ==> descends(t, req, f, #[trigger] w[i]) && exists|j: int|
            0 <= j < t.msg_of(w[i]).parents@.len() && (#[trigger] t.msg_of(w[i]).parents@[j]).0 == w[i + 1]
}

/// Reachable from the root along descended-into messages.
pub open spec fn reaches(
    t: Tangle,
    req: Map<u64, crate::requester::RequestedEntry>,
    f: VisitFilter,
    root: u64,
    z: u64,
) -> bool {
    exists|w: Seq<u64>| is_walk(t, req, f, w) && w[0] == root && w.last() == z
}

/// One step along a parent edge keeps reachability.
proof fn lemma_reaches_step(
    t: Tangle,
    req: Map<u64, crate::requester::RequestedEntry>,
    f: VisitFilter,
    root: u64,
    k: u64,
    p: u64,
)
    requires
        reaches(t, req, f, root, k),
        descends(t, req, f, k),
        exists|j: int| 0 <= j < t.msg_of(k).parents@.len() && (#[trigger] t.msg_of(k).parents@[j]).0 == p,
    ensures
        reaches(t, req, f, root, p),
{
    let w = choose|w: Seq<u64>| is_walk(t, req, f, w) && w[0] == root && w.last() == k;
    let w2 = w.push(p);
    assert forall|i: int| 0 <= i < w2.len() - 1 implies descends(t, req, f, #[trigger] w2[i]) && exists|j: int|
        0 <= j < t.msg_of(w2[i]).parents@.len() && (#[trigger] t.msg_of(w2[i]).parents@[j]).0 == w2[i + 1] by {
        if i < w.len() - 1 {
            assert(w2[i] == w[i] && w2[i + 1] == w[i + 1]);
            assert(descends(t, req, f, w[i]));
        } else {
            assert(w2[i] == k && w2[i + 1] == p);
        }
    }
    assert(is_walk(t, req, f, w2) && w2[0] == root && w2.last() == p);
}

/// Every identifier reachable from a member of a parent-closed set lies in
/// the set.
proof fn lemma_walk_stays_in_closed_set(
    t: Tangle,
    req: Map<u64, crate::requester::RequestedEntry>,
    f: VisitFilter,
    s: Set<u64>,
    w: Seq<u64>,
)
    requires
        is_walk(t, req, f, w),
        s.contains(w[0]),
        forall|k: u64, j: int|
            s.contains(k) && descends(t, req, f, k) && 0 <= j < t.msg_of(k).parents@.len() ==> s.contains(
                (#[trigger] t.msg_of(k).parents@[j]).0,
            ),
    ensures
        s.contains(w.last()),
    decreases w.len(),
{
    if w.len() > 1 {
        let w1 = w.take(w.len() - 1);
        assert forall|i: int| 0 <= i < w1.len() - 1 implies descends(t, req, f, #[trigger] w1[i]) && exists|j: int|
            0 <= j < t.msg_of(w1[i]).parents@.len() && (#[trigger] t.msg_of(w1[i]).parents@[j]).0 == w1[i
            + 1] by {
            assert(w1[i] == w[i] && w1[i + 1] == w[i + 1]);
            assert(descends(t, req, f, w[i]));
        }
        assert(is_walk(t, req, f, w1));
        lemma_walk_stays_in_closed_set(t, req, f, s, w1);
        let prev = w[w.len() - 2];
        assert(w1.last() == prev);
        assert(descends(t, req, f, prev));
        let j = choose|j: int|
            0 <= j < t.msg_of(prev).parents@.len() && (#[trigger] t.msg_of(prev).parents@[j]).0 == w[w.len()
                - 1];
        assert(s.contains(t.msg_of(prev).parents@[j].0));
    }
}

/// What a walk found: the descended-into messages in depth-first
/// post-order, and the referenced-but-absent identifiers.
pub struct Traversal {
    /// The messages descended into, each one after its parents.
    pub visited: Vec<MessageId>,
    /// Identifiers referenced from the cone but absent from the tangle and
    /// not solid entry points, in discovery order.
    pub missing: Vec<MessageId>,
}

/// Identifier words of a message-id list.
pub open spec fn keys_of(v: Seq<MessageId>) -> Seq<u64> {
    v.map_values(|m: MessageId| m.0)
}

enum Frame {
    Enter(MessageId),
    Exit(MessageId),
}

spec fn stack_has_enter(st: Seq<Frame>, k: u64) -> bool {
    exists|i: int| 0 <= i < st.len() && frame_is_enter(#[trigger] st[i]) && frame_key(st[i]) == k
}

spec fn stack_has_exit(st: Seq<Frame>, k: u64) -> bool {
    exists|i: int| 0 <= i < st.len() && frame_is_exit(#[trigger] st[i]) && frame_key(st[i]) == k
}

spec fn frame_is_enter(fr: Frame) -> bool {
    fr matches Frame::Enter(_)
}

spec fn frame_is_exit(fr: Frame) -> bool {
    fr matches Frame::Exit(_)
}

spec fn frame_key(fr: Frame) -> u64 {
    match fr {
        Frame::Enter(m) => m.0,
        Frame::Exit(m) => m.0,
    }
}

/// Walks parent edges depth-first from `root`, descending per `filter`,
/// and reports the cone and its missing identifiers.
///
/// The result holds exactly the identifiers reachable from the root
/// through descended-into messages: among them, the stored ones that pass
/// the filter stand in `visited` (each exactly once, after its parents),
/// and those absent from the tangle stand in `missing` (each exactly
/// once). Solid entry points bound the walk and appear in neither list.
pub fn visit_parents_depth_first(
    tangle: &Tangle,
    requested_messages: &RequestedMessages,
    filter: VisitFilter,
    root: MessageId,
) -> (r: Traversal)
    requires
        tangle.wf(),
    ensures
        keys_of(r.visited@).no_duplicates(),
        keys_of(r.missing@).no_duplicates(),
        forall|z: u64|
            #![trigger keys_of(r.visited@).contains(z)]
            #![trigger reaches(*tangle, requested_messages.requests@, filter, root.0, z)]
            keys_of(r.visited@).contains(z) <==> reaches(
                *tangle,
                requested_messages.requests@,
                filter,
                root.0,
                z,
            ) && descends(*tangle, requested_messages.requests@, filter, z),
        forall|z: u64|
            #![trigger keys_of(r.missing@).contains(z)]
            #![trigger reaches(*tangle, requested_messages.requests@, filter, root.0, z)]
            keys_of(r.missing@).contains(z) <==> reaches(
                *tangle,
                requested_messages.requests@,
                filter,
                root.0,
                z,
            ) && !tangle.has_message(z) && !tangle.is_sep(z),
{
    let ghost t = *tangle;
    let ghost rq = requested_messages.requests@;
    let mut stack: Vec<Frame> = Vec::new();
    stack.push(Frame::Enter(root));
    let mut seen: HashSet<u64> = HashSet::new();
    let mut visited: Vec<MessageId> = Vec::new();
    let mut missing: Vec<MessageId> = Vec::new();
    proof {
        let w0 = seq![root.0];
        assert(is_walk(t, rq, filter, w0) && w0[0] == root.0 && w0.last() == root.0);
        assert(reaches(t, rq, filter, root.0, root.0));
        assert(frame_is_enter(stack@[0]) && frame_key(stack@[0]) == root.0);
        assert(stack_has_enter(stack@, root.0));
    }
    while stack.len() > 0
        invariant
            tangle.wf(),
            t == *tangle,
            rq == requested_messages.requests@,
            forall|k: u64| #[trigger] seen@.contains(k) ==> reaches(t, rq, filter, root.0, k),
            forall|i: int|
                0 <= i < stack@.len() ==> reaches(t, rq, filter, root.0, frame_key(#[trigger] stack@[i])),
            seen@.contains(root.0) || stack_has_enter(stack@, root.0),
            forall|k: u64, j: int|
                seen@.contains(k) && descends(t, rq, filter, k) && 0 <= j < t.msg_of(k).parents@.len()
                    ==> seen@.contains((#[trigger] t.msg_of(k).parents@[j]).0) || stack_has_enter(
                    stack@,
                    t.msg_of(k).parents@[j].0,
                ),
            forall|z: u64|
                #![trigger keys_of(visited@).contains(z)]
                #![trigger stack_has_exit(stack@, z)]
                #![trigger seen@.contains(z)]
                (keys_of(visited@).contains(z) || stack_has_exit(stack@, z)) <==> seen@.contains(z)
                    && descends(t, rq, filter, z),
            forall|z: u64| #[trigger] keys_of(visited@).contains(z) ==> !stack_has_exit(stack@, z),
            forall|i: int, j: int|
                0 <= i < j < stack@.len() && frame_is_exit(#[trigger] stack@[i]) && frame_is_exit(
                    #[trigger] stack@[j],
                ) ==> frame_key(stack@[i]) != frame_key(stack@[j]),
            keys_of(visited@).no_duplicates(),
            forall|z: u64|
                #![trigger keys_of(missing@).contains(z)]
                #![trigger seen@.contains(z)]
                keys_of(missing@).contains(z) <==> seen@.contains(z) && !t.has_message(z) && !t.is_sep(z),
            keys_of(missing@).no_duplicates(),
        decreases 9 * t.messages@.dom().difference(seen@).len() + stack@.len(),
    {
        proof {
            vstd::set::axiom_set_difference_finite(t.messages@.dom(), seen@);
        }
        let ghost pre = stack@;
        let ghost seen0 = seen@;
        let ghost diff0 = t.messages@.dom().difference(seen@);
        let fr = stack.pop().unwrap();
        proof {
            assert(stack@.push(fr) =~= pre);
        }
        match fr {
            Frame::Exit(id) => {
                proof {
                    assert(stack_has_exit(pre, id.0)) by {
                        assert(frame_is_exit(pre[pre.len() - 1]) && frame_key(pre[pre.len() - 1]) == id.0);
                    }
                    assert(keys_of(visited@).contains(id.0) || stack_has_exit(pre, id.0));
                    assert(seen@.contains(id.0) && descends(t, rq, filter, id.0));
                    assert(!keys_of(visited@).contains(id.0));
                    assert(!stack_has_exit(stack@, id.0)) by {
                        if stack_has_exit(stack@, id.0) {
                            let i = choose|i: int|
                                0 <= i < stack@.len() && frame_is_exit(#[trigger] stack@[i]) && frame_key(
                                    stack@[i],
                                ) == id.0;
                            assert(frame_is_exit(pre[i]) && frame_key(pre[i]) == id.0);
                            assert(frame_is_exit(pre[pre.len() - 1]));
                        }
                    }
                }
                let ghost visited0 = visited@;
                visited.push(id);
                proof {
                    assert(keys_of(visited@) =~= keys_of(visited0).push(id.0));
                    assert forall|z: u64|
                        #![trigger keys_of(visited@).contains(z)]
                        #![trigger stack_has_exit(stack@, z)]
                        #![trigger seen@.contains(z)]
                        (keys_of(visited@).contains(z) || stack_has_exit(stack@, z))
                            <==> seen@.contains(z) && descends(t, rq, filter, z) by {
                        if keys_of(visited@).contains(z) || stack_has_exit(stack@, z) {
                            if stack_has_exit(stack@, z) {
                                let i = choose|i: int|
                                    0 <= i < stack@.len() && frame_is_exit(#[trigger] stack@[i])
                                        && frame_key(stack@[i]) == z;
                                assert(frame_is_exit(pre[i]) && frame_key(pre[i]) == z);
                                assert(keys_of(visited0).contains(z) || stack_has_exit(pre, z));
                            } else if z == id.0 {
                                assert(keys_of(visited0).contains(z) || stack_has_exit(pre, z));
                            } else {
                                assert(keys_of(visited0).contains(z));
                            }
                            assert(seen@.contains(z) && descends(t, rq, filter, z));
                        }
                        if seen@.contains(z) && descends(t, rq, filter, z) {
                            assert(keys_of(visited0).contains(z) || stack_has_exit(pre, z));
                            if z != id.0 {
                                if stack_has_exit(pre, z) {
                                    let i = choose|i: int|
                                        0 <= i < pre.len() && frame_is_exit(#[trigger] pre[i]) && frame_key(
                                            pre[i],
                                        ) == z;
                                    assert(i < stack@.len());
                                    assert(frame_is_exit(stack@[i]) && frame_key(stack@[i]) == z);
                                } else {
                                    assert(keys_of(visited@).contains(z));
                                }
                            }
                        }
                    }
                    assert forall|z: u64| #[trigger] keys_of(visited@).contains(z) implies !stack_has_exit(
                        stack@,
                        z,
                    ) by {
                        if z != id.0 && stack_has_exit(stack@, z) {
                            assert(keys_of(visited0).contains(z));
                            assert(stack_has_exit(pre, z));
                        }
                    }
                    assert forall|k: u64, j: int|
                        seen@.contains(k) && descends(t, rq, filter, k) && 0 <= j < t.msg_of(
                            k,
                        ).parents@.len() implies seen@.contains((#[trigger] t.msg_of(k).parents@[j]).0)
                        || stack_has_enter(stack@, t.msg_of(k).parents@[j].0) by {
                        let p = t.msg_of(k).parents@[j].0;
                        if !seen@.contains(p) {
                            assert(stack_has_enter(pre, p));
                            lemma_enter_not_last(pre, stack@, fr, p);
                        }
                    }
                    if !seen@.contains(root.0) {
                        lemma_enter_not_last(pre, stack@, fr, root.0);
                    }
                }
            },
            Frame::Enter(id) => {
                let k = id.0;
                proof {
                    assert(reaches(t, rq, filter, root.0, k)) by {
                        assert(frame_key(pre[pre.len() - 1]) == k);
                    }
                }
                if seen.contains(&k) {
                    proof {
                        lemma_simple_pop(t, rq, filter, root.0, seen0, seen@, stack@, fr, visited@);
                        assert(t.messages@.dom().difference(seen@) =~= diff0);
                    }
                } else {
                    let is_sep_here = tangle.is_solid_entry_point(&id);
                    let present = tangle.contains(&id);
                    if is_sep_here || !present {
                        seen.insert(k);
                        if !is_sep_here {
                            let ghost missing0 = missing@;
                            missing.push(id);
                            proof {
                                assert(keys_of(missing@) =~= keys_of(missing0).push(k));
                                assert(!keys_of(missing0).contains(k));
                            }
                        }
                        proof {
                            assert(seen@ =~= seen0.insert(k));
                            assert(!descends(t, rq, filter, k));
                            lemma_simple_pop(t, rq, filter, root.0, seen0, seen@, stack@, fr, visited@);
                            assert(!t.has_message(k));
                            assert(t.messages@.dom().difference(seen@) =~= diff0);
                            assert forall|z: u64|
                                #![trigger keys_of(missing@).contains(z)]
                                #![trigger seen@.contains(z)]
                                keys_of(missing@).contains(z) <==> seen@.contains(z) && !t.has_message(z)
                                && !t.is_sep(z) by {
                                if z != k && seen@.contains(z) {
                                    assert(seen0.contains(z));
                                }
                            }
                        }
                    } else {
                        let passes_here = passes_exec(tangle, requested_messages, filter, &id);
                        seen.insert(k);
                        proof {
                            assert(seen@ =~= seen0.insert(k));
                            assert(t.messages@.dom().difference(seen@) =~= diff0.remove(k));
                            assert(diff0.contains(k));
                            vstd::set::axiom_set_remove_len(diff0, k);
                        }
                        if passes_here {
                            let ghost mid_stack = stack@;
                            stack.push(Frame::Exit(id));
                            proof {
                                assert(frame_is_exit(stack@[mid_stack.len() as int]));
                            }
                            let n = tangle.get(&id).unwrap().parents().len();
                            proof {
                                assert(t.msg_of(k).is_valid());
                            }
                            let mut j: usize = n;
                            while j > 0
                                invariant
                                    tangle.wf(),
                                    t == *tangle,
                                    id.0 == k,
                                    t.has_message(k),
                                    0 <= j <= n,
                                    n == t.msg_of(k).parents@.len(),
                                    stack@.len() == mid_stack.len() + 1 + (n - j),
                                    forall|i: int| 0 <= i < mid_stack.len() ==> stack@[i] == mid_stack[i],
                                    frame_is_exit(stack@[mid_stack.len() as int]) && frame_key(
                                        stack@[mid_stack.len() as int],
                                    ) == k,
                                    forall|i: int|
                                        mid_stack.len() + 1 <= i < stack@.len() ==> frame_is_enter(
                                            #[trigger] stack@[i],
                                        ) && frame_key(stack@[i]) == t.msg_of(k).parents@[j + (stack@.len()
                                            - 1 - i)].0,
                                decreases j,
                            {
                                let p = tangle.get(&id).unwrap().parents()[j - 1];
                                stack.push(Frame::Enter(p));
                                j -= 1;
                                proof {
                                    assert(frame_is_enter(stack@[stack@.len() - 1]));
                                    assert(frame_key(stack@[stack@.len() - 1]) == t.msg_of(k).parents@[j as int].0);
                                }
                            }
                            proof {
                                lemma_after_expand(t, rq, filter, root.0, seen@, mid_stack, stack@, k);
                                let st = stack@;
                                assert(descends(t, rq, filter, k));
                                // reachability of every frame
                                assert forall|i: int| 0 <= i < st.len() implies reaches(
                                    t,
                                    rq,
                                    filter,
                                    root.0,
                                    frame_key(#[trigger] st[i]),
                                ) by {
                                    if i < mid_stack.len() {
                                        assert(st[i] == pre[i]);
                                        assert(reaches(t, rq, filter, root.0, frame_key(pre[i])));
                                    } else if i == mid_stack.len() {
                                        assert(frame_key(st[i]) == k);
                                    } else {
                                        let jj = st.len() - 1 - i;
                                        assert(frame_key(st[i]) == t.msg_of(k).parents@[jj].0);
                                        lemma_reaches_step(
                                            t,
                                            rq,
                                            filter,
                                            root.0,
                                            k,
                                            t.msg_of(k).parents@[jj].0,
                                        );
                                    }
                                }
                                // seen reachability
                                assert forall|z: u64| #[trigger] seen@.contains(z) implies reaches(
                                    t,
                                    rq,
                                    filter,
                                    root.0,
                                    z,
                                ) by {
                                    if z != k {
                                        assert(seen0.contains(z));
                                    }
                                }
                                // root accounting
                                assert(seen@.contains(root.0) || stack_has_enter(st, root.0)) by {
                                    if !seen@.contains(root.0) {
                                        assert(!seen0.contains(root.0));
                                        let i = choose|i: int|
                                            0 <= i < pre.len() && frame_is_enter(#[trigger] pre[i])
                                                && frame_key(pre[i]) == root.0;
                                        assert(i < mid_stack.len());
                                        assert(frame_is_enter(st[i]) && frame_key(st[i]) == root.0);
                                    }
                                }
                                // parent accounting
                                assert forall|z: u64, j2: int|
                                    seen@.contains(z) && descends(t, rq, filter, z) && 0 <= j2 < t.msg_of(
                                        z,
                                    ).parents@.len() implies seen@.contains(
                                    (#[trigger] t.msg_of(z).parents@[j2]).0,
                                ) || stack_has_enter(st, t.msg_of(z).parents@[j2].0) by {
                                    let p = t.msg_of(z).parents@[j2].0;
                                    if z == k {
                                        assert(stack_has_enter(st, p));
                                    } else if !seen@.contains(p) {
                                        assert(seen0.contains(z));
                                        assert(!seen0.contains(p));
                                        assert(stack_has_enter(pre, p));
                                        let i = choose|i: int|
                                            0 <= i < pre.len() && frame_is_enter(#[trigger] pre[i])
                                                && frame_key(pre[i]) == p;
                                        if i < mid_stack.len() {
                                            assert(frame_is_enter(st[i]) && frame_key(st[i]) == p);
                                        } else {
                                            assert(frame_key(pre[i]) == k);
                                        }
                                    }
                                }
                                // exit-frame accounting
                                assert forall|z: u64|
                                    #![trigger keys_of(visited@).contains(z)]
                                    #![trigger stack_has_exit(st, z)]
                                    #![trigger seen@.contains(z)]
                                    (keys_of(visited@).contains(z) || stack_has_exit(st, z))
                                        <==> seen@.contains(z) && descends(t, rq, filter, z) by {
                                    if z == k {
                                        assert(stack_has_exit(st, k));
                                        assert(seen@.contains(k));
                                    } else {
                                        if keys_of(visited@).contains(z) || stack_has_exit(st, z) {
                                            if stack_has_exit(st, z) {
                                                assert(stack_has_exit(mid_stack, z));
                                                lemma_exit_into_push(mid_stack, fr, z);
                                            }
                                            assert(seen0.contains(z) && descends(t, rq, filter, z));
                                        }
                                        if seen@.contains(z) && descends(t, rq, filter, z) {
                                            assert(seen0.contains(z));
                                            if !keys_of(visited@).contains(z) {
                                                assert(stack_has_exit(pre, z));
                                                let i = choose|i: int|
                                                    0 <= i < pre.len() && frame_is_exit(#[trigger] pre[i])
                                                        && frame_key(pre[i]) == z;
                                                assert(i < mid_stack.len());
                                                assert(frame_is_exit(st[i]) && frame_key(st[i]) == z);
                                            }
                                        }
                                    }
                                }
                                // visited never has a pending exit
                                assert forall|z: u64| #[trigger]
                                    keys_of(visited@).contains(z) implies !stack_has_exit(st, z) by {
                                    if stack_has_exit(st, z) {
                                        if z == k {
                                            assert(seen0.contains(k) && descends(t, rq, filter, k));
                                        } else {
                                            assert(stack_has_exit(mid_stack, z));
                                            lemma_exit_into_push(mid_stack, fr, z);
                                            assert(stack_has_exit(pre, z));
                                        }
                                    }
                                }
                                // pending exits pairwise distinct
                                assert forall|i1: int, i2: int|
                                    0 <= i1 < i2 < st.len() && frame_is_exit(#[trigger] st[i1])
                                        && frame_is_exit(#[trigger] st[i2]) implies frame_key(st[i1])
                                    != frame_key(st[i2]) by {
                                    if i2 <= mid_stack.len() {
                                        if i2 < mid_stack.len() {
                                            assert(st[i1] == pre[i1] && st[i2] == pre[i2]);
                                        } else {
                                            assert(frame_key(st[i2]) == k);
                                            assert(st[i1] == pre[i1]);
                                            if frame_key(st[i1]) == k {
                                                assert(stack_has_exit(pre, k));
                                                assert(seen0.contains(k));
                                            }
                                        }
                                    }
                                }
                                // missing bookkeeping untouched
                                assert forall|z: u64|
                                    #![trigger keys_of(missing@).contains(z)]
                                    #![trigger seen@.contains(z)]
                                    keys_of(missing@).contains(z) <==> seen@.contains(z) && !t.has_message(
                                        z,
                                    ) && !t.is_sep(z) by {
                                    if z == k {
                                        assert(t.has_message(k));
                                    }
                                    if z != k && seen@.contains(z) {
                                        assert(seen0.contains(z));
                                    }
                                }
                                // the measure shrinks despite the pushes
                                assert(st.len() <= mid_stack.len() + 9);
                            }
                        } else {
                            proof {
                                assert(!descends(t, rq, filter, k));
                                lemma_simple_pop(t, rq, filter, root.0, seen0, seen@, stack@, fr, visited@);
                                assert forall|z: u64|
                                    #![trigger keys_of(missing@).contains(z)]
                                    #![trigger seen@.contains(z)]
                                    keys_of(missing@).contains(z) <==> seen@.contains(z) && !t.has_message(
                                        z,
                                    ) && !t.is_sep(z) by {
                                    if z == k {
                                        assert(t.has_message(k));
                                    }
                                    if z != k && seen@.contains(z) {
                                        assert(seen0.contains(z));
                                    }
                                }
                            }
                        }
                    }
                }
            },
        }
    }
    proof {
        assert forall|z: u64| reaches(t, rq, filter, root.0, z) implies seen@.contains(z) by {
            let w = choose|w: Seq<u64>| is_walk(t, rq, filter, w) && w[0] == root.0 && w.last() == z;
            lemma_walk_stays_in_closed_set(t, rq, filter, seen@, w);
        }
        assert forall|z: u64| #[trigger] keys_of(visited@).contains(z) implies reaches(
            t,
            rq,
            filter,
            root.0,
            z,
        ) && descends(t, rq, filter, z) by {}
    }
    Traversal { visited, missing }
}

/// A frame standing in a stack also stands in that stack with one more
/// frame pushed on top.
proof fn lemma_exit_into_push(st: Seq<Frame>, fr: Frame, z: u64)
    requires
        stack_has_exit(st, z),
    ensures
        stack_has_exit(st.push(fr), z),
{
    let i = choose|i: int| 0 <= i < st.len() && frame_is_exit(#[trigger] st[i]) && frame_key(st[i]) == z;
    assert(frame_is_exit(st.push(fr)[i]) && frame_key(st.push(fr)[i]) == z);
}

/// An enter frame of the pre-pop stack that is not the popped frame still
/// stands in the post-pop stack.
proof fn lemma_enter_not_last(pre: Seq<Frame>, st: Seq<Frame>, fr: Frame, z: u64)
    requires
        pre =~= st.push(fr),
        stack_has_enter(pre, z),
        frame_is_enter(fr) ==> frame_key(fr) != z,
    ensures
        stack_has_enter(st, z),
{
    let i = choose|i: int| 0 <= i < pre.len() && frame_is_enter(#[trigger] pre[i]) && frame_key(pre[i]) == z;
    assert(i < st.len());
    assert(frame_is_enter(st[i]) && frame_key(st[i]) == z);
}

/// Re-establishes the walk's bookkeeping after popping an enter frame that
/// is not descended into (already seen, an entry point, absent, or failing
/// the filter).
proof fn lemma_simple_pop(
    t: Tangle,
    rq: Map<u64, crate::requester::RequestedEntry>,
    f: VisitFilter,
    root: u64,
    seen_old: Set<u64>,
    seen_new: Set<u64>,
    st: Seq<Frame>,
    fr: Frame,
    visited: Seq<MessageId>,
)
    requires
        frame_is_enter(fr),
        seen_new =~= seen_old.insert(frame_key(fr)),
        seen_old.contains(frame_key(fr)) || !descends(t, rq, f, frame_key(fr)),
        reaches(t, rq, f, root, frame_key(fr)),
        forall|k: u64| #[trigger] seen_old.contains(k) ==> reaches(t, rq, f, root, k),
        forall|i: int|
            0 <= i < st.push(fr).len() ==> reaches(t, rq, f, root, frame_key(#[trigger] st.push(fr)[i])),
        seen_old.contains(root) || stack_has_enter(st.push(fr), root),
        forall|k: u64, j: int|
            seen_old.contains(k) && descends(t, rq, f, k) && 0 <= j < t.msg_of(k).parents@.len()
                ==> seen_old.contains((#[trigger] t.msg_of(k).parents@[j]).0) || stack_has_enter(
                st.push(fr),
                t.msg_of(k).parents@[j].0,
            ),
        forall|z: u64|
            #![trigger keys_of(visited).contains(z)]
            #![trigger stack_has_exit(st.push(fr), z)]
            #![trigger seen_old.contains(z)]
            (keys_of(visited).contains(z) || stack_has_exit(st.push(fr), z)) <==> seen_old.contains(
                z,
            ) && descends(t, rq, f, z),
        forall|z: u64| #[trigger] keys_of(visited).contains(z) ==> !stack_has_exit(st.push(fr), z),
        forall|i: int, j: int|
            0 <= i < j < st.push(fr).len() && frame_is_exit(#[trigger] st.push(fr)[i]) && frame_is_exit(
                #[trigger] st.push(fr)[j],
            ) ==> frame_key(st.push(fr)[i]) != frame_key(st.push(fr)[j]),
    ensures
        forall|k: u64| #[trigger] seen_new.contains(k) ==> reaches(t, rq, f, root, k),
        forall|i: int| 0 <= i < st.len() ==> reaches(t, rq, f, root, frame_key(#[trigger] st[i])),
        seen_new.contains(root) || stack_has_enter(st, root),
        forall|k: u64, j: int|
            seen_new.contains(k) && descends(t, rq, f, k) && 0 <= j < t.msg_of(k).parents@.len()
                ==> seen_new.contains((#[trigger] t.msg_of(k).parents@[j]).0) || stack_has_enter(
                st,
                t.msg_of(k).parents@[j].0,
            ),
        forall|z: u64|
            #![trigger keys_of(visited).contains(z)]
            #![trigger stack_has_exit(st, z)]
            #![trigger seen_new.contains(z)]
            (keys_of(visited).contains(z) || stack_has_exit(st, z)) <==> seen_new.contains(z)
                && descends(t, rq, f, z),
        forall|z: u64| #[trigger] keys_of(visited).contains(z) ==> !stack_has_exit(st, z),
        forall|i: int, j: int|
            0 <= i < j < st.len() && frame_is_exit(#[trigger] st[i]) && frame_is_exit(#[trigger] st[j])
                ==> frame_key(st[i]) != frame_key(st[j]),
{
    let pre = st.push(fr);
    let kf = frame_key(fr);
    assert forall|i: int| 0 <= i < st.len() implies reaches(t, rq, f, root, frame_key(#[trigger] st[i])) by {
        assert(st[i] == pre[i]);
        assert(reaches(t, rq, f, root, frame_key(pre[i])));
    }
    assert forall|z: u64|
        stack_has_exit(st, z) <==> stack_has_exit(pre, z) by {
        if stack_has_exit(st, z) {
            let i = choose|i: int| 0 <= i < st.len() && frame_is_exit(#[trigger] st[i]) && frame_key(st[i]) == z;
            assert(frame_is_exit(pre[i]) && frame_key(pre[i]) == z);
        }
        if stack_has_exit(pre, z) {
            let i = choose|i: int|
                0 <= i < pre.len() && frame_is_exit(#[trigger] pre[i]) && frame_key(pre[i]) == z;
            assert(i < st.len());
            assert(frame_is_exit(st[i]) && frame_key(st[i]) == z);
        }
    }
    if !seen_new.contains(root) {
        assert(!seen_old.contains(root));
        assert(root != kf);
        lemma_enter_not_last(pre, st, fr, root);
    }
    assert forall|k: u64, j: int|
        seen_new.contains(k) && descends(t, rq, f, k) && 0 <= j < t.msg_of(k).parents@.len()
            implies seen_new.contains((#[trigger] t.msg_of(k).parents@[j]).0) || stack_has_enter(
        st,
        t.msg_of(k).parents@[j].0,
    ) by {
        assert(seen_old.contains(k));
        let p = t.msg_of(k).parents@[j].0;
        if !seen_new.contains(p) {
            assert(!seen_old.contains(p));
            assert(p != kf);
            assert(stack_has_enter(pre, p));
            lemma_enter_not_last(pre, st, fr, p);
        }
    }
    assert forall|z: u64|
        #![trigger keys_of(visited).contains(z)]
        #![trigger stack_has_exit(st, z)]
        #![trigger seen_new.contains(z)]
        (keys_of(visited).contains(z) || stack_has_exit(st, z)) <==> seen_new.contains(z)
            && descends(t, rq, f, z) by {
        if keys_of(visited).contains(z) || stack_has_exit(st, z) {
            assert(keys_of(visited).contains(z) || stack_has_exit(pre, z));
            assert(seen_old.contains(z) && descends(t, rq, f, z));
        }
        if seen_new.contains(z) && descends(t, rq, f, z) {
            assert(seen_old.contains(z));
            assert(keys_of(visited).contains(z) || stack_has_exit(pre, z));
            assert(keys_of(visited).contains(z) || stack_has_exit(st, z));
        }
    }
    assert forall|i: int, j: int|
        0 <= i < j < st.len() && frame_is_exit(#[trigger] st[i]) && frame_is_exit(#[trigger] st[j])
            implies frame_key(st[i]) != frame_key(st[j]) by {
        assert(st[i] == pre[i] && st[j] == pre[j]);
    }
}

proof fn lemma_after_expand(
    t: Tangle,
    req: Map<u64, crate::requester::RequestedEntry>,
    f: VisitFilter,
    root: u64,
    seen: Set<u64>,
    mid_stack: Seq<Frame>,
    st: Seq<Frame>,
    k: u64,
)
    requires
        t.has_message(k),
        st.len() == mid_stack.len() + 1 + t.msg_of(k).parents@.len(),
        forall|i: int| 0 <= i < mid_stack.len() ==> st[i] == mid_stack[i],
        frame_is_exit(st[mid_stack.len() as int]) && frame_key(st[mid_stack.len() as int]) == k,
        forall|i: int|
            mid_stack.len() + 1 <= i < st.len() ==> frame_is_enter(#[trigger] st[i]) && frame_key(st[i]) == t.msg_of(k).parents@[(st.len() - 1 - i)].0,
    ensures
        forall|j: int|
            0 <= j < t.msg_of(k).parents@.len() ==> stack_has_enter(
                st,
                (#[trigger] t.msg_of(k).parents@[j]).0,
            ),
        forall|z: u64| stack_has_enter(mid_stack, z) ==> stack_has_enter(st, z),
        forall|z: u64| stack_has_exit(mid_stack, z) ==> stack_has_exit(st, z),
        stack_has_exit(st, k),
        forall|z: u64|
            stack_has_exit(st, z) ==> z == k || stack_has_exit(mid_stack, z),
        forall|z: u64|
            stack_has_enter(st, z) ==> stack_has_enter(mid_stack, z) || exists|j: int|
                0 <= j < t.msg_of(k).parents@.len() && (#[trigger] t.msg_of(k).parents@[j]).0 == z,
{
    let n = t.msg_of(k).parents@.len() as int;
    assert forall|j: int| 0 <= j < n implies stack_has_enter(st, (#[trigger] t.msg_of(k).parents@[j]).0) by {
        let i = st.len() - 1 - j;
        assert(frame_is_enter(st[i]) && frame_key(st[i]) == t.msg_of(k).parents@[j].0);
    }
    assert forall|z: u64| stack_has_enter(mid_stack, z) implies stack_has_enter(st, z) by {
        let i = choose|i: int|
            0 <= i < mid_stack.len() && frame_is_enter(#[trigger] mid_stack[i]) && frame_key(mid_stack[i]) == z;
        assert(frame_is_enter(st[i]) && frame_key(st[i]) == z);
    }
    assert forall|z: u64| stack_has_exit(mid_stack, z) implies stack_has_exit(st, z) by {
        let i = choose|i: int|
            0 <= i < mid_stack.len() && frame_is_exit(#[trigger] mid_stack[i]) && frame_key(mid_stack[i]) == z;
        assert(frame_is_exit(st[i]) && frame_key(st[i]) == z);
    }
    assert forall|z: u64| stack_has_exit(st, z) implies z == k || stack_has_exit(mid_stack, z) by {
        let i = choose|i: int| 0 <= i < st.len() && frame_is_exit(#[trigger] st[i]) && frame_key(st[i]) == z;
        if i < mid_stack.len() {
            assert(frame_is_exit(mid_stack[i]) && frame_key(mid_stack[i]) == z);
        }
    }
    assert forall|z: u64| stack_has_enter(st, z) implies stack_has_enter(mid_stack, z) || exists|j: int|
        0 <= j < t.msg_of(k).parents@.len() && (#[trigger] t.msg_of(k).parents@[j]).0 == z by {
        let i = choose|i: int| 0 <= i < st.len() && frame_is_enter(#[trigger] st[i]) && frame_key(st[i]) == z;
        if i < mid_stack.len() {
            assert(frame_is_enter(mid_stack[i]) && frame_key(mid_stack[i]) == z);
        } else {
            let j = st.len() - 1 - i;
            assert(t.msg_of(k).parents@[j].0 == z);
        }
    }
}

/// Whether the walk descends into the stored message under `id`.
fn passes_exec(tangle: &Tangle, requested_messages: &RequestedMessages, filter: VisitFilter, id: &MessageId) -> (r:
    bool)
    requires
        tangle.wf(),
        tangle.has_message(id.0),
    ensures
        r == passes(*tangle, requested_messages.requests@, filter, id.0),
{
    let md = tangle.get_metadata(id).unwrap();
    match filter {
        VisitFilter::Unreferenced => md.milestone_index().is_none(),
        VisitFilter::UnsolidFor(target) => (!md.flags().is_requested() || id.0 == target)
            && !md.flags().is_solid() && !requested_messages.contains_key(id),
    }
}

} // verus!
