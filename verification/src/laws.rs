//! What a whole reconciliation run guarantees, proved over the plan
//! builder and the store model together.
//!
//! `lemma_meeting_sync_shape` and `lemma_paper_sync_shape` pin down the
//! exact remote collection a run leaves behind; the laws of the crate —
//! idempotence, link-id uniqueness, preservation of remote-authoritative
//! fields, creation of new rows, link resolution with a missing parent —
//! follow from them.

use vstd::prelude::*;
use crate::records::{MeetingRowView, PaperRowView, RemoteMeetingView, RemotePaperView};
use crate::reconcile::{
    apply_meeting_plan, apply_paper_plan, issue_match, meeting_cleared, meeting_creates,
    meeting_match, meeting_merged, meeting_op_for, meeting_plan, meeting_updated, paper_creates,
    paper_match, paper_op_for, paper_plan, paper_updated, papers_resolved, MeetingOpView,
    PaperOpView,
};

verus! {

/// Every local row carries its own id. The store of record hands out its
/// integer ids from an auto-increment key, so any collection it lists
/// satisfies this.
pub open spec fn distinct_meeting_ids(locals: Seq<MeetingRowView>) -> bool {
    forall|i: int, j: int|
        0 <= i < j < locals.len() ==> locals[i].fields_id_neq(locals[j])
}

impl MeetingRowView {
    /// The two rows carry different ids (a named form, for triggering).
    pub open spec fn fields_id_neq(self, other: MeetingRowView) -> bool {
        self.id != other.id
    }
}

/// At most one remote record is linked to any one local id.
pub open spec fn unique_meeting_links(remote: Seq<RemoteMeetingView>) -> bool {
    forall|i: int, j: int|
        0 <= i < j < remote.len() ==> (#[trigger] remote[i]).fields.id != (
        #[trigger] remote[j]).fields.id
}

/// Every remote record carries its own opaque id.
pub open spec fn distinct_record_ids(remote: Seq<RemoteMeetingView>) -> bool {
    forall|i: int, j: int|
        0 <= i < j < remote.len() ==> (#[trigger] remote[i]).record_id != (
        #[trigger] remote[j]).record_id
}

/// The opaque ids the store hands to creates: pairwise distinct and not
/// carried by any fetched record. The mirror mints every created record
/// its own new id, so what it assigns satisfies this.
pub open spec fn fresh_record_ids(ids: Seq<Seq<char>>, remote: Seq<RemoteMeetingView>) -> bool {
    &&& forall|i: int, j: int| 0 <= i < j < ids.len() ==> ids[i] != ids[j]
    &&& forall|i: int, t: int|
        0 <= i < ids.len() && 0 <= t < remote.len() ==> #[trigger] ids[i] != (
        #[trigger] remote[t]).record_id
}

/// The rows a run creates: the local rows that match no fetched record,
/// papers cleared, in input order.
pub open spec fn meeting_creations(
    locals: Seq<MeetingRowView>,
    remote: Seq<RemoteMeetingView>,
) -> Seq<MeetingRowView>
    decreases locals.len(),
{
    if locals.len() == 0 {
        seq![]
    } else if meeting_match(remote, locals[0].id) is None {
        seq![meeting_cleared(locals[0])] + meeting_creations(locals.skip(1), remote)
    } else {
        meeting_creations(locals.skip(1), remote)
    }
}

/// The local row whose write lands last on fetched record `t`.
pub open spec fn meeting_updater(
    locals: Seq<MeetingRowView>,
    remote: Seq<RemoteMeetingView>,
    t: int,
) -> Option<int>
    decreases locals.len(),
{
    if locals.len() == 0 {
        None
    } else if meeting_match(remote, locals.last().id) == Some(t) {
        Some(locals.len() - 1)
    } else {
        meeting_updater(locals.drop_last(), remote, t)
    }
}

/// What fetched record `t` holds after the run: the last matching local
/// row's fields with the record's own papers read back, or the record
/// unchanged when no local row targets it.
pub open spec fn meeting_final_record(
    locals: Seq<MeetingRowView>,
    remote: Seq<RemoteMeetingView>,
    t: int,
) -> RemoteMeetingView {
    match meeting_updater(locals, remote, t) {
        Some(i) => RemoteMeetingView {
            record_id: remote[t].record_id,
            fields: meeting_merged(locals[i], remote[t].fields.papers),
        },
        None => remote[t],
    }
}

/// The whole remote collection a run leaves behind: the fetched records,
/// each updated by its last matching local row, followed by the created
/// rows under the opaque ids the store assigned.
pub open spec fn meeting_sync_result(
    locals: Seq<MeetingRowView>,
    remote: Seq<RemoteMeetingView>,
    ids: Seq<Seq<char>>,
) -> Seq<RemoteMeetingView> {
    Seq::new(remote.len(), |t: int| meeting_final_record(locals, remote, t)) + Seq::new(
        meeting_creations(locals, remote).len(),
        |m: int| RemoteMeetingView { record_id: ids[m], fields: meeting_creations(locals, remote)[m] },
    )
}

/// A matched index is a real index, and matching means equal link ids.
pub proof fn lemma_meeting_match_some(remote: Seq<RemoteMeetingView>, id: int)
    ensures
        match meeting_match(remote, id) {
            Some(j) => 0 <= j < remote.len() && remote[j].fields.id == id,
            None => forall|t: int| 0 <= t < remote.len() ==> (#[trigger] remote[t]).fields.id != id,
        },
    decreases remote.len(),
{
    if remote.len() > 0 {
        lemma_meeting_match_some(remote.drop_last(), id);
        if remote.last().fields.id != id {
            assert(forall|t: int|
                0 <= t < remote.len() - 1 ==> remote.drop_last()[t] == remote[t]);
        }
    }
}

/// With at most one record per link id, a record holding the id is the
/// matched one.
pub proof fn lemma_meeting_match_unique(remote: Seq<RemoteMeetingView>, t: int)
    requires
        unique_meeting_links(remote),
        0 <= t < remote.len(),
    ensures
        meeting_match(remote, remote[t].fields.id) == Some(t),
    decreases remote.len(),
{
    if t == remote.len() - 1 {
    } else {
        assert(remote.last().fields.id != remote[t].fields.id);
        lemma_meeting_match_unique(remote.drop_last(), t);
        assert(remote.drop_last()[t] == remote[t]);
    }
}

proof fn lemma_creations_snoc(locals: Seq<MeetingRowView>, remote: Seq<RemoteMeetingView>)
    requires
        locals.len() > 0,
    ensures
        meeting_creations(locals, remote) == if meeting_match(remote, locals.last().id) is None {
            meeting_creations(locals.drop_last(), remote).push(meeting_cleared(locals.last()))
        } else {
            meeting_creations(locals.drop_last(), remote)
        },
    decreases locals.len(),
{
    if locals.len() == 1 {
        assert(locals.skip(1) =~= Seq::<MeetingRowView>::empty());
        assert(locals.drop_last() =~= Seq::<MeetingRowView>::empty());
        assert(meeting_creations(Seq::<MeetingRowView>::empty(), remote) =~= Seq::<
            MeetingRowView,
        >::empty());
        if meeting_match(remote, locals[0].id) is None {
            assert(meeting_creations(locals, remote) =~= Seq::<MeetingRowView>::empty().push(
                meeting_cleared(locals[0]),
            ));
        }
    } else {
        lemma_creations_snoc(locals.skip(1), remote);
        assert(locals.skip(1).drop_last() =~= locals.drop_last().skip(1));
        assert(locals.skip(1).last() == locals.last());
        assert(locals.drop_last()[0] == locals[0]);
        if meeting_match(remote, locals.last().id) is None {
            if meeting_match(remote, locals[0].id) is None {
                assert(seq![meeting_cleared(locals[0])] + meeting_creations(
                    locals.drop_last().skip(1),
                    remote,
                ).push(meeting_cleared(locals.last())) =~= (seq![meeting_cleared(locals[0])]
                    + meeting_creations(locals.drop_last().skip(1), remote)).push(
                    meeting_cleared(locals.last()),
                ));
            }
        }
    }
}

/// The number of creates a plan holds is the number of created rows.
pub proof fn lemma_creates_eq_creations(
    locals: Seq<MeetingRowView>,
    remote: Seq<RemoteMeetingView>,
)
    ensures
        meeting_creates(meeting_plan(locals, remote)) == meeting_creations(locals, remote).len(),
    decreases locals.len(),
{
    if locals.len() == 0 {
        assert(meeting_plan(locals, remote) =~= Seq::<MeetingOpView>::empty());
    } else {
        lemma_creates_eq_creations(locals.drop_last(), remote);
        lemma_creations_snoc(locals, remote);
        let plan = meeting_plan(locals, remote);
        assert(plan.drop_last() =~= meeting_plan(locals.drop_last(), remote));
        assert(plan.last() == meeting_op_for(locals.last(), remote));
        assert(plan.last() is Create <==> meeting_match(remote, locals.last().id) is None);
    }
}

proof fn lemma_creations_prefix_step(
    locals: Seq<MeetingRowView>,
    remote: Seq<RemoteMeetingView>,
    m: int,
)
    requires
        0 <= m < locals.len(),
    ensures
        meeting_creations(locals.subrange(0, m + 1), remote) == if meeting_match(
            remote,
            locals[m].id,
        ) is None {
            meeting_creations(locals.subrange(0, m), remote).push(meeting_cleared(locals[m]))
        } else {
            meeting_creations(locals.subrange(0, m), remote)
        },
{
    let pre = locals.subrange(0, m + 1);
    lemma_creations_snoc(pre, remote);
    assert(pre.last() == locals[m]);
    assert(pre.drop_last() =~= locals.subrange(0, m));
}

proof fn lemma_creations_prefix_bound(
    locals: Seq<MeetingRowView>,
    remote: Seq<RemoteMeetingView>,
    m: int,
)
    requires
        0 <= m <= locals.len(),
    ensures
        meeting_creations(locals.subrange(0, m), remote).len() <= meeting_creations(
            locals,
            remote,
        ).len(),
        meeting_creations(locals.subrange(0, m), remote) == meeting_creations(
            locals,
            remote,
        ).subrange(0, meeting_creations(locals.subrange(0, m), remote).len() as int),
    decreases locals.len() - m,
{
    if m == locals.len() {
        assert(locals.subrange(0, m) =~= locals);
        let c = meeting_creations(locals, remote);
        assert(c.subrange(0, c.len() as int) =~= c);
    } else {
        lemma_creations_prefix_bound(locals, remote, m + 1);
        lemma_creations_prefix_step(locals, remote, m);
        let cm = meeting_creations(locals.subrange(0, m), remote);
        let cm1 = meeting_creations(locals.subrange(0, m + 1), remote);
        let c = meeting_creations(locals, remote);
        if meeting_match(remote, locals[m].id) is None {
            assert(cm1 == cm.push(meeting_cleared(locals[m])));
            assert(cm1.len() == cm.len() + 1);
            assert(cm =~= cm1.subrange(0, cm.len() as int));
            assert(cm1.subrange(0, cm.len() as int) =~= c.subrange(
                0,
                cm1.len() as int,
            ).subrange(0, cm.len() as int));
            assert(c.subrange(0, cm1.len() as int).subrange(0, cm.len() as int) =~= c.subrange(
                0,
                cm.len() as int,
            ));
        }
    }
}

proof fn lemma_updater_snoc(
    locals: Seq<MeetingRowView>,
    remote: Seq<RemoteMeetingView>,
    t: int,
)
    requires
        locals.len() > 0,
    ensures
        meeting_updater(locals, remote, t) == if meeting_match(remote, locals.last().id) == Some(t) {
            Some(locals.len() - 1)
        } else {
            meeting_updater(locals.drop_last(), remote, t)
        },
{
}

/// The updating local row is a real row, and its id matches the record.
pub proof fn lemma_meeting_updater_some(
    locals: Seq<MeetingRowView>,
    remote: Seq<RemoteMeetingView>,
    t: int,
)
    ensures
        match meeting_updater(locals, remote, t) {
            Some(i) => 0 <= i < locals.len() && meeting_match(remote, locals[i].id) == Some(t),
            None => forall|i: int|
                0 <= i < locals.len() ==> meeting_match(
                    remote,
                    (#[trigger] locals[i]).id,
                ) != Some(t),
        },
    decreases locals.len(),
{
    if locals.len() > 0 {
        lemma_meeting_updater_some(locals.drop_last(), remote, t);
        if meeting_match(remote, locals.last().id) != Some(t) {
            assert(forall|i: int|
                0 <= i < locals.len() - 1 ==> locals.drop_last()[i] == locals[i]);
        }
    }
}

/// The shape of a whole run: applying the plan built against the fetched
/// records yields exactly `meeting_sync_result`.
pub proof fn lemma_meeting_sync_shape(
    locals: Seq<MeetingRowView>,
    remote: Seq<RemoteMeetingView>,
    ids: Seq<Seq<char>>,
)
    requires
        distinct_record_ids(remote),
        fresh_record_ids(ids, remote),
        ids.len() == meeting_creations(locals, remote).len(),
    ensures
        apply_meeting_plan(remote, meeting_plan(locals, remote), ids) == meeting_sync_result(
            locals,
            remote,
            ids,
        ),
{
    assert(locals.subrange(0, 0) =~= Seq::<MeetingRowView>::empty());
    assert(meeting_sync_result(locals.subrange(0, 0), remote, ids) =~= remote);
    assert(meeting_plan(locals, remote).skip(0) =~= meeting_plan(locals, remote));
    assert(ids.skip(0) =~= ids);
    lemma_meeting_sync_shape_rec(locals, remote, ids, 0);
}

proof fn lemma_meeting_sync_shape_rec(
    locals: Seq<MeetingRowView>,
    remote: Seq<RemoteMeetingView>,
    ids: Seq<Seq<char>>,
    m: int,
)
    requires
        distinct_record_ids(remote),
        fresh_record_ids(ids, remote),
        ids.len() == meeting_creations(locals, remote).len(),
        0 <= m <= locals.len(),
    ensures
        apply_meeting_plan(
            meeting_sync_result(locals.subrange(0, m), remote, ids),
            meeting_plan(locals, remote).skip(m),
            ids.skip(meeting_creations(locals.subrange(0, m), remote).len() as int),
        ) == meeting_sync_result(locals, remote, ids),
    decreases locals.len() - m,
{
    let plan = meeting_plan(locals, remote);
    let pre = locals.subrange(0, m);
    let cm = meeting_creations(pre, remote).len() as int;
    let state = meeting_sync_result(pre, remote, ids);
    lemma_creations_prefix_bound(locals, remote, m);
    if m == locals.len() {
        assert(pre =~= locals);
        assert(plan.skip(m) =~= Seq::<MeetingOpView>::empty());
        assert(apply_meeting_plan(state, plan.skip(m), ids.skip(cm)) == state);
    } else {
        let pre1 = locals.subrange(0, m + 1);
        let cm1 = meeting_creations(pre1, remote).len() as int;
        let state1 = meeting_sync_result(pre1, remote, ids);
        lemma_creations_prefix_bound(locals, remote, m + 1);
        lemma_creations_prefix_step(locals, remote, m);
        let rest = plan.skip(m);
        assert(rest[0] == plan[m]);
        assert(rest.skip(1) =~= plan.skip(m + 1));
        assert(plan[m] == meeting_op_for(locals[m], remote));
        lemma_meeting_match_some(remote, locals[m].id);
        match meeting_match(remote, locals[m].id) {
            Some(j) => {
                // an update: it lands exactly on fetched record j
                let f = meeting_merged(locals[m], remote[j].fields.papers);
                let rid = remote[j].record_id;
                assert(plan[m] == MeetingOpView::Update { record_id: rid, fields: f });
                let upd = meeting_updated(state, rid, f);
                assert(state.len() == remote.len() + cm);
                // which records of the current state carry the target id
                assert forall|t: int| 0 <= t < state.len() implies (state[t].record_id == rid <==> t
                    == j) by {
                    if t < remote.len() {
                        assert(state[t].record_id == remote[t].record_id);
                    } else {
                        assert(state[t].record_id == ids[t - remote.len()]);
                    }
                }
                assert(upd =~~= Seq::new(
                    state.len(),
                    |t: int|
                        if t == j {
                            RemoteMeetingView { record_id: rid, fields: f }
                        } else {
                            state[t]
                        },
                ));
                // stepping the partial result forward by one local row
                assert forall|t: int| 0 <= t < remote.len() implies meeting_final_record(
                    pre1,
                    remote,
                    t,
                ) == upd[t] by {
                    lemma_updater_snoc(pre1, remote, t);
                    lemma_meeting_updater_some(pre, remote, t);
                    assert(pre1.last() == locals[m]);
                    assert(pre1.drop_last() =~= pre);
                    assert(state[t] == meeting_final_record(pre, remote, t));
                    if t == j {
                        assert(meeting_updater(pre1, remote, t) == Some(m));
                        assert(pre1[m] == locals[m]);
                    } else {
                        assert(meeting_updater(pre1, remote, t) == meeting_updater(
                            pre,
                            remote,
                            t,
                        ));
                        match meeting_updater(pre, remote, t) {
                            Some(i) => {
                                assert(pre1[i] == pre[i]);
                            },
                            None => {},
                        }
                        assert(upd[t] == state[t]);
                    }
                }
                assert(cm1 == cm);
                assert(meeting_creations(pre1, remote) == meeting_creations(pre, remote));
                assert(state1 =~~= upd);
                assert(apply_meeting_plan(state, rest, ids.skip(cm)) == apply_meeting_plan(
                    upd,
                    rest.skip(1),
                    ids.skip(cm),
                ));
                lemma_meeting_sync_shape_rec(locals, remote, ids, m + 1);
            },
            None => {
                // a create: it lands at the end, under the next fresh id
                assert(plan[m] == MeetingOpView::Create { fields: meeting_cleared(locals[m]) });
                assert(cm1 == cm + 1);
                assert(cm < ids.len());
                assert(ids.skip(cm).len() > 0);
                assert(ids.skip(cm)[0] == ids[cm]);
                assert(ids.skip(cm).skip(1) =~= ids.skip(cm + 1));
                let created = RemoteMeetingView {
                    record_id: ids[cm],
                    fields: meeting_cleared(locals[m]),
                };
                assert forall|t: int| 0 <= t < remote.len() implies meeting_final_record(
                    pre1,
                    remote,
                    t,
                ) == meeting_final_record(pre, remote, t) by {
                    lemma_updater_snoc(pre1, remote, t);
                    lemma_meeting_updater_some(pre, remote, t);
                    assert(pre1.last() == locals[m]);
                    assert(pre1.drop_last() =~= pre);
                    assert(meeting_updater(pre1, remote, t) == meeting_updater(pre, remote, t));
                    match meeting_updater(pre, remote, t) {
                        Some(i) => {
                            assert(pre1[i] == pre[i]);
                        },
                        None => {},
                    }
                }
                assert(meeting_creations(pre1, remote) == meeting_creations(pre, remote).push(
                    meeting_cleared(locals[m]),
                ));
                assert(state1 =~~= state.push(created));
                assert(apply_meeting_plan(state, rest, ids.skip(cm)) == apply_meeting_plan(
                    state.push(created),
                    rest.skip(1),
                    ids.skip(cm + 1),
                ));
                lemma_meeting_sync_shape_rec(locals, remote, ids, m + 1);
            },
        }
    }
}

/// The local row a created record stems from: the index, among the local
/// rows, of the `m`-th one that matches no fetched record.
pub open spec fn creation_source(
    locals: Seq<MeetingRowView>,
    remote: Seq<RemoteMeetingView>,
    m: int,
) -> int
    decreases locals.len(),
{
    if locals.len() == 0 {
        0
    } else if meeting_match(remote, locals[0].id) is None {
        if m == 0 {
            0
        } else {
            1 + creation_source(locals.skip(1), remote, m - 1)
        }
    } else {
        1 + creation_source(locals.skip(1), remote, m)
    }
}

/// Each created row is a local row that matched nothing, papers cleared.
pub proof fn lemma_creation_source(
    locals: Seq<MeetingRowView>,
    remote: Seq<RemoteMeetingView>,
    m: int,
)
    requires
        0 <= m < meeting_creations(locals, remote).len(),
    ensures
        0 <= creation_source(locals, remote, m) < locals.len(),
        meeting_creations(locals, remote)[m] == meeting_cleared(
            locals[creation_source(locals, remote, m)],
        ),
        meeting_match(remote, locals[creation_source(locals, remote, m)].id) is None,
    decreases locals.len(),
{
    if locals.len() > 0 {
        if meeting_match(remote, locals[0].id) is None {
            if m == 0 {
            } else {
                lemma_creation_source(locals.skip(1), remote, m - 1);
                assert(locals.skip(1)[creation_source(locals.skip(1), remote, m - 1)] == locals[1
                    + creation_source(locals.skip(1), remote, m - 1)]);
            }
        } else {
            lemma_creation_source(locals.skip(1), remote, m);
            assert(locals.skip(1)[creation_source(locals.skip(1), remote, m)] == locals[1
                + creation_source(locals.skip(1), remote, m)]);
        }
    }
}

/// Later created rows stem from later local rows.
pub proof fn lemma_creation_source_mono(
    locals: Seq<MeetingRowView>,
    remote: Seq<RemoteMeetingView>,
    m1: int,
    m2: int,
)
    requires
        0 <= m1 < m2 < meeting_creations(locals, remote).len(),
    ensures
        creation_source(locals, remote, m1) < creation_source(locals, remote, m2),
    decreases locals.len(),
{
    lemma_creation_source(locals, remote, m1);
    lemma_creation_source(locals, remote, m2);
    if locals.len() > 0 {
        if meeting_match(remote, locals[0].id) is None {
            if m1 == 0 {
                lemma_creation_source(locals.skip(1), remote, m2 - 1);
            } else {
                lemma_creation_source_mono(locals.skip(1), remote, m1 - 1, m2 - 1);
            }
        } else {
            lemma_creation_source_mono(locals.skip(1), remote, m1, m2);
        }
    }
}

/// A fetched record keeps its link id through the whole run.
proof fn lemma_final_record_link_id(
    locals: Seq<MeetingRowView>,
    remote: Seq<RemoteMeetingView>,
    t: int,
)
    requires
        0 <= t < remote.len(),
    ensures
        meeting_final_record(locals, remote, t).fields.id == remote[t].fields.id,
        meeting_final_record(locals, remote, t).record_id == remote[t].record_id,
{
    lemma_meeting_updater_some(locals, remote, t);
    match meeting_updater(locals, remote, t) {
        Some(i) => {
            lemma_meeting_match_some(remote, locals[i].id);
        },
        None => {},
    }
}

/// Id uniqueness: when each fetched record is linked to at most one local
/// id and the local rows carry distinct ids, the collection a run leaves
/// behind again links at most one record to any one id. The premises are
/// the data model's identity invariants — unique local ids, one opaque id
/// per record, fresh ids for creates — which both stores keep on their
/// own.
pub proof fn lemma_id_uniqueness(
    locals: Seq<MeetingRowView>,
    remote: Seq<RemoteMeetingView>,
    ids: Seq<Seq<char>>,
)
    requires
        distinct_meeting_ids(locals),
        unique_meeting_links(remote),
        distinct_record_ids(remote),
        fresh_record_ids(ids, remote),
        ids.len() == meeting_creates(meeting_plan(locals, remote)),
    ensures
        unique_meeting_links(apply_meeting_plan(remote, meeting_plan(locals, remote), ids)),
{
    lemma_creates_eq_creations(locals, remote);
    lemma_meeting_sync_shape(locals, remote, ids);
    let res = meeting_sync_result(locals, remote, ids);
    let c = meeting_creations(locals, remote);
    let rlen = remote.len() as int;
    assert forall|i: int, j: int| 0 <= i < j < res.len() implies (#[trigger] res[i]).fields.id != (
    #[trigger] res[j]).fields.id by {
        if j < rlen {
            lemma_final_record_link_id(locals, remote, i);
            lemma_final_record_link_id(locals, remote, j);
        } else if i < rlen {
            lemma_final_record_link_id(locals, remote, i);
            lemma_creation_source(locals, remote, j - rlen);
            let sj = creation_source(locals, remote, j - rlen);
            lemma_meeting_match_some(remote, locals[sj].id);
            assert(res[j].fields.id == locals[sj].id);
        } else {
            lemma_creation_source(locals, remote, i - rlen);
            lemma_creation_source(locals, remote, j - rlen);
            lemma_creation_source_mono(locals, remote, i - rlen, j - rlen);
            let si = creation_source(locals, remote, i - rlen);
            let sj = creation_source(locals, remote, j - rlen);
            assert(locals[si].fields_id_neq(locals[sj]));
        }
    }
}

/// Remote-field preservation: a local row that matches a fetched record
/// leaves that record's operator-edited papers exactly as they were; the
/// rest of the record's fields become the local row's.
pub proof fn lemma_remote_fields_preserved(
    locals: Seq<MeetingRowView>,
    remote: Seq<RemoteMeetingView>,
    ids: Seq<Seq<char>>,
    i: int,
)
    requires
        distinct_meeting_ids(locals),
        distinct_record_ids(remote),
        fresh_record_ids(ids, remote),
        ids.len() == meeting_creates(meeting_plan(locals, remote)),
        0 <= i < locals.len(),
        meeting_match(remote, locals[i].id) is Some,
    ensures
        ({
            let res = apply_meeting_plan(remote, meeting_plan(locals, remote), ids);
            let j = meeting_match(remote, locals[i].id).unwrap();
            &&& res.len() == remote.len() + ids.len()
            &&& res[j].record_id == remote[j].record_id
            &&& res[j].fields == meeting_merged(locals[i], remote[j].fields.papers)
            &&& res[j].fields.papers == remote[j].fields.papers
            &&& res[j].fields.id == locals[i].id
        }),
{
    lemma_creates_eq_creations(locals, remote);
    lemma_meeting_sync_shape(locals, remote, ids);
    let res = meeting_sync_result(locals, remote, ids);
    let j = meeting_match(remote, locals[i].id).unwrap();
    lemma_meeting_match_some(remote, locals[i].id);
    lemma_meeting_updater_some(locals, remote, j);
    match meeting_updater(locals, remote, j) {
        Some(u) => {
            lemma_meeting_match_some(remote, locals[u].id);
            if u != i {
                if u < i {
                    assert(locals[u].fields_id_neq(locals[i]));
                } else {
                    assert(locals[i].fields_id_neq(locals[u]));
                }
            }
            assert(u == i);
        },
        None => {
            assert(false);
        },
    }
    assert(res[j] == meeting_final_record(locals, remote, j));
}

/// New-row creation: a local row that matches no fetched record leaves
/// exactly one record behind that carries its id, holding the serialized
/// local fields with an empty papers field, under a fresh opaque id. The
/// write itself counts toward the created tally, never the updated one:
/// the plan's entry for the row is a create, pinned by the reconcile
/// contract. The premises are the identity invariants, as above.
pub proof fn lemma_new_row_creation(
    locals: Seq<MeetingRowView>,
    remote: Seq<RemoteMeetingView>,
    ids: Seq<Seq<char>>,
    i: int,
)
    requires
        distinct_meeting_ids(locals),
        unique_meeting_links(remote),
        distinct_record_ids(remote),
        fresh_record_ids(ids, remote),
        ids.len() == meeting_creates(meeting_plan(locals, remote)),
        0 <= i < locals.len(),
        meeting_match(remote, locals[i].id) is None,
    ensures
        ({
            let res = apply_meeting_plan(remote, meeting_plan(locals, remote), ids);
            &&& res.len() == remote.len() + ids.len()
            &&& exists|j: int|
                0 <= j < res.len() && (#[trigger] res[j]).fields == meeting_cleared(locals[i])
            &&& forall|j1: int, j2: int|
                0 <= j1 < res.len() && 0 <= j2 < res.len() && (#[trigger] res[j1]).fields.id
                    == locals[i].id && (#[trigger] res[j2]).fields.id == locals[i].id ==> j1 == j2
        }),
{
    lemma_creates_eq_creations(locals, remote);
    lemma_meeting_sync_shape(locals, remote, ids);
    lemma_id_uniqueness(locals, remote, ids);
    let res = meeting_sync_result(locals, remote, ids);
    let rlen = remote.len() as int;
    // the created row stands right after the creations of the earlier rows
    lemma_creations_prefix_bound(locals, remote, i + 1);
    lemma_creations_prefix_step(locals, remote, i);
    lemma_creations_prefix_bound(locals, remote, i);
    let m = meeting_creations(locals.subrange(0, i), remote).len() as int;
    let c1 = meeting_creations(locals.subrange(0, i + 1), remote);
    assert(c1[m] == meeting_cleared(locals[i]));
    assert(meeting_creations(locals, remote).subrange(0, c1.len() as int)[m] == c1[m]);
    assert(meeting_creations(locals, remote)[m] == meeting_cleared(locals[i]));
    assert(res[rlen + m].fields == meeting_cleared(locals[i]));
    // at most one record carries this id, by link-id uniqueness
    let ures = apply_meeting_plan(remote, meeting_plan(locals, remote), ids);
    assert forall|j1: int, j2: int|
        0 <= j1 < ures.len() && 0 <= j2 < ures.len() && (#[trigger] ures[j1]).fields.id
            == locals[i].id && (#[trigger] ures[j2]).fields.id == locals[i].id implies j1 == j2 by {
        if j1 < j2 {
            assert(ures[j1].fields.id != ures[j2].fields.id);
        } else if j2 < j1 {
            assert(ures[j2].fields.id != ures[j1].fields.id);
        }
    }
}

proof fn lemma_creations_on_empty(locals: Seq<MeetingRowView>)
    ensures
        meeting_creations(locals, seq![]) =~= Seq::new(
            locals.len(),
            |i: int| meeting_cleared(locals[i]),
        ),
    decreases locals.len(),
{
    if locals.len() > 0 {
        lemma_creations_on_empty(locals.skip(1));
        assert(meeting_match(seq![], locals[0].id) is None);
        assert forall|i: int| 0 <= i < locals.len() implies meeting_creations(locals, seq![])[i]
            == meeting_cleared(locals[i]) by {
            if i > 0 {
                assert(meeting_creations(locals.skip(1), seq![])[i - 1] == meeting_cleared(
                    locals.skip(1)[i - 1],
                ));
            }
        }
    }
}

/// Idempotence: against an empty mirror, one run creates every local row;
/// a second run with no intervening local change updates every row in
/// place, creates nothing, and leaves the remote collection exactly as
/// the first run left it. The premises are the identity invariants:
/// distinct local ids, and distinct opaque ids minted for the creates.
pub proof fn lemma_reconcile_idempotent(locals: Seq<MeetingRowView>, ids: Seq<Seq<char>>)
    requires
        distinct_meeting_ids(locals),
        ids.len() == locals.len(),
        forall|i: int, j: int| 0 <= i < j < ids.len() ==> ids[i] != ids[j],
    ensures
        ({
            let empty: Seq<RemoteMeetingView> = seq![];
            let plan1 = meeting_plan(locals, empty);
            let r1 = apply_meeting_plan(empty, plan1, ids);
            let plan2 = meeting_plan(locals, r1);
            &&& meeting_creates(plan1) == locals.len()
            &&& r1.len() == locals.len()
            &&& meeting_creates(plan2) == 0
            &&& apply_meeting_plan(r1, plan2, seq![]) == r1
        }),
{
    let empty: Seq<RemoteMeetingView> = seq![];
    let plan1 = meeting_plan(locals, empty);
    lemma_creations_on_empty(locals);
    lemma_creates_eq_creations(locals, empty);
    lemma_meeting_sync_shape(locals, empty, ids);
    let r1 = apply_meeting_plan(empty, plan1, ids);
    assert(r1 =~= Seq::new(
        locals.len(),
        |t: int| RemoteMeetingView { record_id: ids[t], fields: meeting_cleared(locals[t]) },
    ));
    // every local row now matches the record the first run created for it
    assert forall|i: int| 0 <= i < locals.len() implies meeting_match(r1, (
    #[trigger] locals[i]).id) == Some(i) by {
        assert(unique_meeting_links(r1)) by {
            assert forall|a: int, b: int| 0 <= a < b < r1.len() implies (
            #[trigger] r1[a]).fields.id != (#[trigger] r1[b]).fields.id by {
                assert(locals[a].fields_id_neq(locals[b]));
            }
        }
        lemma_meeting_match_unique(r1, i);
    }
    let plan2 = meeting_plan(locals, r1);
    // the second run creates nothing
    lemma_creates_eq_creations(locals, r1);
    if meeting_creations(locals, r1).len() > 0 {
        lemma_creation_source(locals, r1, 0);
    }
    assert(meeting_creates(plan2) == 0);
    // and applying it changes nothing
    assert(distinct_record_ids(r1));
    assert(fresh_record_ids(seq![], r1));
    lemma_meeting_sync_shape(locals, r1, seq![]);
    let r2 = meeting_sync_result(locals, r1, seq![]);
    assert forall|t: int| 0 <= t < r1.len() implies meeting_final_record(locals, r1, t) == r1[t] by {
        lemma_meeting_updater_some(locals, r1, t);
        match meeting_updater(locals, r1, t) {
            Some(u) => {
                assert(meeting_match(r1, locals[u].id) == Some(u));
                assert(u == t);
                assert(r1[t].fields.papers =~= Seq::<Seq<char>>::empty());
                assert(meeting_merged(locals[t], r1[t].fields.papers) =~~= meeting_cleared(
                    locals[t],
                ));
                assert(meeting_final_record(locals, r1, t) =~~= r1[t]);
            },
            None => {
                assert(meeting_match(r1, locals[t].id) == Some(t));
                assert(false);
            },
        }
    }
    assert(r2 =~= r1);
}

/// A paper row has no remote-authoritative field: nothing is cleared
/// before it is written, and nothing is read back into it.
pub open spec fn paper_cleared(p: PaperRowView) -> PaperRowView {
    p
}

/// Every local row carries its own id.
pub open spec fn distinct_paper_ids(locals: Seq<PaperRowView>) -> bool {
    forall|i: int, j: int|
        0 <= i < j < locals.len() ==> locals[i].paper_id_neq(locals[j])
}

impl PaperRowView {
    /// The two rows carry different ids (a named form, for triggering).
    pub open spec fn paper_id_neq(self, other: PaperRowView) -> bool {
        self.id != other.id
    }
}

/// At most one remote record is linked to any one local id.
pub open spec fn unique_paper_links(remote: Seq<RemotePaperView>) -> bool {
    forall|i: int, j: int|
        0 <= i < j < remote.len() ==> (#[trigger] remote[i]).fields.id != (
        #[trigger] remote[j]).fields.id
}

/// Every remote record carries its own opaque id.
pub open spec fn distinct_paper_record_ids(remote: Seq<RemotePaperView>) -> bool {
    forall|i: int, j: int|
        0 <= i < j < remote.len() ==> (#[trigger] remote[i]).record_id != (
        #[trigger] remote[j]).record_id
}

/// The opaque ids the store hands to creates: pairwise distinct and not
/// carried by any fetched record.
pub open spec fn fresh_paper_record_ids(ids: Seq<Seq<char>>, remote: Seq<RemotePaperView>) -> bool {
    &&& forall|i: int, j: int| 0 <= i < j < ids.len() ==> ids[i] != ids[j]
    &&& forall|i: int, t: int|
        0 <= i < ids.len() && 0 <= t < remote.len() ==> #[trigger] ids[i] != (
        #[trigger] remote[t]).record_id
}

/// The rows a run creates: the local rows that match no fetched record,
/// written whole, in input order.
pub open spec fn paper_creation_rows(
    locals: Seq<PaperRowView>,
    remote: Seq<RemotePaperView>,
) -> Seq<PaperRowView>
    decreases locals.len(),
{
    if locals.len() == 0 {
        seq![]
    } else if paper_match(remote, locals[0].id) is None {
        seq![paper_cleared(locals[0])] + paper_creation_rows(locals.skip(1), remote)
    } else {
        paper_creation_rows(locals.skip(1), remote)
    }
}

/// The local row whose write lands last on fetched record `t`.
pub open spec fn paper_updater(
    locals: Seq<PaperRowView>,
    remote: Seq<RemotePaperView>,
    t: int,
) -> Option<int>
    decreases locals.len(),
{
    if locals.len() == 0 {
        None
    } else if paper_match(remote, locals.last().id) == Some(t) {
        Some(locals.len() - 1)
    } else {
        paper_updater(locals.drop_last(), remote, t)
    }
}

/// What fetched record `t` holds after the run: the last matching local
/// row's fields whole, or the record unchanged when no local row targets
/// it.
pub open spec fn paper_final_record(
    locals: Seq<PaperRowView>,
    remote: Seq<RemotePaperView>,
    t: int,
) -> RemotePaperView {
    match paper_updater(locals, remote, t) {
        Some(i) => RemotePaperView { record_id: remote[t].record_id, fields: locals[i] },
        None => remote[t],
    }
}

/// The whole remote collection a run leaves behind: the fetched records,
/// each updated by its last matching local row, followed by the created
/// rows under the opaque ids the store assigned.
pub open spec fn paper_sync_result(
    locals: Seq<PaperRowView>,
    remote: Seq<RemotePaperView>,
    ids: Seq<Seq<char>>,
) -> Seq<RemotePaperView> {
    Seq::new(remote.len(), |t: int| paper_final_record(locals, remote, t)) + Seq::new(
        paper_creation_rows(locals, remote).len(),
        |m: int| RemotePaperView { record_id: ids[m], fields: paper_creation_rows(locals, remote)[m] },
    )
}

/// A matched index is a real index, and matching means equal link ids.
pub proof fn lemma_paper_match_some(remote: Seq<RemotePaperView>, id: int)
    ensures
        match paper_match(remote, id) {
            Some(j) => 0 <= j < remote.len() && remote[j].fields.id == id,
            None => forall|t: int| 0 <= t < remote.len() ==> (#[trigger] remote[t]).fields.id != id,
        },
    decreases remote.len(),
{
    if remote.len() > 0 {
        lemma_paper_match_some(remote.drop_last(), id);
        if remote.last().fields.id != id {
            assert(forall|t: int|
                0 <= t < remote.len() - 1 ==> remote.drop_last()[t] == remote[t]);
        }
    }
}

/// With at most one record per link id, a record holding the id is the
/// matched one.
pub proof fn lemma_paper_match_unique(remote: Seq<RemotePaperView>, t: int)
    requires
        unique_paper_links(remote),
        0 <= t < remote.len(),
    ensures
        paper_match(remote, remote[t].fields.id) == Some(t),
    decreases remote.len(),
{
    if t == remote.len() - 1 {
    } else {
        assert(remote.last().fields.id != remote[t].fields.id);
        lemma_paper_match_unique(remote.drop_last(), t);
        assert(remote.drop_last()[t] == remote[t]);
    }
}

proof fn lemma_paper_creations_snoc(locals: Seq<PaperRowView>, remote: Seq<RemotePaperView>)
    requires
        locals.len() > 0,
    ensures
        paper_creation_rows(locals, remote) == if paper_match(remote, locals.last().id) is None {
            paper_creation_rows(locals.drop_last(), remote).push(paper_cleared(locals.last()))
        } else {
            paper_creation_rows(locals.drop_last(), remote)
        },
    decreases locals.len(),
{
    if locals.len() == 1 {
        assert(locals.skip(1) =~= Seq::<PaperRowView>::empty());
        assert(locals.drop_last() =~= Seq::<PaperRowView>::empty());
        assert(paper_creation_rows(Seq::<PaperRowView>::empty(), remote) =~= Seq::<
            PaperRowView,
        >::empty());
        if paper_match(remote, locals[0].id) is None {
            assert(paper_creation_rows(locals, remote) =~= Seq::<PaperRowView>::empty().push(
                paper_cleared(locals[0]),
            ));
        }
    } else {
        lemma_paper_creations_snoc(locals.skip(1), remote);
        assert(locals.skip(1).drop_last() =~= locals.drop_last().skip(1));
        assert(locals.skip(1).last() == locals.last());
        assert(locals.drop_last()[0] == locals[0]);
        if paper_match(remote, locals.last().id) is None {
            if paper_match(remote, locals[0].id) is None {
                assert(seq![paper_cleared(locals[0])] + paper_creation_rows(
                    locals.drop_last().skip(1),
                    remote,
                ).push(paper_cleared(locals.last())) =~= (seq![paper_cleared(locals[0])]
                    + paper_creation_rows(locals.drop_last().skip(1), remote)).push(
                    paper_cleared(locals.last()),
                ));
            }
        }
    }
}

/// The number of creates a plan holds is the number of created rows.
pub proof fn lemma_paper_creates_eq_creations(
    locals: Seq<PaperRowView>,
    remote: Seq<RemotePaperView>,
)
    ensures
        paper_creates(paper_plan(locals, remote)) == paper_creation_rows(locals, remote).len(),
    decreases locals.len(),
{
    if locals.len() == 0 {
        assert(paper_plan(locals, remote) =~= Seq::<PaperOpView>::empty());
    } else {
        lemma_paper_creates_eq_creations(locals.drop_last(), remote);
        lemma_paper_creations_snoc(locals, remote);
        let plan = paper_plan(locals, remote);
        assert(plan.drop_last() =~= paper_plan(locals.drop_last(), remote));
        assert(plan.last() == paper_op_for(locals.last(), remote));
        assert(plan.last() is Create <==> paper_match(remote, locals.last().id) is None);
    }
}

proof fn lemma_paper_creations_prefix_step(
    locals: Seq<PaperRowView>,
    remote: Seq<RemotePaperView>,
    m: int,
)
    requires
        0 <= m < locals.len(),
    ensures
        paper_creation_rows(locals.subrange(0, m + 1), remote) == if paper_match(
            remote,
            locals[m].id,
        ) is None {
            paper_creation_rows(locals.subrange(0, m), remote).push(paper_cleared(locals[m]))
        } else {
            paper_creation_rows(locals.subrange(0, m), remote)
        },
{
    let pre = locals.subrange(0, m + 1);
    lemma_paper_creations_snoc(pre, remote);
    assert(pre.last() == locals[m]);
    assert(pre.drop_last() =~= locals.subrange(0, m));
}

proof fn lemma_paper_creations_prefix_bound(
    locals: Seq<PaperRowView>,
    remote: Seq<RemotePaperView>,
    m: int,
)
    requires
        0 <= m <= locals.len(),
    ensures
        paper_creation_rows(locals.subrange(0, m), remote).len() <= paper_creation_rows(
            locals,
            remote,
        ).len(),
        paper_creation_rows(locals.subrange(0, m), remote) == paper_creation_rows(
            locals,
            remote,
        ).subrange(0, paper_creation_rows(locals.subrange(0, m), remote).len() as int),
    decreases locals.len() - m,
{
    if m == locals.len() {
        assert(locals.subrange(0, m) =~= locals);
        let c = paper_creation_rows(locals, remote);
        assert(c.subrange(0, c.len() as int) =~= c);
    } else {
        lemma_paper_creations_prefix_bound(locals, remote, m + 1);
        lemma_paper_creations_prefix_step(locals, remote, m);
        let cm = paper_creation_rows(locals.subrange(0, m), remote);
        let cm1 = paper_creation_rows(locals.subrange(0, m + 1), remote);
        let c = paper_creation_rows(locals, remote);
        if paper_match(remote, locals[m].id) is None {
            assert(cm1 == cm.push(paper_cleared(locals[m])));
            assert(cm1.len() == cm.len() + 1);
            assert(cm =~= cm1.subrange(0, cm.len() as int));
            assert(cm1.subrange(0, cm.len() as int) =~= c.subrange(
                0,
                cm1.len() as int,
            ).subrange(0, cm.len() as int));
            assert(c.subrange(0, cm1.len() as int).subrange(0, cm.len() as int) =~= c.subrange(
                0,
                cm.len() as int,
            ));
        }
    }
}

proof fn lemma_paper_updater_snoc(
    locals: Seq<PaperRowView>,
    remote: Seq<RemotePaperView>,
    t: int,
)
    requires
        locals.len() > 0,
    ensures
        paper_updater(locals, remote, t) == if paper_match(remote, locals.last().id) == Some(t) {
            Some(locals.len() - 1)
        } else {
            paper_updater(locals.drop_last(), remote, t)
        },
{
}

/// The updating local row is a real row, and its id matches the record.
pub proof fn lemma_paper_updater_some(
    locals: Seq<PaperRowView>,
    remote: Seq<RemotePaperView>,
    t: int,
)
    ensures
        match paper_updater(locals, remote, t) {
            Some(i) => 0 <= i < locals.len() && paper_match(remote, locals[i].id) == Some(t),
            None => forall|i: int|
                0 <= i < locals.len() ==> paper_match(
                    remote,
                    (#[trigger] locals[i]).id,
                ) != Some(t),
        },
    decreases locals.len(),
{
    if locals.len() > 0 {
        lemma_paper_updater_some(locals.drop_last(), remote, t);
        if paper_match(remote, locals.last().id) != Some(t) {
            assert(forall|i: int|
                0 <= i < locals.len() - 1 ==> locals.drop_last()[i] == locals[i]);
        }
    }
}

/// The shape of a whole paper run: applying the plan built against the
/// fetched records yields exactly `paper_sync_result`.
pub proof fn lemma_paper_sync_shape(
    locals: Seq<PaperRowView>,
    remote: Seq<RemotePaperView>,
    ids: Seq<Seq<char>>,
)
    requires
        distinct_paper_record_ids(remote),
        fresh_paper_record_ids(ids, remote),
        ids.len() == paper_creation_rows(locals, remote).len(),
    ensures
        apply_paper_plan(remote, paper_plan(locals, remote), ids) == paper_sync_result(
            locals,
            remote,
            ids,
        ),
{
    assert(locals.subrange(0, 0) =~= Seq::<PaperRowView>::empty());
    assert(paper_sync_result(locals.subrange(0, 0), remote, ids) =~= remote);
    assert(paper_plan(locals, remote).skip(0) =~= paper_plan(locals, remote));
    assert(ids.skip(0) =~= ids);
    lemma_paper_sync_shape_rec(locals, remote, ids, 0);
}

proof fn lemma_paper_sync_shape_rec(
    locals: Seq<PaperRowView>,
    remote: Seq<RemotePaperView>,
    ids: Seq<Seq<char>>,
    m: int,
)
    requires
        distinct_paper_record_ids(remote),
        fresh_paper_record_ids(ids, remote),
        ids.len() == paper_creation_rows(locals, remote).len(),
        0 <= m <= locals.len(),
    ensures
        apply_paper_plan(
            paper_sync_result(locals.subrange(0, m), remote, ids),
            paper_plan(locals, remote).skip(m),
            ids.skip(paper_creation_rows(locals.subrange(0, m), remote).len() as int),
        ) == paper_sync_result(locals, remote, ids),
    decreases locals.len() - m,
{
    let plan = paper_plan(locals, remote);
    let pre = locals.subrange(0, m);
    let cm = paper_creation_rows(pre, remote).len() as int;
    let state = paper_sync_result(pre, remote, ids);
    lemma_paper_creations_prefix_bound(locals, remote, m);
    if m == locals.len() {
        assert(pre =~= locals);
        assert(plan.skip(m) =~= Seq::<PaperOpView>::empty());
        assert(apply_paper_plan(state, plan.skip(m), ids.skip(cm)) == state);
    } else {
        let pre1 = locals.subrange(0, m + 1);
        let cm1 = paper_creation_rows(pre1, remote).len() as int;
        let state1 = paper_sync_result(pre1, remote, ids);
        lemma_paper_creations_prefix_bound(locals, remote, m + 1);
        lemma_paper_creations_prefix_step(locals, remote, m);
        let rest = plan.skip(m);
        assert(rest[0] == plan[m]);
        assert(rest.skip(1) =~= plan.skip(m + 1));
        assert(plan[m] == paper_op_for(locals[m], remote));
        lemma_paper_match_some(remote, locals[m].id);
        match paper_match(remote, locals[m].id) {
            Some(j) => {
                // an update: it lands exactly on fetched record j
                let f = locals[m];
                let rid = remote[j].record_id;
                assert(plan[m] == PaperOpView::Update { record_id: rid, fields: f });
                let upd = paper_updated(state, rid, f);
                assert(state.len() == remote.len() + cm);
                // which records of the current state carry the target id
                assert forall|t: int| 0 <= t < state.len() implies (state[t].record_id == rid <==> t
                    == j) by {
                    if t < remote.len() {
                        assert(state[t].record_id == remote[t].record_id);
                    } else {
                        assert(state[t].record_id == ids[t - remote.len()]);
                    }
                }
                assert(upd =~~= Seq::new(
                    state.len(),
                    |t: int|
                        if t == j {
                            RemotePaperView { record_id: rid, fields: f }
                        } else {
                            state[t]
                        },
                ));
                // stepping the partial result forward by one local row
                assert forall|t: int| 0 <= t < remote.len() implies paper_final_record(
                    pre1,
                    remote,
                    t,
                ) == upd[t] by {
                    lemma_paper_updater_snoc(pre1, remote, t);
                    lemma_paper_updater_some(pre, remote, t);
                    assert(pre1.last() == locals[m]);
                    assert(pre1.drop_last() =~= pre);
                    assert(state[t] == paper_final_record(pre, remote, t));
                    if t == j {
                        assert(paper_updater(pre1, remote, t) == Some(m));
                        assert(pre1[m] == locals[m]);
                    } else {
                        assert(paper_updater(pre1, remote, t) == paper_updater(
                            pre,
                            remote,
                            t,
                        ));
                        match paper_updater(pre, remote, t) {
                            Some(i) => {
                                assert(pre1[i] == pre[i]);
                            },
                            None => {},
                        }
                        assert(upd[t] == state[t]);
                    }
                }
                assert(cm1 == cm);
                assert(paper_creation_rows(pre1, remote) == paper_creation_rows(pre, remote));
                assert(state1 =~~= upd);
                assert(apply_paper_plan(state, rest, ids.skip(cm)) == apply_paper_plan(
                    upd,
                    rest.skip(1),
                    ids.skip(cm),
                ));
                lemma_paper_sync_shape_rec(locals, remote, ids, m + 1);
            },
            None => {
                // a create: it lands at the end, under the next fresh id
                assert(plan[m] == PaperOpView::Create { fields: paper_cleared(locals[m]) });
                assert(cm1 == cm + 1);
                assert(cm < ids.len());
                assert(ids.skip(cm).len() > 0);
                assert(ids.skip(cm)[0] == ids[cm]);
                assert(ids.skip(cm).skip(1) =~= ids.skip(cm + 1));
                let created = RemotePaperView {
                    record_id: ids[cm],
                    fields: paper_cleared(locals[m]),
                };
                assert forall|t: int| 0 <= t < remote.len() implies paper_final_record(
                    pre1,
                    remote,
                    t,
                ) == paper_final_record(pre, remote, t) by {
                    lemma_paper_updater_snoc(pre1, remote, t);
                    lemma_paper_updater_some(pre, remote, t);
                    assert(pre1.last() == locals[m]);
                    assert(pre1.drop_last() =~= pre);
                    assert(paper_updater(pre1, remote, t) == paper_updater(pre, remote, t));
                    match paper_updater(pre, remote, t) {
                        Some(i) => {
                            assert(pre1[i] == pre[i]);
                        },
                        None => {},
                    }
                }
                assert(paper_creation_rows(pre1, remote) == paper_creation_rows(pre, remote).push(
                    paper_cleared(locals[m]),
                ));
                assert(state1 =~~= state.push(created));
                assert(apply_paper_plan(state, rest, ids.skip(cm)) == apply_paper_plan(
                    state.push(created),
                    rest.skip(1),
                    ids.skip(cm + 1),
                ));
                lemma_paper_sync_shape_rec(locals, remote, ids, m + 1);
            },
        }
    }
}

/// The local row a created record stems from: the index, among the local
/// rows, of the `m`-th one that matches no fetched record.
pub open spec fn paper_creation_source(
    locals: Seq<PaperRowView>,
    remote: Seq<RemotePaperView>,
    m: int,
) -> int
    decreases locals.len(),
{
    if locals.len() == 0 {
        0
    } else if paper_match(remote, locals[0].id) is None {
        if m == 0 {
            0
        } else {
            1 + paper_creation_source(locals.skip(1), remote, m - 1)
        }
    } else {
        1 + paper_creation_source(locals.skip(1), remote, m)
    }
}

/// Each created row is a local row that matched nothing, papers cleared.
pub proof fn lemma_paper_creation_source(
    locals: Seq<PaperRowView>,
    remote: Seq<RemotePaperView>,
    m: int,
)
    requires
        0 <= m < paper_creation_rows(locals, remote).len(),
    ensures
        0 <= paper_creation_source(locals, remote, m) < locals.len(),
        paper_creation_rows(locals, remote)[m] == paper_cleared(
            locals[paper_creation_source(locals, remote, m)],
        ),
        paper_match(remote, locals[paper_creation_source(locals, remote, m)].id) is None,
    decreases locals.len(),
{
    if locals.len() > 0 {
        if paper_match(remote, locals[0].id) is None {
            if m == 0 {
            } else {
                lemma_paper_creation_source(locals.skip(1), remote, m - 1);
                assert(locals.skip(1)[paper_creation_source(locals.skip(1), remote, m - 1)] == locals[1
                    + paper_creation_source(locals.skip(1), remote, m - 1)]);
            }
        } else {
            lemma_paper_creation_source(locals.skip(1), remote, m);
            assert(locals.skip(1)[paper_creation_source(locals.skip(1), remote, m)] == locals[1
                + paper_creation_source(locals.skip(1), remote, m)]);
        }
    }
}

/// Later created rows stem from later local rows.
pub proof fn lemma_paper_creation_source_mono(
    locals: Seq<PaperRowView>,
    remote: Seq<RemotePaperView>,
    m1: int,
    m2: int,
)
    requires
        0 <= m1 < m2 < paper_creation_rows(locals, remote).len(),
    ensures
        paper_creation_source(locals, remote, m1) < paper_creation_source(locals, remote, m2),
    decreases locals.len(),
{
    lemma_paper_creation_source(locals, remote, m1);
    lemma_paper_creation_source(locals, remote, m2);
    if locals.len() > 0 {
        if paper_match(remote, locals[0].id) is None {
            if m1 == 0 {
                lemma_paper_creation_source(locals.skip(1), remote, m2 - 1);
            } else {
                lemma_paper_creation_source_mono(locals.skip(1), remote, m1 - 1, m2 - 1);
            }
        } else {
            lemma_paper_creation_source_mono(locals.skip(1), remote, m1, m2);
        }
    }
}

/// A fetched record keeps its link id through the whole run.
proof fn lemma_paper_final_record_link_id(
    locals: Seq<PaperRowView>,
    remote: Seq<RemotePaperView>,
    t: int,
)
    requires
        0 <= t < remote.len(),
    ensures
        paper_final_record(locals, remote, t).fields.id == remote[t].fields.id,
        paper_final_record(locals, remote, t).record_id == remote[t].record_id,
{
    lemma_paper_updater_some(locals, remote, t);
    match paper_updater(locals, remote, t) {
        Some(i) => {
            lemma_paper_match_some(remote, locals[i].id);
        },
        None => {},
    }
}

/// Id uniqueness for papers: when each fetched record is linked to at
/// most one local id and the local rows carry distinct ids, the
/// collection a run leaves behind again links at most one record to any
/// one id — and the run issues exactly one write per local row, an
/// update precisely when the row's id is in the index, as the reconcile
/// contract pins. Premises: the identity invariants, as for meetings.
pub proof fn lemma_paper_id_uniqueness(
    locals: Seq<PaperRowView>,
    remote: Seq<RemotePaperView>,
    ids: Seq<Seq<char>>,
)
    requires
        distinct_paper_ids(locals),
        unique_paper_links(remote),
        distinct_paper_record_ids(remote),
        fresh_paper_record_ids(ids, remote),
        ids.len() == paper_creates(paper_plan(locals, remote)),
    ensures
        unique_paper_links(apply_paper_plan(remote, paper_plan(locals, remote), ids)),
{
    lemma_paper_creates_eq_creations(locals, remote);
    lemma_paper_sync_shape(locals, remote, ids);
    let res = paper_sync_result(locals, remote, ids);
    let c = paper_creation_rows(locals, remote);
    let rlen = remote.len() as int;
    assert forall|i: int, j: int| 0 <= i < j < res.len() implies (#[trigger] res[i]).fields.id != (
    #[trigger] res[j]).fields.id by {
        if j < rlen {
            lemma_paper_final_record_link_id(locals, remote, i);
            lemma_paper_final_record_link_id(locals, remote, j);
        } else if i < rlen {
            lemma_paper_final_record_link_id(locals, remote, i);
            lemma_paper_creation_source(locals, remote, j - rlen);
            let sj = paper_creation_source(locals, remote, j - rlen);
            lemma_paper_match_some(remote, locals[sj].id);
            assert(res[j].fields.id == locals[sj].id);
        } else {
            lemma_paper_creation_source(locals, remote, i - rlen);
            lemma_paper_creation_source(locals, remote, j - rlen);
            lemma_paper_creation_source_mono(locals, remote, i - rlen, j - rlen);
            let si = paper_creation_source(locals, remote, i - rlen);
            let sj = paper_creation_source(locals, remote, j - rlen);
            assert(locals[si].paper_id_neq(locals[sj]));
        }
    }
}

/// New-row creation: a local paper row that matches no fetched record
/// leaves exactly one record behind that carries its id, holding the
/// local fields whole, under a fresh opaque id.
pub proof fn lemma_paper_new_row_creation(
    locals: Seq<PaperRowView>,
    remote: Seq<RemotePaperView>,
    ids: Seq<Seq<char>>,
    i: int,
)
    requires
        distinct_paper_ids(locals),
        unique_paper_links(remote),
        distinct_paper_record_ids(remote),
        fresh_paper_record_ids(ids, remote),
        ids.len() == paper_creates(paper_plan(locals, remote)),
        0 <= i < locals.len(),
        paper_match(remote, locals[i].id) is None,
    ensures
        ({
            let res = apply_paper_plan(remote, paper_plan(locals, remote), ids);
            &&& res.len() == remote.len() + ids.len()
            &&& exists|j: int|
                0 <= j < res.len() && (#[trigger] res[j]).fields == paper_cleared(locals[i])
            &&& forall|j1: int, j2: int|
                0 <= j1 < res.len() && 0 <= j2 < res.len() && (#[trigger] res[j1]).fields.id
                    == locals[i].id && (#[trigger] res[j2]).fields.id == locals[i].id ==> j1 == j2
        }),
{
    lemma_paper_creates_eq_creations(locals, remote);
    lemma_paper_sync_shape(locals, remote, ids);
    lemma_paper_id_uniqueness(locals, remote, ids);
    let res = paper_sync_result(locals, remote, ids);
    let rlen = remote.len() as int;
    // the created row stands right after the creations of the earlier rows
    lemma_paper_creations_prefix_bound(locals, remote, i + 1);
    lemma_paper_creations_prefix_step(locals, remote, i);
    lemma_paper_creations_prefix_bound(locals, remote, i);
    let m = paper_creation_rows(locals.subrange(0, i), remote).len() as int;
    let c1 = paper_creation_rows(locals.subrange(0, i + 1), remote);
    assert(c1[m] == paper_cleared(locals[i]));
    assert(paper_creation_rows(locals, remote).subrange(0, c1.len() as int)[m] == c1[m]);
    assert(paper_creation_rows(locals, remote)[m] == paper_cleared(locals[i]));
    assert(res[rlen + m].fields == paper_cleared(locals[i]));
    // at most one record carries this id, by link-id uniqueness
    let ures = apply_paper_plan(remote, paper_plan(locals, remote), ids);
    assert forall|j1: int, j2: int|
        0 <= j1 < ures.len() && 0 <= j2 < ures.len() && (#[trigger] ures[j1]).fields.id
            == locals[i].id && (#[trigger] ures[j2]).fields.id == locals[i].id implies j1 == j2 by {
        if j1 < j2 {
            assert(ures[j1].fields.id != ures[j2].fields.id);
        } else if j2 < j1 {
            assert(ures[j2].fields.id != ures[j1].fields.id);
        }
    }
}

proof fn lemma_paper_creations_on_empty(locals: Seq<PaperRowView>)
    ensures
        paper_creation_rows(locals, seq![]) =~= Seq::new(
            locals.len(),
            |i: int| paper_cleared(locals[i]),
        ),
    decreases locals.len(),
{
    if locals.len() > 0 {
        lemma_paper_creations_on_empty(locals.skip(1));
        assert(paper_match(seq![], locals[0].id) is None);
        assert forall|i: int| 0 <= i < locals.len() implies paper_creation_rows(locals, seq![])[i]
            == paper_cleared(locals[i]) by {
            if i > 0 {
                assert(paper_creation_rows(locals.skip(1), seq![])[i - 1] == paper_cleared(
                    locals.skip(1)[i - 1],
                ));
            }
        }
    }
}

/// Idempotence for papers: against an empty mirror, one run creates every
/// local row; a second run with no intervening local change updates every
/// row in place, creates nothing, and leaves the remote collection
/// exactly as the first run left it. Premises as for meetings.
pub proof fn lemma_paper_reconcile_idempotent(locals: Seq<PaperRowView>, ids: Seq<Seq<char>>)
    requires
        distinct_paper_ids(locals),
        ids.len() == locals.len(),
        forall|i: int, j: int| 0 <= i < j < ids.len() ==> ids[i] != ids[j],
    ensures
        ({
            let empty: Seq<RemotePaperView> = seq![];
            let plan1 = paper_plan(locals, empty);
            let r1 = apply_paper_plan(empty, plan1, ids);
            let plan2 = paper_plan(locals, r1);
            &&& paper_creates(plan1) == locals.len()
            &&& r1.len() == locals.len()
            &&& paper_creates(plan2) == 0
            &&& apply_paper_plan(r1, plan2, seq![]) == r1
        }),
{
    let empty: Seq<RemotePaperView> = seq![];
    let plan1 = paper_plan(locals, empty);
    lemma_paper_creations_on_empty(locals);
    lemma_paper_creates_eq_creations(locals, empty);
    lemma_paper_sync_shape(locals, empty, ids);
    let r1 = apply_paper_plan(empty, plan1, ids);
    assert(r1 =~= Seq::new(
        locals.len(),
        |t: int| RemotePaperView { record_id: ids[t], fields: paper_cleared(locals[t]) },
    ));
    // every local row now matches the record the first run created for it
    assert forall|i: int| 0 <= i < locals.len() implies paper_match(r1, (
    #[trigger] locals[i]).id) == Some(i) by {
        assert(unique_paper_links(r1)) by {
            assert forall|a: int, b: int| 0 <= a < b < r1.len() implies (
            #[trigger] r1[a]).fields.id != (#[trigger] r1[b]).fields.id by {
                assert(locals[a].paper_id_neq(locals[b]));
            }
        }
        lemma_paper_match_unique(r1, i);
    }
    let plan2 = paper_plan(locals, r1);
    // the second run creates nothing
    lemma_paper_creates_eq_creations(locals, r1);
    if paper_creation_rows(locals, r1).len() > 0 {
        lemma_paper_creation_source(locals, r1, 0);
    }
    assert(paper_creates(plan2) == 0);
    // and applying it changes nothing
    assert(distinct_paper_record_ids(r1));
    assert(fresh_paper_record_ids(seq![], r1));
    lemma_paper_sync_shape(locals, r1, seq![]);
    let r2 = paper_sync_result(locals, r1, seq![]);
    assert forall|t: int| 0 <= t < r1.len() implies paper_final_record(locals, r1, t) == r1[t] by {
        lemma_paper_updater_some(locals, r1, t);
        match paper_updater(locals, r1, t) {
            Some(u) => {
                assert(paper_match(r1, locals[u].id) == Some(u));
                assert(u == t);
                assert(paper_final_record(locals, r1, t) =~~= r1[t]);
            },
            None => {
                assert(paper_match(r1, locals[t].id) == Some(t));
                assert(false);
            },
        }
    }
    assert(r2 =~= r1);
}


/// Link resolution with a missing parent: a child row whose parent key
/// resolves to no fetched meeting keeps its link field exactly as it
/// was, and is still handed on — one output row per input row, in order.
pub proof fn lemma_link_missing_parent(
    papers: Seq<PaperRowView>,
    meetings: Seq<RemoteMeetingView>,
    i: int,
)
    requires
        0 <= i < papers.len(),
        issue_match(meetings, papers[i].meeting) is None,
    ensures
        papers_resolved(papers, meetings).len() == papers.len(),
        papers_resolved(papers, meetings)[i] == papers[i],
{
}

} // verus!
