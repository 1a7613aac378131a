//! The reconciler: converge a remote mirror collection to match the local
//! store, preserving the fields the mirror is authoritative for.
//!
//! `reconcile_meetings` and `reconcile_papers` are pure: they take the
//! local rows and the fetched remote records and return the write plan
//! (one update or create per local row, in input order) together with the
//! updated/created tallies. `apply_meeting_plan` / `apply_paper_plan`
//! model what the remote store does with such a plan, with the opaque ids
//! it assigns to creates passed in; the laws in `laws` are proved over
//! plan and application together.

use vstd::prelude::*;
use crate::records::{
    clone_string, clone_strings, JournalClubMeeting, JournalClubPaper, MeetingRowView,
    PaperRowView, RemoteMeeting, RemoteMeetingView, RemotePaper, RemotePaperView,
};

verus! {

/// One write against the remote meeting collection.
pub enum MeetingOp {
    /// Rewrite the fields of the record with this opaque id.
    Update { record_id: String, fields: JournalClubMeeting },
    /// Add a new record with these fields; the store assigns the id.
    Create { fields: JournalClubMeeting },
}

/// The view of a meeting write.
#[verifier::ext_equal]
pub ghost enum MeetingOpView {
    Update { record_id: Seq<char>, fields: MeetingRowView },
    Create { fields: MeetingRowView },
}

impl View for MeetingOp {
    type V = MeetingOpView;

    open spec fn view(&self) -> MeetingOpView {
        match self {
            MeetingOp::Update { record_id, fields } => MeetingOpView::Update {
                record_id: record_id@,
                fields: fields@,
            },
            MeetingOp::Create { fields } => MeetingOpView::Create { fields: fields@ },
        }
    }
}

impl DeepView for MeetingOp {
    type V = MeetingOpView;

    open spec fn deep_view(&self) -> MeetingOpView {
        self.view()
    }
}

/// One write against the remote paper collection.
pub enum PaperOp {
    /// Rewrite the fields of the record with this opaque id.
    Update { record_id: String, fields: JournalClubPaper },
    /// Add a new record with these fields; the store assigns the id.
    Create { fields: JournalClubPaper },
}

/// The view of a paper write.
#[verifier::ext_equal]
pub ghost enum PaperOpView {
    Update { record_id: Seq<char>, fields: PaperRowView },
    Create { fields: PaperRowView },
}

impl View for PaperOp {
    type V = PaperOpView;

    open spec fn view(&self) -> PaperOpView {
        match self {
            PaperOp::Update { record_id, fields } => PaperOpView::Update {
                record_id: record_id@,
                fields: fields@,
            },
            PaperOp::Create { fields } => PaperOpView::Create { fields: fields@ },
        }
    }
}

impl DeepView for PaperOp {
    type V = PaperOpView;

    open spec fn deep_view(&self) -> PaperOpView {
        self.view()
    }
}

/// The tallies a reconciliation run reports.
#[derive(Clone, Copy, Debug, PartialEq, Eq, Structural)]
pub struct SyncReport {
    pub updated: usize,
    pub created: usize,
}

/// The index of the remote meeting record a local id is matched with: the
/// latest fetched record whose link field equals the id, as an index
/// built by inserting the records in fetch order would yield.
pub open spec fn meeting_match(remote: Seq<RemoteMeetingView>, id: int) -> Option<int>
    decreases remote.len(),
{
    if remote.len() == 0 {
        None
    } else if remote.last().fields.id == id {
        Some(remote.len() - 1)
    } else {
        meeting_match(remote.drop_last(), id)
    }
}

/// The index of the remote paper record a local id is matched with.
pub open spec fn paper_match(remote: Seq<RemotePaperView>, id: int) -> Option<int>
    decreases remote.len(),
{
    if remote.len() == 0 {
        None
    } else if remote.last().fields.id == id {
        Some(remote.len() - 1)
    } else {
        paper_match(remote.drop_last(), id)
    }
}

/// A meeting row with its remote-authoritative papers field cleared.
pub open spec fn meeting_cleared(m: MeetingRowView) -> MeetingRowView {
    MeetingRowView { papers: seq![], ..m }
}

/// A meeting row carrying the papers read back from the mirror.
pub open spec fn meeting_merged(m: MeetingRowView, papers: Seq<Seq<char>>) -> MeetingRowView {
    MeetingRowView { papers: papers, ..m }
}

/// The write issued for one local meeting row: update the matched record
/// with the local fields, keeping the mirror's papers; create a new
/// record with an empty papers field when nothing matches.
pub open spec fn meeting_op_for(l: MeetingRowView, remote: Seq<RemoteMeetingView>) -> MeetingOpView {
    match meeting_match(remote, l.id) {
        Some(j) => MeetingOpView::Update {
            record_id: remote[j].record_id,
            fields: meeting_merged(l, remote[j].fields.papers),
        },
        None => MeetingOpView::Create { fields: meeting_cleared(l) },
    }
}

/// The whole meeting write plan, one write per local row, in input order.
pub open spec fn meeting_plan(
    locals: Seq<MeetingRowView>,
    remote: Seq<RemoteMeetingView>,
) -> Seq<MeetingOpView> {
    Seq::new(locals.len(), |i: int| meeting_op_for(locals[i], remote))
}

/// The write issued for one local paper row: papers carry no
/// remote-authoritative field, so the local fields win whole.
pub open spec fn paper_op_for(l: PaperRowView, remote: Seq<RemotePaperView>) -> PaperOpView {
    match paper_match(remote, l.id) {
        Some(j) => PaperOpView::Update { record_id: remote[j].record_id, fields: l },
        None => PaperOpView::Create { fields: l },
    }
}

/// The whole paper write plan, one write per local row, in input order.
pub open spec fn paper_plan(
    locals: Seq<PaperRowView>,
    remote: Seq<RemotePaperView>,
) -> Seq<PaperOpView> {
    Seq::new(locals.len(), |i: int| paper_op_for(locals[i], remote))
}

/// How many creates a meeting plan holds.
pub open spec fn meeting_creates(plan: Seq<MeetingOpView>) -> int
    decreases plan.len(),
{
    if plan.len() == 0 {
        0
    } else {
        meeting_creates(plan.drop_last()) + if plan.last() is Create {
            1int
        } else {
            0int
        }
    }
}

/// How many creates a paper plan holds.
pub open spec fn paper_creates(plan: Seq<PaperOpView>) -> int
    decreases plan.len(),
{
    if plan.len() == 0 {
        0
    } else {
        paper_creates(plan.drop_last()) + if plan.last() is Create {
            1int
        } else {
            0int
        }
    }
}

pub proof fn lemma_meeting_creates_bounds(plan: Seq<MeetingOpView>)
    ensures
        0 <= meeting_creates(plan) <= plan.len(),
    decreases plan.len(),
{
    if plan.len() > 0 {
        lemma_meeting_creates_bounds(plan.drop_last());
    }
}

pub proof fn lemma_paper_creates_bounds(plan: Seq<PaperOpView>)
    ensures
        0 <= paper_creates(plan) <= plan.len(),
    decreases plan.len(),
{
    if plan.len() > 0 {
        lemma_paper_creates_bounds(plan.drop_last());
    }
}

/// Counting meeting creates from the front: one step.
pub proof fn lemma_meeting_creates_skip_first(plan: Seq<MeetingOpView>)
    requires
        plan.len() > 0,
    ensures
        meeting_creates(plan) == (if plan[0] is Create {
            1int
        } else {
            0int
        }) + meeting_creates(plan.skip(1)),
    decreases plan.len(),
{
    if plan.len() == 1 {
        assert(plan.skip(1) =~= Seq::<MeetingOpView>::empty());
        assert(plan.drop_last() =~= Seq::<MeetingOpView>::empty());
        assert(plan.last() == plan[0]);
    } else {
        lemma_meeting_creates_skip_first(plan.drop_last());
        assert(plan.drop_last()[0] == plan[0]);
        assert(plan.skip(1).drop_last() =~= plan.drop_last().skip(1));
        assert(plan.skip(1).last() == plan.last());
    }
}

/// Counting paper creates from the front: one step.
pub proof fn lemma_paper_creates_skip_first(plan: Seq<PaperOpView>)
    requires
        plan.len() > 0,
    ensures
        paper_creates(plan) == (if plan[0] is Create {
            1int
        } else {
            0int
        }) + paper_creates(plan.skip(1)),
    decreases plan.len(),
{
    if plan.len() == 1 {
        assert(plan.skip(1) =~= Seq::<PaperOpView>::empty());
        assert(plan.drop_last() =~= Seq::<PaperOpView>::empty());
        assert(plan.last() == plan[0]);
    } else {
        lemma_paper_creates_skip_first(plan.drop_last());
        assert(plan.drop_last()[0] == plan[0]);
        assert(plan.skip(1).drop_last() =~= plan.drop_last().skip(1));
        assert(plan.skip(1).last() == plan.last());
    }
}

/// Find the remote meeting record matched with a local id.
fn find_meeting(remote: &Vec<RemoteMeeting>, id: i32) -> (r: Option<usize>)
    ensures
        match r {
            Some(j) => meeting_match(remote.deep_view(), id as int) == Some(j as int) && j
                < remote@.len(),
            None => meeting_match(remote.deep_view(), id as int) is None,
        },
{
    let mut i: usize = remote.len();
    assert(remote.deep_view().subrange(0, remote@.len() as int) =~= remote.deep_view());
    while i > 0
        invariant
            i <= remote@.len(),
            meeting_match(remote.deep_view(), id as int) == meeting_match(
                remote.deep_view().subrange(0, i as int),
                id as int,
            ),
        decreases i,
    {
        proof {
            let pre = remote.deep_view().subrange(0, i as int);
            assert(pre.last() == remote.deep_view()[i - 1]);
            assert(pre.drop_last() =~= remote.deep_view().subrange(0, i - 1));
        }
        if remote[i - 1].fields.id == id {
            return Some(i - 1);
        }
        i = i - 1;
    }
    proof {
        assert(remote.deep_view().subrange(0, 0) =~= Seq::<RemoteMeetingView>::empty());
    }
    None
}

/// Find the remote paper record matched with a local id.
fn find_paper(remote: &Vec<RemotePaper>, id: i32) -> (r: Option<usize>)
    ensures
        match r {
            Some(j) => paper_match(remote.deep_view(), id as int) == Some(j as int) && j
                < remote@.len(),
            None => paper_match(remote.deep_view(), id as int) is None,
        },
{
    let mut i: usize = remote.len();
    assert(remote.deep_view().subrange(0, remote@.len() as int) =~= remote.deep_view());
    while i > 0
        invariant
            i <= remote@.len(),
            paper_match(remote.deep_view(), id as int) == paper_match(
                remote.deep_view().subrange(0, i as int),
                id as int,
            ),
        decreases i,
    {
        proof {
            let pre = remote.deep_view().subrange(0, i as int);
            assert(pre.last() == remote.deep_view()[i - 1]);
            assert(pre.drop_last() =~= remote.deep_view().subrange(0, i - 1));
        }
        if remote[i - 1].fields.id == id {
            return Some(i - 1);
        }
        i = i - 1;
    }
    proof {
        assert(remote.deep_view().subrange(0, 0) =~= Seq::<RemotePaperView>::empty());
    }
    None
}

/// Converge the remote meeting collection to the local rows: one update
/// or create per local row, in input order. The mirror's papers field is
/// read back into every update; a create starts with it empty. Remote
/// records whose id matches no local row are left untouched: the plan
/// holds no write for them and no delete at all.
pub fn reconcile_meetings(locals: &Vec<JournalClubMeeting>, remote: &Vec<RemoteMeeting>) -> (r: (
    Vec<MeetingOp>,
    SyncReport,
))
    ensures
        r.0.deep_view() == meeting_plan(locals.deep_view(), remote.deep_view()),
        r.1.created == meeting_creates(meeting_plan(locals.deep_view(), remote.deep_view())),
        r.1.updated + r.1.created == locals@.len(),
{
    let ghost gplan = meeting_plan(locals.deep_view(), remote.deep_view());
    let mut plan: Vec<MeetingOp> = Vec::new();
    let mut updated: usize = 0;
    let mut created: usize = 0;
    let mut i: usize = 0;
    assert(plan.deep_view() =~= gplan.subrange(0, 0));
    assert(gplan.subrange(0, 0) =~= Seq::<MeetingOpView>::empty());
    while i < locals.len()
        invariant
            i <= locals@.len(),
            gplan == meeting_plan(locals.deep_view(), remote.deep_view()),
            gplan.len() == locals@.len(),
            plan.deep_view() == gplan.subrange(0, i as int),
            created == meeting_creates(gplan.subrange(0, i as int)),
            updated + created == i,
        decreases locals@.len() - i,
    {
        let l = &locals[i];
        let mut fields = l.duplicate();
        // clear the remote-authoritative papers field before merging
        fields.papers = Vec::new();
        assert(fields@ =~~= meeting_cleared(locals.deep_view()[i as int]));
        let op = match find_meeting(remote, l.id) {
            Some(j) => {
                let rec = &remote[j];
                fields.papers = clone_strings(&rec.fields.papers);
                assert(fields@ =~~= meeting_merged(
                    locals.deep_view()[i as int],
                    remote.deep_view()[j as int].fields.papers,
                ));
                updated = updated + 1;
                MeetingOp::Update { record_id: clone_string(&rec.record_id), fields }
            },
            None => {
                created = created + 1;
                MeetingOp::Create { fields }
            },
        };
        assert(op@ =~~= meeting_op_for(locals.deep_view()[i as int], remote.deep_view()));
        plan.push(op);
        i = i + 1;
        proof {
            let pre = gplan.subrange(0, i as int);
            assert(pre.drop_last() =~= gplan.subrange(0, i - 1));
            assert(plan.deep_view() =~= pre);
            lemma_meeting_creates_bounds(pre);
        }
    }
    assert(gplan.subrange(0, gplan.len() as int) =~= gplan);
    (plan, SyncReport { updated, created })
}

/// Converge the remote paper collection to the local rows: one update or
/// create per local row, in input order, the local fields winning whole.
pub fn reconcile_papers(locals: &Vec<JournalClubPaper>, remote: &Vec<RemotePaper>) -> (r: (
    Vec<PaperOp>,
    SyncReport,
))
    ensures
        r.0.deep_view() == paper_plan(locals.deep_view(), remote.deep_view()),
        r.1.created == paper_creates(paper_plan(locals.deep_view(), remote.deep_view())),
        r.1.updated + r.1.created == locals@.len(),
{
    let ghost gplan = paper_plan(locals.deep_view(), remote.deep_view());
    let mut plan: Vec<PaperOp> = Vec::new();
    let mut updated: usize = 0;
    let mut created: usize = 0;
    let mut i: usize = 0;
    assert(plan.deep_view() =~= gplan.subrange(0, 0));
    assert(gplan.subrange(0, 0) =~= Seq::<PaperOpView>::empty());
    while i < locals.len()
        invariant
            i <= locals@.len(),
            gplan == paper_plan(locals.deep_view(), remote.deep_view()),
            gplan.len() == locals@.len(),
            plan.deep_view() == gplan.subrange(0, i as int),
            created == paper_creates(gplan.subrange(0, i as int)),
            updated + created == i,
        decreases locals@.len() - i,
    {
        let l = &locals[i];
        let fields = l.duplicate();
        let op = match find_paper(remote, l.id) {
            Some(j) => {
                updated = updated + 1;
                PaperOp::Update { record_id: clone_string(&remote[j].record_id), fields }
            },
            None => {
                created = created + 1;
                PaperOp::Create { fields }
            },
        };
        assert(op@ =~~= paper_op_for(locals.deep_view()[i as int], remote.deep_view()));
        plan.push(op);
        i = i + 1;
        proof {
            let pre = gplan.subrange(0, i as int);
            assert(pre.drop_last() =~= gplan.subrange(0, i - 1));
            assert(plan.deep_view() =~= pre);
            lemma_paper_creates_bounds(pre);
        }
    }
    assert(gplan.subrange(0, gplan.len() as int) =~= gplan);
    (plan, SyncReport { updated, created })
}

/// The remote meeting collection after one update write: every record
/// carrying the targeted opaque id gets the new fields; the rest stay.
pub open spec fn meeting_updated(
    remote: Seq<RemoteMeetingView>,
    rid: Seq<char>,
    f: MeetingRowView,
) -> Seq<RemoteMeetingView> {
    Seq::new(
        remote.len(),
        |j: int|
            if remote[j].record_id == rid {
                RemoteMeetingView { record_id: remote[j].record_id, fields: f }
            } else {
                remote[j]
            },
    )
}

/// The remote meeting collection after a whole plan, with `ids` the
/// opaque ids the store assigns to the creates, in order.
pub open spec fn apply_meeting_plan(
    remote: Seq<RemoteMeetingView>,
    plan: Seq<MeetingOpView>,
    ids: Seq<Seq<char>>,
) -> Seq<RemoteMeetingView>
    decreases plan.len(),
{
    if plan.len() == 0 {
        remote
    } else {
        match plan[0] {
            MeetingOpView::Update { record_id, fields } => apply_meeting_plan(
                meeting_updated(remote, record_id, fields),
                plan.skip(1),
                ids,
            ),
            MeetingOpView::Create { fields } => if ids.len() > 0 {
                apply_meeting_plan(
                    remote.push(RemoteMeetingView { record_id: ids[0], fields }),
                    plan.skip(1),
                    ids.skip(1),
                )
            } else {
                apply_meeting_plan(remote, plan.skip(1), ids)
            },
        }
    }
}

/// The remote paper collection after one update write.
pub open spec fn paper_updated(
    remote: Seq<RemotePaperView>,
    rid: Seq<char>,
    f: PaperRowView,
) -> Seq<RemotePaperView> {
    Seq::new(
        remote.len(),
        |j: int|
            if remote[j].record_id == rid {
                RemotePaperView { record_id: remote[j].record_id, fields: f }
            } else {
                remote[j]
            },
    )
}

/// The remote paper collection after a whole plan.
pub open spec fn apply_paper_plan(
    remote: Seq<RemotePaperView>,
    plan: Seq<PaperOpView>,
    ids: Seq<Seq<char>>,
) -> Seq<RemotePaperView>
    decreases plan.len(),
{
    if plan.len() == 0 {
        remote
    } else {
        match plan[0] {
            PaperOpView::Update { record_id, fields } => apply_paper_plan(
                paper_updated(remote, record_id, fields),
                plan.skip(1),
                ids,
            ),
            PaperOpView::Create { fields } => if ids.len() > 0 {
                apply_paper_plan(
                    remote.push(RemotePaperView { record_id: ids[0], fields }),
                    plan.skip(1),
                    ids.skip(1),
                )
            } else {
                apply_paper_plan(remote, plan.skip(1), ids)
            },
        }
    }
}

/// Carry out a meeting plan against an in-memory remote collection,
/// handing each create the next of `new_ids` as its opaque id. This is
/// the model of the store's side used by the laws and by tests.
pub fn apply_meetings(
    remote: Vec<RemoteMeeting>,
    plan: &Vec<MeetingOp>,
    new_ids: &Vec<String>,
) -> (r: Vec<RemoteMeeting>)
    requires
        new_ids.deep_view().len() == meeting_creates(plan.deep_view()),
    ensures
        r.deep_view() == apply_meeting_plan(
            remote.deep_view(),
            plan.deep_view(),
            new_ids.deep_view(),
        ),
{
    let ghost goal = apply_meeting_plan(remote.deep_view(), plan.deep_view(), new_ids.deep_view());
    let n_ids = new_ids.len();
    let mut cur = remote;
    let mut k: usize = 0;
    let mut i: usize = 0;
    proof {
        assert(plan.deep_view().skip(0) =~= plan.deep_view());
        assert(new_ids.deep_view().skip(0) =~= new_ids.deep_view());
    }
    while i < plan.len()
        invariant
            i <= plan@.len(),
            k <= new_ids@.len(),
            new_ids@.len() == n_ids,
            new_ids.deep_view().len() - k == meeting_creates(plan.deep_view().skip(i as int)),
            goal == apply_meeting_plan(
                cur.deep_view(),
                plan.deep_view().skip(i as int),
                new_ids.deep_view().skip(k as int),
            ),
        decreases plan@.len() - i,
    {
        proof {
            let rest = plan.deep_view().skip(i as int);
            assert(rest[0] == plan.deep_view()[i as int]);
            assert(rest.skip(1) =~= plan.deep_view().skip(i + 1));
            lemma_meeting_creates_skip_first(rest);
            lemma_meeting_creates_bounds(rest.skip(1));
        }
        match &plan[i] {
            MeetingOp::Update { record_id, fields } => {
                assert(plan.deep_view()[i as int] == MeetingOpView::Update {
                    record_id: record_id@,
                    fields: fields@,
                });
                let ghost pre = cur.deep_view();
                let ghost tgt = meeting_updated(pre, record_id@, fields@);
                let mut nv: Vec<RemoteMeeting> = Vec::new();
                let mut j: usize = 0;
                while j < cur.len()
                    invariant
                        j <= cur@.len(),
                        pre == cur.deep_view(),
                        tgt == meeting_updated(pre, record_id@, fields@),
                        nv@.len() == j,
                        forall|t: int| 0 <= t < j ==> nv.deep_view()[t] == tgt[t],
                    decreases cur@.len() - j,
                {
                    let ghost ov = nv@;
                    if cur[j].record_id == *record_id {
                        let nf = fields.duplicate();
                        let nid = clone_string(record_id);
                        nv.push(RemoteMeeting { record_id: nid, fields: nf });
                    } else {
                        nv.push(cur[j].duplicate());
                    }
                    proof {
                        assert(nv@ == ov.push(nv@[j as int]));
                        assert(nv.deep_view()[j as int] =~~= tgt[j as int]);
                        assert(forall|t: int| 0 <= t < j ==> nv@[t] == ov[t]);
                        assert(forall|t: int| 0 <= t < j ==> nv.deep_view()[t] == tgt[t]);
                    }
                    j = j + 1;
                }
                proof {
                    assert(nv.deep_view() =~= tgt);
                    let rest = plan.deep_view().skip(i as int);
                    let ids_rest = new_ids.deep_view().skip(k as int);
                    assert(apply_meeting_plan(pre, rest, ids_rest) == apply_meeting_plan(
                        tgt,
                        rest.skip(1),
                        ids_rest,
                    ));
                }
                cur = nv;
            },
            MeetingOp::Create { fields } => {
                proof {
                    let rest = plan.deep_view().skip(i as int);
                    assert(plan.deep_view()[i as int] == MeetingOpView::Create {
                        fields: fields@,
                    });
                    assert(rest[0] is Create);
                    assert(meeting_creates(rest) >= 1);
                    assert(k < new_ids@.len());
                }
                let ghost pcur = cur.deep_view();
                let nf = fields.duplicate();
                let nid = clone_string(&new_ids[k]);
                cur.push(RemoteMeeting { record_id: nid, fields: nf });
                proof {
                    let rest = plan.deep_view().skip(i as int);
                    let ids_rest = new_ids.deep_view().skip(k as int);
                    assert(ids_rest[0] == new_ids.deep_view()[k as int]);
                    assert(ids_rest.skip(1) =~= new_ids.deep_view().skip(k + 1));
                    assert(cur.deep_view() =~~= pcur.push(RemoteMeetingView {
                        record_id: ids_rest[0],
                        fields: fields@,
                    }));
                    assert(apply_meeting_plan(pcur, rest, ids_rest) == apply_meeting_plan(
                        cur.deep_view(),
                        rest.skip(1),
                        ids_rest.skip(1),
                    ));
                }
                k = k + 1;
            },
        }
        i = i + 1;
    }
    proof {
        assert(plan.deep_view().skip(i as int) =~= Seq::<MeetingOpView>::empty());
    }
    cur
}

/// The remote meeting the parent key of a child is resolved against: the
/// latest fetched meeting record whose issue equals the key, as an index
/// built by inserting the records in fetch order would yield.
pub open spec fn issue_match(remote: Seq<RemoteMeetingView>, issue: Seq<char>) -> Option<int>
    decreases remote.len(),
{
    if remote.len() == 0 {
        None
    } else if remote.last().fields.issue == issue {
        Some(remote.len() - 1)
    } else {
        issue_match(remote.drop_last(), issue)
    }
}

/// A paper row after link resolution: when its parent key names a fetched
/// meeting record with a non-empty opaque id, the cross-reference field
/// becomes that single id; otherwise the row is left as it is.
pub open spec fn paper_resolved(p: PaperRowView, meetings: Seq<RemoteMeetingView>) -> PaperRowView {
    match issue_match(meetings, p.meeting) {
        Some(j) => if meetings[j].record_id.len() > 0 {
            PaperRowView { link_to_meeting: seq![meetings[j].record_id], ..p }
        } else {
            p
        },
        None => p,
    }
}

/// All paper rows after link resolution, in order.
pub open spec fn papers_resolved(
    papers: Seq<PaperRowView>,
    meetings: Seq<RemoteMeetingView>,
) -> Seq<PaperRowView> {
    Seq::new(papers.len(), |i: int| paper_resolved(papers[i], meetings))
}

/// Find the remote meeting record a parent key resolves to.
fn find_issue(remote: &Vec<RemoteMeeting>, issue: &String) -> (r: Option<usize>)
    ensures
        match r {
            Some(j) => issue_match(remote.deep_view(), issue@) == Some(j as int) && j
                < remote@.len(),
            None => issue_match(remote.deep_view(), issue@) is None,
        },
{
    let mut i: usize = remote.len();
    assert(remote.deep_view().subrange(0, remote@.len() as int) =~= remote.deep_view());
    while i > 0
        invariant
            i <= remote@.len(),
            issue_match(remote.deep_view(), issue@) == issue_match(
                remote.deep_view().subrange(0, i as int),
                issue@,
            ),
        decreases i,
    {
        proof {
            let pre = remote.deep_view().subrange(0, i as int);
            assert(pre.last() == remote.deep_view()[i - 1]);
            assert(pre.drop_last() =~= remote.deep_view().subrange(0, i - 1));
        }
        if remote[i - 1].fields.issue == *issue {
            return Some(i - 1);
        }
        i = i - 1;
    }
    proof {
        assert(remote.deep_view().subrange(0, 0) =~= Seq::<RemoteMeetingView>::empty());
    }
    None
}

/// Resolve the cross-reference of every child paper against the fetched
/// parent meeting records: a child whose parent key matches a meeting
/// gets that meeting's opaque id as its single link; a child whose key
/// matches nothing keeps its link field as it is, and is still handed on
/// to reconciliation.
pub fn resolve_links(papers: &Vec<JournalClubPaper>, meetings: &Vec<RemoteMeeting>) -> (r: Vec<
    JournalClubPaper,
>)
    ensures
        r.deep_view() == papers_resolved(papers.deep_view(), meetings.deep_view()),
{
    let ghost goal = papers_resolved(papers.deep_view(), meetings.deep_view());
    let mut out: Vec<JournalClubPaper> = Vec::new();
    let mut i: usize = 0;
    while i < papers.len()
        invariant
            i <= papers@.len(),
            goal == papers_resolved(papers.deep_view(), meetings.deep_view()),
            goal.len() == papers@.len(),
            out@.len() == i,
            forall|t: int| 0 <= t < i ==> out.deep_view()[t] == goal[t],
        decreases papers@.len() - i,
    {
        let ghost oout = out@;
        let mut p = papers[i].duplicate();
        match find_issue(meetings, &p.meeting) {
            Some(j) => {
                let rid = clone_string(&meetings[j].record_id);
                if !rid.as_str().is_empty() {
                    let mut link: Vec<String> = Vec::new();
                    link.push(rid);
                    p.link_to_meeting = link;
                    assert(p@ =~~= paper_resolved(
                        papers.deep_view()[i as int],
                        meetings.deep_view(),
                    ));
                } else {
                    assert(rid@.len() == 0);
                    assert(p@ =~~= paper_resolved(
                        papers.deep_view()[i as int],
                        meetings.deep_view(),
                    ));
                }
            },
            None => {
                assert(p@ =~~= paper_resolved(papers.deep_view()[i as int], meetings.deep_view()));
            },
        }
        out.push(p);
        proof {
            assert(out@ == oout.push(out@[i as int]));
            assert(out.deep_view()[i as int] == goal[i as int]);
            assert(forall|t: int| 0 <= t < i ==> out@[t] == oout[t]);
            assert(forall|t: int| 0 <= t < i ==> out.deep_view()[t] == goal[t]);
        }
        i = i + 1;
    }
    proof {
        assert(out.deep_view() =~= goal);
    }
    out
}

/// Carry out a paper plan against an in-memory remote collection.
pub fn apply_papers(remote: Vec<RemotePaper>, plan: &Vec<PaperOp>, new_ids: &Vec<String>) -> (r:
    Vec<RemotePaper>)
    requires
        new_ids.deep_view().len() == paper_creates(plan.deep_view()),
    ensures
        r.deep_view() == apply_paper_plan(remote.deep_view(), plan.deep_view(), new_ids.deep_view()),
{
    let ghost goal = apply_paper_plan(remote.deep_view(), plan.deep_view(), new_ids.deep_view());
    let n_ids = new_ids.len();
    let mut cur = remote;
    let mut k: usize = 0;
    let mut i: usize = 0;
    proof {
        assert(plan.deep_view().skip(0) =~= plan.deep_view());
        assert(new_ids.deep_view().skip(0) =~= new_ids.deep_view());
    }
    while i < plan.len()
        invariant
            i <= plan@.len(),
            k <= new_ids@.len(),
            new_ids@.len() == n_ids,
            new_ids.deep_view().len() - k == paper_creates(plan.deep_view().skip(i as int)),
            goal == apply_paper_plan(
                cur.deep_view(),
                plan.deep_view().skip(i as int),
                new_ids.deep_view().skip(k as int),
            ),
        decreases plan@.len() - i,
    {
        proof {
            let rest = plan.deep_view().skip(i as int);
            assert(rest[0] == plan.deep_view()[i as int]);
            assert(rest.skip(1) =~= plan.deep_view().skip(i + 1));
            lemma_paper_creates_skip_first(rest);
            lemma_paper_creates_bounds(rest.skip(1));
        }
        match &plan[i] {
            PaperOp::Update { record_id, fields } => {
                assert(plan.deep_view()[i as int] == PaperOpView::Update {
                    record_id: record_id@,
                    fields: fields@,
                });
                let ghost pre = cur.deep_view();
                let ghost tgt = paper_updated(pre, record_id@, fields@);
                let mut nv: Vec<RemotePaper> = Vec::new();
                let mut j: usize = 0;
                while j < cur.len()
                    invariant
                        j <= cur@.len(),
                        pre == cur.deep_view(),
                        tgt == paper_updated(pre, record_id@, fields@),
                        nv@.len() == j,
                        forall|t: int| 0 <= t < j ==> nv.deep_view()[t] == tgt[t],
                    decreases cur@.len() - j,
                {
                    let ghost ov = nv@;
                    if cur[j].record_id == *record_id {
                        let nf = fields.duplicate();
                        let nid = clone_string(record_id);
                        nv.push(RemotePaper { record_id: nid, fields: nf });
                    } else {
                        nv.push(cur[j].duplicate());
                    }
                    proof {
                        assert(nv@ == ov.push(nv@[j as int]));
                        assert(nv.deep_view()[j as int] =~~= tgt[j as int]);
                        assert(forall|t: int| 0 <= t < j ==> nv@[t] == ov[t]);
                        assert(forall|t: int| 0 <= t < j ==> nv.deep_view()[t] == tgt[t]);
                    }
                    j = j + 1;
                }
                proof {
                    assert(nv.deep_view() =~= tgt);
                    let rest = plan.deep_view().skip(i as int);
                    let ids_rest = new_ids.deep_view().skip(k as int);
                    assert(apply_paper_plan(pre, rest, ids_rest) == apply_paper_plan(
                        tgt,
                        rest.skip(1),
                        ids_rest,
                    ));
                }
                cur = nv;
            },
            PaperOp::Create { fields } => {
                proof {
                    let rest = plan.deep_view().skip(i as int);
                    assert(plan.deep_view()[i as int] == PaperOpView::Create { fields: fields@ });
                    assert(rest[0] is Create);
                    assert(paper_creates(rest) >= 1);
                    assert(k < new_ids@.len());
                }
                let ghost pcur = cur.deep_view();
                let nf = fields.duplicate();
                let nid = clone_string(&new_ids[k]);
                cur.push(RemotePaper { record_id: nid, fields: nf });
                proof {
                    let rest = plan.deep_view().skip(i as int);
                    let ids_rest = new_ids.deep_view().skip(k as int);
                    assert(ids_rest[0] == new_ids.deep_view()[k as int]);
                    assert(ids_rest.skip(1) =~= new_ids.deep_view().skip(k + 1));
                    assert(cur.deep_view() =~~= pcur.push(RemotePaperView {
                        record_id: ids_rest[0],
                        fields: fields@,
                    }));
                    assert(apply_paper_plan(pcur, rest, ids_rest) == apply_paper_plan(
                        cur.deep_view(),
                        rest.skip(1),
                        ids_rest.skip(1),
                    ));
                }
                k = k + 1;
            },
        }
        i = i + 1;
    }
    proof {
        assert(plan.deep_view().skip(i as int) =~= Seq::<PaperOpView>::empty());
    }
    cur
}

} // verus!
