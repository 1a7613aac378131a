//! The reconciler and link resolver, run on concrete collections.

use cio::records::{JournalClubMeeting, JournalClubPaper, RemoteMeeting, RemotePaper};
use cio::reconcile::{
    apply_meetings, apply_papers, reconcile_meetings, reconcile_papers, resolve_links, MeetingOp,
    PaperOp,
};
use cio::date::Date;

fn meeting(id: i32, title: &str, issue: &str) -> JournalClubMeeting {
    JournalClubMeeting {
        id,
        title: title.to_string(),
        issue: issue.to_string(),
        papers: vec!["stale".to_string()],
        issue_date: Date { year: 2020, month: 4, day: 22 },
        meeting_date: Date { year: 1969, month: 1, day: 1 },
        coordinator: "coord".to_string(),
        state: "active".to_string(),
        recording: String::new(),
    }
}

fn paper(id: i32, title: &str, meeting_issue: &str) -> JournalClubPaper {
    JournalClubPaper {
        id,
        title: title.to_string(),
        link: format!("https://papers.example/{}", id),
        meeting: meeting_issue.to_string(),
        link_to_meeting: Vec::new(),
    }
}

#[test]
fn first_run_creates_every_row() {
    let locals = vec![meeting(1, "a", "i1"), meeting(2, "b", "i2")];
    let remote: Vec<RemoteMeeting> = Vec::new();
    let (plan, report) = reconcile_meetings(&locals, &remote);
    assert_eq!(report.created, 2);
    assert_eq!(report.updated, 0);
    assert_eq!(plan.len(), 2);
    for (op, l) in plan.iter().zip(locals.iter()) {
        match op {
            MeetingOp::Create { fields } => {
                assert_eq!(fields.id, l.id);
                // the remote-authoritative papers field starts out empty
                assert!(fields.papers.is_empty());
            },
            MeetingOp::Update { .. } => panic!("no update expected against an empty mirror"),
        }
    }
}

#[test]
fn reconcile_twice_is_idempotent() {
    let locals = vec![meeting(1, "a", "i1"), meeting(2, "b", "i2")];
    let empty: Vec<RemoteMeeting> = Vec::new();
    let (plan1, report1) = reconcile_meetings(&locals, &empty);
    assert_eq!(report1.created, 2);
    let ids = vec!["recA".to_string(), "recB".to_string()];
    let r1 = apply_meetings(empty, &plan1, &ids);
    assert_eq!(r1.len(), 2);

    // second run with no local change: all updates, nothing new, no net change
    let (plan2, report2) = reconcile_meetings(&locals, &r1);
    assert_eq!(report2.created, 0);
    assert_eq!(report2.updated, 2);
    let r2 = apply_meetings(r1.clone(), &plan2, &Vec::new());
    assert_eq!(r2, r1);
}

#[test]
fn update_preserves_remote_papers() {
    // the mirror holds operator-entered papers; the local row must not
    // clobber them
    let locals = vec![meeting(7, "t", "i7")];
    let mut remote_fields = meeting(7, "old title", "i7");
    remote_fields.papers = vec!["operator-entered".to_string()];
    let remote = vec![RemoteMeeting { record_id: "rec7".to_string(), fields: remote_fields }];
    let (plan, report) = reconcile_meetings(&locals, &remote);
    assert_eq!(report.updated, 1);
    assert_eq!(report.created, 0);
    match &plan[0] {
        MeetingOp::Update { record_id, fields } => {
            assert_eq!(record_id, "rec7");
            assert_eq!(fields.papers, vec!["operator-entered".to_string()]);
            assert_eq!(fields.title, "t");
            assert_eq!(fields.id, 7);
        },
        MeetingOp::Create { .. } => panic!("expected an update"),
    }
    let after = apply_meetings(remote, &plan, &Vec::new());
    assert_eq!(after.len(), 1);
    assert_eq!(after[0].fields.papers, vec!["operator-entered".to_string()]);
}

#[test]
fn unmatched_local_row_creates_one_record() {
    let locals = vec![meeting(9, "new", "i9")];
    let remote = vec![RemoteMeeting { record_id: "recX".to_string(), fields: meeting(1, "x", "i1") }];
    let (plan, report) = reconcile_meetings(&locals, &remote);
    assert_eq!(report.created, 1);
    let after = apply_meetings(remote, &plan, &vec!["recNew".to_string()]);
    assert_eq!(after.len(), 2);
    let with_id: Vec<_> = after.iter().filter(|r| r.fields.id == 9).collect();
    assert_eq!(with_id.len(), 1);
    assert_eq!(with_id[0].record_id, "recNew");
    assert!(with_id[0].fields.papers.is_empty());
    // the unmatched remote record is left untouched, never deleted
    assert_eq!(after[0].record_id, "recX");
    assert_eq!(after[0].fields.id, 1);
}

#[test]
fn missing_parent_leaves_link_empty_and_still_writes() {
    let papers = vec![paper(5, "p", "no/such#1")];
    let meetings: Vec<RemoteMeeting> = Vec::new();
    let resolved = resolve_links(&papers, &meetings);
    assert_eq!(resolved.len(), 1);
    assert!(resolved[0].link_to_meeting.is_empty());
    // the child row still follows the update-or-create path
    let (plan, report) = reconcile_papers(&resolved, &Vec::new());
    assert_eq!(report.created, 1);
    match &plan[0] {
        PaperOp::Create { fields } => {
            assert!(fields.link_to_meeting.is_empty());
            assert_eq!(fields.id, 5);
        },
        PaperOp::Update { .. } => panic!("expected a create"),
    }
}

#[test]
fn meeting_and_papers_scenario() {
    // one meeting with two child papers against an empty mirror
    let mut m = meeting(42, "Consensus", "org/repo#7");
    m.papers = Vec::new();
    let locals = vec![m];
    let empty_meetings: Vec<RemoteMeeting> = Vec::new();
    let (mplan, mreport) = reconcile_meetings(&locals, &empty_meetings);
    assert_eq!(mreport.created, 1);
    let meetings_remote = apply_meetings(empty_meetings, &mplan, &vec!["recM".to_string()]);
    assert_eq!(meetings_remote.len(), 1);
    assert_eq!(meetings_remote[0].fields.id, 42);
    assert_eq!(meetings_remote[0].record_id, "recM");

    let papers = vec![paper(1, "first", "org/repo#7"), paper(2, "second", "org/repo#7")];
    let resolved = resolve_links(&papers, &meetings_remote);
    assert_eq!(resolved[0].link_to_meeting, vec!["recM".to_string()]);
    assert_eq!(resolved[1].link_to_meeting, vec!["recM".to_string()]);

    let empty_papers: Vec<RemotePaper> = Vec::new();
    let (pplan, preport) = reconcile_papers(&resolved, &empty_papers);
    assert_eq!(preport.created, 2);
    let papers_remote = apply_papers(
        empty_papers,
        &pplan,
        &vec!["recP1".to_string(), "recP2".to_string()],
    );
    assert_eq!(papers_remote.len(), 2);
    for r in &papers_remote {
        assert_eq!(r.fields.link_to_meeting, vec!["recM".to_string()]);
    }
    assert_eq!(papers_remote[0].record_id, "recP1");
    assert_eq!(papers_remote[1].record_id, "recP2");
}

#[test]
fn paper_reconcile_twice_is_idempotent() {
    let locals = vec![paper(1, "a", "i1"), paper(2, "b", "i2")];
    let empty: Vec<RemotePaper> = Vec::new();
    let (plan1, report1) = reconcile_papers(&locals, &empty);
    assert_eq!(report1.created, 2);
    let ids = vec!["recA".to_string(), "recB".to_string()];
    let r1 = apply_papers(empty, &plan1, &ids);
    let (plan2, report2) = reconcile_papers(&locals, &r1);
    assert_eq!(report2.created, 0);
    assert_eq!(report2.updated, 2);
    let r2 = apply_papers(r1.clone(), &plan2, &Vec::new());
    assert_eq!(r2, r1);
}

#[test]
fn duplicate_remote_records_index_to_the_latest() {
    // two fetched records linked to the same local id: the index built in
    // fetch order keeps the later one, and the update lands on it
    let locals = vec![meeting(3, "t", "i3")];
    let remote = vec![
        RemoteMeeting { record_id: "old".to_string(), fields: meeting(3, "x", "i3") },
        RemoteMeeting { record_id: "new".to_string(), fields: meeting(3, "y", "i3") },
    ];
    let (plan, _) = reconcile_meetings(&locals, &remote);
    match &plan[0] {
        MeetingOp::Update { record_id, .. } => assert_eq!(record_id, "new"),
        MeetingOp::Create { .. } => panic!("expected an update"),
    }
}
