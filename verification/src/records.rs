//! The record types the reconciler works on: journal-club meetings and the
//! papers discussed in them, in their local (store-of-record) form and in
//! their remote (mirror) form.
//!
//! Each type has a ghost view over sequences of characters, and every
//! contract in the crate speaks of those views.

use vstd::prelude::*;
use crate::date::Date;

verus! {

/// A paper as it is carried inside a meeting row: no row identity of its
/// own yet.
#[derive(Clone, Debug, PartialEq, Eq)]
pub struct NewJournalClubPaper {
    pub title: String,
    pub link: String,
    pub meeting: String,
    pub link_to_meeting: Vec<String>,
}

/// The view of a paper document.
#[verifier::ext_equal]
pub ghost struct PaperDocView {
    pub title: Seq<char>,
    pub link: Seq<char>,
    pub meeting: Seq<char>,
    pub link_to_meeting: Seq<Seq<char>>,
}

impl View for NewJournalClubPaper {
    type V = PaperDocView;

    open spec fn view(&self) -> PaperDocView {
        PaperDocView {
            title: self.title@,
            link: self.link@,
            meeting: self.meeting@,
            link_to_meeting: self.link_to_meeting.deep_view(),
        }
    }
}

impl DeepView for NewJournalClubPaper {
    type V = PaperDocView;

    open spec fn deep_view(&self) -> PaperDocView {
        self.view()
    }
}

/// A paper row of the local store: a paper document with its row identity.
#[derive(Clone, Debug, PartialEq, Eq)]
pub struct JournalClubPaper {
    pub id: i32,
    pub title: String,
    pub link: String,
    pub meeting: String,
    pub link_to_meeting: Vec<String>,
}

/// The view of a paper row.
#[verifier::ext_equal]
pub ghost struct PaperRowView {
    pub id: int,
    pub title: Seq<char>,
    pub link: Seq<char>,
    pub meeting: Seq<char>,
    pub link_to_meeting: Seq<Seq<char>>,
}

impl View for JournalClubPaper {
    type V = PaperRowView;

    open spec fn view(&self) -> PaperRowView {
        PaperRowView {
            id: self.id as int,
            title: self.title@,
            link: self.link@,
            meeting: self.meeting@,
            link_to_meeting: self.link_to_meeting.deep_view(),
        }
    }
}

impl DeepView for JournalClubPaper {
    type V = PaperRowView;

    open spec fn deep_view(&self) -> PaperRowView {
        self.view()
    }
}

/// A meeting as the local store writes it: papers already serialized, no
/// row identity yet.
#[derive(Clone, Debug, PartialEq, Eq)]
pub struct NewJournalClubMeeting {
    pub title: String,
    pub issue: String,
    pub papers: Vec<String>,
    pub issue_date: Date,
    pub meeting_date: Date,
    pub coordinator: String,
    pub state: String,
    pub recording: String,
}

/// The view of a meeting without row identity.
#[verifier::ext_equal]
pub ghost struct NewMeetingView {
    pub title: Seq<char>,
    pub issue: Seq<char>,
    pub papers: Seq<Seq<char>>,
    pub issue_date: Date,
    pub meeting_date: Date,
    pub coordinator: Seq<char>,
    pub state: Seq<char>,
    pub recording: Seq<char>,
}

impl View for NewJournalClubMeeting {
    type V = NewMeetingView;

    open spec fn view(&self) -> NewMeetingView {
        NewMeetingView {
            title: self.title@,
            issue: self.issue@,
            papers: self.papers.deep_view(),
            issue_date: self.issue_date,
            meeting_date: self.meeting_date,
            coordinator: self.coordinator@,
            state: self.state@,
            recording: self.recording@,
        }
    }
}

impl DeepView for NewJournalClubMeeting {
    type V = NewMeetingView;

    open spec fn deep_view(&self) -> NewMeetingView {
        self.view()
    }
}

/// A meeting row of the local store.
#[derive(Clone, Debug, PartialEq, Eq)]
pub struct JournalClubMeeting {
    pub id: i32,
    pub title: String,
    pub issue: String,
    pub papers: Vec<String>,
    pub issue_date: Date,
    pub meeting_date: Date,
    pub coordinator: String,
    pub state: String,
    pub recording: String,
}

/// The view of a meeting row.
#[verifier::ext_equal]
pub ghost struct MeetingRowView {
    pub id: int,
    pub title: Seq<char>,
    pub issue: Seq<char>,
    pub papers: Seq<Seq<char>>,
    pub issue_date: Date,
    pub meeting_date: Date,
    pub coordinator: Seq<char>,
    pub state: Seq<char>,
    pub recording: Seq<char>,
}

impl View for JournalClubMeeting {
    type V = MeetingRowView;

    open spec fn view(&self) -> MeetingRowView {
        MeetingRowView {
            id: self.id as int,
            title: self.title@,
            issue: self.issue@,
            papers: self.papers.deep_view(),
            issue_date: self.issue_date,
            meeting_date: self.meeting_date,
            coordinator: self.coordinator@,
            state: self.state@,
            recording: self.recording@,
        }
    }
}

impl DeepView for JournalClubMeeting {
    type V = MeetingRowView;

    open spec fn deep_view(&self) -> MeetingRowView {
        self.view()
    }
}

/// Duplicate a string, keeping its characters.
pub fn clone_string(s: &String) -> (r: String)
    ensures
        r@ == s@,
{
    s.clone()
}

/// Duplicate a vector of strings, keeping its characters.
pub fn clone_strings(v: &Vec<String>) -> (r: Vec<String>)
    ensures
        r.deep_view() == v.deep_view(),
{
    let r = v.clone();
    proof {
        assert forall|i: int| 0 <= i < v@.len() implies r.deep_view()[i] == v.deep_view()[i] by {
            assert(cloned::<String>(v[i], r[i]));
        }
        assert(r.deep_view() =~= v.deep_view());
    }
    r
}

impl JournalClubMeeting {
    /// Duplicate this row, keeping its view.
    pub fn duplicate(&self) -> (r: Self)
        ensures
            r@ == self@,
    {
        JournalClubMeeting {
            id: self.id,
            title: clone_string(&self.title),
            issue: clone_string(&self.issue),
            papers: clone_strings(&self.papers),
            issue_date: self.issue_date,
            meeting_date: self.meeting_date,
            coordinator: clone_string(&self.coordinator),
            state: clone_string(&self.state),
            recording: clone_string(&self.recording),
        }
    }
}

impl JournalClubPaper {
    /// Duplicate this row, keeping its view.
    pub fn duplicate(&self) -> (r: Self)
        ensures
            r@ == self@,
    {
        JournalClubPaper {
            id: self.id,
            title: clone_string(&self.title),
            link: clone_string(&self.link),
            meeting: clone_string(&self.meeting),
            link_to_meeting: clone_strings(&self.link_to_meeting),
        }
    }
}

/// A fetched remote meeting record: the opaque record id the mirror
/// assigned, and its decoded fields.
#[derive(Clone, Debug, PartialEq, Eq)]
pub struct RemoteMeeting {
    pub record_id: String,
    pub fields: JournalClubMeeting,
}

/// The view of a remote meeting record.
#[verifier::ext_equal]
pub ghost struct RemoteMeetingView {
    pub record_id: Seq<char>,
    pub fields: MeetingRowView,
}

impl View for RemoteMeeting {
    type V = RemoteMeetingView;

    open spec fn view(&self) -> RemoteMeetingView {
        RemoteMeetingView { record_id: self.record_id@, fields: self.fields@ }
    }
}

impl DeepView for RemoteMeeting {
    type V = RemoteMeetingView;

    open spec fn deep_view(&self) -> RemoteMeetingView {
        self.view()
    }
}

impl RemoteMeeting {
    /// Duplicate this record, keeping its view.
    pub fn duplicate(&self) -> (r: Self)
        ensures
            r@ == self@,
    {
        RemoteMeeting { record_id: clone_string(&self.record_id), fields: self.fields.duplicate() }
    }
}

/// A fetched remote paper record.
#[derive(Clone, Debug, PartialEq, Eq)]
pub struct RemotePaper {
    pub record_id: String,
    pub fields: JournalClubPaper,
}

/// The view of a remote paper record.
#[verifier::ext_equal]
pub ghost struct RemotePaperView {
    pub record_id: Seq<char>,
    pub fields: PaperRowView,
}

impl View for RemotePaper {
    type V = RemotePaperView;

    open spec fn view(&self) -> RemotePaperView {
        RemotePaperView { record_id: self.record_id@, fields: self.fields@ }
    }
}

impl DeepView for RemotePaper {
    type V = RemotePaperView;

    open spec fn deep_view(&self) -> RemotePaperView {
        self.view()
    }
}

impl RemotePaper {
    /// Duplicate this record, keeping its view.
    pub fn duplicate(&self) -> (r: Self)
        ensures
            r@ == self@,
    {
        RemotePaper { record_id: clone_string(&self.record_id), fields: self.fields.duplicate() }
    }
}

} // verus!
