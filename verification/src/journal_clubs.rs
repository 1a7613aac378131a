//! Journal-club meetings as the import feed carries them, their
//! conversion into local store rows, the text form of their date fields,
//! and the notification message built from a meeting row.

use vstd::prelude::*;
use crate::codec::{encode_paper, decode_paper, paper_encoding, paper_decoding};
use crate::date::{parse_mdy, Date};
use crate::records::{
    clone_string, JournalClubMeeting, MeetingRowView, NewJournalClubMeeting, NewJournalClubPaper,
    PaperDocView,
};
use crate::slack::{
    context_block, is_context_block, is_section_block, section_block, FormattedMessage,
    MessageBlock,
};
use crate::strutil;

verus! {

/// A meeting as the import feed hands it over: the papers still carried
/// as structured values, not yet serialized.
#[derive(Clone, Debug, PartialEq, Eq)]
pub struct Meeting {
    pub title: String,
    pub issue: String,
    pub papers: Vec<NewJournalClubPaper>,
    pub issue_date: Date,
    pub meeting_date: Date,
    pub coordinator: String,
    pub state: String,
    pub recording: String,
}

/// The view of a feed meeting.
#[verifier::ext_equal]
pub ghost struct MeetingDocView {
    pub title: Seq<char>,
    pub issue: Seq<char>,
    pub papers: Seq<PaperDocView>,
    pub issue_date: Date,
    pub meeting_date: Date,
    pub coordinator: Seq<char>,
    pub state: Seq<char>,
    pub recording: Seq<char>,
}

impl View for Meeting {
    type V = MeetingDocView;

    open spec fn view(&self) -> MeetingDocView {
        MeetingDocView {
            title: self.title@,
            issue: self.issue@,
            papers: self.papers.deep_view(),
            issue_date: self.issue_date,
            meeting_date: self.meeting_date,
            coordinator: self.coordinator@,
            state: self.state@,
            recording: self.recording@,
        }
    }
}

impl Meeting {
    /// Turn a feed meeting into a local store row: every carried paper is
    /// serialized into its canonical text form.
    pub fn to_model(&self) -> (r: NewJournalClubMeeting)
        ensures
            r@.title == self@.title,
            r@.issue == self@.issue,
            r@.papers == Seq::new(self@.papers.len(), |i: int| paper_encoding(self@.papers[i])),
            r@.issue_date == self@.issue_date,
            r@.meeting_date == self@.meeting_date,
            r@.coordinator == self@.coordinator,
            r@.state == self@.state,
            r@.recording == self@.recording,
    {
        let ghost goal = Seq::new(self@.papers.len(), |i: int| paper_encoding(self@.papers[i]));
        let mut papers: Vec<String> = Vec::new();
        let mut i: usize = 0;
        while i < self.papers.len()
            invariant
                i <= self@.papers.len(),
                goal == Seq::new(self@.papers.len(), |k: int| paper_encoding(self@.papers[k])),
                papers@.len() == i,
                papers.deep_view() == goal.subrange(0, i as int),
            decreases self@.papers.len() - i,
        {
            let ghost opap = papers@;
            let enc = encode_paper(&self.papers[i]);
            papers.push(enc);
            proof {
                assert(papers@ == opap.push(papers@[i as int]));
                assert(papers.deep_view()[i as int] == enc@);
                assert(self.papers.deep_view()[i as int] == self.papers@[i as int]@);
                assert(enc@ == paper_encoding(self@.papers[i as int]));
                assert(forall|k: int| 0 <= k < i ==> papers@[k] == opap[k]);
                assert(forall|k: int|
                    0 <= k < i ==> papers.deep_view()[k] == goal.subrange(0, i as int)[k]);
            }
            i = i + 1;
            assert(papers.deep_view() =~= goal.subrange(0, i as int));
        }
        assert(goal.subrange(0, goal.len() as int) =~= goal);
        NewJournalClubMeeting {
            title: clone_string(&self.title),
            issue: clone_string(&self.issue),
            papers,
            issue_date: self.issue_date,
            meeting_date: self.meeting_date,
            coordinator: clone_string(&self.coordinator),
            state: clone_string(&self.state),
            recording: clone_string(&self.recording),
        }
    }
}

/// Assign every carried paper of a feed meeting to the meeting's issue
/// key, as the local store expects before the papers are upserted.
pub fn assign_papers_to_meeting(papers: Vec<NewJournalClubPaper>, issue: &String) -> (r: Vec<
    NewJournalClubPaper,
>)
    ensures
        r.deep_view().len() == papers.deep_view().len(),
        forall|i: int|
            0 <= i < papers.deep_view().len() ==> r.deep_view()[i] == (PaperDocView {
                meeting: issue@,
                ..papers.deep_view()[i]
            }),
{
    let ghost pv = papers.deep_view();
    let mut out: Vec<NewJournalClubPaper> = Vec::new();
    let mut i: usize = 0;
    while i < papers.len()
        invariant
            i <= pv.len(),
            pv == papers.deep_view(),
            out@.len() == i,
            forall|k: int|
                0 <= k < i ==> out.deep_view()[k] == (PaperDocView { meeting: issue@, ..pv[k] }),
        decreases pv.len() - i,
    {
        let ghost oout = out@;
        let ghost odv = out.deep_view();
        let p = &papers[i];
        let np = NewJournalClubPaper {
            title: clone_string(&p.title),
            link: clone_string(&p.link),
            meeting: clone_string(issue),
            link_to_meeting: crate::records::clone_strings(&p.link_to_meeting),
        };
        assert(np@ =~~= (PaperDocView { meeting: issue@, ..pv[i as int] }));
        let ghost npv = np@;
        out.push(np);
        proof {
            assert(out@ == oout.push(out@[i as int]));
            assert(out.deep_view()[i as int] == npv);
            assert(forall|k: int| 0 <= k < i ==> out@[k] == oout[k]);
            assert forall|k: int|
                0 <= k < i implies out.deep_view()[k] == (PaperDocView {
                meeting: issue@,
                ..pv[k]
            }) by {
                assert(out@[k] == oout[k]);
                assert(out.deep_view()[k] == out@[k]@);
                assert(odv[k] == oout[k]@);
                assert(odv[k] == (PaperDocView { meeting: issue@, ..pv[k] }));
            }
        }
        i = i + 1;
    }
    out
}

/// What a date field text means when a meeting is read back from a
/// record: a blank field is the unset sentinel; anything else is trimmed
/// and must then be a `month/day/year` date in `parse_mdy_spec`'s plain
/// grammar.
pub open spec fn date_field_meaning(s: Seq<char>) -> Option<Date> {
    if strutil::trim_spec(s).len() == 0 {
        Some(Date::spec_unset())
    } else {
        crate::date::parse_mdy_spec(strutil::trim_spec(s))
    }
}

/// Read a date field text back; `None` exactly on non-blank text that is
/// not a well-formed date after trimming.
pub fn parse_date_field(s: &String) -> (r: Option<Date>)
    ensures
        r == date_field_meaning(s@),
        r is Some ==> r.unwrap().wf(),
{
    let cs = strutil::chars_of(s.as_str());
    let trimmed = strutil::trim(&cs);
    if trimmed.len() == 0 {
        Some(Date::unset())
    } else {
        parse_mdy(&trimmed)
    }
}

/// The title line of a meeting notification.
pub open spec fn meeting_title_text(m: MeetingRowView) -> Seq<char> {
    "<"@ + m.issue + "|*"@ + m.title + "*>"@
}

/// The context line of a meeting notification: coordinator, issue date,
/// state, and the meeting date where one is set.
pub open spec fn meeting_context_text(m: MeetingRowView) -> Seq<char> {
    let base = "<https://github.com/"@ + m.coordinator + "|@"@ + m.coordinator
        + "> | issue date: "@ + m.issue_date.spec_mdy() + " | status: *"@ + m.state + "*"@;
    if m.meeting_date.spec_mdy() == Date::spec_unset().spec_mdy() {
        base
    } else {
        base + " | meeting date: "@ + m.meeting_date.spec_mdy()
    }
}

/// The recording line of a meeting notification.
pub open spec fn meeting_recording_text(m: MeetingRowView) -> Seq<char> {
    "<"@ + m.recording + "|Meeting recording>"@
}

/// The line for one paper: its link, titled by the paper's own title, or
/// just `Paper` when it repeats the meeting title.
pub open spec fn paper_line_text(p: PaperDocView, meeting_title: Seq<char>) -> Seq<char> {
    "<"@ + p.link + "|"@ + (if p.title == meeting_title {
        "Paper"@
    } else {
        p.title
    }) + ">"@
}

/// How many leading blocks a meeting notification has before the paper
/// lines: the title section, the context line, and the recording line
/// when a recording is set.
pub open spec fn meeting_head_blocks(m: MeetingRowView) -> int {
    if m.recording.len() > 0 {
        3
    } else {
        2
    }
}

impl JournalClubMeeting {
    /// Build the notification message for this meeting: a title section,
    /// a context line, the recording line where one is set, and one line
    /// per carried paper. The carried papers must be in their canonical
    /// text form.
    pub fn as_slack_msg(&self) -> (r: FormattedMessage)
        requires
            forall|i: int|
                0 <= i < self@.papers.len() ==> paper_decoding(#[trigger] self@.papers[i]) is Some,
        ensures
            r.channel is None,
            r.blocks@.len() == meeting_head_blocks(self@) + self@.papers.len(),
            head_blocks_ok(r.blocks@, self@),
            forall|i: int|
                0 <= i < self@.papers.len() ==> is_context_block(
                    #[trigger] r.blocks@[meeting_head_blocks(self@) + i],
                    paper_line_text(paper_decoding(self@.papers[i]).unwrap(), self@.title),
                ),
    {
        let mut blocks: Vec<MessageBlock> = Vec::new();

        let mut title_text: Vec<char> = Vec::new();
        strutil::push_str(&mut title_text, "<");
        strutil::push_str(&mut title_text, self.issue.as_str());
        strutil::push_str(&mut title_text, "|*");
        strutil::push_str(&mut title_text, self.title.as_str());
        strutil::push_str(&mut title_text, "*>");
        assert(title_text@ =~= meeting_title_text(self@));
        blocks.push(section_block(strutil::string_of(&title_text)));

        let mut ctx: Vec<char> = Vec::new();
        strutil::push_str(&mut ctx, "<https://github.com/");
        strutil::push_str(&mut ctx, self.coordinator.as_str());
        strutil::push_str(&mut ctx, "|@");
        strutil::push_str(&mut ctx, self.coordinator.as_str());
        strutil::push_str(&mut ctx, "> | issue date: ");
        let issue_mdy = self.issue_date.mdy_chars();
        strutil::push_chars(&mut ctx, &issue_mdy);
        strutil::push_str(&mut ctx, " | status: *");
        strutil::push_str(&mut ctx, self.state.as_str());
        strutil::push_str(&mut ctx, "*");
        let meeting_mdy = self.meeting_date.mdy_chars();
        let unset_mdy = Date::unset().mdy_chars();
        if !strutil::chars_eq(&meeting_mdy, &unset_mdy) {
            strutil::push_str(&mut ctx, " | meeting date: ");
            strutil::push_chars(&mut ctx, &meeting_mdy);
            assert(ctx@ =~= meeting_context_text(self@));
        } else {
            assert(ctx@ =~= meeting_context_text(self@));
        }
        blocks.push(context_block(strutil::string_of(&ctx)));

        if !self.recording.as_str().is_empty() {
            let mut rec: Vec<char> = Vec::new();
            strutil::push_str(&mut rec, "<");
            strutil::push_str(&mut rec, self.recording.as_str());
            strutil::push_str(&mut rec, "|Meeting recording>");
            assert(rec@ =~= meeting_recording_text(self@));
            blocks.push(context_block(strutil::string_of(&rec)));
        }
        let head = blocks.len();
        assert(head == meeting_head_blocks(self@));

        let mut i: usize = 0;
        while i < self.papers.len()
            invariant
                i <= self@.papers.len(),
                forall|k: int|
                    0 <= k < self@.papers.len() ==> paper_decoding(
                        #[trigger] self@.papers[k],
                    ) is Some,
                blocks@.len() == head + i,
                head == meeting_head_blocks(self@),
                forall|k: int|
                    0 <= k < i ==> is_context_block(
                        #[trigger] blocks@[head + k],
                        paper_line_text(paper_decoding(self@.papers[k]).unwrap(), self@.title),
                    ),
                head_blocks_ok(blocks@, self@),
            decreases self@.papers.len() - i,
        {
            let p = match decode_paper(self.papers[i].as_str()) {
                Some(p) => p,
                None => vstd::pervasive::unreached(),
            };
            let mut line: Vec<char> = Vec::new();
            strutil::push_str(&mut line, "<");
            strutil::push_str(&mut line, p.link.as_str());
            strutil::push_str(&mut line, "|");
            if p.title == self.title {
                strutil::push_str(&mut line, "Paper");
            } else {
                strutil::push_str(&mut line, p.title.as_str());
            }
            strutil::push_str(&mut line, ">");
            assert(line@ =~= paper_line_text(paper_decoding(self@.papers[i as int]).unwrap(), self@.title));
            let ghost pre = blocks@;
            blocks.push(context_block(strutil::string_of(&line)));
            proof {
                assert(forall|k: int| 0 <= k < pre.len() ==> blocks@[k] == pre[k]);
            }
            i = i + 1;
        }
        FormattedMessage { channel: None, blocks }
    }
}

/// The leading blocks of a meeting notification are in place: the title
/// section, the context line, and the recording line where one is set,
/// each block's whole shape pinned.
pub open spec fn head_blocks_ok(blocks: Seq<MessageBlock>, m: MeetingRowView) -> bool {
    &&& blocks.len() >= meeting_head_blocks(m)
    &&& is_section_block(blocks[0], meeting_title_text(m))
    &&& is_context_block(blocks[1], meeting_context_text(m))
    &&& m.recording.len() > 0 ==> is_context_block(blocks[2], meeting_recording_text(m))
}

} // verus!
