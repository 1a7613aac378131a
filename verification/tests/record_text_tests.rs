//! Meetings, documents, signups and repositories: conversions and the
//! notification texts built from them.

use cio::codec::encode_paper;
use cio::date::Date;
use cio::journal_clubs::{assign_papers_to_meeting, Meeting};
use cio::records::{JournalClubMeeting, NewJournalClubPaper};
use cio::repo::{GitHubUser, NewRepo, RepoSource};
use cio::rfd::{NewRFD, RFD};
use cio::subscriber::NewMailingListSubscriber;

fn doc_paper(title: &str, link: &str) -> NewJournalClubPaper {
    NewJournalClubPaper {
        title: title.to_string(),
        link: link.to_string(),
        meeting: String::new(),
        link_to_meeting: Vec::new(),
    }
}

#[test]
fn to_model_serializes_the_papers() {
    let m = Meeting {
        title: "Consensus".to_string(),
        issue: "org/repo#7".to_string(),
        papers: vec![doc_paper("Raft", "https://raft.github.io")],
        issue_date: Date { year: 2020, month: 4, day: 22 },
        meeting_date: Date::unset(),
        coordinator: "coord".to_string(),
        state: "active".to_string(),
        recording: String::new(),
    };
    let row = m.to_model();
    assert_eq!(row.title, "Consensus");
    assert_eq!(row.papers.len(), 1);
    assert_eq!(row.papers[0], encode_paper(&m.papers[0]));
}

#[test]
fn papers_are_assigned_to_their_meeting() {
    let papers = vec![doc_paper("a", "l1"), doc_paper("b", "l2")];
    let assigned = assign_papers_to_meeting(papers, &"org/repo#7".to_string());
    assert_eq!(assigned.len(), 2);
    for p in &assigned {
        assert_eq!(p.meeting, "org/repo#7");
    }
    assert_eq!(assigned[0].title, "a");
}

#[test]
fn meeting_message_lists_the_papers() {
    let mut p1 = doc_paper("Raft", "https://raft.github.io");
    p1.meeting = "org/repo#7".to_string();
    // a paper repeating the meeting title is shown as just `Paper`
    let mut p2 = doc_paper("Consensus", "https://l2");
    p2.meeting = "org/repo#7".to_string();
    let m = JournalClubMeeting {
        id: 42,
        title: "Consensus".to_string(),
        issue: "https://github.com/org/repo/issues/7".to_string(),
        papers: vec![encode_paper(&p1), encode_paper(&p2)],
        issue_date: Date { year: 2020, month: 4, day: 22 },
        meeting_date: Date::unset(),
        coordinator: "coord".to_string(),
        state: "active".to_string(),
        recording: "https://videos.example/rec".to_string(),
    };
    let msg = m.as_slack_msg();
    assert_eq!(msg.blocks.len(), 5);
    assert_eq!(
        msg.blocks[0].text.as_ref().unwrap().text,
        "<https://github.com/org/repo/issues/7|*Consensus*>"
    );
    assert_eq!(
        msg.blocks[1].elements[0].text,
        "<https://github.com/coord|@coord> | issue date: 04/22/2020 | status: *active*"
    );
    assert_eq!(
        msg.blocks[2].elements[0].text,
        "<https://videos.example/rec|Meeting recording>"
    );
    assert_eq!(msg.blocks[3].elements[0].text, "<https://raft.github.io|Raft>");
    assert_eq!(msg.blocks[4].elements[0].text, "<https://l2|Paper>");
}

#[test]
fn meeting_message_shows_a_set_meeting_date() {
    let m = JournalClubMeeting {
        id: 1,
        title: "T".to_string(),
        issue: "i".to_string(),
        papers: Vec::new(),
        issue_date: Date { year: 2020, month: 4, day: 22 },
        meeting_date: Date { year: 2020, month: 5, day: 1 },
        coordinator: "c".to_string(),
        state: "s".to_string(),
        recording: String::new(),
    };
    let msg = m.as_slack_msg();
    assert_eq!(msg.blocks.len(), 2);
    assert_eq!(
        msg.blocks[1].elements[0].text,
        "<https://github.com/c|@c> | issue date: 04/22/2020 | status: *s* | meeting date: 05/01/2020"
    );
}

fn rfd(number: i32) -> NewRFD {
    NewRFD {
        number,
        number_string: String::new(),
        title: "On Naming".to_string(),
        name: String::new(),
        state: "ideation".to_string(),
        link: "https://github.com/org/rfd/blob/0023/README.adoc".to_string(),
        short_link: String::new(),
        rendered_link: String::new(),
        discussion: String::new(),
        authors: String::new(),
        html: String::new(),
        content: String::new(),
        sha: String::new(),
        commit_date: 0,
        milestones: Vec::new(),
        relevant_components: Vec::new(),
    }
}

#[test]
fn rfd_generated_fields() {
    let mut f = rfd(23);
    f.expand_generated();
    assert_eq!(f.number_string, "0023");
    assert_eq!(f.name, "RFD 23 On Naming");
    assert_eq!(f.short_link, "https://23.rfd.oxide.computer");
    assert_eq!(f.rendered_link, "https://rfd.shared.oxide.computer/rfd/0023");
    assert_eq!(f.source_branch(), "0023");
    assert_eq!(f.source_dir(), "/rfd/0023");
    let mut on_default = rfd(7);
    on_default.link = "https://github.com/org/rfd/blob/master/x".to_string();
    assert_eq!(on_default.source_branch(), "master");
}

#[test]
fn rfd_message_line() {
    let mut f = rfd(23);
    f.expand_generated();
    let doc = RFD { id: 1, fields: f };
    assert_eq!(
        doc.as_slack_msg(),
        "RFD 23 On Naming (_*ideation*_) <https://23.rfd.oxide.computer|github> <https://rfd.shared.oxide.computer/rfd/0023|rendered>"
    );
    let mut with_discussion = doc.clone();
    with_discussion.fields.discussion = "https://github.com/org/rfd/pull/1".to_string();
    assert_eq!(
        with_discussion.as_slack_msg(),
        "RFD 23 On Naming (_*ideation*_) <https://23.rfd.oxide.computer|github> <https://rfd.shared.oxide.computer/rfd/0023|rendered> <https://github.com/org/rfd/pull/1|discussion>"
    );
}

#[test]
fn signup_message_blocks() {
    let mut s = NewMailingListSubscriber::empty_at(1000);
    s.email = "who@where.com".to_string();
    s.name = "Who".to_string();
    s.company = "ACME".to_string();
    s.wants_podcast_updates = true;
    let msg = s.as_slack_msg(1000);
    assert_eq!(msg.blocks.len(), 3);
    assert_eq!(
        msg.blocks[0].text.as_ref().unwrap().text,
        "*Who* <mailto:who@where.com|who@where.com>"
    );
    assert_eq!(
        msg.blocks[1].elements[0].text,
        "podcast updates: _true_ | newsletter: _false_ | product updates: _false_"
    );
    assert_eq!(
        msg.blocks[2].elements[0].text,
        "works at ACME | subscribed to mailing list now"
    );
    let mut with_interest = s.clone();
    with_interest.interest = "racks".to_string();
    let msg2 = with_interest.as_slack_msg(1000);
    assert_eq!(msg2.blocks.len(), 4);
    assert_eq!(msg2.blocks[1].text.as_ref().unwrap().text, "\n>racks");
}

fn repo_source() -> RepoSource {
    let owner = GitHubUser {
        login: "org".to_string(),
        id: 99,
        avatar_url: String::new(),
        gravatar_id: String::new(),
        url: String::new(),
        html_url: String::new(),
        followers_url: String::new(),
        following_url: String::new(),
        gists_url: String::new(),
        starred_url: String::new(),
        subscriptions_url: String::new(),
        organizations_url: String::new(),
        repos_url: String::new(),
        events_url: String::new(),
        received_events_url: String::new(),
        site_admin: false,
    };
    RepoSource {
        id: 123456,
        owner,
        name: "widget".to_string(),
        full_name: "org/widget".to_string(),
        description: None,
        private: false,
        fork: false,
        url: String::new(),
        html_url: String::new(),
        archive_url: String::new(),
        assignees_url: String::new(),
        blobs_url: String::new(),
        branches_url: String::new(),
        clone_url: String::new(),
        collaborators_url: String::new(),
        comments_url: String::new(),
        commits_url: String::new(),
        compare_url: String::new(),
        contents_url: String::new(),
        contributors_url: String::new(),
        deployments_url: String::new(),
        downloads_url: String::new(),
        events_url: String::new(),
        forks_url: String::new(),
        git_commits_url: String::new(),
        git_refs_url: String::new(),
        git_tags_url: String::new(),
        git_url: String::new(),
        hooks_url: String::new(),
        issue_comment_url: String::new(),
        issue_events_url: String::new(),
        issues_url: String::new(),
        keys_url: String::new(),
        labels_url: String::new(),
        languages_url: String::new(),
        merges_url: String::new(),
        milestones_url: String::new(),
        mirror_url: None,
        notifications_url: String::new(),
        pulls_url: String::new(),
        releases_url: String::new(),
        ssh_url: String::new(),
        stargazers_url: String::new(),
        statuses_url: String::new(),
        subscribers_url: String::new(),
        subscription_url: String::new(),
        svn_url: String::new(),
        tags_url: String::new(),
        teams_url: String::new(),
        trees_url: String::new(),
        homepage: Some("https://widget.example".to_string()),
        language: None,
        forks_count: 3,
        stargazers_count: 4,
        watchers_count: 5,
        size: 6,
        default_branch: "main".to_string(),
        open_issues_count: 7,
        has_issues: true,
        has_wiki: false,
        has_pages: false,
        has_downloads: false,
        archived: false,
        pushed_at: "2020-04-22T18:23:24+00:00".to_string(),
        created_at: "2020-01-01T00:00:00+00:00".to_string(),
        updated_at: "2020-04-22T18:23:24-08:00".to_string(),
    }
}

#[test]
fn repo_rows_carry_the_listing_over() {
    let n = NewRepo::new(repo_source()).expect("the times parse");
    assert_eq!(n.github_id, "123456");
    assert_eq!(n.owner.login, "org");
    assert_eq!(n.description, "");
    assert_eq!(n.homepage, "https://widget.example");
    assert_eq!(n.forks_count, 3);
    assert_eq!(n.created_at, 1577836800);
    assert_eq!(n.pushed_at, 1587579804);
    assert_eq!(n.updated_at, 1587579804 + 8 * 3600);
}

#[test]
fn repo_rows_with_bad_times_are_refused() {
    let mut s = repo_source();
    s.pushed_at = "yesterday".to_string();
    assert!(NewRepo::new(s).is_none());
}
