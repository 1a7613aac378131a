//! Code repositories: the account and repository rows the import writes,
//! assembled from the plain values the repository host hands over.

use vstd::prelude::*;
use crate::strutil;

verus! {

/// An account on the repository host.
#[derive(Clone, Debug, PartialEq, Eq)]
pub struct GitHubUser {
    pub login: String,
    pub id: u64,
    pub avatar_url: String,
    pub gravatar_id: String,
    pub url: String,
    pub html_url: String,
    pub followers_url: String,
    pub following_url: String,
    pub gists_url: String,
    pub starred_url: String,
    pub subscriptions_url: String,
    pub organizations_url: String,
    pub repos_url: String,
    pub events_url: String,
    pub received_events_url: String,
    pub site_admin: bool,
}

/// A repository as the host's listing hands it over: optional fields
/// still optional, counts still wide, and the commit times as text.
#[derive(Clone, Debug, PartialEq, Eq)]
pub struct RepoSource {
    pub id: u64,
    pub owner: GitHubUser,
    pub name: String,
    pub full_name: String,
    pub description: Option<String>,
    pub private: bool,
    pub fork: bool,
    pub url: String,
    pub html_url: String,
    pub archive_url: String,
    pub assignees_url: String,
    pub blobs_url: String,
    pub branches_url: String,
    pub clone_url: String,
    pub collaborators_url: String,
    pub comments_url: String,
    pub commits_url: String,
    pub compare_url: String,
    pub contents_url: String,
    pub contributors_url: String,
    pub deployments_url: String,
    pub downloads_url: String,
    pub events_url: String,
    pub forks_url: String,
    pub git_commits_url: String,
    pub git_refs_url: String,
    pub git_tags_url: String,
    pub git_url: String,
    pub hooks_url: String,
    pub issue_comment_url: String,
    pub issue_events_url: String,
    pub issues_url: String,
    pub keys_url: String,
    pub labels_url: String,
    pub languages_url: String,
    pub merges_url: String,
    pub milestones_url: String,
    pub mirror_url: Option<String>,
    pub notifications_url: String,
    pub pulls_url: String,
    pub releases_url: String,
    pub ssh_url: String,
    pub stargazers_url: String,
    pub statuses_url: String,
    pub subscribers_url: String,
    pub subscription_url: String,
    pub svn_url: String,
    pub tags_url: String,
    pub teams_url: String,
    pub trees_url: String,
    pub homepage: Option<String>,
    pub language: Option<String>,
    pub forks_count: u64,
    pub stargazers_count: u64,
    pub watchers_count: u64,
    pub size: u64,
    pub default_branch: String,
    pub open_issues_count: u64,
    pub has_issues: bool,
    pub has_wiki: bool,
    pub has_pages: bool,
    pub has_downloads: bool,
    pub archived: bool,
    pub pushed_at: String,
    pub created_at: String,
    pub updated_at: String,
}

/// A repository row as the local store keeps it: the host id as text,
/// empty strings for unset optional fields, narrow counts, and the commit
/// times as seconds since the epoch.
#[derive(Clone, Debug, PartialEq, Eq)]
pub struct NewRepo {
    pub github_id: String,
    pub owner: GitHubUser,
    pub name: String,
    pub full_name: String,
    pub description: String,
    pub private: bool,
    pub fork: bool,
    pub url: String,
    pub html_url: String,
    pub archive_url: String,
    pub assignees_url: String,
    pub blobs_url: String,
    pub branches_url: String,
    pub clone_url: String,
    pub collaborators_url: String,
    pub comments_url: String,
    pub commits_url: String,
    pub compare_url: String,
    pub contents_url: String,
    pub contributors_url: String,
    pub deployments_url: String,
    pub downloads_url: String,
    pub events_url: String,
    pub forks_url: String,
    pub git_commits_url: String,
    pub git_refs_url: String,
    pub git_tags_url: String,
    pub git_url: String,
    pub hooks_url: String,
    pub issue_comment_url: String,
    pub issue_events_url: String,
    pub issues_url: String,
    pub keys_url: String,
    pub labels_url: String,
    pub languages_url: String,
    pub merges_url: String,
    pub milestones_url: String,
    pub mirror_url: String,
    pub notifications_url: String,
    pub pulls_url: String,
    pub releases_url: String,
    pub ssh_url: String,
    pub stargazers_url: String,
    pub statuses_url: String,
    pub subscribers_url: String,
    pub subscription_url: String,
    pub svn_url: String,
    pub tags_url: String,
    pub teams_url: String,
    pub trees_url: String,
    pub homepage: String,
    pub language: String,
    pub forks_count: i32,
    pub stargazers_count: i32,
    pub watchers_count: i32,
    pub size: i32,
    pub default_branch: String,
    pub open_issues_count: i32,
    pub has_issues: bool,
    pub has_wiki: bool,
    pub has_pages: bool,
    pub has_downloads: bool,
    pub archived: bool,
    pub pushed_at: i64,
    pub created_at: i64,
    pub updated_at: i64,
}

/// What a commit time of the host's listing parses to, as seconds since
/// the epoch: a function of the text alone, or nothing when the text is
/// not a well-formed time stamp.
pub uninterp spec fn rfc3339_of(s: Seq<char>) -> Option<int>;

/// Relies on chrono's DateTime::parse_from_rfc3339; the epoch seconds of
/// the parsed time come back.
#[verifier::external_body]
fn parse_rfc3339(s: &str) -> (r: Option<i64>)
    ensures
        match r {
            Some(t) => rfc3339_of(s@) == Some(t as int),
            None => rfc3339_of(s@) is None,
        },
{
    match chrono::DateTime::parse_from_rfc3339(s) {
        Ok(d) => Some(d.timestamp()),
        Err(_) => None,
    }
}

/// The text stored for an optional field: its value, or empty.
pub open spec fn opt_text(o: Option<String>) -> Seq<char> {
    match o {
        Some(s) => s@,
        None => Seq::<char>::empty(),
    }
}

fn opt_string(o: Option<String>) -> (r: String)
    ensures
        r@ == opt_text(o),
{
    match o {
        Some(s) => s,
        None => String::new(),
    }
}

impl NewRepo {
    /// Assemble a repository row from a host listing entry. Every plain
    /// field is carried over; an unset optional field becomes the empty
    /// string; the host id is written in decimal; the commit times are
    /// parsed, and an entry whose times do not parse is refused whole.
    pub fn new(r: RepoSource) -> (out: Option<NewRepo>)
        requires
            r.forks_count <= i32::MAX,
            r.stargazers_count <= i32::MAX,
            r.watchers_count <= i32::MAX,
            r.size <= i32::MAX,
            r.open_issues_count <= i32::MAX,
        ensures
            out is Some <==> rfc3339_of(r.pushed_at@) is Some && rfc3339_of(r.created_at@) is Some
                && rfc3339_of(r.updated_at@) is Some,
            out is Some ==> {
                let n = out.unwrap();
                &&& n.github_id@ == strutil::dec_spec(r.id as nat)
                &&& n.owner == r.owner
                &&& n.name == r.name
                &&& n.full_name == r.full_name
                &&& n.description@ == opt_text(r.description)
                &&& n.private == r.private
                &&& n.fork == r.fork
                &&& n.url == r.url
                &&& n.html_url == r.html_url
                &&& n.archive_url == r.archive_url
                &&& n.assignees_url == r.assignees_url
                &&& n.blobs_url == r.blobs_url
                &&& n.branches_url == r.branches_url
                &&& n.clone_url == r.clone_url
                &&& n.collaborators_url == r.collaborators_url
                &&& n.comments_url == r.comments_url
                &&& n.commits_url == r.commits_url
                &&& n.compare_url == r.compare_url
                &&& n.contents_url == r.contents_url
                &&& n.contributors_url == r.contributors_url
                &&& n.deployments_url == r.deployments_url
                &&& n.downloads_url == r.downloads_url
                &&& n.events_url == r.events_url
                &&& n.forks_url == r.forks_url
                &&& n.git_commits_url == r.git_commits_url
                &&& n.git_refs_url == r.git_refs_url
                &&& n.git_tags_url == r.git_tags_url
                &&& n.git_url == r.git_url
                &&& n.hooks_url == r.hooks_url
                &&& n.issue_comment_url == r.issue_comment_url
                &&& n.issue_events_url == r.issue_events_url
                &&& n.issues_url == r.issues_url
                &&& n.keys_url == r.keys_url
                &&& n.labels_url == r.labels_url
                &&& n.languages_url == r.languages_url
                &&& n.merges_url == r.merges_url
                &&& n.milestones_url == r.milestones_url
                &&& n.mirror_url@ == opt_text(r.mirror_url)
                &&& n.notifications_url == r.notifications_url
                &&& n.pulls_url == r.pulls_url
                &&& n.releases_url == r.releases_url
                &&& n.ssh_url == r.ssh_url
                &&& n.stargazers_url == r.stargazers_url
                &&& n.statuses_url == r.statuses_url
                &&& n.subscribers_url == r.subscribers_url
                &&& n.subscription_url == r.subscription_url
                &&& n.svn_url == r.svn_url
                &&& n.tags_url == r.tags_url
                &&& n.teams_url == r.teams_url
                &&& n.trees_url == r.trees_url
                &&& n.homepage@ == opt_text(r.homepage)
                &&& n.language@ == opt_text(r.language)
                &&& n.forks_count == r.forks_count as i32
                &&& n.stargazers_count == r.stargazers_count as i32
                &&& n.watchers_count == r.watchers_count as i32
                &&& n.size == r.size as i32
                &&& n.default_branch == r.default_branch
                &&& n.open_issues_count == r.open_issues_count as i32
                &&& n.has_issues == r.has_issues
                &&& n.has_wiki == r.has_wiki
                &&& n.has_pages == r.has_pages
                &&& n.has_downloads == r.has_downloads
                &&& n.archived == r.archived
                &&& Some(n.pushed_at as int) == rfc3339_of(r.pushed_at@)
                &&& Some(n.created_at as int) == rfc3339_of(r.created_at@)
                &&& Some(n.updated_at as int) == rfc3339_of(r.updated_at@)
            },
    {
        let pushed_at = match parse_rfc3339(r.pushed_at.as_str()) {
            Some(t) => t,
            None => {
                return None;
            },
        };
        let created_at = match parse_rfc3339(r.created_at.as_str()) {
            Some(t) => t,
            None => {
                return None;
            },
        };
        let updated_at = match parse_rfc3339(r.updated_at.as_str()) {
            Some(t) => t,
            None => {
                return None;
            },
        };
        let github_id = strutil::u64_string(r.id);
        Some(
            NewRepo {
                github_id,
                owner: r.owner,
                name: r.name,
                full_name: r.full_name,
                description: opt_string(r.description),
                private: r.private,
                fork: r.fork,
                url: r.url,
                html_url: r.html_url,
                archive_url: r.archive_url,
                assignees_url: r.assignees_url,
                blobs_url: r.blobs_url,
                branches_url: r.branches_url,
                clone_url: r.clone_url,
                collaborators_url: r.collaborators_url,
                comments_url: r.comments_url,
                commits_url: r.commits_url,
                compare_url: r.compare_url,
                contents_url: r.contents_url,
                contributors_url: r.contributors_url,
                deployments_url: r.deployments_url,
                downloads_url: r.downloads_url,
                events_url: r.events_url,
                forks_url: r.forks_url,
                git_commits_url: r.git_commits_url,
                git_refs_url: r.git_refs_url,
                git_tags_url: r.git_tags_url,
                git_url: r.git_url,
                hooks_url: r.hooks_url,
                issue_comment_url: r.issue_comment_url,
                issue_events_url: r.issue_events_url,
                issues_url: r.issues_url,
                keys_url: r.keys_url,
                labels_url: r.labels_url,
                languages_url: r.languages_url,
                merges_url: r.merges_url,
                milestones_url: r.milestones_url,
                mirror_url: opt_string(r.mirror_url),
                notifications_url: r.notifications_url,
                pulls_url: r.pulls_url,
                releases_url: r.releases_url,
                ssh_url: r.ssh_url,
                stargazers_url: r.stargazers_url,
                statuses_url: r.statuses_url,
                subscribers_url: r.subscribers_url,
                subscription_url: r.subscription_url,
                svn_url: r.svn_url,
                tags_url: r.tags_url,
                teams_url: r.teams_url,
                trees_url: r.trees_url,
                homepage: opt_string(r.homepage),
                language: opt_string(r.language),
                forks_count: r.forks_count as i32,
                stargazers_count: r.stargazers_count as i32,
                watchers_count: r.watchers_count as i32,
                size: r.size as i32,
                default_branch: r.default_branch,
                open_issues_count: r.open_issues_count as i32,
                has_issues: r.has_issues,
                has_wiki: r.has_wiki,
                has_pages: r.has_pages,
                has_downloads: r.has_downloads,
                archived: r.archived,
                pushed_at,
                created_at,
                updated_at,
            },
        )
    }
}

} // verus!
