//! What the workflow reads of GitHub's objects.

use vstd::prelude::*;

use crate::text;

verus! {

/// A GitHub user, trimmed to the fields we care about.
pub struct User {
    pub login: String,
}

/// A GitHub issue (or PR, for the fields shared with issues).
pub struct Issue {
    pub number: u64,
    pub title: String,
    pub state: String,
    pub user: User,
    /// Absent where the issue's body is empty.
    pub body: Option<String>,
    pub created_at: String,
    pub updated_at: String,
    pub html_url: String,
    pub author_association: String,
}

/// A pull request, trimmed to the fields conclusion and draft-flip detection
/// need, plus the title, body and head the proxy commands read.
pub struct PullRequest {
    pub number: u64,
    pub title: String,
    pub state: String,
    pub merged: bool,
    /// Whether the PR is still a draft. The user marking it ready for review
    /// is what advances the implement phase.
    pub draft: bool,
    /// Absent where the PR's body is empty.
    pub body: Option<String>,
    pub html_url: String,
    pub head: Head,
}

/// The head ref of a PR: the branch its commits live on, and its tip SHA.
pub struct Head {
    pub ref_name: String,
    pub sha: String,
}

/// A label on an issue, trimmed to the fields we care about.
pub struct Label {
    pub name: String,
}

/// The issue-dependencies rollup GitHub embeds in an issue object.
pub struct IssueDependenciesSummary {
    /// How many *open* issues block this one; closed blockers do not count.
    pub blocked_by: u64,
}

impl Default for IssueDependenciesSummary {
    fn default() -> (r: Self)
        ensures
            r.blocked_by == 0,
    {
        IssueDependenciesSummary { blocked_by: 0 }
    }
}

/// The sub-issues rollup GitHub embeds in an issue object.
pub struct SubIssuesSummary {
    /// Number of sub-issues; more than none marks a tracking issue.
    pub total: u64,
}

impl Default for SubIssuesSummary {
    fn default() -> (r: Self)
        ensures
            r.total == 0,
    {
        SubIssuesSummary { total: 0 }
    }
}

/// An entry from the issues *listing*, which carries assignees and labels and
/// may describe a PR rather than an issue. The sub-issues endpoint returns the
/// same shape, so this also models a tracking issue's children.
pub struct IssueListing {
    pub number: u64,
    pub title: String,
    /// Empty in a listing of open issues; only children carry another state.
    pub state: String,
    pub assignees: Vec<User>,
    pub labels: Vec<Label>,
    /// Whether the entry is a PR.
    pub pull_request: bool,
    pub issue_dependencies_summary: IssueDependenciesSummary,
    pub sub_issues_summary: SubIssuesSummary,
}

impl IssueListing {
    pub open spec fn blocked(&self) -> bool {
        self.issue_dependencies_summary.blocked_by > 0
    }

    pub open spec fn tracking(&self) -> bool {
        self.sub_issues_summary.total > 0
    }

    pub open spec fn opened(&self) -> bool {
        self.state@ == ""@ || self.state@ == "open"@
    }

    /// Blocked by at least one still-open issue.
    pub fn is_blocked(&self) -> (r: bool)
        ensures
            r == self.blocked(),
    {
        self.issue_dependencies_summary.blocked_by > 0
    }

    /// Has sub-issues: a tracking issue we shouldn't work directly.
    pub fn is_tracking(&self) -> (r: bool)
        ensures
            r == self.tracking(),
    {
        self.sub_issues_summary.total > 0
    }

    /// Open, per the listing's `state`; an empty state counts as open.
    pub fn is_open(&self) -> (r: bool)
        ensures
            r == self.opened(),
    {
        text::same(self.state.as_str(), "") || text::same(self.state.as_str(), "open")
    }
}

/// A PR associated with a branch, trimmed to the fields garbage collection
/// needs.
pub struct BranchPr {
    pub number: u64,
    /// "OPEN", "CLOSED", or "MERGED".
    pub state: String,
    /// The PR's head commit. Frozen at merge time for merged PRs: pushes to the
    /// branch after the merge don't update it.
    pub head_ref_oid: String,
    /// The commit the merge created on the base branch; absent until merged.
    pub merge_commit: Option<Oid>,
}

/// A bare commit reference.
pub struct Oid {
    pub oid: String,
}

/// A comment on an issue's (or PR's) conversation thread.
pub struct Comment {
    pub id: u64,
    pub user: User,
    pub body: String,
    pub created_at: String,
    pub updated_at: String,
    pub html_url: String,
    pub author_association: String,
    /// The reaction summary GitHub embeds in every comment object.
    pub reactions: Option<ReactionRollup>,
}

/// The reaction-count summary embedded in a comment object.
pub struct ReactionRollup {
    pub total_count: u64,
    pub plus_one: u64,
}

/// One reaction on a comment.
pub struct Reaction {
    pub id: u64,
    pub user: User,
    /// The reaction kind. Only `+1` carries workflow meaning.
    pub content: String,
    pub created_at: String,
}

impl Reaction {
    pub open spec fn thumbs_up(&self) -> bool {
        self.content@ == "+1"@
    }

    /// Whether this reaction is a thumbs-up.
    pub fn is_thumbs_up(&self) -> (r: bool)
        ensures
            r == self.thumbs_up(),
    {
        text::same(self.content.as_str(), "+1")
    }
}

/// An inline review comment on a PR, anchored to a file (and usually a line)
/// of its diff.
pub struct ReviewComment {
    pub id: u64,
    pub user: User,
    pub body: String,
    pub created_at: String,
    pub updated_at: String,
    pub html_url: String,
    pub author_association: String,
    pub path: String,
    /// Absent when the comment is outdated against the latest diff, or file-level.
    pub line: Option<u64>,
    /// The anchor in the diff the comment was left on.
    pub original_line: Option<u64>,
}

impl ReviewComment {
    pub open spec fn anchor(&self) -> Option<u64> {
        if self.line is Some {
            self.line
        } else {
            self.original_line
        }
    }

    pub open spec fn place(&self) -> Seq<char> {
        match self.anchor() {
            Some(line) => self.path@ + ":"@ + text::decimal(line as nat),
            None => self.path@,
        }
    }

    /// Human-readable anchor for the comment: `path:line`, falling back to the
    /// original line for outdated comments, or the bare path for file-level ones.
    pub fn location(&self) -> (r: String)
        ensures
            r@ == self.place(),
    {
        let line = match self.line {
            Some(line) => Some(line),
            None => self.original_line,
        };
        let mut out = text::copy(self.path.as_str());
        if let Some(line) = line {
            out.append(":");
            out.append(text::number(line).as_str());
        }
        out
    }
}

} // verus!
