//! The implement and review phases: what the agent is told, and how the PR's
//! branch stands against its base.

use vstd::prelude::*;

use crate::git::{self, Git, Ran};
use crate::github;
use crate::state::{IssueState, PrepState};
use crate::text;

verus! {

/// How a question that blocks progress is asked, in a session bound to its issue.
pub const QUESTION_HERE: &'static str =
    "If you need an answer from the user to proceed, never use an interactive \
     prompt (no AskUserQuestion, and don't ask in prose and stop): post the \
     question with `ghwf hand-off --question` (body from stdin) — that \
     flips the issue to \"needs you\" — then `ghwf wait` for the reply.";

/// How to wait for the next human response, in a session bound to its issue.
pub const WAIT_HERE: &'static str =
    "Once you have posted your comment(s) and have nothing else to do, run \
     `ghwf wait` — it blocks until there is new activity (up to ~9 minutes; \
     give it a 10-minute command timeout). Exit 0 means new activity arrived: run \
     `ghwf work-on` to process it. Exit 2 means nothing yet: run \
     `ghwf wait` again. Do not poll with your own sleep loops.";

/// Where a question is answered.
pub const REPLY_WHERE_ASKED: &'static str =
    "Answer each question in the place it was asked: reply to an inline review \
     comment with `ghwf reply-review-comment --id <id>` (body from stdin), and to a \
     conversation comment on its own thread.";

/// Where the plan of an issue is, in its branch.
pub open spec fn plan_file(number: nat, slug: Seq<char>) -> Seq<char> {
    "plans/"@ + text::decimal(number) + "-"@ + slug + ".md"@
}

/// Where the plan of an issue is, in its branch.
pub fn plan_path(number: u64, slug: &str) -> (r: String)
    ensures
        r@ == plan_file(number as nat, slug@),
{
    let mut out = text::copy("plans/");
    out.append(text::number(number).as_str());
    out.append("-");
    out.append(slug);
    out.append(".md");
    out
}

pub const PR_READ: &'static str = "Read `";

pub const PR_READ_END: &'static str =
    "` for this project's instructions on writing the PR title and body. \
     Finish each round of work by checking whether the PR title or body should be \
     updated to reflect what is now on the branch, and update them per those \
     instructions.";

pub const PR_GENERIC: &'static str =
    "Finish each round of work by checking whether the PR title or body should \
     be updated to reflect what is now on the branch; keep them accurate, \
     concise, and current.";

/// How the PR's title and body are kept current.
pub open spec fn maintenance(pr_instructions: Option<Seq<char>>) -> Seq<char> {
    match pr_instructions {
        Some(path) => PR_READ@ + path + PR_READ_END@,
        None => PR_GENERIC@,
    }
}

pub open spec fn opt_view(s: Option<&str>) -> Option<Seq<char>> {
    match s {
        Some(s) => Some(s@),
        None => None,
    }
}

/// The "keep the PR title/body current" paragraph, pointing at the project's
/// instructions file when one exists and falling back to a generic default.
pub fn pr_maintenance_instruction(pr_instructions: Option<&str>) -> (r: String)
    ensures
        r@ == maintenance(opt_view(pr_instructions)),
{
    match pr_instructions {
        Some(path) => {
            let mut s = text::copy(PR_READ);
            s.append(path);
            s.append(PR_READ_END);
            s
        },
        None => text::copy(PR_GENERIC),
    }
}

pub const BRANCH_INTRO: &'static str =
    "Implement — code the change in the worktree.\n\n- Worktree: `";

pub const BRANCH_TASK: &'static str =
    "\nImplement per the plan, committing and pushing to the branch as you go (the draft \
     PR updates automatically). Address any PR feedback shown below. ";

pub const BRANCH_HAND_OFF: &'static str =
    " When the work is \
     complete and ready for human review, hand off with `ghwf hand-off` (body \
     from stdin): a comment summarising the change. ghwf appends the next-step \
     instructions (the user marks the draft PR ready for review) — do not write \
     them yourself.\n\n";

/// The three reminders that end a body with a PR.
pub open spec fn pr_reminders() -> Seq<char> {
    REPLY_WHERE_ASKED@ + "\n\n"@ + QUESTION_HERE@ + "\n\n"@ + WAIT_HERE@
}

/// The two reminders that end a body without a PR.
pub open spec fn reminders() -> Seq<char> {
    QUESTION_HERE@ + "\n\n"@ + WAIT_HERE@
}

/// The three reminders that end a body with a PR.
fn pr_reminder_text() -> (r: String)
    ensures
        r@ == pr_reminders(),
{
    let mut out = text::copy(REPLY_WHERE_ASKED);
    out.append("\n\n");
    out.append(QUESTION_HERE);
    out.append("\n\n");
    out.append(WAIT_HERE);
    out
}

/// The two reminders that end a body without a PR.
fn reminder_text() -> (r: String)
    ensures
        r@ == reminders(),
{
    let mut out = text::copy(QUESTION_HERE);
    out.append("\n\n");
    out.append(WAIT_HERE);
    out
}

/// The implement phase in branch mode.
pub open spec fn branch_text(
    worktree: Seq<char>,
    plan_rel: Seq<char>,
    pr_url: Option<Seq<char>>,
    pr_instructions: Option<Seq<char>>,
) -> Seq<char> {
    BRANCH_INTRO@ + worktree + "`\n- Plan: `"@ + plan_rel + "`\n"@ + (match pr_url {
        Some(url) => "- Draft PR: "@ + url + "\n"@,
        None => seq![],
    }) + BRANCH_TASK@ + maintenance(pr_instructions) + BRANCH_HAND_OFF@ + pr_reminders()
}

/// The implement phase in branch mode: where the work lives and what to do.
pub fn branch_body(
    worktree: &str,
    plan_rel: &str,
    pr_url: Option<&str>,
    pr_instructions: Option<&str>,
) -> (r: String)
    ensures
        r@ == branch_text(worktree@, plan_rel@, opt_view(pr_url), opt_view(pr_instructions)),
{
    let pr_line = match pr_url {
        Some(url) => {
            let mut s = text::copy("- Draft PR: ");
            s.append(url);
            s.append("\n");
            s
        },
        None => String::new(),
    };
    let mut out = text::copy(BRANCH_INTRO);
    out.append(worktree);
    out.append("`\n- Plan: `");
    out.append(plan_rel);
    out.append("`\n");
    out.append(pr_line.as_str());
    out.append(BRANCH_TASK);
    out.append(pr_maintenance_instruction(pr_instructions).as_str());
    out.append(BRANCH_HAND_OFF);
    out.append(pr_reminder_text().as_str());
    out
}

pub const NO_BRANCH_INTRO: &'static str = "Implement (--no-branch) — code the change per `";

pub const NO_BRANCH_TASK: &'static str =
    "`.\n\n\
     You are managing the branch and commits yourself; there is no ghwf worktree or PR. \
     When the work is complete, hand off with `ghwf hand-off` (body from \
     stdin).\n\n";

/// The implement phase without a branch.
pub open spec fn no_branch_text(plan_rel: Seq<char>) -> Seq<char> {
    NO_BRANCH_INTRO@ + plan_rel + NO_BRANCH_TASK@ + reminders()
}

/// The implement phase without a branch.
pub fn no_branch_body(plan_rel: &str) -> (r: String)
    ensures
        r@ == no_branch_text(plan_rel@),
{
    let mut out = text::copy(NO_BRANCH_INTRO);
    out.append(plan_rel);
    out.append(NO_BRANCH_TASK);
    out.append(reminder_text().as_str());
    out
}

pub const REVIEW_INTRO: &'static str =
    "Review — awaiting human review.\n\nThe PR is ready for review: ";

pub const REVIEW_TASK: &'static str =
    "\n\n\
     Nothing more is needed from you unless review feedback arrives; it will appear below \
     on future `ghwf work-on` runs. ";

/// The review phase with a PR.
pub open spec fn review_text(pr_url: Seq<char>, pr_instructions: Option<Seq<char>>) -> Seq<char> {
    REVIEW_INTRO@ + pr_url + REVIEW_TASK@ + maintenance(pr_instructions) + "\n\n"@
        + pr_reminders()
}

/// The review phase with a PR.
pub fn review_body(pr_url: &str, pr_instructions: Option<&str>) -> (r: String)
    ensures
        r@ == review_text(pr_url@, opt_view(pr_instructions)),
{
    let mut out = text::copy(REVIEW_INTRO);
    out.append(pr_url);
    out.append(REVIEW_TASK);
    out.append(pr_maintenance_instruction(pr_instructions).as_str());
    out.append("\n\n");
    out.append(pr_reminder_text().as_str());
    out
}

pub const REVIEW_NO_BRANCH: &'static str =
    "Review — the work is complete.\n\n\
     There is no ghwf PR to mark ready (this issue was worked with --no-branch); hand off \
     for human review however you normally would.\n\n";

/// The review phase without a branch.
pub fn review_no_branch_body() -> (r: String)
    ensures
        r@ == REVIEW_NO_BRANCH@ + reminders(),
{
    let mut out = text::copy(REVIEW_NO_BRANCH);
    out.append(reminder_text().as_str());
    out
}

pub const NO_PREP: &'static str = "No prep state is recorded for issue #";

pub const NO_PREP_END: &'static str =
    ". Run `ghwf work-on` through the \
     earlier phases (pre-plan, prep-and-plan) first.";

/// What is said where a phase was reached without its preparation.
pub fn no_prep_body(number: u64) -> (r: String)
    ensures
        r@ == NO_PREP@ + text::decimal(number as nat) + NO_PREP_END@,
{
    let mut out = text::copy(NO_PREP);
    out.append(text::number(number).as_str());
    out.append(NO_PREP_END);
    out
}

/// The implement-phase banner.
pub open spec fn implement_text(
    owner: Seq<char>,
    repo: Seq<char>,
    number: nat,
    slug: Seq<char>,
    state: IssueState,
    pr_instructions: Option<Seq<char>>,
) -> Seq<char> {
    match state.prep {
        None => NO_PREP@ + text::decimal(number) + NO_PREP_END@,
        Some(prep) => if prep.no_branch {
            no_branch_text(plan_file(number, slug))
        } else {
            branch_text(
                match prep.worktree_path {
                    Some(p) => p@,
                    None => "(not yet created)"@,
                },
                plan_file(number, slug),
                match prep.pr_number {
                    Some(pr) => Some(github::pr_url(owner, repo, pr as nat)),
                    None => None,
                },
                pr_instructions,
            )
        },
    }
}

/// Build the implement-phase banner: where the work lives and what to do next.
/// The coding is the agent's. `slug` names the plan; `pr_instructions` is the
/// project's PR instructions file, when one exists.
pub fn run(
    owner: &str,
    repo: &str,
    number: u64,
    slug: &str,
    state: &IssueState,
    pr_instructions: Option<&str>,
) -> (r: String)
    ensures
        r@ == implement_text(
            owner@,
            repo@,
            number as nat,
            slug@,
            *state,
            opt_view(pr_instructions),
        ),
{
    let plan_rel = plan_path(number, slug);
    match &state.prep {
        None => no_prep_body(number),
        Some(prep) => {
            if prep.no_branch {
                return no_branch_body(plan_rel.as_str());
            }
            let worktree = match &prep.worktree_path {
                Some(p) => text::copy(p.as_str()),
                None => text::copy("(not yet created)"),
            };
            match prep.pr_number {
                Some(pr) => {
                    let url = github::url_of_pr(owner, repo, pr);
                    branch_body(
                        worktree.as_str(),
                        plan_rel.as_str(),
                        Some(url.as_str()),
                        pr_instructions,
                    )
                },
                None => branch_body(worktree.as_str(), plan_rel.as_str(), None, pr_instructions),
            }
        },
    }
}

pub const REVIEW_NO_PR: &'static str =
    "Review — awaiting human review. (No ghwf PR was recorded.)";

/// The review-phase banner.
pub open spec fn review_banner(
    owner: Seq<char>,
    repo: Seq<char>,
    number: nat,
    state: IssueState,
    pr_instructions: Option<Seq<char>>,
) -> Seq<char> {
    match state.prep {
        None => NO_PREP@ + text::decimal(number) + NO_PREP_END@,
        Some(prep) => if prep.no_branch {
            REVIEW_NO_BRANCH@ + reminders()
        } else {
            match prep.pr_number {
                None => REVIEW_NO_PR@,
                Some(pr) => review_text(github::pr_url(owner, repo, pr as nat), pr_instructions),
            }
        },
    }
}

/// Build the review-phase banner. The PR is already ready for review: the user
/// marking it so is what advanced the workflow into this phase.
pub fn review(
    owner: &str,
    repo: &str,
    number: u64,
    state: &IssueState,
    pr_instructions: Option<&str>,
) -> (r: String)
    ensures
        r@ == review_banner(owner@, repo@, number as nat, *state, opt_view(pr_instructions)),
{
    match &state.prep {
        None => no_prep_body(number),
        Some(prep) => {
            if prep.no_branch {
                return review_no_branch_body();
            }
            match prep.pr_number {
                None => text::copy(REVIEW_NO_PR),
                Some(pr) => {
                    let url = github::url_of_pr(owner, repo, pr);
                    review_body(url.as_str(), pr_instructions)
                },
            }
        },
    }
}

/// How the open PR's branch stands against its freshly-fetched base.
#[derive(Clone, Copy, Debug, PartialEq, Eq, Structural)]
pub enum BaseSync {
    /// HEAD already contains the base; nothing to do.
    UpToDate,
    /// The base advanced beyond the merge-base and a trial merge is clean.
    BehindClean,
    /// The base advanced and a trial merge conflicts.
    Conflict,
}

/// A branch of the remote.
pub open spec fn remote_name(base: Seq<char>) -> Seq<char> {
    "origin/"@ + base
}

/// The remote-tracking name of a base branch.
pub fn base_ref(base: &str) -> (r: String)
    ensures
        r@ == remote_name(base@),
{
    let mut out = text::copy("origin/");
    out.append(base);
    out
}

/// Classify a branch against its base: whether it contains the base and, where
/// it does not, whether a trial merge conflicts.
pub open spec fn standing(contains: bool, conflicts: bool) -> BaseSync {
    if contains {
        BaseSync::UpToDate
    } else if conflicts {
        BaseSync::Conflict
    } else {
        BaseSync::BehindClean
    }
}

/// Whether HEAD in `dir` contains the base.
pub open spec fn base_contained<R: Fn(Vec<String>) -> Ran>(
    before: Git<R>,
    after: Git<R>,
    dir: Seq<char>,
    base: Seq<char>,
    contains: bool,
) -> bool {
    git::probed(
        before,
        after,
        dir,
        seq!["merge-base"@, "--is-ancestor"@, remote_name(base), "HEAD"@],
        contains,
    )
}

/// `r` is the base and how the branch stands against it.
pub open spec fn is_at(
    base: Seq<char>,
    sync: BaseSync,
    r: Result<(String, BaseSync), String>,
) -> bool {
    r is Ok && r->Ok_0.0@ == base && r->Ok_0.1 == sync
}

/// `r` is how HEAD in `dir` stands against `base`.
pub open spec fn classified<R: Fn(Vec<String>) -> Ran>(
    before: Git<R>,
    after: Git<R>,
    dir: Seq<char>,
    base: Seq<char>,
    r: Result<(String, BaseSync), String>,
) -> bool {
    exists|mid: Git<R>, contains: bool| #[trigger]
        base_contained(before, mid, dir, base, contains) && if contains {
            after == mid && is_at(base, BaseSync::UpToDate, r)
        } else {
            exists|c: Result<bool, String>| #[trigger]
                git::tried(mid, after, dir, remote_name(base), c) && match c {
                    Ok(conflicts) => is_at(base, standing(false, conflicts), r),
                    Err(e) => r == Err::<(String, BaseSync), String>(e),
                }
        }
}

/// `r` is how HEAD in `dir` stands against its base, once fetched.
pub open spec fn is_compared<R: Fn(Vec<String>) -> Ran>(
    before: Git<R>,
    after: Git<R>,
    dir: Seq<char>,
    r: Result<(String, BaseSync), String>,
) -> bool {
    exists|mid: Git<R>, d: Result<Seq<char>, Seq<char>>| #[trigger]
        git::default_named(before, mid, dir, d) && match d {
            Err(e) => after == mid && r is Err && r->Err_0@ == e,
            Ok(base) => classified(mid, after, dir, base, r),
        }
}

/// `r` is how HEAD in `dir` stands against its freshly fetched base.
pub open spec fn is_synced<R: Fn(Vec<String>) -> Ran>(
    before: Git<R>,
    after: Git<R>,
    dir: Seq<char>,
    r: Result<(String, BaseSync), String>,
) -> bool {
    exists|mid: Git<R>, f: Result<(), String>| #[trigger]
        git::fetched(before, mid, dir, f) && match f {
            Err(e) => after == mid && r == Err::<(String, BaseSync), String>(e),
            Ok(_) => is_compared(mid, after, dir, r),
        }
}

/// Classify the worktree's HEAD against the remote's default branch.
fn compare<R: Fn(Vec<String>) -> Ran>(git: &mut Git<R>, worktree: &str) -> (r: Result<
    (String, BaseSync),
    String,
>)
    requires
        old(git).ready(),
    ensures
        is_compared(*old(git), *final(git), worktree@, r),
{
    let named = git::default_remote_branch(git, worktree);
    let ghost d = git::seen(named);
    let ghost one = *git;
    assert(git::default_named(*old(git), one, worktree@, d));
    let base = match named {
        Ok(base) => base,
        Err(e) => {
            let failed: Result<(String, BaseSync), String> = Err(e);
            assert(failed->Err_0@ == d->Err_0);
            return failed;
        },
    };
    let name = base_ref(base.as_str());
    let ghost base_seen = base@;
    let contains = git::is_ancestor(git, worktree, name.as_str(), "HEAD");
    let ghost two = *git;
    assert(base_contained(one, two, worktree@, base_seen, contains));
    let r: Result<(String, BaseSync), String> = if contains {
        Ok((base, BaseSync::UpToDate))
    } else {
        let trial = git::would_conflict(git, worktree, name.as_str());
        assert(git::tried(two, *git, worktree@, remote_name(base_seen), trial));
        match trial {
            Ok(true) => Ok((base, BaseSync::Conflict)),
            Ok(false) => Ok((base, BaseSync::BehindClean)),
            Err(e) => Err(e),
        }
    };
    assert(classified(one, *git, worktree@, base_seen, r));
    assert(d == Ok::<Seq<char>, Seq<char>>(base_seen));
    r
}

/// Fetch, then classify the worktree's HEAD against the remote's default branch.
/// Gives the base's name alongside. Local: a fetch and a trial merge in memory.
pub fn base_sync<R: Fn(Vec<String>) -> Ran>(git: &mut Git<R>, worktree: &str) -> (r: Result<
    (String, BaseSync),
    String,
>)
    requires
        old(git).ready(),
    ensures
        is_synced(*old(git), *final(git), worktree@, r),
{
    let got = git::fetch(git, worktree);
    assert(git::fetched(*old(git), *git, worktree@, got));
    match got {
        Err(e) => Err(e),
        Ok(_) => compare(git, worktree),
    }
}

/// Whether there is a branch to check against its base: a PR, and a worktree
/// that exists.
pub open spec fn checkable(prep: PrepState, on_disk: bool) -> bool {
    !prep.no_branch && prep.pr_number is Some && prep.worktree_path is Some && on_disk
}

pub const UNCHECKED: &'static str = "could not check the branch against its base: ";

/// Check the open PR's branch against its base. Gives nothing where there is
/// nothing to check (no branch, no PR, or no worktree on disk), and the warning
/// where the check failed: it must never break a run.
pub fn check_base<R: Fn(Vec<String>) -> Ran>(
    git: &mut Git<R>,
    prep: &PrepState,
    on_disk: bool,
) -> (r: Result<Option<(String, BaseSync)>, String>)
    requires
        old(git).ready(),
    ensures
        if checkable(*prep, on_disk) {
            exists|s: Result<(String, BaseSync), String>| #[trigger]
                is_synced(*old(git), *final(git), prep.worktree_path->0@, s) && match s {
                    Ok(found) => r == Ok::<Option<(String, BaseSync)>, String>(Some(found)),
                    Err(e) => r is Err && r->Err_0@ == UNCHECKED@ + e@,
                }
        } else {
            *final(git) == *old(git) && r == Ok::<Option<(String, BaseSync)>, String>(None)
        },
{
    if prep.no_branch || prep.pr_number.is_none() || !on_disk {
        return Ok(None);
    }
    match &prep.worktree_path {
        None => Ok(None),
        Some(worktree) => {
            let synced = base_sync(git, worktree.as_str());
            assert(is_synced(*old(git), *git, worktree@, synced));
            match synced {
                Ok(found) => Ok(Some(found)),
                Err(e) => {
                    let mut s = text::copy(UNCHECKED);
                    s.append(e.as_str());
                    Err(s)
                },
            }
        },
    }
}

/// The base that conflicts, by a check.
pub open spec fn conflict_in(s: Result<(String, BaseSync), String>) -> Option<String> {
    match s {
        Ok((base, sync)) => if sync == BaseSync::Conflict {
            Some(base)
        } else {
            None
        },
        Err(_) => None,
    }
}

/// Detect whether the open PR's branch conflicts with the freshly fetched base,
/// and with which one. A clean or up-to-date branch, or any case that cannot be
/// checked, gives nothing.
pub fn detect_conflict<R: Fn(Vec<String>) -> Ran>(
    git: &mut Git<R>,
    prep: &PrepState,
    on_disk: bool,
) -> (r: Option<String>)
    requires
        old(git).ready(),
    ensures
        if checkable(*prep, on_disk) {
            exists|s: Result<(String, BaseSync), String>| #[trigger]
                is_synced(*old(git), *final(git), prep.worktree_path->0@, s) && r == conflict_in(s)
        } else {
            *final(git) == *old(git) && r is None
        },
{
    match check_base(git, prep, on_disk) {
        Ok(Some((base, BaseSync::Conflict))) => Some(base),
        _ => None,
    }
}

/// The leading banner block for the implement and review bodies when the branch
/// is behind its base.
pub enum BaseBanner {
    /// A conflict the agent must resolve before the work is done.
    Conflict(String),
    /// The base was merged in for a clean behind-branch; nothing to do.
    Merged(String),
    /// The base has moved on, and merges cleanly: a heads-up.
    Moved(String),
}

impl BaseBanner {
    pub open spec fn told(&self) -> Seq<char> {
        match self {
            BaseBanner::Conflict(text) => text@,
            BaseBanner::Merged(text) => text@,
            BaseBanner::Moved(text) => text@,
        }
    }

    /// The rendered banner text to lead the phase body with.
    pub fn text(&self) -> (r: &str)
        ensures
            r@ == self.told(),
    {
        match self {
            BaseBanner::Conflict(text) => text.as_str(),
            BaseBanner::Merged(text) => text.as_str(),
            BaseBanner::Moved(text) => text.as_str(),
        }
    }

    /// Whether this is a standing conflict (vs. a done-and-dusted auto-merge, or a
    /// heads-up).
    pub fn is_conflict(&self) -> (r: bool)
        ensures
            r == (self is Conflict),
    {
        match self {
            BaseBanner::Conflict(_) => true,
            BaseBanner::Merged(_) => false,
            BaseBanner::Moved(_) => false,
        }
    }
}

pub const CONFLICT_INTRO: &'static str = "Merge conflict: the PR's branch conflicts with `origin/";

pub const CONFLICT_TASK: &'static str =
    "`. Resolve it now, before anything else: merge the base into the branch in the \
     worktree, resolve the conflicts, commit and push, then re-run `ghwf work-on %`.";

/// What leads the banner while the branch conflicts with its base.
pub fn conflict_notice(base: &str, number: u64) -> (r: String)
    ensures
        r@ == CONFLICT_INTRO@ + base@ + text::fill(CONFLICT_TASK@, text::decimal(number as nat)),
{
    let mut out = text::copy(CONFLICT_INTRO);
    out.append(base);
    out.append(text::filled_number(CONFLICT_TASK, number).as_str());
    out
}

pub const MERGED_INTRO: &'static str = "ghwf merged `origin/";

pub const MERGED_TASK: &'static str =
    "` into the branch of issue #% and pushed it; nothing to do. Pull before you commit.";

/// What leads the banner once the base was merged in.
pub fn base_merged_notice(base: &str, number: u64) -> (r: String)
    ensures
        r@ == MERGED_INTRO@ + base@ + text::fill(MERGED_TASK@, text::decimal(number as nat)),
{
    let mut out = text::copy(MERGED_INTRO);
    out.append(base);
    out.append(text::filled_number(MERGED_TASK, number).as_str());
    out
}

/// The commits, one on a line.
pub open spec fn bulleted(commits: Seq<Seq<char>>) -> Seq<char>
    decreases commits.len(),
{
    if commits.len() == 0 {
        seq![]
    } else {
        bulleted(commits.drop_last()) + "\n- "@ + commits.last()
    }
}

/// The commits, one on a line.
fn bullets(commits: &Vec<String>) -> (r: String)
    ensures
        r@ == bulleted(text::views(commits@)),
{
    let ghost all = text::views(commits@);
    let mut out = String::new();
    let mut i: usize = 0;
    assert(all.take(0) =~= seq![]);
    assert(out@ =~= seq![]);
    while i < commits.len()
        invariant
            i <= commits.len(),
            all == text::views(commits@),
            out@ == bulleted(all.take(i as int)),
        decreases commits.len() - i,
    {
        assert(all.take(i + 1).drop_last() =~= all.take(i as int));
        assert(all.take(i + 1).last() == commits@[i as int]@);
        out.append("\n- ");
        out.append(commits[i].as_str());
        i = i + 1;
    }
    assert(all.take(all.len() as int) =~= all);
    out
}

pub const MOVED_INTRO: &'static str = "Heads-up: `origin/";

pub const MOVED_NEWS: &'static str =
    "` has moved on since the branch of issue #% left it. It merges cleanly, but the new \
     commits may bear on the work:\n";

pub const MOVED_TASK: &'static str =
    "\n\nWeigh them against your plan before you integrate them: there may be a change to \
     follow, work that supersedes yours, or a helper to reuse.";

/// What leads the banner when the base has moved on cleanly.
pub open spec fn moved_text(base: Seq<char>, number: nat, commits: Seq<Seq<char>>) -> Seq<char> {
    MOVED_INTRO@ + base + text::fill(MOVED_NEWS@, text::decimal(number)) + bulleted(commits)
        + MOVED_TASK@
}

/// What leads the banner when the base has moved on cleanly: it names the new commits.
pub fn base_moved_notice(base: &str, number: u64, commits: &Vec<String>) -> (r: String)
    ensures
        r@ == moved_text(base@, number as nat, text::views(commits@)),
{
    let mut out = text::copy(MOVED_INTRO);
    out.append(base);
    out.append(text::filled_number(MOVED_NEWS, number).as_str());
    out.append(bullets(commits).as_str());
    out.append(MOVED_TASK);
    out
}

pub const BROUGHT: &'static str = "\n\nThe commits it brought in:\n";

/// The commits that a merge brought in, where they could be listed.
pub open spec fn brought_in(commits: Result<Vec<String>, String>) -> Seq<char> {
    match commits {
        Ok(commits) => BROUGHT@ + bulleted(text::views(commits@)),
        Err(_) => ""@,
    }
}

/// The base was merged into the recorded branch and, once that has succeeded, the
/// branch pushed, and `m` is how it went.
pub open spec fn merged_in<R: Fn(Vec<String>) -> Ran>(
    before: Git<R>,
    after: Git<R>,
    prep: PrepState,
    base: Seq<char>,
    m: Result<(), String>,
) -> bool {
    match (prep.worktree_path, prep.branch) {
        (None, _) => after == before && m is Err && m->Err_0@ == "no worktree path recorded"@,
        (Some(_), None) => after == before && m is Err && m->Err_0@ == "no branch recorded"@,
        (Some(worktree), Some(branch)) => exists|mid: Git<R>, g: Result<(), String>| #[trigger]
            git::merged(before, mid, worktree@, remote_name(base), g) && match g {
                Err(e) => after == mid && m == Err::<(), String>(e),
                Ok(_) => git::did(
                    mid,
                    after,
                    worktree@,
                    seq!["push"@, "-u"@, "origin"@, branch@],
                    m,
                ),
            },
    }
}

/// Merge the base into the PR's branch and push.
fn auto_merge_base<R: Fn(Vec<String>) -> Ran>(
    git: &mut Git<R>,
    prep: &PrepState,
    base: &str,
) -> (r: Result<(), String>)
    requires
        old(git).ready(),
    ensures
        merged_in(*old(git), *final(git), *prep, base@, r),
{
    let worktree = match &prep.worktree_path {
        Some(worktree) => worktree,
        None => {
            return Err(text::copy("no worktree path recorded"));
        },
    };
    let branch = match &prep.branch {
        Some(branch) => branch,
        None => {
            return Err(text::copy("no branch recorded"));
        },
    };
    let name = base_ref(base);
    let merged = git::merge(git, worktree.as_str(), name.as_str());
    let ghost mid = *git;
    assert(git::merged(*old(git), mid, worktree@, remote_name(base@), merged));
    if merged.is_err() {
        return merged;
    }
    git::push(git, worktree.as_str(), branch.as_str())
}

/// What the banner is led with, by a check of the base.
pub open spec fn is_banner<R: Fn(Vec<String>) -> Ran>(
    before: Git<R>,
    after: Git<R>,
    prep: PrepState,
    number: u64,
    auto_merge: bool,
    s: Result<(String, BaseSync), String>,
    r: Result<Option<BaseBanner>, String>,
) -> bool {
    match s {
        Err(e) => after == before && r is Err && r->Err_0@ == UNCHECKED@ + e@,
        Ok((base, sync)) => match sync {
            BaseSync::UpToDate => after == before && r is Ok && r->Ok_0 is None,
            BaseSync::Conflict => after == before && r is Ok && r->Ok_0 is Some
                && r->Ok_0->0 is Conflict && r->Ok_0->0.told() == CONFLICT_INTRO@ + base@
                + text::fill(CONFLICT_TASK@, text::decimal(number as nat)),
            BaseSync::BehindClean => if !auto_merge {
                after == before && r is Ok && r->Ok_0 is None
            } else {
                exists|m: Result<(), String>| #[trigger]
                    merged_in(before, after, prep, base@, m) && match m {
                        Ok(_) => r is Ok && r->Ok_0 is Some && r->Ok_0->0 is Merged
                            && r->Ok_0->0.told() == MERGED_INTRO@ + base@ + text::fill(
                            MERGED_TASK@,
                            text::decimal(number as nat),
                        ),
                        Err(e) => r is Err && r->Err_0@ == "auto-merge of `origin/"@ + base@
                            + "` failed: "@ + e@,
                    }
            },
        },
    }
}

/// The branch was checked against its base, and the banner made from that.
pub open spec fn is_led<R: Fn(Vec<String>) -> Ran>(
    before: Git<R>,
    after: Git<R>,
    prep: PrepState,
    on_disk: bool,
    number: u64,
    auto_merge: bool,
    r: Result<Option<BaseBanner>, String>,
) -> bool {
    if checkable(prep, on_disk) {
        exists|mid: Git<R>, s: Result<(String, BaseSync), String>| #[trigger]
            is_synced(before, mid, prep.worktree_path->0@, s) && is_banner(
                mid,
                after,
                prep,
                number,
                auto_merge,
                s,
                r,
            )
    } else {
        after == before && r is Ok && r->Ok_0 is None
    }
}

/// The leading banner block for the implement and review bodies. A conflict gives
/// the resolve-it-now notice; a branch that is behind and merges cleanly is, when
/// `auto_merge` is on, merged up to its base and pushed, which the notice confirms;
/// everything else gives none. A failure gives the warning, and no banner.
pub fn base_banner<R: Fn(Vec<String>) -> Ran>(
    git: &mut Git<R>,
    prep: &PrepState,
    on_disk: bool,
    number: u64,
    auto_merge: bool,
) -> (r: Result<Option<BaseBanner>, String>)
    requires
        old(git).ready(),
    ensures
        is_led(*old(git), *final(git), *prep, on_disk, number, auto_merge, r),
{
    let checked = check_base(git, prep, on_disk);
    let ghost mid = *git;
    let ghost s = choose|s: Result<(String, BaseSync), String>| #[trigger]
        is_synced(*old(git), mid, prep.worktree_path->0@, s) && match s {
            Ok(found) => checked == Ok::<Option<(String, BaseSync)>, String>(Some(found)),
            Err(e) => checked is Err && checked->Err_0@ == UNCHECKED@ + e@,
        };
    let (base, sync) = match checked {
        Err(e) => {
            return Err(e);
        },
        Ok(None) => {
            return Ok(None);
        },
        Ok(Some(found)) => found,
    };
    assert(mid.ready()) by {
        lemma_synced_spares(
            *old(git),
            mid,
            prep.worktree_path->0@,
            s,
            "push"@,
        );
    }
    match sync {
        BaseSync::UpToDate => Ok(None),
        BaseSync::Conflict => Ok(Some(BaseBanner::Conflict(conflict_notice(base.as_str(), number)))),
        BaseSync::BehindClean => {
            if !auto_merge {
                return Ok(None);
            }
            let merged = auto_merge_base(git, prep, base.as_str());
            assert(merged_in(mid, *git, *prep, base@, merged));
            match merged {
                Ok(_) => Ok(Some(BaseBanner::Merged(base_merged_notice(base.as_str(), number)))),
                Err(e) => {
                    let mut out = text::copy("auto-merge of `origin/");
                    out.append(base.as_str());
                    out.append("` failed: ");
                    out.append(e.as_str());
                    Err(out)
                },
            }
        },
    }
}

/// Checking a branch against its base runs none of the commands that change one.
proof fn lemma_synced_spares<R: Fn(Vec<String>) -> Ran>(
    before: Git<R>,
    after: Git<R>,
    dir: Seq<char>,
    r: Result<(String, BaseSync), String>,
    verb: Seq<char>,
)
    requires
        is_synced(before, after, dir, r),
        verb == "merge"@ || verb == "push"@,
    ensures
        git::spared(before, after, verb),
        after.function() == before.function(),
{
    reveal_strlit("merge");
    reveal_strlit("push");
    reveal_strlit("fetch");
    reveal_strlit("rev-parse");
    reveal_strlit("merge-base");
    reveal_strlit("merge-tree");
    assert("fetch"@[0] == 'f' && "merge"@[0] == 'm');
    assert(verb.len() < "rev-parse"@.len());
    assert(verb.len() < "merge-tree"@.len());
    let (one, f) = choose|mid: Git<R>, f: Result<(), String>| #[trigger]
        git::fetched(before, mid, dir, f) && match f {
            Err(e) => after == mid && r == Err::<(String, BaseSync), String>(e),
            Ok(_) => is_compared(mid, after, dir, r),
        };
    let words = seq!["fetch"@, "--prune"@, "origin"@];
    assert(words[0] == "fetch"@);
    git::lemma_did_spares(before, one, dir, words, f, verb);
    if f is Ok {
        let (two, d) = choose|mid: Git<R>, d: Result<Seq<char>, Seq<char>>| #[trigger]
            git::default_named(one, mid, dir, d) && match d {
                Err(e) => after == mid && r is Err && r->Err_0@ == e,
                Ok(base) => classified(mid, after, dir, base, r),
            };
        let words = seq!["rev-parse"@, "--abbrev-ref"@, "origin/HEAD"@];
        assert(words[0] == "rev-parse"@);
        git::lemma_answered_spares(
            one,
            two,
            dir,
            words,
            |a: Result<Seq<char>, Seq<char>>| d == git::default_of(a),
            verb,
        );
        git::lemma_spared_joined(before, one, two, verb);
        if d is Ok {
            let base = d->Ok_0;
            let (three, contains) = choose|mid: Git<R>, contains: bool| #[trigger]
                base_contained(two, mid, dir, base, contains) && if contains {
                    after == mid && is_at(base, BaseSync::UpToDate, r)
                } else {
                    exists|c: Result<bool, String>| #[trigger]
                        git::tried(mid, after, dir, remote_name(base), c) && match c {
                            Ok(conflicts) => is_at(base, standing(false, conflicts), r),
                            Err(e) => r == Err::<(String, BaseSync), String>(e),
                        }
                };
            let words = seq!["merge-base"@, "--is-ancestor"@, remote_name(base), "HEAD"@];
            assert(words[0] == "merge-base"@);
            git::lemma_probed_spares(two, three, dir, words, contains, verb);
            git::lemma_spared_joined(before, two, three, verb);
            if !contains {
                let c = choose|c: Result<bool, String>| #[trigger]
                    git::tried(three, after, dir, remote_name(base), c);
                git::lemma_tried_spares(three, after, dir, remote_name(base), c, verb);
                git::lemma_spared_joined(before, three, after, verb);
            }
        }
    }
}

/// Where `auto_merge` is off, nothing is merged and nothing pushed, whatever the
/// check of the base comes to.
pub proof fn nothing_is_merged_unasked<R: Fn(Vec<String>) -> Ran>(
    before: Git<R>,
    after: Git<R>,
    prep: PrepState,
    on_disk: bool,
    number: u64,
    r: Result<Option<BaseBanner>, String>,
)
    requires
        is_led(before, after, prep, on_disk, number, false, r),
    ensures
        git::spared(before, after, "merge"@),
        git::spared(before, after, "push"@),
{
    if checkable(prep, on_disk) {
        let (mid, s) = choose|mid: Git<R>, s: Result<(String, BaseSync), String>| #[trigger]
            is_synced(before, mid, prep.worktree_path->0@, s) && is_banner(
                mid,
                after,
                prep,
                number,
                false,
                s,
                r,
            );
        lemma_synced_spares(before, mid, prep.worktree_path->0@, s, "merge"@);
        lemma_synced_spares(before, mid, prep.worktree_path->0@, s, "push"@);
    }
}

pub const UNLISTED: &'static str = "could not list the new commits of `origin/";

/// What a run's banner is led with, by a check of the base.
pub open spec fn is_lead<R: Fn(Vec<String>) -> Ran>(
    before: Git<R>,
    after: Git<R>,
    prep: PrepState,
    number: u64,
    auto_merge: bool,
    s: Result<(String, BaseSync), String>,
    r: Result<Option<BaseBanner>, String>,
) -> bool {
    match s {
        Ok((base, BaseSync::BehindClean)) => exists|
            mid: Git<R>,
            c: Result<Vec<String>, String>,
        | #[trigger]
            git::new_listed(before, mid, prep.worktree_path->0@, remote_name(base@), c)
                && if auto_merge {
                is_merge(mid, after, prep, number, base@, c, r)
            } else {
                after == mid && match c {
                    Ok(commits) => r is Ok && r->Ok_0 is Some && r->Ok_0->0 is Moved
                        && r->Ok_0->0.told() == moved_text(
                        base@,
                        number as nat,
                        text::views(commits@),
                    ),
                    Err(e) => r is Err && r->Err_0@ == UNLISTED@ + base@ + "`: "@ + e@,
                }
            },
        _ => is_banner(before, after, prep, number, auto_merge, s, r),
    }
}

/// The base was merged in, and the banner confirms it and names what came with it.
pub open spec fn is_merge<R: Fn(Vec<String>) -> Ran>(
    before: Git<R>,
    after: Git<R>,
    prep: PrepState,
    number: u64,
    base: Seq<char>,
    commits: Result<Vec<String>, String>,
    r: Result<Option<BaseBanner>, String>,
) -> bool {
    exists|m: Result<(), String>| #[trigger]
        merged_in(before, after, prep, base, m) && match m {
            Ok(_) => r is Ok && r->Ok_0 is Some && r->Ok_0->0 is Merged && r->Ok_0->0.told()
                == MERGED_INTRO@ + base + text::fill(MERGED_TASK@, text::decimal(number as nat))
                + brought_in(commits),
            Err(e) => r is Err && r->Err_0@ == "auto-merge of `origin/"@ + base + "` failed: "@
                + e@,
        }
}

/// The branch was checked against its base, and what leads the banner made from that.
pub open spec fn is_headed<R: Fn(Vec<String>) -> Ran>(
    before: Git<R>,
    after: Git<R>,
    prep: PrepState,
    on_disk: bool,
    number: u64,
    auto_merge: bool,
    r: Result<Option<BaseBanner>, String>,
) -> bool {
    if checkable(prep, on_disk) {
        exists|mid: Git<R>, s: Result<(String, BaseSync), String>| #[trigger]
            is_synced(before, mid, prep.worktree_path->0@, s) && is_lead(
                mid,
                after,
                prep,
                number,
                auto_merge,
                s,
                r,
            )
    } else {
        after == before && r is Ok && r->Ok_0 is None
    }
}

/// What a run's banner is led with in the implement and review phases: what
/// [`base_banner`] gives and, when the base has moved on cleanly, a heads-up that names
/// the new commits. Where the base is merged in, the confirmation names them too.
pub fn base_heading<R: Fn(Vec<String>) -> Ran>(
    git: &mut Git<R>,
    prep: &PrepState,
    on_disk: bool,
    number: u64,
    auto_merge: bool,
) -> (r: Result<Option<BaseBanner>, String>)
    requires
        old(git).ready(),
    ensures
        is_headed(*old(git), *final(git), *prep, on_disk, number, auto_merge, r),
{
    let checked = check_base(git, prep, on_disk);
    let ghost mid = *git;
    let ghost s = choose|s: Result<(String, BaseSync), String>| #[trigger]
        is_synced(*old(git), mid, prep.worktree_path->0@, s) && match s {
            Ok(found) => checked == Ok::<Option<(String, BaseSync)>, String>(Some(found)),
            Err(e) => checked is Err && checked->Err_0@ == UNCHECKED@ + e@,
        };
    let (base, sync) = match checked {
        Err(e) => {
            return Err(e);
        },
        Ok(None) => {
            return Ok(None);
        },
        Ok(Some(found)) => found,
    };
    assert(mid.ready()) by {
        lemma_synced_spares(*old(git), mid, prep.worktree_path->0@, s, "push"@);
    }
    match sync {
        BaseSync::UpToDate => Ok(None),
        BaseSync::Conflict => Ok(Some(BaseBanner::Conflict(conflict_notice(base.as_str(), number)))),
        BaseSync::BehindClean => {
            let target = base_ref(base.as_str());
            let worktree = match &prep.worktree_path {
                Some(worktree) => worktree.as_str(),
                None => "",
            };
            let commits = git::new_commits(git, worktree, target.as_str());
            let ghost listed = *git;
            assert(git::new_listed(
                mid,
                listed,
                prep.worktree_path->0@,
                remote_name(base@),
                commits,
            ));
            if auto_merge {
                assert(listed.ready()) by {
                    lemma_listed_spares(mid, listed, worktree@, remote_name(base@), commits, "push"@);
                }
                let merged = auto_merge_base(git, prep, base.as_str());
                assert(merged_in(listed, *git, *prep, base@, merged));
                match merged {
                    Ok(_) => {
                        let mut notice = base_merged_notice(base.as_str(), number);
                        match &commits {
                            Ok(commits) => {
                                notice.append(BROUGHT);
                                notice.append(bullets(commits).as_str());
                            },
                            Err(_) => {},
                        }
                        proof {
                            reveal_strlit("");
                        }
                        let r: Result<Option<BaseBanner>, String> = Ok(
                            Some(BaseBanner::Merged(notice)),
                        );
                        assert(r->Ok_0->0.told() =~= MERGED_INTRO@ + base@ + text::fill(
                            MERGED_TASK@,
                            text::decimal(number as nat),
                        ) + brought_in(commits));
                        assert(is_merge(listed, *git, *prep, number, base@, commits, r));
                        r
                    },
                    Err(e) => {
                        let mut out = text::copy("auto-merge of `origin/");
                        out.append(base.as_str());
                        out.append("` failed: ");
                        out.append(e.as_str());
                        let r: Result<Option<BaseBanner>, String> = Err(out);
                        assert(is_merge(listed, *git, *prep, number, base@, commits, r));
                        r
                    },
                }
            } else {
                match commits {
                    Ok(commits) => Ok(
                        Some(
                            BaseBanner::Moved(base_moved_notice(base.as_str(), number, &commits)),
                        ),
                    ),
                    Err(e) => {
                        let mut out = text::copy(UNLISTED);
                        out.append(base.as_str());
                        out.append("`: ");
                        out.append(e.as_str());
                        Err(out)
                    },
                }
            }
        },
    }
}

/// Listing commits runs none of the commands that change a branch.
proof fn lemma_listed_spares<R: Fn(Vec<String>) -> Ran>(
    before: Git<R>,
    after: Git<R>,
    dir: Seq<char>,
    target: Seq<char>,
    r: Result<Vec<String>, String>,
    verb: Seq<char>,
)
    requires
        git::new_listed(before, after, dir, target, r),
        verb == "merge"@ || verb == "push"@,
    ensures
        git::spared(before, after, verb),
        after.function() == before.function(),
{
    reveal_strlit("merge");
    reveal_strlit("push");
    reveal_strlit("log");
    let words = seq!["log"@, "--format=%h %s"@, "HEAD.."@ + target];
    assert(words[0] == "log"@ && "log"@.len() < verb.len());
    git::lemma_answered_spares(
        before,
        after,
        dir,
        words,
        |a: Result<Seq<char>, Seq<char>>| git::listed(a, r),
        verb,
    );
}

/// Where `auto_merge` is off, a heads-up merges nothing and pushes nothing; and the base
/// that has moved on cleanly is never passed over in silence.
pub proof fn a_moved_base_is_told<R: Fn(Vec<String>) -> Ran>(
    before: Git<R>,
    after: Git<R>,
    prep: PrepState,
    on_disk: bool,
    number: u64,
    r: Result<Option<BaseBanner>, String>,
)
    requires
        is_headed(before, after, prep, on_disk, number, false, r),
    ensures
        git::spared(before, after, "merge"@),
        git::spared(before, after, "push"@),
        checkable(prep, on_disk) ==> exists|
            mid: Git<R>,
            s: Result<(String, BaseSync), String>,
        | #[trigger]
            is_synced(before, mid, prep.worktree_path->0@, s) && (s is Ok && s->Ok_0.1
                == BaseSync::BehindClean ==> r is Err || (r->Ok_0 is Some && r->Ok_0->0 is Moved)),
{
    if checkable(prep, on_disk) {
        let (mid, s) = choose|mid: Git<R>, s: Result<(String, BaseSync), String>| #[trigger]
            is_synced(before, mid, prep.worktree_path->0@, s) && is_lead(
                mid,
                after,
                prep,
                number,
                false,
                s,
                r,
            );
        let dir = prep.worktree_path->0@;
        lemma_synced_spares(before, mid, dir, s, "merge"@);
        lemma_synced_spares(before, mid, dir, s, "push"@);
        if s is Ok && s->Ok_0.1 == BaseSync::BehindClean {
            let base = s->Ok_0.0;
            let (_listed, c) = choose|m: Git<R>, c: Result<Vec<String>, String>| #[trigger]
                git::new_listed(mid, m, dir, remote_name(base@), c) && after == m && match c {
                    Ok(commits) => r is Ok && r->Ok_0 is Some && r->Ok_0->0 is Moved
                        && r->Ok_0->0.told() == moved_text(
                        base@,
                        number as nat,
                        text::views(commits@),
                    ),
                    Err(e) => r is Err && r->Err_0@ == UNLISTED@ + base@ + "`: "@ + e@,
                };
            lemma_listed_spares(mid, after, dir, remote_name(base@), c, "merge"@);
            lemma_listed_spares(mid, after, dir, remote_name(base@), c, "push"@);
            git::lemma_spared_joined(before, mid, after, "merge"@);
            git::lemma_spared_joined(before, mid, after, "push"@);
        }
    }
}

} // verus!
