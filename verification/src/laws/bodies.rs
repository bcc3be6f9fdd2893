//! What a session is told to do while it implements, and under review.

use vstd::prelude::*;

use crate::github;
use crate::implement;
use crate::laws::texts::lemma_fill_one;
use crate::state::IssueState;
use crate::text;

verus! {

/// How a session asks and waits.
pub open spec fn asks_and_waits() -> Seq<char> {
    "If you need an answer from the user to proceed, never use an interactive \
         prompt (no AskUserQuestion, and don't ask in prose and stop): post the \
         question with `ghwf hand-off --question` (body from stdin) — that flips the \
         issue to \"needs you\" — then `ghwf wait` for the reply."@ + "\n\n"@ + "Once you have posted your comment(s) and have nothing else to do, run `ghwf \
         wait` — it blocks until there is new activity (up to ~9 minutes; give it a \
         10-minute command timeout). Exit 0 means new activity arrived: run `ghwf \
         work-on` to process it. Exit 2 means nothing yet: run `ghwf wait` again. Do \
         not poll with your own sleep loops."@
}

/// How a session answers, asks and waits where there is a PR.
pub open spec fn answers_in_place() -> Seq<char> {
    "Answer each question in the place it was asked: reply to an inline review \
         comment with `ghwf reply-review-comment --id <id>` (body from stdin), and to \
         a conversation comment on its own thread."@ + "\n\n"@ + asks_and_waits()
}

/// A plan lies under `plans`, by the issue's number and its slug.
pub proof fn plans_lie_by_issue(number: u64, slug: &str, r: String)
    requires
        call_ensures(implement::plan_path, (number, slug), r),
    ensures
        r@ == "plans/"@ + text::decimal(number as nat) + "-"@ + slug@ + ".md"@,
{
}

/// The PR's title and body are kept by the project's own instructions, where there are any.
pub proof fn prs_are_kept_by_instructions(instructions: Option<&str>, r: String)
    requires
        call_ensures(implement::pr_maintenance_instruction, (instructions,), r),
    ensures
        instructions is Some ==> r@ == "Read `"@ + instructions->0@ + "` for this project's instructions on writing the PR title and body. Finish \
         each round of work by checking whether the PR title or body should be updated \
         to reflect what is now on the branch, and update them per those instructions."@,
        instructions is None ==> r@ == "Finish each round of work by checking whether the PR title or body should be \
         updated to reflect what is now on the branch; keep them accurate, concise, \
         and current."@,
{
}

/// Without a recorded preparation the phases before it are asked for; the issue is named.
/// Without a branch the plan is named. With one, the worktree, the plan, the PR and how to
/// keep it are.
pub proof fn bodies_name_the_work(
    worktree: &str,
    plan: &str,
    pr: Option<&str>,
    instructions: Option<&str>,
    kept: String,
    branch: String,
    alone: String,
    number: u64,
    unprepared: String,
)
    requires
        call_ensures(implement::pr_maintenance_instruction, (instructions,), kept),
        call_ensures(implement::branch_body, (worktree, plan, pr, instructions), branch),
        call_ensures(implement::no_branch_body, (plan,), alone),
        call_ensures(implement::no_prep_body, (number,), unprepared),
    ensures
        branch@ == "Implement — code the change in the worktree.\n\n- Worktree: `"@ + worktree@ + "`\n- Plan: `"@ + plan@ + "`\n"@ + (if pr is Some {
            "- Draft PR: "@ + pr->0@ + "\n"@
        } else {
            seq![]
        }) + "\nImplement per the plan, committing and pushing to the branch as you go (the \
         draft PR updates automatically). Address any PR feedback shown below. "@ + kept@ + " When the work is complete and ready for human review, hand off with `ghwf \
         hand-off` (body from stdin): a comment summarising the change. ghwf appends \
         the next-step instructions (the user marks the draft PR ready for review) — \
         do not write them yourself.\n\n"@ + answers_in_place(),
        alone@ == "Implement (--no-branch) — code the change per `"@ + plan@ + "`.\n\nYou are managing the branch and commits yourself; there is no ghwf \
         worktree or PR. When the work is complete, hand off with `ghwf hand-off` \
         (body from stdin).\n\n"@ + asks_and_waits(),
        unprepared@ == "No prep state is recorded for issue #"@ + text::decimal(number as nat) + ". Run `ghwf work-on` through the earlier phases (pre-plan, prep-and-plan) \
         first."@,
{
    assert(answers_in_place() =~= implement::pr_reminders());
    assert(asks_and_waits() =~= implement::reminders());
}

/// Under review the PR is named and how to keep it is said; without a branch there is none.
pub proof fn reviews_name_the_pr(
    url: &str,
    instructions: Option<&str>,
    kept: String,
    r: String,
    alone: String,
)
    requires
        call_ensures(implement::pr_maintenance_instruction, (instructions,), kept),
        call_ensures(implement::review_body, (url, instructions), r),
        call_ensures(implement::review_no_branch_body, (), alone),
    ensures
        r@ == "Review — awaiting human review.\n\nThe PR is ready for review: "@ + url@ + "\n\nNothing more is needed from you unless review feedback arrives; it will \
         appear below on future `ghwf work-on` runs. "@ + kept@ + "\n\n"@ + answers_in_place(),
        alone@ == "Review — the work is complete.\n\nThere is no ghwf PR to mark ready (this \
         issue was worked with --no-branch); hand off for human review however you \
         normally would.\n\n"@ + asks_and_waits(),
{
    assert(answers_in_place() =~= implement::pr_reminders());
    assert(asks_and_waits() =~= implement::reminders());
}

/// The body for the implement phase is the one for the issue's preparation: none, one
/// without a branch, or one with its recorded worktree and PR.
pub proof fn implementing_follows_the_preparation(
    owner: &str,
    repo: &str,
    number: u64,
    slug: &str,
    state: &IssueState,
    instructions: Option<&str>,
    r: String,
    plan: String,
    plan_text: &str,
    unprepared: String,
    alone: String,
    worktree: &str,
    address: String,
    pr: Option<&str>,
    branch: String,
)
    requires
        call_ensures(implement::run, (owner, repo, number, slug, state, instructions), r),
        call_ensures(implement::no_prep_body, (number,), unprepared),
        call_ensures(implement::plan_path, (number, slug), plan),
        plan_text@ == plan@,
        call_ensures(implement::no_branch_body, (plan_text,), alone),
        call_ensures(implement::branch_body, (worktree, plan_text, pr, instructions), branch),
        state.prep is Some && state.prep->0.worktree_path is Some ==> worktree@
            == state.prep->0.worktree_path->0@,
        state.prep is Some && state.prep->0.worktree_path is None ==> worktree@
            == "(not yet created)"@,
        state.prep is Some ==> (pr is Some <==> state.prep->0.pr_number is Some),
        state.prep is Some && pr is Some ==> call_ensures(
            github::url_of_pr,
            (owner, repo, state.prep->0.pr_number->0),
            address,
        ) && pr->0@ == address@,
    ensures
        state.prep is None ==> r@ == unprepared@,
        state.prep is Some && state.prep->0.no_branch ==> r@ == alone@,
        state.prep is Some && !state.prep->0.no_branch ==> r@ == branch@,
{
}

/// The body for the review phase is the one for the issue's preparation and its PR.
pub proof fn reviewing_follows_the_preparation(
    owner: &str,
    repo: &str,
    number: u64,
    state: &IssueState,
    instructions: Option<&str>,
    r: String,
    unprepared: String,
    alone: String,
    address: String,
    pr: &str,
    body: String,
)
    requires
        call_ensures(implement::review, (owner, repo, number, state, instructions), r),
        call_ensures(implement::no_prep_body, (number,), unprepared),
        call_ensures(implement::review_no_branch_body, (), alone),
        call_ensures(implement::review_body, (pr, instructions), body),
        state.prep is Some && state.prep->0.pr_number is Some ==> call_ensures(
            github::url_of_pr,
            (owner, repo, state.prep->0.pr_number->0),
            address,
        ) && pr@ == address@,
    ensures
        state.prep is None ==> r@ == unprepared@,
        state.prep is Some && state.prep->0.no_branch ==> r@ == alone@,
        state.prep is Some && !state.prep->0.no_branch && state.prep->0.pr_number is None ==> r@
            == "Review — awaiting human review. (No ghwf PR was recorded.)"@,
        state.prep is Some && !state.prep->0.no_branch && state.prep->0.pr_number is Some ==> r@
            == body@,
{
}

proof fn lemma_lead(base: Seq<char>, number: nat)
    ensures
        lead(base, number) == implement::MOVED_INTRO@ + base + text::fill(
            implement::MOVED_NEWS@,
            text::decimal(number),
        ),
{
    let d = text::decimal(number);
    reveal_strlit("` has moved on since the branch of issue #");
    reveal_strlit(" left it. It merges cleanly, but the new commits may bear on the work:\n");
    reveal_strlit("` has moved on since the branch of issue #% left it. It merges cleanly, but the new commits may bear on the work:\n");
    let a = "` has moved on since the branch of issue #"@;
    let b = " left it. It merges cleanly, but the new commits may bear on the work:\n"@;
    assert(implement::MOVED_NEWS@ =~= a.push('%') + b);
    lemma_fill_one(a, b, d);
}

/// The notice of new commits holds their list between its lead and its end.
pub proof fn lemma_listed(base: &str, number: u64, commits: &Vec<String>, r: String)
    requires
        call_ensures(implement::base_moved_notice, (base, number, commits), r),
    ensures
        r@ == lead(base@, number as nat) + implement::bulleted(text::views(commits@)) + weighed(),
{
    lemma_lead(base@, number as nat);
}

/// A base's remote-tracking name, and what is said where it has moved on: the base, the
/// issue, and every new commit on a line of its own, in order.
pub proof fn new_commits_are_listed(
    base: &str,
    name: String,
    number: u64,
    commits: &Vec<String>,
    r: String,
    fewer: &Vec<String>,
    before: String,
)
    requires
        call_ensures(implement::base_ref, (base,), name),
        call_ensures(implement::base_moved_notice, (base, number, commits), r),
        call_ensures(implement::base_moved_notice, (base, number, fewer), before),
    ensures
        name@ == "origin/"@ + base@,
        commits@.len() == 0 ==> r@ == lead(base@, number as nat) + weighed(),
        commits@.len() > 0 && fewer@ == commits@.drop_last() ==> exists|list: Seq<char>|
            #![trigger list.len()]
            before@ == lead(base@, number as nat) + list + weighed() && r@ == lead(
                base@,
                number as nat,
            ) + (list + "\n- "@ + commits@.last()@) + weighed(),
{
    lemma_lead(base@, number as nat);
    let list = implement::bulleted(text::views(commits@));
    let front = lead(base@, number as nat);
    if commits@.len() == 0 {
        assert(list.len() == 0);
        assert(r@ =~= front + weighed());
    } else if fewer@ == commits@.drop_last() {
        let part = implement::bulleted(text::views(fewer@));
        assert(text::views(commits@).drop_last() =~= text::views(fewer@));
        assert(text::views(commits@).last() == commits@.last()@);
        assert(part.len() >= 0);
        assert(before@ =~= front + part + weighed());
        assert(r@ =~= front + (part + "\n- "@ + commits@.last()@) + weighed());
    }
}

/// The base and the issue, named where the base has moved on.
pub open spec fn lead(base: Seq<char>, number: nat) -> Seq<char> {
    "Heads-up: `origin/"@ + base + ("` has moved on since the branch of issue #"@ + text::decimal(number) + " left it. It merges cleanly, but the new commits may bear on the work:\n"@)
}

/// What is to be done with the new commits.
pub open spec fn weighed() -> Seq<char> {
    "\n\nWeigh them against your plan before you integrate them: there may be a \
         change to follow, work that supersedes yours, or a helper to reuse."@
}

} // verus!
