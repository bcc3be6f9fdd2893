//! The phases, the commands that approve them, and how a PR ends them.

use vstd::prelude::*;

use crate::laws::approvals::{rank, written};
use crate::models::PullRequest;
use crate::render::{Transition, Trigger};
use crate::state::{self, Directive, IssueState, Phase, PrOutcome};
use crate::text;
use crate::workflow::{self, AdvanceOutcome};

verus! {

/// The line begins with this word, and ends or goes on with white space behind it.
pub open spec fn begins(line: Seq<char>, word: Seq<char>) -> bool {
    &&& word.len() <= line.len()
    &&& line.take(word.len() as int) == word
    &&& line.len() == word.len() || text::is_space(line[word.len() as int])
}

/// The line begins with the command; the first approval has two spellings.
pub open spec fn orders(line: Seq<char>, d: Directive) -> bool {
    begins(line, written(d)) || (d == Directive::ApprovePrePlan && begins(
        line,
        "/approve-preplan"@,
    ))
}

proof fn lemma_word(line: Seq<char>)
    ensures
        state::first_word(line).len() <= line.len(),
        state::first_word(line) == line.take(state::first_word(line).len() as int),
        forall|i: int|
            0 <= i < state::first_word(line).len() ==> !text::is_space(#[trigger] line[i]),
        state::first_word(line).len() == line.len() || text::is_space(
            line[state::first_word(line).len() as int],
        ),
    decreases line.len(),
{
    if line.len() == 0 || text::is_space(line[0]) {
        assert(line.take(0) =~= seq![]);
    } else {
        let rest = line.skip(1);
        lemma_word(rest);
        let n = state::first_word(rest).len() as int;
        assert(state::first_word(line) =~= line.take(n + 1));
        assert forall|i: int| 0 <= i < n + 1 implies !text::is_space(#[trigger] line[i]) by {
            if i > 0 {
                assert(line[i] == rest[i - 1]);
            }
        }
    }
}

proof fn lemma_begins(line: Seq<char>, word: Seq<char>)
    requires
        forall|i: int| 0 <= i < word.len() ==> !text::is_space(#[trigger] word[i]),
    ensures
        begins(line, word) <==> state::first_word(line) == word,
{
    lemma_word(line);
    let n = state::first_word(line).len() as int;
    if begins(line, word) {
        if n < word.len() {
            assert(text::is_space(line[n]));
            assert(word[n] == line.take(word.len() as int)[n]);
        } else if n > word.len() {
            assert(!text::is_space(line[word.len() as int]));
        }
    }
}

proof fn lemma_orders(line: Seq<char>, d: Directive)
    ensures
        orders(line, d) <==> state::directive_of(state::first_word(line)) == Some(d),
{
    reveal_strlit("/approve-pre-plan");
    reveal_strlit("/approve-preplan");
    reveal_strlit("/approve-plan");
    reveal_strlit("/approve-implementation");
    reveal_strlit("/proceed");
    lemma_begins(line, "/approve-pre-plan"@);
    lemma_begins(line, "/approve-preplan"@);
    lemma_begins(line, "/approve-plan"@);
    lemma_begins(line, "/approve-implementation"@);
    lemma_begins(line, "/proceed"@);
    assert("/approve-pre-plan"@.len() == 17 && "/approve-preplan"@.len() == 16);
    assert("/approve-plan"@.len() == 13 && "/approve-implementation"@.len() == 23);
    assert("/proceed"@.len() == 8);
}

/// A comment gives the command that begins its first line that begins with one; text
/// behind the command does not matter, nor what stands within a line.
pub proof fn a_command_begins_its_line(body: &str, r: Option<Directive>)
    requires
        call_ensures(state::parse_directive, (body,), r),
    ensures
        forall|d: Directive|
            #![trigger written(d)]
            r == Some(d) <==> exists|i: int|
                #![trigger text::lines(body@)[i]]
                0 <= i < text::lines(body@).len() && orders(text::lines(body@)[i], d) && (forall|
                    j: int,
                    e: Directive,
                |
                    0 <= j < i ==> !#[trigger] orders(text::lines(body@)[j], e)),
        r is None <==> forall|i: int, e: Directive|
            0 <= i < text::lines(body@).len() ==> !#[trigger] orders(text::lines(body@)[i], e),
{
    lemma_directive_in(text::lines(body@));
}

proof fn lemma_directive_in(lines: Seq<Seq<char>>)
    ensures
        forall|d: Directive|
            #![trigger written(d)]
            state::directive_in(lines) == Some(d) <==> exists|i: int|
                #![trigger lines[i]]
                0 <= i < lines.len() && orders(lines[i], d) && (forall|j: int, e: Directive|
                    0 <= j < i ==> !#[trigger] orders(lines[j], e)),
        state::directive_in(lines) is None <==> forall|i: int, e: Directive|
            0 <= i < lines.len() ==> !#[trigger] orders(lines[i], e),
    decreases lines.len(),
{
    if lines.len() > 0 {
        let rest = lines.skip(1);
        lemma_directive_in(rest);
        let word = state::directive_of(state::first_word(lines[0]));
        assert forall|e: Directive| #[trigger] orders(lines[0], e) == (word == Some(e)) by {
            lemma_orders(lines[0], e);
        }
        assert forall|i: int| 0 <= i < rest.len() implies rest[i] == #[trigger] lines[i + 1] by {}
        if word is Some {
            let d0 = word->0;
            assert(orders(lines[0], d0));
            assert forall|d: Directive|
                #![trigger written(d)]
                word == Some(d) <==> exists|i: int|
                    #![trigger lines[i]]
                    0 <= i < lines.len() && orders(lines[i], d) && (forall|j: int, e: Directive|
                        0 <= j < i ==> !#[trigger] orders(lines[j], e)) by {
                if word == Some(d) {
                    assert(lines[0] == lines[0]);
                    assert(orders(lines[0], d));
                }
            }
        } else {
            assert forall|e: Directive| !#[trigger] orders(lines[0], e) by {}
            assert forall|d: Directive|
                #![trigger written(d)]
                state::directive_in(lines) == Some(d) <==> exists|i: int|
                    #![trigger lines[i]]
                    0 <= i < lines.len() && orders(lines[i], d) && (forall|j: int, e: Directive|
                        0 <= j < i ==> !#[trigger] orders(lines[j], e)) by {
                let w = written(d);
                if state::directive_in(lines) == Some(d) {
                    let i = choose|i: int|
                        #![trigger rest[i]]
                        0 <= i < rest.len() && orders(rest[i], d) && (forall|j: int, e: Directive|
                            0 <= j < i ==> !#[trigger] orders(rest[j], e));
                    assert(lines[i + 1] == rest[i]);
                    assert forall|j: int, e: Directive| 0 <= j < i + 1 implies !#[trigger] orders(
                        lines[j],
                        e,
                    ) by {
                        if j > 0 {
                            assert(lines[j] == rest[j - 1]);
                            assert(!orders(rest[j - 1], e));
                        }
                    }
                }
                if exists|i: int|
                    #![trigger lines[i]]
                    0 <= i < lines.len() && orders(lines[i], d) && (forall|j: int, e: Directive|
                        0 <= j < i ==> !#[trigger] orders(lines[j], e)) {
                    let i = choose|i: int|
                        #![trigger lines[i]]
                        0 <= i < lines.len() && orders(lines[i], d) && (forall|
                            j: int,
                            e: Directive,
                        |
                            0 <= j < i ==> !#[trigger] orders(lines[j], e));
                    assert(rest[i - 1] == lines[i]);
                    assert forall|j: int, e: Directive| 0 <= j < i - 1 implies !#[trigger] orders(
                        rest[j],
                        e,
                    ) by {
                        assert(rest[j] == lines[j + 1]);
                        assert(!orders(lines[j + 1], e));
                    }
                }
            }
            if state::directive_in(lines) is None {
                assert forall|i: int, e: Directive| 0 <= i < lines.len() implies !#[trigger] orders(
                    lines[i],
                    e,
                ) by {
                    if i > 0 {
                        assert(lines[i] == rest[i - 1]);
                        assert(!orders(rest[i - 1], e));
                    }
                }
            } else {
                let e = state::directive_in(lines)->0;
                let w = written(e);
                let i = choose|i: int|
                    #![trigger rest[i]]
                    0 <= i < rest.len() && orders(rest[i], e) && (forall|j: int, f: Directive|
                        0 <= j < i ==> !#[trigger] orders(rest[j], f));
                assert(orders(lines[i + 1], e));
            }
        }
    }
}

/// A posted comment asks for an approval by naming its command behind "Next: comment",
/// the first approval before the second; a 👍 on it stands for that command.
pub proof fn prompts_name_their_command(body: &str, r: Option<Directive>)
    requires
        call_ensures(state::parse_prompted_directive, (body,), r),
    ensures
        r == Some(Directive::ApprovePrePlan) <==> text::contains(
            body@,
            "Next: comment `/approve-pre-plan`"@,
        ),
        r == Some(Directive::ApprovePlan) <==> text::contains(
            body@,
            "Next: comment `/approve-plan`"@,
        ) && !text::contains(body@, "Next: comment `/approve-pre-plan`"@),
        r is None || r == Some(Directive::ApprovePrePlan) || r == Some(Directive::ApprovePlan),
{
}

/// The phases follow one another in one line, and the command that approves a phase
/// is the one that is read as approving it.
pub proof fn phases_are_in_line(
    p: Phase,
    next: Option<Phase>,
    command: Option<&'static str>,
    d: Directive,
    approves: Option<Phase>,
    spelt: &'static str,
)
    requires
        call_ensures(Phase::next, (p,), next),
        call_ensures(Phase::approval_command, (p,), command),
        call_ensures(Directive::approves, (d,), approves),
        call_ensures(Directive::command, (d,), spelt),
    ensures
        next == (match p {
            Phase::PrePlan => Some(Phase::PrepAndPlan),
            Phase::PrepAndPlan => Some(Phase::Implement),
            Phase::Implement => Some(Phase::Review),
            Phase::Review => Some(Phase::Finished),
            Phase::Finished => None,
        }),
        next is Some ==> rank(next->0) == rank(p) + 1,
        command is Some <==> p == Phase::PrePlan || p == Phase::PrepAndPlan,
        p == Phase::PrePlan ==> command->0@ == "/approve-pre-plan"@,
        p == Phase::PrepAndPlan ==> command->0@ == "/approve-plan"@,
        spelt@ == written(d),
        approves == Some(Phase::PrePlan) <==> d == Directive::ApprovePrePlan,
        approves == Some(Phase::PrepAndPlan) <==> d == Directive::ApprovePlan,
        approves is None <==> d == Directive::ApproveImplementation || d == Directive::Proceed,
        approves == Some(p) ==> command is Some && command->0@ == spelt@,
{
}

/// A phase comes before the ones that follow it, and its name tells it apart.
pub proof fn phases_are_ordered(
    a: Phase,
    b: Phase,
    before: bool,
    after: bool,
    name: &'static str,
    other: &'static str,
)
    requires
        call_ensures(Phase::precedes, (a, b), before),
        call_ensures(Phase::precedes, (b, a), after),
        call_ensures(Phase::label, (a,), name),
        call_ensures(Phase::label, (b,), other),
    ensures
        before <==> rank(a) < rank(b),
        a != b <==> before || after,
        !(before && after),
        name@ == other@ <==> a == b,
        a == Phase::PrePlan ==> name@ == "pre-plan"@,
        a == Phase::PrepAndPlan ==> name@ == "prep-and-plan"@,
        a == Phase::Implement ==> name@ == "implement"@,
        a == Phase::Review ==> name@ == "review"@,
        a == Phase::Finished ==> name@ == "finished"@,
{
    reveal_strlit("pre-plan");
    reveal_strlit("prep-and-plan");
    reveal_strlit("implement");
    reveal_strlit("review");
    reveal_strlit("finished");
    assert("pre-plan"@.len() == 8 && "prep-and-plan"@.len() == 13);
    assert("implement"@.len() == 9 && "review"@.len() == 6 && "finished"@.len() == 8);
    assert("pre-plan"@[0] == 'p' && "finished"@[0] == 'f');
}

/// A PR has ended once it is merged, or closed without that.
pub proof fn prs_end_merged_or_closed(pr: &PullRequest, r: Option<PrOutcome>)
    requires
        call_ensures(state::pr_outcome, (pr,), r),
    ensures
        r == Some(PrOutcome::Merged) <==> pr.merged,
        r == Some(PrOutcome::Closed) <==> !pr.merged && pr.state@ == "closed"@,
        r is None <==> !pr.merged && pr.state@ != "closed"@,
{
}

/// Marking the PR ready moves an issue from implementing to review, and nothing else
/// does: a draft does not, nor a PR that has ended, nor one in another phase.
pub proof fn a_ready_pr_is_reviewed(
    before: IssueState,
    reported: AdvanceOutcome,
    pr: Option<&PullRequest>,
    after: IssueState,
    report: AdvanceOutcome,
)
    requires
        exists|g: &mut IssueState, o: &mut AdvanceOutcome| #[trigger]
            call_ensures(workflow::advance_on_pr_ready, (g, pr, o), ()) && *g == before
                && *final(g) == after && *o == reported && *final(o) == report,
    ensures
        before.phase == Phase::Implement && before.pr_outcome is None && pr is Some && !pr->0.draft
            ==> after.phase == Phase::Review && report.transitions@ == reported.transitions@.push(
            Transition { from: Phase::Implement, to: Phase::Review, trigger: Trigger::PrReady },
        ),
        before.phase != Phase::Implement || before.pr_outcome is Some || pr is None || pr->0.draft
            ==> after.phase == before.phase && report.transitions == reported.transitions,
        report.notes == reported.notes,
        report.ignored == reported.ignored,
        after.consumed_directives == before.consumed_directives,
        after.consumed_reactions == before.consumed_reactions,
{
}

/// How the issue and its PR stand is taken over from GitHub on every run; a PR that
/// ended since the last run is reported, once, and one that was reopened is open again.
pub proof fn conclusions_are_reported_once(
    before: IssueState,
    issue_is: &str,
    pr: Option<&PullRequest>,
    after: IssueState,
    r: Option<PrOutcome>,
    again: IssueState,
    r_again: Option<PrOutcome>,
)
    requires
        exists|g: &mut IssueState| #[trigger]
            call_ensures(workflow::note_conclusion, (g, issue_is, pr), r) && *g == before
                && *final(g) == after,
        exists|g: &mut IssueState| #[trigger]
            call_ensures(workflow::note_conclusion, (g, issue_is, pr), r_again) && *g == after
                && *final(g) == again,
    ensures
        after.issue_closed <==> issue_is@ != "open"@,
        pr is None ==> after.pr_outcome is None,
        pr is Some && pr->0.merged ==> after.pr_outcome == Some(PrOutcome::Merged),
        pr is Some && !pr->0.merged && pr->0.state@ == "closed"@ ==> after.pr_outcome == Some(
            PrOutcome::Closed,
        ),
        pr is Some && !pr->0.merged && pr->0.state@ != "closed"@ ==> after.pr_outcome is None,
        after.pr_outcome == before.pr_outcome ==> r is None,
        after.pr_outcome != before.pr_outcome ==> r == after.pr_outcome,
        r_again is None,
        again.pr_outcome == after.pr_outcome,
        again.issue_closed == after.issue_closed,
        after.phase == before.phase,
        after.prep == before.prep,
        after.attention == before.attention,
        after.wait == before.wait,
{
}

/// A merged PR finishes the workflow; one closed without merging keeps its phase.
pub proof fn merging_finishes(before: IssueState, after: IssueState)
    requires
        exists|g: &mut IssueState| #[trigger]
            call_ensures(workflow::finish_if_merged, (g,), ()) && *g == before && *final(g)
                == after,
    ensures
        before.pr_outcome == Some(PrOutcome::Merged) ==> after.phase == Phase::Finished,
        before.pr_outcome != Some(PrOutcome::Merged) ==> after.phase == before.phase,
        after.pr_outcome == before.pr_outcome,
        after.consumed_directives == before.consumed_directives,
        after.prep == before.prep,
{
}

/// The agent has to be in the worktree while it plans and implements on a branch of its
/// own, and at no other time.
pub proof fn work_is_done_in_the_worktree(phase: Phase, state: &IssueState, r: bool)
    requires
        call_ensures(workflow::needs_worktree_guard, (phase, state), r),
    ensures
        r ==> (phase == Phase::PrepAndPlan || phase == Phase::Implement) && state.pr_outcome is None
            && state.prep is Some && !state.prep->0.no_branch && state.prep->0.worktree_path is Some,
        state.pr_outcome is None && state.prep is Some && !state.prep->0.no_branch
            && state.prep->0.worktree_path is Some && (phase == Phase::PrepAndPlan || phase
            == Phase::Implement) ==> r,
{
}

/// The workflow is over once the issue is closed or its PR has ended.
pub proof fn workflows_end(state: &IssueState, r: bool)
    requires
        call_ensures(IssueState::is_concluded, (state,), r),
    ensures
        r <==> state.issue_closed || state.pr_outcome is Some,
{
}

} // verus!
