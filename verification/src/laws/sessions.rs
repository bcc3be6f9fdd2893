//! Sessions: how they are launched, watched over, resumed and let go.

use vstd::prelude::*;

use crate::laws::telling::lemma_fill_head;
use crate::laws::texts::lemma_within;
use crate::launch::{
    self, AlertAction, Disposition, Launch, LaunchError, Look, ModelProblem, ModelSelection,
    Outcome, Place, Plan, Reason, Refusal, ShutdownStep, Supervision,
};
use crate::notification_hook;
use crate::session_binding::{self, BoundIssue, StateFile};
use crate::state::{AlertKind, Attention, IssueState, SessionAlert};
use crate::stop_hook;
use crate::text;

verus! {

/// The line names a model: `model`, whatever the case of its letters and the white space
/// around it, before the first colon.
pub open spec fn names_model(line: Seq<char>, value: Seq<char>) -> bool {
    exists|at: int|
        #![trigger line.take(at)]
        {
            &&& 0 <= at < line.len()
            &&& line[at] == ':'
            &&& forall|j: int| 0 <= j < at ==> #[trigger] line[j] != ':'
            &&& text::lower(text::trim(line.take(at))) == "model"@
            &&& value == line.skip(at + 1)
        }
}

proof fn lemma_names_model(line: Seq<char>, value: Seq<char>)
    ensures
        names_model(line, value) <==> launch::behind_model(line) == Some(value),
{
    text::lemma_index_of_bounds(line, ':');
    let i = text::index_of(line, ':');
    if names_model(line, value) {
        let at = choose|at: int|
            #![trigger line.take(at)]
            {
                &&& 0 <= at < line.len()
                &&& line[at] == ':'
                &&& forall|j: int| 0 <= j < at ==> #[trigger] line[j] != ':'
                &&& text::lower(text::trim(line.take(at))) == "model"@
                &&& value == line.skip(at + 1)
            };
        text::lemma_index_of(line, ':', at);
    }
    if launch::behind_model(line) == Some(value) {
        assert(line.take(i) == line.take(i));
    }
}

/// The line of a body names a model, once trimmed.
pub open spec fn model_at(body: Seq<char>, i: int, value: Seq<char>) -> bool {
    0 <= i < text::lines(body).len() && names_model(text::trim(text::lines(body)[i]), value)
}

proof fn lemma_model_lines(lines: Seq<Seq<char>>)
    ensures
        ({
            let found = launch::model_lines(lines);
            &&& found.len() == 0 <==> forall|i: int|
                #![trigger lines[i]]
                0 <= i < lines.len() ==> launch::behind_model(text::trim(lines[i])) is None
            &&& found.len() == 1 ==> exists|i: int|
                #![trigger lines[i]]
                0 <= i < lines.len() && found[0] == text::trim(lines[i]) && launch::behind_model(
                    found[0],
                ) is Some && (forall|j: int|
                    0 <= j < lines.len() && j != i ==> launch::behind_model(
                        text::trim(#[trigger] lines[j]),
                    ) is None)
            &&& found.len() > 1 ==> exists|i: int, j: int|
                #![trigger lines[i], lines[j]]
                0 <= i < j < lines.len() && launch::behind_model(text::trim(lines[i])) is Some
                    && launch::behind_model(text::trim(lines[j])) is Some
        }),
    decreases lines.len(),
{
    if lines.len() > 0 {
        let init = lines.drop_last();
        lemma_model_lines(init);
        let found = launch::model_lines(lines);
        let before = launch::model_lines(init);
        let last = lines.len() - 1;
        assert(lines[last] == lines.last());
        assert forall|i: int| 0 <= i < init.len() implies init[i] == #[trigger] lines[i] by {}
        if before.len() == 0 {
            assert forall|i: int| #![trigger lines[i]] 0 <= i < init.len() implies launch::behind_model(
                text::trim(lines[i]),
            ) is None by {
                assert(init[i] == lines[i]);
            }
            if found.len() == 1 {
                assert(found[0] == text::trim(lines[last]));
            }
        } else {
            assert(!(forall|i: int|
                #![trigger init[i]]
                0 <= i < init.len() ==> launch::behind_model(text::trim(init[i])) is None));
            let k = choose|k: int|
                #![trigger init[k]]
                0 <= k < init.len() && launch::behind_model(text::trim(init[k])) is Some;
            assert(launch::behind_model(text::trim(lines[k])) is Some);
            if before.len() == 1 {
                let i = choose|i: int|
                    #![trigger init[i]]
                    0 <= i < init.len() && before[0] == text::trim(init[i])
                        && launch::behind_model(before[0]) is Some && (forall|j: int|
                        0 <= j < init.len() && j != i ==> launch::behind_model(
                            text::trim(#[trigger] init[j]),
                        ) is None);
                assert(lines[i] == init[i]);
                if found.len() == 1 {
                    assert forall|j: int| 0 <= j < lines.len() && j != i implies launch::behind_model(
                        text::trim(#[trigger] lines[j]),
                    ) is None by {
                        if j < init.len() {
                            assert(init[j] == lines[j]);
                        }
                    }
                } else {
                    assert(launch::behind_model(text::trim(lines[last])) is Some);
                }
            } else {
                let (i, j) = choose|i: int, j: int|
                    #![trigger init[i], init[j]]
                    0 <= i < j < init.len() && launch::behind_model(text::trim(init[i])) is Some
                        && launch::behind_model(text::trim(init[j])) is Some;
                assert(lines[i] == init[i] && lines[j] == init[j]);
            }
        }
    }
}

/// A line's model is what stands behind the colon.
pub proof fn model_lines_are_recognised(line: &str, r: Option<String>, value: Seq<char>)
    requires
        call_ensures(launch::strip_model_prefix, (line,), r),
    ensures
        names_model(line@, value) <==> r is Some && r->0@ == value,
{
    lemma_names_model(line@, value);
}

/// The model is the one of the only line that names one. A line without a name, and two
/// lines, are refused; without such a line the default is used.
pub proof fn one_line_names_the_model(body: &str, r: ModelSelection)
    requires
        call_ensures(launch::parse_model, (Some(body),), r),
    ensures
        r is Default <==> forall|i: int, v: Seq<char>| !#[trigger] model_at(body@, i, v),
        r matches ModelSelection::Selected(m) ==> exists|i: int, v: Seq<char>| #[trigger]
            model_at(body@, i, v) && m@ == text::trim(v) && m@.len() > 0 && (forall|
                j: int,
                w: Seq<char>,
            | #[trigger]
                model_at(body@, j, w) ==> j == i),
        r matches ModelSelection::Problem(ModelProblem::Empty) ==> exists|i: int, v: Seq<char>|
         #[trigger] model_at(body@, i, v) && text::trim(v).len() == 0 && (forall|
                j: int,
                w: Seq<char>,
            | #[trigger]
                model_at(body@, j, w) ==> j == i),
        r matches ModelSelection::Problem(ModelProblem::Multiple(_)) ==> exists|
            i: int,
            v: Seq<char>,
            j: int,
            w: Seq<char>,
        |
            #![trigger model_at(body@, i, v), model_at(body@, j, w)]
            i < j && model_at(body@, i, v) && model_at(body@, j, w),
{
    let lines = text::lines(body@);
    let found = launch::model_lines(lines);
    lemma_model_lines(lines);
    assert forall|i: int, v: Seq<char>| #[trigger] model_at(body@, i, v) implies 0 <= i
        < lines.len() && launch::behind_model(text::trim(lines[i])) == Some(v) by {
        lemma_names_model(text::trim(lines[i]), v);
    }
    if found.len() == 0 {
        assert forall|i: int, v: Seq<char>| !#[trigger] model_at(body@, i, v) by {
            if model_at(body@, i, v) {
                assert(launch::behind_model(text::trim(lines[i])) is None);
            }
        }
    } else if found.len() == 1 {
        let i = choose|i: int|
            #![trigger lines[i]]
            0 <= i < lines.len() && found[0] == text::trim(lines[i]) && launch::behind_model(
                found[0],
            ) is Some && (forall|j: int|
                0 <= j < lines.len() && j != i ==> launch::behind_model(
                    text::trim(#[trigger] lines[j]),
                ) is None);
        let v = launch::behind_model(found[0])->0;
        lemma_names_model(found[0], v);
        assert(model_at(body@, i, v));
    } else {
        let (i, j) = choose|i: int, j: int|
            #![trigger lines[i], lines[j]]
            0 <= i < j < lines.len() && launch::behind_model(text::trim(lines[i])) is Some
                && launch::behind_model(text::trim(lines[j])) is Some;
        let v = launch::behind_model(text::trim(lines[i]))->0;
        let w = launch::behind_model(text::trim(lines[j]))->0;
        lemma_names_model(text::trim(lines[i]), v);
        lemma_names_model(text::trim(lines[j]), w);
        assert(model_at(body@, i, v));
        assert(model_at(body@, j, w));
    }
}

/// An issue without a text names no model.
pub proof fn no_text_names_no_model(r: ModelSelection)
    requires
        call_ensures(launch::parse_model, (None::<&str>,), r),
    ensures
        r is Default,
{
}

/// A refused launch is the user's to mend: the turn is theirs, and they are told.
pub proof fn refusals_are_told(
    before: IssueState,
    number: u64,
    problem: &ModelProblem,
    after: IssueState,
    r: Refusal,
)
    requires
        exists|g: &mut IssueState| #[trigger]
            call_ensures(launch::refuse_to_start, (g, number, problem), r) && *g == before
                && *final(g) == after,
    ensures
        after == (IssueState { attention: Attention::WaitingOnUser, ..before }),
        text::starts_with(r.comment@, "**ghwf:**\n<hr>\n\n"@),
        text::ends_with(r.comment@, "<!-- ghwf:v1 status -->"@),
        text::starts_with(r.error@, "issue #"@),
{
    reveal_strlit("issue #");
    reveal_strlit(
        "issue #% has a `Model:` line with no value; \
     set a model or remove the line, then relaunch.",
    );
    reveal_strlit(
        "issue #% has more than one `Model:` line; \
     keep exactly one, then relaunch.",
    );
    let v = text::decimal(number as nat);
    let p = "issue #"@;
    assert(launch::EMPTY_ERROR@.take(p.len() as int) =~= p);
    assert(launch::MULTIPLE_ERROR@.take(p.len() as int) =~= p);
    lemma_fill_head(launch::EMPTY_ERROR@, p, v);
    lemma_fill_head(launch::MULTIPLE_ERROR@, p, v);
    let a = crate::render::STATUS_HEADER@;
    let body = text::trim(launch::REFUSAL@ + launch::problem_detail(*problem));
    let d = crate::render::STATUS_MARKER@;
    assert(r.comment@ == a + body + "\n\n"@ + d);
    lemma_within(a + body + "\n\n"@, d, Seq::empty());
    lemma_within(Seq::empty(), a, body + "\n\n"@ + d);
    assert(a + (body + "\n\n"@ + d) =~= a + body + "\n\n"@ + d);
}

/// Where a session is launched: in the recorded worktree, which must be there; here, where
/// the work has no branch; else in a worktree that is still to be made. What was decided
/// for the issue before goes over the flag.
pub proof fn sessions_start_where_the_work_is(
    before: IssueState,
    number: u64,
    no_branch: bool,
    body: Option<Option<&str>>,
    on_disk: bool,
    after: IssueState,
    r: Result<Plan, LaunchError>,
)
    requires
        exists|g: &mut IssueState| #[trigger]
            call_ensures(launch::prepare, (g, number, no_branch, body, on_disk), r) && *g == before
                && *final(g) == after,
    ensures
        r matches Ok(plan) ==> {
            let alone = if before.prep is Some {
                before.prep->0.no_branch
            } else {
                no_branch
            };
            &&& plan.place is Here <==> alone
            &&& plan.place matches Place::Worktree(path) ==> on_disk && before.prep is Some
                && before.prep->0.worktree_path == Some(path)
            &&& plan.place is New ==> before.prep is None || before.prep->0.worktree_path is None
            &&& plan.flag_ignored <==> no_branch && !alone
            &&& body is None ==> plan.model is None
        },
        r matches Err(LaunchError::WorktreeGone(_)) ==> !on_disk && before.prep is Some
            && before.prep->0.worktree_path is Some && !before.prep->0.no_branch,
        r matches Err(LaunchError::Model(_)) ==> body is Some,
        before.prep is Some && !before.prep->0.no_branch && before.prep->0.worktree_path is Some
            && !on_disk ==> r is Err,
        before.prep is Some || r is Err ==> after == before,
        before.prep is None && r is Ok && !no_branch ==> after == before,
        before.prep is None && r is Ok && no_branch ==> after.prep is Some
            && after.prep->0.no_branch && after.prep->0.branch is None
            && after.prep->0.worktree_path is None && after == (IssueState {
            prep: after.prep,
            ..before
        }),
{
}

/// The model a session is launched with is the one that its issue names.
pub proof fn sessions_use_the_named_model(
    before: IssueState,
    number: u64,
    no_branch: bool,
    body: Option<&str>,
    on_disk: bool,
    after: IssueState,
    r: Result<Plan, LaunchError>,
    named: ModelSelection,
)
    requires
        exists|g: &mut IssueState| #[trigger]
            call_ensures(launch::prepare, (g, number, no_branch, Some(body), on_disk), r) && *g
                == before && *final(g) == after,
        call_ensures(launch::parse_model, (body,), named),
    ensures
        r is Ok && named is Default ==> r->Ok_0.model is None,
        r is Ok && named is Selected ==> r->Ok_0.model is Some && r->Ok_0.model->0@
            == named->Selected_0@,
        named is Problem ==> r is Err && r->Err_0 is Model,
{
    if named is Problem && r is Err && r->Err_0 is WorktreeGone {
        let s = choose|s: ModelSelection| #[trigger] launch::selects(body, s) && s !is Problem;
        assert(launch::selects(body, s));
    }
}

/// A session's transcript lies below the agent's projects, in a directory named after the
/// session's own, letters and digits kept and everything else a dash.
pub proof fn transcripts_are_named_after_the_directory(
    path: &str,
    munged: String,
    i: int,
    agent_dir: &str,
    session: &str,
    r: String,
)
    requires
        call_ensures(launch::munge, (path,), munged),
        call_ensures(launch::transcript_path, (agent_dir, path, session), r),
    ensures
        munged@.len() == path@.len(),
        0 <= i < path@.len() ==> {
            let c = path@[i];
            let kept = ('a' <= c && c <= 'z') || ('A' <= c && c <= 'Z') || ('0' <= c && c <= '9');
            &&& kept ==> munged@[i] == c
            &&& !kept ==> munged@[i] == '-'
        },
        r@ == text::below(
            text::below(text::below(agent_dir@, "projects"@), munged@),
            session@ + ".jsonl"@,
        ),
{
}

/// A session is resumed where one is recorded and its transcript is there.
pub proof fn recorded_sessions_are_resumed(
    state: &IssueState,
    there: bool,
    recorded: Option<String>,
    r: Option<String>,
)
    requires
        call_ensures(launch::worktree_session, (state,), recorded),
        call_ensures(launch::resumable_session, (state, there), r),
    ensures
        recorded is Some <==> state.prep is Some && state.prep->0.worktree_session_id is Some,
        recorded is Some ==> recorded == state.prep->0.worktree_session_id,
        there ==> r == recorded,
        !there ==> r is None,
{
}

/// What the agent is started with: the session to resume, the permission mode and the
/// model, each with its flag and only where there is one, and the command to work on.
pub proof fn sessions_are_started_to_work(
    resume: Option<&str>,
    mode: Option<&str>,
    model: Option<&str>,
    r: Vec<String>,
    note: String,
)
    requires
        call_ensures(launch::claude_args, (resume, mode, model), r),
        call_ensures(launch::mode_note, (mode,), note),
    ensures
        r@.len() > 0 && r@[r@.len() - 1]@ == "/work-on"@,
        resume is Some ==> r@.len() >= 3 && r@[0]@ == "--resume"@ && r@[1]@ == resume->0@,
        mode is Some ==> exists|i: int|
            #![trigger r@[i]]
            0 <= i < r@.len() - 2 && r@[i]@ == "--permission-mode"@ && r@[i + 1]@ == mode->0@,
        model is Some ==> r@.len() >= 3 && r@[r@.len() - 3]@ == "--model"@ && r@[r@.len() - 2]@
            == model->0@,
        r@.len() == 1 + (if resume is Some {
            2int
        } else {
            0
        }) + (if mode is Some {
            2int
        } else {
            0
        }) + (if model is Some {
            2int
        } else {
            0
        }),
        mode is Some ==> note@ == " with `--permission-mode "@ + mode->0@ + "`"@,
        mode is None ==> note@ == ""@,
{
    let a = launch::flag("--resume"@, resume);
    let b = launch::flag("--permission-mode"@, mode);
    let c = launch::flag("--model"@, model);
    let v = text::views(r@);
    assert(v == a + b + c + seq!["/work-on"@]);
    assert(v.len() == r@.len());
    assert(v[v.len() - 1] == "/work-on"@);
    assert(r@[r@.len() - 1]@ == v[v.len() - 1]);
    if resume is Some {
        assert(v[0] == a[0] && v[1] == a[1]);
        assert(r@[0]@ == v[0] && r@[1]@ == v[1]);
    }
    if mode is Some {
        let i = a.len() as int;
        assert(v[i] == b[0] && v[i + 1] == b[1]);
        assert(r@[i]@ == v[i] && r@[i + 1]@ == v[i + 1]);
    }
    if model is Some {
        let i = (a + b).len() as int;
        assert(v[i] == c[0] && v[i + 1] == c[1]);
        assert(r@[i]@ == v[i] && r@[i + 1]@ == v[i + 1]);
    }
}

/// What is said at the start.
pub proof fn starts_are_announced(
    agent: &str,
    resume: Option<&str>,
    dir: &str,
    mode: Option<&str>,
    note: String,
    r: String,
)
    requires
        call_ensures(launch::mode_note, (mode,), note),
        call_ensures(launch::starting_line, (agent, resume, dir, mode), r),
    ensures
        resume is Some ==> r@ == ("Resuming this worktree's previous "@ + agent@
            + " session: launching `"@ + text::lower(agent@) + " --resume "@ + resume->0@
            + "` in `"@) + dir@ + "`"@ + note@ + "."@,
        resume is None ==> r@ == ("Starting a fresh "@ + agent@ + " session in `"@) + dir@ + "`"@
            + note@ + "."@,
{
}

/// A stuck session is recovered once it was idle for ten minutes, or at once where it
/// went idle after three nudges; until then it is waited for.
pub proof fn stuck_sessions_are_recovered_in_time(
    kind: AlertKind,
    nudges: u32,
    idle: u64,
    r: AlertAction,
)
    requires
        call_ensures(launch::classify_alert, (kind, nudges, idle), r),
    ensures
        r == AlertAction::Recover <==> idle >= 600 || (kind == AlertKind::Idle && nudges >= 3),
{
}

/// The alert of a workflow: the one its own session raised.
pub open spec fn alerted(s: IssueState) -> bool {
    s.session_alert is Some && s.prep is Some && s.prep->0.worktree_session_id is Some
        && s.session_alert->0.session_id@ == s.prep->0.worktree_session_id->0@
}

/// An alert counts only where the workflow's own session raised it.
pub proof fn other_sessions_alerts_do_not_count(state: &IssueState, r: Option<&SessionAlert>)
    requires
        call_ensures(launch::current_alert, (state,), r),
    ensures
        r is Some <==> alerted(*state),
        r is Some ==> state.session_alert == Some(*r->0),
{
}

/// Looking after a session: one that ended is left or recovered by how it ended; one whose
/// workflow is over is brought down; a stuck one is announced once, and recovered in time;
/// any other is left alone.
pub proof fn sessions_are_looked_after(
    exited: Option<bool>,
    state: Option<&IssueState>,
    before: bool,
    now: u64,
    after: bool,
    r: Look,
)
    requires
        exists|g: &mut bool| #[trigger]
            call_ensures(launch::monitor_child, (exited, state, g, now), r) && *g == before
                && *final(g) == after,
    ensures
        exited == Some(true) ==> r.disposition == Some(Disposition::UserQuit) && r.announce is None,
        exited == Some(false) ==> r.disposition == Some(Disposition::Recover(Reason::Crashed))
            && r.announce is None,
        exited is None && state is None ==> r.disposition is None && r.announce is None,
        exited is Some || state is None ==> after == before,
        exited is None && state is Some && (state->0.issue_closed || state->0.pr_outcome is Some)
            ==> r.disposition == Some(Disposition::Concluded) && r.announce is None && after
            == before,
        exited is None && state is Some && !state->0.issue_closed && state->0.pr_outcome is None
            ==> {
            let s = *state->0;
            &&& after <==> alerted(s)
            &&& !alerted(s) ==> r.disposition is None && r.announce is None
            &&& alerted(s) && before ==> r.announce is None
            &&& alerted(s) && !before ==> r.announce == Some(s.session_alert->0.kind)
            &&& alerted(s) ==> (r.disposition == Some(Disposition::Recover(Reason::Stuck))
                <==> now >= s.session_alert->0.at + 600 || (s.session_alert->0.kind
                == AlertKind::Idle && s.stop_nudges >= 3))
            &&& r.disposition is None || r.disposition == Some(Disposition::Recover(Reason::Stuck))
        },
{
}

/// A session is recovered twice at most; then it is left to the user.
pub proof fn sessions_are_recovered_twice(
    before: u32,
    disposition: Disposition,
    after: u32,
    r: Supervision,
    outcome: Option<Outcome>,
)
    requires
        exists|g: &mut u32| #[trigger]
            call_ensures(launch::supervise_once, (g, disposition), r) && *g == before && *final(g)
                == after,
        call_ensures(Supervision::outcome, (r,), outcome),
    ensures
        disposition is Concluded ==> r == Supervision::BringDown && outcome == Some(
            Outcome::Completed,
        ) && after == before,
        disposition is UserQuit ==> r == Supervision::Leave && outcome == Some(Outcome::UserQuit)
            && after == before,
        disposition is Recover ==> after == before + 1,
        disposition is Recover && before < 2 ==> r == Supervision::Resume && outcome is None,
        disposition is Recover && before >= 2 ==> r == Supervision::Park && outcome == Some(
            Outcome::UserQuit,
        ),
{
}

/// What is said of it.
pub proof fn supervision_is_told(
    number: u64,
    supervision: Supervision,
    disposition: Disposition,
    restarts: u32,
    r: String,
)
    requires
        call_ensures(
            launch::supervision_line,
            (number, supervision, disposition, restarts),
            r,
        ),
    ensures
        supervision == Supervision::BringDown ==> r@ == "Issue #"@ + text::decimal(number as nat)
            + "'s workflow has concluded; bringing the session down."@,
        supervision == Supervision::Leave ==> r@ == ""@,
        supervision == Supervision::Park ==> r@ == "Issue #"@ + text::decimal(number as nat)
            + ": auto-recovery exhausted after "@ + text::decimal(2)
            + " attempt(s); leaving the session with the user."@,
        supervision == Supervision::Resume && disposition == Disposition::Recover(Reason::Stuck)
            ==> r@ == "Issue #"@ + text::decimal(number as nat) + ": the session is stuck"@
            + "; resuming (attempt "@ + text::decimal(restarts as nat) + "/"@ + text::decimal(2)
            + ")."@,
        supervision == Supervision::Resume && disposition == Disposition::Recover(Reason::Crashed)
            ==> r@ == "Issue #"@ + text::decimal(number as nat) + ": the session crashed"@
            + "; resuming (attempt "@ + text::decimal(restarts as nat) + "/"@ + text::decimal(2)
            + ")."@,
{
}

/// An alert that is over is taken off; a workflow that is left is the user's turn.
pub proof fn alerts_are_taken_off(
    before: IssueState,
    cleared: IssueState,
    r: bool,
    left: IssueState,
)
    requires
        exists|g: &mut IssueState| #[trigger]
            call_ensures(launch::clear_alert, (g,), r) && *g == before && *final(g) == cleared,
        exists|g: &mut IssueState| #[trigger]
            call_ensures(launch::leave_with_user, (g,), ()) && *g == before && *final(g) == left,
    ensures
        r <==> before.session_alert is Some,
        cleared == (IssueState { session_alert: None, ..before }),
        left == (IssueState { attention: Attention::WaitingOnUser, ..before }),
{
}

/// A session that is launched again resumes what is recorded now, in its worktree alone.
pub proof fn relaunches_resume_what_is_recorded(
    before: Launch,
    state: Option<&IssueState>,
    there: bool,
    after: Launch,
)
    requires
        exists|g: &mut Launch| #[trigger]
            call_ensures(launch::recompute_resume, (g, state, there), ()) && *g == before
                && *final(g) == after,
    ensures
        after == (Launch { resume: after.resume, ..before }),
        before.dir is None ==> after.resume is None,
        before.dir is Some && state is None ==> after.resume == before.resume,
        before.dir is Some && state is Some && !there ==> after.resume is None,
        before.dir is Some && state is Some && there && state->0.prep is Some ==> after.resume
            == state->0.prep->0.worktree_session_id,
        before.dir is Some && state is Some && state->0.prep is None ==> after.resume is None,
{
}

/// Bringing a session down goes on to the next harder step while it does not end.
pub proof fn shutdowns_get_harder(last: Option<ShutdownStep>, exited: bool, r: ShutdownStep)
    requires
        call_ensures(launch::shutdown, (last, exited), r),
    ensures
        last is None ==> r == ShutdownStep::DoubleInterrupt,
        last is Some && exited ==> r == ShutdownStep::Reap,
        last == Some(ShutdownStep::DoubleInterrupt) && !exited ==> r == ShutdownStep::Terminate,
        last == Some(ShutdownStep::Terminate) && !exited ==> r == ShutdownStep::Kill,
        last == Some(ShutdownStep::Kill) || last == Some(ShutdownStep::Reap) ==> r
            == ShutdownStep::Reap,
{
}

/// The user is told which way a session is stuck, and when it was given up.
pub proof fn stuck_sessions_are_told(
    agent: &str,
    kind: AlertKind,
    stuck: String,
    attempts: u32,
    parked: String,
)
    requires
        call_ensures(launch::stuck_notice, (agent, kind), stuck),
        call_ensures(launch::parked_notice, (agent, attempts), parked),
    ensures
        kind == AlertKind::Idle ==> stuck@ == "**ghwf:**\n<hr>\n\n"@ + text::trim(
            "Heads up: the "@ + agent@ + " session for this issue "@
                + "appears to have gone idle — it dropped out of the wait/work-on loop"@
                + ". ghwf will try to recover it \
     automatically; if it can't, it'll leave the session with you."@,
        ) + "\n\n"@ + "<!-- ghwf:v1 status -->"@,
        kind == AlertKind::Permission ==> stuck@ == "**ghwf:**\n<hr>\n\n"@ + text::trim(
            "Heads up: the "@ + agent@ + " session for this issue "@
                + "is parked on a permission prompt"@ + ". ghwf will try to recover it \
     automatically; if it can't, it'll leave the session with you."@,
        ) + "\n\n"@ + "<!-- ghwf:v1 status -->"@,
        parked@ == "**ghwf:**\n<hr>\n\n"@ + text::trim(
            "ghwf tried to recover this issue's "@ + agent@ + text::fill(
                " session % time(s) but it kept \
     getting stuck, so it's leaving the session with you. Resume it on the machine \
     running ghwf, or re-launch with `ghwf work-on`."@,
                text::decimal(attempts as nat),
            ),
        ) + "\n\n"@ + "<!-- ghwf:v1 status -->"@,
{
}

/// A session that stops while its workflow goes on is nudged, three times at most, and
/// each nudge is counted.
pub proof fn stopping_sessions_are_nudged(
    before: IssueState,
    number: u64,
    after: IssueState,
    r: Option<String>,
)
    requires
        exists|g: &mut IssueState| #[trigger]
            call_ensures(stop_hook::nudge, (g, number), r) && *g == before && *final(g) == after,
    ensures
        r is None <==> before.issue_closed || before.pr_outcome is Some || before.stop_nudges >= 3,
        r is None ==> after == before,
        r is Some ==> after.stop_nudges == before.stop_nudges + 1 && after == (IssueState {
            stop_nudges: after.stop_nudges,
            ..before
        }),
        r is Some ==> text::starts_with(r->0@, "The workflow for issue #"@),
{
    reveal_strlit("The workflow for issue #");
    reveal_strlit(
        "The workflow for issue #% is still active. Run `ghwf wait`; when it reports new activity, \
     run `ghwf work-on` and follow its instructions. Keep the loop going until the workflow \
     completes.",
    );
    let p = "The workflow for issue #"@;
    assert(stop_hook::RESUME@.take(p.len() as int) =~= p);
    lemma_fill_head(stop_hook::RESUME@, p, text::decimal(number as nat));
}

/// An alert of the same kind from the same session goes on from when it began; any other
/// begins now. A workflow that is over raises none.
pub proof fn alerts_begin_when_they_change(
    before: IssueState,
    kind: AlertKind,
    session: &str,
    now: u64,
    after: IssueState,
    r: bool,
    prev: Option<&SessionAlert>,
    at: u64,
)
    requires
        exists|g: &mut IssueState| #[trigger]
            call_ensures(notification_hook::note_alert, (g, kind, session, now), r) && *g == before
                && *final(g) == after,
        call_ensures(notification_hook::episode_start, (prev, kind, session, now), at),
    ensures
        r <==> !before.issue_closed && before.pr_outcome is None,
        !r ==> after == before,
        r ==> after == (IssueState { session_alert: after.session_alert, ..before }),
        r ==> after.session_alert is Some && after.session_alert->0.kind == kind
            && after.session_alert->0.session_id@ == session@,
        r && before.session_alert is Some && before.session_alert->0.kind == kind
            && before.session_alert->0.session_id@ == session@ ==> after.session_alert->0.at
            == before.session_alert->0.at,
        r && !(before.session_alert is Some && before.session_alert->0.kind == kind
            && before.session_alert->0.session_id@ == session@) ==> after.session_alert->0.at
            == now,
        prev is Some && prev->0.kind == kind && prev->0.session_id@ == session@ ==> at
            == prev->0.at,
        !(prev is Some && prev->0.kind == kind && prev->0.session_id@ == session@) ==> at == now,
{
}

/// A workflow is a session's where its worktree's session is that one.
pub proof fn sessions_own_their_worktrees_workflow(state: &IssueState, session: &str, r: bool)
    requires
        call_ensures(session_binding::is_bound, (state, session), r),
    ensures
        r <==> state.prep is Some && state.prep->0.worktree_session_id is Some
            && state.prep->0.worktree_session_id->0@ == session@,
{
}

proof fn lemma_latest(files: Seq<StateFile>, root: Seq<char>, session: Seq<char>)
    ensures
        ({
            let at = session_binding::latest(files, root, session);
            &&& -1 <= at < files.len()
            &&& at >= 0 ==> session_binding::counts(files[at], root, session)
        }),
    decreases files.len(),
{
    if files.len() > 0 {
        let init = files.drop_last();
        lemma_latest(init, root, session);
        let before = session_binding::latest(init, root, session);
        if before >= 0 {
            assert(init[before] == files[before]);
        }
    }
}

/// A session's issue is the one of the state that was written last, of those that are its.
pub proof fn the_latest_state_binds(
    files: Vec<StateFile>,
    root: &str,
    session: &str,
    r: Option<BoundIssue>,
    k: int,
    path: &str,
    named: Option<(String, String, u64)>,
)
    requires
        call_ensures(session_binding::find_bound_issue, (files, root, session), r),
        0 <= k < files@.len(),
        path@ == files@[k].path@,
        call_ensures(session_binding::bound_from_path, (root, path), named),
    ensures
        files@[k].state.prep is Some && files@[k].state.prep->0.worktree_session_id is Some
            && files@[k].state.prep->0.worktree_session_id->0@ == session@ && named is Some
            ==> r is Some,
        r is Some ==> exists|at: int|
            #![trigger files@[at]]
            {
                &&& 0 <= at < files@.len()
                &&& r->0.state == files@[at].state
                &&& files@[at].state.prep is Some
                &&& files@[at].state.prep->0.worktree_session_id is Some
                &&& files@[at].state.prep->0.worktree_session_id->0@ == session@
                &&& at == k ==> named is Some && r->0.owner@ == (named->0).0@ && r->0.repo@
                    == (named->0).1@ && r->0.number == (named->0).2
                &&& files@[k].state.prep is Some
                    && files@[k].state.prep->0.worktree_session_id is Some
                    && files@[k].state.prep->0.worktree_session_id->0@ == session@ && named is Some
                    ==> files@[k].modified <= files@[at].modified
            },
{
    lemma_latest(files@, root@, session@);
    if session_binding::counts(files@[k], root@, session@) {
        session_binding::the_bound_issue_is_the_latest(files@, root@, session@, k);
    }
    if r is Some {
        let at = session_binding::latest(files@, root@, session@);
        assert(files@[at].state == r->0.state);
    }
}

/// The path of a state is the owner, the repository and the number below the root.
pub proof fn state_paths_name_their_issue(
    root: &str,
    path: &str,
    r: Option<(String, String, u64)>,
)
    requires
        call_ensures(session_binding::bound_from_path, (root, path), r),
    ensures
        r is Some ==> text::starts_with(path@, root@ + "/"@ + (r->0).0@ + "/"@ + (r->0).1@ + "/"@),
{
    if r is Some {
        let head = root@ + "/"@;
        let rest = path@.skip(head.len() as int);
        assert(path@.subrange(0, head.len() as int) == head);
        assert(path@ =~= head + rest);
        let parts = text::split(rest, '/');
        text::lemma_split_step(rest, '/');
        let i = text::index_of(rest, '/');
        text::lemma_index_of_bounds(rest, '/');
        let owner = parts[0];
        let later = rest.skip(i + 1);
        assert(i < rest.len());
        assert(owner == rest.take(i));
        assert(parts[1] == text::split(later, '/')[0]);
        text::lemma_split_step(later, '/');
        let j = text::index_of(later, '/');
        text::lemma_index_of_bounds(later, '/');
        assert(j < later.len()) by {
            if j >= later.len() {
                assert(text::split(later, '/').len() == 1);
                assert(parts.len() == 2);
            }
        }
        let repo = parts[1];
        assert(repo == later.take(j));
        reveal_strlit("/");
        let p = root@ + "/"@ + owner + "/"@ + repo + "/"@;
        assert(rest =~= rest.take(i) + "/"@ + later);
        assert(later =~= later.take(j) + "/"@ + later.skip(j + 1));
        assert(path@ =~= p + later.skip(j + 1));
        lemma_within(Seq::empty(), p, later.skip(j + 1));
    }
}

} // verus!
