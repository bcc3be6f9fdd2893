//! Launching agent sessions and watching over them.

use vstd::prelude::*;

use crate::render;
use crate::state::{AlertKind, Attention, IssueState, PrepState, SessionAlert};
use crate::text;

verus! {

/// How many times in a row the Stop hook nudges a session before it gives up.
pub const NUDGE_CAP: u32 = 3;

/// How many seconds an ambiguous stuck state (a plain idle, or a permission
/// prompt a human might be about to clear) must persist before the supervisor
/// recovers it automatically, leaving a generous window for the user, who's
/// already been notified, to step in first. Unambiguous lockups don't wait.
pub const RECOVERY_GRACE: u64 = 600;

/// How many times the supervisor auto-resumes a session before giving up and
/// parking the issue on the user.
pub const MAX_AUTO_RESTARTS: u32 = 2;

/// The note appended to launch messages when a permission mode is configured.
pub open spec fn note_of(permission_mode: Option<&str>) -> Seq<char> {
    match permission_mode {
        Some(mode) => " with `--permission-mode "@ + mode@ + "`"@,
        None => ""@,
    }
}

/// Note appended to launch messages when a permission mode is configured, so the
/// user can see why the agent came up in that mode. Empty when none is.
pub fn mode_note(permission_mode: Option<&str>) -> (r: String)
    ensures
        r@ == note_of(permission_mode),
{
    match permission_mode {
        Some(mode) => {
            let mut s = text::copy(" with `--permission-mode ");
            s.append(mode);
            s.append("`");
            s
        },
        None => text::copy(""),
    }
}

/// What a `Model:` line in an issue body selects.
#[derive(Debug)]
pub enum ModelSelection {
    /// No `Model:` line: launch with the agent's default model.
    Default,
    /// Exactly one `Model:` line with a value, passed to `--model` verbatim.
    Selected(String),
    /// A `Model:` line problem the launcher refuses to start on.
    Problem(ModelProblem),
}

/// A `Model:` line problem that makes the launcher refuse to start.
#[derive(Debug)]
pub enum ModelProblem {
    /// A single `Model:` line with no value after the colon.
    Empty,
    /// More than one `Model:` line; carries them verbatim for the message.
    Multiple(Vec<String>),
}

/// What stands behind the key on a line that is `model:`-prefixed.
pub open spec fn behind_model(line: Seq<char>) -> Option<Seq<char>> {
    let at = text::index_of(line, ':');
    if at < line.len() && text::lower(text::trim(line.take(at))) == "model"@ {
        Some(line.skip(at + 1))
    } else {
        None
    }
}

/// The text after the key when `line` is `model:`-prefixed (case-insensitive on
/// the key, surrounding whitespace tolerated), else `None`. The whole
/// already-trimmed line must be the key, so prose and markdown-decorated lines
/// like `- Model: x` don't qualify.
pub fn strip_model_prefix(line: &str) -> (r: Option<String>)
    ensures
        match r {
            Some(rest) => behind_model(line@) == Some(rest@),
            None => behind_model(line@) is None,
        },
{
    let v = text::chars(line);
    assert(v@.skip(0) =~= v@);
    let at: usize = text::next_index(&v, ':', 0);
    if at == v.len() {
        return None;
    }
    let key = text::slice(&v, 0, at);
    assert(key@ =~= line@.take(at as int));
    let lowered = text::lowered(text::trimmed(key.as_str()).as_str());
    if !text::same(lowered.as_str(), "model") {
        return None;
    }
    let rest = text::slice(&v, at + 1, v.len());
    assert(rest@ =~= line@.skip(at + 1));
    Some(rest)
}

/// The `Model:` lines, trimmed.
pub open spec fn model_lines(lines: Seq<Seq<char>>) -> Seq<Seq<char>>
    decreases lines.len(),
{
    if lines.len() == 0 {
        seq![]
    } else {
        let before = model_lines(lines.drop_last());
        let line = text::trim(lines.last());
        if behind_model(line) is Some {
            before.push(line)
        } else {
            before
        }
    }
}

/// The value of a `Model:` line.
pub open spec fn model_value(line: Seq<char>) -> Seq<char> {
    text::trim(behind_model(line)->0)
}

/// What the `Model:` lines of a body select.
pub open spec fn selects(body: Option<&str>, r: ModelSelection) -> bool {
    let found = match body {
        Some(body) => model_lines(text::lines(body@)),
        None => seq![],
    };
    match r {
        ModelSelection::Default => found.len() == 0,
        ModelSelection::Selected(value) => found.len() == 1 && value@ == model_value(found[0])
            && value@.len() > 0,
        ModelSelection::Problem(ModelProblem::Empty) => found.len() == 1 && model_value(
            found[0],
        ).len() == 0,
        ModelSelection::Problem(ModelProblem::Multiple(lines)) => found.len() > 1 && text::views(
            lines@,
        ) == found,
    }
}

/// Resolve the model from an issue body: a standalone line whose trimmed text is
/// `model:` (case-insensitive key) followed by a value, taken verbatim so both
/// aliases and full names work. Zero such lines selects the default; an empty
/// value or more than one line is a problem.
pub fn parse_model(body: Option<&str>) -> (r: ModelSelection)
    ensures
        selects(body, r),
{
    let body = match body {
        Some(body) => body,
        None => {
            return ModelSelection::Default;
        },
    };
    // Every matching line (verbatim, trimmed) and the last value seen; the count
    // decides between a clean selection and an ambiguity.
    let mut matched: Vec<String> = Vec::new();
    let mut value = String::new();
    let lines = text::lines_of(body);
    let ghost all = text::lines(body@);
    let mut i: usize = 0;
    assert(all.take(0) =~= seq![]);
    assert(text::views(matched@) =~= seq![]);
    while i < lines.len()
        invariant
            i <= lines.len(),
            all == text::views(lines@),
            text::views(matched@) == model_lines(all.take(i as int)),
            matched@.len() > 0 ==> value@ == model_value(matched@.last()@),
        decreases lines.len() - i,
    {
        assert(all.take(i + 1).drop_last() =~= all.take(i as int));
        assert(all.take(i + 1).last() == lines@[i as int]@);
        let line = text::trimmed(lines[i].as_str());
        match strip_model_prefix(line.as_str()) {
            Some(rest) => {
                value = text::trimmed(rest.as_str());
                proof {
                    text::lemma_views_push(matched@, line);
                }
                matched.push(line);
            },
            None => {},
        }
        i = i + 1;
    }
    assert(all.take(all.len() as int) =~= all);
    let ghost found = model_lines(all);
    assert(matched@.len() == found.len());
    if matched.len() == 0 {
        ModelSelection::Default
    } else if matched.len() == 1 {
        assert(found[0] == matched@.last()@);
        if value.as_str().is_empty() {
            ModelSelection::Problem(ModelProblem::Empty)
        } else {
            ModelSelection::Selected(value)
        }
    } else {
        ModelSelection::Problem(ModelProblem::Multiple(matched))
    }
}

pub const REFUSAL: &'static str =
    "ghwf couldn't start a session for this issue because of its `Model:` line.\n\n";

pub const EMPTY_DETAIL: &'static str =
    "Its `Model:` line has no value. Set it to a model name \
     (e.g. `Model: opus`) or remove the line, then relaunch.";

pub const MULTIPLE_DETAIL: &'static str =
    "It has more than one `Model:` line; keep exactly one, then relaunch:\n\n";

pub const EMPTY_ERROR: &'static str =
    "issue #% has a `Model:` line with no value; \
     set a model or remove the line, then relaunch.";

pub const MULTIPLE_ERROR: &'static str =
    "issue #% has more than one `Model:` line; \
     keep exactly one, then relaunch.";

/// The lines, each quoted.
pub open spec fn quoted_lines(lines: Seq<Seq<char>>) -> Seq<Seq<char>> {
    Seq::new(lines.len(), |i: int| "> "@ + lines[i])
}

/// What is wrong with a `Model:` line, in words.
pub open spec fn problem_detail(problem: ModelProblem) -> Seq<char> {
    match problem {
        ModelProblem::Empty => EMPTY_DETAIL@,
        ModelProblem::Multiple(lines) => MULTIPLE_DETAIL@ + text::join(
            quoted_lines(text::views(lines@)),
            "\n"@,
        ),
    }
}

/// A launch that is refused: what is posted on the issue, and the error.
pub struct Refusal {
    pub comment: String,
    pub error: String,
}

/// Refuse to launch over an unusable `Model:` selection: the problem is posted to
/// the issue thread, and the issue is flipped to "needs you" so a phone-driven
/// user sees it. The claim and worktree stay put, so fixing the body and
/// relaunching retries cleanly.
pub fn refuse_to_start(state: &mut IssueState, number: u64, problem: &ModelProblem) -> (r: Refusal)
    ensures
        *final(state) == (IssueState { attention: Attention::WaitingOnUser, ..*old(state) }),
        r.comment@ == render::status_body(REFUSAL@ + problem_detail(*problem)),
        r.error@ == text::fill(
            match problem {
                ModelProblem::Empty => EMPTY_ERROR@,
                ModelProblem::Multiple(_) => MULTIPLE_ERROR@,
            },
            text::decimal(number as nat),
        ),
{
    let mut prose = text::copy(REFUSAL);
    match problem {
        ModelProblem::Empty => {
            prose.append(EMPTY_DETAIL);
        },
        ModelProblem::Multiple(lines) => {
            let mut quoted: Vec<String> = Vec::new();
            let mut i: usize = 0;
            while i < lines.len()
                invariant
                    i <= lines.len(),
                    quoted@.len() == i,
                    forall|k: int| 0 <= k < i ==> (#[trigger] quoted@[k])@ == "> "@ + lines@[k]@,
                decreases lines.len() - i,
            {
                let mut q = text::copy("> ");
                q.append(lines[i].as_str());
                quoted.push(q);
                i = i + 1;
            }
            assert(text::views(quoted@) =~= quoted_lines(text::views(lines@)));
            let mut detail = text::copy(MULTIPLE_DETAIL);
            detail.append(text::joined(&quoted, "\n").as_str());
            prose.append(detail.as_str());
        },
    }
    // The ball is with the user now.
    state.attention = Attention::WaitingOnUser;
    let error = match problem {
        ModelProblem::Empty => text::filled_number(EMPTY_ERROR, number),
        ModelProblem::Multiple(_) => text::filled_number(MULTIPLE_ERROR, number),
    };
    Refusal { comment: render::build_status_comment_body(prose.as_str()), error }
}

/// Where a session is launched.
pub enum Place {
    /// In the current directory: the work has no worktree.
    Here,
    /// In the issue's worktree.
    Worktree(String),
    /// In a worktree that is still to be created.
    New,
}

/// How a session is to be launched.
pub struct Plan {
    pub place: Place,
    /// Passed through verbatim as `--model` when set.
    pub model: Option<String>,
    /// Whether a `--no-branch` flag is ignored: the issue is already being worked
    /// in branch mode.
    pub flag_ignored: bool,
}

/// Why a session cannot be launched.
pub enum LaunchError {
    /// The issue's `Model:` line is unusable.
    Model(ModelProblem),
    /// The worktree recorded for the issue no longer exists.
    WorktreeGone(String),
}

pub const GONE: &'static str =
    "`, no longer exists on disk; \
     restore it (or clear the issue's ghwf state) and retry.";

/// The issue is worked without a branch: the recorded mode wins over the flag.
pub open spec fn without_branch(state: IssueState, no_branch: bool) -> bool {
    match state.prep {
        Some(prep) => prep.no_branch,
        None => no_branch,
    }
}

/// The worktree recorded for an issue.
pub open spec fn recorded_worktree(state: IssueState) -> Option<String> {
    match state.prep {
        Some(prep) => prep.worktree_path,
        None => None,
    }
}

/// Decide how to launch a session for an issue. `body` is the issue's body, where
/// the issue could be fetched (else the session starts with the agent's default
/// model), and `on_disk` says whether the worktree recorded for it exists.
///
/// The recorded mode wins over the flag; work without a branch records its mode,
/// so the in-session run honours it. A worktree is created immediately, even
/// before planning, so that the session is anchored there and stays resumable
/// across every phase.
pub fn prepare(
    state: &mut IssueState,
    number: u64,
    no_branch: bool,
    body: Option<Option<&str>>,
    on_disk: bool,
) -> (r: Result<Plan, LaunchError>)
    ensures
        match r {
            Ok(plan) => {
                &&& match plan.model {
                    Some(model) => body is Some && selects(body->0, ModelSelection::Selected(model)),
                    None => body is None || selects(body->0, ModelSelection::Default),
                }
                &&& plan.flag_ignored == (no_branch && !without_branch(*old(state), no_branch))
                &&& match plan.place {
                    Place::Here => without_branch(*old(state), no_branch),
                    Place::Worktree(path) => !without_branch(*old(state), no_branch)
                        && recorded_worktree(*old(state)) == Some(path) && on_disk,
                    Place::New => !without_branch(*old(state), no_branch) && recorded_worktree(
                        *old(state),
                    ) is None,
                }
            },
            Err(LaunchError::Model(problem)) => body is Some && selects(
                body->0,
                ModelSelection::Problem(problem),
            ),
            Err(LaunchError::WorktreeGone(e)) => {
                &&& !without_branch(*old(state), no_branch) && !on_disk
                &&& recorded_worktree(*old(state)) is Some
                &&& body is Some ==> exists|s: ModelSelection| #[trigger]
                    selects(body->0, s) && s !is Problem
                &&& e@ == "the worktree recorded for issue #"@ + text::decimal(number as nat) + ", `"@
                    + recorded_worktree(*old(state))->0@ + GONE@
            },
        },
        if r is Ok && r->Ok_0.place is Here && old(state).prep is None {
            &&& final(state).prep == Some(
                PrepState {
                    no_branch: true,
                    branch: None,
                    worktree_path: None,
                    worktree_session_id: None,
                    pr_number: None,
                },
            )
            &&& *final(state) == (IssueState { prep: final(state).prep, ..*old(state) })
        } else {
            *final(state) == *old(state)
        },
{
    let recorded = match &state.prep {
        Some(prep) => Some(prep.no_branch),
        None => None,
    };
    let (here, flag_ignored) = match recorded {
        Some(mode) => (mode, no_branch && !mode),
        None => (no_branch, false),
    };
    let model = match body {
        Some(body) => {
            let selection = parse_model(body);
            let ghost chosen = selection;
            match selection {
                ModelSelection::Default => None,
                ModelSelection::Selected(model) => {
                    assert(chosen == ModelSelection::Selected(model));
                    Some(model)
                },
                ModelSelection::Problem(problem) => {
                    assert(chosen == ModelSelection::Problem(problem));
                    return Err(LaunchError::Model(problem));
                },
            }
        },
        None => None,
    };
    if here {
        // Record the mode now so the in-session run honours it even though the
        // user won't repeat the flag.
        if state.prep.is_none() {
            state.prep = Some(
                PrepState {
                    no_branch: true,
                    branch: None,
                    worktree_path: None,
                    worktree_session_id: None,
                    pr_number: None,
                },
            );
        }
        return Ok(Plan { place: Place::Here, model, flag_ignored });
    }
    let worktree = match &state.prep {
        Some(prep) => match &prep.worktree_path {
            Some(path) => Some(path.clone()),
            None => None,
        },
        None => None,
    };
    match worktree {
        Some(path) => {
            if !on_disk {
                proof {
                    if body is Some {
                        match model {
                            Some(m) => {
                                assert(selects(body->0, ModelSelection::Selected(m)));
                            },
                            None => {
                                assert(selects(body->0, ModelSelection::Default));
                            },
                        }
                    }
                }
                let mut s = text::copy("the worktree recorded for issue #");
                s.append(text::number(number).as_str());
                s.append(", `");
                s.append(path.as_str());
                s.append(GONE);
                return Err(LaunchError::WorktreeGone(s));
            }
            Ok(Plan { place: Place::Worktree(path), model, flag_ignored })
        },
        None => Ok(Plan { place: Place::New, model, flag_ignored }),
    }
}

/// The character that stands for `c` in a project directory's name.
pub open spec fn munged_char(c: char) -> char {
    if ('a' <= c && c <= 'z') || ('A' <= c && c <= 'Z') || ('0' <= c && c <= '9') {
        c
    } else {
        '-'
    }
}

/// The name of the project directory for a working directory.
pub open spec fn munged(path: Seq<char>) -> Seq<char> {
    Seq::new(path.len(), |i: int| munged_char(path[i]))
}

/// The agent names a project directory after the session's working directory
/// with every character that is no ASCII letter or digit (`/`, `.`, `_`, …)
/// replaced by `-`.
pub fn munge(path: &str) -> (r: String)
    ensures
        r@ == munged(path@),
{
    let v = text::chars(path);
    let mut out = String::new();
    let mut i: usize = 0;
    while i < v.len()
        invariant
            i <= v.len(),
            v@ == path@,
            out@ == munged(path@).take(i as int),
        decreases v.len() - i,
    {
        let c = v[i];
        let kept = ('a' <= c && c <= 'z') || ('A' <= c && c <= 'Z') || ('0' <= c && c <= '9');
        out.push(
            if kept {
                c
            } else {
                '-'
            },
        );
        i = i + 1;
        assert(out@ =~= munged(path@).take(i as int));
    }
    assert(out@ =~= munged(path@));
    out
}

/// Where a session's transcript is kept.
pub open spec fn transcript(agent_dir: Seq<char>, dir: Seq<char>, session: Seq<char>) -> Seq<char> {
    text::below(
        text::below(text::below(agent_dir, "projects"@), munged(dir)),
        session + ".jsonl"@,
    )
}

/// The path to the transcript the agent keeps for `session_id` launched in
/// `dir` (in its canonical form):
/// `<agent_dir>/projects/<munged dir>/<session_id>.jsonl`.
pub fn transcript_path(agent_dir: &str, dir: &str, session_id: &str) -> (r: String)
    ensures
        r@ == transcript(agent_dir@, dir@, session_id@),
{
    let projects = text::path_below(agent_dir, "projects");
    let project = text::path_below(projects.as_str(), munge(dir).as_str());
    let mut file = text::copy(session_id);
    file.append(".jsonl");
    text::path_below(project.as_str(), file.as_str())
}

/// The session recorded for an issue's worktree.
pub open spec fn recorded_session(state: IssueState) -> Option<String> {
    match state.prep {
        Some(prep) => prep.worktree_session_id,
        None => None,
    }
}

/// The session recorded for an issue's worktree.
pub fn worktree_session(state: &IssueState) -> (r: Option<String>)
    ensures
        r == recorded_session(*state),
{
    match &state.prep {
        Some(prep) => match &prep.worktree_session_id {
            Some(id) => Some(id.clone()),
            None => None,
        },
        None => None,
    }
}

/// The session recorded for an issue's worktree, if its transcript still exists
/// (otherwise there is nothing `--resume` could load).
pub fn resumable_session(state: &IssueState, transcript_exists: bool) -> (r: Option<String>)
    ensures
        r == (if transcript_exists {
            recorded_session(*state)
        } else {
            None
        }),
{
    if transcript_exists {
        worktree_session(state)
    } else {
        None
    }
}

/// Everything needed to spawn an interactive agent session for an issue.
pub struct Launch {
    /// The issue's own repo owner and name, where its ghwf state is keyed (which
    /// may differ from the code repo holding the worktree and PR).
    pub owner: String,
    pub repo: String,
    /// The code repo (worktree, branch, PR), for label syncs during recovery.
    pub code_owner: String,
    pub code_repo: String,
    pub number: u64,
    /// Exported as $GHWF_ISSUE so ghwf commands inside the session default to it.
    pub issue_url: String,
    /// Passed through verbatim as `--permission-mode` when set; the agent rejects
    /// invalid modes itself.
    pub permission_mode: Option<String>,
    /// Passed through verbatim as `--model` when set; the agent rejects an invalid
    /// model itself.
    pub model: Option<String>,
    /// The worktree to launch in, or `None` to launch in the current directory.
    pub dir: Option<String>,
    /// A previous session to `--resume`, when one is still resumable.
    pub resume: Option<String>,
}

/// How a supervised session ended.
#[derive(Clone, Copy, Debug, PartialEq, Eq, Structural)]
pub enum Outcome {
    /// The workflow concluded and the supervisor brought the session down.
    Completed,
    /// The session exited before the workflow concluded: the user stepped in and
    /// quit it.
    UserQuit,
}

/// A flag and its value, where there is one.
pub open spec fn flag(name: Seq<char>, value: Option<&str>) -> Seq<Seq<char>> {
    match value {
        Some(value) => seq![name, value@],
        None => seq![],
    }
}

/// Put a flag and its value behind the arguments, where there is a value.
fn push_flag(args: &mut Vec<String>, name: &str, value: Option<&str>)
    ensures
        text::views(final(args)@) == text::views(old(args)@) + flag(name@, value),
{
    match value {
        Some(value) => {
            args.push(text::copy(name));
            args.push(text::copy(value));
        },
        None => {},
    }
    assert(text::views(args@) =~= text::views(old(args)@) + flag(name@, value));
}

/// The argument list for the agent, in order: resume, permission mode, model, then
/// the `/work-on` initial prompt. Each flag is there only when its value is, and
/// each value is passed through verbatim. The prompt goes last so it is the
/// positional argument the agent treats as the first user message.
pub fn claude_args(
    resume: Option<&str>,
    permission_mode: Option<&str>,
    model: Option<&str>,
) -> (r: Vec<String>)
    ensures
        text::views(r@) == flag("--resume"@, resume) + flag("--permission-mode"@, permission_mode)
            + flag("--model"@, model) + seq!["/work-on"@],
{
    let mut args: Vec<String> = Vec::new();
    assert(text::views(args@) =~= seq![]);
    push_flag(&mut args, "--resume", resume);
    push_flag(&mut args, "--permission-mode", permission_mode);
    push_flag(&mut args, "--model", model);
    let ghost before = text::views(args@);
    args.push(text::copy("/work-on"));
    assert(text::views(args@) =~= before + seq!["/work-on"@]);
    assert(text::views(args@) =~= flag("--resume"@, resume) + flag(
        "--permission-mode"@,
        permission_mode,
    ) + flag("--model"@, model) + seq!["/work-on"@]);
    args
}

/// The line that says a session of this agent starts.
pub fn starting_line(
    agent: &str,
    resume: Option<&str>,
    dir: &str,
    permission_mode: Option<&str>,
) -> (r: String)
    ensures
        r@ == (match resume {
            Some(id) => "Resuming this worktree's previous "@ + agent@ + " session: launching `"@
                + text::lower(agent@) + " --resume "@ + id@ + "` in `"@,
            None => "Starting a fresh "@ + agent@ + " session in `"@,
        }) + dir@ + "`"@ + note_of(permission_mode) + "."@,
{
    let mut out = match resume {
        Some(id) => {
            let mut s = text::copy("Resuming this worktree's previous ");
            s.append(agent);
            s.append(" session: launching `");
            s.append(text::lowered(agent).as_str());
            s.append(" --resume ");
            s.append(id);
            s.append("` in `");
            s
        },
        None => {
            let mut s = text::copy("Starting a fresh ");
            s.append(agent);
            s.append(" session in `");
            s
        },
    };
    out.append(dir);
    out.append("`");
    out.append(mode_note(permission_mode).as_str());
    out.append(".");
    out
}

/// Whether to recover now or keep waiting for an outstanding alert.
#[derive(Clone, Copy, Debug, PartialEq, Eq, Structural)]
pub enum AlertAction {
    Wait,
    Recover,
}

/// An outstanding alert is to be recovered from now.
pub open spec fn recovers(kind: AlertKind, stop_nudges: u32, idle_secs: u64) -> bool {
    (kind == AlertKind::Idle && stop_nudges >= NUDGE_CAP) || idle_secs >= RECOVERY_GRACE
}

/// Decide what to do about an outstanding alert. An unambiguous lockup (the Stop
/// hook has given up and the session is idle, so the loop is definitively broken)
/// is recovered at once. Anything ambiguous (a plain idle that might be a real
/// pause, or a permission prompt a human could be about to clear) waits out the
/// grace window first.
pub fn classify_alert(kind: AlertKind, stop_nudges: u32, idle_secs: u64) -> (r: AlertAction)
    ensures
        r == (if recovers(kind, stop_nudges, idle_secs) {
            AlertAction::Recover
        } else {
            AlertAction::Wait
        }),
{
    let idle = match kind {
        AlertKind::Idle => true,
        AlertKind::Permission => false,
    };
    if (idle && stop_nudges >= NUDGE_CAP) || idle_secs >= RECOVERY_GRACE {
        AlertAction::Recover
    } else {
        AlertAction::Wait
    }
}

/// The alert about the session recorded for the worktree.
pub open spec fn alert_of(state: IssueState) -> Option<SessionAlert> {
    match (state.session_alert, recorded_session(state)) {
        (Some(alert), Some(id)) => if alert.session_id@ == id@ {
            Some(alert)
        } else {
            None
        },
        _ => None,
    }
}

/// The outstanding alert, but only when it's about the session actually running
/// now, i.e. it matches the worktree's recorded session. Guards against acting on
/// a stale signal a prior session left behind.
pub fn current_alert(state: &IssueState) -> (r: Option<&SessionAlert>)
    ensures
        match r {
            Some(alert) => alert_of(*state) == Some(*alert),
            None => alert_of(*state) is None,
        },
{
    match &state.session_alert {
        Some(alert) => match &state.prep {
            Some(prep) => match &prep.worktree_session_id {
                Some(id) => {
                    if text::same(alert.session_id.as_str(), id.as_str()) {
                        Some(alert)
                    } else {
                        None
                    }
                },
                None => None,
            },
            None => None,
        },
        None => None,
    }
}

/// Why a session is recovered.
#[derive(Clone, Copy, Debug, PartialEq, Eq, Structural)]
pub enum Reason {
    Crashed,
    Stuck,
}

/// How a watched session ended, or that it needs recovering.
#[derive(Clone, Copy, Debug, PartialEq, Eq, Structural)]
pub enum Disposition {
    /// The workflow concluded; the caller sends the shutdown gesture.
    Concluded,
    /// The session exited cleanly before conclusion: a genuine user quit.
    UserQuit,
    /// The session crashed or wedged; the caller recovers it.
    Recover(Reason),
}

/// What one look at a session shows.
#[derive(Clone, Copy, Debug, PartialEq, Eq, Structural)]
pub struct Look {
    /// A new stuck state, to be surfaced to GitHub.
    pub announce: Option<AlertKind>,
    /// That the session has ended or needs recovering.
    pub disposition: Option<Disposition>,
}

/// How long an alert has lasted.
pub open spec fn lasted(alert: SessionAlert, now: u64) -> u64 {
    if now > alert.at {
        (now - alert.at) as u64
    } else {
        0
    }
}

/// What one look at a session shows.
pub open spec fn look(
    exited: Option<bool>,
    state: Option<&IssueState>,
    announced: bool,
    now: u64,
) -> Look {
    match (exited, state) {
        (Some(true), _) => Look { announce: None, disposition: Some(Disposition::UserQuit) },
        (Some(false), _) => Look {
            announce: None,
            disposition: Some(Disposition::Recover(Reason::Crashed)),
        },
        (None, None) => Look { announce: None, disposition: None },
        (None, Some(state)) => if state.concluded() {
            Look { announce: None, disposition: Some(Disposition::Concluded) }
        } else {
            match alert_of(*state) {
                Some(alert) => Look {
                    announce: if announced {
                        None
                    } else {
                        Some(alert.kind)
                    },
                    disposition: if recovers(alert.kind, state.stop_nudges, lasted(alert, now)) {
                        Some(Disposition::Recover(Reason::Stuck))
                    } else {
                        None
                    },
                },
                None => Look { announce: None, disposition: None },
            }
        },
    }
}

/// Whether the current stuck episode counts as surfaced after a look.
pub open spec fn announced_after(
    exited: Option<bool>,
    state: Option<&IssueState>,
    announced: bool,
) -> bool {
    match (exited, state) {
        (None, Some(state)) => if state.concluded() {
            announced
        } else {
            alert_of(*state) is Some
        },
        _ => announced,
    }
}

/// Look once at a spawned session: whether the child has exited (and whether
/// successfully), the issue's state for conclusion, and the outstanding alert for
/// a wedged or idle session. A clean exit is the user quitting; any other is a
/// crash. A new stuck episode is announced once; `announced` is reset when the
/// alert clears.
pub fn monitor_child(
    exited: Option<bool>,
    state: Option<&IssueState>,
    announced: &mut bool,
    now: u64,
) -> (r: Look)
    ensures
        r == look(exited, state, *old(announced), now),
        *final(announced) == announced_after(exited, state, *old(announced)),
{
    match exited {
        Some(success) => {
            return Look {
                announce: None,
                disposition: Some(
                    if success {
                        Disposition::UserQuit
                    } else {
                        Disposition::Recover(Reason::Crashed)
                    },
                ),
            };
        },
        None => {},
    }
    let state = match state {
        Some(state) => state,
        None => {
            return Look { announce: None, disposition: None };
        },
    };
    if state.is_concluded() {
        return Look { announce: None, disposition: Some(Disposition::Concluded) };
    }
    match current_alert(state) {
        Some(alert) => {
            let announce = if *announced {
                None
            } else {
                Some(alert.kind)
            };
            *announced = true;
            let idle: u64 = if now > alert.at {
                now - alert.at
            } else {
                0
            };
            let disposition = match classify_alert(alert.kind, state.stop_nudges, idle) {
                AlertAction::Recover => Some(Disposition::Recover(Reason::Stuck)),
                AlertAction::Wait => None,
            };
            Look { announce, disposition }
        },
        // The alert cleared (the session is working again); ready to announce a
        // fresh episode if one arises.
        None => {
            *announced = false;
            Look { announce: None, disposition: None }
        },
    }
}

/// What a supervisor does once a session has ended or needs recovering.
#[derive(Clone, Copy, Debug, PartialEq, Eq, Structural)]
pub enum Supervision {
    /// Bring the session down; its workflow is completed.
    BringDown,
    /// The user quit the session.
    Leave,
    /// Bring the session down, and resume it.
    Resume,
    /// Bring the session down, and leave the issue with the user: auto-recovery
    /// is exhausted.
    Park,
}

impl Supervision {
    /// How the supervised session ended, where it did.
    pub open spec fn ending(self) -> Option<Outcome> {
        match self {
            Supervision::BringDown => Some(Outcome::Completed),
            Supervision::Leave | Supervision::Park => Some(Outcome::UserQuit),
            Supervision::Resume => None,
        }
    }

    /// How the supervised session ended, where it did.
    pub fn outcome(self) -> (r: Option<Outcome>)
        ensures
            r == self.ending(),
    {
        match self {
            Supervision::BringDown => Some(Outcome::Completed),
            Supervision::Leave => Some(Outcome::UserQuit),
            Supervision::Park => Some(Outcome::UserQuit),
            Supervision::Resume => None,
        }
    }
}

/// Supervise a session: once it has ended or needs recovering, decide what to do.
/// `restarts` counts the recoveries performed this run, capped so a
/// deterministically-broken session can't thrash.
pub fn supervise_once(restarts: &mut u32, disposition: Disposition) -> (r: Supervision)
    requires
        *old(restarts) < u32::MAX,
    ensures
        r == (match disposition {
            Disposition::Concluded => Supervision::BringDown,
            Disposition::UserQuit => Supervision::Leave,
            Disposition::Recover(_) => if *old(restarts) + 1 > MAX_AUTO_RESTARTS {
                Supervision::Park
            } else {
                Supervision::Resume
            },
        }),
        *final(restarts) == (if disposition is Recover {
            *old(restarts) + 1
        } else {
            *old(restarts) as int
        }),
        r == Supervision::Resume ==> *final(restarts) <= MAX_AUTO_RESTARTS,
{
    match disposition {
        Disposition::Concluded => Supervision::BringDown,
        Disposition::UserQuit => Supervision::Leave,
        Disposition::Recover(_) => {
            *restarts = *restarts + 1;
            if *restarts > MAX_AUTO_RESTARTS {
                Supervision::Park
            } else {
                Supervision::Resume
            }
        },
    }
}

/// What a supervisor says of a session.
pub open spec fn said(
    number: u64,
    supervision: Supervision,
    disposition: Disposition,
    restarts: u32,
) -> Seq<char> {
    let n = text::decimal(number as nat);
    match supervision {
        Supervision::BringDown => "Issue #"@ + n
            + "'s workflow has concluded; bringing the session down."@,
        Supervision::Leave => ""@,
        Supervision::Park => "Issue #"@ + n + ": auto-recovery exhausted after "@ + text::decimal(
            MAX_AUTO_RESTARTS as nat,
        ) + " attempt(s); leaving the session with the user."@,
        Supervision::Resume => "Issue #"@ + n + (match disposition {
            Disposition::Recover(Reason::Stuck) => ": the session is stuck"@,
            _ => ": the session crashed"@,
        }) + "; resuming (attempt "@ + text::decimal(restarts as nat) + "/"@ + text::decimal(
            MAX_AUTO_RESTARTS as nat,
        ) + ")."@,
    }
}

/// What a supervisor says of a session.
pub fn supervision_line(
    number: u64,
    supervision: Supervision,
    disposition: Disposition,
    restarts: u32,
) -> (r: String)
    ensures
        r@ == said(number, supervision, disposition, restarts),
{
    let mut out = match supervision {
        Supervision::Leave => {
            return text::copy("");
        },
        _ => text::copy("Issue #"),
    };
    out.append(text::number(number).as_str());
    match supervision {
        Supervision::BringDown => {
            out.append("'s workflow has concluded; bringing the session down.");
        },
        Supervision::Leave => {},
        Supervision::Park => {
            out.append(": auto-recovery exhausted after ");
            out.append(text::number(MAX_AUTO_RESTARTS as u64).as_str());
            out.append(" attempt(s); leaving the session with the user.");
        },
        Supervision::Resume => {
            out.append(
                match disposition {
                    Disposition::Recover(Reason::Stuck) => ": the session is stuck",
                    _ => ": the session crashed",
                },
            );
            out.append("; resuming (attempt ");
            out.append(text::number(restarts as u64).as_str());
            out.append("/");
            out.append(text::number(MAX_AUTO_RESTARTS as u64).as_str());
            out.append(").");
        },
    }
    out
}

/// Drop a spent alert from the issue state before a session is resumed, so the
/// supervisor doesn't immediately act on it again. Says whether there was one.
pub fn clear_alert(state: &mut IssueState) -> (r: bool)
    ensures
        r == (old(state).session_alert is Some),
        *final(state) == (IssueState { session_alert: None, ..*old(state) }),
{
    let had = state.session_alert.is_some();
    state.session_alert = None;
    had
}

/// Recompute the launch's `--resume` target from the latest recorded state, so a
/// recovery resumes the worktree's session. Sessions without a worktree aren't
/// resumable, so a fresh `/work-on` re-enters the loop instead. Without recorded
/// state the target stays.
pub fn recompute_resume(launch: &mut Launch, state: Option<&IssueState>, transcript_exists: bool)
    ensures
        *final(launch) == (Launch {
            resume: if old(launch).dir is None {
                None
            } else {
                match state {
                    Some(state) => if transcript_exists {
                        recorded_session(*state)
                    } else {
                        None
                    },
                    None => old(launch).resume,
                }
            },
            ..*old(launch)
        }),
{
    if launch.dir.is_none() {
        launch.resume = None;
        return;
    }
    match state {
        Some(state) => {
            launch.resume = resumable_session(state, transcript_exists);
        },
        None => {},
    }
}

pub const STUCK_END: &'static str =
    ". ghwf will try to recover it \
     automatically; if it can't, it'll leave the session with you.";

pub const IDLE: &'static str =
    "appears to have gone idle — it dropped out of the wait/work-on loop";

pub const PERMISSION: &'static str = "is parked on a permission prompt";

/// The one-time heads-up that a session looks stuck.
pub fn stuck_notice(agent: &str, kind: AlertKind) -> (r: String)
    ensures
        r@ == render::status_body(
            "Heads up: the "@ + agent@ + " session for this issue "@ + (match kind {
                AlertKind::Idle => IDLE@,
                AlertKind::Permission => PERMISSION@,
            }) + STUCK_END@,
        ),
{
    let mut s = text::copy("Heads up: the ");
    s.append(agent);
    s.append(" session for this issue ");
    s.append(
        match kind {
            AlertKind::Idle => IDLE,
            AlertKind::Permission => PERMISSION,
        },
    );
    s.append(STUCK_END);
    render::build_status_comment_body(s.as_str())
}

pub const PARKED: &'static str =
    " session % time(s) but it kept \
     getting stuck, so it's leaving the session with you. Resume it on the machine \
     running ghwf, or re-launch with `ghwf work-on`.";

/// The notice that auto-recovery has been exhausted and the session is now the
/// user's to deal with.
pub fn parked_notice(agent: &str, attempts: u32) -> (r: String)
    ensures
        r@ == render::status_body(
            "ghwf tried to recover this issue's "@ + agent@ + text::fill(
                PARKED@,
                text::decimal(attempts as nat),
            ),
        ),
{
    let mut s = text::copy("ghwf tried to recover this issue's ");
    s.append(agent);
    s.append(text::filled_number(PARKED, attempts as u64).as_str());
    render::build_status_comment_body(s.as_str())
}

/// Flip an issue to waiting on the user.
pub fn leave_with_user(state: &mut IssueState)
    ensures
        *final(state) == (IssueState { attention: Attention::WaitingOnUser, ..*old(state) }),
{
    state.attention = Attention::WaitingOnUser;
}

/// A step in bringing a session down.
#[derive(Clone, Copy, Debug, PartialEq, Eq, Structural)]
pub enum ShutdownStep {
    /// Ctrl-C twice: one only interrupts, the second exits.
    DoubleInterrupt,
    Terminate,
    Kill,
    /// The child is reaped.
    Reap,
}

/// The next step in bringing a session down, given the last one and whether the
/// child has exited since. The exit gesture comes first, and escalates if the
/// child lingers, so a wedged session can never hang the supervisor.
pub fn shutdown(last: Option<ShutdownStep>, exited: bool) -> (r: ShutdownStep)
    ensures
        r == (match last {
            None => ShutdownStep::DoubleInterrupt,
            Some(ShutdownStep::DoubleInterrupt) if !exited => ShutdownStep::Terminate,
            Some(ShutdownStep::Terminate) if !exited => ShutdownStep::Kill,
            _ => ShutdownStep::Reap,
        }),
{
    match last {
        None => ShutdownStep::DoubleInterrupt,
        Some(ShutdownStep::DoubleInterrupt) => {
            if exited {
                ShutdownStep::Reap
            } else {
                ShutdownStep::Terminate
            }
        },
        Some(ShutdownStep::Terminate) => {
            if exited {
                ShutdownStep::Reap
            } else {
                ShutdownStep::Kill
            }
        },
        _ => ShutdownStep::Reap,
    }
}

/// A permission prompt, which a human may be about to clear, is never recovered
/// from before the grace window has passed.
pub proof fn permission_prompts_wait_out_the_grace(stop_nudges: u32, idle_secs: u64)
    requires
        idle_secs < RECOVERY_GRACE,
    ensures
        !recovers(AlertKind::Permission, stop_nudges, idle_secs),
{
}

/// An alert that a prior session left behind, or one without a recorded session,
/// is neither announced nor acted on.
pub proof fn stale_alerts_are_ignored(state: IssueState, announced: bool, now: u64)
    requires
        !state.concluded(),
        match (state.session_alert, recorded_session(state)) {
            (Some(alert), Some(id)) => alert.session_id@ != id@,
            _ => true,
        },
    ensures
        look(None, Some(&state), announced, now) == (Look { announce: None, disposition: None }),
        !announced_after(None, Some(&state), announced),
{
}

/// A stuck episode is announced once: after a look at it, further looks at the
/// same alert announce nothing.
pub proof fn episodes_are_announced_once(
    state: IssueState,
    announced: bool,
    now: u64,
    later: u64,
)
    requires
        !state.concluded(),
        alert_of(state) is Some,
    ensures
        look(None, Some(&state), announced_after(None, Some(&state), announced), later).announce
            is None,
        !announced ==> look(None, Some(&state), announced, now).announce == Some(
            alert_of(state)->0.kind,
        ),
{
}

} // verus!
