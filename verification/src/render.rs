//! The texts that are posted and printed: comment bodies and their hidden
//! markers, banners, status updates, prompts and the digest of what is new.

use vstd::prelude::*;

use crate::models::{Comment, Issue, ReviewComment};
use crate::state::{Phase, PrOutcome};
use crate::text;

verus! {

/// Opening shared by every hidden metadata marker, for detection and stripping.
pub const MARKER_SCAN_PREFIX: &'static str = "<!-- ghwf:v1 ";

/// Opening of the session marker embedded in agent-authored comments.
pub const SESSION_MARKER_PREFIX: &'static str = "<!-- ghwf:v1 session=";

/// Closing of the hidden metadata marker.
pub const MARKER_SUFFIX: &'static str = " -->";

/// The complete marker embedded in status comments.
pub const STATUS_MARKER: &'static str = "<!-- ghwf:v1 status -->";

/// A name: ASCII letters.
pub open spec fn is_name(s: Seq<char>) -> bool {
    forall|i: int|
        0 <= i < s.len() ==> ('A' <= (#[trigger] s[i]) && s[i] <= 'Z') || ('a' <= s[i] && s[i]
            <= 'z')
}

/// The header of a comment that the agent of this name wrote.
pub open spec fn agent_header(agent: Seq<char>) -> Seq<char> {
    "**"@ + agent + " says:**\n<hr>\n\n"@
}

/// The header of a status comment.
pub const STATUS_HEADER: &'static str = "**ghwf:**\n<hr>\n\n";

/// The hidden metadata marker found in a posted comment.
pub enum Marker {
    /// Agent-authored, tagged with the authoring session's token.
    Session(String),
    /// A status update.
    Status,
}

/// What a [`Marker`] says.
pub enum MarkerView {
    Session(Seq<char>),
    Status,
}

impl View for Marker {
    type V = MarkerView;

    open spec fn view(&self) -> MarkerView {
        match self {
            Marker::Session(token) => MarkerView::Session(token@),
            Marker::Status => MarkerView::Status,
        }
    }
}

/// A new-or-changed comment prepared for rendering.
pub struct CommentView<'a> {
    pub comment: &'a Comment,
    /// The comment body with the hidden marker stripped, ready to display.
    pub body: String,
    /// True if this comment was seen before but its content has since changed.
    pub updated: bool,
}

/// A new-or-changed inline review comment prepared for rendering.
pub struct ReviewCommentView<'a> {
    pub comment: &'a ReviewComment,
    /// The comment body with the hidden marker stripped, ready to display.
    pub body: String,
    /// The code the comment is anchored to, e.g. `src/main.rs:42`.
    pub location: String,
    /// True if this comment was seen before but its content has since changed.
    pub updated: bool,
}

/// The body of an agent-authored comment.
pub open spec fn comment_body(
    agent: Seq<char>,
    user_body: Seq<char>,
    token: Option<Seq<char>>,
) -> Seq<char> {
    let shown = agent_header(agent) + text::trim(user_body);
    match token {
        Some(token) => shown + "\n\n"@ + SESSION_MARKER_PREFIX@ + token + MARKER_SUFFIX@,
        None => shown,
    }
}

/// Assemble the body of an agent-authored comment: a visible attribution header,
/// the user's markdown, and an optional hidden metadata marker identifying the
/// authoring session.
///
/// `<hr>` is used rather than `---`, because `**Agent says:**` immediately
/// followed by a `---` line renders as a setext heading on GitHub.
pub fn build_comment_body(agent: &str, user_body: &str, session_token: Option<&str>) -> (r: String)
    ensures
        r@ == comment_body(
            agent@,
            user_body@,
            match session_token {
                Some(token) => Some(token@),
                None => None,
            },
        ),
{
    let mut body = text::copy("**");
    body.append(agent);
    body.append(" says:**\n<hr>\n\n");
    body.append(text::trimmed(user_body).as_str());
    if let Some(token) = session_token {
        body.append("\n\n");
        body.append(SESSION_MARKER_PREFIX);
        body.append(token);
        body.append(MARKER_SUFFIX);
    }
    body
}

/// The body of a status comment.
pub open spec fn status_body(text: Seq<char>) -> Seq<char> {
    STATUS_HEADER@ + text::trim(text) + "\n\n"@ + STATUS_MARKER@
}

/// Assemble the body of a status comment: a visible attribution header, the
/// status text, and the hidden status marker.
pub fn build_status_comment_body(text: &str) -> (r: String)
    ensures
        r@ == status_body(text@),
{
    let mut body = text::copy(STATUS_HEADER);
    body.append(text::trimmed(text).as_str());
    body.append("\n\n");
    body.append(STATUS_MARKER);
    body
}

/// The hidden marker of a comment body: the status marker wherever it stands,
/// else the token of the first session marker that is closed.
pub open spec fn marker_of(body: Seq<char>) -> Option<MarkerView> {
    if text::contains(body, STATUS_MARKER@) {
        Some(MarkerView::Status)
    } else {
        match text::find(body, SESSION_MARKER_PREFIX@) {
            Some(at) => {
                let rest = body.skip(at + SESSION_MARKER_PREFIX@.len());
                match text::find(rest, MARKER_SUFFIX@) {
                    Some(end) => Some(MarkerView::Session(rest.take(end))),
                    None => None,
                }
            },
            None => None,
        }
    }
}

/// Extract the hidden marker from a comment body, if present.
pub fn extract_marker(body: &str) -> (r: Option<Marker>)
    ensures
        match r {
            Some(m) => marker_of(body@) == Some(m@),
            None => marker_of(body@) is None,
        },
{
    if text::has(body, STATUS_MARKER) {
        return Some(Marker::Status);
    }
    let chars = text::chars(body);
    let prefix = text::chars(SESSION_MARKER_PREFIX);
    match text::find_chars(&chars, &prefix) {
        None => None,
        Some(at) => {
            let start: usize = at + prefix.len();
            let rest = text::slice(&chars, start, chars.len());
            assert(rest@ =~= body@.skip(start as int));
            let rest = text::chars(rest.as_str());
            let suffix = text::chars(MARKER_SUFFIX);
            match text::find_chars(&rest, &suffix) {
                None => None,
                Some(end) => {
                    let token = text::slice(&rest, 0, end);
                    assert(token@ =~= rest@.take(end as int));
                    Some(Marker::Session(token))
                },
            }
        },
    }
}

/// Whether a comment must be hidden from digests and wake decisions.
pub open spec fn hidden(body: Seq<char>, my_token: Option<Seq<char>>) -> bool {
    match marker_of(body) {
        Some(MarkerView::Status) => true,
        Some(MarkerView::Session(token)) => my_token == Some(token),
        None => false,
    }
}

/// Whether a comment must be hidden from digests and wake decisions: status
/// updates always (they are machinery, whichever session posted them), and
/// agent-authored comments only when the current session wrote them.
/// `my_token` is `None` outside an agent session, where only status comments
/// hide.
pub fn hidden_from_digest(body: &str, my_token: Option<&str>) -> (r: bool)
    ensures
        r == hidden(
            body@,
            match my_token {
                Some(token) => Some(token@),
                None => None,
            },
        ),
{
    match extract_marker(body) {
        Some(Marker::Status) => true,
        Some(Marker::Session(token)) => match my_token {
            Some(mine) => text::same(token.as_str(), mine),
            None => false,
        },
        None => false,
    }
}

/// A comment body without its hidden marker.
pub open spec fn shown(body: Seq<char>) -> Seq<char> {
    match text::find(body, MARKER_SCAN_PREFIX@) {
        Some(at) => text::trim_end(body.take(at)),
        None => body,
    }
}

/// Remove the hidden marker (and the blank line before it) from a comment
/// body, leaving just the displayable content.
pub fn strip_ghwf_marker(body: &str) -> (r: String)
    ensures
        r@ == shown(body@),
{
    let chars = text::chars(body);
    let prefix = text::chars(MARKER_SCAN_PREFIX);
    match text::find_chars(&chars, &prefix) {
        Some(at) => {
            let head = text::slice(&chars, 0, at);
            assert(head@ =~= body@.take(at as int));
            text::trimmed_end(head.as_str())
        },
        None => text::copy(body),
    }
}

/// Where a question that blocks progress goes.
pub const QUESTION: &'static str =
    "If you need an answer from the user to proceed, never use an interactive \
     prompt (no AskUserQuestion, and don't ask in prose and stop): post the \
     question with `ghwf hand-off % --question` (body from stdin) — that \
     flips the issue to \"needs you\" — then `ghwf wait %` for the reply.";

/// One-line reminder, shared across phase banners, to route a question that
/// blocks progress to the thread rather than an interactive prompt.
pub fn question_instruction(number: u64) -> (r: String)
    ensures
        r@ == text::fill(QUESTION@, text::decimal(number as nat)),
{
    text::filled_number(QUESTION, number)
}

/// How to wait for the next human response.
pub const WAIT: &'static str =
    "Once you have posted your comment(s) and have nothing else to do, run \
     `ghwf wait %` — it blocks until there is new activity (up to ~9 minutes; \
     give it a 10-minute command timeout). Exit 0 means new activity arrived: run \
     `ghwf work-on %` to process it. Exit 2 means nothing yet: run \
     `ghwf wait %` again. Do not poll with your own sleep loops.";

/// How the agent should wait for the next human response, appended to every
/// banner body that ends in a waiting state.
pub fn wait_instruction(number: u64) -> (r: String)
    ensures
        r@ == text::fill(WAIT@, text::decimal(number as nat)),
{
    text::filled_number(WAIT, number)
}

pub const MERGED_BODY: &'static str =
    " has been merged — the workflow for issue #% is complete.\n\n\
     Stop the wait/work-on loop: do not run `ghwf wait %` or \
     `ghwf work-on %` again unless the user asks.";

pub const CLOSED_BODY: &'static str =
    " was closed without being merged — the workflow for issue #% \
     has halted.\n\n\
     Surface this to the user and stop the wait/work-on loop: do not run \
     `ghwf wait %` or `ghwf work-on %` again unless the user asks. \
     (Reopening the PR resumes the workflow on the next `ghwf work-on %`.)";

/// The banner body of a concluded workflow.
pub open spec fn concluded(
    outcome: PrOutcome,
    pr_url: Option<Seq<char>>,
    number: nat,
) -> Seq<char> {
    (match pr_url {
        Some(url) => "The PR ("@ + url + ")"@,
        None => "The PR"@,
    }) + text::fill(
        match outcome {
            PrOutcome::Merged => MERGED_BODY@,
            PrOutcome::Closed => CLOSED_BODY@,
        },
        text::decimal(number),
    )
}

/// The banner body shown in place of the phase body once the PR has left the
/// open state: the workflow is over, so the wait/work-on loop must stop.
pub fn concluded_body(outcome: PrOutcome, pr_url: Option<&str>, number: u64) -> (r: String)
    ensures
        r@ == concluded(
            outcome,
            match pr_url {
                Some(url) => Some(url@),
                None => None,
            },
            number as nat,
        ),
{
    let mut out = match pr_url {
        Some(url) => {
            let mut out = text::copy("The PR (");
            out.append(url);
            out.append(")");
            out
        },
        None => text::copy("The PR"),
    };
    let rest = match outcome {
        PrOutcome::Merged => text::filled_number(MERGED_BODY, number),
        PrOutcome::Closed => text::filled_number(CLOSED_BODY, number),
    };
    out.append(rest.as_str());
    out
}

pub const PRE_PLAN: &'static str =
    "Pre-plan — gathering the information needed to write a plan.\n\n\
     Discuss on the issue itself. Post questions and clarifications as comments with \
     `ghwf create-issue-comment %`; if an answer is needed before you can \
     proceed, use `ghwf hand-off % --question` instead so the issue flips to \
     \"needs you\". Either way, never raise an interactive prompt (no AskUserQuestion). \
     When you have enough information, hand off \
     with `ghwf hand-off %` (body from stdin): a comment that summarises your \
     understanding and clearly states you are ready to write a plan. ghwf appends the \
     approval prompt itself — do not write one.\n\n\
     Do not start planning or advance the workflow yourself. Wait for the user's \
     approval; ghwf will then advance to the prep-and-plan phase.\n\n";

/// Guidance shown to the agent during the pre-plan phase.
pub fn pre_plan_body(number: u64) -> (r: String)
    ensures
        r@ == text::fill(PRE_PLAN@, text::decimal(number as nat)) + text::fill(
            WAIT@,
            text::decimal(number as nat),
        ),
{
    let mut out = text::filled_number(PRE_PLAN, number);
    out.append(wait_instruction(number).as_str());
    out
}

/// A phase transition that fired this run, for banner reporting.
pub struct Transition {
    pub from: Phase,
    pub to: Phase,
    pub trigger: Trigger,
}

/// What fired a phase transition.
pub enum Trigger {
    /// An approval directive: a typed command, or a 👍 reaction on a prompt
    /// comment (`via_reaction`).
    Directive {
        /// The canonical spelling of the directive.
        command: &'static str,
        /// Who posted it.
        by: String,
        via_reaction: bool,
    },
    /// The user marked the draft PR ready for review (advances implement).
    PrReady,
}

impl Transition {
    pub open spec fn fired_by(&self) -> Option<Seq<char>> {
        match self.trigger {
            Trigger::Directive { command, .. } => Some(command@),
            Trigger::PrReady => None,
        }
    }

    /// The directive command that fired this transition, if it was one.
    fn command(&self) -> (r: Option<&'static str>)
        ensures
            match r {
                Some(c) => self.fired_by() == Some(c@),
                None => self.fired_by() is None,
            },
    {
        match &self.trigger {
            Trigger::Directive { command, .. } => Some(*command),
            Trigger::PrReady => None,
        }
    }
}

/// Why a consumed directive did not fire.
#[derive(Clone, Copy, Debug, PartialEq, Eq, Structural)]
pub enum NoteKind {
    /// Approves a phase the workflow has already moved past (e.g. the same
    /// approval posted on both threads).
    Stale,
    /// Approves a phase the workflow has not reached yet.
    Premature,
    /// A retired command.
    Retired,
}

/// A consumed-but-not-fired directive, for banner reporting.
pub struct DirectiveNote {
    pub kind: NoteKind,
    /// The canonical spelling of the directive.
    pub command: &'static str,
    /// Who posted it.
    pub by: String,
    /// Which conversation thread it was posted on ("issue" / "PR").
    pub source: &'static str,
    /// The workflow phase at the moment the directive was processed.
    pub phase_at: Phase,
    /// True when the directive arrived as a 👍 reaction on a prompt comment
    /// rather than as a typed command.
    pub via_reaction: bool,
}

/// What kind of input was passed over.
#[derive(Clone, Copy, Debug, PartialEq, Eq, Structural)]
pub enum IgnoredKind {
    Comment,
    Reaction,
}

/// Input from an author who may not drive the workflow.
pub struct IgnoredInput {
    pub by: String,
    /// Which conversation thread it was on ("issue" / "PR").
    pub source: &'static str,
    pub kind: IgnoredKind,
}

pub const STATUS_POSTED: &'static str =
    "\nghwf has posted a status update covering the above to the conversation \
     thread(s); do not relay it yourself.";

/// The line that reports a transition.
pub open spec fn transition_line(t: Transition) -> Seq<char> {
    "Phase advanced: "@ + t.from.name()@ + " → "@ + t.to.name()@ + " (triggered by "@ + (
    match t.trigger {
        Trigger::Directive { command, by, via_reaction } => if via_reaction {
            "a 👍 reaction from "@ + by@ + ", equivalent to `"@ + command@ + "`"@
        } else {
            "`"@ + command@ + "` from "@ + by@
        },
        Trigger::PrReady => "the PR being marked ready for review"@,
    }) + ")."@
}

/// One line reporting a fired phase transition, shared by the banner and
/// status comments.
pub fn render_transition(transition: &Transition) -> (r: String)
    ensures
        r@ == transition_line(*transition),
{
    let trigger = match &transition.trigger {
        Trigger::Directive { command, by, via_reaction } => {
            if *via_reaction {
                let mut s = text::copy("a 👍 reaction from ");
                s.append(by.as_str());
                s.append(", equivalent to `");
                s.append(*command);
                s.append("`");
                s
            } else {
                let mut s = text::copy("`");
                s.append(*command);
                s.append("` from ");
                s.append(by.as_str());
                s
            }
        },
        Trigger::PrReady => text::copy("the PR being marked ready for review"),
    };
    let mut out = text::copy("Phase advanced: ");
    out.append(transition.from.label());
    out.append(" → ");
    out.append(transition.to.label());
    out.append(" (triggered by ");
    out.append(trigger.as_str());
    out.append(").");
    out
}

/// What advances the workflow from `phase`, for misfire notes.
pub open spec fn hint(phase: Phase) -> Seq<char> {
    match phase.command() {
        Some(command) => "the command that advances it is `"@ + command@ + "`"@,
        None => if phase == Phase::Implement {
            "marking the draft PR ready for review advances it"@
        } else {
            "there is nothing further to approve"@
        },
    }
}

/// What advances the workflow from `phase`, for misfire notes.
pub fn advance_hint(phase: Phase) -> (r: String)
    ensures
        r@ == hint(phase),
{
    match phase.approval_command() {
        Some(command) => {
            let mut s = text::copy("the command that advances it is `");
            s.append(command);
            s.append("`");
            s
        },
        None => {
            if phase == Phase::Implement {
                text::copy("marking the draft PR ready for review advances it")
            } else {
                text::copy("there is nothing further to approve")
            }
        },
    }
}

/// The line that explains a directive that did not fire.
pub open spec fn note_line(note: DirectiveNote) -> Seq<char> {
    let what = if note.via_reaction {
        "A 👍 reaction (equivalent to `"@ + note.command@ + "`) from "@ + note.by@
    } else {
        "`"@ + note.command@ + "` from "@ + note.by@
    };
    let start = "Note: "@ + what + " (on the "@ + note.source@ + ") was ignored — "@;
    match note.kind {
        NoteKind::Stale => start + "the workflow is already past the phase it approves."@,
        NoteKind::Premature => start + "the workflow is only in the "@ + note.phase_at.name()@
            + " phase; "@ + hint(note.phase_at) + "."@,
        NoteKind::Retired => start + "`"@ + note.command@
            + "` is retired; the workflow is in the "@ + note.phase_at.name()@ + " phase, and "@
            + hint(note.phase_at) + "."@,
    }
}

/// One banner line explaining a consumed-but-not-fired directive.
pub fn render_note(note: &DirectiveNote) -> (r: String)
    ensures
        r@ == note_line(*note),
{
    let what = if note.via_reaction {
        let mut s = text::copy("A 👍 reaction (equivalent to `");
        s.append(note.command);
        s.append("`) from ");
        s.append(note.by.as_str());
        s
    } else {
        let mut s = text::copy("`");
        s.append(note.command);
        s.append("` from ");
        s.append(note.by.as_str());
        s
    };
    let mut out = text::copy("Note: ");
    out.append(what.as_str());
    out.append(" (on the ");
    out.append(note.source);
    out.append(") was ignored — ");
    match note.kind {
        NoteKind::Stale => {
            out.append("the workflow is already past the phase it approves.");
        },
        NoteKind::Premature => {
            out.append("the workflow is only in the ");
            out.append(note.phase_at.label());
            out.append(" phase; ");
            out.append(advance_hint(note.phase_at).as_str());
            out.append(".");
        },
        NoteKind::Retired => {
            out.append("`");
            out.append(note.command);
            out.append("` is retired; the workflow is in the ");
            out.append(note.phase_at.label());
            out.append(" phase, and ");
            out.append(advance_hint(note.phase_at).as_str());
            out.append(".");
        },
    }
    out
}

/// The transitions, each on a line of its own.
pub open spec fn transition_lines(ts: Seq<Transition>) -> Seq<char>
    decreases ts.len(),
{
    if ts.len() == 0 {
        seq![]
    } else {
        transition_lines(ts.drop_last()) + "\n"@ + transition_line(ts.last())
    }
}

/// The notes, each on a line of its own.
pub open spec fn note_lines(ns: Seq<DirectiveNote>) -> Seq<char>
    decreases ns.len(),
{
    if ns.len() == 0 {
        seq![]
    } else {
        note_lines(ns.drop_last()) + "\n"@ + note_line(ns.last())
    }
}

/// The phase banner.
pub open spec fn banner(
    phase: Phase,
    transitions: Seq<Transition>,
    notes: Seq<DirectiveNote>,
    status_posted: bool,
    body: Seq<char>,
) -> Seq<char> {
    "Phase: "@ + phase.name()@ + transition_lines(transitions) + note_lines(notes) + (
    if status_posted {
        STATUS_POSTED@
    } else {
        seq![]
    }) + "\n\n"@ + body
}

/// The transitions, each on a line of its own.
fn all_transition_lines(ts: &[Transition]) -> (r: String)
    ensures
        r@ == transition_lines(ts@),
{
    let mut out = String::new();
    let mut i: usize = 0;
    assert(ts@.take(0) =~= seq![]);
    while i < ts.len()
        invariant
            i <= ts.len(),
            out@ == transition_lines(ts@.take(i as int)),
        decreases ts.len() - i,
    {
        out.append("\n");
        out.append(render_transition(&ts[i]).as_str());
        assert(ts@.take(i + 1).drop_last() =~= ts@.take(i as int));
        i = i + 1;
    }
    assert(ts@.take(ts@.len() as int) =~= ts@);
    out
}

/// The notes, each on a line of its own.
fn all_note_lines(ns: &[DirectiveNote]) -> (r: String)
    ensures
        r@ == note_lines(ns@),
{
    let mut out = String::new();
    let mut i: usize = 0;
    assert(ns@.take(0) =~= seq![]);
    while i < ns.len()
        invariant
            i <= ns.len(),
            out@ == note_lines(ns@.take(i as int)),
        decreases ns.len() - i,
    {
        out.append("\n");
        out.append(render_note(&ns[i]).as_str());
        assert(ns@.take(i + 1).drop_last() =~= ns@.take(i as int));
        i = i + 1;
    }
    assert(ns@.take(ns@.len() as int) =~= ns@);
    out
}

/// Render the phase banner shown atop `work-on` output: the current phase, any
/// transitions and directive notes from this run, then the phase-specific `body`.
pub fn render_phase_banner(
    phase: Phase,
    transitions: &[Transition],
    notes: &[DirectiveNote],
    status_posted: bool,
    body: &str,
) -> (r: String)
    ensures
        r@ == banner(phase, transitions@, notes@, status_posted, body@),
{
    let mut out = text::copy("Phase: ");
    out.append(phase.label());
    out.append(all_transition_lines(transitions).as_str());
    out.append(all_note_lines(notes).as_str());
    let posted = if status_posted {
        text::copy(STATUS_POSTED)
    } else {
        String::new()
    };
    out.append(posted.as_str());
    out.append("\n\n");
    out.append(body);
    out
}

/// What the banner says of input that was passed over.
pub open spec fn ignored_line(input: IgnoredInput) -> Seq<char> {
    "Ignored a "@ + (match input.kind {
        IgnoredKind::Comment => "comment"@,
        IgnoredKind::Reaction => "👍 reaction"@,
    }) + " on the "@ + input.source@ + " from "@ + input.by@
        + ": not an allow-listed user or a collaborator."@
}

/// The ignored inputs, each on a line of its own.
pub open spec fn ignored_lines(inputs: Seq<IgnoredInput>) -> Seq<char>
    decreases inputs.len(),
{
    if inputs.len() == 0 {
        seq![]
    } else {
        ignored_lines(inputs.drop_last()) + ignored_line(inputs.last()) + "\n"@
    }
}

/// Report the inputs whose authors may not drive the workflow.
pub fn render_ignored(inputs: &[IgnoredInput]) -> (r: String)
    ensures
        r@ == ignored_lines(inputs@),
{
    let mut out = String::new();
    let mut i: usize = 0;
    assert(inputs@.take(0) =~= seq![]);
    while i < inputs.len()
        invariant
            i <= inputs.len(),
            out@ == ignored_lines(inputs@.take(i as int)),
        decreases inputs.len() - i,
    {
        let kind = match inputs[i].kind {
            IgnoredKind::Comment => "comment",
            IgnoredKind::Reaction => "👍 reaction",
        };
        let mut line = text::copy("Ignored a ");
        line.append(kind);
        line.append(" on the ");
        line.append(inputs[i].source);
        line.append(" from ");
        line.append(inputs[i].by.as_str());
        line.append(": not an allow-listed user or a collaborator.");
        out.append(line.as_str());
        out.append("\n");
        assert(inputs@.take(i + 1).drop_last() =~= inputs@.take(i as int));
        i = i + 1;
    }
    assert(inputs@.take(inputs@.len() as int) =~= inputs@);
    out
}

pub const INTRO: &'static str =
    "ghwf is tracking this issue; status updates like this one are posted as the \
     workflow advances.";

pub const MERGED_PROSE: &'static str =
    "The PR was merged; the workflow for this issue is **complete**.";

pub const CLOSED_PROSE: &'static str =
    "The PR was closed without being merged; the workflow has \
     **halted**. Reopening the PR resumes it.";

pub const PRE_PLAN_PROSE: &'static str = "The workflow is in the **pre-plan** phase: ";

pub const PRE_PLAN_TASK: &'static str =
    " gathers the \
     information needed to write a plan and posts its understanding here. When it \
     has enough, it will hand off and prompt for your approval to advance to \
     prep-and-plan.";

pub const PREP_AND_PLAN_PROSE: &'static str =
    "The workflow is in the **prep-and-plan** phase: ";

pub const PREP_AND_PLAN_TASK: &'static str =
    " is \
     writing the implementation plan; ghwf opens it as a draft PR. ";

pub const PREP_AND_PLAN_END: &'static str =
    " will \
     hand off and prompt for your approval when the plan is ready.";

pub const IMPLEMENT_PROSE: &'static str = "The workflow is in the **implement** phase: ";

pub const IMPLEMENT_TASK: &'static str =
    " codes the \
     change in the worktree, pushing to the draft PR as it goes. When it hands \
     off, review the PR and mark it ready for review to advance to the review \
     phase.";

pub const REVIEW_PROSE: &'static str =
    "The workflow is in the **review** phase: the PR is ready for human \
     review: ";

pub const REVIEW_END: &'static str = "\n\nMerging or closing the PR concludes the workflow.";

pub const REVIEW_ALONE: &'static str =
    "The workflow is in the **review** phase: the work is complete and \
     awaiting human review.";

/// How a concluded workflow is described to its users.
pub open spec fn conclusion_prose(outcome: PrOutcome) -> Seq<char> {
    match outcome {
        PrOutcome::Merged => MERGED_PROSE@,
        PrOutcome::Closed => CLOSED_PROSE@,
    }
}

/// The user-facing description of a concluded workflow. Mentions no approval
/// command: a concluded status is not a 👍 target.
pub fn conclusion_status_prose(outcome: PrOutcome) -> (r: String)
    ensures
        r@ == conclusion_prose(outcome),
{
    match outcome {
        PrOutcome::Merged => text::copy(MERGED_PROSE),
        PrOutcome::Closed => text::copy(CLOSED_PROSE),
    }
}

/// Where the workflow stands, as its users are told.
pub open spec fn phase_prose(
    agent: Seq<char>,
    phase: Phase,
    pr_url: Option<Seq<char>>,
) -> Seq<char> {
    match phase {
        Phase::PrePlan => PRE_PLAN_PROSE@ + agent + PRE_PLAN_TASK@,
        Phase::PrepAndPlan => PREP_AND_PLAN_PROSE@ + agent + PREP_AND_PLAN_TASK@ + agent
            + PREP_AND_PLAN_END@,
        Phase::Implement => IMPLEMENT_PROSE@ + agent + IMPLEMENT_TASK@,
        Phase::Review => match pr_url {
            Some(url) => REVIEW_PROSE@ + url + REVIEW_END@,
            None => REVIEW_ALONE@,
        },
        Phase::Finished => MERGED_PROSE@,
    }
}

/// A sentence about the agent.
fn about(lead: &str, agent: &str, end: &str) -> (r: String)
    ensures
        r@ == lead@ + agent@ + end@,
{
    let mut s = text::copy(lead);
    s.append(agent);
    s.append(end);
    s
}

/// The user-facing description of where the workflow stands and how the next
/// advance will arrive: the single source of that prose for status updates.
///
/// Status updates never prompt for an approval (and so are never 👍 targets):
/// the prompt belongs on the hand-off comment, once there is actually
/// something to approve.
pub fn phase_status_prose(agent: &str, phase: Phase, pr_url: Option<&str>) -> (r: String)
    ensures
        r@ == phase_prose(
            agent@,
            phase,
            match pr_url {
                Some(url) => Some(url@),
                None => None,
            },
        ),
{
    match phase {
        Phase::PrePlan => about(PRE_PLAN_PROSE, agent, PRE_PLAN_TASK),
        Phase::PrepAndPlan => {
            let mut s = about(PREP_AND_PLAN_PROSE, agent, PREP_AND_PLAN_TASK);
            s.append(agent);
            s.append(PREP_AND_PLAN_END);
            s
        },
        Phase::Implement => about(IMPLEMENT_PROSE, agent, IMPLEMENT_TASK),
        Phase::Review => match pr_url {
            Some(url) => {
                let mut s = text::copy(REVIEW_PROSE);
                s.append(url);
                s.append(REVIEW_END);
                s
            },
            None => text::copy(REVIEW_ALONE),
        },
        Phase::Finished => text::copy(MERGED_PROSE),
    }
}

/// A stale note whose command also fired a transition this run: the echo of the
/// same approval on the other thread.
pub open spec fn is_echo(note: DirectiveNote, transitions: Seq<Transition>) -> bool {
    note.kind == NoteKind::Stale && exists|i: int|
        0 <= i < transitions.len() && #[trigger] transitions[i].fired_by() == Some(note.command@)
}

/// The lines of the notes that are no echo.
pub open spec fn reported_notes(
    notes: Seq<DirectiveNote>,
    transitions: Seq<Transition>,
) -> Seq<Seq<char>>
    decreases notes.len(),
{
    if notes.len() == 0 {
        seq![]
    } else {
        let before = reported_notes(notes.drop_last(), transitions);
        if is_echo(notes.last(), transitions) {
            before
        } else {
            before.push(note_line(notes.last()))
        }
    }
}

/// The lines of the transitions.
pub open spec fn transition_paragraphs(ts: Seq<Transition>) -> Seq<Seq<char>> {
    Seq::new(ts.len(), |i: int| transition_line(ts[i]))
}

/// The text of a status update; nothing when there is nothing worth posting.
pub open spec fn status_text(
    agent: Seq<char>,
    phase: Phase,
    transitions: Seq<Transition>,
    notes: Seq<DirectiveNote>,
    intro: bool,
    pr_url: Option<Seq<char>>,
    conclusion: Option<PrOutcome>,
) -> Option<Seq<char>> {
    let reported = reported_notes(notes, transitions);
    if !intro && transitions.len() == 0 && reported.len() == 0 && conclusion is None {
        None
    } else {
        let opening: Seq<Seq<char>> = if intro {
            seq![INTRO@]
        } else {
            seq![]
        };
        let standing = match conclusion {
            Some(outcome) => conclusion_prose(outcome),
            None => phase_prose(agent, phase, pr_url),
        };
        Some(
            text::join(
                (opening + transition_paragraphs(transitions) + reported).push(standing),
                "\n\n"@,
            ),
        )
    }
}

/// Whether `note` echoes an approval that fired this run.
fn echoes(note: &DirectiveNote, transitions: &[Transition]) -> (r: bool)
    ensures
        r == is_echo(*note, transitions@),
{
    if note.kind != NoteKind::Stale {
        return false;
    }
    let mut i: usize = 0;
    while i < transitions.len()
        invariant
            i <= transitions.len(),
            note.kind == NoteKind::Stale,
            forall|j: int|
                0 <= j < i ==> #[trigger] transitions@[j].fired_by() != Some(note.command@),
        decreases transitions.len() - i,
    {
        if let Some(command) = transitions[i].command() {
            if text::same(command, note.command) {
                assert(transitions@[i as int].fired_by() == Some(note.command@));
                return true;
            }
        }
        i = i + 1;
    }
    false
}

/// Render the text of a status update for the conversation threads: what just
/// happened (transitions and misfired directives), the current phase, and what
/// the next approval triggers. `None` when there is nothing worth posting.
///
/// A newly observed PR `conclusion` is always worth posting; its prose replaces
/// the phase description, never prompting a further approval.
///
/// A stale note whose command also fired a transition this run is the
/// duplicate-across-threads echo: skipped, since the transition line already
/// tells the story.
pub fn render_status_comment(
    agent: &str,
    phase: Phase,
    transitions: &[Transition],
    notes: &[DirectiveNote],
    intro: bool,
    pr_url: Option<&str>,
    conclusion: Option<PrOutcome>,
) -> (r: Option<String>)
    ensures
        match r {
            Some(out) => status_text(
                agent@,
                phase,
                transitions@,
                notes@,
                intro,
                match pr_url {
                    Some(url) => Some(url@),
                    None => None,
                },
                conclusion,
            ) == Some(out@),
            None => status_text(
                agent@,
                phase,
                transitions@,
                notes@,
                intro,
                match pr_url {
                    Some(url) => Some(url@),
                    None => None,
                },
                conclusion,
            ) is None,
        },
{
    let mut paragraphs: Vec<String> = Vec::new();
    let ghost opening: Seq<Seq<char>> = if intro {
        seq![INTRO@]
    } else {
        seq![]
    };
    if intro {
        paragraphs.push(text::copy(INTRO));
    }
    assert(text::views(paragraphs@) =~= opening);
    let mut i: usize = 0;
    assert(transition_paragraphs(transitions@).take(0) =~= seq![]);
    while i < transitions.len()
        invariant
            i <= transitions.len(),
            text::views(paragraphs@) =~= opening + transition_paragraphs(transitions@).take(
                i as int,
            ),
        decreases transitions.len() - i,
    {
        let ghost before = paragraphs@;
        let line = render_transition(&transitions[i]);
        paragraphs.push(line);
        proof {
            text::lemma_views_push(before, line);
            assert(transition_paragraphs(transitions@).take(i + 1) =~= transition_paragraphs(
                transitions@,
            ).take(i as int).push(line@));
        }
        i = i + 1;
    }
    let ghost told = opening + transition_paragraphs(transitions@);
    assert(transition_paragraphs(transitions@).take(transitions@.len() as int)
        =~= transition_paragraphs(transitions@));
    let mut count: usize = 0;
    let mut k: usize = 0;
    assert(notes@.take(0) =~= seq![]);
    assert(text::views(paragraphs@) =~= told + reported_notes(notes@.take(0), transitions@));
    while k < notes.len()
        invariant
            k <= notes.len(),
            count <= k,
            count == reported_notes(notes@.take(k as int), transitions@).len(),
            text::views(paragraphs@) == told + reported_notes(notes@.take(k as int), transitions@),
        decreases notes.len() - k,
    {
        assert(notes@.take(k + 1).drop_last() =~= notes@.take(k as int));
        assert(notes@.take(k + 1).last() == notes@[k as int]);
        if !echoes(&notes[k], transitions) {
            let ghost before = paragraphs@;
            let line = render_note(&notes[k]);
            paragraphs.push(line);
            count = count + 1;
            proof {
                text::lemma_views_push(before, line);
                assert(text::views(paragraphs@) =~= told + reported_notes(
                    notes@.take(k + 1),
                    transitions@,
                ));
            }
        }
        k = k + 1;
    }
    assert(notes@.take(notes@.len() as int) =~= notes@);
    if !intro && transitions.len() == 0 && count == 0 && conclusion.is_none() {
        return None;
    }
    let standing = match conclusion {
        Some(outcome) => conclusion_status_prose(outcome),
        None => phase_status_prose(agent, phase, pr_url),
    };
    let ghost before = paragraphs@;
    paragraphs.push(standing);
    proof {
        text::lemma_views_push(before, standing);
    }
    Some(text::joined(&paragraphs, "\n\n"))
}

pub const PRE_PLAN_PROMPT: &'static str =
    "Next: comment `/approve-pre-plan` (alias `/approve-preplan`) — or react 👍 \
     to this comment — to advance to prep-and-plan, where a branch and worktree \
     are created and ";

pub const PRE_PLAN_PROMPT_END: &'static str =
    " writes an implementation plan, opened as a draft PR.";

pub const PLAN_PROMPT: &'static str =
    "Next: comment `/approve-plan` (on the issue or the PR) — or react 👍 to \
     this comment — to advance to implement, where ";

pub const PLAN_PROMPT_END: &'static str = " codes the change.";

pub const IMPLEMENT_PROMPT: &'static str =
    "Next: when you're happy with the change, mark the draft PR ready for \
     review (the \"Ready for review\" button) to advance to the review phase.";

pub const NO_BRANCH_PROMPT: &'static str =
    "The work is complete. With `--no-branch` there is no draft PR to mark \
     ready; review the change and close the issue (or merge it yourself) to \
     wrap up.";

/// The next-step paragraph of a hand-off comment.
pub open spec fn prompt(agent: Seq<char>, phase: Phase, no_branch: bool) -> Option<Seq<char>> {
    match phase {
        Phase::PrePlan => Some(PRE_PLAN_PROMPT@ + agent + PRE_PLAN_PROMPT_END@),
        Phase::PrepAndPlan => Some(PLAN_PROMPT@ + agent + PLAN_PROMPT_END@),
        Phase::Implement => if no_branch {
            Some(NO_BRANCH_PROMPT@)
        } else {
            Some(IMPLEMENT_PROMPT@)
        },
        _ => None,
    }
}

/// The text in its mathematical form.
pub open spec fn text_seen(s: Option<String>) -> Option<Seq<char>> {
    match s {
        Some(s) => Some(s@),
        None => None,
    }
}

/// The next-step paragraph appended to a hand-off comment: the single source of
/// approval-prompt prose, making the hand-off the thread's 👍 target where a
/// command applies. `None` when the phase has nothing to hand off (review: the
/// PR is already with the user).
pub fn hand_off_prompt(agent: &str, phase: Phase, no_branch: bool) -> (r: Option<String>)
    ensures
        text_seen(r) == prompt(agent@, phase, no_branch),
{
    match phase {
        Phase::PrePlan => Some(about(PRE_PLAN_PROMPT, agent, PRE_PLAN_PROMPT_END)),
        Phase::PrepAndPlan => Some(about(PLAN_PROMPT, agent, PLAN_PROMPT_END)),
        Phase::Implement => {
            // With no branch there is no draft PR to mark ready, so nothing
            // advances the phase mechanically.
            if no_branch {
                Some(text::copy(NO_BRANCH_PROMPT))
            } else {
                Some(text::copy(IMPLEMENT_PROMPT))
            }
        },
        _ => None,
    }
}

pub open spec fn primary_is_pr(phase: Phase) -> bool {
    phase == Phase::Implement || phase == Phase::Review || phase == Phase::Finished
}

/// Which conversation thread gets the full status update in this phase: the
/// issue while planning, the PR once code is in motion. The other thread gets
/// a one-line stub linking to it.
pub fn status_primary_is_pr(phase: Phase) -> (r: bool)
    ensures
        r == primary_is_pr(phase),
{
    match phase {
        Phase::Implement => true,
        Phase::Review => true,
        Phase::Finished => true,
        _ => false,
    }
}

/// The stub that points at the full status update.
pub open spec fn stub(
    transitions: Seq<Transition>,
    primary_noun: Seq<char>,
    full_url: Seq<char>,
) -> Seq<char> {
    if transitions.len() > 0 {
        "Phase advanced: "@ + transitions.first().from.name()@ + " → "@
            + transitions.last().to.name()@ + " — full update: "@ + full_url
    } else {
        "Status update posted on the "@ + primary_noun + ": "@ + full_url
    }
}

/// Render the one-line stub posted to the secondary conversation thread,
/// pointing at the full status update on the primary one. `primary_noun` is
/// "issue" or "PR"; `full_url` is where the full comment is. A run with several
/// transitions collapses to its endpoints.
pub fn render_status_stub(transitions: &[Transition], primary_noun: &str, full_url: &str) -> (r:
    String)
    ensures
        r@ == stub(transitions@, primary_noun@, full_url@),
{
    if transitions.len() > 0 {
        let mut out = text::copy("Phase advanced: ");
        out.append(transitions[0].from.label());
        out.append(" → ");
        out.append(transitions[transitions.len() - 1].to.label());
        out.append(" — full update: ");
        out.append(full_url);
        out
    } else {
        let mut out = text::copy("Status update posted on the ");
        out.append(primary_noun);
        out.append(": ");
        out.append(full_url);
        out
    }
}

/// A line behind a blockquote marker.
pub open spec fn quoted_line(line: Seq<char>) -> Seq<char> {
    if line.len() == 0 {
        ">"@
    } else {
        "> "@ + line
    }
}

/// `text` with every line behind a blockquote marker.
pub open spec fn quoted(text: Seq<char>) -> Seq<char> {
    if text::trim(text).len() == 0 {
        ">"@
    } else {
        text::join(
            Seq::new(text::lines(text).len(), |i: int| quoted_line(text::lines(text)[i])),
            "\n"@,
        )
    }
}

/// Prefix every line with a markdown blockquote marker.
pub fn blockquote(text: &str) -> (r: String)
    ensures
        r@ == quoted(text@),
{
    if text::is_blank(text) {
        return text::copy(">");
    }
    let lines = text::lines_of(text);
    let ghost all = text::lines(text@);
    let mut out: Vec<String> = Vec::new();
    let mut i: usize = 0;
    while i < lines.len()
        invariant
            i <= lines.len(),
            all == text::views(lines@),
            out.len() == i,
            forall|j: int| 0 <= j < i ==> #[trigger] out@[j]@ == quoted_line(all[j]),
        decreases lines.len() - i,
    {
        let line = lines[i].as_str();
        assert(all[i as int] == line@);
        let q = if line.is_empty() {
            text::copy(">")
        } else {
            let mut q = text::copy("> ");
            q.append(line);
            q
        };
        out.push(q);
        i = i + 1;
    }
    assert(text::views(out@) =~= Seq::new(all.len(), |i: int| quoted_line(all[i])));
    text::joined(&out, "\n")
}

/// The mark of a comment whose content changed.
pub open spec fn updated_tag(updated: bool) -> Seq<char> {
    if updated {
        " (updated)"@
    } else {
        ""@
    }
}

fn tag_of(updated: bool) -> (r: &'static str)
    ensures
        r@ == updated_tag(updated),
{
    if updated {
        " (updated)"
    } else {
        ""
    }
}

/// One comment of the digest.
pub open spec fn comment_entry(view: CommentView) -> Seq<char> {
    "\n**"@ + view.comment.user.login@ + "** at "@ + view.comment.created_at@ + " said"@
        + updated_tag(view.updated) + ":\n\n"@ + quoted(view.body@) + "\n"@
}

/// The comments of a section, with a rule between each two.
pub open spec fn comment_entries(views: Seq<CommentView>) -> Seq<char>
    decreases views.len(),
{
    if views.len() == 0 {
        seq![]
    } else {
        comment_entries(views.drop_last()) + (if views.len() > 1 {
            "\n<hr>\n"@
        } else {
            seq![]
        }) + comment_entry(views.last())
    }
}

/// A section of the digest; nothing where it has no comments.
pub open spec fn comment_section(
    prior: bool,
    heading: Seq<char>,
    views: Seq<CommentView>,
) -> Seq<char> {
    if views.len() == 0 {
        seq![]
    } else {
        (if prior {
            "\n<hr>\n"@
        } else {
            seq![]
        }) + "\n"@ + heading + "\n"@ + comment_entries(views)
    }
}

/// Render one thread's new-comments section under `heading`, separated by a
/// rule from any prior section.
pub fn render_comment_section(prior_section: bool, heading: &str, views: &[CommentView]) -> (r:
    String)
    ensures
        r@ == comment_section(prior_section, heading@, views@),
{
    if views.len() == 0 {
        return String::new();
    }
    let mut out = if prior_section {
        text::copy("\n<hr>\n")
    } else {
        String::new()
    };
    out.append("\n");
    out.append(heading);
    out.append("\n");
    let mut entries = String::new();
    let mut i: usize = 0;
    assert(views@.take(0) =~= seq![]);
    while i < views.len()
        invariant
            i <= views.len(),
            entries@ == comment_entries(views@.take(i as int)),
        decreases views.len() - i,
    {
        let rule = if i > 0 {
            text::copy("\n<hr>\n")
        } else {
            String::new()
        };
        entries.append(rule.as_str());
        let mut entry = text::copy("\n**");
        entry.append(views[i].comment.user.login.as_str());
        entry.append("** at ");
        entry.append(views[i].comment.created_at.as_str());
        entry.append(" said");
        entry.append(tag_of(views[i].updated));
        entry.append(":\n\n");
        entry.append(blockquote(views[i].body.as_str()).as_str());
        entry.append("\n");
        entries.append(entry.as_str());
        assert(views@.take(i + 1).drop_last() =~= views@.take(i as int));
        assert(views@.take(i + 1).last() == views@[i as int]);
        i = i + 1;
    }
    assert(views@.take(views@.len() as int) =~= views@);
    out.append(entries.as_str());
    out
}

/// One inline review comment of the digest.
pub open spec fn review_entry(view: ReviewCommentView) -> Seq<char> {
    "\n**"@ + view.comment.user.login@ + "** at "@ + view.comment.created_at@ + " said on `"@
        + view.location@ + "`"@ + updated_tag(view.updated) + ":\n\n"@ + quoted(view.body@)
        + "\n"@
}

/// The inline review comments, with a rule between each two.
pub open spec fn review_entries(views: Seq<ReviewCommentView>) -> Seq<char>
    decreases views.len(),
{
    if views.len() == 0 {
        seq![]
    } else {
        review_entries(views.drop_last()) + (if views.len() > 1 {
            "\n<hr>\n"@
        } else {
            seq![]
        }) + review_entry(views.last())
    }
}

pub const REVIEW_HEADING: &'static str =
    "\nNew inline review comments since you last ran `ghwf work-on`:\n";

/// The section of inline review comments; nothing where there are none.
pub open spec fn review_section(prior: bool, views: Seq<ReviewCommentView>) -> Seq<char> {
    if views.len() == 0 {
        seq![]
    } else {
        (if prior {
            "\n<hr>\n"@
        } else {
            seq![]
        }) + REVIEW_HEADING@ + review_entries(views)
    }
}

/// Render the section of inline review comments, separated by a rule from any
/// prior section.
pub fn render_review_section(prior_section: bool, views: &[ReviewCommentView]) -> (r: String)
    ensures
        r@ == review_section(prior_section, views@),
{
    if views.len() == 0 {
        return String::new();
    }
    let mut out = if prior_section {
        text::copy("\n<hr>\n")
    } else {
        String::new()
    };
    out.append(REVIEW_HEADING);
    let mut entries = String::new();
    let mut i: usize = 0;
    assert(views@.take(0) =~= seq![]);
    while i < views.len()
        invariant
            i <= views.len(),
            entries@ == review_entries(views@.take(i as int)),
        decreases views.len() - i,
    {
        let rule = if i > 0 {
            text::copy("\n<hr>\n")
        } else {
            String::new()
        };
        entries.append(rule.as_str());
        let mut entry = text::copy("\n**");
        entry.append(views[i].comment.user.login.as_str());
        entry.append("** at ");
        entry.append(views[i].comment.created_at.as_str());
        entry.append(" said on `");
        entry.append(views[i].location.as_str());
        entry.append("`");
        entry.append(tag_of(views[i].updated));
        entry.append(":\n\n");
        entry.append(blockquote(views[i].body.as_str()).as_str());
        entry.append("\n");
        entries.append(entry.as_str());
        assert(views@.take(i + 1).drop_last() =~= views@.take(i as int));
        assert(views@.take(i + 1).last() == views@[i as int]);
        i = i + 1;
    }
    assert(views@.take(views@.len() as int) =~= views@);
    out.append(entries.as_str());
    out
}

pub const ISSUE_HEADING: &'static str =
    "New comments on the issue thread since you last ran `ghwf work-on`:";

/// The heading of the PR's conversation section.
pub open spec fn pr_heading(pr: nat) -> Seq<char> {
    "New comments on the PR (#"@ + text::decimal(pr)
        + ") conversation thread since you last ran `ghwf work-on`:"@
}

/// The issue's own body, as the digest quotes it.
pub open spec fn body_section(issue: Issue, body_changed: bool) -> Seq<char> {
    if body_changed {
        "\nIssue body by "@ + issue.user.login@ + ":\n\n"@ + quoted(
            match issue.body {
                Some(body) => body@,
                None => ""@,
            },
        ) + "\n"@
    } else {
        seq![]
    }
}

/// The markdown digest of what is new or changed across the threads.
pub open spec fn digest(
    issue: Issue,
    body_changed: bool,
    new_issue: Seq<CommentView>,
    pr_number: Option<u64>,
    new_pr: Seq<CommentView>,
    new_review: Seq<ReviewCommentView>,
) -> Seq<char> {
    if !body_changed && new_issue.len() == 0 && new_pr.len() == 0 && new_review.len() == 0 {
        "No new activity on issue #"@ + text::decimal(issue.number as nat) + " \""@ + issue.title@
            + "\""@ + (match pr_number {
            Some(pr) => " or PR #"@ + text::decimal(pr as nat),
            None => ""@,
        }) + " since you last ran `ghwf work-on`."@
    } else {
        let on_pr = pr_number is Some && new_pr.len() > 0;
        text::trim_end(
            "## #"@ + text::decimal(issue.number as nat) + ": "@ + issue.title@ + "  ("@
                + issue.state@ + ")\n"@ + body_section(issue, body_changed) + comment_section(
                body_changed,
                ISSUE_HEADING@,
                new_issue,
            ) + (match pr_number {
                Some(pr) => comment_section(
                    body_changed || new_issue.len() > 0,
                    pr_heading(pr as nat),
                    new_pr,
                ),
                None => seq![],
            }) + review_section(body_changed || new_issue.len() > 0 || on_pr, new_review),
        )
    }
}

/// Render the markdown digest of what's new or changed across the threads: the
/// issue and, once a PR exists, its conversation thread and inline review
/// comments too. The issue is always the primary subject (header + body); the
/// PR's body is never digested.
pub fn render_work_on(
    issue: &Issue,
    body_changed: bool,
    new_issue: &[CommentView],
    pr_number: Option<u64>,
    new_pr: &[CommentView],
    new_review: &[ReviewCommentView],
) -> (r: String)
    ensures
        r@ == digest(*issue, body_changed, new_issue@, pr_number, new_pr@, new_review@),
{
    if !body_changed && new_issue.len() == 0 && new_pr.len() == 0 && new_review.len() == 0 {
        let or_pr = match pr_number {
            Some(pr) => {
                let mut s = text::copy(" or PR #");
                s.append(text::number(pr).as_str());
                s
            },
            None => text::copy(""),
        };
        let mut out = text::copy("No new activity on issue #");
        out.append(text::number(issue.number).as_str());
        out.append(" \"");
        out.append(issue.title.as_str());
        out.append("\"");
        out.append(or_pr.as_str());
        out.append(" since you last ran `ghwf work-on`.");
        return out;
    }
    let body = if body_changed {
        let mut s = text::copy("\nIssue body by ");
        s.append(issue.user.login.as_str());
        s.append(":\n\n");
        let quote = match &issue.body {
            Some(body) => blockquote(body.as_str()),
            None => blockquote(""),
        };
        s.append(quote.as_str());
        s.append("\n");
        s
    } else {
        String::new()
    };
    let mut prior_section = body_changed;
    let on_issue = render_comment_section(prior_section, ISSUE_HEADING, new_issue);
    prior_section = prior_section || new_issue.len() > 0;
    let on_pr = match pr_number {
        Some(pr) => {
            let mut heading = text::copy("New comments on the PR (#");
            heading.append(text::number(pr).as_str());
            heading.append(") conversation thread since you last ran `ghwf work-on`:");
            let section = render_comment_section(prior_section, heading.as_str(), new_pr);
            prior_section = prior_section || new_pr.len() > 0;
            section
        },
        None => String::new(),
    };
    let mut out = text::copy("## #");
    out.append(text::number(issue.number).as_str());
    out.append(": ");
    out.append(issue.title.as_str());
    out.append("  (");
    out.append(issue.state.as_str());
    out.append(")\n");
    out.append(body.as_str());
    out.append(on_issue.as_str());
    out.append(on_pr.as_str());
    out.append(render_review_section(prior_section, new_review).as_str());
    text::trimmed_end(out.as_str())
}

/// Every status comment carries the status marker, whatever its text.
pub proof fn status_comments_carry_the_marker(text: Seq<char>)
    ensures
        marker_of(status_body(text)) == Some(MarkerView::Status),
{
    let body = status_body(text);
    let at = body.len() - STATUS_MARKER@.len();
    assert(body.subrange(at, at + STATUS_MARKER@.len()) =~= STATUS_MARKER@);
    assert(text::at(body, STATUS_MARKER@, at));
}

/// Status comments are hidden from every session, and outside of one.
pub proof fn status_comments_are_always_hidden(text: Seq<char>, token: Option<Seq<char>>)
    ensures
        hidden(status_body(text), token),
{
    status_comments_carry_the_marker(text);
}

/// The line of a session marker.
spec fn marker_line(token: Seq<char>) -> Seq<char> {
    SESSION_MARKER_PREFIX@ + token + MARKER_SUFFIX@
}

/// The first line of an agent-authored comment.
spec fn headline(agent: Seq<char>) -> Seq<char> {
    "**"@ + agent + " says:**"@
}

/// An agent-authored comment, line by line, from the second one on.
spec fn after_headline(shown: Seq<char>, token: Seq<char>) -> Seq<char> {
    "<hr>"@ + "\n"@ + (""@ + "\n"@ + (shown + "\n"@ + (""@ + "\n"@ + marker_line(token))))
}

/// An agent-authored comment, line by line.
spec fn comment_in_lines(agent: Seq<char>, shown: Seq<char>, token: Seq<char>) -> Seq<char> {
    headline(agent) + "\n"@ + after_headline(shown, token)
}

proof fn lemma_comment_in_lines(agent: Seq<char>, user_body: Seq<char>, token: Seq<char>)
    ensures
        comment_body(agent, user_body, Some(token)) == comment_in_lines(
            agent,
            text::trim(user_body),
            token,
        ),
        agent_header(agent).len() == agent.len() + 17,
{
    reveal_strlit("**");
    reveal_strlit(" says:**\n<hr>\n\n");
    reveal_strlit(" says:**");
    reveal_strlit("<hr>");
    reveal_strlit("");
    reveal_strlit("\n");
    reveal_strlit("\n\n");
    let told = text::trim(user_body);
    assert(" says:**\n<hr>\n\n"@ =~= " says:**"@ + "\n"@ + ("<hr>"@ + "\n"@ + (""@ + "\n"@)));
    assert("\n\n"@ =~= "\n"@ + (""@ + "\n"@));
    assert(comment_body(agent, user_body, Some(token)) =~= comment_in_lines(agent, told, token));
}

/// A name is followed by no marker: the headline holds none.
proof fn lemma_no_marker_in_headline(agent: Seq<char>, p: Seq<char>)
    requires
        is_name(agent),
        p.len() > 0,
        p[0] == '<',
    ensures
        !text::contains(headline(agent), p),
{
    reveal_strlit("**");
    reveal_strlit(" says:**");
    let line = headline(agent);
    assert forall|j: int| !text::at(line, p, j) by {
        if text::at(line, p, j) {
            assert(line.subrange(j, j + p.len())[0] == line[j]);
            if 2 <= j < 2 + agent.len() {
                assert(line[j] == agent[j - 2]);
            }
        }
    }
}

/// A marker that is not in what is shown, and stands first in the marker's line,
/// stands first in the comment there.
proof fn lemma_first_in_marker_line(
    agent: Seq<char>,
    shown: Seq<char>,
    token: Seq<char>,
    p: Seq<char>,
)
    requires
        is_name(agent),
        text::one_line(p),
        p.len() > 4,
        p[0] == '<',
        !text::contains(shown, p),
        text::is_first(marker_line(token), p, 0),
    ensures
        text::is_first(
            comment_in_lines(agent, shown, token),
            p,
            agent.len() + 19 + shown.len() as int,
        ),
{
    reveal_strlit("**");
    reveal_strlit(" says:**");
    reveal_strlit("<hr>");
    reveal_strlit("");
    let l1 = ""@ + "\n"@ + marker_line(token);
    let l2 = shown + "\n"@ + l1;
    let l3 = ""@ + "\n"@ + l2;
    let l4 = "<hr>"@ + "\n"@ + l3;
    lemma_no_marker_in_headline(agent, p);
    text::lemma_too_long(""@, p);
    text::lemma_too_long("<hr>"@, p);
    text::lemma_first_behind_line(""@, marker_line(token), p, 0);
    text::lemma_first_behind_line(shown, l1, p, 1);
    text::lemma_first_behind_line(""@, l2, p, shown.len() as int + 2);
    text::lemma_first_behind_line("<hr>"@, l3, p, shown.len() as int + 3);
    assert(l4 == after_headline(shown, token));
    text::lemma_first_behind_line(headline(agent), l4, p, shown.len() as int + 8);
}

proof fn lemma_nowhere_in_comment(
    agent: Seq<char>,
    shown: Seq<char>,
    token: Seq<char>,
    p: Seq<char>,
)
    requires
        is_name(agent),
        text::one_line(p),
        p.len() > 4,
        p[0] == '<',
        !text::contains(shown, p),
        !text::contains(marker_line(token), p),
    ensures
        !text::contains(comment_in_lines(agent, shown, token), p),
{
    reveal_strlit("<hr>");
    reveal_strlit("");
    let l1 = ""@ + "\n"@ + marker_line(token);
    let l2 = shown + "\n"@ + l1;
    let l3 = ""@ + "\n"@ + l2;
    let l4 = "<hr>"@ + "\n"@ + l3;
    lemma_no_marker_in_headline(agent, p);
    text::lemma_too_long(""@, p);
    text::lemma_too_long("<hr>"@, p);
    text::lemma_not_on_lines(""@, marker_line(token), p);
    text::lemma_not_on_lines(shown, l1, p);
    text::lemma_not_on_lines(""@, l2, p);
    text::lemma_not_on_lines("<hr>"@, l3, p);
    assert(l4 == after_headline(shown, token));
    text::lemma_not_on_lines(headline(agent), l4, p);
}

/// A token that can be told from what is around it: it holds neither the end of a
/// marker nor the beginning of one.
pub open spec fn is_token(token: Seq<char>) -> bool {
    !text::contains(token, MARKER_SUFFIX@) && !text::contains(token, MARKER_SCAN_PREFIX@)
}

/// A session's marker line is no status marker.
proof fn lemma_marker_line_is_no_status(token: Seq<char>)
    requires
        is_token(token),
    ensures
        !text::contains(marker_line(token), STATUS_MARKER@),
{
    reveal_strlit("<!-- ghwf:v1 session=");
    reveal_strlit("<!-- ghwf:v1 status -->");
    reveal_strlit("<!-- ghwf:v1 ");
    reveal_strlit(" -->");
    let line = marker_line(token);
    let s = STATUS_MARKER@;
    let p = MARKER_SCAN_PREFIX@;
    let n = SESSION_MARKER_PREFIX@.len() as int;
    assert forall|j: int| !text::at(line, s, j) by {
        if text::at(line, s, j) {
            let w = line.subrange(j, j + s.len());
            assert(w == s);
            assert(w[0] == line[j] && w[14] == line[j + 14]);
            if j < n {
                assert(line[j] == SESSION_MARKER_PREFIX@[j]);
                assert(j == 0);
            } else {
                assert(token.subrange(j - n, j - n + p.len()) =~= w.take(p.len() as int));
                assert(w.take(p.len() as int) =~= p);
                assert(text::at(token, p, j - n));
            }
        }
    }
}

/// Behind a token, the end of its marker comes first.
proof fn lemma_token_ends_at_suffix(token: Seq<char>)
    requires
        is_token(token),
    ensures
        text::is_first(token + MARKER_SUFFIX@, MARKER_SUFFIX@, token.len() as int),
{
    reveal_strlit(" -->");
    let e = MARKER_SUFFIX@;
    let rest = token + e;
    assert(rest.subrange(token.len() as int, token.len() as int + 4) =~= e);
    assert forall|j: int| 0 <= j < token.len() implies !text::at(rest, e, j) by {
        if text::at(rest, e, j) {
            let w = rest.subrange(j, j + 4);
            assert(w == e);
            assert(w[0] == rest[j] && w[1] == rest[j + 1] && w[2] == rest[j + 2] && w[3] == rest[j
                + 3]);
            if j + 4 <= token.len() {
                assert(token.subrange(j, j + 4) =~= w);
                assert(text::at(token, e, j));
            } else {
                assert(rest[token.len() as int] == ' ');
            }
        }
    }
}

/// The marker of a posted comment is the session's that posted it: what was
/// tagged with a token reads back as that token.
pub proof fn session_markers_read_back(agent: Seq<char>, user_body: Seq<char>, token: Seq<char>)
    requires
        is_name(agent),
        is_token(token),
        !text::contains(text::trim(user_body), STATUS_MARKER@),
        !text::contains(text::trim(user_body), SESSION_MARKER_PREFIX@),
    ensures
        marker_of(comment_body(agent, user_body, Some(token))) == Some(MarkerView::Session(token)),
        hidden(comment_body(agent, user_body, Some(token)), Some(token)),
        forall|other: Seq<char>|
            #![trigger hidden(comment_body(agent, user_body, Some(token)), Some(other))]
            other != token ==> !hidden(comment_body(agent, user_body, Some(token)), Some(other)),
        !hidden(comment_body(agent, user_body, Some(token)), None),
{
    let body = comment_body(agent, user_body, Some(token));
    let told = text::trim(user_body);
    lemma_comment_in_lines(agent, user_body, token);
    lemma_marker_line_is_no_status(token);
    reveal_strlit("<!-- ghwf:v1 session=");
    reveal_strlit("<!-- ghwf:v1 status -->");
    reveal_strlit(" -->");
    lemma_nowhere_in_comment(agent, told, token, STATUS_MARKER@);
    let p = SESSION_MARKER_PREFIX@;
    let line = marker_line(token);
    assert(line.subrange(0, p.len() as int) =~= p);
    lemma_first_in_marker_line(agent, told, token, p);
    let at = agent.len() + 19 + told.len() as int;
    text::lemma_find(body, p, at);
    let rest = body.skip(at + p.len());
    assert(rest =~= token + MARKER_SUFFIX@) by {
        reveal_strlit("\n\n");
    }
    lemma_token_ends_at_suffix(token);
    text::lemma_find(rest, MARKER_SUFFIX@, token.len() as int);
    assert(rest.take(token.len() as int) =~= token);
}

/// What is shown of a posted comment is its header and what the user wrote.
pub proof fn posted_comments_show_what_was_written(
    agent: Seq<char>,
    user_body: Seq<char>,
    token: Seq<char>,
)
    requires
        is_name(agent),
        !text::contains(text::trim(user_body), MARKER_SCAN_PREFIX@),
    ensures
        shown(comment_body(agent, user_body, Some(token))) == text::trim_end(
            agent_header(agent) + text::trim(user_body),
        ),
{
    let body = comment_body(agent, user_body, Some(token));
    let told = text::trim(user_body);
    lemma_comment_in_lines(agent, user_body, token);
    reveal_strlit("<!-- ghwf:v1 session=");
    reveal_strlit("<!-- ghwf:v1 ");
    let p = MARKER_SCAN_PREFIX@;
    let line = marker_line(token);
    assert(line.subrange(0, 13) =~= p);
    lemma_first_in_marker_line(agent, told, token, p);
    let at = agent.len() + 19 + told.len() as int;
    text::lemma_find(body, p, at);
    reveal_strlit("\n\n");
    let kept = agent_header(agent) + told;
    assert(body.take(at) =~= kept.push('\n').push('\n'));
    text::lemma_trim_end_push(kept, '\n');
    text::lemma_trim_end_push(kept.push('\n'), '\n');
}

/// No `N` is in `s`.
spec fn no_capital_n(s: Seq<char>) -> bool {
    forall|i: int| 0 <= i < s.len() ==> #[trigger] s[i] != 'N'
}

/// What prompts for an approval begins with an `N`.
proof fn lemma_no_n_no_prompt(s: Seq<char>)
    requires
        no_capital_n(s),
    ensures
        crate::state::prompted_directive(s) is None,
{
    reveal_strlit("Next: comment `/approve-pre-plan`");
    reveal_strlit("Next: comment `/approve-plan`");
    let a = "Next: comment `/approve-pre-plan`"@;
    let b = "Next: comment `/approve-plan`"@;
    assert forall|j: int| !text::at(s, a, j) && !text::at(s, b, j) by {
        if text::at(s, a, j) {
            assert(s.subrange(j, j + a.len())[0] == s[j]);
        }
        if text::at(s, b, j) {
            assert(s.subrange(j, j + b.len())[0] == s[j]);
        }
    }
}

/// Two texts that prompt for nothing, on lines of their own, prompt for nothing.
proof fn lemma_no_prompt_on_lines(a: Seq<char>, b: Seq<char>)
    requires
        crate::state::prompted_directive(a) is None,
        crate::state::prompted_directive(b) is None,
    ensures
        crate::state::prompted_directive(a + "\n"@ + b) is None,
{
    reveal_strlit("Next: comment `/approve-pre-plan`");
    reveal_strlit("Next: comment `/approve-plan`");
    text::lemma_not_on_lines(a, b, "Next: comment `/approve-pre-plan`"@);
    text::lemma_not_on_lines(a, b, "Next: comment `/approve-plan`"@);
}

/// What prompts for nothing still does so behind a text without an `N`.
proof fn lemma_no_prompt_behind(a: Seq<char>, b: Seq<char>)
    requires
        no_capital_n(a),
        crate::state::prompted_directive(b) is None,
    ensures
        crate::state::prompted_directive(a + b) is None,
{
    reveal_strlit("Next: comment `/approve-pre-plan`");
    reveal_strlit("Next: comment `/approve-plan`");
    let s = a + b;
    let n = a.len() as int;
    assert forall|p: Seq<char>, j: int|
        p.len() > 0 && p[0] == 'N' && #[trigger] text::at(s, p, j) implies text::contains(b, p) by {
        assert(s.subrange(j, j + p.len())[0] == s[j]);
        if j < n {
            assert(a[j] != 'N');
        }
        assert(b.subrange(j - n, j - n + p.len()) =~= s.subrange(j, j + p.len()));
        assert(text::at(b, p, j - n));
    }
}

/// No backtick is in `s`.
spec fn no_tick(s: Seq<char>) -> bool {
    forall|i: int| 0 <= i < s.len() ==> #[trigger] s[i] != '`'
}

/// What prompts for an approval holds a backtick.
proof fn lemma_no_tick_no_prompt(s: Seq<char>)
    requires
        no_tick(s),
    ensures
        crate::state::prompted_directive(s) is None,
{
    reveal_strlit("Next: comment `/approve-pre-plan`");
    reveal_strlit("Next: comment `/approve-plan`");
    let a = "Next: comment `/approve-pre-plan`"@;
    let b = "Next: comment `/approve-plan`"@;
    assert forall|j: int| !text::at(s, a, j) && !text::at(s, b, j) by {
        if text::at(s, a, j) {
            assert(s.subrange(j, j + a.len())[14] == s[j + 14]);
        }
        if text::at(s, b, j) {
            assert(s.subrange(j, j + b.len())[14] == s[j + 14]);
        }
    }
}

/// The hand-off prompt of a phase that a command approves asks for that very
/// approval; no other prompt asks for one. So a 👍 on a hand-off approves the
/// phase it was posted in, or nothing.
pub proof fn hand_off_prompts_ask_for_their_phase(agent: Seq<char>, phase: Phase, no_branch: bool)
    requires
        is_name(agent),
    ensures
        prompt(agent, phase, no_branch) matches Some(asked) ==> (
        match crate::state::prompted_directive(asked) {
            Some(directive) => directive.approved() == Some(phase),
            None => phase.command() is None,
        }),
{
    reveal_strlit("Next: comment `/approve-pre-plan`");
    reveal_strlit("Next: comment `/approve-plan`");
    let a = "Next: comment `/approve-pre-plan`"@;
    let b = "Next: comment `/approve-plan`"@;
    match phase {
        Phase::PrePlan => {
            reveal_strlit(
"Next: comment `/approve-pre-plan` (alias `/approve-preplan`) — or react 👍 \
     to this comment — to advance to prep-and-plan, where a branch and worktree \
     are created and ",
);
            let t = PRE_PLAN_PROMPT@ + agent + PRE_PLAN_PROMPT_END@;
            assert(t.subrange(0, a.len() as int) =~= a);
            assert(text::at(t, a, 0));
        },
        Phase::PrepAndPlan => {
            reveal_strlit(
"Next: comment `/approve-plan` (on the issue or the PR) — or react 👍 to \
     this comment — to advance to implement, where ",
);
            reveal_strlit(" codes the change.");
            let lead = PLAN_PROMPT@;
            let t = lead + agent + PLAN_PROMPT_END@;
            assert(t.subrange(0, b.len() as int) =~= b);
            assert(text::at(t, b, 0));
            assert forall|j: int| !text::at(t, a, j) by {
                if text::at(t, a, j) {
                    let w = t.subrange(j, j + a.len());
                    assert(w == a);
                    assert(w[0] == t[j]);
                    assert(w[14] == t[j + 14]);
                    assert(w[25] == t[j + 25]);
                    if j + 14 < lead.len() {
                        assert(t[j + 14] == lead[j + 14]);
                        assert(t[j] == lead[j]);
                    } else if j + 14 < lead.len() + agent.len() {
                        assert(t[j + 14] == agent[j + 14 - lead.len()]);
                    } else {
                        assert(t[j + 14] == PLAN_PROMPT_END@[j + 14 - lead.len() - agent.len()]);
                    }
                }
            }
        },
        Phase::Implement => {
            if no_branch {
                reveal_strlit(
"The work is complete. With `--no-branch` there is no draft PR to mark \
     ready; review the change and close the issue (or merge it yourself) to \
     wrap up.",
);
                lemma_no_n_no_prompt(NO_BRANCH_PROMPT@);
            } else {
                reveal_strlit(
"Next: when you're happy with the change, mark the draft PR ready for \
     review (the \"Ready for review\" button) to advance to the review phase.",
);
                let t = IMPLEMENT_PROMPT@;
                assert forall|j: int| !text::at(t, a, j) && !text::at(t, b, j) by {
                    if text::at(t, a, j) {
                        let w = t.subrange(j, j + a.len());
                        assert(w[0] == t[j]);
                        assert(w[6] == t[j + 6]);
                    }
                    if text::at(t, b, j) {
                        let w = t.subrange(j, j + b.len());
                        assert(w[0] == t[j]);
                        assert(w[6] == t[j + 6]);
                    }
                }
            }
        },
        _ => {},
    }
}

/// A sentence about an agent holds no backtick where its parts hold none.
proof fn lemma_sentence_has_no_tick(lead: Seq<char>, agent: Seq<char>, end: Seq<char>)
    requires
        no_tick(lead),
        is_name(agent),
        no_tick(end),
    ensures
        no_tick(lead + agent + end),
{
    let s = lead + agent + end;
    assert forall|i: int| 0 <= i < s.len() implies #[trigger] s[i] != '`' by {
        if i < lead.len() {
            assert(s[i] == lead[i]);
        } else if i < lead.len() + agent.len() {
            assert(s[i] == agent[i - lead.len()]);
        } else {
            assert(s[i] == end[i - lead.len() - agent.len()]);
        }
    }
}

/// Where the workflow stands, and that it is concluded, is told without a
/// prompt: a status update is no 👍 target.
pub proof fn status_prose_never_prompts(
    agent: Seq<char>,
    phase: Phase,
    pr_url: Option<Seq<char>>,
    outcome: PrOutcome,
)
    requires
        is_name(agent),
        pr_url matches Some(url) ==> crate::state::prompted_directive(url) is None,
    ensures
        crate::state::prompted_directive(phase_prose(agent, phase, pr_url)) is None,
        crate::state::prompted_directive(conclusion_prose(outcome)) is None,
{
    reveal_strlit(
"The PR was merged; the workflow for this issue is **complete**.",
);
    lemma_no_n_no_prompt(MERGED_PROSE@);
    reveal_strlit(
"The PR was closed without being merged; the workflow has \
     **halted**. Reopening the PR resumes it.",
);
    lemma_no_n_no_prompt(CLOSED_PROSE@);
    match phase {
        Phase::PrePlan => {
            reveal_strlit("The workflow is in the **pre-plan** phase: ");
            reveal_strlit(
" gathers the \
     information needed to write a plan and posts its understanding here. When it \
     has enough, it will hand off and prompt for your approval to advance to \
     prep-and-plan.",
);
            lemma_sentence_has_no_tick(PRE_PLAN_PROSE@, agent, PRE_PLAN_TASK@);
            lemma_no_tick_no_prompt(phase_prose(agent, phase, pr_url));
        },
        Phase::PrepAndPlan => {
            reveal_strlit("The workflow is in the **prep-and-plan** phase: ");
            reveal_strlit(
" is \
     writing the implementation plan; ghwf opens it as a draft PR. ",
);
            reveal_strlit(
" will \
     hand off and prompt for your approval when the plan is ready.",
);
            lemma_sentence_has_no_tick(PREP_AND_PLAN_PROSE@, agent, PREP_AND_PLAN_TASK@);
            let first = PREP_AND_PLAN_PROSE@ + agent + PREP_AND_PLAN_TASK@;
            lemma_sentence_has_no_tick(first, agent, PREP_AND_PLAN_END@);
            lemma_no_tick_no_prompt(phase_prose(agent, phase, pr_url));
        },
        Phase::Implement => {
            reveal_strlit("The workflow is in the **implement** phase: ");
            reveal_strlit(
" codes the \
     change in the worktree, pushing to the draft PR as it goes. When it hands \
     off, review the PR and mark it ready for review to advance to the review \
     phase.",
);
            lemma_sentence_has_no_tick(IMPLEMENT_PROSE@, agent, IMPLEMENT_TASK@);
            lemma_no_tick_no_prompt(phase_prose(agent, phase, pr_url));
        },
        Phase::Review => match pr_url {
            Some(url) => {
                reveal_strlit(
"The workflow is in the **review** phase: the PR is ready for human \
     review: ",
);
                reveal_strlit("\n\nMerging or closing the PR concludes the workflow.");
                reveal_strlit("\n");
                let end = REVIEW_END@.skip(1);
                assert(REVIEW_END@ =~= "\n"@ + end);
                assert(no_capital_n(end)) by {
                    assert forall|i: int| 0 <= i < end.len() implies #[trigger] end[i] != 'N' by {
                        assert(end[i] == REVIEW_END@[i + 1]);
                    }
                }
                lemma_no_n_no_prompt(end);
                lemma_no_prompt_on_lines(url, end);
                lemma_no_prompt_behind(REVIEW_PROSE@, url + "\n"@ + end);
                assert(phase_prose(agent, phase, pr_url) =~= REVIEW_PROSE@ + (url + "\n"@ + end));
            },
            None => {
                reveal_strlit(
"The workflow is in the **review** phase: the work is complete and \
     awaiting human review.",
);
                lemma_no_n_no_prompt(REVIEW_ALONE@);
            },
        },
        Phase::Finished => {},
    }
}

/// A status update that reports no directive prompts for nothing, with or
/// without its introduction.
pub proof fn quiet_status_updates_never_prompt(
    agent: Seq<char>,
    phase: Phase,
    intro: bool,
    pr_url: Option<Seq<char>>,
    conclusion: Option<PrOutcome>,
)
    requires
        is_name(agent),
        pr_url matches Some(url) ==> crate::state::prompted_directive(url) is None,
    ensures
        status_text(agent, phase, seq![], seq![], intro, pr_url, conclusion) matches Some(told)
            ==> crate::state::prompted_directive(told) is None,
{
    status_prose_never_prompts(
        agent,
        phase,
        pr_url,
        match conclusion {
            Some(outcome) => outcome,
            None => PrOutcome::Merged,
        },
    );
    let standing = match conclusion {
        Some(outcome) => conclusion_prose(outcome),
        None => phase_prose(agent, phase, pr_url),
    };
    let nothing = reported_notes(seq![], seq![]);
    assert(nothing =~= seq![]);
    assert(transition_paragraphs(seq![]) =~= seq![]);
    reveal_strlit("\n\n");
    reveal_strlit("\n");
    if intro {
        let all = (seq![INTRO@] + transition_paragraphs(seq![]) + nothing).push(standing);
        assert(all =~= seq![INTRO@, standing]);
        assert(all.drop_last() =~= seq![INTRO@]);
        assert(text::join(all.drop_last(), "\n\n"@) == INTRO@);
        let none = Seq::<char>::empty();
        assert(text::join(all, "\n\n"@) =~= INTRO@ + "\n"@ + (none + "\n"@ + standing));
        reveal_strlit(
"ghwf is tracking this issue; status updates like this one are posted as the \
     workflow advances.",
);
        lemma_no_n_no_prompt(INTRO@);
        lemma_no_n_no_prompt(none);
        lemma_no_prompt_on_lines(none, standing);
        lemma_no_prompt_on_lines(INTRO@, none + "\n"@ + standing);
    } else {
        let all = (Seq::<Seq<char>>::empty() + transition_paragraphs(seq![]) + nothing).push(
            standing,
        );
        assert(all =~= seq![standing]);
    }
}

} // verus!
