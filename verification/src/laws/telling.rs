//! What is told: posts and their marks, status updates, the digest.

use vstd::prelude::*;

use crate::laws::texts::{
    lemma_fill_one, lemma_fill_within, lemma_joined, lemma_trim_end_keeps, lemma_wider,
    lemma_within,
};
use crate::models::Issue;
use crate::render::{
    self, CommentView, DirectiveNote, IgnoredInput, Marker, NoteKind, ReviewCommentView,
    Transition, Trigger,
};
use crate::state::{Phase, PrOutcome};
use crate::text;

verus! {

/// A post begins with who says it, goes on with what is said, trimmed, and ends with the
/// session's mark, where there is a session.
pub proof fn posts_carry_the_sessions_mark(agent: &str, body: &str, token: Option<&str>, r: String)
    requires
        call_ensures(render::build_comment_body, (agent, body, token), r),
    ensures
        token is Some ==> r@ == "**"@ + agent@ + " says:**\n<hr>\n\n"@ + text::trim(body@)
            + "\n\n"@ + "<!-- ghwf:v1 session="@ + token->0@ + " -->"@,
        token is None ==> r@ == "**"@ + agent@ + " says:**\n<hr>\n\n"@ + text::trim(body@),
{
}

/// A session's mark is read back from its post, which is hidden from it and from no
/// other session.
pub proof fn sessions_know_their_own_posts(
    agent: &str,
    body: &str,
    token: &str,
    r: String,
    posted: &str,
    m: Option<Marker>,
    other: Option<&str>,
    hidden: bool,
)
    requires
        forall|i: int|
            0 <= i < agent@.len() ==> ('A' <= (#[trigger] agent@[i]) && agent@[i] <= 'Z') || ('a'
                <= agent@[i] && agent@[i] <= 'z'),
        !text::contains(token@, " -->"@),
        !text::contains(token@, "<!-- ghwf:v1 "@),
        !text::contains(text::trim(body@), "<!-- ghwf:v1 status -->"@),
        !text::contains(text::trim(body@), "<!-- ghwf:v1 session="@),
        call_ensures(render::build_comment_body, (agent, body, Some(token)), r),
        posted@ == r@,
        call_ensures(render::extract_marker, (posted,), m),
        call_ensures(render::hidden_from_digest, (posted, other), hidden),
    ensures
        m matches Some(Marker::Session(t)) && t@ == token@,
        hidden <==> other is Some && other->0@ == token@,
{
    render::session_markers_read_back(agent@, body@, token@);
    if other is Some && other->0@ != token@ {
        assert(!render::hidden(
            render::comment_body(agent@, body@, Some(token@)),
            Some(other->0@),
        ));
    }
}

/// A status update ends with its own mark, and is hidden from every session.
pub proof fn status_updates_are_hidden(
    body: &str,
    r: String,
    posted: &str,
    m: Option<Marker>,
    token: Option<&str>,
    hidden: bool,
)
    requires
        call_ensures(render::build_status_comment_body, (body,), r),
        posted@ == r@,
        call_ensures(render::extract_marker, (posted,), m),
        call_ensures(render::hidden_from_digest, (posted, token), hidden),
    ensures
        r@ == "**ghwf:**\n<hr>\n\n"@ + text::trim(body@) + "\n\n"@ + "<!-- ghwf:v1 status -->"@,
        m matches Some(Marker::Status),
        hidden,
{
    render::status_comments_carry_the_marker(body@);
}

/// A step says from where to where it went, and what made it.
pub proof fn steps_say_what_made_them(t: &Transition, r: String)
    requires
        call_ensures(render::render_transition, (t,), r),
    ensures
        t.trigger is PrReady ==> r@ == "Phase advanced: "@ + t.from.name()@ + " → "@
            + t.to.name()@ + " (triggered by "@ + "the PR being marked ready for review"@ + ")."@,
        t.trigger matches Trigger::Directive { command, by, via_reaction } ==> if via_reaction {
            r@ == "Phase advanced: "@ + t.from.name()@ + " → "@ + t.to.name()@
                + " (triggered by "@ + ("a 👍 reaction from "@ + by@ + ", equivalent to `"@
                + command@ + "`"@) + ")."@
        } else {
            r@ == "Phase advanced: "@ + t.from.name()@ + " → "@ + t.to.name()@
                + " (triggered by "@ + ("`"@ + command@ + "` from "@ + by@) + ")."@
        },
{
}

/// What advances a phase.
pub proof fn hints_name_what_advances(phase: Phase, r: String)
    requires
        call_ensures(render::advance_hint, (phase,), r),
    ensures
        phase == Phase::PrePlan ==> r@ == "the command that advances it is `"@
            + "/approve-pre-plan"@ + "`"@,
        phase == Phase::PrepAndPlan ==> r@ == "the command that advances it is `"@
            + "/approve-plan"@ + "`"@,
        phase == Phase::Implement ==> r@ == "marking the draft PR ready for review advances it"@,
        phase == Phase::Review || phase == Phase::Finished ==> r@
            == "there is nothing further to approve"@,
{
}

/// A note says which command came from whom and where, and why it was ignored.
pub proof fn notes_say_why(n: &DirectiveNote, hint: String, r: String)
    requires
        call_ensures(render::render_note, (n,), r),
        call_ensures(render::advance_hint, (n.phase_at,), hint),
    ensures
        n.via_reaction ==> text::starts_with(
            r@,
            "Note: "@ + ("A 👍 reaction (equivalent to `"@ + n.command@ + "`) from "@ + n.by@)
                + " (on the "@ + n.source@ + ") was ignored — "@,
        ),
        !n.via_reaction ==> text::starts_with(
            r@,
            "Note: "@ + ("`"@ + n.command@ + "` from "@ + n.by@) + " (on the "@ + n.source@
                + ") was ignored — "@,
        ),
        n.kind == NoteKind::Stale ==> text::ends_with(
            r@,
            "the workflow is already past the phase it approves."@,
        ),
        n.kind == NoteKind::Premature ==> text::ends_with(
            r@,
            "the workflow is only in the "@ + n.phase_at.name()@ + " phase; "@ + hint@ + "."@,
        ),
        n.kind == NoteKind::Retired ==> text::ends_with(
            r@,
            "`"@ + n.command@ + "` is retired; the workflow is in the "@ + n.phase_at.name()@
                + " phase, and "@ + hint@ + "."@,
        ),
{
    let what = if n.via_reaction {
        "A 👍 reaction (equivalent to `"@ + n.command@ + "`) from "@ + n.by@
    } else {
        "`"@ + n.command@ + "` from "@ + n.by@
    };
    let start = "Note: "@ + what + " (on the "@ + n.source@ + ") was ignored — "@;
    let end = match n.kind {
        NoteKind::Stale => "the workflow is already past the phase it approves."@,
        NoteKind::Premature => "the workflow is only in the "@ + n.phase_at.name()@ + " phase; "@
            + hint@ + "."@,
        NoteKind::Retired => "`"@ + n.command@ + "` is retired; the workflow is in the "@
            + n.phase_at.name()@ + " phase, and "@ + hint@ + "."@,
    };
    assert(r@ =~= start + end);
    lemma_within(start, end, Seq::empty());
    lemma_within(Seq::empty(), start, end);
}

/// Where lines of a kind are added one by one, each stands in the text.
proof fn lemma_transition_lines(ts: Seq<Transition>, k: int)
    requires
        0 <= k < ts.len(),
    ensures
        text::contains(render::transition_lines(ts), "\n"@ + render::transition_line(ts[k])),
    decreases ts.len(),
{
    let init = ts.drop_last();
    let row = "\n"@ + render::transition_line(ts.last());
    assert(render::transition_lines(ts) =~= render::transition_lines(init) + row);
    if k < init.len() {
        lemma_transition_lines(init, k);
        assert(init[k] == ts[k]);
        lemma_wider(
            Seq::empty(),
            render::transition_lines(init),
            row,
            "\n"@ + render::transition_line(ts[k]),
        );
    } else {
        lemma_within(render::transition_lines(init), row, Seq::empty());
    }
}

proof fn lemma_note_lines(ns: Seq<DirectiveNote>, k: int)
    requires
        0 <= k < ns.len(),
    ensures
        text::contains(render::note_lines(ns), "\n"@ + render::note_line(ns[k])),
    decreases ns.len(),
{
    let init = ns.drop_last();
    let row = "\n"@ + render::note_line(ns.last());
    assert(render::note_lines(ns) =~= render::note_lines(init) + row);
    if k < init.len() {
        lemma_note_lines(init, k);
        assert(init[k] == ns[k]);
        lemma_wider(
            Seq::empty(),
            render::note_lines(init),
            row,
            "\n"@ + render::note_line(ns[k]),
        );
    } else {
        lemma_within(render::note_lines(init), row, Seq::empty());
    }
}

/// The banner names the phase first, then every step and every note, each on a line of
/// its own, then whether a status update covers them, and ends with the phase's text.
pub proof fn banners_tell_the_phase_and_its_steps(
    phase: Phase,
    ts: &[Transition],
    ns: &[DirectiveNote],
    posted: bool,
    body: &str,
    r: String,
    k: int,
    t: &Transition,
    step: String,
    n: &DirectiveNote,
    note: String,
)
    requires
        call_ensures(render::render_phase_banner, (phase, ts, ns, posted, body), r),
        call_ensures(render::render_transition, (t,), step),
        call_ensures(render::render_note, (n,), note),
    ensures
        text::starts_with(r@, "Phase: "@ + phase.name()@),
        text::ends_with(r@, "\n\n"@ + body@),
        posted ==> text::ends_with(
            r@,
            "\nghwf has posted a status update covering the above to the conversation \
     thread(s); do not relay it yourself."@ + ("\n\n"@ + body@),
        ),
        0 <= k < ts@.len() && ts@[k] == *t ==> text::contains(r@, "\n"@ + step@),
        0 <= k < ns@.len() && ns@[k] == *n ==> text::contains(r@, "\n"@ + note@),
        ts@.len() == 0 && ns@.len() == 0 && !posted ==> r@ == "Phase: "@ + phase.name()@ + "\n\n"@
            + body@,
{
    let head = "Phase: "@ + phase.name()@;
    let steps = render::transition_lines(ts@);
    let notes = render::note_lines(ns@);
    let told: Seq<char> = if posted {
        render::STATUS_POSTED@
    } else {
        seq![]
    };
    lemma_six(head, steps, notes, told, "\n\n"@, body@);
    if 0 <= k < ts@.len() && ts@[k] == *t {
        lemma_transition_lines(ts@, k);
        lemma_inside(r@, steps, "\n"@ + step@);
    }
    if 0 <= k < ns@.len() && ns@[k] == *n {
        lemma_note_lines(ns@, k);
        lemma_inside(r@, notes, "\n"@ + note@);
    }
    if ts@.len() == 0 && ns@.len() == 0 && !posted {
        assert(head + steps =~= head);
        assert(head + notes =~= head);
        assert(head + told =~= head);
    }
}

/// The parts of a text that is put together from six.
proof fn lemma_six(
    a: Seq<char>,
    b: Seq<char>,
    c: Seq<char>,
    d: Seq<char>,
    e: Seq<char>,
    f: Seq<char>,
)
    ensures
        text::starts_with(a + b + c + d + e + f, a),
        text::ends_with(a + b + c + d + e + f, e + f),
        text::ends_with(a + b + c + d + e + f, d + (e + f)),
        text::contains(a + b + c + d + e + f, b),
        text::contains(a + b + c + d + e + f, c),
{
    let end = e + f;
    lemma_regroup(a + b + c + d, e, f);
    lemma_within(a + b + c + d, end, Seq::empty());
    lemma_regroup(a + b + c, d, end);
    lemma_within(a + b + c, d + end, Seq::empty());
    lemma_within(a + b, c, d + end);
    lemma_regroup(a + b, c, d + end);
    lemma_within(a, b, c + (d + end));
    lemma_regroup(a, b, c + (d + end));
    lemma_within(Seq::empty(), a, b + (c + (d + end)));
}

proof fn lemma_regroup(a: Seq<char>, b: Seq<char>, c: Seq<char>)
    ensures
        a + b + c == a + (b + c),
{
    assert(a + b + c =~= a + (b + c));
}

proof fn lemma_ignored_lines(inputs: Seq<IgnoredInput>, k: int)
    requires
        0 <= k < inputs.len(),
    ensures
        text::contains(render::ignored_lines(inputs), render::ignored_line(inputs[k]) + "\n"@),
    decreases inputs.len(),
{
    let init = inputs.drop_last();
    let row = render::ignored_line(inputs.last()) + "\n"@;
    assert(render::ignored_lines(inputs) =~= render::ignored_lines(init) + row);
    if k < init.len() {
        lemma_ignored_lines(init, k);
        assert(init[k] == inputs[k]);
        lemma_wider(
            Seq::empty(),
            render::ignored_lines(init),
            row,
            render::ignored_line(inputs[k]) + "\n"@,
        );
    } else {
        lemma_within(render::ignored_lines(init), row, Seq::empty());
    }
}

/// Everything that was ignored is told, with who it came from and where.
pub proof fn ignored_input_is_told(inputs: &[IgnoredInput], r: String, k: int)
    requires
        call_ensures(render::render_ignored, (inputs,), r),
    ensures
        inputs@.len() == 0 ==> r@.len() == 0,
        0 <= k < inputs@.len() && inputs@[k].kind is Comment ==> text::contains(
            r@,
            "Ignored a "@ + "comment"@ + " on the "@ + inputs@[k].source@ + " from "@
                + inputs@[k].by@ + ": not an allow-listed user or a collaborator."@ + "\n"@,
        ),
        0 <= k < inputs@.len() && inputs@[k].kind is Reaction ==> text::contains(
            r@,
            "Ignored a "@ + "👍 reaction"@ + " on the "@ + inputs@[k].source@ + " from "@
                + inputs@[k].by@ + ": not an allow-listed user or a collaborator."@ + "\n"@,
        ),
{
    if 0 <= k < inputs@.len() {
        lemma_ignored_lines(inputs@, k);
    }
}

/// What is said of each phase, and of an end.
pub proof fn phases_are_described(
    agent: &str,
    phase: Phase,
    url: Option<&str>,
    r: String,
    outcome: PrOutcome,
    end: String,
)
    requires
        call_ensures(render::phase_status_prose, (agent, phase, url), r),
        call_ensures(render::conclusion_status_prose, (outcome,), end),
    ensures
        phase == Phase::PrePlan ==> text::starts_with(
            r@,
            "The workflow is in the **pre-plan** phase: "@ + agent@,
        ),
        phase == Phase::PrepAndPlan ==> text::starts_with(
            r@,
            "The workflow is in the **prep-and-plan** phase: "@ + agent@,
        ),
        phase == Phase::Implement ==> text::starts_with(
            r@,
            "The workflow is in the **implement** phase: "@ + agent@,
        ),
        phase == Phase::Review ==> text::starts_with(
            r@,
            "The workflow is in the **review** phase: "@,
        ) && (url is Some ==> text::contains(r@, url->0@)),
        phase == Phase::Finished ==> r@
            == "The PR was merged; the workflow for this issue is **complete**."@,
        outcome == PrOutcome::Merged ==> end@
            == "The PR was merged; the workflow for this issue is **complete**."@,
        outcome == PrOutcome::Closed ==> text::starts_with(
            end@,
            "The PR was closed without being merged; the workflow has "@,
        ),
{
    reveal_strlit("The PR was closed without being merged; the workflow has ");
    reveal_strlit(
        "The PR was closed without being merged; the workflow has \
     **halted**. Reopening the PR resumes it.",
    );
    if outcome == PrOutcome::Closed {
        let p = "The PR was closed without being merged; the workflow has "@;
        assert(end@.subrange(0, p.len() as int) =~= p);
    }
    match phase {
        Phase::PrePlan => {
            lemma_within(
                Seq::empty(),
                render::PRE_PLAN_PROSE@ + agent@,
                render::PRE_PLAN_TASK@,
            );
        },
        Phase::PrepAndPlan => {
            let head = render::PREP_AND_PLAN_PROSE@ + agent@;
            let tail = render::PREP_AND_PLAN_TASK@ + agent@ + render::PREP_AND_PLAN_END@;
            assert(r@ =~= head + tail);
            lemma_within(Seq::empty(), head, tail);
        },
        Phase::Implement => {
            lemma_within(
                Seq::empty(),
                render::IMPLEMENT_PROSE@ + agent@,
                render::IMPLEMENT_TASK@,
            );
        },
        Phase::Review => {
            reveal_strlit("The workflow is in the **review** phase: ");
            let p = "The workflow is in the **review** phase: "@;
            if url is Some {
                reveal_strlit(
                    "The workflow is in the **review** phase: the PR is ready for human \
     review: ",
                );
                lemma_within(render::REVIEW_PROSE@, url->0@, render::REVIEW_END@);
                assert(r@.subrange(0, p.len() as int) =~= p);
            } else {
                reveal_strlit(
                    "The workflow is in the **review** phase: the work is complete and \
     awaiting human review.",
                );
                assert(r@.subrange(0, p.len() as int) =~= p);
            }
        },
        Phase::Finished => {},
    }
}

/// A note only repeats what a step in the same update already says.
pub open spec fn repeats(n: DirectiveNote, ts: Seq<Transition>) -> bool {
    n.kind == NoteKind::Stale && exists|i: int|
        #![trigger ts[i]]
        0 <= i < ts.len() && ts[i].trigger is Directive && ts[i].trigger->command@ == n.command@
}

proof fn lemma_repeats(n: DirectiveNote, ts: Seq<Transition>)
    ensures
        repeats(n, ts) <==> render::is_echo(n, ts),
{
    if repeats(n, ts) {
        let i = choose|i: int|
            #![trigger ts[i]]
            0 <= i < ts.len() && ts[i].trigger is Directive && ts[i].trigger->command@
                == n.command@;
        assert(ts[i].fired_by() == Some(n.command@));
    }
    if render::is_echo(n, ts) {
        let i = choose|i: int|
            0 <= i < ts.len() && #[trigger] ts[i].fired_by() == Some(n.command@);
        assert(ts[i].trigger is Directive);
    }
}

proof fn lemma_reported(ns: Seq<DirectiveNote>, ts: Seq<Transition>, k: int)
    ensures
        0 <= k < ns.len() && !render::is_echo(ns[k], ts) ==> render::reported_notes(
            ns,
            ts,
        ).contains(render::note_line(ns[k])),
        render::reported_notes(ns, ts).len() == 0 <==> forall|i: int|
            #![trigger ns[i]]
            0 <= i < ns.len() ==> render::is_echo(ns[i], ts),
    decreases ns.len(),
{
    if ns.len() > 0 {
        let init = ns.drop_last();
        lemma_reported(init, ts, k);
        let all = render::reported_notes(ns, ts);
        let before = render::reported_notes(init, ts);
        if 0 <= k < ns.len() && !render::is_echo(ns[k], ts) {
            let line = render::note_line(ns[k]);
            if k < init.len() {
                assert(init[k] == ns[k]);
                let m = choose|m: int| 0 <= m < before.len() && before[m] == line;
                assert(all[m] == line);
            } else {
                assert(all[before.len() as int] == line);
            }
        }
        if forall|i: int| #![trigger ns[i]] 0 <= i < ns.len() ==> render::is_echo(ns[i], ts) {
            assert forall|i: int| #![trigger init[i]] 0 <= i < init.len() implies render::is_echo(
                init[i],
                ts,
            ) by {
                assert(init[i] == ns[i]);
            }
            assert(ns[ns.len() - 1] == ns.last());
        }
        if all.len() == 0 {
            assert forall|i: int| #![trigger ns[i]] 0 <= i < ns.len() implies render::is_echo(
                ns[i],
                ts,
            ) by {
                if i < init.len() {
                    assert(init[i] == ns[i]);
                }
            }
        }
    }
}

/// A status update is posted where there is something to say: the first one, a step, a
/// note that does not only repeat a step, or an end. It tells every one of these, and
/// ends with how things stand.
pub proof fn status_updates_tell_everything(
    agent: &str,
    phase: Phase,
    ts: &[Transition],
    ns: &[DirectiveNote],
    intro: bool,
    url: Option<&str>,
    conclusion: Option<PrOutcome>,
    r: Option<String>,
    k: int,
    t: &Transition,
    step: String,
    n: &DirectiveNote,
    note: String,
    standing: String,
)
    requires
        call_ensures(
            render::render_status_comment,
            (agent, phase, ts, ns, intro, url, conclusion),
            r,
        ),
        call_ensures(render::render_transition, (t,), step),
        call_ensures(render::render_note, (n,), note),
        conclusion is None ==> call_ensures(
            render::phase_status_prose,
            (agent, phase, url),
            standing,
        ),
        conclusion is Some ==> call_ensures(
            render::conclusion_status_prose,
            (conclusion->0,),
            standing,
        ),
    ensures
        r is None <==> !intro && ts@.len() == 0 && conclusion is None && (forall|i: int|
            #![trigger ns@[i]]
            0 <= i < ns@.len() ==> repeats(ns@[i], ts@)),
        r is Some ==> text::ends_with(r->0@, standing@),
        r is Some && intro ==> text::contains(
            r->0@,
            "ghwf is tracking this issue; status updates like this one are posted as the \
     workflow advances."@,
        ),
        r is Some && 0 <= k < ts@.len() && ts@[k] == *t ==> text::contains(r->0@, step@),
        r is Some && 0 <= k < ns@.len() && ns@[k] == *n && !repeats(*n, ts@) ==> text::contains(
            r->0@,
            note@,
        ),
{
    let reported = render::reported_notes(ns@, ts@);
    lemma_reported(ns@, ts@, k);
    lemma_repeats(*n, ts@);
    assert forall|i: int| #![trigger ns@[i]] 0 <= i < ns@.len() implies repeats(ns@[i], ts@)
        == render::is_echo(ns@[i], ts@) by {
        lemma_repeats(ns@[i], ts@);
    }
    if r is Some {
        let opening: Seq<Seq<char>> = if intro {
            seq![render::INTRO@]
        } else {
            seq![]
        };
        let steps = render::transition_paragraphs(ts@);
        let parts = (opening + steps + reported).push(standing@);
        assert(r->0@ == text::join(parts, "\n\n"@));
        lemma_last_joined(parts, "\n\n"@);
        if intro {
            assert(parts[0] == render::INTRO@);
            lemma_joined(parts, "\n\n"@, 0);
        }
        if 0 <= k < ts@.len() && ts@[k] == *t {
            assert(parts[opening.len() + k] == steps[k]);
            lemma_joined(parts, "\n\n"@, opening.len() + k);
        }
        if 0 <= k < ns@.len() && ns@[k] == *n && !repeats(*n, ts@) {
            let m = choose|m: int| 0 <= m < reported.len() && reported[m] == note@;
            assert(parts[opening.len() + steps.len() + m] == note@);
            lemma_joined(parts, "\n\n"@, opening.len() + steps.len() + m);
        }
    }
}

proof fn lemma_last_joined(parts: Seq<Seq<char>>, sep: Seq<char>)
    requires
        parts.len() > 0,
    ensures
        text::ends_with(text::join(parts, sep), parts.last()),
{
    if parts.len() == 1 {
        assert(parts[0].subrange(0, parts[0].len() as int) =~= parts[0]);
    } else {
        lemma_within(text::join(parts.drop_last(), sep) + sep, parts.last(), Seq::empty());
    }
}

/// The prompt of each phase that has one.
pub proof fn prompts_ask_for_the_approval(agent: &str, phase: Phase, no_branch: bool, r: Option<String>)
    requires
        call_ensures(render::hand_off_prompt, (agent, phase, no_branch), r),
    ensures
        r is Some <==> phase == Phase::PrePlan || phase == Phase::PrepAndPlan || phase
            == Phase::Implement,
        phase == Phase::PrePlan ==> r->0@
            == "Next: comment `/approve-pre-plan` (alias `/approve-preplan`) — or react 👍 \
     to this comment — to advance to prep-and-plan, where a branch and worktree \
     are created and "@ + agent@ + " writes an implementation plan, opened as a draft PR."@,
        phase == Phase::PrepAndPlan ==> r->0@
            == "Next: comment `/approve-plan` (on the issue or the PR) — or react 👍 to \
     this comment — to advance to implement, where "@ + agent@ + " codes the change."@,
        phase == Phase::Implement && !no_branch ==> r->0@
            == "Next: when you're happy with the change, mark the draft PR ready for \
     review (the \"Ready for review\" button) to advance to the review phase."@,
        phase == Phase::Implement && no_branch ==> r->0@
            == "The work is complete. With `--no-branch` there is no draft PR to mark \
     ready; review the change and close the issue (or merge it yourself) to \
     wrap up."@,
{
}

/// The note on the other thread: where the phase went, or where the update is.
pub proof fn stubs_say_where_the_update_is(ts: &[Transition], noun: &str, url: &str, r: String)
    requires
        call_ensures(render::render_status_stub, (ts, noun, url), r),
    ensures
        ts@.len() > 0 ==> r@ == "Phase advanced: "@ + ts@[0].from.name()@ + " → "@
            + ts@[ts@.len() - 1].to.name()@ + " — full update: "@ + url@,
        ts@.len() == 0 ==> r@ == "Status update posted on the "@ + noun@ + ": "@ + url@,
{
}

/// From the implement phase on, status updates go to the PR.
pub proof fn status_updates_follow_the_work(phase: Phase, r: bool)
    requires
        call_ensures(render::status_primary_is_pr, (phase,), r),
    ensures
        r <==> phase == Phase::Implement || phase == Phase::Review || phase == Phase::Finished,
{
}

/// A quotation has every line of the text behind `> `, an empty one as `>`; a blank text
/// is one empty line.
pub proof fn quotations_quote_every_line(s: &str, r: String)
    requires
        call_ensures(render::blockquote, (s,), r),
    ensures
        text::trim(s@).len() == 0 ==> r@ == ">"@,
        text::trim(s@).len() > 0 ==> exists|out: Seq<Seq<char>>|
            {
                &&& r@ == #[trigger] text::join(out, "\n"@)
                &&& out.len() == text::lines(s@).len()
                &&& forall|i: int|
                    #![trigger out[i]]
                    0 <= i < out.len() ==> (if text::lines(s@)[i].len() == 0 {
                        out[i] == ">"@
                    } else {
                        out[i] == "> "@ + text::lines(s@)[i]
                    })
            },
{
    if text::trim(s@).len() > 0 {
        let lines = text::lines(s@);
        let out = Seq::new(lines.len(), |i: int| render::quoted_line(lines[i]));
        assert(r@ == text::join(out, "\n"@));
    }
}

/// How one comment is told, up to where its text begins.
pub open spec fn said(login: Seq<char>, at: Seq<char>, place: Seq<char>, updated: bool) -> Seq<char> {
    "**"@ + login + "** at "@ + at + place + (if updated {
        " (updated)"@
    } else {
        ""@
    }) + ":\n\n"@
}

/// A quotation begins with its sign.
proof fn lemma_quoted(s: Seq<char>)
    ensures
        render::quoted(s).len() > 0,
        render::quoted(s)[0] == '>',
{
    reveal_strlit(">");
    reveal_strlit("> ");
    reveal_strlit("\n");
    if text::trim(s).len() > 0 {
        let lines = text::lines(s);
        if s.len() == 0 {
            assert(text::trim(s) =~= s);
        }
        assert(lines.len() > 0);
        let out = Seq::new(lines.len(), |i: int| render::quoted_line(lines[i]));
        lemma_first_joined(out, "\n"@);
        assert(out[0][0] == '>');
    }
}

proof fn lemma_first_joined(parts: Seq<Seq<char>>, sep: Seq<char>)
    requires
        parts.len() > 0,
        parts[0].len() > 0,
    ensures
        text::join(parts, sep).len() > 0,
        text::join(parts, sep)[0] == parts[0][0],
    decreases parts.len(),
{
    if parts.len() > 1 {
        let init = parts.drop_last();
        lemma_first_joined(init, sep);
    }
}

/// What is left of a quotation when the text around it is trimmed.
proof fn lemma_kept(x: Seq<char>, head: Seq<char>, body: Seq<char>, whole: Seq<char>)
    requires
        whole == head + render::quoted(body) + "\n"@,
        text::contains(x, whole),
    ensures
        text::contains(text::trim_end(x), head + text::trim_end(render::quoted(body))),
{
    let q = render::quoted(body);
    let t = text::trim_end(q);
    lemma_quoted(body);
    lemma_solid_end(q);
    let p = head + t;
    assert(p.last() == t.last());
    let rest = whole.skip(p.len() as int);
    lemma_trim_end_prefix(q);
    assert(whole =~= p + rest);
    lemma_within(Seq::empty(), p, rest);
    let i = choose|i: int| text::at(x, whole, i);
    assert(x.subrange(i, i + p.len()) =~= whole.take(p.len() as int));
    assert(whole.take(p.len() as int) =~= p);
    assert(text::at(x, p, i));
    lemma_trim_end_keeps(x, p);
}

proof fn lemma_trim_end_prefix(q: Seq<char>)
    ensures
        text::trim_end(q).is_prefix_of(q),
    decreases q.len(),
{
    if q.len() > 0 && text::is_space(q.last()) {
        lemma_trim_end_prefix(q.drop_last());
    }
}

proof fn lemma_solid_end(q: Seq<char>)
    requires
        q.len() > 0,
        q[0] == '>',
    ensures
        text::trim_end(q).len() > 0,
        !text::is_space(text::trim_end(q).last()),
    decreases q.len(),
{
    if text::is_space(q.last()) {
        lemma_solid_end(q.drop_last());
    }
}

proof fn lemma_comment_entries(views: Seq<CommentView>, k: int)
    requires
        0 <= k < views.len(),
    ensures
        text::contains(render::comment_entries(views), render::comment_entry(views[k])),
    decreases views.len(),
{
    let init = views.drop_last();
    let entry = render::comment_entry(views.last());
    let mid: Seq<char> = if views.len() > 1 {
        "\n<hr>\n"@
    } else {
        seq![]
    };
    let before = render::comment_entries(init);
    assert(render::comment_entries(views) =~= before + mid + entry);
    if k < init.len() {
        lemma_comment_entries(init, k);
        assert(init[k] == views[k]);
        assert(before + mid + entry =~= before + (mid + entry));
        lemma_wider(Seq::empty(), before, mid + entry, render::comment_entry(views[k]));
    } else {
        lemma_within(before + mid, entry, Seq::empty());
    }
}

proof fn lemma_review_entries(views: Seq<ReviewCommentView>, k: int)
    requires
        0 <= k < views.len(),
    ensures
        text::contains(render::review_entries(views), render::review_entry(views[k])),
    decreases views.len(),
{
    let init = views.drop_last();
    let entry = render::review_entry(views.last());
    let mid: Seq<char> = if views.len() > 1 {
        "\n<hr>\n"@
    } else {
        seq![]
    };
    let before = render::review_entries(init);
    assert(render::review_entries(views) =~= before + mid + entry);
    if k < init.len() {
        lemma_review_entries(init, k);
        assert(init[k] == views[k]);
        assert(before + mid + entry =~= before + (mid + entry));
        lemma_wider(Seq::empty(), before, mid + entry, render::review_entry(views[k]));
    } else {
        lemma_within(before + mid, entry, Seq::empty());
    }
}

/// A section of comments tells each of them: who said it, when, whether it was edited,
/// and its text, quoted.
pub proof fn sections_tell_every_comment(
    prior: bool,
    heading: &str,
    views: &[CommentView],
    r: String,
    k: int,
    body: &str,
    quote: String,
)
    requires
        call_ensures(render::render_comment_section, (prior, heading, views), r),
        call_ensures(render::blockquote, (body,), quote),
    ensures
        views@.len() == 0 ==> r@.len() == 0,
        views@.len() > 0 ==> text::contains(r@, "\n"@ + heading@ + "\n"@),
        0 <= k < views@.len() && views@[k].body@ == body@ ==> text::contains(
            r@,
            said(
                views@[k].comment.user.login@,
                views@[k].comment.created_at@,
                " said"@,
                views@[k].updated,
            ) + quote@ + "\n"@,
        ),
{
    if views@.len() > 0 {
        let mark: Seq<char> = if prior {
            "\n<hr>\n"@
        } else {
            seq![]
        };
        let head = "\n"@ + heading@ + "\n"@;
        let rows = render::comment_entries(views@);
        assert(r@ =~= mark + head + rows);
        lemma_within(mark, head, rows);
        if 0 <= k < views@.len() && views@[k].body@ == body@ {
            lemma_comment_entries(views@, k);
            let entry = render::comment_entry(views@[k]);
            lemma_wider(mark + head, rows, Seq::empty(), entry);
            lemma_entry(views@[k], quote@);
            let want = said(
                views@[k].comment.user.login@,
                views@[k].comment.created_at@,
                " said"@,
                views@[k].updated,
            ) + quote@ + "\n"@;
            lemma_inside(r@, entry, want);
        }
    }
}

/// Standing in a text is transitive.
proof fn lemma_inside(x: Seq<char>, y: Seq<char>, p: Seq<char>)
    requires
        text::contains(x, y),
        text::contains(y, p),
    ensures
        text::contains(x, p),
{
    let i = choose|i: int| text::at(x, y, i);
    let j = choose|j: int| text::at(y, p, j);
    assert(x.subrange(i, i + y.len()).subrange(j, j + p.len()) =~= x.subrange(
        i + j,
        i + j + p.len(),
    ));
    assert(text::at(x, p, i + j));
}

proof fn lemma_entry(view: CommentView, quote: Seq<char>)
    requires
        quote == render::quoted(view.body@),
    ensures
        text::contains(
            render::comment_entry(view),
            said(view.comment.user.login@, view.comment.created_at@, " said"@, view.updated)
                + quote + "\n"@,
        ),
{
    reveal_strlit("\n**");
    reveal_strlit("\n");
    reveal_strlit("**");
    let want = said(view.comment.user.login@, view.comment.created_at@, " said"@, view.updated)
        + quote + "\n"@;
    assert("\n**"@ =~= "\n"@ + "**"@);
    assert(render::comment_entry(view) =~= "\n"@ + want);
    lemma_within("\n"@, want, Seq::empty());
}

proof fn lemma_review_entry(view: ReviewCommentView, quote: Seq<char>)
    requires
        quote == render::quoted(view.body@),
    ensures
        text::contains(
            render::review_entry(view),
            said(
                view.comment.user.login@,
                view.comment.created_at@,
                " said on `"@ + view.location@ + "`"@,
                view.updated,
            ) + quote + "\n"@,
        ),
{
    reveal_strlit("\n**");
    reveal_strlit("\n");
    reveal_strlit("**");
    let want = said(
        view.comment.user.login@,
        view.comment.created_at@,
        " said on `"@ + view.location@ + "`"@,
        view.updated,
    ) + quote + "\n"@;
    assert("\n**"@ =~= "\n"@ + "**"@);
    assert(render::review_entry(view) =~= "\n"@ + want);
    lemma_within("\n"@, want, Seq::empty());
}

/// The section of inline comments tells each of them: who said it, when, on which code,
/// whether it was edited, and its text, quoted.
pub proof fn sections_tell_every_review(
    prior: bool,
    views: &[ReviewCommentView],
    r: String,
    k: int,
    body: &str,
    quote: String,
)
    requires
        call_ensures(render::render_review_section, (prior, views), r),
        call_ensures(render::blockquote, (body,), quote),
    ensures
        views@.len() == 0 ==> r@.len() == 0,
        views@.len() > 0 ==> text::contains(
            r@,
            "\nNew inline review comments since you last ran `ghwf work-on`:\n"@,
        ),
        0 <= k < views@.len() && views@[k].body@ == body@ ==> text::contains(
            r@,
            said(
                views@[k].comment.user.login@,
                views@[k].comment.created_at@,
                " said on `"@ + views@[k].location@ + "`"@,
                views@[k].updated,
            ) + quote@ + "\n"@,
        ),
{
    if views@.len() > 0 {
        let mark: Seq<char> = if prior {
            "\n<hr>\n"@
        } else {
            seq![]
        };
        let head = render::REVIEW_HEADING@;
        let rows = render::review_entries(views@);
        assert(r@ =~= mark + head + rows);
        lemma_within(mark, head, rows);
        if 0 <= k < views@.len() && views@[k].body@ == body@ {
            lemma_review_entries(views@, k);
            let entry = render::review_entry(views@[k]);
            lemma_wider(mark + head, rows, Seq::empty(), entry);
            lemma_review_entry(views@[k], quote@);
            let want = said(
                views@[k].comment.user.login@,
                views@[k].comment.created_at@,
                " said on `"@ + views@[k].location@ + "`"@,
                views@[k].updated,
            ) + quote@ + "\n"@;
            lemma_inside(r@, entry, want);
        }
    }
}

/// The digest tells everything that is new: the body, where it changed, and each new
/// comment of the issue, of the PR and of its reviews. Where nothing is new it says so.
pub proof fn the_digest_tells_everything_new(
    issue: &Issue,
    body_changed: bool,
    new_issue: &[CommentView],
    pr: Option<u64>,
    new_pr: &[CommentView],
    new_review: &[ReviewCommentView],
    r: String,
    k: int,
    body: &str,
    quote: String,
)
    requires
        call_ensures(
            render::render_work_on,
            (issue, body_changed, new_issue, pr, new_pr, new_review),
            r,
        ),
        call_ensures(render::blockquote, (body,), quote),
    ensures
        !body_changed && new_issue@.len() == 0 && new_pr@.len() == 0 && new_review@.len() == 0
            && pr is Some ==> r@ == "No new activity on issue #"@ + text::decimal(
            issue.number as nat,
        ) + " \""@ + issue.title@ + "\""@ + (" or PR #"@ + text::decimal(pr->0 as nat))
            + " since you last ran `ghwf work-on`."@,
        !body_changed && new_issue@.len() == 0 && new_pr@.len() == 0 && new_review@.len() == 0
            && pr is None ==> r@ == "No new activity on issue #"@ + text::decimal(
            issue.number as nat,
        ) + " \""@ + issue.title@ + "\""@ + ""@ + " since you last ran `ghwf work-on`."@,
        body_changed && issue.body is Some && issue.body->0@ == body@ ==> text::contains(
            r@,
            "\nIssue body by "@ + issue.user.login@ + ":\n\n"@ + text::trim_end(quote@),
        ),
        0 <= k < new_issue@.len() && new_issue@[k].body@ == body@ ==> text::contains(
            r@,
            said(
                new_issue@[k].comment.user.login@,
                new_issue@[k].comment.created_at@,
                " said"@,
                new_issue@[k].updated,
            ) + text::trim_end(quote@),
        ),
        pr is Some && 0 <= k < new_pr@.len() && new_pr@[k].body@ == body@ ==> text::contains(
            r@,
            said(
                new_pr@[k].comment.user.login@,
                new_pr@[k].comment.created_at@,
                " said"@,
                new_pr@[k].updated,
            ) + text::trim_end(quote@),
        ),
        0 <= k < new_review@.len() && new_review@[k].body@ == body@ ==> text::contains(
            r@,
            said(
                new_review@[k].comment.user.login@,
                new_review@[k].comment.created_at@,
                " said on `"@ + new_review@[k].location@ + "`"@,
                new_review@[k].updated,
            ) + text::trim_end(quote@),
        ),
{
    if body_changed || new_issue@.len() > 0 || new_pr@.len() > 0 || new_review@.len() > 0 {
        let on_pr = pr is Some && new_pr@.len() > 0;
        let head = "## #"@ + text::decimal(issue.number as nat) + ": "@ + issue.title@ + "  ("@
            + issue.state@ + ")\n"@;
        let s1 = render::body_section(*issue, body_changed);
        let s2 = render::comment_section(body_changed, render::ISSUE_HEADING@, new_issue@);
        let s3 = match pr {
            Some(pr) => render::comment_section(
                body_changed || new_issue@.len() > 0,
                render::pr_heading(pr as nat),
                new_pr@,
            ),
            None => seq![],
        };
        let s4 = render::review_section(body_changed || new_issue@.len() > 0 || on_pr, new_review@);
        let whole = head + s1 + s2 + s3 + s4;
        assert(r@ == text::trim_end(whole));
        if body_changed && issue.body is Some && issue.body->0@ == body@ {
            let intro = "\nIssue body by "@ + issue.user.login@ + ":\n\n"@;
            let entry = intro + quote@ + "\n"@;
            assert(s1 =~= entry);
            assert(whole =~= head + s1 + (s2 + s3 + s4));
            lemma_within(head, s1, s2 + s3 + s4);
            lemma_kept(whole, intro, body@, entry);
        }
        if 0 <= k < new_issue@.len() && new_issue@[k].body@ == body@ {
            lemma_section(body_changed, render::ISSUE_HEADING@, new_issue@, k);
            assert(whole =~= (head + s1) + s2 + (s3 + s4));
            lemma_wider(head + s1, s2, s3 + s4, render::comment_entry(new_issue@[k]));
            lemma_told(whole, new_issue@[k], quote@);
        }
        if pr is Some && 0 <= k < new_pr@.len() && new_pr@[k].body@ == body@ {
            lemma_section(
                body_changed || new_issue@.len() > 0,
                render::pr_heading(pr->0 as nat),
                new_pr@,
                k,
            );
            assert(whole =~= (head + s1 + s2) + s3 + s4);
            lemma_wider(head + s1 + s2, s3, s4, render::comment_entry(new_pr@[k]));
            lemma_told(whole, new_pr@[k], quote@);
        }
        if 0 <= k < new_review@.len() && new_review@[k].body@ == body@ {
            lemma_review_entries(new_review@, k);
            let mark: Seq<char> = if body_changed || new_issue@.len() > 0 || on_pr {
                "\n<hr>\n"@
            } else {
                seq![]
            };
            let rows = render::review_entries(new_review@);
            let entry = render::review_entry(new_review@[k]);
            assert(s4 =~= (mark + render::REVIEW_HEADING@) + rows);
            lemma_wider(mark + render::REVIEW_HEADING@, rows, Seq::empty(), entry);
            lemma_wider(head + s1 + s2 + s3, s4, Seq::empty(), entry);
            lemma_review_entry(new_review@[k], quote@);
            let place = " said on `"@ + new_review@[k].location@ + "`"@;
            let intro = said(
                new_review@[k].comment.user.login@,
                new_review@[k].comment.created_at@,
                place,
                new_review@[k].updated,
            );
            lemma_inside(whole, entry, intro + quote@ + "\n"@);
            lemma_kept(whole, intro, body@, intro + quote@ + "\n"@);
        }
    }
}

proof fn lemma_section(prior: bool, heading: Seq<char>, views: Seq<CommentView>, k: int)
    requires
        0 <= k < views.len(),
    ensures
        text::contains(
            render::comment_section(prior, heading, views),
            render::comment_entry(views[k]),
        ),
{
    lemma_comment_entries(views, k);
    let mark: Seq<char> = if prior {
        "\n<hr>\n"@
    } else {
        seq![]
    };
    let head = mark + "\n"@ + heading + "\n"@;
    lemma_wider(head, render::comment_entries(views), Seq::empty(), render::comment_entry(views[k]));
}

proof fn lemma_told(whole: Seq<char>, view: CommentView, quote: Seq<char>)
    requires
        text::contains(whole, render::comment_entry(view)),
        quote == render::quoted(view.body@),
    ensures
        text::contains(
            text::trim_end(whole),
            said(view.comment.user.login@, view.comment.created_at@, " said"@, view.updated)
                + text::trim_end(quote),
        ),
{
    lemma_entry(view, quote);
    let intro = said(view.comment.user.login@, view.comment.created_at@, " said"@, view.updated);
    lemma_inside(whole, render::comment_entry(view), intro + quote + "\n"@);
    lemma_kept(whole, intro, view.body@, intro + quote + "\n"@);
}

/// The instructions name the issue that the commands are to be run for.
pub proof fn instructions_name_the_issue(
    number: u64,
    question: String,
    wait: String,
    pre_plan: String,
)
    requires
        call_ensures(render::question_instruction, (number,), question),
        call_ensures(render::wait_instruction, (number,), wait),
        call_ensures(render::pre_plan_body, (number,), pre_plan),
    ensures
        text::contains(question@, "`ghwf hand-off "@ + text::decimal(number as nat) + " --question`"@),
        text::contains(wait@, "`ghwf wait "@ + text::decimal(number as nat) + "`"@),
        text::contains(wait@, "`ghwf work-on "@ + text::decimal(number as nat) + "`"@),
        text::ends_with(pre_plan@, wait@),
        text::starts_with(pre_plan@, "Pre-plan — gathering the information needed"@),
        text::contains(
            pre_plan@,
            "`ghwf create-issue-comment "@ + text::decimal(number as nat) + "`"@,
        ),
{
    let v = text::decimal(number as nat);
    lemma_question(v);
    lemma_wait(v);
    lemma_pre_plan(v);
    let head = text::fill(render::PRE_PLAN@, v);
    lemma_within(head, wait@, Seq::empty());
    lemma_wider(Seq::empty(), head, wait@, "`ghwf create-issue-comment "@ + v + "`"@);
    let p = "Pre-plan — gathering the information needed"@;
    assert(pre_plan@.subrange(0, p.len() as int) =~= head.subrange(0, p.len() as int));
}

proof fn lemma_question(v: Seq<char>)
    ensures
        text::contains(
            text::fill(render::QUESTION@, v),
            "`ghwf hand-off "@ + v + " --question`"@,
        ),
{
    reveal_strlit(
        "If you need an answer from the user to proceed, never use an interactive \
     prompt (no AskUserQuestion, and don't ask in prose and stop): post the \
     question with `ghwf hand-off % --question` (body from stdin) — that \
     flips the issue to \"needs you\" — then `ghwf wait %` for the reply.",
    );
    reveal_strlit("`ghwf hand-off ");
    reveal_strlit(" --question`");
    let a = "`ghwf hand-off "@;
    let b = " --question`"@;
    let part = a.push('%') + b;
    lemma_fill_one(a, b, v);
    assert(render::QUESTION@.subrange(158, 158int + part.len()) =~= part);
    lemma_fill_within(render::QUESTION@, part, v, 158);
}

proof fn lemma_wait(v: Seq<char>)
    ensures
        text::contains(text::fill(render::WAIT@, v), "`ghwf wait "@ + v + "`"@),
        text::contains(text::fill(render::WAIT@, v), "`ghwf work-on "@ + v + "`"@),
{
    reveal_strlit(
        "Once you have posted your comment(s) and have nothing else to do, run \
     `ghwf wait %` — it blocks until there is new activity (up to ~9 minutes; \
     give it a 10-minute command timeout). Exit 0 means new activity arrived: run \
     `ghwf work-on %` to process it. Exit 2 means nothing yet: run \
     `ghwf wait %` again. Do not poll with your own sleep loops.",
    );
    reveal_strlit("`ghwf wait ");
    reveal_strlit("`ghwf work-on ");
    reveal_strlit("`");
    let a = "`ghwf wait "@;
    let c = "`ghwf work-on "@;
    let b = "`"@;
    lemma_fill_one(a, b, v);
    lemma_fill_one(c, b, v);
    let first = a.push('%') + b;
    let second = c.push('%') + b;
    assert(render::WAIT@.subrange(70, 70int + first.len()) =~= first);
    lemma_fill_within(render::WAIT@, first, v, 70);
    assert(render::WAIT@.subrange(220, 220int + second.len()) =~= second);
    lemma_fill_within(render::WAIT@, second, v, 220);
}

proof fn lemma_pre_plan(v: Seq<char>)
    ensures
        text::contains(
            text::fill(render::PRE_PLAN@, v),
            "`ghwf create-issue-comment "@ + v + "`"@,
        ),
        text::starts_with(
            text::fill(render::PRE_PLAN@, v),
            "Pre-plan — gathering the information needed"@,
        ),
{
    reveal_strlit("Pre-plan — gathering the information needed to write a plan.\n\n\
     Discuss on the issue itself. Post questions and clarifications as comments with \
     `ghwf create-issue-comment %`; if an answer is needed before you can \
     proceed, use `ghwf hand-off % --question` instead so the issue flips to \
     \"needs you\". Either way, never raise an interactive prompt (no AskUserQuestion). \
     When you have enough information, hand off \
     with `ghwf hand-off %` (body from stdin): a comment that summarises your \
     understanding and clearly states you are ready to write a plan. ghwf appends the \
     approval prompt itself — do not write one.\n\n\
     Do not start planning or advance the workflow yourself. Wait for the user's \
     approval; ghwf will then advance to the prep-and-plan phase.\n\n");
    reveal_strlit("`ghwf create-issue-comment ");
    reveal_strlit("`");
    reveal_strlit("Pre-plan — gathering the information needed");
    let a = "`ghwf create-issue-comment "@;
    let b = "`"@;
    lemma_fill_one(a, b, v);
    let part = a.push('%') + b;
    let all = render::PRE_PLAN@;
    assert(all.subrange(142, 142int + part.len()) =~= part);
    lemma_fill_within(all, part, v, 142);
    let p = "Pre-plan — gathering the information needed"@;
    assert(all.take(p.len() as int) =~= p);
    lemma_fill_head(all, p, v);
}

/// A template that begins with a plain text is filled so that it still does.
pub proof fn lemma_fill_head(template: Seq<char>, p: Seq<char>, v: Seq<char>)
    requires
        p.len() <= template.len(),
        template.take(p.len() as int) == p,
        forall|i: int| 0 <= i < p.len() ==> p[i] != '%',
    ensures
        text::starts_with(text::fill(template, v), p),
    decreases template.len(),
{
    if template.len() == p.len() {
        assert(template =~= p);
        crate::laws::texts::lemma_fill_plain(p, v);
        assert(p.subrange(0, p.len() as int) =~= p);
    } else {
        let init = template.drop_last();
        assert(init.take(p.len() as int) =~= template.take(p.len() as int));
        lemma_fill_head(init, p, v);
        assert(text::fill(template, v).subrange(0, p.len() as int) =~= text::fill(
            init,
            v,
        ).subrange(0, p.len() as int));
    }
}

/// The end of a workflow is told with the PR's address and the issue's number.
pub proof fn ends_are_told(outcome: PrOutcome, url: Option<&str>, number: u64, r: String)
    requires
        call_ensures(render::concluded_body, (outcome, url, number), r),
    ensures
        url is Some && outcome == PrOutcome::Merged ==> text::starts_with(
            r@,
            ("The PR ("@ + url->0@ + ")"@) + " has been merged — the workflow for issue #"@,
        ),
        url is Some && outcome == PrOutcome::Closed ==> text::starts_with(
            r@,
            ("The PR ("@ + url->0@ + ")"@) + " was closed without being merged — the workflow"@,
        ),
        url is None && outcome == PrOutcome::Merged ==> text::starts_with(
            r@,
            "The PR"@ + " has been merged — the workflow for issue #"@,
        ),
        url is None && outcome == PrOutcome::Closed ==> text::starts_with(
            r@,
            "The PR"@ + " was closed without being merged — the workflow"@,
        ),
        text::contains(r@, "`ghwf wait "@ + text::decimal(number as nat) + "`"@),
{
    let v = text::decimal(number as nat);
    lemma_ended(v);
    let head = match url {
        Some(url) => "The PR ("@ + url@ + ")"@,
        None => "The PR"@,
    };
    let body = match outcome {
        PrOutcome::Merged => render::MERGED_BODY@,
        PrOutcome::Closed => render::CLOSED_BODY@,
    };
    let p = match outcome {
        PrOutcome::Merged => " has been merged — the workflow for issue #"@,
        PrOutcome::Closed => " was closed without being merged — the workflow"@,
    };
    let filled = text::fill(body, v);
    assert(r@ == head + filled);
    assert(filled.subrange(0, p.len() as int) == p);
    assert(r@.subrange(0, (head + p).len() as int) =~= head + p) by {
        assert forall|i: int| 0 <= i < p.len() implies filled[i] == p[i] by {
            assert(filled.subrange(0, p.len() as int)[i] == p[i]);
        }
    }
    lemma_wider(head, filled, Seq::empty(), "`ghwf wait "@ + v + "`"@);
}

proof fn lemma_ended(v: Seq<char>)
    ensures
        text::starts_with(
            text::fill(render::MERGED_BODY@, v),
            " has been merged — the workflow for issue #"@,
        ),
        text::starts_with(
            text::fill(render::CLOSED_BODY@, v),
            " was closed without being merged — the workflow"@,
        ),
        text::contains(text::fill(render::MERGED_BODY@, v), "`ghwf wait "@ + v + "`"@),
        text::contains(text::fill(render::CLOSED_BODY@, v), "`ghwf wait "@ + v + "`"@),
{
    reveal_strlit(" has been merged — the workflow for issue #% is complete.\n\n\
     Stop the wait/work-on loop: do not run `ghwf wait %` or \
     `ghwf work-on %` again unless the user asks.");
    reveal_strlit(" was closed without being merged — the workflow for issue #% \
     has halted.\n\n\
     Surface this to the user and stop the wait/work-on loop: do not run \
     `ghwf wait %` or `ghwf work-on %` again unless the user asks. \
     (Reopening the PR resumes the workflow on the next `ghwf work-on %`.)");
    reveal_strlit("`ghwf wait ");
    reveal_strlit("`");
    reveal_strlit(" has been merged — the workflow for issue #");
    reveal_strlit(" was closed without being merged — the workflow");
    let a = "`ghwf wait "@;
    let b = "`"@;
    lemma_fill_one(a, b, v);
    let part = a.push('%') + b;
    assert(render::MERGED_BODY@.subrange(98, 98int + part.len()) =~= part);
    lemma_fill_within(render::MERGED_BODY@, part, v, 98);
    assert(render::CLOSED_BODY@.subrange(142, 142int + part.len()) =~= part);
    lemma_fill_within(render::CLOSED_BODY@, part, v, 142);
    let p = " has been merged — the workflow for issue #"@;
    assert(render::MERGED_BODY@.take(p.len() as int) =~= p);
    lemma_fill_head(render::MERGED_BODY@, p, v);
    let q = " was closed without being merged — the workflow"@;
    assert(render::CLOSED_BODY@.take(q.len() as int) =~= q);
    lemma_fill_head(render::CLOSED_BODY@, q, v);
}

} // verus!
