//! Which labels an issue and its PR carry, and which labels there are.

use vstd::prelude::*;
use vstd::utf8::encode_utf8;

use crate::config::LabelsConfig;
use crate::github::RepoRef;
use crate::labels::{self, DefaultLabel, LabelChanges, Setup};
use crate::laws::targets::{digit_value, lemma_hex};
use crate::priority_labels::{self, NewLabel};
use crate::resync;
use crate::state::{Attention, IssueState, LabelSyncRecord, Phase, PrOutcome};
use crate::store;
use crate::text;

verus! {

/// Labels are set where they are configured and differ from those set last: by the phase
/// and, while the workflow goes on, by whose turn it is.
pub proof fn labels_follow_the_workflow(
    configured: bool,
    pr: Option<u64>,
    state: &IssueState,
    r: Option<LabelSyncRecord>,
)
    requires
        call_ensures(labels::sync, (configured, pr, state), r),
    ensures
        !configured ==> r is None,
        r is Some ==> r->0.phase == state.phase && r->0.pr_number == pr && (state.pr_outcome is None
            ==> r->0.attention == Some(state.attention)) && (state.pr_outcome is Some
            ==> r->0.attention is None) && state.labels_synced != r,
        configured && r is None ==> state.labels_synced is Some && state.labels_synced->0.phase
            == state.phase && state.labels_synced->0.pr_number == pr && (state.pr_outcome is None
            ==> state.labels_synced->0.attention == Some(state.attention)) && (
        state.pr_outcome is Some ==> state.labels_synced->0.attention is None),
{
}

/// Once the PR is merged the label is the finished one; nobody's turn is marked any more.
pub proof fn ended_workflows_are_nobodys_turn(
    configured: bool,
    pr: Option<u64>,
    conclusion: PrOutcome,
    state: &IssueState,
    r: Option<LabelSyncRecord>,
    phase: Phase,
    p: Phase,
)
    requires
        call_ensures(labels::sync_concluded, (configured, pr, conclusion, state), r),
        call_ensures(labels::concluded_phase, (conclusion, phase), p),
    ensures
        !configured ==> r is None,
        r is Some ==> r->0.attention is None && r->0.pr_number == pr && (conclusion
            == PrOutcome::Merged ==> r->0.phase == Phase::Finished) && (conclusion
            == PrOutcome::Closed ==> r->0.phase == state.phase) && state.labels_synced != r,
        configured && r is None ==> state.labels_synced is Some
            && state.labels_synced->0.attention is None && state.labels_synced->0.pr_number == pr
            && (conclusion == PrOutcome::Merged ==> state.labels_synced->0.phase
            == Phase::Finished) && (conclusion == PrOutcome::Closed ==> state.labels_synced->0.phase
            == state.phase),
        conclusion == PrOutcome::Merged ==> p == Phase::Finished,
        conclusion == PrOutcome::Closed ==> p == phase,
{
}

/// What was set is remembered only where all of it was.
pub proof fn set_labels_are_remembered(
    before: IssueState,
    record: LabelSyncRecord,
    all_ok: bool,
    after: IssueState,
    a: &LabelSyncRecord,
    b: &LabelSyncRecord,
    same: bool,
)
    requires
        exists|g: &mut IssueState| #[trigger]
            call_ensures(labels::record_sync, (g, record, all_ok), ()) && *g == before && *final(g)
                == after,
        call_ensures(labels::same_record, (a, b), same),
    ensures
        all_ok ==> after.labels_synced == Some(record),
        !all_ok ==> after == before,
        after == (IssueState { labels_synced: after.labels_synced, ..before }),
        same <==> a.phase == b.phase && a.attention == b.attention && a.pr_number == b.pr_number,
{
}

/// The label of a phase.
pub open spec fn of_phase(cfg: LabelsConfig, phase: Phase, l: Seq<char>) -> bool {
    match phase {
        Phase::PrePlan => l == cfg.phase.pre_plan@,
        Phase::PrepAndPlan => l == cfg.phase.prep_and_plan@,
        Phase::Implement => l == cfg.phase.implement@,
        Phase::Review => l == cfg.phase.review@,
        Phase::Finished => l == cfg.phase.finished@,
    }
}

/// The label of whose turn it is.
pub open spec fn of_turn(cfg: LabelsConfig, attention: Option<Attention>, l: Seq<char>) -> bool {
    match attention {
        Some(Attention::WaitingOnUser) => l == cfg.attention.waiting_on_user@,
        Some(Attention::WaitingOnClaude) => l == cfg.attention.waiting_on_claude@,
        Some(Attention::WaitingOnGhwf) => l == cfg.attention.waiting_on_ghwf@,
        None => false,
    }
}

/// The label is one of the configured ones.
pub open spec fn is_own(cfg: LabelsConfig, l: Seq<char>) -> bool {
    ||| of_phase(cfg, Phase::PrePlan, l)
    ||| of_phase(cfg, Phase::PrepAndPlan, l)
    ||| of_phase(cfg, Phase::Implement, l)
    ||| of_phase(cfg, Phase::Review, l)
    ||| of_phase(cfg, Phase::Finished, l)
    ||| of_turn(cfg, Some(Attention::WaitingOnUser), l)
    ||| of_turn(cfg, Some(Attention::WaitingOnClaude), l)
    ||| of_turn(cfg, Some(Attention::WaitingOnGhwf), l)
}

/// The list has this text.
pub open spec fn holds(v: Seq<String>, l: Seq<char>) -> bool {
    exists|i: int| #![trigger v[i]] 0 <= i < v.len() && v[i]@ == l
}

proof fn lemma_own(cfg: LabelsConfig, l: Seq<char>)
    ensures
        is_own(cfg, l) <==> cfg.names().contains(l),
{
    let names = cfg.names();
    assert(names[0] == cfg.phase.pre_plan@);
    assert(names[1] == cfg.phase.prep_and_plan@);
    assert(names[2] == cfg.phase.implement@);
    assert(names[3] == cfg.phase.review@);
    assert(names[4] == cfg.phase.finished@);
    assert(names[5] == cfg.attention.waiting_on_user@);
    assert(names[6] == cfg.attention.waiting_on_claude@);
    assert(names[7] == cfg.attention.waiting_on_ghwf@);
}

proof fn lemma_desired(cfg: LabelsConfig, phase: Phase, attention: Option<Attention>, l: Seq<char>)
    ensures
        labels::desired(cfg, phase, attention).contains(l) <==> of_phase(cfg, phase, l) || of_turn(
            cfg,
            attention,
            l,
        ),
{
    let d = labels::desired(cfg, phase, attention);
    if of_phase(cfg, phase, l) || of_turn(cfg, attention, l) {
        if d.len() == 1 {
            assert(d[0] == l);
        } else {
            assert(d[0] == l || d[1] == l);
        }
    }
}

proof fn lemma_holds(v: Seq<String>, l: Seq<char>)
    ensures
        holds(v, l) <==> text::views(v).contains(l),
{
    if holds(v, l) {
        let i = choose|i: int| #![trigger v[i]] 0 <= i < v.len() && v[i]@ == l;
        assert(text::views(v)[i] == l);
    }
    if text::views(v).contains(l) {
        let i = choose|i: int| 0 <= i < text::views(v).len() && text::views(v)[i] == l;
        assert(v[i]@ == l);
    }
}

/// The labels to carry are the phase's and the turn's, each once.
pub proof fn a_phase_and_a_turn_are_carried<'a>(
    cfg: &'a LabelsConfig,
    phase: Phase,
    attention: Option<Attention>,
    r: Vec<&'a str>,
    l: Seq<char>,
    i: int,
    j: int,
)
    requires
        call_ensures(labels::desired_labels, (cfg, phase, attention), r),
    ensures
        (exists|k: int| #![trigger r@[k]] 0 <= k < r@.len() && r@[k]@ == l) <==> of_phase(
            *cfg,
            phase,
            l,
        ) || of_turn(*cfg, attention, l),
        0 <= i < j < r@.len() ==> r@[i]@ != r@[j]@,
{
    let views = text::str_views(r@);
    lemma_desired(*cfg, phase, attention, l);
    assert(views.len() == r@.len());
    if views.contains(l) {
        let k = choose|k: int| 0 <= k < views.len() && views[k] == l;
        assert(r@[k]@ == l);
    }
    if exists|k: int| #![trigger r@[k]] 0 <= k < r@.len() && r@[k]@ == l {
        let k = choose|k: int| #![trigger r@[k]] 0 <= k < r@.len() && r@[k]@ == l;
        assert(views[k] == l);
    }
    if 0 <= i < j < r@.len() {
        assert(views[i] == r@[i]@ && views[j] == r@[j]@);
    }
}

proof fn lemma_changes(
    current: Seq<Seq<char>>,
    configured: Seq<Seq<char>>,
    wanted: Seq<Seq<char>>,
    l: Seq<char>,
)
    ensures
        labels::to_remove(current, configured, wanted).contains(l) <==> current.contains(l)
            && configured.contains(l) && !wanted.contains(l),
    decreases current.len(),
{
    if current.len() > 0 {
        let init = current.drop_last();
        lemma_changes(init, configured, wanted, l);
        let all = labels::to_remove(current, configured, wanted);
        let before = labels::to_remove(init, configured, wanted);
        if all.contains(l) {
            let m = choose|m: int| 0 <= m < all.len() && all[m] == l;
            if m < before.len() {
                assert(before[m] == l);
                let k = choose|k: int| 0 <= k < init.len() && init[k] == l;
                assert(current[k] == l);
            } else {
                assert(current[current.len() - 1] == l);
            }
        }
        if current.contains(l) && configured.contains(l) && !wanted.contains(l) {
            let k = choose|k: int| 0 <= k < current.len() && current[k] == l;
            if k < init.len() {
                assert(init[k] == l);
                let m = choose|m: int| 0 <= m < before.len() && before[m] == l;
                assert(all[m] == l);
            } else {
                assert(all[before.len() as int] == l);
            }
        }
    } else {
        assert(labels::to_remove(current, configured, wanted).len() == 0);
    }
}

proof fn lemma_additions(current: Seq<Seq<char>>, wanted: Seq<Seq<char>>, l: Seq<char>)
    ensures
        labels::to_add(current, wanted).contains(l) <==> wanted.contains(l) && !current.contains(l),
    decreases wanted.len(),
{
    if wanted.len() > 0 {
        let init = wanted.drop_last();
        lemma_additions(current, init, l);
        let all = labels::to_add(current, wanted);
        let before = labels::to_add(current, init);
        if all.contains(l) {
            let m = choose|m: int| 0 <= m < all.len() && all[m] == l;
            if m < before.len() {
                assert(before[m] == l);
                let k = choose|k: int| 0 <= k < init.len() && init[k] == l;
                assert(wanted[k] == l);
            } else {
                assert(wanted[wanted.len() - 1] == l);
            }
        }
        if wanted.contains(l) && !current.contains(l) {
            let k = choose|k: int| 0 <= k < wanted.len() && wanted[k] == l;
            if k < init.len() {
                assert(init[k] == l);
                let m = choose|m: int| 0 <= m < before.len() && before[m] == l;
                assert(all[m] == l);
            } else {
                assert(all[before.len() as int] == l);
            }
        }
    } else {
        assert(labels::to_add(current, wanted).len() == 0);
    }
}

/// A thread loses the configured labels that no longer hold, and no others, and gets
/// those that hold and are missing.
pub proof fn threads_carry_what_holds(
    cfg: &LabelsConfig,
    current: &Vec<String>,
    phase: Phase,
    attention: Option<Attention>,
    r: LabelChanges,
    l: Seq<char>,
)
    requires
        call_ensures(labels::sync_thread, (cfg, current, phase, attention), r),
    ensures
        holds(r.remove@, l) <==> holds(current@, l) && is_own(*cfg, l) && !of_phase(*cfg, phase, l)
            && !of_turn(*cfg, attention, l),
        holds(r.add@, l) <==> !holds(current@, l) && (of_phase(*cfg, phase, l) || of_turn(
            *cfg,
            attention,
            l,
        )),
{
    let wanted = labels::desired(*cfg, phase, attention);
    lemma_own(*cfg, l);
    lemma_desired(*cfg, phase, attention, l);
    lemma_holds(r.remove@, l);
    lemma_holds(r.add@, l);
    lemma_holds(current@, l);
    lemma_changes(text::views(current@), cfg.names(), wanted, l);
    lemma_additions(text::views(current@), wanted, l);
}

/// The label of each phase and of each turn is the one configured for it.
pub proof fn configured_labels_are_used(
    cfg: &LabelsConfig,
    phase: Phase,
    attention: Attention,
    p: &str,
    a: &str,
    all: [&str; 8],
    l: Seq<char>,
)
    requires
        call_ensures(LabelsConfig::for_phase, (cfg, phase), p),
        call_ensures(LabelsConfig::for_attention, (cfg, attention), a),
        call_ensures(LabelsConfig::all, (cfg,), all),
    ensures
        of_phase(*cfg, phase, p@),
        of_turn(*cfg, Some(attention), a@),
        is_own(*cfg, l) <==> exists|k: int| #![trigger all@[k]] 0 <= k < 8 && all@[k]@ == l,
{
    let views = text::str_views(all@);
    lemma_own(*cfg, l);
    if views.contains(l) {
        let k = choose|k: int| 0 <= k < views.len() && views[k] == l;
        assert(all@[k]@ == l);
    }
    if exists|k: int| #![trigger all@[k]] 0 <= k < 8 && all@[k]@ == l {
        let k = choose|k: int| #![trigger all@[k]] 0 <= k < 8 && all@[k]@ == l;
        assert(views[k] == l);
    }
}

/// A default label: its key, its name, its colour and what it says.
pub open spec fn is_default(
    d: DefaultLabel,
    key: Seq<char>,
    name: Seq<char>,
    color: Seq<char>,
    says: Seq<char>,
) -> bool {
    d.key@ == key && d.name@ == name && d.color@ == color && d.description@ == says
}

/// The default labels.
pub proof fn defaults_are_named(agent: &str, r: [DefaultLabel; 8])
    requires
        call_ensures(labels::defaults, (agent,), r),
    ensures
        is_default(
            r@[0],
            "pre-plan"@,
            "ghwf:pre-plan"@,
            "c5def5"@,
            "ghwf: gathering context before planning"@,
        ),
        is_default(
            r@[1],
            "prep-and-plan"@,
            "ghwf:planning"@,
            "8ab8ef"@,
            "ghwf: writing the implementation plan"@,
        ),
        is_default(
            r@[2],
            "implement"@,
            "ghwf:implementing"@,
            "4a90d9"@,
            "ghwf: coding the change"@,
        ),
        is_default(
            r@[3],
            "review"@,
            "ghwf:review"@,
            "1d76db"@,
            "ghwf: awaiting human review"@,
        ),
        is_default(
            r@[4],
            "finished"@,
            "ghwf:finished"@,
            "8957e5"@,
            "ghwf: workflow complete"@,
        ),
        is_default(
            r@[5],
            "waiting-on-user"@,
            "ghwf:needs-you"@,
            "d93f0b"@,
            "ghwf: waiting on the user"@,
        ),
        is_default(
            r@[6],
            "waiting-on-"@ + text::lower(agent@),
            "ghwf:"@ + text::lower(agent@) + "-working"@,
            "0e8a16"@,
            "ghwf: waiting on "@ + agent@,
        ),
        is_default(
            r@[7],
            "waiting-on-ghwf"@,
            "ghwf:preparing"@,
            "bfbfbf"@,
            "ghwf: machinery at work"@,
        ),
{
    let v = labels::views(r@);
    assert(v == labels::default_labels(agent@));
    assert(v[0] == r@[0].view());
    assert(v[1] == r@[1].view());
    assert(v[2] == r@[2].view());
    assert(v[3] == r@[3].view());
    assert(v[4] == r@[4].view());
    assert(v[5] == r@[5].view());
    assert(v[6] == r@[6].view());
    assert(v[7] == r@[7].view());
}

proof fn lemma_missing(
    agent: Seq<char>,
    names: Seq<Seq<char>>,
    existing: Seq<String>,
    from: int,
    name: Seq<char>,
)
    requires
        0 <= from,
    ensures
        (exists|k: int|
            #![trigger labels::missing_from(agent, names, existing, from)[k]]
            0 <= k < labels::missing_from(agent, names, existing, from).len()
                && labels::missing_from(agent, names, existing, from)[k].0 == name) <==> (exists|
            i: int,
        |
            #![trigger names[i]]
            from <= i < names.len() && names[i] == name) && !holds(existing, name),
    decreases names.len() - from,
{
    let all = labels::missing_from(agent, names, existing, from);
    if from < names.len() {
        let rest = labels::missing_from(agent, names, existing, from + 1);
        lemma_missing(agent, names, existing, from + 1, name);
        lemma_listed(existing, names[from]);
        let shift: int = if text::listed(existing, names[from]) {
            0
        } else {
            1
        };
        assert forall|k: int| 0 <= k < rest.len() implies all[k + shift] == #[trigger] rest[k] by {}
        if exists|k: int| #![trigger all[k]] 0 <= k < all.len() && all[k].0 == name {
            let k = choose|k: int| #![trigger all[k]] 0 <= k < all.len() && all[k].0 == name;
            if k >= shift {
                assert(rest[k - shift].0 == name);
            } else {
                assert(names[from] == name);
            }
        }
        if (exists|i: int| #![trigger names[i]] from <= i < names.len() && names[i] == name)
            && !holds(existing, name) {
            let i = choose|i: int|
                #![trigger names[i]]
                from <= i < names.len() && names[i] == name;
            if i == from {
                assert(all[0].0 == name);
            } else {
                assert(from + 1 <= i);
                let k = choose|k: int| #![trigger rest[k]] 0 <= k < rest.len() && rest[k].0 == name;
                assert(all[k + shift].0 == name);
            }
        }
    }
}

proof fn lemma_listed(v: Seq<String>, name: Seq<char>)
    ensures
        text::listed(v, name) <==> holds(v, name),
{
    if holds(v, name) {
        let i = choose|i: int| #![trigger v[i]] 0 <= i < v.len() && v[i]@ == name;
        assert(v[i]@ == name);
    }
    if text::listed(v, name) {
        let i = choose|i: int| 0 <= i < v.len() && #[trigger] v[i]@ == name;
        assert(v[i]@ == name);
    }
}

/// Created are the configured labels that do not exist yet, and no others.
pub proof fn missing_labels_are_created<'a>(
    agent: &str,
    cfg: &'a LabelsConfig,
    existing: &Vec<String>,
    r: Vec<(&'a str, &'static str, String)>,
    name: Seq<char>,
)
    requires
        call_ensures(labels::labels_to_create, (agent, cfg, existing), r),
    ensures
        (exists|k: int| #![trigger r@[k]] 0 <= k < r@.len() && r@[k].0@ == name) <==> is_own(
            *cfg,
            name,
        ) && !holds(existing@, name),
{
    let all = labels::missing_from(agent@, cfg.names(), existing@, 0);
    let views = labels::label_views(r@);
    assert(views.len() == r@.len());
    lemma_missing(agent@, cfg.names(), existing@, 0, name);
    lemma_own(*cfg, name);
    let names = cfg.names();
    if names.contains(name) {
        let i = choose|i: int| 0 <= i < names.len() && names[i] == name;
        assert(names[i] == name);
    }
    if exists|k: int| #![trigger r@[k]] 0 <= k < r@.len() && r@[k].0@ == name {
        let k = choose|k: int| #![trigger r@[k]] 0 <= k < r@.len() && r@[k].0@ == name;
        assert(views[k].0 == name);
        assert(all[k].0 == name);
    }
    if exists|k: int| #![trigger all[k]] 0 <= k < all.len() && all[k].0 == name {
        let k = choose|k: int| #![trigger all[k]] 0 <= k < all.len() && all[k].0 == name;
        assert(views[k].0 == name);
        assert(r@[k].0@ == name);
    }
}

/// The section that is written has a line per default label, phases first; it is added
/// below the file's own lines, and only where there is none.
pub proof fn the_section_names_the_defaults(
    agent: &str,
    r: String,
    config: &str,
    section: &str,
    whole: String,
    present: bool,
    setup: Setup,
)
    requires
        call_ensures(labels::labels_section, (agent,), r),
        call_ensures(labels::configure_at, (config, section), whole),
        call_ensures(labels::configure, (present,), setup),
    ensures
        text::contains(r@, "pre-plan"@ + " = \""@ + "ghwf:pre-plan"@ + "\"\n"@),
        text::contains(r@, "prep-and-plan"@ + " = \""@ + "ghwf:planning"@ + "\"\n"@),
        text::contains(r@, "implement"@ + " = \""@ + "ghwf:implementing"@ + "\"\n"@),
        text::contains(r@, "review"@ + " = \""@ + "ghwf:review"@ + "\"\n"@),
        text::contains(r@, "finished"@ + " = \""@ + "ghwf:finished"@ + "\"\n"@),
        text::contains(r@, "waiting-on-user"@ + " = \""@ + "ghwf:needs-you"@ + "\"\n"@),
        text::contains(
            r@,
            ("waiting-on-"@ + text::lower(agent@)) + " = \""@ + ("ghwf:"@ + text::lower(agent@)
                + "-working"@) + "\"\n"@,
        ),
        text::contains(r@, "waiting-on-ghwf"@ + " = \""@ + "ghwf:preparing"@ + "\"\n"@),
        text::starts_with(r@, "\n[labels.phase]\n"@),
        text::contains(r@, "\n[labels.attention]\n"@),
        text::ends_with(config@, "\n"@) ==> whole@ == config@ + section@,
        !text::ends_with(config@, "\n"@) ==> whole@ == config@ + "\n"@ + section@,
        present ==> setup == Setup::Reconcile,
        !present ==> setup == Setup::Create,
{
    let d = labels::default_labels(agent@);
    let p = d.subrange(0, 5);
    let t = d.subrange(5, 8);
    let a = "\n[labels.phase]\n"@;
    let b = labels::section_lines(p);
    let c = "\n[labels.attention]\n"@;
    let e = labels::section_lines(t);
    assert(r@ == a + b + c + e);
    crate::laws::texts::lemma_within(Seq::empty(), a, b + c + e);
    assert(a + b + c + e =~= a + (b + c + e));
    crate::laws::texts::lemma_within(a + b, c, e);
    assert(a + b + c + e =~= a + b + (c + e));
    assert forall|i: int| 0 <= i < 5 implies text::contains(
        r@,
        labels::section_line(#[trigger] d[i]),
    ) by {
        lemma_section(p, i);
        assert(p[i] == d[i]);
        crate::laws::texts::lemma_wider(a, b, c + e, labels::section_line(d[i]));
    }
    assert forall|i: int| 5 <= i < 8 implies text::contains(
        r@,
        labels::section_line(#[trigger] d[i]),
    ) by {
        lemma_section(t, i - 5);
        assert(t[i - 5] == d[i]);
        crate::laws::texts::lemma_wider(a + b + c, e, Seq::empty(), labels::section_line(d[i]));
    }
    assert(text::contains(r@, labels::section_line(d[0])));
    assert(text::contains(r@, labels::section_line(d[1])));
    assert(text::contains(r@, labels::section_line(d[2])));
    assert(text::contains(r@, labels::section_line(d[3])));
    assert(text::contains(r@, labels::section_line(d[4])));
    assert(text::contains(r@, labels::section_line(d[5])));
    assert(text::contains(r@, labels::section_line(d[6])));
    assert(text::contains(r@, labels::section_line(d[7])));
}

proof fn lemma_section(v: Seq<labels::LabelView>, i: int)
    requires
        0 <= i < v.len(),
    ensures
        text::contains(labels::section_lines(v), labels::section_line(v[i])),
    decreases v.len(),
{
    let init = v.drop_last();
    let row = labels::section_line(v.last());
    if i < init.len() {
        lemma_section(init, i);
        assert(init[i] == v[i]);
        crate::laws::texts::lemma_wider(
            Seq::empty(),
            labels::section_lines(init),
            row,
            labels::section_line(v[i]),
        );
    } else {
        crate::laws::texts::lemma_within(labels::section_lines(init), row, Seq::empty());
    }
}

/// The two well-known priority labels have their own colours and words, whatever the case
/// of their letters; any other has the colour its name gives it, and no words.
pub proof fn priority_labels_have_colours(
    name: &str,
    known: Option<(&'static str, &'static str)>,
    digest: String,
    color: String,
    says: &'static str,
)
    requires
        call_ensures(priority_labels::recognised, (name,), known),
        call_ensures(priority_labels::digest_colour, (name,), digest),
        call_ensures(priority_labels::colour_for, (name,), color),
        call_ensures(priority_labels::description_for, (name,), says),
    ensures
        text::lower(name@) == "high-priority"@ ==> known == Some(("fbca04", "High priority"))
            && color@ == "fbca04"@ && says@ == "High priority"@,
        text::lower(name@) == "medium-priority"@ ==> known == Some(("fef2c0", "Medium priority"))
            && color@ == "fef2c0"@ && says@ == "Medium priority"@,
        text::lower(name@) != "high-priority"@ && text::lower(name@) != "medium-priority"@
            ==> known is None && color@ == digest@ && says@ == ""@,
        digest@.len() == 6,
{
    reveal_strlit("high-priority");
    reveal_strlit("medium-priority");
    assert(text::lower("high-priority"@) =~= "high-priority"@);
    assert(text::lower("medium-priority"@) =~= "medium-priority"@);
    assert("high-priority"@.len() != "medium-priority"@.len());
}

/// The number that six hexadecimal digits write.
pub open spec fn written(d: Seq<char>) -> int {
    (digit_value(d[0]) * 16 + digit_value(d[1])) * 0x1_0000 + (digit_value(d[2]) * 16 + digit_value(
        d[3],
    )) * 0x100 + (digit_value(d[4]) * 16 + digit_value(d[5]))
}

proof fn lemma_encoded(s: Seq<char>, c: char)
    requires
        (c as u32) < 0x80,
    ensures
        encode_utf8(s.push(c)) == encode_utf8(s).push(c as u8),
    decreases s.len(),
{
    if s.len() == 0 {
        assert(s.push(c).drop_first() =~= seq![]);
        assert(encode_utf8(Seq::<char>::empty()) =~= seq![]);
        let n = c as u32;
        assert(n < 0x80 ==> (n & 0x7F) as u8 == n as u8) by (bit_vector);
        assert(encode_utf8(s.push(c)) =~= seq![c as u8]);
    } else {
        assert(s.push(c).drop_first() =~= s.drop_first().push(c));
        lemma_encoded(s.drop_first(), c);
        assert(encode_utf8(s.push(c)) =~= encode_utf8(s).push(c as u8));
    }
}

proof fn lemma_low_bits(h: u64, b: u64)
    requires
        b < 0x100,
    ensures
        (h ^ b).wrapping_mul(0x0000_0100_0000_01b3u64) % 0x100_0000u64 == (((h % 0x100_0000u64) ^ b)
            * 0x1b3) % 0x100_0000,
{
    assert((h ^ b) % 0x100_0000u64 == (h % 0x100_0000u64) ^ b) by (bit_vector)
        requires
            b < 0x100,
    ;
    let x = (h ^ b) as int;
    let z = ((h % 0x100_0000u64) ^ b) as int;
    let w = (h ^ b).wrapping_mul(0x0000_0100_0000_01b3u64) as int;
    let a = (x * 0x0000_0100_0000_01b3) / 0x1_0000_0000_0000_0000;
    let y = x / 0x100_0000;
    assert(x == 0x100_0000 * y + z);
    assert(w == x * 0x0000_0100_0000_01b3 - 0x1_0000_0000_0000_0000 * a);
    let k = 0x1b3 * y + x * 0x1_0000 - 0x100_0000_0000 * a;
    assert(w == 0x1b3 * z + 0x100_0000 * k);
    assert(w % 0x100_0000 == (0x1b3 * z) % 0x100_0000);
}

proof fn lemma_written(h: u64)
    ensures
        written(store::hex_of(priority_labels::low_bytes(h))) == h % 0x100_0000,
{
    let bytes = priority_labels::low_bytes(h);
    lemma_hex(bytes, 0);
    lemma_hex(bytes, 1);
    lemma_hex(bytes, 2);
    assert(h % 0x100_0000 == (h / 0x1_0000 % 0x100) * 0x1_0000 + (h / 0x100 % 0x100) * 0x100 + h
        % 0x100);
}

/// The colour that the hash of `bytes` gives, as a number.
#[verifier::opaque]
pub open spec fn tint(bytes: Seq<u8>) -> int {
    written(store::hex_of(priority_labels::low_bytes(priority_labels::fnv1a(bytes))))
}

proof fn lemma_tint(bytes: Seq<u8>)
    ensures
        tint(bytes) == priority_labels::fnv1a(bytes) % 0x100_0000,
{
    reveal(tint);
    lemma_written(priority_labels::fnv1a(bytes));
}

proof fn lemma_hash_step(bytes: Seq<u8>, b: u8)
    ensures
        bytes.len() == 0 ==> priority_labels::fnv1a(bytes) == 0xcbf2_9ce4_8422_2325u64,
        priority_labels::fnv1a(bytes.push(b)) == (priority_labels::fnv1a(bytes) ^ (
        b as u64)).wrapping_mul(0x0000_0100_0000_01b3u64),
{
    assert(bytes.push(b).drop_last() =~= bytes);
}

proof fn lemma_hashed(bytes: Seq<u8>, b: u8)
    ensures
        bytes.len() == 0 ==> tint(bytes) == 0x22_2325,
        0 <= tint(bytes) < 0x100_0000,
        tint(bytes.push(b)) == ((tint(bytes) as u64 ^ b as u64) * 0x1b3) % 0x100_0000,
{
    lemma_hash_step(bytes, b);
    lemma_tint(bytes);
    lemma_tint(bytes.push(b));
    lemma_low_bits(priority_labels::fnv1a(bytes), b as u64);
}

/// A name's own colour is made from it letter by letter, and not from their case: each
/// letter goes into what the letters before it gave, which is then spread over six digits.
pub proof fn colours_are_made_letter_by_letter(
    name: &str,
    r: String,
    c: char,
    longer: &str,
    s: String,
)
    requires
        call_ensures(priority_labels::digest_colour, (name,), r),
        call_ensures(priority_labels::digest_colour, (longer,), s),
        longer@ == name@.push(c),
        (c as u32) < 0x80,
    ensures
        name@.len() == 0 ==> written(r@) == 0x22_2325,
        0 <= written(r@) < 0x100_0000,
        written(s@) == ((written(r@) as u64 ^ text::lower_char(c) as u64) * 0x1b3) % 0x100_0000,
{
    let low = text::lower(name@);
    let d = text::lower_char(c);
    assert(text::lower(longer@) =~= low.push(d));
    lemma_encoded(low, d);
    assert(written(r@) == tint(encode_utf8(low))) by {
        reveal(tint);
    }
    assert(written(s@) == tint(encode_utf8(low.push(d)))) by {
        reveal(tint);
    }
    lemma_hashed(encode_utf8(low), d as u8);
    if name@.len() == 0 {
        assert(encode_utf8(low) =~= seq![]);
    }
}

/// Two spellings of a label that differ in the case of their letters have one colour.
pub proof fn colours_do_not_depend_on_case(
    a: &str,
    b: &str,
    of_a: String,
    of_b: String,
    digest_a: String,
    digest_b: String,
)
    requires
        text::lower(a@) == text::lower(b@),
        call_ensures(priority_labels::colour_for, (a,), of_a),
        call_ensures(priority_labels::colour_for, (b,), of_b),
        call_ensures(priority_labels::digest_colour, (a,), digest_a),
        call_ensures(priority_labels::digest_colour, (b,), digest_b),
    ensures
        of_a@ == of_b@,
        digest_a@ == digest_b@,
{
}

/// The list has this text, whatever the case of the letters.
pub open spec fn holds_name(v: Seq<String>, name: Seq<char>) -> bool {
    exists|i: int| #![trigger v[i]] 0 <= i < v.len() && text::lower(v[i]@) == text::lower(name)
}

proof fn lemma_absent(labels: Seq<String>, listed: Seq<String>, k: int)
    ensures
        ({
            let all = priority_labels::missing(labels, listed);
            &&& 0 <= k < labels.len() && !holds_name(listed, labels[k]@) ==> exists|j: int|
                #![trigger all[j]]
                0 <= j < all.len() && all[j].0 == labels[k]@
            &&& 0 <= k < all.len() ==> !holds_name(listed, all[k].0) && exists|j: int|
                #![trigger labels[j]]
                0 <= j < labels.len() && labels[j]@ == all[k].0 && all[k].1
                    == priority_labels::colour(labels[j]@) && all[k].2
                    == priority_labels::description(labels[j]@)
        }),
    decreases labels.len(),
{
    if labels.len() > 0 {
        let init = labels.drop_last();
        lemma_absent(init, listed, k);
        let all = priority_labels::missing(labels, listed);
        let before = priority_labels::missing(init, listed);
        let last = labels.len() - 1;
        let name = labels[last]@;
        if holds_name(listed, name) {
            let i = choose|i: int|
                #![trigger listed[i]]
                0 <= i < listed.len() && text::lower(listed[i]@) == text::lower(name);
            assert(text::lower(listed[i]@) == text::lower(name));
            assert(priority_labels::is_listed(listed, name));
        }
        if priority_labels::is_listed(listed, name) {
            let i = choose|i: int|
                0 <= i < listed.len() && text::lower((#[trigger] listed[i])@) == text::lower(name);
            assert(text::lower(listed[i]@) == text::lower(name));
            assert(holds_name(listed, name));
        }
        if 0 <= k < labels.len() && !holds_name(listed, labels[k]@) {
            if k < init.len() {
                assert(init[k] == labels[k]);
                let j = choose|j: int|
                    #![trigger before[j]]
                    0 <= j < before.len() && before[j].0 == labels[k]@;
                assert(all[j].0 == labels[k]@);
            } else {
                assert(all[before.len() as int].0 == labels[k]@);
            }
        }
        if 0 <= k < all.len() {
            if k < before.len() {
                assert(before[k] == all[k]);
                let j = choose|j: int|
                    #![trigger init[j]]
                    0 <= j < init.len() && init[j]@ == before[k].0 && before[k].1
                        == priority_labels::colour(init[j]@) && before[k].2
                        == priority_labels::description(init[j]@);
                assert(labels[j] == init[j]);
            } else {
                assert(labels[last]@ == all[k].0);
            }
        }
    }
}

/// Created are the priority labels that the repository does not list under any case of
/// their letters, each with its colour and its words.
pub proof fn missing_priority_labels_are_created(
    wanted: &[String],
    listed: &[String],
    r: Vec<NewLabel>,
    k: int,
    name: &str,
    color: String,
    says: &'static str,
)
    requires
        call_ensures(priority_labels::create_in_repo, (wanted, listed), r),
        call_ensures(priority_labels::colour_for, (name,), color),
        call_ensures(priority_labels::description_for, (name,), says),
    ensures
        0 <= k < wanted@.len() && !holds_name(listed@, wanted@[k]@) ==> exists|j: int|
            #![trigger r@[j]]
            0 <= j < r@.len() && r@[j].name@ == wanted@[k]@,
        0 <= k < r@.len() ==> !holds_name(listed@, r@[k].name@) && holds(wanted@, r@[k].name@),
        0 <= k < r@.len() && r@[k].name@ == name@ ==> r@[k].color@ == color@
            && r@[k].description@ == says@,
{
    let views = priority_labels::new_label_views(r@);
    let all = priority_labels::missing(wanted@, listed@);
    assert(views.len() == r@.len());
    lemma_absent(wanted@, listed@, k);
    if 0 <= k < wanted@.len() && !holds_name(listed@, wanted@[k]@) {
        let j = choose|j: int| #![trigger all[j]] 0 <= j < all.len() && all[j].0 == wanted@[k]@;
        assert(views[j] == all[j]);
        assert(r@[j].name@ == wanted@[k]@);
    }
    if 0 <= k < r@.len() {
        assert(views[k] == all[k]);
        assert(all[k].0 == r@[k].name@);
        let j = choose|j: int|
            #![trigger wanted@[j]]
            0 <= j < wanted@.len() && wanted@[j]@ == all[k].0 && all[k].1
                == priority_labels::colour(wanted@[j]@) && all[k].2
                == priority_labels::description(wanted@[j]@);
        assert(wanted@[j]@ == r@[k].name@);
    }
}

/// What is said where there is nothing to create.
pub proof fn nothing_to_create_is_said(configured: usize, created: usize, r: Option<&'static str>)
    requires
        call_ensures(priority_labels::configure, (configured, created), r),
    ensures
        r is None <==> configured > 0 && created > 0,
        configured == 0 ==> r is Some && r->0@
            == "No `priority_labels` configured; nothing to create. \
     Set some (e.g. via `ghwf config init`) first."@,
        configured > 0 && created == 0 ==> r is Some && r->0@
            == "All configured priority labels already exist; nothing to create."@,
{
}

/// An abandoned workflow that goes on is handed back to the user: one whose turn is not
/// the user's, and that no session holds.
pub proof fn abandoned_workflows_are_handed_back(
    concluded: bool,
    attention: Attention,
    should: bool,
    before: IssueState,
    stale: bool,
    after: IssueState,
    r: bool,
    a: &Option<LabelSyncRecord>,
    b: &Option<LabelSyncRecord>,
    landed: bool,
)
    requires
        call_ensures(resync::should_reset_attention, (concluded, attention), should),
        exists|g: &mut IssueState| #[trigger]
            call_ensures(resync::reset_if_abandoned, (g, stale), r) && *g == before && *final(g)
                == after,
        call_ensures(resync::reset_landed, (a, b), landed),
    ensures
        should <==> !concluded && attention != Attention::WaitingOnUser,
        r <==> stale && !before.issue_closed && before.pr_outcome is None && before.attention
            != Attention::WaitingOnUser,
        r ==> after.attention == Attention::WaitingOnUser,
        !r ==> after == before,
        after == (IssueState { attention: after.attention, ..before }),
        landed <==> *a != *b,
{
}

/// The repository is listed.
pub open spec fn sweeps(v: Seq<RepoRef>, owner: Seq<char>, repo: Seq<char>) -> bool {
    exists|i: int| #![trigger v[i]] 0 <= i < v.len() && v[i].0@ == owner && v[i].1@ == repo
}

proof fn lemma_swept(
    sorted: Seq<(Seq<char>, Seq<char>)>,
    repo: (Seq<char>, Seq<char>),
    x: (Seq<char>, Seq<char>),
)
    ensures
        resync::with_repo(sorted, repo).contains(x) <==> sorted.contains(x) || x == repo,
    decreases sorted.len(),
{
    let all = resync::with_repo(sorted, repo);
    if sorted.len() == 0 {
        assert(all[0] == repo);
    } else if sorted.last() == repo {
        assert(sorted[sorted.len() - 1] == repo);
    } else if resync::repo_le(sorted.last(), repo) {
        if sorted.contains(x) {
            let k = choose|k: int| 0 <= k < sorted.len() && sorted[k] == x;
            assert(all[k] == x);
        }
        assert(all[sorted.len() as int] == repo);
        if all.contains(x) {
            let k = choose|k: int| 0 <= k < all.len() && all[k] == x;
            if k < sorted.len() {
                assert(sorted[k] == x);
            }
        }
    } else {
        let init = sorted.drop_last();
        lemma_swept(init, repo, x);
        let before = resync::with_repo(init, repo);
        if all.contains(x) {
            let k = choose|k: int| 0 <= k < all.len() && all[k] == x;
            if k < before.len() {
                assert(before[k] == x);
                if init.contains(x) {
                    let m = choose|m: int| 0 <= m < init.len() && init[m] == x;
                    assert(sorted[m] == x);
                }
            } else {
                assert(sorted[sorted.len() - 1] == x);
            }
        }
        if sorted.contains(x) || x == repo {
            if x == sorted.last() {
                assert(all[before.len() as int] == x);
            } else {
                if sorted.contains(x) {
                    let m = choose|m: int| 0 <= m < sorted.len() && sorted[m] == x;
                    assert(init[m] == x);
                }
                let k = choose|k: int| 0 <= k < before.len() && before[k] == x;
                assert(all[k] == x);
            }
        }
    }
}

proof fn lemma_order(repos: Seq<(Seq<char>, Seq<char>)>, x: (Seq<char>, Seq<char>))
    ensures
        resync::sweep_order(repos).contains(x) <==> repos.contains(x),
    decreases repos.len(),
{
    if repos.len() > 0 {
        let init = repos.drop_last();
        lemma_order(init, x);
        lemma_swept(resync::sweep_order(init), repos.last(), x);
        if repos.contains(x) {
            let k = choose|k: int| 0 <= k < repos.len() && repos[k] == x;
            if k < init.len() {
                assert(init[k] == x);
            }
        }
        if init.contains(x) {
            let k = choose|k: int| 0 <= k < init.len() && init[k] == x;
            assert(repos[k] == x);
        }
        if x == repos.last() {
            assert(repos[repos.len() - 1] == x);
        }
    }
}

/// One repository comes before another: by owner, then by name.
pub open spec fn earlier(a: (Seq<char>, Seq<char>), b: (Seq<char>, Seq<char>)) -> bool {
    a != b && (if a.0 == b.0 {
        text::le(a.1, b.1)
    } else {
        text::le(a.0, b.0)
    })
}

proof fn lemma_earlier_transitive(
    a: (Seq<char>, Seq<char>),
    b: (Seq<char>, Seq<char>),
    c: (Seq<char>, Seq<char>),
)
    requires
        earlier(a, b),
        earlier(b, c),
    ensures
        earlier(a, c),
{
    if a.0 == b.0 {
        if b.0 == c.0 {
            text::lemma_le_transitive(a.1, b.1, c.1);
            if a.1 == c.1 {
                text::lemma_le_antisymmetric(a.1, b.1);
            }
        }
    } else if b.0 != c.0 {
        text::lemma_le_transitive(a.0, b.0, c.0);
        if a.0 == c.0 {
            text::lemma_le_antisymmetric(a.0, b.0);
        }
    }
}

proof fn lemma_earlier_total(a: (Seq<char>, Seq<char>), b: (Seq<char>, Seq<char>))
    ensures
        a == b || earlier(a, b) || earlier(b, a),
{
    text::lemma_le_total(a.0, b.0);
    text::lemma_le_total(a.1, b.1);
}

spec fn is_rising(v: Seq<(Seq<char>, Seq<char>)>) -> bool {
    forall|i: int, j: int| 0 <= i < j < v.len() ==> earlier(#[trigger] v[i], #[trigger] v[j])
}

proof fn lemma_placed(sorted: Seq<(Seq<char>, Seq<char>)>, repo: (Seq<char>, Seq<char>))
    requires
        is_rising(sorted),
    ensures
        is_rising(resync::with_repo(sorted, repo)),
    decreases sorted.len(),
{
    if sorted.len() > 0 && sorted.last() != repo {
        let last = sorted.last();
        let init = sorted.drop_last();
        let all = resync::with_repo(sorted, repo);
        lemma_earlier_total(last, repo);
        if resync::repo_le(last, repo) {
            assert forall|i: int, j: int| 0 <= i < j < all.len() implies earlier(
                #[trigger] all[i],
                #[trigger] all[j],
            ) by {
                if j < sorted.len() {
                    assert(earlier(sorted[i], sorted[j]));
                } else if i < sorted.len() - 1 {
                    assert(earlier(sorted[i], sorted[sorted.len() - 1]));
                    lemma_earlier_transitive(sorted[i], last, repo);
                }
            }
        } else {
            assert forall|i: int, j: int| 0 <= i < j < init.len() implies earlier(
                #[trigger] init[i],
                #[trigger] init[j],
            ) by {
                assert(earlier(sorted[i], sorted[j]));
            }
            lemma_placed(init, repo);
            let before = resync::with_repo(init, repo);
            assert forall|i: int, j: int| 0 <= i < j < all.len() implies earlier(
                #[trigger] all[i],
                #[trigger] all[j],
            ) by {
                if j < before.len() {
                    assert(earlier(before[i], before[j]));
                } else {
                    let x = before[i];
                    lemma_swept(init, repo, x);
                    assert(before.contains(x));
                    if x != repo {
                        let m = choose|m: int| 0 <= m < init.len() && init[m] == x;
                        assert(earlier(sorted[m], sorted[sorted.len() - 1]));
                    } else {
                        assert(earlier(repo, last));
                    }
                }
            }
        }
    }
}

proof fn lemma_rising(repos: Seq<(Seq<char>, Seq<char>)>)
    ensures
        is_rising(resync::sweep_order(repos)),
    decreases repos.len(),
{
    if repos.len() > 0 {
        lemma_rising(repos.drop_last());
        lemma_placed(resync::sweep_order(repos.drop_last()), repos.last());
    }
}

/// Swept are the code's repository and those of the issues, each once, in order.
pub proof fn every_repository_is_swept_once(
    code: RepoRef,
    issues: Vec<RepoRef>,
    r: Vec<RepoRef>,
    owner: Seq<char>,
    repo: Seq<char>,
    i: int,
    j: int,
)
    requires
        call_ensures(resync::repos_to_sweep, (code, issues), r),
    ensures
        sweeps(r@, owner, repo) <==> (owner == code.0@ && repo == code.1@) || sweeps(
            issues@,
            owner,
            repo,
        ),
        0 <= i < j < r@.len() ==> earlier((r@[i].0@, r@[i].1@), (r@[j].0@, r@[j].1@)),
{
    let all = seq![(code.0@, code.1@)] + crate::config::repo_views(issues@);
    let views = crate::config::repo_views(r@);
    let given = crate::config::repo_views(issues@);
    let x = (owner, repo);
    lemma_order(all, x);
    lemma_rising(all);
    assert(views.len() == r@.len());
    if sweeps(r@, owner, repo) {
        let k = choose|k: int|
            #![trigger r@[k]]
            0 <= k < r@.len() && r@[k].0@ == owner && r@[k].1@ == repo;
        assert(views[k] == x);
        assert(all.contains(x));
        let m = choose|m: int| 0 <= m < all.len() && all[m] == x;
        if m > 0 {
            assert(given[m - 1] == x);
            assert(issues@[m - 1].0@ == owner);
        }
    }
    if sweeps(issues@, owner, repo) {
        let k = choose|k: int|
            #![trigger issues@[k]]
            0 <= k < issues@.len() && issues@[k].0@ == owner && issues@[k].1@ == repo;
        assert(given[k] == x);
        assert(all[k + 1] == x);
    }
    if owner == code.0@ && repo == code.1@ {
        assert(all[0] == x);
    }
    if all.contains(x) {
        let k = choose|k: int| 0 <= k < views.len() && views[k] == x;
        assert(r@[k].0@ == owner);
    }
    if 0 <= i < j < r@.len() {
        assert(earlier(views[i], views[j]));
    }
}

} // verus!
