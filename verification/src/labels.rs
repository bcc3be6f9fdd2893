//! The workflow mirrored onto GitHub labels.

use vstd::prelude::*;

use crate::config::LabelsConfig;
use crate::state::{Attention, IssueState, LabelSyncRecord, Phase, PrOutcome};
use crate::text;

verus! {

/// A label that is set up by default: its config key, name, colour (GitHub's
/// six-digit form) and description.
pub struct DefaultLabel {
    pub key: String,
    pub name: String,
    pub color: &'static str,
    pub description: String,
}

/// A default label in its mathematical form.
pub struct LabelView {
    pub key: Seq<char>,
    pub name: Seq<char>,
    pub color: Seq<char>,
    pub description: Seq<char>,
}

impl DefaultLabel {
    pub open spec fn view(&self) -> LabelView {
        LabelView {
            key: self.key@,
            name: self.name@,
            color: self.color@,
            description: self.description@,
        }
    }
}

/// The default labels in their mathematical form.
pub open spec fn views(labels: Seq<DefaultLabel>) -> Seq<LabelView> {
    Seq::new(labels.len(), |i: int| labels[i].view())
}

/// The default name of the label for when the workflow is waiting on the agent.
pub open spec fn working_label(agent: Seq<char>) -> Seq<char> {
    "ghwf:"@ + text::lower(agent) + "-working"@
}

/// How many of the default labels are phase labels; the rest are attention
/// labels.
pub const PHASE_DEFAULTS: usize = 5;

/// The default labels. The phase ramp runs light to dark blue; the terminal one
/// is GitHub's merged-purple; attention colours signal whose move it is.
pub open spec fn default_labels(agent: Seq<char>) -> Seq<LabelView> {
    seq![
        LabelView {
            key: "pre-plan"@,
            name: "ghwf:pre-plan"@,
            color: "c5def5"@,
            description: "ghwf: gathering context before planning"@,
        },
        LabelView {
            key: "prep-and-plan"@,
            name: "ghwf:planning"@,
            color: "8ab8ef"@,
            description: "ghwf: writing the implementation plan"@,
        },
        LabelView {
            key: "implement"@,
            name: "ghwf:implementing"@,
            color: "4a90d9"@,
            description: "ghwf: coding the change"@,
        },
        LabelView {
            key: "review"@,
            name: "ghwf:review"@,
            color: "1d76db"@,
            description: "ghwf: awaiting human review"@,
        },
        LabelView {
            key: "finished"@,
            name: "ghwf:finished"@,
            color: "8957e5"@,
            description: "ghwf: workflow complete"@,
        },
        LabelView {
            key: "waiting-on-user"@,
            name: "ghwf:needs-you"@,
            color: "d93f0b"@,
            description: "ghwf: waiting on the user"@,
        },
        LabelView {
            key: "waiting-on-"@ + text::lower(agent),
            name: working_label(agent),
            color: "0e8a16"@,
            description: "ghwf: waiting on "@ + agent,
        },
        LabelView {
            key: "waiting-on-ghwf"@,
            name: "ghwf:preparing"@,
            color: "bfbfbf"@,
            description: "ghwf: machinery at work"@,
        },
    ]
}

fn default_label(key: &str, name: &str, color: &'static str, description: &str) -> (r: DefaultLabel)
    ensures
        r.view() == (LabelView {
            key: key@,
            name: name@,
            color: color@,
            description: description@,
        }),
{
    DefaultLabel {
        key: text::copy(key),
        name: text::copy(name),
        color,
        description: text::copy(description),
    }
}

/// The default labels, for an agent of this name.
pub fn defaults(agent: &str) -> (r: [DefaultLabel; 8])
    ensures
        views(r@) == default_labels(agent@),
{
    let command = text::lowered(agent);
    let mut key = text::copy("waiting-on-");
    key.append(command.as_str());
    let mut name = text::copy("ghwf:");
    name.append(command.as_str());
    name.append("-working");
    let mut description = text::copy("ghwf: waiting on ");
    description.append(agent);
    let r = [
        default_label("pre-plan", "ghwf:pre-plan", "c5def5", "ghwf: gathering context before planning"),
        default_label("prep-and-plan", "ghwf:planning", "8ab8ef", "ghwf: writing the implementation plan"),
        default_label("implement", "ghwf:implementing", "4a90d9", "ghwf: coding the change"),
        default_label("review", "ghwf:review", "1d76db", "ghwf: awaiting human review"),
        default_label("finished", "ghwf:finished", "8957e5", "ghwf: workflow complete"),
        default_label("waiting-on-user", "ghwf:needs-you", "d93f0b", "ghwf: waiting on the user"),
        DefaultLabel { key, name, color: "0e8a16", description },
        default_label("waiting-on-ghwf", "ghwf:preparing", "bfbfbf", "ghwf: machinery at work"),
    ];
    assert(views(r@) =~= default_labels(agent@));
    r
}

/// The phase a concluded workflow is labelled as.
pub open spec fn phase_after(conclusion: PrOutcome, phase: Phase) -> Phase {
    match conclusion {
        PrOutcome::Merged => Phase::Finished,
        PrOutcome::Closed => phase,
    }
}

/// The phase a concluded workflow is labelled as: a merge collapses to the
/// terminal one; a close keeps the phase it concluded from, as a record of how
/// far the work got.
pub fn concluded_phase(conclusion: PrOutcome, phase: Phase) -> (r: Phase)
    ensures
        r == phase_after(conclusion, phase),
{
    match conclusion {
        PrOutcome::Merged => Phase::Finished,
        PrOutcome::Closed => phase,
    }
}

/// Whether two optional attention states agree.
fn same_attention(a: Option<Attention>, b: Option<Attention>) -> (r: bool)
    ensures
        r == (a == b),
{
    match (a, b) {
        (Some(x), Some(y)) => x == y,
        (None, None) => true,
        _ => false,
    }
}

/// Whether two optional numbers agree.
fn same_number(a: Option<u64>, b: Option<u64>) -> (r: bool)
    ensures
        r == (a == b),
{
    match (a, b) {
        (Some(x), Some(y)) => x == y,
        (None, None) => true,
        _ => false,
    }
}

/// Whether two records agree.
pub fn same_record(a: &LabelSyncRecord, b: &LabelSyncRecord) -> (r: bool)
    ensures
        r == (*a == *b),
{
    a.phase == b.phase && same_attention(a.attention, b.attention) && same_number(
        a.pr_number,
        b.pr_number,
    )
}

/// Whether the labels were already set for `record`.
fn is_synced(state: &IssueState, record: &LabelSyncRecord) -> (r: bool)
    ensures
        r == (state.labels_synced == Some(*record)),
{
    match &state.labels_synced {
        Some(last) => same_record(last, record),
        None => false,
    }
}

/// What the labels of a workflow are set for: its phase, and whose turn it is
/// unless it is concluded.
pub open spec fn live_record(state: IssueState, pr_number: Option<u64>) -> LabelSyncRecord {
    LabelSyncRecord {
        phase: state.phase,
        attention: if state.pr_outcome is None {
            Some(state.attention)
        } else {
            None
        },
        pr_number,
    }
}

/// What the labels of a freshly concluded workflow are set for.
pub open spec fn concluded_record(
    state: IssueState,
    conclusion: PrOutcome,
    pr_number: Option<u64>,
) -> LabelSyncRecord {
    LabelSyncRecord { phase: phase_after(conclusion, state.phase), attention: None, pr_number }
}

/// What the labels are to be set for; nothing when no labels are configured, or
/// when the last sync already applied the same.
pub open spec fn pending(
    configured: bool,
    state: IssueState,
    record: LabelSyncRecord,
) -> Option<LabelSyncRecord> {
    if configured && state.labels_synced != Some(record) {
        Some(record)
    } else {
        None
    }
}

/// Decide on mirroring the workflow state onto the labels of the issue and its
/// PR. A concluded workflow waits on nobody: the phase label stays as a record
/// of how far the work got, the attention label comes off.
pub fn sync(configured: bool, pr_number: Option<u64>, state: &IssueState) -> (r: Option<
    LabelSyncRecord,
>)
    ensures
        r == pending(configured, *state, live_record(*state, pr_number)),
{
    let record = LabelSyncRecord {
        phase: state.phase,
        attention: if state.pr_outcome.is_none() {
            Some(state.attention)
        } else {
            None
        },
        pr_number,
    };
    if configured && !is_synced(state, &record) {
        Some(record)
    } else {
        None
    }
}

/// Decide on the labels of a freshly detected PR conclusion, without consulting
/// the recorded outcome: the labels are cleaned up the instant a merge (or a
/// close) is seen, while the conclusion stays new to the next run.
pub fn sync_concluded(
    configured: bool,
    pr_number: Option<u64>,
    conclusion: PrOutcome,
    state: &IssueState,
) -> (r: Option<LabelSyncRecord>)
    ensures
        r == pending(configured, *state, concluded_record(*state, conclusion, pr_number)),
{
    let record = LabelSyncRecord {
        phase: concluded_phase(conclusion, state.phase),
        attention: None,
        pr_number,
    };
    if configured && !is_synced(state, &record) {
        Some(record)
    } else {
        None
    }
}

/// Record what the labels were set for. Only a fully applied sync is recorded;
/// a partial one is tried again on the next run.
pub fn record_sync(state: &mut IssueState, record: LabelSyncRecord, all_ok: bool)
    ensures
        *final(state) == (IssueState {
            labels_synced: if all_ok {
                Some(record)
            } else {
                old(state).labels_synced
            },
            ..*old(state)
        }),
{
    if all_ok {
        state.labels_synced = Some(record);
    }
}

/// A sync that was applied is not pending again.
pub proof fn applied_syncs_are_not_repeated(
    configured: bool,
    state: IssueState,
    pr_number: Option<u64>,
)
    ensures
        pending(
            configured,
            (IssueState { labels_synced: Some(live_record(state, pr_number)), ..state }),
            live_record(state, pr_number),
        ) is None,
{
}

/// The labels set when a conclusion is first seen are those that the next run
/// wants, once it has recorded the conclusion: it makes no further calls.
pub proof fn concluding_labels_agree(
    configured: bool,
    state: IssueState,
    conclusion: PrOutcome,
    pr_number: Option<u64>,
)
    ensures
        live_record(
            (IssueState {
                phase: phase_after(conclusion, state.phase),
                pr_outcome: Some(conclusion),
                ..state
            }),
            pr_number,
        ) == concluded_record(state, conclusion, pr_number),
{
}

/// The labels a thread should carry, in order: the phase's, plus the attention
/// state's while the workflow is live.
pub open spec fn desired(
    cfg: LabelsConfig,
    phase: Phase,
    attention: Option<Attention>,
) -> Seq<Seq<char>> {
    let p = cfg.phase_label(phase);
    match attention {
        None => seq![p],
        Some(attention) => {
            let a = cfg.attention_label(attention);
            if a == p {
                seq![p]
            } else if text::le(p, a) {
                seq![p, a]
            } else {
                seq![a, p]
            }
        },
    }
}

/// The labels a thread should carry: the phase's, plus the attention state's
/// while the workflow is live.
pub fn desired_labels<'a>(cfg: &'a LabelsConfig, phase: Phase, attention: Option<Attention>) -> (r:
    Vec<&'a str>)
    ensures
        text::str_views(r@) == desired(*cfg, phase, attention),
{
    let mut out: Vec<&'a str> = Vec::new();
    let p = cfg.for_phase(phase);
    match attention {
        None => {
            out.push(p);
        },
        Some(attention) => {
            let a = cfg.for_attention(attention);
            if text::same(a, p) {
                out.push(p);
            } else if text::at_most(p, a) {
                out.push(p);
                out.push(a);
            } else {
                out.push(a);
                out.push(p);
            }
        },
    }
    assert(text::str_views(out@) =~= desired(*cfg, phase, attention));
    out
}

/// Whether `s` is one of `v`.
fn among(v: &[&str], s: &str) -> (r: bool)
    ensures
        r == text::str_views(v@).contains(s@),
{
    let mut i: usize = 0;
    while i < v.len()
        invariant
            i <= v.len(),
            forall|j: int| 0 <= j < i ==> text::str_views(v@)[j] != s@,
        decreases v.len() - i,
    {
        if text::same(v[i], s) {
            assert(text::str_views(v@)[i as int] == s@);
            return true;
        }
        i = i + 1;
    }
    false
}

/// What a thread's labels must change by: the configured ones that no longer
/// apply come off, the ones that do are added.
pub struct LabelChanges {
    pub remove: Vec<String>,
    pub add: Vec<String>,
}

/// The labels of `current` that are configured and not wanted.
pub open spec fn to_remove(
    current: Seq<Seq<char>>,
    configured: Seq<Seq<char>>,
    wanted: Seq<Seq<char>>,
) -> Seq<Seq<char>>
    decreases current.len(),
{
    if current.len() == 0 {
        seq![]
    } else {
        let before = to_remove(current.drop_last(), configured, wanted);
        let l = current.last();
        if configured.contains(l) && !wanted.contains(l) {
            before.push(l)
        } else {
            before
        }
    }
}

/// The labels of `wanted` that are not there.
pub open spec fn to_add(current: Seq<Seq<char>>, wanted: Seq<Seq<char>>) -> Seq<Seq<char>>
    decreases wanted.len(),
{
    if wanted.len() == 0 {
        seq![]
    } else {
        let before = to_add(current, wanted.drop_last());
        if current.contains(wanted.last()) {
            before
        } else {
            before.push(wanted.last())
        }
    }
}

/// Compute one thread's label changes. Labels outside the configured set are
/// never touched.
pub fn sync_thread(
    cfg: &LabelsConfig,
    current: &Vec<String>,
    phase: Phase,
    attention: Option<Attention>,
) -> (r: LabelChanges)
    ensures
        text::views(r.remove@) == to_remove(
            text::views(current@),
            cfg.names(),
            desired(*cfg, phase, attention),
        ),
        text::views(r.add@) == to_add(text::views(current@), desired(*cfg, phase, attention)),
{
    let wanted = desired_labels(cfg, phase, attention);
    let configured = cfg.all();
    let ghost want = text::str_views(wanted@);
    let ghost have = text::views(current@);
    let mut remove: Vec<String> = Vec::new();
    let mut i: usize = 0;
    assert(have.take(0) =~= seq![]);
    assert(text::views(remove@) =~= seq![]);
    while i < current.len()
        invariant
            i <= current.len(),
            have == text::views(current@),
            want == text::str_views(wanted@),
            text::str_views(configured@) == cfg.names(),
            text::views(remove@) == to_remove(have.take(i as int), cfg.names(), want),
        decreases current.len() - i,
    {
        assert(have.take(i + 1).drop_last() =~= have.take(i as int));
        assert(have.take(i + 1).last() == current@[i as int]@);
        let label = current[i].as_str();
        if among(configured.as_slice(), label) && !among(wanted.as_slice(), label) {
            let ghost before = remove@;
            let copy = text::copy(label);
            remove.push(copy);
            proof {
                text::lemma_views_push(before, copy);
            }
        }
        i = i + 1;
    }
    assert(have.take(have.len() as int) =~= have);
    let mut add: Vec<String> = Vec::new();
    let mut k: usize = 0;
    assert(want.take(0) =~= seq![]);
    assert(text::views(add@) =~= seq![]);
    while k < wanted.len()
        invariant
            k <= wanted.len(),
            have == text::views(current@),
            want == text::str_views(wanted@),
            text::views(add@) == to_add(have, want.take(k as int)),
        decreases wanted.len() - k,
    {
        assert(want.take(k + 1).drop_last() =~= want.take(k as int));
        assert(want.take(k + 1).last() == wanted@[k as int]@);
        let label = wanted[k];
        proof {
            assert(text::listed(current@, label@) == have.contains(label@)) by {
                if text::listed(current@, label@) {
                    let j = choose|j: int|
                        0 <= j < current@.len() && #[trigger] current@[j]@ == label@;
                    assert(have[j] == label@);
                }
                if have.contains(label@) {
                    let j = choose|j: int| 0 <= j < have.len() && have[j] == label@;
                    assert(current@[j]@ == label@);
                }
            }
        }
        if !text::member(current, label) {
            let ghost before = add@;
            let copy = text::copy(label);
            add.push(copy);
            proof {
                text::lemma_views_push(before, copy);
            }
        }
        k = k + 1;
    }
    assert(want.take(want.len() as int) =~= want);
    LabelChanges { remove, add }
}

/// The labels after a change.
pub open spec fn changed(
    current: Seq<Seq<char>>,
    remove: Seq<Seq<char>>,
    add: Seq<Seq<char>>,
    label: Seq<char>,
) -> bool {
    (current.contains(label) && !remove.contains(label)) || add.contains(label)
}

proof fn lemma_to_remove(
    current: Seq<Seq<char>>,
    configured: Seq<Seq<char>>,
    wanted: Seq<Seq<char>>,
    label: Seq<char>,
)
    ensures
        to_remove(current, configured, wanted).contains(label) == (current.contains(label)
            && configured.contains(label) && !wanted.contains(label)),
    decreases current.len(),
{
    if current.len() > 0 {
        let l = current.last();
        let init = current.drop_last();
        lemma_to_remove(init, configured, wanted, label);
        let before = to_remove(init, configured, wanted);
        let now = to_remove(current, configured, wanted);
        assert(current.contains(label) == (init.contains(label) || l == label)) by {
            if init.contains(label) {
                let k = choose|k: int| 0 <= k < init.len() && init[k] == label;
                assert(current[k] == label);
            }
            if current.contains(label) {
                let k = choose|k: int| 0 <= k < current.len() && current[k] == label;
                if k < init.len() {
                    assert(init[k] == label);
                }
            }
            if l == label {
                assert(current[current.len() - 1] == label);
            }
        }
        if configured.contains(l) && !wanted.contains(l) {
            assert(now.contains(label) == (before.contains(label) || l == label)) by {
                if before.contains(label) {
                    let k = choose|k: int| 0 <= k < before.len() && before[k] == label;
                    assert(now[k] == label);
                }
                if l == label {
                    assert(now[before.len() as int] == label);
                }
                if now.contains(label) {
                    let k = choose|k: int| 0 <= k < now.len() && now[k] == label;
                    if k < before.len() {
                        assert(before[k] == label);
                    }
                }
            }
        }
    }
}

proof fn lemma_to_add(current: Seq<Seq<char>>, wanted: Seq<Seq<char>>, label: Seq<char>)
    ensures
        to_add(current, wanted).contains(label) == (wanted.contains(label) && !current.contains(
            label,
        )),
    decreases wanted.len(),
{
    if wanted.len() > 0 {
        let l = wanted.last();
        let init = wanted.drop_last();
        lemma_to_add(current, init, label);
        let before = to_add(current, init);
        let now = to_add(current, wanted);
        assert(wanted.contains(label) == (init.contains(label) || l == label)) by {
            if init.contains(label) {
                let k = choose|k: int| 0 <= k < init.len() && init[k] == label;
                assert(wanted[k] == label);
            }
            if wanted.contains(label) {
                let k = choose|k: int| 0 <= k < wanted.len() && wanted[k] == label;
                if k < init.len() {
                    assert(init[k] == label);
                }
            }
            if l == label {
                assert(wanted[wanted.len() - 1] == label);
            }
        }
        if !current.contains(l) {
            assert(now.contains(label) == (before.contains(label) || l == label)) by {
                if before.contains(label) {
                    let k = choose|k: int| 0 <= k < before.len() && before[k] == label;
                    assert(now[k] == label);
                }
                if l == label {
                    assert(now[before.len() as int] == label);
                }
                if now.contains(label) {
                    let k = choose|k: int| 0 <= k < now.len() && now[k] == label;
                    if k < before.len() {
                        assert(before[k] == label);
                    }
                }
            }
        }
    }
}

/// After a sync a thread carries, of the configured labels, exactly those that
/// are wanted; every other label is as it was.
pub proof fn syncing_sets_exactly_the_wanted_labels(
    current: Seq<Seq<char>>,
    configured: Seq<Seq<char>>,
    wanted: Seq<Seq<char>>,
    label: Seq<char>,
)
    requires
        forall|i: int| 0 <= i < wanted.len() ==> configured.contains(#[trigger] wanted[i]),
    ensures
        changed(
            current,
            to_remove(current, configured, wanted),
            to_add(current, wanted),
            label,
        ) == (if configured.contains(label) {
            wanted.contains(label)
        } else {
            current.contains(label)
        }),
{
    lemma_to_remove(current, configured, wanted, label);
    lemma_to_add(current, wanted, label);
    if wanted.contains(label) {
        let k = choose|k: int| 0 <= k < wanted.len() && wanted[k] == label;
        assert(configured.contains(wanted[k]));
    }
}

/// The wanted labels are configured ones.
pub proof fn wanted_labels_are_configured(
    cfg: LabelsConfig,
    phase: Phase,
    attention: Option<Attention>,
)
    ensures
        forall|i: int|
            0 <= i < desired(cfg, phase, attention).len() ==> cfg.names().contains(
                #[trigger] desired(cfg, phase, attention)[i],
            ),
{
    crate::config::state_labels_are_configured(
        cfg,
        phase,
        match attention {
            Some(a) => a,
            None => Attention::WaitingOnUser,
        },
    );
}

/// What `config state-labels` does.
#[derive(Clone, Copy, Debug, PartialEq, Eq, Structural)]
pub enum Setup {
    /// Create the default labels and append the section.
    Create,
    /// The section exists: leave the file alone, and create the configured
    /// labels that are still missing.
    Reconcile,
}

/// Decide what `config state-labels` does.
pub fn configure(has_section: bool) -> (r: Setup)
    ensures
        r == (if has_section {
            Setup::Reconcile
        } else {
            Setup::Create
        }),
{
    if has_section {
        Setup::Reconcile
    } else {
        Setup::Create
    }
}

/// The names from `from` on that are not in `existing`, each with the colour and
/// description of the default in its place.
pub open spec fn missing_from(
    agent: Seq<char>,
    names: Seq<Seq<char>>,
    existing: Seq<String>,
    from: int,
) -> Seq<(Seq<char>, Seq<char>, Seq<char>)>
    decreases names.len() - from,
{
    if from >= names.len() || from < 0 {
        seq![]
    } else {
        let rest = missing_from(agent, names, existing, from + 1);
        if text::listed(existing, names[from]) {
            rest
        } else {
            seq![
                (
                    names[from],
                    default_labels(agent)[from].color,
                    default_labels(agent)[from].description,
                ),
            ] + rest
        }
    }
}

/// Reconciling is idempotent: once what was missing exists too, nothing is left to
/// create.
pub proof fn reconciling_is_idempotent(
    agent: Seq<char>,
    names: Seq<Seq<char>>,
    existing: Seq<String>,
    after: Seq<String>,
    from: int,
)
    requires
        0 <= from,
        forall|i: int| 0 <= i < existing.len() ==> text::listed(after, (#[trigger] existing[i])@),
        forall|i: int|
            0 <= i < missing_from(agent, names, existing, from).len() ==> text::listed(
                after,
                (#[trigger] missing_from(agent, names, existing, from)[i]).0,
            ),
    ensures
        missing_from(agent, names, after, from).len() == 0,
    decreases names.len() - from,
{
    if from < names.len() {
        let all = missing_from(agent, names, existing, from);
        let rest = missing_from(agent, names, existing, from + 1);
        if text::listed(existing, names[from]) {
            let i = choose|i: int|
                0 <= i < existing.len() && (#[trigger] existing[i])@ == names[from];
            assert(text::listed(after, existing[i]@));
        } else {
            assert(all[0].0 == names[from]);
            assert forall|i: int| 0 <= i < rest.len() implies text::listed(
                after,
                (#[trigger] rest[i]).0,
            ) by {
                assert(all[i + 1] == rest[i]);
            }
        }
        reconciling_is_idempotent(agent, names, existing, after, from + 1);
    }
}

pub open spec fn label_views(v: Seq<(&str, &'static str, String)>) -> Seq<
    (Seq<char>, Seq<char>, Seq<char>),
> {
    Seq::new(v.len(), |i: int| (v[i].0@, v[i].1@, v[i].2@))
}

/// The configured labels absent from `existing`, each paired with the colour
/// and description from its default's place. A renamed label still gets
/// created, carrying its place's default colour.
pub fn labels_to_create<'a>(
    agent: &str,
    labels: &'a LabelsConfig,
    existing: &Vec<String>,
) -> (r: Vec<
    (&'a str, &'static str, String),
>)
    ensures
        label_views(r@) == missing_from(agent@, labels.names(), existing@, 0),
{
    let names = labels.all();
    let defaults = defaults(agent);
    let mut out: Vec<(&'a str, &'static str, String)> = Vec::new();
    let ghost all = labels.names();
    let mut i: usize = 0;
    assert(label_views(out@) + missing_from(agent@, all, existing@, 0) =~= missing_from(agent@, all, existing@, 0));
    while i < 8
        invariant
            i <= 8,
            all == labels.names(),
            all.len() == 8,
            text::str_views(names@) == all,
            views(defaults@) == default_labels(agent@),
            label_views(out@) + missing_from(agent@, all, existing@, i as int) == missing_from(agent@, 
                all,
                existing@,
                0,
            ),
        decreases 8 - i,
    {
        assert(text::str_views(names@)[i as int] == names@[i as int]@);
        if !text::member(existing, names[i]) {
            let ghost before = out@;
            let description = text::copy(defaults[i].description.as_str());
            let entry = (names[i], defaults[i].color, description);
            out.push(entry);
            proof {
                assert(views(defaults@)[i as int] == defaults@[i as int].view());
                assert(label_views(out@) =~= label_views(before).push(
                    (entry.0@, entry.1@, entry.2@),
                ));
                let rest = missing_from(agent@, all, existing@, i + 1);
                assert(label_views(out@) + rest =~= label_views(before) + (seq![
                    (entry.0@, entry.1@, entry.2@),
                ] + rest));
            }
        }
        i = i + 1;
    }
    assert(missing_from(agent@, all, existing@, 8) =~= seq![]);
    assert(label_views(out@) + missing_from(agent@, all, existing@, 8) =~= label_views(out@));
    out
}

/// The line of a default label in the config file.
pub open spec fn section_line(l: LabelView) -> Seq<char> {
    l.key + " = \""@ + l.name + "\"\n"@
}

pub open spec fn section_lines(labels: Seq<LabelView>) -> Seq<char>
    decreases labels.len(),
{
    if labels.len() == 0 {
        seq![]
    } else {
        section_lines(labels.drop_last()) + section_line(labels.last())
    }
}

/// The lines of the default labels `from..to`.
fn lines_between(agent: &str, from: usize, to: usize) -> (r: String)
    requires
        from <= to <= 8,
    ensures
        r@ == section_lines(default_labels(agent@).subrange(from as int, to as int)),
{
    let defaults = defaults(agent);
    let mut out = String::new();
    let mut i: usize = from;
    assert(default_labels(agent@).subrange(from as int, from as int) =~= seq![]);
    while i < to
        invariant
            from <= i <= to <= 8,
            views(defaults@) == default_labels(agent@),
            out@ == section_lines(default_labels(agent@).subrange(from as int, i as int)),
        decreases to - i,
    {
        let mut line = text::copy(defaults[i].key.as_str());
        line.append(" = \"");
        line.append(defaults[i].name.as_str());
        line.append("\"\n");
        out.append(line.as_str());
        proof {
            let now = default_labels(agent@).subrange(from as int, i + 1);
            assert(now.drop_last() =~= default_labels(agent@).subrange(from as int, i as int));
            assert(now.last() == default_labels(agent@)[i as int]);
            assert(views(defaults@)[i as int] == defaults@[i as int].view());
        }
        i = i + 1;
    }
    out
}

/// Render the labels section for the default label names.
pub fn labels_section(agent: &str) -> (r: String)
    ensures
        r@ == "\n[labels.phase]\n"@ + section_lines(default_labels(agent@).subrange(0, 5))
            + "\n[labels.attention]\n"@ + section_lines(default_labels(agent@).subrange(5, 8)),
{
    let mut out = text::copy("\n[labels.phase]\n");
    out.append(lines_between(agent, 0, PHASE_DEFAULTS).as_str());
    out.append("\n[labels.attention]\n");
    out.append(lines_between(agent, PHASE_DEFAULTS, 8).as_str());
    out
}

/// The config file with the labels section behind it.
pub fn configure_at(config_text: &str, section: &str) -> (r: String)
    ensures
        r@ == (if text::ends_with(config_text@, "\n"@) {
            config_text@
        } else {
            config_text@ + "\n"@
        }) + section@,
{
    let mut out = text::copy(config_text);
    if !text::has_suffix(config_text, "\n") {
        out.append("\n");
    }
    out.append(section);
    out
}

} // verus!
