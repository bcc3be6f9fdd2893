//! The workflow's own state: the phase an issue is in, what has been consumed,
//! and whose turn it is.

use std::collections::{BTreeMap, BTreeSet};
use vstd::prelude::*;

use crate::models::PullRequest;
use crate::store;
use crate::text;

verus! {

/// A phase of the workflow.
#[derive(Clone, Copy, Debug, PartialEq, Eq, Structural)]
pub enum Phase {
    PrePlan,
    PrepAndPlan,
    Implement,
    Review,
    /// Terminal: the PR was merged.
    Finished,
}

impl Phase {
    /// How far along the workflow a phase is.
    pub open spec fn order(self) -> int {
        match self {
            Phase::PrePlan => 0,
            Phase::PrepAndPlan => 1,
            Phase::Implement => 2,
            Phase::Review => 3,
            Phase::Finished => 4,
        }
    }

    pub open spec fn name(self) -> &'static str {
        match self {
            Phase::PrePlan => "pre-plan",
            Phase::PrepAndPlan => "prep-and-plan",
            Phase::Implement => "implement",
            Phase::Review => "review",
            Phase::Finished => "finished",
        }
    }

    pub open spec fn successor(self) -> Option<Phase> {
        match self {
            Phase::PrePlan => Some(Phase::PrepAndPlan),
            Phase::PrepAndPlan => Some(Phase::Implement),
            Phase::Implement => Some(Phase::Review),
            Phase::Review => Some(Phase::Finished),
            Phase::Finished => None,
        }
    }

    pub open spec fn command(self) -> Option<&'static str> {
        match self {
            Phase::PrePlan => Some("/approve-pre-plan"),
            Phase::PrepAndPlan => Some("/approve-plan"),
            _ => None,
        }
    }

    /// The phase's name, as banners and labels write it.
    pub fn label(self) -> (r: &'static str)
        ensures
            r@ == self.name()@,
            r == self.name(),
    {
        match self {
            Phase::PrePlan => "pre-plan",
            Phase::PrepAndPlan => "prep-and-plan",
            Phase::Implement => "implement",
            Phase::Review => "review",
            Phase::Finished => "finished",
        }
    }

    /// The phase that follows.
    pub fn next(self) -> (r: Option<Phase>)
        ensures
            r == self.successor(),
    {
        match self {
            Phase::PrePlan => Some(Phase::PrepAndPlan),
            Phase::PrepAndPlan => Some(Phase::Implement),
            Phase::Implement => Some(Phase::Review),
            Phase::Review => Some(Phase::Finished),
            Phase::Finished => None,
        }
    }

    /// The command that approves the phase, where one does.
    pub fn approval_command(self) -> (r: Option<&'static str>)
        ensures
            r == self.command(),
    {
        match self {
            Phase::PrePlan => Some("/approve-pre-plan"),
            Phase::PrepAndPlan => Some("/approve-plan"),
            _ => None,
        }
    }

    /// Whether the phase comes before `other`.
    pub fn precedes(self, other: Phase) -> (r: bool)
        ensures
            r == (self.order() < other.order()),
    {
        self.position() < other.position()
    }

    fn position(self) -> (r: u8)
        ensures
            r == self.order(),
    {
        match self {
            Phase::PrePlan => 0,
            Phase::PrepAndPlan => 1,
            Phase::Implement => 2,
            Phase::Review => 3,
            Phase::Finished => 4,
        }
    }
}

impl Default for Phase {
    fn default() -> (r: Self)
        ensures
            r == Phase::PrePlan,
    {
        Phase::PrePlan
    }
}

/// A command that a comment can give.
#[derive(Clone, Copy, Debug, PartialEq, Eq, Structural)]
pub enum Directive {
    ApprovePrePlan,
    ApprovePlan,
    /// Retired: the user marks the PR ready for review instead.
    ApproveImplementation,
    /// Retired: the generic approval.
    Proceed,
}

impl Directive {
    pub open spec fn approved(self) -> Option<Phase> {
        match self {
            Directive::ApprovePrePlan => Some(Phase::PrePlan),
            Directive::ApprovePlan => Some(Phase::PrepAndPlan),
            _ => None,
        }
    }

    pub open spec fn spelling(self) -> &'static str {
        match self {
            Directive::ApprovePrePlan => "/approve-pre-plan",
            Directive::ApprovePlan => "/approve-plan",
            Directive::ApproveImplementation => "/approve-implementation",
            Directive::Proceed => "/proceed",
        }
    }

    /// The phase that the directive approves; none where it is retired.
    pub fn approves(self) -> (r: Option<Phase>)
        ensures
            r == self.approved(),
    {
        match self {
            Directive::ApprovePrePlan => Some(Phase::PrePlan),
            Directive::ApprovePlan => Some(Phase::PrepAndPlan),
            _ => None,
        }
    }

    /// The canonical spelling of the directive.
    pub fn command(self) -> (r: &'static str)
        ensures
            r == self.spelling(),
    {
        match self {
            Directive::ApprovePrePlan => "/approve-pre-plan",
            Directive::ApprovePlan => "/approve-plan",
            Directive::ApproveImplementation => "/approve-implementation",
            Directive::Proceed => "/proceed",
        }
    }
}

/// The directive that a word spells.
pub open spec fn directive_of(word: Seq<char>) -> Option<Directive> {
    if word == "/approve-pre-plan"@ || word == "/approve-preplan"@ {
        Some(Directive::ApprovePrePlan)
    } else if word == "/approve-plan"@ {
        Some(Directive::ApprovePlan)
    } else if word == "/approve-implementation"@ {
        Some(Directive::ApproveImplementation)
    } else if word == "/proceed"@ {
        Some(Directive::Proceed)
    } else {
        None
    }
}

/// The first word of a line: what precedes its first white space.
pub open spec fn first_word(line: Seq<char>) -> Seq<char>
    decreases line.len(),
{
    if line.len() == 0 || text::is_space(line[0]) {
        seq![]
    } else {
        seq![line[0]] + first_word(line.skip(1))
    }
}

/// The directive of the first of `lines` that begins with one.
pub open spec fn directive_in(lines: Seq<Seq<char>>) -> Option<Directive>
    decreases lines.len(),
{
    if lines.len() == 0 {
        None
    } else if directive_of(first_word(lines[0])) is Some {
        directive_of(first_word(lines[0]))
    } else {
        directive_in(lines.skip(1))
    }
}

/// The directive that a comment's body gives.
pub open spec fn given_directive(body: Seq<char>) -> Option<Directive> {
    directive_in(text::lines(body))
}

/// The directive that `word` spells.
fn directive_named(word: &str) -> (r: Option<Directive>)
    ensures
        r == directive_of(word@),
{
    if text::same(word, "/approve-pre-plan") || text::same(word, "/approve-preplan") {
        Some(Directive::ApprovePrePlan)
    } else if text::same(word, "/approve-plan") {
        Some(Directive::ApprovePlan)
    } else if text::same(word, "/approve-implementation") {
        Some(Directive::ApproveImplementation)
    } else if text::same(word, "/proceed") {
        Some(Directive::Proceed)
    } else {
        None
    }
}

proof fn lemma_first_word(line: Seq<char>, k: int)
    requires
        0 <= k <= line.len(),
        forall|j: int| 0 <= j < k ==> !text::is_space(#[trigger] line[j]),
        k == line.len() || text::is_space(line[k]),
    ensures
        first_word(line) == line.take(k),
    decreases line.len(),
{
    if k == 0 {
        assert(line.take(0) =~= seq![]);
    } else {
        assert forall|j: int| 0 <= j < k - 1 implies !text::is_space(#[trigger] line.skip(1)[j]) by {
            assert(!text::is_space(line[j + 1]));
        }
        assert(!text::is_space(line[0]));
        lemma_first_word(line.skip(1), k - 1);
        assert(seq![line[0]] + line.skip(1).take(k - 1) =~= line.take(k));
    }
}

/// What precedes the first white space of `line`.
pub fn word_of(line: &str) -> (r: String)
    ensures
        r@ == first_word(line@),
{
    let v = text::chars(line);
    let mut k: usize = 0;
    while k < v.len() && !text::space(v[k])
        invariant
            k <= v.len(),
            forall|j: int| 0 <= j < k ==> !text::is_space(#[trigger] v@[j]),
        decreases v.len() - k,
    {
        k = k + 1;
    }
    proof {
        lemma_first_word(v@, k as int);
        assert(v@.take(k as int) =~= v@.subrange(0, k as int));
    }
    text::slice(&v, 0, k)
}

/// The directive that a comment's body gives: the command that begins one of
/// its lines, the first such line deciding.
pub fn parse_directive(body: &str) -> (r: Option<Directive>)
    ensures
        r == given_directive(body@),
{
    let lines = text::lines_of(body);
    let ghost all = text::views(lines@);
    let mut i: usize = 0;
    assert(all.skip(0) =~= all);
    while i < lines.len()
        invariant
            i <= lines.len(),
            all == text::views(lines@),
            all == text::lines(body@),
            directive_in(all) == directive_in(all.skip(i as int)),
        decreases lines.len() - i,
    {
        let word = word_of(lines[i].as_str());
        let found = directive_named(word.as_str());
        assert(all.skip(i as int)[0] == lines@[i as int]@);
        if found.is_some() {
            return found;
        }
        assert(all.skip(i as int).skip(1) =~= all.skip(i + 1));
        i = i + 1;
    }
    None
}

/// The approval that a posted comment prompts for: what a 👍 on it stands for.
pub open spec fn prompted_directive(body: Seq<char>) -> Option<Directive> {
    if text::contains(body, "Next: comment `/approve-pre-plan`"@) {
        Some(Directive::ApprovePrePlan)
    } else if text::contains(body, "Next: comment `/approve-plan`"@) {
        Some(Directive::ApprovePlan)
    } else {
        None
    }
}

/// The approval that a posted comment prompts for.
pub fn parse_prompted_directive(body: &str) -> (r: Option<Directive>)
    ensures
        r == prompted_directive(body@),
{
    if text::has(body, "Next: comment `/approve-pre-plan`") {
        Some(Directive::ApprovePrePlan)
    } else if text::has(body, "Next: comment `/approve-plan`") {
        Some(Directive::ApprovePlan)
    } else {
        None
    }
}

/// How a PR left the open state.
#[derive(Clone, Copy, Debug, PartialEq, Eq, Structural)]
pub enum PrOutcome {
    Merged,
    Closed,
}

pub open spec fn outcome_of(pr: PullRequest) -> Option<PrOutcome> {
    if pr.merged {
        Some(PrOutcome::Merged)
    } else if pr.state@ == "closed"@ {
        Some(PrOutcome::Closed)
    } else {
        None
    }
}

/// How `pr` was concluded; nothing while it is open.
pub fn pr_outcome(pr: &PullRequest) -> (r: Option<PrOutcome>)
    ensures
        r == outcome_of(*pr),
{
    if pr.merged {
        Some(PrOutcome::Merged)
    } else if text::same(pr.state.as_str(), "closed") {
        Some(PrOutcome::Closed)
    } else {
        None
    }
}

/// Whose turn it is.
#[derive(Clone, Copy, Debug, PartialEq, Eq, Structural)]
pub enum Attention {
    WaitingOnUser,
    WaitingOnClaude,
    WaitingOnGhwf,
}

/// What a running session was last noticed to need.
#[derive(Clone, Copy, Debug, PartialEq, Eq, Structural)]
pub enum AlertKind {
    Idle,
    Permission,
}

/// A session that stopped for a reason of its own.
pub struct SessionAlert {
    pub kind: AlertKind,
    pub session_id: String,
    /// When the episode began, in seconds since the epoch.
    pub at: u64,
}

/// The branch, worktree and PR an issue is worked on with.
pub struct PrepState {
    pub no_branch: bool,
    pub branch: Option<String>,
    pub worktree_path: Option<String>,
    pub worktree_session_id: Option<String>,
    pub pr_number: Option<u64>,
}

impl Default for PrepState {
    fn default() -> (r: Self)
        ensures
            !r.no_branch,
            r.branch is None,
            r.worktree_path is None,
            r.worktree_session_id is None,
            r.pr_number is None,
    {
        PrepState {
            no_branch: false,
            branch: None,
            worktree_path: None,
            worktree_session_id: None,
            pr_number: None,
        }
    }
}

/// A comment this tool posted, as the thread's feed will list it.
pub struct PostedRef {
    pub id: u64,
    pub created_at: String,
}

/// An approval prompt whose new 👍 reactions wake the session.
pub struct ReactionWatch {
    pub comment_id: u64,
    /// The 👍 reactions that were there already.
    pub plus_one_ids: BTreeSet<u64>,
}

/// An open question whose submission wakes the session.
pub struct OptionsWatch {
    pub comment_id: u64,
}

/// What the labels were last set for.
pub struct LabelSyncRecord {
    pub phase: Phase,
    pub attention: Option<Attention>,
    pub pr_number: Option<u64>,
}

/// What the wait loop watches on one conversation thread.
pub struct ThreadWatch {
    pub reactions: Option<ReactionWatch>,
    pub options: Option<OptionsWatch>,
}

impl Default for ThreadWatch {
    fn default() -> (r: Self)
        ensures
            r.reactions is None,
            r.options is None,
    {
        ThreadWatch { reactions: None, options: None }
    }
}

/// What a poll's last reply was tagged with.
pub struct Etag {
    pub key: String,
    pub value: String,
}

/// What the wait loop compares the threads against.
pub struct WaitState {
    /// The latest server-side update observed.
    pub since: String,
    pub issue_fingerprint: String,
    pub pr_draft: Option<bool>,
    /// The content hash of each conversation comment.
    pub comments: BTreeMap<u64, String>,
    /// The content hash of each inline review comment.
    pub review_comments: BTreeMap<u64, String>,
    pub issue: ThreadWatch,
    pub pr: ThreadWatch,
    pub etags: Vec<Etag>,
}

/// The entries that are not `key`'s.
pub open spec fn etags_without(etags: Seq<Etag>, key: Seq<char>) -> Seq<Etag>
    decreases etags.len(),
{
    if etags.len() == 0 {
        seq![]
    } else {
        let before = etags_without(etags.drop_last(), key);
        if etags.last().key@ == key {
            before
        } else {
            before.push(etags.last())
        }
    }
}

/// Drop the entries of `key`.
pub fn drop_etag(etags: Vec<Etag>, key: &str) -> (r: Vec<Etag>)
    ensures
        r@ == etags_without(etags@, key@),
{
    let mut out: Vec<Etag> = Vec::new();
    let mut i: usize = 0;
    assert(etags@.take(0) =~= seq![]);
    assert(out@ =~= seq![]);
    while i < etags.len()
        invariant
            i <= etags.len(),
            out@ == etags_without(etags@.take(i as int), key@),
        decreases etags.len() - i,
    {
        assert(etags@.take(i + 1).drop_last() =~= etags@.take(i as int));
        assert(etags@.take(i + 1).last() == etags@[i as int]);
        if !text::same(etags[i].key.as_str(), key) {
            out.push(Etag { key: etags[i].key.clone(), value: etags[i].value.clone() });
        }
        i = i + 1;
    }
    assert(etags@.take(etags@.len() as int) =~= etags@);
    out
}

/// The later of two moments.
pub open spec fn later(a: Seq<char>, b: Seq<char>) -> Seq<char> {
    if text::le(b, a) {
        a
    } else {
        b
    }
}

/// Keep the latest moment observed in `since`.
pub fn fold_since(since: &mut String, updated_at: &str)
    ensures
        final(since)@ == later(old(since)@, updated_at@),
{
    if !text::at_most(updated_at, since.as_str()) {
        *since = text::copy(updated_at);
    }
}

/// What of an issue is compared to notice an edit: title, body and state, each
/// ended.
pub open spec fn fingerprint_text(
    title: Seq<char>,
    body: Seq<char>,
    state: Seq<char>,
) -> Seq<char> {
    title + "\n\u{0}"@ + body + "\n\u{0}"@ + state
}

/// A hash that changes when an issue's title, body or state does.
pub fn issue_fingerprint(title: &str, body: Option<&str>, state: &str) -> (r: String)
    ensures
        r@ == store::hash_of(
            fingerprint_text(
                title@,
                match body {
                    Some(b) => b@,
                    None => ""@,
                },
                state@,
            ),
        ),
{
    let mut all = text::copy(title);
    all.append("\n\u{0}");
    match body {
        Some(body) => all.append(body),
        None => all.append(""),
    }
    all.append("\n\u{0}");
    all.append(state);
    store::content_hash(all.as_str())
}

/// How many words of an issue's title its slug is made of.
pub const SLUG_WORDS: usize = 6;

/// A lower-case ASCII letter or a digit.
pub open spec fn in_word(c: char) -> bool {
    ('a' <= c && c <= 'z') || ('0' <= c && c <= '9')
}

/// A title in lower case, with a space in place of everything else.
pub open spec fn spaced(title: Seq<char>) -> Seq<char> {
    Seq::new(
        title.len(),
        |i: int|
            if in_word(text::lower_char(title[i])) {
                text::lower_char(title[i])
            } else {
                ' '
            },
    )
}

/// The parts that are not empty.
pub open spec fn words_among(parts: Seq<Seq<char>>) -> Seq<Seq<char>>
    decreases parts.len(),
{
    if parts.len() == 0 {
        seq![]
    } else {
        let before = words_among(parts.drop_last());
        if parts.last().len() > 0 {
            before.push(parts.last())
        } else {
            before
        }
    }
}

/// The first few of these.
pub open spec fn first_few(words: Seq<Seq<char>>) -> Seq<Seq<char>> {
    if words.len() > SLUG_WORDS {
        words.take(SLUG_WORDS as int)
    } else {
        words
    }
}

/// The first few words of a title, joined by hyphens.
pub open spec fn slug_of(title: Seq<char>) -> Seq<char> {
    text::join(first_few(words_among(text::split(spaced(title), ' '))), "-"@)
}

/// The branch of an issue: its number and its slug, behind the prefix that sets a
/// foreign repo's issues apart, where there is one.
pub open spec fn branch_of(prefix: Option<Seq<char>>, number: nat, title: Seq<char>) -> Seq<char> {
    let name = text::decimal(number) + "-"@ + slug_of(title);
    match prefix {
        Some(p) => if p.len() > 0 {
            p + "-"@ + name
        } else {
            name
        },
        None => name,
    }
}

/// A title in lower case, with a space in place of everything else.
fn space_out(title: &str) -> (r: String)
    ensures
        r@ == spaced(title@),
{
    let v = text::chars(title);
    let mut out = String::new();
    let mut i: usize = 0;
    assert(out@ =~= spaced(title@).take(0));
    while i < v.len()
        invariant
            i <= v.len(),
            v@ == title@,
            out@ == spaced(title@).take(i as int),
        decreases v.len() - i,
    {
        let c = text::lowered_char(v[i]);
        if ('a' <= c && c <= 'z') || ('0' <= c && c <= '9') {
            out.push(c);
        } else {
            out.push(' ');
        }
        assert(spaced(title@).take(i + 1) =~= spaced(title@).take(i as int).push(
            spaced(title@)[i as int],
        ));
        i = i + 1;
    }
    assert(spaced(title@).take(title@.len() as int) =~= spaced(title@));
    out
}

/// The slug of a title.
fn slug(title: &str) -> (r: String)
    ensures
        r@ == slug_of(title@),
{
    let parts = text::split_on(space_out(title).as_str(), ' ');
    let ghost all = text::views(parts@);
    let mut words: Vec<String> = Vec::new();
    let mut i: usize = 0;
    assert(all.take(0) =~= seq![]);
    assert(text::views(words@) =~= seq![]);
    while i < parts.len()
        invariant
            i <= parts.len(),
            all == text::views(parts@),
            text::views(words@) == words_among(all.take(i as int)),
        decreases parts.len() - i,
    {
        assert(all.take(i + 1).drop_last() =~= all.take(i as int));
        assert(all.take(i + 1).last() == parts@[i as int]@);
        if !parts[i].as_str().is_empty() {
            let ghost before = words@;
            let word = text::copy(parts[i].as_str());
            words.push(word);
            proof {
                text::lemma_views_push(before, word);
            }
        }
        i = i + 1;
    }
    assert(all.take(all.len() as int) =~= all);
    let ghost found = text::views(words@);
    assert(found.len() == words@.len());
    if words.len() > SLUG_WORDS {
        words.truncate(SLUG_WORDS);
        assert(text::views(words@) =~= found.take(SLUG_WORDS as int));
    }
    text::joined(&words, "-")
}

/// The branch an issue is worked on in, and the slug its plan goes by.
pub fn branch_and_slug(prefix: Option<&str>, number: u64, title: &str) -> (r: (String, String))
    ensures
        r.0@ == branch_of(
            match prefix {
                Some(p) => Some(p@),
                None => None,
            },
            number as nat,
            title@,
        ),
        r.1@ == slug_of(title@),
{
    let slug = slug(title);
    let mut branch = match prefix {
        Some(p) => text::copy(p),
        None => text::copy(""),
    };
    if !branch.as_str().is_empty() {
        branch.append("-");
    }
    let ghost start = branch@;
    branch.append(text::number(number).as_str());
    branch.append("-");
    branch.append(slug.as_str());
    assert(branch@ =~= start + (text::decimal(number as nat) + "-"@ + slug_of(title@)));
    proof {
        if prefix is Some && prefix->0@.len() > 0 {
            assert(start =~= prefix->0@ + "-"@);
            assert(branch@ =~= prefix->0@ + "-"@ + (text::decimal(number as nat) + "-"@ + slug_of(
                title@,
            )));
        } else {
            reveal_strlit("");
            assert(start =~= seq![]);
        }
    }
    (branch, slug)
}

/// What is recorded of one issue's workflow.
pub struct IssueState {
    pub phase: Phase,
    pub prep: Option<PrepState>,
    pub issue_closed: bool,
    pub pr_outcome: Option<PrOutcome>,
    /// Comments whose directive has been processed.
    pub consumed_directives: BTreeSet<u64>,
    /// 👍 reactions that have been processed.
    pub consumed_reactions: BTreeSet<u64>,
    pub intro_posted: bool,
    pub last_posted: Option<PostedRef>,
    pub attention: Attention,
    pub stop_nudges: u32,
    pub session_alert: Option<SessionAlert>,
    pub labels_synced: Option<LabelSyncRecord>,
    pub wait: Option<WaitState>,
}

impl Default for IssueState {
    fn default() -> (r: Self)
        ensures
            r.phase == Phase::PrePlan,
            r.prep is None,
            !r.issue_closed,
            r.pr_outcome is None,
            r.consumed_directives@ == Set::<u64>::empty(),
            r.consumed_reactions@ == Set::<u64>::empty(),
            !r.intro_posted,
            r.last_posted is None,
            r.attention == Attention::WaitingOnClaude,
            r.stop_nudges == 0,
            r.session_alert is None,
            r.labels_synced is None,
            r.wait is None,
    {
        IssueState {
            phase: Phase::PrePlan,
            prep: None,
            issue_closed: false,
            pr_outcome: None,
            consumed_directives: BTreeSet::new(),
            consumed_reactions: BTreeSet::new(),
            intro_posted: false,
            last_posted: None,
            attention: Attention::WaitingOnClaude,
            stop_nudges: 0,
            session_alert: None,
            labels_synced: None,
            wait: None,
        }
    }
}

impl IssueState {
    pub open spec fn concluded(&self) -> bool {
        self.issue_closed || self.pr_outcome is Some
    }

    /// Whether the workflow is over: the issue is closed, or its PR has left
    /// the open state.
    pub fn is_concluded(&self) -> (r: bool)
        ensures
            r == self.concluded(),
    {
        self.issue_closed || self.pr_outcome.is_some()
    }
}

} // verus!
