//! The project's configuration: what it holds, and the paths, labels and branch
//! prefixes that follow from it.

use vstd::prelude::*;

use crate::github::RepoRef;
use crate::state::{Attention, Phase};
use crate::text;

verus! {

/// Name of the config file that is looked for up the directory tree.
pub const CONFIG_FILE: &'static str = "ghwf.toml";

/// Default name of the PR instructions file, next to the config.
pub const PR_INSTRUCTIONS_FILE: &'static str = "pull-request.md";

/// Contents of a `ghwf.toml`. Paths are relative to the file's own directory.
pub struct Config {
    /// Path to the main git repo. Defaults to the config's directory.
    pub main_repo: Option<String>,
    /// Directory under which worktrees are created.
    pub worktrees_dir: String,
    /// Labels that mark an issue as urgent, most urgent first.
    pub priority_labels: Vec<String>,
    /// Path to a markdown file of instructions for writing PR titles and
    /// bodies. Defaults to `pull-request.md` next to the config.
    pub pr_instructions: Option<String>,
    /// Workflow status labels, mirrored onto the issue and PR as the workflow
    /// advances. Absent means the feature is off.
    pub labels: Option<LabelsConfig>,
    /// Permission mode passed to launched agent sessions.
    pub permission_mode: Option<String>,
    /// Whether the plan commit is rewritten out of the branch's history once
    /// the implementation is approved.
    pub delete_plan_on_approval: bool,
    /// Whether merged branches are collected now and then.
    pub auto_collect_garbage: bool,
    /// How long to wait between two collections.
    pub auto_collect_garbage_interval_hours: u64,
    /// Whether a base branch that has moved on is merged without being asked.
    pub auto_merge_base: bool,
    /// Whether only issues already assigned to the current user are considered.
    pub only_assigned_to_me: bool,
    /// Label that marks a follow-up as blocked by the issue it was filed from,
    /// until the native dependency is set.
    pub blocked_label: String,
    /// Repos whose issues may be worked on even though the code, worktree, and
    /// PR live in `main_repo`.
    pub issue_repos: Vec<IssueRepo>,
    /// GitHub logins whose comments and 👍 reactions are acted on, in addition
    /// to the authenticated user and the repo's collaborators.
    pub allowed_users: Vec<String>,
}

/// An entry in [`Config::issue_repos`]: a foreign repo whose issues may be
/// worked on. Either a plain `"owner/repo"` string or a table that also carries
/// a `branch_prefix` controlling how that repo's branches are named.
pub enum IssueRepo {
    /// `"owner/repo"`: the branch prefix defaults to the repo name.
    Plain(String),
    /// A `branch_prefix` omitted means the repo name; an empty one, no prefix.
    Detailed { repo: String, branch_prefix: Option<String> },
}

/// An entry that names no repository.
#[derive(Debug, PartialEq, Eq)]
pub struct InvalidRepo {
    pub entry: String,
}

impl InvalidRepo {
    /// What is wrong with the entry.
    pub fn message(&self) -> (r: String)
        ensures
            r@ == "invalid issue_repos entry `"@ + self.entry@
                + "`: expected the form \"owner/repo\""@,
    {
        let mut out = text::copy("invalid issue_repos entry `");
        out.append(self.entry.as_str());
        out.append("`: expected the form \"owner/repo\"");
        out
    }
}

/// The two halves of a text around its first slash.
pub open spec fn halves(s: Seq<char>) -> Option<(Seq<char>, Seq<char>)> {
    let i = text::index_of(s, '/');
    if i < s.len() {
        Some((s.take(i), s.skip(i + 1)))
    } else {
        None
    }
}

/// The owner and the repository of an `owner/repo` spec: exactly one of each,
/// neither of them empty.
pub open spec fn spec_repo(spec: Seq<char>) -> Option<(Seq<char>, Seq<char>)> {
    match halves(text::trim(spec)) {
        Some((owner, repo)) => if owner.len() > 0 && repo.len() > 0 && text::index_of(repo, '/')
            >= repo.len() {
            Some((owner, repo))
        } else {
            None
        },
        None => None,
    }
}

/// Parse `"owner/repo"` into its halves, rejecting anything that isn't exactly
/// one non-empty owner and one non-empty repo.
pub fn parse_owner_repo_spec(spec: &str) -> (r: Result<RepoRef, InvalidRepo>)
    ensures
        match r {
            Ok(repo) => spec_repo(spec@) == Some((repo.0@, repo.1@)),
            Err(e) => spec_repo(spec@) is None && e.entry@ == spec@,
        },
{
    let trimmed = text::trimmed(spec);
    let v = text::chars(trimmed.as_str());
    let i = text::next_index(&v, '/', 0);
    assert(v@.skip(0) =~= v@);
    if i >= v.len() {
        return Err(InvalidRepo { entry: text::copy(spec) });
    }
    let owner = text::slice(&v, 0, i);
    let repo = text::slice(&v, i + 1, v.len());
    assert(owner@ =~= v@.take(i as int));
    assert(repo@ =~= v@.skip(i + 1));
    let w = text::chars(repo.as_str());
    let j = text::next_index(&w, '/', 0);
    assert(w@.skip(0) =~= w@);
    if i > 0 && w.len() > 0 && j >= w.len() {
        Ok((owner, repo))
    } else {
        Err(InvalidRepo { entry: text::copy(spec) })
    }
}

impl IssueRepo {
    pub open spec fn named(&self) -> Seq<char> {
        match self {
            IssueRepo::Plain(spec) => spec@,
            IssueRepo::Detailed { repo, .. } => repo@,
        }
    }

    pub open spec fn prefix(&self) -> Option<Seq<char>> {
        match self {
            IssueRepo::Plain(_) => None,
            IssueRepo::Detailed { branch_prefix, .. } => match branch_prefix {
                Some(p) => Some(p@),
                None => None,
            },
        }
    }

    /// The `"owner/repo"` spec, whichever form was used.
    fn spec(&self) -> (r: &str)
        ensures
            r@ == self.named(),
    {
        match self {
            IssueRepo::Plain(spec) => spec.as_str(),
            IssueRepo::Detailed { repo, .. } => repo.as_str(),
        }
    }

    /// Parse and validate the spec into its owner and repository.
    pub fn repo_ref(&self) -> (r: Result<RepoRef, InvalidRepo>)
        ensures
            match r {
                Ok(repo) => spec_repo(self.named()) == Some((repo.0@, repo.1@)),
                Err(e) => spec_repo(self.named()) is None && e.entry@ == self.named(),
            },
    {
        parse_owner_repo_spec(self.spec())
    }

    /// The explicit `branch_prefix` override, if any. `None` means "unset" (the
    /// caller defaults to the repo name); an empty one means "no prefix".
    fn branch_prefix(&self) -> (r: Option<&str>)
        ensures
            match r {
                Some(p) => self.prefix() == Some(p@),
                None => self.prefix() is None,
            },
    {
        match self {
            IssueRepo::Plain(_) => None,
            IssueRepo::Detailed { branch_prefix, .. } => match branch_prefix {
                Some(p) => Some(p.as_str()),
                None => None,
            },
        }
    }
}

/// The default label that marks a follow-up as blocked, also used by callers
/// that run without a config file.
pub fn default_blocked_label() -> (r: String)
    ensures
        r@ == "blocked"@,
{
    text::copy("blocked")
}

/// The conventional name for the terminal `finished` phase label, used when a
/// labels table written before that phase existed omits it.
pub fn default_finished_label() -> (r: String)
    ensures
        r@ == "ghwf:finished"@,
{
    text::copy("ghwf:finished")
}

/// Every entry names a repository.
pub open spec fn all_valid(entries: Seq<IssueRepo>) -> bool {
    forall|i: int| 0 <= i < entries.len() ==> spec_repo((#[trigger] entries[i]).named()) is Some
}

pub open spec fn repo_views(v: Seq<RepoRef>) -> Seq<(Seq<char>, Seq<char>)> {
    Seq::new(v.len(), |i: int| (v[i].0@, v[i].1@))
}

/// This is the first entry that names no repository.
pub open spec fn first_invalid(entries: Seq<IssueRepo>, i: int) -> bool {
    &&& 0 <= i < entries.len()
    &&& spec_repo(entries[i].named()) is None
    &&& all_valid(entries.take(i))
}

/// The branch prefix of the first entry for a repository, ignoring case. An
/// entry before it that names no repository is an error.
pub open spec fn prefix_for(entries: Seq<IssueRepo>, owner: Seq<char>, repo: Seq<char>) -> Result<
    Option<Seq<char>>,
    Seq<char>,
>
    decreases entries.len(),
{
    if entries.len() == 0 {
        Ok(None)
    } else {
        match spec_repo(entries[0].named()) {
            None => Err(entries[0].named()),
            Some((o, r)) => if text::lower(o) == text::lower(owner) && text::lower(r)
                == text::lower(repo) {
                match entries[0].prefix() {
                    Some(p) => if p.len() == 0 {
                        Ok(None)
                    } else {
                        Ok(Some(p))
                    },
                    None => Ok(Some(r)),
                }
            } else {
                prefix_for(entries.skip(1), owner, repo)
            },
        }
    }
}

impl Config {
    /// The validated owner and repository of every `issue_repos` entry. A
    /// malformed entry is an error: better to fail loudly than silently drop an
    /// allowlist entry the user is relying on.
    pub fn issue_repo_refs(&self) -> (r: Result<Vec<RepoRef>, InvalidRepo>)
        ensures
            match r {
                Ok(repos) => all_valid(self.issue_repos@) && repos@.len() == self.issue_repos@.len()
                    && forall|i: int|
                    0 <= i < repos@.len() ==> spec_repo(self.issue_repos@[i].named()) == Some(
                        #[trigger] repo_views(repos@)[i],
                    ),
                Err(e) => exists|i: int| #[trigger]
                    first_invalid(self.issue_repos@, i) && e.entry@ == self.issue_repos@[i].named(),
            },
    {
        let mut out: Vec<RepoRef> = Vec::new();
        let mut i: usize = 0;
        while i < self.issue_repos.len()
            invariant
                i <= self.issue_repos.len(),
                out.len() == i,
                forall|j: int|
                    0 <= j < i ==> spec_repo((#[trigger] self.issue_repos@[j]).named()) == Some(
                        repo_views(out@)[j],
                    ),
            decreases self.issue_repos.len() - i,
        {
            let ghost before = out@;
            match self.issue_repos[i].repo_ref() {
                Ok(repo) => {
                    out.push(repo);
                    assert forall|j: int| 0 <= j < i + 1 implies spec_repo(
                        (#[trigger] self.issue_repos@[j]).named(),
                    ) == Some(repo_views(out@)[j]) by {
                        if j < i {
                            assert(repo_views(out@)[j] == repo_views(before)[j]);
                        }
                    }
                },
                Err(e) => {
                    assert(first_invalid(self.issue_repos@, i as int)) by {
                        let before = self.issue_repos@.take(i as int);
                        assert forall|j: int| 0 <= j < before.len() implies spec_repo(
                            (#[trigger] before[j]).named(),
                        ) is Some by {
                            assert(before[j] == self.issue_repos@[j]);
                        }
                    }
                    return Err(e);
                },
            }
            i = i + 1;
        }
        Ok(out)
    }

    /// The branch-name prefix for an issue living in a repository:
    /// - `None` when the repo isn't a configured issue repo (e.g. it's the main
    ///   repo) or its entry sets an empty prefix (opt out);
    /// - else the entry's prefix, or the repo name by default.
    pub fn issue_branch_prefix(&self, owner: &str, repo: &str) -> (r: Result<
        Option<String>,
        InvalidRepo,
    >)
        ensures
            match r {
                Ok(Some(p)) => prefix_for(self.issue_repos@, owner@, repo@) == Ok::<
                    Option<Seq<char>>,
                    Seq<char>,
                >(Some(p@)),
                Ok(None) => prefix_for(self.issue_repos@, owner@, repo@) == Ok::<
                    Option<Seq<char>>,
                    Seq<char>,
                >(None),
                Err(e) => prefix_for(self.issue_repos@, owner@, repo@) == Err::<
                    Option<Seq<char>>,
                    Seq<char>,
                >(e.entry@),
            },
    {
        let ghost all = self.issue_repos@;
        let mut i: usize = 0;
        assert(all.skip(0) =~= all);
        while i < self.issue_repos.len()
            invariant
                i <= self.issue_repos.len(),
                all == self.issue_repos@,
                prefix_for(all, owner@, repo@) == prefix_for(all.skip(i as int), owner@, repo@),
            decreases self.issue_repos.len() - i,
        {
            let entry = &self.issue_repos[i];
            assert(all.skip(i as int)[0] == all[i as int]);
            assert(all.skip(i as int).skip(1) =~= all.skip(i + 1));
            match entry.repo_ref() {
                Err(e) => {
                    return Err(e);
                },
                Ok((o, r)) => {
                    if text::same_ignoring_case(o.as_str(), owner) && text::same_ignoring_case(
                        r.as_str(),
                        repo,
                    ) {
                        return match entry.branch_prefix() {
                            Some(p) => {
                                if p.is_empty() {
                                    Ok(None)
                                } else {
                                    Ok(Some(text::copy(p)))
                                }
                            },
                            None => Ok(Some(r)),
                        };
                    }
                },
            }
            i = i + 1;
        }
        Ok(None)
    }
}

/// The labels section: one GitHub label name per phase and per attention state.
/// All names are required once the section is present.
pub struct LabelsConfig {
    /// Label names for each workflow phase.
    pub phase: PhaseLabels,
    /// Label names for each attention state.
    pub attention: AttentionLabels,
}

/// Label names for each workflow phase.
pub struct PhaseLabels {
    /// Label for the pre-plan phase (gathering information before planning).
    pub pre_plan: String,
    /// Label for the prep-and-plan phase (worktree created, plan being written).
    pub prep_and_plan: String,
    /// Label for the implement phase (coding the change).
    pub implement: String,
    /// Label for the review phase (change ready for human review).
    pub review: String,
    /// Label for the terminal finished phase.
    pub finished: String,
}

/// Label names for each attention state.
pub struct AttentionLabels {
    /// Label for when the workflow is waiting on the user.
    pub waiting_on_user: String,
    /// Label for when the agent is actively working the issue.
    pub waiting_on_claude: String,
    /// Label for when the machinery is at work (e.g. creating a worktree).
    pub waiting_on_ghwf: String,
}

impl LabelsConfig {
    pub open spec fn phase_label(&self, phase: Phase) -> Seq<char> {
        match phase {
            Phase::PrePlan => self.phase.pre_plan@,
            Phase::PrepAndPlan => self.phase.prep_and_plan@,
            Phase::Implement => self.phase.implement@,
            Phase::Review => self.phase.review@,
            Phase::Finished => self.phase.finished@,
        }
    }

    pub open spec fn attention_label(&self, attention: Attention) -> Seq<char> {
        match attention {
            Attention::WaitingOnUser => self.attention.waiting_on_user@,
            Attention::WaitingOnClaude => self.attention.waiting_on_claude@,
            Attention::WaitingOnGhwf => self.attention.waiting_on_ghwf@,
        }
    }

    /// Every configured label name, phases first.
    pub open spec fn names(&self) -> Seq<Seq<char>> {
        seq![
            self.phase.pre_plan@,
            self.phase.prep_and_plan@,
            self.phase.implement@,
            self.phase.review@,
            self.phase.finished@,
            self.attention.waiting_on_user@,
            self.attention.waiting_on_claude@,
            self.attention.waiting_on_ghwf@,
        ]
    }

    /// The configured label for a phase.
    pub fn for_phase(&self, phase: Phase) -> (r: &str)
        ensures
            r@ == self.phase_label(phase),
    {
        match phase {
            Phase::PrePlan => self.phase.pre_plan.as_str(),
            Phase::PrepAndPlan => self.phase.prep_and_plan.as_str(),
            Phase::Implement => self.phase.implement.as_str(),
            Phase::Review => self.phase.review.as_str(),
            Phase::Finished => self.phase.finished.as_str(),
        }
    }

    /// The configured label for an attention state.
    pub fn for_attention(&self, attention: Attention) -> (r: &str)
        ensures
            r@ == self.attention_label(attention),
    {
        match attention {
            Attention::WaitingOnUser => self.attention.waiting_on_user.as_str(),
            Attention::WaitingOnClaude => self.attention.waiting_on_claude.as_str(),
            Attention::WaitingOnGhwf => self.attention.waiting_on_ghwf.as_str(),
        }
    }

    /// Every configured label name. Only these are ever added or removed by
    /// the sync; the user's other labels are invisible to it.
    pub fn all(&self) -> (r: [&str; 8])
        ensures
            text::str_views(r@) == self.names(),
    {
        let r = [
            self.phase.pre_plan.as_str(),
            self.phase.prep_and_plan.as_str(),
            self.phase.implement.as_str(),
            self.phase.review.as_str(),
            self.phase.finished.as_str(),
            self.attention.waiting_on_user.as_str(),
            self.attention.waiting_on_claude.as_str(),
            self.attention.waiting_on_ghwf.as_str(),
        ];
        assert(text::str_views(r@) =~= self.names());
        r
    }
}

/// The label of every phase and of every attention state is a configured one.
pub proof fn state_labels_are_configured(labels: LabelsConfig, phase: Phase, attention: Attention)
    ensures
        labels.names().contains(labels.phase_label(phase)),
        labels.names().contains(labels.attention_label(attention)),
{
    let n = labels.names();
    assert(n[0] == labels.phase.pre_plan@ && n[1] == labels.phase.prep_and_plan@ && n[2]
        == labels.phase.implement@ && n[3] == labels.phase.review@ && n[4]
        == labels.phase.finished@);
    assert(n[5] == labels.attention.waiting_on_user@ && n[6]
        == labels.attention.waiting_on_claude@ && n[7] == labels.attention.waiting_on_ghwf@);
}

/// A parsed config together with the directory it was found in.
pub struct Located {
    pub dir: String,
    pub config: Config,
}

impl Located {
    /// Path to the config file itself, absolute where the directory is.
    pub fn file_path(&self) -> (r: String)
        ensures
            r@ == text::below(self.dir@, CONFIG_FILE@),
            text::is_absolute(self.dir@) ==> text::is_absolute(r@),
    {
        text::path_below(self.dir.as_str(), CONFIG_FILE)
    }

    /// Path to the main repo, absolute where the directory is.
    pub fn main_repo_path(&self) -> (r: String)
        ensures
            r@ == (match self.config.main_repo {
                Some(p) => text::below(self.dir@, p@),
                None => self.dir@,
            }),
            text::is_absolute(self.dir@) ==> text::is_absolute(r@),
    {
        match &self.config.main_repo {
            Some(p) => text::path_below(self.dir.as_str(), p.as_str()),
            None => text::copy(self.dir.as_str()),
        }
    }

    /// Path to the worktrees directory, absolute where the config's is.
    pub fn worktrees_dir_path(&self) -> (r: String)
        ensures
            r@ == text::below(self.dir@, self.config.worktrees_dir@),
            text::is_absolute(self.dir@) ==> text::is_absolute(r@),
    {
        text::path_below(self.dir.as_str(), self.config.worktrees_dir.as_str())
    }

    /// Path to the PR instructions file (which may not exist), absolute where the
    /// directory is.
    pub fn pr_instructions_path(&self) -> (r: String)
        ensures
            r@ == text::below(
                self.dir@,
                match self.config.pr_instructions {
                    Some(p) => p@,
                    None => PR_INSTRUCTIONS_FILE@,
                },
            ),
            text::is_absolute(self.dir@) ==> text::is_absolute(r@),
    {
        match &self.config.pr_instructions {
            Some(p) => text::path_below(self.dir.as_str(), p.as_str()),
            None => text::path_below(self.dir.as_str(), PR_INSTRUCTIONS_FILE),
        }
    }
}

/// Where the search for the config file looks: in each of the directories, the
/// innermost first.
pub fn candidates(dirs: &[String]) -> (r: Vec<String>)
    ensures
        text::views(r@) == Seq::new(
            dirs@.len(),
            |i: int| text::below(dirs@[i]@, CONFIG_FILE@),
        ),
{
    let mut out: Vec<String> = Vec::new();
    let mut i: usize = 0;
    while i < dirs.len()
        invariant
            i <= dirs.len(),
            out.len() == i,
            forall|j: int|
                0 <= j < i ==> #[trigger] out@[j]@ == text::below(dirs@[j]@, CONFIG_FILE@),
        decreases dirs.len() - i,
    {
        out.push(text::path_below(dirs[i].as_str(), CONFIG_FILE));
        i = i + 1;
    }
    assert(text::views(out@) =~= Seq::new(
        dirs@.len(),
        |i: int| text::below(dirs@[i]@, CONFIG_FILE@),
    ));
    out
}

pub const REQUIRED: &'static str =
    "this step requires a ghwf.toml (with `worktrees_dir`) in this or a parent \
     directory; none found. Run `ghwf config init` to set one up, or use --no-branch \
     to work without one.";

/// The config that a step needs, or what to say where there is none.
pub fn require(found: Option<Located>) -> (r: Result<Located, String>)
    ensures
        match r {
            Ok(located) => found == Some(located),
            Err(message) => found is None && message@ == REQUIRED@,
        },
{
    match found {
        Some(located) => Ok(located),
        None => Err(text::copy(REQUIRED)),
    }
}

} // verus!
