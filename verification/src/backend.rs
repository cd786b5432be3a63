//! The workspaces that the server has open, and the steps of bringing them up.

use vstd::prelude::*;
use vstd::string::StringExecFns;

use crate::ascii::same_bytes;
use crate::domain::text_of;
use crate::server::{FileAnalysis, Server};

verus! {

// ---- Workspaces ----------------------------------------------------------

/// A workspace folder: where it is, as the components of its path, and what is
/// known of it.
#[derive(Debug)]
pub struct Workspace<W> {
    pub root: Vec<Vec<u8>>,
    pub state: W,
}

/// Every workspace folder that is open.
#[derive(Debug)]
pub struct WorkspaceRegistry<W> {
    pub workspaces: Vec<Workspace<W>>,
}

/// The components of a path.
pub open spec fn components(path: Seq<Vec<u8>>) -> Seq<Seq<u8>> {
    Seq::new(path.len(), |i: int| path[i]@)
}

/// `root` is `path` or a folder above it.
pub open spec fn leads_to(root: Seq<Seq<u8>>, path: Seq<Seq<u8>>) -> bool {
    root.len() <= path.len() && path.take(root.len() as int) == root
}

/// The first of the deepest among the first `count` workspaces whose root leads to
/// `path`.
pub open spec fn owner<W>(
    workspaces: Seq<Workspace<W>>,
    path: Seq<Seq<u8>>,
    count: int,
) -> Option<int>
    decreases count,
{
    if count <= 0 {
        None
    } else {
        let best = owner(workspaces, path, count - 1);
        let last = workspaces[count - 1];
        if leads_to(components(last.root@), path) && (best is None || last.root@.len()
            > workspaces[best->0].root@.len()) {
            Some(count - 1)
        } else {
            best
        }
    }
}

/// The owner's root leads to the path, and no deeper one does; and there is an
/// owner when any root leads to the path.
pub proof fn law_owner_has_longest_root<W>(
    workspaces: Seq<Workspace<W>>,
    path: Seq<Seq<u8>>,
    count: int,
)
    requires
        0 <= count <= workspaces.len(),
    ensures
        match owner(workspaces, path, count) {
            Some(index) => 0 <= index < count && leads_to(
                components(workspaces[index].root@),
                path,
            ) && forall|i: int|
                0 <= i < count && leads_to(components((#[trigger] workspaces[i]).root@), path)
                    ==> workspaces[i].root@.len() <= workspaces[index].root@.len(),
            None => forall|i: int|
                0 <= i < count ==> !leads_to(components((#[trigger] workspaces[i]).root@), path),
        },
    decreases count,
{
    if count > 0 {
        law_owner_has_longest_root(workspaces, path, count - 1);
    }
}

/// Does `root` lead to `path`?
fn is_above(root: &Vec<Vec<u8>>, path: &Vec<Vec<u8>>) -> (yes: bool)
    ensures
        yes == leads_to(components(root@), components(path@)),
{
    if root.len() > path.len() {
        return false;
    }
    let ghost head = components(path@).take(root@.len() as int);
    let mut i: usize = 0;
    while i < root.len()
        invariant
            i <= root@.len() <= path@.len(),
            head == components(path@).take(root@.len() as int),
            forall|k: int| 0 <= k < i ==> (#[trigger] root@[k])@ == path@[k]@,
        decreases root.len() - i,
    {
        if !same_bytes(root[i].as_slice(), path[i].as_slice()) {
            assert(head[i as int] != components(root@)[i as int]);
            return false;
        }
        i += 1;
    }
    assert(head =~= components(root@));
    true
}

impl<W> WorkspaceRegistry<W> {
    /// The index of the workspace that owns `path`: the one with the longest root
    /// that leads to it.
    pub fn for_path(&self, path: &Vec<Vec<u8>>) -> (index: Option<usize>)
        ensures
            owner(self.workspaces@, components(path@), self.workspaces@.len() as int)
                == match index {
                Some(index) => Some(index as int),
                None => None,
            },
            index matches Some(index) ==> index < self.workspaces@.len(),
    {
        let mut best: Option<usize> = None;
        let mut i: usize = 0;
        while i < self.workspaces.len()
            invariant
                i <= self.workspaces@.len(),
                best matches Some(index) ==> index < i,
                owner(self.workspaces@, components(path@), i as int) == match best {
                    Some(index) => Some(index as int),
                    None => None,
                },
            decreases self.workspaces.len() - i,
        {
            if is_above(&self.workspaces[i].root, path) {
                let deeper = match best {
                    Some(index) => self.workspaces[i].root.len()
                        > self.workspaces[index].root.len(),
                    None => true,
                };
                if deeper {
                    best = Some(i);
                }
            }
            i += 1;
        }
        best
    }

    /// The registry has a workspace at `root`.
    pub open spec fn tracks(self, root: Seq<Seq<u8>>) -> bool {
        exists|i: int|
            0 <= i < self.workspaces@.len() && components((#[trigger] self.workspaces@[i]).root@)
                == root
    }

    /// Where the workspace at `root` stands.
    fn find_root(&self, root: &Vec<Vec<u8>>) -> (index: Option<usize>)
        ensures
            match index {
                Some(index) => index < self.workspaces@.len() && components(
                    self.workspaces@[index as int].root@,
                ) == components(root@) && forall|i: int|
                    0 <= i < index ==> components((#[trigger] self.workspaces@[i]).root@)
                        != components(root@),
                None => !self.tracks(components(root@)),
            },
    {
        let mut i: usize = 0;
        while i < self.workspaces.len()
            invariant
                i <= self.workspaces@.len(),
                forall|k: int|
                    0 <= k < i ==> components((#[trigger] self.workspaces@[k]).root@)
                        != components(root@),
            decreases self.workspaces.len() - i,
        {
            let known = &self.workspaces[i].root;
            if known.len() == root.len() && is_above(known, root) {
                assert(components(root@).take(root@.len() as int) =~= components(root@));
                return Some(i);
            }
            proof {
                if components(known@) == components(root@) {
                    assert(components(root@).take(root@.len() as int) =~= components(root@));
                    assert(components(known@).len() == components(root@).len());
                }
            }
            i += 1;
        }
        None
    }

    /// Does the registry have a workspace at `root`?
    pub fn contains_root(&self, root: &Vec<Vec<u8>>) -> (yes: bool)
        ensures
            yes == self.tracks(components(root@)),
    {
        self.find_root(root).is_some()
    }

    /// Add a workspace.
    pub fn add(&mut self, workspace: Workspace<W>)
        ensures
            final(self).workspaces@ == old(self).workspaces@.push(workspace),
    {
        self.workspaces.push(workspace);
    }

    /// Take the workspace at `root` out, if there is one.
    pub fn remove(&mut self, root: &Vec<Vec<u8>>) -> (workspace: Option<Workspace<W>>)
        ensures
            match workspace {
                Some(workspace) => exists|index: int|
                    0 <= index < old(self).workspaces@.len() && #[trigger] old(
                        self,
                    ).workspaces@[index] == workspace && components(workspace.root@)
                        == components(root@) && final(self).workspaces@ == old(
                        self,
                    ).workspaces@.remove(index) && forall|i: int|
                        0 <= i < index ==> components((#[trigger] old(self).workspaces@[i]).root@)
                            != components(root@),
                None => !old(self).tracks(components(root@)) && final(self).workspaces@ == old(
                    self,
                ).workspaces@,
            },
    {
        match self.find_root(root) {
            Some(index) => {
                let workspace = self.workspaces.remove(index);
                assert(old(self).workspaces@[index as int] == workspace);
                Some(workspace)
            },
            None => None,
        }
    }
}

// ---- The state of the server ---------------------------------------------

/// Whether the workspaces are up yet.
#[derive(Debug)]
pub enum BackendState<R> {
    Starting,
    Ready(R),
}

impl<R> BackendState<R> {
    /// Run `f` against the whole registry (e.g. cross-workspace operations).
    /// `None` if the server isn't ready.
    pub fn with_registry<F, T>(&self, f: F) -> (result: Option<T>) where F: FnOnce(&R) -> T
        requires
            self matches BackendState::Ready(registry) ==> call_requires(f, (&registry,)),
        ensures
            match *self {
                BackendState::Ready(registry) => result matches Some(value) && call_ensures(
                    f,
                    (&registry,),
                    value,
                ),
                BackendState::Starting => result is None,
            },
    {
        match self {
            BackendState::Ready(registry) => Some(f(registry)),
            BackendState::Starting => None,
        }
    }

    /// Run `f` against the whole registry, which it may change: `f` hands back
    /// what becomes of it. `None` if the server isn't ready.
    pub fn with_registry_mut<F, T>(&mut self, f: F) -> (result: Option<T>) where
        F: FnOnce(R) -> (R, T),

        requires
            *old(self) matches BackendState::Ready(registry) ==> call_requires(f, (registry,)),
        ensures
            match *old(self) {
                BackendState::Ready(registry) => result is Some && *final(self) is Ready
                    && call_ensures(f, (registry,), ((*final(self))->Ready_0, result->0)),
                BackendState::Starting => result is None && *final(self) == *old(self),
            },
    {
        let mut taken: BackendState<R> = BackendState::Starting;
        std::mem::swap(self, &mut taken);
        match taken {
            BackendState::Ready(registry) => {
                let (after, value) = f(registry);
                assert(call_ensures(f, (registry,), (after, value)));
                *self = BackendState::Ready(after);
                Some(value)
            },
            BackendState::Starting => None,
        }
    }
}

impl<W> BackendState<WorkspaceRegistry<W>> {
    /// The workspace that owns `path`. `None` if the server isn't ready or no
    /// workspace does.
    pub open spec fn owning(self, path: Seq<Seq<u8>>) -> Option<Workspace<W>> {
        match self {
            BackendState::Ready(registry) => match owner(
                registry.workspaces@,
                path,
                registry.workspaces@.len() as int,
            ) {
                Some(index) => Some(registry.workspaces@[index]),
                None => None,
            },
            BackendState::Starting => None,
        }
    }

    /// The workspace that owns `path`, routing by longest-prefix root match.
    /// `None` if the server isn't ready or no workspace does.
    pub fn workspace_for(&self, path: &Vec<Vec<u8>>) -> (workspace: Option<&Workspace<W>>)
        ensures
            self.owning(components(path@)) == match workspace {
                Some(workspace) => Some(*workspace),
                None => None,
            },
    {
        match self {
            BackendState::Ready(registry) => match registry.for_path(path) {
                Some(index) => Some(&registry.workspaces[index]),
                None => None,
            },
            BackendState::Starting => None,
        }
    }

    /// Is a newly-added workspace folder to be brought up? Not when the server
    /// isn't ready, or the folder is already known.
    pub fn wants_folder(&self, root: &Vec<Vec<u8>>) -> (yes: bool)
        ensures
            yes == match *self {
                BackendState::Ready(registry) => !registry.tracks(components(root@)),
                BackendState::Starting => false,
            },
    {
        match self {
            BackendState::Ready(registry) => !registry.contains_root(root),
            BackendState::Starting => false,
        }
    }
}

// ---- Bringing workspaces up ----------------------------------------------

/// How the task that builds a workspace ends.
#[derive(Debug)]
pub enum BuildOutcome {
    /// It was built, with the linter enabled or not.
    Built { linter: bool },
    /// It could not be, for this reason.
    Failed(String),
    /// The task itself gave up.
    Panicked(String),
}

/// What to do with a workspace folder once its task has ended.
#[derive(Debug)]
pub enum BuildStep {
    /// Keep the workspace, and first analyze every file of it if `lint`, under
    /// this progress message.
    Keep { lint: bool, progress: Option<String> },
    /// Tell the editor what went wrong.
    Report { message: String },
}

/// What a [`BuildStep`] says.
pub enum BuildStepView {
    Keep { lint: bool, progress: Option<Seq<char>> },
    Report { message: Seq<char> },
}

impl View for BuildStep {
    type V = BuildStepView;

    open spec fn view(&self) -> BuildStepView {
        match *self {
            BuildStep::Keep { lint, progress } => BuildStepView::Keep {
                lint,
                progress: text_of(progress),
            },
            BuildStep::Report { message } => BuildStepView::Report { message: message@ },
        }
    }
}

/// The step that follows, where `reports` says whether progress is reported.
pub open spec fn step_after(root: Seq<char>, outcome: BuildOutcome, reports: bool) -> BuildStepView {
    match outcome {
        BuildOutcome::Built { linter } => BuildStepView::Keep {
            lint: linter,
            progress: if linter && reports {
                Some("Linting "@ + root)
            } else {
                None
            },
        },
        BuildOutcome::Failed(reason) => BuildStepView::Report {
            message: "mago-server: bootstrap failed for "@ + root + ": "@ + reason@,
        },
        BuildOutcome::Panicked(reason) => BuildStepView::Report {
            message: "mago-server: bootstrap task panicked: "@ + reason@,
        },
    }
}

/// Whether progress is reported: the editor must support it, and must have
/// answered when it was asked.
pub fn reports_progress(supported: bool, created: bool) -> (yes: bool)
    ensures
        yes == (supported && created),
{
    supported && created
}

/// The progress message while the folder at `root` is analyzed.
pub fn analyzing_message(root: &str) -> (message: String)
    ensures
        message@ == "Analyzing "@ + root@,
{
    let mut message = "Analyzing ".to_string();
    message.append(root);
    message
}

/// What to do with the folder at `root` once the task that builds it has ended.
pub fn after_build(root: &str, outcome: &BuildOutcome, reports: bool) -> (step: BuildStep)
    ensures
        step@ == step_after(root@, *outcome, reports),
{
    match outcome {
        BuildOutcome::Built { linter } => {
            let progress = if *linter && reports {
                let mut message = "Linting ".to_string();
                message.append(root);
                Some(message)
            } else {
                None
            };
            BuildStep::Keep { lint: *linter, progress }
        },
        BuildOutcome::Failed(reason) => {
            let mut message = "mago-server: bootstrap failed for ".to_string();
            message.append(root);
            message.append(": ");
            message.append(reason.as_str());
            BuildStep::Report { message }
        },
        BuildOutcome::Panicked(reason) => {
            let mut message = "mago-server: bootstrap task panicked: ".to_string();
            message.append(reason.as_str());
            BuildStep::Report { message }
        },
    }
}

/// The folders that are brought up, one after the other.
#[derive(Debug)]
pub struct Bootstrap {
    pub roots: Vec<String>,
    /// Whether progress is reported.
    pub reports: bool,
    /// How many folders are done with.
    pub done: usize,
    /// The folders to open workspaces for, by their place among the roots.
    pub kept: Vec<usize>,
}

/// What bringing the folders up asks for next.
#[derive(Debug)]
pub enum BootstrapAction {
    /// Build the workspace at this root, under this progress message.
    Build { root: usize, progress: Option<String> },
    /// Every folder is done with: the server is ready.
    Finish,
}

/// What a [`BootstrapAction`] says.
pub enum BootstrapActionView {
    Build { root: usize, progress: Option<Seq<char>> },
    Finish,
}

impl View for BootstrapAction {
    type V = BootstrapActionView;

    open spec fn view(&self) -> BootstrapActionView {
        match *self {
            BootstrapAction::Build { root, progress } => BootstrapActionView::Build {
                root,
                progress: text_of(progress),
            },
            BootstrapAction::Finish => BootstrapActionView::Finish,
        }
    }
}

/// The folders, from among the first `count`, whose workspaces could be built.
pub open spec fn built_roots(outcomes: Seq<BuildOutcome>, count: int) -> Seq<usize>
    decreases count,
{
    if count <= 0 {
        Seq::empty()
    } else if outcomes[count - 1] is Built {
        built_roots(outcomes, count - 1).push((count - 1) as usize)
    } else {
        built_roots(outcomes, count - 1)
    }
}

impl Bootstrap {
    pub open spec fn wf(self) -> bool {
        self.done <= self.roots@.len()
    }

    /// The folders that are done with ended like this.
    pub open spec fn ended(self, outcomes: Seq<BuildOutcome>) -> bool {
        self.done == outcomes.len() && self.kept@ == built_roots(outcomes, outcomes.len() as int)
    }

    /// What is to be done next.
    pub open spec fn asks_for(self) -> BootstrapActionView {
        if self.done < self.roots@.len() {
            BootstrapActionView::Build {
                root: self.done,
                progress: if self.reports {
                    Some("Analyzing "@ + self.roots@[self.done as int]@)
                } else {
                    None
                },
            }
        } else {
            BootstrapActionView::Finish
        }
    }

    /// Start to bring up the folders at `roots`.
    pub fn new(roots: Vec<String>, reports: bool) -> (bootstrap: Bootstrap)
        ensures
            bootstrap.wf(),
            bootstrap.roots == roots,
            bootstrap.reports == reports,
            bootstrap.ended(Seq::empty()),
    {
        Bootstrap { roots, reports, done: 0, kept: Vec::new() }
    }

    /// What to do next.
    pub fn next_action(&self) -> (action: BootstrapAction)
        ensures
            action@ == self.asks_for(),
    {
        if self.done < self.roots.len() {
            let progress = if self.reports {
                Some(analyzing_message(self.roots[self.done].as_str()))
            } else {
                None
            };
            BootstrapAction::Build { root: self.done, progress }
        } else {
            BootstrapAction::Finish
        }
    }

    /// The task that builds the next folder has ended: what to do about it.
    pub fn build_ended(&mut self, outcome: &BuildOutcome) -> (step: BuildStep)
        requires
            old(self).wf(),
            old(self).done < old(self).roots@.len(),
        ensures
            final(self).wf(),
            final(self).roots == old(self).roots,
            final(self).reports == old(self).reports,
            final(self).done == old(self).done + 1,
            final(self).kept@ == if outcome is Built {
                old(self).kept@.push(old(self).done)
            } else {
                old(self).kept@
            },
            step@ == step_after(
                old(self).roots@[old(self).done as int]@,
                *outcome,
                old(self).reports,
            ),
    {
        let step = after_build(self.roots[self.done].as_str(), outcome, self.reports);
        if matches!(outcome, BuildOutcome::Built { .. }) {
            self.kept.push(self.done);
        }
        assert(self.done < self.roots.len());
        self.done += 1;
        step
    }
}

/// Whatever happens to a folder, the next one is brought up; the workspaces that
/// are opened at the end are exactly those that could be built, in order.
pub proof fn law_bootstrap_keeps_what_was_built(
    before: Bootstrap,
    after: Bootstrap,
    outcomes: Seq<BuildOutcome>,
    outcome: BuildOutcome,
)
    requires
        before.ended(outcomes),
        after.done == before.done + 1,
        after.kept@ == (if outcome is Built {
            before.kept@.push(before.done)
        } else {
            before.kept@
        }),
    ensures
        after.ended(outcomes.push(outcome)),
{
    let longer = outcomes.push(outcome);
    lemma_built_roots_of_longer(outcomes, outcome, outcomes.len() as int);
    assert(longer[outcomes.len() as int] == outcome);
}

proof fn lemma_built_roots_of_longer(
    outcomes: Seq<BuildOutcome>,
    outcome: BuildOutcome,
    count: int,
)
    requires
        0 <= count <= outcomes.len(),
    ensures
        built_roots(outcomes.push(outcome), count) == built_roots(outcomes, count),
    decreases count,
{
    if count > 0 {
        lemma_built_roots_of_longer(outcomes, outcome, count - 1);
        assert(outcomes.push(outcome)[count - 1] == outcomes[count - 1]);
    }
}

/// A folder is kept exactly when its workspace could be built; any other is
/// reported.
pub proof fn law_folder_is_kept_or_reported(root: Seq<char>, outcome: BuildOutcome, reports: bool)
    ensures
        step_after(root, outcome, reports) is Keep <==> outcome is Built,
        step_after(root, outcome, reports) is Report <==> !(outcome is Built),
{
}

/// How many lint issues the first `count` analyses hold.
pub open spec fn lint_issue_count(analyses: Seq<FileAnalysis>, count: int) -> nat
    decreases count,
{
    if count <= 0 {
        0
    } else {
        lint_issue_count(analyses, count - 1) + analyses[count - 1].lint_issues@.len()
    }
}

proof fn lemma_lint_issue_count_grows(analyses: Seq<FileAnalysis>, low: int, high: int)
    requires
        low <= high,
    ensures
        lint_issue_count(analyses, low) <= lint_issue_count(analyses, high),
    decreases high - low,
{
    if low < high {
        lemma_lint_issue_count_grows(analyses, low, high - 1);
    }
}

/// How many files of a workspace are analyzed, and how many lint issues they have
/// between them.
pub fn analysis_totals(server: &Server) -> (totals: (usize, usize))
    requires
        lint_issue_count(server.analyses@, server.analyses@.len() as int) <= usize::MAX,
    ensures
        totals.0 == server.analyses@.len(),
        totals.1 == lint_issue_count(server.analyses@, server.analyses@.len() as int),
{
    let mut issues: usize = 0;
    let mut i: usize = 0;
    while i < server.analyses.len()
        invariant
            i <= server.analyses@.len(),
            issues == lint_issue_count(server.analyses@, i as int),
            lint_issue_count(server.analyses@, server.analyses@.len() as int) <= usize::MAX,
        decreases server.analyses.len() - i,
    {
        proof {
            lemma_lint_issue_count_grows(server.analyses@, i + 1, server.analyses@.len() as int);
        }
        issues += server.analyses[i].lint_issues.len();
        i += 1;
    }
    (server.analyses.len(), issues)
}

// ---- Telemetry -----------------------------------------------------------

/// From how many milliseconds on a handler counts as slow.
pub const SLOW_HANDLER_MILLIS: u128 = 50;

/// Is a handler that took this long worth a more prominent log line?
pub fn is_slow(millis: u128) -> (yes: bool)
    ensures
        yes == (millis >= SLOW_HANDLER_MILLIS),
{
    millis >= SLOW_HANDLER_MILLIS
}

} // verus!
