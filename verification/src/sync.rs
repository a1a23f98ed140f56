//! Bringing one checkout to the commit its configuration names.
//!
//! The decisions are a state machine: each step takes what the last
//! action found out (whether the checkout exists, or how a `git` command
//! ended) and answers with the next action. The caller performs the
//! actions and feeds back their outcomes.
//!
//! A checkout that does not exist is cloned. Its `HEAD` is then read; if it
//! differs from the configured commit, the commit is fetched unless the
//! repository already knows it as a commit, and the checkout is reset hard
//! to it.

use vstd::prelude::*;

use crate::paths::{join_path, path_join};
use crate::submodule::{Submodules, SyncConfig, SyncConfigView};
use crate::text::{str_equal, trim_str, trimmed};

verus! {

/// Where a synchronisation stands.
#[derive(Debug, Clone, Copy, PartialEq, Eq, Structural)]
pub enum SyncPhase {
    /// Waiting to learn whether the checkout exists.
    CheckingPath,
    /// Waiting for `git clone`.
    Cloning,
    /// Waiting for `git rev-parse HEAD`.
    ReadingHead,
    /// Waiting for `git cat-file -t <commit>`.
    CheckingCommit,
    /// Waiting for `git fetch origin <commit>`.
    Fetching,
    /// Waiting for `git reset --hard <commit>`.
    Resetting,
    /// The checkout is at its commit.
    Done,
    /// A command failed.
    Failed,
}

/// The command whose failure ended a synchronisation.
#[derive(Debug, Clone, Copy, PartialEq, Eq, Structural)]
pub enum SyncStage {
    Clone,
    ReadHead,
    Fetch,
    Reset,
}

/// What the caller found out when it performed the last action.
pub enum SyncEvent {
    /// Whether the checkout's directory exists.
    PathExists(bool),
    /// The command ran and succeeded, with this standard output.
    CommandSucceeded(String),
    /// The command could not be run or failed.
    CommandFailed,
}

/// What the caller is to do next.
pub enum SyncAction {
    /// Find out whether this path exists.
    CheckPath(String),
    /// Run `git` with these arguments, inside the checkout or, where
    /// `in_checkout` is false, without changing directory.
    RunGit { args: Vec<String>, in_checkout: bool },
    /// The checkout is at its commit.
    Finish,
    /// Stop with an error: this command failed.
    Fail(SyncStage),
}

/// An event as the contracts read it.
pub enum EventView {
    PathExists(bool),
    CommandSucceeded(Seq<char>),
    CommandFailed,
}

/// An action as the contracts read it.
pub enum ActionView {
    CheckPath(Seq<char>),
    RunGit(Seq<Seq<char>>, bool),
    Finish,
    Fail(SyncStage),
}

impl View for SyncEvent {
    type V = EventView;

    open spec fn view(&self) -> EventView {
        match self {
            SyncEvent::PathExists(b) => EventView::PathExists(*b),
            SyncEvent::CommandSucceeded(out) => EventView::CommandSucceeded(out@),
            SyncEvent::CommandFailed => EventView::CommandFailed,
        }
    }
}

impl View for SyncAction {
    type V = ActionView;

    open spec fn view(&self) -> ActionView {
        match self {
            SyncAction::CheckPath(p) => ActionView::CheckPath(p@),
            SyncAction::RunGit { args, in_checkout } => ActionView::RunGit(
                args@.map_values(|a: String| a@),
                *in_checkout,
            ),
            SyncAction::Finish => ActionView::Finish,
            SyncAction::Fail(s) => ActionView::Fail(*s),
        }
    }
}

/// `git clone <url> <path>`, run outside the checkout.
pub open spec fn clone_action(url: Seq<char>, path: Seq<char>) -> ActionView {
    ActionView::RunGit(seq!["clone"@, url, path], false)
}

/// `git rev-parse HEAD`, run in the checkout.
pub open spec fn read_head_action() -> ActionView {
    ActionView::RunGit(seq!["rev-parse"@, "HEAD"@], true)
}

/// `git cat-file -t <commit>`, run in the checkout.
pub open spec fn check_commit_action(commit: Seq<char>) -> ActionView {
    ActionView::RunGit(seq!["cat-file"@, "-t"@, commit], true)
}

/// `git fetch origin <commit>`, run in the checkout.
pub open spec fn fetch_action(commit: Seq<char>) -> ActionView {
    ActionView::RunGit(seq!["fetch"@, "origin"@, commit], true)
}

/// `git reset --hard <commit>`, run in the checkout.
pub open spec fn reset_action(commit: Seq<char>) -> ActionView {
    ActionView::RunGit(seq!["reset"@, "--hard"@, commit], true)
}

/// Whether `phase` waits for the outcome of a command.
pub open spec fn runs_command(phase: SyncPhase) -> bool {
    match phase {
        SyncPhase::Cloning | SyncPhase::ReadingHead | SyncPhase::CheckingCommit
        | SyncPhase::Fetching | SyncPhase::Resetting => true,
        _ => false,
    }
}

/// Whether `event` answers the action that `phase` waits for.
pub open spec fn accepts(phase: SyncPhase, event: EventView) -> bool {
    match phase {
        SyncPhase::CheckingPath => event is PathExists,
        SyncPhase::Done | SyncPhase::Failed => false,
        _ => !(event is PathExists),
    }
}

/// The next phase and action of the synchronisation of a checkout at `path`
/// of the repository at `url` to `commit`, from `phase` on `event`.
pub open spec fn transition(
    phase: SyncPhase,
    url: Seq<char>,
    commit: Seq<char>,
    path: Seq<char>,
    event: EventView,
) -> (SyncPhase, ActionView) {
    match (phase, event) {
        (SyncPhase::CheckingPath, EventView::PathExists(false)) => (
            SyncPhase::Cloning,
            clone_action(url, path),
        ),
        (SyncPhase::CheckingPath, EventView::PathExists(true)) => (
            SyncPhase::ReadingHead,
            read_head_action(),
        ),
        (SyncPhase::Cloning, EventView::CommandSucceeded(_)) => (
            SyncPhase::ReadingHead,
            read_head_action(),
        ),
        (SyncPhase::Cloning, _) => (SyncPhase::Failed, ActionView::Fail(SyncStage::Clone)),
        (SyncPhase::ReadingHead, EventView::CommandSucceeded(head)) => if trimmed(head) == commit {
            (SyncPhase::Done, ActionView::Finish)
        } else {
            (SyncPhase::CheckingCommit, check_commit_action(commit))
        },
        (SyncPhase::ReadingHead, _) => (SyncPhase::Failed, ActionView::Fail(SyncStage::ReadHead)),
        (SyncPhase::CheckingCommit, EventView::CommandSucceeded(kind)) => if kind == "commit\n"@ {
            (SyncPhase::Resetting, reset_action(commit))
        } else {
            (SyncPhase::Fetching, fetch_action(commit))
        },
        (SyncPhase::CheckingCommit, _) => (SyncPhase::Fetching, fetch_action(commit)),
        (SyncPhase::Fetching, EventView::CommandSucceeded(_)) => (
            SyncPhase::Resetting,
            reset_action(commit),
        ),
        (SyncPhase::Fetching, _) => (SyncPhase::Failed, ActionView::Fail(SyncStage::Fetch)),
        (SyncPhase::Resetting, EventView::CommandSucceeded(_)) => (SyncPhase::Done, ActionView::Finish),
        (SyncPhase::Resetting, _) => (SyncPhase::Failed, ActionView::Fail(SyncStage::Reset)),
        _ => (phase, ActionView::Finish),
    }
}

/// How far a synchronisation has come; every step moves it further.
pub open spec fn progress(phase: SyncPhase) -> int {
    match phase {
        SyncPhase::CheckingPath => 0,
        SyncPhase::Cloning => 1,
        SyncPhase::ReadingHead => 2,
        SyncPhase::CheckingCommit => 3,
        SyncPhase::Fetching => 4,
        SyncPhase::Resetting => 5,
        SyncPhase::Done | SyncPhase::Failed => 6,
    }
}

/// Every step moves the synchronisation forward, so it ends after at most
/// six steps; an action that asks for more work is answered by a phase that
/// waits for it, and the last action is `Finish` or `Fail` exactly when the
/// synchronisation has ended.
pub proof fn law_sync_progresses(
    phase: SyncPhase,
    url: Seq<char>,
    commit: Seq<char>,
    path: Seq<char>,
    event: EventView,
)
    requires
        accepts(phase, event),
    ensures
        ({
            let (next, action) = transition(phase, url, commit, path, event);
            &&& progress(next) > progress(phase)
            &&& (action is RunGit) == runs_command(next)
            &&& (action is Finish) == (next == SyncPhase::Done)
            &&& (action is Fail) == (next == SyncPhase::Failed)
            &&& !(action is CheckPath)
        }),
{
}

/// A checkout whose `HEAD` already is the configured commit (up to
/// surrounding whitespace) is left as it is: no fetch, no reset.
pub proof fn law_sync_up_to_date_is_kept(url: Seq<char>, commit: Seq<char>, path: Seq<char>, head: Seq<char>)
    requires
        trimmed(head) == commit,
    ensures
        transition(SyncPhase::ReadingHead, url, commit, path, EventView::CommandSucceeded(head)) == (
            SyncPhase::Done,
            ActionView::Finish,
        ),
{
}

/// Synchronising a checkout that is already at its commit again does
/// nothing but read `HEAD`: the checkout exists, `git rev-parse HEAD` prints
/// the commit and a line feed, and the synchronisation finishes. This holds
/// where the configured commit is the full hash that `rev-parse` prints (it
/// has no white space at its ends); a branch name or a short hash is
/// compared with the full hash, differs, and is checked and reset again.
pub proof fn law_sync_rerun_only_reads_head(url: Seq<char>, commit: Seq<char>, path: Seq<char>)
    requires
        commit.len() > 0 ==> !crate::text::white_space(commit[0]) && !crate::text::white_space(
            commit.last(),
        ),
    ensures
        transition(SyncPhase::CheckingPath, url, commit, path, EventView::PathExists(true)) == (
            SyncPhase::ReadingHead,
            read_head_action(),
        ),
        transition(
            SyncPhase::ReadingHead,
            url,
            commit,
            path,
            EventView::CommandSucceeded(commit.push('\n')),
        ) == (SyncPhase::Done, ActionView::Finish),
{
    crate::text::law_trim_drops_line_end(commit);
}

/// The checkout is reset only to a commit that the repository knows: right
/// after `git cat-file -t` reported it as a commit, or right after it was
/// fetched; and it is always reset to the configured commit.
pub proof fn law_sync_resets_only_known_commits(
    phase: SyncPhase,
    url: Seq<char>,
    commit: Seq<char>,
    path: Seq<char>,
    event: EventView,
)
    requires
        accepts(phase, event),
        transition(phase, url, commit, path, event).0 == SyncPhase::Resetting,
    ensures
        (phase == SyncPhase::CheckingCommit && event == EventView::CommandSucceeded("commit\n"@)) || (
        phase == SyncPhase::Fetching && event is CommandSucceeded),
        transition(phase, url, commit, path, event).1 == reset_action(commit),
{
}

/// What a command prints on success never decides anything but for
/// `rev-parse` and `cat-file`: after a successful clone `HEAD` is read,
/// after a successful fetch the checkout is reset to the commit, and after a
/// successful reset the synchronisation is done, whatever was printed.
pub proof fn law_sync_output_ignored(url: Seq<char>, commit: Seq<char>, path: Seq<char>, out: Seq<char>)
    ensures
        transition(SyncPhase::Cloning, url, commit, path, EventView::CommandSucceeded(out)) == (
            SyncPhase::ReadingHead,
            ActionView::RunGit(seq!["rev-parse"@, "HEAD"@], true),
        ),
        transition(SyncPhase::Fetching, url, commit, path, EventView::CommandSucceeded(out)) == (
            SyncPhase::Resetting,
            ActionView::RunGit(seq!["reset"@, "--hard"@, commit], true),
        ),
        transition(SyncPhase::Resetting, url, commit, path, EventView::CommandSucceeded(out)) == (
            SyncPhase::Done,
            ActionView::Finish,
        ),
{
}

/// A failed command ends the synchronisation with an error naming it,
/// except `git cat-file`, whose failure only means that the commit has to be
/// fetched.
pub proof fn law_sync_failures(
    phase: SyncPhase,
    url: Seq<char>,
    commit: Seq<char>,
    path: Seq<char>,
)
    requires
        runs_command(phase),
    ensures
        phase == SyncPhase::CheckingCommit ==> transition(phase, url, commit, path, EventView::CommandFailed)
            == (SyncPhase::Fetching, fetch_action(commit)),
        phase == SyncPhase::Cloning ==> transition(phase, url, commit, path, EventView::CommandFailed)
            == (SyncPhase::Failed, ActionView::Fail(SyncStage::Clone)),
        phase == SyncPhase::ReadingHead ==> transition(phase, url, commit, path, EventView::CommandFailed)
            == (SyncPhase::Failed, ActionView::Fail(SyncStage::ReadHead)),
        phase == SyncPhase::Fetching ==> transition(phase, url, commit, path, EventView::CommandFailed)
            == (SyncPhase::Failed, ActionView::Fail(SyncStage::Fetch)),
        phase == SyncPhase::Resetting ==> transition(phase, url, commit, path, EventView::CommandFailed)
            == (SyncPhase::Failed, ActionView::Fail(SyncStage::Reset)),
{
}

/// The synchronisation of one checkout.
pub struct SubmoduleSync {
    url: String,
    commit: String,
    path: String,
    phase: SyncPhase,
}

/// The argument list `a b`.
fn args2(a: &str, b: &str) -> (res: Vec<String>)
    ensures
        res@.map_values(|x: String| x@) == seq![a@, b@],
{
    let mut res: Vec<String> = Vec::new();
    res.push(a.to_owned());
    res.push(b.to_owned());
    assert(res@.map_values(|x: String| x@) =~= seq![a@, b@]);
    res
}

/// The argument list `a b c`.
fn args3(a: &str, b: &str, c: &str) -> (res: Vec<String>)
    ensures
        res@.map_values(|x: String| x@) == seq![a@, b@, c@],
{
    let mut res: Vec<String> = Vec::new();
    res.push(a.to_owned());
    res.push(b.to_owned());
    res.push(c.to_owned());
    assert(res@.map_values(|x: String| x@) =~= seq![a@, b@, c@]);
    res
}

impl SubmoduleSync {
    /// The repository.
    pub closed spec fn url(&self) -> Seq<char> {
        self.url@
    }

    /// The commit the checkout must be at.
    pub closed spec fn commit(&self) -> Seq<char> {
        self.commit@
    }

    /// The checkout's directory.
    pub closed spec fn path(&self) -> Seq<char> {
        self.path@
    }

    /// Where the synchronisation stands.
    pub closed spec fn phase(&self) -> SyncPhase {
        self.phase
    }

    /// Starts the synchronisation of `config` in a checkout under `base`,
    /// named after the submodule; the first action asks whether it exists.
    pub fn start(base: &str, config: &SyncConfig) -> (res: (SubmoduleSync, SyncAction))
        ensures
            res.0.url() == config@.1,
            res.0.commit() == config@.2,
            res.0.path() == path_join(base@, config@.0),
            res.0.phase() == SyncPhase::CheckingPath,
            res.1@ == ActionView::CheckPath(res.0.path()),
    {
        let path = join_path(base, config.name());
        let action = SyncAction::CheckPath(path.clone());
        let sync = SubmoduleSync {
            url: config.url().to_owned(),
            commit: config.commit().to_owned(),
            path,
            phase: SyncPhase::CheckingPath,
        };
        (sync, action)
    }

    /// The checkout's directory, in which commands are run.
    pub fn checkout_path(&self) -> (res: &str)
        ensures
            res@ == self.path(),
    {
        self.path.as_str()
    }

    /// Where the synchronisation stands.
    pub fn current_phase(&self) -> (res: SyncPhase)
        ensures
            res == self.phase(),
    {
        self.phase
    }

    /// Whether `event` answers the action that the synchronisation waits for.
    pub fn expects(&self, event: &SyncEvent) -> (res: bool)
        ensures
            res == accepts(self.phase(), event@),
    {
        match (self.phase, event) {
            (SyncPhase::CheckingPath, SyncEvent::PathExists(_)) => true,
            (SyncPhase::CheckingPath, _) => false,
            (SyncPhase::Done, _) | (SyncPhase::Failed, _) => false,
            (_, SyncEvent::PathExists(_)) => false,
            _ => true,
        }
    }

    /// Takes the outcome of the last action and answers with the next one.
    pub fn step(&mut self, event: SyncEvent) -> (res: SyncAction)
        requires
            accepts(old(self).phase(), event@),
        ensures
            final(self).url() == old(self).url(),
            final(self).commit() == old(self).commit(),
            final(self).path() == old(self).path(),
            (final(self).phase(), res@) == transition(
                old(self).phase(),
                old(self).url(),
                old(self).commit(),
                old(self).path(),
                event@,
            ),
    {
        let commit = self.commit.as_str();
        match (self.phase, event) {
            (SyncPhase::CheckingPath, SyncEvent::PathExists(exists)) => {
                if exists {
                    self.phase = SyncPhase::ReadingHead;
                    SyncAction::RunGit { args: args2("rev-parse", "HEAD"), in_checkout: true }
                } else {
                    self.phase = SyncPhase::Cloning;
                    let args = args3("clone", self.url.as_str(), self.path.as_str());
                    SyncAction::RunGit { args, in_checkout: false }
                }
            },
            (SyncPhase::Cloning, SyncEvent::CommandSucceeded(_)) => {
                self.phase = SyncPhase::ReadingHead;
                SyncAction::RunGit { args: args2("rev-parse", "HEAD"), in_checkout: true }
            },
            (SyncPhase::Cloning, _) => {
                self.phase = SyncPhase::Failed;
                SyncAction::Fail(SyncStage::Clone)
            },
            (SyncPhase::ReadingHead, SyncEvent::CommandSucceeded(head)) => {
                if str_equal(trim_str(head.as_str()).as_str(), commit) {
                    self.phase = SyncPhase::Done;
                    SyncAction::Finish
                } else {
                    let args = args3("cat-file", "-t", commit);
                    self.phase = SyncPhase::CheckingCommit;
                    SyncAction::RunGit { args, in_checkout: true }
                }
            },
            (SyncPhase::ReadingHead, _) => {
                self.phase = SyncPhase::Failed;
                SyncAction::Fail(SyncStage::ReadHead)
            },
            (SyncPhase::CheckingCommit, SyncEvent::CommandSucceeded(kind)) => {
                if str_equal(kind.as_str(), "commit\n") {
                    let args = args3("reset", "--hard", commit);
                    self.phase = SyncPhase::Resetting;
                    SyncAction::RunGit { args, in_checkout: true }
                } else {
                    let args = args3("fetch", "origin", commit);
                    self.phase = SyncPhase::Fetching;
                    SyncAction::RunGit { args, in_checkout: true }
                }
            },
            (SyncPhase::CheckingCommit, _) => {
                let args = args3("fetch", "origin", commit);
                self.phase = SyncPhase::Fetching;
                SyncAction::RunGit { args, in_checkout: true }
            },
            (SyncPhase::Fetching, SyncEvent::CommandSucceeded(_)) => {
                let args = args3("reset", "--hard", commit);
                self.phase = SyncPhase::Resetting;
                SyncAction::RunGit { args, in_checkout: true }
            },
            (SyncPhase::Fetching, _) => {
                self.phase = SyncPhase::Failed;
                SyncAction::Fail(SyncStage::Fetch)
            },
            (SyncPhase::Resetting, SyncEvent::CommandSucceeded(_)) => {
                self.phase = SyncPhase::Done;
                SyncAction::Finish
            },
            (SyncPhase::Resetting, _) => {
                self.phase = SyncPhase::Failed;
                SyncAction::Fail(SyncStage::Reset)
            },
            _ => SyncAction::Finish,
        }
    }
}


/// The synchronisation of every submodule of a configuration, one after
/// the other in the order of the configuration, stopping at the first that
/// fails.
pub struct SyncRun<'a> {
    base: String,
    configs: &'a Vec<SyncConfig>,
    index: usize,
    current: Option<SubmoduleSync>,
}

impl<'a> SyncRun<'a> {
    /// The directory the checkouts are under.
    pub closed spec fn base(&self) -> Seq<char> {
        self.base@
    }

    /// The submodules to synchronise, in order.
    pub closed spec fn configs(&self) -> Seq<SyncConfigView> {
        self.configs@.map_values(|c: SyncConfig| c@)
    }

    /// Which submodule is being synchronised.
    pub closed spec fn index(&self) -> int {
        self.index as int
    }

    /// The synchronisation of that submodule; none where there is none.
    pub closed spec fn current(&self) -> Option<SubmoduleSync> {
        self.current
    }

    /// Whether `sync` is the start of the synchronisation of `config` under
    /// `base`.
    pub open spec fn starts(sync: SubmoduleSync, base: Seq<char>, config: SyncConfigView) -> bool {
        &&& sync.url() == config.1
        &&& sync.commit() == config.2
        &&& sync.path() == path_join(base, config.0)
        &&& sync.phase() == SyncPhase::CheckingPath
    }

    /// Starts with the first submodule; with none, there is nothing to do.
    pub fn start(base: &str, submodules: &'a Submodules) -> (res: (SyncRun<'a>, SyncAction))
        ensures
            res.0.base() == base@,
            res.0.configs() == submodules@,
            res.0.index() == 0,
            submodules@.len() == 0 ==> res.0.current() is None && res.1@ == ActionView::Finish,
            submodules@.len() > 0 ==> (res.0.current() matches Some(s) && Self::starts(
                s,
                base@,
                submodules@[0],
            ) && res.1@ == ActionView::CheckPath(s.path())),
    {
        let configs = submodules.configs();
        if configs.len() == 0 {
            let run = SyncRun { base: base.to_owned(), configs, index: 0, current: None };
            (run, SyncAction::Finish)
        } else {
            let (sync, action) = SubmoduleSync::start(base, &configs[0]);
            let run = SyncRun { base: base.to_owned(), configs, index: 0, current: Some(sync) };
            (run, action)
        }
    }

    /// Which submodule is being synchronised.
    pub fn current_index(&self) -> (res: usize)
        ensures
            res == self.index(),
    {
        self.index
    }

    /// The checkout of the submodule being synchronised, in which commands
    /// are run.
    pub fn checkout_path(&self) -> (res: &str)
        requires
            self.current() is Some,
        ensures
            res@ == self.current()->Some_0.path(),
    {
        match &self.current {
            Some(sync) => sync.checkout_path(),
            None => "",
        }
    }

    /// Whether `event` answers the action that the run waits for.
    pub fn expects(&self, event: &SyncEvent) -> (res: bool)
        ensures
            res == (self.current() matches Some(s) && accepts(s.phase(), event@)),
    {
        match &self.current {
            Some(sync) => sync.expects(event),
            None => false,
        }
    }

    /// Takes the outcome of the last action and answers with the next one:
    /// the next action of the current submodule; once it is at its commit,
    /// the start of the next submodule; `Finish` after the last; and `Fail`
    /// as soon as one fails.
    pub fn step(&mut self, event: SyncEvent) -> (res: SyncAction)
        requires
            old(self).current() matches Some(s) && accepts(s.phase(), event@),
        ensures
            final(self).base() == old(self).base(),
            final(self).configs() == old(self).configs(),
            ({
                let s = old(self).current()->Some_0;
                let (phase, action) = transition(s.phase(), s.url(), s.commit(), s.path(), event@);
                let i = old(self).index();
                if action is Finish && i + 1 < old(self).configs().len() {
                    &&& final(self).index() == i + 1
                    &&& final(self).current() matches Some(n)
                    &&& Self::starts(n, old(self).base(), old(self).configs()[i + 1])
                    &&& res@ == ActionView::CheckPath(n.path())
                } else {
                    &&& final(self).index() == i
                    &&& final(self).current() matches Some(n)
                    &&& n.url() == s.url()
                    &&& n.commit() == s.commit()
                    &&& n.path() == s.path()
                    &&& n.phase() == phase
                    &&& res@ == action
                }
            }),
    {
        let mut sync = match self.current.take() {
            Some(sync) => sync,
            None => return SyncAction::Finish,
        };
        let action = sync.step(event);
        let is_finish = match action {
            SyncAction::Finish => true,
            _ => false,
        };
        if is_finish && self.configs.len() > 0 && self.index < self.configs.len() - 1 {
            let next = self.index + 1;
            let (n, a) = SubmoduleSync::start(self.base.as_str(), &self.configs[next]);
            self.index = next;
            self.current = Some(n);
            a
        } else {
            self.current = Some(sync);
            action
        }
    }
}

} // verus!
