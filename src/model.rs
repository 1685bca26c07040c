use vstd::prelude::*;

verus! {

/// A local branch of a repository.
#[derive(Clone, Debug)]
pub struct Branch {
    pub name: String,
    pub is_head: bool,
}

impl View for Branch {
    type V = (Seq<char>, bool);

    open spec fn view(&self) -> (Seq<char>, bool) {
        (self.name@, self.is_head)
    }
}

impl Branch {
    pub fn new(name: String, is_head: bool) -> (r: Branch)
        ensures
            r.name@ == name@,
            r.is_head == is_head,
    {
        Branch { name, is_head }
    }
}

/// The operation a repository is in the middle of, if any.
#[derive(Clone, Copy, Debug, PartialEq, Eq, Structural)]
pub enum RepositoryState {
    Clean,
    Merge,
    Revert,
    RevertSequence,
    CherryPick,
    CherryPickSequence,
    Bisect,
    Rebase,
    RebaseInteractive,
    RebaseMerge,
    ApplyMailbox,
    ApplyMailboxOrRebase,
}


/// Width of the state column: the longest label, `apply-mailbox-or-rebase`.
pub const STATE_LABEL_WIDTH: usize = 23;

pub open spec fn state_label(s: RepositoryState) -> Seq<char> {
    match s {
        RepositoryState::Clean => "clean"@,
        RepositoryState::Merge => "merge"@,
        RepositoryState::Revert => "revert"@,
        RepositoryState::RevertSequence => "revert-sequence"@,
        RepositoryState::CherryPick => "cherry-pick"@,
        RepositoryState::CherryPickSequence => "cherry-pick-sequence"@,
        RepositoryState::Bisect => "bisect"@,
        RepositoryState::Rebase => "rebase"@,
        RepositoryState::RebaseInteractive => "rebase-interactive"@,
        RepositoryState::RebaseMerge => "rebase-merge"@,
        RepositoryState::ApplyMailbox => "apply-mailbox"@,
        RepositoryState::ApplyMailboxOrRebase => "apply-mailbox-or-rebase"@,
    }
}

/// Every label fits the state column.
pub proof fn lemma_state_label_fits(s: RepositoryState)
    ensures
        state_label(s).len() <= STATE_LABEL_WIDTH,
{
    reveal_strlit("clean");
    reveal_strlit("merge");
    reveal_strlit("revert");
    reveal_strlit("revert-sequence");
    reveal_strlit("cherry-pick");
    reveal_strlit("cherry-pick-sequence");
    reveal_strlit("bisect");
    reveal_strlit("rebase");
    reveal_strlit("rebase-interactive");
    reveal_strlit("rebase-merge");
    reveal_strlit("apply-mailbox");
    reveal_strlit("apply-mailbox-or-rebase");
}

impl RepositoryState {
    /// The label shown for this state.
    pub fn label(&self) -> (r: &'static str)
        ensures
            r@ == state_label(*self),
            r@.len() <= STATE_LABEL_WIDTH,
    {
        proof {
            lemma_state_label_fits(*self);
        }
        match self {
            RepositoryState::Clean => "clean",
            RepositoryState::Merge => "merge",
            RepositoryState::Revert => "revert",
            RepositoryState::RevertSequence => "revert-sequence",
            RepositoryState::CherryPick => "cherry-pick",
            RepositoryState::CherryPickSequence => "cherry-pick-sequence",
            RepositoryState::Bisect => "bisect",
            RepositoryState::Rebase => "rebase",
            RepositoryState::RebaseInteractive => "rebase-interactive",
            RepositoryState::RebaseMerge => "rebase-merge",
            RepositoryState::ApplyMailbox => "apply-mailbox",
            RepositoryState::ApplyMailboxOrRebase => "apply-mailbox-or-rebase",
        }
    }
}

/// A branch as read from a repository: its name is absent where the
/// repository gave none that decodes as text.
#[derive(Clone, Debug)]
pub struct RawBranch {
    pub name: Option<String>,
    pub is_head: bool,
}

impl RawBranch {
    pub open spec fn decoded(&self) -> bool {
        self.name is Some
    }

    /// The branch this raw entry becomes once its name has decoded.
    pub open spec fn model(&self) -> (Seq<char>, bool) {
        match self.name {
            Some(n) => (n@, self.is_head),
            None => (Seq::empty(), self.is_head),
        }
    }
}

/// One repository of the report: its display name, its branches in report
/// order, and the operation it is in the middle of.
#[derive(Clone, Debug)]
pub struct RepoReport {
    pub name: String,
    pub branches: Vec<Branch>,
    pub state: RepositoryState,
}

impl View for RepoReport {
    type V = (Seq<char>, Seq<(Seq<char>, bool)>, RepositoryState);

    open spec fn view(&self) -> (Seq<char>, Seq<(Seq<char>, bool)>, RepositoryState) {
        (self.name@, self.branches@.map_values(|b: Branch| b@), self.state)
    }
}

/// Why a run stops.
#[derive(Clone, Copy, Debug, PartialEq, Eq, Structural)]
pub enum ReportError {
    /// The configuration is missing or malformed.
    Config,
    /// A configured path does not open as a repository.
    RepositoryAccess,
    /// A branch has no name, or one that is not valid text.
    BranchDecode,
    /// A configured path has no usable final segment.
    DisplayName,
    /// Writing the report failed.
    Output,
}

pub open spec fn error_message(e: ReportError) -> Seq<char> {
    match e {
        ReportError::Config => "cannot read the configuration"@,
        ReportError::RepositoryAccess => "a configured path is not a repository"@,
        ReportError::BranchDecode => "a branch name is missing or is not valid text"@,
        ReportError::DisplayName => "a configured path has no final name"@,
        ReportError::Output => "cannot write the report"@,
    }
}

impl ReportError {
    /// A description of the error for the diagnostic stream.
    pub fn message(&self) -> (r: &'static str)
        ensures
            r@ == error_message(*self),
    {
        match self {
            ReportError::Config => "cannot read the configuration",
            ReportError::RepositoryAccess => "a configured path is not a repository",
            ReportError::BranchDecode => "a branch name is missing or is not valid text",
            ReportError::DisplayName => "a configured path has no final name",
            ReportError::Output => "cannot write the report",
        }
    }
}

/// The configured list of repository paths, in report order.
#[derive(Clone, Debug)]
pub struct Config {
    repos: Vec<String>,
}

impl Config {
    pub fn new(repos: Vec<String>) -> (r: Config)
        ensures
            r.paths() == repos@,
    {
        Config { repos }
    }

    pub closed spec fn paths(&self) -> Seq<String> {
        self.repos@
    }

    /// The configured repository paths.
    pub fn repos(&self) -> (r: &[String])
        ensures
            r@ == self.paths(),
    {
        self.repos.as_slice()
    }
}

} // verus!
