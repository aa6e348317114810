use vstd::prelude::*;

verus! {

/// One synchronization unit: a local directory and, where it may be cloned,
/// the remote it comes from.
pub struct Job {
    pub target_path: String,
    pub source_url: Option<String>,
}

/// What the filesystem holds at a job's target path when the job is examined.
#[derive(Clone, Copy, Debug, PartialEq, Eq, Structural)]
pub enum TargetState {
    Absent,
    Directory,
    NotDirectory,
}

/// The operation chosen for a job before any process is started.
pub enum SyncOp {
    /// Pull with pruning of deleted remote branches, inside the existing directory.
    Update,
    /// Clone the given remote into the target path.
    Clone(String),
    /// The target exists but is not a directory.
    SkipCollision,
    /// The target does not exist and there is nothing to clone it from.
    SkipMissingSource,
}

/// How the external command ended, as far as the operating system told.
#[derive(Clone, Copy, Debug, PartialEq, Eq, Structural)]
pub enum CommandStatus {
    /// The process ran and exited with this code.
    Exited(i32),
    /// The process was terminated by a signal.
    Signaled,
    /// The process could not be started or its status could not be obtained.
    Unavailable,
}

/// The result of one job.
#[derive(Clone, Copy, Debug, PartialEq, Eq, Structural)]
pub enum JobOutcome {
    Synced,
    PathCollision,
    MissingSource,
    CommandFailed(i32),
    KilledBySignal,
    SpawnFailure,
}

pub uninterp spec fn trimmed(s: Seq<char>) -> Seq<char>;

/// Relies on str::trim: the text with leading and trailing whitespace removed.
#[verifier::external_body]
fn trim(s: &str) -> (r: &str)
    ensures
        r@ == trimmed(s@),
        s@.len() == 0 ==> r@.len() == 0,
{
    s.trim()
}

/// A remote locator is usable when it holds more than whitespace.
pub open spec fn usable_url(url: Seq<char>) -> bool {
    trimmed(url).len() > 0
}

pub open spec fn pull_word() -> Seq<char> {
    seq!['p', 'u', 'l', 'l']
}

pub open spec fn prune_flag() -> Seq<char> {
    seq!['-', '-', 'p', 'r', 'u', 'n', 'e']
}

pub open spec fn clone_word() -> Seq<char> {
    seq!['c', 'l', 'o', 'n', 'e']
}

impl Job {
    pub fn new(target_path: String, source_url: Option<String>) -> (r: Job)
        ensures
            r.target_path == target_path,
            r.source_url == source_url,
    {
        Job { target_path, source_url }
    }

    /// A job that refreshes a previously cloned directory; it is never cloned.
    pub fn syncpoint(path: &str) -> (r: Job)
        ensures
            r.target_path@ == path@,
            r.source_url is None,
    {
        Job { target_path: String::from_str(path), source_url: None }
    }

    /// A job for a repository of an organization: its directory is
    /// `org_dir/repo_name`, and it may be cloned from `ssh_url` unless that
    /// holds only whitespace.
    pub fn org_repo(org_dir: &str, repo_name: &str, ssh_url: &str) -> (r: Job)
        ensures
            r.target_path@ == org_dir@ + seq!['/'] + repo_name@,
            match r.source_url {
                Some(u) => usable_url(ssh_url@) && u@ == ssh_url@,
                None => !usable_url(ssh_url@),
            },
    {
        proof {
            reveal_strlit("/");
        }
        let path = String::from_str(org_dir).concat("/").concat(repo_name);
        let source_url = if !trim(ssh_url).is_empty() {
            Some(String::from_str(ssh_url))
        } else {
            None
        };
        Job { target_path: path, source_url }
    }
}

/// The operation that a job calls for, given what its target path holds.
pub open spec fn planned(job: Job, target: TargetState) -> SyncOp {
    match target {
        TargetState::Directory => SyncOp::Update,
        TargetState::NotDirectory => SyncOp::SkipCollision,
        TargetState::Absent => match job.source_url {
            Some(u) => SyncOp::Clone(u),
            None => SyncOp::SkipMissingSource,
        },
    }
}

impl SyncOp {
    pub open spec fn runs_command(&self) -> bool {
        self is Update || self is Clone
    }

    /// The arguments handed to the version-control program.
    pub open spec fn args_spec(&self, target_path: Seq<char>) -> Seq<Seq<char>> {
        match self {
            SyncOp::Update => seq![pull_word(), prune_flag()],
            SyncOp::Clone(u) => seq![clone_word(), u@, target_path],
            _ => Seq::empty(),
        }
    }

    /// The outcome of an operation that runs no command.
    pub open spec fn skip_outcome_spec(&self) -> Option<JobOutcome> {
        match self {
            SyncOp::SkipCollision => Some(JobOutcome::PathCollision),
            SyncOp::SkipMissingSource => Some(JobOutcome::MissingSource),
            _ => None,
        }
    }

    pub fn runs_process(&self) -> (r: bool)
        ensures
            r == self.runs_command(),
    {
        match self {
            SyncOp::Update => true,
            SyncOp::Clone(_) => true,
            _ => false,
        }
    }

    /// The program arguments of an operation that runs a command.
    pub fn git_args(&self, target_path: &str) -> (r: Vec<String>)
        requires
            self.runs_command(),
        ensures
            r@.map_values(|s: String| s@) == self.args_spec(target_path@),
    {
        proof {
            reveal_strlit("pull");
            reveal_strlit("--prune");
            reveal_strlit("clone");
        }
        let mut args: Vec<String> = Vec::new();
        match self {
            SyncOp::Update => {
                let a = String::from_str("pull");
                let b = String::from_str("--prune");
                assert(a@ =~= pull_word());
                assert(b@ =~= prune_flag());
                args.push(a);
                args.push(b);
            },
            SyncOp::Clone(u) => {
                let a = String::from_str("clone");
                assert(a@ =~= clone_word());
                args.push(a);
                args.push(u.clone());
                args.push(String::from_str(target_path));
            },
            _ => {},
        }
        assert(args@.map_values(|s: String| s@) =~= self.args_spec(target_path@));
        args
    }

    /// The outcome of a skipped operation; `None` where a command has to run.
    pub fn skip_outcome(&self) -> (r: Option<JobOutcome>)
        ensures
            r == self.skip_outcome_spec(),
            r is None <==> self.runs_command(),
    {
        match self {
            SyncOp::SkipCollision => Some(JobOutcome::PathCollision),
            SyncOp::SkipMissingSource => Some(JobOutcome::MissingSource),
            _ => None,
        }
    }
}

/// Chooses the operation for a job: update an existing directory, refuse a
/// path that is something else, clone a missing path from its remote, or
/// refuse a missing path that has no remote.
pub fn plan_sync(job: &Job, target: TargetState) -> (r: SyncOp)
    ensures
        r == planned(*job, target),
{
    match target {
        TargetState::Directory => SyncOp::Update,
        TargetState::NotDirectory => SyncOp::SkipCollision,
        TargetState::Absent => match &job.source_url {
            Some(u) => SyncOp::Clone(u.clone()),
            None => SyncOp::SkipMissingSource,
        },
    }
}

pub open spec fn classified(status: CommandStatus) -> JobOutcome {
    match status {
        CommandStatus::Exited(code) => if code == 0 {
            JobOutcome::Synced
        } else {
            JobOutcome::CommandFailed(code)
        },
        CommandStatus::Signaled => JobOutcome::KilledBySignal,
        CommandStatus::Unavailable => JobOutcome::SpawnFailure,
    }
}

/// Classifies how the external command ended.
pub fn classify(status: CommandStatus) -> (r: JobOutcome)
    ensures
        r == classified(status),
        r is Synced <==> status == CommandStatus::Exited(0),
{
    match status {
        CommandStatus::Exited(code) => if code == 0 {
            JobOutcome::Synced
        } else {
            JobOutcome::CommandFailed(code)
        },
        CommandStatus::Signaled => JobOutcome::KilledBySignal,
        CommandStatus::Unavailable => JobOutcome::SpawnFailure,
    }
}

impl JobOutcome {
    /// Every outcome but a completed synchronization counts as a failure.
    pub open spec fn failed(&self) -> bool {
        !(self is Synced)
    }

    pub fn is_failure(&self) -> (r: bool)
        ensures
            r == self.failed(),
    {
        match self {
            JobOutcome::Synced => false,
            _ => true,
        }
    }
}

/// A missing target with a remote is cloned from that remote into exactly
/// the target path; an existing directory is pulled with pruning and never
/// cloned.
pub proof fn lemma_clone_or_pull(job: Job, target: TargetState)
    ensures
        target == TargetState::Absent && job.source_url is Some ==> {
            &&& planned(job, target) == SyncOp::Clone(job.source_url->Some_0)
            &&& planned(job, target).args_spec(job.target_path@) == seq![
                clone_word(),
                job.source_url->Some_0@,
                job.target_path@,
            ]
        },
        target == TargetState::Directory ==> {
            &&& planned(job, target) == SyncOp::Update
            &&& planned(job, target).args_spec(job.target_path@) == seq![pull_word(), prune_flag()]
        },
{
}

} // verus!
