use vstd::prelude::*;
use vstd::string::*;
use crate::errors::Error;

verus! {

/// A fork redirect: a regex that matches the upstream part of a repository
/// URL, the replacement that turns it into the fork URL, and the branch to
/// fetch from the fork.  The three always travel together.
#[derive(Debug)]
pub struct ForkSpec {
    pub regex: String,
    pub replacement: String,
    pub branch: String,
}

/// One operation of the version-control client that the synchronizer
/// drives.  The binary turns each into a `git` invocation.
#[derive(Debug)]
pub enum GitCommand {
    /// Shallow-clone `url` into `dest`.
    Clone { url: String, dest: String },
    /// Rename the freshly cloned default branch to the sentinel name, so
    /// later branch comparisons have a stable baseline.
    RenameDefaultBranch,
    /// Shallow-fetch one branch of a fork remote.
    Fetch { url: String, branch: String },
    /// Detach the working tree onto the fetched head, leaving no attached
    /// branch reference.
    CheckoutFetchHead,
    /// Check out the sentinel default branch.
    CheckoutDefault,
    /// Pull the currently checked-out branch.
    Pull,
}

/// The argument list each command passes to the version-control program.
pub open spec fn spec_argv(cmd: GitCommand) -> Seq<Seq<char>> {
    match cmd {
        GitCommand::Clone { url, dest } => seq!["clone"@, "--depth=1"@, url@, dest@],
        GitCommand::RenameDefaultBranch => seq!["branch"@, "-m"@, "DEFAULT"@],
        GitCommand::Fetch { url, branch } => seq!["fetch"@, "--depth"@, "1"@, url@, branch@],
        GitCommand::CheckoutFetchHead => seq![
            "-c"@,
            "advice.detachedHead=false"@,
            "checkout"@,
            "FETCH_HEAD"@,
        ],
        GitCommand::CheckoutDefault => seq!["checkout"@, "DEFAULT"@],
        GitCommand::Pull => seq!["pull"@],
    }
}

impl GitCommand {
    /// The arguments to hand to the version-control program.
    pub fn argv(&self) -> (r: Vec<String>)
        ensures
            r.deep_view() == spec_argv(*self),
    {
        let mut v: Vec<String> = Vec::new();
        match self {
            GitCommand::Clone { url, dest } => {
                v.push(String::from_str("clone"));
                v.push(String::from_str("--depth=1"));
                v.push(url.clone());
                v.push(dest.clone());
            },
            GitCommand::RenameDefaultBranch => {
                v.push(String::from_str("branch"));
                v.push(String::from_str("-m"));
                v.push(String::from_str("DEFAULT"));
            },
            GitCommand::Fetch { url, branch } => {
                v.push(String::from_str("fetch"));
                v.push(String::from_str("--depth"));
                v.push(String::from_str("1"));
                v.push(url.clone());
                v.push(branch.clone());
            },
            GitCommand::CheckoutFetchHead => {
                v.push(String::from_str("-c"));
                v.push(String::from_str("advice.detachedHead=false"));
                v.push(String::from_str("checkout"));
                v.push(String::from_str("FETCH_HEAD"));
            },
            GitCommand::CheckoutDefault => {
                v.push(String::from_str("checkout"));
                v.push(String::from_str("DEFAULT"));
            },
            GitCommand::Pull => {
                v.push(String::from_str("pull"));
            },
        }
        proof {
            assert(v.deep_view() =~= spec_argv(*self));
        }
        v
    }
}

/// What `regex::Regex::replace` yields for a pattern, haystack and
/// replacement, with `None` standing for a pattern that does not compile.
pub uninterp spec fn regex_replaced(pattern: Seq<char>, text: Seq<char>, rep: Seq<char>) -> Option<
    Seq<char>,
>;

/// Relies on regex::Regex::new and regex::Regex::replace: compiles the
/// pattern and replaces the leftmost match in `text` with `rep` (which may
/// name capture groups); a haystack without a match comes back unchanged.
/// Both are deterministic in their arguments.
#[verifier::external_body]
fn regex_replace(pattern: &String, text: &String, rep: &String) -> (r: Option<String>)
    ensures
        r is Some <==> regex_replaced(pattern@, text@, rep@) is Some,
        r is Some ==> r.unwrap()@ == regex_replaced(pattern@, text@, rep@).unwrap(),
{
    match regex::Regex::new(pattern) {
        Ok(re) => Some(re.replace(text, rep.as_str()).into_owned()),
        Err(_) => None,
    }
}

/// The stamp content that identifies "upstream default branch".
pub open spec fn sentinel_identity() -> Seq<char> {
    "DEFAULT"@
}

/// The stamp content that identifies a fork checkout.
pub open spec fn fork_identity(url: Seq<char>, branch: Seq<char>) -> Seq<char> {
    url + " "@ + branch + "\n"@
}

/// The identity the mirror is asked to reach: the rewritten fork URL and
/// fork branch when a fork redirect is configured, else the sentinel.
/// `None` stands for a fork pattern that does not compile.
pub open spec fn spec_desired_identity(fork: Option<ForkSpec>, url: Seq<char>) -> Option<Seq<char>> {
    match fork {
        None => Some(sentinel_identity()),
        Some(f) => match regex_replaced(f.regex@, url, f.replacement@) {
            Some(u) => Some(fork_identity(u, f.branch@)),
            None => None,
        },
    }
}

/// The bounded-frequency policy: a pass may skip all network work for a
/// repository exactly when the stored identity equals the desired one, the
/// stamp's age lies inside the freshness window of one hour (0 seconds
/// inclusive, 3600 exclusive), and no refresh is forced.
pub open spec fn spec_fresh(
    stamp: Option<Seq<char>>,
    age_seconds: int,
    desired: Seq<char>,
    force: bool,
) -> bool {
    stamp == Some(desired) && 0 <= age_seconds < 3600 && !force
}

/// Whether the mirror's checkout must be refreshed this pass.  `stamp` is
/// the stored identity (`None`: no stamp yet) and `age_seconds` the time
/// since the stamp was last written.
pub fn needs_refresh(stamp: &Option<String>, age_seconds: i64, desired: &String, force: bool) -> (r:
    bool)
    ensures
        r == !spec_fresh(stamp.deep_view(), age_seconds as int, desired@, force),
{
    let fresh = match stamp {
        Some(s) => !force && *s == *desired && 0 <= age_seconds && age_seconds < 3600,
        None => false,
    };
    !fresh
}

/// A fork remote resolved against one repository: where to fetch from.
#[derive(Debug)]
pub struct FetchRemote {
    pub url: String,
    pub branch: String,
}

/// What one synchronization pass decided for one repository after reading
/// the stamp, before any command runs.
#[derive(Debug)]
pub struct SyncPlan {
    /// Clone and branch-rename commands; empty when the mirror exists.
    pub setup: Vec<GitCommand>,
    /// What to do once the setup commands ran.
    pub step: SyncStep,
}

#[derive(Debug)]
pub enum SyncStep {
    /// The stamp matches the desired identity and is young: no network
    /// work for this repository.
    Skip,
    /// The checkout must move.  When a fork is configured, its branch is
    /// fetched first and `finish_refresh` concludes from the outcome;
    /// `ident` is the desired identity.
    Refresh { fork: Option<FetchRemote>, ident: String },
}

/// Decide one repository's pass: which commands create a missing mirror,
/// and whether the checkout must be refreshed — and if so, against which
/// fork remote.  Fails only when the configured fork pattern does not
/// compile.
pub fn plan_sync(
    url: &String,
    mirror_exists: bool,
    mirror_path: &String,
    stamp: &Option<String>,
    age_seconds: i64,
    fork: &Option<ForkSpec>,
    force: bool,
) -> (r: Result<SyncPlan, Error>)
    ensures
        match r {
            Ok(plan) => {
                &&& spec_desired_identity(*fork, url@) is Some
                &&& (if mirror_exists {
                    plan.setup@ == Seq::<GitCommand>::empty()
                } else {
                    plan.setup@ == seq![
                        GitCommand::Clone { url: *url, dest: *mirror_path },
                        GitCommand::RenameDefaultBranch,
                    ]
                })
                &&& match plan.step {
                    SyncStep::Skip => spec_fresh(
                        stamp.deep_view(),
                        age_seconds as int,
                        spec_desired_identity(*fork, url@).unwrap(),
                        force,
                    ),
                    SyncStep::Refresh { fork: remote, ident } => {
                        &&& !spec_fresh(
                            stamp.deep_view(),
                            age_seconds as int,
                            spec_desired_identity(*fork, url@).unwrap(),
                            force,
                        )
                        &&& ident@ == spec_desired_identity(*fork, url@).unwrap()
                        &&& match (fork, remote) {
                            (None, None) => true,
                            (Some(f), Some(rm)) => rm.url@ == regex_replaced(
                                f.regex@,
                                url@,
                                f.replacement@,
                            ).unwrap() && rm.branch == f.branch,
                            _ => false,
                        }
                    },
                }
            },
            Err(e) => {
                &&& spec_desired_identity(*fork, url@) is None
                &&& match *fork {
                    Some(f) => e == Error::BadPattern(f.regex),
                    None => false,
                }
            },
        },
{
    let mut setup: Vec<GitCommand> = Vec::new();
    if !mirror_exists {
        setup.push(GitCommand::Clone { url: url.clone(), dest: mirror_path.clone() });
        setup.push(GitCommand::RenameDefaultBranch);
        proof {
            assert(setup@ =~= seq![
                GitCommand::Clone { url: *url, dest: *mirror_path },
                GitCommand::RenameDefaultBranch,
            ]);
        }
    }
    let (ident, remote): (String, Option<FetchRemote>) = match fork {
        None => (String::from_str("DEFAULT"), None),
        Some(f) => {
            match regex_replace(&f.regex, url, &f.replacement) {
                None => {
                    return Err(Error::BadPattern(f.regex.clone()));
                },
                Some(u) => {
                    let mut id = u.clone();
                    id.append(" ");
                    id.append(f.branch.as_str());
                    id.append("\n");
                    (id, Some(FetchRemote { url: u, branch: f.branch.clone() }))
                },
            }
        },
    };
    if !needs_refresh(stamp, age_seconds, &ident, force) {
        Ok(SyncPlan { setup, step: SyncStep::Skip })
    } else {
        Ok(SyncPlan { setup, step: SyncStep::Refresh { fork: remote, ident } })
    }
}

/// The conclusion of a refresh, and the identity to persist afterwards.
#[derive(Debug)]
pub struct RefreshOutcome {
    pub commands: Vec<GitCommand>,
    pub stamp: String,
}

/// Conclude a refresh pass.  When the configured fork branch was fetched,
/// the mirror detaches onto the fetched head and the fork identity is
/// persisted; otherwise — no fork configured, or the fetch exited
/// nonzero — the mirror falls back to the sentinel default branch, pulls
/// it, and the sentinel identity is persisted, not the fork one.
pub fn finish_refresh(ident: &String, fork_fetched: bool) -> (r: RefreshOutcome)
    ensures
        fork_fetched ==> r.commands@ == seq![GitCommand::CheckoutFetchHead] && r.stamp == *ident,
        !fork_fetched ==> r.commands@ == seq![GitCommand::CheckoutDefault, GitCommand::Pull]
            && r.stamp@ == sentinel_identity(),
{
    let mut commands: Vec<GitCommand> = Vec::new();
    if fork_fetched {
        commands.push(GitCommand::CheckoutFetchHead);
        proof {
            assert(commands@ =~= seq![GitCommand::CheckoutFetchHead]);
        }
        RefreshOutcome { commands, stamp: ident.clone() }
    } else {
        commands.push(GitCommand::CheckoutDefault);
        commands.push(GitCommand::Pull);
        proof {
            assert(commands@ =~= seq![GitCommand::CheckoutDefault, GitCommand::Pull]);
        }
        RefreshOutcome { commands, stamp: String::from_str("DEFAULT") }
    }
}

/// Space-separated rendering of an argument list.
pub open spec fn spec_join_spaces(args: Seq<Seq<char>>) -> Seq<char>
    decreases args.len(),
{
    if args.len() == 0 {
        Seq::empty()
    } else if args.len() == 1 {
        args[0]
    } else {
        spec_join_spaces(args.drop_last()) + " "@ + args.last()
    }
}

/// The description a failed command is reported with: the program name
/// followed by its space-separated arguments.
pub fn command_description(program: &str, args: &Vec<String>) -> (r: String)
    ensures
        r@ == program@ + " "@ + spec_join_spaces(args.deep_view()),
{
    let mut s = String::from_str(program);
    s.append(" ");
    let mut i: usize = 0;
    while i < args.len()
        invariant
            i <= args@.len(),
            s@ == program@ + " "@ + spec_join_spaces(args.deep_view().take(i as int)),
        decreases args@.len() - i,
    {
        if i > 0 {
            s.append(" ");
        }
        s.append(args[i].as_str());
        proof {
            let dv = args.deep_view();
            assert(dv.take(i + 1).drop_last() =~= dv.take(i as int));
            assert(dv.take(i + 1).last() == dv[i as int]);
            assert(args@[i as int]@ == dv[i as int]);
        }
        i = i + 1;
    }
    proof {
        assert(args.deep_view().take(args@.len() as int) =~= args.deep_view());
    }
    s
}

} // verus!
