//! Configurations, the repository structure, and per-platform
//! resolution.
//!
//! A configuration names, for each recognized platform, where its files
//! are deployed to and pulled from. The structure maps configuration
//! names to configurations and is immutable for the duration of a
//! command; resolving it is the concern of the surrounding binary,
//! which hands the result (or its absence) to [`verify_structure`].

use vstd::prelude::*;
use vstd::string::*;
use crate::errors::SyncError;
use crate::paths::str_eq;

verus! {

/// The recognized operating systems. Any other platform reports an
/// unsupported-platform failure before any work is done.
#[derive(Debug, Clone, Copy, PartialEq, Eq, Structural)]
pub enum Platform {
    Windows,
    Linux,
}

/// Where one platform's deploy goes: the live-system target directory
/// (`~` expansion is resolved later), the target-level exclude globs,
/// and an optional override of the emptiness requirement.
#[derive(Debug, Clone)]
pub struct TargetSpec {
    pub target: String,
    pub exclude: Vec<String>,
    pub target_require_empty: Option<bool>,
}

/// Where one platform's pull reads from: an optional override of the
/// source root (the deploy target when absent) and the pull-level
/// exclude globs.
#[derive(Debug, Clone)]
pub struct PullSpec {
    pub from: Option<String>,
    pub exclude: Vec<String>,
}

/// The deploy side of a configuration: one target per platform, the
/// configuration-level exclude globs, and the configuration-level
/// default of the emptiness requirement.
#[derive(Debug, Clone)]
pub struct DeployRules {
    pub windows: TargetSpec,
    pub linux: TargetSpec,
    pub exclude: Vec<String>,
    pub target_require_empty: bool,
}

/// The pull side of a configuration: one source per platform and the
/// configuration-level exclude globs.
#[derive(Debug, Clone)]
pub struct PullRules {
    pub windows: PullSpec,
    pub linux: PullSpec,
    pub exclude: Vec<String>,
}

/// A named application's dotfile set with deploy and pull rules.
#[derive(Debug, Clone)]
pub struct Configuration {
    pub deploy: DeployRules,
    pub pull: PullRules,
}

/// Decides the platform from the operating system's name. Only
/// `windows` and `linux` are recognized; any other system is reported
/// back by its name.
pub fn platform_of(os: &str) -> (r: Result<Platform, SyncError>)
    ensures
        os@ == "windows"@ ==> r == Ok::<Platform, SyncError>(Platform::Windows),
        os@ != "windows"@ && os@ == "linux"@ ==> r == Ok::<Platform, SyncError>(Platform::Linux),
        os@ != "windows"@ && os@ != "linux"@ ==> match r {
            Ok(_) => false,
            Err(e) => match e {
                SyncError::UnsupportedPlatform { os: reported } => reported@ == os@,
                _ => false,
            },
        },
{
    if str_eq(os, "windows") {
        Ok(Platform::Windows)
    } else if str_eq(os, "linux") {
        Ok(Platform::Linux)
    } else {
        Err(SyncError::UnsupportedPlatform { os: String::from_str(os) })
    }
}

/// The deploy target for the given platform.
pub fn deploy_spec_for(c: &Configuration, p: Platform) -> (r: &TargetSpec)
    ensures
        p is Windows ==> r == c.deploy.windows,
        p is Linux ==> r == c.deploy.linux,
{
    match p {
        Platform::Windows => &c.deploy.windows,
        Platform::Linux => &c.deploy.linux,
    }
}

/// The pull spec for the given platform. The lookup is keyed by the
/// same platform as the deploy lookup.
pub fn pull_spec_for(c: &Configuration, p: Platform) -> (r: &PullSpec)
    ensures
        p is Windows ==> r == c.pull.windows,
        p is Linux ==> r == c.pull.linux,
{
    match p {
        Platform::Windows => &c.pull.windows,
        Platform::Linux => &c.pull.linux,
    }
}

/// The root a pull reads from: the pull-level override when present,
/// else the platform's deploy target.
pub fn pull_source<'a>(pull: &'a PullSpec, deploy_target: &'a TargetSpec) -> (r: &'a String)
    ensures
        r@ == match pull.from {
            Some(f) => f@,
            None => deploy_target.target@,
        },
{
    match &pull.from {
        Some(f) => f,
        None => &deploy_target.target,
    }
}

/// The path asks for home-directory expansion.
pub open spec fn starts_tilde(s: Seq<char>) -> bool {
    s.len() > 0 && s[0] == '~'
}

/// The path, home-directory expansion applied: unchanged when it does
/// not ask for expansion, and otherwise either still unchanged (no home
/// directory was available) or some home-directory prefix followed by
/// the path after its `~`.
pub open spec fn tilde_expanded(p: Seq<char>, r: Seq<char>) -> bool {
    if !starts_tilde(p) {
        r == p
    } else {
        r == p || exists|home: Seq<char>| r == home + p.skip(1)
    }
}

/// Relies on shellexpand::tilde: an input that does not start with `~`
/// comes back unchanged; one that does comes back unchanged (no home
/// directory) or as the home directory followed by the input after its
/// `~`. Which home directory, if any, is the environment's, so nothing
/// more is claimed.
#[verifier::external_body]
fn expand_tilde(p: &str) -> (r: String)
    ensures
        tilde_expanded(p@, r@),
{
    shellexpand::tilde(p).into_owned()
}

/// The live-system root a deploy writes under: the platform's target
/// path, home-directory expansion resolved.
pub fn resolve_deploy_root(t: &TargetSpec) -> (r: String)
    ensures
        tilde_expanded(t.target@, r@),
{
    expand_tilde(t.target.as_str())
}

/// The live-system root a pull reads under: the pull-level override
/// when present, else the platform's deploy target, home-directory
/// expansion resolved.
pub fn resolve_pull_root(pull: &PullSpec, deploy_target: &TargetSpec) -> (r: String)
    ensures
        match pull.from {
            Some(f) => tilde_expanded(f@, r@),
            None => tilde_expanded(deploy_target.target@, r@),
        },
{
    expand_tilde(pull_source(pull, deploy_target).as_str())
}

/// Resolves the emptiness requirement: the per-target override takes
/// precedence over the configuration-level default.
pub fn require_empty_effective(override_flag: Option<bool>, config_default: bool) -> (r: bool)
    ensures
        r == match override_flag {
            Some(v) => v,
            None => config_default,
        },
{
    match override_flag {
        Some(v) => v,
        None => config_default,
    }
}

/// The mapping from configuration name to configuration, discovered
/// once per invocation. Names are unique within a structure.
#[derive(Debug)]
pub struct Structure {
    pub configs: Vec<(String, Configuration)>,
}

impl Structure {
    /// The names, in discovery order.
    pub open spec fn names(&self) -> Seq<Seq<char>> {
        self.configs@.map_values(|p: (String, Configuration)| p.0@)
    }

    /// Names are unique within a structure.
    pub open spec fn wf(&self) -> bool {
        forall|i: int, j: int|
            0 <= i < j < self.names().len() ==> self.names()[i] != self.names()[j]
    }

    /// Whether a configuration of this name exists.
    pub open spec fn has_name(&self, name: Seq<char>) -> bool {
        exists|i: int| 0 <= i < self.names().len() && self.names()[i] == name
    }

    /// Looks a configuration up by name.
    pub fn get(&self, name: &str) -> (r: Option<&Configuration>)
        ensures
            r is Some <==> self.has_name(name@),
            r is Some ==> exists|i: int|
                0 <= i < self.configs@.len() && self.configs@[i].0@ == name@ && r == Some(
                    &self.configs@[i].1,
                ),
    {
        let n = self.configs.len();
        let mut i: usize = 0;
        while i < n
            invariant
                n == self.configs@.len(),
                i <= n,
                forall|j: int| 0 <= j < i ==> self.names()[j] != name@,
            decreases n - i,
        {
            let entry = &self.configs[i];
            if str_eq(entry.0.as_str(), name) {
                proof {
                    assert(self.names()[i as int] == name@);
                }
                return Some(&entry.1);
            }
            i += 1;
        }
        None
    }

    /// Whether a configuration of this name exists.
    pub fn contains_name(&self, name: &str) -> (r: bool)
        ensures
            r == self.has_name(name@),
    {
        self.get(name).is_some()
    }

    /// A new configuration may only be created under a fresh name; a
    /// taken one is reported back by name.
    pub fn check_new_name(&self, name: &str) -> (r: Result<(), SyncError>)
        ensures
            r is Ok <==> !self.has_name(name@),
            r is Err ==> match r->Err_0 {
                SyncError::DuplicateConfig { name: reported } => reported@ == name@,
                _ => false,
            },
    {
        if self.contains_name(name) {
            Err(SyncError::DuplicateConfig { name: String::from_str(name) })
        } else {
            Ok(())
        }
    }

    /// Deleting, pulling or deploying one configuration needs an
    /// existing name; a missing one is reported back by name.
    pub fn check_existing_name(&self, name: &str) -> (r: Result<(), SyncError>)
        ensures
            r is Ok <==> self.has_name(name@),
            r is Err ==> match r->Err_0 {
                SyncError::UnknownConfig { name: reported } => reported@ == name@,
                _ => false,
            },
    {
        if self.contains_name(name) {
            Ok(())
        } else {
            Err(SyncError::UnknownConfig { name: String::from_str(name) })
        }
    }
}

/// Verifies that the structure of the dotfiles folder is correct: a
/// resolved structure passes through, an absent one is a fatal
/// configuration failure. It does not verify the configs inside of the
/// folder.
pub fn verify_structure(structure: Option<Structure>) -> (r: Result<Structure, SyncError>)
    ensures
        match structure {
            Some(s) => r == Ok::<Structure, SyncError>(s),
            None => r == Err::<Structure, SyncError>(SyncError::Configuration),
        },
{
    match structure {
        Some(value) => Ok(value),
        None => Err(SyncError::Configuration),
    }
}

} // verus!
