//! `wax`: running a command immediately. The reading of its arguments and
//! the decisions between the local package, the cached one and the registry.

use vstd::prelude::*;
use vstd::string::StringExecFns;
use crate::config::{join_path, spec_join};
use crate::lockfile::{semver_read, version_text, Version, VersionModel};
use crate::text::{contains, lemma_split_at_least_two, spec_contains, spec_split, split_on, str_eq};

verus! {

/// The arguments of `wax`, taken as they come and read by `transform_args`.
#[derive(Debug, Clone, PartialEq, Eq)]
pub enum ExecuteOpt {
    /// The inner execute command
    ExecArgs(Vec<String>),
}

impl ExecuteOpt {
    /// The arguments.
    pub fn args(&self) -> (res: &Vec<String>)
        ensures
            match self {
                ExecuteOpt::ExecArgs(a) => res@ == a@,
            },
    {
        match self {
            ExecuteOpt::ExecArgs(args) => args,
        }
    }
}

/// The options of `wax`, read from its arguments by hand.
#[derive(Debug, Clone, PartialEq, Eq, Default)]
pub struct ExecuteOptInner {
    /// Run unsandboxed emscripten modules too.
    pub enable_emscripten: bool,
    /// Agree to all prompts.
    pub force_yes: bool,
    /// Package will be verified by its signature.
    pub verify_signature: bool,
    /// Run `wax` in offline mode.
    pub offline: bool,
    /// Pre-open a directory for WASI.
    pub pre_opened_directories: Vec<String>,
    /// Prevent the current directory from being preopened by default.
    pub no_default_preopen: bool,
    /// Print where the command lives instead of running it.
    pub which: Option<String>,
    /// The command to run.
    pub command: Option<String>,
    /// Arguments that the command will get.
    pub args: Vec<String>,
}

pub struct OptModel {
    pub enable_emscripten: bool,
    pub force_yes: bool,
    pub verify_signature: bool,
    pub offline: bool,
    pub pre_opened_directories: Seq<Seq<char>>,
    pub no_default_preopen: bool,
    pub which: Option<Seq<char>>,
    pub command: Option<Seq<char>>,
    pub args: Seq<Seq<char>>,
}

pub open spec fn strs(v: Seq<String>) -> Seq<Seq<char>> {
    v.map_values(|s: String| s@)
}

pub open spec fn opt_str(o: Option<String>) -> Option<Seq<char>> {
    match o {
        Some(s) => Some(s@),
        None => None,
    }
}

impl View for ExecuteOptInner {
    type V = OptModel;

    open spec fn view(&self) -> OptModel {
        OptModel {
            enable_emscripten: self.enable_emscripten,
            force_yes: self.force_yes,
            verify_signature: self.verify_signature,
            offline: self.offline,
            pre_opened_directories: strs(self.pre_opened_directories@),
            no_default_preopen: self.no_default_preopen,
            which: opt_str(self.which),
            command: opt_str(self.command),
            args: strs(self.args@),
        }
    }
}

pub open spec fn empty_opts() -> OptModel {
    OptModel {
        enable_emscripten: false,
        force_yes: false,
        verify_signature: false,
        offline: false,
        pre_opened_directories: seq![],
        no_default_preopen: false,
        which: None,
        command: None,
        args: seq![],
    }
}

/// Why the arguments of `wax` could not be read.
#[derive(Debug, Clone, PartialEq, Eq)]
pub enum ExecuteArgParsingError {
    /// The argument expects a value but none was found.
    MissingValue { arg_name: String, expected: String },
    UnrecognizedArgument { arg_name: String },
}

pub enum ArgErrorModel {
    MissingValue { arg_name: Seq<char>, expected: Seq<char> },
    UnrecognizedArgument { arg_name: Seq<char> },
}

impl View for ExecuteArgParsingError {
    type V = ArgErrorModel;

    open spec fn view(&self) -> ArgErrorModel {
        match self {
            ExecuteArgParsingError::MissingValue { arg_name, expected } =>
                ArgErrorModel::MissingValue { arg_name: arg_name@, expected: expected@ },
            ExecuteArgParsingError::UnrecognizedArgument { arg_name } =>
                ArgErrorModel::UnrecognizedArgument { arg_name: arg_name@ },
        }
    }
}

/// What the arguments ask for: run with these options, or show the help.
#[derive(Debug, Clone, PartialEq, Eq)]
pub enum ExecuteArgs {
    Run(ExecuteOptInner),
    Help,
}

pub enum ArgsModel {
    Run(OptModel),
    Help,
}

pub open spec fn args_result_view(r: Result<ExecuteArgs, ExecuteArgParsingError>) -> Result<
    ArgsModel,
    ArgErrorModel,
> {
    match r {
        Ok(ExecuteArgs::Run(o)) => Ok(ArgsModel::Run(o@)),
        Ok(ExecuteArgs::Help) => Ok(ArgsModel::Help),
        Err(e) => Err(e@),
    }
}

pub open spec fn missing(arg_name: Seq<char>, expected: Seq<char>) -> ArgErrorModel {
    ArgErrorModel::MissingValue { arg_name, expected }
}

/// Reading the arguments from position `idx` on, with the options read so
/// far. Flags set options; `--which` and `--dir` take the next argument or a
/// value after `=`; `help` asks for help; any other argument with `=` is
/// unrecognized; the first other argument is the command, and what follows
/// it (after one `--`) goes to the command.
pub open spec fn spec_transform(args: Seq<Seq<char>>, idx: int, out: OptModel) -> Result<
    ArgsModel,
    ArgErrorModel,
>
    decreases args.len() - idx,
{
    if idx >= args.len() || idx < 0 {
        Ok(ArgsModel::Run(out))
    } else {
        let a = args[idx];
        if a == "--emscripten"@ {
            spec_transform(args, idx + 1, OptModel { enable_emscripten: true, ..out })
        } else if a == "--force-yes"@ || a == "--force_yes"@ || a == "-y"@ {
            spec_transform(args, idx + 1, OptModel { force_yes: true, ..out })
        } else if a == "--verify"@ || a == "-v"@ {
            spec_transform(args, idx + 1, OptModel { verify_signature: true, ..out })
        } else if a == "--no-default-preopen"@ {
            spec_transform(args, idx + 1, OptModel { no_default_preopen: true, ..out })
        } else if a == "--offline"@ {
            spec_transform(args, idx + 1, OptModel { offline: true, ..out })
        } else if a == "--which"@ {
            if idx + 1 < args.len() {
                spec_transform(args, idx + 2, OptModel { which: Some(args[idx + 1]), ..out })
            } else {
                Err(missing("--which"@, "<COMMAND NAME>"@))
            }
        } else if a == "--dir"@ {
            if idx + 1 < args.len() {
                spec_transform(
                    args,
                    idx + 2,
                    OptModel {
                        pre_opened_directories: out.pre_opened_directories.push(args[idx + 1]),
                        ..out
                    },
                )
            } else {
                Err(missing("--dir"@, "<DIRECTORY>"@))
            }
        } else if a == "help"@ || a == "--help"@ || a == "-h"@ {
            Ok(ArgsModel::Help)
        } else if spec_contains(a, "="@) {
            let parts = spec_split(a, '=');
            if parts[0] == "--which"@ {
                spec_transform(args, idx + 1, OptModel { which: Some(parts[1]), ..out })
            } else if parts[0] == "--dir"@ {
                spec_transform(
                    args,
                    idx + 1,
                    OptModel {
                        pre_opened_directories: out.pre_opened_directories.push(parts[1]),
                        ..out
                    },
                )
            } else {
                Err(ArgErrorModel::UnrecognizedArgument { arg_name: parts[0] })
            }
        } else {
            let rest = if idx + 1 < args.len() && args[idx + 1] == "--"@ {
                idx + 2
            } else {
                idx + 1
            };
            Ok(
                ArgsModel::Run(
                    OptModel {
                        command: Some(a),
                        args: args.subrange(rest, args.len() as int),
                        ..out
                    },
                ),
            )
        }
    }
}

/// Reads the arguments of `wax` into its options.
pub fn transform_args(arg_stream: &Vec<String>) -> (res: Result<ExecuteArgs, ExecuteArgParsingError>)
    ensures
        args_result_view(res) == spec_transform(strs(arg_stream@), 0, empty_opts()),
{
    let ghost av = strs(arg_stream@);
    let mut out = ExecuteOptInner {
        enable_emscripten: false,
        force_yes: false,
        verify_signature: false,
        offline: false,
        pre_opened_directories: Vec::new(),
        no_default_preopen: false,
        which: None,
        command: None,
        args: Vec::new(),
    };
    assert(out@.pre_opened_directories =~= seq![]);
    assert(out@.args =~= seq![]);
    let mut idx: usize = 0;
    while idx < arg_stream.len()
        invariant
            av == strs(arg_stream@),
            idx <= arg_stream.len(),
            spec_transform(av, 0, empty_opts()) == spec_transform(av, idx as int, out@),
        decreases arg_stream.len() - idx,
    {
        proof {
            reveal_strlit("=");
        }
        let a = arg_stream[idx].as_str();
        assert(av[idx as int] == a@);
        if str_eq(a, "--emscripten") {
            out.enable_emscripten = true;
        } else if str_eq(a, "--force-yes") || str_eq(a, "--force_yes") || str_eq(a, "-y") {
            out.force_yes = true;
        } else if str_eq(a, "--verify") || str_eq(a, "-v") {
            out.verify_signature = true;
        } else if str_eq(a, "--no-default-preopen") {
            out.no_default_preopen = true;
        } else if str_eq(a, "--offline") {
            out.offline = true;
        } else if str_eq(a, "--which") {
            if idx + 1 < arg_stream.len() {
                out.which = Some(arg_stream[idx + 1].clone());
                idx += 1;
            } else {
                return Err(
                    ExecuteArgParsingError::MissingValue {
                        arg_name: "--which".to_owned(),
                        expected: "<COMMAND NAME>".to_owned(),
                    },
                );
            }
        } else if str_eq(a, "--dir") {
            if idx + 1 < arg_stream.len() {
                let ghost before = out.pre_opened_directories@;
                out.pre_opened_directories.push(arg_stream[idx + 1].clone());
                assert(strs(out.pre_opened_directories@) =~= strs(before).push(av[idx + 1]));
                idx += 1;
            } else {
                return Err(
                    ExecuteArgParsingError::MissingValue {
                        arg_name: "--dir".to_owned(),
                        expected: "<DIRECTORY>".to_owned(),
                    },
                );
            }
        } else if str_eq(a, "help") || str_eq(a, "--help") || str_eq(a, "-h") {
            return Ok(ExecuteArgs::Help);
        } else if contains(a, "=") {
            assert("="@ == seq!['=']);
            proof {
                lemma_split_at_least_two(a@, '=');
            }
            let parts = split_on(a, '=');
            assert(parts@.map_values(|p: String| p@).len() == parts@.len());
            assert(parts@[0]@ == spec_split(a@, '=')[0]);
            assert(parts@[1]@ == spec_split(a@, '=')[1]);
            if str_eq(parts[0].as_str(), "--which") {
                out.which = Some(parts[1].clone());
            } else if str_eq(parts[0].as_str(), "--dir") {
                let ghost before = out.pre_opened_directories@;
                out.pre_opened_directories.push(parts[1].clone());
                assert(strs(out.pre_opened_directories@) =~= strs(before).push(parts@[1]@));
            } else {
                return Err(
                    ExecuteArgParsingError::UnrecognizedArgument { arg_name: parts[0].clone() },
                );
            }
        } else {
            out.command = Some(a.to_owned());
            let mut rest = idx + 1;
            if idx + 1 < arg_stream.len() && str_eq(arg_stream[idx + 1].as_str(), "--") {
                rest = idx + 2;
            }
            let mut args: Vec<String> = Vec::new();
            let mut k = rest;
            while k < arg_stream.len()
                invariant
                    av == strs(arg_stream@),
                    rest <= k <= arg_stream.len(),
                    args@.len() == k - rest,
                    strs(args@) == av.subrange(rest as int, k as int),
                decreases arg_stream.len() - k,
            {
                let ghost before = args@;
                args.push(arg_stream[k].clone());
                assert(strs(args@) =~= strs(before).push(av[k as int]));
                assert(strs(args@) =~= av.subrange(rest as int, k + 1));
                k += 1;
            }
            out.args = args;
            return Ok(ExecuteArgs::Run(out));
        }
        idx += 1;
    }
    Ok(ExecuteArgs::Run(out))
}


/// The options with the current directory pre-opened, unless that is turned off.
pub fn with_default_preopen(opt: ExecuteOptInner) -> (res: ExecuteOptInner)
    ensures
        res@ == (if opt@.no_default_preopen {
            opt@
        } else {
            OptModel { pre_opened_directories: opt@.pre_opened_directories.push("."@), ..opt@ }
        }),
{
    let mut opt = opt;
    if !opt.no_default_preopen {
        let ghost before = opt.pre_opened_directories@;
        opt.pre_opened_directories.push(".".to_owned());
        assert(strs(opt.pre_opened_directories@) =~= strs(before).push("."@));
    }
    opt
}

/// Why `wax` could not run a command.
#[derive(Debug, Clone, PartialEq, Eq)]
pub enum ExecuteError {
    CommandNotFound { name: String },
    EmscriptenDisabled { name: String },
    WaxIndexError(String),
    ErrorInDataFromRegistry(String),
    InstallationError(String),
    NoCommandGiven,
    CommandNotFoundOfflineMode(String),
    CommandNotFoundOfflineModeOfflineFlag(String),
}

/// The error when a command is not in the wax index and the registry cannot
/// be asked: the message differs when offline mode was asked for.
pub fn offline_not_found(command_name: &str, offline: bool) -> (res: ExecuteError)
    ensures
        offline ==> (res matches ExecuteError::CommandNotFoundOfflineModeOfflineFlag(n) && n@
            == command_name@),
        !offline ==> (res matches ExecuteError::CommandNotFoundOfflineMode(n) && n@
            == command_name@),
{
    if offline {
        ExecuteError::CommandNotFoundOfflineModeOfflineFlag(command_name.to_owned())
    } else {
        ExecuteError::CommandNotFoundOfflineMode(command_name.to_owned())
    }
}

/// Whether a cached package was updated recently: the time now (seconds,
/// then nanoseconds) comes before the last update plus the cooldown in seconds.
pub open spec fn spec_recently_updated(now_sec: int, now_nsec: int, last_sec: int, last_nsec: int, cooldown: int) -> bool {
    now_sec < last_sec + cooldown || (now_sec == last_sec + cooldown && now_nsec < last_nsec)
}

/// Whether a cached package was updated recently.
pub fn recently_updated(now_sec: i64, now_nsec: i32, last_sec: i64, last_nsec: i32, cooldown: i32) -> (res:
    bool)
    ensures
        res == spec_recently_updated(now_sec as int, now_nsec as int, last_sec as int, last_nsec as int, cooldown as int),
{
    let update_at: i128 = last_sec as i128 + cooldown as i128;
    (now_sec as i128) < update_at || ((now_sec as i128) == update_at && now_nsec < last_nsec)
}

/// A package and its version, as the index and the cache name them: `name@version`.
pub open spec fn pv(name: Seq<char>, v: VersionModel) -> Seq<char> {
    name + seq!['@'] + version_text(v)
}

/// Where a package version is installed under the wax directory.
pub open spec fn pv_dir(base: Seq<char>, name: Seq<char>, v: VersionModel) -> Seq<char> {
    spec_join(base, pv(name, v))
}

/// The manifest that shows a cached package is still installed.
pub open spec fn cached_manifest(base: Seq<char>, name: Seq<char>, v: VersionModel) -> Seq<char> {
    spec_join(
        spec_join(spec_join(pv_dir(base, name, v), "wapm_packages"@), pv(name, v)),
        "wapm.toml"@,
    )
}

/// `name@version`.
pub fn package_version_text(name: &str, version: &Version) -> (res: String)
    ensures
        res@ == pv(name@, version@),
{
    proof {
        reveal_strlit("@");
    }
    String::from_str(name).concat("@").concat(version.to_string().as_str())
}

/// Where a package version is installed under the wax directory: `name@version`.
pub fn package_version_dir(base: &str, name: &str, version: &Version) -> (res: String)
    ensures
        res@ == pv_dir(base@, name@, version@),
{
    let dir = package_version_text(name, version);
    join_path(base, dir.as_str())
}

/// The manifest that shows a cached package is still installed:
/// `<location>/wapm_packages/<name@version>/wapm.toml`.
pub fn cached_manifest_path(base: &str, name: &str, version: &Version) -> (res: String)
    ensures
        res@ == cached_manifest(base@, name@, version@),
{
    let location = package_version_dir(base, name, version);
    let package_version = package_version_text(name, version);
    let p = join_path(location.as_str(), "wapm_packages");
    let p = join_path(p.as_str(), package_version.as_str());
    join_path(p.as_str(), "wapm.toml")
}

/// Whether `a` comes after `b` in the order of `semver::Version`.
pub uninterp spec fn semver_greater(a: VersionModel, b: VersionModel) -> bool;

/// `a`'s numbers come after `b`'s: a greater major version, or the same
/// major and a greater minor, or the same major and minor and a greater
/// patch.
pub open spec fn numbers_after(a: VersionModel, b: VersionModel) -> bool {
    a.major > b.major || (a.major == b.major && (a.minor > b.minor || (a.minor == b.minor && a.patch
        > b.patch)))
}

/// Compares two versions with `semver::Version`'s order (`>`), each built
/// from its numbers and the text of its pre-release and build parts (text
/// that `semver` refuses counts as empty). Claimed: the answer depends on
/// the two versions alone; the order (derived, field by field) decides by
/// the numbers first, and no version comes after itself. How pre-release
/// and build texts order equal numbers is not stated.
#[verifier::external_body]
fn version_greater(a: &Version, b: &Version) -> (res: bool)
    ensures
        res == semver_greater(a@, b@),
        numbers_after(a@, b@) ==> res,
        numbers_after(b@, a@) ==> !res,
        a@ == b@ ==> !res,
{
    let pre_a = semver::Prerelease::new(&a.pre).unwrap_or_default();
    let pre_b = semver::Prerelease::new(&b.pre).unwrap_or_default();
    let build_a = semver::BuildMetadata::new(&a.build).unwrap_or_default();
    let build_b = semver::BuildMetadata::new(&b.build).unwrap_or_default();
    semver::Version { major: a.major, minor: a.minor, patch: a.patch, pre: pre_a, build: build_a }
        > semver::Version { major: b.major, minor: b.minor, patch: b.patch, pre: pre_b, build: build_b }
}

/// Whether a cached package must be installed again: the registry has a
/// later version, or the cached copy is gone.
pub fn needs_reinstall(registry_version: &Version, cached_version: &Version, cached_exists: bool) -> (res:
    bool)
    ensures
        res == (semver_greater(registry_version@, cached_version@) || !cached_exists),
        numbers_after(registry_version@, cached_version@) ==> res,
        numbers_after(cached_version@, registry_version@) ==> res == !cached_exists,
        registry_version@ == cached_version@ ==> res == !cached_exists,
{
    version_greater(registry_version, cached_version) || !cached_exists
}


/// The model of an `ExecuteError`.
pub enum ExecuteErrorModel {
    CommandNotFound { name: Seq<char> },
    EmscriptenDisabled { name: Seq<char> },
    WaxIndexError(Seq<char>),
    ErrorInDataFromRegistry(Seq<char>),
    InstallationError(Seq<char>),
    NoCommandGiven,
    CommandNotFoundOfflineMode(Seq<char>),
    CommandNotFoundOfflineModeOfflineFlag(Seq<char>),
}

impl View for ExecuteError {
    type V = ExecuteErrorModel;

    open spec fn view(&self) -> ExecuteErrorModel {
        match self {
            ExecuteError::CommandNotFound { name } => ExecuteErrorModel::CommandNotFound { name: name@ },
            ExecuteError::EmscriptenDisabled { name } => ExecuteErrorModel::EmscriptenDisabled {
                name: name@,
            },
            ExecuteError::WaxIndexError(m) => ExecuteErrorModel::WaxIndexError(m@),
            ExecuteError::ErrorInDataFromRegistry(m) => ExecuteErrorModel::ErrorInDataFromRegistry(m@),
            ExecuteError::InstallationError(m) => ExecuteErrorModel::InstallationError(m@),
            ExecuteError::NoCommandGiven => ExecuteErrorModel::NoCommandGiven,
            ExecuteError::CommandNotFoundOfflineMode(m) => ExecuteErrorModel::CommandNotFoundOfflineMode(
                m@,
            ),
            ExecuteError::CommandNotFoundOfflineModeOfflineFlag(m) =>
                ExecuteErrorModel::CommandNotFoundOfflineModeOfflineFlag(m@),
        }
    }
}

/// Where a run of `wax` stands: which answer of the outside world it waits for.
#[derive(Debug, Clone, Copy, PartialEq, Eq, Structural)]
pub enum WaxStage {
    /// Waits for the index's entry of the command asked about with `--which`.
    WhichIndex,
    /// Waits for the lookup, in the current directory, of the command asked
    /// about with `--which`.
    WhichLocal,
    /// Waits for the lookup of the command in the current directory.
    Local,
    /// Waits for the index's entry of the command.
    Index,
    /// Waits to know whether the recently updated cached package is still there.
    Cache,
    /// Waits for the run of that cached package.
    CachedRun,
    /// Waits for the registry's answer on a command packaged as one file.
    Pirita,
    /// Waits for the install and the run of that package.
    PiritaRun,
    /// Waits for the registry's answer on the command.
    Registry,
    /// Waits to know whether the cached package is still there.
    Reinstall,
    /// Waits for the install of the registry's package.
    Installing,
    /// Waits for the last run, whose outcome is the outcome of `wax`.
    Final,
    /// Finished.
    Done,
}

/// A run of `wax`: its options, the command it is about, the directory of
/// its cache, where it stands, the cached package found in the index, and the
/// package that the registry named (name, version, download address).
#[derive(Debug, Clone, PartialEq, Eq)]
pub struct WaxRun {
    pub opt: ExecuteOptInner,
    pub command: String,
    pub wax_dir: String,
    pub stage: WaxStage,
    pub cached: Option<(String, Version)>,
    pub registry: Option<(String, Version, String)>,
}

pub struct WaxRunModel {
    pub opt: OptModel,
    pub command: Seq<char>,
    pub wax_dir: Seq<char>,
    pub stage: WaxStage,
    pub cached: Option<(Seq<char>, VersionModel)>,
    pub registry: Option<(Seq<char>, VersionModel, Seq<char>)>,
}

impl View for WaxRun {
    type V = WaxRunModel;

    open spec fn view(&self) -> WaxRunModel {
        WaxRunModel {
            opt: self.opt@,
            command: self.command@,
            wax_dir: self.wax_dir@,
            stage: self.stage,
            cached: match self.cached {
                Some((n, v)) => Some((n@, v@)),
                None => None,
            },
            registry: match self.registry {
                Some((n, v, u)) => Some((n@, v@, u@)),
                None => None,
            },
        }
    }
}

/// What the outside world answered to the last action.
#[derive(Debug, Clone, PartialEq, Eq)]
pub enum WaxEvent {
    /// The index has an entry for the command: its package and version, when
    /// it was last updated, the time now (seconds and nanoseconds) and the
    /// cooldown in seconds.
    IndexEntry {
        package_name: String,
        version: Version,
        last_sec: i64,
        last_nsec: i32,
        now_sec: i64,
        now_nsec: i32,
        cooldown: i32,
    },
    /// The index has no usable entry for the command.
    NoIndexEntry,
    /// The command was found in a manifest under this directory.
    FoundLocally { manifest_dir: String },
    /// The command was found in a package file; this runs it.
    FoundPiritaLocally { cmd: String },
    /// The command was not found, or the lookup failed.
    NotFoundLocally,
    /// Whether the path asked about exists.
    Exists(bool),
    /// How a run ended.
    Ran(WorkOutcome),
    /// The registry could not be reached.
    RegistryUnreachable,
    /// The registry does not know the command.
    NotInRegistry,
    /// The registry knows the command as one of a package file.
    PiritaPackage { package: String, version: String, command: String },
    /// The package file could not be set up to run.
    PiritaNotInitialized,
    /// The registry knows the command: its ABI, the version and the name of
    /// its package, and where to download it.
    RegistryCommand {
        abi: Option<String>,
        version: String,
        package_name: String,
        download_url: String,
    },
    /// How the install ended.
    Installed(WorkOutcome),
}

pub enum WaxEventModel {
    IndexEntry {
        package_name: Seq<char>,
        version: VersionModel,
        last_sec: int,
        last_nsec: int,
        now_sec: int,
        now_nsec: int,
        cooldown: int,
    },
    NoIndexEntry,
    FoundLocally { manifest_dir: Seq<char> },
    FoundPiritaLocally { cmd: Seq<char> },
    NotFoundLocally,
    Exists(bool),
    Ran(Result<(), Seq<char>>),
    RegistryUnreachable,
    NotInRegistry,
    PiritaPackage { package: Seq<char>, version: Seq<char>, command: Seq<char> },
    PiritaNotInitialized,
    RegistryCommand {
        abi: Option<Seq<char>>,
        version: Seq<char>,
        package_name: Seq<char>,
        download_url: Seq<char>,
    },
    Installed(Result<(), Seq<char>>),
}

/// How a piece of outside work ended: well, or with the message of its error.
#[derive(Debug, Clone, PartialEq, Eq)]
pub enum WorkOutcome {
    Succeeded,
    Failed(String),
}

pub open spec fn outcome_view(r: WorkOutcome) -> Result<(), Seq<char>> {
    match r {
        WorkOutcome::Succeeded => Ok(()),
        WorkOutcome::Failed(m) => Err(m@),
    }
}

impl View for WaxEvent {
    type V = WaxEventModel;

    open spec fn view(&self) -> WaxEventModel {
        match self {
            WaxEvent::IndexEntry {
                package_name,
                version,
                last_sec,
                last_nsec,
                now_sec,
                now_nsec,
                cooldown,
            } => WaxEventModel::IndexEntry {
                package_name: package_name@,
                version: version@,
                last_sec: *last_sec as int,
                last_nsec: *last_nsec as int,
                now_sec: *now_sec as int,
                now_nsec: *now_nsec as int,
                cooldown: *cooldown as int,
            },
            WaxEvent::NoIndexEntry => WaxEventModel::NoIndexEntry,
            WaxEvent::FoundLocally { manifest_dir } => WaxEventModel::FoundLocally {
                manifest_dir: manifest_dir@,
            },
            WaxEvent::FoundPiritaLocally { cmd } => WaxEventModel::FoundPiritaLocally { cmd: cmd@ },
            WaxEvent::NotFoundLocally => WaxEventModel::NotFoundLocally,
            WaxEvent::Exists(b) => WaxEventModel::Exists(*b),
            WaxEvent::Ran(r) => WaxEventModel::Ran(outcome_view(*r)),
            WaxEvent::RegistryUnreachable => WaxEventModel::RegistryUnreachable,
            WaxEvent::NotInRegistry => WaxEventModel::NotInRegistry,
            WaxEvent::PiritaPackage { package, version, command } => WaxEventModel::PiritaPackage {
                package: package@,
                version: version@,
                command: command@,
            },
            WaxEvent::PiritaNotInitialized => WaxEventModel::PiritaNotInitialized,
            WaxEvent::RegistryCommand { abi, version, package_name, download_url } =>
                WaxEventModel::RegistryCommand {
                abi: opt_str(*abi),
                version: version@,
                package_name: package_name@,
                download_url: download_url@,
            },
            WaxEvent::Installed(r) => WaxEventModel::Installed(outcome_view(*r)),
        }
    }
}

/// What `wax` asks of the outside world next.
#[derive(Debug, Clone, PartialEq, Eq)]
pub enum WaxAction {
    /// Look the command up in the wax index.
    LookUpIndex { command: String },
    /// Look the command up in the current directory.
    FindLocally { command: String },
    /// Print this path; `wax` is done.
    Print { path: String },
    /// Run the command found in the current directory.
    RunLocal,
    /// Run the package file found in the current directory with this command.
    RunPiritaLocally { cmd: String },
    /// Tell whether this path exists.
    CheckExists { path: String },
    /// Save the index and run the command from the package installed here.
    SaveIndexAndRun { location: String },
    /// Ask the registry whether the command is one of a package file.
    QueryPirita { command: String },
    /// Install that package (`name@version`) and run this command of it.
    InstallPiritaAndRun { package: String, command: String },
    /// Ask the registry for the command.
    QueryRegistry { command: String },
    /// Install the registry's package here, checking its signature or not.
    Install {
        location: String,
        package_name: String,
        version: Version,
        download_url: String,
        verify_signature: bool,
    },
    /// Record the command's package in the index, save the index, and run the
    /// command from the package installed here.
    RecordAndRun { command: String, version: Version, package_name: String, location: String },
    /// `wax` is done.
    Finish,
    /// `wax` fails with this error.
    Fail(ExecuteError),
    /// `wax` fails with the error of the last outside work.
    Propagate(String),
}

pub enum WaxActionModel {
    LookUpIndex { command: Seq<char> },
    FindLocally { command: Seq<char> },
    Print { path: Seq<char> },
    RunLocal,
    RunPiritaLocally { cmd: Seq<char> },
    CheckExists { path: Seq<char> },
    SaveIndexAndRun { location: Seq<char> },
    QueryPirita { command: Seq<char> },
    InstallPiritaAndRun { package: Seq<char>, command: Seq<char> },
    QueryRegistry { command: Seq<char> },
    Install {
        location: Seq<char>,
        package_name: Seq<char>,
        version: VersionModel,
        download_url: Seq<char>,
        verify_signature: bool,
    },
    RecordAndRun {
        command: Seq<char>,
        version: VersionModel,
        package_name: Seq<char>,
        location: Seq<char>,
    },
    Finish,
    Fail(ExecuteErrorModel),
    Propagate(Seq<char>),
}

impl View for WaxAction {
    type V = WaxActionModel;

    open spec fn view(&self) -> WaxActionModel {
        match self {
            WaxAction::LookUpIndex { command } => WaxActionModel::LookUpIndex { command: command@ },
            WaxAction::FindLocally { command } => WaxActionModel::FindLocally { command: command@ },
            WaxAction::Print { path } => WaxActionModel::Print { path: path@ },
            WaxAction::RunLocal => WaxActionModel::RunLocal,
            WaxAction::RunPiritaLocally { cmd } => WaxActionModel::RunPiritaLocally { cmd: cmd@ },
            WaxAction::CheckExists { path } => WaxActionModel::CheckExists { path: path@ },
            WaxAction::SaveIndexAndRun { location } => WaxActionModel::SaveIndexAndRun {
                location: location@,
            },
            WaxAction::QueryPirita { command } => WaxActionModel::QueryPirita { command: command@ },
            WaxAction::InstallPiritaAndRun { package, command } =>
                WaxActionModel::InstallPiritaAndRun { package: package@, command: command@ },
            WaxAction::QueryRegistry { command } => WaxActionModel::QueryRegistry {
                command: command@,
            },
            WaxAction::Install { location, package_name, version, download_url, verify_signature } =>
                WaxActionModel::Install {
                location: location@,
                package_name: package_name@,
                version: version@,
                download_url: download_url@,
                verify_signature: *verify_signature,
            },
            WaxAction::RecordAndRun { command, version, package_name, location } =>
                WaxActionModel::RecordAndRun {
                command: command@,
                version: version@,
                package_name: package_name@,
                location: location@,
            },
            WaxAction::Finish => WaxActionModel::Finish,
            WaxAction::Fail(e) => WaxActionModel::Fail(e@),
            WaxAction::Propagate(m) => WaxActionModel::Propagate(m@),
        }
    }
}

/// Which answers a stage waits for.
pub open spec fn accepts(stage: WaxStage, e: WaxEventModel) -> bool {
    match stage {
        WaxStage::WhichIndex | WaxStage::Index => e is IndexEntry || e is NoIndexEntry,
        WaxStage::WhichLocal | WaxStage::Local => e is FoundLocally || e is FoundPiritaLocally
            || e is NotFoundLocally,
        WaxStage::Cache | WaxStage::Reinstall => e is Exists,
        WaxStage::CachedRun | WaxStage::Final => e is Ran,
        WaxStage::Pirita => e is RegistryUnreachable || e is NotInRegistry || e is PiritaPackage,
        WaxStage::PiritaRun => e is Ran || e is PiritaNotInitialized,
        WaxStage::Registry => e is RegistryUnreachable || e is NotInRegistry || e is RegistryCommand,
        WaxStage::Installing => e is Installed,
        WaxStage::Done => false,
    }
}

/// What a run holds at each stage: the cached package once it is needed, the
/// registry's package once it is known, and no stage that asks the registry
/// in offline mode.
pub open spec fn consistent(r: WaxRunModel) -> bool {
    &&& (r.stage is Cache || r.stage is CachedRun || r.stage is Reinstall) ==> r.cached is Some
    &&& (r.stage is Reinstall || r.stage is Installing) ==> r.registry is Some
    &&& (r.stage is Pirita || r.stage is PiritaRun || r.stage is Registry || r.stage is Reinstall
        || r.stage is Installing) ==> !r.opt.offline
}

/// The order in which the stages come.
pub open spec fn stage_rank(s: WaxStage) -> int {
    match s {
        WaxStage::WhichIndex => 0,
        WaxStage::WhichLocal => 1,
        WaxStage::Local => 2,
        WaxStage::Index => 3,
        WaxStage::Cache => 4,
        WaxStage::CachedRun => 5,
        WaxStage::Pirita => 6,
        WaxStage::PiritaRun => 7,
        WaxStage::Registry => 8,
        WaxStage::Reinstall => 9,
        WaxStage::Installing => 10,
        WaxStage::Final => 11,
        WaxStage::Done => 12,
    }
}

/// How `wax` begins: with the `--which` command, with the command to run, or
/// with no command at all.
pub open spec fn spec_start(opt: OptModel, wax_dir: Seq<char>) -> (WaxRunModel, WaxActionModel) {
    let r = WaxRunModel {
        opt,
        command: seq![],
        wax_dir,
        stage: WaxStage::Done,
        cached: None,
        registry: None,
    };
    match opt.which {
        Some(w) => (
            WaxRunModel { command: w, stage: WaxStage::WhichIndex, ..r },
            WaxActionModel::LookUpIndex { command: w },
        ),
        None => match opt.command {
            Some(c) => (
                WaxRunModel { command: c, stage: WaxStage::Local, ..r },
                WaxActionModel::FindLocally { command: c },
            ),
            None => (r, WaxActionModel::Fail(ExecuteErrorModel::NoCommandGiven)),
        },
    }
}

/// Without the registry: run the package of the index's entry, or fail.
pub open spec fn offline_run(r: WaxRunModel) -> (WaxRunModel, WaxActionModel) {
    match r.cached {
        Some((n, v)) => (
            WaxRunModel { stage: WaxStage::Final, ..r },
            WaxActionModel::SaveIndexAndRun { location: pv_dir(r.wax_dir, n, v) },
        ),
        None => (
            WaxRunModel { stage: WaxStage::Done, ..r },
            WaxActionModel::Fail(
                if r.opt.offline {
                    ExecuteErrorModel::CommandNotFoundOfflineModeOfflineFlag(r.command)
                } else {
                    ExecuteErrorModel::CommandNotFoundOfflineMode(r.command)
                },
            ),
        ),
    }
}

/// After the cache: ask the registry, unless in offline mode.
pub open spec fn ask_registry(r: WaxRunModel) -> (WaxRunModel, WaxActionModel) {
    if r.opt.offline {
        offline_run(r)
    } else {
        (
            WaxRunModel { stage: WaxStage::Pirita, ..r },
            WaxActionModel::QueryPirita { command: r.command },
        )
    }
}

/// Install the registry's package under the wax directory.
pub open spec fn install(r: WaxRunModel, name: Seq<char>, v: VersionModel, url: Seq<char>) -> (
    WaxRunModel,
    WaxActionModel,
) {
    (
        WaxRunModel { stage: WaxStage::Installing, registry: Some((name, v, url)), ..r },
        WaxActionModel::Install {
            location: pv_dir(r.wax_dir, name, v),
            package_name: name,
            version: v,
            download_url: url,
            verify_signature: r.opt.verify_signature,
        },
    )
}

/// The end of a run whose outcome is the outcome of `wax`.
pub open spec fn finish(r: WaxRunModel, outcome: Result<(), Seq<char>>) -> (WaxRunModel, WaxActionModel) {
    (
        WaxRunModel { stage: WaxStage::Done, ..r },
        match outcome {
            Ok(()) => WaxActionModel::Finish,
            Err(m) => WaxActionModel::Propagate(m),
        },
    )
}

/// The next stage and action of `wax`, given the answer to the last action.
pub open spec fn spec_step(r: WaxRunModel, e: WaxEventModel) -> (WaxRunModel, WaxActionModel) {
    let done = WaxRunModel { stage: WaxStage::Done, ..r };
    match r.stage {
        WaxStage::WhichIndex => match e {
            WaxEventModel::IndexEntry { package_name, version, .. } => (
                done,
                WaxActionModel::Print { path: pv_dir(r.wax_dir, package_name, version) },
            ),
            _ => (
                WaxRunModel { stage: WaxStage::WhichLocal, ..r },
                WaxActionModel::FindLocally { command: r.command },
            ),
        },
        WaxStage::WhichLocal => match e {
            WaxEventModel::FoundLocally { manifest_dir } => (
                done,
                WaxActionModel::Print { path: manifest_dir },
            ),
            _ => (done, WaxActionModel::Fail(ExecuteErrorModel::CommandNotFound { name: r.command })),
        },
        WaxStage::Local => match e {
            WaxEventModel::FoundLocally { .. } => (
                WaxRunModel { stage: WaxStage::Final, ..r },
                WaxActionModel::RunLocal,
            ),
            WaxEventModel::FoundPiritaLocally { cmd } => (
                WaxRunModel { stage: WaxStage::Final, ..r },
                WaxActionModel::RunPiritaLocally { cmd },
            ),
            _ => (
                WaxRunModel { stage: WaxStage::Index, ..r },
                WaxActionModel::LookUpIndex { command: r.command },
            ),
        },
        WaxStage::Index => match e {
            WaxEventModel::IndexEntry {
                package_name,
                version,
                last_sec,
                last_nsec,
                now_sec,
                now_nsec,
                cooldown,
            } => {
                let r2 = WaxRunModel { cached: Some((package_name, version)), ..r };
                if spec_recently_updated(now_sec, now_nsec, last_sec, last_nsec, cooldown) {
                    (
                        WaxRunModel { stage: WaxStage::Cache, ..r2 },
                        WaxActionModel::CheckExists {
                            path: cached_manifest(r.wax_dir, package_name, version),
                        },
                    )
                } else {
                    ask_registry(r2)
                }
            },
            _ => ask_registry(r),
        },
        WaxStage::Cache => {
            let (n, v) = r.cached->0;
            match e {
                WaxEventModel::Exists(true) => (
                    WaxRunModel { stage: WaxStage::CachedRun, ..r },
                    WaxActionModel::SaveIndexAndRun { location: pv_dir(r.wax_dir, n, v) },
                ),
                _ => ask_registry(r),
            }
        },
        WaxStage::CachedRun => match e {
            WaxEventModel::Ran(Ok(())) => (done, WaxActionModel::Finish),
            _ => ask_registry(r),
        },
        WaxStage::Pirita => match e {
            WaxEventModel::PiritaPackage { package, version, command } => (
                WaxRunModel { stage: WaxStage::PiritaRun, ..r },
                WaxActionModel::InstallPiritaAndRun { package: package + seq!['@'] + version, command },
            ),
            _ => (
                WaxRunModel { stage: WaxStage::Registry, ..r },
                WaxActionModel::QueryRegistry { command: r.command },
            ),
        },
        WaxStage::PiritaRun => match e {
            WaxEventModel::Ran(outcome) => finish(r, outcome),
            _ => (
                WaxRunModel { stage: WaxStage::Registry, ..r },
                WaxActionModel::QueryRegistry { command: r.command },
            ),
        },
        WaxStage::Registry => match e {
            WaxEventModel::RegistryCommand { abi, version, package_name, download_url } => {
                if abi == Some("emscripten"@) && !r.opt.enable_emscripten {
                    (done, WaxActionModel::Fail(ExecuteErrorModel::EmscriptenDisabled { name: r.command }))
                } else {
                    match semver_read(version) {
                        Err(m) => (
                            done,
                            WaxActionModel::Fail(ExecuteErrorModel::ErrorInDataFromRegistry(m)),
                        ),
                        Ok(rv) => match r.cached {
                            Some((n, v)) => (
                                WaxRunModel {
                                    stage: WaxStage::Reinstall,
                                    registry: Some((package_name, rv, download_url)),
                                    ..r
                                },
                                WaxActionModel::CheckExists { path: cached_manifest(r.wax_dir, n, v) },
                            ),
                            None => install(r, package_name, rv, download_url),
                        },
                    }
                }
            },
            WaxEventModel::NotInRegistry => (
                done,
                WaxActionModel::Fail(ExecuteErrorModel::CommandNotFound { name: r.command }),
            ),
            _ => offline_run(r),
        },
        WaxStage::Reinstall => {
            let (n, v) = r.cached->0;
            let (pn, rv, url) = r.registry->0;
            let exists = e->Exists_0;
            if semver_greater(rv, v) || !exists {
                install(r, pn, rv, url)
            } else {
                (
                    WaxRunModel { stage: WaxStage::Final, ..r },
                    WaxActionModel::RecordAndRun {
                        command: r.command,
                        version: rv,
                        package_name: pn,
                        location: pv_dir(r.wax_dir, n, v),
                    },
                )
            }
        },
        WaxStage::Installing => match e {
            WaxEventModel::Installed(Ok(())) => {
                let (pn, rv, url) = r.registry->0;
                (
                    WaxRunModel { stage: WaxStage::Final, ..r },
                    WaxActionModel::RecordAndRun {
                        command: r.command,
                        version: rv,
                        package_name: pn,
                        location: pv_dir(r.wax_dir, pn, rv),
                    },
                )
            },
            WaxEventModel::Installed(Err(m)) => (done, WaxActionModel::Propagate(m)),
            _ => (done, WaxActionModel::Finish),
        },
        WaxStage::Final => match e {
            WaxEventModel::Ran(outcome) => finish(r, outcome),
            _ => (done, WaxActionModel::Finish),
        },
        WaxStage::Done => (done, WaxActionModel::Finish),
    }
}


impl WaxRun {
    /// The run with another stage.
    fn at(self, stage: WaxStage) -> (res: WaxRun)
        ensures
            res@ == (WaxRunModel { stage, ..self@ }),
    {
        WaxRun { stage, ..self }
    }

    /// How `wax` begins, with its options (the current directory already
    /// pre-opened where it is) and the directory of its cache.
    pub fn start(opt: ExecuteOptInner, wax_dir: String) -> (res: (WaxRun, WaxAction))
        ensures
            (res.0@, res.1@) == spec_start(opt@, wax_dir@),
            consistent(res.0@),
    {
        let which = match &opt.which {
            Some(w) => Some(w.clone()),
            None => None,
        };
        let command = match &opt.command {
            Some(c) => Some(c.clone()),
            None => None,
        };
        let run = WaxRun {
            opt,
            command: String::new(),
            wax_dir,
            stage: WaxStage::Done,
            cached: None,
            registry: None,
        };
        assert(run@.command == Seq::<char>::empty());
        match which {
            Some(w) => {
                let action = WaxAction::LookUpIndex { command: w.clone() };
                (WaxRun { command: w, stage: WaxStage::WhichIndex, ..run }, action)
            },
            None => match command {
                Some(c) => {
                    let action = WaxAction::FindLocally { command: c.clone() };
                    (WaxRun { command: c, stage: WaxStage::Local, ..run }, action)
                },
                None => (run, WaxAction::Fail(ExecuteError::NoCommandGiven)),
            },
        }
    }

    /// Whether the run holds what its stage needs (see `consistent`).
    pub fn is_consistent(&self) -> (res: bool)
        ensures
            res == consistent(self@),
    {
        let needs_cached = match self.stage {
            WaxStage::Cache | WaxStage::CachedRun | WaxStage::Reinstall => true,
            _ => false,
        };
        let needs_registry = match self.stage {
            WaxStage::Reinstall | WaxStage::Installing => true,
            _ => false,
        };
        let asks_registry = match self.stage {
            WaxStage::Pirita | WaxStage::PiritaRun | WaxStage::Registry | WaxStage::Reinstall
            | WaxStage::Installing => true,
            _ => false,
        };
        (!needs_cached || self.cached.is_some()) && (!needs_registry || self.registry.is_some())
            && (!asks_registry || !self.opt.offline)
    }

    /// Whether the run waits for this kind of answer.
    pub fn accepts(&self, event: &WaxEvent) -> (res: bool)
        ensures
            res == accepts(self.stage, event@),
    {
        match self.stage {
            WaxStage::WhichIndex | WaxStage::Index => matches!(event, WaxEvent::IndexEntry { .. })
                || matches!(event, WaxEvent::NoIndexEntry),
            WaxStage::WhichLocal | WaxStage::Local => matches!(event, WaxEvent::FoundLocally { .. })
                || matches!(event, WaxEvent::FoundPiritaLocally { .. }) || matches!(
                event,
                WaxEvent::NotFoundLocally
            ),
            WaxStage::Cache | WaxStage::Reinstall => matches!(event, WaxEvent::Exists(_)),
            WaxStage::CachedRun | WaxStage::Final => matches!(event, WaxEvent::Ran(_)),
            WaxStage::Pirita => matches!(event, WaxEvent::RegistryUnreachable) || matches!(
                event,
                WaxEvent::NotInRegistry
            ) || matches!(event, WaxEvent::PiritaPackage { .. }),
            WaxStage::PiritaRun => matches!(event, WaxEvent::Ran(_)) || matches!(
                event,
                WaxEvent::PiritaNotInitialized
            ),
            WaxStage::Registry => matches!(event, WaxEvent::RegistryUnreachable) || matches!(
                event,
                WaxEvent::NotInRegistry
            ) || matches!(event, WaxEvent::RegistryCommand { .. }),
            WaxStage::Installing => matches!(event, WaxEvent::Installed(_)),
            WaxStage::Done => false,
        }
    }

    fn go_offline(self) -> (res: (WaxRun, WaxAction))
        ensures
            (res.0@, res.1@) == offline_run(self@),
    {
        let location = match &self.cached {
            Some((n, v)) => Some(package_version_dir(self.wax_dir.as_str(), n.as_str(), v)),
            None => None,
        };
        match location {
            Some(location) => (self.at(WaxStage::Final), WaxAction::SaveIndexAndRun { location }),
            None => {
                let err = offline_not_found(self.command.as_str(), self.opt.offline);
                (self.at(WaxStage::Done), WaxAction::Fail(err))
            },
        }
    }

    fn go_registry(self) -> (res: (WaxRun, WaxAction))
        ensures
            (res.0@, res.1@) == ask_registry(self@),
    {
        if self.opt.offline {
            self.go_offline()
        } else {
            let command = self.command.clone();
            (self.at(WaxStage::Pirita), WaxAction::QueryPirita { command })
        }
    }

    fn go_install(self, name: String, version: Version, url: String) -> (res: (WaxRun, WaxAction))
        ensures
            (res.0@, res.1@) == install(self@, name@, version@, url@),
    {
        let location = package_version_dir(self.wax_dir.as_str(), name.as_str(), &version);
        let action = WaxAction::Install {
            location,
            package_name: name.clone(),
            version: version.duplicate(),
            download_url: url.clone(),
            verify_signature: self.opt.verify_signature,
        };
        (
            WaxRun { stage: WaxStage::Installing, registry: Some((name, version, url)), ..self },
            action,
        )
    }

    fn go_finish(self, outcome: WorkOutcome) -> (res: (WaxRun, WaxAction))
        ensures
            (res.0@, res.1@) == finish(self@, outcome_view(outcome)),
    {
        let action = match outcome {
            WorkOutcome::Succeeded => WaxAction::Finish,
            WorkOutcome::Failed(m) => WaxAction::Propagate(m),
        };
        (self.at(WaxStage::Done), action)
    }

    fn go_record(self, location: String) -> (res: (WaxRun, WaxAction))
        requires
            self.registry is Some,
        ensures
            res.0@ == (WaxRunModel { stage: WaxStage::Final, ..self@ }),
            ({
                let (pn, rv, url) = self@.registry->0;
                res.1@ == (WaxActionModel::RecordAndRun {
                    command: self@.command,
                    version: rv,
                    package_name: pn,
                    location: location@,
                })
            }),
    {
        let (pn, rv) = match &self.registry {
            Some((pn, rv, _)) => (pn.clone(), rv.duplicate()),
            None => (String::new(), Version::new(0, 0, 0)),
        };
        let action = WaxAction::RecordAndRun {
            command: self.command.clone(),
            version: rv,
            package_name: pn,
            location,
        };
        (self.at(WaxStage::Final), action)
    }

    /// The next stage and action, given the answer to the last action.
    pub fn step(self, event: WaxEvent) -> (res: (WaxRun, WaxAction))
        requires
            consistent(self@),
            accepts(self.stage, event@),
        ensures
            (res.0@, res.1@) == spec_step(self@, event@),
            consistent(res.0@),
    {
        match self.stage {
            WaxStage::WhichIndex => match event {
                WaxEvent::IndexEntry { package_name, version, .. } => {
                    let path = package_version_dir(
                        self.wax_dir.as_str(),
                        package_name.as_str(),
                        &version,
                    );
                    (self.at(WaxStage::Done), WaxAction::Print { path })
                },
                _ => {
                    let command = self.command.clone();
                    (self.at(WaxStage::WhichLocal), WaxAction::FindLocally { command })
                },
            },
            WaxStage::WhichLocal => match event {
                WaxEvent::FoundLocally { manifest_dir } => (
                    self.at(WaxStage::Done),
                    WaxAction::Print { path: manifest_dir },
                ),
                _ => {
                    let name = self.command.clone();
                    (self.at(WaxStage::Done), WaxAction::Fail(ExecuteError::CommandNotFound { name }))
                },
            },
            WaxStage::Local => match event {
                WaxEvent::FoundLocally { .. } => (self.at(WaxStage::Final), WaxAction::RunLocal),
                WaxEvent::FoundPiritaLocally { cmd } => (
                    self.at(WaxStage::Final),
                    WaxAction::RunPiritaLocally { cmd },
                ),
                _ => {
                    let command = self.command.clone();
                    (self.at(WaxStage::Index), WaxAction::LookUpIndex { command })
                },
            },
            WaxStage::Index => match event {
                WaxEvent::IndexEntry {
                    package_name,
                    version,
                    last_sec,
                    last_nsec,
                    now_sec,
                    now_nsec,
                    cooldown,
                } => {
                    let recent = recently_updated(now_sec, now_nsec, last_sec, last_nsec, cooldown);
                    let path = cached_manifest_path(
                        self.wax_dir.as_str(),
                        package_name.as_str(),
                        &version,
                    );
                    let run = WaxRun { cached: Some((package_name, version)), ..self };
                    if recent {
                        (run.at(WaxStage::Cache), WaxAction::CheckExists { path })
                    } else {
                        run.go_registry()
                    }
                },
                _ => self.go_registry(),
            },
            WaxStage::Cache => match event {
                WaxEvent::Exists(true) => {
                    let location = match &self.cached {
                        Some((n, v)) => package_version_dir(self.wax_dir.as_str(), n.as_str(), v),
                        None => String::new(),
                    };
                    (self.at(WaxStage::CachedRun), WaxAction::SaveIndexAndRun { location })
                },
                _ => self.go_registry(),
            },
            WaxStage::CachedRun => match event {
                WaxEvent::Ran(WorkOutcome::Succeeded) => (self.at(WaxStage::Done), WaxAction::Finish),
                _ => self.go_registry(),
            },
            WaxStage::Pirita => match event {
                WaxEvent::PiritaPackage { package, version, command } => {
                    proof {
                        reveal_strlit("@");
                    }
                    assert("@"@ =~= seq!['@']);
                    let ghost want = package@ + seq!['@'] + version@;
                    let package = package.concat("@").concat(version.as_str());
                    assert(package@ =~= want);
                    (
                        self.at(WaxStage::PiritaRun),
                        WaxAction::InstallPiritaAndRun { package, command },
                    )
                },
                _ => {
                    let command = self.command.clone();
                    (self.at(WaxStage::Registry), WaxAction::QueryRegistry { command })
                },
            },
            WaxStage::PiritaRun => match event {
                WaxEvent::Ran(outcome) => self.go_finish(outcome),
                _ => {
                    let command = self.command.clone();
                    (self.at(WaxStage::Registry), WaxAction::QueryRegistry { command })
                },
            },
            WaxStage::Registry => match event {
                WaxEvent::RegistryCommand { abi, version, package_name, download_url } => {
                    let refused = match &abi {
                        Some(a) => str_eq(a.as_str(), "emscripten") && !self.opt.enable_emscripten,
                        None => false,
                    };
                    if refused {
                        let name = self.command.clone();
                        return (
                            self.at(WaxStage::Done),
                            WaxAction::Fail(ExecuteError::EmscriptenDisabled { name }),
                        );
                    }
                    match Version::read(version.as_str()) {
                        Err(m) => (
                            self.at(WaxStage::Done),
                            WaxAction::Fail(ExecuteError::ErrorInDataFromRegistry(m)),
                        ),
                        Ok(rv) => {
                            let path = match &self.cached {
                                Some((n, v)) => Some(
                                    cached_manifest_path(self.wax_dir.as_str(), n.as_str(), v),
                                ),
                                None => None,
                            };
                            match path {
                                Some(path) => (
                                    WaxRun {
                                        stage: WaxStage::Reinstall,
                                        registry: Some((package_name, rv, download_url)),
                                        ..self
                                    },
                                    WaxAction::CheckExists { path },
                                ),
                                None => self.go_install(package_name, rv, download_url),
                            }
                        },
                    }
                },
                WaxEvent::NotInRegistry => {
                    let name = self.command.clone();
                    (self.at(WaxStage::Done), WaxAction::Fail(ExecuteError::CommandNotFound { name }))
                },
                _ => self.go_offline(),
            },
            WaxStage::Reinstall => {
                let exists = match event {
                    WaxEvent::Exists(b) => b,
                    _ => false,
                };
                let (location, reinstall) = match (&self.cached, &self.registry) {
                    (Some((n, v)), Some((_, rv, _))) => (
                        package_version_dir(self.wax_dir.as_str(), n.as_str(), v),
                        needs_reinstall(rv, v, exists),
                    ),
                    _ => (String::new(), false),
                };
                if reinstall {
                    let (pn, rv, url) = match &self.registry {
                        Some((pn, rv, url)) => (pn.clone(), rv.duplicate(), url.clone()),
                        None => (String::new(), Version::new(0, 0, 0), String::new()),
                    };
                    self.go_install(pn, rv, url)
                } else {
                    self.go_record(location)
                }
            },
            WaxStage::Installing => match event {
                WaxEvent::Installed(WorkOutcome::Succeeded) => {
                    let location = match &self.registry {
                        Some((pn, rv, _)) => package_version_dir(
                            self.wax_dir.as_str(),
                            pn.as_str(),
                            rv,
                        ),
                        None => String::new(),
                    };
                    self.go_record(location)
                },
                WaxEvent::Installed(WorkOutcome::Failed(m)) => (
                    self.at(WaxStage::Done),
                    WaxAction::Propagate(m),
                ),
                _ => (self.at(WaxStage::Done), WaxAction::Finish),
            },
            WaxStage::Final => match event {
                WaxEvent::Ran(outcome) => self.go_finish(outcome),
                _ => (self.at(WaxStage::Done), WaxAction::Finish),
            },
            WaxStage::Done => (self.at(WaxStage::Done), WaxAction::Finish),
        }
    }
}


/// Whether an action asks the registry something or installs from it.
pub open spec fn uses_registry(a: WaxActionModel) -> bool {
    a is QueryPirita || a is QueryRegistry || a is InstallPiritaAndRun || a is Install
}

/// Every answer moves a run of `wax` to a later stage, so that a run ends
/// after a bounded number of steps.
pub proof fn law_stage_advances(r: WaxRunModel, e: WaxEventModel)
    requires
        consistent(r),
        accepts(r.stage, e),
    ensures
        stage_rank(spec_step(r, e).0.stage) > stage_rank(r.stage),
{
}

/// The stage of a run never asks for what the run does not hold, and a run in
/// offline mode stays out of the stages that ask the registry.
pub proof fn law_consistency_kept(r: WaxRunModel, e: WaxEventModel)
    requires
        consistent(r),
        accepts(r.stage, e),
    ensures
        consistent(spec_step(r, e).0),
        spec_step(r, e).0.opt == r.opt,
        spec_step(r, e).0.command == r.command,
{
}

/// In offline mode `wax` neither asks the registry nor installs from it.
pub proof fn law_offline_never_uses_registry(opt: OptModel, wax_dir: Seq<char>, r: WaxRunModel, e: WaxEventModel)
    requires
        opt.offline,
        consistent(r),
        r.opt.offline,
        accepts(r.stage, e),
    ensures
        !uses_registry(spec_start(opt, wax_dir).1),
        spec_start(opt, wax_dir).0.opt.offline,
        !uses_registry(spec_step(r, e).1),
{
}

/// Without `--emscripten`, a command that the registry gives with the
/// Emscripten ABI is refused, and nothing is installed or run.
pub proof fn law_emscripten_refused(
    r: WaxRunModel,
    version: Seq<char>,
    package_name: Seq<char>,
    download_url: Seq<char>,
)
    requires
        r.stage is Registry,
        !r.opt.enable_emscripten,
    ensures
        ({
            let e = WaxEventModel::RegistryCommand {
                abi: Some("emscripten"@),
                version,
                package_name,
                download_url,
            };
            spec_step(r, e).1 == WaxActionModel::Fail(
                ExecuteErrorModel::EmscriptenDisabled { name: r.command },
            ) && spec_step(r, e).0.stage is Done
        }),
{
}

/// With `--which`, `wax` only tells where the command lives: it runs nothing,
/// installs nothing and asks the registry nothing.
pub proof fn law_which_runs_nothing(opt: OptModel, wax_dir: Seq<char>, r: WaxRunModel, e: WaxEventModel)
    requires
        opt.which is Some,
        r.stage is WhichIndex || r.stage is WhichLocal,
        accepts(r.stage, e),
    ensures
        spec_start(opt, wax_dir).1 is LookUpIndex,
        spec_start(opt, wax_dir).0.stage is WhichIndex,
        ({
            let (next, a) = spec_step(r, e);
            (a is Print || a is Fail) && next.stage is Done || a is FindLocally
                && next.stage is WhichLocal
        }),
{
}

/// A command found in the current directory is run from there: neither the
/// index nor the registry is asked.
pub proof fn law_local_command_first(r: WaxRunModel, manifest_dir: Seq<char>)
    requires
        r.stage is Local,
    ensures
        spec_step(r, WaxEventModel::FoundLocally { manifest_dir }).1 is RunLocal,
        spec_step(r, WaxEventModel::FoundLocally { manifest_dir }).0.stage is Final,
{
}

} // verus!
