//! The lockfile: the exact modules and commands that a package's dependencies
//! resolved to, and the migration of lockfiles written by older versions.

pub mod migrate;

use vstd::prelude::*;
use vstd::string::StringExecFns;
use crate::abi::Abi;
use crate::assoc::{key_index, lemma_key_index, lemma_key_index_same_keys, lookup};
use crate::config::{join_path, spec_join};
use crate::legacy_lockfile::Module;
use crate::text::{file_name, nat_decimal, opt_view, push_decimal, spec_file_name, spec_split, split_on};

verus! {

/// A semantic version: `major.minor.patch`, with optional pre-release and
/// build metadata (empty when absent).
#[derive(Debug, Clone, PartialEq, Eq)]
pub struct Version {
    pub major: u64,
    pub minor: u64,
    pub patch: u64,
    pub pre: String,
    pub build: String,
}

pub struct VersionModel {
    pub major: u64,
    pub minor: u64,
    pub patch: u64,
    pub pre: Seq<char>,
    pub build: Seq<char>,
}

impl View for Version {
    type V = VersionModel;

    open spec fn view(&self) -> VersionModel {
        VersionModel {
            major: self.major,
            minor: self.minor,
            patch: self.patch,
            pre: self.pre@,
            build: self.build@,
        }
    }
}

pub open spec fn opt_version_view(v: Option<Version>) -> Option<VersionModel> {
    match v {
        Some(x) => Some(x@),
        None => None,
    }
}

/// What `semver::Version::parse` makes of a text: the version it reads, or
/// the message of its error.
pub uninterp spec fn semver_read(text: Seq<char>) -> Result<VersionModel, Seq<char>>;

/// The version that `semver::Version::parse` reads from a text, if any.
pub open spec fn semver_parse(text: Seq<char>) -> Option<VersionModel> {
    match semver_read(text) {
        Ok(v) => Some(v),
        Err(_) => None,
    }
}

/// A version, or the reason why a text is not one, by its view.
pub open spec fn read_view(r: Result<Version, String>) -> Result<VersionModel, Seq<char>> {
    match r {
        Ok(v) => Ok(v@),
        Err(m) => Err(m@),
    }
}

/// Parses a version with `semver::Version::parse`, keeping its numbers and
/// the text of its pre-release and build parts; where it refuses the text,
/// the message of its error. Claimed: the outcome, message included,
/// depends on the text alone.
#[verifier::external_body]
fn parse_version(text: &str) -> (res: Result<Version, String>)
    ensures
        read_view(res) == semver_read(text@),
{
    match semver::Version::parse(text) {
        Ok(v) => Ok(
            Version {
                major: v.major,
                minor: v.minor,
                patch: v.patch,
                pre: v.pre.as_str().to_string(),
                build: v.build.as_str().to_string(),
            },
        ),
        Err(e) => Err(e.to_string()),
    }
}

/// How a version is written: `major.minor.patch`, then `-pre` and `+build`
/// when those are present.
pub open spec fn version_text(v: VersionModel) -> Seq<char> {
    nat_decimal(v.major as nat) + seq!['.'] + nat_decimal(v.minor as nat) + seq!['.'] + nat_decimal(
        v.patch as nat,
    ) + (if v.pre.len() > 0 { seq!['-'] + v.pre } else { seq![] }) + (if v.build.len() > 0 {
        seq!['+'] + v.build
    } else {
        seq![]
    })
}

impl Version {
    /// A release version, with no pre-release or build part.
    pub fn new(major: u64, minor: u64, patch: u64) -> (res: Version)
        ensures
            res@ == (VersionModel { major, minor, patch, pre: seq![], build: seq![] }),
    {
        let res = Version { major, minor, patch, pre: String::new(), build: String::new() };
        assert(res@.pre =~= seq![]);
        assert(res@.build =~= seq![]);
        res
    }

    /// Parses a version.
    pub fn parse(text: &str) -> (res: Option<Version>)
        ensures
            opt_version_view(res) == semver_parse(text@),
    {
        match parse_version(text) {
            Ok(v) => Some(v),
            Err(_) => None,
        }
    }

    /// Parses a version, or gives the reason why the text is not one.
    pub fn read(text: &str) -> (res: Result<Version, String>)
        ensures
            read_view(res) == semver_read(text@),
    {
        parse_version(text)
    }

    /// The version as it is written.
    pub fn to_string(&self) -> (res: String)
        ensures
            res@ == version_text(self@),
    {
        proof {
            reveal_strlit(".");
            reveal_strlit("-");
            reveal_strlit("+");
        }
        let mut s = String::new();
        push_decimal(&mut s, self.major);
        s.append(".");
        push_decimal(&mut s, self.minor);
        s.append(".");
        push_decimal(&mut s, self.patch);
        let ghost mid = s@;
        if self.pre.as_str().unicode_len() > 0 {
            s.append("-");
            s.append(self.pre.as_str());
        }
        let ghost mid2 = s@;
        assert(mid2 == mid + (if self@.pre.len() > 0 { seq!['-'] + self@.pre } else { seq![] }));
        if self.build.as_str().unicode_len() > 0 {
            s.append("+");
            s.append(self.build.as_str());
        }
        assert(s@ =~= version_text(self@));
        s
    }

    /// Whether two versions are the same.
    pub fn same_as(&self, other: &Version) -> (res: bool)
        ensures
            res == (self@ == other@),
    {
        self.major == other.major && self.minor == other.minor && self.patch == other.patch
            && self.pre == other.pre && self.build == other.build
    }

    /// An independent copy.
    pub fn duplicate(&self) -> (res: Version)
        ensures
            res@ == self@,
    {
        Version {
            major: self.major,
            minor: self.minor,
            patch: self.patch,
            pre: self.pre.clone(),
            build: self.build.clone(),
        }
    }
}


/// A command of a package manifest, as the lockfile reads it: its name, the
/// module it runs, its main arguments, and the package that provides it
/// (`"name version"`, or just a name), if any.
#[derive(Debug, Clone, PartialEq, Eq)]
pub struct Command {
    pub name: String,
    pub module: String,
    pub main_args: Option<String>,
    pub package: Option<String>,
}

/// Describes a command for a wapm module
#[derive(Debug, Clone, PartialEq, Eq)]
pub struct LockfileCommand {
    pub name: String,
    pub package_name: String,
    pub package_version: Version,
    pub module: String,
    pub is_top_level_dependency: bool,
    pub main_args: Option<String>,
}

pub struct LockfileCommandModel {
    pub name: Seq<char>,
    pub package_name: Seq<char>,
    pub package_version: VersionModel,
    pub module: Seq<char>,
    pub is_top_level_dependency: bool,
    pub main_args: Option<Seq<char>>,
}

impl View for LockfileCommand {
    type V = LockfileCommandModel;

    open spec fn view(&self) -> LockfileCommandModel {
        LockfileCommandModel {
            name: self.name@,
            package_name: self.package_name@,
            package_version: self.package_version@,
            module: self.module@,
            is_top_level_dependency: self.is_top_level_dependency,
            main_args: opt_view(self.main_args),
        }
    }
}

fn copy_opt_string(o: &Option<String>) -> (res: Option<String>)
    ensures
        opt_view(res) == opt_view(*o),
{
    match o {
        Some(s) => Some(s.clone()),
        None => None,
    }
}

impl LockfileCommand {
    /// An independent copy.
    pub fn duplicate(&self) -> (res: LockfileCommand)
        ensures
            res@ == self@,
    {
        LockfileCommand {
            name: self.name.clone(),
            package_name: self.package_name.clone(),
            package_version: self.package_version.duplicate(),
            module: self.module.clone(),
            is_top_level_dependency: self.is_top_level_dependency,
            main_args: copy_opt_string(&self.main_args),
        }
    }
}

/// Why a command could not go into the lockfile.
#[derive(Debug, Clone, PartialEq, Eq)]
pub enum Error {
    /// The module for this command does not exist.
    ModuleForCommandDoesNotExist,
    /// Could not parse the package name and version (first) for the command (second).
    CouldNotParsePackageVersionForCommand(String, String),
}

pub enum ErrorModel {
    ModuleForCommandDoesNotExist,
    CouldNotParsePackageVersionForCommand(Seq<char>, Seq<char>),
}

impl View for Error {
    type V = ErrorModel;

    open spec fn view(&self) -> ErrorModel {
        match self {
            Error::ModuleForCommandDoesNotExist => ErrorModel::ModuleForCommandDoesNotExist,
            Error::CouldNotParsePackageVersionForCommand(p, c) =>
                ErrorModel::CouldNotParsePackageVersionForCommand(p@, c@),
        }
    }
}

/// The package field of a command names a version that can be read, when it
/// names one.
pub open spec fn command_version_parses(package: Option<Seq<char>>) -> bool {
    match package {
        Some(p) => spec_split(p, ' ').len() == 2 ==> semver_parse(spec_split(p, ' ')[1]) is Some,
        None => true,
    }
}

/// The lockfile entry for a command: the package that the command names
/// (`"name version"`, or a name with the local version), or else the local
/// package. Any other number of space-separated parts is an error.
pub open spec fn spec_from_command(
    local_name: Seq<char>,
    local_version: VersionModel,
    c: (Seq<char>, Seq<char>, Option<Seq<char>>, Option<Seq<char>>),
) -> Result<LockfileCommandModel, ErrorModel> {
    let (name, module, main_args, package) = c;
    let entry = |pn: Seq<char>, pv: VersionModel|
        LockfileCommandModel {
            name,
            package_name: pn,
            package_version: pv,
            module,
            is_top_level_dependency: true,
            main_args,
        };
    match package {
        None => Ok(entry(local_name, local_version)),
        Some(p) => {
            let parts = spec_split(p, ' ');
            if parts.len() == 2 {
                Ok(entry(parts[0], semver_parse(parts[1])->Some_0))
            } else if parts.len() == 1 {
                Ok(entry(parts[0], local_version))
            } else {
                Err(ErrorModel::CouldNotParsePackageVersionForCommand(p, name))
            }
        },
    }
}

pub open spec fn command_view(c: Command) -> (
    Seq<char>,
    Seq<char>,
    Option<Seq<char>>,
    Option<Seq<char>>,
) {
    (c.name@, c.module@, opt_view(c.main_args), opt_view(c.package))
}

pub open spec fn command_result_view(r: Result<LockfileCommand, Error>) -> Result<
    LockfileCommandModel,
    ErrorModel,
> {
    match r {
        Ok(c) => Ok(c@),
        Err(e) => Err(e@),
    }
}

impl LockfileCommand {
    /// The lockfile entry for a command of the package `local_package_name`
    /// at `local_package_version`.
    pub fn from_command(
        local_package_name: &str,
        local_package_version: Version,
        command: &Command,
    ) -> (res: Result<LockfileCommand, Error>)
        requires
            command_version_parses(opt_view(command.package)),
        ensures
            command_result_view(res) == spec_from_command(
                local_package_name@,
                local_package_version@,
                command_view(*command),
            ),
    {
        let (package_name, package_version) = match &command.package {
            None => (String::from_str(local_package_name), local_package_version),
            Some(package_string) => {
                let split = split_on(package_string.as_str(), ' ');
                assert(split@.map_values(|p: String| p@).len() == split@.len());
                if split.len() == 2 {
                    assert(split@[0]@ == spec_split(package_string@, ' ')[0]);
                    assert(split@[1]@ == spec_split(package_string@, ' ')[1]);
                    match parse_version(split[1].as_str()) {
                        Ok(v) => (split[0].clone(), v),
                        Err(_) => {
                            assert(false);
                            (String::new(), local_package_version)
                        },
                    }
                } else if split.len() == 1 {
                    assert(split@[0]@ == spec_split(package_string@, ' ')[0]);
                    (split[0].clone(), local_package_version)
                } else {
                    return Err(
                        Error::CouldNotParsePackageVersionForCommand(
                            package_string.clone(),
                            command.name.clone(),
                        ),
                    );
                }
            },
        };
        Ok(
            LockfileCommand {
                name: command.name.clone(),
                package_name,
                package_version,
                module: command.module.clone(),
                main_args: copy_opt_string(&command.main_args),
                is_top_level_dependency: true,
            },
        )
    }

    /// The lockfile entry for a command, or `None` where the command names a
    /// package version that cannot be read.
    pub fn checked_from_command(
        local_package_name: &str,
        local_package_version: Version,
        command: &Command,
    ) -> (res: Option<Result<LockfileCommand, Error>>)
        ensures
            res is None <==> !command_version_parses(opt_view(command.package)),
            res matches Some(r) ==> command_result_view(r) == spec_from_command(
                local_package_name@,
                local_package_version@,
                command_view(*command),
            ),
    {
        if let Some(package_string) = &command.package {
            let split = split_on(package_string.as_str(), ' ');
            assert(split@.map_values(|p: String| p@).len() == split@.len());
            if split.len() == 2 {
                assert(split@[1]@ == spec_split(package_string@, ' ')[1]);
                if parse_version(split[1].as_str()).is_err() {
                    return None;
                }
            }
        }
        Some(LockfileCommand::from_command(local_package_name, local_package_version, command))
    }
}


/// legacy Lockfile module struct; which is only used to parse legacy lockfiles which get
/// transformed into up to date ones (V1, V2)
#[derive(Debug, Clone, PartialEq, Eq)]
pub struct LockfileModuleV2 {
    pub name: String,
    pub package_version: String,
    pub package_name: String,
    pub source: String,
    pub resolved: String,
    pub abi: Abi,
    pub entry: String,
}

/// legacy Lockfile module struct; which is only used to parse legacy lockfiles which get
/// transformed into up to date ones (V3)
#[derive(Debug, Clone, PartialEq, Eq)]
pub struct LockfileModuleV3 {
    pub name: String,
    pub package_version: String,
    pub package_name: String,
    pub source: String,
    pub resolved: String,
    pub abi: Abi,
    /// The entry is where the wasm module lives
    pub entry: String,
    /// The root is where the manifest lives
    pub root: String,
    /// The hash of the wasm module cached here for faster startup time
    pub prehashed_module_key: Option<String>,
}

/// The latest Lockfile module struct (V4)
/// It contains data relating to the Wasm module itself
#[derive(Debug, Clone, PartialEq, Eq)]
pub struct LockfileModule {
    pub name: String,
    pub package_version: String,
    pub package_name: String,
    pub package_path: String,
    pub resolved: String,
    pub resolved_source: String,
    pub abi: Abi,
    /// The source path is where the wasm module lives
    pub source: String,
    /// The hash of the wasm module cached here for faster startup time
    pub prehashed_module_key: Option<String>,
}

pub struct ModuleV2Model {
    pub name: Seq<char>,
    pub package_version: Seq<char>,
    pub package_name: Seq<char>,
    pub source: Seq<char>,
    pub resolved: Seq<char>,
    pub abi: Abi,
    pub entry: Seq<char>,
}

pub struct ModuleV3Model {
    pub name: Seq<char>,
    pub package_version: Seq<char>,
    pub package_name: Seq<char>,
    pub source: Seq<char>,
    pub resolved: Seq<char>,
    pub abi: Abi,
    pub entry: Seq<char>,
    pub root: Seq<char>,
    pub prehashed_module_key: Option<Seq<char>>,
}

pub struct ModuleModel {
    pub name: Seq<char>,
    pub package_version: Seq<char>,
    pub package_name: Seq<char>,
    pub package_path: Seq<char>,
    pub resolved: Seq<char>,
    pub resolved_source: Seq<char>,
    pub abi: Abi,
    pub source: Seq<char>,
    pub prehashed_module_key: Option<Seq<char>>,
}

impl View for LockfileModuleV2 {
    type V = ModuleV2Model;

    open spec fn view(&self) -> ModuleV2Model {
        ModuleV2Model {
            name: self.name@,
            package_version: self.package_version@,
            package_name: self.package_name@,
            source: self.source@,
            resolved: self.resolved@,
            abi: self.abi,
            entry: self.entry@,
        }
    }
}

impl View for LockfileModuleV3 {
    type V = ModuleV3Model;

    open spec fn view(&self) -> ModuleV3Model {
        ModuleV3Model {
            name: self.name@,
            package_version: self.package_version@,
            package_name: self.package_name@,
            source: self.source@,
            resolved: self.resolved@,
            abi: self.abi,
            entry: self.entry@,
            root: self.root@,
            prehashed_module_key: opt_view(self.prehashed_module_key),
        }
    }
}

impl View for LockfileModule {
    type V = ModuleModel;

    open spec fn view(&self) -> ModuleModel {
        ModuleModel {
            name: self.name@,
            package_version: self.package_version@,
            package_name: self.package_name@,
            package_path: self.package_path@,
            resolved: self.resolved@,
            resolved_source: self.resolved_source@,
            abi: self.abi,
            source: self.source@,
            prehashed_module_key: opt_view(self.prehashed_module_key),
        }
    }
}

/// Name of the directory that installed packages go in.
pub const PACKAGES_DIR_NAME: &'static str = "wapm_packages";

impl LockfileModule {
    /// The source that the lockfile records for a module of a downloaded
    /// package: the module's path as the manifest gives it, where that path
    /// exists under the manifest's directory; else, for packages published
    /// before sources kept their directories, its file name.
    pub fn recorded_source(module_source: &str, new_style_exists: bool) -> (res: String)
        requires
            new_style_exists || spec_file_name(module_source@) is Some,
        ensures
            res@ == (if new_style_exists {
                module_source@
            } else {
                spec_file_name(module_source@)->Some_0
            }),
    {
        if new_style_exists {
            String::from_str(module_source)
        } else {
            match file_name(module_source) {
                Some(n) => n,
                None => String::new(),
            }
        }
    }

    /// The lockfile record of a module of a downloaded package, given whether
    /// its path exists under the manifest's directory and the hash of its
    /// file, if one was made.
    pub fn from_module(
        name: &str,
        version: &Version,
        module: &Module,
        download_url: &str,
        new_style_exists: bool,
        prehashed_module_key: Option<String>,
    ) -> (res: LockfileModule)
        requires
            new_style_exists || spec_file_name(module.source@) is Some,
        ensures
            res@ == (ModuleModel {
                name: module.name@,
                package_version: version_text(version@),
                package_name: name@,
                package_path: name@ + seq!['@'] + version_text(version@),
                resolved: download_url@,
                resolved_source: "registry+"@ + module.name@,
                abi: module.abi,
                source: if new_style_exists {
                    module.source@
                } else {
                    spec_file_name(module.source@)->Some_0
                },
                prehashed_module_key: opt_view(prehashed_module_key),
            }),
    {
        proof {
            reveal_strlit("@");
        }
        assert("@"@ =~= seq!['@']);
        let source = LockfileModule::recorded_source(module.source.as_str(), new_style_exists);
        let v = version.to_string();
        let package_path = String::from_str(name).concat("@").concat(v.as_str());
        assert(package_path@ =~= name@ + seq!['@'] + version_text(version@));
        LockfileModule {
            name: module.name.clone(),
            package_version: v.clone(),
            package_name: String::from_str(name),
            package_path,
            resolved: String::from_str(download_url),
            resolved_source: String::from_str("registry+").concat(module.name.as_str()),
            abi: module.abi,
            source,
            prehashed_module_key,
        }
    }

    /// The lockfile record of a module of a local package, given the hash of
    /// its file, if one was made.
    pub fn from_local_module(
        name: &str,
        version: &Version,
        module: &Module,
        prehashed_module_key: Option<String>,
    ) -> (res: LockfileModule)
        ensures
            res@ == (ModuleModel {
                name: module.name@,
                package_version: version_text(version@),
                package_name: name@,
                package_path: name@ + seq!['@'] + version_text(version@),
                resolved: "local"@,
                resolved_source: "local"@,
                abi: module.abi,
                source: module.source@,
                prehashed_module_key: opt_view(prehashed_module_key),
            }),
    {
        proof {
            reveal_strlit("@");
        }
        assert("@"@ =~= seq!['@']);
        let v = version.to_string();
        let package_path = String::from_str(name).concat("@").concat(v.as_str());
        assert(package_path@ =~= name@ + seq!['@'] + version_text(version@));
        LockfileModule {
            name: module.name.clone(),
            package_version: v.clone(),
            package_name: String::from_str(name),
            package_path,
            resolved: String::from_str("local"),
            resolved_source: String::from_str("local"),
            abi: module.abi,
            source: String::from_str(module.source.as_str()),
            prehashed_module_key,
        }
    }

    /// Returns the full, absolute path to the WASM module
    pub fn get_canonical_source_path_from_lockfile_dir(&self, lockfile_dir: String) -> (res: String)
        ensures
            res@ == spec_join(
                spec_join(spec_join(lockfile_dir@, "wapm_packages"@), self.package_path@),
                self.source@,
            ),
    {
        let dir = join_path(lockfile_dir.as_str(), PACKAGES_DIR_NAME);
        let dir = join_path(dir.as_str(), self.package_path.as_str());
        join_path(dir.as_str(), self.source.as_str())
    }
}

/// Package name, then version, then module name, to a module.
pub type ModuleTable<M> = Vec<(String, Vec<(Version, Vec<(String, M)>)>)>;

pub type ModuleTableModel<M> = Seq<(Seq<char>, Seq<(VersionModel, Seq<(Seq<char>, M)>)>)>;

pub open spec fn names_view<M: View>(v: Seq<(String, M)>) -> Seq<(Seq<char>, M::V)> {
    v.map_values(|e: (String, M)| (e.0@, e.1@))
}

pub open spec fn versions_view<M: View>(v: Seq<(Version, Vec<(String, M)>)>) -> Seq<
    (VersionModel, Seq<(Seq<char>, M::V)>),
> {
    v.map_values(|e: (Version, Vec<(String, M)>)| (e.0@, names_view(e.1@)))
}

pub open spec fn table_view<M: View>(v: Seq<(String, Vec<(Version, Vec<(String, M)>)>)>) -> ModuleTableModel<M::V> {
    v.map_values(|e: (String, Vec<(Version, Vec<(String, M)>)>)| (e.0@, versions_view(e.1@)))
}

pub open spec fn commands_view(v: Seq<(String, LockfileCommand)>) -> Seq<(Seq<char>, LockfileCommandModel)> {
    names_view(v)
}

/// The lockfile for versions 2 and below.
#[derive(Debug, Clone, PartialEq, Eq)]
pub struct LockfileV2 {
    /// PackageName -> VersionNumber -> ModuleName -> Module
    pub modules: ModuleTable<LockfileModuleV2>,
    /// CommandName -> Command
    pub commands: Vec<(String, LockfileCommand)>,
}

/// The lockfile of version 3.
#[derive(Debug, Clone, PartialEq, Eq)]
pub struct LockfileV3 {
    pub modules: ModuleTable<LockfileModuleV3>,
    pub commands: Vec<(String, LockfileCommand)>,
}

/// The latest Lockfile version
#[derive(Debug, Clone, PartialEq, Eq)]
pub struct Lockfile {
    pub modules: ModuleTable<LockfileModule>,
    pub commands: Vec<(String, LockfileCommand)>,
}

/// Why a lookup in the lockfile failed.
#[derive(Debug, Clone, PartialEq, Eq)]
pub enum LockfileError {
    CommandNotFound(String),
    /// Module (third) of package (first) at version (second) was not found.
    ModuleForPackageVersionNotFound(String, String, String),
    PackageWithVersionNotFoundWhenFindingModule(String, String, String),
    VersionNotFoundForPackageWhenFindingModule(String, String, String),
    MissingLockfile,
    FileIoErrorReadingLockfile(String),
    TomlParseError(String),
}

impl Lockfile {
    /// The command with the given name.
    pub fn get_command(&self, command_name: &str) -> (res: Result<&LockfileCommand, LockfileError>)
        ensures
            lookup(commands_view(self.commands@), command_name@) matches Some(c) ==> (res matches Ok(
                r,
            ) && r@ == c),
            lookup(commands_view(self.commands@), command_name@) is None ==> (res matches Err(
                LockfileError::CommandNotFound(n),
            ) && n@ == command_name@),
    {
        match find_name(&self.commands, command_name) {
            Some(i) => {
                assert(commands_view(self.commands@)[i as int].1 == self.commands@[i as int].1@);
                Ok(&self.commands[i].1)
            },
            None => Err(LockfileError::CommandNotFound(String::from_str(command_name))),
        }
    }
}

/// Position of the entry under a name.
pub fn find_name<M: View>(v: &Vec<(String, M)>, name: &str) -> (res: Option<usize>)
    ensures
        res is None ==> key_index(names_view(v@), name@) == -1,
        res matches Some(i) ==> key_index(names_view(v@), name@) == i && i < v@.len(),
{
    let ghost nv = names_view(v@);
    let key = String::from_str(name);
    proof {
        lemma_key_index(nv, name@);
    }
    for i in 0..v.len()
        invariant
            nv == names_view(v@),
            key@ == name@,
            forall|j: int| 0 <= j < i ==> nv[j].0 != name@,
    {
        assert(nv[i as int] == (v@[i as int].0@, v@[i as int].1@));
        if v[i].0 == key {
            proof {
                lemma_key_index(nv, name@);
            }
            return Some(i);
        }
    }
    proof {
        lemma_key_index(nv, name@);
    }
    None
}

/// Position of the entry under a version.
pub fn find_version<M: View>(v: &Vec<(Version, Vec<(String, M)>)>, version: &Version) -> (res: Option<
    usize,
>)
    ensures
        res is None ==> key_index(versions_view(v@), version@) == -1,
        res matches Some(i) ==> key_index(versions_view(v@), version@) == i && i < v@.len(),
{
    let ghost nv = versions_view(v@);
    proof {
        lemma_key_index(nv, version@);
    }
    for i in 0..v.len()
        invariant
            nv == versions_view(v@),
            forall|j: int| 0 <= j < i ==> nv[j].0 != version@,
    {
        assert(nv[i as int].0 == v@[i as int].0@);
        if v[i].0.same_as(version) {
            proof {
                lemma_key_index(nv, version@);
            }
            return Some(i);
        }
    }
    proof {
        lemma_key_index(nv, version@);
    }
    None
}

pub enum LockfileErrorModel {
    CommandNotFound(Seq<char>),
    ModuleForPackageVersionNotFound(Seq<char>, Seq<char>, Seq<char>),
    PackageWithVersionNotFoundWhenFindingModule(Seq<char>, Seq<char>, Seq<char>),
    VersionNotFoundForPackageWhenFindingModule(Seq<char>, Seq<char>, Seq<char>),
    MissingLockfile,
    FileIoErrorReadingLockfile(Seq<char>),
    TomlParseError(Seq<char>),
}

impl View for LockfileError {
    type V = LockfileErrorModel;

    open spec fn view(&self) -> LockfileErrorModel {
        match self {
            LockfileError::CommandNotFound(a) => LockfileErrorModel::CommandNotFound(a@),
            LockfileError::ModuleForPackageVersionNotFound(a, b, c) =>
                LockfileErrorModel::ModuleForPackageVersionNotFound(a@, b@, c@),
            LockfileError::PackageWithVersionNotFoundWhenFindingModule(a, b, c) =>
                LockfileErrorModel::PackageWithVersionNotFoundWhenFindingModule(a@, b@, c@),
            LockfileError::VersionNotFoundForPackageWhenFindingModule(a, b, c) =>
                LockfileErrorModel::VersionNotFoundForPackageWhenFindingModule(a@, b@, c@),
            LockfileError::MissingLockfile => LockfileErrorModel::MissingLockfile,
            LockfileError::FileIoErrorReadingLockfile(a) =>
                LockfileErrorModel::FileIoErrorReadingLockfile(a@),
            LockfileError::TomlParseError(a) => LockfileErrorModel::TomlParseError(a@),
        }
    }
}

/// Looking a module up by package name, then version, then module name; each
/// missing level has its own error, which names all three.
pub open spec fn spec_get_module(
    table: ModuleTableModel<ModuleModel>,
    package_name: Seq<char>,
    version: VersionModel,
    module_name: Seq<char>,
) -> Result<ModuleModel, LockfileErrorModel> {
    let v = version_text(version);
    match lookup(table, package_name) {
        None => Err(
            LockfileErrorModel::PackageWithVersionNotFoundWhenFindingModule(
                package_name,
                v,
                module_name,
            ),
        ),
        Some(versions) => match lookup(versions, version) {
            None => Err(
                LockfileErrorModel::VersionNotFoundForPackageWhenFindingModule(
                    package_name,
                    v,
                    module_name,
                ),
            ),
            Some(modules) => match lookup(modules, module_name) {
                None => Err(
                    LockfileErrorModel::ModuleForPackageVersionNotFound(package_name, v, module_name),
                ),
                Some(m) => Ok(m),
            },
        },
    }
}

impl Lockfile {
    /// The module of a package at a version.
    pub fn get_module(&self, package_name: &str, package_version: &Version, module_name: &str) -> (res:
        Result<&LockfileModule, LockfileError>)
        ensures
            match res {
                Ok(m) => spec_get_module(
                    table_view(self.modules@),
                    package_name@,
                    package_version@,
                    module_name@,
                ) == Ok::<ModuleModel, LockfileErrorModel>(m@),
                Err(e) => spec_get_module(
                    table_view(self.modules@),
                    package_name@,
                    package_version@,
                    module_name@,
                ) == Err::<ModuleModel, LockfileErrorModel>(e@),
            },
    {
        let ghost t = table_view(self.modules@);
        let pi = match find_name(&self.modules, package_name) {
            Some(i) => i,
            None => {
                proof {
                    lemma_key_index_same_keys(names_view(self.modules@), t, package_name@);
                }
                return Err(
                    LockfileError::PackageWithVersionNotFoundWhenFindingModule(
                        String::from_str(package_name),
                        package_version.to_string(),
                        String::from_str(module_name),
                    ),
                );
            },
        };
        proof {
            lemma_key_index_same_keys(names_view(self.modules@), t, package_name@);
        }
        let versions = &self.modules[pi].1;
        assert(t[pi as int].1 == versions_view(versions@));
        let vi = match find_version(versions, package_version) {
            Some(i) => i,
            None => {
                return Err(
                    LockfileError::VersionNotFoundForPackageWhenFindingModule(
                        String::from_str(package_name),
                        package_version.to_string(),
                        String::from_str(module_name),
                    ),
                );
            },
        };
        let modules = &versions[vi].1;
        match find_name(modules, module_name) {
            Some(mi) => Ok(&modules[mi].1),
            None => Err(
                LockfileError::ModuleForPackageVersionNotFound(
                    String::from_str(package_name),
                    package_version.to_string(),
                    String::from_str(module_name),
                ),
            ),
        }
    }

    /// Looks up the prehashed cache key based on data in the Command
    pub fn get_prehashed_cache_key_from_command(&self, command: &LockfileCommand) -> (res: Option<
        String,
    >)
        ensures
            opt_view(res) == match spec_get_module(
                table_view(self.modules@),
                command.package_name@,
                command.package_version@,
                command.module@,
            ) {
                Ok(m) => m.prehashed_module_key,
                Err(_) => None,
            },
    {
        match self.get_module(
            command.package_name.as_str(),
            &command.package_version,
            command.module.as_str(),
        ) {
            Ok(m) => copy_opt_string(&m.prehashed_module_key),
            Err(_) => None,
        }
    }
}


/// A row of the table of installed modules: package, version, module, ABI.
pub type ModuleRow = (Seq<char>, Seq<char>, Seq<char>, Seq<char>);

/// The rows of the modules of one version of a package.
pub open spec fn module_rows_of(p: Seq<char>, v: VersionModel, ms: Seq<(Seq<char>, ModuleModel)>) -> Seq<
    ModuleRow,
> {
    ms.map_values(|m: (Seq<char>, ModuleModel)| (p, version_text(v), m.0, m.1.abi.spec_name()))
}

/// The rows of the versions of a package.
pub open spec fn version_rows(p: Seq<char>, vs: Seq<(VersionModel, Seq<(Seq<char>, ModuleModel)>)>) -> Seq<
    ModuleRow,
>
    decreases vs.len(),
{
    if vs.len() == 0 {
        seq![]
    } else {
        version_rows(p, vs.drop_last()) + module_rows_of(p, vs.last().0, vs.last().1)
    }
}

/// The rows of the table of installed modules: for each package, each of its
/// versions and each module of that version, in the lockfile's order.
pub open spec fn spec_module_rows(t: ModuleTableModel<ModuleModel>) -> Seq<ModuleRow>
    decreases t.len(),
{
    if t.len() == 0 {
        seq![]
    } else {
        spec_module_rows(t.drop_last()) + version_rows(t.last().0, t.last().1)
    }
}

pub open spec fn rows_view(v: Seq<(String, String, String, String)>) -> Seq<ModuleRow> {
    v.map_values(|r: (String, String, String, String)| (r.0@, r.1@, r.2@, r.3@))
}

/// Appends the rows of the modules of one version of a package.
fn push_module_rows(
    out: &mut Vec<(String, String, String, String)>,
    p: &String,
    v: &Version,
    ms: &Vec<(String, LockfileModule)>,
)
    ensures
        rows_view(final(out)@) == rows_view(old(out)@) + module_rows_of(p@, v@, names_view(ms@)),
{
    let ghost start = rows_view(out@);
    let ghost all = module_rows_of(p@, v@, names_view(ms@));
    let version = v.to_string();
    for i in 0..ms.len()
        invariant
            start == rows_view(old(out)@),
            all == module_rows_of(p@, v@, names_view(ms@)),
            version@ == version_text(v@),
            out@.len() == old(out)@.len() + i,
            rows_view(out@) == start + all.take(i as int),
    {
        let ghost before = out@;
        out.push((p.clone(), version.clone(), ms[i].0.clone(), ms[i].1.abi.to_string()));
        assert(rows_view(out@) =~= rows_view(before).push(all[i as int]));
        assert(all.take(i + 1) =~= all.take(i as int).push(all[i as int]));
    }
    assert(all.take(ms.len() as int) =~= all);
}

/// The rows of the table of installed modules.
pub fn module_rows(lockfile: &Lockfile) -> (res: Vec<(String, String, String, String)>)
    ensures
        rows_view(res@) == spec_module_rows(table_view(lockfile.modules@)),
{
    let ghost t = table_view(lockfile.modules@);
    let mut out: Vec<(String, String, String, String)> = Vec::new();
    for i in 0..lockfile.modules.len()
        invariant
            t == table_view(lockfile.modules@),
            rows_view(out@) == spec_module_rows(t.take(i as int)),
    {
        let p = &lockfile.modules[i].0;
        let vs = &lockfile.modules[i].1;
        let ghost vv = versions_view(vs@);
        let ghost at_start = rows_view(out@);
        for j in 0..vs.len()
            invariant
                vv == versions_view(vs@),
                rows_view(out@) == at_start + version_rows(p@, vv.take(j as int)),
        {
            let ghost mid = rows_view(out@);
            push_module_rows(&mut out, p, &vs[j].0, &vs[j].1);
            assert(vv.take(j + 1).drop_last() =~= vv.take(j as int));
            assert(vv.take(j + 1).last() == (vs@[j as int].0@, names_view(vs@[j as int].1@)));
        }
        assert(vv.take(vs.len() as int) =~= vv);
        assert(t.take(i + 1).drop_last() =~= t.take(i as int));
        assert(t.take(i + 1).last() == (p@, vv));
    }
    assert(t.take(lockfile.modules.len() as int) =~= t);
    out
}

/// The rows of the table of installed commands: command, package, version.
pub fn command_rows(lockfile: &Lockfile) -> (res: Vec<(String, String, String)>)
    ensures
        res@.len() == lockfile.commands@.len(),
        forall|i: int|
            0 <= i < res@.len() ==> ((#[trigger] res@[i]).0@, res@[i].1@, res@[i].2@) == (
                lockfile.commands@[i].0@,
                lockfile.commands@[i].1.package_name@,
                version_text(lockfile.commands@[i].1.package_version@),
            ),
{
    let mut out: Vec<(String, String, String)> = Vec::new();
    for i in 0..lockfile.commands.len()
        invariant
            out@.len() == i,
            forall|k: int|
                0 <= k < i ==> ((#[trigger] out@[k]).0@, out@[k].1@, out@[k].2@) == (
                    lockfile.commands@[k].0@,
                    lockfile.commands@[k].1.package_name@,
                    version_text(lockfile.commands@[k].1.package_version@),
                ),
    {
        let c = &lockfile.commands[i];
        out.push((c.0.clone(), c.1.package_name.clone(), c.1.package_version.to_string()));
    }
    out
}

} // verus!
