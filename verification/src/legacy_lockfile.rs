//! The lockfile entries of the first manifest format, which kept every field
//! as text.

use vstd::prelude::*;
use vstd::string::StringExecFns;
use crate::abi::Abi;
use crate::assoc::{lemma_key_index_same_keys, lookup};
use crate::config::{join_path, spec_join};
use crate::lockfile::{find_name, names_view, LockfileError, LockfileErrorModel};
use crate::text::{file_name, opt_view, spec_file_name, spec_split, split_on};

verus! {

/// A module of a package manifest: its name, the path of its wasm file and its ABI.
#[derive(Debug, Clone, PartialEq, Eq)]
pub struct Module {
    pub name: String,
    pub source: String,
    pub abi: Abi,
}

/// A command of a package manifest.
#[derive(Debug, Clone, PartialEq, Eq)]
pub struct Command {
    pub name: String,
    pub module: String,
    pub main_args: Option<String>,
    pub package: Option<String>,
}

/// A resolved dependency: the manifest's package name and version, its
/// modules if it has any, and where it is downloaded from.
#[derive(Debug, Clone, PartialEq, Eq)]
pub struct Dependency {
    pub package_name: String,
    pub package_version: String,
    pub modules: Option<Vec<Module>>,
    pub download_url: String,
}

pub struct ModuleModel {
    pub name: Seq<char>,
    pub source: Seq<char>,
    pub abi: Abi,
}

impl View for Module {
    type V = ModuleModel;

    open spec fn view(&self) -> ModuleModel {
        ModuleModel { name: self.name@, source: self.source@, abi: self.abi }
    }
}

pub struct CommandModel {
    pub name: Seq<char>,
    pub module: Seq<char>,
    pub main_args: Option<Seq<char>>,
    pub package: Option<Seq<char>>,
}

impl View for Command {
    type V = CommandModel;

    open spec fn view(&self) -> CommandModel {
        CommandModel {
            name: self.name@,
            module: self.module@,
            main_args: opt_view(self.main_args),
            package: opt_view(self.package),
        }
    }
}

/// A module as the lockfile records it.
#[derive(Debug, Clone, PartialEq, Eq)]
pub struct LockfileModule {
    pub name: String,
    pub package_version: String,
    pub package_name: String,
    pub source: String,
    pub resolved: String,
    pub abi: Abi,
    pub entry: String,
}

pub struct LockfileModuleModel {
    pub name: Seq<char>,
    pub package_version: Seq<char>,
    pub package_name: Seq<char>,
    pub source: Seq<char>,
    pub resolved: Seq<char>,
    pub abi: Abi,
    pub entry: Seq<char>,
}

impl View for LockfileModule {
    type V = LockfileModuleModel;

    open spec fn view(&self) -> LockfileModuleModel {
        LockfileModuleModel {
            name: self.name@,
            package_version: self.package_version@,
            package_name: self.package_name@,
            source: self.source@,
            resolved: self.resolved@,
            abi: self.abi,
            entry: self.entry@,
        }
    }
}

/// The namespace and the name of a package: `namespace/name`, or a bare name
/// in the global namespace `_`; more than one `/` names no package.
pub open spec fn spec_namespace_and_name(package_name: Seq<char>) -> Option<(Seq<char>, Seq<char>)> {
    let parts = spec_split(package_name, '/');
    if parts.len() == 2 {
        Some((parts[0], parts[1]))
    } else if parts.len() == 1 {
        Some((seq!['_'], parts[0]))
    } else {
        None
    }
}

/// Splits a package name into its namespace and name.
pub fn get_package_namespace_and_name(package_name: &str) -> (res: Option<(String, String)>)
    ensures
        match res {
            Some((ns, n)) => spec_namespace_and_name(package_name@) == Some((ns@, n@)),
            None => spec_namespace_and_name(package_name@) is None,
        },
{
    proof {
        reveal_strlit("_");
    }
    let parts = split_on(package_name, '/');
    assert(parts@.map_values(|p: String| p@).len() == parts@.len());
    if parts.len() == 2 {
        assert(parts@[0]@ == spec_split(package_name@, '/')[0]);
        assert(parts@[1]@ == spec_split(package_name@, '/')[1]);
        Some((parts[0].clone(), parts[1].clone()))
    } else if parts.len() == 1 {
        assert(parts@[0]@ == spec_split(package_name@, '/')[0]);
        assert("_"@ == seq!['_']);
        Some((String::from_str("_"), parts[0].clone()))
    } else {
        None
    }
}

/// A manifest module that can be recorded: its package name has a namespace
/// and a name, and its source path ends in a file name.
pub open spec fn module_recordable(package_name: Seq<char>, source: Seq<char>) -> bool {
    spec_namespace_and_name(package_name) is Some && spec_file_name(source) is Some
}

/// The lockfile record of a module: its entry is
/// `wapm_packages/<namespace>/<name>@<version>/<file name of the source>`.
pub open spec fn spec_from_module(
    name: Seq<char>,
    version: Seq<char>,
    module_name: Seq<char>,
    module_source: Seq<char>,
    abi: Abi,
    download_url: Seq<char>,
) -> LockfileModuleModel {
    let (namespace, pkg) = spec_namespace_and_name(name)->Some_0;
    LockfileModuleModel {
        name: module_name,
        package_version: version,
        package_name: name,
        source: "registry+"@ + module_name,
        resolved: download_url,
        abi,
        entry: spec_join(
            spec_join(spec_join("wapm_packages"@, namespace), pkg + seq!['@'] + version),
            spec_file_name(module_source)->Some_0,
        ),
    }
}

impl LockfileModule {
    /// The lockfile record of a module of package `name` at `version`.
    pub fn from_module(name: &str, version: &str, module: &Module, download_url: &str) -> (res:
        LockfileModule)
        requires
            module_recordable(name@, module.source@),
        ensures
            res@ == spec_from_module(
                name@,
                version@,
                module.name@,
                module.source@,
                module.abi,
                download_url@,
            ),
    {
        proof {
            reveal_strlit("@");
        }
        let (namespace, unqualified_pkg_name) = match get_package_namespace_and_name(name) {
            Some(p) => p,
            None => {
                assert(false);
                (String::new(), String::new())
            },
        };
        let pkg_dir = unqualified_pkg_name.concat("@").concat(version);
        assert(pkg_dir@ =~= spec_namespace_and_name(name@)->Some_0.1 + seq!['@'] + version@);
        let file = match file_name(module.source.as_str()) {
            Some(f) => f,
            None => {
                assert(false);
                String::new()
            },
        };
        let path = join_path("", "wapm_packages");
        let path = join_path(path.as_str(), namespace.as_str());
        let path = join_path(path.as_str(), pkg_dir.as_str());
        let entry = join_path(path.as_str(), file.as_str());
        proof {
            reveal_strlit("");
            reveal_strlit("wapm_packages");
        }
        assert(spec_join(""@, "wapm_packages"@) == "wapm_packages"@);
        LockfileModule {
            name: module.name.clone(),
            package_version: String::from_str(version),
            package_name: String::from_str(name),
            source: String::from_str("registry+").concat(module.name.as_str()),
            resolved: String::from_str(download_url),
            abi: module.abi,
            entry,
        }
    }

    /// The lockfile records of a dependency's modules, in the manifest's
    /// order; none when the manifest has no modules.
    pub fn from_dependency(dependency: &Dependency) -> (res: Vec<LockfileModule>)
        requires
            dependency.modules matches Some(ms) ==> forall|i: int|
                0 <= i < ms@.len() ==> module_recordable(
                    dependency.package_name@,
                    #[trigger] ms@[i].source@,
                ),
        ensures
            dependency.modules is None ==> res@.len() == 0,
            dependency.modules matches Some(ms) ==> res@.len() == ms@.len() && forall|i: int|
                0 <= i < ms@.len() ==> #[trigger] res@[i]@ == spec_from_module(
                    dependency.package_name@,
                    dependency.package_version@,
                    ms@[i].name@,
                    ms@[i].source@,
                    ms@[i].abi,
                    dependency.download_url@,
                ),
    {
        let mut res: Vec<LockfileModule> = Vec::new();
        match &dependency.modules {
            None => res,
            Some(ms) => {
                for i in 0..ms.len()
                    invariant
                        res@.len() == i,
                        forall|k: int|
                            0 <= k < ms@.len() ==> module_recordable(
                                dependency.package_name@,
                                #[trigger] ms@[k].source@,
                            ),
                        forall|k: int|
                            0 <= k < i ==> #[trigger] res@[k]@ == spec_from_module(
                                dependency.package_name@,
                                dependency.package_version@,
                                ms@[k].name@,
                                ms@[k].source@,
                                ms@[k].abi,
                                dependency.download_url@,
                            ),
                {
                    assert(module_recordable(dependency.package_name@, ms@[i as int].source@));
                    let m = LockfileModule::from_module(
                        dependency.package_name.as_str(),
                        dependency.package_version.as_str(),
                        &ms[i],
                        dependency.download_url.as_str(),
                    );
                    res.push(m);
                }
                res
            },
        }
    }
}

/// Describes a command for a wapm module
#[derive(Debug, Clone, PartialEq, Eq)]
pub struct LockfileCommand {
    pub name: String,
    pub package_name: String,
    pub package_version: String,
    pub module: String,
    pub is_top_level_dependency: bool,
    pub main_args: Option<String>,
}

/// A command whose package field, when present, is `name version`.
pub open spec fn command_package_valid(package: Option<Seq<char>>) -> bool {
    match package {
        Some(p) => spec_split(p, ' ').len() == 2,
        None => true,
    }
}

/// The lockfile entry for a command of a package: the package that the
/// command names (`name version`), or else the local package.
pub open spec fn spec_from_command(
    local_package_name: Seq<char>,
    local_package_version: Seq<char>,
    c: CommandModel,
) -> LockfileCommandModel {
    LockfileCommandModel {
        name: c.name,
        package_name: match c.package {
            Some(p) => spec_split(p, ' ')[0],
            None => local_package_name,
        },
        package_version: match c.package {
            Some(p) => spec_split(p, ' ')[1],
            None => local_package_version,
        },
        module: c.module,
        is_top_level_dependency: true,
        main_args: c.main_args,
    }
}

impl LockfileCommand {
    /// The lockfile entry for a command: the package that the command names,
    /// or else the local package.
    pub fn from_command(local_package_name: String, local_package_version: String, command: &Command) -> (res:
        LockfileCommand)
        requires
            command_package_valid(opt_view(command.package)),
        ensures
            res.name@ == command.name@,
            res.module@ == command.module@,
            opt_view(res.main_args) == opt_view(command.main_args),
            res.is_top_level_dependency,
            command.package is None ==> res.package_name@ == local_package_name@
                && res.package_version@ == local_package_version@,
            command.package matches Some(p) ==> res.package_name@ == spec_split(p@, ' ')[0]
                && res.package_version@ == spec_split(p@, ' ')[1],
            res@ == spec_from_command(local_package_name@, local_package_version@, command@),
    {
        let (package_name, package_version) = match &command.package {
            Some(package_string) => {
                let split = split_on(package_string.as_str(), ' ');
                assert(split@.map_values(|p: String| p@).len() == split@.len());
                assert(split@[0]@ == spec_split(package_string@, ' ')[0]);
                assert(split@[1]@ == spec_split(package_string@, ' ')[1]);
                (split[0].clone(), split[1].clone())
            },
            None => (local_package_name, local_package_version),
        };
        LockfileCommand {
            name: command.name.clone(),
            package_name,
            package_version,
            module: command.module.clone(),
            main_args: match &command.main_args {
                Some(a) => Some(a.clone()),
                None => None,
            },
            is_top_level_dependency: true,
        }
    }
}

/// Why a command cannot go into the lockfile.
#[derive(Debug, Clone, PartialEq, Eq)]
pub enum LockfileCommandError {
    /// The module for this command does not exist.
    ModuleForCommandDoesNotExist,
}


pub struct LockfileCommandModel {
    pub name: Seq<char>,
    pub package_name: Seq<char>,
    pub package_version: Seq<char>,
    pub module: Seq<char>,
    pub is_top_level_dependency: bool,
    pub main_args: Option<Seq<char>>,
}

impl View for LockfileCommand {
    type V = LockfileCommandModel;

    open spec fn view(&self) -> LockfileCommandModel {
        LockfileCommandModel {
            name: self.name@,
            package_name: self.package_name@,
            package_version: self.package_version@,
            module: self.module@,
            is_top_level_dependency: self.is_top_level_dependency,
            main_args: opt_view(self.main_args),
        }
    }
}

impl LockfileModule {
    /// An independent copy.
    pub fn duplicate(&self) -> (res: LockfileModule)
        ensures
            res@ == self@,
    {
        LockfileModule {
            name: self.name.clone(),
            package_version: self.package_version.clone(),
            package_name: self.package_name.clone(),
            source: self.source.clone(),
            resolved: self.resolved.clone(),
            abi: self.abi,
            entry: self.entry.clone(),
        }
    }
}

impl LockfileCommand {
    /// An independent copy.
    pub fn duplicate(&self) -> (res: LockfileCommand)
        ensures
            res@ == self@,
    {
        LockfileCommand {
            name: self.name.clone(),
            package_name: self.package_name.clone(),
            package_version: self.package_version.clone(),
            module: self.module.clone(),
            is_top_level_dependency: self.is_top_level_dependency,
            main_args: match &self.main_args {
                Some(a) => Some(a.clone()),
                None => None,
            },
        }
    }
}

/// Package name, then version, then module name, to a module.
pub type LegacyModuleTable = Vec<(String, Vec<(String, Vec<(String, LockfileModule)>)>)>;

pub type LegacyTableModel = Seq<(Seq<char>, Seq<(Seq<char>, Seq<(Seq<char>, LockfileModuleModel)>)>)>;

pub open spec fn legacy_modules_view(v: Seq<(String, LockfileModule)>) -> Seq<(Seq<char>, LockfileModuleModel)> {
    v.map_values(|e: (String, LockfileModule)| (e.0@, e.1@))
}

pub open spec fn legacy_versions_view(v: Seq<(String, Vec<(String, LockfileModule)>)>) -> Seq<
    (Seq<char>, Seq<(Seq<char>, LockfileModuleModel)>),
> {
    v.map_values(|e: (String, Vec<(String, LockfileModule)>)| (e.0@, legacy_modules_view(e.1@)))
}

pub open spec fn legacy_table_view(v: Seq<(String, Vec<(String, Vec<(String, LockfileModule)>)>)>) -> LegacyTableModel {
    v.map_values(|e: (String, Vec<(String, Vec<(String, LockfileModule)>)>)| (e.0@, legacy_versions_view(e.1@)))
}

pub open spec fn legacy_commands_view(v: Seq<(String, LockfileCommand)>) -> Seq<(Seq<char>, LockfileCommandModel)> {
    v.map_values(|e: (String, LockfileCommand)| (e.0@, e.1@))
}

/// The lockfile of this format: its modules by package, version and module
/// name, and its commands by name.
#[derive(Debug, Clone, PartialEq, Eq)]
pub struct Lockfile {
    pub modules: LegacyModuleTable,
    pub commands: Vec<(String, LockfileCommand)>,
}

/// Looking a module up by package name, then version, then module name; each
/// missing level has its error.
pub open spec fn spec_get_legacy_module(
    table: LegacyTableModel,
    package_name: Seq<char>,
    version: Seq<char>,
    module_name: Seq<char>,
) -> Result<LockfileModuleModel, LockfileErrorModel> {
    match lookup(table, package_name) {
        None => Err(
            LockfileErrorModel::PackageWithVersionNotFoundWhenFindingModule(
                package_name,
                version,
                module_name,
            ),
        ),
        Some(versions) => match lookup(versions, version) {
            None => Err(
                LockfileErrorModel::VersionNotFoundForPackageWhenFindingModule(
                    package_name,
                    version,
                    module_name,
                ),
            ),
            Some(modules) => match lookup(modules, module_name) {
                None => Err(
                    LockfileErrorModel::ModuleForPackageVersionNotFound(
                        package_name,
                        version,
                        module_name,
                    ),
                ),
                Some(m) => Ok(m),
            },
        },
    }
}

impl Lockfile {
    /// The command of this name.
    pub fn get_command(&self, command_name: &str) -> (res: Result<&LockfileCommand, LockfileError>)
        ensures
            match lookup(legacy_commands_view(self.commands@), command_name@) {
                Some(c) => res matches Ok(r) && r@ == c,
                None => res matches Err(LockfileError::CommandNotFound(n)) && n@ == command_name@,
            },
    {
        let ghost cv = legacy_commands_view(self.commands@);
        match find_name(&self.commands, command_name) {
            Some(i) => {
                proof {
                    lemma_key_index_same_keys(names_view(self.commands@), cv, command_name@);
                }
                assert(cv[i as int].1 == self.commands@[i as int].1@);
                Ok(&self.commands[i].1)
            },
            None => {
                proof {
                    lemma_key_index_same_keys(names_view(self.commands@), cv, command_name@);
                }
                Err(LockfileError::CommandNotFound(String::from_str(command_name)))
            },
        }
    }

    /// The module of a package at a version.
    pub fn get_module(&self, package_name: &str, package_version: &str, module_name: &str) -> (res:
        Result<&LockfileModule, LockfileError>)
        ensures
            match res {
                Ok(m) => spec_get_legacy_module(
                    legacy_table_view(self.modules@),
                    package_name@,
                    package_version@,
                    module_name@,
                ) == Ok::<LockfileModuleModel, LockfileErrorModel>(m@),
                Err(e) => spec_get_legacy_module(
                    legacy_table_view(self.modules@),
                    package_name@,
                    package_version@,
                    module_name@,
                ) == Err::<LockfileModuleModel, LockfileErrorModel>(e@),
            },
    {
        let ghost t = legacy_table_view(self.modules@);
        let err_args = (
            String::from_str(package_name),
            String::from_str(package_version),
            String::from_str(module_name),
        );
        proof {
            lemma_key_index_same_keys(names_view(self.modules@), t, package_name@);
        }
        let pi = match find_name(&self.modules, package_name) {
            Some(i) => i,
            None => {
                return Err(
                    LockfileError::PackageWithVersionNotFoundWhenFindingModule(
                        err_args.0,
                        err_args.1,
                        err_args.2,
                    ),
                );
            },
        };
        let versions = &self.modules[pi].1;
        let ghost vv = legacy_versions_view(versions@);
        assert(t[pi as int].1 == vv);
        proof {
            lemma_key_index_same_keys(names_view(versions@), vv, package_version@);
        }
        let vi = match find_name(versions, package_version) {
            Some(i) => i,
            None => {
                return Err(
                    LockfileError::VersionNotFoundForPackageWhenFindingModule(
                        err_args.0,
                        err_args.1,
                        err_args.2,
                    ),
                );
            },
        };
        let modules = &versions[vi].1;
        let ghost mv = legacy_modules_view(modules@);
        assert(vv[vi as int].1 == mv);
        proof {
            lemma_key_index_same_keys(names_view(modules@), mv, module_name@);
        }
        match find_name(modules, module_name) {
            Some(mi) => {
                assert(mv[mi as int].1 == modules@[mi as int].1@);
                Ok(&modules[mi].1)
            },
            None => Err(
                LockfileError::ModuleForPackageVersionNotFound(err_args.0, err_args.1, err_args.2),
            ),
        }
    }
}

} // verus!
