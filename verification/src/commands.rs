//! The decisions of the command-line subcommands, apart from the files they
//! read and write.

use vstd::prelude::*;
use crate::config::{
    get, get_result_view, join_path, law_clear_forgets_current, law_format_graphql_idempotent,
    law_token_read_back, law_with_token_wf, spec_get, spec_join, spec_set, Config, ConfigError,
    ConfigErrorModel, ConfigModel, RegistriesModel, UpdateRegistry,
};
use crate::text::{
    contains, file_name, lemma_split_at_least_two, replace_all, spec_contains, spec_file_name,
    spec_replace, spec_split, split_on,
};

verus! {

/// Options of the `bin` subcommand.
#[derive(Debug, Clone, PartialEq, Eq)]
pub struct BinOpt {
    /// Get the global .bin dir
    pub global: bool,
}

/// Why the `bin` subcommand failed.
#[derive(Debug, Clone, PartialEq, Eq)]
pub enum BinError {
    /// The directory does not contain wapm packages.
    NotWapmProjectDir(String),
}

/// Name of the directory of package executables.
pub const BIN_DIR_NAME: &'static str = ".bin";

/// The directory of package executables under `root_dir`, given whether its
/// packages directory exists: a local project must have one; the global
/// directory is shown even when it does not exist yet.
pub fn bin(options: &BinOpt, root_dir: &str, packages_dir_exists: bool) -> (res: Result<String, BinError>)
    ensures
        !packages_dir_exists && !options.global ==> (res matches Err(BinError::NotWapmProjectDir(d))
            && d@ == spec_join(root_dir@, "wapm_packages"@)),
        packages_dir_exists || options.global ==> (res matches Ok(d) && d@ == spec_join(
            spec_join(root_dir@, "wapm_packages"@),
            ".bin"@,
        )),
{
    let packages = join_path(root_dir, "wapm_packages");
    if !packages_dir_exists && !options.global {
        return Err(BinError::NotWapmProjectDir(packages));
    }
    Ok(join_path(packages.as_str(), BIN_DIR_NAME))
}

/// Options of the `list` subcommand.
#[derive(Debug, Clone, PartialEq, Eq)]
pub struct ListOpt {
    /// List just the globally installed packages
    pub global: bool,
    /// List both locally and globally installed packages
    pub all: bool,
}

/// Which packages to list: (local, global). All lists both; global lists
/// just the global ones; by default the local ones.
pub fn list_scopes(options: &ListOpt) -> (res: (bool, bool))
    ensures
        res == (if options.all { (true, true) } else if options.global { (false, true) } else { (
            true,
            false,
        ) }),
{
    match (options.global, options.all) {
        (_, true) => (true, true),
        (true, false) => (false, true),
        (false, false) => (true, false),
    }
}

/// Options of the `package` subcommand.
#[derive(Debug, Clone, PartialEq, Eq)]
pub struct PackageOpt {
    /// Path to the manifest file (wasmer.toml) for the wasm package.
    pub manifest_file_path: Option<String>,
    /// Assets to be bundled in the wasm package.
    pub assets: Vec<String>,
}

/// Why a package could not be made.
#[derive(Debug, Clone, PartialEq, Eq)]
pub enum PackageError {
    MissingSource,
    NoModule,
}

/// Options of the `init` subcommand.
#[derive(Debug, Clone, PartialEq, Eq)]
pub struct InitOpt {
    /// Agree to all prompts. Useful for non-interactive uses
    pub force_yes: bool,
    /// Initial project name to specify (`wapm init myproject`)
    pub project_name: Option<String>,
}

impl InitOpt {
    pub fn new(force_yes: bool) -> (res: InitOpt)
        ensures
            res.force_yes == force_yes,
            res.project_name is None,
    {
        InitOpt { force_yes, project_name: None }
    }
}

/// Options for the `remove` subcommand
#[derive(Debug, Clone, PartialEq, Eq)]
pub struct RemoveOpt {
    pub packages: Vec<String>,
}

impl RemoveOpt {
    pub fn new(packages: Vec<String>) -> (res: RemoveOpt)
        ensures
            res.packages@ == packages@,
    {
        RemoveOpt { packages }
    }
}

/// Why removing packages failed.
#[derive(Debug, Clone, PartialEq, Eq)]
pub enum RemoveError {
    GenericError,
    NoManifest,
    ArgumentsRequired,
}

/// The packages that `remove` takes out of the manifest, in order, and
/// whether any was refused for naming a version (`@`); no package at all is
/// an error.
pub fn packages_to_remove(options: &RemoveOpt) -> (res: Result<(Vec<String>, bool), RemoveError>)
    ensures
        options.packages@.len() == 0 <==> res matches Err(RemoveError::ArgumentsRequired),
        options.packages@.len() > 0 ==> res is Ok,
        res matches Ok((names, refused)) ==> names@.map_values(|s: String| s@)
            == options.packages@.map_values(|s: String| s@).filter(
            |p: Seq<char>| !spec_contains(p, seq!['@']),
        ) && (refused <==> exists|i: int|
            0 <= i < options.packages@.len() && spec_contains(
                #[trigger] options.packages@[i]@,
                seq!['@'],
            )),
{
    if options.packages.len() == 0 {
        return Err(RemoveError::ArgumentsRequired);
    }
    proof {
        reveal_strlit("@");
    }
    let ghost all = options.packages@.map_values(|s: String| s@);
    let ghost pred = |p: Seq<char>| !spec_contains(p, seq!['@']);
    let mut names: Vec<String> = Vec::new();
    let mut refused = false;
    for i in 0..options.packages.len()
        invariant
            all == options.packages@.map_values(|s: String| s@),
            pred == (|p: Seq<char>| !spec_contains(p, seq!['@'])),
            names@.map_values(|s: String| s@) == all.take(i as int).filter(pred),
            refused <==> exists|k: int| 0 <= k < i && spec_contains(#[trigger] all[k], seq!['@']),
    {
        proof {
            reveal_strlit("@");
        }
        assert(all.take(i + 1).drop_last() =~= all.take(i as int));
        assert(all.take(i + 1).last() == options.packages@[i as int]@);
        assert(all[i as int] == options.packages@[i as int]@);
        let ghost before = names@;
        let has_at = contains(options.packages[i].as_str(), "@");
        assert("@"@ == seq!['@']);
        if has_at {
            refused = true;
        } else {
            names.push(options.packages[i].clone());
            assert(names@.map_values(|s: String| s@) =~= before.map_values(|s: String| s@).push(
                all[i as int],
            ));
        }
        assert(all.take(i + 1).filter(pred) == if pred(all[i as int]) {
            all.take(i as int).filter(pred).push(all[i as int])
        } else {
            all.take(i as int).filter(pred)
        }) by {
            reveal(Seq::filter);
        }
    }
    assert(all.take(options.packages.len() as int) =~= all);
    assert forall|k: int| 0 <= k < options.packages@.len() implies all[k] == #[trigger] options.packages@[k]@ by {}
    Ok((names, refused))
}

/// Options of the `uninstall` subcommand.
#[derive(Debug, Clone, PartialEq, Eq)]
pub struct UninstallOpt {
    pub package: String,
    /// Uninstall the package(s) globally
    pub global: bool,
}

/// Why uninstalling failed.
#[derive(Debug, Clone, PartialEq, Eq)]
pub enum Error {
    /// Packages may only be uninstalled by the package name.
    NoAtSignAllowed,
}

/// The packages to uninstall: the one named, which may not name a version (`@`).
pub fn uninstall(options: &UninstallOpt) -> (res: Result<Vec<String>, Error>)
    ensures
        spec_contains(options.package@, seq!['@']) <==> res matches Err(Error::NoAtSignAllowed),
        res matches Ok(names) ==> names@.len() == 1 && names@[0]@ == options.package@,
{
    proof {
        reveal_strlit("@");
    }
    assert("@"@ == seq!['@']);
    if contains(options.package.as_str(), "@") {
        return Err(Error::NoAtSignAllowed);
    }
    let mut names = Vec::new();
    names.push(options.package.clone());
    Ok(names)
}

/// Options of the `validate` subcommand.
#[derive(Debug, Clone, PartialEq, Eq)]
pub struct ValidateOpt {
    /// Directory or tar file to validate
    pub package: String,
}

/// The folder that a package archive unpacks into: the archive's file name
/// without `.tar.gz`.
pub fn archive_folder_name(pkg_path: &str) -> (res: Option<String>)
    ensures
        match spec_file_name(pkg_path@) {
            Some(n) => res matches Some(f) && f@ == spec_replace(n, ".tar.gz"@, ""@),
            None => res is None,
        },
{
    proof {
        reveal_strlit(".tar.gz");
    }
    assert(".tar.gz"@.len() == 7);
    match file_name(pkg_path) {
        Some(n) => Some(replace_all(n.as_str(), ".tar.gz", "")),
        None => None,
    }
}

/// Options of the `config` subcommand.
#[derive(Debug, Clone, PartialEq, Eq)]
pub enum ConfigOpt {
    /// Sets a key
    SetKey(ConfigKeyValue),
    /// Gets a key
    GetKey(ConfigKey),
}

#[derive(Debug, Clone, PartialEq, Eq)]
pub struct ConfigKeyValue {
    pub key: String,
    pub value: String,
}

#[derive(Debug, Clone, PartialEq, Eq)]
pub struct ConfigKey {
    pub key: String,
}

/// Runs the `config` subcommand on a loaded configuration: setting a key
/// gives nothing to show, getting one gives its value.
pub fn config(settings: &mut Config, config_opt: ConfigOpt) -> (res: Result<Option<String>, ConfigError>)
    ensures
        match config_opt {
            ConfigOpt::SetKey(kv) => match spec_set(old(settings)@, kv.key@, kv.value@) {
                Ok(c) => res matches Ok(None) && final(settings)@ == c,
                Err(e) => res matches Err(x) && x@ == e && final(settings)@ == old(settings)@,
            },
            ConfigOpt::GetKey(k) => final(settings)@ == old(settings)@ && match spec_get(
                old(settings)@,
                k.key@,
            ) {
                Ok(v) => res matches Ok(Some(s)) && s@ == v,
                Err(e) => res matches Err(x) && x@ == e,
            },
        },
{
    match config_opt {
        ConfigOpt::SetKey(ConfigKeyValue { key, value }) => match crate::config::set(settings, key, value) {
            Ok(()) => Ok(None),
            Err(e) => Err(e),
        },
        ConfigOpt::GetKey(ConfigKey { key }) => match get(settings, key) {
            Ok(v) => Ok(Some(v)),
            Err(e) => Err(e),
        },
    }
}

/// Logs out of the current registry: its token is forgotten.
pub fn logout(config: &mut Config)
    ensures
        final(config)@ == (ConfigModel { registry: old(config)@.registry.cleared(), ..old(config)@ }),
{
    config.registry.clear_current_registry_token();
}

/// Options of the `login` subcommand.
#[derive(Debug, Clone, PartialEq, Eq)]
pub struct LoginOpt {
    /// Provide the token
    pub token: Option<String>,
    /// Username
    pub user: Option<String>,
    /// Password
    pub password: Option<String>,
}

/// Saves a login token for the current registry, as `login` does once it has
/// a token.
pub fn save_login_token(settings: &mut Config, token: &str)
    ensures
        final(settings)@ == (ConfigModel {
            registry: old(settings)@.registry.with_token(
                old(settings)@.registry.current_registry(),
                token@,
                UpdateRegistry::Update,
            ),
            ..old(settings)@
        }),
{
    let current = settings.registry.get_current_registry();
    settings.registry.set_login_token_for_registry(current.as_str(), token, UpdateRegistry::Update);
}

/// After a login, the current registry stays the same and its token is the
/// one saved, which `logout` then forgets.
pub proof fn law_login_then_logout(c: ConfigModel, token: Seq<char>)
    requires
        c.registry.wf(),
    ensures
        ({
            let r = c.registry.current_registry();
            let after = c.registry.with_token(r, token, UpdateRegistry::Update);
            &&& after.current_registry() == r
            &&& after.token_for(r) == Some(token)
            &&& after.cleared().token_for(after.cleared().current_registry()) == None::<Seq<char>>
        }),
{
    let r = c.registry.current_registry();
    law_token_read_back(c.registry, r, token, UpdateRegistry::Update);
    law_with_token_wf(c.registry, r, token, UpdateRegistry::Update);
    let after = c.registry.with_token(r, token, UpdateRegistry::Update);
    law_clear_forgets_current(after);
    match c.registry {
        RegistriesModel::Single(s) => {
            law_format_graphql_idempotent(s.url);
        },
        RegistriesModel::Multi(m) => {
            law_format_graphql_idempotent(m.current);
        },
    }
    law_format_graphql_idempotent(r);
}


/// The subcommands of `keys`.
#[derive(Debug, Clone, PartialEq, Eq)]
pub enum KeyOpt {
    /// List keys registered with wapm; with `all`, the keys downloaded from
    /// the registry too.
    List { all: bool },
    /// Register a personal key pair with wapm.
    Register { public_key_location: String, private_key_location: String },
    /// Import a public key from somewhere.
    Import { user_name: String, public_key_value: String },
    /// Delete a key pair from wapm.
    Delete { public_key_id: String },
    /// Generate a key pair under a directory, overwriting it with `force`.
    Generate { key_path: String, force: bool },
}

/// What `keys list` shows.
#[derive(Debug, Clone, Copy, PartialEq, Eq, Structural)]
pub enum KeyListing {
    /// Neither personal nor registry keys: "No keys found".
    NoKeys,
    /// No personal keys, and registry keys were not asked for.
    NoPersonalKeys,
    /// The table of personal keys.
    Personal,
    /// The table of registry keys.
    Wapm,
    /// Both tables, each under its heading.
    Both,
}

/// What `keys list` shows, given whether registry keys were asked for and
/// which kinds of keys there are.
pub fn key_listing(all: bool, has_personal: bool, has_wapm: bool) -> (res: KeyListing)
    ensures
        res == (if all {
            if !has_personal && !has_wapm {
                KeyListing::NoKeys
            } else if !has_personal {
                KeyListing::Wapm
            } else if !has_wapm {
                KeyListing::Personal
            } else {
                KeyListing::Both
            }
        } else if !has_personal {
            KeyListing::NoPersonalKeys
        } else {
            KeyListing::Personal
        }),
{
    if all {
        match (has_personal, has_wapm) {
            (false, false) => KeyListing::NoKeys,
            (false, true) => KeyListing::Wapm,
            (true, false) => KeyListing::Personal,
            (true, true) => KeyListing::Both,
        }
    } else if !has_personal {
        KeyListing::NoPersonalKeys
    } else {
        KeyListing::Personal
    }
}

/// Where `keys generate` writes a key pair: `minisign.key` and
/// `minisign.pub` under the directory.
pub fn key_pair_paths(key_path: &str) -> (res: (String, String))
    ensures
        res.0@ == spec_join(key_path@, "minisign.key"@),
        res.1@ == spec_join(key_path@, "minisign.pub"@),
{
    (join_path(key_path, "minisign.key"), join_path(key_path, "minisign.pub"))
}

/// Why `keys generate` refused to write a key pair.
#[derive(Debug, Clone, PartialEq, Eq)]
pub enum GenerateError {
    /// The directory does not exist.
    PathDoesNotExist(String),
    /// The private key file exists and `force` was not given.
    PrivateKeyExists(String),
    /// The public key file exists and `force` was not given.
    PublicKeyExists(String),
}

/// Whether `keys generate` may write its key pair: the directory must exist,
/// and, without `force`, neither key file.
pub fn check_generate(
    key_path: &str,
    force: bool,
    key_path_exists: bool,
    private_exists: bool,
    public_exists: bool,
) -> (res: Result<(), GenerateError>)
    ensures
        !key_path_exists ==> (res matches Err(GenerateError::PathDoesNotExist(p)) && p@
            == key_path@),
        key_path_exists && !force && private_exists ==> (res matches Err(
            GenerateError::PrivateKeyExists(p),
        ) && p@ == spec_join(key_path@, "minisign.key"@)),
        key_path_exists && !force && !private_exists && public_exists ==> (res matches Err(
            GenerateError::PublicKeyExists(p),
        ) && p@ == spec_join(key_path@, "minisign.pub"@)),
        key_path_exists && (force || (!private_exists && !public_exists)) ==> res is Ok,
{
    let (private_key_path, public_key_path) = key_pair_paths(key_path);
    if !key_path_exists {
        return Err(GenerateError::PathDoesNotExist(key_path.to_owned()));
    }
    if !force {
        if private_exists {
            return Err(GenerateError::PrivateKeyExists(private_key_path));
        }
        if public_exists {
            return Err(GenerateError::PublicKeyExists(public_key_path));
        }
    }
    Ok(())
}


/// Options of the `add` subcommand.
#[derive(Debug, Clone, PartialEq, Eq)]
pub struct AddOpt {
    pub packages: Vec<String>,
}

impl AddOpt {
    pub fn new(packages: Vec<String>) -> (res: AddOpt)
        ensures
            res.packages@ == packages@,
    {
        AddOpt { packages }
    }
}

/// Why `add` failed.
#[derive(Debug, Clone, PartialEq, Eq)]
pub enum AddError {
    /// Some package was not found.
    GenericError,
    /// There is no manifest in the current directory.
    NoManifest,
    /// No package was named.
    ArgumentsRequired,
}

/// How `add` reads a package: with an `@`, the text before it and the text
/// up to the next one as the version; else the whole text, with no version.
pub open spec fn spec_add_spec(s: Seq<char>) -> (Seq<char>, Option<Seq<char>>) {
    if spec_contains(s, seq!['@']) {
        let p = spec_split(s, '@');
        (p[0], Some(p[1]))
    } else {
        (s, None)
    }
}

/// The packages that `add` asks the registry for, each with the version it
/// names, if any; naming none is refused.
pub fn add_package_specs(options: &AddOpt) -> (res: Result<Vec<(String, Option<String>)>, AddError>)
    ensures
        options.packages@.len() == 0 <==> (res matches Err(e) && e == AddError::ArgumentsRequired),
        options.packages@.len() > 0 ==> res is Ok,
        res matches Ok(v) ==> v@.len() == options.packages@.len() && forall|i: int|
            0 <= i < v@.len() ==> ((#[trigger] v@[i]).0@, match v@[i].1 {
                Some(x) => Some(x@),
                None => None,
            }) == spec_add_spec(options.packages@[i]@),
{
    if options.packages.len() == 0 {
        return Err(AddError::ArgumentsRequired);
    }
    let mut out: Vec<(String, Option<String>)> = Vec::new();
    for i in 0..options.packages.len()
        invariant
            out@.len() == i,
            forall|k: int|
                0 <= k < i ==> ((#[trigger] out@[k]).0@, match out@[k].1 {
                    Some(x) => Some(x@),
                    None => None,
                }) == spec_add_spec(options.packages@[k]@),
    {
        let p = options.packages[i].as_str();
        proof {
            reveal_strlit("@");
        }
        assert("@"@ =~= seq!['@']);
        if contains(p, "@") {
            proof {
                lemma_split_at_least_two(p@, '@');
            }
            let parts = split_on(p, '@');
            assert(parts@.map_values(|x: String| x@).len() == parts@.len());
            assert(parts@[0]@ == spec_split(p@, '@')[0]);
            assert(parts@[1]@ == spec_split(p@, '@')[1]);
            out.push((parts[0].clone(), Some(parts[1].clone())));
        } else {
            out.push((p.to_owned(), None));
        }
    }
    Ok(out)
}

} // verus!
