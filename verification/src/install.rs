//! The decisions of the `install` subcommand: which packages it names, where
//! they go, and how language bindings are installed.

use vstd::prelude::*;
use vstd::string::StringExecFns;
use crate::config::{join_path, spec_join};
use crate::execute::package_version_text;
use crate::legacy_lockfile::{get_package_namespace_and_name, spec_namespace_and_name};
use crate::lockfile::{semver_read, version_text, Version};
use crate::text::{parse_u64, spec_parse_u64, spec_split, split_on};

verus! {

/// Options of the `install` subcommand.
#[derive(Debug, Clone, PartialEq, Eq)]
pub struct InstallOpt {
    pub packages: Vec<String>,
    pub global: bool,
    pub nocache: bool,
    pub force_yes: bool,
    pub yarn: bool,
    pub npm: bool,
    pub dev: bool,
    pub pip: bool,
    pub module: Option<String>,
}

/// Why installing failed.
#[derive(Debug, Clone, PartialEq, Eq)]
pub enum InstallError {
    PackageNotFound { name: String },
    NoVersionsAvailable { name: String },
    /// The package identifier is not `<name>@<version>` or `<name>`.
    InvalidPackageIdentifier { name: String },
    MustSupplyPackagesWithGlobalFlag,
    NoPackageProvided,
    TooManyPackagesForBindings,
}

/// A package name and, when given, its version.
#[derive(Debug, Clone, PartialEq, Eq)]
pub struct VersionedPackage {
    pub name: String,
    pub version: Option<String>,
}

/// How a package specifier reads: `name@version`, or a bare `name`; more
/// than one `@` is invalid.
pub open spec fn spec_versioned_package(s: Seq<char>) -> Option<(Seq<char>, Option<Seq<char>>)> {
    let parts = spec_split(s, '@');
    if parts.len() == 2 {
        Some((parts[0], Some(parts[1])))
    } else if parts.len() == 1 {
        Some((parts[0], None))
    } else {
        None
    }
}

impl VersionedPackage {
    /// Reads a package specifier.
    pub fn try_from(package_specifier: &str) -> (res: Result<VersionedPackage, InstallError>)
        ensures
            match spec_versioned_package(package_specifier@) {
                Some((n, v)) => res matches Ok(p) && p.name@ == n && match v {
                    Some(x) => p.version matches Some(y) && y@ == x,
                    None => p.version is None,
                },
                None => res matches Err(InstallError::InvalidPackageIdentifier { name }) && name@
                    == package_specifier@,
            },
    {
        let parts = split_on(package_specifier, '@');
        assert(parts@.map_values(|p: String| p@).len() == parts@.len());
        if parts.len() == 2 {
            assert(parts@[0]@ == spec_split(package_specifier@, '@')[0]);
            assert(parts@[1]@ == spec_split(package_specifier@, '@')[1]);
            Ok(VersionedPackage { name: parts[0].clone(), version: Some(parts[1].clone()) })
        } else if parts.len() == 1 {
            assert(parts@[0]@ == spec_split(package_specifier@, '@')[0]);
            Ok(VersionedPackage { name: parts[0].clone(), version: None })
        } else {
            Err(InstallError::InvalidPackageIdentifier { name: package_specifier.to_owned() })
        }
    }
}

/// The name and version that a package specifier names: the version it
/// gives, or else the last version that the registry has of the package.
/// `last_version` is the registry's answer, read only for a specifier without
/// a version: `None` where the registry does not know the package,
/// `Some(None)` where it has no version of it.
pub fn parse_package_and_version(package_specifier: &str, last_version: Option<Option<String>>) -> (res:
    Result<(String, String), InstallError>)
    ensures
        match spec_versioned_package(package_specifier@) {
            None => res matches Err(InstallError::InvalidPackageIdentifier { name }) && name@
                == package_specifier@,
            Some((n, Some(v))) => res matches Ok((a, b)) && a@ == n && b@ == v,
            Some((n, None)) => match last_version {
                None => res matches Err(InstallError::PackageNotFound { name }) && name@ == n,
                Some(None) => res matches Err(InstallError::NoVersionsAvailable { name }) && name@ == n,
                Some(Some(v)) => res matches Ok((a, b)) && a@ == n && b@ == v@,
            },
        },
{
    let p = VersionedPackage::try_from(package_specifier)?;
    match p.version {
        Some(v) => Ok((p.name, v)),
        None => match last_version {
            None => Err(InstallError::PackageNotFound { name: p.name }),
            Some(None) => Err(InstallError::NoVersionsAvailable { name: p.name }),
            Some(Some(v)) => Ok((p.name, v)),
        },
    }
}

/// What `install` does.
#[derive(Debug, Clone, PartialEq, Eq)]
pub enum InstallAction {
    /// Install the packages of the lockfile in the current directory.
    FromLockfile,
    /// Install the named packages, globally or locally.
    Packages { global: bool },
}

/// What `install` does: named packages go where the flag says; with no
/// package named, a local install follows the lockfile and a global one is
/// refused.
pub fn wapm_install_action(options: &InstallOpt) -> (res: Result<InstallAction, InstallError>)
    ensures
        options.global && options.packages@.len() == 0 ==> res matches Err(
            InstallError::MustSupplyPackagesWithGlobalFlag,
        ),
        !options.global && options.packages@.len() == 0 ==> res matches Ok(InstallAction::FromLockfile),
        options.packages@.len() > 0 ==> (res matches Ok(InstallAction::Packages { global })
            && global == options.global),
{
    if options.packages.len() == 0 {
        if options.global {
            Err(InstallError::MustSupplyPackagesWithGlobalFlag)
        } else {
            Ok(InstallAction::FromLockfile)
        }
    } else {
        Ok(InstallAction::Packages { global: options.global })
    }
}

/// The package manager that bindings are installed with.
#[derive(Debug, Clone, Copy, PartialEq, Eq, Structural)]
pub enum Target {
    Npm,
    Yarn,
    Pip,
}

/// The language of a package's bindings.
#[derive(Debug, Clone, Copy, PartialEq, Eq, Structural)]
pub enum Language {
    JavaScript,
    Python,
}

/// At most one package manager is chosen (the command line refuses more).
pub open spec fn one_target(options: InstallOpt) -> bool {
    !(options.yarn && options.npm) && !(options.yarn && options.pip) && !(options.npm
        && options.pip)
}

impl Target {
    /// The package manager that the options choose, if any.
    pub fn from_options(options: &InstallOpt) -> (res: Option<Target>)
        requires
            one_target(*options),
        ensures
            res == if options.yarn {
                Some(Target::Yarn)
            } else if options.npm {
                Some(Target::Npm)
            } else if options.pip {
                Some(Target::Pip)
            } else {
                None
            },
    {
        if options.yarn {
            Some(Target::Yarn)
        } else if options.npm {
            Some(Target::Npm)
        } else if options.pip {
            Some(Target::Pip)
        } else {
            None
        }
    }

    /// The language of the bindings that the package manager installs.
    pub fn language(&self) -> (res: Language)
        ensures
            res == match *self {
                Target::Npm | Target::Yarn => Language::JavaScript,
                Target::Pip => Language::Python,
            },
    {
        match self {
            Target::Npm | Target::Yarn => Language::JavaScript,
            Target::Pip => Language::Python,
        }
    }

    /// The program and its arguments that install bindings from `url`.
    pub fn command(&self, url: &str, dev: bool) -> (res: (String, Vec<String>))
        ensures
            match *self {
                Target::Npm => res.0@ == "npm"@ && res.1@.map_values(|a: String| a@) == if dev {
                    seq!["install"@, "--save-dev"@, url@]
                } else {
                    seq!["install"@, url@]
                },
                Target::Yarn => res.0@ == "yarn"@ && res.1@.map_values(|a: String| a@) == if dev {
                    seq!["add"@, "--dev"@, url@]
                } else {
                    seq!["add"@, url@]
                },
                Target::Pip => res.0@ == "pip"@ && res.1@.map_values(|a: String| a@) == seq![
                    "install"@,
                    url@,
                ],
            },
    {
        let mut args: Vec<String> = Vec::new();
        let program = match self {
            Target::Npm => {
                args.push("install".to_owned());
                if dev {
                    args.push("--save-dev".to_owned());
                }
                "npm".to_owned()
            },
            Target::Yarn => {
                args.push("add".to_owned());
                if dev {
                    args.push("--dev".to_owned());
                }
                "yarn".to_owned()
            },
            Target::Pip => {
                args.push("install".to_owned());
                "pip".to_owned()
            },
        };
        args.push(url.to_owned());
        assert(args@.map_values(|a: String| a@) =~= match *self {
            Target::Npm => if dev {
                seq!["install"@, "--save-dev"@, url@]
            } else {
                seq!["install"@, url@]
            },
            Target::Yarn => if dev {
                seq!["add"@, "--dev"@, url@]
            } else {
                seq!["add"@, url@]
            },
            Target::Pip => seq!["install"@, url@],
        });
        (program, args)
    }
}

/// The one package whose bindings are installed.
pub fn bindings_package(packages: &Vec<String>) -> (res: Result<VersionedPackage, InstallError>)
    ensures
        packages@.len() == 0 ==> res matches Err(InstallError::NoPackageProvided),
        packages@.len() > 1 ==> res matches Err(InstallError::TooManyPackagesForBindings),
        packages@.len() == 1 ==> match spec_versioned_package(packages@[0]@) {
            Some((n, v)) => res matches Ok(p) && p.name@ == n && match v {
                Some(x) => p.version matches Some(y) && y@ == x,
                None => p.version is None,
            },
            None => res matches Err(InstallError::InvalidPackageIdentifier { name }) && name@
                == packages@[0]@,
        },
{
    if packages.len() == 0 {
        Err(InstallError::NoPackageProvided)
    } else if packages.len() > 1 {
        Err(InstallError::TooManyPackagesForBindings)
    } else {
        VersionedPackage::try_from(packages[0].as_str())
    }
}


/// Why a package file could not be downloaded.
#[derive(Debug, Clone, PartialEq, Eq)]
pub enum DownloadError {
    /// The version is not a semantic version: the package, the version, and
    /// why it is not one.
    InvalidVersion { name: String, version: String, reason: String },
    /// The package name has more than one `/`.
    FailedToParsePackageName(String),
    /// The downloaded file is not a package file.
    NotPiritaFile,
}

/// Where a package file goes: its key (`name@version`), the package's
/// directory (`wapm_packages/<namespace>/<name>@<version>` under the install
/// directory), and the file itself, `package.pirita` in that directory.
#[derive(Debug, Clone, PartialEq, Eq)]
pub struct PiritaLocation {
    pub key: String,
    pub package_dir: String,
    pub target_file: String,
}

/// Where the package file of a version of a package goes under a directory.
pub fn pirita_location(directory: &str, name: &str, version: &str) -> (res: Result<
    PiritaLocation,
    DownloadError,
>)
    ensures
        match semver_read(version@) {
            Err(m) => res matches Err(DownloadError::InvalidVersion { name: n, version: v, reason })
                && n@ == name@ && v@ == version@ && reason@ == m,
            Ok(v) => match spec_namespace_and_name(name@) {
                None => res matches Err(DownloadError::FailedToParsePackageName(n)) && n@ == name@,
                Some((ns, pkg)) => res matches Ok(loc) && loc.key@ == name@ + seq!['@']
                    + version_text(v) && loc.package_dir@ == spec_join(
                    spec_join(spec_join(directory@, "wapm_packages"@), ns),
                    pkg + seq!['@'] + version_text(v),
                ) && loc.target_file@ == spec_join(loc.package_dir@, "package.pirita"@),
            },
        },
{
    let v = match Version::read(version) {
        Ok(v) => v,
        Err(m) => {
            return Err(
                DownloadError::InvalidVersion {
                    name: name.to_owned(),
                    version: version.to_owned(),
                    reason: m,
                },
            );
        },
    };
    let key = package_version_text(name, &v);
    let (ns, pkg) = match get_package_namespace_and_name(name) {
        Some(p) => p,
        None => {
            return Err(DownloadError::FailedToParsePackageName(name.to_owned()));
        },
    };
    let full = package_version_text(pkg.as_str(), &v);
    let dir = join_path(directory, "wapm_packages");
    let dir = join_path(dir.as_str(), ns.as_str());
    let package_dir = join_path(dir.as_str(), full.as_str());
    let target_file = join_path(package_dir.as_str(), "package.pirita");
    Ok(PiritaLocation { key, package_dir, target_file })
}

/// Whether a package file is downloaded again.
#[derive(Debug, Clone, Copy, PartialEq, Eq, Structural)]
pub enum DownloadDecision {
    /// Download it.
    Download,
    /// A file of the same size is there: ask whether to download it again.
    AskUser,
    /// Keep what is there.
    Keep,
}

/// Whether to download a package file: always without the cache or when
/// converting; otherwise ask when a file of the announced size is already
/// there, and keep what is there else.
pub fn download_decision(
    nocache: bool,
    autoconvert: bool,
    target_exists: bool,
    target_len: u64,
    total_size: u64,
) -> (res: DownloadDecision)
    ensures
        res == (if nocache || autoconvert {
            DownloadDecision::Download
        } else if target_exists && target_len == total_size {
            DownloadDecision::AskUser
        } else {
            DownloadDecision::Keep
        }),
{
    if nocache || autoconvert {
        DownloadDecision::Download
    } else if target_exists && target_len == total_size {
        DownloadDecision::AskUser
    } else {
        DownloadDecision::Keep
    }
}

/// The announced size of a download: the `Content-Length` header read as a
/// number, or the largest number where it is missing or not one.
pub fn content_length(header: Option<&str>) -> (res: u64)
    ensures
        res == match header {
            Some(h) => match spec_parse_u64(h@) {
                Some(n) => n,
                None => u64::MAX,
            },
            None => u64::MAX,
        },
{
    match header {
        Some(h) => match parse_u64(h) {
            Some(n) => n,
            None => u64::MAX,
        },
        None => u64::MAX,
    }
}

/// How far a download has come after a chunk: what came before plus the
/// chunk, no further than the announced size.
pub fn download_progress(downloaded: u64, chunk_len: u64, total_size: u64) -> (res: u64)
    ensures
        res == (if downloaded + chunk_len < total_size {
            downloaded + chunk_len
        } else {
            total_size as int
        }),
{
    let n = downloaded.saturating_add(chunk_len);
    if n < total_size {
        n
    } else {
        total_size
    }
}

/// How `{:?}` writes a string: in double quotes, with special characters
/// escaped.
pub uninterp spec fn debug_quote(text: Seq<char>) -> Seq<char>;

/// Writes a string with `{:?}`. Claimed: the text written depends on the
/// string alone, and begins and ends with a double quote. How characters
/// are escaped between the quotes is not stated.
#[verifier::external_body]
fn debug_quoted(text: &str) -> (res: String)
    ensures
        res@ == debug_quote(text@),
        res@.len() >= 2 && res@[0] == '"' && res@.last() == '"',
{
    format!("{:?}", text)
}

/// The command line stored for a command of a package file:
/// `wasmer run "<file>" --invoke "<command>"`, each quoted as `{:?}` quotes.
pub fn pirita_bin_command(target_file: &str, command_name: &str) -> (res: String)
    ensures
        res@ == "wasmer run "@ + debug_quote(target_file@) + " --invoke "@ + debug_quote(
            command_name@,
        ),
{
    let f = debug_quoted(target_file);
    let c = debug_quoted(command_name);
    String::from_str("wasmer run ").concat(f.as_str()).concat(" --invoke ").concat(c.as_str())
}

/// Where that command line is stored: `wapm_packages/.bin/<command>` under
/// the install directory.
pub fn pirita_bin_path(directory: &str, command_name: &str) -> (res: String)
    ensures
        res@ == spec_join(spec_join(spec_join(directory@, "wapm_packages"@), ".bin"@), command_name@),
{
    let p = join_path(directory, "wapm_packages");
    let p = join_path(p.as_str(), ".bin");
    join_path(p.as_str(), command_name)
}


/// The downloads to try for a package, in order, each with whether it is
/// converted to a package file: its package file where the registry has one,
/// then its archive, converted; only the archive where there is no package
/// file.
pub fn download_attempts(pirita_download_url: &Option<String>, download_url: &str) -> (res: Vec<
    (String, bool),
>)
    ensures
        match pirita_download_url {
            Some(p) => res@.len() == 2 && res@[0].0@ == p@ && !res@[0].1 && res@[1].0@
                == download_url@ && res@[1].1,
            None => res@.len() == 1 && res@[0].0@ == download_url@ && res@[0].1,
        },
{
    let mut out: Vec<(String, bool)> = Vec::new();
    match pirita_download_url {
        Some(p) => out.push((p.clone(), false)),
        None => {},
    }
    out.push((download_url.to_owned(), true));
    out
}

/// Whether a download skips the cache: with `--nocache`, or when all prompts
/// are agreed to.
pub fn skip_download_cache(options: &InstallOpt) -> (res: bool)
    ensures
        res == (options.nocache || options.force_yes),
{
    options.nocache || options.force_yes
}

} // verus!
