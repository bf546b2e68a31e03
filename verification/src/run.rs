//! The command lines with which packages are run.

use vstd::prelude::*;
use vstd::string::StringExecFns;
use crate::config::{join_path, spec_join};
use crate::text::{ends_with, file_name, spec_ends_with, spec_file_name, str_eq};

verus! {

/// Options of the `run` subcommand.
#[derive(Debug, Clone, PartialEq, Eq)]
pub struct RunOpt {
    /// Command name
    pub command: String,
    /// WASI pre-opened directory
    pub pre_opened_directories: Vec<String>,
    /// Application arguments
    pub args: Vec<String>,
}

/// Why a command could not be run from a package file.
#[derive(Debug, Clone, PartialEq, Eq)]
pub enum PiritaRunError {
    Initialize(PiritaInitializeError),
    Run(String),
}

/// Why a package file command could not be found.
#[derive(Debug, Clone, PartialEq, Eq)]
pub enum PiritaInitializeError {
    CannotGetCurrentDir(String),
    CouldNotFindCommandInDotBin(String),
}

/// Why a command line stored for a package file is not one that can be run.
#[derive(Debug, Clone, PartialEq, Eq)]
pub enum PiritaCommandError {
    /// The command line has quotes that do not match.
    MismatchedQuotes,
    /// The command line does not start with `wasmer run`; the command's name
    /// and the words of the line.
    NotWasmerRun { command_name: String, words: Vec<String> },
}

pub open spec fn words_view(v: Seq<String>) -> Seq<Seq<char>> {
    v.map_values(|s: String| s@)
}

/// The words that `shellwords::split` reads from a command line, or none
/// when its quotes do not match.
pub uninterp spec fn shell_split(text: Seq<char>) -> Option<Seq<Seq<char>>>;

/// Splits a command line into words with `shellwords::split`. Claimed: the
/// outcome depends on the text alone.
#[verifier::external_body]
fn split_shell_words(text: &str) -> (res: Option<Vec<String>>)
    ensures
        match res {
            Some(v) => shell_split(text@) == Some(words_view(v@)),
            None => shell_split(text@) is None,
        },
{
    shellwords::split(text).ok()
}

/// The arguments for the runtime's `run` that a stored command line holds:
/// the words after `wasmer run`.
pub open spec fn spec_pirita_args(words: Seq<Seq<char>>) -> Option<Seq<Seq<char>>> {
    if words.len() >= 2 && words[0] == "wasmer"@ && words[1] == "run"@ {
        Some(words.subrange(2, words.len() as int))
    } else {
        None
    }
}

/// The arguments after `wasmer run` in the words of a stored command line.
pub fn pirita_args_from_words(words: Vec<String>, command_name: &str) -> (res: Result<
    Vec<String>,
    PiritaCommandError,
>)
    ensures
        match spec_pirita_args(words_view(words@)) {
            Some(a) => res matches Ok(v) && words_view(v@) == a,
            None => res matches Err(PiritaCommandError::NotWasmerRun { command_name: c, words: w })
                && c@ == command_name@ && words_view(w@) == words_view(words@),
        },
{
    let ghost wv = words_view(words@);
    if words.len() >= 2 && str_eq(words[0].as_str(), "wasmer") && str_eq(words[1].as_str(), "run") {
        let mut rest: Vec<String> = Vec::new();
        for i in 2..words.len()
            invariant
                wv == words_view(words@),
                2 <= words@.len(),
                rest@.len() == i - 2,
                words_view(rest@) == wv.subrange(2, i as int),
        {
            let ghost before = rest@;
            rest.push(words[i].clone());
            assert(words_view(rest@) =~= wv.subrange(2, i + 1));
        }
        assert(wv[0] == words@[0]@ && wv[1] == words@[1]@);
        Ok(rest)
    } else {
        proof {
            if words@.len() >= 2 {
                assert(wv[0] == words@[0]@ && wv[1] == words@[1]@);
            }
        }
        Err(PiritaCommandError::NotWasmerRun { command_name: command_name.to_owned(), words })
    }
}

/// The runtime arguments for a command line stored for a package file: the
/// line is split into words, which must start with `wasmer run`.
pub fn try_run_pirita_cmd(cmd: &str, command_name: &str) -> (res: Result<Vec<String>, PiritaCommandError>)
    ensures
        match shell_split(cmd@) {
            None => res matches Err(PiritaCommandError::MismatchedQuotes),
            Some(words) => match spec_pirita_args(words) {
                Some(a) => res matches Ok(v) && words_view(v@) == a,
                None => res matches Err(PiritaCommandError::NotWasmerRun { .. }),
            },
        },
{
    match split_shell_words(cmd) {
        None => Err(PiritaCommandError::MismatchedQuotes),
        Some(words) => pirita_args_from_words(words, command_name),
    }
}

/// The runtime's arguments to run a package file: the runtime's own
/// arguments, `run`, the stored arguments, then the user's.
pub fn pirita_command_line(runtime_args: &Vec<String>, args: &Vec<String>, rt_args: &Vec<String>) -> (res:
    Vec<String>)
    ensures
        words_view(res@) == words_view(runtime_args@) + seq!["run"@] + words_view(args@)
            + words_view(rt_args@),
{
    let mut out: Vec<String> = Vec::new();
    append_all(&mut out, runtime_args);
    out.push("run".to_owned());
    append_all(&mut out, args);
    append_all(&mut out, rt_args);
    assert(words_view(out@) =~= words_view(runtime_args@) + seq!["run"@] + words_view(args@)
        + words_view(rt_args@));
    out
}

/// Appends copies of `more` to `out`.
fn append_all(out: &mut Vec<String>, more: &Vec<String>)
    ensures
        words_view(final(out)@) == words_view(old(out)@) + words_view(more@),
{
    let ghost start = words_view(out@);
    for i in 0..more.len()
        invariant
            start == words_view(old(out)@),
            out@.len() == start.len() + i,
            words_view(out@) == start + words_view(more@).take(i as int),
    {
        let ghost before = out@;
        out.push(more[i].clone());
        assert(out@ == before.push(more@[i as int]));
        assert(words_view(out@) =~= words_view(before).push(more@[i as int]@));
        assert(words_view(more@).take(i + 1) =~= words_view(more@).take(i as int).push(
            more@[i as int]@,
        ));
        assert(words_view(out@) =~= start + words_view(more@).take(i + 1));
    }
    assert(words_view(more@).take(more.len() as int) =~= words_view(more@));
}

/// The `--dir=<directory>` flags that pre-open directories for WASI.
pub fn preopen_flags(pre_opened_directories: &Vec<String>) -> (res: Vec<String>)
    ensures
        words_view(res@) == words_view(pre_opened_directories@).map_values(
            |d: Seq<char>| "--dir="@ + d,
        ),
{
    let ghost dv = words_view(pre_opened_directories@);
    let mut out: Vec<String> = Vec::new();
    for i in 0..pre_opened_directories.len()
        invariant
            dv == words_view(pre_opened_directories@),
            out@.len() == i,
            words_view(out@) == dv.map_values(|d: Seq<char>| "--dir="@ + d).take(i as int),
    {
        assert(dv[i as int] == pre_opened_directories@[i as int]@);
        out.push(String::from_str("--dir=").concat(pre_opened_directories[i].as_str()));
        assert(words_view(out@) =~= dv.map_values(|d: Seq<char>| "--dir="@ + d).take(i + 1));
    }
    assert(dv.map_values(|d: Seq<char>| "--dir="@ + d).take(pre_opened_directories.len() as int)
        =~= dv.map_values(|d: Seq<char>| "--dir="@ + d));
    out
}

/// The `--mapdir=<guest>:<host>` flags that map the manifest's file system
/// entries, each host path under the manifest's directory.
pub fn mapdir_flags(fs: &Vec<(String, String)>, manifest_dir: &str) -> (res: Vec<String>)
    ensures
        res@.len() == fs@.len(),
        forall|i: int|
            0 <= i < fs@.len() ==> (#[trigger] res@[i])@ == "--mapdir="@ + fs@[i].0@ + ":"@
                + spec_join(manifest_dir@, fs@[i].1@),
{
    let mut out: Vec<String> = Vec::new();
    for i in 0..fs.len()
        invariant
            out@.len() == i,
            forall|k: int|
                0 <= k < i ==> (#[trigger] out@[k])@ == "--mapdir="@ + fs@[k].0@ + ":"@ + spec_join(
                    manifest_dir@,
                    fs@[k].1@,
                ),
    {
        let host = join_path(manifest_dir, fs[i].1.as_str());
        let flag = String::from_str("--mapdir=").concat(fs[i].0.as_str()).concat(":").concat(
            host.as_str(),
        );
        out.push(flag);
    }
    out
}

/// The name that the runtime is told to run the module under: the command's
/// name, unless the runtime is another than the default or the package asks
/// not to rename its commands.
pub fn command_override_name(using_default_runtime: bool, disable_command_rename: bool, command_name: &str) -> (res:
    Option<String>)
    ensures
        !using_default_runtime || disable_command_rename ==> res is None,
        using_default_runtime && !disable_command_rename ==> (res matches Some(n) && n@
            == command_name@),
{
    if !using_default_runtime || disable_command_rename {
        None
    } else {
        Some(command_name.to_owned())
    }
}

/// The runtime's command line for a module: its path (the directory joined
/// with the module's path), the command name to run it under, the
/// pre-opened directories, the manifest's extra flags, the cache key, `--`,
/// and the arguments.
pub open spec fn spec_run_command(
    args: Seq<Seq<char>>,
    wasmer_extra_flags: Option<Seq<Seq<char>>>,
    wasi_preopened_dir_flags: Seq<Seq<char>>,
    directory: Seq<char>,
    wasm_file_path: Seq<char>,
    override_command_name: Option<Seq<char>>,
    prehashed_cache_key: Option<Seq<char>>,
) -> Seq<Seq<char>> {
    seq![spec_join(spec_join(seq![], directory), wasm_file_path)] + match override_command_name {
        Some(cn) => seq!["--command-name="@ + cn],
        None => seq![],
    } + wasi_preopened_dir_flags + match wasmer_extra_flags {
        Some(f) => f,
        None => seq![],
    } + match prehashed_cache_key {
        Some(k) => seq!["--cache-key=\""@ + k + "\""@],
        None => seq![],
    } + seq!["--"@] + args
}

/// Builds the runtime's command line for a module.
pub fn create_run_command(
    args: &Vec<String>,
    wasmer_extra_flags: Option<Vec<String>>,
    wasi_preopened_dir_flags: Vec<String>,
    directory: &str,
    wasm_file_path: &str,
    override_command_name: Option<String>,
    prehashed_cache_key: Option<String>,
) -> (res: Vec<String>)
    ensures
        words_view(res@) == spec_run_command(
            words_view(args@),
            match wasmer_extra_flags {
                Some(f) => Some(words_view(f@)),
                None => None,
            },
            words_view(wasi_preopened_dir_flags@),
            directory@,
            wasm_file_path@,
            match override_command_name {
                Some(c) => Some(c@),
                None => None,
            },
            match prehashed_cache_key {
                Some(k) => Some(k@),
                None => None,
            },
        ),
{
    let path = join_path("", directory);
    proof {
        reveal_strlit("");
    }
    assert(""@ =~= seq![]);
    let path = join_path(path.as_str(), wasm_file_path);
    let mut out: Vec<String> = Vec::new();
    out.push(path);
    let ghost mid0 = words_view(out@);
    assert(mid0 =~= seq![spec_join(spec_join(seq![], directory@), wasm_file_path@)]);
    let ghost o1: Seq<Seq<char>> = match &override_command_name {
        Some(cn) => seq!["--command-name="@ + cn@],
        None => seq![],
    };
    match &override_command_name {
        Some(cn) => out.push(String::from_str("--command-name=").concat(cn.as_str())),
        None => {},
    }
    let ghost mid1 = words_view(out@);
    assert(mid1 =~= mid0 + o1);
    append_all(&mut out, &wasi_preopened_dir_flags);
    let ghost mid2 = words_view(out@);
    let ghost o3: Seq<Seq<char>> = match &wasmer_extra_flags {
        Some(f) => words_view(f@),
        None => seq![],
    };
    match &wasmer_extra_flags {
        Some(f) => append_all(&mut out, f),
        None => {},
    }
    let ghost mid3 = words_view(out@);
    assert(mid3 =~= mid2 + o3);
    let ghost o4: Seq<Seq<char>> = match &prehashed_cache_key {
        Some(k) => seq!["--cache-key=\""@ + k@ + "\""@],
        None => seq![],
    };
    match &prehashed_cache_key {
        Some(k) => out.push(String::from_str("--cache-key=\"").concat(k.as_str()).concat("\"")),
        None => {},
    }
    let ghost mid4 = words_view(out@);
    assert(mid4 =~= mid3 + o4);
    out.push("--".to_owned());
    assert(words_view(out@) =~= mid4 + seq!["--"@]);
    append_all(&mut out, args);
    assert(words_view(out@) =~= mid4 + seq!["--"@] + words_view(args@));
    out
}

/// Why running a command failed.
#[derive(Debug, Clone, PartialEq, Eq)]
pub enum RunError {
    CannotRegenLockfile(String, String),
    /// The command (first) of the module (second) is defined but its source (third) does not exist.
    SourceForCommandNotFound(String, String, String),
    ProcessFailed(String, String),
}


/// The runtime that runs modules when no other is configured.
pub const DEFAULT_RUNTIME: &'static str = "wasmer";

/// A character with the Unicode `White_Space` property, as
/// `char::is_whitespace` tells it.
pub open spec fn is_white_space(c: char) -> bool {
    let n = c as u32;
    (0x9 <= n <= 0xD) || n == 0x20 || n == 0x85 || n == 0xA0 || n == 0x1680 || (0x2000 <= n <= 0x200A)
        || n == 0x2028 || n == 0x2029 || n == 0x202F || n == 0x205F || n == 0x3000
}

/// The words of a text: its longest runs of characters that are not
/// whitespace, in order.
pub open spec fn whitespace_words(text: Seq<char>) -> Seq<Seq<char>>
    decreases text.len(),
{
    if text.len() == 0 {
        seq![]
    } else {
        let c = text.last();
        let before = text.drop_last();
        let prev = whitespace_words(before);
        if is_white_space(c) {
            prev
        } else if before.len() > 0 && !is_white_space(before.last()) {
            prev.update(prev.len() - 1, prev.last().push(c))
        } else {
            prev.push(seq![c])
        }
    }
}

/// Splits a text at whitespace with `str::split_whitespace`. Claimed: the
/// words are the text's longest runs of characters that are not Unicode
/// whitespace (`char::is_whitespace`, the `White_Space` property), in order;
/// none is empty, and none holds a space, a tab, a line feed or a carriage
/// return.
#[verifier::external_body]
fn split_whitespace(text: &str) -> (res: Vec<String>)
    ensures
        words_view(res@) == whitespace_words(text@),
        forall|i: int|
            0 <= i < res@.len() ==> (#[trigger] res@[i])@.len() > 0 && !res@[i]@.contains(' ')
                && !res@[i]@.contains('\t') && !res@[i]@.contains('\n') && !res@[i]@.contains('\r'),
{
    text.split_whitespace().map(|w| w.to_string()).collect()
}

/// The runtime and its own arguments that a setting of the runtime names:
/// its first word and the words after it, split at whitespace; the default
/// runtime, without arguments, where there is no setting or it has no word.
pub fn runtime_with_args(setting: Option<&str>) -> (res: (String, Vec<String>))
    ensures
        match setting {
            Some(v) if whitespace_words(v@).len() > 0 => res.0@ == whitespace_words(v@)[0] && words_view(res.1@)
                == whitespace_words(v@).drop_first(),
            _ => res.0@ == DEFAULT_RUNTIME@ && res.1@.len() == 0,
        },
{
    match setting {
        Some(v) => {
            let mut words = split_whitespace(v);
            if words.len() > 0 {
                let ghost all = words_view(words@);
                let runtime = words.remove(0);
                assert(words_view(words@) =~= all.drop_first());
                (runtime, words)
            } else {
                (DEFAULT_RUNTIME.to_string(), Vec::new())
            }
        },
        None => (DEFAULT_RUNTIME.to_string(), Vec::new()),
    }
}

/// What a package's manifest says about running its modules: extra flags for
/// the runtime, whether its commands keep the module's name, and the file
/// system entries it maps (guest path, host path under the manifest's
/// directory).
#[derive(Debug, Clone, PartialEq, Eq)]
pub struct ManifestRunSettings {
    pub wasmer_extra_flags: Option<String>,
    pub disable_command_rename: bool,
    pub fs: Vec<(String, String)>,
}

pub struct ManifestRunModel {
    pub wasmer_extra_flags: Option<Seq<char>>,
    pub disable_command_rename: bool,
    pub fs: Seq<(Seq<char>, Seq<char>)>,
}

impl View for ManifestRunSettings {
    type V = ManifestRunModel;

    open spec fn view(&self) -> ManifestRunModel {
        ManifestRunModel {
            wasmer_extra_flags: match self.wasmer_extra_flags {
                Some(f) => Some(f@),
                None => None,
            },
            disable_command_rename: self.disable_command_rename,
            fs: self.fs@.map_values(|p: (String, String)| (p.0@, p.1@)),
        }
    }
}

/// The `--mapdir=<guest>:<host>` flags of a manifest's file system entries.
pub open spec fn spec_mapdirs(fs: Seq<(Seq<char>, Seq<char>)>, manifest_dir: Seq<char>) -> Seq<Seq<char>> {
    Seq::new(fs.len(), |i: int| "--mapdir="@ + fs[i].0 + ":"@ + spec_join(manifest_dir, fs[i].1))
}

/// Whether a runtime is the default one: its file name ends with `wasmer`.
pub open spec fn is_default_runtime(runtime: Seq<char>) -> bool {
    match spec_file_name(runtime) {
        Some(n) => spec_ends_with(n, "wasmer"@),
        None => false,
    }
}

/// The runtime's arguments to run a module of a package: the runtime's own
/// arguments, then the module's command line. The manifest, where there is
/// one, gives extra flags (split at whitespace), the mapped directories after
/// the pre-opened ones, and whether the command keeps the module's name; the
/// command's name is passed on only to the default runtime.
pub open spec fn spec_runtime_arguments(
    runtime: Seq<char>,
    runtime_args: Seq<Seq<char>>,
    run_dir: Seq<char>,
    source: Seq<char>,
    manifest_dir: Seq<char>,
    command_name: Seq<char>,
    manifest: Option<ManifestRunModel>,
    pre_opened_directories: Seq<Seq<char>>,
    args: Seq<Seq<char>>,
    prehashed_cache_key: Option<Seq<char>>,
) -> Seq<Seq<char>> {
    let extra = match manifest {
        Some(m) => match m.wasmer_extra_flags {
            Some(f) => Some(whitespace_words(f)),
            None => None,
        },
        None => None,
    };
    let disable = match manifest {
        Some(m) => m.disable_command_rename,
        None => false,
    };
    let mapdirs = match manifest {
        Some(m) => spec_mapdirs(m.fs, manifest_dir),
        None => seq![],
    };
    let name = if !is_default_runtime(runtime) || disable {
        None
    } else {
        Some(command_name)
    };
    runtime_args + spec_run_command(
        args,
        extra,
        pre_opened_directories.map_values(|d: Seq<char>| "--dir="@ + d) + mapdirs,
        run_dir,
        source,
        name,
        prehashed_cache_key,
    )
}

/// The runtime's arguments to run a module of a package.
pub fn runtime_arguments(
    runtime: &str,
    runtime_args: &Vec<String>,
    run_dir: &str,
    source: &str,
    manifest_dir: &str,
    command_name: &str,
    manifest: &Option<ManifestRunSettings>,
    pre_opened_directories: &Vec<String>,
    args: &Vec<String>,
    prehashed_cache_key: Option<String>,
) -> (res: Vec<String>)
    ensures
        words_view(res@) == spec_runtime_arguments(
            runtime@,
            words_view(runtime_args@),
            run_dir@,
            source@,
            manifest_dir@,
            command_name@,
            match manifest {
                Some(m) => Some(m@),
                None => None,
            },
            words_view(pre_opened_directories@),
            words_view(args@),
            match prehashed_cache_key {
                Some(k) => Some(k@),
                None => None,
            },
        ),
{
    let extra = match manifest {
        Some(m) => match &m.wasmer_extra_flags {
            Some(f) => Some(split_whitespace(f.as_str())),
            None => None,
        },
        None => None,
    };
    let disable = match manifest {
        Some(m) => m.disable_command_rename,
        None => false,
    };
    let mut flags = preopen_flags(pre_opened_directories);
    match manifest {
        Some(m) => {
            let maps = mapdir_flags(&m.fs, manifest_dir);
            let ghost before = words_view(flags@);
            assert(words_view(maps@) =~= spec_mapdirs(m@.fs, manifest_dir@));
            append_all(&mut flags, &maps);
            assert(words_view(flags@) == before + spec_mapdirs(m@.fs, manifest_dir@));
        },
        None => {
            assert(words_view(flags@) =~= words_view(flags@) + Seq::<Seq<char>>::empty());
        },
    }
    let default_runtime = match file_name(runtime) {
        Some(n) => ends_with(n.as_str(), DEFAULT_RUNTIME),
        None => false,
    };
    proof {
        reveal_strlit("wasmer");
    }
    let name = command_override_name(default_runtime, disable, command_name);
    let line = create_run_command(args, extra, flags, run_dir, source, name, prehashed_cache_key);
    let mut out: Vec<String> = Vec::new();
    append_all(&mut out, runtime_args);
    append_all(&mut out, &line);
    assert(words_view(out@) =~= words_view(runtime_args@) + words_view(line@));
    out
}


/// The runtime's arguments begin with its own, then the module's path;
/// the default runtime is told the command's name right after it
/// (`--command-name=<name>`) unless a manifest disables the rename, and
/// without a manifest it is never disabled; the command's own arguments
/// come last, after `--`.
pub proof fn law_command_name_passed(
    runtime: Seq<char>,
    runtime_args: Seq<Seq<char>>,
    run_dir: Seq<char>,
    source: Seq<char>,
    manifest_dir: Seq<char>,
    command_name: Seq<char>,
    manifest: Option<ManifestRunModel>,
    pre_opened_directories: Seq<Seq<char>>,
    args: Seq<Seq<char>>,
    prehashed_cache_key: Option<Seq<char>>,
)
    ensures
        ({
            let r = spec_runtime_arguments(
                runtime,
                runtime_args,
                run_dir,
                source,
                manifest_dir,
                command_name,
                manifest,
                pre_opened_directories,
                args,
                prehashed_cache_key,
            );
            &&& r.len() >= runtime_args.len() + args.len() + 2
            &&& r.take(runtime_args.len() as int) == runtime_args
            &&& r[runtime_args.len() as int] == spec_join(spec_join(seq![], run_dir), source)
            &&& r.skip(r.len() - args.len()) == args
            &&& r[r.len() - args.len() - 1] == "--"@
            &&& (is_default_runtime(runtime) && (manifest is None || !manifest->Some_0.disable_command_rename))
                ==> r[runtime_args.len() + 1int] == "--command-name="@ + command_name
        }),
{
    let r = spec_runtime_arguments(
        runtime,
        runtime_args,
        run_dir,
        source,
        manifest_dir,
        command_name,
        manifest,
        pre_opened_directories,
        args,
        prehashed_cache_key,
    );
    let extra = match manifest {
        Some(m) => match m.wasmer_extra_flags {
            Some(f) => Some(whitespace_words(f)),
            None => None,
        },
        None => None,
    };
    let disable = match manifest {
        Some(m) => m.disable_command_rename,
        None => false,
    };
    let mapdirs = match manifest {
        Some(m) => spec_mapdirs(m.fs, manifest_dir),
        None => seq![],
    };
    let name = if !is_default_runtime(runtime) || disable {
        None
    } else {
        Some(command_name)
    };
    let rc = spec_run_command(
        args,
        extra,
        pre_opened_directories.map_values(|d: Seq<char>| "--dir="@ + d) + mapdirs,
        run_dir,
        source,
        name,
        prehashed_cache_key,
    );
    assert(r == runtime_args + rc);
    let head = seq![spec_join(spec_join(seq![], run_dir), source)] + match name {
        Some(cn) => seq!["--command-name="@ + cn],
        None => seq![],
    };
    let mid = (pre_opened_directories.map_values(|d: Seq<char>| "--dir="@ + d) + mapdirs) + match extra {
        Some(f) => f,
        None => seq![],
    } + match prehashed_cache_key {
        Some(k) => seq!["--cache-key=\""@ + k + "\""@],
        None => seq![],
    };
    assert(rc == head + mid + seq!["--"@] + args);
    assert(r.take(runtime_args.len() as int) =~= runtime_args);
    assert(r.skip(r.len() - args.len()) =~= args);
    assert(r[runtime_args.len() as int] == rc[0]);
    assert(r[r.len() - args.len() - 1] == rc[rc.len() - args.len() - 1]);
    if name is Some {
        assert(r[runtime_args.len() + 1int] == rc[1]);
    }
}


/// The rename setting changes one thing only: the default runtime, with the
/// rename not disabled, gets `--command-name=<name>` right after the module's
/// path, and removing that word gives the line it would get with the rename
/// disabled; any other runtime, or one whose manifest disables the rename,
/// gets that line itself, which then does not depend on the runtime.
pub proof fn law_rename_only_adds_command_name(
    runtime: Seq<char>,
    other_runtime: Seq<char>,
    runtime_args: Seq<Seq<char>>,
    run_dir: Seq<char>,
    source: Seq<char>,
    manifest_dir: Seq<char>,
    command_name: Seq<char>,
    manifest: Option<ManifestRunModel>,
    pre_opened_directories: Seq<Seq<char>>,
    args: Seq<Seq<char>>,
    prehashed_cache_key: Option<Seq<char>>,
)
    ensures
        ({
            let off = ManifestRunModel {
                wasmer_extra_flags: match manifest {
                    Some(m) => m.wasmer_extra_flags,
                    None => None,
                },
                disable_command_rename: true,
                fs: match manifest {
                    Some(m) => m.fs,
                    None => seq![],
                },
            };
            let r = spec_runtime_arguments(
                runtime,
                runtime_args,
                run_dir,
                source,
                manifest_dir,
                command_name,
                manifest,
                pre_opened_directories,
                args,
                prehashed_cache_key,
            );
            let r_off = spec_runtime_arguments(
                runtime,
                runtime_args,
                run_dir,
                source,
                manifest_dir,
                command_name,
                Some(off),
                pre_opened_directories,
                args,
                prehashed_cache_key,
            );
            let renamed = is_default_runtime(runtime) && (manifest is None
                || !manifest->Some_0.disable_command_rename);
            &&& r_off == spec_runtime_arguments(
                other_runtime,
                runtime_args,
                run_dir,
                source,
                manifest_dir,
                command_name,
                Some(off),
                pre_opened_directories,
                args,
                prehashed_cache_key,
            )
            &&& renamed ==> r.len() == r_off.len() + 1 && r.remove(runtime_args.len() + 1int) == r_off
            &&& !renamed ==> r == r_off
        }),
{
    let off = ManifestRunModel {
        wasmer_extra_flags: match manifest {
            Some(m) => m.wasmer_extra_flags,
            None => None,
        },
        disable_command_rename: true,
        fs: match manifest {
            Some(m) => m.fs,
            None => seq![],
        },
    };
    let r = spec_runtime_arguments(
        runtime,
        runtime_args,
        run_dir,
        source,
        manifest_dir,
        command_name,
        manifest,
        pre_opened_directories,
        args,
        prehashed_cache_key,
    );
    let r_off = spec_runtime_arguments(
        runtime,
        runtime_args,
        run_dir,
        source,
        manifest_dir,
        command_name,
        Some(off),
        pre_opened_directories,
        args,
        prehashed_cache_key,
    );
    let r_other = spec_runtime_arguments(
        other_runtime,
        runtime_args,
        run_dir,
        source,
        manifest_dir,
        command_name,
        Some(off),
        pre_opened_directories,
        args,
        prehashed_cache_key,
    );
    assert(r_off =~= r_other);
    let mapdirs = match manifest {
        Some(m) => spec_mapdirs(m.fs, manifest_dir),
        None => seq![],
    };
    assert(spec_mapdirs(off.fs, manifest_dir) =~= mapdirs);
    let extra = match manifest {
        Some(m) => match m.wasmer_extra_flags {
            Some(f) => Some(whitespace_words(f)),
            None => None,
        },
        None => None,
    };
    let path = spec_join(spec_join(seq![], run_dir), source);
    let tail = (pre_opened_directories.map_values(|d: Seq<char>| "--dir="@ + d) + mapdirs) + match extra {
        Some(f) => f,
        None => seq![],
    } + match prehashed_cache_key {
        Some(k) => seq!["--cache-key=\""@ + k + "\""@],
        None => seq![],
    } + seq!["--"@] + args;
    assert(r_off =~= runtime_args + seq![path] + tail);
    let renamed = is_default_runtime(runtime) && (manifest is None || !manifest->Some_0.disable_command_rename);
    if renamed {
        assert(r =~= runtime_args + seq![path] + seq!["--command-name="@ + command_name] + tail);
        assert(r.remove(runtime_args.len() + 1int) =~= r_off);
    } else {
        assert(r =~= r_off);
    }
}

} // verus!
