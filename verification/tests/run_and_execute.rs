use std::path::PathBuf;
use wapm_cli::commands::{check_generate, key_listing, key_pair_paths, GenerateError, KeyListing};
use wapm_cli::execute::{
    needs_reinstall,    offline_not_found, package_version_dir, recently_updated, transform_args,
    with_default_preopen, ExecuteArgParsingError, ExecuteArgs, ExecuteError, ExecuteOptInner,
    WaxAction, WaxEvent, WaxRun, WaxStage, WorkOutcome,
};
use wapm_cli::install::{
    content_length, download_attempts, download_decision, download_progress, pirita_bin_command,
    parse_package_and_version, pirita_bin_path, pirita_location, DownloadDecision, DownloadError,
    InstallError,
};
use wapm_cli::bonjour::{ChangedManifestPackages, PackageId};
use wapm_cli::resolved::{sync_packages, RegistryPackage, RegistryVersion, ResolvedManifestPackages, WapmPackageKey};
use wapm_cli::lockfile::Version;
use wapm_cli::publish::{
    check_publish_manifest, PublishError, PublishFsEntry, PublishModule,
    upload_attempts, UploadRoute,    upload_chunks,    chunk_upload_step, content_range, input_signature, normalize_path, use_chunked_upload,
    SignArchiveResult,
};
use wapm_cli::run::{
    runtime_with_args,    create_run_command, pirita_command_line, runtime_arguments, try_run_pirita_cmd,
    ManifestRunSettings, PiritaCommandError,
};
use wapm_cli::text::parse_u64;

fn strings(v: &[&str]) -> Vec<String> {
    v.iter().map(|s| s.to_string()).collect()
}

#[test]
fn create_run_command_vec() {
    let args = strings(&["arg1", "arg2"]);
    let dir = "/tmp/x";
    let wasm_relative_path = "wapm_packages/_/foo@1.0.2/foo_entry.wasm";
    let expected_dir = PathBuf::from(dir)
        .join("wapm_packages")
        .join("_")
        .join("foo@1.0.2")
        .join("foo_entry.wasm");
    let expected_command = vec![
        expected_dir.to_string_lossy().to_string(),
        "--".to_string(),
        "arg1".to_string(),
        "arg2".to_string(),
    ];
    let actual_command = create_run_command(&args, None, vec![], dir, wasm_relative_path, None, None);
    assert_eq!(expected_command, actual_command);
}

#[test]
fn run_command_has_flags_in_order() {
    let actual = create_run_command(
        &strings(&["a"]),
        Some(strings(&["--x"])),
        strings(&["--dir=."]),
        "/d",
        "m.wasm",
        Some("cmd".to_string()),
        Some("key".to_string()),
    );
    assert_eq!(
        actual,
        strings(&["/d/m.wasm", "--command-name=cmd", "--dir=.", "--x", "--cache-key=\"key\"", "--", "a"])
    );
}

#[test]
fn runtime_arguments_follow_the_manifest() {
    let manifest = Some(ManifestRunSettings {
        wasmer_extra_flags: Some("  --enable-simd   --llvm ".to_string()),
        disable_command_rename: false,
        fs: vec![("data".to_string(), "host/data".to_string())],
    });
    let actual = runtime_arguments(
        "/usr/bin/wasmer",
        &strings(&["-q"]),
        "/proj",
        "wapm_packages/_/foo@1.0.0/foo.wasm",
        "/proj/wapm_packages/_/foo@1.0.0",
        "foo",
        &manifest,
        &strings(&["."]),
        &strings(&["x"]),
        None,
    );
    assert_eq!(
        actual,
        strings(&[
            "-q",
            "/proj/wapm_packages/_/foo@1.0.0/foo.wasm",
            "--command-name=foo",
            "--dir=.",
            "--mapdir=data:/proj/wapm_packages/_/foo@1.0.0/host/data",
            "--enable-simd",
            "--llvm",
            "--",
            "x",
        ])
    );
}

#[test]
fn other_runtimes_keep_the_module_name() {
    let actual = runtime_arguments(
        "/usr/bin/wasmtime",
        &vec![],
        "/proj",
        "m.wasm",
        "/proj",
        "foo",
        &None,
        &vec![],
        &vec![],
        None,
    );
    assert_eq!(actual, strings(&["/proj/m.wasm", "--"]));
    let renamed_off = Some(ManifestRunSettings {
        wasmer_extra_flags: None,
        disable_command_rename: true,
        fs: vec![],
    });
    let actual = runtime_arguments(
        "wasmer", &vec![], "/p", "m.wasm", "/p", "foo", &renamed_off, &vec![], &vec![], None,
    );
    assert_eq!(actual, strings(&["/p/m.wasm", "--"]));
}

#[test]
fn pirita_command_lines() {
    let args = try_run_pirita_cmd("wasmer run \"/a b/p.pirita\" --invoke \"cmd\"", "cmd").unwrap();
    assert_eq!(args, strings(&["/a b/p.pirita", "--invoke", "cmd"]));
    assert_eq!(
        try_run_pirita_cmd("wasmer run \"unclosed", "cmd"),
        Err(PiritaCommandError::MismatchedQuotes)
    );
    match try_run_pirita_cmd("wasmtime run x", "cmd") {
        Err(PiritaCommandError::NotWasmerRun { command_name, words }) => {
            assert_eq!(command_name, "cmd");
            assert_eq!(words, strings(&["wasmtime", "run", "x"]));
        }
        other => panic!("unexpected {:?}", other),
    }
    assert_eq!(
        pirita_command_line(&strings(&["-v"]), &args, &strings(&["u"])),
        strings(&["-v", "run", "/a b/p.pirita", "--invoke", "cmd", "u"])
    );
}

#[test]
fn wax_arguments_are_read() {
    let opt = match transform_args(&strings(&["--offline", "--dir", "/a", "--which=foo", "-y"])) {
        Ok(ExecuteArgs::Run(o)) => o,
        other => panic!("unexpected {:?}", other),
    };
    assert!(opt.offline && opt.force_yes);
    assert_eq!(opt.pre_opened_directories, strings(&["/a"]));
    assert_eq!(opt.which, Some("foo".to_string()));
    assert_eq!(opt.command, None);

    let opt = match transform_args(&strings(&["--emscripten", "cowsay", "--", "hello", "--offline"])) {
        Ok(ExecuteArgs::Run(o)) => o,
        other => panic!("unexpected {:?}", other),
    };
    assert!(opt.enable_emscripten && !opt.offline);
    assert_eq!(opt.command, Some("cowsay".to_string()));
    assert_eq!(opt.args, strings(&["hello", "--offline"]));

    assert_eq!(transform_args(&strings(&["-h"])), Ok(ExecuteArgs::Help));
    assert_eq!(
        transform_args(&strings(&["--dir"])),
        Err(ExecuteArgParsingError::MissingValue {
            arg_name: "--dir".to_string(),
            expected: "<DIRECTORY>".to_string()
        })
    );
    assert_eq!(
        transform_args(&strings(&["--which"])),
        Err(ExecuteArgParsingError::MissingValue {
            arg_name: "--which".to_string(),
            expected: "<COMMAND NAME>".to_string()
        })
    );
    assert_eq!(
        transform_args(&strings(&["--color=red"])),
        Err(ExecuteArgParsingError::UnrecognizedArgument { arg_name: "--color".to_string() })
    );
}

#[test]
fn current_directory_is_preopened_by_default() {
    let opt = with_default_preopen(ExecuteOptInner::default());
    assert_eq!(opt.pre_opened_directories, strings(&["."]));
    let opt = with_default_preopen(ExecuteOptInner { no_default_preopen: true, ..Default::default() });
    assert!(opt.pre_opened_directories.is_empty());
}

#[test]
fn cooldown_compares_seconds_then_nanoseconds() {
    assert!(recently_updated(100, 0, 50, 0, 60));
    assert!(!recently_updated(110, 0, 50, 0, 60));
    assert!(recently_updated(110, 5, 50, 6, 60));
    assert!(!recently_updated(110, 6, 50, 6, 60));
    assert!(!recently_updated(i64::MAX, 0, i64::MAX, 0, -1));
}

#[test]
fn offline_errors_tell_why() {
    assert_eq!(
        offline_not_found("foo", true),
        ExecuteError::CommandNotFoundOfflineModeOfflineFlag("foo".to_string())
    );
    assert_eq!(
        offline_not_found("foo", false),
        ExecuteError::CommandNotFoundOfflineMode("foo".to_string())
    );
}

fn opt_for(command: &str) -> ExecuteOptInner {
    with_default_preopen(ExecuteOptInner { command: Some(command.to_string()), ..Default::default() })
}

#[test]
fn wax_without_a_command_fails() {
    let (run, action) = WaxRun::start(ExecuteOptInner::default(), "/w".to_string());
    assert_eq!(run.stage, WaxStage::Done);
    assert_eq!(action, WaxAction::Fail(ExecuteError::NoCommandGiven));
}

#[test]
fn wax_which_prints_the_cached_location() {
    let opt = ExecuteOptInner { which: Some("cowsay".to_string()), ..Default::default() };
    let (run, action) = WaxRun::start(opt, "/w".to_string());
    assert_eq!(action, WaxAction::LookUpIndex { command: "cowsay".to_string() });
    let event = WaxEvent::IndexEntry {
        package_name: "_/cowsay".to_string(),
        version: Version::new(0, 2, 0),
        last_sec: 0,
        last_nsec: 0,
        now_sec: 0,
        now_nsec: 0,
        cooldown: 0,
    };
    assert!(run.accepts(&event));
    let (run, action) = run.step(event);
    assert_eq!(run.stage, WaxStage::Done);
    assert_eq!(action, WaxAction::Print { path: "/w/_/cowsay@0.2.0".to_string() });
}

#[test]
fn wax_which_falls_back_to_the_current_directory() {
    let opt = ExecuteOptInner { which: Some("cowsay".to_string()), ..Default::default() };
    let (run, _) = WaxRun::start(opt, "/w".to_string());
    let (run, action) = run.step(WaxEvent::NoIndexEntry);
    assert_eq!(action, WaxAction::FindLocally { command: "cowsay".to_string() });
    let (run2, action) = run.clone().step(WaxEvent::FoundLocally { manifest_dir: "/p".to_string() });
    assert_eq!(action, WaxAction::Print { path: "/p".to_string() });
    assert_eq!(run2.stage, WaxStage::Done);
    let (_, action) = run.step(WaxEvent::NotFoundLocally);
    assert_eq!(action, WaxAction::Fail(ExecuteError::CommandNotFound { name: "cowsay".to_string() }));
}

#[test]
fn wax_runs_a_local_command_first() {
    let (run, action) = WaxRun::start(opt_for("cowsay"), "/w".to_string());
    assert_eq!(action, WaxAction::FindLocally { command: "cowsay".to_string() });
    let (run, action) = run.step(WaxEvent::FoundLocally { manifest_dir: "/p".to_string() });
    assert_eq!(action, WaxAction::RunLocal);
    assert!(!run.accepts(&WaxEvent::NoIndexEntry));
    let (run, action) = run.step(WaxEvent::Ran(WorkOutcome::Failed("boom".to_string())));
    assert_eq!(action, WaxAction::Propagate("boom".to_string()));
    assert_eq!(run.stage, WaxStage::Done);
}

#[test]
fn wax_runs_a_recent_cached_package() {
    let (run, _) = WaxRun::start(opt_for("cowsay"), "/w".to_string());
    let (run, action) = run.step(WaxEvent::NotFoundLocally);
    assert_eq!(action, WaxAction::LookUpIndex { command: "cowsay".to_string() });
    let (run, action) = run.step(WaxEvent::IndexEntry {
        package_name: "_/cowsay".to_string(),
        version: Version::new(0, 2, 0),
        last_sec: 1000,
        last_nsec: 0,
        now_sec: 1010,
        now_nsec: 0,
        cooldown: 60,
    });
    assert_eq!(
        action,
        WaxAction::CheckExists {
            path: "/w/_/cowsay@0.2.0/wapm_packages/_/cowsay@0.2.0/wapm.toml".to_string()
        }
    );
    let (run, action) = run.step(WaxEvent::Exists(true));
    assert_eq!(action, WaxAction::SaveIndexAndRun { location: "/w/_/cowsay@0.2.0".to_string() });
    let (run, action) = run.step(WaxEvent::Ran(WorkOutcome::Succeeded));
    assert_eq!(action, WaxAction::Finish);
    assert_eq!(run.stage, WaxStage::Done);
}

#[test]
fn wax_offline_without_entry_fails() {
    let opt = ExecuteOptInner { offline: true, ..opt_for("cowsay") };
    let (run, _) = WaxRun::start(opt, "/w".to_string());
    let (run, _) = run.step(WaxEvent::NotFoundLocally);
    let (run, action) = run.step(WaxEvent::NoIndexEntry);
    assert_eq!(
        action,
        WaxAction::Fail(ExecuteError::CommandNotFoundOfflineModeOfflineFlag("cowsay".to_string()))
    );
    assert_eq!(run.stage, WaxStage::Done);
}

#[test]
fn wax_installs_from_the_registry() {
    let (run, _) = WaxRun::start(opt_for("cowsay"), "/w".to_string());
    let (run, _) = run.step(WaxEvent::NotFoundLocally);
    let (run, action) = run.step(WaxEvent::NoIndexEntry);
    assert_eq!(action, WaxAction::QueryPirita { command: "cowsay".to_string() });
    let (run, action) = run.step(WaxEvent::NotInRegistry);
    assert_eq!(action, WaxAction::QueryRegistry { command: "cowsay".to_string() });
    let (run, action) = run.step(WaxEvent::RegistryCommand {
        abi: Some("wasi".to_string()),
        version: "0.3.1".to_string(),
        package_name: "_/cowsay".to_string(),
        download_url: "https://cdn/cowsay.tar.gz".to_string(),
    });
    assert_eq!(
        action,
        WaxAction::Install {
            location: "/w/_/cowsay@0.3.1".to_string(),
            package_name: "_/cowsay".to_string(),
            version: Version::new(0, 3, 1),
            download_url: "https://cdn/cowsay.tar.gz".to_string(),
            verify_signature: false,
        }
    );
    let (run, action) = run.step(WaxEvent::Installed(WorkOutcome::Succeeded));
    assert_eq!(
        action,
        WaxAction::RecordAndRun {
            command: "cowsay".to_string(),
            version: Version::new(0, 3, 1),
            package_name: "_/cowsay".to_string(),
            location: "/w/_/cowsay@0.3.1".to_string(),
        }
    );
    let (_, action) = run.step(WaxEvent::Ran(WorkOutcome::Succeeded));
    assert_eq!(action, WaxAction::Finish);
}

#[test]
fn wax_keeps_an_up_to_date_cache_and_reinstalls_an_old_one() {
    let start = || {
        let (run, _) = WaxRun::start(opt_for("cowsay"), "/w".to_string());
        let (run, _) = run.step(WaxEvent::NotFoundLocally);
        let (run, action) = run.step(WaxEvent::IndexEntry {
            package_name: "_/cowsay".to_string(),
            version: Version::new(0, 2, 0),
            last_sec: 0,
            last_nsec: 0,
            now_sec: 1000,
            now_nsec: 0,
            cooldown: 60,
        });
        assert_eq!(action, WaxAction::QueryPirita { command: "cowsay".to_string() });
        let (run, _) = run.step(WaxEvent::RegistryUnreachable);
        run
    };
    let registry = |version: &str| WaxEvent::RegistryCommand {
        abi: None,
        version: version.to_string(),
        package_name: "_/cowsay".to_string(),
        download_url: "u".to_string(),
    };
    let (run, action) = start().step(registry("0.2.0"));
    assert_eq!(
        action,
        WaxAction::CheckExists {
            path: "/w/_/cowsay@0.2.0/wapm_packages/_/cowsay@0.2.0/wapm.toml".to_string()
        }
    );
    let (_, action) = run.clone().step(WaxEvent::Exists(true));
    assert_eq!(
        action,
        WaxAction::RecordAndRun {
            command: "cowsay".to_string(),
            version: Version::new(0, 2, 0),
            package_name: "_/cowsay".to_string(),
            location: "/w/_/cowsay@0.2.0".to_string(),
        }
    );
    let (_, action) = run.step(WaxEvent::Exists(false));
    assert!(matches!(action, WaxAction::Install { .. }));
    let (run, _) = start().step(registry("0.10.0"));
    let (_, action) = run.step(WaxEvent::Exists(true));
    assert_eq!(
        action,
        WaxAction::Install {
            location: "/w/_/cowsay@0.10.0".to_string(),
            package_name: "_/cowsay".to_string(),
            version: Version::new(0, 10, 0),
            download_url: "u".to_string(),
            verify_signature: false,
        }
    );
}

#[test]
fn wax_refuses_emscripten_and_bad_versions() {
    let (run, _) = WaxRun::start(opt_for("em"), "/w".to_string());
    let (run, _) = run.step(WaxEvent::NotFoundLocally);
    let (run, _) = run.step(WaxEvent::NoIndexEntry);
    let (run, _) = run.step(WaxEvent::RegistryUnreachable);
    assert_eq!(run.stage, WaxStage::Registry);
    let (_, action) = run.clone().step(WaxEvent::RegistryCommand {
        abi: Some("emscripten".to_string()),
        version: "1.0.0".to_string(),
        package_name: "_/em".to_string(),
        download_url: "u".to_string(),
    });
    assert_eq!(action, WaxAction::Fail(ExecuteError::EmscriptenDisabled { name: "em".to_string() }));
    let (_, action) = run.clone().step(WaxEvent::RegistryCommand {
        abi: None,
        version: "1.0".to_string(),
        package_name: "_/em".to_string(),
        download_url: "u".to_string(),
    });
    let reason = semver::Version::parse("1.0").unwrap_err().to_string();
    assert_eq!(action, WaxAction::Fail(ExecuteError::ErrorInDataFromRegistry(reason)));
    let (_, action) = run.step(WaxEvent::RegistryUnreachable);
    assert_eq!(
        action,
        WaxAction::Fail(ExecuteError::CommandNotFoundOfflineMode("em".to_string()))
    );
}

#[test]
fn wax_runs_a_package_file_from_the_registry() {
    let (run, _) = WaxRun::start(opt_for("cowsay"), "/w".to_string());
    let (run, _) = run.step(WaxEvent::NotFoundLocally);
    let (run, _) = run.step(WaxEvent::NoIndexEntry);
    let (run, action) = run.step(WaxEvent::PiritaPackage {
        package: "_/cowsay".to_string(),
        version: "0.3.1".to_string(),
        command: "cowsay".to_string(),
    });
    assert_eq!(
        action,
        WaxAction::InstallPiritaAndRun {
            package: "_/cowsay@0.3.1".to_string(),
            command: "cowsay".to_string()
        }
    );
    let (run2, action) = run.clone().step(WaxEvent::PiritaNotInitialized);
    assert_eq!(action, WaxAction::QueryRegistry { command: "cowsay".to_string() });
    assert_eq!(run2.stage, WaxStage::Registry);
    let (_, action) = run.step(WaxEvent::Ran(WorkOutcome::Succeeded));
    assert_eq!(action, WaxAction::Finish);
}

#[test]
fn package_version_directories() {
    let v = Version::read("1.2.3-beta.1+build").unwrap();
    assert_eq!(package_version_dir("/w", "_/foo", &v), "/w/_/foo@1.2.3-beta.1+build");
}

#[test]
fn manifest_paths_are_read_under_the_directory() {
    let cases = [
        ("/proj", "README.md"),
        ("/proj", "./docs//README.md"),
        ("/proj", "/abs/LICENSE"),
        ("/proj/", "a/./b/"),
        ("/proj", "../x"),
        ("/proj", "."),
    ];
    for (cwd, path) in cases.iter() {
        let mut expected = PathBuf::from(cwd);
        let mut comps = std::path::Path::new(path).components();
        if std::path::Path::new(path).is_absolute() {
            comps.next();
        }
        for c in comps {
            expected.push(c);
        }
        assert_eq!(normalize_path(cwd, path), expected.to_string_lossy(), "{} {}", cwd, path);
    }
    assert_eq!(normalize_path("/proj", "./docs//README.md"), "/proj/./docs/README.md");
    assert_eq!(normalize_path("/proj", "/abs/LICENSE"), normalize_path("/proj", "abs/LICENSE"));
    assert_ne!(normalize_path("/proj", "/./a"), normalize_path("/proj", "./a"));
}

#[test]
fn chunked_uploads() {
    assert!(use_chunked_upload(true, false, 0));
    assert!(!use_chunked_upload(false, true, 1242880));
    assert!(use_chunked_upload(false, true, 1242881));
    assert!(!use_chunked_upload(false, false, 5000000));
    assert_eq!(chunk_upload_step(0, 262144), (false, false));
    assert_eq!(chunk_upload_step(100, 262144), (true, false));
    assert_eq!(chunk_upload_step(262144, 262144), (true, true));
    assert_eq!(content_range(0, 262144, 300000), "bytes 0-262143/300000");
    assert_eq!(content_range(0, 0, 7), "bytes 0-0/7");
    assert_eq!(
        input_signature(&SignArchiveResult::Signed {
            public_key_id: "k".to_string(),
            signature: "s".to_string()
        }),
        Some(("k".to_string(), "s".to_string()))
    );
    assert_eq!(input_signature(&SignArchiveResult::NoKeyRegistered), None);
}

#[test]
fn key_commands_decide() {
    assert_eq!(key_listing(true, false, false), KeyListing::NoKeys);
    assert_eq!(key_listing(true, false, true), KeyListing::Wapm);
    assert_eq!(key_listing(true, true, false), KeyListing::Personal);
    assert_eq!(key_listing(true, true, true), KeyListing::Both);
    assert_eq!(key_listing(false, false, true), KeyListing::NoPersonalKeys);
    assert_eq!(key_listing(false, true, true), KeyListing::Personal);
    assert_eq!(
        key_pair_paths("/k"),
        ("/k/minisign.key".to_string(), "/k/minisign.pub".to_string())
    );
    assert_eq!(
        check_generate("/k", false, false, false, false),
        Err(GenerateError::PathDoesNotExist("/k".to_string()))
    );
    assert_eq!(
        check_generate("/k", false, true, true, true),
        Err(GenerateError::PrivateKeyExists("/k/minisign.key".to_string()))
    );
    assert_eq!(
        check_generate("/k", false, true, false, true),
        Err(GenerateError::PublicKeyExists("/k/minisign.pub".to_string()))
    );
    assert_eq!(check_generate("/k", true, true, true, true), Ok(()));
}

#[test]
fn package_file_downloads() {
    let loc = pirita_location("/proj", "wasmer/python", "3.12.0").unwrap();
    assert_eq!(loc.key, "wasmer/python@3.12.0");
    assert_eq!(loc.package_dir, "/proj/wapm_packages/wasmer/python@3.12.0");
    assert_eq!(loc.target_file, "/proj/wapm_packages/wasmer/python@3.12.0/package.pirita");
    let loc = pirita_location("/proj", "cowsay", "0.2.0").unwrap();
    assert_eq!(loc.package_dir, "/proj/wapm_packages/_/cowsay@0.2.0");
    assert_eq!(
        pirita_location("/proj", "a/b/c", "1.0.0"),
        Err(DownloadError::FailedToParsePackageName("a/b/c".to_string()))
    );
    match pirita_location("/proj", "a", "x") {
        Err(DownloadError::InvalidVersion { name, version, reason }) => {
            assert_eq!((name.as_str(), version.as_str()), ("a", "x"));
            assert_eq!(reason, semver::Version::parse("x").unwrap_err().to_string());
        }
        other => panic!("unexpected {:?}", other),
    }
    assert_eq!(download_decision(true, false, false, 0, 0), DownloadDecision::Download);
    assert_eq!(download_decision(false, false, true, 10, 10), DownloadDecision::AskUser);
    assert_eq!(download_decision(false, false, true, 9, 10), DownloadDecision::Keep);
    assert_eq!(download_decision(false, false, false, 0, 0), DownloadDecision::Keep);
    assert_eq!(content_length(Some("1234")), 1234);
    assert_eq!(content_length(Some("+7")), 7);
    assert_eq!(content_length(Some("12a")), u64::MAX);
    assert_eq!(content_length(None), u64::MAX);
    assert_eq!(download_progress(10, 5, 100), 15);
    assert_eq!(download_progress(98, 5, 100), 100);
    assert_eq!(download_progress(u64::MAX - 1, 5, u64::MAX), u64::MAX);
    let path = "/proj/wapm_packages/_/a b@1.0.0/package.pirita";
    assert_eq!(
        pirita_bin_command(path, "say\"hi"),
        format!("wasmer run {:?} --invoke {:?}", PathBuf::from(path), "say\"hi".to_string())
    );
    assert_eq!(pirita_bin_path("/proj", "cowsay"), "/proj/wapm_packages/.bin/cowsay");
    assert_eq!(
        download_attempts(&Some("p".to_string()), "t"),
        vec![("p".to_string(), false), ("t".to_string(), true)]
    );
    assert_eq!(download_attempts(&None, "t"), vec![("t".to_string(), true)]);
}

#[test]
fn unsigned_numbers_parse_like_std() {
    for s in ["0", "+1", "-1", "", "+", "18446744073709551615", "18446744073709551616", "007", "1 "] {
        assert_eq!(parse_u64(s), s.parse::<u64>().ok(), "{:?}", s);
    }
}

#[test]
fn versions_read_or_say_why_not() {
    assert_eq!(Version::read("1.2.3"), Ok(Version::new(1, 2, 3)));
    assert_eq!(
        Version::read("1.2"),
        Err(semver::Version::parse("1.2").unwrap_err().to_string())
    );
}

#[test]
fn package_specifiers_take_the_last_version_when_none_is_given() {
    let s = |x: &str| x.to_string();
    assert_eq!(parse_package_and_version("_/lua@0.1.3", None), Ok((s("_/lua"), s("0.1.3"))));
    assert_eq!(parse_package_and_version("_/lua", Some(Some(s("0.2.0")))), Ok((s("_/lua"), s("0.2.0"))));
    assert_eq!(
        parse_package_and_version("_/lua", None),
        Err(InstallError::PackageNotFound { name: s("_/lua") })
    );
    assert_eq!(
        parse_package_and_version("_/lua", Some(None)),
        Err(InstallError::NoVersionsAvailable { name: s("_/lua") })
    );
    assert_eq!(
        parse_package_and_version("a@b@c", Some(Some(s("1")))),
        Err(InstallError::InvalidPackageIdentifier { name: s("a@b@c") })
    );
}

#[test]
fn registry_answers_are_matched_to_the_packages_asked_for() {
    let s = |x: &str| x.to_string();
    let key = |n: &str, v: &str| WapmPackageKey { name: s(n), version: s(v) };
    let version = |v: &str, u: &str| Some(RegistryVersion { version: s(v), download_url: s(u) });
    let answer = vec![
        Some(RegistryPackage {
            name: s("_/sqlite"),
            versions: Some(vec![version("0.1.0", "u1"), None, version("0.2.0", "u2")]),
        }),
        None,
        Some(RegistryPackage { name: s("ns/lua"), versions: Some(vec![version("1.0.0", "u3")]) }),
        Some(RegistryPackage { name: s("_/none"), versions: None }),
    ];
    let asked = vec![key("sqlite", "0.2.0"), key("ns/lua", "1.0.0"), key("lua", "1.0.0")];
    assert_eq!(
        sync_packages(&asked, &answer),
        vec![(key("sqlite", "0.2.0"), s("u2")), (key("ns/lua", "1.0.0"), s("u3"))]
    );
    let changed = ChangedManifestPackages {
        packages: vec![
            PackageId::LocalPackage { directory: s("/p") },
            PackageId::new_registry_package("sqlite", "0.1.0"),
        ],
    };
    assert_eq!(
        ResolvedManifestPackages::new(&changed, &answer).packages,
        vec![(key("sqlite", "0.1.0"), s("u1"))]
    );
}

#[test]
fn cached_packages_are_reinstalled_when_the_registry_has_a_later_version() {
    let v = |t: &str| Version::read(t).unwrap();
    assert!(needs_reinstall(&v("1.2.0"), &v("1.1.9"), true));
    assert!(!needs_reinstall(&v("1.1.9"), &v("1.2.0"), true));
    assert!(!needs_reinstall(&v("1.2.0"), &v("1.2.0"), true));
    assert!(needs_reinstall(&v("1.2.0"), &v("1.2.0"), false));
    assert!(needs_reinstall(&v("1.2.0"), &v("1.2.0-beta"), true));
    assert!(!needs_reinstall(&v("1.2.0-alpha"), &v("1.2.0-beta"), true));
}

#[test]
fn wax_accepts_the_documented_force_yes_flag() {
    let opt = match transform_args(&strings(&["--force-yes", "cowsay"])) {
        Ok(ExecuteArgs::Run(o)) => o,
        other => panic!("unexpected {:?}", other),
    };
    assert!(opt.force_yes);
    assert_eq!(opt.command, Some("cowsay".to_string()));
    assert!(opt.args.is_empty());
}

#[test]
fn archives_go_up_in_consecutive_chunks() {
    assert_eq!(upload_chunks(0), vec![]);
    assert_eq!(upload_chunks(262144), vec![(0, 262144)]);
    assert_eq!(upload_chunks(600000), vec![(0, 262144), (262144, 262144), (524288, 75712)]);
}

#[test]
fn the_runtime_setting_names_the_runtime_and_its_arguments() {
    assert_eq!(runtime_with_args(None), ("wasmer".to_string(), vec![]));
    assert_eq!(runtime_with_args(Some("  \t ")), ("wasmer".to_string(), vec![]));
    assert_eq!(
        runtime_with_args(Some(" wasmtime  --dir . ")),
        ("wasmtime".to_string(), strings(&["--dir", "."]))
    );
}

#[test]
fn publishing_tries_the_uploads_in_order() {
    assert_eq!(upload_attempts(true, true, true, 5_000_000), vec![]);
    assert_eq!(upload_attempts(false, true, false, 10), vec![UploadRoute::Chunked, UploadRoute::Single]);
    assert_eq!(upload_attempts(false, false, true, 5_000_000), vec![UploadRoute::Chunked, UploadRoute::Single]);
    assert_eq!(upload_attempts(false, false, true, 10), vec![UploadRoute::Single]);
    assert_eq!(upload_attempts(false, false, false, 5_000_000), vec![UploadRoute::Single]);
}

#[test]
fn publishing_refuses_a_manifest_without_modules_or_with_missing_files() {
    let s = |x: &str| x.to_string();
    let module = |exists: bool, bindings: Vec<(String, bool)>| PublishModule {
        name: s("m"),
        source: s("m.wasm"),
        source_exists: exists,
        bindings,
    };
    let dir = |exists: bool, is_dir: bool| PublishFsEntry { path: s("data"), exists, is_dir };
    assert_eq!(check_publish_manifest("/p", "/c", &None, &vec![]), Err(PublishError::NoModule));
    assert_eq!(
        check_publish_manifest("/p", "/c", &Some(vec![module(false, vec![])]), &vec![]),
        Err(PublishError::SourceMustBeFile { module: s("m"), path: s("/p/m.wasm") })
    );
    assert_eq!(
        check_publish_manifest("/p", "/c", &Some(vec![module(true, vec![(s("b.wit"), true), (s("c.wit"), false)])]), &vec![]),
        Err(PublishError::MissingBindings { module: s("m"), path: s("/p/c.wit") })
    );
    assert_eq!(
        check_publish_manifest("/p", "/c", &Some(vec![module(true, vec![])]), &vec![dir(false, false)]),
        Err(PublishError::MissingManifestFsPath(s("/c/data")))
    );
    assert_eq!(
        check_publish_manifest("/p", "/c", &Some(vec![module(true, vec![])]), &vec![dir(true, false)]),
        Err(PublishError::PackageFileSystemEntryMustBeDirectory(s("data")))
    );
    assert_eq!(check_publish_manifest("/p", "/c", &Some(vec![module(true, vec![])]), &vec![dir(true, true)]), Ok(()));
}

#[test]
fn the_runtime_setting_splits_at_unicode_whitespace() {
    assert_eq!(
        runtime_with_args(Some("a\u{3000}b\u{85}c")),
        ("a".to_string(), strings(&["b", "c"]))
    );
}
