use wapm_cli::abi::Abi;
use wapm_cli::lockfile::migrate::{
    upgrade_lockfile, StoredLockfile,
    convert_lockfilev2_to_v3, convert_lockfilev3_to_v4, fix_up_v1_package_names, lockfile_format,
    normalize_global_namespace_package_name, path_pop, LockfileFormat,
};
use wapm_cli::lockfile::{
    command_rows, module_rows, Command, Error, Lockfile, LockfileCommand, LockfileError,
    LockfileModule, LockfileModuleV2,
    LockfileModuleV3, LockfileV2, LockfileV3, Version,
};

fn sqlite_command(package_name: &str) -> LockfileCommand {
    LockfileCommand {
        name: "sqlite".to_string(),
        package_name: package_name.to_string(),
        package_version: Version::new(0, 1, 1),
        module: "sqlite".to_string(),
        is_top_level_dependency: true,
        main_args: None,
    }
}

fn sqlite_v2(package_name: &str, entry: &str) -> LockfileModuleV2 {
    LockfileModuleV2 {
        name: "sqlite".to_string(),
        package_version: "0.1.1".to_string(),
        package_name: package_name.to_string(),
        source: "registry+sqlite".to_string(),
        resolved: "https://registry-cdn.wapm.dev/packages/_/sqlite/sqlite-0.1.1.tar.gz".to_string(),
        abi: Abi::Emscripten,
        entry: entry.to_string(),
    }
}

fn v2_lockfile(package_name: &str, entry: &str) -> LockfileV2 {
    LockfileV2 {
        modules: vec![(
            package_name.to_string(),
            vec![(
                Version::new(0, 1, 1),
                vec![("sqlite".to_string(), sqlite_v2(package_name, entry))],
            )],
        )],
        commands: vec![("sqlite".to_string(), sqlite_command(package_name))],
    }
}

fn sqlite_v3() -> LockfileV3 {
    LockfileV3 {
        modules: vec![(
            "_/sqlite".to_string(),
            vec![(
                Version::new(0, 1, 1),
                vec![(
                    "sqlite".to_string(),
                    LockfileModuleV3 {
                        name: "sqlite".to_string(),
                        package_version: "0.1.1".to_string(),
                        package_name: "_/sqlite".to_string(),
                        source: "registry+sqlite".to_string(),
                        resolved: "https://registry-cdn.wapm.dev/packages/_/sqlite/sqlite-0.1.1.tar.gz"
                            .to_string(),
                        abi: Abi::Emscripten,
                        entry: "wapm_packages/_/sqlite@0.1.1/sqlite.wasm".to_string(),
                        root: "wapm_packages/_/sqlite@0.1.1".to_string(),
                        prehashed_module_key: None,
                    },
                )],
            )],
        )],
        commands: vec![("sqlite".to_string(), sqlite_command("_/sqlite"))],
    }
}

fn sqlite_v4(key: Option<&str>) -> Lockfile {
    Lockfile {
        modules: vec![(
            "_/sqlite".to_string(),
            vec![(
                Version::new(0, 1, 1),
                vec![(
                    "sqlite".to_string(),
                    LockfileModule {
                        name: "sqlite".to_string(),
                        package_version: "0.1.1".to_string(),
                        package_name: "_/sqlite".to_string(),
                        package_path: "_/sqlite@0.1.1".to_string(),
                        resolved: "https://registry-cdn.wapm.dev/packages/_/sqlite/sqlite-0.1.1.tar.gz"
                            .to_string(),
                        resolved_source: "registry+sqlite".to_string(),
                        abi: Abi::Emscripten,
                        source: "sqlite.wasm".to_string(),
                        prehashed_module_key: key.map(|k| k.to_string()),
                    },
                )],
            )],
        )],
        commands: vec![("sqlite".to_string(), sqlite_command("_/sqlite"))],
    }
}

#[test]
fn test_lockfile_command_ok() {
    assert_eq!(
        LockfileCommand::from_command(
            "Micheal-F-Bryan/wit-pack",
            Version::new(1, 0, 0),
            &Command {
                name: "wit-pack".to_string(),
                module: "wit-pack".to_string(),
                main_args: None,
                package: None,
            }
        ),
        Ok(LockfileCommand {
            name: "wit-pack".to_string(),
            package_name: "Micheal-F-Bryan/wit-pack".to_string(),
            package_version: Version::new(1, 0, 0),
            module: "wit-pack".to_string(),
            is_top_level_dependency: true,
            main_args: None,
        })
    )
}

#[test]
fn command_package_field_is_split() {
    let command = |package: &str| Command {
        name: "c".to_string(),
        module: "m".to_string(),
        main_args: Some("-x".to_string()),
        package: Some(package.to_string()),
    };
    let c = LockfileCommand::from_command("local", Version::new(1, 0, 0), &command("_/pkg 2.3.4-rc.1+b5"))
        .unwrap();
    assert_eq!(c.package_name, "_/pkg");
    assert_eq!(c.package_version.to_string(), "2.3.4-rc.1+b5");
    assert_eq!(c.main_args, Some("-x".to_string()));
    let c = LockfileCommand::from_command("local", Version::new(1, 0, 0), &command("_/pkg")).unwrap();
    assert_eq!(c.package_version, Version::new(1, 0, 0));
    assert_eq!(
        LockfileCommand::from_command("local", Version::new(1, 0, 0), &command("a b c")),
        Err(Error::CouldNotParsePackageVersionForCommand("a b c".to_string(), "c".to_string()))
    );
    assert!(LockfileCommand::checked_from_command("local", Version::new(1, 0, 0), &command("a x.y")).is_none());
}

#[test]
fn test_fix_up_v1_lockfile() {
    let mut lockfile = v2_lockfile("sqlite", "wapm_packages\\_\\sqlite@0.1.1\\sqlite.wasm");
    let expected_v2_lockfile = v2_lockfile("_/sqlite", "wapm_packages\\_\\sqlite@0.1.1\\sqlite.wasm");
    fix_up_v1_package_names(&mut lockfile);
    assert_eq!(expected_v2_lockfile, lockfile);
}

#[test]
fn upgrade_to_v3() {
    let mut lockfile_v1 = v2_lockfile("sqlite", "wapm_packages/_/sqlite@0.1.1/sqlite.wasm");
    let expected_v3_lockfile = sqlite_v3();
    fix_up_v1_package_names(&mut lockfile_v1);
    let converted_lockfile_v3 = convert_lockfilev2_to_v3(lockfile_v1);
    assert_eq!(expected_v3_lockfile, converted_lockfile_v3);
}

#[test]
fn upgrade_to_v4() {
    let v3_lockfile = sqlite_v3();
    let v4_lockfile = sqlite_v4(None);
    let v4_lockfile_converted = convert_lockfilev3_to_v4(v3_lockfile);
    assert_eq!(v4_lockfile, v4_lockfile_converted);
}

#[test]
fn lockfile_lookups() {
    let lockfile = sqlite_v4(Some("hash"));
    assert_eq!(lockfile.get_command("sqlite").unwrap().module, "sqlite");
    assert_eq!(
        lockfile.get_command("nope").err(),
        Some(LockfileError::CommandNotFound("nope".to_string()))
    );
    let module = lockfile.get_module("_/sqlite", &Version::new(0, 1, 1), "sqlite").unwrap();
    assert_eq!(module.package_path, "_/sqlite@0.1.1");
    assert_eq!(
        lockfile.get_module("_/sqlite", &Version::new(0, 1, 2), "sqlite").err(),
        Some(LockfileError::VersionNotFoundForPackageWhenFindingModule(
            "_/sqlite".to_string(),
            "0.1.2".to_string(),
            "sqlite".to_string()
        ))
    );
    assert_eq!(
        lockfile.get_module("_/lua", &Version::new(0, 1, 1), "sqlite").err(),
        Some(LockfileError::PackageWithVersionNotFoundWhenFindingModule(
            "_/lua".to_string(),
            "0.1.1".to_string(),
            "sqlite".to_string()
        ))
    );
    assert_eq!(
        lockfile.get_module("_/sqlite", &Version::new(0, 1, 1), "x").err(),
        Some(LockfileError::ModuleForPackageVersionNotFound(
            "_/sqlite".to_string(),
            "0.1.1".to_string(),
            "x".to_string()
        ))
    );
    let command = lockfile.get_command("sqlite").unwrap().clone();
    assert_eq!(lockfile.get_prehashed_cache_key_from_command(&command), Some("hash".to_string()));
    assert_eq!(
        module.get_canonical_source_path_from_lockfile_dir("/project".to_string()),
        "/project/wapm_packages/_/sqlite@0.1.1/sqlite.wasm"
    );
}

#[test]
fn package_names_get_namespace() {
    assert_eq!(normalize_global_namespace_package_name("sqlite"), "_/sqlite");
    assert_eq!(normalize_global_namespace_package_name("_/sqlite"), "_/sqlite");
    assert_eq!(normalize_global_namespace_package_name("ns/pkg"), "ns/pkg");
}

#[test]
fn paths_pop_like_pathbuf() {
    for p in ["a/b/c", "a", "/a", "/", "", ".", "./a", "a//b", "a/b/", "a/./b", "a/..", "../x", "/a/b/."] {
        let mut expected = std::path::PathBuf::from(p);
        expected.pop();
        assert_eq!(path_pop(p), expected.to_string_lossy(), "popping {:?}", p);
    }
}

#[test]
fn lockfile_header_gives_format() {
    assert_eq!(lockfile_format("# Lockfile v4\n[modules]"), Some(LockfileFormat::V4));
    assert_eq!(lockfile_format("# Lockfile v1"), Some(LockfileFormat::V1));
    assert_eq!(lockfile_format("[modules]"), None);
}

#[test]
fn versions_are_written_and_parsed() {
    let v = Version::parse("1.2.3-alpha.1+build.5").unwrap();
    assert_eq!((v.major, v.minor, v.patch), (1, 2, 3));
    assert_eq!(v.pre, "alpha.1");
    assert_eq!(v.to_string(), "1.2.3-alpha.1+build.5");
    assert_eq!(Version::new(10, 0, 7).to_string(), "10.0.7");
    assert!(Version::parse("1.2").is_none());
}

#[test]
fn listing_rows_follow_the_lockfile() {
    let lockfile = sqlite_v4(None);
    assert_eq!(
        module_rows(&lockfile),
        vec![(
            "_/sqlite".to_string(),
            "0.1.1".to_string(),
            "sqlite".to_string(),
            "emscripten".to_string()
        )]
    );
    let rows = command_rows(&lockfile);
    assert_eq!(rows.len(), 1);
    assert_eq!(rows[0].0, "sqlite");
    assert_eq!(rows[0].1, lockfile.commands[0].1.package_name);
    assert_eq!(rows[0].2, lockfile.commands[0].1.package_version.to_string());
}

#[test]
fn modules_are_recorded_for_the_lockfile() {
    let module = wapm_cli::legacy_lockfile::Module {
        name: "lua".to_string(),
        source: "target/lua.wasm".to_string(),
        abi: Abi::Emscripten,
    };
    let version = Version::new(0, 1, 3);
    let m = LockfileModule::from_module("_/lua", &version, &module, "https://cdn/lua.tar.gz", true, None);
    assert_eq!(m.source, "target/lua.wasm");
    assert_eq!(m.package_path, "_/lua@0.1.3");
    assert_eq!(m.package_version, "0.1.3");
    assert_eq!(m.resolved_source, "registry+lua");
    assert_eq!(m.resolved, "https://cdn/lua.tar.gz");
    let old = LockfileModule::from_module(
        "_/lua",
        &version,
        &module,
        "u",
        false,
        Some("key".to_string()),
    );
    assert_eq!(old.source, "lua.wasm");
    assert_eq!(old.prehashed_module_key, Some("key".to_string()));
    let local = LockfileModule::from_local_module("me/lua", &version, &module, None);
    assert_eq!((local.resolved.as_str(), local.resolved_source.as_str()), ("local", "local"));
    assert_eq!(local.source, "target/lua.wasm");
    assert_eq!(
        local.get_canonical_source_path_from_lockfile_dir("/proj".to_string()),
        "/proj/wapm_packages/me/lua@0.1.3/target/lua.wasm"
    );
}

#[test]
fn stored_lockfiles_are_upgraded_through_each_later_format() {
    let v1 = v2_lockfile("sqlite", "wapm_packages/_/sqlite@0.1.1/sqlite.wasm");
    assert_eq!(upgrade_lockfile(StoredLockfile::V1(v1)), sqlite_v4(None));
    assert_eq!(upgrade_lockfile(StoredLockfile::V3(sqlite_v3())), sqlite_v4(None));
    assert_eq!(upgrade_lockfile(StoredLockfile::V4(sqlite_v4(Some("h")))), sqlite_v4(Some("h")));
}
