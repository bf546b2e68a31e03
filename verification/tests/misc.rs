use std::cmp::Ordering;
use wapm_cli::abi::Abi;
use wapm_cli::bonjour::{
    calculate_differences, update_lockfile, update_plan, prune_unchanged_dependencies, PackageData, BonjourError, ChangedManifestPackages, InstalledPackage, LockfileData, LockfilePackage,
    LockfileResult, ManifestData, ManifestDependency, ManifestResult, PackageId,
};
use wapm_cli::commands::{
    add_package_specs, archive_folder_name, bin, config, list_scopes, logout, packages_to_remove, save_login_token,
    uninstall, AddError, AddOpt, BinError, BinOpt, ConfigKey, ConfigKeyValue, ConfigOpt, Error,
    InitOpt, ListOpt, RemoveError, RemoveOpt, UninstallOpt,
};
use wapm_cli::config::{Config, Registries};
use wapm_cli::database::{
    migration_script, pending_migrations, version_after_migration, MigrationError, CURRENT_DATA_VERSION,
};
use wapm_cli::legacy_lockfile::{
    get_package_namespace_and_name, Command as LegacyManifestCommand, Dependency,
    Lockfile as LegacyLockfile,
    LockfileCommand as LegacyCommand, LockfileModule, Module,
};
use wapm_cli::lockfile::LockfileError;
use wapm_cli::lockfile::Version;
use wapm_cli::text::{file_name, i32_to_decimal, parse_i32, replace_all, split_on};
use wapm_cli::wax_index::{WaxEntry, WaxIndex, WaxIndexError};

#[test]
fn data_version_was_updated() {
    match migration_script(CURRENT_DATA_VERSION) {
        Err(MigrationError::MigrationNumberDoesNotExist(n, c)) => {
            assert_eq!((n, c), (CURRENT_DATA_VERSION, CURRENT_DATA_VERSION))
        }
        _ => panic!(
            "Migration for CURRENT_DATA_VERSION ({}) found!  Did you forget to increment CURRENT_DATA_VERSION?",
            CURRENT_DATA_VERSION
        ),
    }
}

#[test]
fn pending_migrations_run_up_to_current() {
    assert_eq!(pending_migrations(0), vec![0, 1]);
    assert_eq!(pending_migrations(1), vec![1]);
    assert_eq!(pending_migrations(2), Vec::<i32>::new());
    for n in pending_migrations(0) {
        assert!(migration_script(n).is_ok());
    }
}

#[test]
fn abi_names() {
    assert_eq!(Abi::default(), Abi::Generic);
    assert_eq!(Abi::Generic.to_string(), "generic");
    assert_eq!(Abi::Wasi.to_string(), "wasi");
    assert_eq!(Abi::Emscripten.to_string(), "emscripten");
}

#[test]
fn changed_packages_are_the_difference() {
    let a = PackageId::new_registry_package("a", "1");
    let b = PackageId::new_registry_package("b", "2");
    let l = PackageId::LocalPackage { directory: "/x".to_string() };
    let changed = prune_unchanged_dependencies(&vec![a.clone(), b.clone(), l.clone()], &vec![b.clone()]);
    assert_eq!(changed, vec![a, l]);
}

#[test]
fn commands_decide() {
    assert_eq!(
        bin(&BinOpt { global: false }, "/p", false),
        Err(BinError::NotWapmProjectDir("/p/wapm_packages".to_string()))
    );
    assert_eq!(bin(&BinOpt { global: true }, "/g", false), Ok("/g/wapm_packages/.bin".to_string()));
    assert_eq!(list_scopes(&ListOpt { global: true, all: true }), (true, true));
    assert_eq!(list_scopes(&ListOpt { global: true, all: false }), (false, true));
    assert_eq!(list_scopes(&ListOpt { global: false, all: false }), (true, false));
    assert_eq!(
        uninstall(&UninstallOpt { package: "pkg@1.0".to_string(), global: false }),
        Err(Error::NoAtSignAllowed)
    );
    assert_eq!(uninstall(&UninstallOpt { package: "pkg".to_string(), global: true }), Ok(vec!["pkg".to_string()]));
    assert_eq!(packages_to_remove(&RemoveOpt::new(vec![])), Err(RemoveError::ArgumentsRequired));
    assert_eq!(
        packages_to_remove(&RemoveOpt::new(vec!["a".to_string(), "b@1".to_string(), "c".to_string()])),
        Ok((vec!["a".to_string(), "c".to_string()], true))
    );
    let init = InitOpt::new(true);
    assert!(init.force_yes && init.project_name.is_none());
}

#[test]
fn config_command_and_logout() {
    let mut cfg = Config::default();
    assert_eq!(
        config(&mut cfg, ConfigOpt::SetKey(ConfigKeyValue { key: "registry.token".to_string(), value: "t".to_string() })),
        Ok(None)
    );
    assert_eq!(
        config(&mut cfg, ConfigOpt::GetKey(ConfigKey { key: "registry.token".to_string() })),
        Ok(Some("t".to_string()))
    );
    logout(&mut cfg);
    assert!(config(&mut cfg, ConfigOpt::GetKey(ConfigKey { key: "registry.token".to_string() })).is_err());
    assert_eq!(cfg.registry, Registries::default());
}

#[test]
fn legacy_modules_are_recorded() {
    assert_eq!(get_package_namespace_and_name("ns/pkg"), Some(("ns".to_string(), "pkg".to_string())));
    assert_eq!(get_package_namespace_and_name("pkg"), Some(("_".to_string(), "pkg".to_string())));
    assert_eq!(get_package_namespace_and_name("a/b/c"), None);
    let module = Module { name: "lua".to_string(), source: "target/lua.wasm".to_string(), abi: Abi::Wasi };
    let m = LockfileModule::from_module("_/lua", "0.1.3", &module, "https://dl");
    assert_eq!(m.entry, "wapm_packages/_/lua@0.1.3/lua.wasm");
    assert_eq!(m.source, "registry+lua");
    let dep = Dependency {
        package_name: "lua".to_string(),
        package_version: "0.1.3".to_string(),
        modules: Some(vec![module]),
        download_url: "https://dl".to_string(),
    };
    let ms = LockfileModule::from_dependency(&dep);
    assert_eq!(ms.len(), 1);
    assert_eq!(ms[0].entry, "wapm_packages/_/lua@0.1.3/lua.wasm");
    let none = Dependency { modules: None, ..dep };
    assert!(LockfileModule::from_dependency(&none).is_empty());
}

#[test]
fn wax_index_entries() {
    let mut index = WaxIndex::new("/tmp/wax".to_string());
    assert_eq!(index.base_path(), "/tmp/wax");
    assert!(!index.insert_entry("cowsay".to_string(), Version::new(0, 2, 0), "_/cowsay".to_string(), 0, 0));
    assert!(index.insert_entry(
        "cowsay".to_string(),
        Version::new(0, 3, 0),
        "_/cowsay".to_string(),
        1_600_000_000,
        250_000_000
    ));
    assert_eq!(index.entry_location("cowsay"), Some("/tmp/wax/_/cowsay@0.3.0".to_string()));
    let written = time::strftime(
        "%Y-%m-%dT%H:%M:%S-%f",
        &time::at_utc(time::Timespec::new(1_600_000_000, 250_000_000)),
    )
    .unwrap();
    assert_eq!(
        index.entries_list(),
        vec![(
            "cowsay".to_string(),
            WaxEntry { package_name: "_/cowsay@0.3.0".to_string(), last_updated: written.clone() }
        )]
    );
    assert_eq!(written, "2020-09-13T12:26:40-250000000");
    assert_eq!(
        index.search_for_entry("cowsay".to_string(), true),
        Ok(("_/cowsay".to_string(), Version::new(0, 3, 0), (1_600_000_000, 250_000_000)))
    );
    assert_eq!(
        index.search_for_entry("cowsay".to_string(), false),
        Err(WaxIndexError::EntryNotFound { entry: "cowsay".to_string() })
    );
    assert_eq!(index.entry_location("cowsay"), None);
}

#[test]
fn wax_index_reads_back_its_entries() {
    let entries = vec![
        ("a".to_string(), WaxEntry { package_name: "_/a@1.0.0".to_string(), last_updated: "x".to_string() }),
        ("b".to_string(), WaxEntry { package_name: "_/b".to_string(), last_updated: "y".to_string() }),
        ("a".to_string(), WaxEntry { package_name: "_/a@2.0.0".to_string(), last_updated: "bad".to_string() }),
    ];
    let mut index = WaxIndex::from_entries("/w".to_string(), &entries);
    assert_eq!(index.entries_list(), vec![entries[2].clone(), entries[1].clone()]);
    let reason = time::strptime("bad", "%Y-%m-%dT%H:%M:%S-%f").unwrap_err().to_string();
    assert_eq!(
        index.search_for_entry("a".to_string(), true),
        Err(WaxIndexError::EntryCorrupt { entry: reason })
    );
    assert_eq!(
        index.search_for_entry("b".to_string(), true),
        Err(WaxIndexError::EntryCorrupt { entry: "b".to_string() })
    );
}

#[test]
fn text_helpers() {
    assert_eq!(split_on("a b  c", ' '), vec!["a", "b", "", "c"]);
    assert_eq!(split_on("", ' '), vec![""]);
    assert_eq!(parse_i32("+17"), Some(17));
    assert_eq!(parse_i32("-2147483648"), Some(i32::MIN));
    assert_eq!(parse_i32("2147483648"), None);
    assert_eq!(parse_i32("-"), None);
    assert_eq!(parse_i32(""), None);
    assert_eq!(i32_to_decimal(i32::MIN), "-2147483648");
    assert_eq!(i32_to_decimal(0), "0");
    for p in ["/usr/bin/", "tmp/foo.txt", "foo.txt/.", "foo.txt/.//", "foo.txt/..", "/", ".", "", "a/b"] {
        let expected = std::path::Path::new(p).file_name().map(|s| s.to_string_lossy().to_string());
        assert_eq!(file_name(p), expected, "file name of {:?}", p);
    }
}

#[test]
fn login_saves_the_token_that_logout_forgets() {
    let mut settings = Config::default();
    let registry = settings.registry.get_current_registry();
    save_login_token(&mut settings, "secret-token");
    assert_eq!(settings.registry.get_current_registry(), registry);
    assert_eq!(
        settings.registry.get_login_token_for_registry(&registry),
        Some("secret-token".to_string())
    );
    logout(&mut settings);
    assert_eq!(settings.registry.get_login_token_for_registry(&registry), None);
}

#[test]
fn add_reads_package_specs() {
    assert_eq!(add_package_specs(&AddOpt::new(vec![])), Err(AddError::ArgumentsRequired));
    assert_eq!(
        add_package_specs(&AddOpt::new(vec![
            "_/sqlite@0.1.1".to_string(),
            "lua".to_string(),
            "a@b@c".to_string()
        ])),
        Ok(vec![
            ("_/sqlite".to_string(), Some("0.1.1".to_string())),
            ("lua".to_string(), None),
            ("a".to_string(), Some("b".to_string())),
        ])
    );
}

#[test]
fn config_folder_follows_the_environment() {
    assert_eq!(Config::get_folder(Some("/opt/w"), Some("/home/u"), Some("/cwd")), "/opt/w");
    assert_eq!(Config::get_folder(Some(""), Some("/home/u"), Some("/cwd")), "/home/u/.wasmer");
    assert_eq!(Config::get_folder(None, None, Some("/cwd")), "/cwd/.wasmer");
    assert_eq!(Config::get_folder(None, None, None), "/.wasmer");
}

#[test]
fn archives_unpack_into_their_name() {
    assert_eq!(archive_folder_name("/tmp/pkg-1.0.tar.gz"), Some("pkg-1.0".to_string()));
    assert_eq!(archive_folder_name("a.tar.gz.tar.gz"), Some("a".to_string()));
    assert_eq!(archive_folder_name("plain"), Some("plain".to_string()));
    assert_eq!(archive_folder_name("/"), None);
    for (s, p, r) in [("aaa", "aa", "b"), ("x.tar.gzy", ".tar.gz", ""), ("", "a", "b"), ("abab", "ab", "")] {
        assert_eq!(replace_all(s, p, r), s.replace(p, r));
    }
}

#[test]
fn legacy_lockfile_lookups() {
    let lua = LockfileModule {
        name: "lua".to_string(),
        package_version: "0.1.3".to_string(),
        package_name: "_/lua".to_string(),
        source: "registry+lua".to_string(),
        resolved: "u".to_string(),
        abi: Abi::Emscripten,
        entry: "wapm_packages/_/lua@0.1.3/lua.wasm".to_string(),
    };
    let command = LegacyCommand {
        name: "lua".to_string(),
        package_name: "_/lua".to_string(),
        package_version: "0.1.3".to_string(),
        module: "lua".to_string(),
        is_top_level_dependency: true,
        main_args: None,
    };
    let lockfile = LegacyLockfile {
        modules: vec![(
            "_/lua".to_string(),
            vec![("0.1.3".to_string(), vec![("lua".to_string(), lua.clone())])],
        )],
        commands: vec![("lua".to_string(), command.clone())],
    };
    assert_eq!(lockfile.get_command("lua"), Ok(&command));
    assert_eq!(lockfile.get_command("luac"), Err(LockfileError::CommandNotFound("luac".to_string())));
    assert_eq!(lockfile.get_module("_/lua", "0.1.3", "lua"), Ok(&lua));
    let args = |p: &str, v: &str, m: &str| (p.to_string(), v.to_string(), m.to_string());
    let (p, v, m) = args("_/lux", "0.1.3", "lua");
    assert_eq!(
        lockfile.get_module("_/lux", "0.1.3", "lua"),
        Err(LockfileError::PackageWithVersionNotFoundWhenFindingModule(p, v, m))
    );
    let (p, v, m) = args("_/lua", "0.1.4", "lua");
    assert_eq!(
        lockfile.get_module("_/lua", "0.1.4", "lua"),
        Err(LockfileError::VersionNotFoundForPackageWhenFindingModule(p, v, m))
    );
    let (p, v, m) = args("_/lua", "0.1.3", "luac");
    assert_eq!(
        lockfile.get_module("_/lua", "0.1.3", "luac"),
        Err(LockfileError::ModuleForPackageVersionNotFound(p, v, m))
    );
}

fn legacy_module(package: &str, version: &str, name: &str) -> LockfileModule {
    LockfileModule {
        name: name.to_string(),
        package_version: version.to_string(),
        package_name: package.to_string(),
        source: format!("registry+{}", name),
        resolved: "u".to_string(),
        abi: Abi::Wasi,
        entry: format!("wapm_packages/{}@{}/{}.wasm", package, version, name),
    }
}

fn legacy_command(name: &str, package: &str, version: &str) -> LegacyCommand {
    LegacyCommand {
        name: name.to_string(),
        package_name: package.to_string(),
        package_version: version.to_string(),
        module: name.to_string(),
        is_top_level_dependency: true,
        main_args: None,
    }
}

#[test]
fn lockfile_data_groups_commands_by_package() {
    let lockfile = LegacyLockfile {
        modules: vec![
            (
                "_/a".to_string(),
                vec![
                    ("1.0.0".to_string(), vec![("a".to_string(), legacy_module("_/a", "1.0.0", "a"))]),
                    ("2.0.0".to_string(), vec![("a".to_string(), legacy_module("_/a", "2.0.0", "a"))]),
                ],
            ),
            ("_/b".to_string(), vec![("0.1.0".to_string(), vec![])]),
        ],
        commands: vec![
            ("a".to_string(), legacy_command("a", "_/a", "2.0.0")),
            ("a2".to_string(), legacy_command("a2", "_/a", "2.0.0")),
            ("z".to_string(), legacy_command("z", "_/z", "9.9.9")),
        ],
    };
    let data = LockfileData::new_from_lockfile(&lockfile);
    let packages = data.into_packages();
    assert_eq!(packages.len(), 3);
    assert_eq!(packages[0].0, PackageId::new_registry_package("_/a", "1.0.0"));
    assert_eq!(packages[0].1.modules, vec![legacy_module("_/a", "1.0.0", "a")]);
    assert!(packages[0].1.commands.is_empty());
    assert_eq!(packages[1].0, PackageId::new_registry_package("_/a", "2.0.0"));
    assert_eq!(
        packages[1].1.commands,
        vec![legacy_command("a", "_/a", "2.0.0"), legacy_command("a2", "_/a", "2.0.0")]
    );
    assert_eq!(packages[2].0, PackageId::new_registry_package("_/b", "0.1.0"));
    assert!(packages[2].1.modules.is_empty() && packages[2].1.commands.is_empty());
}

#[test]
fn merging_keeps_the_newer_packages() {
    let package = |m: &str| LockfilePackage { modules: vec![legacy_module("_/a", "1.0.0", m)], commands: vec![] };
    let mut newer = LockfileData::new();
    newer.put(PackageId::new_registry_package("_/a", "1.0.0"), package("new"));
    newer.put(PackageId::new_registry_package("_/c", "1.0.0"), package("c"));
    let mut older = LockfileData::new();
    older.put(PackageId::new_registry_package("_/a", "1.0.0"), package("old"));
    older.put(PackageId::new_registry_package("_/b", "1.0.0"), package("b"));
    let merged = newer.merge(older);
    let mut packages = merged.into_packages();
    packages.sort_by(|x, y| format!("{:?}", x.0).cmp(&format!("{:?}", y.0)));
    assert_eq!(packages.len(), 2);
    assert_eq!(packages[0], (PackageId::new_registry_package("_/a", "1.0.0"), package("new")));
    assert_eq!(packages[1], (PackageId::new_registry_package("_/c", "1.0.0"), package("c")));
}

#[test]
fn installed_packages_make_a_lockfile() {
    let installed = vec![InstalledPackage {
        name: "_/lua".to_string(),
        version: "0.1.3".to_string(),
        modules: Some(vec![Module {
            name: "lua".to_string(),
            source: "target/lua.wasm".to_string(),
            abi: Abi::Emscripten,
        }]),
        commands: Some(vec![LegacyManifestCommand {
            name: "lua".to_string(),
            module: "lua".to_string(),
            main_args: None,
            package: None,
        }]),
        download_url: "https://cdn/lua.tar.gz".to_string(),
    }];
    let data = LockfileData::from_installed_packages(&installed);
    assert!(!data.has_local_package());
    let lockfile = data.generate_lockfile();
    let module = LockfileModule::from_module("_/lua", "0.1.3", &installed[0].modules.as_ref().unwrap()[0], "https://cdn/lua.tar.gz");
    assert_eq!(module.entry, "wapm_packages/_/lua@0.1.3/lua.wasm");
    assert_eq!(
        lockfile.modules,
        vec![("_/lua".to_string(), vec![("0.1.3".to_string(), vec![("lua".to_string(), module)])])]
    );
    assert_eq!(lockfile.commands, vec![("lua".to_string(), legacy_command("lua", "_/lua", "0.1.3"))]);
    let again = LockfileData::new_from_lockfile(&lockfile).into_packages();
    assert_eq!(again, LockfileData::from_installed_packages(&installed).into_packages());
    let mut with_local = LockfileData::new();
    with_local.put(
        PackageId::LocalPackage { directory: "/p".to_string() },
        LockfilePackage { modules: vec![], commands: vec![] },
    );
    assert!(with_local.has_local_package());
}

#[test]
fn manifest_dependencies_become_packages() {
    let deps = vec![
        ManifestDependency { name: "_/a".to_string(), version: Some("1.0.0".to_string()) },
        ManifestDependency { name: "_/b".to_string(), version: Some("2.0.0".to_string()) },
        ManifestDependency { name: "_/a".to_string(), version: Some("1.0.0".to_string()) },
    ];
    let mut data = ManifestData::new_from_manifest(Some(&deps)).unwrap();
    assert_eq!(
        data.keys(),
        vec![
            PackageId::new_registry_package("_/a", "1.0.0"),
            PackageId::new_registry_package("_/b", "2.0.0")
        ]
    );
    data.add_additional_packages(&vec![("_/c".to_string(), "0.1.0".to_string())]);
    assert_eq!(data.keys().len(), 3);
    let bad = vec![
        ManifestDependency { name: "_/a".to_string(), version: Some("1.0.0".to_string()) },
        ManifestDependency { name: "_/t".to_string(), version: None },
        ManifestDependency { name: "_/u".to_string(), version: None },
    ];
    assert_eq!(
        ManifestData::new_from_manifest(Some(&bad)),
        Err(BonjourError::DependencyVersionMustBeString("_/t".to_string()))
    );
    let mut none = ManifestData::new_from_manifest(None).unwrap();
    assert!(none.keys().is_empty());
    none.add_additional_packages(&vec![("_/c".to_string(), "0.1.0".to_string())]);
    assert_eq!(none.keys(), vec![PackageId::new_registry_package("_/c", "0.1.0")]);
    assert_eq!(
        ManifestData::new_from_result(ManifestResult::ManifestError(BonjourError::MissingManifest)),
        Err(BonjourError::MissingManifest)
    );
    assert!(ManifestData::new_from_result(ManifestResult::NoManifest).unwrap().keys().is_empty());
    assert!(LockfileData::new_from_result(LockfileResult::NoLockfile).unwrap().into_packages().is_empty());
}

#[test]
fn changed_packages_are_those_missing_from_the_lockfile() {
    let deps = vec![
        ManifestDependency { name: "_/a".to_string(), version: Some("1.0.0".to_string()) },
        ManifestDependency { name: "_/b".to_string(), version: Some("2.0.0".to_string()) },
    ];
    let manifest = ManifestData::new_from_manifest(Some(&deps)).unwrap();
    let mut lockfile = LockfileData::new();
    lockfile.put(
        PackageId::new_registry_package("_/a", "1.0.0"),
        LockfilePackage { modules: vec![], commands: vec![] },
    );
    assert_eq!(lockfile.package_keys(), vec![PackageId::new_registry_package("_/a", "1.0.0")]);
    let changed = ChangedManifestPackages::prune_unchanged_dependencies(&manifest, &lockfile);
    assert_eq!(changed.packages, vec![PackageId::new_registry_package("_/b", "2.0.0")]);
}

#[test]
fn differences_between_manifest_and_lockfile() {
    let id = |n: &str, v: &str| PackageId::new_registry_package(n, v);
    let package = |m: &str| LockfilePackage { modules: vec![legacy_module("_/a", "1.0.0", m)], commands: vec![] };
    let deps = vec![
        ManifestDependency { name: "_/a".to_string(), version: Some("1.0.0".to_string()) },
        ManifestDependency { name: "_/b".to_string(), version: Some("2.0.0".to_string()) },
    ];
    let lockfile = || {
        let mut l = LockfileData::new();
        l.put(id("_/a", "1.0.0"), package("a"));
        l.put(id("_/c", "3.0.0"), package("c"));
        l
    };
    let sorted = |mut v: Vec<PackageId>| {
        v.sort_by(|x, y| format!("{:?}", x).cmp(&format!("{:?}", y)));
        v
    };
    let manifest = ManifestData::new_from_manifest(Some(&deps)).unwrap();
    let (added, removed, unchanged, state) = calculate_differences(Some(manifest.clone()), Some(lockfile()));
    assert_eq!(added, vec![id("_/b", "2.0.0")]);
    assert_eq!(removed, vec![id("_/c", "3.0.0")]);
    assert_eq!(sorted(unchanged), vec![id("_/a", "1.0.0"), id("_/b", "2.0.0"), id("_/c", "3.0.0")]);
    assert_eq!(state.len(), 2);
    assert!(state.contains(&(id("_/a", "1.0.0"), PackageData::LockfilePackage(package("a")))));
    assert!(state.contains(&(id("_/b", "2.0.0"), PackageData::ManifestDependencyPackage)));

    let (added, removed, unchanged, state) = calculate_differences(Some(manifest), None);
    assert_eq!(sorted(added), vec![id("_/a", "1.0.0"), id("_/b", "2.0.0")]);
    assert!(removed.is_empty() && unchanged.is_empty());
    assert_eq!(state.len(), 2);
    assert!(state.iter().all(|e| e.1 == PackageData::ManifestDependencyPackage));

    let (added, removed, unchanged, state) = calculate_differences(None, Some(lockfile()));
    assert!(added.is_empty() && removed.is_empty());
    assert_eq!(sorted(unchanged), vec![id("_/a", "1.0.0"), id("_/c", "3.0.0")]);
    assert_eq!(state.len(), 2);
    assert!(state.contains(&(id("_/c", "3.0.0"), PackageData::LockfilePackage(package("c")))));

    let (added, removed, unchanged, state) = calculate_differences(None, None);
    assert!(added.is_empty() && removed.is_empty() && unchanged.is_empty() && state.is_empty());
}

#[test]
fn packages_are_ordered_local_first_then_by_name_and_version() {
    let id = |n: &str, v: &str| PackageId::new_registry_package(n, v);
    let local = |d: &str| PackageId::LocalPackage { directory: d.to_string() };
    assert_eq!(id("_/a", "2.0.0").cmp(&id("_/b", "1.0.0")), Ordering::Less);
    assert_eq!(id("_/b", "1.0.0").cmp(&id("_/a", "2.0.0")), Ordering::Greater);
    assert_eq!(id("_/a", "1.0.0").cmp(&id("_/a", "1.0.1")), Ordering::Less);
    assert_eq!(id("_/a", "1.0.0").cmp(&id("_/a", "1.0.0")), Ordering::Equal);
    assert_eq!(id("_/ab", "1").cmp(&id("_/a", "9")), Ordering::Greater);
    assert_eq!(local("/z").cmp(&id("_/a", "1")), Ordering::Less);
    assert_eq!(id("_/a", "1").cmp(&local("/a")), Ordering::Greater);
    assert_eq!(local("/a/b").cmp(&local("/a/c")), Ordering::Less);
    assert_eq!(local("/a//b").cmp(&local("/a/b")), Ordering::Equal);
}

#[test]
fn an_update_plans_the_changed_packages_and_records_the_installed_ones() {
    let id = |n: &str, v: &str| PackageId::new_registry_package(n, v);
    let package = |m: &str| LockfilePackage { modules: vec![legacy_module("_/a", "1.0.0", m)], commands: vec![] };
    let deps = vec![
        ManifestDependency { name: "_/a".to_string(), version: Some("1.0.0".to_string()) },
        ManifestDependency { name: "_/b".to_string(), version: Some("2.0.0".to_string()) },
    ];
    let mut recorded = LockfileData::new();
    recorded.put(id("_/a", "1.0.0"), package("a"));
    let lockfile = recorded.generate_lockfile();
    let added = vec![("_/c".to_string(), "3.0.0".to_string())];
    let (data, changed) =
        update_plan(ManifestResult::Manifest(Some(deps.clone())), &added, LockfileResult::Lockfile(lockfile))
            .unwrap();
    assert_eq!(data.package_keys(), vec![id("_/a", "1.0.0")]);
    let mut packages = changed.packages.clone();
    packages.sort_by(|x, y| format!("{:?}", x).cmp(&format!("{:?}", y)));
    assert_eq!(packages, vec![id("_/b", "2.0.0"), id("_/c", "3.0.0")]);

    let (_, changed) = update_plan(ManifestResult::NoManifest, &added, LockfileResult::NoLockfile).unwrap();
    assert_eq!(changed.packages, vec![id("_/c", "3.0.0")]);
    assert_eq!(
        update_plan(
            ManifestResult::Manifest(Some(deps)),
            &added,
            LockfileResult::LockfileError(BonjourError::LockfileTomlParseError("bad".to_string()))
        )
        .err(),
        Some(BonjourError::LockfileTomlParseError("bad".to_string()))
    );
    let unversioned = vec![ManifestDependency { name: "_/t".to_string(), version: None }];
    assert_eq!(
        update_plan(ManifestResult::Manifest(Some(unversioned)), &added, LockfileResult::NoLockfile).err(),
        Some(BonjourError::DependencyVersionMustBeString("_/t".to_string()))
    );

    let installed = vec![InstalledPackage {
        name: "_/lua".to_string(),
        version: "0.1.3".to_string(),
        modules: Some(vec![Module { name: "lua".to_string(), source: "lua.wasm".to_string(), abi: Abi::Generic }]),
        commands: None,
        download_url: "https://cdn/lua.tar.gz".to_string(),
    }];
    let after = update_lockfile(&installed, data);
    assert_eq!(after.package_keys(), vec![id("_/lua", "0.1.3")]);
}

#[test]
fn generated_lockfiles_read_back_the_same_packages() {
    let id = |n: &str, v: &str| PackageId::new_registry_package(n, v);
    let mut data = LockfileData::new();
    data.put(
        id("_/a", "1.0.0"),
        LockfilePackage {
            modules: vec![legacy_module("_/a", "1.0.0", "m1"), legacy_module("_/a", "1.0.0", "m2")],
            commands: vec![legacy_command("run-a", "_/a", "1.0.0")],
        },
    );
    data.put(id("_/b", "2.0.0"), LockfilePackage { modules: vec![], commands: vec![] });
    data.put(
        id("_/a", "2.0.0"),
        LockfilePackage {
            modules: vec![legacy_module("_/a", "2.0.0", "m1")],
            commands: vec![legacy_command("run-a2", "_/a", "2.0.0"), legacy_command("x", "_/a", "2.0.0")],
        },
    );
    let lockfile = data.generate_lockfile();
    let mut before = data.into_packages();
    let mut after = LockfileData::new_from_lockfile(&lockfile).into_packages();
    before.sort_by(|x, y| format!("{:?}", x.0).cmp(&format!("{:?}", y.0)));
    after.sort_by(|x, y| format!("{:?}", x.0).cmp(&format!("{:?}", y.0)));
    assert_eq!(after, before);
}

#[test]
fn each_migration_records_the_next_data_version() {
    assert_eq!(version_after_migration(0), Ok(1));
    assert_eq!(version_after_migration(1), Ok(2));
    assert_eq!(
        version_after_migration(2),
        Err(MigrationError::MigrationNumberDoesNotExist(2, CURRENT_DATA_VERSION))
    );
    let pending = pending_migrations(0);
    assert_eq!(version_after_migration(*pending.last().unwrap()), Ok(CURRENT_DATA_VERSION));
}
