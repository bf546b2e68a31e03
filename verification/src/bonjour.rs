//! Bringing the installed packages in line with the manifest and the
//! lockfile: which packages they name, which changed, and the lockfile data
//! that installed and recorded packages make.

use vstd::prelude::*;
use crate::assoc::{
    key_index, keys_unique, lemma_key_index, lemma_key_index_same_keys, lemma_unique_index,
    lemma_upsert_lookup, lookup, upsert,
};
use crate::lockfile::{find_name, names_view};
use crate::legacy_lockfile::{
    legacy_commands_view, legacy_modules_view, legacy_table_view, legacy_versions_view, LegacyModuleTable,
    LegacyTableModel,
    command_package_valid, module_recordable, spec_from_command, spec_from_module, Command,
    CommandModel, Lockfile, LockfileCommand, LockfileCommandModel, LockfileModule,
    LockfileModuleModel, Module, ModuleModel,
};

verus! {

/// Why the packages could not be brought in line.
#[derive(Debug, Clone, PartialEq, Eq)]
pub enum BonjourError {
    MissingManifest,
    ManifestTomlParseError(String),
    LockfileTomlParseError(String),
    DependencyVersionMustBeString(String),
    InstallError(String),
    LockfileSaveError(String),
}

/// A package: one in a local directory, or one of the registry with its
/// name and version. A local package is identified by its directory as
/// written: two spellings of one path (`/a//b`, `/a/b`) are two identities,
/// though `cmp`, which orders directories as paths, finds them equal.
#[derive(Debug, Clone, PartialEq, Eq)]
pub enum PackageId {
    LocalPackage { directory: String },
    WapmRegistryPackage { name: String, version: String },
}

pub enum PackageIdModel {
    LocalPackage { directory: Seq<char> },
    WapmRegistryPackage { name: Seq<char>, version: Seq<char> },
}

impl View for PackageId {
    type V = PackageIdModel;

    open spec fn view(&self) -> PackageIdModel {
        match self {
            PackageId::LocalPackage { directory } => PackageIdModel::LocalPackage {
                directory: directory@,
            },
            PackageId::WapmRegistryPackage { name, version } =>
                PackageIdModel::WapmRegistryPackage { name: name@, version: version@ },
        }
    }
}

impl PackageId {
    /// The registry package with the given name and version.
    pub fn new_registry_package(name: &str, version: &str) -> (res: PackageId)
        ensures
            res@ == (PackageIdModel::WapmRegistryPackage { name: name@, version: version@ }),
    {
        PackageId::WapmRegistryPackage { name: name.to_owned(), version: version.to_owned() }
    }

    /// Whether two packages are the same.
    pub fn same_as(&self, other: &PackageId) -> (res: bool)
        ensures
            res == (self@ == other@),
    {
        match (self, other) {
            (PackageId::LocalPackage { directory: a }, PackageId::LocalPackage { directory: b }) =>
                *a == *b,
            (
                PackageId::WapmRegistryPackage { name: a, version: v },
                PackageId::WapmRegistryPackage { name: b, version: w },
            ) => *a == *b && *v == *w,
            _ => false,
        }
    }

    /// An independent copy.
    pub fn duplicate(&self) -> (res: PackageId)
        ensures
            res@ == self@,
    {
        match self {
            PackageId::LocalPackage { directory } => PackageId::LocalPackage {
                directory: directory.clone(),
            },
            PackageId::WapmRegistryPackage { name, version } => PackageId::WapmRegistryPackage {
                name: name.clone(),
                version: version.clone(),
            },
        }
    }
}

pub open spec fn ids_view(v: Seq<PackageId>) -> Seq<PackageIdModel> {
    v.map_values(|p: PackageId| p@)
}

/// The packages of the manifest that the lockfile does not have, in the
/// manifest's order.
pub open spec fn spec_changed(manifest: Seq<PackageIdModel>, lockfile: Seq<PackageIdModel>) -> Seq<
    PackageIdModel,
> {
    manifest.filter(|p: PackageIdModel| !lockfile.contains(p))
}

fn contains_id(v: &Vec<PackageId>, p: &PackageId) -> (res: bool)
    ensures
        res == ids_view(v@).contains(p@),
{
    for i in 0..v.len()
        invariant
            forall|j: int| 0 <= j < i ==> ids_view(v@)[j] != p@,
    {
        assert(ids_view(v@)[i as int] == v@[i as int]@);
        if v[i].same_as(p) {
            assert(ids_view(v@)[i as int] == p@);
            return true;
        }
    }
    false
}

/// The packages that changed between a manifest and an existing lockfile:
/// those that the manifest names and the lockfile does not have.
pub fn prune_unchanged_dependencies(manifest_keys: &Vec<PackageId>, lockfile_keys: &Vec<PackageId>) -> (res:
    Vec<PackageId>)
    ensures
        ids_view(res@) == spec_changed(ids_view(manifest_keys@), ids_view(lockfile_keys@)),
{
    let ghost m = ids_view(manifest_keys@);
    let ghost l = ids_view(lockfile_keys@);
    let mut res: Vec<PackageId> = Vec::new();
    for i in 0..manifest_keys.len()
        invariant
            m == ids_view(manifest_keys@),
            l == ids_view(lockfile_keys@),
            ids_view(res@) == spec_changed(m.take(i as int), l),
    {
        assert(m.take(i + 1).drop_last() =~= m.take(i as int));
        assert(m.take(i + 1).last() == manifest_keys@[i as int]@);
        let ghost before = res@;
        if !contains_id(lockfile_keys, &manifest_keys[i]) {
            res.push(manifest_keys[i].duplicate());
            assert(ids_view(res@) =~= ids_view(before).push(manifest_keys@[i as int]@));
        }
        assert(spec_changed(m.take(i + 1), l) == spec_changed(m.take(i as int), l)
            + if l.contains(m[i as int]) { seq![] } else { seq![m[i as int]] }) by {
            assert(m.take(i + 1).drop_last() =~= m.take(i as int));
            reveal(Seq::filter);
        }
        assert(ids_view(res@) =~= spec_changed(m.take(i + 1), l));
    }
    assert(m.take(manifest_keys.len() as int) =~= m);
    res
}

/// The changed packages are exactly the manifest's packages that the
/// lockfile does not have.
pub proof fn law_changed_is_difference(
    manifest: Seq<PackageIdModel>,
    lockfile: Seq<PackageIdModel>,
    p: PackageIdModel,
)
    ensures
        spec_changed(manifest, lockfile).contains(p) <==> (manifest.contains(p)
            && !lockfile.contains(p)),
{
    let pred = |q: PackageIdModel| !lockfile.contains(q);
    let f = manifest.filter(pred);
    if f.contains(p) {
        manifest.lemma_filter_contains_rev(pred, p);
        let k = choose|k: int| 0 <= k < f.len() && f[k] == p;
        manifest.lemma_filter_pred(pred, k);
    }
    if manifest.contains(p) && !lockfile.contains(p) {
        let k = choose|k: int| 0 <= k < manifest.len() && manifest[k] == p;
        manifest.lemma_filter_contains(pred, k);
    }
}

/// The text of a manifest, if one could be read.
#[derive(Debug, Clone, PartialEq, Eq)]
pub struct ManifestSource {
    source: Option<String>,
}

impl ManifestSource {
    /// The manifest text that was read, or none.
    pub fn new(source: Option<String>) -> (res: ManifestSource)
        ensures
            res.text() == source,
    {
        ManifestSource { source }
    }

    pub closed spec fn text(&self) -> Option<String> {
        self.source
    }

    /// The manifest text, if any.
    pub fn source(&self) -> (res: &Option<String>)
        ensures
            *res == self.text(),
    {
        &self.source
    }
}

/// The text of a lockfile, if one could be read.
#[derive(Debug, Clone, PartialEq, Eq)]
pub struct LockfileSource {
    source: Option<String>,
}

impl LockfileSource {
    /// The lockfile text that was read, or none.
    pub fn new(source: Option<String>) -> (res: LockfileSource)
        ensures
            res.text() == source,
    {
        LockfileSource { source }
    }

    pub closed spec fn text(&self) -> Option<String> {
        self.source
    }

    /// The lockfile text, if any.
    pub fn source(&self) -> (res: &Option<String>)
        ensures
            *res == self.text(),
    {
        &self.source
    }
}

/// Packages fetched from the registry: name, version and download URL.
#[derive(Debug, Clone, PartialEq, Eq)]
pub struct RemotePackageData {
    pub source: Vec<(String, String, String)>,
}


/// The modules and commands of a package in a lockfile.
#[derive(Debug, Clone, PartialEq, Eq)]
pub struct LockfilePackage {
    pub modules: Vec<LockfileModule>,
    pub commands: Vec<LockfileCommand>,
}

pub struct LockfilePackageModel {
    pub modules: Seq<LockfileModuleModel>,
    pub commands: Seq<LockfileCommandModel>,
}

impl View for LockfilePackage {
    type V = LockfilePackageModel;

    open spec fn view(&self) -> LockfilePackageModel {
        LockfilePackageModel {
            modules: self.modules@.map_values(|m: LockfileModule| m@),
            commands: self.commands@.map_values(|c: LockfileCommand| c@),
        }
    }
}

pub open spec fn packages_view(v: Seq<(PackageId, LockfilePackage)>) -> Seq<(PackageIdModel, LockfilePackageModel)> {
    v.map_values(|e: (PackageId, LockfilePackage)| (e.0@, e.1@))
}

/// The packages of a lockfile, each with its modules and commands.
#[derive(Debug, Clone, PartialEq, Eq)]
pub struct LockfileData {
    packages: Vec<(PackageId, LockfilePackage)>,
}

impl LockfileData {
    /// No package has two entries.
    pub closed spec fn wf(&self) -> bool {
        keys_unique(packages_view(self.packages@))
    }

    /// The packages, one entry each.
    pub closed spec fn packages(&self) -> Seq<(PackageIdModel, LockfilePackageModel)> {
        packages_view(self.packages@)
    }

    /// No packages.
    pub fn new() -> (res: LockfileData)
        ensures
            res.wf(),
            res.packages() == Seq::<(PackageIdModel, LockfilePackageModel)>::empty(),
    {
        let res = LockfileData { packages: Vec::new() };
        assert(res.packages() =~= Seq::<(PackageIdModel, LockfilePackageModel)>::empty());
        res
    }

    /// The packages as a list, each with its modules and commands.
    pub fn into_packages(self) -> (res: Vec<(PackageId, LockfilePackage)>)
        ensures
            packages_view(res@) == self.packages(),
    {
        self.packages
    }

    fn find(&self, k: &PackageId) -> (res: Option<usize>)
        ensures
            res is None ==> key_index(self.packages(), k@) == -1,
            res matches Some(i) ==> key_index(self.packages(), k@) == i && i < self.packages@.len(),
    {
        let ghost v = self.packages();
        proof {
            lemma_key_index(v, k@);
        }
        for i in 0..self.packages.len()
            invariant
                v == packages_view(self.packages@),
                forall|j: int| 0 <= j < i ==> v[j].0 != k@,
        {
            assert(v[i as int] == (self.packages@[i as int].0@, self.packages@[i as int].1@));
            if self.packages[i].0.same_as(k) {
                proof {
                    lemma_key_index(v, k@);
                }
                return Some(i);
            }
        }
        proof {
            lemma_key_index(v, k@);
        }
        None
    }

    /// Puts a package in, in place of its entry if it has one.
    pub fn put(&mut self, k: PackageId, p: LockfilePackage)
        requires
            old(self).wf(),
        ensures
            final(self).wf(),
            final(self).packages() == upsert(old(self).packages(), k@, p@),
    {
        let ghost before = self.packages();
        proof {
            lemma_upsert_lookup(before, k@, p@, k@);
            lemma_key_index(before, k@);
        }
        match self.find(&k) {
            Some(i) => {
                self.packages.set(i, (k, p));
                assert(self.packages() =~= before.update(i as int, (k@, p@)));
            },
            None => {
                self.packages.push((k, p));
                assert(self.packages() =~= before.push((k@, p@)));
            },
        }
    }

    /// Whether a package has an entry.
    pub fn has(&self, k: &PackageId) -> (res: bool)
        ensures
            res == (lookup(self.packages(), k@) is Some),
    {
        let r = self.find(k);
        proof {
            lemma_key_index(self.packages(), k@);
        }
        r.is_some()
    }

    /// Merges newer lockfile data (`self`) over older (`other`): the older
    /// packages that the newer data lacks are dropped, and the newer data's
    /// packages replace the older ones.
    pub fn merge(self, other: LockfileData) -> (res: LockfileData)
        requires
            self.wf(),
            other.wf(),
        ensures
            res.wf(),
            forall|k: PackageIdModel| #[trigger] lookup(res.packages(), k) == lookup(self.packages(), k),
    {
        let mut other = other;
        let mut res = LockfileData::new();
        while other.packages.len() > 0
            invariant
                self.wf(),
                res.wf(),
                forall|k: PackageIdModel| #[trigger] lookup(res.packages(), k) is Some ==> lookup(
                    self.packages(),
                    k,
                ) is Some,
            decreases other.packages@.len(),
        {
            let (k, p) = other.packages.pop().unwrap();
            if self.has(&k) {
                let ghost before = res.packages();
                let ghost key = k@;
                let ghost pv = p@;
                res.put(k, p);
                assert forall|q: PackageIdModel| #[trigger] lookup(res.packages(), q) is Some implies lookup(
                    self.packages(),
                    q,
                ) is Some by {
                    lemma_upsert_lookup(before, key, pv, q);
                }
            }
        }
        let ghost sp = self.packages();
        let mut newer = self.packages;
        let ghost start_len = newer@.len();
        while newer.len() > 0
            invariant
                keys_unique(sp),
                res.wf(),
                newer@.len() <= start_len,
                start_len == sp.len(),
                packages_view(newer@) == sp.take(newer@.len() as int),
                forall|k: PackageIdModel| #[trigger] lookup(res.packages(), k) is Some ==> lookup(sp, k) is Some,
                forall|j: int| newer@.len() <= j < sp.len() ==> lookup(res.packages(), #[trigger] sp[j].0)
                    == Some(sp[j].1),
            decreases newer@.len(),
        {
            let ghost n = newer@.len();
            let (k, p) = newer.pop().unwrap();
            assert(sp.take(n as int).last() == (k@, p@));
            assert(packages_view(newer@) =~= sp.take(n - 1));
            let ghost before = res.packages();
            res.put(k, p);
            assert forall|q: PackageIdModel| #[trigger] lookup(res.packages(), q) is Some implies lookup(sp, q) is Some by {
                lemma_upsert_lookup(before, sp[n - 1].0, sp[n - 1].1, q);
                lemma_key_index(sp, q);
                lemma_unique_index(sp, n - 1);
            }
            assert forall|j: int| n - 1 <= j < sp.len() implies lookup(res.packages(), #[trigger] sp[j].0)
                == Some(sp[j].1) by {
                lemma_upsert_lookup(before, sp[n - 1].0, sp[n - 1].1, sp[j].0);
                if j != n - 1 {
                    assert(sp[j].0 != sp[n - 1].0);
                }
            }
        }
        assert forall|k: PackageIdModel| #[trigger] lookup(res.packages(), k) == lookup(sp, k) by {
            lemma_key_index(sp, k);
            if lookup(sp, k) is Some {
                let j = key_index(sp, k);
                assert(sp[j].0 == k);
            }
        }
        res
    }
}


/// A version of a package in a lockfile: the package, the version, and its
/// modules.
pub type FlatEntry = (Seq<char>, Seq<char>, Seq<LockfileModuleModel>);

/// The versions of a package, each with its modules, in order.
pub open spec fn flat_versions(
    p: Seq<char>,
    vs: Seq<(Seq<char>, Seq<(Seq<char>, LockfileModuleModel)>)>,
) -> Seq<FlatEntry>
    decreases vs.len(),
{
    if vs.len() == 0 {
        seq![]
    } else {
        flat_versions(p, vs.drop_last()).push(
            (p, vs.last().0, vs.last().1.map_values(|m: (Seq<char>, LockfileModuleModel)| m.1)),
        )
    }
}

/// Every version of every package of a lockfile, in order.
pub open spec fn flat_table(t: LegacyTableModel) -> Seq<FlatEntry>
    decreases t.len(),
{
    if t.len() == 0 {
        seq![]
    } else {
        flat_table(t.drop_last()) + flat_versions(t.last().0, t.last().1)
    }
}

/// The commands of a lockfile that belong to a version of a package, in order.
pub open spec fn commands_of(cs: Seq<(Seq<char>, LockfileCommandModel)>, p: Seq<char>, v: Seq<char>) -> Seq<
    LockfileCommandModel,
>
    decreases cs.len(),
{
    if cs.len() == 0 {
        seq![]
    } else {
        let r = commands_of(cs.drop_last(), p, v);
        let c = cs.last().1;
        if c.package_name == p && c.package_version == v {
            r.push(c)
        } else {
            r
        }
    }
}

/// No earlier entry names the same package and version.
pub open spec fn first_occurrence(f: Seq<FlatEntry>, i: int) -> bool {
    forall|j: int| 0 <= j < i ==> !(#[trigger] f[j].0 == f[i].0 && f[j].1 == f[i].1)
}

/// The package of each entry: its modules, and its commands where it is the
/// first entry of its package and version (later ones get none).
pub open spec fn lockfile_entries(f: Seq<FlatEntry>, cs: Seq<(Seq<char>, LockfileCommandModel)>) -> Seq<
    (PackageIdModel, LockfilePackageModel),
> {
    Seq::new(
        f.len(),
        |i: int|
            (
                PackageIdModel::WapmRegistryPackage { name: f[i].0, version: f[i].1 },
                LockfilePackageModel {
                    modules: f[i].2,
                    commands: if first_occurrence(f, i) {
                        commands_of(cs, f[i].0, f[i].1)
                    } else {
                        seq![]
                    },
                },
            ),
    )
}

/// Entries put in turn into package data.
pub open spec fn put_all(
    acc: Seq<(PackageIdModel, LockfilePackageModel)>,
    es: Seq<(PackageIdModel, LockfilePackageModel)>,
) -> Seq<(PackageIdModel, LockfilePackageModel)>
    decreases es.len(),
{
    if es.len() == 0 {
        acc
    } else {
        upsert(put_all(acc, es.drop_last()), es.last().0, es.last().1)
    }
}

pub open spec fn flat_view(v: Seq<(String, String, Vec<LockfileModule>)>) -> Seq<FlatEntry> {
    v.map_values(
        |e: (String, String, Vec<LockfileModule>)|
            (e.0@, e.1@, e.2@.map_values(|m: LockfileModule| m@)),
    )
}

/// Every version of every package of a lockfile, with copies of its modules.
fn flatten(lockfile: &Lockfile) -> (res: Vec<(String, String, Vec<LockfileModule>)>)
    ensures
        flat_view(res@) == flat_table(legacy_table_view(lockfile.modules@)),
{
    let ghost t = legacy_table_view(lockfile.modules@);
    let mut out: Vec<(String, String, Vec<LockfileModule>)> = Vec::new();
    assert(t.take(0) =~= Seq::<(Seq<char>, Seq<(Seq<char>, Seq<(Seq<char>, LockfileModuleModel)>)>)>::empty());
    for i in 0..lockfile.modules.len()
        invariant
            t == legacy_table_view(lockfile.modules@),
            flat_view(out@) == flat_table(t.take(i as int)),
    {
        let p = &lockfile.modules[i].0;
        let vs = &lockfile.modules[i].1;
        let ghost vv = legacy_versions_view(vs@);
        let ghost at_start = flat_view(out@);
        assert(vv.take(0) =~= Seq::<(Seq<char>, Seq<(Seq<char>, LockfileModuleModel)>)>::empty());
        for j in 0..vs.len()
            invariant
                vv == legacy_versions_view(vs@),
                flat_view(out@) == at_start + flat_versions(p@, vv.take(j as int)),
        {
            let ms = &vs[j].1;
            let mut copies: Vec<LockfileModule> = Vec::new();
            for k in 0..ms.len()
                invariant
                    copies@.len() == k,
                    copies@.map_values(|m: LockfileModule| m@) == ms@.map_values(
                        |e: (String, LockfileModule)| e.1@,
                    ).take(k as int),
            {
                let ghost before = copies@;
                let d = ms[k].1.duplicate();
                copies.push(d);
                assert(copies@ == before.push(d));
                assert(copies@.map_values(|m: LockfileModule| m@) =~= before.map_values(
                    |m: LockfileModule| m@,
                ).push(ms@[k as int].1@));
                assert(copies@.map_values(|m: LockfileModule| m@) =~= ms@.map_values(
                    |e: (String, LockfileModule)| e.1@,
                ).take(k + 1));
            }
            assert(ms@.map_values(|e: (String, LockfileModule)| e.1@).take(ms.len() as int)
                =~= legacy_modules_view(ms@).map_values(|m: (Seq<char>, LockfileModuleModel)| m.1));
            let ghost before = flat_view(out@);
            out.push((p.clone(), vs[j].0.clone(), copies));
            assert(vv.take(j + 1).drop_last() =~= vv.take(j as int));
            assert(vv.take(j + 1).last() == vv[j as int]);
            assert(flat_view(out@) =~= before.push(flat_view(out@).last()));
            assert(flat_view(out@) =~= at_start + flat_versions(p@, vv.take(j + 1)));
        }
        assert(vv.take(vs.len() as int) =~= vv);
        assert(t.take(i + 1).drop_last() =~= t.take(i as int));
        assert(t.take(i + 1).last() == (p@, vv));
    }
    assert(t.take(lockfile.modules.len() as int) =~= t);
    out
}

/// Copies of the commands of a lockfile that belong to a version of a package.
fn commands_for(lockfile: &Lockfile, p: &String, v: &String) -> (res: Vec<LockfileCommand>)
    ensures
        res@.map_values(|c: LockfileCommand| c@) == commands_of(
            legacy_commands_view(lockfile.commands@),
            p@,
            v@,
        ),
{
    let ghost cs = legacy_commands_view(lockfile.commands@);
    let mut out: Vec<LockfileCommand> = Vec::new();
    assert(cs.take(0) =~= Seq::<(Seq<char>, LockfileCommandModel)>::empty());
    for k in 0..lockfile.commands.len()
        invariant
            cs == legacy_commands_view(lockfile.commands@),
            out@.map_values(|c: LockfileCommand| c@) == commands_of(cs.take(k as int), p@, v@),
    {
        let c = &lockfile.commands[k].1;
        assert(cs.take(k + 1).drop_last() =~= cs.take(k as int));
        assert(cs.take(k + 1).last().1 == c@);
        if c.package_name == *p && c.package_version == *v {
            let ghost before = out@;
            out.push(c.duplicate());
            assert(out@.map_values(|x: LockfileCommand| x@) =~= before.map_values(
                |x: LockfileCommand| x@,
            ).push(c@));
        }
    }
    assert(cs.take(lockfile.commands.len() as int) =~= cs);
    out
}

impl LockfileData {
    /// The packages of a lockfile: each version of each package with its
    /// modules, and with the commands that name that package and version.
    pub fn new_from_lockfile(lockfile: &Lockfile) -> (res: LockfileData)
        ensures
            res.wf(),
            res.packages() == put_all(
                seq![],
                lockfile_entries(
                    flat_table(legacy_table_view(lockfile.modules@)),
                    legacy_commands_view(lockfile.commands@),
                ),
            ),
    {
        let flat = flatten(lockfile);
        let ghost f = flat_view(flat@);
        let ghost es = lockfile_entries(f, legacy_commands_view(lockfile.commands@));
        let mut res = LockfileData::new();
        assert(es.take(0) =~= Seq::<(PackageIdModel, LockfilePackageModel)>::empty());
        for i in 0..flat.len()
            invariant
                f == flat_view(flat@),
                es == lockfile_entries(f, legacy_commands_view(lockfile.commands@)),
                res.wf(),
                res.packages() == put_all(seq![], es.take(i as int)),
        {
            let mut first = true;
            for j in 0..i
                invariant
                    f == flat_view(flat@),
                    i < f.len(),
                    first == (forall|q: int| 0 <= q < j ==> !(#[trigger] f[q].0 == f[i as int].0 && f[q].1
                        == f[i as int].1)),
            {
                if flat[j].0 == flat[i].0 && flat[j].1 == flat[i].1 {
                    first = false;
                }
                assert(f[j as int].0 == flat@[j as int].0@ && f[j as int].1 == flat@[j as int].1@);
                assert(f[i as int].0 == flat@[i as int].0@ && f[i as int].1 == flat@[i as int].1@);
            }
            let commands = if first {
                commands_for(lockfile, &flat[i].0, &flat[i].1)
            } else {
                Vec::new()
            };
            let mut modules: Vec<LockfileModule> = Vec::new();
            let ms = &flat[i].2;
            for k in 0..ms.len()
                invariant
                    modules@.len() == k,
                    modules@.map_values(|m: LockfileModule| m@) == ms@.map_values(|m: LockfileModule| m@).take(
                        k as int,
                    ),
            {
                let ghost before = modules@;
                let d = ms[k].duplicate();
                modules.push(d);
                assert(modules@ == before.push(d));
                assert(modules@.map_values(|m: LockfileModule| m@) =~= before.map_values(
                    |m: LockfileModule| m@,
                ).push(ms@[k as int]@));
                assert(modules@.map_values(|m: LockfileModule| m@) =~= ms@.map_values(
                    |m: LockfileModule| m@,
                ).take(k + 1));
            }
            assert(ms@.map_values(|m: LockfileModule| m@).take(ms.len() as int) =~= ms@.map_values(
                |m: LockfileModule| m@,
            ));
            let key = PackageId::new_registry_package(flat[i].0.as_str(), flat[i].1.as_str());
            let package = LockfilePackage { modules, commands };
            assert(package@.commands =~= es[i as int].1.commands);
            assert(package@.modules =~= es[i as int].1.modules);
            assert((key@, package@) == es[i as int]);
            res.put(key, package);
            assert(es.take(i + 1).drop_last() =~= es.take(i as int));
        }
        assert(es.take(flat.len() as int) =~= es);
        res
    }
}


/// A package installed from a manifest: its name and version, the modules and
/// commands of its manifest, and where it was downloaded from.
#[derive(Debug, Clone, PartialEq, Eq)]
pub struct InstalledPackage {
    pub name: String,
    pub version: String,
    pub modules: Option<Vec<Module>>,
    pub commands: Option<Vec<Command>>,
    pub download_url: String,
}

pub struct InstalledPackageModel {
    pub name: Seq<char>,
    pub version: Seq<char>,
    pub modules: Option<Seq<ModuleModel>>,
    pub commands: Option<Seq<CommandModel>>,
    pub download_url: Seq<char>,
}

impl View for InstalledPackage {
    type V = InstalledPackageModel;

    open spec fn view(&self) -> InstalledPackageModel {
        InstalledPackageModel {
            name: self.name@,
            version: self.version@,
            modules: match self.modules {
                Some(ms) => Some(ms@.map_values(|m: Module| m@)),
                None => None,
            },
            commands: match self.commands {
                Some(cs) => Some(cs@.map_values(|c: Command| c@)),
                None => None,
            },
            download_url: self.download_url@,
        }
    }
}

/// What can be recorded of an installed package: its modules have sources
/// with file names under a package name with a namespace, and its commands
/// name their packages as `name version`.
pub open spec fn installed_recordable(p: InstalledPackageModel) -> bool {
    &&& p.modules matches Some(ms) ==> forall|i: int|
        0 <= i < ms.len() ==> module_recordable(p.name, #[trigger] ms[i].source)
    &&& p.commands matches Some(cs) ==> forall|i: int|
        0 <= i < cs.len() ==> command_package_valid(#[trigger] cs[i].package)
}

/// The lockfile package of an installed package: the records of its modules
/// and of its commands.
pub open spec fn installed_package(p: InstalledPackageModel) -> LockfilePackageModel {
    LockfilePackageModel {
        modules: match p.modules {
            Some(ms) => ms.map_values(
                |m: ModuleModel|
                    spec_from_module(p.name, p.version, m.name, m.source, m.abi, p.download_url),
            ),
            None => seq![],
        },
        commands: match p.commands {
            Some(cs) => cs.map_values(|c: CommandModel| spec_from_command(p.name, p.version, c)),
            None => seq![],
        },
    }
}

pub open spec fn installed_entries(ps: Seq<InstalledPackageModel>) -> Seq<(PackageIdModel, LockfilePackageModel)> {
    ps.map_values(
        |p: InstalledPackageModel|
            (
                PackageIdModel::WapmRegistryPackage { name: p.name, version: p.version },
                installed_package(p),
            ),
    )
}

impl LockfileData {
    /// The packages of freshly installed packages, each with the records of
    /// its modules and commands; a package installed twice keeps its last
    /// records.
    pub fn from_installed_packages(installed: &Vec<InstalledPackage>) -> (res: LockfileData)
        requires
            forall|i: int| 0 <= i < installed@.len() ==> installed_recordable(#[trigger] installed@[i]@),
        ensures
            res.wf(),
            res.packages() == put_all(seq![], installed_entries(installed@.map_values(|p: InstalledPackage| p@))),
    {
        let ghost es = installed_entries(installed@.map_values(|p: InstalledPackage| p@));
        let mut res = LockfileData::new();
        assert(es.take(0) =~= Seq::<(PackageIdModel, LockfilePackageModel)>::empty());
        for i in 0..installed.len()
            invariant
                forall|q: int| 0 <= q < installed@.len() ==> installed_recordable(#[trigger] installed@[q]@),
                es == installed_entries(installed@.map_values(|p: InstalledPackage| p@)),
                res.wf(),
                res.packages() == put_all(seq![], es.take(i as int)),
        {
            let ip = &installed[i];
            let ghost pm = ip@;
            assert(installed_recordable(pm));
            let mut modules: Vec<LockfileModule> = Vec::new();
            match &ip.modules {
                Some(ms) => {
                    for k in 0..ms.len()
                        invariant
                            pm == ip@,
                            installed_recordable(pm),
                            ip.modules == Some(*ms),
                            modules@.len() == k,
                            forall|j: int| 0 <= j < k ==> (#[trigger] modules@[j])@ == spec_from_module(
                                pm.name,
                                pm.version,
                                ms@[j].name@,
                                ms@[j].source@,
                                ms@[j].abi,
                                pm.download_url,
                            ),
                    {
                        assert(pm.modules->Some_0[k as int] == ms@[k as int]@);
                        assert(module_recordable(pm.name, pm.modules->Some_0[k as int].source));
                        modules.push(
                            LockfileModule::from_module(
                                ip.name.as_str(),
                                ip.version.as_str(),
                                &ms[k],
                                ip.download_url.as_str(),
                            ),
                        );
                    }
                },
                None => {},
            }
            let mut commands: Vec<LockfileCommand> = Vec::new();
            match &ip.commands {
                Some(cs) => {
                    for k in 0..cs.len()
                        invariant
                            pm == ip@,
                            installed_recordable(pm),
                            ip.commands == Some(*cs),
                            commands@.len() == k,
                            forall|j: int| 0 <= j < k ==> (#[trigger] commands@[j])@ == spec_from_command(
                                pm.name,
                                pm.version,
                                cs@[j]@,
                            ),
                    {
                        assert(pm.commands->Some_0[k as int] == cs@[k as int]@);
                        assert(command_package_valid(pm.commands->Some_0[k as int].package));
                        commands.push(
                            LockfileCommand::from_command(ip.name.clone(), ip.version.clone(), &cs[k]),
                        );
                    }
                },
                None => {},
            }
            let key = PackageId::new_registry_package(ip.name.as_str(), ip.version.as_str());
            let package = LockfilePackage { modules, commands };
            assert(package@.modules =~= installed_package(pm).modules);
            assert(package@.commands =~= installed_package(pm).commands);
            assert((key@, package@) == es[i as int]);
            res.put(key, package);
            assert(es.take(i + 1).drop_last() =~= es.take(i as int));
        }
        assert(es.take(installed.len() as int) =~= es);
        res
    }
}


/// The versions of a package in a table, none where it has no entry.
pub open spec fn versions_at(t: LegacyTableModel, p: Seq<char>) -> Seq<
    (Seq<char>, Seq<(Seq<char>, LockfileModuleModel)>),
> {
    match lookup(t, p) {
        Some(vs) => vs,
        None => seq![],
    }
}

/// The modules of a version of a package in a table, none where it has none.
pub open spec fn modules_at(t: LegacyTableModel, p: Seq<char>, v: Seq<char>) -> Seq<
    (Seq<char>, LockfileModuleModel),
> {
    match lookup(versions_at(t, p), v) {
        Some(ms) => ms,
        None => seq![],
    }
}

/// Modules put in turn under their names.
pub open spec fn put_modules(acc: Seq<(Seq<char>, LockfileModuleModel)>, ms: Seq<LockfileModuleModel>) -> Seq<
    (Seq<char>, LockfileModuleModel),
>
    decreases ms.len(),
{
    if ms.len() == 0 {
        acc
    } else {
        upsert(put_modules(acc, ms.drop_last()), ms.last().name, ms.last())
    }
}

/// Commands put in turn under their names.
pub open spec fn put_commands(acc: Seq<(Seq<char>, LockfileCommandModel)>, cs: Seq<LockfileCommandModel>) -> Seq<
    (Seq<char>, LockfileCommandModel),
>
    decreases cs.len(),
{
    if cs.len() == 0 {
        acc
    } else {
        upsert(put_commands(acc, cs.drop_last()), cs.last().name, cs.last())
    }
}

/// The lockfile that packages make: each registry package's modules go under
/// its name and version (an entry is made for it even without modules), each
/// under the module's name; its commands go under their names; a later entry
/// under the same name replaces an earlier one.
pub open spec fn spec_generate(es: Seq<(PackageIdModel, LockfilePackageModel)>) -> (
    LegacyTableModel,
    Seq<(Seq<char>, LockfileCommandModel)>,
)
    decreases es.len(),
{
    if es.len() == 0 {
        (seq![], seq![])
    } else {
        let (t, cs) = spec_generate(es.drop_last());
        let (id, pkg) = es.last();
        match id {
            PackageIdModel::WapmRegistryPackage { name, version } => (
                upsert(
                    t,
                    name,
                    upsert(
                        versions_at(t, name),
                        version,
                        put_modules(modules_at(t, name, version), pkg.modules),
                    ),
                ),
                put_commands(cs, pkg.commands),
            ),
            PackageIdModel::LocalPackage { .. } => (t, cs),
        }
    }
}

/// Puts a record under its name, in place of the record of that name if
/// there is one.
fn put_named<M: View>(v: &mut Vec<(String, M)>, name: String, m: M)
    ensures
        names_view(final(v)@) == upsert(names_view(old(v)@), name@, m@),
{
    let ghost before = names_view(v@);
    proof {
        lemma_key_index(before, name@);
    }
    match find_name(v, name.as_str()) {
        Some(i) => {
            let ghost mv = m@;
            v.set(i, (name, m));
            assert(names_view(v@) =~= before.update(i as int, (name@, mv)));
        },
        None => {
            let ghost nv = name@;
            let ghost mv = m@;
            v.push((name, m));
            assert(names_view(v@) =~= before.push((nv, mv)));
        },
    }
}

/// Puts modules in turn under their names.
fn put_module_records(v: &mut Vec<(String, LockfileModule)>, ms: &Vec<LockfileModule>)
    ensures
        legacy_modules_view(final(v)@) == put_modules(
            legacy_modules_view(old(v)@),
            ms@.map_values(|m: LockfileModule| m@),
        ),
{
    let ghost start = legacy_modules_view(v@);
    let ghost mv = ms@.map_values(|m: LockfileModule| m@);
    assert(mv.take(0) =~= Seq::<LockfileModuleModel>::empty());
    for i in 0..ms.len()
        invariant
            start == legacy_modules_view(old(v)@),
            mv == ms@.map_values(|m: LockfileModule| m@),
            legacy_modules_view(v@) == put_modules(start, mv.take(i as int)),
    {
        let m = ms[i].duplicate();
        let name = m.name.clone();
        assert(names_view(v@) =~= legacy_modules_view(v@));
        put_named(v, name, m);
        assert(names_view(v@) =~= legacy_modules_view(v@));
        assert(mv.take(i + 1).drop_last() =~= mv.take(i as int));
        assert(mv.take(i + 1).last() == ms@[i as int]@);
    }
    assert(mv.take(ms.len() as int) =~= mv);
}

/// Puts commands in turn under their names.
fn put_command_records(v: &mut Vec<(String, LockfileCommand)>, cs: &Vec<LockfileCommand>)
    ensures
        legacy_commands_view(final(v)@) == put_commands(
            legacy_commands_view(old(v)@),
            cs@.map_values(|c: LockfileCommand| c@),
        ),
{
    let ghost start = legacy_commands_view(v@);
    let ghost cv = cs@.map_values(|c: LockfileCommand| c@);
    assert(cv.take(0) =~= Seq::<LockfileCommandModel>::empty());
    for i in 0..cs.len()
        invariant
            start == legacy_commands_view(old(v)@),
            cv == cs@.map_values(|c: LockfileCommand| c@),
            legacy_commands_view(v@) == put_commands(start, cv.take(i as int)),
    {
        let c = cs[i].duplicate();
        let name = c.name.clone();
        assert(names_view(v@) =~= legacy_commands_view(v@));
        put_named(v, name, c);
        assert(names_view(v@) =~= legacy_commands_view(v@));
        assert(cv.take(i + 1).drop_last() =~= cv.take(i as int));
        assert(cv.take(i + 1).last() == cs@[i as int]@);
    }
    assert(cv.take(cs.len() as int) =~= cv);
}


/// Puts modules under a version of a package, making the package's and the
/// version's entries where they are missing.
fn put_package_modules(table: &mut LegacyModuleTable, p: &String, v: &String, ms: &Vec<LockfileModule>)
    ensures
        legacy_table_view(final(table)@) == ({
            let t = legacy_table_view(old(table)@);
            upsert(
                t,
                p@,
                upsert(
                    versions_at(t, p@),
                    v@,
                    put_modules(modules_at(t, p@, v@), ms@.map_values(|m: LockfileModule| m@)),
                ),
            )
        }),
{
    let ghost t = legacy_table_view(table@);
    proof {
        lemma_key_index_same_keys(names_view(table@), t, p@);
        lemma_key_index(t, p@);
    }
    let pi = find_name(table, p.as_str());
    let (pname, mut versions) = match pi {
        Some(i) => {
            assert(t[i as int] == (table@[i as int].0@, legacy_versions_view(table@[i as int].1@)));
            table.remove(i)
        },
        None => (p.clone(), Vec::new()),
    };
    let ghost vs = legacy_versions_view(versions@);
    assert(vs == versions_at(t, p@));
    assert(pname@ == p@);
    proof {
        lemma_key_index_same_keys(names_view(versions@), vs, v@);
        lemma_key_index(vs, v@);
    }
    let vi = find_name(&versions, v.as_str());
    let (vname, mut mods) = match vi {
        Some(j) => {
            assert(vs[j as int] == (versions@[j as int].0@, legacy_modules_view(versions@[j as int].1@)));
            versions.remove(j)
        },
        None => (v.clone(), Vec::new()),
    };
    assert(legacy_modules_view(mods@) == modules_at(t, p@, v@));
    assert(vname@ == v@);
    put_module_records(&mut mods, ms);
    let ghost new_mods = legacy_modules_view(mods@);
    let ghost rest_vs = versions@;
    match vi {
        Some(j) => {
            versions.insert(j, (vname, mods));
            assert(legacy_versions_view(versions@) =~= vs.update(j as int, (v@, new_mods)));
        },
        None => {
            versions.push((vname, mods));
            assert(legacy_versions_view(versions@) =~= vs.push((v@, new_mods)));
        },
    }
    let ghost new_vs = legacy_versions_view(versions@);
    assert(new_vs == upsert(vs, v@, new_mods));
    match pi {
        Some(i) => {
            table.insert(i, (pname, versions));
            assert(legacy_table_view(table@) =~= t.update(i as int, (p@, new_vs)));
        },
        None => {
            table.push((pname, versions));
            assert(legacy_table_view(table@) =~= t.push((p@, new_vs)));
        },
    }
}


/// No package is a local one.
pub open spec fn registry_only(es: Seq<(PackageIdModel, LockfilePackageModel)>) -> bool {
    forall|i: int| 0 <= i < es.len() ==> (#[trigger] es[i]).0 is WapmRegistryPackage
}

impl LockfileData {
    /// Whether some package is a local one, which a lockfile cannot record.
    pub fn has_local_package(&self) -> (res: bool)
        ensures
            res == !registry_only(self.packages()),
    {
        let ghost ps = self.packages();
        for i in 0..self.packages.len()
            invariant
                ps == packages_view(self.packages@),
                forall|j: int| 0 <= j < i ==> (#[trigger] ps[j]).0 is WapmRegistryPackage,
        {
            assert(ps[i as int].0 == self.packages@[i as int].0@);
            match &self.packages[i].0 {
                PackageId::LocalPackage { .. } => {
                    return true;
                },
                PackageId::WapmRegistryPackage { .. } => {},
            }
        }
        false
    }

    /// The lockfile that the packages make.
    pub fn generate_lockfile(&self) -> (res: Lockfile)
        requires
            registry_only(self.packages()),
        ensures
            (legacy_table_view(res.modules@), legacy_commands_view(res.commands@)) == spec_generate(
                self.packages(),
            ),
    {
        let ghost ps = self.packages();
        let mut modules: LegacyModuleTable = Vec::new();
        let mut commands: Vec<(String, LockfileCommand)> = Vec::new();
        assert(ps.take(0) =~= Seq::<(PackageIdModel, LockfilePackageModel)>::empty());
        assert(legacy_table_view(modules@) =~= Seq::<(Seq<char>, Seq<(Seq<char>, Seq<(Seq<char>, LockfileModuleModel)>)>)>::empty());
        assert(legacy_commands_view(commands@) =~= Seq::<(Seq<char>, LockfileCommandModel)>::empty());
        for i in 0..self.packages.len()
            invariant
                ps == packages_view(self.packages@),
                registry_only(ps),
                (legacy_table_view(modules@), legacy_commands_view(commands@)) == spec_generate(
                    ps.take(i as int),
                ),
        {
            assert(ps.take(i + 1).drop_last() =~= ps.take(i as int));
            assert(ps.take(i + 1).last() == ps[i as int]);
            assert(ps[i as int] == (self.packages@[i as int].0@, self.packages@[i as int].1@));
            assert(ps[i as int].0 is WapmRegistryPackage);
            let (id, package) = (&self.packages[i].0, &self.packages[i].1);
            match id {
                PackageId::WapmRegistryPackage { name, version } => {
                    put_package_modules(&mut modules, name, version, &package.modules);
                    put_command_records(&mut commands, &package.commands);
                },
                PackageId::LocalPackage { .. } => {},
            }
        }
        assert(ps.take(self.packages.len() as int) =~= ps);
        Lockfile { modules, commands }
    }
}


/// A dependency of a manifest as its TOML gives it: the package's name, and
/// its version where the value is a string.
#[derive(Debug, Clone, PartialEq, Eq)]
pub struct ManifestDependency {
    pub name: String,
    pub version: Option<String>,
}

/// The registry packages that dependencies name, by name and version.
pub open spec fn dependency_ids(ds: Seq<ManifestDependency>) -> Seq<PackageIdModel> {
    ds.map_values(
        |d: ManifestDependency|
            PackageIdModel::WapmRegistryPackage { name: d.name@, version: d.version->Some_0@ },
    )
}

/// The first dependency without a version string: every earlier one has one.
pub open spec fn is_first_unversioned(ds: Seq<ManifestDependency>, i: int) -> bool {
    0 <= i < ds.len() && ds[i].version is None && forall|j: int|
        0 <= j < i ==> (#[trigger] ds[j]).version is Some
}

/// The packages that a manifest depends on, where it has a dependency table.
#[derive(Debug, Clone, PartialEq, Eq)]
pub struct ManifestData {
    package_keys: Option<Vec<PackageId>>,
}

impl ManifestData {
    /// The packages, as a set; none where the manifest has no dependency table
    /// and none were added.
    pub closed spec fn keys_set(&self) -> Option<Set<PackageIdModel>> {
        match self.package_keys {
            Some(v) => Some(ids_view(v@).to_set()),
            None => None,
        }
    }

    /// The packages of a manifest's dependency table, if it has one; a
    /// dependency whose value is not a version string is refused, the first
    /// such one in the table's order.
    pub fn new_from_manifest(dependencies: Option<&Vec<ManifestDependency>>) -> (res: Result<
        ManifestData,
        BonjourError,
    >)
        ensures
            dependencies is None ==> (res matches Ok(d) && d.keys_set() is None),
            dependencies matches Some(ds) ==> ((forall|i: int|
                0 <= i < ds@.len() ==> (#[trigger] ds@[i]).version is Some) ==> (res matches Ok(d)
                && d.keys_set() == Some(dependency_ids(ds@).to_set()))),
            dependencies matches Some(ds) ==> (forall|i: int|
                is_first_unversioned(ds@, i) ==> (res matches Err(
                    BonjourError::DependencyVersionMustBeString(n),
                ) && n@ == ds@[i].name@)),
    {
        match dependencies {
            None => Ok(ManifestData { package_keys: None }),
            Some(ds) => {
                let mut keys: Vec<PackageId> = Vec::new();
                for i in 0..ds.len()
                    invariant
                        dependencies == Some(ds),
                        forall|j: int| 0 <= j < i ==> (#[trigger] ds@[j]).version is Some,
                        ids_view(keys@) == dependency_ids(ds@).take(i as int),
                {
                    match &ds[i].version {
                        Some(v) => {
                            let ghost before = ids_view(keys@);
                            let k = PackageId::new_registry_package(ds[i].name.as_str(), v.as_str());
                            keys.push(k);
                            assert(ids_view(keys@) =~= before.push(k@));
                            assert(ids_view(keys@) =~= dependency_ids(ds@).take(i + 1));
                        },
                        None => {
                            assert forall|q: int| is_first_unversioned(ds@, q) implies q == i by {
                                if q < i {
                                    assert(ds@[q].version is Some);
                                } else if q > i {
                                    assert(ds@[i as int].version is Some);
                                }
                            }
                            return Err(BonjourError::DependencyVersionMustBeString(ds[i].name.clone()));
                        },
                    }
                }
                assert(dependency_ids(ds@).take(ds.len() as int) =~= dependency_ids(ds@));
                Ok(ManifestData { package_keys: Some(keys) })
            },
        }
    }

    /// Adds packages (name and version) to the manifest's packages, making the
    /// set where there was none.
    pub fn add_additional_packages(&mut self, added_packages: &Vec<(String, String)>)
        ensures
            final(self).keys_set() == Some(
                match old(self).keys_set() {
                    Some(s) => s,
                    None => Set::<PackageIdModel>::empty(),
                }.union(added_ids(added_packages@).to_set()),
            ),
    {
        let mut keys: Vec<PackageId> = match self.package_keys.take() {
            Some(v) => v,
            None => Vec::new(),
        };
        let ghost start = ids_view(keys@);
        assert(start.to_set() == match old(self).keys_set() {
            Some(s) => s,
            None => Set::<PackageIdModel>::empty(),
        });
        for i in 0..added_packages.len()
            invariant
                ids_view(keys@) == start + added_ids(added_packages@).take(i as int),
        {
            let ghost before = ids_view(keys@);
            let k = PackageId::new_registry_package(
                added_packages[i].0.as_str(),
                added_packages[i].1.as_str(),
            );
            keys.push(k);
            assert(ids_view(keys@) =~= before.push(k@));
            assert(ids_view(keys@) =~= start + added_ids(added_packages@).take(i + 1));
        }
        assert(added_ids(added_packages@).take(added_packages.len() as int) =~= added_ids(added_packages@));
        proof {
            vstd::seq_lib::seq_to_set_distributes_over_add(start, added_ids(added_packages@));
        }
        self.package_keys = Some(keys);
    }

    /// The packages, as a list without repeats; none where there is no set.
    pub fn keys(&self) -> (res: Vec<PackageId>)
        ensures
            ids_view(res@).to_set() == match self.keys_set() {
                Some(s) => s,
                None => Set::<PackageIdModel>::empty(),
            },
            ids_view(res@).no_duplicates(),
    {
        let mut out: Vec<PackageId> = Vec::new();
        match &self.package_keys {
            Some(v) => {
                assert(ids_view(v@).take(0) =~= Seq::<PackageIdModel>::empty());
                assert(ids_view(out@) =~= Seq::<PackageIdModel>::empty());
                for i in 0..v.len()
                    invariant
                        ids_view(out@).no_duplicates(),
                        ids_view(out@).to_set() == ids_view(v@).take(i as int).to_set(),
                {
                    let ghost item = v@[i as int]@;
                    let mut seen = false;
                    for j in 0..out.len()
                        invariant
                            i < v@.len(),
                            item == v@[i as int]@,
                            seen == exists|q: int| 0 <= q < j && ids_view(out@)[q] == item,
                    {
                        assert(ids_view(out@)[j as int] == out@[j as int]@);
                        if out[j].same_as(&v[i]) {
                            seen = true;
                        }
                    }
                    let ghost before = ids_view(out@);
                    let ghost tv = ids_view(v@).take(i as int);
                    assert(ids_view(v@).take(i + 1) =~= tv.push(item));
                    proof {
                        tv.lemma_push_to_set_commute(item);
                    }
                    if !seen {
                        let d = v[i].duplicate();
                        out.push(d);
                        assert(ids_view(out@) =~= before.push(item));
                        proof {
                            before.lemma_push_to_set_commute(item);
                        }
                        assert forall|x: int, y: int|
                            0 <= x < ids_view(out@).len() && 0 <= y < ids_view(out@).len() && x != y implies ids_view(
                            out@,
                        )[x] != ids_view(out@)[y] by {
                            if x < before.len() && y < before.len() {
                                assert(before[x] != before[y]);
                            }
                        }
                    } else {
                        assert(before.to_set().contains(item)) by {
                            assert(before.contains(item));
                        }
                        assert(before.to_set().insert(item) =~= before.to_set());
                    }
                }
                assert(ids_view(v@).take(v.len() as int) =~= ids_view(v@));
            },
            None => {
                assert(ids_view(out@) =~= Seq::<PackageIdModel>::empty());
                assert(ids_view(out@).to_set() =~= Set::<PackageIdModel>::empty());
            },
        }
        out
    }
}

/// The registry packages that pairs of name and version name.
pub open spec fn added_ids(v: Seq<(String, String)>) -> Seq<PackageIdModel> {
    v.map_values(|p: (String, String)| PackageIdModel::WapmRegistryPackage { name: p.0@, version: p.1@ })
}


/// What was found of a manifest: its dependency table (if it has one), no
/// manifest, or the reason it could not be read.
#[derive(Debug, Clone, PartialEq, Eq)]
pub enum ManifestResult {
    Manifest(Option<Vec<ManifestDependency>>),
    NoManifest,
    ManifestError(BonjourError),
}

impl ManifestData {
    /// The manifest's packages; none without a manifest.
    pub fn new_from_result(result: ManifestResult) -> (res: Result<ManifestData, BonjourError>)
        ensures
            match result {
                ManifestResult::Manifest(None) => res matches Ok(d) && d.keys_set() is None,
                ManifestResult::Manifest(Some(ds)) => ((forall|i: int|
                    0 <= i < ds@.len() ==> (#[trigger] ds@[i]).version is Some) ==> (res matches Ok(d)
                    && d.keys_set() == Some(dependency_ids(ds@).to_set()))) && (forall|i: int|
                    is_first_unversioned(ds@, i) ==> (res matches Err(
                        BonjourError::DependencyVersionMustBeString(n),
                    ) && n@ == ds@[i].name@)),
                ManifestResult::NoManifest => res matches Ok(d) && d.keys_set() is None,
                ManifestResult::ManifestError(e) => res == Err::<ManifestData, BonjourError>(e),
            },
    {
        match result {
            ManifestResult::Manifest(Some(ds)) => ManifestData::new_from_manifest(Some(&ds)),
            ManifestResult::Manifest(None) => ManifestData::new_from_manifest(None),
            ManifestResult::NoManifest => Ok(ManifestData { package_keys: None }),
            ManifestResult::ManifestError(e) => Err(e),
        }
    }
}

/// What was found of a lockfile: the lockfile, none, or the reason it could
/// not be read.
#[derive(Debug, Clone, PartialEq, Eq)]
pub enum LockfileResult {
    Lockfile(Lockfile),
    NoLockfile,
    LockfileError(BonjourError),
}

impl LockfileData {
    /// The lockfile's packages; none without a lockfile.
    pub fn new_from_result(result: LockfileResult) -> (res: Result<LockfileData, BonjourError>)
        ensures
            match result {
                LockfileResult::Lockfile(l) => res matches Ok(d) && d.wf() && d.packages() == put_all(
                    seq![],
                    lockfile_entries(
                        flat_table(legacy_table_view(l.modules@)),
                        legacy_commands_view(l.commands@),
                    ),
                ),
                LockfileResult::NoLockfile => res matches Ok(d) && d.wf() && d.packages()
                    == Seq::<(PackageIdModel, LockfilePackageModel)>::empty(),
                LockfileResult::LockfileError(e) => res == Err::<LockfileData, BonjourError>(e),
            },
    {
        match result {
            LockfileResult::Lockfile(l) => Ok(LockfileData::new_from_lockfile(&l)),
            LockfileResult::NoLockfile => Ok(LockfileData::new()),
            LockfileResult::LockfileError(e) => Err(e),
        }
    }
}


impl LockfileData {
    /// The packages that have entries, in order.
    pub fn package_keys(&self) -> (res: Vec<PackageId>)
        ensures
            ids_view(res@) == self.packages().map_values(
                |e: (PackageIdModel, LockfilePackageModel)| e.0,
            ),
    {
        let ghost ps = self.packages();
        let mut out: Vec<PackageId> = Vec::new();
        for i in 0..self.packages.len()
            invariant
                ps == packages_view(self.packages@),
                ids_view(out@) == ps.map_values(|e: (PackageIdModel, LockfilePackageModel)| e.0).take(
                    i as int,
                ),
        {
            let ghost before = ids_view(out@);
            let d = self.packages[i].0.duplicate();
            out.push(d);
            assert(ids_view(out@) =~= before.push(d@));
            assert(ids_view(out@) =~= ps.map_values(|e: (PackageIdModel, LockfilePackageModel)| e.0).take(
                i + 1,
            ));
        }
        assert(ps.map_values(|e: (PackageIdModel, LockfilePackageModel)| e.0).take(
            self.packages.len() as int,
        ) =~= ps.map_values(|e: (PackageIdModel, LockfilePackageModel)| e.0));
        out
    }
}

/// The packages for dependencies that changed between a manifest and an
/// existing lockfile.
#[derive(Debug, Clone, PartialEq, Eq)]
pub struct ChangedManifestPackages {
    pub packages: Vec<PackageId>,
}

impl ChangedManifestPackages {
    /// The manifest's packages that the lockfile does not have.
    pub fn prune_unchanged_dependencies(manifest_data: &ManifestData, lockfile_data: &LockfileData) -> (res:
        ChangedManifestPackages)
        ensures
            forall|p: PackageIdModel|
                ids_view(res.packages@).contains(p) <==> (match manifest_data.keys_set() {
                    Some(s) => s.contains(p),
                    None => false,
                } && !lockfile_data.packages().map_values(
                    |e: (PackageIdModel, LockfilePackageModel)| e.0,
                ).contains(p)),
    {
        let manifest_keys = manifest_data.keys();
        let lockfile_keys = lockfile_data.package_keys();
        let packages = prune_unchanged_dependencies(&manifest_keys, &lockfile_keys);
        proof {
            assert forall|p: PackageIdModel|
                ids_view(packages@).contains(p) <==> (match manifest_data.keys_set() {
                    Some(s) => s.contains(p),
                    None => false,
                } && !ids_view(lockfile_keys@).contains(p)) by {
                law_changed_is_difference(ids_view(manifest_keys@), ids_view(lockfile_keys@), p);
                assert(ids_view(manifest_keys@).contains(p) <==> ids_view(manifest_keys@).to_set().contains(p));
            }
        }
        ChangedManifestPackages { packages }
    }
}


/// What a package of the new state holds: the lockfile's modules and
/// commands for it, or the mark of a manifest dependency still to install.
#[derive(Debug, Clone, PartialEq, Eq)]
pub enum PackageData {
    LockfilePackage(LockfilePackage),
    ManifestDependencyPackage,
    ManifestPackage,
}

pub enum PackageDataModel {
    LockfilePackage(LockfilePackageModel),
    ManifestDependencyPackage,
    ManifestPackage,
}

impl View for PackageData {
    type V = PackageDataModel;

    open spec fn view(&self) -> PackageDataModel {
        match self {
            PackageData::LockfilePackage(p) => PackageDataModel::LockfilePackage(p@),
            PackageData::ManifestDependencyPackage => PackageDataModel::ManifestDependencyPackage,
            PackageData::ManifestPackage => PackageDataModel::ManifestPackage,
        }
    }
}

pub open spec fn state_view(v: Seq<(PackageId, PackageData)>) -> Seq<(PackageIdModel, PackageDataModel)> {
    v.map_values(|e: (PackageId, PackageData)| (e.0@, e.1@))
}

/// The packages that a lockfile's data has.
pub open spec fn lockfile_keys(l: Seq<(PackageIdModel, LockfilePackageModel)>) -> Set<PackageIdModel> {
    l.map_values(|e: (PackageIdModel, LockfilePackageModel)| e.0).to_set()
}

/// Adds a package to a list unless it is there already.
fn push_new(v: &mut Vec<PackageId>, k: &PackageId)
    ensures
        ids_view(final(v)@).to_set() == ids_view(old(v)@).to_set().insert(k@),
{
    if !contains_id(v, k) {
        let ghost before = ids_view(v@);
        v.push(k.duplicate());
        assert(ids_view(v@) =~= before.push(k@));
        proof {
            before.lemma_push_to_set_commute(k@);
        }
    } else {
        assert(ids_view(v@).to_set().contains(k@));
        assert(ids_view(v@).to_set().insert(k@) =~= ids_view(v@).to_set());
    }
}


/// The packages of a manifest, where there is one: those of its dependency
/// table, none where it has no table.
pub open spec fn manifest_set(manifest: Option<ManifestData>) -> Option<Set<PackageIdModel>> {
    match manifest {
        Some(d) => Some(
            match d.keys_set() {
                Some(s) => s,
                None => Set::<PackageIdModel>::empty(),
            },
        ),
        None => None,
    }
}

/// The packages of a lockfile, where there is one, with their data.
pub open spec fn lockfile_packages(lockfile: Option<LockfileData>) -> Seq<(PackageIdModel, LockfilePackageModel)> {
    match lockfile {
        Some(l) => l.packages(),
        None => Seq::<(PackageIdModel, LockfilePackageModel)>::empty(),
    }
}

/// The new state of one package: the lockfile's data for it while the
/// manifest (if there is one) still names it; the mark of a dependency to
/// install where only the manifest names it; nothing otherwise.
pub open spec fn new_state_of(
    m: Option<Set<PackageIdModel>>,
    l: Seq<(PackageIdModel, LockfilePackageModel)>,
    k: PackageIdModel,
) -> Option<PackageDataModel> {
    match lookup(l, k) {
        Some(p) => if m is None || m.unwrap().contains(k) {
            Some(PackageDataModel::LockfilePackage(p))
        } else {
            None
        },
        None => if m is Some && m.unwrap().contains(k) {
            Some(PackageDataModel::ManifestDependencyPackage)
        } else {
            None
        },
    }
}

proof fn lemma_lookup_keys(l: Seq<(PackageIdModel, LockfilePackageModel)>, k: PackageIdModel)
    ensures
        (lookup(l, k) is Some) == lockfile_keys(l).contains(k),
{
    lemma_key_index(l, k);
    let ks = l.map_values(|e: (PackageIdModel, LockfilePackageModel)| e.0);
    if lookup(l, k) is Some {
        assert(ks[key_index(l, k)] == k);
        assert(ks.contains(k));
    }
    if ks.contains(k) {
        let j = choose|j: int| 0 <= j < ks.len() && ks[j] == k;
        assert(l[j].0 == k);
    }
}

/// Puts a package in the new state; it has no entry there yet.
fn push_state(
    state: &mut Vec<(PackageId, PackageData)>,
    k: PackageId,
    d: PackageData,
)
    requires
        keys_unique(state_view(old(state)@)),
        lookup(state_view(old(state)@), k@) is None,
    ensures
        keys_unique(state_view(final(state)@)),
        forall|q: PackageIdModel| #[trigger] lookup(state_view(final(state)@), q) == if q == k@ {
            Some(d@)
        } else {
            lookup(state_view(old(state)@), q)
        },
{
    let ghost before = state_view(state@);
    let ghost kv = k@;
    let ghost dv = d@;
    proof {
        lemma_key_index(before, kv);
    }
    state.push((k, d));
    assert(state_view(state@) =~= upsert(before, kv, dv));
    assert forall|q: PackageIdModel| #[trigger] lookup(state_view(state@), q) == if q == kv {
        Some(dv)
    } else {
        lookup(before, q)
    } by {
        lemma_upsert_lookup(before, kv, dv, q);
    }
    proof {
        lemma_upsert_lookup(before, kv, dv, kv);
    }
}

/// How the packages of the manifest and of the lockfile differ: those the
/// manifest adds, those it removes, those of either, and the new state of
/// the packages. Without a lockfile, the manifest's packages are all added;
/// without a manifest, the lockfile's are kept as they are.
pub fn calculate_differences(manifest: Option<ManifestData>, lockfile: Option<LockfileData>) -> (res: (
    Vec<PackageId>,
    Vec<PackageId>,
    Vec<PackageId>,
    Vec<(PackageId, PackageData)>,
))
    requires
        lockfile matches Some(l) ==> l.wf(),
    ensures
        ({
            let m = match manifest_set(manifest) {
                Some(s) => s,
                None => Set::<PackageIdModel>::empty(),
            };
            let lk = lockfile_keys(lockfile_packages(lockfile));
            &&& ids_view(res.0@).to_set() == m.difference(lk)
            &&& ids_view(res.1@).to_set() == (if manifest is Some {
                lk.difference(m)
            } else {
                Set::<PackageIdModel>::empty()
            })
            &&& ids_view(res.2@).to_set() == (if lockfile is Some {
                m.union(lk)
            } else {
                Set::<PackageIdModel>::empty()
            })
        }),
        keys_unique(state_view(res.3@)),
        forall|k: PackageIdModel| #[trigger] lookup(state_view(res.3@), k) == new_state_of(
            manifest_set(manifest),
            lockfile_packages(lockfile),
            k,
        ),
{
    let mut added: Vec<PackageId> = Vec::new();
    let mut removed: Vec<PackageId> = Vec::new();
    let mut unchanged: Vec<PackageId> = Vec::new();
    assert(ids_view(added@).to_set() =~= Set::<PackageIdModel>::empty());
    assert(ids_view(removed@).to_set() =~= Set::<PackageIdModel>::empty());
    assert(ids_view(unchanged@).to_set() =~= Set::<PackageIdModel>::empty());
    let ghost ms = manifest_set(manifest);
    let ghost lp = lockfile_packages(lockfile);
    let lkeys: Vec<PackageId> = match &lockfile {
        Some(l) => l.package_keys(),
        None => Vec::new(),
    };
    let ghost lk = ids_view(lkeys@);
    assert(lk == lp.map_values(|e: (PackageIdModel, LockfilePackageModel)| e.0)) by {
        if lockfile is None {
            assert(lk =~= lp.map_values(|e: (PackageIdModel, LockfilePackageModel)| e.0));
        }
    }
    let has_manifest = manifest.is_some();
    let mkeys: Vec<PackageId> = match &manifest {
        Some(d) => d.keys(),
        None => Vec::new(),
    };
    let ghost mk = ids_view(mkeys@);
    assert(mk.no_duplicates());
    assert(mk.to_set() == match ms {
        Some(s) => s,
        None => Set::<PackageIdModel>::empty(),
    }) by {
        if manifest is None {
            assert(mk.to_set() =~= Set::<PackageIdModel>::empty());
        }
    }
    // added: the manifest's packages that the lockfile lacks
    for i in 0..mkeys.len()
        invariant
            mk == ids_view(mkeys@),
            lk == ids_view(lkeys@),
            ids_view(added@).to_set() == mk.take(i as int).to_set().difference(lk.to_set()),
    {
        let ghost item = mk[i as int];
        assert(mk.take(i + 1) =~= mk.take(i as int).push(item));
        proof {
            mk.take(i as int).lemma_push_to_set_commute(item);
        }
        assert(ids_view(mkeys@)[i as int] == mkeys@[i as int]@);
        if !contains_id(&lkeys, &mkeys[i]) {
            push_new(&mut added, &mkeys[i]);
        }
        assert(ids_view(added@).to_set() =~= mk.take(i + 1).to_set().difference(lk.to_set()));
    }
    assert(mk.take(mkeys.len() as int) =~= mk);
    // removed: the lockfile's packages that the manifest lacks, where there is a manifest
    if has_manifest {
        for i in 0..lkeys.len()
            invariant
                mk == ids_view(mkeys@),
                lk == ids_view(lkeys@),
                ids_view(removed@).to_set() == lk.take(i as int).to_set().difference(mk.to_set()),
        {
            let ghost item = lk[i as int];
            assert(lk.take(i + 1) =~= lk.take(i as int).push(item));
            proof {
                lk.take(i as int).lemma_push_to_set_commute(item);
            }
            assert(ids_view(lkeys@)[i as int] == lkeys@[i as int]@);
            if !contains_id(&mkeys, &lkeys[i]) {
                push_new(&mut removed, &lkeys[i]);
            }
            assert(ids_view(removed@).to_set() =~= lk.take(i + 1).to_set().difference(mk.to_set()));
        }
        assert(lk.take(lkeys.len() as int) =~= lk);
    }
    // unchanged: the packages of either, where there is a lockfile
    if lockfile.is_some() {
        for i in 0..mkeys.len()
            invariant
                mk == ids_view(mkeys@),
                ids_view(unchanged@).to_set() == mk.take(i as int).to_set(),
        {
            let ghost item = mk[i as int];
            assert(mk.take(i + 1) =~= mk.take(i as int).push(item));
            proof {
                mk.take(i as int).lemma_push_to_set_commute(item);
            }
            assert(ids_view(mkeys@)[i as int] == mkeys@[i as int]@);
            push_new(&mut unchanged, &mkeys[i]);
        }
        assert(mk.take(mkeys.len() as int) =~= mk);
        for i in 0..lkeys.len()
            invariant
                mk == ids_view(mkeys@),
                lk == ids_view(lkeys@),
                ids_view(unchanged@).to_set() == mk.to_set().union(lk.take(i as int).to_set()),
        {
            let ghost item = lk[i as int];
            assert(lk.take(i + 1) =~= lk.take(i as int).push(item));
            proof {
                lk.take(i as int).lemma_push_to_set_commute(item);
            }
            assert(ids_view(lkeys@)[i as int] == lkeys@[i as int]@);
            push_new(&mut unchanged, &lkeys[i]);
            assert(ids_view(unchanged@).to_set() =~= mk.to_set().union(lk.take(i + 1).to_set()));
        }
        assert(lk.take(lkeys.len() as int) =~= lk);
    }
    // the new state: first the lockfile's packages that stay
    let mut state: Vec<(PackageId, PackageData)> = Vec::new();
    assert(state_view(state@) =~= Seq::<(PackageIdModel, PackageDataModel)>::empty());
    let mut older: Vec<(PackageId, LockfilePackage)> = match lockfile {
        Some(l) => l.into_packages(),
        None => Vec::new(),
    };
    assert(packages_view(older@) == lp) by {
        if lockfile is None {
            assert(packages_view(older@) =~= lp);
        }
    }
    let ghost total = older@.len();
    while older.len() > 0
        invariant
            keys_unique(lp),
            total == lp.len(),
            older@.len() <= total,
            packages_view(older@) == lp.take(older@.len() as int),
            mk == ids_view(mkeys@),
            has_manifest == (ms is Some),
            mk.to_set() == match ms {
                Some(s) => s,
                None => Set::<PackageIdModel>::empty(),
            },
            keys_unique(state_view(state@)),
            forall|k: PackageIdModel| #[trigger] lookup(state_view(state@), k) is Some ==> key_index(lp, k)
                >= older@.len() && (ms is None || ms.unwrap().contains(k)),
            forall|j: int|
                older@.len() <= j < lp.len() && (ms is None || ms.unwrap().contains(lp[j].0)) ==> lookup(
                    state_view(state@),
                    #[trigger] lp[j].0,
                ) == Some(PackageDataModel::LockfilePackage(lp[j].1)),
        decreases older@.len(),
    {
        let ghost n = older@.len();
        let (k, p) = older.pop().unwrap();
        assert(lp.take(n as int).last() == (k@, p@));
        assert(packages_view(older@) =~= lp.take(n - 1));
        assert(lp[n - 1] == (k@, p@));
        proof {
            lemma_unique_index(lp, n - 1);
        }
        let keep = !has_manifest || contains_id(&mkeys, &k);
        assert(keep == (ms is None || ms.unwrap().contains(k@))) by {
            if has_manifest {
                assert(mk.contains(k@) == mk.to_set().contains(k@));
            }
        }
        if keep {
            let ghost before = state_view(state@);
            let ghost kv = k@;
            let ghost pv = p@;
            push_state(&mut state, k, PackageData::LockfilePackage(p));
            assert forall|q: PackageIdModel| #[trigger] lookup(state_view(state@), q) is Some implies key_index(lp, q)
                >= n - 1 && (ms is None || ms.unwrap().contains(q)) by {
                if q != kv {
                    assert(lookup(before, q) is Some);
                }
            }
            assert forall|j: int|
                n - 1 <= j < lp.len() && (ms is None || ms.unwrap().contains(lp[j].0)) implies lookup(
                state_view(state@),
                #[trigger] lp[j].0,
            ) == Some(PackageDataModel::LockfilePackage(lp[j].1)) by {
                if j != n - 1 {
                    assert(lp[j].0 != lp[n - 1].0);
                }
            }
        }
    }
    assert(mk.take(0) =~= Seq::<PackageIdModel>::empty());
    assert forall|k: PackageIdModel| #[trigger] lookup(state_view(state@), k) == match lookup(lp, k) {
        Some(p) => if ms is None || ms.unwrap().contains(k) {
            Some(PackageDataModel::LockfilePackage(p))
        } else {
            None
        },
        None => if mk.take(0).contains(k) {
            Some(PackageDataModel::ManifestDependencyPackage)
        } else {
            None
        },
    } by {
        lemma_key_index(lp, k);
        if lookup(lp, k) is Some {
            let j = key_index(lp, k);
            assert(lp[j].0 == k);
        }
    }
    // then the manifest's packages that the lockfile lacks
    for i in 0..mkeys.len()
        invariant
            keys_unique(lp),
            mk == ids_view(mkeys@),
            lk == ids_view(lkeys@),
            lk == lp.map_values(|e: (PackageIdModel, LockfilePackageModel)| e.0),
            mk.no_duplicates(),
            has_manifest == (ms is Some),
            mk.to_set() == match ms {
                Some(s) => s,
                None => Set::<PackageIdModel>::empty(),
            },
            keys_unique(state_view(state@)),
            forall|k: PackageIdModel| #[trigger] lookup(state_view(state@), k) == match lookup(lp, k) {
                Some(p) => if ms is None || ms.unwrap().contains(k) {
                    Some(PackageDataModel::LockfilePackage(p))
                } else {
                    None
                },
                None => if mk.take(i as int).contains(k) {
                    Some(PackageDataModel::ManifestDependencyPackage)
                } else {
                    None
                },
            },
    {
        let ghost item = mk[i as int];
        assert(ids_view(mkeys@)[i as int] == mkeys@[i as int]@);
        proof {
            lemma_lookup_keys(lp, item);
        }
        assert(mk.take(i + 1) =~= mk.take(i as int).push(item));
        if !contains_id(&lkeys, &mkeys[i]) {
            assert(!mk.take(i as int).contains(item)) by {
                if mk.take(i as int).contains(item) {
                    let q = choose|q: int| 0 <= q < i && mk.take(i as int)[q] == item;
                    assert(mk[q] == mk[i as int]);
                }
            }
            let ghost before = state_view(state@);
            let d = mkeys[i].duplicate();
            push_state(&mut state, d, PackageData::ManifestDependencyPackage);
            assert forall|k: PackageIdModel| #[trigger] lookup(state_view(state@), k) == match lookup(lp, k) {
                Some(p) => if ms is None || ms.unwrap().contains(k) {
                    Some(PackageDataModel::LockfilePackage(p))
                } else {
                    None
                },
                None => if mk.take(i + 1).contains(k) {
                    Some(PackageDataModel::ManifestDependencyPackage)
                } else {
                    None
                },
            } by {
                lemma_lookup_keys(lp, k);
                vstd::seq_lib::lemma_seq_contains_after_push(mk.take(i as int), item, k);
            }
        } else {
            assert forall|k: PackageIdModel| #[trigger] lookup(state_view(state@), k) == match lookup(lp, k) {
                Some(p) => if ms is None || ms.unwrap().contains(k) {
                    Some(PackageDataModel::LockfilePackage(p))
                } else {
                    None
                },
                None => if mk.take(i + 1).contains(k) {
                    Some(PackageDataModel::ManifestDependencyPackage)
                } else {
                    None
                },
            } by {
                vstd::seq_lib::lemma_seq_contains_after_push(mk.take(i as int), item, k);
            }
        }
    }
    assert(mk.take(mkeys.len() as int) =~= mk);
    assert forall|k: PackageIdModel| #[trigger] lookup(state_view(state@), k) == new_state_of(ms, lp, k) by {
        assert(mk.contains(k) == mk.to_set().contains(k));
    }
    (added, removed, unchanged, state)
}


/// A manifest that an update can read: none, one without a dependency
/// table, or one whose dependencies all give a version string.
pub open spec fn manifest_readable(result: ManifestResult) -> bool {
    match result {
        ManifestResult::Manifest(Some(ds)) => forall|i: int| 0 <= i < ds@.len() ==> (#[trigger] ds@[i]).version is Some,
        ManifestResult::Manifest(None) => true,
        ManifestResult::NoManifest => true,
        ManifestResult::ManifestError(_) => false,
    }
}

/// The packages that a manifest's dependency table names; none without one.
pub open spec fn manifest_result_keys(result: ManifestResult) -> Set<PackageIdModel> {
    match result {
        ManifestResult::Manifest(Some(ds)) => dependency_ids(ds@).to_set(),
        _ => Set::<PackageIdModel>::empty(),
    }
}

/// The packages of a lockfile that was read; none without one.
pub open spec fn lockfile_result_packages(result: LockfileResult) -> Seq<(PackageIdModel, LockfilePackageModel)> {
    match result {
        LockfileResult::Lockfile(l) => put_all(
            seq![],
            lockfile_entries(flat_table(legacy_table_view(l.modules@)), legacy_commands_view(l.commands@)),
        ),
        _ => Seq::<(PackageIdModel, LockfilePackageModel)>::empty(),
    }
}

/// What an update works out before anything is fetched: the lockfile's data
/// and the packages that changed, those of the manifest (with the packages
/// being added) that the lockfile lacks. A manifest that cannot be read
/// stops it first, then a lockfile that cannot.
pub fn update_plan(
    manifest_result: ManifestResult,
    added_packages: &Vec<(String, String)>,
    lockfile_result: LockfileResult,
) -> (res: Result<(LockfileData, ChangedManifestPackages), BonjourError>)
    ensures
        manifest_result matches ManifestResult::ManifestError(e) ==> res == Err::<
            (LockfileData, ChangedManifestPackages),
            BonjourError,
        >(e),
        manifest_result matches ManifestResult::Manifest(Some(ds)) ==> forall|i: int|
            is_first_unversioned(ds@, i) ==> (res matches Err(BonjourError::DependencyVersionMustBeString(n))
                && n@ == ds@[i].name@),
        manifest_readable(manifest_result) ==> match lockfile_result {
            LockfileResult::LockfileError(e) => res == Err::<(LockfileData, ChangedManifestPackages), BonjourError>(
                e,
            ),
            _ => res matches Ok((l, changed)) && l.wf() && l.packages() == lockfile_result_packages(
                lockfile_result,
            ) && forall|p: PackageIdModel|
                ids_view(changed.packages@).contains(p) <==> (manifest_result_keys(manifest_result).union(
                    added_ids(added_packages@).to_set(),
                ).contains(p) && !lockfile_keys(l.packages()).contains(p)),
        },
{
    let ghost mr = manifest_result;
    let ghost lr = lockfile_result;
    let mut manifest_data = ManifestData::new_from_result(manifest_result)?;
    proof {
        if mr is ManifestError {
            assert(false);
        }
        if let ManifestResult::Manifest(Some(ds)) = mr {
            if !manifest_readable(mr) {
                let i = choose|i: int| 0 <= i < ds@.len() && !(ds@[i].version is Some);
                lemma_first_unversioned(ds@, i);
                assert(false);
            }
        }
    }
    let ghost base = match manifest_data.keys_set() {
        Some(s) => s,
        None => Set::<PackageIdModel>::empty(),
    };
    assert(base == manifest_result_keys(mr));
    manifest_data.add_additional_packages(added_packages);
    let lockfile_data = LockfileData::new_from_result(lockfile_result)?;
    let changed = ChangedManifestPackages::prune_unchanged_dependencies(&manifest_data, &lockfile_data);
    assert forall|p: PackageIdModel|
        ids_view(changed.packages@).contains(p) <==> (manifest_result_keys(mr).union(
            added_ids(added_packages@).to_set(),
        ).contains(p) && !lockfile_keys(lockfile_data.packages()).contains(p)) by {
        lemma_lookup_keys(lockfile_data.packages(), p);
        lemma_key_index(lockfile_data.packages(), p);
        let ks = lockfile_data.packages().map_values(|e: (PackageIdModel, LockfilePackageModel)| e.0);
        assert(ks.contains(p) == ks.to_set().contains(p));
    }
    Ok((lockfile_data, changed))
}

/// Some dependency lacks a version: then one is the first to lack it.
proof fn lemma_first_unversioned(ds: Seq<ManifestDependency>, i: int)
    requires
        0 <= i < ds.len(),
        ds[i].version is None,
    ensures
        exists|j: int| is_first_unversioned(ds, j),
    decreases i,
{
    if exists|j: int| 0 <= j < i && (#[trigger] ds[j]).version is None {
        let j = choose|j: int| 0 <= j < i && (#[trigger] ds[j]).version is None;
        lemma_first_unversioned(ds, j);
    } else {
        assert(is_first_unversioned(ds, i));
    }
}

/// The lockfile data after an update: the installed packages' data over the
/// lockfile's earlier data, which keeps no package that was not installed.
pub fn update_lockfile(installed: &Vec<InstalledPackage>, lockfile_data: LockfileData) -> (res: LockfileData)
    requires
        forall|i: int| 0 <= i < installed@.len() ==> installed_recordable(#[trigger] installed@[i]@),
        lockfile_data.wf(),
    ensures
        res.wf(),
        forall|k: PackageIdModel| #[trigger] lookup(res.packages(), k) == lookup(
            put_all(seq![], installed_entries(installed@.map_values(|p: InstalledPackage| p@))),
            k,
        ),
{
    let manifest_lockfile_data = LockfileData::from_installed_packages(installed);
    manifest_lockfile_data.merge(lockfile_data)
}

} // verus!
