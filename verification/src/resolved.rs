//! Matching what the registry answers about packages to the packages that
//! were asked for, each with the address its archive is downloaded from.

use vstd::prelude::*;
use crate::bonjour::{ids_view, ChangedManifestPackages, PackageId, PackageIdModel};
use crate::text::{chars_of, contains, spec_contains, str_eq, substring};

verus! {

/// A registry package asked for: its name and version.
#[derive(Debug, Clone, PartialEq, Eq)]
pub struct WapmPackageKey {
    pub name: String,
    pub version: String,
}

impl View for WapmPackageKey {
    type V = (Seq<char>, Seq<char>);

    open spec fn view(&self) -> (Seq<char>, Seq<char>) {
        (self.name@, self.version@)
    }
}

/// A version of a package in the registry's answer, with the address of
/// its archive.
#[derive(Debug, Clone, PartialEq, Eq)]
pub struct RegistryVersion {
    pub version: String,
    pub download_url: String,
}

/// A package in the registry's answer, with its versions where it lists
/// them.
#[derive(Debug, Clone, PartialEq, Eq)]
pub struct RegistryPackage {
    pub name: String,
    pub versions: Option<Vec<Option<RegistryVersion>>>,
}

/// A version listed in the answer: the package's name, the version, and the
/// address of its archive.
pub type Listed = (Seq<char>, Seq<char>, Seq<char>);

pub open spec fn versions_listed(name: Seq<char>, vs: Seq<Option<RegistryVersion>>) -> Seq<Listed>
    decreases vs.len(),
{
    if vs.len() == 0 {
        seq![]
    } else {
        let r = versions_listed(name, vs.drop_last());
        match vs.last() {
            Some(v) => r.push((name, v.version@, v.download_url@)),
            None => r,
        }
    }
}

/// The versions that an answer lists, package by package, in order; absent
/// packages and versions drop out.
pub open spec fn answer_listed(ps: Seq<Option<RegistryPackage>>) -> Seq<Listed>
    decreases ps.len(),
{
    if ps.len() == 0 {
        seq![]
    } else {
        let r = answer_listed(ps.drop_last());
        match ps.last() {
            Some(p) => match p.versions {
                Some(vs) => r + versions_listed(p.name@, vs@),
                None => r,
            },
            None => r,
        }
    }
}

/// A name with its first two bytes taken off, as `&n[2..]` gives it: the
/// rest after two one-byte characters or one two-byte character; none
/// where the second byte does not end a character.
pub open spec fn after_two_bytes(n: Seq<char>) -> Option<Seq<char>> {
    if n.len() >= 2 && (n[0] as u32) < 0x80 && (n[1] as u32) < 0x80 {
        Some(n.skip(2))
    } else if n.len() >= 1 && 0x80 <= (n[0] as u32) < 0x800 {
        Some(n.skip(1))
    } else {
        None
    }
}

/// Whether a listed version is the package asked for: the same name (the
/// listed name without its namespace prefix where the key has no `/`) and
/// the same version.
pub open spec fn key_matches(k: (Seq<char>, Seq<char>), n: Seq<char>, v: Seq<char>) -> bool {
    if spec_contains(k.0, seq!['/']) {
        k.0 == n && k.1 == v
    } else {
        after_two_bytes(n) == Some(k.0) && k.1 == v
    }
}

/// The first key asked for that a listed version is.
pub open spec fn first_match(keys: Seq<(Seq<char>, Seq<char>)>, n: Seq<char>, v: Seq<char>) -> Option<
    (Seq<char>, Seq<char>),
>
    decreases keys.len(),
{
    if keys.len() == 0 {
        None
    } else if key_matches(keys[0], n, v) {
        Some(keys[0])
    } else {
        first_match(keys.drop_first(), n, v)
    }
}

/// Each listed version that is a package asked for, as that key with the
/// address of its archive, in the order of the answer.
pub open spec fn spec_sync(keys: Seq<(Seq<char>, Seq<char>)>, listed: Seq<Listed>) -> Seq<
    ((Seq<char>, Seq<char>), Seq<char>),
>
    decreases listed.len(),
{
    if listed.len() == 0 {
        seq![]
    } else {
        let r = spec_sync(keys, listed.drop_last());
        let t = listed.last();
        match first_match(keys, t.0, t.1) {
            Some(k) => r.push((k, t.2)),
            None => r,
        }
    }
}

pub open spec fn keys_view(v: Seq<WapmPackageKey>) -> Seq<(Seq<char>, Seq<char>)> {
    v.map_values(|k: WapmPackageKey| k@)
}

pub open spec fn resolved_view(v: Seq<(WapmPackageKey, String)>) -> Seq<((Seq<char>, Seq<char>), Seq<char>)> {
    v.map_values(|e: (WapmPackageKey, String)| (e.0@, e.1@))
}

/// Every name that the answer lists can lose its first two bytes.
pub open spec fn names_sliceable(ps: Seq<Option<RegistryPackage>>) -> bool {
    forall|i: int| 0 <= i < answer_listed(ps).len() ==> (#[trigger] after_two_bytes(answer_listed(ps)[i].0)) is Some
}

pub open spec fn triples_view(v: Seq<(String, String, String)>) -> Seq<Listed> {
    v.map_values(|t: (String, String, String)| (t.0@, t.1@, t.2@))
}

fn listed_of(ps: &Vec<Option<RegistryPackage>>) -> (res: Vec<(String, String, String)>)
    ensures
        triples_view(res@) == answer_listed(ps@),
{
    let mut out: Vec<(String, String, String)> = Vec::new();
    assert(triples_view(out@) =~= answer_listed(ps@.take(0)));
    for i in 0..ps.len()
        invariant
            triples_view(out@) == answer_listed(ps@.take(i as int)),
    {
        assert(ps@.take(i + 1).drop_last() =~= ps@.take(i as int));
        assert(ps@.take(i + 1).last() == ps@[i as int]);
        if let Some(p) = &ps[i] {
            if let Some(vs) = &p.versions {
                let ghost before = triples_view(out@);
                assert(before + versions_listed(p.name@, vs@.take(0)) =~= before);
                for j in 0..vs.len()
                    invariant
                        triples_view(out@) == before + versions_listed(p.name@, vs@.take(j as int)),
                {
                    assert(vs@.take(j + 1).drop_last() =~= vs@.take(j as int));
                    assert(vs@.take(j + 1).last() == vs@[j as int]);
                    let ghost prev = versions_listed(p.name@, vs@.take(j as int));
                    if let Some(v) = &vs[j] {
                        let ghost mid = triples_view(out@);
                        let ghost x = (p.name@, v.version@, v.download_url@);
                        out.push((p.name.clone(), v.version.clone(), v.download_url.clone()));
                        assert(triples_view(out@) =~= mid.push(x));
                        assert(mid.push(x) =~= before + prev.push(x));
                    }
                }
                assert(vs@.take(vs.len() as int) =~= vs@);
            }
        }
    }
    assert(ps@.take(ps.len() as int) =~= ps@);
    out
}

fn after_two_bytes_exec(n: &str) -> (res: Option<String>)
    ensures
        match after_two_bytes(n@) {
            Some(r) => res matches Some(s) && s@ == r,
            None => res is None,
        },
{
    let cs = chars_of(n);
    let len = cs.len();
    if len >= 2 && (cs[0] as u32) < 0x80 && (cs[1] as u32) < 0x80 {
        Some(substring(n, 2, len))
    } else if len >= 1 && 0x80 <= (cs[0] as u32) && (cs[0] as u32) < 0x800 {
        Some(substring(n, 1, len))
    } else {
        None
    }
}

fn find_key(keys: &Vec<WapmPackageKey>, n: &str, v: &str) -> (res: Option<usize>)
    requires
        after_two_bytes(n@) is Some,
    ensures
        match first_match(keys_view(keys@), n@, v@) {
            Some(k) => res matches Some(i) && i < keys@.len() && keys@[i as int]@ == k,
            None => res is None,
        },
{
    let stripped = after_two_bytes_exec(n);
    let ghost kv = keys_view(keys@);
    proof {
        reveal_strlit("/");
    }
    assert(kv.skip(0) =~= kv);
    for i in 0..keys.len()
        invariant
            kv == keys_view(keys@),
            first_match(kv, n@, v@) == first_match(kv.skip(i as int), n@, v@),
            match after_two_bytes(n@) {
                Some(r) => stripped matches Some(s) && s@ == r,
                None => stripped is None,
            },
            after_two_bytes(n@) is Some,
    {
        proof {
            reveal_strlit("/");
        }
        assert("/"@ =~= seq!['/']);
        assert(kv.skip(i as int)[0] == keys@[i as int]@);
        assert(kv.skip(i as int).drop_first() =~= kv.skip(i + 1));
        let k = &keys[i];
        let is_match = if contains(k.name.as_str(), "/") {
            str_eq(k.name.as_str(), n) && str_eq(k.version.as_str(), v)
        } else {
            match &stripped {
                Some(s) => str_eq(k.name.as_str(), s.as_str()) && str_eq(k.version.as_str(), v),
                None => false,
            }
        };
        if is_match {
            return Some(i);
        }
    }
    None
}

/// The packages asked for that the registry's answer lists, each with the
/// address of its archive, in the order of the answer; where a listed
/// version is several keys, the first of them.
pub fn sync_packages(added_pkgs: &Vec<WapmPackageKey>, answer: &Vec<Option<RegistryPackage>>) -> (res: Vec<
    (WapmPackageKey, String),
>)
    requires
        names_sliceable(answer@),
    ensures
        resolved_view(res@) == spec_sync(keys_view(added_pkgs@), answer_listed(answer@)),
{
    let listed = listed_of(answer);
    let ghost lv = answer_listed(answer@);
    let ghost kv = keys_view(added_pkgs@);
    let mut out: Vec<(WapmPackageKey, String)> = Vec::new();
    for i in 0..listed.len()
        invariant
            triples_view(listed@) == lv,
            lv == answer_listed(answer@),
            kv == keys_view(added_pkgs@),
            names_sliceable(answer@),
            resolved_view(out@) == spec_sync(kv, lv.take(i as int)),
    {
        assert(lv[i as int] == (listed@[i as int].0@, listed@[i as int].1@, listed@[i as int].2@));
        assert(after_two_bytes(lv[i as int].0) is Some);
        assert(lv.take(i + 1).drop_last() =~= lv.take(i as int));
        assert(lv.take(i + 1).last() == lv[i as int]);
        let t = &listed[i];
        match find_key(added_pkgs, t.0.as_str(), t.1.as_str()) {
            Some(j) => {
                let k = WapmPackageKey {
                    name: added_pkgs[j].name.clone(),
                    version: added_pkgs[j].version.clone(),
                };
                let ghost before = resolved_view(out@);
                out.push((k, t.2.clone()));
                assert(resolved_view(out@) =~= before.push((kv[j as int], lv[i as int].2)));
            },
            None => {},
        }
    }
    assert(lv.take(listed.len() as int) =~= lv);
    out
}

/// The registry packages among those that changed.
pub open spec fn registry_keys(ids: Seq<PackageIdModel>) -> Seq<(Seq<char>, Seq<char>)>
    decreases ids.len(),
{
    if ids.len() == 0 {
        seq![]
    } else {
        let r = registry_keys(ids.drop_last());
        match ids.last() {
            PackageIdModel::WapmRegistryPackage { name, version } => r.push((name, version)),
            PackageIdModel::LocalPackage { .. } => r,
        }
    }
}

/// The changed packages that the registry resolved, each with the address
/// of its archive.
#[derive(Debug, Clone, PartialEq, Eq)]
pub struct ResolvedManifestPackages {
    pub packages: Vec<(WapmPackageKey, String)>,
}

impl ResolvedManifestPackages {
    /// Resolves the changed registry packages against the registry's answer
    /// about them; local packages are left out.
    pub fn new(manifest_data: &ChangedManifestPackages, answer: &Vec<Option<RegistryPackage>>) -> (res:
        ResolvedManifestPackages)
        requires
            names_sliceable(answer@),
        ensures
            resolved_view(res.packages@) == spec_sync(
                registry_keys(ids_view(manifest_data.packages@)),
                answer_listed(answer@),
            ),
    {
        let keys = wapm_keys(&manifest_data.packages);
        ResolvedManifestPackages { packages: sync_packages(&keys, answer) }
    }
}

/// The registry packages of a list, as keys, in order.
pub fn wapm_keys(ids: &Vec<PackageId>) -> (res: Vec<WapmPackageKey>)
    ensures
        keys_view(res@) == registry_keys(ids_view(ids@)),
{
    let mut out: Vec<WapmPackageKey> = Vec::new();
    for i in 0..ids.len()
        invariant
            keys_view(out@) == registry_keys(ids_view(ids@).take(i as int)),
    {
        assert(ids_view(ids@).take(i + 1).drop_last() =~= ids_view(ids@).take(i as int));
        assert(ids_view(ids@).take(i + 1).last() == ids@[i as int]@);
        match &ids[i] {
            PackageId::WapmRegistryPackage { name, version } => {
                let ghost before = keys_view(out@);
                out.push(WapmPackageKey { name: name.clone(), version: version.clone() });
                assert(keys_view(out@) =~= before.push((name@, version@)));
            },
            PackageId::LocalPackage { .. } => {},
        }
    }
    assert(ids_view(ids@).take(ids.len() as int) =~= ids_view(ids@));
    out
}


proof fn lemma_first_match(keys: Seq<(Seq<char>, Seq<char>)>, n: Seq<char>, v: Seq<char>)
    ensures
        first_match(keys, n, v) matches Some(k) ==> keys.contains(k) && key_matches(k, n, v),
    decreases keys.len(),
{
    if keys.len() > 0 && !key_matches(keys[0], n, v) {
        lemma_first_match(keys.drop_first(), n, v);
        if let Some(k) = first_match(keys.drop_first(), n, v) {
            let j = choose|j: int| 0 <= j < keys.drop_first().len() && keys.drop_first()[j] == k;
            assert(keys[j + 1] == k);
        }
    } else if keys.len() > 0 {
        assert(keys[0] == keys[0]);
    }
}

/// Every package resolved from the registry's answer is one of the keys
/// asked for, and its address is that of a listed version of exactly that
/// version and package: the same name, or, for a key without a namespace,
/// the listed name without its first two bytes.
pub proof fn law_resolved_are_asked_and_listed(keys: Seq<(Seq<char>, Seq<char>)>, listed: Seq<Listed>)
    ensures
        forall|i: int|
            0 <= i < spec_sync(keys, listed).len() ==> keys.contains(#[trigger] spec_sync(keys, listed)[i].0)
                && exists|j: int|
                0 <= j < listed.len() && listed[j].2 == spec_sync(keys, listed)[i].1 && listed[j].1
                    == spec_sync(keys, listed)[i].0.1 && (if spec_contains(spec_sync(keys, listed)[i].0.0, seq!['/']) {
                    listed[j].0 == spec_sync(keys, listed)[i].0.0
                } else {
                    after_two_bytes(listed[j].0) == Some(spec_sync(keys, listed)[i].0.0)
                }),
    decreases listed.len(),
{
    if listed.len() > 0 {
        let p = listed.drop_last();
        law_resolved_are_asked_and_listed(keys, p);
        let t = listed.last();
        lemma_first_match(keys, t.0, t.1);
        let r = spec_sync(keys, listed);
        let rp = spec_sync(keys, p);
        assert forall|i: int| 0 <= i < r.len() implies keys.contains(#[trigger] r[i].0) && exists|j: int|
            0 <= j < listed.len() && listed[j].2 == r[i].1 && listed[j].1 == r[i].0.1 && (if spec_contains(
                r[i].0.0,
                seq!['/'],
            ) {
                listed[j].0 == r[i].0.0
            } else {
                after_two_bytes(listed[j].0) == Some(r[i].0.0)
            }) by {
            if i < rp.len() {
                assert(r[i] == rp[i]);
                let j = choose|j: int|
                    0 <= j < p.len() && p[j].2 == rp[i].1 && p[j].1 == rp[i].0.1 && (if spec_contains(
                        rp[i].0.0,
                        seq!['/'],
                    ) {
                        p[j].0 == rp[i].0.0
                    } else {
                        after_two_bytes(p[j].0) == Some(rp[i].0.0)
                    });
                assert(listed[j] == p[j]);
            } else {
                assert(listed[listed.len() - 1] == t);
            }
        }
    }
}

} // verus!
