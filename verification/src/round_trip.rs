//! Reading back the lockfile that package data makes gives the same data.

use vstd::prelude::*;
use crate::assoc::{key_index, keys_unique, lemma_key_index, lemma_unique_index, lemma_upsert_lookup, lookup, upsert};
use crate::assoc::lemma_upsert_preserves;
use crate::bonjour::{
    commands_of, first_occurrence, flat_table, flat_versions, lockfile_entries, modules_at, put_all, put_commands,
    put_modules, registry_only, spec_generate, versions_at, FlatEntry, LockfilePackageModel, PackageIdModel,
};
use crate::legacy_lockfile::{LegacyTableModel, LockfileCommandModel, LockfileModuleModel};

verus! {

/// A lookup in a list with one more entry at the end.
pub proof fn lemma_lookup_push<K, V>(s: Seq<(K, V)>, x: (K, V), k: K)
    ensures
        lookup(s.push(x), k) == if lookup(s, k) is Some {
            lookup(s, k)
        } else if x.0 == k {
            Some(x.1)
        } else {
            None::<V>
        },
{
    let t = s.push(x);
    lemma_key_index(s, k);
    lemma_key_index(t, k);
    assert forall|j: int| 0 <= j < s.len() implies t[j] == s[j] by {}
    let i = key_index(s, k);
    let it = key_index(t, k);
    if i >= 0 {
        assert(t[i].0 == k);
        if it < i {
            assert(s[it].0 == k);
        }
    } else if x.0 == k {
        assert(t[s.len() as int].0 == k);
    } else {
        assert forall|j: int| 0 <= j < t.len() implies t[j].0 != k by {
            if j < s.len() {
                assert(t[j] == s[j]);
            }
        }
    }
}

/// In a list without repeated keys, a key has a value exactly where an
/// entry pairs them.
pub proof fn lemma_lookup_entry<K, V>(m: Seq<(K, V)>, k: K, v: V)
    requires
        keys_unique(m),
    ensures
        lookup(m, k) == Some(v) <==> exists|i: int| 0 <= i < m.len() && m[i] == (k, v),
{
    lemma_key_index(m, k);
    if exists|i: int| 0 <= i < m.len() && m[i] == (k, v) {
        let i = choose|i: int| 0 <= i < m.len() && m[i] == (k, v);
        lemma_unique_index(m, i);
    }
    if lookup(m, k) == Some(v) {
        assert(m[key_index(m, k)] == (k, v));
    }
}

/// Entries with distinct keys, put in turn into an empty list, make the
/// list itself.
pub proof fn lemma_put_all_distinct(es: Seq<(PackageIdModel, LockfilePackageModel)>)
    requires
        keys_unique(es),
    ensures
        put_all(seq![], es) == es,
    decreases es.len(),
{
    if es.len() > 0 {
        let p = es.drop_last();
        assert(keys_unique(p));
        lemma_put_all_distinct(p);
        lemma_key_index(p, es.last().0);
        assert forall|j: int| 0 <= j < p.len() implies p[j].0 != es.last().0 by {
            assert(es[j].0 != es[es.len() - 1].0);
        }
        assert(upsert(p, es.last().0, es.last().1) =~= es);
    }
}


/// A list with unique keys keeps them unique in every prefix.
pub proof fn lemma_unique_take<K, V>(s: Seq<(K, V)>, n: int)
    requires
        keys_unique(s),
        0 <= n <= s.len(),
    ensures
        keys_unique(s.take(n)),
{
    assert forall|i: int, j: int| 0 <= i < n && 0 <= j < n && i != j implies s.take(n)[i].0 != s.take(n)[j].0 by {
        assert(s.take(n)[i] == s[i]);
        assert(s.take(n)[j] == s[j]);
    }
}

/// The commands of the packages, package by package, in order.
pub open spec fn all_commands(es: Seq<(PackageIdModel, LockfilePackageModel)>) -> Seq<LockfileCommandModel>
    decreases es.len(),
{
    if es.len() == 0 {
        seq![]
    } else {
        all_commands(es.drop_last()) + es.last().1.commands
    }
}

/// Commands, each under its name.
pub open spec fn named(cs: Seq<LockfileCommandModel>) -> Seq<(Seq<char>, LockfileCommandModel)> {
    cs.map_values(|c: LockfileCommandModel| (c.name, c))
}

/// Every command of a package names that package and its version.
pub open spec fn commands_own(es: Seq<(PackageIdModel, LockfilePackageModel)>) -> bool {
    forall|i: int, a: int|
        0 <= i < es.len() && 0 <= a < es[i].1.commands.len() ==> (#[trigger] es[i].1.commands[a]).package_name
            == es[i].0->WapmRegistryPackage_name && es[i].1.commands[a].package_version
            == es[i].0->WapmRegistryPackage_version
}

proof fn lemma_put_commands_fresh(acc: Seq<(Seq<char>, LockfileCommandModel)>, cs: Seq<LockfileCommandModel>)
    requires
        keys_unique(acc + named(cs)),
    ensures
        put_commands(acc, cs) == acc + named(cs),
    decreases cs.len(),
{
    if cs.len() > 0 {
        let p = cs.drop_last();
        let whole = acc + named(cs);
        assert(acc + named(p) =~= whole.take(whole.len() - 1));
        lemma_unique_take(whole, whole.len() - 1);
        lemma_put_commands_fresh(acc, p);
        let x = (cs.last().name, cs.last());
        assert(whole =~= (acc + named(p)).push(x));
        lemma_key_index(acc + named(p), x.0);
        assert forall|j: int| 0 <= j < (acc + named(p)).len() implies (acc + named(p))[j].0 != x.0 by {
            assert(whole[j] == (acc + named(p))[j]);
            assert(whole[whole.len() - 1] == x);
        }
    }
}

/// Where command names do not repeat, the commands of a generated
/// lockfile are all the packages' commands, each under its name, in order.
pub proof fn lemma_generate_commands(es: Seq<(PackageIdModel, LockfilePackageModel)>)
    requires
        registry_only(es),
        keys_unique(named(all_commands(es))),
    ensures
        spec_generate(es).1 == named(all_commands(es)),
    decreases es.len(),
{
    if es.len() > 0 {
        let p = es.drop_last();
        let whole = named(all_commands(es));
        assert(named(all_commands(es)) =~= named(all_commands(p)) + named(es.last().1.commands));
        assert(named(all_commands(p)) =~= whole.take(named(all_commands(p)).len() as int));
        lemma_unique_take(whole, named(all_commands(p)).len() as int);
        assert(registry_only(p)) by {
            assert forall|i: int| 0 <= i < p.len() implies (#[trigger] p[i]).0 is WapmRegistryPackage by {
                assert(p[i] == es[i]);
            }
        }
        lemma_generate_commands(p);
        assert(es.last() == es[es.len() - 1]);
        lemma_put_commands_fresh(named(all_commands(p)), es.last().1.commands);
    }
}

proof fn lemma_commands_of_concat(
    a: Seq<(Seq<char>, LockfileCommandModel)>,
    b: Seq<(Seq<char>, LockfileCommandModel)>,
    n: Seq<char>,
    v: Seq<char>,
)
    ensures
        commands_of(a + b, n, v) == commands_of(a, n, v) + commands_of(b, n, v),
    decreases b.len(),
{
    if b.len() == 0 {
        assert(a + b =~= a);
        assert(commands_of(a, n, v) + commands_of(b, n, v) =~= commands_of(a, n, v));
    } else {
        lemma_commands_of_concat(a, b.drop_last(), n, v);
        assert((a + b).drop_last() =~= a + b.drop_last());
        assert((a + b).last() == b.last());
        let r = commands_of(a, n, v) + commands_of(b.drop_last(), n, v);
        assert(r.push(b.last().1) =~= commands_of(a, n, v) + commands_of(b.drop_last(), n, v).push(b.last().1));
    }
}

proof fn lemma_commands_of_own(cs: Seq<LockfileCommandModel>, n: Seq<char>, v: Seq<char>, q: Seq<char>, w: Seq<char>)
    requires
        forall|a: int| 0 <= a < cs.len() ==> (#[trigger] cs[a]).package_name == q && cs[a].package_version == w,
    ensures
        commands_of(named(cs), n, v) == if n == q && v == w {
            cs
        } else {
            seq![]
        },
    decreases cs.len(),
{
    if cs.len() > 0 {
        let p = cs.drop_last();
        assert(named(cs).drop_last() =~= named(p));
        assert(named(cs).last() == (cs.last().name, cs.last()));
        assert forall|a: int| 0 <= a < p.len() implies (#[trigger] p[a]).package_name == q && p[a].package_version == w by {
            assert(p[a] == cs[a]);
        }
        lemma_commands_of_own(p, n, v, q, w);
        assert(cs.last() == cs[cs.len() - 1]);
        if n == q && v == w {
            assert(p.push(cs.last()) =~= cs);
        }
    } else {
        assert(named(cs) =~= Seq::<(Seq<char>, LockfileCommandModel)>::empty());
        assert(cs =~= Seq::<LockfileCommandModel>::empty());
    }
}

/// The commands of a generated lockfile that name a package and version are
/// that package's commands.
pub proof fn lemma_commands_of_all(es: Seq<(PackageIdModel, LockfilePackageModel)>, n: Seq<char>, v: Seq<char>)
    requires
        registry_only(es),
        keys_unique(es),
        commands_own(es),
    ensures
        commands_of(named(all_commands(es)), n, v) == match lookup(
            es,
            PackageIdModel::WapmRegistryPackage { name: n, version: v },
        ) {
            Some(p) => p.commands,
            None => seq![],
        },
    decreases es.len(),
{
    let k = PackageIdModel::WapmRegistryPackage { name: n, version: v };
    if es.len() == 0 {
        assert(named(all_commands(es)) =~= Seq::<(Seq<char>, LockfileCommandModel)>::empty());
        lemma_key_index(es, k);
    } else {
        let p = es.drop_last();
        let x = es.last();
        assert(es =~= p.push(x));
        assert(p =~= es.take(es.len() - 1));
        lemma_unique_take(es, es.len() - 1);
        assert(registry_only(p)) by {
            assert forall|i: int| 0 <= i < p.len() implies (#[trigger] p[i]).0 is WapmRegistryPackage by {
                assert(p[i] == es[i]);
            }
        }
        assert(commands_own(p)) by {
            assert forall|i: int, a: int|
                0 <= i < p.len() && 0 <= a < p[i].1.commands.len() implies (#[trigger] p[i].1.commands[a]).package_name
                    == p[i].0->WapmRegistryPackage_name && p[i].1.commands[a].package_version
                    == p[i].0->WapmRegistryPackage_version by {
                assert(p[i] == es[i]);
                assert(es[i].1.commands[a] == p[i].1.commands[a]);
            }
        }
        lemma_commands_of_all(p, n, v);
        assert(named(all_commands(es)) =~= named(all_commands(p)) + named(x.1.commands));
        lemma_commands_of_concat(named(all_commands(p)), named(x.1.commands), n, v);
        assert(x == es[es.len() - 1]);
        assert(x.0 is WapmRegistryPackage);
        assert forall|a: int| 0 <= a < x.1.commands.len() implies (#[trigger] x.1.commands[a]).package_name
            == x.0->WapmRegistryPackage_name && x.1.commands[a].package_version == x.0->WapmRegistryPackage_version by {
            assert(es[es.len() - 1].1.commands[a] == x.1.commands[a]);
        }
        lemma_commands_of_own(x.1.commands, n, v, x.0->WapmRegistryPackage_name, x.0->WapmRegistryPackage_version);
        lemma_lookup_push(p, x, k);
        if x.0 == k {
            lemma_key_index(p, k);
            if lookup(p, k) is Some {
                let j = key_index(p, k);
                assert(es[j].0 == es[es.len() - 1].0);
            }
            assert(seq![] + x.1.commands =~= x.1.commands);
        } else {
            assert(commands_of(named(all_commands(p)), n, v) + seq![] =~= commands_of(named(all_commands(p)), n, v));
        }
    }
}


/// Modules, each under its name.
pub open spec fn named_modules(ms: Seq<LockfileModuleModel>) -> Seq<(Seq<char>, LockfileModuleModel)> {
    ms.map_values(|m: LockfileModuleModel| (m.name, m))
}

proof fn lemma_put_modules_fresh(ms: Seq<LockfileModuleModel>)
    requires
        keys_unique(named_modules(ms)),
    ensures
        put_modules(seq![], ms) == named_modules(ms),
    decreases ms.len(),
{
    if ms.len() > 0 {
        let p = ms.drop_last();
        let whole = named_modules(ms);
        assert(named_modules(p) =~= whole.take(whole.len() - 1));
        lemma_unique_take(whole, whole.len() - 1);
        lemma_put_modules_fresh(p);
        let x = (ms.last().name, ms.last());
        assert(whole =~= named_modules(p).push(x));
        lemma_key_index(named_modules(p), x.0);
        assert forall|j: int| 0 <= j < named_modules(p).len() implies named_modules(p)[j].0 != x.0 by {
            assert(whole[j] == named_modules(p)[j]);
            assert(whole[whole.len() - 1] == x);
        }
    } else {
        assert(named_modules(ms) =~= Seq::<(Seq<char>, LockfileModuleModel)>::empty());
    }
}

/// The modules recorded in a table for a version of a package.
pub open spec fn table_at(t: LegacyTableModel, n: Seq<char>, v: Seq<char>) -> Option<
    Seq<(Seq<char>, LockfileModuleModel)>,
> {
    match lookup(t, n) {
        Some(vs) => lookup(vs, v),
        None => None,
    }
}

/// No package of a table, and no version of a package, has two entries.
pub open spec fn table_wf(t: LegacyTableModel) -> bool {
    keys_unique(t) && forall|i: int| 0 <= i < t.len() ==> keys_unique(#[trigger] t[i].1)
}

/// The table of a generated lockfile has, for each package, exactly that
/// package's modules, each under its name.
proof fn lemma_generate_table(es: Seq<(PackageIdModel, LockfilePackageModel)>, n: Seq<char>, v: Seq<char>)
    requires
        registry_only(es),
        keys_unique(es),
    ensures
        table_wf(spec_generate(es).0),
        table_at(spec_generate(es).0, n, v) == match lookup(
            es,
            PackageIdModel::WapmRegistryPackage { name: n, version: v },
        ) {
            Some(p) => Some(put_modules(seq![], p.modules)),
            None => None,
        },
    decreases es.len(),
{
    let k = PackageIdModel::WapmRegistryPackage { name: n, version: v };
    if es.len() == 0 {
        lemma_key_index(es, k);
        lemma_key_index(spec_generate(es).0, n);
    } else {
        let p = es.drop_last();
        let x = es.last();
        assert(es =~= p.push(x));
        assert(p =~= es.take(es.len() - 1));
        lemma_unique_take(es, es.len() - 1);
        assert(registry_only(p)) by {
            assert forall|i: int| 0 <= i < p.len() implies (#[trigger] p[i]).0 is WapmRegistryPackage by {
                assert(p[i] == es[i]);
            }
        }
        assert(x == es[es.len() - 1]);
        let n0 = x.0->WapmRegistryPackage_name;
        let v0 = x.0->WapmRegistryPackage_version;
        let t0 = spec_generate(p).0;
        lemma_generate_table(p, n, v);
        lemma_generate_table(p, n0, v0);
        // the package being added is new
        let k0 = PackageIdModel::WapmRegistryPackage { name: n0, version: v0 };
        assert(x.0 == k0);
        lemma_key_index(p, k0);
        if lookup(p, k0) is Some {
            let j = key_index(p, k0);
            assert(es[j].0 == es[es.len() - 1].0);
        }
        assert(modules_at(t0, n0, v0) == Seq::<(Seq<char>, LockfileModuleModel)>::empty());
        let va = versions_at(t0, n0);
        let pm = put_modules(modules_at(t0, n0, v0), x.1.modules);
        let nv = upsert(va, v0, pm);
        let t = upsert(t0, n0, nv);
        assert(spec_generate(es).0 == t);
        // the versions of the package were without repeats
        assert(keys_unique(va)) by {
            lemma_key_index(t0, n0);
            if lookup(t0, n0) is Some {
                let j = key_index(t0, n0);
                assert(keys_unique(t0[j].1));
            }
        }
        lemma_upsert_lookup(va, v0, pm, v);
        lemma_upsert_lookup(t0, n0, nv, n);
        lemma_upsert_preserves(t0, n0, nv, |e: (Seq<char>, Seq<(Seq<char>, Seq<(Seq<char>, LockfileModuleModel)>)>)| keys_unique(e.1));
        assert forall|i: int| 0 <= i < t.len() implies keys_unique(#[trigger] t[i].1) by {
            let pr = |e: (Seq<char>, Seq<(Seq<char>, Seq<(Seq<char>, LockfileModuleModel)>)>)| keys_unique(e.1);
            assert(pr(t[i]));
        }
        lemma_lookup_push(p, x, k);
        if n == n0 {
            if lookup(t0, n0) is None {
                assert(va =~= Seq::<(Seq<char>, Seq<(Seq<char>, LockfileModuleModel)>)>::empty());
                lemma_key_index(va, v);
            }
        }
    }
}

proof fn lemma_flat_versions(p: Seq<char>, vs: Seq<(Seq<char>, Seq<(Seq<char>, LockfileModuleModel)>)>)
    ensures
        flat_versions(p, vs).len() == vs.len(),
        forall|i: int| 0 <= i < vs.len() ==> #[trigger] flat_versions(p, vs)[i] == (
            p,
            vs[i].0,
            vs[i].1.map_values(|m: (Seq<char>, LockfileModuleModel)| m.1),
        ),
    decreases vs.len(),
{
    if vs.len() > 0 {
        lemma_flat_versions(p, vs.drop_last());
        assert forall|i: int| 0 <= i < vs.len() implies #[trigger] flat_versions(p, vs)[i] == (
            p,
            vs[i].0,
            vs[i].1.map_values(|m: (Seq<char>, LockfileModuleModel)| m.1),
        ) by {
            if i < vs.len() - 1 {
                assert(vs.drop_last()[i] == vs[i]);
            }
        }
    }
}

/// The versions listed by a table without repeats: no version of a package
/// comes twice, each comes from a package of the table, and a version is
/// listed with its modules exactly where the table records them.
proof fn lemma_flat_table(t: LegacyTableModel, n: Seq<char>, v: Seq<char>, ms: Seq<LockfileModuleModel>)
    requires
        table_wf(t),
    ensures
        forall|i: int, j: int|
            0 <= i < flat_table(t).len() && 0 <= j < flat_table(t).len() && i != j ==> !(
            #[trigger] flat_table(t)[i].0 == #[trigger] flat_table(t)[j].0 && flat_table(t)[i].1 == flat_table(t)[j].1),
        forall|i: int| 0 <= i < flat_table(t).len() ==> exists|j: int| 0 <= j < t.len() && #[trigger] flat_table(t)[i].0 == t[j].0,
        (exists|i: int| 0 <= i < flat_table(t).len() && flat_table(t)[i] == (n, v, ms)) <==> (table_at(t, n, v) matches Some(m)
            && m.map_values(|e: (Seq<char>, LockfileModuleModel)| e.1) == ms),
    decreases t.len(),
{
    let f = flat_table(t);
    if t.len() == 0 {
        lemma_key_index(t, n);
    } else {
        let tp = t.drop_last();
        let x = t.last();
        assert(t =~= tp.push(x));
        assert(tp =~= t.take(t.len() - 1));
        lemma_unique_take(t, t.len() - 1);
        assert(x == t[t.len() - 1]);
        assert forall|i: int| 0 <= i < tp.len() implies keys_unique(#[trigger] tp[i].1) by {
            assert(tp[i] == t[i]);
        }
        lemma_flat_table(tp, n, v, ms);
        let fp = flat_table(tp);
        let fv = flat_versions(x.0, x.1);
        lemma_flat_versions(x.0, x.1);
        assert(f == fp + fv);
        // names of the earlier packages differ from the last one's
        assert forall|i: int| 0 <= i < fp.len() implies #[trigger] fp[i].0 != x.0 by {
            let j = choose|j: int| 0 <= j < tp.len() && fp[i].0 == tp[j].0;
            assert(tp[j] == t[j]);
        }
        assert forall|i: int, j: int|
            0 <= i < f.len() && 0 <= j < f.len() && i != j implies !(#[trigger] f[i].0 == #[trigger] f[j].0 && f[i].1
            == f[j].1) by {
            if i < fp.len() && j < fp.len() {
                assert(f[i] == fp[i] && f[j] == fp[j]);
            } else if i >= fp.len() && j >= fp.len() {
                assert(f[i] == fv[i - fp.len()] && f[j] == fv[j - fp.len()]);
                assert(x.1[i - fp.len()].0 != x.1[j - fp.len()].0);
            } else if i < fp.len() {
                assert(f[i] == fp[i] && f[j] == fv[j - fp.len()]);
            } else {
                assert(f[j] == fp[j] && f[i] == fv[i - fp.len()]);
            }
        }
        assert forall|i: int| 0 <= i < f.len() implies exists|j: int| 0 <= j < t.len() && #[trigger] f[i].0 == t[j].0 by {
            if i < fp.len() {
                assert(f[i] == fp[i]);
                let j = choose|j: int| 0 <= j < tp.len() && fp[i].0 == tp[j].0;
                assert(tp[j] == t[j]);
            } else {
                assert(f[i] == fv[i - fp.len()]);
                assert(f[i].0 == t[t.len() - 1].0);
            }
        }
        lemma_lookup_push(tp, x, n);
        let in_f = exists|i: int| 0 <= i < f.len() && f[i] == (n, v, ms);
        let in_fp = exists|i: int| 0 <= i < fp.len() && fp[i] == (n, v, ms);
        let in_fv = exists|i: int| 0 <= i < fv.len() && fv[i] == (n, v, ms);
        assert(in_f <==> in_fp || in_fv) by {
            if in_f {
                let i = choose|i: int| 0 <= i < f.len() && f[i] == (n, v, ms);
                if i < fp.len() {
                    assert(fp[i] == f[i]);
                } else {
                    assert(fv[i - fp.len()] == f[i]);
                }
            }
            if in_fp {
                let i = choose|i: int| 0 <= i < fp.len() && fp[i] == (n, v, ms);
                assert(f[i] == fp[i]);
            }
            if in_fv {
                let i = choose|i: int| 0 <= i < fv.len() && fv[i] == (n, v, ms);
                assert(f[i + fp.len()] == fv[i]);
            }
        }
        if n == x.0 {
            // nothing earlier is filed under this name
            lemma_key_index(tp, n);
            if lookup(tp, n) is Some {
                let j = key_index(tp, n);
                assert(tp[j] == t[j]);
            }
            assert(!in_fp);
            assert(keys_unique(x.1));
            let mapped = |e: (Seq<char>, LockfileModuleModel)| e.1;
            assert(in_fv <==> (lookup(x.1, v) matches Some(m) && m.map_values(mapped) == ms)) by {
                if in_fv {
                    let i = choose|i: int| 0 <= i < fv.len() && fv[i] == (n, v, ms);
                    lemma_lookup_entry(x.1, v, x.1[i].1);
                }
                if let Some(m) = lookup(x.1, v) {
                    lemma_lookup_entry(x.1, v, m);
                    if m.map_values(mapped) == ms {
                        let i = choose|i: int| 0 <= i < x.1.len() && x.1[i] == (v, m);
                        assert(fv[i] == (n, v, ms));
                    }
                }
            }
        } else {
            assert(!in_fv);
        }
    }
}

/// Package data that a lockfile records faithfully: registry packages only,
/// each once; command names not repeated; each command names its own package
/// and version; and no package has two modules of one name.
pub open spec fn round_trippable(es: Seq<(PackageIdModel, LockfilePackageModel)>) -> bool {
    &&& registry_only(es)
    &&& keys_unique(es)
    &&& keys_unique(named(all_commands(es)))
    &&& commands_own(es)
    &&& forall|i: int| 0 <= i < es.len() ==> keys_unique(named_modules(#[trigger] es[i].1.modules))
}

/// Reading back the lockfile that package data makes gives every package
/// with its modules and commands, and no other package.
pub proof fn law_generated_lockfile_read_back(es: Seq<(PackageIdModel, LockfilePackageModel)>, k: PackageIdModel)
    requires
        round_trippable(es),
    ensures
        lookup(put_all(seq![], lockfile_entries(flat_table(spec_generate(es).0), spec_generate(es).1)), k)
            == lookup(es, k),
{
    let t = spec_generate(es).0;
    let cs = spec_generate(es).1;
    let f = flat_table(t);
    let le = lockfile_entries(f, cs);
    lemma_generate_table(es, seq![], seq![]);
    lemma_generate_commands(es);
    lemma_flat_table(t, seq![], seq![], seq![]);
    assert forall|i: int| 0 <= i < f.len() implies first_occurrence(f, i) by {
        assert forall|j: int| 0 <= j < i implies !(#[trigger] f[j].0 == f[i].0 && f[j].1 == f[i].1) by {}
    }
    assert(keys_unique(le)) by {
        assert forall|i: int, j: int| 0 <= i < le.len() && 0 <= j < le.len() && i != j implies le[i].0 != le[j].0 by {
            assert(!(f[i].0 == f[j].0 && f[i].1 == f[j].1));
        }
    }
    lemma_put_all_distinct(le);
    lemma_key_index(le, k);
    lemma_key_index(es, k);
    match k {
        PackageIdModel::LocalPackage { .. } => {
            assert forall|j: int| 0 <= j < es.len() implies es[j].0 != k by {
                assert(es[j].0 is WapmRegistryPackage);
            }
        },
        PackageIdModel::WapmRegistryPackage { name: n, version: v } => {
            lemma_generate_table(es, n, v);
            lemma_commands_of_all(es, n, v);
            match lookup(es, k) {
                Some(p) => {
                    let i_es = key_index(es, k);
                    assert(keys_unique(named_modules(es[i_es].1.modules)));
                    lemma_put_modules_fresh(p.modules);
                    assert(named_modules(p.modules).map_values(|e: (Seq<char>, LockfileModuleModel)| e.1) =~= p.modules);
                    lemma_flat_table(t, n, v, p.modules);
                    let i = choose|i: int| 0 <= i < f.len() && f[i] == (n, v, p.modules);
                    assert(first_occurrence(f, i));
                    assert(le[i] == (k, p));
                    lemma_lookup_entry(le, k, p);
                },
                None => {
                    assert forall|i: int| 0 <= i < le.len() implies le[i].0 != k by {
                        if le[i].0 == k {
                            lemma_flat_table(t, n, v, f[i].2);
                            assert(f[i] == (n, v, f[i].2));
                        }
                    }
                },
            }
        },
    }
}

} // verus!
