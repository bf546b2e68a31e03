//! Reading lockfiles written by older versions, and bringing them up to date.

use vstd::prelude::*;
use vstd::string::StringExecFns;
use crate::assoc::{key_index, lemma_key_index, lemma_key_index_same_keys, lemma_upsert_preserves, upsert};
use crate::lockfile::{
    find_name, names_view, table_view, versions_view, LockfileCommand, LockfileCommandModel,
    LockfileModule, LockfileModuleV2, LockfileModuleV3, LockfileV2, LockfileV3, Lockfile,
    ModuleModel, ModuleTable, ModuleTableModel, ModuleV2Model, ModuleV3Model, Version,
    VersionModel, commands_view,
};
use crate::text::{chars_of, contains, spec_contains, spec_starts_with, starts_with, substring};

verus! {

/// Index of the last `/` in `p[lo..hi)`, or -1.
pub open spec fn last_sep(p: Seq<char>, lo: int, hi: int) -> int
    decreases hi - lo,
{
    if hi <= lo {
        -1
    } else if p[hi - 1] == '/' {
        hi - 1
    } else {
        last_sep(p, lo, hi - 1)
    }
}

pub proof fn lemma_last_sep(p: Seq<char>, lo: int, hi: int)
    ensures
        last_sep(p, lo, hi) == -1 || lo <= last_sep(p, lo, hi) < hi,
    decreases hi - lo,
{
    if hi > lo && p[hi - 1] != '/' {
        lemma_last_sep(p, lo, hi - 1);
    }
}

/// Where the text before the last piece of `p[lo..end)` ends.
pub open spec fn piece_cut(p: Seq<char>, lo: int, end: int) -> int {
    let k = last_sep(p, lo, end);
    if k < 0 { lo } else { k }
}

/// Where the last piece of `p[lo..end)` starts.
pub open spec fn piece_start(p: Seq<char>, lo: int, end: int) -> int {
    let k = last_sep(p, lo, end);
    if k < 0 { lo } else { k + 1 }
}

/// A piece that is no path component: empty, or `.`.
pub open spec fn is_skip_piece(piece: Seq<char>) -> bool {
    piece.len() == 0 || piece == seq!['.']
}

/// The end of `p[lo..end)` once trailing separators and `.` pieces are dropped.
pub open spec fn trim_back(p: Seq<char>, lo: int, end: int) -> int
    decreases end - lo,
{
    if end <= lo {
        end
    } else if is_skip_piece(p.subrange(piece_start(p, lo, end), end)) {
        proof {
            lemma_last_sep(p, lo, end);
        }
        trim_back(p, lo, piece_cut(p, lo, end))
    } else {
        end
    }
}

/// The path starts at the root.
pub open spec fn has_root(p: Seq<char>) -> bool {
    p.len() > 0 && p[0] == '/'
}

/// A relative path that starts with the current directory, `.`.
pub open spec fn starts_at_cur_dir(p: Seq<char>) -> bool {
    !has_root(p) && p.len() > 0 && p[0] == '.' && (p.len() == 1 || p[1] == '/')
}

/// Where the components after the root or leading `.` start.
pub open spec fn body_start(p: Seq<char>) -> int {
    if has_root(p) || starts_at_cur_dir(p) { 1 } else { 0 }
}

/// What `PathBuf::pop` leaves of a `/`-separated path: the path without its
/// final component, with the separators and `.` pieces before it dropped;
/// the root and a lone path without components stay as they are, and the
/// current directory `.` becomes empty.
pub open spec fn spec_path_pop(p: Seq<char>) -> Seq<char> {
    let b = body_start(p);
    let e = trim_back(p, b, p.len() as int);
    if e > b {
        p.subrange(0, trim_back(p, b, piece_cut(p, b, e)))
    } else if starts_at_cur_dir(p) {
        seq![]
    } else {
        p
    }
}

fn last_sep_exec(cs: &Vec<char>, lo: usize, hi: usize) -> (res: Option<usize>)
    requires
        lo <= hi <= cs@.len(),
    ensures
        res is None ==> last_sep(cs@, lo as int, hi as int) == -1,
        res matches Some(k) ==> k as int == last_sep(cs@, lo as int, hi as int) && lo <= k < hi,
{
    let mut h = hi;
    while h > lo
        invariant
            lo <= h <= hi <= cs@.len(),
            last_sep(cs@, lo as int, hi as int) == last_sep(cs@, lo as int, h as int),
        decreases h,
    {
        if cs[h - 1] == '/' {
            return Some(h - 1);
        }
        h -= 1;
    }
    None
}

fn trim_back_exec(cs: &Vec<char>, lo: usize, end: usize) -> (res: usize)
    requires
        lo <= end <= cs@.len(),
    ensures
        res as int == trim_back(cs@, lo as int, end as int),
        lo <= end ==> res <= end,
{
    let mut e = end;
    while e > lo
        invariant
            lo <= e <= end <= cs@.len(),
            trim_back(cs@, lo as int, end as int) == trim_back(cs@, lo as int, e as int),
        decreases e,
    {
        let k = last_sep_exec(cs, lo, e);
        let (start, cut) = match k {
            None => (lo, lo),
            Some(k) => (k + 1, k),
        };
        assert(start as int == piece_start(cs@, lo as int, e as int));
        assert(cut as int == piece_cut(cs@, lo as int, e as int));
        let skip = start == e || (start + 1 == e && cs[start] == '.');
        let ghost piece = cs@.subrange(start as int, e as int);
        assert(skip == is_skip_piece(piece)) by {
            if start == e {
                assert(piece.len() == 0);
            } else if start + 1 == e {
                assert(piece =~= seq![cs@[start as int]]);
                if piece == seq!['.'] {
                    assert(piece[0] == '.');
                }
                if cs@[start as int] == '.' {
                    assert(piece =~= seq!['.']);
                }
            } else {
                assert(piece.len() >= 2);
                assert(seq!['.'].len() == 1);
            }
        }
        if !skip {
            return e;
        }
        e = cut;
    }
    e
}

pub proof fn lemma_last_sep_is_sep(p: Seq<char>, lo: int, hi: int)
    requires
        last_sep(p, lo, hi) >= 0,
    ensures
        p[last_sep(p, lo, hi)] == '/',
    decreases hi - lo,
{
    if hi > lo && p[hi - 1] != '/' {
        lemma_last_sep_is_sep(p, lo, hi - 1);
    }
}

/// The path without its final component, as `PathBuf::pop` leaves it.
pub fn path_pop(p: &str) -> (res: String)
    ensures
        res@ == spec_path_pop(p@),
{
    let cs = chars_of(p);
    let n = cs.len();
    let root = n > 0 && cs[0] == '/';
    let cur = !root && n > 0 && cs[0] == '.' && (n == 1 || cs[1] == '/');
    let b: usize = if root || cur { 1 } else { 0 };
    let e = trim_back_exec(&cs, b, n);
    assert(b as int == body_start(p@));
    if e > b {
        let cut = match last_sep_exec(&cs, b, e) {
            None => b,
            Some(k) => k,
        };
        let keep = trim_back_exec(&cs, b, cut);
        substring(p, 0, keep)
    } else if cur {
        String::new()
    } else {
        String::from_str(p)
    }
}


/// A module table with `f` applied to every module.
pub open spec fn map_table<A, B>(t: ModuleTableModel<A>, f: spec_fn(A) -> B) -> ModuleTableModel<B> {
    t.map_values(
        |e: (Seq<char>, Seq<(VersionModel, Seq<(Seq<char>, A)>)>)|
            (e.0, map_versions(e.1, f)),
    )
}

pub open spec fn map_versions<A, B>(vs: Seq<(VersionModel, Seq<(Seq<char>, A)>)>, f: spec_fn(A) -> B) -> Seq<
    (VersionModel, Seq<(Seq<char>, B)>),
> {
    vs.map_values(|e: (VersionModel, Seq<(Seq<char>, A)>)| (e.0, map_names(e.1, f)))
}

pub open spec fn map_names<A, B>(ms: Seq<(Seq<char>, A)>, f: spec_fn(A) -> B) -> Seq<(Seq<char>, B)> {
    ms.map_values(|e: (Seq<char>, A)| (e.0, f(e.1)))
}

fn map_module_list<A: View, B: View, F: Fn(&A) -> B>(
    ms: &Vec<(String, A)>,
    f: &F,
    Ghost(sf): Ghost<spec_fn(A::V) -> B::V>,
) -> (res: Vec<(String, B)>)
    requires
        forall|a: &A| #[trigger] f.requires((a,)),
        forall|a: &A, b: B| f.ensures((a,), b) ==> b@ == sf(a@),
    ensures
        names_view(res@) == map_names(names_view(ms@), sf),
{
    let mut res: Vec<(String, B)> = Vec::new();
    for i in 0..ms.len()
        invariant
            forall|a: &A| #[trigger] f.requires((a,)),
            forall|a: &A, b: B| f.ensures((a,), b) ==> b@ == sf(a@),
            res@.len() == i,
            names_view(res@) == map_names(names_view(ms@), sf).take(i as int),
    {
        let b = f(&ms[i].1);
        let ghost before = res@;
        res.push((ms[i].0.clone(), b));
        assert(names_view(res@) =~= map_names(names_view(ms@), sf).take(i + 1)) by {
            assert forall|j: int| 0 <= j < i + 1 implies #[trigger] names_view(res@)[j]
                == map_names(names_view(ms@), sf).take(i + 1)[j] by {
                if j < i {
                    assert(names_view(res@)[j] == names_view(before)[j]);
                }
            }
        }
    }
    assert(map_names(names_view(ms@), sf).take(ms.len() as int) =~= map_names(names_view(ms@), sf));
    res
}

fn map_version_list<A: View, B: View, F: Fn(&A) -> B>(
    vs: &Vec<(Version, Vec<(String, A)>)>,
    f: &F,
    Ghost(sf): Ghost<spec_fn(A::V) -> B::V>,
) -> (res: Vec<(Version, Vec<(String, B)>)>)
    requires
        forall|a: &A| #[trigger] f.requires((a,)),
        forall|a: &A, b: B| f.ensures((a,), b) ==> b@ == sf(a@),
    ensures
        versions_view(res@) == map_versions(versions_view(vs@), sf),
{
    let mut res: Vec<(Version, Vec<(String, B)>)> = Vec::new();
    for i in 0..vs.len()
        invariant
            forall|a: &A| #[trigger] f.requires((a,)),
            forall|a: &A, b: B| f.ensures((a,), b) ==> b@ == sf(a@),
            res@.len() == i,
            versions_view(res@) == map_versions(versions_view(vs@), sf).take(i as int),
    {
        let ms = map_module_list(&vs[i].1, f, Ghost(sf));
        let ghost before = res@;
        res.push((vs[i].0.duplicate(), ms));
        assert(versions_view(res@) =~= map_versions(versions_view(vs@), sf).take(i + 1)) by {
            assert forall|j: int| 0 <= j < i + 1 implies #[trigger] versions_view(res@)[j]
                == map_versions(versions_view(vs@), sf).take(i + 1)[j] by {
                if j < i {
                    assert(versions_view(res@)[j] == versions_view(before)[j]);
                }
            }
        }
    }
    assert(map_versions(versions_view(vs@), sf).take(vs.len() as int) =~= map_versions(
        versions_view(vs@),
        sf,
    ));
    res
}

fn map_module_table<A: View, B: View, F: Fn(&A) -> B>(
    t: &ModuleTable<A>,
    f: &F,
    Ghost(sf): Ghost<spec_fn(A::V) -> B::V>,
) -> (res: ModuleTable<B>)
    requires
        forall|a: &A| #[trigger] f.requires((a,)),
        forall|a: &A, b: B| f.ensures((a,), b) ==> b@ == sf(a@),
    ensures
        table_view(res@) == map_table(table_view(t@), sf),
{
    let mut res: ModuleTable<B> = Vec::new();
    for i in 0..t.len()
        invariant
            forall|a: &A| #[trigger] f.requires((a,)),
            forall|a: &A, b: B| f.ensures((a,), b) ==> b@ == sf(a@),
            res@.len() == i,
            table_view(res@) == map_table(table_view(t@), sf).take(i as int),
    {
        let vs = map_version_list(&t[i].1, f, Ghost(sf));
        let ghost before = res@;
        res.push((t[i].0.clone(), vs));
        assert(table_view(res@) =~= map_table(table_view(t@), sf).take(i + 1)) by {
            assert forall|j: int| 0 <= j < i + 1 implies #[trigger] table_view(res@)[j]
                == map_table(table_view(t@), sf).take(i + 1)[j] by {
                if j < i {
                    assert(table_view(res@)[j] == table_view(before)[j]);
                }
            }
        }
    }
    assert(map_table(table_view(t@), sf).take(t.len() as int) =~= map_table(table_view(t@), sf));
    res
}


/// A package name with its namespace: a name without one is in the global
/// namespace `_`.
pub open spec fn spec_normalize(name: Seq<char>) -> Seq<char> {
    if spec_contains(name, seq!['/']) {
        name
    } else {
        seq!['_', '/'] + name
    }
}

/// The package name with its namespace (`sqlite` is `_/sqlite`).
pub fn normalize_global_namespace_package_name(package_name: &str) -> (res: String)
    ensures
        res@ == spec_normalize(package_name@),
{
    proof {
        reveal_strlit("/");
        reveal_strlit("_/");
    }
    assert("/"@ == seq!['/']);
    assert("_/"@ == seq!['_', '/']);
    if contains(package_name, "/") {
        String::from_str(package_name)
    } else {
        String::from_str("_/").concat(package_name)
    }
}

/// A name with its namespace keeps it.
pub proof fn law_normalize_idempotent(name: Seq<char>)
    ensures
        spec_contains(spec_normalize(name), seq!['/']),
        spec_normalize(spec_normalize(name)) == spec_normalize(name),
{
    if !spec_contains(name, seq!['/']) {
        let n = spec_normalize(name);
        assert(n.subrange(1, 2) =~= seq!['/']);
        assert(crate::text::has_tag(n, 1, seq!['/']));
    }
}

pub open spec fn with_package_name(m: ModuleV2Model, package_name: Seq<char>) -> ModuleV2Model {
    ModuleV2Model { package_name, ..m }
}

pub open spec fn fix_command(c: LockfileCommandModel) -> LockfileCommandModel {
    LockfileCommandModel { package_name: spec_normalize(c.package_name), ..c }
}

/// The modules of a version-1 lockfile filed under package names with their
/// namespace, each module naming its package so; where two names become one,
/// the later package in the table wins.
pub open spec fn fix_table(t: ModuleTableModel<ModuleV2Model>) -> ModuleTableModel<ModuleV2Model>
    decreases t.len(),
{
    if t.len() == 0 {
        seq![]
    } else {
        let c = spec_normalize(t.last().0);
        upsert(
            fix_table(t.drop_last()),
            c,
            map_versions(t.last().1, |m: ModuleV2Model| with_package_name(m, c)),
        )
    }
}

fn module_with_package_name(m: &LockfileModuleV2, package_name: &String) -> (res: LockfileModuleV2)
    ensures
        res@ == with_package_name(m@, package_name@),
{
    LockfileModuleV2 {
        name: m.name.clone(),
        package_version: m.package_version.clone(),
        package_name: package_name.clone(),
        source: m.source.clone(),
        resolved: m.resolved.clone(),
        abi: m.abi,
        entry: m.entry.clone(),
    }
}

fn upsert_package<M: View>(t: &mut ModuleTable<M>, k: String, vs: Vec<(Version, Vec<(String, M)>)>)
    ensures
        table_view(final(t)@) == upsert(table_view(old(t)@), k@, versions_view(vs@)),
{
    let ghost before = table_view(t@);
    let found = find_name(t, k.as_str());
    proof {
        lemma_key_index_same_keys(names_view(t@), before, k@);
    }
    match found {
        Some(i) => {
            t[i] = (k, vs);
            assert(table_view(t@) =~= before.update(i as int, (k@, versions_view(vs@))));
        },
        None => {
            t.push((k, vs));
            assert(table_view(t@) =~= before.push((k@, versions_view(vs@))));
        },
    }
}

/// Gives every package of a version-1 lockfile its namespace: the commands'
/// packages, the keys of the module table, and the package named by each module.
pub fn fix_up_v1_package_names(lockfile: &mut LockfileV2)
    ensures
        table_view(final(lockfile).modules@) == fix_table(table_view(old(lockfile).modules@)),
        commands_view(final(lockfile).commands@) == commands_view(old(lockfile).commands@).map_values(
            |e: (Seq<char>, LockfileCommandModel)| (e.0, fix_command(e.1)),
        ),
{
    let ghost cv = commands_view(lockfile.commands@);
    let mut commands: Vec<(String, LockfileCommand)> = Vec::new();
    for i in 0..lockfile.commands.len()
        invariant
            cv == commands_view(lockfile.commands@),
            commands@.len() == i,
            commands_view(commands@) == cv.map_values(
                |e: (Seq<char>, LockfileCommandModel)| (e.0, fix_command(e.1)),
            ).take(i as int),
    {
        let mut c = lockfile.commands[i].1.duplicate();
        c.package_name = normalize_global_namespace_package_name(c.package_name.as_str());
        let ghost before = commands@;
        commands.push((lockfile.commands[i].0.clone(), c));
        assert(commands_view(commands@) =~= cv.map_values(
            |e: (Seq<char>, LockfileCommandModel)| (e.0, fix_command(e.1)),
        ).take(i + 1)) by {
            assert forall|j: int| 0 <= j < i + 1 implies #[trigger] commands_view(commands@)[j]
                == cv.map_values(|e: (Seq<char>, LockfileCommandModel)| (e.0, fix_command(e.1))).take(
                i + 1,
            )[j] by {
                if j < i {
                    assert(commands_view(commands@)[j] == commands_view(before)[j]);
                }
            }
        }
    }
    assert(cv.map_values(|e: (Seq<char>, LockfileCommandModel)| (e.0, fix_command(e.1))).take(
        cv.len() as int,
    ) =~= cv.map_values(|e: (Seq<char>, LockfileCommandModel)| (e.0, fix_command(e.1))));
    let ghost tv = table_view(lockfile.modules@);
    let mut modules: ModuleTable<LockfileModuleV2> = Vec::new();
    for i in 0..lockfile.modules.len()
        invariant
            tv == table_view(lockfile.modules@),
            table_view(modules@) == fix_table(tv.take(i as int)),
    {
        let c = normalize_global_namespace_package_name(lockfile.modules[i].0.as_str());
        let f = |m: &LockfileModuleV2| -> (r: LockfileModuleV2)
            ensures
                r@ == with_package_name(m@, c@),
            { module_with_package_name(m, &c) };
        let vs = map_version_list(
            &lockfile.modules[i].1,
            &f,
            Ghost(|m: ModuleV2Model| with_package_name(m, c@)),
        );
        assert(tv.take(i + 1).drop_last() =~= tv.take(i as int));
        assert(tv.take(i + 1).last() == tv[i as int]);
        assert(tv[i as int] == (lockfile.modules@[i as int].0@, versions_view(
            lockfile.modules@[i as int].1@,
        )));
        upsert_package(&mut modules, c, vs);
    }
    assert(tv.take(lockfile.modules.len() as int) =~= tv);
    lockfile.modules = modules;
    lockfile.commands = commands;
}

/// After the fix-up every package is filed under a name with its namespace,
/// and every module names the package it is filed under.
pub proof fn law_fix_up_namespaces(t: ModuleTableModel<ModuleV2Model>)
    ensures
        forall|i: int|
            0 <= i < fix_table(t).len() ==> spec_contains(#[trigger] fix_table(t)[i].0, seq!['/'])
                && forall|j: int, k: int|
                0 <= j < fix_table(t)[i].1.len() && 0 <= k < fix_table(t)[i].1[j].1.len()
                    ==> fix_table(t)[i].1[j].1[k].1.package_name == fix_table(t)[i].0,
    decreases t.len(),
{
    let p = |e: (Seq<char>, Seq<(VersionModel, Seq<(Seq<char>, ModuleV2Model)>)>)|
        spec_contains(e.0, seq!['/']) && forall|j: int, k: int|
            0 <= j < e.1.len() && 0 <= k < e.1[j].1.len() ==> e.1[j].1[k].1.package_name == e.0;
    if t.len() > 0 {
        law_fix_up_namespaces(t.drop_last());
        let c = spec_normalize(t.last().0);
        law_normalize_idempotent(t.last().0);
        let vs = map_versions(t.last().1, |m: ModuleV2Model| with_package_name(m, c));
        let r = fix_table(t.drop_last());
        assert forall|i: int| 0 <= i < r.len() implies #[trigger] p(r[i]) by {}
        assert(p((c, vs)));
        lemma_upsert_preserves(r, c, vs, p);
        assert forall|i: int| 0 <= i < fix_table(t).len() implies #[trigger] p(fix_table(t)[i]) by {}
        assert forall|i: int|
            0 <= i < fix_table(t).len() implies spec_contains(#[trigger] fix_table(t)[i].0, seq!['/'])
            && forall|j: int, k: int|
            0 <= j < fix_table(t)[i].1.len() && 0 <= k < fix_table(t)[i].1[j].1.len()
                ==> fix_table(t)[i].1[j].1[k].1.package_name == fix_table(t)[i].0 by {
            assert(p(fix_table(t)[i]));
        }
    }
}


/// A version-2 module as version 3 has it: the root is the directory of the
/// entry, and no module hash is kept yet.
pub open spec fn v2_to_v3(m: ModuleV2Model) -> ModuleV3Model {
    ModuleV3Model {
        name: m.name,
        package_version: m.package_version,
        package_name: m.package_name,
        source: m.source,
        resolved: m.resolved,
        abi: m.abi,
        entry: m.entry,
        root: spec_path_pop(m.entry),
        prehashed_module_key: None,
    }
}

fn convert_module_v2(m: &LockfileModuleV2) -> (res: LockfileModuleV3)
    ensures
        res@ == v2_to_v3(m@),
{
    LockfileModuleV3 {
        name: m.name.clone(),
        package_version: m.package_version.clone(),
        package_name: m.package_name.clone(),
        source: m.source.clone(),
        resolved: m.resolved.clone(),
        abi: m.abi,
        entry: m.entry.clone(),
        root: path_pop(m.entry.as_str()),
        prehashed_module_key: None,
    }
}

/// Brings a version-2 lockfile to version 3; the commands stay as they are.
pub fn convert_lockfilev2_to_v3(lockfile: LockfileV2) -> (res: LockfileV3)
    ensures
        table_view(res.modules@) == map_table(
            table_view(lockfile.modules@),
            |m: ModuleV2Model| v2_to_v3(m),
        ),
        commands_view(res.commands@) == commands_view(lockfile.commands@),
{
    let f = |m: &LockfileModuleV2| -> (r: LockfileModuleV3)
        ensures
            r@ == v2_to_v3(m@),
        { convert_module_v2(m) };
    let modules = map_module_table(&lockfile.modules, &f, Ghost(|m: ModuleV2Model| v2_to_v3(m)));
    LockfileV3 { modules, commands: lockfile.commands }
}

/// The module's entry relative to its root, when the entry lies under it.
pub open spec fn relative_source(entry: Seq<char>, root: Seq<char>) -> Seq<char> {
    if root.len() > 0 && spec_starts_with(entry, root + seq!['/']) {
        entry.subrange(root.len() + 1int, entry.len() as int)
    } else {
        entry
    }
}

/// A version-3 module as version 4 has it: the package path is
/// `name@version`, the former source is the resolved source, the source is the
/// entry relative to the root, and no module hash is kept yet.
pub open spec fn v3_to_v4(m: ModuleV3Model) -> ModuleModel {
    ModuleModel {
        name: m.name,
        package_version: m.package_version,
        package_name: m.package_name,
        package_path: m.package_name + seq!['@'] + m.package_version,
        resolved: m.resolved,
        resolved_source: m.source,
        abi: m.abi,
        source: relative_source(m.entry, m.root),
        prehashed_module_key: None,
    }
}

fn relative_source_exec(entry: &String, root: &String) -> (res: String)
    ensures
        res@ == relative_source(entry@, root@),
{
    proof {
        reveal_strlit("/");
    }
    let prefix = root.clone().concat("/");
    assert(prefix@ == root@ + seq!['/']);
    let n = root.as_str().unicode_len();
    let m = entry.as_str().unicode_len();
    if n > 0 && starts_with(entry.as_str(), prefix.as_str()) {
        assert(n + 1 <= m);
        substring(entry.as_str(), n + 1, m)
    } else {
        entry.clone()
    }
}

fn convert_module_v3(m: &LockfileModuleV3) -> (res: LockfileModule)
    ensures
        res@ == v3_to_v4(m@),
{
    proof {
        reveal_strlit("@");
    }
    let package_path = m.package_name.clone().concat("@").concat(m.package_version.as_str());
    assert(package_path@ =~= m@.package_name + seq!['@'] + m@.package_version);
    LockfileModule {
        name: m.name.clone(),
        package_version: m.package_version.clone(),
        package_name: m.package_name.clone(),
        package_path,
        resolved: m.resolved.clone(),
        resolved_source: m.source.clone(),
        abi: m.abi,
        source: relative_source_exec(&m.entry, &m.root),
        prehashed_module_key: None,
    }
}

/// Brings a version-3 lockfile to version 4; the commands stay as they are.
pub fn convert_lockfilev3_to_v4(lockfile: LockfileV3) -> (res: Lockfile)
    ensures
        table_view(res.modules@) == map_table(
            table_view(lockfile.modules@),
            |m: ModuleV3Model| v3_to_v4(m),
        ),
        commands_view(res.commands@) == commands_view(lockfile.commands@),
{
    let f = |m: &LockfileModuleV3| -> (r: LockfileModule)
        ensures
            r@ == v3_to_v4(m@),
        { convert_module_v3(m) };
    let modules = map_module_table(&lockfile.modules, &f, Ghost(|m: ModuleV3Model| v3_to_v4(m)));
    Lockfile { modules, commands: lockfile.commands }
}

/// The versions of the lockfile format.
#[derive(Debug, Clone, Copy, PartialEq, Eq, Structural)]
pub enum LockfileFormat {
    V1,
    V2,
    V3,
    V4,
}

/// A lockfile read in the format that its first line declares.
#[derive(Debug, Clone, PartialEq, Eq)]
pub enum LockfileVersion {
    V1(LockfileV2),
    V2(LockfileV2),
    V3(LockfileV3),
    V4(Lockfile),
}

/// The format that a lockfile's text declares in its first line.
pub open spec fn spec_lockfile_format(raw: Seq<char>) -> Option<LockfileFormat> {
    if spec_starts_with(raw, "# Lockfile v1"@) {
        Some(LockfileFormat::V1)
    } else if spec_starts_with(raw, "# Lockfile v2"@) {
        Some(LockfileFormat::V2)
    } else if spec_starts_with(raw, "# Lockfile v3"@) {
        Some(LockfileFormat::V3)
    } else if spec_starts_with(raw, "# Lockfile v4"@) {
        Some(LockfileFormat::V4)
    } else {
        None
    }
}

/// Reads the lockfile format from the header of a lockfile's text.
pub fn lockfile_format(raw_string: &str) -> (res: Option<LockfileFormat>)
    ensures
        res == spec_lockfile_format(raw_string@),
{
    if starts_with(raw_string, "# Lockfile v1") {
        Some(LockfileFormat::V1)
    } else if starts_with(raw_string, "# Lockfile v2") {
        Some(LockfileFormat::V2)
    } else if starts_with(raw_string, "# Lockfile v3") {
        Some(LockfileFormat::V3)
    } else if starts_with(raw_string, "# Lockfile v4") {
        Some(LockfileFormat::V4)
    } else {
        None
    }
}


/// A lockfile as it was stored, read in its own format: the first format
/// reads as the second, whose package names it may lack namespaces in.
pub enum StoredLockfile {
    V1(LockfileV2),
    V2(LockfileV2),
    V3(LockfileV3),
    V4(Lockfile),
}

/// Brings a stored lockfile to the current format: a first-format lockfile
/// has its package names fixed up, then every older format goes through the
/// conversions that follow it, in order.
pub fn upgrade_lockfile(stored: StoredLockfile) -> (res: Lockfile)
    ensures
        match stored {
            StoredLockfile::V1(l) => table_view(res.modules@) == map_table(
                map_table(fix_table(table_view(l.modules@)), |m: ModuleV2Model| v2_to_v3(m)),
                |m: ModuleV3Model| v3_to_v4(m),
            ) && commands_view(res.commands@) == commands_view(l.commands@).map_values(
                |e: (Seq<char>, LockfileCommandModel)| (e.0, fix_command(e.1)),
            ),
            StoredLockfile::V2(l) => table_view(res.modules@) == map_table(
                map_table(table_view(l.modules@), |m: ModuleV2Model| v2_to_v3(m)),
                |m: ModuleV3Model| v3_to_v4(m),
            ) && commands_view(res.commands@) == commands_view(l.commands@),
            StoredLockfile::V3(l) => table_view(res.modules@) == map_table(
                table_view(l.modules@),
                |m: ModuleV3Model| v3_to_v4(m),
            ) && commands_view(res.commands@) == commands_view(l.commands@),
            StoredLockfile::V4(l) => res == l,
        },
{
    match stored {
        StoredLockfile::V1(l) => {
            let mut v2 = l;
            fix_up_v1_package_names(&mut v2);
            convert_lockfilev3_to_v4(convert_lockfilev2_to_v3(v2))
        },
        StoredLockfile::V2(l) => convert_lockfilev3_to_v4(convert_lockfilev2_to_v3(l)),
        StoredLockfile::V3(l) => convert_lockfilev3_to_v4(l),
        StoredLockfile::V4(l) => l,
    }
}

} // verus!
