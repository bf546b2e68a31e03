//! The order of packages: local directories first, ordered as paths, then
//! the registry's packages, by name and then by version.

use vstd::prelude::*;
use std::cmp::Ordering;
use crate::bonjour::{PackageId, PackageIdModel};
use crate::text::chars_of;

verus! {

/// How `a` stands to `b` when their characters are compared in turn: -1
/// before, 0 equal, 1 after; a text that ends first comes first.
pub open spec fn text_order(a: Seq<char>, b: Seq<char>) -> i8
    decreases a.len(),
{
    if a.len() == 0 {
        if b.len() == 0 {
            0i8
        } else {
            -1i8
        }
    } else if b.len() == 0 {
        1i8
    } else if a[0] < b[0] {
        -1i8
    } else if b[0] < a[0] {
        1i8
    } else {
        text_order(a.drop_first(), b.drop_first())
    }
}

/// How one path stands to another in the order of `std::path::Path`: -1
/// before, 0 equal, 1 after.
pub uninterp spec fn path_order(a: Seq<char>, b: Seq<char>) -> i8;

/// How one package stands to another: -1 before, 0 equal, 1 after.
pub open spec fn package_order(a: PackageIdModel, b: PackageIdModel) -> i8 {
    match (a, b) {
        (
            PackageIdModel::WapmRegistryPackage { name: n, version: v },
            PackageIdModel::WapmRegistryPackage { name: m, version: w },
        ) => if text_order(n, m) == 0 {
            text_order(v, w)
        } else {
            text_order(n, m)
        },
        (PackageIdModel::LocalPackage { directory: d }, PackageIdModel::LocalPackage { directory: e }) =>
            path_order(d, e),
        (PackageIdModel::LocalPackage { .. }, _) => -1i8,
        (PackageIdModel::WapmRegistryPackage { .. }, _) => 1i8,
    }
}

/// The `Ordering` that -1, 0 and 1 stand for.
pub open spec fn order_of(c: i8) -> Ordering {
    if c < 0 {
        Ordering::Less
    } else if c == 0 {
        Ordering::Equal
    } else {
        Ordering::Greater
    }
}

/// The opposite of an `Ordering`, as `Ordering::reverse` gives it.
pub open spec fn reversed(o: Ordering) -> Ordering {
    match o {
        Ordering::Less => Ordering::Greater,
        Ordering::Equal => Ordering::Equal,
        Ordering::Greater => Ordering::Less,
    }
}

/// Compares two paths with `Path::cmp` (component by component). Claimed,
/// as `Ord` requires of it: comparing the other way round gives the
/// opposite answer, and a path is equal to itself.
#[verifier::external_body]
fn compare_paths(a: &str, b: &str) -> (res: i8)
    ensures
        res == path_order(a@, b@),
        -1 <= res <= 1,
        res == -path_order(b@, a@),
        a@ == b@ ==> res == 0,
{
    match std::path::Path::new(a).cmp(std::path::Path::new(b)) {
        Ordering::Less => -1,
        Ordering::Equal => 0,
        Ordering::Greater => 1,
    }
}

proof fn lemma_text_order_step(a: Seq<char>, b: Seq<char>, i: int)
    requires
        0 <= i < a.len(),
        i < b.len(),
        a[i] == b[i],
    ensures
        text_order(a.skip(i), b.skip(i)) == text_order(a.skip(i + 1), b.skip(i + 1)),
{
    assert(a.skip(i).drop_first() =~= a.skip(i + 1));
    assert(b.skip(i).drop_first() =~= b.skip(i + 1));
}

/// Compares two texts character by character.
pub fn compare_text(a: &str, b: &str) -> (res: i8)
    ensures
        res == text_order(a@, b@),
{
    let ca = chars_of(a);
    let cb = chars_of(b);
    let mut i: usize = 0;
    assert(a@.skip(0) =~= a@);
    assert(b@.skip(0) =~= b@);
    while i < ca.len() && i < cb.len()
        invariant
            ca@ == a@,
            cb@ == b@,
            i <= ca.len(),
            i <= cb.len(),
            text_order(a@, b@) == text_order(a@.skip(i as int), b@.skip(i as int)),
        decreases ca.len() - i,
    {
        assert(a@.skip(i as int)[0] == ca@[i as int]);
        assert(b@.skip(i as int)[0] == cb@[i as int]);
        if ca[i] < cb[i] {
            return -1;
        }
        if cb[i] < ca[i] {
            return 1;
        }
        proof {
            lemma_text_order_step(a@, b@, i as int);
        }
        i = i + 1;
    }
    if i == ca.len() && i == cb.len() {
        0
    } else if i == ca.len() {
        -1
    } else {
        1
    }
}

impl PackageId {
    /// How this package stands to another: local packages come first, in the
    /// order of their directories as paths; registry packages follow, in the
    /// order of their names, and of their versions where the names are equal.
    pub fn cmp(&self, other: &PackageId) -> (res: Ordering)
        ensures
            res == order_of(package_order(self@, other@)),
            res == reversed(order_of(package_order(other@, self@))),
            self@ == other@ ==> res == Ordering::Equal,
            res == Ordering::Equal ==> (self@ is WapmRegistryPackage ==> self@ == other@),
    {
        proof {
            if self@ is WapmRegistryPackage && other@ is WapmRegistryPackage {
                law_registry_order_total(self@, other@, other@);
            }
        }
        let c: i8 = match (self, other) {
            (
                PackageId::WapmRegistryPackage { name: n, version: v },
                PackageId::WapmRegistryPackage { name: m, version: w },
            ) => {
                let by_name = compare_text(n.as_str(), m.as_str());
                if by_name == 0 {
                    compare_text(v.as_str(), w.as_str())
                } else {
                    by_name
                }
            },
            (PackageId::LocalPackage { directory: d }, PackageId::LocalPackage { directory: e }) =>
                compare_paths(d.as_str(), e.as_str()),
            (PackageId::LocalPackage { .. }, _) => -1,
            (PackageId::WapmRegistryPackage { .. }, _) => 1,
        };
        if c < 0 {
            Ordering::Less
        } else if c == 0 {
            Ordering::Equal
        } else {
            Ordering::Greater
        }
    }
}


proof fn lemma_text_order_antisymmetric(a: Seq<char>, b: Seq<char>)
    ensures
        text_order(a, b) == -text_order(b, a),
        text_order(a, b) == 0 <==> a == b,
        -1 <= text_order(a, b) <= 1,
    decreases a.len(),
{
    if a.len() > 0 && b.len() > 0 && a[0] == b[0] {
        lemma_text_order_antisymmetric(a.drop_first(), b.drop_first());
        if a.drop_first() == b.drop_first() {
            assert(a =~= seq![a[0]] + a.drop_first());
            assert(b =~= seq![b[0]] + b.drop_first());
        }
    } else if a.len() == 0 && b.len() == 0 {
        assert(a =~= b);
    }
}

proof fn lemma_text_order_transitive(a: Seq<char>, b: Seq<char>, c: Seq<char>)
    requires
        text_order(a, b) <= 0,
        text_order(b, c) <= 0,
    ensures
        text_order(a, c) <= 0,
    decreases a.len(),
{
    if a.len() > 0 && b.len() > 0 && c.len() > 0 && a[0] == b[0] && b[0] == c[0] {
        lemma_text_order_transitive(a.drop_first(), b.drop_first(), c.drop_first());
    }
}

/// Registry packages are totally ordered, as `Ord` asks: two packages stand
/// in opposite ways to each other, only a package is equal to itself, and
/// the order is transitive.
pub proof fn law_registry_order_total(a: PackageIdModel, b: PackageIdModel, c: PackageIdModel)
    requires
        a is WapmRegistryPackage,
        b is WapmRegistryPackage,
        c is WapmRegistryPackage,
    ensures
        package_order(a, b) == -package_order(b, a),
        package_order(a, b) == 0 <==> a == b,
        package_order(a, b) <= 0 && package_order(b, c) <= 0 ==> package_order(a, c) <= 0,
{
    let (n, v) = (a->WapmRegistryPackage_name, a->WapmRegistryPackage_version);
    let (m, w) = (b->WapmRegistryPackage_name, b->WapmRegistryPackage_version);
    let (o, x) = (c->WapmRegistryPackage_name, c->WapmRegistryPackage_version);
    lemma_text_order_antisymmetric(n, m);
    lemma_text_order_antisymmetric(v, w);
    lemma_text_order_antisymmetric(m, o);
    lemma_text_order_antisymmetric(w, x);
    lemma_text_order_antisymmetric(n, o);
    lemma_text_order_antisymmetric(v, x);
    if package_order(a, b) <= 0 && package_order(b, c) <= 0 {
        lemma_text_order_transitive(n, m, o);
        if text_order(n, m) == 0 && text_order(m, o) == 0 {
            lemma_text_order_transitive(v, w, x);
        }
    }
}

} // verus!
