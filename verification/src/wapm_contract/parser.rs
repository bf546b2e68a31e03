//! Parser for the wapm contract text format. Tokens are separated by
//! whitespace only; function declarations must give both a `param` and a
//! `result` list, and global imports carry a name without a namespace.

use vstd::prelude::*;
use crate::text::{chars_of, has_tag, match_tag, substring};
use crate::wasm_contract;
use crate::wasm_contract::parser::{identifier, spec_identifier};
use crate::wapm_contract::{Contract, ContractModel, Export, ExportModel, Import, ImportModel, WasmType};

verus! {

/// Position after the whitespace that starts at `i`.
pub open spec fn spec_ws0(s: Seq<char>, i: int) -> int
    decreases s.len() - i,
{
    if 0 <= i < s.len() && (s[i] == ' ' || s[i] == '\t' || s[i] == '\r' || s[i] == '\n') {
        spec_ws0(s, i + 1)
    } else {
        i
    }
}

pub open spec fn kw_assert_import() -> Seq<char> {
    seq!['a', 's', 's', 'e', 'r', 't', '-', 'i', 'm', 'p', 'o', 'r', 't']
}

pub open spec fn kw_assert_export() -> Seq<char> {
    seq!['a', 's', 's', 'e', 'r', 't', '-', 'e', 'x', 'p', 'o', 'r', 't']
}

pub open spec fn kw_fn() -> Seq<char> {
    seq!['f', 'n']
}

/// The wasm contract's value type, in this dialect's type.
pub open spec fn convert_type(t: wasm_contract::WasmType) -> WasmType {
    match t {
        wasm_contract::WasmType::I32 => WasmType::I32,
        wasm_contract::WasmType::I64 => WasmType::I64,
        wasm_contract::WasmType::F32 => WasmType::F32,
        wasm_contract::WasmType::F64 => WasmType::F64,
    }
}

/// A value type at `i` (`i32`, `i64`, `f32` or `f64`).
pub open spec fn spec_wasm_type(s: Seq<char>, i: int) -> Option<(WasmType, int)> {
    match wasm_contract::parser::spec_wasm_type(s, i) {
        Some((t, k)) => Some((convert_type(t), k)),
        None => None,
    }
}

/// Value types, each preceded by whitespace, as many as follow.
pub open spec fn spec_type_list(s: Seq<char>, i: int) -> (Seq<WasmType>, int)
    decreases s.len() - i,
{
    match spec_wasm_type(s, spec_ws0(s, i)) {
        Some((t, k)) => if i < k <= s.len() {
            let rest = spec_type_list(s, k);
            (seq![t] + rest.0, rest.1)
        } else {
            (Seq::empty(), i)
        },
        None => (Seq::empty(), i),
    }
}

/// Position after `(` and the whitespace after it.
pub open spec fn spec_open(s: Seq<char>, i: int) -> Option<int> {
    if 0 <= i < s.len() && s[i] == '(' {
        Some(spec_ws0(s, i + 1))
    } else {
        None
    }
}

/// Position after whitespace and a `)`.
pub open spec fn spec_close(s: Seq<char>, i: int) -> Option<int> {
    let c = spec_ws0(s, i);
    if 0 <= c < s.len() && s[c] == ')' {
        Some(c + 1)
    } else {
        None
    }
}

/// A `(kw t ...)` list at `i`.
pub open spec fn spec_list_sexp(s: Seq<char>, i: int, kw: Seq<char>) -> Option<(Seq<WasmType>, int)> {
    match spec_open(s, i) {
        Some(a) => if has_tag(s, a, kw) {
            let l = spec_type_list(s, a + kw.len());
            match spec_close(s, l.1) {
                Some(c) => Some((l.0, c)),
                None => None,
            }
        } else {
            None
        },
        None => None,
    }
}

/// `(type t)` at `i`.
pub open spec fn spec_type_sexp(s: Seq<char>, i: int) -> Option<(WasmType, int)> {
    match spec_open(s, i) {
        Some(a) => if has_tag(s, a, wasm_contract::parser::kw_type()) {
            match spec_wasm_type(s, spec_ws0(s, a + 4)) {
                Some((t, b)) => match spec_close(s, b) {
                    Some(c) => Some((t, c)),
                    None => None,
                },
                None => None,
            }
        } else {
            None
        },
        None => None,
    }
}

/// `(fn "ns" "name" (param ...) (result ...))` at `i`.
pub open spec fn spec_fn_import(s: Seq<char>, i: int) -> Option<(ImportModel, int)> {
    match spec_open(s, i) {
        Some(a) => if has_tag(s, a, kw_fn()) {
            match spec_identifier(s, spec_ws0(s, a + 2)) {
                Some((ns, b)) => match spec_identifier(s, spec_ws0(s, b)) {
                    Some((name, c)) => match spec_list_sexp(
                        s,
                        spec_ws0(s, c),
                        wasm_contract::parser::kw_param(),
                    ) {
                        Some((ps, d)) => match spec_list_sexp(
                            s,
                            spec_ws0(s, d),
                            wasm_contract::parser::kw_result(),
                        ) {
                            Some((rs, e)) => match spec_close(s, e) {
                                Some(f) => Some(
                                    (
                                        ImportModel::Fn {
                                            namespace: ns,
                                            name: name,
                                            params: ps,
                                            result: rs,
                                        },
                                        f,
                                    ),
                                ),
                                None => None,
                            },
                            None => None,
                        },
                        None => None,
                    },
                    None => None,
                },
                None => None,
            }
        } else {
            None
        },
        None => None,
    }
}

/// `(global "name" (type t))` at `i`.
pub open spec fn spec_global_entry(s: Seq<char>, i: int) -> Option<(Seq<char>, WasmType, int)> {
    match spec_open(s, i) {
        Some(a) => if has_tag(s, a, wasm_contract::parser::kw_global()) {
            match spec_identifier(s, spec_ws0(s, a + 6)) {
                Some((name, c)) => match spec_type_sexp(s, spec_ws0(s, c)) {
                    Some((t, d)) => match spec_close(s, d) {
                        Some(e) => Some((name, t, e)),
                        None => None,
                    },
                    None => None,
                },
                None => None,
            }
        } else {
            None
        },
        None => None,
    }
}

/// A function or global import at `i`, the function form tried first.
pub open spec fn spec_import_entry(s: Seq<char>, i: int) -> Option<(ImportModel, int)> {
    match spec_fn_import(s, i) {
        Some(r) => Some(r),
        None => match spec_global_entry(s, i) {
            Some((name, t, e)) => Some((ImportModel::Global { name: name, var_type: t }, e)),
            None => None,
        },
    }
}

/// `(fn "name" (param ...) (result ...))` at `i`.
pub open spec fn spec_fn_export(s: Seq<char>, i: int) -> Option<(ExportModel, int)> {
    match spec_open(s, i) {
        Some(a) => if has_tag(s, a, kw_fn()) {
            match spec_identifier(s, spec_ws0(s, a + 2)) {
                Some((name, c)) => match spec_list_sexp(
                    s,
                    spec_ws0(s, c),
                    wasm_contract::parser::kw_param(),
                ) {
                    Some((ps, d)) => match spec_list_sexp(
                        s,
                        spec_ws0(s, d),
                        wasm_contract::parser::kw_result(),
                    ) {
                        Some((rs, e)) => match spec_close(s, e) {
                            Some(f) => Some(
                                (ExportModel::Fn { name: name, params: ps, result: rs }, f),
                            ),
                            None => None,
                        },
                        None => None,
                    },
                    None => None,
                },
                None => None,
            }
        } else {
            None
        },
        None => None,
    }
}

/// A function or global export at `i`, the function form tried first.
pub open spec fn spec_export_entry(s: Seq<char>, i: int) -> Option<(ExportModel, int)> {
    match spec_fn_export(s, i) {
        Some(r) => Some(r),
        None => match spec_global_entry(s, i) {
            Some((name, t, e)) => Some((ExportModel::Global { name: name, var_type: t }, e)),
            None => None,
        },
    }
}

/// Import entries, each preceded by whitespace, as many as follow.
pub open spec fn spec_import_list(s: Seq<char>, i: int) -> (Seq<ImportModel>, int)
    decreases s.len() - i,
{
    match spec_import_entry(s, spec_ws0(s, i)) {
        Some((e, k)) => if i < k <= s.len() {
            let rest = spec_import_list(s, k);
            (seq![e] + rest.0, rest.1)
        } else {
            (Seq::empty(), i)
        },
        None => (Seq::empty(), i),
    }
}

/// Export entries, each preceded by whitespace, as many as follow.
pub open spec fn spec_export_list(s: Seq<char>, i: int) -> (Seq<ExportModel>, int)
    decreases s.len() - i,
{
    match spec_export_entry(s, spec_ws0(s, i)) {
        Some((e, k)) => if i < k <= s.len() {
            let rest = spec_export_list(s, k);
            (seq![e] + rest.0, rest.1)
        } else {
            (Seq::empty(), i)
        },
        None => (Seq::empty(), i),
    }
}

/// `(assert-import entry ...)` with at least one entry, at `i`.
pub open spec fn spec_imports_block(s: Seq<char>, i: int) -> Option<(Seq<ImportModel>, int)> {
    match spec_open(s, i) {
        Some(a) => if has_tag(s, a, kw_assert_import()) {
            let l = spec_import_list(s, a + 13);
            if l.0.len() > 0 {
                match spec_close(s, l.1) {
                    Some(c) => Some((l.0, c)),
                    None => None,
                }
            } else {
                None
            }
        } else {
            None
        },
        None => None,
    }
}

/// `(assert-export entry ...)` with at least one entry, at `i`.
pub open spec fn spec_exports_block(s: Seq<char>, i: int) -> Option<(Seq<ExportModel>, int)> {
    match spec_open(s, i) {
        Some(a) => if has_tag(s, a, kw_assert_export()) {
            let l = spec_export_list(s, a + 13);
            if l.0.len() > 0 {
                match spec_close(s, l.1) {
                    Some(c) => Some((l.0, c)),
                    None => None,
                }
            } else {
                None
            }
        } else {
            None
        },
        None => None,
    }
}

/// The declaration blocks that follow `i`: all imports, all exports, and
/// the position where no further block could be read.
pub open spec fn spec_blocks(s: Seq<char>, i: int) -> (Seq<ImportModel>, Seq<ExportModel>, int)
    decreases s.len() - i,
{
    let j = spec_ws0(s, i);
    match spec_imports_block(s, j) {
        Some((es, k)) => if i < k <= s.len() {
            let rest = spec_blocks(s, k);
            (es + rest.0, rest.1, rest.2)
        } else {
            (Seq::empty(), Seq::empty(), i)
        },
        None => match spec_exports_block(s, j) {
            Some((es, k)) => if i < k <= s.len() {
                let rest = spec_blocks(s, k);
                (rest.0, es + rest.1, rest.2)
            } else {
                (Seq::empty(), Seq::empty(), i)
            },
            None => (Seq::empty(), Seq::empty(), i),
        },
    }
}


/// Skips whitespace.
pub fn ws0(s: &Vec<char>, i: usize) -> (r: usize)
    requires
        i <= s@.len(),
    ensures
        r == spec_ws0(s@, i as int),
        i <= r <= s@.len(),
{
    let mut j = i;
    while j < s.len() && (s[j] == ' ' || s[j] == '\t' || s[j] == '\r' || s[j] == '\n')
        invariant
            i <= j <= s@.len(),
            spec_ws0(s@, j as int) == spec_ws0(s@, i as int),
        decreases s@.len() - j,
    {
        j += 1;
    }
    j
}

/// Reads a value type at `i`.
pub fn wasm_type(s: &Vec<char>, i: usize) -> (res: Option<(WasmType, usize)>)
    requires
        i <= s@.len(),
    ensures
        res is Some <==> spec_wasm_type(s@, i as int) is Some,
        res matches Some((t, k)) ==> spec_wasm_type(s@, i as int) == Some((t, k as int)) && k
            <= s@.len(),
{
    match wasm_contract::parser::wasm_type(s, i) {
        Some((t, k)) => {
            let t = match t {
                wasm_contract::WasmType::I32 => WasmType::I32,
                wasm_contract::WasmType::I64 => WasmType::I64,
                wasm_contract::WasmType::F32 => WasmType::F32,
                wasm_contract::WasmType::F64 => WasmType::F64,
            };
            Some((t, k))
        },
        None => None,
    }
}

/// Reads as many whitespace-separated value types as follow `i`.
pub fn type_list(s: &Vec<char>, i: usize) -> (res: (Vec<WasmType>, usize))
    requires
        i <= s@.len(),
    ensures
        res.0@ == spec_type_list(s@, i as int).0,
        res.1 == spec_type_list(s@, i as int).1,
        res.1 <= s@.len(),
{
    let mut acc: Vec<WasmType> = Vec::new();
    let mut p = i;
    loop
        invariant_except_break
            p <= s@.len(),
            spec_type_list(s@, i as int).0 == acc@ + spec_type_list(s@, p as int).0,
            spec_type_list(s@, i as int).1 == spec_type_list(s@, p as int).1,
        ensures
            p <= s@.len(),
            spec_type_list(s@, i as int).0 == acc@,
            spec_type_list(s@, i as int).1 == p,
        decreases s@.len() - p,
    {
        let j = ws0(s, p);
        match wasm_type(s, j) {
            Some((t, k)) => {
                if p < k && k <= s.len() {
                    let ghost rest = spec_type_list(s@, k as int);
                    assert(acc@ + (seq![t] + rest.0) =~= acc@.push(t) + rest.0);
                    acc.push(t);
                    p = k;
                } else {
                    assert(acc@ + Seq::<WasmType>::empty() =~= acc@);
                    break ;
                }
            },
            None => {
                assert(acc@ + Seq::<WasmType>::empty() =~= acc@);
                break ;
            },
        }
    }
    (acc, p)
}

/// Reads `(` and the whitespace after it.
pub fn open_paren(s: &Vec<char>, i: usize) -> (res: Option<usize>)
    requires
        i <= s@.len(),
    ensures
        res is Some <==> spec_open(s@, i as int) is Some,
        res matches Some(k) ==> spec_open(s@, i as int) == Some(k as int) && k <= s@.len(),
{
    if i < s.len() && s[i] == '(' {
        Some(ws0(s, i + 1))
    } else {
        None
    }
}

/// Reads whitespace and a `)`.
pub fn close_paren(s: &Vec<char>, i: usize) -> (res: Option<usize>)
    requires
        i <= s@.len(),
    ensures
        res is Some <==> spec_close(s@, i as int) is Some,
        res matches Some(k) ==> spec_close(s@, i as int) == Some(k as int) && k <= s@.len(),
{
    let c = ws0(s, i);
    if c < s.len() && s[c] == ')' {
        Some(c + 1)
    } else {
        None
    }
}

/// Reads a `(kw t ...)` list at `i`.
pub fn list_sexp(s: &Vec<char>, i: usize, kw: &str) -> (res: Option<(Vec<WasmType>, usize)>)
    requires
        i <= s@.len(),
    ensures
        res is Some <==> spec_list_sexp(s@, i as int, kw@) is Some,
        res matches Some((ts, k)) ==> spec_list_sexp(s@, i as int, kw@) == Some((ts@, k as int))
            && k <= s@.len(),
{
    let a = match open_paren(s, i) {
        Some(a) => a,
        None => return None,
    };
    if !match_tag(s, a, kw) {
        return None;
    }
    let n = kw.unicode_len();
    let (ts, b) = type_list(s, a + n);
    match close_paren(s, b) {
        Some(c) => Some((ts, c)),
        None => None,
    }
}

/// Reads `(type t)` at `i`.
pub fn type_sexp(s: &Vec<char>, i: usize) -> (res: Option<(WasmType, usize)>)
    requires
        i <= s@.len(),
    ensures
        res is Some <==> spec_type_sexp(s@, i as int) is Some,
        res matches Some((t, k)) ==> spec_type_sexp(s@, i as int) == Some((t, k as int)) && k
            <= s@.len(),
{
    proof {
        reveal_strlit("type");
        assert("type"@ =~= wasm_contract::parser::kw_type());
    }
    let a = match open_paren(s, i) {
        Some(a) => a,
        None => return None,
    };
    if !match_tag(s, a, "type") {
        return None;
    }
    let (t, b) = match wasm_type(s, ws0(s, a + 4)) {
        Some(x) => x,
        None => return None,
    };
    match close_paren(s, b) {
        Some(c) => Some((t, c)),
        None => None,
    }
}

/// Reads `(fn "ns" "name" (param ...) (result ...))` at `i`.
pub fn fn_import(input: &str, s: &Vec<char>, i: usize) -> (res: Option<(Import, usize)>)
    requires
        s@ == input@,
        i <= s@.len(),
    ensures
        res is Some <==> spec_fn_import(s@, i as int) is Some,
        res matches Some((e, k)) ==> spec_fn_import(s@, i as int) == Some((e@, k as int)) && k
            <= s@.len(),
{
    proof {
        reveal_strlit("fn");
        reveal_strlit("param");
        reveal_strlit("result");
        assert("fn"@ =~= kw_fn());
        assert("param"@ =~= wasm_contract::parser::kw_param());
        assert("result"@ =~= wasm_contract::parser::kw_result());
    }
    let a = match open_paren(s, i) {
        Some(a) => a,
        None => return None,
    };
    if !match_tag(s, a, "fn") {
        return None;
    }
    let (ns, b) = match identifier(input, s, ws0(s, a + 2)) {
        Some(x) => x,
        None => return None,
    };
    let (name, c) = match identifier(input, s, ws0(s, b)) {
        Some(x) => x,
        None => return None,
    };
    let (params, d) = match list_sexp(s, ws0(s, c), "param") {
        Some(x) => x,
        None => return None,
    };
    let (result, e) = match list_sexp(s, ws0(s, d), "result") {
        Some(x) => x,
        None => return None,
    };
    match close_paren(s, e) {
        Some(f) => Some((Import::Fn { namespace: ns, name, params, result }, f)),
        None => None,
    }
}

/// Reads `(global "name" (type t))` at `i`.
pub fn global_entry(input: &str, s: &Vec<char>, i: usize) -> (res: Option<(String, WasmType, usize)>)
    requires
        s@ == input@,
        i <= s@.len(),
    ensures
        res is Some <==> spec_global_entry(s@, i as int) is Some,
        res matches Some((n, t, k)) ==> spec_global_entry(s@, i as int) == Some((n@, t, k as int))
            && k <= s@.len(),
{
    proof {
        reveal_strlit("global");
        assert("global"@ =~= wasm_contract::parser::kw_global());
    }
    let a = match open_paren(s, i) {
        Some(a) => a,
        None => return None,
    };
    if !match_tag(s, a, "global") {
        return None;
    }
    let (name, c) = match identifier(input, s, ws0(s, a + 6)) {
        Some(x) => x,
        None => return None,
    };
    let (t, d) = match type_sexp(s, ws0(s, c)) {
        Some(x) => x,
        None => return None,
    };
    match close_paren(s, d) {
        Some(e) => Some((name, t, e)),
        None => None,
    }
}

/// Reads a function or global import at `i`.
pub fn import_entry(input: &str, s: &Vec<char>, i: usize) -> (res: Option<(Import, usize)>)
    requires
        s@ == input@,
        i <= s@.len(),
    ensures
        res is Some <==> spec_import_entry(s@, i as int) is Some,
        res matches Some((e, k)) ==> spec_import_entry(s@, i as int) == Some((e@, k as int)) && k
            <= s@.len(),
{
    match fn_import(input, s, i) {
        Some(r) => Some(r),
        None => match global_entry(input, s, i) {
            Some((name, t, e)) => Some((Import::Global { name, var_type: t }, e)),
            None => None,
        },
    }
}

/// Reads `(fn "name" (param ...) (result ...))` at `i`.
pub fn fn_export(input: &str, s: &Vec<char>, i: usize) -> (res: Option<(Export, usize)>)
    requires
        s@ == input@,
        i <= s@.len(),
    ensures
        res is Some <==> spec_fn_export(s@, i as int) is Some,
        res matches Some((e, k)) ==> spec_fn_export(s@, i as int) == Some((e@, k as int)) && k
            <= s@.len(),
{
    proof {
        reveal_strlit("fn");
        reveal_strlit("param");
        reveal_strlit("result");
        assert("fn"@ =~= kw_fn());
        assert("param"@ =~= wasm_contract::parser::kw_param());
        assert("result"@ =~= wasm_contract::parser::kw_result());
    }
    let a = match open_paren(s, i) {
        Some(a) => a,
        None => return None,
    };
    if !match_tag(s, a, "fn") {
        return None;
    }
    let (name, c) = match identifier(input, s, ws0(s, a + 2)) {
        Some(x) => x,
        None => return None,
    };
    let (params, d) = match list_sexp(s, ws0(s, c), "param") {
        Some(x) => x,
        None => return None,
    };
    let (result, e) = match list_sexp(s, ws0(s, d), "result") {
        Some(x) => x,
        None => return None,
    };
    match close_paren(s, e) {
        Some(f) => Some((Export::Fn { name, params, result }, f)),
        None => None,
    }
}

/// Reads a function or global export at `i`.
pub fn export_entry(input: &str, s: &Vec<char>, i: usize) -> (res: Option<(Export, usize)>)
    requires
        s@ == input@,
        i <= s@.len(),
    ensures
        res is Some <==> spec_export_entry(s@, i as int) is Some,
        res matches Some((e, k)) ==> spec_export_entry(s@, i as int) == Some((e@, k as int)) && k
            <= s@.len(),
{
    match fn_export(input, s, i) {
        Some(r) => Some(r),
        None => match global_entry(input, s, i) {
            Some((name, t, e)) => Some((Export::Global { name, var_type: t }, e)),
            None => None,
        },
    }
}

/// Reads as many import entries as follow `i`.
pub fn import_list(input: &str, s: &Vec<char>, i: usize) -> (res: (Vec<Import>, usize))
    requires
        s@ == input@,
        i <= s@.len(),
    ensures
        res.0@.map_values(|e: Import| e@) == spec_import_list(s@, i as int).0,
        res.1 == spec_import_list(s@, i as int).1,
        res.1 <= s@.len(),
{
    let mut acc: Vec<Import> = Vec::new();
    let mut p = i;
    loop
        invariant_except_break
            s@ == input@,
            p <= s@.len(),
            spec_import_list(s@, i as int).0 == acc@.map_values(|e: Import| e@) + spec_import_list(
                s@,
                p as int,
            ).0,
            spec_import_list(s@, i as int).1 == spec_import_list(s@, p as int).1,
        ensures
            p <= s@.len(),
            spec_import_list(s@, i as int).0 == acc@.map_values(|e: Import| e@),
            spec_import_list(s@, i as int).1 == p,
        decreases s@.len() - p,
    {
        let j = ws0(s, p);
        match import_entry(input, s, j) {
            Some((e, k)) => {
                if p < k && k <= s.len() {
                    let ghost rest = spec_import_list(s@, k as int);
                    let ghost old_acc = acc@;
                    acc.push(e);
                    assert(acc@.map_values(|e: Import| e@) =~= old_acc.map_values(|e: Import| e@).push(e@));
                    assert(old_acc.map_values(|e: Import| e@) + (seq![e@] + rest.0)
                        =~= acc@.map_values(|e: Import| e@) + rest.0);
                    p = k;
                } else {
                    assert(acc@.map_values(|e: Import| e@) + Seq::<ImportModel>::empty()
                        =~= acc@.map_values(|e: Import| e@));
                    break ;
                }
            },
            None => {
                assert(acc@.map_values(|e: Import| e@) + Seq::<ImportModel>::empty()
                    =~= acc@.map_values(|e: Import| e@));
                break ;
            },
        }
    }
    (acc, p)
}

/// Reads as many export entries as follow `i`.
pub fn export_list(input: &str, s: &Vec<char>, i: usize) -> (res: (Vec<Export>, usize))
    requires
        s@ == input@,
        i <= s@.len(),
    ensures
        res.0@.map_values(|e: Export| e@) == spec_export_list(s@, i as int).0,
        res.1 == spec_export_list(s@, i as int).1,
        res.1 <= s@.len(),
{
    let mut acc: Vec<Export> = Vec::new();
    let mut p = i;
    loop
        invariant_except_break
            s@ == input@,
            p <= s@.len(),
            spec_export_list(s@, i as int).0 == acc@.map_values(|e: Export| e@) + spec_export_list(
                s@,
                p as int,
            ).0,
            spec_export_list(s@, i as int).1 == spec_export_list(s@, p as int).1,
        ensures
            p <= s@.len(),
            spec_export_list(s@, i as int).0 == acc@.map_values(|e: Export| e@),
            spec_export_list(s@, i as int).1 == p,
        decreases s@.len() - p,
    {
        let j = ws0(s, p);
        match export_entry(input, s, j) {
            Some((e, k)) => {
                if p < k && k <= s.len() {
                    let ghost rest = spec_export_list(s@, k as int);
                    let ghost old_acc = acc@;
                    acc.push(e);
                    assert(acc@.map_values(|e: Export| e@) =~= old_acc.map_values(|e: Export| e@).push(e@));
                    assert(old_acc.map_values(|e: Export| e@) + (seq![e@] + rest.0)
                        =~= acc@.map_values(|e: Export| e@) + rest.0);
                    p = k;
                } else {
                    assert(acc@.map_values(|e: Export| e@) + Seq::<ExportModel>::empty()
                        =~= acc@.map_values(|e: Export| e@));
                    break ;
                }
            },
            None => {
                assert(acc@.map_values(|e: Export| e@) + Seq::<ExportModel>::empty()
                    =~= acc@.map_values(|e: Export| e@));
                break ;
            },
        }
    }
    (acc, p)
}

/// Reads `(assert-import ...)` at `i`.
pub fn imports_block(input: &str, s: &Vec<char>, i: usize) -> (res: Option<(Vec<Import>, usize)>)
    requires
        s@ == input@,
        i <= s@.len(),
    ensures
        res is Some <==> spec_imports_block(s@, i as int) is Some,
        res matches Some((es, k)) ==> spec_imports_block(s@, i as int) == Some(
            (es@.map_values(|e: Import| e@), k as int),
        ) && k <= s@.len(),
{
    proof {
        reveal_strlit("assert-import");
        assert("assert-import"@ =~= kw_assert_import());
    }
    let a = match open_paren(s, i) {
        Some(a) => a,
        None => return None,
    };
    if !match_tag(s, a, "assert-import") {
        return None;
    }
    let (es, b) = import_list(input, s, a + 13);
    if es.len() == 0 {
        return None;
    }
    match close_paren(s, b) {
        Some(c) => Some((es, c)),
        None => None,
    }
}

/// Reads `(assert-export ...)` at `i`.
pub fn exports_block(input: &str, s: &Vec<char>, i: usize) -> (res: Option<(Vec<Export>, usize)>)
    requires
        s@ == input@,
        i <= s@.len(),
    ensures
        res is Some <==> spec_exports_block(s@, i as int) is Some,
        res matches Some((es, k)) ==> spec_exports_block(s@, i as int) == Some(
            (es@.map_values(|e: Export| e@), k as int),
        ) && k <= s@.len(),
{
    proof {
        reveal_strlit("assert-export");
        assert("assert-export"@ =~= kw_assert_export());
    }
    let a = match open_paren(s, i) {
        Some(a) => a,
        None => return None,
    };
    if !match_tag(s, a, "assert-export") {
        return None;
    }
    let (es, b) = export_list(input, s, a + 13);
    if es.len() == 0 {
        return None;
    }
    match close_paren(s, b) {
        Some(c) => Some((es, c)),
        None => None,
    }
}

/// Moves the elements of `src` to the end of `dst`.
fn append_imports(dst: &mut Vec<Import>, src: Vec<Import>)
    ensures
        final(dst)@.map_values(|e: Import| e@) == old(dst)@.map_values(|e: Import| e@) + src@.map_values(
            |e: Import| e@,
        ),
{
    let mut src = src;
    let ghost d0 = dst@;
    let ghost s0 = src@;
    dst.append(&mut src);
    assert(dst@.map_values(|e: Import| e@) =~= d0.map_values(|e: Import| e@) + s0.map_values(
        |e: Import| e@,
    ));
}

/// Moves the elements of `src` to the end of `dst`.
fn append_exports(dst: &mut Vec<Export>, src: Vec<Export>)
    ensures
        final(dst)@.map_values(|e: Export| e@) == old(dst)@.map_values(|e: Export| e@) + src@.map_values(
            |e: Export| e@,
        ),
{
    let mut src = src;
    let ghost d0 = dst@;
    let ghost s0 = src@;
    dst.append(&mut src);
    assert(dst@.map_values(|e: Export| e@) =~= d0.map_values(|e: Export| e@) + s0.map_values(
        |e: Export| e@,
    ));
}

/// Reads the declaration blocks that follow `i`.
pub fn blocks(input: &str, s: &Vec<char>, i: usize) -> (res: (Vec<Import>, Vec<Export>, usize))
    requires
        s@ == input@,
        i <= s@.len(),
    ensures
        res.0@.map_values(|e: Import| e@) == spec_blocks(s@, i as int).0,
        res.1@.map_values(|e: Export| e@) == spec_blocks(s@, i as int).1,
        res.2 == spec_blocks(s@, i as int).2,
        res.2 <= s@.len(),
{
    let mut imps: Vec<Import> = Vec::new();
    let mut exps: Vec<Export> = Vec::new();
    let mut p = i;
    loop
        invariant_except_break
            s@ == input@,
            p <= s@.len(),
            spec_blocks(s@, i as int).0 == imps@.map_values(|e: Import| e@) + spec_blocks(
                s@,
                p as int,
            ).0,
            spec_blocks(s@, i as int).1 == exps@.map_values(|e: Export| e@) + spec_blocks(
                s@,
                p as int,
            ).1,
            spec_blocks(s@, i as int).2 == spec_blocks(s@, p as int).2,
        ensures
            p <= s@.len(),
            spec_blocks(s@, i as int).0 == imps@.map_values(|e: Import| e@),
            spec_blocks(s@, i as int).1 == exps@.map_values(|e: Export| e@),
            spec_blocks(s@, i as int).2 == p,
        decreases s@.len() - p,
    {
        let j = ws0(s, p);
        let ghost iv = imps@.map_values(|e: Import| e@);
        let ghost ev = exps@.map_values(|e: Export| e@);
        match imports_block(input, s, j) {
            Some((es, k)) => {
                if p < k && k <= s.len() {
                    let ghost rest = spec_blocks(s@, k as int);
                    let ghost add = es@.map_values(|e: Import| e@);
                    append_imports(&mut imps, es);
                    assert(iv + (add + rest.0) =~= imps@.map_values(|e: Import| e@) + rest.0);
                    p = k;
                } else {
                    assert(iv + Seq::<ImportModel>::empty() =~= iv);
                    assert(ev + Seq::<ExportModel>::empty() =~= ev);
                    break ;
                }
            },
            None => match exports_block(input, s, j) {
                Some((es, k)) => {
                    if p < k && k <= s.len() {
                        let ghost rest = spec_blocks(s@, k as int);
                        let ghost add = es@.map_values(|e: Export| e@);
                        append_exports(&mut exps, es);
                        assert(ev + (add + rest.1) =~= exps@.map_values(|e: Export| e@) + rest.1);
                        p = k;
                    } else {
                        assert(iv + Seq::<ImportModel>::empty() =~= iv);
                        assert(ev + Seq::<ExportModel>::empty() =~= ev);
                        break ;
                    }
                },
                None => {
                    assert(iv + Seq::<ImportModel>::empty() =~= iv);
                    assert(ev + Seq::<ExportModel>::empty() =~= ev);
                    break ;
                },
            },
        }
    }
    (imps, exps, p)
}

/// Parses a wapm contract from its text, reading declarations for as long as
/// they can be read. Returns the text that remains and the contract made of
/// the imports and of the exports read, each in the order given.
pub fn parse_contract(input: &str) -> (res: (String, Contract))
    ensures
        res.1@.imports == spec_blocks(input@, 0).0,
        res.1@.exports == spec_blocks(input@, 0).1,
        res.0@ == input@.subrange(spec_blocks(input@, 0).2, input@.len() as int),
{
    let s = chars_of(input);
    let (imports, exports, end) = blocks(input, &s, 0);
    (substring(input, end, s.len()), Contract { imports, exports })
}

} // verus!
