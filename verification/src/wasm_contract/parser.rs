//! Parser for the wasm contract text format.
//!
//! A contract is a sequence of declarations such as
//! `(assert_import (func "ns" "name" (param f64 i32) (result f64 i32)))`,
//! `(assert_export (func "name" (param f64 i32) (result f64 i32)))` and
//! `(assert_import (global "ns" "name" (type f64)))`. Whitespace and comments
//! (from `;` to the end of the line) may separate the tokens.

use vstd::prelude::*;
use crate::text::{chars_of, has_tag, match_tag, substring};
use crate::wasm_contract::{
    exports_unique, export_index, find_export, find_import, import_index, imports_unique,
    lemma_export_index, lemma_import_index, Contract, ContractModel, Export, ExportModel, Import, ImportModel, WasmType,
};

verus! {

/// Whitespace accepted between tokens.
pub open spec fn is_space(c: char) -> bool {
    c == ' ' || c == '\t' || c == '\r' || c == '\n'
}

/// Position reached from `i` by skipping whitespace and comments; `in_comment`
/// says whether `i` lies inside a comment.
pub open spec fn skip_sc(s: Seq<char>, i: int, in_comment: bool) -> int
    decreases s.len() - i,
{
    if i < 0 || i >= s.len() {
        i
    } else if in_comment {
        skip_sc(s, i + 1, s[i] != '\n')
    } else if is_space(s[i]) {
        skip_sc(s, i + 1, false)
    } else if s[i] == ';' {
        skip_sc(s, i + 1, true)
    } else {
        i
    }
}

/// Position after the whitespace and comments that start at `i`.
pub open spec fn spec_space_comments(s: Seq<char>, i: int) -> int {
    skip_sc(s, i, false)
}

/// Keyword spellings of the grammar.
pub open spec fn kw_assert_import() -> Seq<char> {
    seq!['a', 's', 's', 'e', 'r', 't', '_', 'i', 'm', 'p', 'o', 'r', 't']
}

pub open spec fn kw_assert_export() -> Seq<char> {
    seq!['a', 's', 's', 'e', 'r', 't', '_', 'e', 'x', 'p', 'o', 'r', 't']
}

pub open spec fn kw_func() -> Seq<char> {
    seq!['f', 'u', 'n', 'c']
}

pub open spec fn kw_global() -> Seq<char> {
    seq!['g', 'l', 'o', 'b', 'a', 'l']
}

pub open spec fn kw_type() -> Seq<char> {
    seq!['t', 'y', 'p', 'e']
}

pub open spec fn kw_param() -> Seq<char> {
    seq!['p', 'a', 'r', 'a', 'm']
}

pub open spec fn kw_result() -> Seq<char> {
    seq!['r', 'e', 's', 'u', 'l', 't']
}

/// A wasm value type at position `i`, and the position after it.
pub open spec fn spec_wasm_type(s: Seq<char>, i: int) -> Option<(WasmType, int)> {
    if has_tag(s, i, WasmType::I32.spec_name()) {
        Some((WasmType::I32, i + 3))
    } else if has_tag(s, i, WasmType::I64.spec_name()) {
        Some((WasmType::I64, i + 3))
    } else if has_tag(s, i, WasmType::F32.spec_name()) {
        Some((WasmType::F32, i + 3))
    } else if has_tag(s, i, WasmType::F64.spec_name()) {
        Some((WasmType::F64, i + 3))
    } else {
        None
    }
}

/// Characters that may follow a backslash inside an identifier.
pub open spec fn is_escapable(c: char) -> bool {
    c == '"' || c == 'n' || c == '\\'
}

/// End of the body of a quoted identifier that starts at `j`: the position
/// of its closing quote, the end of the text if no quote follows, or -1 for
/// an invalid escape.
pub open spec fn escaped_end(s: Seq<char>, j: int) -> int
    decreases s.len() - j,
{
    if j < 0 {
        -1
    } else if j >= s.len() {
        s.len() as int
    } else if s[j] == '"' {
        j
    } else if s[j] == '\\' {
        if j + 1 < s.len() && is_escapable(s[j + 1]) {
            escaped_end(s, j + 2)
        } else {
            -1
        }
    } else {
        escaped_end(s, j + 1)
    }
}

/// A non-empty quoted identifier at `i`: its raw body (escapes kept as written)
/// and the position after the closing quote.
pub open spec fn spec_identifier(s: Seq<char>, i: int) -> Option<(Seq<char>, int)> {
    if 0 <= i < s.len() && s[i] == '"' {
        let e = escaped_end(s, i + 1);
        if i + 1 < e < s.len() {
            Some((s.subrange(i + 1, e), e + 1))
        } else {
            None
        }
    } else {
        None
    }
}

/// Value types, each preceded by whitespace or comments, as many as follow.
pub open spec fn spec_type_list(s: Seq<char>, i: int) -> (Seq<WasmType>, int)
    decreases s.len() - i,
{
    match spec_wasm_type(s, spec_space_comments(s, i)) {
        Some((t, k)) => if i < k <= s.len() {
            let rest = spec_type_list(s, k);
            (seq![t] + rest.0, rest.1)
        } else {
            (Seq::empty(), i)
        },
        None => (Seq::empty(), i),
    }
}

/// An optional `(kw t1 t2 ...)` list at `i`: the types, or none and `i` itself.
pub open spec fn spec_opt_type_list(s: Seq<char>, i: int, kw: Seq<char>) -> (Seq<WasmType>, int) {
    if 0 <= i < s.len() && s[i] == '(' {
        let a = spec_space_comments(s, i + 1);
        if has_tag(s, a, kw) {
            let l = spec_type_list(s, a + kw.len());
            let c = spec_space_comments(s, l.1);
            if 0 <= c < s.len() && s[c] == ')' {
                (l.0, c + 1)
            } else {
                (Seq::empty(), i)
            }
        } else {
            (Seq::empty(), i)
        }
    } else {
        (Seq::empty(), i)
    }
}

/// Position after `(` and the whitespace or comments that follow it, when `i` holds `(`.
pub open spec fn spec_open(s: Seq<char>, i: int) -> Option<int> {
    if 0 <= i < s.len() && s[i] == '(' {
        Some(spec_space_comments(s, i + 1))
    } else {
        None
    }
}

/// Position after whitespace or comments and a `)`.
pub open spec fn spec_close(s: Seq<char>, i: int) -> Option<int> {
    let c = spec_space_comments(s, i);
    if 0 <= c < s.len() && s[c] == ')' {
        Some(c + 1)
    } else {
        None
    }
}

/// `(type t)` at `i`.
pub open spec fn spec_type_sexp(s: Seq<char>, i: int) -> Option<(WasmType, int)> {
    match spec_open(s, i) {
        Some(a) => if has_tag(s, a, kw_type()) {
            match spec_wasm_type(s, spec_space_comments(s, a + 4)) {
                Some((t, b)) => match spec_close(s, b) {
                    Some(c) => Some((t, c)),
                    None => None,
                },
                None => None,
            }
        } else {
            None
        },
        None => None,
    }
}

/// `(func "ns" "name" (param ...) (result ...))` at `i`.
pub open spec fn spec_func_import(s: Seq<char>, i: int) -> Option<(ImportModel, int)> {
    match spec_open(s, i) {
        Some(a) => if has_tag(s, a, kw_func()) {
            match spec_identifier(s, spec_space_comments(s, a + 4)) {
                Some((ns, b)) => match spec_identifier(s, spec_space_comments(s, b)) {
                    Some((name, c)) => {
                        let p = spec_opt_type_list(s, spec_space_comments(s, c), kw_param());
                        let r = spec_opt_type_list(s, spec_space_comments(s, p.1), kw_result());
                        match spec_close(s, r.1) {
                            Some(d) => Some(
                                (
                                    ImportModel::Func {
                                        namespace: ns,
                                        name: name,
                                        params: p.0,
                                        result: r.0,
                                    },
                                    d,
                                ),
                            ),
                            None => None,
                        }
                    },
                    None => None,
                },
                None => None,
            }
        } else {
            None
        },
        None => None,
    }
}

/// `(global "ns" "name" (type t))` at `i`.
pub open spec fn spec_global_import(s: Seq<char>, i: int) -> Option<(ImportModel, int)> {
    match spec_open(s, i) {
        Some(a) => if has_tag(s, a, kw_global()) {
            match spec_identifier(s, spec_space_comments(s, a + 6)) {
                Some((ns, b)) => match spec_identifier(s, spec_space_comments(s, b)) {
                    Some((name, c)) => match spec_type_sexp(s, spec_space_comments(s, c)) {
                        Some((t, d)) => match spec_close(s, d) {
                            Some(e) => Some(
                                (ImportModel::Global { namespace: ns, name: name, var_type: t }, e),
                            ),
                            None => None,
                        },
                        None => None,
                    },
                    None => None,
                },
                None => None,
            }
        } else {
            None
        },
        None => None,
    }
}

/// A function or global import at `i`, the function form tried first.
pub open spec fn spec_import_entry(s: Seq<char>, i: int) -> Option<(ImportModel, int)> {
    match spec_func_import(s, i) {
        Some(r) => Some(r),
        None => spec_global_import(s, i),
    }
}

/// `(func "name" (param ...) (result ...))` at `i`.
pub open spec fn spec_func_export(s: Seq<char>, i: int) -> Option<(ExportModel, int)> {
    match spec_open(s, i) {
        Some(a) => if has_tag(s, a, kw_func()) {
            match spec_identifier(s, spec_space_comments(s, a + 4)) {
                Some((name, c)) => {
                    let p = spec_opt_type_list(s, spec_space_comments(s, c), kw_param());
                    let r = spec_opt_type_list(s, spec_space_comments(s, p.1), kw_result());
                    match spec_close(s, r.1) {
                        Some(d) => Some(
                            (ExportModel::Func { name: name, params: p.0, result: r.0 }, d),
                        ),
                        None => None,
                    }
                },
                None => None,
            }
        } else {
            None
        },
        None => None,
    }
}

/// `(global "name" (type t))` at `i`.
pub open spec fn spec_global_export(s: Seq<char>, i: int) -> Option<(ExportModel, int)> {
    match spec_open(s, i) {
        Some(a) => if has_tag(s, a, kw_global()) {
            match spec_identifier(s, spec_space_comments(s, a + 6)) {
                Some((name, c)) => match spec_type_sexp(s, spec_space_comments(s, c)) {
                    Some((t, d)) => match spec_close(s, d) {
                        Some(e) => Some((ExportModel::Global { name: name, var_type: t }, e)),
                        None => None,
                    },
                    None => None,
                },
                None => None,
            }
        } else {
            None
        },
        None => None,
    }
}

/// A function or global export at `i`, the function form tried first.
pub open spec fn spec_export_entry(s: Seq<char>, i: int) -> Option<(ExportModel, int)> {
    match spec_func_export(s, i) {
        Some(r) => Some(r),
        None => spec_global_export(s, i),
    }
}

/// Import entries, each preceded by whitespace or comments, as many as follow.
pub open spec fn spec_import_list(s: Seq<char>, i: int) -> (Seq<ImportModel>, int)
    decreases s.len() - i,
{
    match spec_import_entry(s, spec_space_comments(s, i)) {
        Some((e, k)) => if i < k <= s.len() {
            let rest = spec_import_list(s, k);
            (seq![e] + rest.0, rest.1)
        } else {
            (Seq::empty(), i)
        },
        None => (Seq::empty(), i),
    }
}

/// Export entries, each preceded by whitespace or comments, as many as follow.
pub open spec fn spec_export_list(s: Seq<char>, i: int) -> (Seq<ExportModel>, int)
    decreases s.len() - i,
{
    match spec_export_entry(s, spec_space_comments(s, i)) {
        Some((e, k)) => if i < k <= s.len() {
            let rest = spec_export_list(s, k);
            (seq![e] + rest.0, rest.1)
        } else {
            (Seq::empty(), i)
        },
        None => (Seq::empty(), i),
    }
}

/// `(assert_import entry ...)` with at least one entry, at `i`.
pub open spec fn spec_imports_block(s: Seq<char>, i: int) -> Option<(Seq<ImportModel>, int)> {
    match spec_open(s, i) {
        Some(a) => if has_tag(s, a, kw_assert_import()) {
            let l = spec_import_list(s, a + 13);
            if l.0.len() > 0 {
                match spec_close(s, l.1) {
                    Some(c) => Some((l.0, c)),
                    None => None,
                }
            } else {
                None
            }
        } else {
            None
        },
        None => None,
    }
}

/// `(assert_export entry ...)` with at least one entry, at `i`.
pub open spec fn spec_exports_block(s: Seq<char>, i: int) -> Option<(Seq<ExportModel>, int)> {
    match spec_open(s, i) {
        Some(a) => if has_tag(s, a, kw_assert_export()) {
            let l = spec_export_list(s, a + 13);
            if l.0.len() > 0 {
                match spec_close(s, l.1) {
                    Some(c) => Some((l.0, c)),
                    None => None,
                }
            } else {
                None
            }
        } else {
            None
        },
        None => None,
    }
}

/// A declaration entry, in the order the contract text gives it.
pub enum EntryModel {
    Imp(ImportModel),
    Exp(ExportModel),
}

pub open spec fn imports_as_entries(es: Seq<ImportModel>) -> Seq<EntryModel> {
    es.map_values(|e: ImportModel| EntryModel::Imp(e))
}

pub open spec fn exports_as_entries(es: Seq<ExportModel>) -> Seq<EntryModel> {
    es.map_values(|e: ExportModel| EntryModel::Exp(e))
}

/// The declaration blocks that follow `i`, each preceded by whitespace or
/// comments: their entries in order, and the position where no further block
/// could be read.
pub open spec fn spec_blocks(s: Seq<char>, i: int) -> (Seq<EntryModel>, int)
    decreases s.len() - i,
{
    let j = spec_space_comments(s, i);
    match spec_imports_block(s, j) {
        Some((es, k)) => if i < k <= s.len() {
            let rest = spec_blocks(s, k);
            (imports_as_entries(es) + rest.0, rest.1)
        } else {
            (Seq::empty(), i)
        },
        None => match spec_exports_block(s, j) {
            Some((es, k)) => if i < k <= s.len() {
                let rest = spec_blocks(s, k);
                (exports_as_entries(es) + rest.0, rest.1)
            } else {
                (Seq::empty(), i)
            },
            None => (Seq::empty(), i),
        },
    }
}

/// Why a contract text was refused.
#[derive(Debug, Clone, PartialEq, Eq)]
pub enum ContractParseError {
    /// An import was declared twice; holds the earlier declaration.
    DuplicateImport(Import),
    /// An export was declared twice; holds the earlier declaration.
    DuplicateExport(Export),
    /// Text after the last declaration could not be read.
    UnparsedInput(String),
}

/// Abstract value of a parse error.
pub enum ContractParseErrorModel {
    DuplicateImport(ImportModel),
    DuplicateExport(ExportModel),
    UnparsedInput(Seq<char>),
}

impl View for ContractParseError {
    type V = ContractParseErrorModel;

    open spec fn view(&self) -> ContractParseErrorModel {
        match self {
            ContractParseError::DuplicateImport(i) => ContractParseErrorModel::DuplicateImport(i@),
            ContractParseError::DuplicateExport(e) => ContractParseErrorModel::DuplicateExport(e@),
            ContractParseError::UnparsedInput(s) => ContractParseErrorModel::UnparsedInput(s@),
        }
    }
}

/// Registers the entries in order on top of `imps` and `exps`; the first
/// entry whose key is already registered yields the earlier declaration.
pub open spec fn spec_assemble(
    entries: Seq<EntryModel>,
    imps: Seq<ImportModel>,
    exps: Seq<ExportModel>,
) -> Result<ContractModel, ContractParseErrorModel>
    decreases entries.len(),
{
    if entries.len() == 0 {
        Ok(ContractModel { imports: imps, exports: exps })
    } else {
        match entries[0] {
            EntryModel::Imp(e) => {
                let k = import_index(imps, e.key());
                if k >= 0 {
                    Err(ContractParseErrorModel::DuplicateImport(imps[k]))
                } else {
                    spec_assemble(entries.drop_first(), imps.push(e), exps)
                }
            },
            EntryModel::Exp(e) => {
                let k = export_index(exps, e.key());
                if k >= 0 {
                    Err(ContractParseErrorModel::DuplicateExport(exps[k]))
                } else {
                    spec_assemble(entries.drop_first(), imps, exps.push(e))
                }
            },
        }
    }
}

/// The meaning of a contract text: its declarations registered in order, or
/// the first duplicate, or the text that follows the last readable declaration.
pub open spec fn spec_parse_contract(s: Seq<char>) -> Result<ContractModel, ContractParseErrorModel> {
    let b = spec_blocks(s, 0);
    match spec_assemble(b.0, Seq::empty(), Seq::empty()) {
        Err(e) => Err(e),
        Ok(c) => if b.1 == s.len() {
            Ok(c)
        } else {
            Err(ContractParseErrorModel::UnparsedInput(s.subrange(b.1, s.len() as int)))
        },
    }
}


/// Skips whitespace and comments that start at `i`.
pub fn space_comments(s: &Vec<char>, i: usize) -> (r: usize)
    requires
        i <= s@.len(),
    ensures
        r == spec_space_comments(s@, i as int),
        i <= r <= s@.len(),
{
    let mut j = i;
    let mut in_comment = false;
    while j < s.len()
        invariant
            i <= j <= s@.len(),
            skip_sc(s@, j as int, in_comment) == skip_sc(s@, i as int, false),
        decreases s@.len() - j,
    {
        let c = s[j];
        if in_comment {
            in_comment = c != '\n';
            j += 1;
        } else if c == ' ' || c == '\t' || c == '\r' || c == '\n' {
            j += 1;
        } else if c == ';' {
            in_comment = true;
            j += 1;
        } else {
            return j;
        }
    }
    j
}

/// Reads a wasm value type at `i`.
pub fn wasm_type(s: &Vec<char>, i: usize) -> (res: Option<(WasmType, usize)>)
    requires
        i <= s@.len(),
    ensures
        res is Some <==> spec_wasm_type(s@, i as int) is Some,
        res matches Some((t, k)) ==> spec_wasm_type(s@, i as int) == Some((t, k as int)) && k
            <= s@.len(),
{
    proof {
        reveal_strlit("i32");
        reveal_strlit("i64");
        reveal_strlit("f32");
        reveal_strlit("f64");
        assert("i32"@ =~= WasmType::I32.spec_name());
        assert("i64"@ =~= WasmType::I64.spec_name());
        assert("f32"@ =~= WasmType::F32.spec_name());
        assert("f64"@ =~= WasmType::F64.spec_name());
    }
    if match_tag(s, i, "i32") {
        Some((WasmType::I32, i + 3))
    } else if match_tag(s, i, "i64") {
        Some((WasmType::I64, i + 3))
    } else if match_tag(s, i, "f32") {
        Some((WasmType::F32, i + 3))
    } else if match_tag(s, i, "f64") {
        Some((WasmType::F64, i + 3))
    } else {
        None
    }
}

/// Reads a quoted identifier at `i`.
pub fn identifier(input: &str, s: &Vec<char>, i: usize) -> (res: Option<(String, usize)>)
    requires
        s@ == input@,
        i <= s@.len(),
    ensures
        res is Some <==> spec_identifier(s@, i as int) is Some,
        res matches Some((v, k)) ==> spec_identifier(s@, i as int) == Some((v@, k as int)) && k
            <= s@.len(),
{
    if i >= s.len() || s[i] != '"' {
        return None;
    }
    let mut j = i + 1;
    while j < s.len() && s[j] != '"'
        invariant
            i + 1 <= j <= s@.len(),
            i < s@.len(),
            escaped_end(s@, j as int) == escaped_end(s@, i + 1),
        decreases s@.len() - j,
    {
        if s[j] == '\\' {
            if j + 1 < s.len() && (s[j + 1] == '"' || s[j + 1] == 'n' || s[j + 1] == '\\') {
                j += 2;
            } else {
                return None;
            }
        } else {
            j += 1;
        }
    }
    if j >= s.len() || j == i + 1 {
        return None;
    }
    Some((substring(input, i + 1, j), j + 1))
}

/// Reads as many whitespace-separated value types as follow `i`.
pub fn type_list(s: &Vec<char>, i: usize) -> (res: (Vec<WasmType>, usize))
    requires
        i <= s@.len(),
    ensures
        res.0@ == spec_type_list(s@, i as int).0,
        res.1 == spec_type_list(s@, i as int).1,
        res.1 <= s@.len(),
{
    let mut acc: Vec<WasmType> = Vec::new();
    let mut p = i;
    loop
        invariant_except_break
            p <= s@.len(),
            spec_type_list(s@, i as int).0 == acc@ + spec_type_list(s@, p as int).0,
            spec_type_list(s@, i as int).1 == spec_type_list(s@, p as int).1,
        ensures
            p <= s@.len(),
            spec_type_list(s@, i as int).0 == acc@,
            spec_type_list(s@, i as int).1 == p,
        decreases s@.len() - p,
    {
        let j = space_comments(s, p);
        match wasm_type(s, j) {
            Some((t, k)) => {
                if p < k && k <= s.len() {
                    let ghost rest = spec_type_list(s@, k as int);
                    assert(acc@ + (seq![t] + rest.0) =~= acc@.push(t) + rest.0);
                    acc.push(t);
                    p = k;
                } else {
                    assert(acc@ + Seq::<WasmType>::empty() =~= acc@);
                    break ;
                }
            },
            None => {
                assert(acc@ + Seq::<WasmType>::empty() =~= acc@);
                break ;
            },
        }
    }
    (acc, p)
}

/// Reads an optional `(kw t ...)` list at `i`.
pub fn opt_type_list(s: &Vec<char>, i: usize, kw: &str) -> (res: (Vec<WasmType>, usize))
    requires
        i <= s@.len(),
    ensures
        res.0@ == spec_opt_type_list(s@, i as int, kw@).0,
        res.1 == spec_opt_type_list(s@, i as int, kw@).1,
        res.1 <= s@.len(),
{
    if i < s.len() && s[i] == '(' {
        let a = space_comments(s, i + 1);
        if match_tag(s, a, kw) {
            let n = kw.unicode_len();
            let (ts, b) = type_list(s, a + n);
            let c = space_comments(s, b);
            if c < s.len() && s[c] == ')' {
                return (ts, c + 1);
            }
        }
    }
    (Vec::new(), i)
}

/// Reads `(` and the whitespace after it.
pub fn open_paren(s: &Vec<char>, i: usize) -> (res: Option<usize>)
    requires
        i <= s@.len(),
    ensures
        res is Some <==> spec_open(s@, i as int) is Some,
        res matches Some(k) ==> spec_open(s@, i as int) == Some(k as int) && k <= s@.len(),
{
    if i < s.len() && s[i] == '(' {
        Some(space_comments(s, i + 1))
    } else {
        None
    }
}

/// Reads whitespace and a `)`.
pub fn close_paren(s: &Vec<char>, i: usize) -> (res: Option<usize>)
    requires
        i <= s@.len(),
    ensures
        res is Some <==> spec_close(s@, i as int) is Some,
        res matches Some(k) ==> spec_close(s@, i as int) == Some(k as int) && k <= s@.len(),
{
    let c = space_comments(s, i);
    if c < s.len() && s[c] == ')' {
        Some(c + 1)
    } else {
        None
    }
}

/// Reads `(type t)` at `i`.
pub fn type_sexp(s: &Vec<char>, i: usize) -> (res: Option<(WasmType, usize)>)
    requires
        i <= s@.len(),
    ensures
        res is Some <==> spec_type_sexp(s@, i as int) is Some,
        res matches Some((t, k)) ==> spec_type_sexp(s@, i as int) == Some((t, k as int)) && k
            <= s@.len(),
{
    proof {
        reveal_strlit("type");
        assert("type"@ =~= kw_type());
    }
    let a = match open_paren(s, i) {
        Some(a) => a,
        None => return None,
    };
    if !match_tag(s, a, "type") {
        return None;
    }
    let (t, b) = match wasm_type(s, space_comments(s, a + 4)) {
        Some(x) => x,
        None => return None,
    };
    match close_paren(s, b) {
        Some(c) => Some((t, c)),
        None => None,
    }
}

/// Reads `(func "ns" "name" (param ...) (result ...))` at `i`.
pub fn func_import(input: &str, s: &Vec<char>, i: usize) -> (res: Option<(Import, usize)>)
    requires
        s@ == input@,
        i <= s@.len(),
    ensures
        res is Some <==> spec_func_import(s@, i as int) is Some,
        res matches Some((e, k)) ==> spec_func_import(s@, i as int) == Some((e@, k as int)) && k
            <= s@.len(),
{
    proof {
        reveal_strlit("func");
        reveal_strlit("param");
        reveal_strlit("result");
        assert("func"@ =~= kw_func());
        assert("param"@ =~= kw_param());
        assert("result"@ =~= kw_result());
    }
    let a = match open_paren(s, i) {
        Some(a) => a,
        None => return None,
    };
    if !match_tag(s, a, "func") {
        return None;
    }
    let (ns, b) = match identifier(input, s, space_comments(s, a + 4)) {
        Some(x) => x,
        None => return None,
    };
    let (name, c) = match identifier(input, s, space_comments(s, b)) {
        Some(x) => x,
        None => return None,
    };
    let (params, p) = opt_type_list(s, space_comments(s, c), "param");
    let (result, r) = opt_type_list(s, space_comments(s, p), "result");
    match close_paren(s, r) {
        Some(d) => Some((Import::Func { namespace: ns, name, params, result }, d)),
        None => None,
    }
}

/// Reads `(global "ns" "name" (type t))` at `i`.
pub fn global_import(input: &str, s: &Vec<char>, i: usize) -> (res: Option<(Import, usize)>)
    requires
        s@ == input@,
        i <= s@.len(),
    ensures
        res is Some <==> spec_global_import(s@, i as int) is Some,
        res matches Some((e, k)) ==> spec_global_import(s@, i as int) == Some((e@, k as int))
            && k <= s@.len(),
{
    proof {
        reveal_strlit("global");
        assert("global"@ =~= kw_global());
    }
    let a = match open_paren(s, i) {
        Some(a) => a,
        None => return None,
    };
    if !match_tag(s, a, "global") {
        return None;
    }
    let (ns, b) = match identifier(input, s, space_comments(s, a + 6)) {
        Some(x) => x,
        None => return None,
    };
    let (name, c) = match identifier(input, s, space_comments(s, b)) {
        Some(x) => x,
        None => return None,
    };
    let (t, d) = match type_sexp(s, space_comments(s, c)) {
        Some(x) => x,
        None => return None,
    };
    match close_paren(s, d) {
        Some(e) => Some((Import::Global { namespace: ns, name, var_type: t }, e)),
        None => None,
    }
}

/// Reads a function or global import at `i`.
pub fn import_entry(input: &str, s: &Vec<char>, i: usize) -> (res: Option<(Import, usize)>)
    requires
        s@ == input@,
        i <= s@.len(),
    ensures
        res is Some <==> spec_import_entry(s@, i as int) is Some,
        res matches Some((e, k)) ==> spec_import_entry(s@, i as int) == Some((e@, k as int)) && k
            <= s@.len(),
{
    match func_import(input, s, i) {
        Some(r) => Some(r),
        None => global_import(input, s, i),
    }
}

/// Reads `(func "name" (param ...) (result ...))` at `i`.
pub fn func_export(input: &str, s: &Vec<char>, i: usize) -> (res: Option<(Export, usize)>)
    requires
        s@ == input@,
        i <= s@.len(),
    ensures
        res is Some <==> spec_func_export(s@, i as int) is Some,
        res matches Some((e, k)) ==> spec_func_export(s@, i as int) == Some((e@, k as int)) && k
            <= s@.len(),
{
    proof {
        reveal_strlit("func");
        reveal_strlit("param");
        reveal_strlit("result");
        assert("func"@ =~= kw_func());
        assert("param"@ =~= kw_param());
        assert("result"@ =~= kw_result());
    }
    let a = match open_paren(s, i) {
        Some(a) => a,
        None => return None,
    };
    if !match_tag(s, a, "func") {
        return None;
    }
    let (name, c) = match identifier(input, s, space_comments(s, a + 4)) {
        Some(x) => x,
        None => return None,
    };
    let (params, p) = opt_type_list(s, space_comments(s, c), "param");
    let (result, r) = opt_type_list(s, space_comments(s, p), "result");
    match close_paren(s, r) {
        Some(d) => Some((Export::Func { name, params, result }, d)),
        None => None,
    }
}

/// Reads `(global "name" (type t))` at `i`.
pub fn global_export(input: &str, s: &Vec<char>, i: usize) -> (res: Option<(Export, usize)>)
    requires
        s@ == input@,
        i <= s@.len(),
    ensures
        res is Some <==> spec_global_export(s@, i as int) is Some,
        res matches Some((e, k)) ==> spec_global_export(s@, i as int) == Some((e@, k as int))
            && k <= s@.len(),
{
    proof {
        reveal_strlit("global");
        assert("global"@ =~= kw_global());
    }
    let a = match open_paren(s, i) {
        Some(a) => a,
        None => return None,
    };
    if !match_tag(s, a, "global") {
        return None;
    }
    let (name, c) = match identifier(input, s, space_comments(s, a + 6)) {
        Some(x) => x,
        None => return None,
    };
    let (t, d) = match type_sexp(s, space_comments(s, c)) {
        Some(x) => x,
        None => return None,
    };
    match close_paren(s, d) {
        Some(e) => Some((Export::Global { name, var_type: t }, e)),
        None => None,
    }
}

/// Reads a function or global export at `i`.
pub fn export_entry(input: &str, s: &Vec<char>, i: usize) -> (res: Option<(Export, usize)>)
    requires
        s@ == input@,
        i <= s@.len(),
    ensures
        res is Some <==> spec_export_entry(s@, i as int) is Some,
        res matches Some((e, k)) ==> spec_export_entry(s@, i as int) == Some((e@, k as int)) && k
            <= s@.len(),
{
    match func_export(input, s, i) {
        Some(r) => Some(r),
        None => global_export(input, s, i),
    }
}


/// Reads as many import entries as follow `i`.
pub fn import_list(input: &str, s: &Vec<char>, i: usize) -> (res: (Vec<Import>, usize))
    requires
        s@ == input@,
        i <= s@.len(),
    ensures
        res.0@.map_values(|e: Import| e@) == spec_import_list(s@, i as int).0,
        res.1 == spec_import_list(s@, i as int).1,
        res.1 <= s@.len(),
{
    let mut acc: Vec<Import> = Vec::new();
    let mut p = i;
    loop
        invariant_except_break
            s@ == input@,
            p <= s@.len(),
            spec_import_list(s@, i as int).0 == acc@.map_values(|e: Import| e@) + spec_import_list(
                s@,
                p as int,
            ).0,
            spec_import_list(s@, i as int).1 == spec_import_list(s@, p as int).1,
        ensures
            p <= s@.len(),
            spec_import_list(s@, i as int).0 == acc@.map_values(|e: Import| e@),
            spec_import_list(s@, i as int).1 == p,
        decreases s@.len() - p,
    {
        let j = space_comments(s, p);
        match import_entry(input, s, j) {
            Some((e, k)) => {
                if p < k && k <= s.len() {
                    let ghost rest = spec_import_list(s@, k as int);
                    let ghost old_acc = acc@;
                    acc.push(e);
                    assert(acc@.map_values(|e: Import| e@) =~= old_acc.map_values(|e: Import| e@).push(e@));
                    assert(old_acc.map_values(|e: Import| e@) + (seq![e@] + rest.0)
                        =~= acc@.map_values(|e: Import| e@) + rest.0);
                    p = k;
                } else {
                    assert(acc@.map_values(|e: Import| e@) + Seq::<ImportModel>::empty()
                        =~= acc@.map_values(|e: Import| e@));
                    break ;
                }
            },
            None => {
                assert(acc@.map_values(|e: Import| e@) + Seq::<ImportModel>::empty()
                    =~= acc@.map_values(|e: Import| e@));
                break ;
            },
        }
    }
    (acc, p)
}

/// Reads as many export entries as follow `i`.
pub fn export_list(input: &str, s: &Vec<char>, i: usize) -> (res: (Vec<Export>, usize))
    requires
        s@ == input@,
        i <= s@.len(),
    ensures
        res.0@.map_values(|e: Export| e@) == spec_export_list(s@, i as int).0,
        res.1 == spec_export_list(s@, i as int).1,
        res.1 <= s@.len(),
{
    let mut acc: Vec<Export> = Vec::new();
    let mut p = i;
    loop
        invariant_except_break
            s@ == input@,
            p <= s@.len(),
            spec_export_list(s@, i as int).0 == acc@.map_values(|e: Export| e@) + spec_export_list(
                s@,
                p as int,
            ).0,
            spec_export_list(s@, i as int).1 == spec_export_list(s@, p as int).1,
        ensures
            p <= s@.len(),
            spec_export_list(s@, i as int).0 == acc@.map_values(|e: Export| e@),
            spec_export_list(s@, i as int).1 == p,
        decreases s@.len() - p,
    {
        let j = space_comments(s, p);
        match export_entry(input, s, j) {
            Some((e, k)) => {
                if p < k && k <= s.len() {
                    let ghost rest = spec_export_list(s@, k as int);
                    let ghost old_acc = acc@;
                    acc.push(e);
                    assert(acc@.map_values(|e: Export| e@) =~= old_acc.map_values(|e: Export| e@).push(e@));
                    assert(old_acc.map_values(|e: Export| e@) + (seq![e@] + rest.0)
                        =~= acc@.map_values(|e: Export| e@) + rest.0);
                    p = k;
                } else {
                    assert(acc@.map_values(|e: Export| e@) + Seq::<ExportModel>::empty()
                        =~= acc@.map_values(|e: Export| e@));
                    break ;
                }
            },
            None => {
                assert(acc@.map_values(|e: Export| e@) + Seq::<ExportModel>::empty()
                    =~= acc@.map_values(|e: Export| e@));
                break ;
            },
        }
    }
    (acc, p)
}

/// Reads `(assert_import ...)` at `i`.
pub fn imports_block(input: &str, s: &Vec<char>, i: usize) -> (res: Option<(Vec<Import>, usize)>)
    requires
        s@ == input@,
        i <= s@.len(),
    ensures
        res is Some <==> spec_imports_block(s@, i as int) is Some,
        res matches Some((es, k)) ==> spec_imports_block(s@, i as int) == Some(
            (es@.map_values(|e: Import| e@), k as int),
        ) && k <= s@.len(),
{
    proof {
        reveal_strlit("assert_import");
        assert("assert_import"@ =~= kw_assert_import());
    }
    let a = match open_paren(s, i) {
        Some(a) => a,
        None => return None,
    };
    if !match_tag(s, a, "assert_import") {
        return None;
    }
    let (es, b) = import_list(input, s, a + 13);
    if es.len() == 0 {
        return None;
    }
    match close_paren(s, b) {
        Some(c) => Some((es, c)),
        None => None,
    }
}

/// Reads `(assert_export ...)` at `i`.
pub fn exports_block(input: &str, s: &Vec<char>, i: usize) -> (res: Option<(Vec<Export>, usize)>)
    requires
        s@ == input@,
        i <= s@.len(),
    ensures
        res is Some <==> spec_exports_block(s@, i as int) is Some,
        res matches Some((es, k)) ==> spec_exports_block(s@, i as int) == Some(
            (es@.map_values(|e: Export| e@), k as int),
        ) && k <= s@.len(),
{
    proof {
        reveal_strlit("assert_export");
        assert("assert_export"@ =~= kw_assert_export());
    }
    let a = match open_paren(s, i) {
        Some(a) => a,
        None => return None,
    };
    if !match_tag(s, a, "assert_export") {
        return None;
    }
    let (es, b) = export_list(input, s, a + 13);
    if es.len() == 0 {
        return None;
    }
    match close_paren(s, b) {
        Some(c) => Some((es, c)),
        None => None,
    }
}

/// A declaration entry.
pub enum Entry {
    Imp(Import),
    Exp(Export),
}

impl View for Entry {
    type V = EntryModel;

    open spec fn view(&self) -> EntryModel {
        match self {
            Entry::Imp(e) => EntryModel::Imp(e@),
            Entry::Exp(e) => EntryModel::Exp(e@),
        }
    }
}

/// Reads the declaration blocks that follow `i`.
pub fn blocks(input: &str, s: &Vec<char>, i: usize) -> (res: (Vec<Entry>, usize))
    requires
        s@ == input@,
        i <= s@.len(),
    ensures
        res.0@.map_values(|e: Entry| e@) == spec_blocks(s@, i as int).0,
        res.1 == spec_blocks(s@, i as int).1,
        res.1 <= s@.len(),
{
    let mut acc: Vec<Entry> = Vec::new();
    let mut p = i;
    loop
        invariant_except_break
            s@ == input@,
            p <= s@.len(),
            spec_blocks(s@, i as int).0 == acc@.map_values(|e: Entry| e@) + spec_blocks(
                s@,
                p as int,
            ).0,
            spec_blocks(s@, i as int).1 == spec_blocks(s@, p as int).1,
        ensures
            p <= s@.len(),
            spec_blocks(s@, i as int).0 == acc@.map_values(|e: Entry| e@),
            spec_blocks(s@, i as int).1 == p,
        decreases s@.len() - p,
    {
        let j = space_comments(s, p);
        let ghost old_acc = acc@;
        let ghost old_view = acc@.map_values(|e: Entry| e@);
        match imports_block(input, s, j) {
            Some((es, k)) => {
                if p < k && k <= s.len() {
                    let ghost rest = spec_blocks(s@, k as int);
                    let ghost added = imports_as_entries(es@.map_values(|e: Import| e@));
                    let mut es = es;
                    let mut n: usize = 0;
                    let total = es.len();
                    let ghost es0 = es@;
                    while n < total
                        invariant
                            0 <= n <= total,
                            total == es0.len(),
                            es@ == es0,
                            acc@.map_values(|e: Entry| e@) =~= old_view + added.take(n as int),
                            added == imports_as_entries(es0.map_values(|e: Import| e@)),
                        decreases total - n,
                    {
                        let e = es[n].duplicate();
                        let ghost before = acc@;
                        acc.push(Entry::Imp(e));
                        assert(acc@.map_values(|e: Entry| e@) =~= before.map_values(|e: Entry| e@).push(
                            EntryModel::Imp(es0[n as int]@),
                        ));
                        assert(added[n as int] == EntryModel::Imp(es0[n as int]@));
                        assert(added.take(n + 1) =~= added.take(n as int).push(added[n as int]));
                        n += 1;
                    }
                    assert(added.take(total as int) =~= added);
                    assert(old_view + (added + rest.0) =~= acc@.map_values(|e: Entry| e@) + rest.0);
                    p = k;
                } else {
                    assert(acc@.map_values(|e: Entry| e@) + Seq::<EntryModel>::empty()
                        =~= acc@.map_values(|e: Entry| e@));
                    break ;
                }
            },
            None => match exports_block(input, s, j) {
                Some((es, k)) => {
                    if p < k && k <= s.len() {
                        let ghost rest = spec_blocks(s@, k as int);
                        let ghost added = exports_as_entries(es@.map_values(|e: Export| e@));
                        let mut n: usize = 0;
                        let total = es.len();
                        while n < total
                            invariant
                                0 <= n <= total,
                                total == es@.len(),
                                acc@.map_values(|e: Entry| e@) =~= old_view + added.take(n as int),
                                added == exports_as_entries(es@.map_values(|e: Export| e@)),
                            decreases total - n,
                        {
                            let e = es[n].duplicate();
                            let ghost before = acc@;
                            acc.push(Entry::Exp(e));
                            assert(acc@.map_values(|e: Entry| e@) =~= before.map_values(
                                |e: Entry| e@,
                            ).push(EntryModel::Exp(es@[n as int]@)));
                            assert(added[n as int] == EntryModel::Exp(es@[n as int]@));
                            assert(added.take(n + 1) =~= added.take(n as int).push(added[n as int]));
                            n += 1;
                        }
                        assert(added.take(total as int) =~= added);
                        assert(old_view + (added + rest.0) =~= acc@.map_values(|e: Entry| e@)
                            + rest.0);
                        p = k;
                    } else {
                        assert(acc@.map_values(|e: Entry| e@) + Seq::<EntryModel>::empty()
                            =~= acc@.map_values(|e: Entry| e@));
                        break ;
                    }
                },
                None => {
                    assert(acc@.map_values(|e: Entry| e@) + Seq::<EntryModel>::empty()
                        =~= acc@.map_values(|e: Entry| e@));
                    break ;
                },
            },
        }
    }
    (acc, p)
}


/// Registering entries on top of uniquely keyed lists keeps every key unique.
pub proof fn lemma_assemble_unique(
    entries: Seq<EntryModel>,
    imps: Seq<ImportModel>,
    exps: Seq<ExportModel>,
)
    requires
        imports_unique(imps),
        exports_unique(exps),
    ensures
        spec_assemble(entries, imps, exps) matches Ok(c) ==> c.wf(),
    decreases entries.len(),
{
    if entries.len() > 0 {
        match entries[0] {
            EntryModel::Imp(e) => {
                lemma_import_index(imps, e.key());
                if import_index(imps, e.key()) < 0 {
                    let n = imps.push(e);
                    assert forall|i: int, j: int|
                        0 <= i < n.len() && 0 <= j < n.len() && i != j implies n[i].key()
                        != n[j].key() by {
                        if i < imps.len() && j < imps.len() {
                            assert(n[i] == imps[i] && n[j] == imps[j]);
                        }
                    }
                    lemma_assemble_unique(entries.drop_first(), n, exps);
                }
            },
            EntryModel::Exp(e) => {
                lemma_export_index(exps, e.key());
                if export_index(exps, e.key()) < 0 {
                    let n = exps.push(e);
                    assert forall|i: int, j: int|
                        0 <= i < n.len() && 0 <= j < n.len() && i != j implies n[i].key()
                        != n[j].key() by {
                        if i < exps.len() && j < exps.len() {
                            assert(n[i] == exps[i] && n[j] == exps[j]);
                        }
                    }
                    lemma_assemble_unique(entries.drop_first(), imps, n);
                }
            },
        }
    }
}

/// Registers the entries in order; the first repeated key is refused.
pub fn assemble(entries: &Vec<Entry>) -> (res: Result<Contract, ContractParseError>)
    ensures
        res matches Ok(c) ==> spec_assemble(
            entries@.map_values(|e: Entry| e@),
            Seq::empty(),
            Seq::empty(),
        ) == Ok::<ContractModel, ContractParseErrorModel>(c@),
        res matches Err(e) ==> spec_assemble(
            entries@.map_values(|e: Entry| e@),
            Seq::empty(),
            Seq::empty(),
        ) == Err::<ContractModel, ContractParseErrorModel>(e@),
{
    let ghost ev = entries@.map_values(|e: Entry| e@);
    let mut imports: Vec<Import> = Vec::new();
    let mut exports: Vec<Export> = Vec::new();
    assert(ev.skip(0) =~= ev);
    assert(imports@.map_values(|i: Import| i@) =~= Seq::<ImportModel>::empty());
    assert(exports@.map_values(|e: Export| e@) =~= Seq::<ExportModel>::empty());
    for idx in 0..entries.len()
        invariant
            ev == entries@.map_values(|e: Entry| e@),
            spec_assemble(ev, Seq::empty(), Seq::empty()) == spec_assemble(
                ev.skip(idx as int),
                imports@.map_values(|i: Import| i@),
                exports@.map_values(|e: Export| e@),
            ),
    {
        let ghost tail = ev.skip(idx as int);
        assert(tail[0] == ev[idx as int]);
        assert(tail.drop_first() =~= ev.skip(idx + 1));
        match &entries[idx] {
            Entry::Imp(e) => {
                let (ns, n) = e.get_key();
                proof {
                    lemma_import_index(imports@.map_values(|i: Import| i@), e@.key());
                }
                match find_import(&imports, &ns, &n) {
                    Some(k) => {
                        return Err(ContractParseError::DuplicateImport(imports[k].duplicate()));
                    },
                    None => {
                        let ghost before = imports@;
                        imports.push(e.duplicate());
                        assert(imports@.map_values(|i: Import| i@) =~= before.map_values(
                            |i: Import| i@,
                        ).push(e@));
                    },
                }
            },
            Entry::Exp(e) => {
                let n = e.get_key();
                proof {
                    lemma_export_index(exports@.map_values(|e: Export| e@), e@.key());
                }
                match find_export(&exports, &n) {
                    Some(k) => {
                        return Err(ContractParseError::DuplicateExport(exports[k].duplicate()));
                    },
                    None => {
                        let ghost before = exports@;
                        exports.push(e.duplicate());
                        assert(exports@.map_values(|e: Export| e@) =~= before.map_values(
                            |e: Export| e@,
                        ).push(e@));
                    },
                }
            },
        }
    }
    Ok(Contract { imports, exports })
}

/// Parses a wasm contract from its text.
///
/// Returns the declared imports and exports, in declaration order, or the
/// first duplicate declaration, or the text that remains after the last
/// declaration that could be read (trailing whitespace included).
pub fn parse_contract(input: &str) -> (res: Result<Contract, ContractParseError>)
    ensures
        res matches Ok(c) ==> spec_parse_contract(input@) == Ok::<
            ContractModel,
            ContractParseErrorModel,
        >(c@),
        res matches Err(e) ==> spec_parse_contract(input@) == Err::<
            ContractModel,
            ContractParseErrorModel,
        >(e@),
        res matches Ok(c) ==> c@.wf(),
{
    let s = chars_of(input);
    let (entries, end) = blocks(input, &s, 0);
    proof {
        lemma_assemble_unique(entries@.map_values(|e: Entry| e@), Seq::empty(), Seq::empty());
    }
    let contract = assemble(&entries)?;
    if end == s.len() {
        Ok(contract)
    } else {
        Err(ContractParseError::UnparsedInput(substring(input, end, s.len())))
    }
}

} // verus!
