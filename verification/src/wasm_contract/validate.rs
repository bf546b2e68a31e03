//! Validate a wasm module given a contract.
//!
//! This checks that all imports are specified in the contract and that their
//! types are correct, as well as that the exports the contract names are
//! exported with correct types.

use vstd::prelude::*;
use vstd::string::StringExecFns;
use wasmparser::{
    ExternalKind as Kind, ImportSectionEntryType as Entry, ParserState as State, ValidatingParser,
    WasmDecoder, WasmFuncType,
};
use crate::assoc::{key_index, lemma_key_index, lemma_upsert_keeps_keys, lemma_upsert_lookup, lookup, upsert};
use crate::wasm_contract::{
    find_export, find_import, lemma_export_index, lemma_import_index, Contract, ContractModel,
    Export, ExportModel, Import, ImportModel, WasmType,
};

verus! {

/// An item of a wasm module that contract validation reads, in the order in
/// which the module's binary gives it. Value types are named as the wasm
/// parser names them (`I32`, `F64`, `V128`, ...).
#[derive(Debug, Clone, PartialEq, Eq)]
pub enum WasmEvent {
    /// An entry of the type section.
    Type { params: Vec<String>, results: Vec<String> },
    /// An imported function and the index of its type.
    ImportFunc { module: String, field: String, type_index: u32 },
    /// An imported global and its value type.
    ImportGlobal { module: String, field: String, content_type: String },
    /// An exported function and its index.
    ExportFunc { field: String, index: u32 },
    /// An exported global and its index.
    ExportGlobal { field: String, index: u32 },
    /// A global defined by the module, with its value type.
    GlobalDef { content_type: String },
    /// A function defined by the module, with the index of its type.
    FuncDef { type_index: u32 },
    /// The binary is not a valid module; reading stops here.
    Invalid { error: String },
    /// Anything else that the parser reports, which validation passes over.
    Other,
}

/// Abstract value of a module item.
pub enum WasmEventModel {
    Type { params: Seq<Seq<char>>, results: Seq<Seq<char>> },
    ImportFunc { module: Seq<char>, field: Seq<char>, type_index: u32 },
    ImportGlobal { module: Seq<char>, field: Seq<char>, content_type: Seq<char> },
    ExportFunc { field: Seq<char>, index: u32 },
    ExportGlobal { field: Seq<char>, index: u32 },
    GlobalDef { content_type: Seq<char> },
    FuncDef { type_index: u32 },
    Invalid { error: Seq<char> },
    Other,
    /// The end of the module, which the parser reports once after its last
    /// item; it takes no read after that.
    End,
}

pub open spec fn strings_view(v: Seq<String>) -> Seq<Seq<char>> {
    v.map_values(|s: String| s@)
}

impl View for WasmEvent {
    type V = WasmEventModel;

    open spec fn view(&self) -> WasmEventModel {
        match self {
            WasmEvent::Type { params, results } => WasmEventModel::Type {
                params: strings_view(params@),
                results: strings_view(results@),
            },
            WasmEvent::ImportFunc { module, field, type_index } => WasmEventModel::ImportFunc {
                module: module@,
                field: field@,
                type_index: *type_index,
            },
            WasmEvent::ImportGlobal { module, field, content_type } => WasmEventModel::ImportGlobal {
                module: module@,
                field: field@,
                content_type: content_type@,
            },
            WasmEvent::ExportFunc { field, index } => WasmEventModel::ExportFunc {
                field: field@,
                index: *index,
            },
            WasmEvent::ExportGlobal { field, index } => WasmEventModel::ExportGlobal {
                field: field@,
                index: *index,
            },
            WasmEvent::GlobalDef { content_type } => WasmEventModel::GlobalDef {
                content_type: content_type@,
            },
            WasmEvent::FuncDef { type_index } => WasmEventModel::FuncDef { type_index: *type_index },
            WasmEvent::Invalid { error } => WasmEventModel::Invalid { error: error@ },
            WasmEvent::Other => WasmEventModel::Other,
        }
    }
}

pub open spec fn events_view(v: Seq<WasmEvent>) -> Seq<WasmEventModel> {
    v.map_values(|e: WasmEvent| e@)
}

/// The items that `wasmparser::ValidatingParser` reports for a binary, in
/// order, up to the end of the module or up to and including an error.
pub uninterp spec fn spec_wasm_events(wasm: Seq<u8>) -> Seq<WasmEventModel>;

#[verifier::external_type_specification]
#[verifier::external_body]
pub struct ExValidatingParser<'a>(ValidatingParser<'a>);

/// The items that a validating parser has still to report.
pub uninterp spec fn pending_events(p: ValidatingParser<'_>) -> Seq<WasmEventModel>;

/// The item that a validating parser reported last.
pub uninterp spec fn last_event(p: ValidatingParser<'_>) -> WasmEventModel;

/// What kind of item the parser reported, or that it reached the end.
#[derive(Debug, Clone, Copy, PartialEq, Eq, Structural)]
pub enum EventKind {
    End,
    Invalid,
    Type,
    ImportFunc,
    ImportGlobal,
    ExportFunc,
    ExportGlobal,
    GlobalDef,
    FuncDef,
    Other,
}

pub open spec fn kind_of(e: WasmEventModel) -> EventKind {
    match e {
        WasmEventModel::Type { .. } => EventKind::Type,
        WasmEventModel::ImportFunc { .. } => EventKind::ImportFunc,
        WasmEventModel::ImportGlobal { .. } => EventKind::ImportGlobal,
        WasmEventModel::ExportFunc { .. } => EventKind::ExportFunc,
        WasmEventModel::ExportGlobal { .. } => EventKind::ExportGlobal,
        WasmEventModel::GlobalDef { .. } => EventKind::GlobalDef,
        WasmEventModel::FuncDef { .. } => EventKind::FuncDef,
        WasmEventModel::Invalid { .. } => EventKind::Invalid,
        WasmEventModel::Other => EventKind::Other,
        WasmEventModel::End => EventKind::End,
    }
}

/// `ValidatingParser::new` over the binary, without a configuration.
/// Claimed: what the parser will report is `spec_wasm_events` of the bytes,
/// items only (the end is reported after them), and nothing has been
/// reported yet.
#[verifier::external_body]
fn open_parser<'a>(wasm: &'a [u8]) -> (res: ValidatingParser<'a>)
    ensures
        pending_events(res) == spec_wasm_events(wasm@),
        forall|i: int| 0 <= i < pending_events(res).len() ==> !(#[trigger] pending_events(res)[i] is End),
        last_event(res) == WasmEventModel::Other,
{
    ValidatingParser::new(wasm, None)
}

/// `WasmDecoder::read` on the parser, telling the kind of state it reaches.
/// Claimed: when no item is left it reports the end, which becomes the last
/// thing reported, and the items left stay none; otherwise it reports the
/// next item, which becomes the last one. It is not called after an error or
/// after the end, where `read` panics.
#[verifier::external_body]
fn advance(p: &mut ValidatingParser<'_>) -> (res: EventKind)
    requires
        !(last_event(*old(p)) is Invalid),
        !(last_event(*old(p)) is End),
    ensures
        pending_events(*old(p)).len() == 0 ==> res == EventKind::End && pending_events(*final(p))
            == pending_events(*old(p)) && last_event(*final(p)) == WasmEventModel::End,
        pending_events(*old(p)).len() > 0 ==> res == kind_of(pending_events(*old(p))[0])
            && pending_events(*final(p)) == pending_events(*old(p)).drop_first() && last_event(
            *final(p),
        ) == pending_events(*old(p))[0],
        last_event(*final(p)) is Invalid ==> pending_events(*final(p)).len() == 0,
{
    match p.read() {
        State::EndWasm => EventKind::End,
        State::Error(_) => EventKind::Invalid,
        State::TypeSectionEntry(_) => EventKind::Type,
        State::ImportSectionEntry { ty: Entry::Function(_), .. } => EventKind::ImportFunc,
        State::ImportSectionEntry { ty: Entry::Global(_), .. } => EventKind::ImportGlobal,
        State::ExportSectionEntry { kind: Kind::Function, .. } => EventKind::ExportFunc,
        State::ExportSectionEntry { kind: Kind::Global, .. } => EventKind::ExportGlobal,
        State::BeginGlobalSectionEntry(_) => EventKind::GlobalDef,
        State::FunctionSectionEntry(_) => EventKind::FuncDef,
        _ => EventKind::Other,
    }
}

/// The message of the error that the parser reported last (`last_state`).
#[verifier::external_body]
fn last_error(p: &ValidatingParser<'_>) -> (res: String)
    requires
        last_event(*p) is Invalid,
    ensures
        res@ == last_event(*p)->Invalid_error,
{
    match p.last_state() {
        State::Error(e) => e.to_string(),
        _ => String::new(),
    }
}

/// The parameter and result type names of the type section entry that the
/// parser reported last, each written as `Debug` writes `wasmparser::Type`.
#[verifier::external_body]
fn last_signature(p: &ValidatingParser<'_>) -> (res: (Vec<String>, Vec<String>))
    requires
        last_event(*p) is Type,
    ensures
        strings_view(res.0@) == last_event(*p)->Type_params,
        strings_view(res.1@) == last_event(*p)->Type_results,
{
    let n = |t: &wasmparser::Type| format!("{:?}", t);
    match p.last_state() {
        State::TypeSectionEntry(f) => (
            f.params.iter().map(n).collect(),
            (0..f.len_outputs()).map(|i| n(f.output_at(i as u32).unwrap())).collect(),
        ),
        _ => (Vec::new(), Vec::new()),
    }
}

/// The module and field names of the import that the parser reported last.
#[verifier::external_body]
fn last_import_names(p: &ValidatingParser<'_>) -> (res: (String, String))
    requires
        last_event(*p) is ImportFunc || last_event(*p) is ImportGlobal,
    ensures
        last_event(*p) is ImportFunc ==> res.0@ == last_event(*p)->ImportFunc_module && res.1@
            == last_event(*p)->ImportFunc_field,
        last_event(*p) is ImportGlobal ==> res.0@ == last_event(*p)->ImportGlobal_module && res.1@
            == last_event(*p)->ImportGlobal_field,
{
    match p.last_state() {
        State::ImportSectionEntry { module, field, .. } => (module.to_string(), field.to_string()),
        _ => (String::new(), String::new()),
    }
}

/// The type index of the imported function that the parser reported last.
#[verifier::external_body]
fn last_import_type_index(p: &ValidatingParser<'_>) -> (res: u32)
    requires
        last_event(*p) is ImportFunc,
    ensures
        res == last_event(*p)->ImportFunc_type_index,
{
    match p.last_state() {
        State::ImportSectionEntry { ty: Entry::Function(i), .. } => *i,
        _ => 0,
    }
}

/// The value type name (as `Debug` writes it) of the imported or defined
/// global that the parser reported last.
#[verifier::external_body]
fn last_global_type(p: &ValidatingParser<'_>) -> (res: String)
    requires
        last_event(*p) is ImportGlobal || last_event(*p) is GlobalDef,
    ensures
        last_event(*p) is ImportGlobal ==> res@ == last_event(*p)->ImportGlobal_content_type,
        last_event(*p) is GlobalDef ==> res@ == last_event(*p)->GlobalDef_content_type,
{
    match p.last_state() {
        State::ImportSectionEntry { ty: Entry::Global(g), .. } => format!("{:?}", g.content_type),
        State::BeginGlobalSectionEntry(g) => format!("{:?}", g.content_type),
        _ => String::new(),
    }
}

/// The field name and index of the export that the parser reported last.
#[verifier::external_body]
fn last_export(p: &ValidatingParser<'_>) -> (res: (String, u32))
    requires
        last_event(*p) is ExportFunc || last_event(*p) is ExportGlobal,
    ensures
        last_event(*p) is ExportFunc ==> res.0@ == last_event(*p)->ExportFunc_field && res.1
            == last_event(*p)->ExportFunc_index,
        last_event(*p) is ExportGlobal ==> res.0@ == last_event(*p)->ExportGlobal_field && res.1
            == last_event(*p)->ExportGlobal_index,
{
    match p.last_state() {
        State::ExportSectionEntry { field, index, .. } => (field.to_string(), *index),
        _ => (String::new(), 0),
    }
}

/// The type index of the function section entry that the parser reported
/// last.
#[verifier::external_body]
fn last_func_type_index(p: &ValidatingParser<'_>) -> (res: u32)
    requires
        last_event(*p) is FuncDef,
    ensures
        res == last_event(*p)->FuncDef_type_index,
{
    match p.last_state() {
        State::FunctionSectionEntry(i) => *i,
        _ => 0,
    }
}

/// The item that the parser reported last, read through its accessors.
fn current_event(p: &ValidatingParser<'_>, kind: EventKind) -> (res: WasmEvent)
    requires
        kind != EventKind::End,
        kind == kind_of(last_event(*p)),
    ensures
        res@ == last_event(*p),
{
    match kind {
        EventKind::Invalid => WasmEvent::Invalid { error: last_error(p) },
        EventKind::Type => {
            let (params, results) = last_signature(p);
            WasmEvent::Type { params, results }
        },
        EventKind::ImportFunc => {
            let (module, field) = last_import_names(p);
            WasmEvent::ImportFunc { module, field, type_index: last_import_type_index(p) }
        },
        EventKind::ImportGlobal => {
            let (module, field) = last_import_names(p);
            WasmEvent::ImportGlobal { module, field, content_type: last_global_type(p) }
        },
        EventKind::ExportFunc => {
            let (field, index) = last_export(p);
            WasmEvent::ExportFunc { field, index }
        },
        EventKind::ExportGlobal => {
            let (field, index) = last_export(p);
            WasmEvent::ExportGlobal { field, index }
        },
        EventKind::GlobalDef => WasmEvent::GlobalDef { content_type: last_global_type(p) },
        EventKind::FuncDef => WasmEvent::FuncDef { type_index: last_func_type_index(p) },
        _ => WasmEvent::Other,
    }
}

/// Every item that the validating parser reports for the binary, in order.
pub fn read_wasm_events(wasm: &[u8]) -> (res: Vec<WasmEvent>)
    ensures
        events_view(res@) == spec_wasm_events(wasm@),
{
    let mut p = open_parser(wasm);
    let mut out: Vec<WasmEvent> = Vec::new();
    let ghost all = spec_wasm_events(wasm@);
    assert(events_view(out@) + pending_events(p) =~= all);
    loop
        invariant
            all == spec_wasm_events(wasm@),
            events_view(out@) + pending_events(p) == all,
            forall|i: int| 0 <= i < pending_events(p).len() ==> !(#[trigger] pending_events(p)[i] is End),
            !(last_event(p) is Invalid),
            !(last_event(p) is End),
        decreases pending_events(p).len(),
    {
        let ghost before = pending_events(p);
        let kind = advance(&mut p);
        if kind == EventKind::End {
            assert(events_view(out@) =~= all);
            return out;
        }
        let e = current_event(&p, kind);
        let ghost old_out = out@;
        out.push(e);
        assert(events_view(out@) =~= events_view(old_out).push(before[0]));
        assert(events_view(out@) + pending_events(p) =~= all) by {
            assert(before =~= seq![before[0]] + before.drop_first());
        }
        if kind == EventKind::Invalid {
            assert(events_view(out@) =~= all);
            return out;
        }
    }
}

/// The function whose signature a violation concerns.
#[derive(Debug, Clone, PartialEq, Eq)]
pub enum FuncRef {
    Imported { namespace: String, name: String },
    Exported { name: String },
}

pub enum FuncRefModel {
    Imported { namespace: Seq<char>, name: Seq<char> },
    Exported { name: Seq<char> },
}

impl View for FuncRef {
    type V = FuncRefModel;

    open spec fn view(&self) -> FuncRefModel {
        match self {
            FuncRef::Imported { namespace, name } => FuncRefModel::Imported {
                namespace: namespace@,
                name: name@,
            },
            FuncRef::Exported { name } => FuncRefModel::Exported { name: name@ },
        }
    }
}

/// A way in which a module breaks its contract.
#[derive(Debug, Clone, PartialEq, Eq)]
pub enum ContractViolation {
    /// An imported global's type differs from the contract's.
    GlobalImportTypeMismatch { field: String, expected: WasmType, found: WasmType },
    /// The module imports a global where the contract declares this import.
    ImportNotGlobal { found: Import },
    /// The module imports a function where the contract declares this
    /// import as a global.
    ImportNotFunc { found: Import },
    /// The module imports a global that the contract does not declare.
    GlobalImportNotInContract { field: String },
    /// A function refers to a type that the type section lacks.
    InvalidTypeReference { index: u32 },
    /// An export refers to a function that the module lacks.
    InvalidFunctionReference { index: u32 },
    /// The signature has a type at position `found` but the contract lists
    /// only `expected` (`results` tells parameters from results).
    ExtraType { in_results: bool, found: usize, expected: usize, func: FuncRef },
    /// The signature has `found` types where the contract lists `expected`,
    /// more.
    MissingType { in_results: bool, found: usize, expected: usize, func: FuncRef },
    /// A type of the signature differs from the contract's.
    TypeMismatch { in_results: bool, func: FuncRef },
    /// A type of the signature is not one that contracts can state.
    InvalidType { func: FuncRef, error: String },
    /// The module imports a function that the contract does not declare.
    MissingImport { namespace: String, name: String },
    /// An exported global's type differs from the contract's.
    GlobalExportTypeMismatch { name: String, expected: WasmType, found: WasmType },
    /// An exported global's type is not one that contracts can state.
    GlobalExportInvalidType { name: String, error: String },
    /// The module does not export something that the contract declares.
    MissingExport { name: String },
}

pub enum ViolationModel {
    GlobalImportTypeMismatch { field: Seq<char>, expected: WasmType, found: WasmType },
    ImportNotGlobal { found: ImportModel },
    ImportNotFunc { found: ImportModel },
    GlobalImportNotInContract { field: Seq<char> },
    InvalidTypeReference { index: u32 },
    InvalidFunctionReference { index: u32 },
    ExtraType { in_results: bool, found: nat, expected: nat, func: FuncRefModel },
    MissingType { in_results: bool, found: nat, expected: nat, func: FuncRefModel },
    TypeMismatch { in_results: bool, func: FuncRefModel },
    InvalidType { func: FuncRefModel, error: Seq<char> },
    MissingImport { namespace: Seq<char>, name: Seq<char> },
    GlobalExportTypeMismatch { name: Seq<char>, expected: WasmType, found: WasmType },
    GlobalExportInvalidType { name: Seq<char>, error: Seq<char> },
    MissingExport { name: Seq<char> },
}

impl View for ContractViolation {
    type V = ViolationModel;

    open spec fn view(&self) -> ViolationModel {
        match self {
            ContractViolation::GlobalImportTypeMismatch { field, expected, found } =>
                ViolationModel::GlobalImportTypeMismatch {
                field: field@,
                expected: *expected,
                found: *found,
            },
            ContractViolation::ImportNotFunc { found } => ViolationModel::ImportNotFunc { found: found@ },
            ContractViolation::ImportNotGlobal { found } => ViolationModel::ImportNotGlobal {
                found: found@,
            },
            ContractViolation::GlobalImportNotInContract { field } =>
                ViolationModel::GlobalImportNotInContract { field: field@ },
            ContractViolation::InvalidTypeReference { index } =>
                ViolationModel::InvalidTypeReference { index: *index },
            ContractViolation::InvalidFunctionReference { index } =>
                ViolationModel::InvalidFunctionReference { index: *index },
            ContractViolation::ExtraType { in_results, found, expected, func } =>
                ViolationModel::ExtraType {
                in_results: *in_results,
                found: *found as nat,
                expected: *expected as nat,
                func: func@,
            },
            ContractViolation::MissingType { in_results, found, expected, func } =>
                ViolationModel::MissingType {
                in_results: *in_results,
                found: *found as nat,
                expected: *expected as nat,
                func: func@,
            },
            ContractViolation::TypeMismatch { in_results, func } => ViolationModel::TypeMismatch {
                in_results: *in_results,
                func: func@,
            },
            ContractViolation::InvalidType { func, error } => ViolationModel::InvalidType {
                func: func@,
                error: error@,
            },
            ContractViolation::MissingImport { namespace, name } => ViolationModel::MissingImport {
                namespace: namespace@,
                name: name@,
            },
            ContractViolation::GlobalExportTypeMismatch { name, expected, found } =>
                ViolationModel::GlobalExportTypeMismatch {
                name: name@,
                expected: *expected,
                found: *found,
            },
            ContractViolation::GlobalExportInvalidType { name, error } =>
                ViolationModel::GlobalExportInvalidType { name: name@, error: error@ },
            ContractViolation::MissingExport { name } => ViolationModel::MissingExport {
                name: name@,
            },
        }
    }
}

pub open spec fn violations_view(v: Seq<ContractViolation>) -> Seq<ViolationModel> {
    v.map_values(|e: ContractViolation| e@)
}

/// Why a module was refused.
#[derive(Debug, Clone, PartialEq, Eq)]
pub enum WasmValidationError {
    /// The binary is not valid wasm.
    InvalidWasm { error: String },
    /// The module breaks the contract in the ways listed.
    ContractViolated { errors: Vec<ContractViolation> },
    /// An imported global has a type that contracts cannot state.
    UnsupportedType { error: String },
}

pub enum WasmValidationErrorModel {
    InvalidWasm { error: Seq<char> },
    ContractViolated { errors: Seq<ViolationModel> },
    UnsupportedType { error: Seq<char> },
}

impl View for WasmValidationError {
    type V = WasmValidationErrorModel;

    open spec fn view(&self) -> WasmValidationErrorModel {
        match self {
            WasmValidationError::InvalidWasm { error } => WasmValidationErrorModel::InvalidWasm {
                error: error@,
            },
            WasmValidationError::ContractViolated { errors } =>
                WasmValidationErrorModel::ContractViolated { errors: violations_view(errors@) },
            WasmValidationError::UnsupportedType { error } =>
                WasmValidationErrorModel::UnsupportedType { error: error@ },
        }
    }
}

/// The contract's value type for a type that the wasm parser names, or the
/// message for a type that contracts cannot state.
pub open spec fn spec_convert_type(name: Seq<char>) -> Result<WasmType, Seq<char>> {
    if name == seq!['I', '3', '2'] {
        Ok(WasmType::I32)
    } else if name == seq!['I', '6', '4'] {
        Ok(WasmType::I64)
    } else if name == seq!['F', '3', '2'] {
        Ok(WasmType::F32)
    } else if name == seq!['F', '6', '4'] {
        Ok(WasmType::F64)
    } else {
        Err("Invalid type found: "@ + name)
    }
}

/// Converts a type named by the wasm parser into the contract's value type.
pub fn wasmparser_type_into_wasm_type(name: &String) -> (res: Result<WasmType, String>)
    ensures
        res matches Ok(t) ==> spec_convert_type(name@) == Ok::<WasmType, Seq<char>>(t),
        res matches Err(e) ==> spec_convert_type(name@) == Err::<WasmType, Seq<char>>(e@),
{
    proof {
        reveal_strlit("I32");
        reveal_strlit("I64");
        reveal_strlit("F32");
        reveal_strlit("F64");
    }
    let n = name.as_str();
    if n.unicode_len() == 3 {
        let (a, b, c) = (n.get_char(0), n.get_char(1), n.get_char(2));
        if b == '3' && c == '2' && (a == 'I' || a == 'F') {
            assert(name@ =~= seq![a, b, c]);
            return Ok(if a == 'I' { WasmType::I32 } else { WasmType::F32 });
        }
        if b == '6' && c == '4' && (a == 'I' || a == 'F') {
            assert(name@ =~= seq![a, b, c]);
            return Ok(if a == 'I' { WasmType::I64 } else { WasmType::F64 });
        }
        assert(name@ != seq!['I', '3', '2'] && name@ != seq!['F', '3', '2']) by {
            if name@ == seq!['I', '3', '2'] || name@ == seq!['F', '3', '2'] {
                assert(name@[1] == '3');
            }
        }
        assert(name@ != seq!['I', '6', '4'] && name@ != seq!['F', '6', '4']) by {
            if name@ == seq!['I', '6', '4'] || name@ == seq!['F', '6', '4'] {
                assert(name@[1] == '6');
            }
        }
    }
    Err(String::from_str("Invalid type found: ").concat(n))
}


/// What validation has gathered from the module so far.
pub struct ItemsModel {
    /// Imported functions by namespace and name, with their type index.
    pub import_fns: Seq<((Seq<char>, Seq<char>), u32)>,
    /// Exported functions by name, with their index.
    pub export_fns: Seq<(Seq<char>, u32)>,
    /// Exported globals by name, with their index.
    pub export_globals: Seq<(Seq<char>, u32)>,
    /// The type section: parameter and result type names of each entry.
    pub type_defs: Seq<(Seq<Seq<char>>, Seq<Seq<char>>)>,
    /// The type index of each function, by function index: the imported
    /// functions first, then those the module defines.
    pub func_types: Seq<u32>,
    /// Value type names of the globals, by global index: the imported
    /// globals first, then those the module defines.
    pub global_types: Seq<Seq<char>>,
    /// Violations found while reading imported globals.
    pub errors: Seq<ViolationModel>,
}

pub open spec fn empty_items() -> ItemsModel {
    ItemsModel {
        import_fns: seq![],
        export_fns: seq![],
        export_globals: seq![],
        type_defs: seq![],
        func_types: seq![],
        global_types: seq![],
        errors: seq![],
    }
}

/// Violations that an imported global gives, once its type is known.
pub open spec fn global_import_errors(
    c: ContractModel,
    module: Seq<char>,
    field: Seq<char>,
    found: WasmType,
) -> Seq<ViolationModel> {
    match c.import_for((module, field)) {
        Some(ImportModel::Global { var_type, .. }) => if var_type != found {
            seq![ViolationModel::GlobalImportTypeMismatch { field, expected: var_type, found }]
        } else {
            seq![]
        },
        Some(other) => seq![ViolationModel::ImportNotGlobal { found: other }],
        None => seq![ViolationModel::GlobalImportNotInContract { field }],
    }
}

/// Message for an imported global whose type contracts cannot state.
pub open spec fn unsupported_import_message(
    module: Seq<char>,
    field: Seq<char>,
    err: Seq<char>,
) -> Seq<char> {
    "Invalid type found in import \""@ + module + "\" \""@ + field + "\": "@ + err
}

/// Reading one item of the module.
pub open spec fn step(st: ItemsModel, e: WasmEventModel, c: ContractModel) -> Result<
    ItemsModel,
    WasmValidationErrorModel,
> {
    match e {
        WasmEventModel::Type { params, results } => Ok(
            ItemsModel { type_defs: st.type_defs.push((params, results)), ..st },
        ),
        WasmEventModel::ImportFunc { module, field, type_index } => Ok(
            ItemsModel {
                import_fns: upsert(st.import_fns, (module, field), type_index),
                func_types: st.func_types.push(type_index),
                ..st
            },
        ),
        WasmEventModel::FuncDef { type_index } => Ok(
            ItemsModel { func_types: st.func_types.push(type_index), ..st },
        ),
        WasmEventModel::ImportGlobal { module, field, content_type } => match spec_convert_type(
            content_type,
        ) {
            Ok(t) => Ok(
                ItemsModel {
                    errors: st.errors + global_import_errors(c, module, field, t),
                    global_types: st.global_types.push(content_type),
                    ..st
                },
            ),
            Err(err) => Err(
                WasmValidationErrorModel::UnsupportedType {
                    error: unsupported_import_message(module, field, err),
                },
            ),
        },
        WasmEventModel::ExportFunc { field, index } => Ok(
            ItemsModel { export_fns: upsert(st.export_fns, field, index), ..st },
        ),
        WasmEventModel::ExportGlobal { field, index } => Ok(
            ItemsModel { export_globals: upsert(st.export_globals, field, index), ..st },
        ),
        WasmEventModel::GlobalDef { content_type } => Ok(
            ItemsModel { global_types: st.global_types.push(content_type), ..st },
        ),
        WasmEventModel::Invalid { error } => Err(WasmValidationErrorModel::InvalidWasm { error }),
        WasmEventModel::Other => Ok(st),
        WasmEventModel::End => Ok(st),
    }
}

/// Reading the module's items in order; the first refusal ends it.
pub open spec fn collect(events: Seq<WasmEventModel>, c: ContractModel) -> Result<
    ItemsModel,
    WasmValidationErrorModel,
>
    decreases events.len(),
{
    if events.len() == 0 {
        Ok(empty_items())
    } else {
        match collect(events.drop_last(), c) {
            Ok(st) => step(st, events.last(), c),
            Err(e) => Err(e),
        }
    }
}

/// Violation for the type at position `i` of a signature, checked against
/// the contract's list `expected`; `reported` is the count that an
/// `ExtraType` violation names.
pub open spec fn type_error(
    i: int,
    name: Seq<char>,
    expected: Seq<WasmType>,
    reported: nat,
    in_results: bool,
    func: FuncRefModel,
) -> Seq<ViolationModel> {
    match spec_convert_type(name) {
        Ok(t) => if i >= expected.len() {
            seq![ViolationModel::ExtraType { in_results, found: i as nat, expected: reported, func }]
        } else if t != expected[i] {
            seq![ViolationModel::TypeMismatch { in_results, func }]
        } else {
            seq![]
        },
        Err(error) => seq![ViolationModel::InvalidType { func, error }],
    }
}

/// Violations of a list of signature types, position by position.
pub open spec fn sig_errors(
    sig: Seq<Seq<char>>,
    expected: Seq<WasmType>,
    reported: nat,
    in_results: bool,
    func: FuncRefModel,
) -> Seq<ViolationModel>
    decreases sig.len(),
{
    if sig.len() == 0 {
        seq![]
    } else {
        sig_errors(sig.drop_last(), expected, reported, in_results, func) + type_error(
            sig.len() - 1,
            sig.last(),
            expected,
            reported,
            in_results,
            func,
        )
    }
}

/// Violations of a function signature against the contract's parameters and
/// results. An extra type names the count of the contract's list it exceeds.
pub open spec fn func_errors(
    sig: (Seq<Seq<char>>, Seq<Seq<char>>),
    params: Seq<WasmType>,
    result: Seq<WasmType>,
    func: FuncRefModel,
) -> Seq<ViolationModel> {
    sig_errors(sig.0, params, params.len(), false, func) + short_errors(sig.0.len(), params.len(), false, func)
        + sig_errors(sig.1, result, result.len(), true, func) + short_errors(
        sig.1.len(),
        result.len(),
        true,
        func,
    )
}

/// The violation of a signature list with fewer types than the contract's.
pub open spec fn short_errors(found: nat, expected: nat, in_results: bool, func: FuncRefModel) -> Seq<
    ViolationModel,
> {
    if found < expected {
        seq![ViolationModel::MissingType { in_results, found, expected, func }]
    } else {
        seq![]
    }
}

/// Violations of one imported function: the contract must declare it, as a
/// function, with the function's signature.
pub open spec fn import_entry_errors(
    entry: ((Seq<char>, Seq<char>), u32),
    type_defs: Seq<(Seq<Seq<char>>, Seq<Seq<char>>)>,
    c: ContractModel,
) -> Seq<ViolationModel> {
    let ((namespace, name), index) = entry;
    match c.import_for((namespace, name)) {
        None => seq![ViolationModel::MissingImport { namespace, name }],
        Some(def) => match def {
            ImportModel::Global { .. } => seq![ViolationModel::ImportNotFunc { found: def }],
            ImportModel::Func { params, result, .. } => if index >= type_defs.len() {
                seq![ViolationModel::InvalidTypeReference { index }]
            } else {
                func_errors(type_defs[index as int], params, result, FuncRefModel::Imported { namespace, name })
            },
        },
    }
}

/// Violations of the imported functions, in the order the module first names them.
pub open spec fn import_errors(
    fns: Seq<((Seq<char>, Seq<char>), u32)>,
    type_defs: Seq<(Seq<Seq<char>>, Seq<Seq<char>>)>,
    c: ContractModel,
) -> Seq<ViolationModel>
    decreases fns.len(),
{
    if fns.len() == 0 {
        seq![]
    } else {
        import_errors(fns.drop_last(), type_defs, c) + import_entry_errors(fns.last(), type_defs, c)
    }
}

/// Violations of one exported function. An export that the contract does not
/// name is no violation. The function's type index is found by its function
/// index, and its type in the type section.
pub open spec fn export_fn_entry_errors(
    entry: (Seq<char>, u32),
    func_types: Seq<u32>,
    type_defs: Seq<(Seq<Seq<char>>, Seq<Seq<char>>)>,
    c: ContractModel,
) -> Seq<ViolationModel> {
    let (name, index) = entry;
    match c.export_for(name) {
        None => seq![],
        Some(def) => if index >= func_types.len() {
            seq![ViolationModel::InvalidFunctionReference { index }]
        } else if func_types[index as int] >= type_defs.len() {
            seq![ViolationModel::InvalidTypeReference { index: func_types[index as int] }]
        } else {
            match def {
                ExportModel::Func { params, result, .. } => func_errors(
                    type_defs[func_types[index as int] as int],
                    params,
                    result,
                    FuncRefModel::Exported { name },
                ),
                ExportModel::Global { .. } => seq![],
            }
        },
    }
}

pub open spec fn export_fn_errors(
    fns: Seq<(Seq<char>, u32)>,
    func_types: Seq<u32>,
    type_defs: Seq<(Seq<Seq<char>>, Seq<Seq<char>>)>,
    c: ContractModel,
) -> Seq<ViolationModel>
    decreases fns.len(),
{
    if fns.len() == 0 {
        seq![]
    } else {
        export_fn_errors(fns.drop_last(), func_types, type_defs, c) + export_fn_entry_errors(
            fns.last(),
            func_types,
            type_defs,
            c,
        )
    }
}

/// An exported global that the contract declares as a global refers to a
/// global of the module, imported or defined.
pub open spec fn export_global_in_range(
    entry: (Seq<char>, u32),
    global_types: Seq<Seq<char>>,
    c: ContractModel,
) -> bool {
    c.export_for(entry.0) matches Some(ExportModel::Global { .. }) ==> entry.1 < global_types.len()
}

/// Violations of one exported global.
pub open spec fn export_global_entry_errors(
    entry: (Seq<char>, u32),
    global_types: Seq<Seq<char>>,
    c: ContractModel,
) -> Seq<ViolationModel> {
    let (name, index) = entry;
    match c.export_for(name) {
        Some(ExportModel::Global { var_type, .. }) => match spec_convert_type(
            global_types[index as int],
        ) {
            Ok(t) => if var_type != t {
                seq![ViolationModel::GlobalExportTypeMismatch { name, expected: var_type, found: t }]
            } else {
                seq![]
            },
            Err(error) => seq![ViolationModel::GlobalExportInvalidType { name, error }],
        },
        _ => seq![],
    }
}

pub open spec fn export_global_errors(
    globals: Seq<(Seq<char>, u32)>,
    global_types: Seq<Seq<char>>,
    c: ContractModel,
) -> Seq<ViolationModel>
    decreases globals.len(),
{
    if globals.len() == 0 {
        seq![]
    } else {
        export_global_errors(globals.drop_last(), global_types, c) + export_global_entry_errors(
            globals.last(),
            global_types,
            c,
        )
    }
}

/// Whether the module exports what a contract export declares: a function
/// among its exported functions, a global among its exported globals.
pub open spec fn export_present(e: ExportModel, st: ItemsModel) -> bool {
    match e {
        ExportModel::Func { name, .. } => key_index(st.export_fns, name) >= 0,
        ExportModel::Global { name, .. } => key_index(st.export_globals, name) >= 0,
    }
}

/// Violations for the contract's exports that the module lacks, in the
/// contract's order.
pub open spec fn missing_export_errors(exports: Seq<ExportModel>, st: ItemsModel) -> Seq<
    ViolationModel,
>
    decreases exports.len(),
{
    if exports.len() == 0 {
        seq![]
    } else {
        missing_export_errors(exports.drop_last(), st) + if export_present(exports.last(), st) {
            seq![]
        } else {
            seq![ViolationModel::MissingExport { name: exports.last().key() }]
        }
    }
}

/// Every violation of a fully read module: those of imported globals, of
/// imported functions, of exported functions and of exported globals, then
/// the contract's exports that the module lacks.
pub open spec fn all_errors(st: ItemsModel, c: ContractModel) -> Seq<ViolationModel> {
    st.errors + import_errors(st.import_fns, st.type_defs, c) + export_fn_errors(
        st.export_fns,
        st.func_types,
        st.type_defs,
        c,
    ) + export_global_errors(st.export_globals, st.global_types, c) + missing_export_errors(
        c.exports,
        st,
    )
}

/// Validation can be carried out: no exported global that the contract
/// declares refers past the module's globals, imported or defined.
pub open spec fn validation_defined(events: Seq<WasmEventModel>, c: ContractModel) -> bool {
    match collect(events, c) {
        Ok(st) => forall|k: int|
            0 <= k < st.export_globals.len() ==> #[trigger] export_global_in_range(
                st.export_globals[k],
                st.global_types,
                c,
            ),
        Err(_) => true,
    }
}

/// The outcome of validating a module whose items are `events`.
pub open spec fn spec_validate(events: Seq<WasmEventModel>, c: ContractModel) -> Result<
    (),
    WasmValidationErrorModel,
> {
    match collect(events, c) {
        Err(e) => Err(e),
        Ok(st) => if all_errors(st, c).len() == 0 {
            Ok(())
        } else {
            Err(WasmValidationErrorModel::ContractViolated { errors: all_errors(st, c) })
        },
    }
}


/// Copies a list of violations.
pub fn copy_violations(v: &Vec<ContractViolation>) -> (res: Vec<ContractViolation>)
    ensures
        violations_view(res@) == violations_view(v@),
{
    let mut res: Vec<ContractViolation> = Vec::new();
    for i in 0..v.len()
        invariant
            res@.len() == i,
            violations_view(res@) == violations_view(v@).take(i as int),
    {
        let c = v[i].duplicate();
        let ghost old_res = res@;
        res.push(c);
        assert(violations_view(res@) =~= violations_view(v@).take(i + 1)) by {
            assert forall|j: int| 0 <= j < i + 1 implies violations_view(res@)[j]
                == violations_view(v@).take(i + 1)[j] by {
                if j < i {
                    assert(violations_view(res@)[j] == res@[j]@);
                    assert(violations_view(old_res)[j] == old_res[j]@);
                }
            }
        }
    }
    assert(violations_view(v@).take(v.len() as int) =~= violations_view(v@));
    res
}

impl ContractViolation {
    /// An independent copy of this violation.
    pub fn duplicate(&self) -> (res: ContractViolation)
        ensures
            res@ == self@,
    {
        match self {
            ContractViolation::GlobalImportTypeMismatch { field, expected, found } =>
                ContractViolation::GlobalImportTypeMismatch {
                field: field.clone(),
                expected: *expected,
                found: *found,
            },
            ContractViolation::ImportNotFunc { found } => ContractViolation::ImportNotFunc {
                found: found.duplicate(),
            },
            ContractViolation::ImportNotGlobal { found } => ContractViolation::ImportNotGlobal {
                found: found.duplicate(),
            },
            ContractViolation::GlobalImportNotInContract { field } =>
                ContractViolation::GlobalImportNotInContract { field: field.clone() },
            ContractViolation::InvalidTypeReference { index } =>
                ContractViolation::InvalidTypeReference { index: *index },
            ContractViolation::InvalidFunctionReference { index } =>
                ContractViolation::InvalidFunctionReference { index: *index },
            ContractViolation::ExtraType { in_results, found, expected, func } =>
                ContractViolation::ExtraType {
                in_results: *in_results,
                found: *found,
                expected: *expected,
                func: func.duplicate(),
            },
            ContractViolation::MissingType { in_results, found, expected, func } =>
                ContractViolation::MissingType {
                in_results: *in_results,
                found: *found,
                expected: *expected,
                func: func.duplicate(),
            },
            ContractViolation::TypeMismatch { in_results, func } => ContractViolation::TypeMismatch {
                in_results: *in_results,
                func: func.duplicate(),
            },
            ContractViolation::InvalidType { func, error } => ContractViolation::InvalidType {
                func: func.duplicate(),
                error: error.clone(),
            },
            ContractViolation::MissingImport { namespace, name } =>
                ContractViolation::MissingImport { namespace: namespace.clone(), name: name.clone() },
            ContractViolation::GlobalExportTypeMismatch { name, expected, found } =>
                ContractViolation::GlobalExportTypeMismatch {
                name: name.clone(),
                expected: *expected,
                found: *found,
            },
            ContractViolation::GlobalExportInvalidType { name, error } =>
                ContractViolation::GlobalExportInvalidType { name: name.clone(), error: error.clone() },
            ContractViolation::MissingExport { name } => ContractViolation::MissingExport {
                name: name.clone(),
            },
        }
    }
}

impl FuncRef {
    /// An independent copy of this reference.
    pub fn duplicate(&self) -> (res: FuncRef)
        ensures
            res@ == self@,
    {
        match self {
            FuncRef::Imported { namespace, name } => FuncRef::Imported {
                namespace: namespace.clone(),
                name: name.clone(),
            },
            FuncRef::Exported { name } => FuncRef::Exported { name: name.clone() },
        }
    }
}

/// Copies a list of strings.
pub fn copy_strings(v: &Vec<String>) -> (res: Vec<String>)
    ensures
        strings_view(res@) == strings_view(v@),
{
    let mut res: Vec<String> = Vec::new();
    for i in 0..v.len()
        invariant
            res@.len() == i,
            strings_view(res@) == strings_view(v@).take(i as int),
    {
        let c = v[i].clone();
        let ghost old_res = res@;
        res.push(c);
        assert(res@ == old_res.push(c));
        assert(c@ == v@[i as int]@);
        assert(strings_view(res@) =~= strings_view(v@).take(i + 1)) by {
            assert(strings_view(res@).len() == i + 1);
            assert forall|j: int| 0 <= j < i + 1 implies strings_view(res@)[j] == strings_view(
                v@,
            ).take(i + 1)[j] by {
                if j < i {
                    assert(strings_view(res@)[j] == res@[j]@);
                    assert(strings_view(old_res)[j] == old_res[j]@);
                }
            }
        }
    }
    assert(strings_view(v@).take(v.len() as int) =~= strings_view(v@));
    res
}

pub open spec fn pair_keys_view(v: Seq<((String, String), u32)>) -> Seq<
    ((Seq<char>, Seq<char>), u32),
> {
    v.map_values(|e: ((String, String), u32)| ((e.0.0@, e.0.1@), e.1))
}

pub open spec fn keys_view(v: Seq<(String, u32)>) -> Seq<(Seq<char>, u32)> {
    v.map_values(|e: (String, u32)| (e.0@, e.1))
}

pub open spec fn sigs_view(v: Seq<(Vec<String>, Vec<String>)>) -> Seq<
    (Seq<Seq<char>>, Seq<Seq<char>>),
> {
    v.map_values(|e: (Vec<String>, Vec<String>)| (strings_view(e.0@), strings_view(e.1@)))
}

/// Sets the type index of an imported function, keyed by namespace and name.
fn upsert_import_fn(m: &mut Vec<((String, String), u32)>, namespace: String, name: String, v: u32)
    ensures
        pair_keys_view(final(m)@) == upsert(pair_keys_view(old(m)@), (namespace@, name@), v),
{
    let ghost key = (namespace@, name@);
    let ghost before = pair_keys_view(m@);
    proof {
        lemma_key_index(before, key);
    }
    let n = m.len();
    for k in 0..n
        invariant
            n == m.len(),
            key == (namespace@, name@),
            before == pair_keys_view(m@),
            before == pair_keys_view(old(m)@),
            forall|j: int| 0 <= j < k ==> before[j].0 != key,
    {
        assert(before[k as int] == ((m@[k as int].0.0@, m@[k as int].0.1@), m@[k as int].1));
        if m[k].0.0 == namespace && m[k].0.1 == name {
            assert(before[k as int].0 == key);
            proof {
                lemma_key_index(before, key);
            }
            assert(key_index(before, key) == k as int) by {
                if key_index(before, key) < k as int {
                    assert(before[key_index(before, key)].0 == key);
                }
            }
            m[k] = ((namespace, name), v);
            assert(pair_keys_view(m@) =~= before.update(k as int, (key, v)));
            return;
        }
    }
    m.push(((namespace, name), v));
    assert(pair_keys_view(m@) =~= before.push((key, v)));
}

/// Sets the index of a named export.
fn upsert_named(m: &mut Vec<(String, u32)>, name: String, v: u32)
    ensures
        keys_view(final(m)@) == upsert(keys_view(old(m)@), name@, v),
{
    let ghost key = name@;
    let ghost before = keys_view(m@);
    proof {
        lemma_key_index(before, key);
    }
    let n = m.len();
    for k in 0..n
        invariant
            n == m.len(),
            key == name@,
            before == keys_view(m@),
            before == keys_view(old(m)@),
            forall|j: int| 0 <= j < k ==> before[j].0 != key,
    {
        assert(before[k as int] == (m@[k as int].0@, m@[k as int].1));
        if m[k].0 == name {
            assert(before[k as int].0 == key);
            proof {
                lemma_key_index(before, key);
            }
            assert(key_index(before, key) == k as int) by {
                if key_index(before, key) < k as int {
                    assert(before[key_index(before, key)].0 == key);
                }
            }
            m[k] = (name, v);
            assert(keys_view(m@) =~= before.update(k as int, (key, v)));
            return;
        }
    }
    m.push((name, v));
    assert(keys_view(m@) =~= before.push((key, v)));
}


/// What validation has gathered from a module's items.
pub struct ModuleItems {
    pub import_fns: Vec<((String, String), u32)>,
    pub export_fns: Vec<(String, u32)>,
    pub export_globals: Vec<(String, u32)>,
    pub type_defs: Vec<(Vec<String>, Vec<String>)>,
    pub func_types: Vec<u32>,
    pub global_types: Vec<String>,
    pub errors: Vec<ContractViolation>,
}

impl View for ModuleItems {
    type V = ItemsModel;

    open spec fn view(&self) -> ItemsModel {
        ItemsModel {
            import_fns: pair_keys_view(self.import_fns@),
            export_fns: keys_view(self.export_fns@),
            export_globals: keys_view(self.export_globals@),
            type_defs: sigs_view(self.type_defs@),
            func_types: self.func_types@,
            global_types: strings_view(self.global_types@),
            errors: violations_view(self.errors@),
        }
    }
}

/// Records the violations of an imported global of type `found`.
fn check_global_import(
    c: &Contract,
    module: &String,
    field: &String,
    found: WasmType,
    errors: &mut Vec<ContractViolation>,
)
    ensures
        violations_view(final(errors)@) == violations_view(old(errors)@) + global_import_errors(
            c@,
            module@,
            field@,
            found,
        ),
{
    let ghost before = violations_view(errors@);
    let hit = find_import(&c.imports, module, field);
    proof {
        lemma_import_index(c@.imports, (module@, field@));
    }
    match hit {
        None => {
            errors.push(ContractViolation::GlobalImportNotInContract { field: field.clone() });
        },
        Some(k) => {
            assert(c@.imports[k as int] == c.imports@[k as int]@);
            match &c.imports[k] {
                Import::Global { var_type, .. } => {
                    if *var_type != found {
                        errors.push(
                            ContractViolation::GlobalImportTypeMismatch {
                                field: field.clone(),
                                expected: *var_type,
                                found,
                            },
                        );
                    }
                },
                Import::Func { .. } => {
                    errors.push(ContractViolation::ImportNotGlobal { found: c.imports[k].duplicate() });
                },
            }
        },
    }
    assert(violations_view(errors@) =~= before + global_import_errors(c@, module@, field@, found));
}

impl ModuleItems {
    pub fn new() -> (res: ModuleItems)
        ensures
            res@ == empty_items(),
    {
        let res = ModuleItems {
            import_fns: Vec::new(),
            export_fns: Vec::new(),
            export_globals: Vec::new(),
            type_defs: Vec::new(),
            func_types: Vec::new(),
            global_types: Vec::new(),
            errors: Vec::new(),
        };
        assert(res@.import_fns =~= seq![]);
        assert(res@.export_fns =~= seq![]);
        assert(res@.export_globals =~= seq![]);
        assert(res@.type_defs =~= seq![]);
        assert(res@.func_types =~= seq![]);
        assert(res@.global_types =~= seq![]);
        assert(res@.errors =~= seq![]);
        res
    }

    /// Reads one item of the module.
    pub fn record(&mut self, e: &WasmEvent, c: &Contract) -> (res: Result<(), WasmValidationError>)
        ensures
            match step(old(self)@, e@, c@) {
                Ok(st) => res is Ok && final(self)@ == st,
                Err(err) => res matches Err(x) && x@ == err,
            },
    {
        match e {
            WasmEvent::Type { params, results } => {
                let entry = (copy_strings(params), copy_strings(results));
                let ghost before = self.type_defs@;
                self.type_defs.push(entry);
                assert(sigs_view(self.type_defs@) =~= sigs_view(before).push(
                    (strings_view(params@), strings_view(results@)),
                ));
                Ok(())
            },
            WasmEvent::ImportFunc { module, field, type_index } => {
                upsert_import_fn(&mut self.import_fns, module.clone(), field.clone(), *type_index);
                self.func_types.push(*type_index);
                Ok(())
            },
            WasmEvent::FuncDef { type_index } => {
                self.func_types.push(*type_index);
                Ok(())
            },
            WasmEvent::ImportGlobal { module, field, content_type } => {
                match wasmparser_type_into_wasm_type(content_type) {
                    Ok(t) => {
                        check_global_import(c, module, field, t, &mut self.errors);
                        let ghost before = self.global_types@;
                        self.global_types.push(content_type.clone());
                        assert(strings_view(self.global_types@) =~= strings_view(before).push(
                            content_type@,
                        ));
                        Ok(())
                    },
                    Err(err) => {
                        let error = String::from_str("Invalid type found in import \"").concat(
                            module.as_str(),
                        ).concat("\" \"").concat(field.as_str()).concat("\": ").concat(
                            err.as_str(),
                        );
                        Err(WasmValidationError::UnsupportedType { error })
                    },
                }
            },
            WasmEvent::ExportFunc { field, index } => {
                upsert_named(&mut self.export_fns, field.clone(), *index);
                Ok(())
            },
            WasmEvent::ExportGlobal { field, index } => {
                upsert_named(&mut self.export_globals, field.clone(), *index);
                Ok(())
            },
            WasmEvent::GlobalDef { content_type } => {
                let ghost before = self.global_types@;
                self.global_types.push(content_type.clone());
                assert(strings_view(self.global_types@) =~= strings_view(before).push(
                    content_type@,
                ));
                Ok(())
            },
            WasmEvent::Invalid { error } => Err(
                WasmValidationError::InvalidWasm { error: error.clone() },
            ),
            WasmEvent::Other => Ok(()),
        }
    }
}


/// Records the violations of a list of signature types.
fn check_sig(
    sig: &Vec<String>,
    expected: &Vec<WasmType>,
    reported: usize,
    in_results: bool,
    func: &FuncRef,
    errors: &mut Vec<ContractViolation>,
)
    ensures
        violations_view(final(errors)@) == violations_view(old(errors)@) + sig_errors(
            strings_view(sig@),
            expected@,
            reported as nat,
            in_results,
            func@,
        ),
{
    let ghost sv = strings_view(sig@);
    for i in 0..sig.len()
        invariant
            sv == strings_view(sig@),
            violations_view(errors@) == violations_view(old(errors)@) + sig_errors(
                sv.take(i as int),
                expected@,
                reported as nat,
                in_results,
                func@,
            ),
    {
        let ghost before = violations_view(errors@);
        let ghost prefix = sv.take(i + 1);
        assert(prefix.drop_last() =~= sv.take(i as int));
        assert(prefix.last() == sig@[i as int]@);
        match wasmparser_type_into_wasm_type(&sig[i]) {
            Ok(t) => {
                if i >= expected.len() {
                    errors.push(
                        ContractViolation::ExtraType {
                            in_results,
                            found: i,
                            expected: reported,
                            func: func.duplicate(),
                        },
                    );
                } else if t != expected[i] {
                    errors.push(ContractViolation::TypeMismatch { in_results, func: func.duplicate() });
                }
            },
            Err(error) => {
                errors.push(ContractViolation::InvalidType { func: func.duplicate(), error });
            },
        }
        assert(violations_view(errors@) =~= before + type_error(
            i as int,
            sig@[i as int]@,
            expected@,
            reported as nat,
            in_results,
            func@,
        ));
    }
    assert(sv.take(sig.len() as int) =~= sv);
}

/// Records the violations of a function signature against the contract's
/// parameters and results.
fn check_func(
    sig: &(Vec<String>, Vec<String>),
    params: &Vec<WasmType>,
    result: &Vec<WasmType>,
    func: &FuncRef,
    errors: &mut Vec<ContractViolation>,
)
    ensures
        violations_view(final(errors)@) == violations_view(old(errors)@) + func_errors(
            (strings_view(sig.0@), strings_view(sig.1@)),
            params@,
            result@,
            func@,
        ),
{
    let ghost s0 = strings_view(sig.0@);
    let ghost s1 = strings_view(sig.1@);
    check_sig(&sig.0, params, params.len(), false, func, errors);
    let ghost v1 = violations_view(errors@);
    if sig.0.len() < params.len() {
        errors.push(
            ContractViolation::MissingType {
                in_results: false,
                found: sig.0.len(),
                expected: params.len(),
                func: func.duplicate(),
            },
        );
    }
    assert(violations_view(errors@) =~= v1 + short_errors(s0.len(), params@.len(), false, func@));
    check_sig(&sig.1, result, result.len(), true, func, errors);
    let ghost v3 = violations_view(errors@);
    if sig.1.len() < result.len() {
        errors.push(
            ContractViolation::MissingType {
                in_results: true,
                found: sig.1.len(),
                expected: result.len(),
                func: func.duplicate(),
            },
        );
    }
    assert(violations_view(errors@) =~= v3 + short_errors(s1.len(), result@.len(), true, func@));
    assert(violations_view(errors@) =~= violations_view(old(errors)@) + func_errors(
        (strings_view(sig.0@), strings_view(sig.1@)),
        params@,
        result@,
        func@,
    ));
}

/// Records the violations of the imported functions.
fn check_imports(items: &ModuleItems, c: &Contract, errors: &mut Vec<ContractViolation>)
    ensures
        violations_view(final(errors)@) == violations_view(old(errors)@) + import_errors(
            items@.import_fns,
            items@.type_defs,
            c@,
        ),
{
    let ghost fns = items@.import_fns;
    for i in 0..items.import_fns.len()
        invariant
            fns == items@.import_fns,
            violations_view(errors@) == violations_view(old(errors)@) + import_errors(
                fns.take(i as int),
                items@.type_defs,
                c@,
            ),
    {
        let ghost before = violations_view(errors@);
        assert(fns.take(i + 1).drop_last() =~= fns.take(i as int));
        let ((namespace, name), index) = &items.import_fns[i];
        assert(fns[i as int] == ((namespace@, name@), *index));
        let hit = find_import(&c.imports, namespace, name);
        proof {
            lemma_import_index(c@.imports, (namespace@, name@));
        }
        match hit {
            None => {
                errors.push(
                    ContractViolation::MissingImport {
                        namespace: namespace.clone(),
                        name: name.clone(),
                    },
                );
            },
            Some(k) => {
                assert(c@.imports[k as int] == c.imports@[k as int]@);
                match &c.imports[k] {
                    Import::Global { .. } => {
                        errors.push(ContractViolation::ImportNotFunc { found: c.imports[k].duplicate() });
                    },
                    Import::Func { params, result, .. } => {
                        if *index as usize >= items.type_defs.len() {
                            errors.push(ContractViolation::InvalidTypeReference { index: *index });
                        } else {
                            let sig = &items.type_defs[*index as usize];
                            assert(items@.type_defs[*index as int] == (
                                strings_view(sig.0@),
                                strings_view(sig.1@),
                            ));
                            let func = FuncRef::Imported { namespace: namespace.clone(), name: name.clone() };
                            check_func(sig, params, result, &func, errors);
                        }
                    },
                }
            },
        }
        assert(violations_view(errors@) =~= before + import_entry_errors(
            fns[i as int],
            items@.type_defs,
            c@,
        ));
    }
    assert(fns.take(items.import_fns.len() as int) =~= fns);
}

/// Records the violations of the exported functions.
fn check_export_fns(items: &ModuleItems, c: &Contract, errors: &mut Vec<ContractViolation>)
    ensures
        violations_view(final(errors)@) == violations_view(old(errors)@) + export_fn_errors(
            items@.export_fns,
            items@.func_types,
            items@.type_defs,
            c@,
        ),
{
    let ghost fns = items@.export_fns;
    for i in 0..items.export_fns.len()
        invariant
            fns == items@.export_fns,
            violations_view(errors@) == violations_view(old(errors)@) + export_fn_errors(
                fns.take(i as int),
                items@.func_types,
                items@.type_defs,
                c@,
            ),
    {
        let ghost before = violations_view(errors@);
        assert(fns.take(i + 1).drop_last() =~= fns.take(i as int));
        let (name, index) = &items.export_fns[i];
        assert(fns[i as int] == (name@, *index));
        let hit = find_export(&c.exports, name);
        proof {
            lemma_export_index(c@.exports, name@);
        }
        match hit {
            None => {},
            Some(k) => {
                assert(c@.exports[k as int] == c.exports@[k as int]@);
                if *index as usize >= items.func_types.len() {
                    errors.push(ContractViolation::InvalidFunctionReference { index: *index });
                } else {
                    let type_index = items.func_types[*index as usize];
                    if type_index as usize >= items.type_defs.len() {
                        errors.push(ContractViolation::InvalidTypeReference { index: type_index });
                    } else {
                        let sig = &items.type_defs[type_index as usize];
                        assert(items@.type_defs[type_index as int] == (
                            strings_view(sig.0@),
                            strings_view(sig.1@),
                        ));
                        match &c.exports[k] {
                            Export::Func { params, result, .. } => {
                                let func = FuncRef::Exported { name: name.clone() };
                                check_func(sig, params, result, &func, errors);
                            },
                            Export::Global { .. } => {},
                        }
                    }
                }
            },
        }
        assert(violations_view(errors@) =~= before + export_fn_entry_errors(
            fns[i as int],
            items@.func_types,
            items@.type_defs,
            c@,
        ));
    }
    assert(fns.take(items.export_fns.len() as int) =~= fns);
}

/// Every exported global that the contract declares refers to a global that
/// the module has, imported or defined.
pub open spec fn export_globals_defined(st: ItemsModel, c: ContractModel) -> bool {
    forall|k: int|
        0 <= k < st.export_globals.len() ==> #[trigger] export_global_in_range(
            st.export_globals[k],
            st.global_types,
            c,
        )
}

/// Whether every exported global that the contract declares refers to a
/// global of the module, imported or defined.
fn check_export_globals_defined(items: &ModuleItems, c: &Contract) -> (res: bool)
    ensures
        res == export_globals_defined(items@, c@),
{
    let ghost gs = items@.export_globals;
    for i in 0..items.export_globals.len()
        invariant
            gs == items@.export_globals,
            forall|k: int|
                0 <= k < i ==> #[trigger] export_global_in_range(gs[k], items@.global_types, c@),
    {
        let (name, index) = &items.export_globals[i];
        assert(gs[i as int] == (name@, *index));
        let hit = find_export(&c.exports, name);
        proof {
            lemma_export_index(c@.exports, name@);
        }
        if let Some(k) = hit {
            assert(c@.exports[k as int] == c.exports@[k as int]@);
            if let Export::Global { .. } = &c.exports[k] {
                if *index as usize >= items.global_types.len() {
                    assert(!export_global_in_range(gs[i as int], items@.global_types, c@));
                    return false;
                }
            }
        }
        assert(export_global_in_range(gs[i as int], items@.global_types, c@));
    }
    true
}

/// Records the violations of the exported globals.
fn check_export_globals(items: &ModuleItems, c: &Contract, errors: &mut Vec<ContractViolation>)
    requires
        export_globals_defined(items@, c@),
    ensures
        violations_view(final(errors)@) == violations_view(old(errors)@) + export_global_errors(
            items@.export_globals,
            items@.global_types,
            c@,
        ),
{
    let ghost gs = items@.export_globals;
    for i in 0..items.export_globals.len()
        invariant
            gs == items@.export_globals,
            export_globals_defined(items@, c@),
            violations_view(errors@) == violations_view(old(errors)@) + export_global_errors(
                gs.take(i as int),
                items@.global_types,
                c@,
            ),
    {
        let ghost before = violations_view(errors@);
        assert(gs.take(i + 1).drop_last() =~= gs.take(i as int));
        let (name, index) = &items.export_globals[i];
        assert(gs[i as int] == (name@, *index));
        assert(export_global_in_range(gs[i as int], items@.global_types, c@));
        let hit = find_export(&c.exports, name);
        proof {
            lemma_export_index(c@.exports, name@);
        }
        if let Some(k) = hit {
            assert(c@.exports[k as int] == c.exports@[k as int]@);
            if let Export::Global { var_type, .. } = &c.exports[k] {
                let ty = &items.global_types[*index as usize];
                assert(items@.global_types[*index as int] == ty@);
                match wasmparser_type_into_wasm_type(ty) {
                    Ok(t) => {
                        if *var_type != t {
                            errors.push(
                                ContractViolation::GlobalExportTypeMismatch {
                                    name: name.clone(),
                                    expected: *var_type,
                                    found: t,
                                },
                            );
                        }
                    },
                    Err(error) => {
                        errors.push(
                            ContractViolation::GlobalExportInvalidType { name: name.clone(), error },
                        );
                    },
                }
            }
        }
        assert(violations_view(errors@) =~= before + export_global_entry_errors(
            gs[i as int],
            items@.global_types,
            c@,
        ));
    }
    assert(gs.take(items.export_globals.len() as int) =~= gs);
}


/// Whether an export table has an entry under `name`.
fn has_key(m: &Vec<(String, u32)>, name: &String) -> (res: bool)
    ensures
        res == (key_index(keys_view(m@), name@) >= 0),
{
    let ghost v = keys_view(m@);
    proof {
        lemma_key_index(v, name@);
    }
    for k in 0..m.len()
        invariant
            v == keys_view(m@),
            forall|j: int| 0 <= j < k ==> v[j].0 != name@,
    {
        assert(v[k as int] == (m@[k as int].0@, m@[k as int].1));
        if m[k].0 == *name {
            proof {
                lemma_key_index(v, name@);
            }
            return true;
        }
    }
    proof {
        lemma_key_index(v, name@);
    }
    false
}

/// Records a violation for each export of the contract that the module lacks.
fn check_missing_exports(items: &ModuleItems, c: &Contract, errors: &mut Vec<ContractViolation>)
    ensures
        violations_view(final(errors)@) == violations_view(old(errors)@) + missing_export_errors(
            c@.exports,
            items@,
        ),
{
    let ghost ex = c@.exports;
    for i in 0..c.exports.len()
        invariant
            ex == c@.exports,
            violations_view(errors@) == violations_view(old(errors)@) + missing_export_errors(
                ex.take(i as int),
                items@,
            ),
    {
        let ghost before = violations_view(errors@);
        assert(ex.take(i + 1).drop_last() =~= ex.take(i as int));
        assert(ex[i as int] == c.exports@[i as int]@);
        assert(ex.take(i + 1).last() == ex[i as int]);
        let present = match &c.exports[i] {
            Export::Func { name, .. } => has_key(&items.export_fns, name),
            Export::Global { name, .. } => has_key(&items.export_globals, name),
        };
        if !present {
            let name = match &c.exports[i] {
                Export::Func { name, .. } => name.clone(),
                Export::Global { name, .. } => name.clone(),
            };
            assert(name@ == ex[i as int].key());
            errors.push(ContractViolation::MissingExport { name });
        }
        assert(present == export_present(ex[i as int], items@));
        let ghost entry = if present {
            seq![]
        } else {
            seq![ViolationModel::MissingExport { name: ex[i as int].key() }]
        };
        assert(missing_export_errors(ex.take(i + 1), items@) == missing_export_errors(
            ex.take(i as int),
            items@,
        ) + entry);
        assert(violations_view(errors@) =~= before + entry);
    }
    assert(ex.take(c.exports.len() as int) =~= ex);
}

/// Once reading stops on a refusal, later items change nothing.
proof fn lemma_collect_refusal_stays(events: Seq<WasmEventModel>, c: ContractModel, n: int)
    requires
        0 <= n <= events.len(),
        collect(events.take(n), c) is Err,
    ensures
        collect(events, c) == collect(events.take(n), c),
    decreases events.len() - n,
{
    if n < events.len() {
        assert(events.take(n + 1).drop_last() =~= events.take(n));
        lemma_collect_refusal_stays(events, c, n + 1);
    } else {
        assert(events.take(n) =~= events);
    }
}

/// Reads a module's items in order, stopping at the first refusal.
pub fn collect_items(events: &Vec<WasmEvent>, c: &Contract) -> (res: Result<
    ModuleItems,
    WasmValidationError,
>)
    ensures
        match collect(events_view(events@), c@) {
            Ok(st) => res matches Ok(items) && items@ == st,
            Err(err) => res matches Err(x) && x@ == err,
        },
{
    let ghost ev = events_view(events@);
    let mut items = ModuleItems::new();
    assert(ev.take(0) =~= seq![]);
    for i in 0..events.len()
        invariant
            ev == events_view(events@),
            collect(ev.take(i as int), c@) == Ok::<ItemsModel, WasmValidationErrorModel>(items@),
    {
        assert(ev.take(i + 1).drop_last() =~= ev.take(i as int));
        assert(ev.take(i + 1).last() == events@[i as int]@);
        match items.record(&events[i], c) {
            Ok(()) => {},
            Err(e) => {
                proof {
                    lemma_collect_refusal_stays(ev, c@, i + 1);
                }
                return Err(e);
            },
        }
    }
    assert(ev.take(events.len() as int) =~= ev);
    Ok(items)
}

pub open spec fn result_view(r: Result<(), WasmValidationError>) -> Result<
    (),
    WasmValidationErrorModel,
> {
    match r {
        Ok(()) => Ok(()),
        Err(e) => Err(e@),
    }
}

/// Whether validation of these items can be carried out (see
/// `validation_defined`).
pub fn events_validation_defined(events: &Vec<WasmEvent>, c: &Contract) -> (res: bool)
    ensures
        res == validation_defined(events_view(events@), c@),
{
    match collect_items(events, c) {
        Err(_) => true,
        Ok(items) => check_export_globals_defined(&items, c),
    }
}

/// Validates a module, given the items that the wasm parser read from it,
/// against a contract.
pub fn validate_events(events: &Vec<WasmEvent>, c: &Contract) -> (res: Result<
    (),
    WasmValidationError,
>)
    requires
        validation_defined(events_view(events@), c@),
    ensures
        result_view(res) == spec_validate(events_view(events@), c@),
{
    let items = match collect_items(events, c) {
        Ok(items) => items,
        Err(e) => {
            return Err(e);
        },
    };
    let mut errors = copy_violations(&items.errors);
    check_imports(&items, c, &mut errors);
    check_export_fns(&items, c, &mut errors);
    check_export_globals(&items, c, &mut errors);
    check_missing_exports(&items, c, &mut errors);
    assert(violations_view(errors@) =~= all_errors(items@, c@));
    if errors.len() == 0 {
        Ok(())
    } else {
        Err(WasmValidationError::ContractViolated { errors })
    }
}

/// Validates a wasm binary against a contract: every import of the module
/// must be declared by the contract with the same type, and every export that
/// the contract declares must have the declared type.
pub fn validate_wasm_and_report_errors(wasm: &[u8], contract: &Contract) -> (res: Result<
    (),
    WasmValidationError,
>)
    requires
        validation_defined(spec_wasm_events(wasm@), contract@),
    ensures
        result_view(res) == spec_validate(spec_wasm_events(wasm@), contract@),
{
    let events = read_wasm_events(wasm);
    validate_events(&events, contract)
}

/// Validates a wasm binary against a contract, or gives `None` where an
/// exported global that the contract declares refers past the globals that
/// the module has, imported or defined.
pub fn checked_validate_wasm_and_report_errors(wasm: &[u8], contract: &Contract) -> (res: Option<
    Result<(), WasmValidationError>,
>)
    ensures
        res is None <==> !validation_defined(spec_wasm_events(wasm@), contract@),
        res matches Some(r) ==> result_view(r) == spec_validate(spec_wasm_events(wasm@), contract@),
{
    let events = read_wasm_events(wasm);
    if events_validation_defined(&events, contract) {
        Some(validate_wasm_and_report_errors(wasm, contract))
    } else {
        None
    }
}


/// Reading never drops an imported function's key once read.
proof fn lemma_collect_keeps_import(events: Seq<WasmEventModel>, c: ContractModel, j: int)
    requires
        collect(events, c) is Ok,
        0 <= j < events.len(),
        events[j] is ImportFunc,
    ensures
        key_index(
            collect(events, c)->Ok_0.import_fns,
            (events[j]->ImportFunc_module, events[j]->ImportFunc_field),
        ) >= 0,
    decreases events.len(),
{
    let key = (events[j]->ImportFunc_module, events[j]->ImportFunc_field);
    let prev = collect(events.drop_last(), c);
    assert(prev is Ok);
    let st = prev->Ok_0;
    if j < events.len() - 1 {
        assert(events.drop_last()[j] == events[j]);
        lemma_collect_keeps_import(events.drop_last(), c, j);
    }
    match events.last() {
        WasmEventModel::ImportFunc { module, field, type_index } => {
            lemma_upsert_keeps_keys(st.import_fns, (module, field), type_index, key);
        },
        _ => {},
    }
}

proof fn lemma_import_errors_contain(
    fns: Seq<((Seq<char>, Seq<char>), u32)>,
    type_defs: Seq<(Seq<Seq<char>>, Seq<Seq<char>>)>,
    c: ContractModel,
    k: int,
    x: ViolationModel,
)
    requires
        0 <= k < fns.len(),
        import_entry_errors(fns[k], type_defs, c).contains(x),
    ensures
        import_errors(fns, type_defs, c).contains(x),
    decreases fns.len(),
{
    let a = import_errors(fns.drop_last(), type_defs, c);
    let b = import_entry_errors(fns.last(), type_defs, c);
    if k < fns.len() - 1 {
        assert(fns.drop_last()[k] == fns[k]);
        lemma_import_errors_contain(fns.drop_last(), type_defs, c, k, x);
        let w = choose|w: int| 0 <= w < a.len() && a[w] == x;
        assert((a + b)[w] == x);
    } else {
        let w = choose|w: int| 0 <= w < b.len() && b[w] == x;
        assert((a + b)[a.len() + w] == x);
    }
}

proof fn lemma_export_fn_errors_contain(
    fns: Seq<(Seq<char>, u32)>,
    func_types: Seq<u32>,
    type_defs: Seq<(Seq<Seq<char>>, Seq<Seq<char>>)>,
    c: ContractModel,
    k: int,
    x: ViolationModel,
)
    requires
        0 <= k < fns.len(),
        export_fn_entry_errors(fns[k], func_types, type_defs, c).contains(x),
    ensures
        export_fn_errors(fns, func_types, type_defs, c).contains(x),
    decreases fns.len(),
{
    let a = export_fn_errors(fns.drop_last(), func_types, type_defs, c);
    let b = export_fn_entry_errors(fns.last(), func_types, type_defs, c);
    if k < fns.len() - 1 {
        assert(fns.drop_last()[k] == fns[k]);
        lemma_export_fn_errors_contain(fns.drop_last(), func_types, type_defs, c, k, x);
        let w = choose|w: int| 0 <= w < a.len() && a[w] == x;
        assert((a + b)[w] == x);
    } else {
        let w = choose|w: int| 0 <= w < b.len() && b[w] == x;
        assert((a + b)[a.len() + w] == x);
    }
}

proof fn lemma_export_global_errors_contain(
    gs: Seq<(Seq<char>, u32)>,
    global_types: Seq<Seq<char>>,
    c: ContractModel,
    k: int,
    x: ViolationModel,
)
    requires
        0 <= k < gs.len(),
        export_global_entry_errors(gs[k], global_types, c).contains(x),
    ensures
        export_global_errors(gs, global_types, c).contains(x),
    decreases gs.len(),
{
    let a = export_global_errors(gs.drop_last(), global_types, c);
    let b = export_global_entry_errors(gs.last(), global_types, c);
    if k < gs.len() - 1 {
        assert(gs.drop_last()[k] == gs[k]);
        lemma_export_global_errors_contain(gs.drop_last(), global_types, c, k, x);
        let w = choose|w: int| 0 <= w < a.len() && a[w] == x;
        assert((a + b)[w] == x);
    } else {
        let w = choose|w: int| 0 <= w < b.len() && b[w] == x;
        assert((a + b)[a.len() + w] == x);
    }
}

proof fn lemma_missing_export_errors_contain(exports: Seq<ExportModel>, st: ItemsModel, k: int)
    requires
        0 <= k < exports.len(),
        !export_present(exports[k], st),
    ensures
        missing_export_errors(exports, st).contains(
            ViolationModel::MissingExport { name: exports[k].key() },
        ),
    decreases exports.len(),
{
    let x = ViolationModel::MissingExport { name: exports[k].key() };
    let a = missing_export_errors(exports.drop_last(), st);
    let b: Seq<ViolationModel> = if export_present(exports.last(), st) {
        seq![]
    } else {
        seq![ViolationModel::MissingExport { name: exports.last().key() }]
    };
    assert(missing_export_errors(exports, st) == a + b);
    if k < exports.len() - 1 {
        assert(exports.drop_last()[k] == exports[k]);
        lemma_missing_export_errors_contain(exports.drop_last(), st, k);
        let w = choose|w: int| 0 <= w < a.len() && a[w] == x;
        assert((a + b)[w] == x);
    } else {
        assert((a + b)[a.len() as int] == x);
    }
}

/// Reading keeps the violations of an imported global once they are found.
proof fn lemma_collect_keeps_global_import_errors(
    events: Seq<WasmEventModel>,
    c: ContractModel,
    j: int,
    x: ViolationModel,
)
    requires
        collect(events, c) is Ok,
        0 <= j < events.len(),
        events[j] is ImportGlobal,
        global_import_errors(
            c,
            events[j]->ImportGlobal_module,
            events[j]->ImportGlobal_field,
            spec_convert_type(events[j]->ImportGlobal_content_type)->Ok_0,
        ).contains(x),
    ensures
        spec_convert_type(events[j]->ImportGlobal_content_type) is Ok,
        collect(events, c)->Ok_0.errors.contains(x),
    decreases events.len(),
{
    let prev = collect(events.drop_last(), c);
    assert(prev is Ok);
    let st = prev->Ok_0;
    if j < events.len() - 1 {
        assert(events.drop_last()[j] == events[j]);
        lemma_collect_keeps_global_import_errors(events.drop_last(), c, j, x);
        let w = choose|w: int| 0 <= w < st.errors.len() && st.errors[w] == x;
        match events.last() {
            WasmEventModel::ImportGlobal { module, field, content_type } => {
                let t2 = spec_convert_type(content_type)->Ok_0;
                assert((st.errors + global_import_errors(c, module, field, t2))[w] == x);
            },
            _ => {},
        }
    } else {
        let g = global_import_errors(
            c,
            events[j]->ImportGlobal_module,
            events[j]->ImportGlobal_field,
            spec_convert_type(events[j]->ImportGlobal_content_type)->Ok_0,
        );
        let w = choose|w: int| 0 <= w < g.len() && g[w] == x;
        assert((st.errors + g)[st.errors.len() + w] == x);
    }
}

/// A violation among those found is reported: validation refuses the module
/// and lists it.
proof fn lemma_reported(events: Seq<WasmEventModel>, c: ContractModel, x: ViolationModel)
    requires
        collect(events, c) is Ok,
        all_errors(collect(events, c)->Ok_0, c).contains(x),
    ensures
        spec_validate(events, c) is Err,
        spec_validate(events, c)->Err_0 is ContractViolated,
        spec_validate(events, c)->Err_0->ContractViolated_errors.contains(x),
{
}

proof fn lemma_all_errors_contain(st: ItemsModel, c: ContractModel, x: ViolationModel)
    requires
        st.errors.contains(x) || import_errors(st.import_fns, st.type_defs, c).contains(x)
            || export_fn_errors(st.export_fns, st.func_types, st.type_defs, c).contains(x)
            || export_global_errors(st.export_globals, st.global_types, c).contains(x)
            || missing_export_errors(c.exports, st).contains(x),
    ensures
        all_errors(st, c).contains(x),
{
    let a = st.errors;
    let b = import_errors(st.import_fns, st.type_defs, c);
    let d = export_fn_errors(st.export_fns, st.func_types, st.type_defs, c);
    let e = export_global_errors(st.export_globals, st.global_types, c);
    let f = missing_export_errors(c.exports, st);
    let all = a + b + d + e + f;
    assert(all == all_errors(st, c));
    if a.contains(x) {
        let w = choose|w: int| 0 <= w < a.len() && a[w] == x;
        assert(all[w] == x);
    } else if b.contains(x) {
        let w = choose|w: int| 0 <= w < b.len() && b[w] == x;
        assert(all[a.len() + w] == x);
    } else if d.contains(x) {
        let w = choose|w: int| 0 <= w < d.len() && d[w] == x;
        assert(all[a.len() + b.len() + w] == x);
    } else if e.contains(x) {
        let w = choose|w: int| 0 <= w < e.len() && e[w] == x;
        assert(all[a.len() + b.len() + d.len() + w] == x);
    } else {
        let w = choose|w: int| 0 <= w < f.len() && f[w] == x;
        assert(all[a.len() + b.len() + d.len() + e.len() + w] == x);
    }
}


/// A module that imports a function the contract does not declare is
/// refused, and the refusal lists the undeclared import.
pub proof fn law_undeclared_import_refused(events: Seq<WasmEventModel>, c: ContractModel, j: int)
    requires
        collect(events, c) is Ok,
        0 <= j < events.len(),
        events[j] is ImportFunc,
        c.import_for((events[j]->ImportFunc_module, events[j]->ImportFunc_field)) is None,
    ensures
        spec_validate(events, c) is Err,
        spec_validate(events, c)->Err_0 is ContractViolated,
        spec_validate(events, c)->Err_0->ContractViolated_errors.contains(
            ViolationModel::MissingImport {
                namespace: events[j]->ImportFunc_module,
                name: events[j]->ImportFunc_field,
            },
        ),
{
    let st = collect(events, c)->Ok_0;
    let key = (events[j]->ImportFunc_module, events[j]->ImportFunc_field);
    let x = ViolationModel::MissingImport { namespace: key.0, name: key.1 };
    lemma_collect_keeps_import(events, c, j);
    lemma_key_index(st.import_fns, key);
    let k = key_index(st.import_fns, key);
    assert(import_entry_errors(st.import_fns[k], st.type_defs, c)[0] == x);
    lemma_import_errors_contain(st.import_fns, st.type_defs, c, k, x);
    lemma_all_errors_contain(st, c, x);
    lemma_reported(events, c, x);
}

/// Each violation found for an imported function is reported: the module is
/// refused and the refusal lists it. This covers a signature that differs from
/// the contract's.
pub proof fn law_import_fn_violations_reported(
    events: Seq<WasmEventModel>,
    c: ContractModel,
    k: int,
    x: ViolationModel,
)
    requires
        collect(events, c) is Ok,
        0 <= k < collect(events, c)->Ok_0.import_fns.len(),
        import_entry_errors(
            collect(events, c)->Ok_0.import_fns[k],
            collect(events, c)->Ok_0.type_defs,
            c,
        ).contains(x),
    ensures
        spec_validate(events, c) is Err,
        spec_validate(events, c)->Err_0 is ContractViolated,
        spec_validate(events, c)->Err_0->ContractViolated_errors.contains(x),
{
    let st = collect(events, c)->Ok_0;
    lemma_import_errors_contain(st.import_fns, st.type_defs, c, k, x);
    lemma_all_errors_contain(st, c, x);
    lemma_reported(events, c, x);
}

/// Each violation of an imported global is reported: a global imported with
/// another type than the contract declares, as something the contract
/// declares otherwise, or not declared at all, makes the module refused.
pub proof fn law_global_import_violations_reported(
    events: Seq<WasmEventModel>,
    c: ContractModel,
    j: int,
    x: ViolationModel,
)
    requires
        collect(events, c) is Ok,
        0 <= j < events.len(),
        events[j] is ImportGlobal,
        global_import_errors(
            c,
            events[j]->ImportGlobal_module,
            events[j]->ImportGlobal_field,
            spec_convert_type(events[j]->ImportGlobal_content_type)->Ok_0,
        ).contains(x),
    ensures
        spec_validate(events, c) is Err,
        spec_validate(events, c)->Err_0 is ContractViolated,
        spec_validate(events, c)->Err_0->ContractViolated_errors.contains(x),
{
    let st = collect(events, c)->Ok_0;
    lemma_collect_keeps_global_import_errors(events, c, j, x);
    lemma_all_errors_contain(st, c, x);
    lemma_reported(events, c, x);
}

/// Each violation found for an exported function that the contract declares
/// is reported, such as a signature that differs from the contract's.
pub proof fn law_export_fn_violations_reported(
    events: Seq<WasmEventModel>,
    c: ContractModel,
    k: int,
    x: ViolationModel,
)
    requires
        collect(events, c) is Ok,
        0 <= k < collect(events, c)->Ok_0.export_fns.len(),
        export_fn_entry_errors(
            collect(events, c)->Ok_0.export_fns[k],
            collect(events, c)->Ok_0.func_types,
            collect(events, c)->Ok_0.type_defs,
            c,
        ).contains(x),
    ensures
        spec_validate(events, c) is Err,
        spec_validate(events, c)->Err_0 is ContractViolated,
        spec_validate(events, c)->Err_0->ContractViolated_errors.contains(x),
{
    let st = collect(events, c)->Ok_0;
    lemma_export_fn_errors_contain(st.export_fns, st.func_types, st.type_defs, c, k, x);
    lemma_all_errors_contain(st, c, x);
    lemma_reported(events, c, x);
}

/// A global exported with another type than the contract declares is
/// refused, and the refusal lists the mismatch.
pub proof fn law_global_export_mismatch_refused(
    events: Seq<WasmEventModel>,
    c: ContractModel,
    k: int,
    expected: WasmType,
    found: WasmType,
)
    requires
        collect(events, c) is Ok,
        0 <= k < collect(events, c)->Ok_0.export_globals.len(),
        c.export_for(collect(events, c)->Ok_0.export_globals[k].0) matches Some(
            ExportModel::Global { var_type, .. },
        ) && var_type == expected,
        spec_convert_type(
            collect(events, c)->Ok_0.global_types[collect(
                events,
                c,
            )->Ok_0.export_globals[k].1 as int],
        ) == Ok::<WasmType, Seq<char>>(found),
        found != expected,
    ensures
        spec_validate(events, c) is Err,
        spec_validate(events, c)->Err_0 is ContractViolated,
        spec_validate(events, c)->Err_0->ContractViolated_errors.contains(
            ViolationModel::GlobalExportTypeMismatch {
                name: collect(events, c)->Ok_0.export_globals[k].0,
                expected,
                found,
            },
        ),
{
    let st = collect(events, c)->Ok_0;
    let x = ViolationModel::GlobalExportTypeMismatch {
        name: st.export_globals[k].0,
        expected,
        found,
    };
    assert(export_global_entry_errors(st.export_globals[k], st.global_types, c)[0] == x);
    lemma_export_global_errors_contain(st.export_globals, st.global_types, c, k, x);
    lemma_all_errors_contain(st, c, x);
    lemma_reported(events, c, x);
}

/// A module that lacks an export that the contract declares is refused, and
/// the refusal names the missing export.
pub proof fn law_missing_export_refused(events: Seq<WasmEventModel>, c: ContractModel, k: int)
    requires
        collect(events, c) is Ok,
        0 <= k < c.exports.len(),
        !export_present(c.exports[k], collect(events, c)->Ok_0),
    ensures
        spec_validate(events, c) is Err,
        spec_validate(events, c)->Err_0 is ContractViolated,
        spec_validate(events, c)->Err_0->ContractViolated_errors.contains(
            ViolationModel::MissingExport { name: c.exports[k].key() },
        ),
{
    let st = collect(events, c)->Ok_0;
    let x = ViolationModel::MissingExport { name: c.exports[k].key() };
    lemma_missing_export_errors_contain(c.exports, st, k);
    lemma_all_errors_contain(st, c, x);
    lemma_reported(events, c, x);
}


proof fn lemma_export_fn_errors_update(
    fns: Seq<(Seq<char>, u32)>,
    i: int,
    x: (Seq<char>, u32),
    func_types: Seq<u32>,
    type_defs: Seq<(Seq<Seq<char>>, Seq<Seq<char>>)>,
    c: ContractModel,
)
    requires
        0 <= i < fns.len(),
        export_fn_entry_errors(fns[i], func_types, type_defs, c) == Seq::<ViolationModel>::empty(),
        export_fn_entry_errors(x, func_types, type_defs, c) == Seq::<ViolationModel>::empty(),
    ensures
        export_fn_errors(fns.update(i, x), func_types, type_defs, c) == export_fn_errors(fns, func_types, type_defs, c),
    decreases fns.len(),
{
    let u = fns.update(i, x);
    if i == fns.len() - 1 {
        assert(u.drop_last() =~= fns.drop_last());
        assert(u.last() == x);
        assert(export_fn_errors(u, func_types, type_defs, c) =~= export_fn_errors(fns.drop_last(), func_types, type_defs, c));
        assert(export_fn_errors(fns, func_types, type_defs, c) =~= export_fn_errors(fns.drop_last(), func_types, type_defs, c));
    } else {
        assert(u.drop_last() =~= fns.drop_last().update(i, x));
        assert(u.last() == fns.last());
        lemma_export_fn_errors_update(fns.drop_last(), i, x, func_types, type_defs, c);
    }
}

proof fn lemma_export_global_errors_update(
    gs: Seq<(Seq<char>, u32)>,
    i: int,
    x: (Seq<char>, u32),
    global_types: Seq<Seq<char>>,
    c: ContractModel,
)
    requires
        0 <= i < gs.len(),
        export_global_entry_errors(gs[i], global_types, c) == Seq::<ViolationModel>::empty(),
        export_global_entry_errors(x, global_types, c) == Seq::<ViolationModel>::empty(),
    ensures
        export_global_errors(gs.update(i, x), global_types, c) == export_global_errors(gs, global_types, c),
    decreases gs.len(),
{
    let u = gs.update(i, x);
    if i == gs.len() - 1 {
        assert(u.drop_last() =~= gs.drop_last());
        assert(u.last() == x);
        assert(export_global_errors(u, global_types, c) =~= export_global_errors(gs.drop_last(), global_types, c));
        assert(export_global_errors(gs, global_types, c) =~= export_global_errors(gs.drop_last(), global_types, c));
    } else {
        assert(u.drop_last() =~= gs.drop_last().update(i, x));
        assert(u.last() == gs.last());
        lemma_export_global_errors_update(gs.drop_last(), i, x, global_types, c);
    }
}

proof fn lemma_missing_exports_same(exports: Seq<ExportModel>, st: ItemsModel, st2: ItemsModel)
    requires
        forall|m: int| 0 <= m < exports.len() ==> export_present(#[trigger] exports[m], st) == export_present(
            exports[m],
            st2,
        ),
    ensures
        missing_export_errors(exports, st) == missing_export_errors(exports, st2),
    decreases exports.len(),
{
    if exports.len() > 0 {
        assert forall|m: int| 0 <= m < exports.drop_last().len() implies export_present(
            #[trigger] exports.drop_last()[m],
            st,
        ) == export_present(exports.drop_last()[m], st2) by {
            assert(exports.drop_last()[m] == exports[m]);
        }
        lemma_missing_exports_same(exports.drop_last(), st, st2);
        assert(exports.last() == exports[exports.len() - 1]);
    }
}

/// Whether a name has an entry in a list, before and after another name's
/// entry is put in.
proof fn lemma_upsert_present(m: Seq<(Seq<char>, u32)>, k: Seq<char>, v: u32, k2: Seq<char>)
    requires
        k2 != k,
    ensures
        (key_index(upsert(m, k, v), k2) >= 0) == (key_index(m, k2) >= 0),
{
    lemma_upsert_lookup(m, k, v, k2);
}

/// An exported function or global that the contract does not declare
/// changes nothing: validating the module with that export gives what
/// validating it without the export gives.
pub proof fn law_undeclared_export_ignored(
    events: Seq<WasmEventModel>,
    c: ContractModel,
    field: Seq<char>,
    index: u32,
    global: bool,
)
    requires
        c.export_for(field) is None,
    ensures
        spec_validate(
            events.push(
                if global {
                    WasmEventModel::ExportGlobal { field, index }
                } else {
                    WasmEventModel::ExportFunc { field, index }
                },
            ),
            c,
        ) == spec_validate(events, c),
{
    let e = if global {
        WasmEventModel::ExportGlobal { field, index }
    } else {
        WasmEventModel::ExportFunc { field, index }
    };
    let evs = events.push(e);
    assert(evs.drop_last() =~= events);
    assert(evs.last() == e);
    lemma_export_index(c.exports, field);
    if let Ok(st) = collect(events, c) {
        let st2 = collect(evs, c)->Ok_0;
        assert forall|m: int| 0 <= m < c.exports.len() implies export_present(#[trigger] c.exports[m], st)
            == export_present(c.exports[m], st2) by {
            let name = c.exports[m].key();
            assert(name != field);
            lemma_upsert_present(st.export_fns, field, index, name);
            lemma_upsert_present(st.export_globals, field, index, name);
        }
        lemma_missing_exports_same(c.exports, st, st2);
        if global {
            let gs = st.export_globals;
            lemma_key_index(gs, field);
            let i = key_index(gs, field);
            if i < 0 {
                let p = gs.push((field, index));
                assert(p.drop_last() =~= gs);
                assert(p.last() == (field, index));
                assert(export_global_errors(p, st.global_types, c) =~= export_global_errors(gs, st.global_types, c));
            } else {
                lemma_export_global_errors_update(gs, i, (field, index), st.global_types, c);
            }
        } else {
            let fs = st.export_fns;
            lemma_key_index(fs, field);
            let i = key_index(fs, field);
            if i < 0 {
                let p = fs.push((field, index));
                assert(p.drop_last() =~= fs);
                assert(p.last() == (field, index));
                assert(export_fn_errors(p, st.func_types, st.type_defs, c) =~= export_fn_errors(fs, st.func_types, st.type_defs, c));
            } else {
                lemma_export_fn_errors_update(fs, i, (field, index), st.func_types, st.type_defs, c);
            }
        }
        assert(all_errors(st2, c) == all_errors(st, c));
    }
}

} // verus!
