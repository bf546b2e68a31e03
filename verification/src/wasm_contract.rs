//! Wasm contracts: the imports a module may use and the exports it must
//! provide, written as S-expressions and checked against compiled modules.

pub mod parser;
pub mod validate;

use vstd::prelude::*;

verus! {

/// Primitive wasm value type.
#[derive(Debug, Clone, Copy, PartialEq, Eq, Structural)]
pub enum WasmType {
    I32,
    I64,
    F32,
    F64,
}

impl WasmType {
    /// The textual form of the type, as written in contracts (`i32`, `f64`, ...).
    pub open spec fn spec_name(self) -> Seq<char> {
        match self {
            WasmType::I32 => seq!['i', '3', '2'],
            WasmType::I64 => seq!['i', '6', '4'],
            WasmType::F32 => seq!['f', '3', '2'],
            WasmType::F64 => seq!['f', '6', '4'],
        }
    }
}

/// Abstract value of an import entry.
pub enum ImportModel {
    Func { namespace: Seq<char>, name: Seq<char>, params: Seq<WasmType>, result: Seq<WasmType> },
    Global { namespace: Seq<char>, name: Seq<char>, var_type: WasmType },
}

/// Abstract value of an export entry.
pub enum ExportModel {
    Func { name: Seq<char>, params: Seq<WasmType>, result: Seq<WasmType> },
    Global { name: Seq<char>, var_type: WasmType },
}

impl ImportModel {
    /// The key under which the import is registered: its namespace and name.
    pub open spec fn key(self) -> (Seq<char>, Seq<char>) {
        match self {
            ImportModel::Func { namespace, name, .. } => (namespace, name),
            ImportModel::Global { namespace, name, .. } => (namespace, name),
        }
    }
}

impl ExportModel {
    /// The key under which the export is registered: its name.
    pub open spec fn key(self) -> Seq<char> {
        match self {
            ExportModel::Func { name, .. } => name,
            ExportModel::Global { name, .. } => name,
        }
    }
}

/// Something that a module may import.
#[derive(Debug, Clone, PartialEq, Eq)]
pub enum Import {
    Func { namespace: String, name: String, params: Vec<WasmType>, result: Vec<WasmType> },
    Global { namespace: String, name: String, var_type: WasmType },
}

/// Something that a module must export.
#[derive(Debug, Clone, PartialEq, Eq)]
pub enum Export {
    Func { name: String, params: Vec<WasmType>, result: Vec<WasmType> },
    Global { name: String, var_type: WasmType },
}

impl View for Import {
    type V = ImportModel;

    open spec fn view(&self) -> ImportModel {
        match self {
            Import::Func { namespace, name, params, result } => ImportModel::Func {
                namespace: namespace@,
                name: name@,
                params: params@,
                result: result@,
            },
            Import::Global { namespace, name, var_type } => ImportModel::Global {
                namespace: namespace@,
                name: name@,
                var_type: *var_type,
            },
        }
    }
}

impl View for Export {
    type V = ExportModel;

    open spec fn view(&self) -> ExportModel {
        match self {
            Export::Func { name, params, result } => ExportModel::Func {
                name: name@,
                params: params@,
                result: result@,
            },
            Export::Global { name, var_type } => ExportModel::Global {
                name: name@,
                var_type: *var_type,
            },
        }
    }
}

/// Copies a list of value types.
pub fn copy_types(v: &Vec<WasmType>) -> (res: Vec<WasmType>)
    ensures
        res@ == v@,
{
    let mut out: Vec<WasmType> = Vec::new();
    for i in 0..v.len()
        invariant
            out@ == v@.take(i as int),
    {
        out.push(v[i]);
    }
    out
}

impl Import {
    /// The key of an import with the given module and field names.
    pub fn format_key(module: &str, field: &str) -> (res: (String, String))
        ensures
            res.0@ == module@,
            res.1@ == field@,
    {
        (module.to_owned(), field.to_owned())
    }

    /// Get the key used to look this import up in the contract's imports.
    pub fn get_key(&self) -> (res: (String, String))
        ensures
            (res.0@, res.1@) == self@.key(),
    {
        match self {
            Import::Func { namespace, name, .. } => (namespace.clone(), name.clone()),
            Import::Global { namespace, name, .. } => (namespace.clone(), name.clone()),
        }
    }

    /// An independent copy of this import.
    pub fn duplicate(&self) -> (res: Import)
        ensures
            res@ == self@,
    {
        match self {
            Import::Func { namespace, name, params, result } => Import::Func {
                namespace: namespace.clone(),
                name: name.clone(),
                params: copy_types(params),
                result: copy_types(result),
            },
            Import::Global { namespace, name, var_type } => Import::Global {
                namespace: namespace.clone(),
                name: name.clone(),
                var_type: *var_type,
            },
        }
    }
}

impl Export {
    /// The key of an export with the given field name.
    pub fn format_key(field: &str) -> (res: String)
        ensures
            res@ == field@,
    {
        field.to_owned()
    }

    /// Get the key used to look this export up in the contract's exports.
    pub fn get_key(&self) -> (res: String)
        ensures
            res@ == self@.key(),
    {
        match self {
            Export::Func { name, .. } => name.clone(),
            Export::Global { name, .. } => name.clone(),
        }
    }

    /// An independent copy of this export.
    pub fn duplicate(&self) -> (res: Export)
        ensures
            res@ == self@,
    {
        match self {
            Export::Func { name, params, result } => Export::Func {
                name: name.clone(),
                params: copy_types(params),
                result: copy_types(result),
            },
            Export::Global { name, var_type } => Export::Global {
                name: name.clone(),
                var_type: *var_type,
            },
        }
    }
}

/// Index of the first import with the given key, or -1.
pub open spec fn import_index(imports: Seq<ImportModel>, key: (Seq<char>, Seq<char>)) -> int
    decreases imports.len(),
{
    if imports.len() == 0 {
        -1
    } else if imports[0].key() == key {
        0
    } else {
        let r = import_index(imports.drop_first(), key);
        if r < 0 { -1 } else { r + 1 }
    }
}

/// Index of the first export with the given key, or -1.
pub open spec fn export_index(exports: Seq<ExportModel>, key: Seq<char>) -> int
    decreases exports.len(),
{
    if exports.len() == 0 {
        -1
    } else if exports[0].key() == key {
        0
    } else {
        let r = export_index(exports.drop_first(), key);
        if r < 0 { -1 } else { r + 1 }
    }
}

/// The imports of a contract are keyed uniquely.
pub open spec fn imports_unique(imports: Seq<ImportModel>) -> bool {
    forall|i: int, j: int|
        0 <= i < imports.len() && 0 <= j < imports.len() && i != j
            ==> imports[i].key() != imports[j].key()
}

/// The exports of a contract are keyed uniquely.
pub open spec fn exports_unique(exports: Seq<ExportModel>) -> bool {
    forall|i: int, j: int|
        0 <= i < exports.len() && 0 <= j < exports.len() && i != j
            ==> exports[i].key() != exports[j].key()
}

/// A wasm contract: the imports a module may use and the exports it must have,
/// each kept in the order in which the contract text declares them.
#[derive(Debug, Clone, PartialEq, Eq)]
pub struct Contract {
    /// Things that the module can import
    pub imports: Vec<Import>,
    /// Things that the module must export
    pub exports: Vec<Export>,
}

/// Abstract value of a contract.
pub struct ContractModel {
    pub imports: Seq<ImportModel>,
    pub exports: Seq<ExportModel>,
}

impl View for Contract {
    type V = ContractModel;

    open spec fn view(&self) -> ContractModel {
        ContractModel {
            imports: self.imports@.map_values(|i: Import| i@),
            exports: self.exports@.map_values(|e: Export| e@),
        }
    }
}

impl ContractModel {
    /// No two imports and no two exports share a key.
    pub open spec fn wf(self) -> bool {
        imports_unique(self.imports) && exports_unique(self.exports)
    }

    /// The import registered under a key, if any.
    pub open spec fn import_for(self, key: (Seq<char>, Seq<char>)) -> Option<ImportModel> {
        let k = import_index(self.imports, key);
        if k < 0 { None } else { Some(self.imports[k]) }
    }

    /// The export registered under a key, if any.
    pub open spec fn export_for(self, key: Seq<char>) -> Option<ExportModel> {
        let k = export_index(self.exports, key);
        if k < 0 { None } else { Some(self.exports[k]) }
    }
}


/// `import_index` finds the first import with the key, and -1 when there is none.
pub proof fn lemma_import_index(imports: Seq<ImportModel>, key: (Seq<char>, Seq<char>))
    ensures
        -1 <= import_index(imports, key) < imports.len(),
        import_index(imports, key) == -1 <==> forall|m: int|
            0 <= m < imports.len() ==> imports[m].key() != key,
        import_index(imports, key) >= 0 ==> imports[import_index(imports, key)].key() == key,
        forall|m: int| 0 <= m < import_index(imports, key) ==> imports[m].key() != key,
    decreases imports.len(),
{
    if imports.len() > 0 {
        lemma_import_index(imports.drop_first(), key);
        assert forall|m: int| 1 <= m < imports.len() implies imports[m] == imports.drop_first()[m
            - 1] by {}
    }
}

/// `export_index` finds the first export with the key, and -1 when there is none.
pub proof fn lemma_export_index(exports: Seq<ExportModel>, key: Seq<char>)
    ensures
        -1 <= export_index(exports, key) < exports.len(),
        export_index(exports, key) == -1 <==> forall|m: int|
            0 <= m < exports.len() ==> exports[m].key() != key,
        export_index(exports, key) >= 0 ==> exports[export_index(exports, key)].key() == key,
        forall|m: int| 0 <= m < export_index(exports, key) ==> exports[m].key() != key,
    decreases exports.len(),
{
    if exports.len() > 0 {
        lemma_export_index(exports.drop_first(), key);
        assert forall|m: int| 1 <= m < exports.len() implies exports[m] == exports.drop_first()[m
            - 1] by {}
    }
}

/// Position of the first import registered under `key`.
pub fn find_import(imports: &Vec<Import>, namespace: &String, name: &String) -> (res: Option<usize>)
    ensures
        res is None ==> import_index(imports@.map_values(|i: Import| i@), (namespace@, name@))
            == -1,
        res matches Some(k) ==> import_index(imports@.map_values(|i: Import| i@), (namespace@, name@))
            == k as int,
{
    let ghost v = imports@.map_values(|i: Import| i@);
    proof {
        lemma_import_index(v, (namespace@, name@));
    }
    for k in 0..imports.len()
        invariant
            v == imports@.map_values(|i: Import| i@),
            forall|m: int| 0 <= m < k ==> v[m].key() != (namespace@, name@),
    {
        let hit = match &imports[k] {
            Import::Func { namespace: ns, name: n, .. } => *ns == *namespace && *n == *name,
            Import::Global { namespace: ns, name: n, .. } => *ns == *namespace && *n == *name,
        };
        if hit {
            assert(v[k as int].key() == (namespace@, name@));
            proof {
                lemma_import_index(v, (namespace@, name@));
            }
            let ghost idx = import_index(v, (namespace@, name@));
            assert(idx >= 0);
            proof {
                if idx < k as int {
                    assert(v[idx].key() == (namespace@, name@));
                }
            }
            return Some(k);
        }
    }
    assert(forall|m: int| 0 <= m < v.len() ==> v[m].key() != (namespace@, name@));
    None
}

/// Position of the first export registered under `name`.
pub fn find_export(exports: &Vec<Export>, name: &String) -> (res: Option<usize>)
    ensures
        res is None ==> export_index(exports@.map_values(|e: Export| e@), name@) == -1,
        res matches Some(k) ==> export_index(exports@.map_values(|e: Export| e@), name@) == k as int,
{
    let ghost v = exports@.map_values(|e: Export| e@);
    proof {
        lemma_export_index(v, name@);
    }
    for k in 0..exports.len()
        invariant
            v == exports@.map_values(|e: Export| e@),
            forall|m: int| 0 <= m < k ==> v[m].key() != name@,
    {
        let hit = match &exports[k] {
            Export::Func { name: n, .. } => *n == *name,
            Export::Global { name: n, .. } => *n == *name,
        };
        if hit {
            assert(v[k as int].key() == name@);
            proof {
                lemma_export_index(v, name@);
            }
            let ghost idx = export_index(v, name@);
            assert(idx >= 0);
            proof {
                if idx < k as int {
                    assert(v[idx].key() == name@);
                }
            }
            return Some(k);
        }
    }
    assert(forall|m: int| 0 <= m < v.len() ==> v[m].key() != name@);
    None
}

} // verus!
