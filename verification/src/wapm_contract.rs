//! Wapm contracts: the earlier contract dialect, in which declarations read
//! `(assert-import (fn "ns" "name" (param ...) (result ...)))`,
//! `(assert-export (fn "name" (param ...) (result ...)))` and
//! `(assert-import (global "name" (type t)))`.

pub mod parser;

use vstd::prelude::*;
use vstd::string::StringExecFns;

verus! {

/// Primitive wasm value type.
#[derive(Debug, Clone, Copy, PartialEq, Eq, Structural)]
pub enum WasmType {
    I32,
    I64,
    F32,
    F64,
}

/// Abstract value of an import entry.
pub enum ImportModel {
    Fn { namespace: Seq<char>, name: Seq<char>, params: Seq<WasmType>, result: Seq<WasmType> },
    Global { name: Seq<char>, var_type: WasmType },
}

/// Abstract value of an export entry.
pub enum ExportModel {
    Fn { name: Seq<char>, params: Seq<WasmType>, result: Seq<WasmType> },
    Global { name: Seq<char>, var_type: WasmType },
}

/// Something that a module may import.
#[derive(Debug, Clone, PartialEq, Eq)]
pub enum Import {
    Fn { namespace: String, name: String, params: Vec<WasmType>, result: Vec<WasmType> },
    Global { name: String, var_type: WasmType },
}

/// Something that a module must export.
#[derive(Debug, Clone, PartialEq, Eq)]
pub enum Export {
    Fn { name: String, params: Vec<WasmType>, result: Vec<WasmType> },
    Global { name: String, var_type: WasmType },
}

impl View for Import {
    type V = ImportModel;

    open spec fn view(&self) -> ImportModel {
        match self {
            Import::Fn { namespace, name, params, result } => ImportModel::Fn {
                namespace: namespace@,
                name: name@,
                params: params@,
                result: result@,
            },
            Import::Global { name, var_type } => ImportModel::Global {
                name: name@,
                var_type: *var_type,
            },
        }
    }
}

impl View for Export {
    type V = ExportModel;

    open spec fn view(&self) -> ExportModel {
        match self {
            Export::Fn { name, params, result } => ExportModel::Fn {
                name: name@,
                params: params@,
                result: result@,
            },
            Export::Global { name, var_type } => ExportModel::Global {
                name: name@,
                var_type: *var_type,
            },
        }
    }
}

impl ImportModel {
    /// The lookup key: `namespace/name` for functions, the name for globals.
    pub open spec fn key(self) -> Seq<char> {
        match self {
            ImportModel::Fn { namespace, name, .. } => namespace + seq!['/'] + name,
            ImportModel::Global { name, .. } => name,
        }
    }
}

impl ExportModel {
    /// The lookup key: the export's name.
    pub open spec fn key(self) -> Seq<char> {
        match self {
            ExportModel::Fn { name, .. } => name,
            ExportModel::Global { name, .. } => name,
        }
    }
}

impl Import {
    /// Get the key used to look this import up in the contract's imports.
    pub fn get_key(&self) -> (res: String)
        ensures
            res@ == self@.key(),
    {
        match self {
            Import::Fn { namespace, name, .. } => {
                proof {
                    reveal_strlit("/");
                }
                namespace.clone().concat("/").concat(name.as_str())
            },
            Import::Global { name, .. } => name.clone(),
        }
    }
}

impl Export {
    /// Get the key used to look this export up in the contract's exports.
    pub fn get_key(&self) -> (res: String)
        ensures
            res@ == self@.key(),
    {
        match self {
            Export::Fn { name, .. } => name.clone(),
            Export::Global { name, .. } => name.clone(),
        }
    }
}

/// A wapm contract: its import and export declarations in the order given.
#[derive(Debug, Clone, PartialEq, Eq, Default)]
pub struct Contract {
    /// Things that the module can import
    pub imports: Vec<Import>,
    /// Things that the module must export
    pub exports: Vec<Export>,
}

/// Abstract value of a contract.
pub struct ContractModel {
    pub imports: Seq<ImportModel>,
    pub exports: Seq<ExportModel>,
}

impl View for Contract {
    type V = ContractModel;

    open spec fn view(&self) -> ContractModel {
        ContractModel {
            imports: self.imports@.map_values(|i: Import| i@),
            exports: self.exports@.map_values(|e: Export| e@),
        }
    }
}

} // verus!
