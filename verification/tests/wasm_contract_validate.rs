use wapm_cli::wasm_contract::parser::parse_contract;
use wapm_cli::wasm_contract::validate::{
    checked_validate_wasm_and_report_errors, validate_wasm_and_report_errors,
    wasmparser_type_into_wasm_type, ContractViolation, FuncRef, WasmValidationError,
};
use wapm_cli::wasm_contract::WasmType;

fn leb(bytes: &[u8], pos: &mut usize) -> usize {
    let (mut value, mut shift) = (0usize, 0);
    loop {
        let b = bytes[*pos];
        *pos += 1;
        value |= ((b & 0x7f) as usize) << shift;
        if b & 0x80 == 0 {
            return value;
        }
        shift += 7;
    }
}

/// Compiles the text to a binary without the debug-names section, as
/// `wat2wasm` writes it by default.
fn wasm(wat_text: &str) -> Vec<u8> {
    let bytes = wat::parse_str(wat_text).unwrap();
    let mut out = bytes[..8].to_vec();
    let mut pos = 8;
    while pos < bytes.len() {
        let start = pos;
        let id = bytes[pos];
        pos += 1;
        let size = leb(&bytes, &mut pos);
        let end = pos + size;
        let is_names = id == 0 && {
            let mut p = pos;
            let n = leb(&bytes, &mut p);
            &bytes[p..p + n] == b"name"
        };
        if !is_names {
            out.extend_from_slice(&bytes[start..end]);
        }
        pos = end;
    }
    out
}

fn violations(r: Result<(), WasmValidationError>) -> Vec<ContractViolation> {
    match r {
        Err(WasmValidationError::ContractViolated { errors }) => errors,
        other => panic!("expected contract violations, got {:?}", other),
    }
}

#[test]
fn global_imports() {
    const WAT: &str = r#"(module
(type $t0 (func (param i32 i64)))
(global $length (import "env" "length") i32)
(import "env" "do_panic" (func $do_panic (type $t0)))
)"#;
    let wasm = wasm(WAT);

    let contract_src = r#"
(assert_import (func "env" "do_panic" (param i32 i64)))
(assert_import (global "env" "length" (type i32)))"#;
    let contract = parse_contract(contract_src).unwrap();
    let result = validate_wasm_and_report_errors(&wasm[..], &contract);
    assert!(result.is_ok());

    // Now set the global import type to mismatch the wasm
    let contract_src = r#"
(assert_import (func "env" "do_panic" (param i32 i64)))
(assert_import (global "env" "length" (type i64)))"#;
    let contract = parse_contract(contract_src).unwrap();
    let result = validate_wasm_and_report_errors(&wasm[..], &contract);
    assert!(result.is_err(), "global import type mismatch causes an error");

    // Now set the function import type to mismatch the wasm
    let contract_src = r#"
(assert_import (func "env" "do_panic" (param i64)))
(assert_import (global "env" "length" (type i32)))"#;
    let contract = parse_contract(contract_src).unwrap();
    let result = validate_wasm_and_report_errors(&wasm[..], &contract);
    assert!(result.is_err(), "function import type mismatch causes an error");

    // Now try with a module that has an import that the contract doesn't have
    let contract_src = r#"
(assert_import (func "env" "do_panic" (param i64)))
(assert_import (global "env" "length_plus_plus" (type i32)))"#;
    let contract = parse_contract(contract_src).unwrap();
    let result = validate_wasm_and_report_errors(&wasm[..], &contract);
    assert!(result.is_err(), "all imports must be covered by the contract");
}

#[test]
fn global_exports() {
    const WAT: &str = r#"(module
(func (export "as-set_local-first") (param i32) (result i32)
  (nop) (i32.const 2) (local.set 0) (local.get 0))
(global (export "num_tries") i64 (i64.const 0))
)"#;
    let wasm = wasm(WAT);

    let contract_src = r#"
(assert_export (func "as-set_local-first" (param i32) (result i32)))
(assert_export (global "num_tries" (type i64)))"#;
    let contract = parse_contract(contract_src).unwrap();
    let result = validate_wasm_and_report_errors(&wasm[..], &contract);
    assert!(result.is_ok());

    // Now set the global export type to mismatch the wasm
    let contract_src = r#"
(assert_export (func "as-set_local-first" (param i32) (result i32)))
(assert_export (global "num_tries" (type f32)))"#;
    let contract = parse_contract(contract_src).unwrap();
    let result = validate_wasm_and_report_errors(&wasm[..], &contract);
    assert!(result.is_err(), "global export type mismatch causes an error");

    // Now set the function export type to mismatch the wasm
    let contract_src = r#"
(assert_export (func "as-set_local-first" (param i64) (result i64)))
(assert_export (global "num_tries" (type i64)))"#;
    let contract = parse_contract(contract_src).unwrap();
    let result = validate_wasm_and_report_errors(&wasm[..], &contract);
    assert!(result.is_err(), "function export type mismatch causes an error");

    // Now try a contract that requires an export that the module doesn't have
    let contract_src = r#"
(assert_export (func "as-set_local-first" (param i64) (result i64)))
(assert_export (global "numb_trees" (type i64)))"#;
    let contract = parse_contract(contract_src).unwrap();
    let result = validate_wasm_and_report_errors(&wasm[..], &contract);
    assert!(result.is_err(), "missing a required export is an error");
}

#[test]
fn undeclared_import_is_named() {
    let wasm = wasm(r#"(module (import "env" "f" (func (param i32))))"#);
    let contract = parse_contract("").unwrap();
    let errors = violations(validate_wasm_and_report_errors(&wasm[..], &contract));
    assert_eq!(
        errors,
        vec![ContractViolation::MissingImport { namespace: "env".to_string(), name: "f".to_string() }]
    );
}

#[test]
fn global_import_mismatch_is_named() {
    let wasm = wasm(r#"(module (global (import "env" "g") i32))"#);
    let contract = parse_contract(r#"(assert_import (global "env" "g" (type f64)))"#).unwrap();
    let errors = violations(validate_wasm_and_report_errors(&wasm[..], &contract));
    assert_eq!(
        errors,
        vec![ContractViolation::GlobalImportTypeMismatch {
            field: "g".to_string(),
            expected: WasmType::F64,
            found: WasmType::I32,
        }]
    );
    let contract = parse_contract("").unwrap();
    let errors = violations(validate_wasm_and_report_errors(&wasm[..], &contract));
    assert_eq!(errors, vec![ContractViolation::GlobalImportNotInContract { field: "g".to_string() }]);
}

#[test]
fn extra_param_and_mismatch_are_named() {
    let wasm = wasm(r#"(module (import "env" "f" (func (param i32 i64) (result f32))))"#);
    let contract =
        parse_contract(r#"(assert_import (func "env" "f" (param i64) (result f32)))"#).unwrap();
    let errors = violations(validate_wasm_and_report_errors(&wasm[..], &contract));
    let func = FuncRef::Imported { namespace: "env".to_string(), name: "f".to_string() };
    assert_eq!(
        errors,
        vec![
            ContractViolation::TypeMismatch { in_results: false, func: func.clone() },
            ContractViolation::ExtraType { in_results: false, found: 1, expected: 1, func },
        ]
    );
}

#[test]
fn missing_export_is_named() {
    let wasm = wasm(r#"(module)"#);
    let contract = parse_contract(r#"(assert_export (global "g" (type i32)))"#).unwrap();
    let errors = violations(validate_wasm_and_report_errors(&wasm[..], &contract));
    assert_eq!(errors, vec![ContractViolation::MissingExport { name: "g".to_string() }]);
}

#[test]
fn invalid_binary_is_refused() {
    let contract = parse_contract("").unwrap();
    match validate_wasm_and_report_errors(&[0, 1, 2, 3][..], &contract) {
        Err(WasmValidationError::InvalidWasm { .. }) => {}
        other => panic!("expected an invalid wasm error, got {:?}", other),
    }
}

#[test]
fn imported_global_can_be_exported() {
    let wasm = wasm(r#"(module (global (import "env" "g") i32) (export "g" (global 0)))"#);
    let contract = parse_contract(
        r#"(assert_import (global "env" "g" (type i32)))
(assert_export (global "g" (type i32)))"#,
    )
    .unwrap();
    assert_eq!(checked_validate_wasm_and_report_errors(&wasm[..], &contract), Some(Ok(())));
    let contract = parse_contract(
        r#"(assert_import (global "env" "g" (type i32)))
(assert_export (global "g" (type i64)))"#,
    )
    .unwrap();
    assert_eq!(
        violations(validate_wasm_and_report_errors(&wasm[..], &contract)),
        vec![ContractViolation::GlobalExportTypeMismatch {
            name: "g".to_string(),
            expected: WasmType::I64,
            found: WasmType::I32,
        }]
    );
}

#[test]
fn missing_params_and_results_are_named() {
    let wasm = wasm(r#"(module (import "env" "f" (func (param i32))))"#);
    let contract =
        parse_contract(r#"(assert_import (func "env" "f" (param i32 i64) (result f32)))"#).unwrap();
    let errors = violations(validate_wasm_and_report_errors(&wasm[..], &contract));
    let func = FuncRef::Imported { namespace: "env".to_string(), name: "f".to_string() };
    assert_eq!(
        errors,
        vec![
            ContractViolation::MissingType { in_results: false, found: 1, expected: 2, func: func.clone() },
            ContractViolation::MissingType { in_results: true, found: 0, expected: 1, func },
        ]
    );
}

#[test]
fn exported_function_type_is_found_through_its_type_index() {
    let wasm = wasm(
        r#"(module
(type $t0 (func (param i64)))
(type $t1 (func (param i32) (result i32)))
(import "env" "f" (func (type $t0)))
(func $g (type $t1) (local.get 0))
(export "g" (func $g)))"#,
    );
    let contract = parse_contract(
        r#"(assert_import (func "env" "f" (param i64)))
(assert_export (func "g" (param i32) (result i32)))"#,
    )
    .unwrap();
    assert_eq!(validate_wasm_and_report_errors(&wasm[..], &contract), Ok(()));
    let contract = parse_contract(
        r#"(assert_import (func "env" "f" (param i64)))
(assert_export (func "g" (param i64)))"#,
    )
    .unwrap();
    let errors = violations(validate_wasm_and_report_errors(&wasm[..], &contract));
    let func = FuncRef::Exported { name: "g".to_string() };
    assert_eq!(
        errors,
        vec![
            ContractViolation::TypeMismatch { in_results: false, func: func.clone() },
            ContractViolation::ExtraType { in_results: true, found: 0, expected: 0, func },
        ]
    );
}

#[test]
fn parser_type_names_convert() {
    assert_eq!(wasmparser_type_into_wasm_type(&"I32".to_string()), Ok(WasmType::I32));
    assert_eq!(wasmparser_type_into_wasm_type(&"F64".to_string()), Ok(WasmType::F64));
    assert_eq!(
        wasmparser_type_into_wasm_type(&"V128".to_string()),
        Err("Invalid type found: V128".to_string())
    );
}

#[test]
fn an_import_of_the_wrong_kind_is_named() {
    let wasm = wasm(r#"(module (import "env" "g" (func (param i32))))"#);
    let contract = parse_contract(r#"(assert_import (global "env" "g" (type i32)))"#).unwrap();
    let errors = violations(validate_wasm_and_report_errors(&wasm[..], &contract));
    assert_eq!(errors.len(), 1);
    assert!(matches!(errors[0], ContractViolation::ImportNotFunc { .. }));
}
