use wapm_cli::text::chars_of;
use wapm_cli::wasm_contract::parser::{
    func_export, func_import, global_export, global_import, identifier, parse_contract,
    space_comments, wasm_type, ContractParseError,
};
use wapm_cli::wasm_contract::{Contract, Export, Import, WasmType};

fn whole<T>(input: &str, r: Option<(T, usize)>) -> (String, T) {
    let (v, end) = r.expect("parse failed");
    let rest: String = input.chars().skip(end).collect();
    (rest, v)
}

#[test]
fn parse_wasm_type() {
    for (text, t) in [
        ("i32", WasmType::I32),
        ("i64", WasmType::I64),
        ("f32", WasmType::F32),
        ("f64", WasmType::F64),
    ] {
        let s = chars_of(text);
        assert_eq!(whole(text, wasm_type(&s, 0)), ("".to_string(), t));
    }
    let s = chars_of("i128");
    assert!(wasm_type(&s, 0).is_none());
}

#[test]
fn parse_identifier() {
    let inner_str = "柴は可愛すぎるだと思います";
    let input = format!("\"{}\"", &inner_str);
    let s = chars_of(&input);
    let parse_res = whole(&input, identifier(&input, &s, 0));
    assert_eq!(parse_res, ("".to_string(), inner_str.to_string()))
}

#[test]
fn parse_global_import() {
    let input = "(global \"env\" \"length\" (type i32))";
    let s = chars_of(input);
    let parse_res = whole(input, global_import(input, &s, 0));
    assert_eq!(
        parse_res,
        (
            "".to_string(),
            Import::Global {
                namespace: "env".to_string(),
                name: "length".to_string(),
                var_type: WasmType::I32,
            }
        )
    );
}

#[test]
fn parse_global_export() {
    let input = "(global \"length\" (type i32))";
    let s = chars_of(input);
    let parse_res = whole(input, global_export(input, &s, 0));
    assert_eq!(
        parse_res,
        ("".to_string(), Export::Global { name: "length".to_string(), var_type: WasmType::I32 })
    );
}

#[test]
fn parse_func_import() {
    let input = "(func \"ns\" \"name\" (param f64 i32) (result f64 i32))";
    let s = chars_of(input);
    let parse_res = whole(input, func_import(input, &s, 0));
    assert_eq!(
        parse_res,
        (
            "".to_string(),
            Import::Func {
                namespace: "ns".to_string(),
                name: "name".to_string(),
                params: vec![WasmType::F64, WasmType::I32],
                result: vec![WasmType::F64, WasmType::I32],
            }
        )
    );
}

#[test]
fn parse_func_export() {
    let input = "(func \"name\" (param f64 i32) (result f64 i32))";
    let s = chars_of(input);
    let parse_res = whole(input, func_export(input, &s, 0));
    assert_eq!(
        parse_res,
        (
            "".to_string(),
            Export::Func {
                name: "name".to_string(),
                params: vec![WasmType::F64, WasmType::I32],
                result: vec![WasmType::F64, WasmType::I32],
            }
        )
    );
}

fn imports_of(input: &str) -> (String, Vec<Import>) {
    let s = chars_of(input);
    whole(input, wapm_cli::wasm_contract::parser::imports_block(input, &s, 0))
}

#[test]
fn parse_imports_test() {
    let parse_res =
        imports_of("(assert_import (func \"ns\" \"name\" (param f64 i32) (result f64 i32)))");
    assert_eq!(
        parse_res,
        (
            "".to_string(),
            vec![Import::Func {
                namespace: "ns".to_string(),
                name: "name".to_string(),
                params: vec![WasmType::F64, WasmType::I32],
                result: vec![WasmType::F64, WasmType::I32],
            }]
        )
    );

    let parse_res = imports_of(
        "(assert_import (func \"ns\" \"name\"  
                                               (param f64 i32) (result f64 i32))
    ( global \"env\" \"length\" ( type 
;; i32 is the best type
i32 )
)
                                          (func \"ns\" \"name2\" (param f32
                                                                      i64)
                               ;; The return value comes next
                                                                (
                                                                 result
                                                                 f64
                                                                 i32
                                                                 )
                                          ) 
)",
    );
    assert_eq!(
        parse_res,
        (
            "".to_string(),
            vec![
                Import::Func {
                    namespace: "ns".to_string(),
                    name: "name".to_string(),
                    params: vec![WasmType::F64, WasmType::I32],
                    result: vec![WasmType::F64, WasmType::I32],
                },
                Import::Global {
                    namespace: "env".to_string(),
                    name: "length".to_string(),
                    var_type: WasmType::I32,
                },
                Import::Func {
                    namespace: "ns".to_string(),
                    name: "name2".to_string(),
                    params: vec![WasmType::F32, WasmType::I64],
                    result: vec![WasmType::F64, WasmType::I32],
                },
            ]
        )
    );
}

#[test]
fn top_level_test() {
    let parse_res = parse_contract(
        " (assert_import (func \"ns\" \"name\" (param f64 i32) (result f64 i32)))
 (assert_export (func \"name2\" (param) (result i32)))
 (assert_import (global \"env\" \"length\" (type f64)))",
    )
    .unwrap();

    let imports = vec![
        Import::Func {
            namespace: "ns".to_string(),
            name: "name".to_string(),
            params: vec![WasmType::F64, WasmType::I32],
            result: vec![WasmType::F64, WasmType::I32],
        },
        Import::Global {
            namespace: "env".to_string(),
            name: "length".to_string(),
            var_type: WasmType::F64,
        },
    ];
    let exports = vec![Export::Func {
        name: "name2".to_string(),
        params: vec![],
        result: vec![WasmType::I32],
    }];
    assert_eq!(parse_res, Contract { imports, exports });
}

#[test]
fn duplicates_not_allowed() {
    let parse_res = parse_contract(
        " (assert_import (func \"ns\" \"name\" (param f64 i32) (result f64 i32)))
; test comment
  ;; hello
 (assert_import (func \"ns\" \"name\" (param) (result i32)))
 (assert_import (global \"length\" (type f64)))

",
    );

    assert!(parse_res.is_err());
}

#[test]
fn test_comment_space_parsing() {
    for (input, rest) in [(" ", ""), ("", ""), ("; hello\n", ""), ("abc", "abc")] {
        let s = chars_of(input);
        let end = space_comments(&s, 0);
        let remaining: String = input.chars().skip(end).collect();
        assert_eq!(remaining, rest);
    }
}

#[test]
fn test_param_elision() {
    let parse_res = parse_contract(
        " (assert_import (func \"ns\" \"name\" (result f64 i32)))
(assert_export (func \"name\"))",
    )
    .unwrap();

    let imports = vec![Import::Func {
        namespace: "ns".to_string(),
        name: "name".to_string(),
        params: vec![],
        result: vec![WasmType::F64, WasmType::I32],
    }];
    let exports =
        vec![Export::Func { name: "name".to_string(), params: vec![], result: vec![] }];
    assert_eq!(parse_res, Contract { imports, exports });
}

#[test]
fn typo_gets_caught() {
    let contract_src = r#"
(assert_import (func "env" "do_panic" (params i32 i64)))
(assert_import (global "length" (type i32)))"#;
    let result = parse_contract(contract_src);
    assert!(result.is_err());
}

#[test]
fn duplicate_reports_earlier_declaration() {
    let parse_res = parse_contract(
        "(assert_import (global \"env\" \"a\" (type i32)))(assert_import (global \"env\" \"a\" (type i64)))",
    );
    assert_eq!(
        parse_res,
        Err(ContractParseError::DuplicateImport(Import::Global {
            namespace: "env".to_string(),
            name: "a".to_string(),
            var_type: WasmType::I32,
        }))
    );
}

#[test]
fn trailing_text_is_reported() {
    let parse_res = parse_contract("(assert_export (global \"a\" (type i32))) junk");
    assert_eq!(parse_res, Err(ContractParseError::UnparsedInput(" junk".to_string())));
}

#[test]
fn escapes_are_kept_as_written() {
    let input = "\"a\\\"b\"";
    let s = chars_of(input);
    assert_eq!(whole(input, identifier(input, &s, 0)), ("".to_string(), "a\\\"b".to_string()));
    let s = chars_of("\"\"");
    assert!(identifier("\"\"", &s, 0).is_none());
}
