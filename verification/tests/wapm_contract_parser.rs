use wapm_cli::text::chars_of;
use wapm_cli::wasm_contract::parser::identifier;
use wapm_cli::wapm_contract::parser::{
    fn_export, fn_import, global_entry, imports_block, parse_contract, wasm_type,
};
use wapm_cli::wapm_contract::{Contract, Export, Import, WasmType};

fn whole<T>(input: &str, r: Option<(T, usize)>) -> (String, T) {
    let (v, end) = r.expect("parse failed");
    let rest: String = input.chars().skip(end).collect();
    (rest, v)
}

#[test]
fn parser_parse_wasm_type() {
    for (text, t) in [
        ("i32", WasmType::I32),
        ("i64", WasmType::I64),
        ("f32", WasmType::F32),
        ("f64", WasmType::F64),
    ] {
        let s = chars_of(text);
        assert_eq!(whole(text, wasm_type(&s, 0)), ("".to_string(), t));
    }
    let s = chars_of("i128");
    assert!(wasm_type(&s, 0).is_none());
}

#[test]
fn parser_parse_identifier() {
    let inner_str = "柴は可愛すぎるだと思います";
    let input = format!("\"{}\"", &inner_str);
    let s = chars_of(&input);
    assert_eq!(whole(&input, identifier(&input, &s, 0)), ("".to_string(), inner_str.to_string()))
}

fn global_import(input: &str) -> (String, Import) {
    let s = chars_of(input);
    let (rest, (name, var_type)) =
        whole(input, global_entry(input, &s, 0).map(|(n, t, k)| ((n, t), k)));
    (rest, Import::Global { name, var_type })
}

#[test]
fn parser_parse_global_import() {
    let parse_res = global_import("(global \"length\" (type i32))");
    assert_eq!(
        parse_res,
        ("".to_string(), Import::Global { name: "length".to_string(), var_type: WasmType::I32 })
    );
}

#[test]
fn parser_parse_global_export() {
    let input = "(global \"length\" (type i32))";
    let s = chars_of(input);
    let (rest, (name, var_type)) =
        whole(input, global_entry(input, &s, 0).map(|(n, t, k)| ((n, t), k)));
    assert_eq!(
        (rest, Export::Global { name, var_type }),
        ("".to_string(), Export::Global { name: "length".to_string(), var_type: WasmType::I32 })
    );
}

#[test]
fn parse_fn_import() {
    let input = "(fn \"ns\" \"name\" (param f64 i32) (result f64 i32))";
    let s = chars_of(input);
    assert_eq!(
        whole(input, fn_import(input, &s, 0)),
        (
            "".to_string(),
            Import::Fn {
                namespace: "ns".to_string(),
                name: "name".to_string(),
                params: vec![WasmType::F64, WasmType::I32],
                result: vec![WasmType::F64, WasmType::I32],
            }
        )
    );
}

#[test]
fn parse_fn_export() {
    let input = "(fn \"name\" (param f64 i32) (result f64 i32))";
    let s = chars_of(input);
    assert_eq!(
        whole(input, fn_export(input, &s, 0)),
        (
            "".to_string(),
            Export::Fn {
                name: "name".to_string(),
                params: vec![WasmType::F64, WasmType::I32],
                result: vec![WasmType::F64, WasmType::I32],
            }
        )
    );
}

fn parse_imports(input: &str) -> (String, Vec<Import>) {
    let s = chars_of(input);
    whole(input, imports_block(input, &s, 0))
}

#[test]
fn parser_parse_imports_test() {
    let parse_res =
        parse_imports("(assert-import (fn \"ns\" \"name\" (param f64 i32) (result f64 i32)))");
    assert_eq!(
        parse_res,
        (
            "".to_string(),
            vec![Import::Fn {
                namespace: "ns".to_string(),
                name: "name".to_string(),
                params: vec![WasmType::F64, WasmType::I32],
                result: vec![WasmType::F64, WasmType::I32],
            }]
        )
    );

    let parse_res = parse_imports(
        "(assert-import (fn \"ns\" \"name\"  
                                               (param f64 i32) (result f64 i32))
    ( global \"length\" ( type 
i32 )
)
                                          (fn \"ns\" \"name2\" (param f32
                                                                      i64)
                                                                (
                                                                 result
                                                                 f64
                                                                 i32
                                                                 )
                                          ) 
)",
    );
    assert_eq!(
        parse_res,
        (
            "".to_string(),
            vec![
                Import::Fn {
                    namespace: "ns".to_string(),
                    name: "name".to_string(),
                    params: vec![WasmType::F64, WasmType::I32],
                    result: vec![WasmType::F64, WasmType::I32],
                },
                Import::Global { name: "length".to_string(), var_type: WasmType::I32 },
                Import::Fn {
                    namespace: "ns".to_string(),
                    name: "name2".to_string(),
                    params: vec![WasmType::F32, WasmType::I64],
                    result: vec![WasmType::F64, WasmType::I32],
                },
            ]
        )
    );
}

#[test]
fn parser_top_level_test() {
    let parse_res = parse_contract(
        " (assert-import (fn \"ns\" \"name\" (param f64 i32) (result f64 i32)))
 (assert-export (fn \"name2\" (param) (result i32)))
 (assert-import (global \"length\" (type f64)))",
    );

    assert_eq!(
        parse_res,
        (
            "".to_string(),
            Contract {
                imports: vec![
                    Import::Fn {
                        namespace: "ns".to_string(),
                        name: "name".to_string(),
                        params: vec![WasmType::F64, WasmType::I32],
                        result: vec![WasmType::F64, WasmType::I32],
                    },
                    Import::Global { name: "length".to_string(), var_type: WasmType::F64 }
                ],
                exports: vec![Export::Fn {
                    name: "name2".to_string(),
                    params: vec![],
                    result: vec![WasmType::I32]
                }]
            }
        )
    );
}

#[test]
fn unreadable_text_is_returned() {
    let (rest, contract) = parse_contract("(assert-export (fn \"f\" (param) (result))) ;x");
    assert_eq!(rest, " ;x");
    assert_eq!(contract.exports.len(), 1);
    assert!(contract.imports.is_empty());
}

#[test]
fn import_keys() {
    let f = Import::Fn {
        namespace: "env".to_string(),
        name: "log".to_string(),
        params: vec![],
        result: vec![],
    };
    assert_eq!(f.get_key(), "env/log");
    let g = Import::Global { name: "len".to_string(), var_type: WasmType::I64 };
    assert_eq!(g.get_key(), "len");
    let e = Export::Fn { name: "main".to_string(), params: vec![], result: vec![] };
    assert_eq!(e.get_key(), "main");
}
