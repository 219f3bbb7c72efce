//! Tests for the declaration tokenizer and parser.

use nvim_wasm::model::{ApiKeyset, ApiType, ApiVersion};
use nvim_wasm::parser::{api_functions, api_keysets, parse_funcs, parse_keysets, parse_line};
use nvim_wasm::token::{parse_i32, tokenize, ParseErrorKind, TokenIterator};

fn keyset_foo() -> Vec<ApiKeyset> {
    api_keysets("typedef struct {\n  Object k1;\n  Object k2;\n} Dict(foo);").unwrap()
}

#[test]
fn tokenize_specials_and_identifiers() {
    let toks = tokenize("Integer nvim_get_vvar(String name, Error *err);");
    let expect = vec![
        "Integer",
        "nvim_get_vvar",
        "(",
        "String",
        "name",
        ",",
        "Error",
        "*",
        "err",
        ")",
        ";",
    ];
    assert_eq!(toks.len(), expect.len());
    for (t, e) in toks.iter().zip(expect.iter()) {
        assert_eq!(t.as_str(), *e);
    }
}

#[test]
fn tokenize_skips_whitespace_runs() {
    let toks = tokenize("  a\t\tbc \r\n d ");
    let expect = vec!["a", "bc", "d"];
    assert_eq!(toks.len(), expect.len());
    for (t, e) in toks.iter().zip(expect.iter()) {
        assert_eq!(t.as_str(), *e);
    }
}

#[test]
fn peek_is_idempotent_and_next_consumes() {
    let mut it = TokenIterator::new("a b");
    assert_eq!(it.peek_token().unwrap().as_str(), "a");
    assert_eq!(it.peek_token().unwrap().as_str(), "a");
    assert_eq!(it.next_token().unwrap().as_str(), "a");
    assert_eq!(it.next_token().unwrap().as_str(), "b");
    assert!(it.next_token().is_none());
}

#[test]
fn next_number_reads_decimal_tokens() {
    let mut it = TokenIterator::new("12 -7 +3 x 99999999999");
    assert_eq!(it.next_number().unwrap(), 12);
    assert_eq!(it.next_number().unwrap(), -7);
    assert_eq!(it.next_number().unwrap(), 3);
    assert_eq!(it.next_number().unwrap_err().kind, ParseErrorKind::BadNumber);
    assert_eq!(it.next_number().unwrap_err().kind, ParseErrorKind::BadNumber);
    assert_eq!(it.next_number().unwrap_err().kind, ParseErrorKind::UnexpectedEnd);
}

#[test]
fn parse_i32_boundaries() {
    assert_eq!(parse_i32(&"2147483647".to_string()), Some(2147483647));
    assert_eq!(parse_i32(&"2147483648".to_string()), None);
    assert_eq!(parse_i32(&"-2147483648".to_string()), Some(-2147483648));
    assert_eq!(parse_i32(&"-2147483649".to_string()), None);
    assert_eq!(parse_i32(&"+0".to_string()), Some(0));
    assert_eq!(parse_i32(&"+".to_string()), None);
    assert_eq!(parse_i32(&"".to_string()), None);
    assert_eq!(parse_i32(&"12a".to_string()), None);
}

#[test]
fn simple_function_declaration() {
    let keysets: Vec<ApiKeyset> = Vec::new();
    let f = parse_line("Integer nvim_get_vvar(String name, Error *err);", &keysets).unwrap();
    assert_eq!(f.name.as_str(), "nvim_get_vvar");
    assert_eq!(f.args.args.len(), 1);
    assert_eq!(f.args.args[0].name.as_str(), "name");
    assert_eq!(f.args.args[0].type_, ApiType::String);
    assert_eq!(f.return_.type_, Some(ApiType::Integer));
    assert!(f.return_.has_error);
    assert!(!f.args.has_channel_id);
    assert!(!f.args.has_arena);
}

#[test]
fn implicit_roles_are_dropped_from_arguments() {
    let keysets = keyset_foo();
    let f = parse_line(
        "void nvim_foo(uint64_t channel_id, Arena *arena, Dict(foo) *opts);",
        &keysets,
    )
    .unwrap();
    assert!(f.args.has_channel_id);
    assert!(f.args.has_arena);
    assert_eq!(f.return_.type_, None);
    assert!(!f.return_.has_error);
    assert_eq!(f.args.args.len(), 1);
    assert_eq!(f.args.args[0].name.as_str(), "opts");
    match &f.args.args[0].type_ {
        ApiType::Keyset(k) => {
            assert_eq!(k.name.as_str(), "foo");
            assert_eq!(k.fields.len(), 2);
            assert_eq!(k.fields[0].name.as_str(), "k1");
            assert_eq!(k.fields[1].name.as_str(), "k2");
        }
        other => panic!("expected a keyset argument, got {:?}", other),
    }
}

#[test]
fn dllexport_prefix_and_attributes() {
    let keysets: Vec<ApiKeyset> = Vec::new();
    let f = parse_line(
        "DLLEXPORT Boolean nvim_x(void) FUNC_API_SINCE(7) FUNC_API_FAST FUNC_API_REMOTE_ONLY FUNC_API_CHECK_TEXTLOCK;",
        &keysets,
    )
    .unwrap();
    assert_eq!(f.name.as_str(), "nvim_x");
    assert_eq!(f.args.args.len(), 0);
    assert_eq!(f.attrs.since, Some(ApiVersion { version: 7 }));
    assert!(f.attrs.fast);
    assert!(f.attrs.remote_only);
    assert!(f.attrs.check_text_lock);
}

#[test]
fn array_of_type_hint() {
    let keysets: Vec<ApiKeyset> = Vec::new();
    let f = parse_line("ArrayOf(Integer) nvim_list(Array a);", &keysets).unwrap();
    match &f.return_.type_ {
        Some(ApiType::Array(at)) => {
            assert_eq!(at.inner_type.as_deref(), Some(&ApiType::Integer));
        }
        other => panic!("expected an array return type, got {:?}", other),
    }
    match &f.args.args[0].type_ {
        ApiType::Array(at) => assert!(at.inner_type.is_none()),
        other => panic!("expected an opaque array argument, got {:?}", other),
    }
}

#[test]
fn unknown_type_drops_the_line_but_not_the_batch() {
    let keysets: Vec<ApiKeyset> = Vec::new();
    assert!(parse_line("Integer nvim_bad(Frobnicate x);", &keysets).is_err());
    let funcs = parse_funcs(
        "Integer nvim_bad(Frobnicate x);\nInteger nvim_ok(void);\n# a comment line\n",
        &keysets,
    );
    assert_eq!(funcs.len(), 1);
    assert_eq!(funcs[0].name.as_str(), "nvim_ok");
}

#[test]
fn void_argument_must_stand_alone() {
    let keysets: Vec<ApiKeyset> = Vec::new();
    assert!(parse_line("Integer nvim_b(void, Integer x);", &keysets).is_err());
}

#[test]
fn unresolved_keyset_is_rejected() {
    let keysets: Vec<ApiKeyset> = Vec::new();
    let r = parse_line("void nvim_foo(Dict(nope) *opts);", &keysets);
    assert_eq!(r.unwrap_err().kind, ParseErrorKind::UnresolvedKeyset);
}

#[test]
fn malformed_keyset_header_aborts_the_run() {
    assert!(parse_keysets("typedef struct {\n  Integer k1;\n} Dict(foo);").is_err());
    assert!(parse_keysets("typedef struct {\n  Object k1;\n} NotADict;").is_err());
    let r = api_functions(
        "typedef struct { Object k1 } Dict(foo);",
        &vec!["Integer nvim_ok(void);".to_string()],
    );
    assert!(r.is_err());
}

#[test]
fn keyset_filter_skips_preprocessor_and_blank_lines() {
    let ks = parse_keysets(
        "# include <something>\n\ntypedef struct {\n  Object a;\n# another directive\n} Dict(bar);\n",
    )
    .unwrap();
    assert_eq!(ks.len(), 1);
    assert_eq!(ks[0].name.as_str(), "bar");
    assert_eq!(ks[0].fields.len(), 1);
    assert_eq!(ks[0].fields[0].name.as_str(), "a");
}

#[test]
fn whole_run_parses_keysets_before_functions() {
    let funcs = api_functions(
        "typedef struct {\n  Object k1;\n} Dict(foo);\ntypedef struct {\n  Object z;\n} Dict(baz);",
        &vec![
            "void nvim_a(Dict(foo) *opts);".to_string(),
            "Integer nvim_b(Dict(baz) *opts, Error *err);".to_string(),
        ],
    )
    .unwrap();
    assert_eq!(funcs.len(), 2);
    assert_eq!(funcs[0].name.as_str(), "nvim_a");
    assert_eq!(funcs[1].name.as_str(), "nvim_b");
    assert!(funcs[1].return_.has_error);
}
