//! Tests for the name canonicalization.

use nvim_wasm::model::{ApiArg, ApiField, ApiFunc, ApiFuncArgs, ApiFuncAttrs, ApiFuncReturn,
    ApiKeyset, ApiType};
use nvim_wasm::model::normalized_wit_identifier;

fn func_named(name: &str) -> ApiFunc {
    ApiFunc {
        name: name.to_string(),
        args: ApiFuncArgs { args: Vec::new(), has_channel_id: false, has_arena: false },
        return_: ApiFuncReturn { type_: None, has_error: false },
        attrs: ApiFuncAttrs { since: None, fast: false, remote_only: false, check_text_lock: false },
    }
}

#[test]
fn wit_name_replaces_underscores() {
    assert_eq!(normalized_wit_identifier("nvim_create_augroup"), "nvim-create-augroup");
    assert_eq!(func_named("nvim_create_augroup").wit_name(), "nvim-create-augroup");
}

#[test]
fn wit_name_drops_empty_segments() {
    assert_eq!(normalized_wit_identifier("__foo--bar_"), "foo-bar");
    assert_eq!(func_named("__foo--bar_").wit_name(), "foo-bar");
}

#[test]
fn wit_name_of_plain_and_empty_names() {
    assert_eq!(normalized_wit_identifier("plain"), "plain");
    assert_eq!(normalized_wit_identifier(""), "");
    assert_eq!(normalized_wit_identifier("___"), "");
}

#[test]
fn keyset_wit_name_carries_prefix() {
    let ks = ApiKeyset { name: "float_config".to_string(), fields: Vec::new() };
    assert_eq!(ks.wit_name(), "keyset-float-config");
}

#[test]
fn arg_and_field_wit_names() {
    let arg = ApiArg { name: "buffer_id".to_string(), type_: ApiType::Integer };
    assert_eq!(arg.wit_name(), "buffer-id");
    let field = ApiField { name: "on_lines".to_string() };
    assert_eq!(field.wit_name(), "on-lines");
}
