//! Tests for the host object model.

use nvim_wasm::token::{ParseError, ParseErrorKind};
use nvim_wasm::value::{
    wasmref_eq, NvimApiType, NvimArray, NvimBuffer, NvimError, NvimErrorKind, NvimObject,
    NvimResult, NvimString, NvimTabpage, NvimWasmRef, NvimWindow, ObjectConversionError,
};

#[test]
fn handles_keep_their_numbers() {
    assert_eq!(NvimBuffer::from_handle(7).handle(), 7);
    assert_eq!(NvimWindow::from_handle(-2).handle(), -2);
    assert_eq!(NvimTabpage::from_handle(0).handle(), 0);
}

#[test]
fn strings_keep_their_bytes() {
    let s = NvimString::new(b"a\0b".to_vec());
    assert_eq!(s.len(), 3);
    assert!(!s.is_empty());
    assert_eq!(s.as_bytes(), &b"a\0b".to_vec());
    assert_eq!(s.clone().into_bytes(), b"a\0b".to_vec());
    assert!(NvimString::new(Vec::new()).is_empty());
}

#[test]
fn arrays_push_and_index() {
    let mut a = NvimArray::new();
    assert!(a.is_empty());
    a.push(NvimObject::Integer(4));
    a.push(NvimObject::Nil);
    assert_eq!(a.len(), 2);
    assert_eq!(a.get(0), &NvimObject::Integer(4));
    assert_eq!(a.get(1), &NvimObject::Nil);
    let v = a.into_vec();
    assert_eq!(v, vec![NvimObject::Integer(4), NvimObject::Nil]);
}

#[test]
fn wasmref_equality_is_structural_on_the_pair() {
    let a = NvimWasmRef::new(1, 5);
    let b = NvimWasmRef::new(1, 5);
    let c = NvimWasmRef::new(2, 5);
    let absent1 = NvimWasmRef::new(-1, 5);
    let absent2 = NvimWasmRef::new(1, 0);
    assert!(wasmref_eq(&a, &b));
    assert!(!wasmref_eq(&a, &c));
    // A negative instance id or a zero reference is the absent handle,
    // and two absent handles are equal.
    assert!(absent1.is_none());
    assert!(absent2.is_none());
    assert!(wasmref_eq(&absent1, &absent2));
    assert!(wasmref_eq(&absent1, &NvimWasmRef::none()));
    assert!(!wasmref_eq(&a, &absent1));
    assert_eq!(a.pair(), Some((1, 5)));
    assert_eq!(NvimWasmRef::none().pair(), None);
}

#[test]
fn nil_objects_and_unit_conversion() {
    let nil = NvimObject::nil();
    assert!(nil.is_nil());
    assert_eq!(nil.type_(), NvimApiType::Nil);
    assert_eq!(nil.try_into_unit(), Ok(()));
    let i = NvimObject::Integer(3);
    assert!(!i.is_nil());
    assert_eq!(i.type_(), NvimApiType::Integer);
    assert_eq!(
        i.try_into_unit(),
        Err(ObjectConversionError {
            object_type: NvimApiType::Integer,
            expected_type: NvimApiType::Nil,
        })
    );
}

#[test]
fn api_type_names() {
    assert_eq!(NvimApiType::Nil.name(), "nil");
    assert_eq!(NvimApiType::Dictionary.name(), "Dict");
    assert_eq!(NvimApiType::Buffer.name(), "Buffer");
}

#[test]
fn native_call_results_round_trip() {
    assert!(NvimResult::new_ok().into_result().is_ok());
    let e = NvimError { kind: NvimErrorKind::Validation, msg: b"bad".to_vec() };
    let r = NvimResult::from_result(Err(e)).into_result();
    match r {
        Err(e2) => {
            assert_eq!(e2.kind, NvimErrorKind::Validation);
            assert_eq!(e2.msg, b"bad".to_vec());
        }
        Ok(()) => panic!("expected the error to come back"),
    }
}

#[test]
fn parse_errors_carry_descriptions() {
    let e = ParseError { kind: ParseErrorKind::UnexpectedEnd };
    assert_eq!(e.describe().as_str(), "unexpected end of line");
    let e2 = ParseError { kind: ParseErrorKind::UnknownType };
    assert_eq!(e2.describe().as_str(), "unknown type");
}
