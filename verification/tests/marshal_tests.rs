//! Tests for the value-marshaling layer.

use nvim_wasm::marshal::{
    from_guest_primitive, marshal_args, to_guest, to_guest_primitive, to_host, Context,
    TypeConversionError,
};
use nvim_wasm::value::{
    GuestObject, GuestPrimitive, NvimApiType, NvimArray, NvimBuffer, NvimDictionary, NvimObject,
    NvimString, NvimWasmRef,
};

fn ctx(id: i32) -> Context {
    Context { current_instance_id: id }
}

fn round_trip(v: NvimObject) -> NvimObject {
    let g = to_guest(v, &ctx(0)).unwrap();
    to_host(g, &ctx(0))
}

#[test]
fn primitives_round_trip_host_to_guest_and_back() {
    assert_eq!(round_trip(NvimObject::Nil), NvimObject::Nil);
    assert_eq!(round_trip(NvimObject::Boolean(true)), NvimObject::Boolean(true));
    assert_eq!(round_trip(NvimObject::Integer(-42)), NvimObject::Integer(-42));
    let bits = (1.5f64).to_bits();
    assert_eq!(round_trip(NvimObject::Float(bits)), NvimObject::Float(bits));
    let s = NvimObject::String(NvimString::new(b"hi\0there".to_vec()));
    let s2 = NvimObject::String(NvimString::new(b"hi\0there".to_vec()));
    assert_eq!(round_trip(s), s2);
}

#[test]
fn primitives_round_trip_guest_to_host_and_back() {
    let cases = vec![
        GuestObject::Nil,
        GuestObject::Boolean(false),
        GuestObject::Integer(7),
        GuestObject::Float((-0.25f64).to_bits()),
        GuestObject::String(b"embedded\0nul".to_vec()),
    ];
    for g in cases {
        let expected = match &g {
            GuestObject::Nil => GuestObject::Nil,
            GuestObject::Boolean(b) => GuestObject::Boolean(*b),
            GuestObject::Integer(i) => GuestObject::Integer(*i),
            GuestObject::Float(f) => GuestObject::Float(*f),
            GuestObject::String(s) => GuestObject::String(s.clone()),
            _ => unreachable!(),
        };
        let h = to_host(g, &ctx(3));
        let back = to_guest(h, &ctx(3)).unwrap();
        assert_eq!(back, expected);
    }
}

#[test]
fn array_of_primitives_preserves_order_and_count() {
    let arr = NvimArray::from_vec(vec![
        NvimObject::Integer(1),
        NvimObject::Boolean(true),
        NvimObject::String(NvimString::new(b"x".to_vec())),
    ]);
    let g = to_guest(NvimObject::Array(arr), &ctx(0)).unwrap();
    match g {
        GuestObject::Array(ps) => {
            assert_eq!(ps.len(), 3);
            assert_eq!(ps[0], GuestPrimitive::Integer(1));
            assert_eq!(ps[1], GuestPrimitive::Boolean(true));
            assert_eq!(ps[2], GuestPrimitive::String(b"x".to_vec()));
        }
        other => panic!("expected a guest array, got {:?}", other),
    }
}

#[test]
fn dictionary_of_primitives_preserves_keys_and_order() {
    let d = NvimDictionary::from_vec(vec![
        (NvimString::new(b"a".to_vec()), NvimObject::Integer(1)),
        (NvimString::new(b"b".to_vec()), NvimObject::Nil),
    ]);
    let g = to_guest(NvimObject::Dictionary(d), &ctx(0)).unwrap();
    match g {
        GuestObject::Dictionary(ps) => {
            assert_eq!(ps.len(), 2);
            assert_eq!(ps[0], (b"a".to_vec(), GuestPrimitive::Integer(1)));
            assert_eq!(ps[1], (b"b".to_vec(), GuestPrimitive::Nil));
        }
        other => panic!("expected a guest dictionary, got {:?}", other),
    }
}

#[test]
fn nested_array_in_array_is_rejected() {
    let inner = NvimArray::from_vec(vec![NvimObject::Integer(1)]);
    let outer = NvimArray::from_vec(vec![
        NvimObject::Integer(0),
        NvimObject::Array(inner),
    ]);
    let e = to_guest(NvimObject::Array(outer), &ctx(0)).unwrap_err();
    assert_eq!(e, TypeConversionError::NonPrimitiveType(NvimApiType::Array));
}

#[test]
fn nested_dictionary_in_array_is_rejected() {
    let inner = NvimDictionary::from_vec(vec![]);
    let outer = NvimArray::from_vec(vec![NvimObject::Dictionary(inner)]);
    let e = to_guest(NvimObject::Array(outer), &ctx(0)).unwrap_err();
    assert_eq!(e, TypeConversionError::NonPrimitiveType(NvimApiType::Dictionary));
}

#[test]
fn nested_container_in_dictionary_is_rejected() {
    let inner = NvimArray::from_vec(vec![]);
    let d = NvimDictionary::from_vec(vec![
        (NvimString::new(b"k".to_vec()), NvimObject::Array(inner)),
    ]);
    let e = to_guest(NvimObject::Dictionary(d), &ctx(0)).unwrap_err();
    assert_eq!(e, TypeConversionError::NonPrimitiveType(NvimApiType::Array));
}

#[test]
fn nested_container_rejected_in_primitive_slot_directly() {
    let a = NvimArray::new();
    let e = to_guest_primitive(NvimObject::Array(a), &ctx(0)).unwrap_err();
    assert_eq!(e, TypeConversionError::NonPrimitiveType(NvimApiType::Array));
}

#[test]
fn handles_reduce_to_narrow_width() {
    let g = to_guest(NvimObject::Buffer(NvimBuffer::from_handle(5)), &ctx(0)).unwrap();
    assert_eq!(g, GuestObject::Buffer(5));
    let h = to_host(GuestObject::Buffer(-3), &ctx(0));
    assert_eq!(h, NvimObject::Buffer(NvimBuffer::from_handle(-3)));
}

#[test]
fn own_callback_handle_marshals_to_its_reference() {
    let wr = NvimWasmRef::new(1, 7);
    let g = to_guest(NvimObject::WasmRef(wr), &ctx(1)).unwrap();
    assert_eq!(g, GuestObject::Wasmref(7));
}

#[test]
fn foreign_callback_handle_marshals_to_absent() {
    // Minted while instance 1 was current, observed while instance 2 is.
    let wr = NvimWasmRef::new(1, 7);
    let g = to_guest(NvimObject::WasmRef(wr), &ctx(2)).unwrap();
    assert_eq!(g, GuestObject::Wasmref(0));
}

#[test]
fn zero_reference_marshals_in_as_absent_handle() {
    let h = from_guest_primitive(GuestPrimitive::Wasmref(0), &ctx(4));
    match h {
        NvimObject::WasmRef(wr) => assert!(wr.is_none()),
        other => panic!("expected a handle, got {:?}", other),
    }
    let h2 = from_guest_primitive(GuestPrimitive::Wasmref(9), &ctx(4));
    match h2 {
        NvimObject::WasmRef(wr) => assert_eq!(wr.pair(), Some((4, 9))),
        other => panic!("expected a handle, got {:?}", other),
    }
}

#[test]
fn marshal_args_converts_each_argument() {
    let args = vec![NvimObject::Integer(1), NvimObject::Nil];
    let gs = marshal_args(args, &ctx(0)).unwrap();
    assert_eq!(gs, vec![GuestObject::Integer(1), GuestObject::Nil]);

    let inner = NvimArray::from_vec(vec![NvimObject::Array(NvimArray::new())]);
    let bad = vec![NvimObject::Integer(1), NvimObject::Array(inner)];
    let e = marshal_args(bad, &ctx(0)).unwrap_err();
    assert_eq!(e, TypeConversionError::NonPrimitiveType(NvimApiType::Array));
}

#[test]
fn dictionary_lookup_returns_first_match() {
    let d = NvimDictionary::from_vec(vec![
        (NvimString::new(b"k".to_vec()), NvimObject::Integer(1)),
        (NvimString::new(b"k".to_vec()), NvimObject::Integer(2)),
        (NvimString::new(b"other".to_vec()), NvimObject::Nil),
    ]);
    assert_eq!(d.get(&b"k".to_vec()), Some(&NvimObject::Integer(1)));
    assert_eq!(d.get(&b"other".to_vec()), Some(&NvimObject::Nil));
    assert_eq!(d.get(&b"missing".to_vec()), None);
}

#[test]
fn conversion_error_names_the_offending_kind() {
    let e = TypeConversionError::NonPrimitiveType(NvimApiType::Dictionary);
    assert_eq!(
        e.describe().as_str(),
        "a container of kind Dict cannot sit in a primitive slot of the boundary representation"
    );
}
