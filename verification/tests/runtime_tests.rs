//! Tests for the runtime bookkeeping and the callback registry.

use nvim_wasm::registry::{CallbackRegistry, DropNotice};
use nvim_wasm::runtime::{GuestOutcome, RuntimeError, WasmState};
use nvim_wasm::value::{NvimArray, NvimObject};

#[test]
fn initialization_happens_exactly_once() {
    let mut s = WasmState::new();
    assert!(!s.is_initialized());
    assert!(s.initialize().is_ok());
    assert!(s.is_initialized());
    let again = s.initialize();
    assert!(matches!(again, Err(RuntimeError::DoubleInitialization)));
    assert!(s.is_initialized());
}

#[test]
fn loading_yields_distinct_consecutive_ids() {
    let mut s = WasmState::new();
    s.initialize().unwrap();
    let a = s.load_module(11).unwrap();
    let b = s.load_module(22).unwrap();
    let c = s.load_module(33).unwrap();
    assert_eq!(a, 0);
    assert_eq!(b, 1);
    assert_eq!(c, 2);
    assert_ne!(a, b);
    assert_ne!(b, c);
    assert_eq!(s.instance_count(), 3);
    // The stored module tokens come back under their own ids.
    assert_eq!(s.instance_module(a), Some(11));
    assert_eq!(s.instance_module(b), Some(22));
    assert_eq!(s.instance_module(c), Some(33));
    assert_eq!(s.instance_module(5), None);
    assert_eq!(s.instance_module(-1), None);
}

#[test]
fn dispatch_requires_a_loaded_instance() {
    let mut s = WasmState::new();
    s.initialize().unwrap();
    let r = s.begin_function_call(0, "run".to_string(), Vec::new());
    assert!(matches!(r, Err(RuntimeError::InstanceNotFound(0))));
    let r2 = s.begin_callback_call(-4, 1, Vec::new());
    assert!(matches!(r2, Err(RuntimeError::InstanceNotFound(-4))));
}

#[test]
fn dispatch_marshals_arguments_under_the_callee() {
    let mut s = WasmState::new();
    s.initialize().unwrap();
    let id = s.load_module(7).unwrap();
    let plan = s
        .begin_function_call(id, "run".to_string(), vec![NvimObject::Integer(5)])
        .unwrap();
    assert_eq!(plan.instance_id, id);
    assert_eq!(plan.module, 7);
    assert_eq!(plan.func_name.as_str(), "run");
    assert_eq!(plan.args.len(), 1);
}

#[test]
fn dispatch_rejects_nested_containers_in_arguments() {
    let mut s = WasmState::new();
    s.initialize().unwrap();
    let id = s.load_module(7).unwrap();
    let nested = NvimObject::Array(NvimArray::from_vec(vec![NvimObject::Array(
        NvimArray::new(),
    )]));
    let r = s.begin_function_call(id, "run".to_string(), vec![nested]);
    assert!(matches!(r, Err(RuntimeError::Conversion(_))));
}

#[test]
fn outcomes_map_to_distinct_error_kinds() {
    let mut s = WasmState::new();
    s.initialize().unwrap();
    let id = s.load_module(7).unwrap();
    assert!(matches!(
        s.finish_call(id, GuestOutcome::ExportMissing),
        Err(RuntimeError::ExportNotFound)
    ));
    assert!(matches!(
        s.finish_call(id, GuestOutcome::NotAFunction),
        Err(RuntimeError::SignatureMismatch)
    ));
    let trapped = s.finish_call(id, GuestOutcome::Trapped("division by zero".to_string()));
    match trapped {
        Err(RuntimeError::Trap(m)) => assert_eq!(m.as_str(), "division by zero"),
        other => panic!("expected a trap error, got {:?}", other),
    }
    let ok = s.finish_call(
        id,
        GuestOutcome::Returned(nvim_wasm::value::GuestObject::Integer(3)),
    );
    assert_eq!(ok.unwrap(), NvimObject::Integer(3));
}

#[test]
fn errors_carry_descriptions() {
    assert!(!RuntimeError::CapacityExceeded.describe().is_empty());
    let d = RuntimeError::Trap("boom".to_string()).describe();
    assert_eq!(d.as_str(), "the call into the guest trapped: boom");
}

#[test]
fn clone_and_double_drop_restore_and_release() {
    let mut reg = CallbackRegistry::new();
    let h = reg.mint(3, 9);
    assert_eq!(reg.count_of(h), 1);
    let h2 = reg.clone_handle(h);
    assert_eq!(reg.count_of(h), 2);
    // First drop: back to the pre-clone count, no notification.
    assert_eq!(reg.drop_handle(h2), None);
    assert_eq!(reg.count_of(h), 1);
    // Final drop: exactly one notification for the owning instance.
    assert_eq!(reg.drop_handle(h), Some(DropNotice { instance_id: 3, ref_: 9 }));
}

#[test]
fn equal_pairs_are_unrelated_for_counting() {
    let mut reg = CallbackRegistry::new();
    let h1 = reg.mint(1, 5);
    let h2 = reg.mint(1, 5);
    assert!(reg.handles_equal(h1, h2));
    // Releasing one registration does not touch the other.
    assert_eq!(reg.drop_handle(h2), Some(DropNotice { instance_id: 1, ref_: 5 }));
    assert_eq!(reg.count_of(h1), 1);
}

#[test]
fn drop_notice_resolves_against_loaded_instances() {
    let mut s = WasmState::new();
    s.initialize().unwrap();
    let id = s.load_module(7).unwrap();
    let plan = s
        .prepare_drop_callback(DropNotice { instance_id: id, ref_: 5 })
        .unwrap();
    assert_eq!(plan.instance_id, id);
    assert_eq!(plan.module, 7);
    assert_eq!(plan.ref_, 5);
    let gone = s.prepare_drop_callback(DropNotice { instance_id: 9, ref_: 5 });
    assert!(matches!(gone, Err(RuntimeError::InstanceNotFound(9))));
}
