use openxr::sys::Result as Xr;
use xr_passthrough_layer::registry::{
    extension_function, factory_create, invoke_on_create, Facade, NewObject, RegisterationError,
    Registry, WithHook, WithHookMut,
};
use xr_passthrough_layer::store::ObjectData;
use xr_passthrough_layer::xr_result::{
    xrcvt, XrErr, ERROR_CALL_ORDER_INVALID, ERROR_EXTENSION_NOT_PRESENT,
    ERROR_FEATURE_UNSUPPORTED, ERROR_HANDLE_INVALID, ERROR_INITIALIZATION_FAILED,
    ERROR_RUNTIME_FAILURE, ERROR_SESSION_NOT_RUNNING, ERROR_SESSION_RUNNING,
    ERROR_SIZE_INSUFFICIENT, ERROR_VALIDATION_FAILURE, SUCCESS,
};

fn data(n: u64) -> ObjectData {
    ObjectData { hook_type: 100 + n, hook: 200 + n, high_type: 300 + n, high: 400 + n }
}

/// 1 is an instance, 2 and 3 are below it, 4 is below 2, 5 is below 4.
fn family() -> Registry {
    let mut r = Registry::new();
    r.register_object(1, 1, data(1));
    r.register_object(2, 1, data(2));
    r.register_object(3, 1, data(3));
    r.register_object(4, 2, data(4));
    r.register_object(5, 4, data(5));
    r
}

#[test]
fn codes_are_those_of_openxr() {
    assert_eq!(SUCCESS, Xr::SUCCESS.into_raw());
    assert_eq!(ERROR_VALIDATION_FAILURE, Xr::ERROR_VALIDATION_FAILURE.into_raw());
    assert_eq!(ERROR_RUNTIME_FAILURE, Xr::ERROR_RUNTIME_FAILURE.into_raw());
    assert_eq!(ERROR_INITIALIZATION_FAILED, Xr::ERROR_INITIALIZATION_FAILED.into_raw());
    assert_eq!(ERROR_FEATURE_UNSUPPORTED, Xr::ERROR_FEATURE_UNSUPPORTED.into_raw());
    assert_eq!(ERROR_EXTENSION_NOT_PRESENT, Xr::ERROR_EXTENSION_NOT_PRESENT.into_raw());
    assert_eq!(ERROR_SIZE_INSUFFICIENT, Xr::ERROR_SIZE_INSUFFICIENT.into_raw());
    assert_eq!(ERROR_HANDLE_INVALID, Xr::ERROR_HANDLE_INVALID.into_raw());
    assert_eq!(ERROR_SESSION_RUNNING, Xr::ERROR_SESSION_RUNNING.into_raw());
    assert_eq!(ERROR_SESSION_NOT_RUNNING, Xr::ERROR_SESSION_NOT_RUNNING.into_raw());
    assert_eq!(ERROR_CALL_ORDER_INVALID, Xr::ERROR_CALL_ORDER_INVALID.into_raw());
}

#[test]
fn only_plain_success_is_ok() {
    assert_eq!(xrcvt(XrErr::new(0)), Ok(()));
    assert_eq!(xrcvt(XrErr::new(8)), Err(XrErr::new(8)));
    assert_eq!(xrcvt(XrErr::new(-1)), Err(XrErr::new(-1)));
}

#[test]
fn every_handle_finds_its_instance() {
    let r = family();
    for h in 1..=5 {
        assert_eq!(r.find_instance(h), Ok(1));
    }
    assert_eq!(r.find_instance(9), Err(XrErr::new(ERROR_HANDLE_INVALID)));
}

#[test]
fn child_of_unknown_parent_has_no_instance() {
    let mut r = Registry::new();
    r.register_object(2, 1, data(2));
    assert_eq!(r.find_instance(2), Err(XrErr::new(ERROR_HANDLE_INVALID)));
}

#[test]
fn registering_keeps_instances() {
    let mut r = family();
    r.register_object(6, 5, data(6));
    r.register_object(7, 7, data(7));
    for h in 1..=6 {
        assert_eq!(r.find_instance(h), Ok(1));
    }
    assert_eq!(r.find_instance(7), Ok(7));
}

#[test]
fn look_up_gives_back_what_was_registered() {
    let r = family();
    let with = r.registered_with_hook(4, 104, "Space").unwrap();
    assert_eq!(with.get(), 404);
    assert_eq!(with.hook(), 204);
    assert_eq!(with.both(), (204, 404));
    let mut with = r.registered_with_hook_mut(2, 102, "Session").unwrap();
    assert_eq!(with.get(), 402);
    assert_eq!(with.hook(), 202);
    assert_eq!(with.both(), (202, 402));
    assert_eq!(r.registered(3, 303, "Session").unwrap(), 403);
}

#[test]
fn registering_again_replaces_the_data() {
    let mut r = family();
    r.register_object(4, 2, data(8));
    assert_eq!(r.registered(4, 308, "Space").unwrap(), 408);
    assert_eq!(r.find_instance(4), Ok(1));
}

#[test]
fn unknown_handle_is_not_found() {
    let r = family();
    assert!(matches!(r.registered(9, 0, "Session"), Err(RegisterationError::NotFound(9))));
    assert!(matches!(
        r.registered_with_hook(9, 0, "Session"),
        Err(RegisterationError::NotFound(9))
    ));
    assert!(matches!(
        r.registered_with_hook_mut(9, 0, "Session"),
        Err(RegisterationError::NotFound(9))
    ));
}

#[test]
fn other_type_is_a_mismatch() {
    let r = family();
    assert!(matches!(
        r.registered(2, 0, "Session"),
        Err(RegisterationError::TypeMismatch(2, "Session"))
    ));
    assert!(matches!(
        r.registered_with_hook(2, 0, "Session"),
        Err(RegisterationError::TypeMismatch(2, "Session"))
    ));
    assert!(matches!(
        r.registered_with_hook_mut(2, 0, "Session"),
        Err(RegisterationError::TypeMismatch(2, "Session"))
    ));
}

#[test]
fn both_errors_are_an_invalid_handle() {
    assert_eq!(
        XrErr::from(RegisterationError::NotFound(1)),
        XrErr::new(ERROR_HANDLE_INVALID)
    );
    assert_eq!(
        XrErr::from(RegisterationError::TypeMismatch(1, "Session")),
        XrErr::new(ERROR_HANDLE_INVALID)
    );
}

#[test]
fn errors_in_words() {
    assert_eq!(
        RegisterationError::NotFound(0xdead_beef).message(),
        "handle 0xdeadbeef not found in the registery"
    );
    assert_eq!(
        RegisterationError::NotFound(0).message(),
        "handle 0x0 not found in the registery"
    );
    assert_eq!(
        RegisterationError::TypeMismatch(0x1234_5678_9abc_def0, "Session").message(),
        "handle 0x123456789abcdef0 is not a Session"
    );
}

#[test]
fn unregistering_forgets_all_below() {
    let mut r = family();
    r.unregister_object(2);
    for h in [2, 4, 5] {
        assert!(!r.is_registered(h));
        assert!(matches!(
            r.registered(h, 300 + h, "x"),
            Err(RegisterationError::NotFound(_))
        ));
    }
    for h in [1, 3] {
        assert!(r.is_registered(h));
        assert_eq!(r.registered(h, 300 + h, "x").unwrap(), 400 + h);
        assert_eq!(r.find_instance(h), Ok(1));
    }
}

#[test]
fn handle_with_an_empty_entry_can_come_and_go() {
    let mut r = family();
    r.register_object(8, 7, data(8));
    r.unregister_object(8);
    for _ in 0..2 {
        r.register_object(7, 1, data(7));
        assert_eq!(r.find_instance(7), Ok(1));
        r.unregister_object(7);
        assert_eq!(r.find_instance(7), Err(XrErr::new(ERROR_HANDLE_INVALID)));
    }
    for h in 1..=5 {
        assert_eq!(r.find_instance(h), Ok(1));
    }
}

#[test]
fn unregistering_undoes_registering() {
    let mut r = family();
    r.register_object(6, 3, data(6));
    r.unregister_object(6);
    assert!(!r.is_registered(6));
    for h in 1..=5 {
        assert_eq!(r.registered(h, 300 + h, "x").unwrap(), 400 + h);
    }
    r.unregister_object(3);
    assert!(!r.is_registered(3));
    assert!(r.is_registered(5));
}

#[test]
fn destroying_an_instance_empties_the_registry() {
    let mut r = family();
    assert_eq!(r.destroy_object(1), XrErr::new(SUCCESS));
    for h in 1..=5 {
        assert!(!r.is_registered(h));
    }
}

#[test]
fn removing_data_leaves_the_parent() {
    let mut r = family();
    r.remove_data(4);
    assert!(matches!(r.registered(4, 304, "x"), Err(RegisterationError::NotFound(4))));
    assert_eq!(r.find_instance(4), Ok(1));
}

#[test]
fn high_instance_of_a_handle() {
    let r = family();
    assert_eq!(r.high_instance(5, 301, "Instance"), Ok(401));
    assert_eq!(r.high_instance(5, 0, "Instance"), Err(XrErr::new(ERROR_HANDLE_INVALID)));
    assert_eq!(r.high_instance(9, 301, "Instance"), Err(XrErr::new(ERROR_HANDLE_INVALID)));
}

#[test]
fn hooks_of_a_session_and_its_instance() {
    let r = family();
    let (mut own, above): (WithHookMut, WithHook) =
        r.session_hooks(2, 102, "Session", 101, "Instance").unwrap();
    assert_eq!(own.hook(), 202);
    assert_eq!(above.hook(), 201);
    assert!(r.session_hooks(2, 0, "Session", 101, "Instance").is_err());
    assert!(r.session_hooks(2, 102, "Session", 0, "Instance").is_err());
    assert!(r.session_hooks(9, 102, "Session", 101, "Instance").is_err());
}

#[test]
fn creating_registers_below_the_parent() {
    let mut r = family();
    let new = NewObject { handle: 6, data: data(6) };
    assert_eq!(r.finish_create(Ok(new), Some(5)), XrErr::new(SUCCESS));
    assert_eq!(r.find_instance(6), Ok(1));
    let instance = NewObject { handle: 8, data: data(8) };
    assert_eq!(r.finish_create(Ok(instance), None), XrErr::new(SUCCESS));
    assert_eq!(r.find_instance(8), Ok(8));
}

#[test]
fn failed_creation_registers_nothing() {
    let mut r = family();
    assert_eq!(r.finish_create(Err(XrErr::new(-2)), Some(5)), XrErr::new(-2));
    assert!(!r.is_registered(6));
}

#[test]
fn factory_passes_the_first_error_on() {
    let e1 = XrErr::new(-1);
    let e2 = XrErr::new(-2);
    let ok = XrErr::new(SUCCESS);
    assert_eq!(factory_create::<u8, u8>(e1, Ok(1), Ok(2)), Err(e1));
    assert_eq!(factory_create::<u8, u8>(ok, Err(e1), Err(e2)), Err(e1));
    assert_eq!(factory_create::<u8, u8>(ok, Ok(1), Err(e2)), Err(e2));
    assert_eq!(factory_create::<u8, u8>(ok, Ok(1), Ok(2)), Ok((1, 2)));
    assert_eq!(invoke_on_create::<u8, u8>(Ok(1), Ok(2)), Ok((1, 2)));
}

#[test]
fn missing_extension_function() {
    assert_eq!(extension_function(Some(7)), Ok(7));
    assert_eq!(extension_function(None), Err(XrErr::new(ERROR_EXTENSION_NOT_PRESENT)));
}

#[test]
fn facade_has_its_handle() {
    assert_eq!(Facade { handle: 3 }.as_handle(), 3);
}
