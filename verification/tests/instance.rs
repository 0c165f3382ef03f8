use openxr::sys::EnvironmentBlendMode;
use xr_passthrough_layer::instance::{
    create_vulkan_device, create_vulkan_instance, enumerate_environment_blend_modes,
    enumerate_first, enumerate_second, vulkan_instance_created, BlendAnswer, EnumerateStep,
    InstanceFactory, ALPHA_BLEND, BLEND_MODE_ROOM, OPAQUE,
};
use xr_passthrough_layer::registry::{RegisterationError, WithHook, WithHookMut};
use xr_passthrough_layer::store::ObjectData;
use xr_passthrough_layer::version::ApiVersion;
use xr_passthrough_layer::xr_result::{
    XrErr, ERROR_HANDLE_INVALID, ERROR_SIZE_INSUFFICIENT, ERROR_VALIDATION_FAILURE, SUCCESS,
};

fn names(list: &[&str]) -> Vec<Vec<u8>> {
    list.iter().map(|s| s.as_bytes().to_vec()).collect()
}

fn some_data() -> ObjectData {
    ObjectData { hook_type: 1, hook: 2, high_type: 3, high: 4 }
}

#[test]
fn modes_are_those_of_openxr() {
    assert_eq!(OPAQUE, EnvironmentBlendMode::OPAQUE.into_raw());
    assert_eq!(ALPHA_BLEND, EnvironmentBlendMode::ALPHA_BLEND.into_raw());
}

#[test]
fn passthrough_is_hidden_from_the_next_layer() {
    let plan = InstanceFactory::plan(&names(&["a", "XR_HTC_passthrough", "b"]));
    assert!(plan.enabled);
    assert_eq!(plan.names, Some(names(&["a", "b"])));
}

#[test]
fn instance_without_passthrough_is_left_alone() {
    let plan = InstanceFactory::plan(&names(&["a", "XR_HTC_passthroug"]));
    assert!(!plan.enabled);
    assert_eq!(plan.names, None);
    assert!(!InstanceFactory::plan(&[]).enabled);
}

#[test]
fn created_instance_remembers_passthrough() {
    let (high, data) = InstanceFactory::finish(true, XrErr::new(SUCCESS), Ok(7)).unwrap();
    assert_eq!(high, 7);
    assert!(data.is_passthrough_enabled);
    assert!(data.instance_api_version().is_empty());
    let e = XrErr::new(-4);
    assert_eq!(InstanceFactory::finish(true, e, Ok(7)).unwrap_err(), e);
    assert_eq!(InstanceFactory::finish(true, XrErr::new(SUCCESS), Err(e)).unwrap_err(), e);
}

#[test]
fn vulkan_instance_gets_the_required_extensions() {
    let found: Result<WithHookMut, RegisterationError> = Ok(WithHookMut { data: some_data() });
    let plan = create_vulkan_instance(&found, true, &names(&["VK_KHR_xcb_surface", "x"])).unwrap();
    assert_eq!(
        plan.extensions,
        Some(names(&[
            "VK_KHR_external_memory_capabilities",
            "VK_KHR_get_physical_device_properties2",
            "VK_KHR_xcb_surface",
            "x",
        ]))
    );
    assert_eq!(
        create_vulkan_instance(&found, false, &[]).unwrap_err(),
        XrErr::new(ERROR_VALIDATION_FAILURE)
    );
    assert_eq!(
        create_vulkan_instance(&Err(RegisterationError::NotFound(1)), true, &[]).unwrap_err(),
        XrErr::new(ERROR_HANDLE_INVALID)
    );
}

#[test]
fn vulkan_device_gets_the_required_extensions() {
    let found: Result<WithHook, RegisterationError> = Ok(WithHook { data: some_data() });
    let plan = create_vulkan_device(&found, true, &names(&["x"])).unwrap();
    assert_eq!(plan.extensions, Some(names(&["VK_KHR_copy_commands2", "x"])));
    let plan = create_vulkan_device(&found, true, &names(&["VK_KHR_copy_commands2"])).unwrap();
    assert_eq!(plan.extensions, None);
    assert!(create_vulkan_device(&found, false, &[]).is_err());
    assert!(create_vulkan_device(&Err(RegisterationError::NotFound(1)), true, &[]).is_err());
}

#[test]
fn version_of_a_vulkan_instance_is_remembered() {
    let (_, mut data) = InstanceFactory::finish(false, XrErr::new(SUCCESS), Ok(7)).unwrap();
    let raw = ash::vk::make_api_version(0, 1, 2, 3);
    assert_eq!(vulkan_instance_created(&mut data, XrErr::new(-1), 5, raw), XrErr::new(-1));
    assert!(data.instance_api_version().is_empty());
    assert_eq!(
        vulkan_instance_created(&mut data, XrErr::new(SUCCESS), 5, raw),
        XrErr::new(SUCCESS)
    );
    assert_eq!(
        data.instance_api_version().get(&5),
        Some(&ApiVersion { major: 1, minor: 2, patch: 3 })
    );
}

#[test]
fn enumerating_in_one_call() {
    match enumerate_first(BLEND_MODE_ROOM, XrErr::new(SUCCESS), 2, vec![1, 2]) {
        EnumerateStep::Got(items) => assert_eq!(items, vec![1, 2]),
        other => panic!("{:?}", other),
    }
    match enumerate_first(BLEND_MODE_ROOM, XrErr::new(SUCCESS), 3, vec![1, 2, 3]) {
        EnumerateStep::Got(items) => assert_eq!(items, vec![1, 2, 3]),
        other => panic!("{:?}", other),
    }
}

#[test]
fn enumerating_in_two_calls() {
    let more = XrErr::new(ERROR_SIZE_INSUFFICIENT);
    assert!(matches!(
        enumerate_first(BLEND_MODE_ROOM, more, 5, vec![]),
        EnumerateStep::Retry { capacity: 5 }
    ));
    assert_eq!(
        enumerate_second(5, XrErr::new(SUCCESS), 4, vec![1, 2, 3, 4]),
        Ok(vec![1, 2, 3, 4])
    );
    assert_eq!(enumerate_second(5, more, 6, vec![]), Err(more));
}

#[test]
fn enumerating_can_fail() {
    assert!(matches!(
        enumerate_first(BLEND_MODE_ROOM, XrErr::new(-2), 0, vec![]),
        EnumerateStep::Fail(XrErr { code: -2 })
    ));
}

#[test]
fn alpha_blend_is_added() {
    match enumerate_environment_blend_modes(&[OPAQUE, 2], 3) {
        BlendAnswer::Answer { result, count, written } => {
            assert_eq!(result, XrErr::new(SUCCESS));
            assert_eq!(count, 3);
            assert_eq!(written, Some(vec![OPAQUE, 2, ALPHA_BLEND]));
        }
        other => panic!("{:?}", other),
    }
}

#[test]
fn alpha_blend_is_counted_when_asked_how_many() {
    match enumerate_environment_blend_modes(&[OPAQUE], 0) {
        BlendAnswer::Answer { result, count, written } => {
            assert_eq!(result, XrErr::new(SUCCESS));
            assert_eq!(count, 2);
            assert_eq!(written, None);
        }
        other => panic!("{:?}", other),
    }
}

#[test]
fn too_little_room_for_alpha_blend() {
    match enumerate_environment_blend_modes(&[OPAQUE], 1) {
        BlendAnswer::Answer { result, count, written } => {
            assert_eq!(result, XrErr::new(ERROR_SIZE_INSUFFICIENT));
            assert_eq!(count, 2);
            assert_eq!(written, None);
        }
        other => panic!("{:?}", other),
    }
}

#[test]
fn runtime_with_alpha_blend_answers_itself() {
    assert!(matches!(
        enumerate_environment_blend_modes(&[OPAQUE, ALPHA_BLEND], 0),
        BlendAnswer::Forward
    ));
}
