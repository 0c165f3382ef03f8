use xr_passthrough_layer::extensions::{
    merge_extensions, names_not_in, offer_extensions, required_vk_device_extensions,
    required_vk_instance_extensions, split_words, ExtensionQuery, ExtensionStep,
};
use xr_passthrough_layer::registry::{RegisterationError, WithHook};
use xr_passthrough_layer::store::ObjectData;
use xr_passthrough_layer::version::ApiVersion;
use xr_passthrough_layer::xr_result::{
    XrErr, ERROR_HANDLE_INVALID, ERROR_VALIDATION_FAILURE, SUCCESS,
};

fn names(list: &[&str]) -> Vec<Vec<u8>> {
    list.iter().map(|s| s.as_bytes().to_vec()).collect()
}

fn found() -> Result<WithHook, RegisterationError> {
    Ok(WithHook { data: ObjectData { hook_type: 1, hook: 2, high_type: 3, high: 4 } })
}

fn query(cap: u32, required: &[&str]) -> ExtensionQuery {
    ExtensionQuery { cap, buffer_is_null: false, required: names(required) }
}

#[test]
fn required_names_are_those_of_vulkan() {
    let want: Vec<Vec<u8>> = [
        ash::vk::KHR_EXTERNAL_MEMORY_CAPABILITIES_NAME,
        ash::vk::KHR_GET_PHYSICAL_DEVICE_PROPERTIES2_NAME,
        ash::vk::KHR_XCB_SURFACE_NAME,
    ]
    .iter()
    .map(|n| n.to_bytes().to_vec())
    .collect();
    assert_eq!(required_vk_instance_extensions(), want);
    assert_eq!(
        required_vk_device_extensions(),
        vec![ash::vk::KHR_COPY_COMMANDS2_NAME.to_bytes().to_vec()]
    );
    assert_eq!(ExtensionQuery::for_instance(3, true).required, want);
    assert_eq!(ExtensionQuery::for_device(3, true).required.len(), 1);
}

#[test]
fn words_are_cut_at_spaces() {
    assert_eq!(split_words(b"a bc d"), names(&["a", "bc", "d"]));
    assert_eq!(split_words(b""), names(&[""]));
    assert_eq!(split_words(b"a  b "), names(&["a", "", "b", ""]));
}

#[test]
fn missing_names_keep_their_order() {
    assert_eq!(
        names_not_in(&names(&["c", "a", "b"]), &names(&["a"])),
        names(&["c", "b"])
    );
}

#[test]
fn missing_names_are_put_behind() {
    assert_eq!(offer_extensions(b"a b", &names(&["b", "c", "d"])), b"a b c d".to_vec());
    assert_eq!(offer_extensions(b"", &names(&["c", "d"])), b"c d".to_vec());
    assert_eq!(offer_extensions(b"a", &names(&["a"])), b"a".to_vec());
    assert_eq!(offer_extensions(b"", &[]), b"".to_vec());
}

#[test]
fn part_of_a_name_is_not_the_name() {
    assert_eq!(offer_extensions(b"VK_KHR_a2", &names(&["VK_KHR_a"])), b"VK_KHR_a2 VK_KHR_a".to_vec());
}

#[test]
fn offering_twice_changes_nothing() {
    let required = names(&["x", "y"]);
    let once = offer_extensions(b"p y", &required);
    assert_eq!(offer_extensions(&once, &required), once);
}

#[test]
fn query_of_unknown_instance_is_refused() {
    let q = query(0, &[]);
    let missing: Result<WithHook, RegisterationError> = Err(RegisterationError::NotFound(1));
    assert!(matches!(
        q.start(&missing, true),
        ExtensionStep::Done { result: XrErr { code: ERROR_HANDLE_INVALID }, count: None, written: None }
    ));
}

#[test]
fn query_without_extension_is_refused() {
    let q = query(0, &[]);
    assert!(matches!(
        q.start(&found(), false),
        ExtensionStep::Done { result: XrErr { code: ERROR_VALIDATION_FAILURE }, .. }
    ));
}

#[test]
fn query_with_room_but_no_memory_is_refused() {
    let mut q = query(5, &[]);
    q.buffer_is_null = true;
    assert!(matches!(
        q.start(&found(), true),
        ExtensionStep::Done { result: XrErr { code: ERROR_VALIDATION_FAILURE }, .. }
    ));
    q.cap = 0;
    assert!(matches!(q.start(&found(), true), ExtensionStep::Ask { capacity: 0 }));
}

#[test]
fn runtime_errors_are_passed_on() {
    let q = query(5, &[]);
    assert!(matches!(
        q.sized(XrErr::new(-2), 0),
        ExtensionStep::Done { result: XrErr { code: -2 }, count: None, written: None }
    ));
    assert!(matches!(q.sized(XrErr::new(SUCCESS), 7), ExtensionStep::Ask { capacity: 7 }));
    assert!(matches!(
        q.listed(XrErr::new(-2), 0, b""),
        ExtensionStep::Done { result: XrErr { code: -2 }, count: None, written: None }
    ));
}

#[test]
fn list_is_written_if_there_is_room() {
    let q = query(100, &["c"]);
    match q.listed(XrErr::new(SUCCESS), 4, b"a b\0") {
        ExtensionStep::Done { result, count, written } => {
            assert_eq!(result, XrErr::new(SUCCESS));
            assert_eq!(count, Some(6));
            assert_eq!(written, Some(b"a b c\0".to_vec()));
        }
        other => panic!("{:?}", other),
    }
}

#[test]
fn list_is_only_counted_if_there_is_no_room() {
    let q = query(4, &["c"]);
    match q.listed(XrErr::new(SUCCESS), 4, b"a b\0") {
        ExtensionStep::Done { result, count, written } => {
            assert_eq!(result, XrErr::new(SUCCESS));
            assert_eq!(count, Some(6));
            assert_eq!(written, None);
        }
        other => panic!("{:?}", other),
    }
}

#[test]
fn room_is_measured_with_the_zero_byte() {
    for (cap, want) in [(5, None), (6, Some(b"a b c\0".to_vec()))] {
        match query(cap, &["c"]).listed(XrErr::new(SUCCESS), 4, b"a b\0") {
            ExtensionStep::Done { result, count, written } => {
                assert_eq!(result, XrErr::new(SUCCESS));
                assert_eq!(count, Some(6));
                assert_eq!(written, want);
            }
            other => panic!("{:?}", other),
        }
    }
    match query(3, &["B"]).listed(XrErr::new(SUCCESS), 4, b"A B\0") {
        ExtensionStep::Done { count, written, .. } => {
            assert_eq!(count, Some(4));
            assert_eq!(written, None);
        }
        other => panic!("{:?}", other),
    }
}

#[test]
fn nothing_is_written_where_there_is_no_room_at_all() {
    match query(0, &[]).listed(XrErr::new(SUCCESS), 1, b"\0") {
        ExtensionStep::Done { count, written, .. } => {
            assert_eq!(count, Some(1));
            assert_eq!(written, None);
        }
        other => panic!("{:?}", other),
    }
}

#[test]
fn empty_list_of_the_runtime() {
    let q = query(100, &["c", "d"]);
    match q.listed(XrErr::new(SUCCESS), 1, b"\0") {
        ExtensionStep::Done { count, written, .. } => {
            assert_eq!(count, Some(4));
            assert_eq!(written, Some(b"c d\0".to_vec()));
        }
        other => panic!("{:?}", other),
    }
}

#[test]
fn merging_adds_what_is_missing_first() {
    let merged = merge_extensions(&names(&["a", "b", "a"]), &names(&["b", "c"])).unwrap();
    assert_eq!(merged, names(&["c", "a", "b"]));
}

#[test]
fn merging_leaves_a_complete_list_alone() {
    assert_eq!(merge_extensions(&names(&["a", "b", "a"]), &names(&["b"])), None);
    assert_eq!(merge_extensions(&[], &[]), None);
}

#[test]
fn packed_versions() {
    let v = ApiVersion::from_raw(ash::vk::make_api_version(0, 1, 3, 281));
    assert_eq!(v, ApiVersion { major: 1, minor: 3, patch: 281 });
    assert_eq!(v.to_raw(), Some(ash::vk::make_api_version(0, 1, 3, 281)));
    assert_eq!(ApiVersion { major: 0x400, minor: 0, patch: 0 }.to_raw(), None);
    assert_eq!(ApiVersion { major: 1, minor: 0, patch: 0x1000 }.to_raw(), None);
    assert_eq!(ApiVersion::major_minor(1, 0).to_raw(), Some(0x40_0000));
}

#[test]
fn versions_are_ordered() {
    let a = ApiVersion { major: 1, minor: 2, patch: 9 };
    let b = ApiVersion { major: 1, minor: 3, patch: 0 };
    assert!(a.is_earlier(&b));
    assert!(!b.is_earlier(&a));
    assert!(!a.is_earlier(&a));
    assert!(ApiVersion::major_minor(1, 9).is_earlier(&ApiVersion::major_minor(2, 0)));
    assert!(ApiVersion::major_minor(1, 2).is_earlier(&a));
    assert_eq!(a.or_earlier(b), a);
    assert_eq!(b.or_earlier(a), a);
}
