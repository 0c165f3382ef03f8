use xr_passthrough_layer::loader::{
    get_instance_proc_addr, negotiate_loader_api_layer_interface_impl, ApiLayerRequest,
    LayerInterface, LoaderInfo, ProcAnswer, StructHeader,
};
use xr_passthrough_layer::registry::{RegisterationError, Registry};
use xr_passthrough_layer::store::ObjectData;
use xr_passthrough_layer::types::{
    extensions_to_load, instance_into_high, ActionSetCreateInfo, AnySession, AnySwapchain,
    ApplicationInfo, ChainLink, GraphicsBinding, InstanceArgs, InstanceCreateInfo, InstanceHandle,
    RawActionSetCreateInfo, RawApplicationInfo, RawInstanceCreateInfo, RawSessionCreateInfo,
    SessionCreateInfo, VulkanBinding, WaylandBinding, XcbBinding, XlibBinding,
};
use xr_passthrough_layer::xr_result::{
    XrErr, ERROR_HANDLE_INVALID, ERROR_INITIALIZATION_FAILED, ERROR_VALIDATION_FAILURE,
};

fn raw_app(name: &[u8], engine: &[u8]) -> RawApplicationInfo {
    RawApplicationInfo {
        application_name: name.to_vec(),
        application_version: 3,
        engine_name: engine.to_vec(),
        engine_version: 4,
        api_version: 5,
    }
}

fn raw_instance(name: &[u8]) -> RawInstanceCreateInfo {
    RawInstanceCreateInfo {
        application_info: raw_app(name, b"e\0"),
        enabled_extension_names: vec![b"XR_a".to_vec(), b"XR_b".to_vec()],
        enabled_api_layer_names: vec![b"L".to_vec()],
    }
}

fn vulkan() -> VulkanBinding {
    VulkanBinding {
        instance: 1,
        physical_device: 2,
        device: 3,
        queue_family_index: 4,
        queue_index: 5,
    }
}

fn not_found<T>() -> Result<T, RegisterationError> {
    Err(RegisterationError::NotFound(7))
}

#[test]
fn application_names_end_at_the_zero_byte() {
    let info = ApplicationInfo::from_raw(&raw_app(b"app\0junk", b"\0")).unwrap();
    assert_eq!(info.application_name, b"app".to_vec());
    assert_eq!(info.engine_name, b"".to_vec());
    assert_eq!((info.application_version, info.engine_version, info.api_version), (3, 4, 5));
}

#[test]
fn application_name_without_zero_byte_is_refused() {
    let e = XrErr::new(ERROR_VALIDATION_FAILURE);
    assert_eq!(ApplicationInfo::from_raw(&raw_app(b"app", b"e\0")).unwrap_err(), e);
    assert_eq!(ApplicationInfo::from_raw(&raw_app(b"app\0", b"e")).unwrap_err(), e);
    assert_eq!(ApplicationInfo::from_raw(&raw_app(b"", b"e\0")).unwrap_err(), e);
}

#[test]
fn instance_create_info_keeps_names() {
    let info = InstanceCreateInfo::from_raw(&raw_instance(b"a\0")).unwrap();
    assert_eq!(info.required_extensions, vec![b"XR_a".to_vec(), b"XR_b".to_vec()]);
    assert_eq!(info.layers, vec![b"L".to_vec()]);
    assert!(InstanceCreateInfo::from_raw(&raw_instance(b"a")).is_err());
}

#[test]
fn instance_needs_all_its_arguments() {
    let handle = InstanceHandle { raw: 1 };
    let all = InstanceArgs {
        info_is_null: false,
        api_layer_info_is_null: false,
        instance_is_null: false,
    };
    assert_eq!(handle.check_args(&all), Ok(()));
    let e = Err(XrErr::new(ERROR_VALIDATION_FAILURE));
    assert_eq!(handle.check_args(&InstanceArgs { info_is_null: true, ..all }), e);
    assert_eq!(handle.check_args(&InstanceArgs { api_layer_info_is_null: true, ..all }), e);
    assert_eq!(handle.check_args(&InstanceArgs { instance_is_null: true, ..all }), e);
}

#[test]
fn unsupported_extensions_are_not_loaded() {
    let required = vec![
        b"XR_KHR_vulkan_enable2\0".to_vec(),
        b"XR_unheard_of\0".to_vec(),
        b"XR_HTC_passthrough\0".to_vec(),
    ];
    let supported = vec![
        b"XR_unheard_of\0".to_vec(),
        b"XR_KHR_vulkan_enable2\0".to_vec(),
        b"XR_EXTX_overlay\0".to_vec(),
    ];
    let mut loaded = extensions_to_load(&required, &supported);
    loaded.sort();
    assert_eq!(loaded, vec![b"XR_KHR_vulkan_enable2\0".to_vec(), b"XR_unheard_of\0".to_vec()]);
    assert!(extensions_to_load(&required, &[]).is_empty());
}

#[test]
fn extension_asked_for_twice_is_loaded_once() {
    let twice = vec![b"XR_x\0".to_vec(), b"XR_x\0".to_vec()];
    assert_eq!(extensions_to_load(&twice, &twice), vec![b"XR_x\0".to_vec()]);
}

#[test]
fn wrapping_an_instance_passes_errors_on() {
    let raw = raw_instance(b"a\0");
    let e = XrErr::new(-3);
    assert_eq!(instance_into_high(Err(e), Ok(9), &raw).unwrap_err(), e);
    assert_eq!(instance_into_high(Ok(()), Err(e), &raw).unwrap_err(), e);
    let (high, info) = instance_into_high(Ok(()), Ok(9), &raw).unwrap();
    assert_eq!(high, 9);
    assert_eq!(info.application_info.application_name, b"a".to_vec());
    assert_eq!(
        instance_into_high(Ok(()), Ok(9), &raw_instance(b"a")).unwrap_err(),
        XrErr::new(ERROR_VALIDATION_FAILURE)
    );
}

#[test]
fn first_graphics_binding_counts() {
    let raw = RawSessionCreateInfo {
        system_id: 6,
        chain: vec![
            ChainLink::Other(8),
            ChainLink::GlWayland(WaylandBinding { display: 2 }),
            ChainLink::Vulkan(vulkan()),
        ],
    };
    let info = SessionCreateInfo::from_raw(&raw);
    assert_eq!(info.system_id, 6);
    assert_eq!(info.graphics_binding, Some(GraphicsBinding::GlWayland { display: 2 }));
    let none = RawSessionCreateInfo { system_id: 6, chain: vec![ChainLink::Other(8)] };
    assert_eq!(SessionCreateInfo::from_raw(&none).graphics_binding, None);
}

#[test]
fn bindings_keep_their_fields() {
    assert_eq!(
        GraphicsBinding::from_raw_vulkan(&vulkan()),
        GraphicsBinding::Vulkan(vulkan())
    );
    let xcb = XcbBinding {
        connection: 1,
        screen_number: 2,
        fbconfigid: 3,
        visualid: 4,
        glx_drawable: 5,
        glx_context: 6,
    };
    assert_eq!(
        GraphicsBinding::from_raw_gl_xcb(&xcb),
        GraphicsBinding::GlXcb {
            connection: 1,
            screen_number: 2,
            fbconfigid: 3,
            visualid: 4,
            glx_drawable: 5,
            glx_context: 6,
        }
    );
    let xlib = XlibBinding {
        x_display: 1,
        visualid: 2,
        glx_fb_config: 3,
        glx_drawable: 4,
        glx_context: 5,
    };
    assert_eq!(
        GraphicsBinding::from_raw_gl_xlib(&xlib),
        GraphicsBinding::GlXlib {
            glx_fb_config: 3,
            glx_drawable: 4,
            glx_context: 5,
            x_display: 1,
            visualid: 2,
        }
    );
    let chain = vec![ChainLink::GlXlib(xlib), ChainLink::GlXcb(xcb)];
    let raw = RawSessionCreateInfo { system_id: 0, chain };
    let binding = SessionCreateInfo::from_raw(&raw).graphics_binding;
    assert_eq!(binding, Some(GraphicsBinding::from_raw_gl_xlib(&xlib)));
}

#[test]
fn session_and_swapchain_follow_the_binding() {
    for (link, session, swapchain) in [
        (ChainLink::Vulkan(vulkan()), AnySession::Vulkan(11), AnySwapchain::Vulkan(12)),
        (
            ChainLink::GlWayland(WaylandBinding { display: 1 }),
            AnySession::Gl(11),
            AnySwapchain::Gl(12),
        ),
        (ChainLink::Other(1), AnySession::Unhandled(11), AnySwapchain::Unhandled(12)),
    ] {
        let raw = RawSessionCreateInfo { system_id: 0, chain: vec![link] };
        let (s, _) = AnySession::into_high(11, &Ok(1), &raw).unwrap();
        assert_eq!(s, session);
        assert_eq!(s.as_handle(), 11);
        let sc = AnySwapchain::into_high(12, &Ok(s)).unwrap();
        assert_eq!(sc, swapchain);
        assert_eq!(sc.as_handle(), 12);
    }
}

#[test]
fn session_of_unknown_instance_is_refused() {
    let raw = RawSessionCreateInfo { system_id: 0, chain: vec![] };
    let e = XrErr::new(ERROR_HANDLE_INVALID);
    assert_eq!(AnySession::into_high(11, &not_found(), &raw).unwrap_err(), e);
    assert_eq!(AnySwapchain::into_high(11, &not_found()).unwrap_err(), e);
}

#[test]
fn only_unhandled_objects_are_destroyed_by_the_instance() {
    let mut r = Registry::new();
    let d = ObjectData { hook_type: 1, hook: 2, high_type: 3, high: 4 };
    r.register_object(10, 10, d);
    r.register_object(11, 10, d);
    assert_eq!(AnySession::Unhandled(11).drop_target(&r, 3, "Instance"), Some(4));
    assert_eq!(AnySession::Unhandled(11).drop_target(&r, 9, "Instance"), None);
    assert_eq!(AnySession::Unhandled(99).drop_target(&r, 3, "Instance"), None);
    assert_eq!(AnySession::Vulkan(11).drop_target(&r, 3, "Instance"), None);
    assert_eq!(AnySwapchain::Unhandled(11).drop_target(&r, 3, "Instance"), Some(4));
    assert_eq!(AnySwapchain::Gl(11).drop_target(&r, 3, "Instance"), None);
}

#[test]
fn session_can_be_dropped_while_it_is_unregistered() {
    let mut r = Registry::new();
    let d = ObjectData { hook_type: 1, hook: 2, high_type: 3, high: 4 };
    r.register_object(10, 10, d);
    r.register_object(11, 10, d);
    r.remove_data(11);
    assert_eq!(AnySession::Unhandled(11).drop_target(&r, 3, "Instance"), Some(4));
}

fn raw_action_set(name: &[u8], localized: &[u8]) -> RawActionSetCreateInfo {
    RawActionSetCreateInfo {
        action_set_name: name.to_vec(),
        localized_action_set_name: localized.to_vec(),
        priority: 9,
    }
}

#[test]
fn action_set_names_are_text() {
    let info =
        ActionSetCreateInfo::from_raw(&raw_action_set(b"set\0\0", "na\u{ef}ve\0".as_bytes())).unwrap();
    assert_eq!(info.action_set_name, "set");
    assert_eq!(info.localized_action_set_name, "na\u{ef}ve");
    assert_eq!(info.priority, 9);
}

#[test]
fn action_set_with_bad_names_is_refused() {
    let e = XrErr::new(ERROR_VALIDATION_FAILURE);
    for raw in [
        raw_action_set(b"set", b"x\0"),
        raw_action_set(b"set\0", b"x"),
        raw_action_set(b"\xff\0", b"x\0"),
        raw_action_set(b"set\0", b"\xc3\0"),
    ] {
        assert_eq!(ActionSetCreateInfo::from_raw(&raw).unwrap_err(), e);
        assert_eq!(ActionSetCreateInfo::into_high(&Ok(1), &raw).unwrap_err(), e);
        assert_eq!(
            ActionSetCreateInfo::into_high(&not_found(), &raw).unwrap_err(),
            XrErr::new(ERROR_HANDLE_INVALID)
        );
    }
    let good = raw_action_set(b"set\0\xff", b"x\0");
    assert!(ActionSetCreateInfo::into_high(&Ok(1), &good).is_ok());
}

fn layer() -> LayerInterface {
    LayerInterface {
        info_header: StructHeader { ty: 1, struct_version: 1, struct_size: 40 },
        request_header: StructHeader { ty: 2, struct_version: 1, struct_size: 48 },
        api_version: 10,
        interface_version: 1,
        get_instance_proc_addr: 111,
        create_api_layer_instance: 222,
    }
}

fn offer() -> (LoaderInfo, ApiLayerRequest) {
    (
        LoaderInfo { header: layer().info_header, min_api_version: 10, max_api_version: 10 },
        ApiLayerRequest {
            header: layer().request_header,
            layer_interface_version: 0,
            layer_api_version: 0,
            get_instance_proc_addr: None,
            create_api_layer_instance: None,
        },
    )
}

#[test]
fn negotiation_fills_in_the_request() {
    let (info, mut request) = offer();
    assert_eq!(
        negotiate_loader_api_layer_interface_impl(&layer(), &info, &mut request),
        Ok(())
    );
    assert_eq!(request.layer_interface_version, 1);
    assert_eq!(request.layer_api_version, 10);
    assert_eq!(request.get_instance_proc_addr, Some(111));
    assert_eq!(request.create_api_layer_instance, Some(222));
}

#[test]
fn negotiation_refuses_what_does_not_fit() {
    let (good_info, good_request) = offer();
    let mut cases = Vec::new();
    for change in 0..8 {
        let mut info = good_info;
        let mut request = good_request;
        match change {
            0 => info.header.ty = 9,
            1 => info.header.struct_version = 9,
            2 => info.header.struct_size = 9,
            3 => request.header.ty = 9,
            4 => request.header.struct_version = 9,
            5 => request.header.struct_size = 9,
            6 => info.min_api_version = 11,
            _ => info.max_api_version = 9,
        }
        cases.push((info, request));
    }
    for (info, request) in cases {
        let mut changed = request;
        assert_eq!(
            negotiate_loader_api_layer_interface_impl(&layer(), &info, &mut changed),
            Err(XrErr::new(ERROR_INITIALIZATION_FAILED))
        );
        assert_eq!(changed, request);
    }
}

#[test]
fn functions_are_overridden_or_forwarded() {
    let table = vec!["xrBeginSession".to_string(), "xrEndSession".to_string()];
    assert_eq!(
        get_instance_proc_addr(&Ok(1), b"xrEndSession\0", &table),
        ProcAnswer::Overridden(1)
    );
    assert_eq!(
        get_instance_proc_addr(&Ok(1), b"xrEndSessionX\0", &table),
        ProcAnswer::Forward
    );
    assert_eq!(
        get_instance_proc_addr(&Ok(1), b"\xff\0", &table),
        ProcAnswer::Fail(XrErr::new(ERROR_VALIDATION_FAILURE))
    );
    assert_eq!(
        get_instance_proc_addr(&not_found(), b"xrEndSession\0", &table),
        ProcAnswer::Fail(XrErr::new(ERROR_HANDLE_INVALID))
    );
}
