use xr_passthrough_layer::config::{
    default_display_eye, default_z_order, load_config, Config, DisplayMode, Eye, FileConfig,
    FileDisplayMode, ProjectionMode,
};
use xr_passthrough_layer::geometry::Size;
use xr_passthrough_layer::install::{
    check_command, directory_is_there, exit_after_build, install_paths, layer_manifest,
    DirOutcome, InstallError,
};
use xr_passthrough_layer::pipeline::{
    DeviceSupport, FragmentShader, Pipeline, PipelineInput, PixelFormat,
};
use xr_passthrough_layer::version::ApiVersion;
use xr_passthrough_layer::viewer::{
    choose_format, image_acquired, image_count, on_viewer_event, recreated, redraw, Acquired,
    RedrawStep, ViewerAction, ViewerEvent,
};
use xr_passthrough_layer::xr::{
    composition_layers, create_vk_device, create_vk_instance, poses_are_valid, time_at_capture,
    EventAction, OpenXrError, OpenXrEvent, OpenXrSetup, OpenXrStage, Overlay, PositionMode,
    ReadyStage, ReadyStep, Rect, RefreshStep, RenderTarget, SessionPhase, XrEvent, GRAPHICS_QUEUE,
    ORIENTATION_VALID, POSITION_VALID, SWAPCHAIN_FORMAT,
};
use xr_passthrough_layer::xr_result::XrErr;

fn texts(list: &[&str]) -> Vec<String> {
    list.iter().map(|s| s.to_string()).collect()
}

#[test]
fn defaults_of_the_configuration() {
    assert_eq!(ProjectionMode::default(), ProjectionMode::FromCamera);
    assert_eq!(DisplayMode::default(), DisplayMode::Direct);
    assert_eq!(default_display_eye(), Eye::Left);
    assert_eq!(default_z_order(), u32::MAX);
    let c = Config::default();
    assert_eq!((c.camera_device.as_str(), c.display_mode, c.debug), ("", DisplayMode::Direct, false));
}

#[test]
fn display_modes() {
    let stereo = DisplayMode::Stereo { projection_mode: ProjectionMode::FromEye };
    let flat = DisplayMode::Flat { eye: Eye::Right };
    assert_eq!(stereo.projection_mode(), Some(ProjectionMode::FromEye));
    assert_eq!(flat.projection_mode(), None);
    assert_eq!(DisplayMode::Direct.projection_mode(), None);
    assert!(stereo.is_stereo());
    assert!(DisplayMode::Direct.is_stereo());
    assert!(!flat.is_stereo());
}

#[test]
fn configuration_without_a_file() {
    let c = load_config(None);
    assert_eq!((c.camera_device.as_str(), c.display_mode, c.debug), ("", DisplayMode::Direct, false));
}

#[test]
fn configuration_fills_in_what_is_left_out() {
    let empty = FileConfig { camera_device: None, display_mode: None, debug: None };
    let c = load_config(Some(empty));
    assert_eq!((c.camera_device.as_str(), c.display_mode, c.debug), ("", DisplayMode::Direct, false));
    let some = FileConfig {
        camera_device: Some("/dev/video2".to_string()),
        display_mode: Some(FileDisplayMode::Stereo { projection_mode: None }),
        debug: Some(true),
    };
    let c = load_config(Some(some));
    assert_eq!(c.camera_device, "/dev/video2");
    assert_eq!(
        c.display_mode,
        DisplayMode::Stereo { projection_mode: ProjectionMode::FromCamera }
    );
    assert!(c.debug);
    assert_eq!(
        FileDisplayMode::Flat { eye: None }.with_defaults(),
        DisplayMode::Flat { eye: Eye::Left }
    );
    assert_eq!(
        FileDisplayMode::Flat { eye: Some(Eye::Right) }.with_defaults(),
        DisplayMode::Flat { eye: Eye::Right }
    );
}

fn input(source_is_yuyv: bool, has_camera_config: bool) -> PipelineInput {
    PipelineInput {
        source_is_yuyv,
        has_camera_config,
        camera_size: Size::new(960, 960),
        render_size: Size::new(100, 200),
    }
}

const NO_SUPPORT: DeviceSupport = DeviceSupport { ycbcr_extension: false, ycbcr_feature: true };
const SUPPORT: DeviceSupport = DeviceSupport { ycbcr_extension: true, ycbcr_feature: true };

#[test]
fn shaders() {
    assert_eq!(Pipeline::load_shader(true, true, false), FragmentShader::YuyvUndistort);
    assert_eq!(Pipeline::load_shader(true, false, false), FragmentShader::Yuyv);
    assert_eq!(Pipeline::load_shader(true, true, true), FragmentShader::Undistort);
    assert_eq!(Pipeline::load_shader(false, true, false), FragmentShader::Undistort);
    assert_eq!(Pipeline::load_shader(false, false, true), FragmentShader::Unprocessed);
}

#[test]
fn pipeline_that_converts_colours_itself() {
    assert!(!Pipeline::asks_for_format(&NO_SUPPORT));
    let p = Pipeline::new(&NO_SUPPORT, true, &input(true, true));
    assert_eq!(p.shader, FragmentShader::YuyvUndistort);
    assert_eq!(p.input_format, PixelFormat::R8G8B8A8Unorm);
    assert_eq!(p.input_extent, Size::new(960, 960));
    assert_eq!(p.buffer_size, 960 * 960 * 4);
    assert!(!p.converts_colours);
    assert!(p.binds_distortion);
    assert_eq!(p.allocate_image(), (Size::new(100, 200), PixelFormat::R8G8B8A8Snorm));
}

#[test]
fn pipeline_whose_sampler_converts_colours() {
    assert!(Pipeline::asks_for_format(&SUPPORT));
    let p = Pipeline::new(&SUPPORT, true, &input(true, false));
    assert_eq!(p.shader, FragmentShader::Unprocessed);
    assert_eq!(p.input_format, PixelFormat::G8B8G8R8_422Unorm);
    assert_eq!(p.input_extent, Size::new(1920, 960));
    assert_eq!(p.buffer_size, 960 * 960 * 4);
    assert!(p.converts_colours);
    assert!(!p.binds_distortion);
    assert!(!Pipeline::new(&SUPPORT, false, &input(true, false)).converts_colours);
}

#[test]
fn pipeline_of_an_image_in_rgba() {
    let p = Pipeline::new(&NO_SUPPORT, false, &input(false, false));
    assert_eq!(p.input_extent, Size::new(1920, 960));
    assert_eq!(p.buffer_size, 1920 * 960 * 4);
    assert_eq!(p.upload_len(1920 * 960 * 4), Some(1920 * 960 * 4));
    assert_eq!(p.upload_len(1920 * 960 * 4 + 1), None);
}

#[test]
fn numbers_are_those_of_vulkan_and_openxr() {
    assert_eq!(SWAPCHAIN_FORMAT as i32, ash::vk::Format::R8G8B8A8_UNORM.as_raw());
    assert_eq!(GRAPHICS_QUEUE, ash::vk::QueueFlags::GRAPHICS.as_raw());
    assert_eq!(ORIENTATION_VALID, openxr::sys::ViewStateFlags::ORIENTATION_VALID.into_raw());
    assert_eq!(POSITION_VALID, openxr::sys::ViewStateFlags::POSITION_VALID.into_raw());
}

#[test]
fn vulkan_instance_is_planned() {
    let library = ApiVersion { major: 1, minor: 3, patch: 200 };
    let plan = create_vk_instance(&texts(&["a"]), &texts(&["b", "a"]), 1, 2, library).unwrap();
    assert_eq!(plan.version, ApiVersion::major_minor(1, 2));
    assert_eq!(plan.raw_version, Some(ash::vk::make_api_version(0, 1, 2, 0)));
    let plan = create_vk_instance(&[], &[], 1, 4, library).unwrap();
    assert_eq!(plan.version, library);
    let plan = create_vk_instance(&[], &[], 1000, 1000, ApiVersion::major_minor(2000, 0)).unwrap();
    assert_eq!(plan.raw_version, Some(ash::vk::make_api_version(0, 1000, 1000, 0)));
}

#[test]
fn first_unsupported_extension_is_named() {
    let library = ApiVersion::major_minor(1, 3);
    match create_vk_instance(&texts(&["a", "x", "y"]), &texts(&["a"]), 1, 2, library) {
        Err(OpenXrError::UnsupportedExtension(name)) => assert_eq!(name, "x"),
        other => panic!("{:?}", other),
    }
}

#[test]
fn vulkan_device_is_planned() {
    let device = ApiVersion { major: 1, minor: 1, patch: 0 };
    assert!(matches!(create_vk_device(1, 1, device, &[2, 4, 3, 1]), Ok(2)));
    assert!(matches!(
        create_vk_device(1, 2, device, &[1]),
        Err(OpenXrError::UnsupportedVersion(v)) if v == device
    ));
    assert!(matches!(
        create_vk_device(1, 0, device, &[2, 4]),
        Err(OpenXrError::NoGraphicsQueue)
    ));
}

fn good_events() -> Vec<OpenXrEvent> {
    vec![
        OpenXrEvent::Outcome(true),
        OpenXrEvent::Outcome(true),
        OpenXrEvent::Outcome(true),
        OpenXrEvent::BlendModes(vec![3, 1]),
        OpenXrEvent::Vulkan(Ok(())),
        OpenXrEvent::Vulkan(Ok(())),
        OpenXrEvent::Session(XrErr::new(0)),
        OpenXrEvent::Formats(vec![43, 37]),
        OpenXrEvent::Outcome(true),
        OpenXrEvent::Outcome(true),
        OpenXrEvent::Outcome(true),
    ]
}

#[test]
fn client_is_set_up() {
    let mut s = OpenXrSetup::new(Size::new(10, 20));
    let stages = [
        OpenXrStage::Instance,
        OpenXrStage::System,
        OpenXrStage::BlendModes,
        OpenXrStage::VkInstance,
        OpenXrStage::VkDevice,
        OpenXrStage::Session,
        OpenXrStage::Formats,
        OpenXrStage::Swapchain,
        OpenXrStage::Images,
        OpenXrStage::Space,
        OpenXrStage::Ready,
    ];
    for (event, stage) in good_events().into_iter().zip(stages) {
        assert_eq!(s.step(event).unwrap(), stage);
    }
    let plan = s.swapchain();
    assert_eq!((plan.format, plan.size, plan.sample_count), (37, Size::new(20, 20), 1));
}

#[test]
fn client_needs_all_that_it_asks_for() {
    let bad = [
        (0, OpenXrEvent::Outcome(false)),
        (3, OpenXrEvent::BlendModes(vec![2, 3])),
        (4, OpenXrEvent::Vulkan(Err(OpenXrError::NoGraphicsQueue))),
        (6, OpenXrEvent::Session(XrErr::new(-2))),
        (7, OpenXrEvent::Formats(vec![43])),
    ];
    for (n, event) in bad {
        let mut s = OpenXrSetup::new(Size::new(10, 20));
        for good in good_events().into_iter().take(n) {
            s.step(good).unwrap();
        }
        let before = s.stage;
        let error = s.step(event).unwrap_err();
        assert_eq!(s.stage, before);
        match n {
            0 => assert!(matches!(error, OpenXrError::Outside)),
            3 => assert!(matches!(error, OpenXrError::NoOpaqueBlendMode)),
            4 => assert!(matches!(error, OpenXrError::NoGraphicsQueue)),
            6 => assert!(matches!(error, OpenXrError::Runtime(XrErr { code: -2 }))),
            _ => assert!(matches!(error, OpenXrError::NoFormat)),
        }
    }
}

#[test]
fn eyes_see_their_halves() {
    let left = Rect { x: 0, y: 0, width: 960, height: 960 };
    let right = Rect { x: 960, y: 0, width: 960, height: 960 };
    let layers = composition_layers(true, true).unwrap();
    assert_eq!((layers.left, layers.right), (left, right));
    let layers = composition_layers(true, false).unwrap();
    assert_eq!((layers.left, layers.right), (left, left));
    assert_eq!(composition_layers(false, true), None);
}

fn overlay() -> Overlay {
    Overlay {
        phase: SessionPhase::Focused,
        visible: true,
        display_mode: DisplayMode::Direct,
        has_projector: false,
        render_texture: None,
        predicted_time: None,
        placed: false,
        reposition: false,
        position_mode: PositionMode::Other,
    }
}

#[test]
fn overlay_is_shown_and_hidden() {
    let mut o = overlay();
    assert!(o.hide_needs_frame());
    o.overlay_hidden(false);
    assert!(o.visible);
    o.overlay_hidden(true);
    assert!(!o.visible);
    assert!(!o.hide_needs_frame());
    assert_eq!(o.refresh(), RefreshStep::Sleep);
    assert!(!o.wants_frame());
    o.show_overlay();
    assert!(o.visible);
}

#[test]
fn overlay_is_refreshed_with_its_last_image() {
    let mut o = overlay();
    assert_eq!(o.refresh(), RefreshStep::Frame { layers: None });
    o.placed = true;
    assert_eq!(o.refresh(), RefreshStep::Frame { layers: composition_layers(true, true) });
    o.display_mode = DisplayMode::Flat { eye: Eye::Left };
    assert_eq!(o.refresh(), RefreshStep::Frame { layers: composition_layers(true, false) });
}

#[test]
fn image_is_drawn_to_the_swapchain() {
    let mut o = overlay();
    assert!(o.wants_frame());
    assert_eq!(o.get_render_texture(5, false), RenderTarget::Skip);
    assert_eq!(o.get_render_texture(6, true), RenderTarget::Acquire);
    assert_eq!(o.predicted_time, Some(6));
    o.image_acquired(3);
    o.set_position_mode(PositionMode::Sticky);
    let s = o.submit_texture();
    assert_eq!((s.reposition, s.project, s.predicted_time), (true, false, 6));
    assert_eq!(Some(s.layers), composition_layers(true, o.display_mode.is_stereo()));
    assert_eq!(o.render_texture, None);
    assert!(o.placed);
    let s = o.submit_texture();
    assert_eq!((s.reposition, s.predicted_time), (false, 6));
}

#[test]
fn image_goes_to_the_frame_that_was_waited_for_last() {
    let mut o = overlay();
    o.frame_waited(4);
    assert_eq!(o.submit_texture().predicted_time, 4);
    assert_eq!(o.get_render_texture(5, true), RenderTarget::Acquire);
    assert!(matches!(o.refresh(), RefreshStep::Frame { .. }));
    o.frame_waited(9);
    assert_eq!(o.submit_texture().predicted_time, 9);
}

#[test]
fn projected_overlay_keeps_its_image() {
    let mut o = overlay();
    let stereo = DisplayMode::Stereo { projection_mode: ProjectionMode::FromEye };
    assert_eq!(o.set_display_mode(stereo), Some(ProjectionMode::FromEye));
    o.projector_made(None, false);
    assert!(!o.has_projector);
    o.projector_made(Some(4), false);
    assert_eq!((o.render_texture, o.has_projector), (Some(4), false));
    o.projector_made(Some(4), true);
    assert!(o.has_projector);
    assert_eq!(o.set_display_mode(stereo), None);
    assert_eq!(o.get_render_texture(6, true), RenderTarget::Texture(4));
    assert!(o.submit_texture().project);
    assert_eq!(o.render_texture, Some(4));
    assert_eq!(o.set_display_mode(DisplayMode::Direct), None);
    assert_eq!((o.render_texture, o.has_projector), (None, false));
}

#[test]
fn events_of_the_runtime() {
    let mut o = overlay();
    assert_eq!(o.on_event(XrEvent::InstanceLossPending), EventAction::Exit);
    assert_eq!(o.on_event(XrEvent::Other), EventAction::Continue);
    for (phase, action) in [
        (SessionPhase::Exiting, EventAction::EndThenExit),
        (SessionPhase::LossPending, EventAction::EndThenExit),
        (SessionPhase::Ready, EventAction::Begin),
        (SessionPhase::Stopping, EventAction::End),
        (SessionPhase::Idle, EventAction::Continue),
    ] {
        assert_eq!(o.on_event(XrEvent::SessionStateChanged(phase)), action);
        assert_eq!(o.phase, phase);
    }
    o.visible = false;
    assert_eq!(
        o.on_event(XrEvent::SessionStateChanged(SessionPhase::Stopping)),
        EventAction::Continue
    );
}

#[test]
fn waiting_until_frames_are_shown() {
    let mut o = overlay();
    o.phase = SessionPhase::Idle;
    assert_eq!(
        o.wait_for_ready(ReadyStage::Ready),
        (ReadyStage::Ready, ReadyStep::PollAndSleep)
    );
    o.phase = SessionPhase::Ready;
    assert_eq!(
        o.wait_for_ready(ReadyStage::Ready),
        (ReadyStage::Synchronized, ReadyStep::EmptyFrame)
    );
    o.phase = SessionPhase::Idle;
    assert_eq!(
        o.wait_for_ready(ReadyStage::Synchronized),
        (ReadyStage::Synchronized, ReadyStep::EmptyFrame)
    );
    o.phase = SessionPhase::Synchronized;
    assert_eq!(
        o.wait_for_ready(ReadyStage::Synchronized),
        (ReadyStage::Synchronized, ReadyStep::Done)
    );
}

#[test]
fn poses_and_times() {
    assert_eq!(time_at_capture(100, 30), 70);
    assert_eq!(time_at_capture(-100, 30), -130);
    assert_eq!(time_at_capture(i64::MIN, 1), i64::MAX);
    assert_eq!(time_at_capture(-1, u64::MAX), 0);
    assert!(poses_are_valid(7));
    assert!(!poses_are_valid(1));
    assert!(!poses_are_valid(6));
}

#[test]
fn window_formats() {
    let vk = |f: ash::vk::Format| f.as_raw();
    let rgba = vk(ash::vk::Format::R8G8B8A8_UNORM);
    let bgra = vk(ash::vk::Format::B8G8R8A8_UNORM);
    let rgb = vk(ash::vk::Format::R8G8B8_UNORM);
    let bgr = vk(ash::vk::Format::B8G8R8_UNORM);
    assert_eq!(choose_format(&[1, rgba]), Some(rgba));
    assert_eq!(choose_format(&[rgba, bgra]), Some(bgra));
    assert_eq!(choose_format(&[rgba, bgra, rgb]), Some(rgb));
    assert_eq!(choose_format(&[rgba, bgra, rgb, bgr]), Some(bgr));
    assert_eq!(choose_format(&[1, 2]), None);
    assert_eq!((image_count(1), image_count(2), image_count(5)), (2, 2, 5));
}

#[test]
fn window_is_redrawn() {
    assert_eq!(redraw(false), RedrawStep::Nothing);
    assert_eq!(redraw(true), RedrawStep::Acquire);
    assert_eq!(image_acquired(Acquired::Image(3)), RedrawStep::Draw { image: 3 });
    assert_eq!(
        image_acquired(Acquired::Suboptimal(3)),
        RedrawStep::Recreate { wait_for_acquired: true }
    );
    assert_eq!(
        image_acquired(Acquired::OutOfDate),
        RedrawStep::Recreate { wait_for_acquired: false }
    );
    assert_eq!(image_acquired(Acquired::Failed), RedrawStep::Fail);
    assert_eq!(recreated(true), RedrawStep::Acquire);
    assert_eq!(recreated(false), RedrawStep::Fail);
}

#[test]
fn events_of_the_window() {
    for (event, action) in [
        (ViewerEvent::Resumed { window: true, set_up: true }, ViewerAction::StartCamera),
        (ViewerEvent::Resumed { window: true, set_up: false }, ViewerAction::Exit),
        (ViewerEvent::Resumed { window: false, set_up: true }, ViewerAction::Exit),
        (ViewerEvent::AboutToWait { has_window: true }, ViewerAction::RequestRedraw),
        (ViewerEvent::AboutToWait { has_window: false }, ViewerAction::Nothing),
        (ViewerEvent::CloseRequested, ViewerAction::Exit),
        (ViewerEvent::Redrawn { ok: true }, ViewerAction::Nothing),
        (ViewerEvent::Redrawn { ok: false }, ViewerAction::Exit),
        (ViewerEvent::Interrupted, ViewerAction::Exit),
        (ViewerEvent::Other, ViewerAction::Nothing),
    ] {
        assert_eq!(on_viewer_event(event), action);
    }
}

#[test]
fn install_is_the_only_command() {
    assert!(check_command(Some("install")).is_ok());
    assert!(matches!(check_command(None), Err(InstallError::MissingVerb)));
    match check_command(Some("remove")) {
        Err(InstallError::UnknownCommand(name)) => assert_eq!(name, "remove"),
        other => panic!("{:?}", other),
    }
}

#[test]
fn failed_build_ends_the_installation() {
    assert_eq!(exit_after_build(true, Some(0)), None);
    assert_eq!(exit_after_build(false, Some(101)), Some(101));
    assert_eq!(exit_after_build(false, None), Some(1));
    assert!(directory_is_there(DirOutcome::Made));
    assert!(directory_is_there(DirOutcome::AlreadyThere));
    assert!(!directory_is_there(DirOutcome::Failed));
}

#[test]
fn files_go_to_the_home_directory() {
    let p = install_paths("/home/u");
    assert_eq!(p.library_dir, "/home/u/.local/lib/xr_passthrough_layer");
    assert_eq!(p.library, "/home/u/.local/lib/xr_passthrough_layer/liblayer.so");
    assert_eq!(p.manifest_dir, "/home/u/.local/share/openxr/1/api_layers/explicit.d");
    assert_eq!(
        p.manifest,
        "/home/u/.local/share/openxr/1/api_layers/explicit.d/XR_APILAYER_YX_passthrough.json"
    );
    assert_eq!(p.built_library, "target/release/libxr_passthrough_layer.so");
    assert_eq!(install_paths("/").library_dir, "/.local/lib/xr_passthrough_layer");
    let by_std = std::path::Path::new("/home/u/").join(".local").join("lib");
    assert_eq!(
        install_paths("/home/u/").library_dir,
        by_std.join("xr_passthrough_layer").to_str().unwrap()
    );
}

#[test]
fn manifest_of_the_layer() {
    let m = layer_manifest("/x/liblayer.so");
    assert_eq!(m.file_format_version, "1.0.0");
    assert_eq!(m.api_layer.name, "XR_APILAYER_YX_passthrough");
    assert_eq!(m.api_layer.library_path, "/x/liblayer.so");
    assert_eq!(m.api_layer.api_version, "1.0");
    assert_eq!(m.api_layer.implementation_version, "1");
    assert_eq!(m.api_layer.description, "Passthrough");
    assert_eq!(m.api_layer.instance_extensions.len(), 1);
    assert_eq!(m.api_layer.instance_extensions[0].name, "XR_HTC_passthrough");
    assert_eq!(m.api_layer.instance_extensions[0].extension_version, "1");
}
