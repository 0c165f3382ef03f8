use xr_passthrough_layer::camera_setup::{
    CameraSetup, SetupAction, SetupEvent, SetupStage, ViewConfig,
};
use xr_passthrough_layer::geometry::{Size, CAMERA_SIZE};
use xr_passthrough_layer::passthrough::{
    find_mesh, LayerAssets, PassthroughFactory, PassthroughInner,
};
use xr_passthrough_layer::session::{
    BeginStep, CameraResources, EndFrameStep, EndStep, FrameStep, OnCreateStep, SessionData,
    SessionState,
};
use xr_passthrough_layer::types::{AnySession, GraphicsBinding, SessionCreateInfo, VulkanBinding};
use xr_passthrough_layer::xr_result::{
    XrErr, ERROR_CALL_ORDER_INVALID, ERROR_FEATURE_UNSUPPORTED, ERROR_RUNTIME_FAILURE,
    ERROR_SESSION_NOT_RUNNING, ERROR_SESSION_RUNNING, SUCCESS,
};

const CAMERA_LAYER: i32 = 1000317004;

fn ok() -> XrErr {
    XrErr::new(SUCCESS)
}

fn e(code: i32) -> XrErr {
    XrErr::new(code)
}

fn info() -> SessionCreateInfo {
    SessionCreateInfo {
        system_id: 77,
        graphics_binding: Some(GraphicsBinding::Vulkan(VulkanBinding {
            instance: 1,
            physical_device: 2,
            device: 3,
            queue_family_index: 4,
            queue_index: 5,
        })),
    }
}

fn handled() -> SessionData {
    SessionData::device_wrapped(3, Some(8), &info())
}

fn camera() -> CameraResources {
    CameraResources { swapchain: 50, size: Size::new(30, 20), images: vec![1, 2, 3], camera: 60 }
}

fn p(id: u64) -> PassthroughInner {
    PassthroughInner { id }
}

/// A session that shows the camera and runs.
fn showing() -> SessionData {
    let mut d = handled();
    let r = PassthroughFactory::create(&AnySession::Vulkan(9), &mut d, 1, 100, p(1), None);
    assert!(r.is_ok());
    assert_eq!(d.session_begun(Ok(()), 2), BeginStep::SetUpCamera);
    assert_eq!(d.camera_set_up(Ok(camera()), 2), ok());
    d
}

fn state(d: &SessionData) -> &SessionState {
    &d.inner.as_ref().unwrap().state
}

#[test]
fn session_without_vulkan_is_not_handled() {
    let r = SessionData::on_create(&AnySession::Gl(9), &info(), Ok(true));
    assert!(matches!(r, OnCreateStep::Done(Ok(SessionData { inner: None }))));
    let r = SessionData::on_create(&AnySession::Unhandled(9), &info(), Err(e(-1)));
    assert!(matches!(r, OnCreateStep::Done(Ok(SessionData { inner: None }))));
}

#[test]
fn session_without_passthrough_is_not_handled() {
    let r = SessionData::on_create(&AnySession::Vulkan(9), &info(), Ok(false));
    assert!(matches!(r, OnCreateStep::Done(Ok(SessionData { inner: None }))));
    let r = SessionData::on_create(&AnySession::Vulkan(9), &info(), Err(e(-12)));
    assert!(matches!(r, OnCreateStep::Done(Err(XrErr { code: -12 }))));
}

#[test]
fn session_is_handled_once_the_device_is_wrapped() {
    assert!(matches!(
        SessionData::on_create(&AnySession::Vulkan(9), &info(), Ok(true)),
        OnCreateStep::WrapPhysicalDevice { instance: 1, physical_device: 2 }
    ));
    assert!(matches!(
        SessionData::physical_device_wrapped(true, &info()),
        OnCreateStep::WrapDevice { device: 3, queue_family_index: 4, queue_count: 6 }
    ));
    assert!(matches!(
        SessionData::physical_device_wrapped(false, &info()),
        OnCreateStep::Done(Ok(SessionData { inner: None }))
    ));
    assert!(SessionData::device_wrapped(3, None, &info()).inner.is_none());
    let d = handled();
    let inner = d.inner.as_ref().unwrap();
    assert_eq!((inner.device, inner.queue, inner.system_id), (3, 8, 77));
    assert!(matches!(inner.state, SessionState::Idle));
}

#[test]
fn unhandled_session_is_forwarded() {
    let mut d = SessionData::unhandled();
    assert_eq!(d.begin_session(Ok(())), BeginStep::Forward);
    assert_eq!(d.end_session(Ok(())), EndStep::Forward);
    assert_eq!(d.frame_waited(ok(), Ok(()), true), ok());
    assert_eq!(d.frame_begun(ok(), Ok(())), FrameStep::Done(ok()));
    assert_eq!(d.end_frame(Ok(()), &[Some(CAMERA_LAYER)], CAMERA_LAYER), EndFrameStep::Forward);
}

#[test]
fn unknown_session_is_refused() {
    let mut d = handled();
    let bad = Err(e(-12));
    assert_eq!(d.begin_session(bad), BeginStep::Done(e(-12)));
    assert_eq!(d.end_session(bad), EndStep::Done(e(-12)));
    assert_eq!(d.frame_waited(ok(), bad, true), e(-12));
    assert_eq!(d.frame_begun(ok(), bad), FrameStep::Done(e(-12)));
    assert_eq!(d.end_frame(bad, &[], CAMERA_LAYER), EndFrameStep::Done(e(-12)));
    assert!(matches!(state(&d), SessionState::Idle));
}

#[test]
fn session_begins_and_ends() {
    let mut d = handled();
    assert_eq!(d.begin_session(Ok(())), BeginStep::Begin);
    assert_eq!(d.session_begun(Ok(()), 2), BeginStep::Done(ok()));
    assert_eq!(state(&d).view_type(), Some(2));
    assert_eq!(d.end_session(Ok(())), EndStep::End);
    assert_eq!(SessionData::session_ended(Ok(())), ok());
    assert_eq!(SessionData::session_ended(Err(e(-2))), e(-2));
    assert!(matches!(state(&d), SessionState::Idle));
}

#[test]
fn session_that_fails_to_begin_stays_idle() {
    let mut d = handled();
    assert_eq!(d.session_begun(Err(e(-2)), 2), BeginStep::Done(e(-2)));
    assert!(matches!(state(&d), SessionState::Idle));
}

#[test]
fn session_does_not_begin_twice() {
    let mut d = handled();
    d.session_begun(Ok(()), 2);
    assert_eq!(d.session_begun(Ok(()), 1), BeginStep::Done(e(ERROR_SESSION_RUNNING)));
    assert_eq!(state(&d).view_type(), Some(2));
    let mut d = showing();
    assert_eq!(d.session_begun(Ok(()), 1), BeginStep::Done(e(ERROR_SESSION_RUNNING)));
}

#[test]
fn idle_session_does_not_end() {
    let mut d = handled();
    assert_eq!(d.end_session(Ok(())), EndStep::Done(e(ERROR_SESSION_NOT_RUNNING)));
}

#[test]
fn camera_that_cannot_be_set_up_leaves_the_session_idle() {
    let mut d = handled();
    PassthroughFactory::create(&AnySession::Vulkan(9), &mut d, 1, 100, p(1), None).unwrap();
    assert_eq!(d.session_begun(Ok(()), 2), BeginStep::SetUpCamera);
    assert_eq!(d.camera_set_up(Err(e(-2)), 2), e(-2));
    assert!(matches!(state(&d), SessionState::IdleWithPassthrough { .. }));
}

#[test]
fn beginning_and_ending_keeps_the_passthrough() {
    let mut d = showing();
    assert_eq!(state(&d).view_type(), Some(2));
    assert_eq!(d.end_session(Ok(())), EndStep::End);
    match state(&d) {
        SessionState::IdleWithPassthrough { passthrough } => assert_eq!(*passthrough, p(1)),
        other => panic!("{:?}", other),
    }
}

#[test]
fn frame_cycle_with_the_camera() {
    let mut d = showing();
    assert_eq!(d.frame_waited(ok(), Ok(()), true), ok());
    assert_eq!(d.frame_begun(ok(), Ok(())), FrameStep::Acquire);
    assert_eq!(d.image_acquired(Ok(2)), FrameStep::Wait);
    assert_eq!(SessionData::image_waited(Ok(())), ok());
    // A frame that is begun again uses the image that is held.
    assert_eq!(d.frame_begun(ok(), Ok(())), FrameStep::Done(ok()));
    let layers = [None, Some(5), Some(CAMERA_LAYER)];
    assert_eq!(
        d.end_frame(Ok(()), &layers, CAMERA_LAYER),
        EndFrameStep::Copy { image: 2 }
    );
    assert_eq!(SessionData::image_copied(true), EndFrameStep::Release);
    assert_eq!(SessionData::image_released(Ok(())), EndFrameStep::Forward);
    match state(&d) {
        SessionState::RunningWithPassthrough { image_index, should_render, .. } => {
            assert_eq!(*image_index, None);
            assert_eq!(*should_render, None);
        }
        other => panic!("{:?}", other),
    }
    assert_eq!(d.frame_waited(ok(), Ok(()), false), ok());
}

#[test]
fn frame_without_the_camera_keeps_the_image() {
    let mut d = showing();
    d.frame_waited(ok(), Ok(()), true);
    d.image_acquired(Ok(1));
    assert_eq!(d.end_frame(Ok(()), &[Some(5)], CAMERA_LAYER), EndFrameStep::Forward);
    d.frame_waited(ok(), Ok(()), true);
    assert_eq!(d.frame_begun(ok(), Ok(())), FrameStep::Done(ok()));
    assert_eq!(
        d.end_frame(Ok(()), &[Some(CAMERA_LAYER)], CAMERA_LAYER),
        EndFrameStep::Copy { image: 1 }
    );
}

#[test]
fn frame_that_is_not_rendered_needs_no_image() {
    let mut d = showing();
    d.frame_waited(ok(), Ok(()), false);
    assert_eq!(d.frame_begun(ok(), Ok(())), FrameStep::Done(ok()));
    assert_eq!(
        d.end_frame(Ok(()), &[Some(CAMERA_LAYER)], CAMERA_LAYER),
        EndFrameStep::Forward
    );
}

#[test]
fn frame_has_to_be_waited_for() {
    let d = showing();
    assert_eq!(
        d.frame_begun(ok(), Ok(())),
        FrameStep::Done(e(ERROR_CALL_ORDER_INVALID))
    );
}

#[test]
fn frames_of_an_idle_session_are_refused() {
    let mut d = handled();
    let not_running = e(ERROR_SESSION_NOT_RUNNING);
    assert_eq!(d.frame_waited(ok(), Ok(()), true), not_running);
    assert_eq!(d.frame_begun(ok(), Ok(())), FrameStep::Done(not_running));
    assert_eq!(d.end_frame(Ok(()), &[], CAMERA_LAYER), EndFrameStep::Done(not_running));
}

#[test]
fn frames_without_passthrough_succeed() {
    let mut d = handled();
    d.session_begun(Ok(()), 2);
    assert_eq!(d.frame_waited(ok(), Ok(()), true), ok());
    assert_eq!(d.frame_begun(ok(), Ok(())), FrameStep::Done(ok()));
    assert_eq!(
        d.end_frame(Ok(()), &[Some(CAMERA_LAYER)], CAMERA_LAYER),
        EndFrameStep::Done(ok())
    );
}

#[test]
fn errors_in_a_frame_are_passed_on() {
    let mut d = showing();
    assert_eq!(d.frame_waited(e(-2), Ok(()), true), e(-2));
    d.frame_waited(ok(), Ok(()), true);
    assert_eq!(d.frame_begun(e(-3), Ok(())), FrameStep::Done(e(-3)));
    assert_eq!(d.image_acquired(Err(e(-4))), FrameStep::Done(e(-4)));
    assert_eq!(SessionData::image_waited(Err(e(-5))), e(-5));
    assert_eq!(
        SessionData::image_copied(false),
        EndFrameStep::Done(e(ERROR_RUNTIME_FAILURE))
    );
    assert_eq!(SessionData::image_released(Err(e(-6))), EndFrameStep::Done(e(-6)));
}

#[test]
fn passthrough_objects_share_one_passthrough() {
    let mut d = handled();
    let s = AnySession::Vulkan(9);
    assert!(!PassthroughFactory::needs_camera(&s, &d));
    let (high, first) = PassthroughFactory::create(&s, &mut d, 1, 100, p(1), None).unwrap();
    assert_eq!(high.as_handle(), 100);
    assert_eq!((first.inner, first.form, first.unique), (p(1), 1, 100));
    let (high, second) = PassthroughFactory::create(&s, &mut d, 2, 200, p(2), None).unwrap();
    assert_eq!(high.as_handle(), 200);
    assert_eq!((second.inner, second.form), (p(1), 2));
}

#[test]
fn passthrough_of_a_running_session_needs_the_camera() {
    let mut d = handled();
    d.session_begun(Ok(()), 2);
    let s = AnySession::Vulkan(9);
    assert!(PassthroughFactory::needs_camera(&s, &d));
    let failed = PassthroughFactory::create(&s, &mut d, 1, 100, p(1), Some(Err(e(-2))));
    assert_eq!(failed.unwrap_err(), e(-2));
    assert!(matches!(state(&d), SessionState::Running { view_type: 2 }));
    PassthroughFactory::create(&s, &mut d, 1, 100, p(1), Some(Ok(camera()))).unwrap();
    match state(&d) {
        SessionState::RunningWithPassthrough { view_type, camera, passthrough, .. } => {
            assert_eq!(*view_type, 2);
            assert_eq!(camera.swapchain, 50);
            assert_eq!(*passthrough, p(1));
        }
        other => panic!("{:?}", other),
    }
}

#[test]
fn passthrough_is_not_for_every_session() {
    let unsupported = e(ERROR_FEATURE_UNSUPPORTED);
    let mut d = handled();
    let r = PassthroughFactory::create(&AnySession::Gl(9), &mut d, 1, 100, p(1), None);
    assert_eq!(r.unwrap_err(), unsupported);
    let mut d = SessionData::unhandled();
    let r = PassthroughFactory::create(&AnySession::Vulkan(9), &mut d, 1, 100, p(1), None);
    assert_eq!(r.unwrap_err(), unsupported);
}

#[test]
fn whole_image_is_copied() {
    let region = camera().blit_region(Size::new(1920, 960));
    assert_eq!(region.src, Size::new(1920, 960));
    assert_eq!(region.dst, Size::new(30, 20));
}

#[test]
fn mesh_is_found_in_the_chain() {
    assert_eq!(find_mesh(&[1, 2, 7, 7], 7), Some(2));
    assert_eq!(find_mesh(&[1, 2], 7), None);
}

#[test]
fn assets_are_handed_out() {
    let assets = LayerAssets { camera_config: Some(5), splash_image: vec![1, 2] };
    assert_eq!(PassthroughInner::camera_cfg(&assets), Some(&5));
    assert_eq!(PassthroughInner::splash(&assets), &[1, 2]);
    let none: LayerAssets<u8> = LayerAssets { camera_config: None, splash_image: vec![] };
    assert_eq!(PassthroughInner::camera_cfg(&none), None);
}

fn views() -> Vec<ViewConfig> {
    vec![
        ViewConfig { size: Size::new(100, 300), sample_count: 4 },
        ViewConfig { size: Size::new(200, 150), sample_count: 1 },
    ]
}

#[test]
fn camera_is_set_up_step_by_step() {
    let mut s = CameraSetup::start();
    assert_eq!(s.action(), SetupAction::EnumerateViews);
    let yes = || SetupEvent::Outcome(true);
    let size = Size::new(200, 300);
    assert_eq!(s.step(SetupEvent::Views(Ok(views()))), SetupAction::FindDirectories);
    assert_eq!(s.step(yes()), SetupAction::LoadPipelineCache);
    assert_eq!(
        s.step(yes()),
        SetupAction::MakePipeline {
            camera_size: Size::new(CAMERA_SIZE, CAMERA_SIZE),
            render_size: size,
        }
    );
    assert_eq!(s.step(yes()), SetupAction::FindCamera);
    assert_eq!(s.step(yes()), SetupAction::OpenCamera);
    assert_eq!(s.step(yes()), SetupAction::LoadSplash);
    assert_eq!(s.step(yes()), SetupAction::EnumerateFormats);
    assert_eq!(s.step(SetupEvent::Formats(Ok(vec![43, 37]))), SetupAction::StartCamera);
    assert_eq!(
        s.step(SetupEvent::CameraStarted(60)),
        SetupAction::CreateSwapchain { format: 43, sample_count: 4, size }
    );
    assert_eq!(s.step(SetupEvent::Swapchain(Ok(50))), SetupAction::EnumerateImages);
    assert_eq!(
        s.step(SetupEvent::Images(Ok(vec![1, 2]))),
        SetupAction::WrapImages { format: 43, size }
    );
    assert_eq!(s.step(yes()), SetupAction::ResumeCamera);
    assert_eq!(s.stage, SetupStage::Resume);
    let r = s.finish();
    assert_eq!((r.swapchain, r.size, r.images, r.camera), (50, size, vec![1, 2], 60));
}

#[test]
fn failure_of_the_layer_is_a_runtime_failure() {
    let mut s = CameraSetup::start();
    s.step(SetupEvent::Views(Ok(views())));
    assert_eq!(
        s.step(SetupEvent::Outcome(false)),
        SetupAction::Fail(e(ERROR_RUNTIME_FAILURE))
    );
    assert_eq!(s.stage, SetupStage::Directories);
}

#[test]
fn failure_of_the_runtime_is_passed_on() {
    let mut s = CameraSetup::start();
    assert_eq!(s.step(SetupEvent::Views(Err(e(-7)))), SetupAction::Fail(e(-7)));
    s.step(SetupEvent::Views(Ok(views())));
    for _ in 0..6 {
        s.step(SetupEvent::Outcome(true));
    }
    assert_eq!(s.step(SetupEvent::Formats(Err(e(-8)))), SetupAction::Fail(e(-8)));
    s.step(SetupEvent::Formats(Ok(vec![1])));
    s.step(SetupEvent::CameraStarted(1));
    assert_eq!(s.step(SetupEvent::Swapchain(Err(e(-9)))), SetupAction::Fail(e(-9)));
    s.step(SetupEvent::Swapchain(Ok(1)));
    assert_eq!(s.step(SetupEvent::Images(Err(e(-10)))), SetupAction::Fail(e(-10)));
}
