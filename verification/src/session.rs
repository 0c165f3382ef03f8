//! Sessions: whether they run, whether they show the camera, and what each call of the
//! application does to them.

use crate::geometry::Size;
use crate::passthrough::PassthroughInner;
use crate::types::{AnySession, GraphicsBinding, SessionCreateInfo};
use crate::xr_result::{
    XrErr, XrResult, ERROR_CALL_ORDER_INVALID, ERROR_RUNTIME_FAILURE,
    ERROR_SESSION_NOT_RUNNING, ERROR_SESSION_RUNNING, SUCCESS,
};
use vstd::prelude::*;

verus! {

/// What is needed to show the camera: a swapchain of the layer's own with its images, and the
/// camera. Handles and images are given by numbers.
#[derive(Debug)]
pub struct CameraResources {
    pub swapchain: u64,
    pub size: Size,
    pub images: Vec<u64>,
    pub camera: u64,
}

/// Where a session stands.
#[derive(Debug)]
pub enum SessionState {
    Running { view_type: i32 },
    Idle,
    RunningWithPassthrough {
        view_type: i32,
        camera: CameraResources,
        passthrough: PassthroughInner,
        /// The image of the swapchain that is held.
        image_index: Option<u32>,
        /// What the runtime said of the frame that was waited for.
        should_render: Option<bool>,
    },
    IdleWithPassthrough { passthrough: PassthroughInner },
}

impl SessionState {
    pub open spec fn running(self) -> bool {
        self is Running || self is RunningWithPassthrough
    }

    /// The passthrough of the session, if it has one.
    pub open spec fn passthrough(self) -> Option<PassthroughInner> {
        match self {
            SessionState::RunningWithPassthrough { passthrough, .. } => Some(passthrough),
            SessionState::IdleWithPassthrough { passthrough } => Some(passthrough),
            _ => None,
        }
    }

    /// The views of the session, if it runs.
    pub open spec fn views(self) -> Option<i32> {
        match self {
            SessionState::Running { view_type } => Some(view_type),
            SessionState::RunningWithPassthrough { view_type, .. } => Some(view_type),
            _ => None,
        }
    }

    pub fn view_type(&self) -> (r: Option<i32>)
        ensures
            r == self.views(),
    {
        match self {
            SessionState::Running { view_type } => Some(*view_type),
            SessionState::RunningWithPassthrough { view_type, .. } => Some(*view_type),
            _ => None,
        }
    }

    /// Whether the camera has to be set up before the session can have a passthrough.
    pub fn needs_camera(&self) -> (r: bool)
        ensures
            r == (*self is Running),
    {
        match self {
            SessionState::Running { .. } => true,
            _ => false,
        }
    }

    /// The passthrough that a session has once it is asked for one: its own, or else `fresh`. A
    /// session that runs without one needs a camera.
    pub open spec fn asked_for_passthrough(
        self,
        fresh: PassthroughInner,
        camera: Option<XrResult<CameraResources>>,
    ) -> XrResult<PassthroughInner> {
        match (self.passthrough(), self, camera) {
            (Some(p), _, _) => Ok(p),
            (None, SessionState::Running { .. }, Some(Err(e))) => Err(e),
            _ => Ok(fresh),
        }
    }

    /// The state of a session that was asked for a passthrough.
    pub open spec fn after_passthrough(
        self,
        fresh: PassthroughInner,
        camera: Option<XrResult<CameraResources>>,
    ) -> SessionState {
        match (self, camera) {
            (SessionState::Idle, _) => SessionState::IdleWithPassthrough { passthrough: fresh },
            (SessionState::Running { view_type }, Some(Ok(camera))) => {
                SessionState::RunningWithPassthrough {
                    view_type,
                    camera,
                    passthrough: fresh,
                    image_index: None,
                    should_render: None,
                }
            },
            _ => self,
        }
    }

    /// The passthrough of the session, which is `fresh` if it had none. A session that runs
    /// without one needs `camera`, what came of setting the camera up; if that failed, the
    /// session stays as it is.
    pub fn get_or_add_passthrough(
        &mut self,
        fresh: PassthroughInner,
        camera: Option<XrResult<CameraResources>>,
    ) -> (r: XrResult<PassthroughInner>)
        requires
            *old(self) is Running ==> camera is Some,
        ensures
            r == old(self).asked_for_passthrough(fresh, camera),
            *final(self) == old(self).after_passthrough(fresh, camera),
    {
        match self {
            SessionState::RunningWithPassthrough { passthrough, .. } => {
                return Ok(*passthrough);
            },
            SessionState::IdleWithPassthrough { passthrough } => {
                return Ok(*passthrough);
            },
            _ => (),
        }
        let view: Option<i32> = self.view_type();
        match view {
            Some(view_type) => match camera {
                Some(Ok(camera)) => {
                    *self =
                    SessionState::RunningWithPassthrough {
                        view_type,
                        camera,
                        passthrough: fresh,
                        image_index: None,
                        should_render: None,
                    };
                    Ok(fresh)
                },
                Some(Err(e)) => Err(e),
                None => Err(XrErr::new(ERROR_RUNTIME_FAILURE)),
            },
            None => {
                *self = SessionState::IdleWithPassthrough { passthrough: fresh };
                Ok(fresh)
            },
        }
    }
}

/// What the layer keeps of a session that it handles.
#[derive(Debug)]
pub struct SessionDataInner {
    pub device: u64,
    pub queue: u64,
    pub state: SessionState,
    pub system_id: u64,
}

/// What the layer keeps of a session; nothing if it does not handle it.
#[derive(Debug)]
pub struct SessionData {
    pub inner: Option<SessionDataInner>,
}

/// The next thing to do for a session that is being created.
#[derive(Debug)]
pub enum OnCreateStep {
    /// Wrap the physical device of the application.
    WrapPhysicalDevice { instance: u64, physical_device: u64 },
    /// Wrap the device of the application, which has at least `queue_count` queues in the family.
    WrapDevice { device: u64, queue_family_index: u32, queue_count: u64 },
    Done(XrResult<SessionData>),
}

impl SessionData {
    /// The data of a session that is not handled.
    pub fn unhandled() -> (r: SessionData)
        ensures
            r.inner is None,
    {
        SessionData { inner: None }
    }

    /// A session is handled if it renders with Vulkan and its instance was created with the
    /// passthrough extension. `passthrough_enabled` says so of the instance, if it was found. Any
    /// other session is left to the next layer, whatever the blend mode of its frames.
    pub fn on_create(
        session: &AnySession,
        info: &SessionCreateInfo,
        passthrough_enabled: XrResult<bool>,
    ) -> (r: OnCreateStep)
        requires
            *session is Vulkan ==> info.graphics_binding matches Some(GraphicsBinding::Vulkan(_)),
        ensures
            match *session {
                AnySession::Vulkan(_) => match passthrough_enabled {
                    Err(e) => r == OnCreateStep::Done(Err(e)),
                    Ok(false) => r matches OnCreateStep::Done(Ok(d)) && d.inner is None,
                    Ok(true) => match info.graphics_binding {
                        Some(GraphicsBinding::Vulkan(gb)) => r == (
                        OnCreateStep::WrapPhysicalDevice {
                            instance: gb.instance,
                            physical_device: gb.physical_device,
                        }),
                        _ => false,
                    },
                },
                _ => r matches OnCreateStep::Done(Ok(d)) && d.inner is None,
            },
    {
        match session {
            AnySession::Vulkan(_) => (),
            _ => return OnCreateStep::Done(Ok(SessionData::unhandled())),
        }
        match passthrough_enabled {
            Err(e) => OnCreateStep::Done(Err(e)),
            Ok(false) => OnCreateStep::Done(Ok(SessionData::unhandled())),
            Ok(true) => match &info.graphics_binding {
                Some(GraphicsBinding::Vulkan(gb)) => OnCreateStep::WrapPhysicalDevice {
                    instance: gb.instance,
                    physical_device: gb.physical_device,
                },
                _ => OnCreateStep::Done(Ok(SessionData::unhandled())),
            },
        }
    }

    /// The physical device was wrapped, or could not be: then the session is not handled.
    pub fn physical_device_wrapped(wrapped: bool, info: &SessionCreateInfo) -> (r: OnCreateStep)
        requires
            info.graphics_binding matches Some(GraphicsBinding::Vulkan(_)),
        ensures
            if !wrapped {
                r matches OnCreateStep::Done(Ok(d)) && d.inner is None
            } else {
                match info.graphics_binding {
                    Some(GraphicsBinding::Vulkan(gb)) => r == (OnCreateStep::WrapDevice {
                        device: gb.device,
                        queue_family_index: gb.queue_family_index,
                        queue_count: (gb.queue_index + 1) as u64,
                    }),
                    _ => false,
                }
            },
    {
        match &info.graphics_binding {
            Some(GraphicsBinding::Vulkan(gb)) if wrapped => OnCreateStep::WrapDevice {
                device: gb.device,
                queue_family_index: gb.queue_family_index,
                queue_count: gb.queue_index as u64 + 1,
            },
            _ => OnCreateStep::Done(Ok(SessionData::unhandled())),
        }
    }

    /// The device was wrapped; `queue` is the queue that the application renders with, if the
    /// device has it. The session is then handled, and does not run yet.
    pub fn device_wrapped(device: u64, queue: Option<u64>, info: &SessionCreateInfo) -> (r:
        SessionData)
        ensures
            match queue {
                None => r.inner is None,
                Some(queue) => r.inner == Some(
                    SessionDataInner {
                        device,
                        queue,
                        state: SessionState::Idle,
                        system_id: info.system_id,
                    },
                ),
            },
    {
        match queue {
            None => SessionData::unhandled(),
            Some(queue) => SessionData {
                inner: Some(
                    SessionDataInner {
                        device,
                        queue,
                        state: SessionState::Idle,
                        system_id: info.system_id,
                    },
                ),
            },
        }
    }
}

/// The next thing to do for a session that is to begin.
#[derive(Debug, Clone, Copy, PartialEq, Eq, Structural)]
pub enum BeginStep {
    /// The session is not handled: the next layer begins it, and its answer is the answer.
    Forward,
    /// Begin the session.
    Begin,
    /// Set up the camera.
    SetUpCamera,
    Done(XrErr),
}

/// The next thing to do for a session that is to end.
#[derive(Debug, Clone, Copy, PartialEq, Eq, Structural)]
pub enum EndStep {
    /// The session is not handled: the next layer ends it, and its answer is the answer.
    Forward,
    /// End the session.
    End,
    Done(XrErr),
}

/// The next thing to do for a frame that is to begin.
#[derive(Debug, Clone, Copy, PartialEq, Eq, Structural)]
pub enum FrameStep {
    /// Acquire an image of the swapchain.
    Acquire,
    /// Wait for the image.
    Wait,
    Done(XrErr),
}

/// The next thing to do for a frame that is to end.
#[derive(Debug, Clone, Copy, PartialEq, Eq, Structural)]
pub enum EndFrameStep {
    /// The next layer ends the frame, and its answer is the answer.
    Forward,
    /// Copy the camera's image to the image of the swapchain.
    Copy { image: u32 },
    /// Release the image of the swapchain.
    Release,
    Done(XrErr),
}

impl SessionState {
    /// What is left to do when the runtime has begun a session in this state.
    pub open spec fn begin_step(self) -> BeginStep {
        match self {
            SessionState::Idle => BeginStep::Done(XrErr { code: SUCCESS }),
            SessionState::IdleWithPassthrough { .. } => BeginStep::SetUpCamera,
            _ => BeginStep::Done(XrErr { code: ERROR_SESSION_RUNNING }),
        }
    }

    /// The state after the runtime has begun the session. One with a passthrough has to wait for
    /// its camera.
    pub open spec fn after_begin(self, view_type: i32) -> SessionState {
        match self {
            SessionState::Idle => SessionState::Running { view_type },
            _ => self,
        }
    }

    /// The state after the camera was set up for a session with a passthrough.
    pub open spec fn after_camera(self, camera: CameraResources, view_type: i32) -> SessionState {
        match self {
            SessionState::IdleWithPassthrough { passthrough } => {
                SessionState::RunningWithPassthrough {
                    view_type,
                    camera,
                    passthrough,
                    image_index: None,
                    should_render: None,
                }
            },
            _ => self,
        }
    }

    /// The state after the session has ended.
    pub open spec fn after_end(self) -> SessionState {
        match self {
            SessionState::Running { .. } => SessionState::Idle,
            SessionState::RunningWithPassthrough { passthrough, .. } => {
                SessionState::IdleWithPassthrough { passthrough }
            },
            _ => self,
        }
    }

    /// What is answered to a call that only makes sense while the session runs.
    pub open spec fn running_code(self) -> i32 {
        if self.running() {
            SUCCESS
        } else {
            ERROR_SESSION_NOT_RUNNING
        }
    }

    /// The state after a frame was waited for.
    pub open spec fn after_wait(self, render: bool) -> SessionState {
        match self {
            SessionState::RunningWithPassthrough {
                view_type,
                camera,
                passthrough,
                image_index,
                ..
            } => SessionState::RunningWithPassthrough {
                view_type,
                camera,
                passthrough,
                image_index,
                should_render: Some(render),
            },
            _ => self,
        }
    }

    /// What is left to do when the runtime has begun a frame.
    pub open spec fn frame_step(self) -> FrameStep {
        match self {
            SessionState::RunningWithPassthrough { image_index, should_render, .. } => {
                match should_render {
                    None => FrameStep::Done(XrErr { code: ERROR_CALL_ORDER_INVALID }),
                    Some(render) => if render && image_index is None {
                        FrameStep::Acquire
                    } else {
                        FrameStep::Done(XrErr { code: SUCCESS })
                    },
                }
            },
            _ => FrameStep::Done(XrErr { code: self.running_code() }),
        }
    }

    /// The state after an image was acquired.
    pub open spec fn after_acquire(self, index: u32) -> SessionState {
        match self {
            SessionState::RunningWithPassthrough {
                view_type,
                camera,
                passthrough,
                should_render,
                ..
            } => SessionState::RunningWithPassthrough {
                view_type,
                camera,
                passthrough,
                image_index: Some(index),
                should_render,
            },
            _ => self,
        }
    }

    /// The image that is held.
    pub open spec fn held_image(self) -> Option<u32> {
        match self {
            SessionState::RunningWithPassthrough { image_index, .. } => image_index,
            _ => None,
        }
    }

    /// What the runtime said of the frame that was waited for and has not ended.
    pub open spec fn pending_frame(self) -> Option<bool> {
        match self {
            SessionState::RunningWithPassthrough { should_render, .. } => should_render,
            _ => None,
        }
    }

    /// What is left to do for a frame that is to end.
    pub open spec fn end_frame_step(self, shows_camera: bool) -> EndFrameStep {
        match self {
            SessionState::RunningWithPassthrough { image_index, .. } => match image_index {
                Some(image) => if shows_camera {
                    EndFrameStep::Copy { image }
                } else {
                    EndFrameStep::Forward
                },
                None => EndFrameStep::Forward,
            },
            _ => EndFrameStep::Done(XrErr { code: self.running_code() }),
        }
    }

    /// The state after a frame has ended. An image that the camera's image was copied to is not
    /// held any longer.
    pub open spec fn after_end_frame(self, shows_camera: bool) -> SessionState {
        match self {
            SessionState::RunningWithPassthrough {
                view_type,
                camera,
                passthrough,
                image_index,
                ..
            } => SessionState::RunningWithPassthrough {
                view_type,
                camera,
                passthrough,
                image_index: if shows_camera {
                    None
                } else {
                    image_index
                },
                should_render: None,
            },
            _ => self,
        }
    }
}

impl SessionData {
    /// The same data with another state.
    pub open spec fn with_state(self, state: SessionState) -> SessionData {
        match self.inner {
            Some(inner) => SessionData { inner: Some(SessionDataInner { state, ..inner }) },
            None => self,
        }
    }
}

impl SessionData {
    /// A session is to begin; `found` is what came of looking up the session and its instance.
    pub fn begin_session(&self, found: XrResult<()>) -> (r: BeginStep)
        ensures
            r == (match found {
                Err(e) => BeginStep::Done(e),
                Ok(_) => if self.inner is None {
                    BeginStep::Forward
                } else {
                    BeginStep::Begin
                },
            }),
    {
        match found {
            Err(e) => BeginStep::Done(e),
            Ok(_) => if self.inner.is_none() {
                BeginStep::Forward
            } else {
                BeginStep::Begin
            },
        }
    }

    /// The runtime has begun the session, or failed to: then nothing changes. A session that the
    /// layer knows to run is not begun twice. One with a passthrough needs the camera first.
    pub fn session_begun(&mut self, begun: XrResult<()>, view_type: i32) -> (r: BeginStep)
        requires
            old(self).inner is Some,
        ensures
            match (begun, old(self).inner) {
                (Err(e), _) => r == BeginStep::Done(e) && *final(self) == *old(self),
                (Ok(_), Some(inner)) => r == inner.state.begin_step() && *final(self) == old(self).with_state(inner.state.after_begin(view_type)),
                _ => false,
            },
    {
        match begun {
            Err(e) => return BeginStep::Done(e),
            Ok(_) => (),
        }
        match &mut self.inner {
            Some(inner) => match &inner.state {
                SessionState::Idle => {
                    inner.state = SessionState::Running { view_type };
                    BeginStep::Done(XrErr::new(SUCCESS))
                },
                SessionState::IdleWithPassthrough { .. } => BeginStep::SetUpCamera,
                _ => BeginStep::Done(XrErr::new(ERROR_SESSION_RUNNING)),
            },
            None => BeginStep::Forward,
        }
    }

    /// The camera was set up for a session with a passthrough that has begun, or it failed: then
    /// the layer goes on as if the session did not run.
    pub fn camera_set_up(&mut self, camera: XrResult<CameraResources>, view_type: i32) -> (r: XrErr)
        requires
            old(self).inner matches Some(inner) && inner.state is IdleWithPassthrough,
        ensures
            match (camera, old(self).inner) {
                (Err(e), _) => r == e && *final(self) == *old(self),
                (Ok(camera), Some(inner)) => r.code == SUCCESS && *final(self) == old(self).with_state(inner.state.after_camera(camera, view_type)),
                _ => false,
            },
    {
        match camera {
            Err(e) => e,
            Ok(camera) => {
                match &mut self.inner {
                    Some(inner) => match &inner.state {
                        SessionState::IdleWithPassthrough { passthrough } => {
                            let passthrough: PassthroughInner = *passthrough;
                            inner.state =
                            SessionState::RunningWithPassthrough {
                                view_type,
                                camera,
                                passthrough,
                                image_index: None,
                                should_render: None,
                            };
                        },
                        _ => (),
                    },
                    None => (),
                }
                XrErr::new(SUCCESS)
            },
        }
    }

    /// A session is to end. The layer's state changes before the runtime is asked.
    pub fn end_session(&mut self, found: XrResult<()>) -> (r: EndStep)
        ensures
            match (found, old(self).inner) {
                (Err(e), _) => r == EndStep::Done(e) && *final(self) == *old(self),
                (Ok(_), None) => r == EndStep::Forward && *final(self) == *old(self),
                (Ok(_), Some(inner)) => {
                    &&& r == (if inner.state.running() {
                        EndStep::End
                    } else {
                        EndStep::Done(XrErr { code: ERROR_SESSION_NOT_RUNNING })
                    })
                    &&& *final(self) == old(self).with_state(inner.state.after_end())
                },
            },
    {
        match found {
            Err(e) => return EndStep::Done(e),
            Ok(_) => (),
        }
        match &mut self.inner {
            None => EndStep::Forward,
            Some(inner) => match &inner.state {
                SessionState::Running { .. } => {
                    inner.state = SessionState::Idle;
                    EndStep::End
                },
                SessionState::RunningWithPassthrough { passthrough, .. } => {
                    let passthrough: PassthroughInner = *passthrough;
                    inner.state = SessionState::IdleWithPassthrough { passthrough };
                    EndStep::End
                },
                _ => EndStep::Done(XrErr::new(ERROR_SESSION_NOT_RUNNING)),
            },
        }
    }

    /// The runtime has ended the session, or failed to.
    pub fn session_ended(ended: XrResult<()>) -> (r: XrErr)
        ensures
            r == (match ended {
                Ok(_) => XrErr { code: SUCCESS },
                Err(e) => e,
            }),
    {
        match ended {
            Ok(_) => XrErr::new(SUCCESS),
            Err(e) => e,
        }
    }

    /// No frame has been waited for that was not ended.
    pub open spec fn no_frame_pending(self) -> bool {
        self.inner matches Some(inner) ==> inner.state.pending_frame() is None
    }

    /// The runtime has waited for a frame with the result `ret`; `found` is what came of looking
    /// the session up after that. What the runtime says of the frame is kept.
    pub fn frame_waited(&mut self, ret: XrErr, found: XrResult<()>, render: bool) -> (r: XrErr)
        requires
            ret.code == SUCCESS && found is Ok ==> old(self).no_frame_pending(),
        ensures
            match (found, old(self).inner) {
                _ if ret.code != SUCCESS => r == ret && *final(self) == *old(self),
                (Err(e), _) => r == e && *final(self) == *old(self),
                (Ok(_), None) => r.code == SUCCESS && *final(self) == *old(self),
                (Ok(_), Some(inner)) => r.code == inner.state.running_code() && *final(self) == old(self).with_state(inner.state.after_wait(render)),
            },
    {
        if !ret.is_success() {
            return ret;
        }
        match found {
            Err(e) => return e,
            Ok(_) => (),
        }
        match &mut self.inner {
            None => XrErr::new(SUCCESS),
            Some(inner) => match &mut inner.state {
                SessionState::RunningWithPassthrough { should_render, .. } => {
                    *should_render = Some(render);
                    XrErr::new(SUCCESS)
                },
                SessionState::Running { .. } => XrErr::new(SUCCESS),
                _ => XrErr::new(ERROR_SESSION_NOT_RUNNING),
            },
        }
    }

    /// The runtime has begun a frame with the result `ret`. A frame that shows the camera and has
    /// no image yet needs one.
    pub fn frame_begun(&self, ret: XrErr, found: XrResult<()>) -> (r: FrameStep)
        ensures
            match (found, self.inner) {
                _ if ret.code != SUCCESS => r == FrameStep::Done(ret),
                (Err(e), _) => r == FrameStep::Done(e),
                (Ok(_), None) => r == FrameStep::Done(XrErr { code: SUCCESS }),
                (Ok(_), Some(inner)) => r == inner.state.frame_step(),
            },
    {
        if !ret.is_success() {
            return FrameStep::Done(ret);
        }
        match found {
            Err(e) => return FrameStep::Done(e),
            Ok(_) => (),
        }
        match &self.inner {
            None => FrameStep::Done(XrErr::new(SUCCESS)),
            Some(inner) => match &inner.state {
                SessionState::RunningWithPassthrough { image_index, should_render, .. } => {
                    match should_render {
                        None => FrameStep::Done(XrErr::new(ERROR_CALL_ORDER_INVALID)),
                        Some(render) => if *render && image_index.is_none() {
                            FrameStep::Acquire
                        } else {
                            FrameStep::Done(XrErr::new(SUCCESS))
                        },
                    }
                },
                SessionState::Running { .. } => FrameStep::Done(XrErr::new(SUCCESS)),
                _ => FrameStep::Done(XrErr::new(ERROR_SESSION_NOT_RUNNING)),
            },
        }
    }

    /// An image was acquired, or could not be. It is held from now on.
    pub fn image_acquired(&mut self, image: XrResult<u32>) -> (r: FrameStep)
        requires
            old(self).inner matches Some(inner) && inner.state is RunningWithPassthrough,
        ensures
            match (image, old(self).inner) {
                (Err(e), _) => r == FrameStep::Done(e) && *final(self) == *old(self),
                (Ok(index), Some(inner)) => r == FrameStep::Wait && *final(self) == old(self).with_state(inner.state.after_acquire(index)),
                _ => false,
            },
    {
        match image {
            Err(e) => FrameStep::Done(e),
            Ok(index) => {
                match &mut self.inner {
                    Some(inner) => match &mut inner.state {
                        SessionState::RunningWithPassthrough { image_index, .. } => {
                            *image_index = Some(index);
                        },
                        _ => (),
                    },
                    None => (),
                }
                FrameStep::Wait
            },
        }
    }

    /// The image can be drawn to, or waiting for it failed.
    pub fn image_waited(waited: XrResult<()>) -> (r: XrErr)
        ensures
            r == (match waited {
                Ok(_) => XrErr { code: SUCCESS },
                Err(e) => e,
            }),
    {
        match waited {
            Ok(_) => XrErr::new(SUCCESS),
            Err(e) => e,
        }
    }

    /// A frame is to end with the given layers. If one of them is the camera's and an image is
    /// held for it, the camera's image is copied there; the image is not held any longer.
    pub fn end_frame(&mut self, found: XrResult<()>, layers: &[Option<i32>], camera_layer: i32) -> (r:
        EndFrameStep)
        ensures
            match (found, old(self).inner) {
                (Err(e), _) => r == EndFrameStep::Done(e) && *final(self) == *old(self),
                (Ok(_), None) => r == EndFrameStep::Forward && *final(self) == *old(self),
                (Ok(_), Some(inner)) => {
                    let shows_camera = layers@.contains(Some(camera_layer));
                    &&& r == inner.state.end_frame_step(shows_camera)
                    &&& *final(self) == old(self).with_state(
                        inner.state.after_end_frame(shows_camera),
                    )
                },
            },
    {
        match found {
            Err(e) => return EndFrameStep::Done(e),
            Ok(_) => (),
        }
        let has_passthrough: bool = has_layer(layers, camera_layer);
        match &mut self.inner {
            None => EndFrameStep::Forward,
            Some(inner) => match &mut inner.state {
                SessionState::RunningWithPassthrough { image_index, should_render, .. } => {
                    *should_render = None;
                    let held: Option<u32> = *image_index;
                    match held {
                        Some(image) => if has_passthrough {
                            *image_index = None;
                            EndFrameStep::Copy { image }
                        } else {
                            EndFrameStep::Forward
                        },
                        None => EndFrameStep::Forward,
                    }
                },
                SessionState::Running { .. } => EndFrameStep::Done(XrErr::new(SUCCESS)),
                _ => EndFrameStep::Done(XrErr::new(ERROR_SESSION_NOT_RUNNING)),
            },
        }
    }

    /// The commands that copy the camera's image were recorded, or could not be.
    pub fn image_copied(recorded: bool) -> (r: EndFrameStep)
        ensures
            r == (if recorded {
                EndFrameStep::Release
            } else {
                EndFrameStep::Done(XrErr { code: ERROR_RUNTIME_FAILURE })
            }),
    {
        if recorded {
            EndFrameStep::Release
        } else {
            EndFrameStep::Done(XrErr::new(ERROR_RUNTIME_FAILURE))
        }
    }

    /// The image was released, or could not be.
    pub fn image_released(released: XrResult<()>) -> (r: EndFrameStep)
        ensures
            r == (match released {
                Ok(_) => EndFrameStep::Forward,
                Err(e) => EndFrameStep::Done(e),
            }),
    {
        match released {
            Ok(_) => EndFrameStep::Forward,
            Err(e) => EndFrameStep::Done(e),
        }
    }
}

/// Whether one of the layers is of type `ty`.
fn has_layer(layers: &[Option<i32>], ty: i32) -> (r: bool)
    ensures
        r == layers@.contains(Some(ty)),
{
    let mut i: usize = 0;
    while i < layers.len()
        invariant
            i <= layers.len(),
            forall|j: int| 0 <= j < i ==> layers@[j] != Some(ty),
        decreases layers.len() - i,
    {
        match layers[i] {
            Some(t) => if t == ty {
                assert(layers@[i as int] == Some(ty));
                return true;
            },
            None => (),
        }
        i += 1;
    }
    false
}

/// Which part of an image is copied, and over which part of another: each from the corner on.
#[derive(Debug, Clone, Copy, PartialEq, Eq, Structural)]
pub struct BlitRegion {
    pub src: Size,
    pub dst: Size,
}

impl CameraResources {
    /// The whole of the camera's image is stretched over the whole of the swapchain's image.
    pub fn blit_region(&self, camera_image: Size) -> (r: BlitRegion)
        ensures
            r.src == camera_image,
            r.dst == self.size,
    {
        BlitRegion { src: camera_image, dst: self.size }
    }
}

/// A session that begins and ends is where it was, with the same passthrough.
pub proof fn law_begin_then_end_restores(
    state: SessionState,
    camera: CameraResources,
    view_type: i32,
)
    requires
        !state.running(),
    ensures
        state.after_begin(view_type).after_camera(camera, view_type).running(),
        state.after_begin(view_type).after_camera(camera, view_type).views() == Some(view_type),
        state.after_begin(view_type).after_camera(camera, view_type).after_end() == state,
{
}

/// No call takes the passthrough of a session away or changes it, and only beginning and ending
/// changes whether the session runs.
pub proof fn law_passthrough_stays(
    state: SessionState,
    camera: CameraResources,
    view_type: i32,
    render: bool,
    index: u32,
    shows_camera: bool,
)
    ensures
        state.after_begin(view_type).passthrough() == state.passthrough(),
        state.after_camera(camera, view_type).passthrough() == state.passthrough(),
        state.after_end().passthrough() == state.passthrough(),
        state.after_wait(render).passthrough() == state.passthrough(),
        state.after_acquire(index).passthrough() == state.passthrough(),
        state.after_end_frame(shows_camera).passthrough() == state.passthrough(),
        state.after_wait(render).views() == state.views(),
        state.after_acquire(index).views() == state.views(),
        state.after_end_frame(shows_camera).views() == state.views(),
{
}

/// An image is acquired only if none is held, so no image is ever lost by acquiring another.
pub proof fn law_one_image_at_a_time(state: SessionState)
    ensures
        state.frame_step() == FrameStep::Acquire ==> state.held_image() is None,
        state.held_image() is Some ==> state.frame_step() != FrameStep::Acquire,
{
}

/// After a frame was waited for, begun and ended, no frame is pending, so the next frame can be
/// waited for. If the frame showed the camera, the image that was acquired for it was the one to
/// copy to, and no image is held.
pub proof fn law_frame_cycle(state: SessionState, render: bool, index: u32, shows_camera: bool)
    requires
        state is RunningWithPassthrough,
        state.pending_frame() is None,
        state.held_image() is None,
    ensures
        ({
            let waited = state.after_wait(render);
            let begun = if waited.frame_step() == FrameStep::Acquire {
                waited.after_acquire(index)
            } else {
                waited
            };
            let ended = begun.after_end_frame(shows_camera);
            &&& ended.pending_frame() is None
            &&& render && shows_camera ==> begun.end_frame_step(shows_camera) == (
            EndFrameStep::Copy { image: index })
            &&& !(render && shows_camera) ==> begun.end_frame_step(shows_camera)
                == EndFrameStep::Forward
            &&& shows_camera ==> ended == state
        }),
{
}

/// A frame that is begun without having been waited for is refused.
pub proof fn law_frame_order(state: SessionState)
    requires
        state is RunningWithPassthrough,
        state.pending_frame() is None,
    ensures
        state.frame_step() == FrameStep::Done(XrErr { code: ERROR_CALL_ORDER_INVALID }),
{
}

/// A session that was asked for a passthrough once answers with the same one ever after, and
/// does not change any more.
pub proof fn law_passthrough_is_shared(
    state: SessionState,
    fresh: PassthroughInner,
    camera: Option<XrResult<CameraResources>>,
    other: PassthroughInner,
    other_camera: Option<XrResult<CameraResources>>,
)
    requires
        state is Running ==> camera is Some,
        state.asked_for_passthrough(fresh, camera) is Ok,
    ensures
        ({
            let after = state.after_passthrough(fresh, camera);
            &&& after.passthrough() == Some(state.asked_for_passthrough(fresh, camera)->Ok_0)
            &&& after.views() == state.views()
            &&& after.asked_for_passthrough(other, other_camera) == state.asked_for_passthrough(
                fresh,
                camera,
            )
            &&& after.after_passthrough(other, other_camera) == after
        }),
{
}

/// A session that runs without a passthrough and gets one holds no image and has no frame pending
/// afterwards. It shows the camera that was set up, to the views that it was begun with. So an
/// image is acquired when the next frame that is to be rendered was waited for and begins.
pub proof fn law_new_passthrough_starts_clean(fresh: PassthroughInner, camera: CameraResources)
    ensures
        forall|s: &mut SessionState, r: XrResult<PassthroughInner>| #[trigger]
            call_ensures(
                SessionState::get_or_add_passthrough,
                (s, fresh, Some(XrResult::<CameraResources>::Ok(camera))),
                r,
            ) ==> (*s matches SessionState::Running { view_type } ==> {
                &&& r matches Ok(p) && p == fresh
                &&& *final(s) matches SessionState::RunningWithPassthrough {
                    view_type: v,
                    camera: c,
                    passthrough: p,
                    image_index,
                    should_render,
                } && v == view_type && c == camera && p == fresh && image_index is None
                    && should_render is None
                &&& final(s).held_image() is None
                &&& final(s).pending_frame() is None
                &&& final(s).after_wait(true).frame_step() is Acquire
                &&& final(s).after_wait(true).end_frame_step(true) is Forward
            }),
{
}

/// A session that does not run gets its passthrough without a camera. If the camera of one that
/// runs cannot be set up, nothing changes, and the error is passed on. A session that has a
/// passthrough keeps it, and nothing else changes either.
pub proof fn law_passthrough_of_other_sessions()
    ensures
        forall|
            s: &mut SessionState,
            fresh: PassthroughInner,
            camera: Option<XrResult<CameraResources>>,
            r: XrResult<PassthroughInner>,
        | #[trigger]
            call_ensures(SessionState::get_or_add_passthrough, (s, fresh, camera), r) ==> {
                &&& *s is Idle ==> (r matches Ok(p) && p == fresh) && (
                *final(s) matches SessionState::IdleWithPassthrough { passthrough } && passthrough
                    == fresh)
                &&& *s is Running ==> (camera matches Some(Err(e)) ==> *final(s) == *s && (
                r matches Err(f) && f == e))
                &&& *s matches SessionState::IdleWithPassthrough { passthrough } ==> *final(s) == *s
                    && (r matches Ok(p) && p == passthrough)
                &&& *s matches SessionState::RunningWithPassthrough { passthrough, .. }
                    ==> *final(s) == *s && (r matches Ok(p) && p == passthrough)
            },
{
}

/// The layer asks for a camera exactly where it is needed, and knows the views of a session while
/// it runs.
pub proof fn law_what_a_state_says(
    state: &SessionState,
    needs: bool,
    views: Option<i32>,
)
    requires
        call_ensures(SessionState::needs_camera, (state,), needs),
        call_ensures(SessionState::view_type, (state,), views),
    ensures
        needs <==> *state is Running,
        *state matches SessionState::Running { view_type } ==> views == Some(view_type),
        *state matches SessionState::RunningWithPassthrough { view_type, .. } ==> views == Some(
            view_type,
        ),
        *state is Idle || *state is IdleWithPassthrough ==> views is None,
        state.running() <==> *state is Running || *state is RunningWithPassthrough,
        state.running() <==> views is Some,
{
}

/// A session is handled only if it renders with Vulkan, its instance has the passthrough
/// extension, and all objects of the application could be wrapped. It then does not run, and
/// renders with the application's device and queue.
pub proof fn law_session_is_handled(
    session: &AnySession,
    info: &SessionCreateInfo,
    enabled: XrResult<bool>,
    first: OnCreateStep,
    wrapped: bool,
    second: OnCreateStep,
    device: u64,
    queue: Option<u64>,
    last: SessionData,
)
    requires
        *session is Vulkan ==> info.graphics_binding matches Some(GraphicsBinding::Vulkan(_)),
        call_ensures(SessionData::on_create, (session, info, enabled), first),
        info.graphics_binding matches Some(GraphicsBinding::Vulkan(_)) ==> call_ensures(
            SessionData::physical_device_wrapped,
            (wrapped, info),
            second,
        ),
        call_ensures(SessionData::device_wrapped, (device, queue, info), last),
    ensures
        !(*session is Vulkan) ==> (first matches OnCreateStep::Done(Ok(d)) && d.inner is None),
        *session is Vulkan ==> (enabled matches Err(e) ==> first == OnCreateStep::Done(Err(e))),
        *session is Vulkan && enabled == XrResult::<bool>::Ok(false) ==> (
        first matches OnCreateStep::Done(Ok(d)) && d.inner is None),
        info.graphics_binding matches Some(GraphicsBinding::Vulkan(gb)) ==> {
            &&& *session is Vulkan && enabled == XrResult::<bool>::Ok(true) ==> first
                == OnCreateStep::WrapPhysicalDevice {
                instance: gb.instance,
                physical_device: gb.physical_device,
            }
            &&& !wrapped ==> (second matches OnCreateStep::Done(Ok(d)) && d.inner is None)
            &&& wrapped ==> (second matches OnCreateStep::WrapDevice {
                device: d,
                queue_family_index,
                queue_count,
            } && d == gb.device && queue_family_index == gb.queue_family_index && queue_count
                == gb.queue_index + 1)
        },
        queue is None <==> last.inner is None,
        last.inner matches Some(inner) ==> inner.device == device && queue == Some(inner.queue)
            && inner.state is Idle && inner.system_id == info.system_id,
{
}

/// A session that is not handled is begun by the next layer. One that is handled is begun through
/// the runtime; if that fails, nothing changes. An idle session then runs with the views that it
/// was begun with, one with a passthrough waits for its camera, and one that runs is refused.
pub proof fn law_session_begins(data: &SessionData, found: XrResult<()>, step: BeginStep)
    requires
        call_ensures(SessionData::begin_session, (data, found), step),
    ensures
        found matches Err(e) ==> step == BeginStep::Done(e),
        found is Ok && data.inner is None ==> step is Forward,
        found is Ok && data.inner is Some ==> step is Begin,
        forall|d: &mut SessionData, begun: XrResult<()>, view_type: i32, r: BeginStep|
         #[trigger]
            call_ensures(SessionData::session_begun, (d, begun, view_type), r) ==> {
                &&& begun matches Err(e) ==> r == BeginStep::Done(e) && *final(d) == *d
                &&& begun is Ok ==> (d.inner matches Some(before) ==> (
                final(d).inner matches Some(after) && {
                    &&& after.device == before.device
                    &&& after.queue == before.queue
                    &&& after.system_id == before.system_id
                    &&& before.state is Idle ==> r == BeginStep::Done(XrErr { code: 0 }) && (
                    after.state matches SessionState::Running { view_type: v } && v == view_type)
                    &&& before.state is IdleWithPassthrough ==> r is SetUpCamera && after.state
                        == before.state
                    &&& before.state is Running || before.state is RunningWithPassthrough ==> r
                        == BeginStep::Done(XrErr { code: -14i32 }) && after.state == before.state
                }))
            },
        forall|d: &mut SessionData, camera: XrResult<CameraResources>, view_type: i32, r: XrErr|
         #[trigger]
            call_ensures(SessionData::camera_set_up, (d, camera, view_type), r) ==> {
                &&& camera matches Err(e) ==> r == e && *final(d) == *d
                &&& camera matches Ok(c) ==> (d.inner matches Some(before) ==> (
                before.state matches SessionState::IdleWithPassthrough { passthrough: p } ==> {
                    &&& r.code == 0
                    &&& final(d).inner matches Some(after) && {
                        &&& after.device == before.device
                        &&& after.queue == before.queue
                        &&& after.system_id == before.system_id
                        &&& after.state == SessionState::RunningWithPassthrough {
                            view_type,
                            camera: c,
                            passthrough: p,
                            image_index: None,
                            should_render: None,
                        }
                    }
                }))
            },
{
}

/// A session that is not handled is ended by the next layer. One that runs is ended through the
/// runtime, and keeps its passthrough; one that does not run is refused.
pub proof fn law_session_ends(ended: XrResult<()>, answer: XrErr)
    requires
        call_ensures(SessionData::session_ended, (ended,), answer),
    ensures
        ended is Ok ==> answer.code == 0,
        ended matches Err(e) ==> answer == e,
        forall|d: &mut SessionData, found: XrResult<()>, r: EndStep| #[trigger]
            call_ensures(SessionData::end_session, (d, found), r) ==> {
                &&& found matches Err(e) ==> r == EndStep::Done(e) && *final(d) == *d
                &&& found is Ok && d.inner is None ==> r is Forward && *final(d) == *d
                &&& found is Ok ==> (d.inner matches Some(before) ==> (
                final(d).inner matches Some(after) && {
                    &&& after.device == before.device
                    &&& after.queue == before.queue
                    &&& after.system_id == before.system_id
                    &&& before.state is Running ==> r is End && after.state is Idle
                    &&& before.state matches SessionState::RunningWithPassthrough {
                        passthrough: p,
                        ..
                    } ==> r is End && after.state == SessionState::IdleWithPassthrough {
                        passthrough: p,
                    }
                    &&& before.state is Idle || before.state is IdleWithPassthrough ==> r
                        == EndStep::Done(XrErr { code: -16i32 }) && after.state == before.state
                }))
            },
{
}

/// A frame that could not be waited for changes nothing. What the runtime says of one that was
/// waited for is kept if the session shows the camera, with all else as it was.
pub proof fn law_frame_is_waited_for()
    ensures
        forall|d: &mut SessionData, ret: XrErr, found: XrResult<()>, render: bool, r: XrErr|
         #[trigger]
            call_ensures(SessionData::frame_waited, (d, ret, found, render), r) ==> {
                &&& ret.code != 0 ==> r == ret && *final(d) == *d
                &&& ret.code == 0 ==> (found matches Err(e) ==> r == e && *final(d) == *d)
                &&& ret.code == 0 && found is Ok && d.inner is None ==> r.code == 0 && *final(d)
                    == *d
                &&& ret.code == 0 && found is Ok ==> (d.inner matches Some(before) ==> (
                final(d).inner matches Some(after) && {
                    &&& after.device == before.device
                    &&& after.queue == before.queue
                    &&& after.system_id == before.system_id
                    &&& before.state is Running ==> r.code == 0 && after.state == before.state
                    &&& before.state is Idle || before.state is IdleWithPassthrough ==> r.code
                        == -16 && after.state == before.state
                    &&& before.state matches SessionState::RunningWithPassthrough {
                        view_type,
                        camera,
                        passthrough,
                        image_index,
                        ..
                    } ==> r.code == 0 && after.state == SessionState::RunningWithPassthrough {
                        view_type,
                        camera,
                        passthrough,
                        image_index,
                        should_render: Some(render),
                    }
                }))
            },
{
}

/// When a frame begins, an image is acquired exactly if the session shows the camera, the frame
/// is to be rendered, and none is held. A frame that was not waited for is refused.
pub proof fn law_frame_begins(data: &SessionData, ret: XrErr, found: XrResult<()>, r: FrameStep)
    requires
        call_ensures(SessionData::frame_begun, (data, ret, found), r),
    ensures
        ret.code != 0 ==> r == FrameStep::Done(ret),
        ret.code == 0 ==> (found matches Err(e) ==> r == FrameStep::Done(e)),
        ret.code == 0 && found is Ok && data.inner is None ==> r == FrameStep::Done(
            XrErr { code: 0 },
        ),
        ret.code == 0 && found is Ok ==> (data.inner matches Some(inner) ==> {
            &&& inner.state is Running ==> r == FrameStep::Done(XrErr { code: 0 })
            &&& inner.state is Idle || inner.state is IdleWithPassthrough ==> r == FrameStep::Done(
                XrErr { code: -16i32 },
            )
            &&& inner.state matches SessionState::RunningWithPassthrough {
                image_index,
                should_render,
                ..
            } ==> {
                &&& should_render is None ==> r == FrameStep::Done(XrErr { code: -37i32 })
                &&& should_render == Some(true) && image_index is None ==> r is Acquire
                &&& should_render == Some(true) && image_index is Some ==> r == FrameStep::Done(
                    XrErr { code: 0 },
                )
                &&& should_render == Some(false) ==> r == FrameStep::Done(XrErr { code: 0 })
            }
        }),
{
}

/// An image that was acquired is held, and waited for; nothing else changes.
pub proof fn law_acquired_image_is_held(waited: XrResult<()>, answer: XrErr)
    requires
        call_ensures(SessionData::image_waited, (waited,), answer),
    ensures
        waited is Ok ==> answer.code == 0,
        waited matches Err(e) ==> answer == e,
        forall|d: &mut SessionData, image: XrResult<u32>, r: FrameStep| #[trigger]
            call_ensures(SessionData::image_acquired, (d, image), r) ==> {
                &&& image matches Err(e) ==> r == FrameStep::Done(e) && *final(d) == *d
                &&& image matches Ok(index) ==> (d.inner matches Some(before) ==> (
                before.state matches SessionState::RunningWithPassthrough {
                    view_type,
                    camera,
                    passthrough,
                    should_render,
                    ..
                } ==> r is Wait && (final(d).inner matches Some(after) && {
                    &&& after.device == before.device
                    &&& after.queue == before.queue
                    &&& after.system_id == before.system_id
                    &&& after.state == SessionState::RunningWithPassthrough {
                        view_type,
                        camera,
                        passthrough,
                        image_index: Some(index),
                        should_render,
                    }
                })))
            },
{
}

/// When a frame ends, the camera is copied to the image that is held exactly if one of the
/// frame's layers is the camera's; the image is then given up. Any other frame of a session that
/// shows the camera is passed on, and the image stays. Either way no frame is pending.
pub proof fn law_frame_ends(
    layers: &[Option<i32>],
    camera_layer: i32,
    recorded: bool,
    copied: EndFrameStep,
    released: XrResult<()>,
    done: EndFrameStep,
)
    requires
        call_ensures(SessionData::image_copied, (recorded,), copied),
        call_ensures(SessionData::image_released, (released,), done),
    ensures
        recorded ==> copied is Release,
        !recorded ==> copied == EndFrameStep::Done(XrErr { code: -2i32 }),
        released is Ok ==> done is Forward,
        released matches Err(e) ==> done == EndFrameStep::Done(e),
        forall|d: &mut SessionData, found: XrResult<()>, r: EndFrameStep| #[trigger]
            call_ensures(SessionData::end_frame, (d, found, layers, camera_layer), r) ==> {
                &&& found matches Err(e) ==> r == EndFrameStep::Done(e) && *final(d) == *d
                &&& found is Ok && d.inner is None ==> r is Forward && *final(d) == *d
                &&& found is Ok ==> (d.inner matches Some(before) ==> (
                final(d).inner matches Some(after) && {
                    let shown = exists|i: int|
                        0 <= i < layers@.len() && #[trigger] layers@[i] == Some(camera_layer);
                    &&& after.device == before.device
                    &&& after.queue == before.queue
                    &&& after.system_id == before.system_id
                    &&& before.state is Running ==> r == EndFrameStep::Done(XrErr { code: 0 })
                        && after.state == before.state
                    &&& before.state is Idle || before.state is IdleWithPassthrough ==> r
                        == EndFrameStep::Done(XrErr { code: -16i32 }) && after.state
                        == before.state
                    &&& before.state matches SessionState::RunningWithPassthrough {
                        view_type,
                        camera,
                        passthrough,
                        image_index,
                        ..
                    } ==> {
                        &&& !shown || image_index is None ==> r is Forward
                        &&& shown ==> (image_index matches Some(image) ==> r
                            == EndFrameStep::Copy { image })
                        &&& after.state == SessionState::RunningWithPassthrough {
                            view_type,
                            camera,
                            passthrough,
                            image_index: if shown {
                                None
                            } else {
                                image_index
                            },
                            should_render: None,
                        }
                    }
                }))
            },
{
}

/// The whole of the camera's image is stretched over the whole of the swapchain's image, each
/// from corner to corner.
pub proof fn law_whole_image_is_copied(camera: &CameraResources, image: Size, r: BlitRegion)
    requires
        call_ensures(CameraResources::blit_region, (camera, image), r),
    ensures
        r.src.width == image.width && r.src.height == image.height,
        r.dst.width == camera.size.width && r.dst.height == camera.size.height,
{
}

} // verus!
