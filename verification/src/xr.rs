//! A client of OpenXR that shows the camera on an overlay: what it asks of the runtime, and what
//! it does on each call and event.

use crate::config::{DisplayMode, ProjectionMode};
use crate::geometry::{Size, CAMERA_SIZE};
use crate::instance::OPAQUE;
use crate::lists::has_i32;
use crate::text::{has_text, texts};
use crate::version::{earlier, packed, ApiVersion};
use crate::xr_result::XrErr;
use vstd::prelude::*;

verus! {

/// Why the client cannot be set up.
#[derive(Debug)]
pub enum OpenXrError {
    /// An outside call failed, and its error is the answer.
    Outside,
    /// The runtime answered with an error.
    Runtime(XrErr),
    NoOpaqueBlendMode,
    UnsupportedExtension(String),
    UnsupportedVersion(ApiVersion),
    NoGraphicsQueue,
    NoFormat,
}

/// The format of the swapchain's images, by the number that Vulkan gives it.
pub const SWAPCHAIN_FORMAT: u32 = 37;

/// The flag of a family of queues that can draw.
pub const GRAPHICS_QUEUE: u32 = 1;

fn has_u32(list: &[u32], item: u32) -> (r: bool)
    ensures
        r == list@.contains(item),
{
    let mut i: usize = 0;
    while i < list.len()
        invariant
            i <= list.len(),
            forall|j: int| 0 <= j < i ==> list@[j] != item,
        decreases list.len() - i,
    {
        if list[i] == item {
            assert(list@[i as int] == item);
            return true;
        }
        i += 1;
    }
    false
}

/// What a Vulkan instance is created with.
#[derive(Debug, Clone, Copy, PartialEq, Eq, Structural)]
pub struct VkInstancePlan {
    pub version: ApiVersion,
    /// The version in its packed form, if its numbers fit.
    pub raw_version: Option<u32>,
}

/// `i` is the place of the first required name that is not supported.
pub open spec fn first_missing(required: Seq<Seq<char>>, supported: Seq<Seq<char>>, i: int) -> bool {
    &&& 0 <= i < required.len()
    &&& !supported.contains(required[i])
    &&& forall|j: int| 0 <= j < i ==> supported.contains(required[j])
}

/// Every required name is supported.
pub open spec fn all_supported(required: Seq<Seq<char>>, supported: Seq<Seq<char>>) -> bool {
    forall|j: int| 0 <= j < required.len() ==> supported.contains(#[trigger] required[j])
}

/// The version to create a Vulkan instance with: the latest that the runtime takes, or that of the
/// library if it is earlier.
pub open spec fn instance_version(max_major: u16, max_minor: u16, library: ApiVersion) -> ApiVersion {
    let max = ApiVersion { major: max_major as u32, minor: max_minor as u32, patch: 0 };
    if earlier(library, max) {
        library
    } else {
        max
    }
}

/// Plans a Vulkan instance with the required extensions.
pub fn create_vk_instance(
    required: &[String],
    supported: &[String],
    max_major: u16,
    max_minor: u16,
    library: ApiVersion,
) -> (r: Result<VkInstancePlan, OpenXrError>)
    ensures
        match r {
            Ok(plan) => {
                &&& all_supported(texts(required@), texts(supported@))
                &&& plan.version == instance_version(max_major, max_minor, library)
                &&& plan.raw_version == packed(plan.version)
            },
            Err(e) => e matches OpenXrError::UnsupportedExtension(name) && exists|i: int| #[trigger]
                first_missing(texts(required@), texts(supported@), i) && name@ == texts(
                    required@,
                )[i],
        },
{
    let ghost names = texts(required@);
    let mut i: usize = 0;
    while i < required.len()
        invariant
            i <= required.len(),
            names == texts(required@),
            forall|j: int| 0 <= j < i ==> texts(supported@).contains(#[trigger] names[j]),
        decreases required.len() - i,
    {
        assert(names[i as int] == required@[i as int]@);
        if !has_text(supported, required[i].as_str()) {
            assert(first_missing(names, texts(supported@), i as int));
            return Err(OpenXrError::UnsupportedExtension(required[i].clone()));
        }
        i += 1;
    }
    let version = ApiVersion::major_minor(max_major as u32, max_minor as u32).or_earlier(library);
    Ok(VkInstancePlan { version, raw_version: version.to_raw() })
}

/// `i` is the first family of queues that can draw.
pub open spec fn first_graphics(families: Seq<u32>, i: int) -> bool {
    &&& 0 <= i < families.len()
    &&& families[i] & GRAPHICS_QUEUE == GRAPHICS_QUEUE
    &&& forall|j: int| 0 <= j < i ==> #[trigger] families[j] & GRAPHICS_QUEUE != GRAPHICS_QUEUE
}

/// No family of queues can draw.
pub open spec fn none_draws(families: Seq<u32>) -> bool {
    forall|i: int| !#[trigger] first_graphics(families, i)
}

/// The earliest version that a device may have.
pub open spec fn least_version(min_major: u16, min_minor: u16) -> ApiVersion {
    ApiVersion { major: min_major as u32, minor: min_minor as u32, patch: 0 }
}

/// Plans a Vulkan device: which family its queue is from. The families are given by their flags.
pub fn create_vk_device(
    min_major: u16,
    min_minor: u16,
    device: ApiVersion,
    families: &[u32],
) -> (r: Result<u32, OpenXrError>)
    requires
        families@.len() <= u32::MAX,
    ensures
        match r {
            Ok(family) => !earlier(device, least_version(min_major, min_minor)) && first_graphics(
                families@,
                family as int,
            ),
            Err(OpenXrError::UnsupportedVersion(v)) => v == device && earlier(
                device,
                least_version(min_major, min_minor),
            ),
            Err(OpenXrError::NoGraphicsQueue) => {
                &&& !earlier(device, least_version(min_major, min_minor))
                &&& none_draws(families@)
            },
            Err(_) => false,
        },
{
    let least = ApiVersion::major_minor(min_major as u32, min_minor as u32);
    if device.is_earlier(&least) {
        return Err(OpenXrError::UnsupportedVersion(device));
    }
    let mut i: usize = 0;
    while i < families.len()
        invariant
            i <= families.len(),
            families@.len() <= u32::MAX,
            !earlier(device, least_version(min_major, min_minor)),
            forall|j: int|
                0 <= j < i ==> #[trigger] families@[j] & GRAPHICS_QUEUE != GRAPHICS_QUEUE,
        decreases families.len() - i,
    {
        if families[i] & GRAPHICS_QUEUE == GRAPHICS_QUEUE {
            assert(first_graphics(families@, i as int));
            return Ok(i as u32);
        }
        i += 1;
    }
    Err(OpenXrError::NoGraphicsQueue)
}

/// What is being set up.
#[derive(Debug, Clone, Copy, PartialEq, Eq, Structural)]
pub enum OpenXrStage {
    Entry,
    Instance,
    System,
    BlendModes,
    VkInstance,
    VkDevice,
    Session,
    Formats,
    Swapchain,
    Images,
    Space,
    Ready,
}

/// What came of what was being set up.
#[derive(Debug)]
pub enum OpenXrEvent {
    /// It worked or not, and nothing is to be kept of it.
    Outcome(bool),
    BlendModes(Vec<i32>),
    /// A Vulkan object was planned and created, or not.
    Vulkan(Result<(), OpenXrError>),
    /// The session was created, with this result.
    Session(XrErr),
    Formats(Vec<u32>),
}

/// What a swapchain is created with.
#[derive(Debug, Clone, Copy, PartialEq, Eq, Structural)]
pub struct SwapchainPlan {
    pub format: u32,
    pub size: Size,
    pub sample_count: u32,
}

/// The event is one that comes of what is done at this stage.
pub open spec fn xr_event_fits(stage: OpenXrStage, event: OpenXrEvent) -> bool {
    match stage {
        OpenXrStage::BlendModes => event is BlendModes || event == OpenXrEvent::Outcome(false),
        OpenXrStage::VkInstance => event is Vulkan,
        OpenXrStage::VkDevice => event is Vulkan,
        OpenXrStage::Session => event is Session,
        OpenXrStage::Formats => event is Formats || event == OpenXrEvent::Outcome(false),
        OpenXrStage::Ready => false,
        _ => event is Outcome,
    }
}

/// What is set up next.
pub open spec fn next_xr_stage(stage: OpenXrStage) -> OpenXrStage {
    match stage {
        OpenXrStage::Entry => OpenXrStage::Instance,
        OpenXrStage::Instance => OpenXrStage::System,
        OpenXrStage::System => OpenXrStage::BlendModes,
        OpenXrStage::BlendModes => OpenXrStage::VkInstance,
        OpenXrStage::VkInstance => OpenXrStage::VkDevice,
        OpenXrStage::VkDevice => OpenXrStage::Session,
        OpenXrStage::Session => OpenXrStage::Formats,
        OpenXrStage::Formats => OpenXrStage::Swapchain,
        OpenXrStage::Swapchain => OpenXrStage::Images,
        OpenXrStage::Images => OpenXrStage::Space,
        OpenXrStage::Space => OpenXrStage::Ready,
        OpenXrStage::Ready => OpenXrStage::Ready,
    }
}

/// The error that an event ends the set up with.
pub open spec fn xr_event_error(event: OpenXrEvent) -> Option<OpenXrError> {
    match event {
        OpenXrEvent::Outcome(ok) => if ok {
            None
        } else {
            Some(OpenXrError::Outside)
        },
        OpenXrEvent::BlendModes(modes) => if modes@.contains(OPAQUE) {
            None
        } else {
            Some(OpenXrError::NoOpaqueBlendMode)
        },
        OpenXrEvent::Vulkan(made) => match made {
            Ok(_) => None,
            Err(e) => Some(e),
        },
        OpenXrEvent::Session(ret) => if ret.code < 0 {
            Some(OpenXrError::Runtime(ret))
        } else {
            None
        },
        OpenXrEvent::Formats(formats) => if formats@.contains(SWAPCHAIN_FORMAT) {
            None
        } else {
            Some(OpenXrError::NoFormat)
        },
    }
}

/// The set up of a client, with an image of `render_size` for each eye.
#[derive(Debug, Clone, Copy, PartialEq, Eq, Structural)]
pub struct OpenXrSetup {
    pub stage: OpenXrStage,
    pub render_size: Size,
}

impl OpenXrSetup {
    pub fn new(render_size: Size) -> (r: OpenXrSetup)
        ensures
            r == (OpenXrSetup { stage: OpenXrStage::Entry, render_size }),
    {
        OpenXrSetup { stage: OpenXrStage::Entry, render_size }
    }

    /// Goes on to the next stage after a good event, or says why it cannot.
    pub fn step(&mut self, event: OpenXrEvent) -> (r: Result<OpenXrStage, OpenXrError>)
        requires
            xr_event_fits(old(self).stage, event),
        ensures
            final(self).render_size == old(self).render_size,
            match xr_event_error(event) {
                Some(e) => r == Err::<OpenXrStage, _>(e) && final(self).stage == old(self).stage,
                None => r == Ok::<_, OpenXrError>(final(self).stage) && final(self).stage
                    == next_xr_stage(old(self).stage),
            },
    {
        match event {
            OpenXrEvent::Outcome(ok) => if !ok {
                return Err(OpenXrError::Outside);
            },
            OpenXrEvent::BlendModes(modes) => if !has_i32(modes.as_slice(), OPAQUE) {
                return Err(OpenXrError::NoOpaqueBlendMode);
            },
            OpenXrEvent::Vulkan(made) => match made {
                Ok(_) => (),
                Err(e) => return Err(e),
            },
            OpenXrEvent::Session(ret) => if ret.code < 0 {
                return Err(OpenXrError::Runtime(ret));
            },
            OpenXrEvent::Formats(formats) => if !has_u32(formats.as_slice(), SWAPCHAIN_FORMAT) {
                return Err(OpenXrError::NoFormat);
            },
        }
        let next = match self.stage {
            OpenXrStage::Entry => OpenXrStage::Instance,
            OpenXrStage::Instance => OpenXrStage::System,
            OpenXrStage::System => OpenXrStage::BlendModes,
            OpenXrStage::BlendModes => OpenXrStage::VkInstance,
            OpenXrStage::VkInstance => OpenXrStage::VkDevice,
            OpenXrStage::VkDevice => OpenXrStage::Session,
            OpenXrStage::Session => OpenXrStage::Formats,
            OpenXrStage::Formats => OpenXrStage::Swapchain,
            OpenXrStage::Swapchain => OpenXrStage::Images,
            OpenXrStage::Images => OpenXrStage::Space,
            OpenXrStage::Space => OpenXrStage::Ready,
            OpenXrStage::Ready => OpenXrStage::Ready,
        };
        self.stage = next;
        Ok(next)
    }

    /// The swapchain has room for the images of both eyes side by side.
    pub fn swapchain(&self) -> (r: SwapchainPlan)
        requires
            self.render_size.width * 2 <= u32::MAX,
        ensures
            r.format == SWAPCHAIN_FORMAT,
            r.size.width == self.render_size.width * 2,
            r.size.height == self.render_size.height,
            r.sample_count == 1,
    {
        SwapchainPlan {
            format: SWAPCHAIN_FORMAT,
            size: Size::new(self.render_size.width * 2, self.render_size.height),
            sample_count: 1,
        }
    }
}

/// A part of an image.
#[derive(Debug, Clone, Copy, PartialEq, Eq, Structural)]
pub struct Rect {
    pub x: i32,
    pub y: i32,
    pub width: i32,
    pub height: i32,
}

/// The part of the swapchain's image that an eye sees.
pub open spec fn eye_rect(x: i32) -> Rect {
    Rect { x, y: 0, width: CAMERA_SIZE as i32, height: CAMERA_SIZE as i32 }
}

/// What the eyes see of the swapchain's image.
#[derive(Debug, Clone, Copy, PartialEq, Eq, Structural)]
pub struct EyeLayers {
    pub left: Rect,
    pub right: Rect,
}

/// The left eye sees the left half. The right eye sees the right half if the image is stereo, and
/// the left half if not.
pub open spec fn layers_for(is_stereo: bool) -> EyeLayers {
    EyeLayers {
        left: eye_rect(0),
        right: eye_rect(
            if is_stereo {
                CAMERA_SIZE as i32
            } else {
                0
            },
        ),
    }
}

fn eye_layers(is_stereo: bool) -> (r: EyeLayers)
    ensures
        r == layers_for(is_stereo),
{
    let side: i32 = CAMERA_SIZE as i32;
    let x: i32 = if is_stereo {
        side
    } else {
        0
    };
    EyeLayers {
        left: Rect { x: 0, y: 0, width: side, height: side },
        right: Rect { x, y: 0, width: side, height: side },
    }
}

/// What the eyes see of the overlay, if it has been placed.
pub fn composition_layers(placed: bool, is_stereo: bool) -> (r: Option<EyeLayers>)
    ensures
        r == (if placed {
            Some(layers_for(is_stereo))
        } else {
            None
        }),
{
    if placed {
        Some(eye_layers(is_stereo))
    } else {
        None
    }
}

/// How far a session has come, as the runtime tells it.
#[derive(Debug, Clone, Copy, PartialEq, Eq, Structural)]
pub enum SessionPhase {
    Unknown,
    Idle,
    Ready,
    Synchronized,
    Visible,
    Focused,
    Stopping,
    LossPending,
    Exiting,
}

/// Frames are shown, or will be soon.
pub open spec fn is_synchronized(phase: SessionPhase) -> bool {
    phase is Synchronized || phase is Visible || phase is Focused
}

/// Frames can be submitted.
pub open spec fn is_ready(phase: SessionPhase) -> bool {
    is_synchronized(phase) || phase is Ready
}

fn synchronized(phase: SessionPhase) -> (r: bool)
    ensures
        r == is_synchronized(phase),
{
    match phase {
        SessionPhase::Synchronized | SessionPhase::Visible | SessionPhase::Focused => true,
        _ => false,
    }
}

fn ready(phase: SessionPhase) -> (r: bool)
    ensures
        r == is_ready(phase),
{
    match phase {
        SessionPhase::Ready => true,
        _ => synchronized(phase),
    }
}

/// An event of the runtime.
#[derive(Debug, Clone, Copy, PartialEq, Eq, Structural)]
pub enum XrEvent {
    InstanceLossPending,
    SessionStateChanged(SessionPhase),
    Other,
}

/// What is done on an event.
#[derive(Debug, Clone, Copy, PartialEq, Eq, Structural)]
pub enum EventAction {
    /// Ask the user's loop to exit.
    Exit,
    /// End the session; if that works, ask the user's loop to exit.
    EndThenExit,
    Begin,
    End,
    /// Look at the next event.
    Continue,
}

/// What is waited for until the session is shown.
#[derive(Debug, Clone, Copy, PartialEq, Eq, Structural)]
pub enum ReadyStage {
    /// That frames can be submitted.
    Ready,
    /// That they are shown.
    Synchronized,
}

/// What is done until the session is shown.
#[derive(Debug, Clone, Copy, PartialEq, Eq, Structural)]
pub enum ReadyStep {
    /// Look at the next event, and sleep for a while.
    PollAndSleep,
    /// Submit an empty frame, and look at the next event.
    EmptyFrame,
    Done,
}

/// What is done to refresh the overlay.
#[derive(Debug, Clone, Copy, PartialEq, Eq, Structural)]
pub enum RefreshStep {
    /// Nothing is shown: sleep for a while.
    Sleep,
    /// Submit a frame with these layers.
    Frame { layers: Option<EyeLayers> },
}

/// Where a captured image is drawn.
#[derive(Debug, Clone, Copy, PartialEq, Eq, Structural)]
pub enum RenderTarget {
    /// Nowhere: the frame has been ended without layers.
    Skip,
    /// The image that the overlay is projected from.
    Texture(u64),
    /// An image of the swapchain, which is to be acquired.
    Acquire,
}

/// Where the overlay stays.
#[derive(Debug, Clone, Copy, PartialEq, Eq, Structural)]
pub enum PositionMode {
    /// Where it was put.
    Sticky,
    Other,
}

/// How a drawn image is put on the overlay.
#[derive(Debug, Clone, Copy, PartialEq, Eq, Structural)]
pub struct Submission {
    /// Whether the overlay is placed anew.
    pub reposition: bool,
    /// Whether the image is projected to one of the swapchain, which is to be acquired.
    pub project: bool,
    /// What the eyes see.
    pub layers: EyeLayers,
    /// When the frame is displayed.
    pub predicted_time: i64,
}

/// The overlay. Images are given by numbers.
#[derive(Debug, Clone, Copy, PartialEq, Eq, Structural)]
pub struct Overlay {
    pub phase: SessionPhase,
    pub visible: bool,
    pub display_mode: DisplayMode,
    pub has_projector: bool,
    pub render_texture: Option<u64>,
    /// When the frame that was waited for last is displayed.
    pub predicted_time: Option<i64>,
    /// Whether the overlay has been placed.
    pub placed: bool,
    /// Whether the overlay has to be placed anew.
    pub reposition: bool,
    pub position_mode: PositionMode,
}

impl Overlay {
    /// Shows the overlay.
    pub fn show_overlay(&mut self)
        ensures
            *final(self) == (Overlay { visible: true, ..*old(self) }),
    {
        self.visible = true;
    }

    /// Whether a frame that shows nothing has to be submitted to hide the overlay.
    pub fn hide_needs_frame(&self) -> (r: bool)
        ensures
            r == self.visible,
    {
        self.visible
    }

    /// The frame that shows nothing was submitted, or could not be.
    pub fn overlay_hidden(&mut self, submitted: bool)
        ensures
            *final(self) == (Overlay { visible: old(self).visible && !submitted, ..*old(self) }),
    {
        if submitted {
            self.visible = false;
        }
    }

    /// An overlay that is to stay where it is put is put somewhere with the next image.
    pub fn set_position_mode(&mut self, mode: PositionMode)
        ensures
            *final(self) == (Overlay {
                position_mode: mode,
                reposition: old(self).reposition || mode is Sticky,
                ..*old(self)
            }),
    {
        self.position_mode = mode;
        match mode {
            PositionMode::Sticky => {
                self.reposition = true;
            },
            PositionMode::Other => (),
        }
    }

    /// Changes how the camera's view is displayed. Gives back whether a projector has to be made,
    /// with an image to project from.
    pub fn set_display_mode(&mut self, mode: DisplayMode) -> (r: Option<ProjectionMode>)
        ensures
            r == (if old(self).has_projector {
                None
            } else {
                mode.projection_mode()
            }),
            *final(self) == (if mode.projection_mode() is Some {
                Overlay { display_mode: mode, ..*old(self) }
            } else {
                Overlay {
                    display_mode: mode,
                    render_texture: None,
                    has_projector: false,
                    ..*old(self)
                }
            }),
    {
        self.display_mode = mode;
        match mode.projection_mode() {
            Some(projection) => if self.has_projector {
                None
            } else {
                Some(projection)
            },
            None => {
                self.render_texture = None;
                self.has_projector = false;
                None
            },
        }
    }

    /// The image to project from was made, if at all, and then the projector, if at all.
    pub fn projector_made(&mut self, texture: Option<u64>, projector: bool)
        ensures
            *final(self) == (match texture {
                Some(t) => Overlay {
                    render_texture: Some(t),
                    has_projector: old(self).has_projector || projector,
                    ..*old(self)
                },
                None => *old(self),
            }),
    {
        match texture {
            Some(t) => {
                self.render_texture = Some(t);
                if projector {
                    self.has_projector = true;
                }
            },
            None => (),
        }
    }

    /// A frame was waited for, to draw to, to refresh the overlay or until the session is shown.
    /// What is submitted from now on belongs to it.
    pub fn frame_waited(&mut self, predicted_time: i64)
        ensures
            *final(self) == (Overlay { predicted_time: Some(predicted_time), ..*old(self) }),
    {
        self.predicted_time = Some(predicted_time);
    }

    /// What is done to refresh the overlay. A frame that is submitted is waited for first.
    pub fn refresh(&self) -> (r: RefreshStep)
        ensures
            r == (if !self.visible {
                RefreshStep::Sleep
            } else {
                RefreshStep::Frame {
                    layers: if self.placed {
                        Some(layers_for(self.display_mode.is_stereo()))
                    } else {
                        None
                    },
                }
            }),
    {
        if !self.visible {
            return RefreshStep::Sleep;
        }
        RefreshStep::Frame {
            layers: composition_layers(self.placed, self.display_mode.is_stereo()),
        }
    }

    /// Whether a frame is begun to draw an image to.
    pub fn wants_frame(&self) -> (r: bool)
        ensures
            r == (is_ready(self.phase) && self.visible),
    {
        ready(self.phase) && self.visible
    }

    /// Where an image is drawn in a frame that was begun. A projected overlay has its image.
    pub fn get_render_texture(&mut self, predicted_time: i64, should_render: bool) -> (r:
        RenderTarget)
        requires
            should_render && old(self).display_mode.projection_mode() is Some ==> old(self).render_texture is Some,
        ensures
            *final(self) == (Overlay { predicted_time: Some(predicted_time), ..*old(self) }),
            r == (if !should_render {
                RenderTarget::Skip
            } else if old(self).display_mode.projection_mode() is Some {
                RenderTarget::Texture(old(self).render_texture->Some_0)
            } else {
                RenderTarget::Acquire
            }),
    {
        self.predicted_time = Some(predicted_time);
        if !should_render {
            return RenderTarget::Skip;
        }
        match self.display_mode.projection_mode() {
            Some(_) => match self.render_texture {
                Some(t) => RenderTarget::Texture(t),
                None => RenderTarget::Skip,
            },
            None => RenderTarget::Acquire,
        }
    }

    /// An image of the swapchain was acquired to draw to.
    pub fn image_acquired(&mut self, image: u64)
        ensures
            *final(self) == (Overlay { render_texture: Some(image), ..*old(self) }),
    {
        self.render_texture = Some(image);
    }

    /// The overlay after an image was put on it.
    pub open spec fn submitted(self) -> Overlay {
        Overlay {
            reposition: false,
            placed: true,
            render_texture: if self.display_mode.projection_mode() is Some {
                self.render_texture
            } else {
                None
            },
            ..self
        }
    }

    /// Puts a drawn image on the overlay, in the frame that was waited for last.
    pub fn submit_texture(&mut self) -> (r: Submission)
        requires
            old(self).predicted_time is Some,
        ensures
            r == (Submission {
                reposition: old(self).reposition,
                project: old(self).display_mode.projection_mode() is Some,
                layers: layers_for(old(self).display_mode.is_stereo()),
                predicted_time: old(self).predicted_time->Some_0,
            }),
            *final(self) == old(self).submitted(),
    {
        let predicted_time: i64 = match self.predicted_time {
            Some(t) => t,
            None => 0,
        };
        let reposition: bool = self.reposition;
        let project: bool = self.display_mode.projection_mode().is_some();
        self.reposition = false;
        self.placed = true;
        if !project {
            self.render_texture = None;
        }
        let layers = eye_layers(self.display_mode.is_stereo());
        Submission { reposition, project, layers, predicted_time }
    }

    /// What is done on an event.
    pub fn on_event(&mut self, event: XrEvent) -> (r: EventAction)
        ensures
            *final(self) == (match event {
                XrEvent::SessionStateChanged(phase) => Overlay { phase, ..*old(self) },
                _ => *old(self),
            }),
            r == (match event {
                XrEvent::InstanceLossPending => EventAction::Exit,
                XrEvent::SessionStateChanged(phase) => match phase {
                    SessionPhase::Exiting | SessionPhase::LossPending => EventAction::EndThenExit,
                    SessionPhase::Ready => EventAction::Begin,
                    SessionPhase::Stopping => if old(self).visible {
                        EventAction::End
                    } else {
                        EventAction::Continue
                    },
                    _ => EventAction::Continue,
                },
                XrEvent::Other => EventAction::Continue,
            }),
    {
        match event {
            XrEvent::InstanceLossPending => EventAction::Exit,
            XrEvent::SessionStateChanged(phase) => {
                self.phase = phase;
                match phase {
                    SessionPhase::Exiting | SessionPhase::LossPending => EventAction::EndThenExit,
                    SessionPhase::Ready => EventAction::Begin,
                    SessionPhase::Stopping => if self.visible {
                        EventAction::End
                    } else {
                        EventAction::Continue
                    },
                    _ => EventAction::Continue,
                }
            },
            XrEvent::Other => EventAction::Continue,
        }
    }

    /// What is done until the session is shown. Once frames can be submitted, they are, even if
    /// the session falls back.
    pub fn wait_for_ready(&self, stage: ReadyStage) -> (r: (ReadyStage, ReadyStep))
        ensures
            r == (if stage is Ready && !is_ready(self.phase) {
                (ReadyStage::Ready, ReadyStep::PollAndSleep)
            } else if !is_synchronized(self.phase) {
                (ReadyStage::Synchronized, ReadyStep::EmptyFrame)
            } else {
                (ReadyStage::Synchronized, ReadyStep::Done)
            }),
    {
        match stage {
            ReadyStage::Ready => if !ready(self.phase) {
                return (ReadyStage::Ready, ReadyStep::PollAndSleep);
            },
            ReadyStage::Synchronized => (),
        }
        if !synchronized(self.phase) {
            (ReadyStage::Synchronized, ReadyStep::EmptyFrame)
        } else {
            (ReadyStage::Synchronized, ReadyStep::Done)
        }
    }
}

/// When an image was captured, `elapsed` nanoseconds before `now`. A moment too early for the
/// clock is taken modulo its range.
pub fn time_at_capture(now: i64, elapsed: u64) -> (r: i64)
    requires
        now < 0 || elapsed <= now,
    ensures
        r == (if now - elapsed < i64::MIN {
            now - elapsed + 0x1_0000_0000_0000_0000
        } else {
            now - elapsed
        }),
{
    let time: i128 = now as i128 - elapsed as i128;
    if time < i64::MIN as i128 {
        (time + 0x1_0000_0000_0000_0000) as i64
    } else {
        time as i64
    }
}

/// The flags that say that the poses of the views can be used.
pub const ORIENTATION_VALID: u64 = 1;

pub const POSITION_VALID: u64 = 2;

/// Whether the poses of the views are used, or else those that were used last.
pub fn poses_are_valid(flags: u64) -> (r: bool)
    ensures
        r == (flags & ORIENTATION_VALID == ORIENTATION_VALID && flags & POSITION_VALID
            == POSITION_VALID),
{
    flags & ORIENTATION_VALID == ORIENTATION_VALID && flags & POSITION_VALID == POSITION_VALID
}

/// The stage that is reached after `n` good events.
pub open spec fn stage_after(stage: OpenXrStage, n: nat) -> OpenXrStage
    decreases n,
{
    if n == 0 {
        stage
    } else {
        stage_after(next_xr_stage(stage), (n - 1) as nat)
    }
}

/// The client is ready after eleven good events and not before.
pub proof fn law_setup_takes_eleven_steps(n: nat)
    requires
        n <= 11,
    ensures
        stage_after(OpenXrStage::Entry, n) is Ready <==> n == 11,
{
    reveal_with_fuel(stage_after, 12);
}

/// What both eyes see lies within the swapchain's image, for images of the camera's size; and in
/// stereo they see different parts.
pub proof fn law_layers_fit_swapchain(is_stereo: bool)
    ensures
        ({
            let layers = layers_for(is_stereo);
            &&& 0 <= layers.left.x && layers.left.x + layers.left.width <= CAMERA_SIZE * 2
            &&& 0 <= layers.right.x && layers.right.x + layers.right.width <= CAMERA_SIZE * 2
            &&& layers.left.y + layers.left.height <= CAMERA_SIZE
            &&& layers.right.y + layers.right.height <= CAMERA_SIZE
            &&& is_stereo ==> layers.left.x + layers.left.width <= layers.right.x
            &&& !is_stereo ==> layers.left == layers.right
        }),
{
}

/// An overlay that is projected keeps its image when it is submitted, and one that is not gives
/// it up, so that a new one is acquired. Either way it is placed, and not placed anew again.
pub proof fn law_submit_gives_image_up(overlay: Overlay)
    ensures
        overlay.submitted().render_texture is Some
            ==> overlay.display_mode.projection_mode() is Some,
        overlay.display_mode.projection_mode() is Some ==> overlay.submitted().render_texture
            == overlay.render_texture,
        overlay.submitted().placed,
        overlay.submitted().submitted() == overlay.submitted(),
{
}

/// In which phases a session is drawn to, one by one: a visible overlay wants a frame exactly in
/// the phases ready, synchronized, visible and focused.
pub proof fn law_frames_are_wanted(overlay: &Overlay, r: bool)
    requires
        call_ensures(Overlay::wants_frame, (overlay,), r),
    ensures
        !overlay.visible ==> !r,
        overlay.visible ==> match overlay.phase {
            SessionPhase::Unknown => !r,
            SessionPhase::Idle => !r,
            SessionPhase::Ready => r,
            SessionPhase::Synchronized => r,
            SessionPhase::Visible => r,
            SessionPhase::Focused => r,
            SessionPhase::Stopping => !r,
            SessionPhase::LossPending => !r,
            SessionPhase::Exiting => !r,
        },
{
}

/// How long a session is waited for, phase by phase. As long as no frame could be submitted yet,
/// events are looked at until one can. From then on empty frames are submitted until the phase is
/// synchronized, visible or focused, and only then the wait is done.
pub proof fn law_wait_ends(overlay: &Overlay, stage: ReadyStage, r: (ReadyStage, ReadyStep))
    requires
        call_ensures(Overlay::wait_for_ready, (overlay, stage), r),
    ensures
        stage is Synchronized ==> r.0 is Synchronized,
        r.1 is PollAndSleep <==> r.0 is Ready,
        match overlay.phase {
            SessionPhase::Synchronized => r.1 is Done,
            SessionPhase::Visible => r.1 is Done,
            SessionPhase::Focused => r.1 is Done,
            SessionPhase::Ready => r.1 is EmptyFrame,
            SessionPhase::Unknown => r.1 == not_shown(stage),
            SessionPhase::Idle => r.1 == not_shown(stage),
            SessionPhase::Stopping => r.1 == not_shown(stage),
            SessionPhase::LossPending => r.1 == not_shown(stage),
            SessionPhase::Exiting => r.1 == not_shown(stage),
        },
{
}

/// What is done in a phase in which no frame can be submitted.
pub open spec fn not_shown(stage: ReadyStage) -> ReadyStep {
    if stage is Ready {
        ReadyStep::PollAndSleep
    } else {
        ReadyStep::EmptyFrame
    }
}

/// The overlay knows the phase that the runtime told it last, and nothing else of it changes on
/// an event. The session begins when it is ready, and ends when it stops, if it is visible. A
/// session that exits or is lost is ended, and then so is the program.
pub proof fn law_events_are_followed()
    ensures
        forall|o: &mut Overlay, event: XrEvent, r: EventAction| #[trigger]
            call_ensures(Overlay::on_event, (o, event), r) ==> {
                &&& event is InstanceLossPending ==> r is Exit && *final(o) == *o
                &&& event is Other ==> r is Continue && *final(o) == *o
                &&& event matches XrEvent::SessionStateChanged(phase) ==> {
                    &&& final(o).phase == phase
                    &&& *final(o) == (Overlay { phase, ..*o })
                    &&& match phase {
                        SessionPhase::Unknown => r is Continue,
                        SessionPhase::Idle => r is Continue,
                        SessionPhase::Ready => r is Begin,
                        SessionPhase::Synchronized => r is Continue,
                        SessionPhase::Visible => r is Continue,
                        SessionPhase::Focused => r is Continue,
                        SessionPhase::Stopping => r == (if o.visible {
                            EventAction::End
                        } else {
                            EventAction::Continue
                        }),
                        SessionPhase::LossPending => r is EndThenExit,
                        SessionPhase::Exiting => r is EndThenExit,
                    }
                }
            },
{
}

/// The overlay is shown and hidden, and nothing else of it changes. It is hidden only once a
/// frame that shows nothing was submitted.
pub proof fn law_overlay_is_shown_and_hidden(overlay: &Overlay, needs: bool)
    requires
        call_ensures(Overlay::hide_needs_frame, (overlay,), needs),
    ensures
        needs <==> overlay.visible,
        forall|o: &mut Overlay| #[trigger]
            call_ensures(Overlay::show_overlay, (o,), ()) ==> *final(o) == (Overlay {
                visible: true,
                ..*o
            }),
        forall|o: &mut Overlay, submitted: bool| #[trigger]
            call_ensures(Overlay::overlay_hidden, (o, submitted), ()) ==> {
                &&& submitted ==> *final(o) == (Overlay { visible: false, ..*o })
                &&& !submitted ==> *final(o) == *o
            },
{
}

/// An overlay that is to stay where it is put is put somewhere with the next image, and one that
/// was to be placed anew still is.
pub proof fn law_sticky_overlay_is_placed()
    ensures
        forall|o: &mut Overlay, mode: PositionMode| #[trigger]
            call_ensures(Overlay::set_position_mode, (o, mode), ()) ==> {
                &&& final(o).position_mode == mode
                &&& mode is Sticky ==> final(o).reposition
                &&& mode is Other ==> final(o).reposition == o.reposition
                &&& *final(o) == (Overlay {
                    position_mode: mode,
                    reposition: final(o).reposition,
                    ..*o
                })
            },
{
}

/// A projector is made exactly if the image is to be projected and there is none. A mode without
/// projection gives the projector and its image up. Nothing else changes.
pub proof fn law_projector_follows_mode()
    ensures
        forall|o: &mut Overlay, mode: DisplayMode, r: Option<ProjectionMode>| #[trigger]
            call_ensures(Overlay::set_display_mode, (o, mode), r) ==> {
                &&& mode matches DisplayMode::Stereo { projection_mode } ==> {
                    &&& r == (if o.has_projector {
                        None
                    } else {
                        Some(projection_mode)
                    })
                    &&& *final(o) == (Overlay { display_mode: mode, ..*o })
                }
                &&& mode is Direct || mode is Flat ==> {
                    &&& r is None
                    &&& *final(o) == (Overlay {
                        display_mode: mode,
                        render_texture: None,
                        has_projector: false,
                        ..*o
                    })
                }
            },
        forall|o: &mut Overlay, texture: Option<u64>, made: bool| #[trigger]
            call_ensures(Overlay::projector_made, (o, texture, made), ()) ==> {
                &&& texture is None ==> *final(o) == *o
                &&& texture is Some ==> final(o).render_texture == texture
                &&& texture is Some ==> (final(o).has_projector <==> o.has_projector || made)
                &&& *final(o) == (Overlay {
                    render_texture: final(o).render_texture,
                    has_projector: final(o).has_projector,
                    ..*o
                })
            },
{
}

/// A hidden overlay is not refreshed. A visible one shows what it showed, if it was placed, and
/// nothing if it was not.
pub proof fn law_refresh_shows_what_was_shown(overlay: &Overlay, r: RefreshStep)
    requires
        call_ensures(Overlay::refresh, (overlay,), r),
    ensures
        !overlay.visible <==> r is Sleep,
        r matches RefreshStep::Frame { layers } ==> {
            &&& layers is Some <==> overlay.placed
            &&& layers matches Some(l) ==> {
                &&& l.left == (Rect { x: 0, y: 0, width: 960, height: 960 })
                &&& overlay.display_mode is Flat ==> l.right == l.left
                &&& !(overlay.display_mode is Flat) ==> l.right == (Rect {
                    x: 960,
                    y: 0,
                    width: 960,
                    height: 960,
                })
            }
        },
{
}

/// The left eye sees the left half of the image; the right eye sees the right half of a stereo
/// image, and the left half of any other. An overlay that was not placed is not seen.
pub proof fn law_eyes_see_halves(placed: bool, is_stereo: bool, r: Option<EyeLayers>)
    requires
        call_ensures(composition_layers, (placed, is_stereo), r),
    ensures
        r is Some <==> placed,
        r matches Some(l) ==> {
            &&& l.left == (Rect { x: 0, y: 0, width: 960, height: 960 })
            &&& l.right.x == (if is_stereo {
                960int
            } else {
                0
            })
            &&& l.right.y == 0 && l.right.width == 960 && l.right.height == 960
        },
{
}

/// A frame in which nothing is to be rendered is skipped. Else a projected overlay is drawn to
/// its own image, and any other to one of the swapchain. In each case the frame is the one that
/// is submitted to next.
pub proof fn law_image_is_drawn_where_it_belongs()
    ensures
        forall|o: &mut Overlay, time: i64, render: bool, r: RenderTarget| #[trigger]
            call_ensures(Overlay::get_render_texture, (o, time, render), r) ==> {
                &&& *final(o) == (Overlay { predicted_time: Some(time), ..*o })
                &&& !render ==> r is Skip
                &&& render && o.display_mode is Stereo ==> (o.render_texture matches Some(t) ==> r
                    == RenderTarget::Texture(t))
                &&& render && !(o.display_mode is Stereo) ==> r is Acquire
            },
        forall|o: &mut Overlay, time: i64| #[trigger]
            call_ensures(Overlay::frame_waited, (o, time), ()) ==> *final(o) == (Overlay {
                predicted_time: Some(time),
                ..*o
            }),
        forall|o: &mut Overlay, image: u64| #[trigger]
            call_ensures(Overlay::image_acquired, (o, image), ()) ==> *final(o) == (Overlay {
                render_texture: Some(image),
                ..*o
            }),
{
}

/// What is submitted belongs to the frame that was waited for last. The overlay is placed by it,
/// and not placed anew by the next one. A projected overlay keeps its image, and any other gives
/// it up.
pub proof fn law_image_is_submitted()
    ensures
        forall|o: &mut Overlay, r: Submission| #[trigger]
            call_ensures(Overlay::submit_texture, (o,), r) ==> (o.predicted_time matches Some(t)
                ==> {
                &&& r.predicted_time == t
                &&& r.reposition == o.reposition
                &&& r.project <==> o.display_mode is Stereo
                &&& r.layers.left == (Rect { x: 0, y: 0, width: 960, height: 960 })
                &&& r.layers.right == (if o.display_mode is Flat {
                    Rect { x: 0, y: 0, width: 960, height: 960 }
                } else {
                    Rect { x: 960, y: 0, width: 960, height: 960 }
                })
                &&& o.display_mode is Stereo ==> *final(o) == (Overlay {
                    reposition: false,
                    placed: true,
                    ..*o
                })
                &&& !(o.display_mode is Stereo) ==> *final(o) == (Overlay {
                    reposition: false,
                    placed: true,
                    render_texture: None,
                    ..*o
                })
            }),
{
}

/// The place of a stage in the set up.
pub open spec fn stage_number(stage: OpenXrStage) -> int {
    match stage {
        OpenXrStage::Entry => 0,
        OpenXrStage::Instance => 1,
        OpenXrStage::System => 2,
        OpenXrStage::BlendModes => 3,
        OpenXrStage::VkInstance => 4,
        OpenXrStage::VkDevice => 5,
        OpenXrStage::Session => 6,
        OpenXrStage::Formats => 7,
        OpenXrStage::Swapchain => 8,
        OpenXrStage::Images => 9,
        OpenXrStage::Space => 10,
        OpenXrStage::Ready => 11,
    }
}

/// The event says that all went well: a blend mode that is opaque is among those that there are,
/// and so is the format of the swapchain; the session was created, be it with a qualified
/// success.
pub open spec fn went_well(event: OpenXrEvent) -> bool {
    match event {
        OpenXrEvent::Outcome(ok) => ok,
        OpenXrEvent::BlendModes(modes) => exists|i: int|
            0 <= i < modes@.len() && #[trigger] modes@[i] == 1,
        OpenXrEvent::Vulkan(made) => made is Ok,
        OpenXrEvent::Session(ret) => ret.code >= 0,
        OpenXrEvent::Formats(formats) => exists|i: int|
            0 <= i < formats@.len() && #[trigger] formats@[i] == 37,
    }
}

/// The set up goes on by one stage exactly if all went well. If not, it stays where it is and
/// says what was wrong.
pub proof fn law_setup_goes_on()
    ensures
        forall|s: &mut OpenXrSetup, event: OpenXrEvent, r: Result<OpenXrStage, OpenXrError>|
         #[trigger]
            call_ensures(OpenXrSetup::step, (s, event), r) ==> {
                &&& final(s).render_size == s.render_size
                &&& r is Ok <==> went_well(event)
                &&& r matches Ok(stage) ==> final(s).stage == stage && stage_number(stage) == (
                if s.stage is Ready {
                    11
                } else {
                    stage_number(s.stage) + 1
                })
                &&& r is Err ==> *final(s) == *s
                &&& r matches Err(e) ==> match event {
                    OpenXrEvent::Outcome(_) => e is Outside,
                    OpenXrEvent::BlendModes(_) => e is NoOpaqueBlendMode,
                    OpenXrEvent::Vulkan(made) => made matches Err(f) && e == f,
                    OpenXrEvent::Session(ret) => e == OpenXrError::Runtime(ret),
                    OpenXrEvent::Formats(_) => e is NoFormat,
                }
            },
        forall|size: Size, r: OpenXrSetup| #[trigger]
            call_ensures(OpenXrSetup::new, (size,), r) ==> r.stage is Entry && r.render_size
                == size,
{
    assert forall|s: &mut OpenXrSetup, event: OpenXrEvent, r: Result<OpenXrStage, OpenXrError>|
     #[trigger]
        call_ensures(OpenXrSetup::step, (s, event), r) implies (r is Ok <==> went_well(event)) by {
        match event {
            OpenXrEvent::BlendModes(modes) => {
                assert(modes@.contains(OPAQUE) <==> went_well(event));
            },
            OpenXrEvent::Formats(formats) => {
                assert(formats@.contains(SWAPCHAIN_FORMAT) <==> went_well(event));
            },
            _ => {},
        }
    }
}

/// At every stage but the last the set up takes the news that what is done there failed; at a
/// stage that gives something, it takes what was given, and at any other, that it worked.
pub proof fn law_setup_takes_what_comes(
    modes: Vec<i32>,
    formats: Vec<u32>,
    made: Result<(), OpenXrError>,
    ret: XrErr,
    ok: bool,
)
    ensures
        xr_event_fits(OpenXrStage::Entry, OpenXrEvent::Outcome(ok)),
        xr_event_fits(OpenXrStage::Instance, OpenXrEvent::Outcome(ok)),
        xr_event_fits(OpenXrStage::System, OpenXrEvent::Outcome(ok)),
        xr_event_fits(OpenXrStage::BlendModes, OpenXrEvent::BlendModes(modes)),
        xr_event_fits(OpenXrStage::BlendModes, OpenXrEvent::Outcome(false)),
        xr_event_fits(OpenXrStage::VkInstance, OpenXrEvent::Vulkan(made)),
        xr_event_fits(OpenXrStage::VkDevice, OpenXrEvent::Vulkan(made)),
        xr_event_fits(OpenXrStage::Session, OpenXrEvent::Session(ret)),
        xr_event_fits(OpenXrStage::Formats, OpenXrEvent::Formats(formats)),
        xr_event_fits(OpenXrStage::Formats, OpenXrEvent::Outcome(false)),
        xr_event_fits(OpenXrStage::Swapchain, OpenXrEvent::Outcome(ok)),
        xr_event_fits(OpenXrStage::Images, OpenXrEvent::Outcome(ok)),
        xr_event_fits(OpenXrStage::Space, OpenXrEvent::Outcome(ok)),
{
}

/// The swapchain is twice as wide as one eye's image, and as high.
pub proof fn law_swapchain_holds_both_eyes(setup: &OpenXrSetup, r: SwapchainPlan)
    requires
        call_ensures(OpenXrSetup::swapchain, (setup,), r),
    ensures
        r.format == 37,
        r.sample_count == 1,
        r.size.width == setup.render_size.width + setup.render_size.width,
        r.size.height == setup.render_size.height,
{
}

/// A Vulkan instance is planned exactly if every required extension is supported; else the first
/// that is not is named. Its version is later neither than what the runtime takes nor than the
/// library's, and it is one of the two.
pub proof fn law_vk_instance_is_planned(
    required: &[String],
    supported: &[String],
    major: u16,
    minor: u16,
    library: ApiVersion,
    r: Result<VkInstancePlan, OpenXrError>,
)
    requires
        call_ensures(create_vk_instance, (required, supported, major, minor, library), r),
    ensures
        r is Ok <==> forall|i: int|
            0 <= i < required@.len() ==> texts(supported@).contains((#[trigger] required@[i])@),
        r matches Ok(plan) ==> {
            let runtime = ApiVersion { major: major as u32, minor: minor as u32, patch: 0 };
            &&& plan.version == runtime || plan.version == library
            &&& !earlier(runtime, plan.version)
            &&& !earlier(library, plan.version)
            &&& plan.raw_version == packed(plan.version)
        },
        r matches Err(e) ==> e matches OpenXrError::UnsupportedExtension(name) && exists|i: int|
            0 <= i < required@.len() && name@ == (#[trigger] required@[i])@ && !texts(
                supported@,
            ).contains(name@) && forall|j: int|
                0 <= j < i ==> texts(supported@).contains((#[trigger] required@[j])@),
{
    let names = texts(required@);
    assert(names.len() == required@.len());
    assert forall|i: int| 0 <= i < required@.len() implies names[i] == (#[trigger] required@[i])@ by {}
    crate::version::law_versions_are_ordered(
        library,
        ApiVersion { major: major as u32, minor: minor as u32, patch: 0 },
        library,
    );
    match r {
        Ok(plan) => {
            assert forall|i: int| 0 <= i < required@.len() implies texts(supported@).contains(
                (#[trigger] required@[i])@,
            ) by {
                assert(texts(supported@).contains(names[i]));
            }
        },
        Err(OpenXrError::UnsupportedExtension(name)) => {
            let i = choose|i: int| #[trigger]
                first_missing(names, texts(supported@), i) && name@ == names[i];
            assert(name@ == required@[i]@);
            assert forall|j: int| 0 <= j < i implies texts(supported@).contains(
                (#[trigger] required@[j])@,
            ) by {
                assert(texts(supported@).contains(names[j]));
            }
        },
        Err(_) => {},
    }
}

/// A Vulkan device is planned exactly if its version is not too early and one of its families of
/// queues can draw; it is the first of them.
pub proof fn law_vk_device_is_planned(
    major: u16,
    minor: u16,
    device: ApiVersion,
    families: &[u32],
    r: Result<u32, OpenXrError>,
)
    requires
        families@.len() <= u32::MAX,
        call_ensures(create_vk_device, (major, minor, device, families), r),
    ensures
        ({
            let early = device.major < major || (device.major == major && device.minor < minor);
            &&& early <==> r == Err::<u32, _>(OpenXrError::UnsupportedVersion(device))
            &&& early <==> (r matches Err(OpenXrError::UnsupportedVersion(_)))
            &&& r is Ok ==> !early
            &&& !early && (exists|i: int|
                0 <= i < families@.len() && #[trigger] families@[i] & 1 == 1) ==> r is Ok
            &&& r matches Ok(f) ==> f < families@.len() && families@[f as int] & 1 == 1
                && forall|i: int| 0 <= i < f ==> #[trigger] families@[i] & 1 != 1
            &&& r is Err && !early ==> (r matches Err(OpenXrError::NoGraphicsQueue))
        }),
{
    if exists|i: int| 0 <= i < families@.len() && #[trigger] families@[i] & 1 == 1 {
        let i = choose|i: int| 0 <= i < families@.len() && #[trigger] families@[i] & 1 == 1;
        let first = lemma_first_graphics(families@, i);
        assert(first_graphics(families@, first));
    }
    match r {
        Ok(f) => {
            assert(first_graphics(families@, f as int));
            assert(!earlier(device, least_version(major, minor)));
            assert(families@[f as int] & 1 == 1);
            assert forall|i: int| 0 <= i < f implies #[trigger] families@[i] & 1 != 1 by {
                assert(families@[i] & GRAPHICS_QUEUE != GRAPHICS_QUEUE);
            }
        },
        Err(_) => {},
    }
}

proof fn lemma_first_graphics(families: Seq<u32>, i: int) -> (first: int)
    requires
        0 <= i < families.len(),
        families[i] & 1 == 1,
    ensures
        first_graphics(families, first),
    decreases i,
{
    if exists|j: int| 0 <= j < i && #[trigger] families[j] & 1 == 1 {
        let j = choose|j: int| 0 <= j < i && #[trigger] families[j] & 1 == 1;
        lemma_first_graphics(families, j)
    } else {
        i
    }
}

/// An image was captured as long before now as it took, on a clock that goes round.
pub proof fn law_capture_was_before_now(now: i64, elapsed: u64, r: i64)
    requires
        now < 0 || elapsed <= now,
        call_ensures(time_at_capture, (now, elapsed), r),
    ensures
        r + elapsed == now || r + elapsed == now + 0x1_0000_0000_0000_0000,
        now - elapsed >= i64::MIN ==> r + elapsed == now,
{
}

/// The poses are used only if both the orientation and the position are valid.
pub proof fn law_poses_need_both(flags: u64, r: bool)
    requires
        call_ensures(poses_are_valid, (flags,), r),
    ensures
        r <==> flags & 1 != 0 && flags & 2 != 0,
{
    assert((flags & 1 == 1 && flags & 2 == 2) <==> (flags & 1 != 0 && flags & 2 != 0))
        by (bit_vector);
}

} // verus!
