//! Setting up the camera for a session, step by step.

use crate::geometry::{Size, CAMERA_SIZE};
use crate::session::CameraResources;
use crate::xr_result::{XrErr, XrResult, ERROR_RUNTIME_FAILURE};
use vstd::prelude::*;

verus! {

/// What the runtime recommends for one view.
#[derive(Debug, Clone, Copy, PartialEq, Eq, Structural)]
pub struct ViewConfig {
    pub size: Size,
    pub sample_count: u32,
}

/// What is being done.
#[derive(Debug, Clone, Copy, PartialEq, Eq, Structural)]
pub enum SetupStage {
    Views,
    Directories,
    PipelineCache,
    Pipeline,
    FindCamera,
    OpenCamera,
    Splash,
    Formats,
    StartCamera,
    Swapchain,
    Images,
    WrapImages,
    Resume,
}

/// How far the camera is set up, and what is known so far.
#[derive(Debug)]
pub struct CameraSetup {
    pub stage: SetupStage,
    pub views: Vec<ViewConfig>,
    pub formats: Vec<u32>,
    pub camera: u64,
    pub swapchain: u64,
    pub images: Vec<u64>,
}

/// What came of what was being done.
#[derive(Debug)]
pub enum SetupEvent {
    /// It worked or not, and nothing is to be kept of it.
    Outcome(bool),
    Views(XrResult<Vec<ViewConfig>>),
    Formats(XrResult<Vec<u32>>),
    CameraStarted(u64),
    Swapchain(XrResult<u64>),
    Images(XrResult<Vec<u64>>),
}

/// What is to be done.
#[derive(Debug, Clone, Copy, PartialEq, Eq, Structural)]
pub enum SetupAction {
    EnumerateViews,
    FindDirectories,
    LoadPipelineCache,
    /// Make the pipeline from an image of the camera, of which there are two side by side, to an
    /// image of the swapchain.
    MakePipeline { camera_size: Size, render_size: Size },
    FindCamera,
    OpenCamera,
    LoadSplash,
    EnumerateFormats,
    /// Start the thread of the camera, which waits to be resumed.
    StartCamera,
    CreateSwapchain { format: u32, sample_count: u32, size: Size },
    EnumerateImages,
    WrapImages { format: u32, size: Size },
    /// Resume the camera. Then everything is set up.
    ResumeCamera,
    Fail(XrErr),
}

/// The stage that follows.
pub open spec fn next_stage(stage: SetupStage) -> SetupStage {
    match stage {
        SetupStage::Views => SetupStage::Directories,
        SetupStage::Directories => SetupStage::PipelineCache,
        SetupStage::PipelineCache => SetupStage::Pipeline,
        SetupStage::Pipeline => SetupStage::FindCamera,
        SetupStage::FindCamera => SetupStage::OpenCamera,
        SetupStage::OpenCamera => SetupStage::Splash,
        SetupStage::Splash => SetupStage::Formats,
        SetupStage::Formats => SetupStage::StartCamera,
        SetupStage::StartCamera => SetupStage::Swapchain,
        SetupStage::Swapchain => SetupStage::Images,
        SetupStage::Images => SetupStage::WrapImages,
        SetupStage::WrapImages => SetupStage::Resume,
        SetupStage::Resume => SetupStage::Resume,
    }
}

/// The event is one that comes of what is done in this stage.
pub open spec fn event_fits(stage: SetupStage, event: SetupEvent) -> bool {
    match stage {
        SetupStage::Views => event is Views,
        SetupStage::Formats => event is Formats,
        SetupStage::StartCamera => event is CameraStarted,
        SetupStage::Swapchain => event is Swapchain,
        SetupStage::Images => event is Images,
        SetupStage::Resume => false,
        _ => event is Outcome,
    }
}

/// The error that an event is answered with. What the runtime says is passed on; all else is a
/// failure of the layer.
pub open spec fn event_error(event: SetupEvent) -> Option<XrErr> {
    match event {
        SetupEvent::Outcome(ok) => if ok {
            None
        } else {
            Some(XrErr { code: ERROR_RUNTIME_FAILURE })
        },
        SetupEvent::Views(Err(e)) => Some(e),
        SetupEvent::Formats(Err(e)) => Some(e),
        SetupEvent::Swapchain(Err(e)) => Some(e),
        SetupEvent::Images(Err(e)) => Some(e),
        _ => None,
    }
}

pub open spec fn larger(a: u32, b: u32) -> u32 {
    if a < b {
        b
    } else {
        a
    }
}

/// The size that is large enough for both of the first two views.
pub open spec fn common_size(views: Seq<ViewConfig>) -> Size {
    Size {
        width: larger(views[0].size.width, views[1].size.width),
        height: larger(views[0].size.height, views[1].size.height),
    }
}

/// What is known after a good event.
pub open spec fn setup_after(setup: CameraSetup, event: SetupEvent) -> CameraSetup {
    let stage = next_stage(setup.stage);
    match event {
        SetupEvent::Views(Ok(views)) => CameraSetup { stage, views, ..setup },
        SetupEvent::Formats(Ok(formats)) => CameraSetup { stage, formats, ..setup },
        SetupEvent::CameraStarted(camera) => CameraSetup { stage, camera, ..setup },
        SetupEvent::Swapchain(Ok(swapchain)) => CameraSetup { stage, swapchain, ..setup },
        SetupEvent::Images(Ok(images)) => CameraSetup { stage, images, ..setup },
        _ => CameraSetup { stage, ..setup },
    }
}

/// What is to be done at this stage.
pub open spec fn action_at(setup: CameraSetup) -> SetupAction {
    let size = common_size(setup.views@);
    match setup.stage {
        SetupStage::Views => SetupAction::EnumerateViews,
        SetupStage::Directories => SetupAction::FindDirectories,
        SetupStage::PipelineCache => SetupAction::LoadPipelineCache,
        SetupStage::Pipeline => SetupAction::MakePipeline {
            camera_size: Size { width: CAMERA_SIZE, height: CAMERA_SIZE },
            render_size: size,
        },
        SetupStage::FindCamera => SetupAction::FindCamera,
        SetupStage::OpenCamera => SetupAction::OpenCamera,
        SetupStage::Splash => SetupAction::LoadSplash,
        SetupStage::Formats => SetupAction::EnumerateFormats,
        SetupStage::StartCamera => SetupAction::StartCamera,
        SetupStage::Swapchain => SetupAction::CreateSwapchain {
            format: setup.formats@[0],
            sample_count: setup.views@[0].sample_count,
            size,
        },
        SetupStage::Images => SetupAction::EnumerateImages,
        SetupStage::WrapImages => SetupAction::WrapImages { format: setup.formats@[0], size },
        SetupStage::Resume => SetupAction::ResumeCamera,
    }
}

/// The stage comes after that in which the pipeline cache is loaded.
pub open spec fn past_cache(stage: SetupStage) -> bool {
    !(stage is Views || stage is Directories || stage is PipelineCache)
}

/// The stage comes after that in which the formats are enumerated.
pub open spec fn past_formats(stage: SetupStage) -> bool {
    stage is StartCamera || stage is Swapchain || stage is Images || stage is WrapImages
        || stage is Resume
}

/// The size is known by when it is needed, and so is a format.
pub open spec fn setup_wf(setup: CameraSetup) -> bool {
    &&& past_cache(setup.stage) ==> setup.views@.len() >= 2
    &&& past_formats(setup.stage) ==> setup.formats@.len() >= 1
}

fn max_of(a: u32, b: u32) -> (r: u32)
    ensures
        r == larger(a, b),
{
    if a < b {
        b
    } else {
        a
    }
}

impl CameraSetup {
    /// Nothing is set up, and nothing is known.
    pub fn start() -> (r: CameraSetup)
        ensures
            r.stage == SetupStage::Views,
            r.views@ == Seq::<ViewConfig>::empty(),
            r.formats@ == Seq::<u32>::empty(),
            r.camera == 0,
            r.swapchain == 0,
            r.images@ == Seq::<u64>::empty(),
            setup_wf(r),
            action_at(r) == SetupAction::EnumerateViews,
    {
        CameraSetup {
            stage: SetupStage::Views,
            views: Vec::new(),
            formats: Vec::new(),
            camera: 0,
            swapchain: 0,
            images: Vec::new(),
        }
    }

    /// The size of the swapchain's images.
    pub fn size(&self) -> (r: Size)
        requires
            self.views@.len() >= 2,
        ensures
            r == common_size(self.views@),
    {
        Size::new(
            max_of(self.views[0].size.width, self.views[1].size.width),
            max_of(self.views[0].size.height, self.views[1].size.height),
        )
    }

    /// What is to be done.
    pub fn action(&self) -> (r: SetupAction)
        requires
            setup_wf(*self),
        ensures
            r == action_at(*self),
    {
        match self.stage {
            SetupStage::Views => SetupAction::EnumerateViews,
            SetupStage::Directories => SetupAction::FindDirectories,
            SetupStage::PipelineCache => SetupAction::LoadPipelineCache,
            SetupStage::Pipeline => SetupAction::MakePipeline {
                camera_size: Size::new(CAMERA_SIZE, CAMERA_SIZE),
                render_size: self.size(),
            },
            SetupStage::FindCamera => SetupAction::FindCamera,
            SetupStage::OpenCamera => SetupAction::OpenCamera,
            SetupStage::Splash => SetupAction::LoadSplash,
            SetupStage::Formats => SetupAction::EnumerateFormats,
            SetupStage::StartCamera => SetupAction::StartCamera,
            SetupStage::Swapchain => SetupAction::CreateSwapchain {
                format: self.formats[0],
                sample_count: self.views[0].sample_count,
                size: self.size(),
            },
            SetupStage::Images => SetupAction::EnumerateImages,
            SetupStage::WrapImages => SetupAction::WrapImages {
                format: self.formats[0],
                size: self.size(),
            },
            SetupStage::Resume => SetupAction::ResumeCamera,
        }
    }

    fn next(&self) -> (r: SetupStage)
        ensures
            r == next_stage(self.stage),
    {
        match self.stage {
            SetupStage::Views => SetupStage::Directories,
            SetupStage::Directories => SetupStage::PipelineCache,
            SetupStage::PipelineCache => SetupStage::Pipeline,
            SetupStage::Pipeline => SetupStage::FindCamera,
            SetupStage::FindCamera => SetupStage::OpenCamera,
            SetupStage::OpenCamera => SetupStage::Splash,
            SetupStage::Splash => SetupStage::Formats,
            SetupStage::Formats => SetupStage::StartCamera,
            SetupStage::StartCamera => SetupStage::Swapchain,
            SetupStage::Swapchain => SetupStage::Images,
            SetupStage::Images => SetupStage::WrapImages,
            SetupStage::WrapImages => SetupStage::Resume,
            SetupStage::Resume => SetupStage::Resume,
        }
    }

    /// Goes on after an event. There have to be two views by the time that the pipeline is made,
    /// and a format for the swapchain.
    pub fn step(&mut self, event: SetupEvent) -> (r: SetupAction)
        requires
            setup_wf(*old(self)),
            event_fits(old(self).stage, event),
            old(self).stage is PipelineCache && event == SetupEvent::Outcome(true) ==> old(self).views@.len() >= 2,
            event matches SetupEvent::Formats(Ok(formats)) ==> formats@.len() >= 1,
        ensures
            setup_wf(*final(self)),
            match event_error(event) {
                Some(e) => r == SetupAction::Fail(e) && *final(self) == *old(self),
                None => *final(self) == setup_after(*old(self), event) && r == action_at(
                    *final(self),
                ),
            },
    {
        let stage = self.next();
        match event {
            SetupEvent::Outcome(ok) => if !ok {
                return SetupAction::Fail(XrErr::new(ERROR_RUNTIME_FAILURE));
            },
            SetupEvent::Views(views) => match views {
                Ok(views) => {
                    self.views = views;
                },
                Err(e) => return SetupAction::Fail(e),
            },
            SetupEvent::Formats(formats) => match formats {
                Ok(formats) => {
                    self.formats = formats;
                },
                Err(e) => return SetupAction::Fail(e),
            },
            SetupEvent::CameraStarted(camera) => {
                self.camera = camera;
            },
            SetupEvent::Swapchain(swapchain) => match swapchain {
                Ok(swapchain) => {
                    self.swapchain = swapchain;
                },
                Err(e) => return SetupAction::Fail(e),
            },
            SetupEvent::Images(images) => match images {
                Ok(images) => {
                    self.images = images;
                },
                Err(e) => return SetupAction::Fail(e),
            },
        }
        self.stage = stage;
        self.action()
    }

    /// What was set up.
    pub fn finish(self) -> (r: CameraResources)
        requires
            setup_wf(self),
            self.stage is Resume,
        ensures
            r.swapchain == self.swapchain,
            r.size == common_size(self.views@),
            r.images == self.images,
            r.camera == self.camera,
    {
        let size = self.size();
        CameraResources { swapchain: self.swapchain, size, images: self.images, camera: self.camera }
    }
}

/// What comes of a whole run of events: how far it got, or the error that ended it.
pub open spec fn run_of(setup: CameraSetup, events: Seq<SetupEvent>) -> Result<CameraSetup, XrErr>
    decreases events.len(),
{
    if events.len() == 0 {
        Ok(setup)
    } else {
        match run_of(setup, events.drop_last()) {
            Err(e) => Err(e),
            Ok(before) => match event_error(events.last()) {
                Some(e) => Err(e),
                None => Ok(setup_after(before, events.last())),
            },
        }
    }
}

/// The first event that is an error is what the run ends with, whatever might come after it.
pub proof fn law_first_failure_decides(setup: CameraSetup, events: Seq<SetupEvent>, i: int)
    requires
        0 <= i < events.len(),
        event_error(events[i]) is Some,
        forall|j: int| 0 <= j < i ==> event_error(#[trigger] events[j]) is None,
    ensures
        run_of(setup, events) == Err::<CameraSetup, _>(event_error(events[i])->Some_0),
    decreases events.len(),
{
    let short = events.drop_last();
    if i < short.len() {
        assert(short[i] == events[i]);
        assert forall|j: int| 0 <= j < i implies event_error(#[trigger] short[j]) is None by {
            assert(short[j] == events[j]);
        }
        law_first_failure_decides(setup, short, i);
    } else {
        assert forall|j: int| 0 <= j < short.len() implies event_error(#[trigger] short[j])
            is None by {
            assert(short[j] == events[j]);
        }
        lemma_good_events(setup, short);
    }
}

proof fn lemma_good_events(setup: CameraSetup, events: Seq<SetupEvent>)
    requires
        forall|j: int| 0 <= j < events.len() ==> event_error(#[trigger] events[j]) is None,
    ensures
        run_of(setup, events) is Ok,
    decreases events.len(),
{
    if events.len() > 0 {
        let short = events.drop_last();
        assert forall|j: int| 0 <= j < short.len() implies event_error(#[trigger] short[j])
            is None by {
            assert(short[j] == events[j]);
        }
        lemma_good_events(setup, short);
        assert(events.last() == events[events.len() - 1]);
    }
}

/// If everything works, the run ends with all that was made in place, ready to be resumed.
pub proof fn law_good_run_sets_up(
    start: CameraSetup,
    views: Vec<ViewConfig>,
    formats: Vec<u32>,
    camera: u64,
    swapchain: u64,
    images: Vec<u64>,
)
    requires
        start.stage is Views,
    ensures
        ({
            let ok = SetupEvent::Outcome(true);
            let events = seq![
                SetupEvent::Views(Ok(views)),
                ok,
                ok,
                ok,
                ok,
                ok,
                ok,
                SetupEvent::Formats(Ok(formats)),
                SetupEvent::CameraStarted(camera),
                SetupEvent::Swapchain(Ok(swapchain)),
                SetupEvent::Images(Ok(images)),
                ok,
            ];
            run_of(start, events) == Ok::<_, XrErr>(
                CameraSetup {
                    stage: SetupStage::Resume,
                    views,
                    formats,
                    camera,
                    swapchain,
                    images,
                },
            )
        }),
{
    let ok = SetupEvent::Outcome(true);
    let e0 = Seq::<SetupEvent>::empty();
    let e1 = e0.push(SetupEvent::Views(Ok(views)));
    let e2 = e1.push(ok);
    let e3 = e2.push(ok);
    let e4 = e3.push(ok);
    let e5 = e4.push(ok);
    let e6 = e5.push(ok);
    let e7 = e6.push(ok);
    let e8 = e7.push(SetupEvent::Formats(Ok(formats)));
    let e9 = e8.push(SetupEvent::CameraStarted(camera));
    let e10 = e9.push(SetupEvent::Swapchain(Ok(swapchain)));
    let e11 = e10.push(SetupEvent::Images(Ok(images)));
    let e12 = e11.push(ok);
    lemma_run_push(start, e0, SetupEvent::Views(Ok(views)));
    lemma_run_push(start, e1, ok);
    lemma_run_push(start, e2, ok);
    lemma_run_push(start, e3, ok);
    lemma_run_push(start, e4, ok);
    lemma_run_push(start, e5, ok);
    lemma_run_push(start, e6, ok);
    lemma_run_push(start, e7, SetupEvent::Formats(Ok(formats)));
    lemma_run_push(start, e8, SetupEvent::CameraStarted(camera));
    lemma_run_push(start, e9, SetupEvent::Swapchain(Ok(swapchain)));
    lemma_run_push(start, e10, SetupEvent::Images(Ok(images)));
    lemma_run_push(start, e11, ok);
    assert(e12 =~= seq![
        SetupEvent::Views(Ok(views)),
        ok,
        ok,
        ok,
        ok,
        ok,
        ok,
        SetupEvent::Formats(Ok(formats)),
        SetupEvent::CameraStarted(camera),
        SetupEvent::Swapchain(Ok(swapchain)),
        SetupEvent::Images(Ok(images)),
        ok,
    ]);
}

/// One more event of a run that has gone well so far.
proof fn lemma_run_push(setup: CameraSetup, events: Seq<SetupEvent>, event: SetupEvent)
    requires
        run_of(setup, events) is Ok,
        event_error(event) is None,
    ensures
        run_of(setup, events.push(event)) == Ok::<_, XrErr>(
            setup_after(run_of(setup, events)->Ok_0, event),
        ),
{
    assert(events.push(event).drop_last() =~= events);
}

/// The place of a stage in the set up.
pub open spec fn stage_place(stage: SetupStage) -> int {
    match stage {
        SetupStage::Views => 0,
        SetupStage::Directories => 1,
        SetupStage::PipelineCache => 2,
        SetupStage::Pipeline => 3,
        SetupStage::FindCamera => 4,
        SetupStage::OpenCamera => 5,
        SetupStage::Splash => 6,
        SetupStage::Formats => 7,
        SetupStage::StartCamera => 8,
        SetupStage::Swapchain => 9,
        SetupStage::Images => 10,
        SetupStage::WrapImages => 11,
        SetupStage::Resume => 12,
    }
}

/// The event tells of a failure: that something did not work, or an error of the runtime.
pub open spec fn tells_failure(event: SetupEvent) -> bool {
    match event {
        SetupEvent::Outcome(ok) => !ok,
        SetupEvent::Views(r) => r is Err,
        SetupEvent::Formats(r) => r is Err,
        SetupEvent::CameraStarted(_) => false,
        SetupEvent::Swapchain(r) => r is Err,
        SetupEvent::Images(r) => r is Err,
    }
}

/// The set up goes on by one stage exactly if the event tells of no failure, and keeps what the
/// event brings and nothing else. A failure changes nothing; errors of the runtime are passed on,
/// and anything else is a failure of the layer.
pub proof fn law_setup_goes_on_or_fails()
    ensures
        forall|s: &mut CameraSetup, event: SetupEvent, r: SetupAction| #[trigger]
            call_ensures(CameraSetup::step, (s, event), r) ==> {
                let before = *s;
                let after = *final(s);
                &&& tells_failure(event) <==> r is Fail
                &&& tells_failure(event) ==> after == before
                &&& event matches SetupEvent::Outcome(ok) ==> (!ok ==> r == SetupAction::Fail(
                    XrErr { code: -2i32 },
                ))
                &&& event matches SetupEvent::Views(Err(e)) ==> r == SetupAction::Fail(e)
                &&& event matches SetupEvent::Formats(Err(e)) ==> r == SetupAction::Fail(e)
                &&& event matches SetupEvent::Swapchain(Err(e)) ==> r == SetupAction::Fail(e)
                &&& event matches SetupEvent::Images(Err(e)) ==> r == SetupAction::Fail(e)
                &&& !tells_failure(event) ==> {
                    &&& stage_place(after.stage) == (if before.stage is Resume {
                        12
                    } else {
                        stage_place(before.stage) + 1
                    })
                    &&& after.views == (match event {
                        SetupEvent::Views(Ok(v)) => v,
                        _ => before.views,
                    })
                    &&& after.formats == (match event {
                        SetupEvent::Formats(Ok(v)) => v,
                        _ => before.formats,
                    })
                    &&& after.camera == (match event {
                        SetupEvent::CameraStarted(v) => v,
                        _ => before.camera,
                    })
                    &&& after.swapchain == (match event {
                        SetupEvent::Swapchain(Ok(v)) => v,
                        _ => before.swapchain,
                    })
                    &&& after.images == (match event {
                        SetupEvent::Images(Ok(v)) => v,
                        _ => before.images,
                    })
                    &&& r == action_at(after)
                }
            },
{
}

/// What is done at each stage. The swapchain and the images have the first format that there is
/// and a size that is large enough for both views; the camera's images are squares.
pub proof fn law_actions_of_stages(s: &CameraSetup, r: SetupAction)
    requires
        setup_wf(*s),
        call_ensures(CameraSetup::action, (s,), r),
    ensures
        s.stage is Views <==> r is EnumerateViews,
        s.stage is Directories <==> r is FindDirectories,
        s.stage is PipelineCache <==> r is LoadPipelineCache,
        s.stage is Pipeline <==> r is MakePipeline,
        s.stage is FindCamera <==> r is FindCamera,
        s.stage is OpenCamera <==> r is OpenCamera,
        s.stage is Splash <==> r is LoadSplash,
        s.stage is Formats <==> r is EnumerateFormats,
        s.stage is StartCamera <==> r is StartCamera,
        s.stage is Swapchain <==> r is CreateSwapchain,
        s.stage is Images <==> r is EnumerateImages,
        s.stage is WrapImages <==> r is WrapImages,
        s.stage is Resume <==> r is ResumeCamera,
        r == action_at(*s),
        r matches SetupAction::MakePipeline { camera_size, render_size } ==> camera_size.width
            == 960 && camera_size.height == 960 && render_size == common_size(s.views@),
        r matches SetupAction::CreateSwapchain { format, sample_count, size } ==> format
            == s.formats@[0] && sample_count == s.views@[0].sample_count && size == common_size(
            s.views@,
        ),
        r matches SetupAction::WrapImages { format, size } ==> format == s.formats@[0] && size
            == common_size(s.views@),
{
}

/// The common size is the least that is large enough for both views, in width and in height.
pub proof fn law_common_size_fits_both(views: Seq<ViewConfig>)
    requires
        views.len() >= 2,
    ensures
        ({
            let size = common_size(views);
            &&& size.width >= views[0].size.width && size.width >= views[1].size.width
            &&& size.height >= views[0].size.height && size.height >= views[1].size.height
            &&& size.width == views[0].size.width || size.width == views[1].size.width
            &&& size.height == views[0].size.height || size.height == views[1].size.height
        }),
{
}

/// Each stage takes the event that comes of what is done there, be it good or bad, and no other.
pub proof fn law_stages_take_their_events(stage: SetupStage, event: SetupEvent)
    ensures
        event_fits(stage, event) <==> match stage {
            SetupStage::Views => event is Views,
            SetupStage::Directories => event is Outcome,
            SetupStage::PipelineCache => event is Outcome,
            SetupStage::Pipeline => event is Outcome,
            SetupStage::FindCamera => event is Outcome,
            SetupStage::OpenCamera => event is Outcome,
            SetupStage::Splash => event is Outcome,
            SetupStage::Formats => event is Formats,
            SetupStage::StartCamera => event is CameraStarted,
            SetupStage::Swapchain => event is Swapchain,
            SetupStage::Images => event is Images,
            SetupStage::WrapImages => event is Outcome,
            SetupStage::Resume => false,
        },
        event_error(event) is Some <==> tells_failure(event),
        past_cache(stage) <==> stage_place(stage) > 2,
        past_formats(stage) <==> stage_place(stage) > 7,
{
}

/// The set up starts with nothing, and gives all that was set up.
pub proof fn law_setup_starts_and_finishes(a: CameraSetup, s: CameraSetup, r: CameraResources)
    requires
        setup_wf(s),
        s.stage is Resume,
        call_ensures(CameraSetup::start, (), a),
        call_ensures(CameraSetup::finish, (s,), r),
    ensures
        a.stage is Views,
        a.views@.len() == 0 && a.formats@.len() == 0 && a.images@.len() == 0,
        r.swapchain == s.swapchain,
        r.images@ == s.images@,
        r.camera == s.camera,
        r.size == common_size(s.views@),
{
}

/// The size of the swapchain is the views' common size.
pub proof fn law_size_is_common(s: &CameraSetup, r: Size)
    requires
        s.views@.len() >= 2,
        call_ensures(CameraSetup::size, (s,), r),
    ensures
        r == common_size(s.views@),
{
}

} // verus!
