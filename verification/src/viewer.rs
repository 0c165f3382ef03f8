//! A window that shows the camera.

use crate::lists::has_i32;
use vstd::prelude::*;

verus! {

/// The formats that the window's images may have, the best first, by the numbers that Vulkan
/// gives them: blue, green and red; red, green and blue; and both with alpha.
pub open spec fn preferred_formats() -> Seq<i32> {
    seq![30, 23, 44, 37]
}

/// `i` is the place of the best format that is available.
pub open spec fn best_format(available: Seq<i32>, i: int) -> bool {
    &&& 0 <= i < preferred_formats().len()
    &&& available.contains(preferred_formats()[i])
    &&& forall|j: int| 0 <= j < i ==> !available.contains(#[trigger] preferred_formats()[j])
}

/// None of the formats is available.
pub open spec fn none_available(available: Seq<i32>) -> bool {
    forall|i: int|
        0 <= i < preferred_formats().len() ==> !available.contains(
            #[trigger] preferred_formats()[i],
        )
}

/// The format of the window's images: the best that is available.
pub fn choose_format(available: &[i32]) -> (r: Option<i32>)
    ensures
        match r {
            Some(format) => exists|i: int| #[trigger]
                best_format(available@, i) && format == preferred_formats()[i],
            None => none_available(available@),
        },
{
    let formats: [i32; 4] = [30, 23, 44, 37];
    assert(formats@ =~= preferred_formats());
    let mut i: usize = 0;
    while i < 4
        invariant
            i <= 4,
            formats@ == preferred_formats(),
            forall|j: int|
                0 <= j < i ==> !available@.contains(#[trigger] preferred_formats()[j]),
        decreases 4 - i,
    {
        if has_i32(available, formats[i]) {
            assert(best_format(available@, i as int));
            return Some(formats[i]);
        }
        i += 1;
    }
    None
}

/// How many images the window has: at least two, so that one can be drawn while one is shown.
pub fn image_count(least: u32) -> (r: u32)
    ensures
        r == (if least < 2 {
            2
        } else {
            least
        }),
{
    if least < 2 {
        2
    } else {
        least
    }
}

/// What comes of acquiring an image of the window.
#[derive(Debug, Clone, Copy, PartialEq, Eq, Structural)]
pub enum Acquired {
    /// The image with this number.
    Image(u32),
    /// An image that does not match the window any more.
    Suboptimal(u32),
    OutOfDate,
    Failed,
}

/// What is done next to redraw the window.
#[derive(Debug, Clone, Copy, PartialEq, Eq, Structural)]
pub enum RedrawStep {
    /// There is no window.
    Nothing,
    Acquire,
    /// Make the images anew and try again. If an image was acquired, the next frame waits for it.
    Recreate { wait_for_acquired: bool },
    /// Draw to the image, and present it.
    Draw { image: u32 },
    Fail,
}

/// The window is to be redrawn.
pub fn redraw(has_window: bool) -> (r: RedrawStep)
    ensures
        r == (if has_window {
            RedrawStep::Acquire
        } else {
            RedrawStep::Nothing
        }),
{
    if has_window {
        RedrawStep::Acquire
    } else {
        RedrawStep::Nothing
    }
}

/// An image of the window was acquired, or not.
pub fn image_acquired(acquired: Acquired) -> (r: RedrawStep)
    ensures
        r == (match acquired {
            Acquired::Image(image) => RedrawStep::Draw { image },
            Acquired::Suboptimal(_) => RedrawStep::Recreate { wait_for_acquired: true },
            Acquired::OutOfDate => RedrawStep::Recreate { wait_for_acquired: false },
            Acquired::Failed => RedrawStep::Fail,
        }),
{
    match acquired {
        Acquired::Image(image) => RedrawStep::Draw { image },
        Acquired::Suboptimal(_) => RedrawStep::Recreate { wait_for_acquired: true },
        Acquired::OutOfDate => RedrawStep::Recreate { wait_for_acquired: false },
        Acquired::Failed => RedrawStep::Fail,
    }
}

/// The images of the window were made anew, or could not be.
pub fn recreated(ok: bool) -> (r: RedrawStep)
    ensures
        r == (if ok {
            RedrawStep::Acquire
        } else {
            RedrawStep::Fail
        }),
{
    if ok {
        RedrawStep::Acquire
    } else {
        RedrawStep::Fail
    }
}

/// An event of the window.
#[derive(Debug, Clone, Copy, PartialEq, Eq, Structural)]
pub enum ViewerEvent {
    /// The program can show a window: whether it was made, and whether it was set up.
    Resumed { window: bool, set_up: bool },
    AboutToWait { has_window: bool },
    CloseRequested,
    /// The window was redrawn, or could not be.
    Redrawn { ok: bool },
    /// The user interrupted the program.
    Interrupted,
    Other,
}

/// What is done on an event of the window.
#[derive(Debug, Clone, Copy, PartialEq, Eq, Structural)]
pub enum ViewerAction {
    Nothing,
    Exit,
    /// Start the camera, and redraw.
    StartCamera,
    RequestRedraw,
}

/// What is done on an event of the window.
pub fn on_viewer_event(event: ViewerEvent) -> (r: ViewerAction)
    ensures
        r == (match event {
            ViewerEvent::Resumed { window, set_up } => if window && set_up {
                ViewerAction::StartCamera
            } else {
                ViewerAction::Exit
            },
            ViewerEvent::AboutToWait { has_window } => if has_window {
                ViewerAction::RequestRedraw
            } else {
                ViewerAction::Nothing
            },
            ViewerEvent::CloseRequested => ViewerAction::Exit,
            ViewerEvent::Redrawn { ok } => if ok {
                ViewerAction::Nothing
            } else {
                ViewerAction::Exit
            },
            ViewerEvent::Interrupted => ViewerAction::Exit,
            ViewerEvent::Other => ViewerAction::Nothing,
        }),
{
    match event {
        ViewerEvent::Resumed { window, set_up } => if window && set_up {
            ViewerAction::StartCamera
        } else {
            ViewerAction::Exit
        },
        ViewerEvent::AboutToWait { has_window } => if has_window {
            ViewerAction::RequestRedraw
        } else {
            ViewerAction::Nothing
        },
        ViewerEvent::CloseRequested => ViewerAction::Exit,
        ViewerEvent::Redrawn { ok } => if ok {
            ViewerAction::Nothing
        } else {
            ViewerAction::Exit
        },
        ViewerEvent::Interrupted => ViewerAction::Exit,
        ViewerEvent::Other => ViewerAction::Nothing,
    }
}

/// The window's images have the best format that is available: of 30, 23, 44 and 37, the first.
/// Without any of them there is none.
pub proof fn law_best_format_is_chosen(available: &[i32], r: Option<i32>)
    requires
        call_ensures(choose_format, (available,), r),
    ensures
        r matches Some(f) ==> available@.contains(f),
        available@.contains(30) ==> r == Some(30i32),
        !available@.contains(30) && available@.contains(23) ==> r == Some(23i32),
        !available@.contains(30) && !available@.contains(23) && available@.contains(44) ==> r
            == Some(44i32),
        !available@.contains(30) && !available@.contains(23) && !available@.contains(44)
            && available@.contains(37) ==> r == Some(37i32),
        r is None <==> !available@.contains(30) && !available@.contains(23)
            && !available@.contains(44) && !available@.contains(37),
{
    let p = preferred_formats();
    assert(p[0] == 30 && p[1] == 23 && p[2] == 44 && p[3] == 37 && p.len() == 4);
    assert(none_available(available@) ==> !available@.contains(p[0]) && !available@.contains(p[1])
        && !available@.contains(p[2]) && !available@.contains(p[3]));
}

/// There are at least two images, and at least as many as the device wants.
pub proof fn law_enough_images(least: u32, r: u32)
    requires
        call_ensures(image_count, (least,), r),
    ensures
        r >= 2 && r >= least,
        r == 2 || r == least,
{
}

/// The window is redrawn only if there is one. An image that fits is drawn to; after one that
/// does not fit, the next frame waits for it; and after a failure nothing is drawn.
pub proof fn law_window_is_redrawn(
    has_window: bool,
    first: RedrawStep,
    acquired: Acquired,
    second: RedrawStep,
    ok: bool,
    third: RedrawStep,
)
    requires
        call_ensures(redraw, (has_window,), first),
        call_ensures(image_acquired, (acquired,), second),
        call_ensures(recreated, (ok,), third),
    ensures
        has_window <==> first is Acquire,
        !has_window <==> first is Nothing,
        acquired is Image <==> second is Draw,
        acquired is Image ==> second->image == acquired->Image_0,
        acquired is Suboptimal || acquired is OutOfDate <==> second is Recreate,
        second is Recreate ==> (second->wait_for_acquired <==> acquired is Suboptimal),
        acquired is Failed <==> second is Fail,
        ok <==> third is Acquire,
        !ok <==> third is Fail,
{
}

/// The program goes on exactly as long as there is a window, it can be redrawn, and nobody asks
/// to close it.
pub proof fn law_viewer_events(event: ViewerEvent, r: ViewerAction)
    requires
        call_ensures(on_viewer_event, (event,), r),
    ensures
        r is Exit <==> event is CloseRequested || event is Interrupted || (event is Redrawn
            && !event->ok) || (event is Resumed && !(event->window && event->set_up)),
        r is StartCamera <==> event is Resumed && event->window && event->set_up,
        r is RequestRedraw <==> event is AboutToWait && event->has_window,
{
}

} // verus!
