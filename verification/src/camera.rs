//! The camera: what its thread does on each command and with each frame.

use crate::geometry::Size;
use crate::text::copy_bytes;
use smallvec::SmallVec;
use vstd::prelude::*;

verus! {

/// A command to the camera's thread.
#[derive(Debug, Clone, Copy, PartialEq, Eq, Structural)]
pub enum Control {
    /// Capture no frames, but keep the camera open.
    Pause,
    /// Capture again.
    Resume,
    Exit,
}

/// A frame of the camera. Times are nanoseconds since some moment.
#[derive(Debug)]
pub struct FrameInfo {
    pub frame: Vec<u8>,
    pub frame_time: u64,
    pub needs_postprocess: bool,
    /// The size of one eye's half.
    pub size: Size,
}

/// What a PNG file decodes to: width, height, and four bytes for each pixel.
pub uninterp spec fn png_pixels(png: Seq<u8>) -> Option<(u32, u32, Seq<u8>)>;

/// An image in memory: four bytes for each pixel.
#[derive(Debug)]
pub struct Pixels {
    pub width: u32,
    pub height: u32,
    pub rgba: Vec<u8>,
}

/// The contents of an image that may be missing.
pub open spec fn opt_pixels(p: Option<Pixels>) -> Option<(u32, u32, Seq<u8>)> {
    match p {
        Some(p) => Some((p.width, p.height, p.rgba@)),
        None => None,
    }
}

/// `image::load_from_memory_with_format` for PNG, and the conversion of its result by
/// `into_rgba8`; `None` if the file cannot be decoded. How PNG is decoded is not said here.
#[verifier::external_body]
fn decode_png(png: &[u8]) -> (r: Option<Pixels>)
    ensures
        opt_pixels(r) == png_pixels(png@),
{
    let img = image::load_from_memory_with_format(png, image::ImageFormat::Png).ok()?.into_rgba8();
    Some(Pixels { width: img.width(), height: img.height(), rgba: img.into_raw() })
}

/// The frame that is shown before the camera's first: an image of both eyes side by side, which
/// is shown as it is.
pub fn splash_frame(pixels: Pixels, now: u64) -> (r: FrameInfo)
    requires
        pixels.width % 2 == 0,
    ensures
        r.frame == pixels.rgba,
        r.frame_time == now,
        !r.needs_postprocess,
        r.size == (Size { width: pixels.width / 2, height: pixels.height }),
{
    FrameInfo {
        frame: pixels.rgba,
        frame_time: now,
        needs_postprocess: false,
        size: Size::new(pixels.width / 2, pixels.height),
    }
}

/// The frame that is shown before the camera's first, from a PNG file; `None` if the file cannot
/// be decoded, or cannot be split into two halves.
pub fn load_splash(png: &[u8], now: u64) -> (r: Option<FrameInfo>)
    ensures
        match png_pixels(png@) {
            Some((width, height, rgba)) if width % 2 == 0 => r matches Some(f) && {
                &&& f.frame@ == rgba
                &&& f.frame_time == now
                &&& !f.needs_postprocess
                &&& f.size == (Size { width: width / 2, height })
            },
            _ => r is None,
        },
{
    match decode_png(png) {
        Some(pixels) => if pixels.width % 2 == 0 {
            Some(splash_frame(pixels, now))
        } else {
            None
        },
        None => None,
    }
}

/// Whether the camera's thread starts to capture at all: `None` is a command that never comes,
/// since nobody is left to give it. The thread cannot be paused before it was resumed.
pub fn starts_capture(command: Option<Control>) -> (r: bool)
    requires
        command != Some(Control::Pause),
    ensures
        r == (command == Some(Control::Resume)),
{
    match command {
        Some(Control::Resume) => true,
        _ => false,
    }
}

/// What is found when the camera's thread looks for a command.
#[derive(Debug, Clone, Copy, PartialEq, Eq, Structural)]
pub enum Polled {
    Nothing,
    /// Nobody is left to give commands.
    Disconnected,
    Command(Control),
}

/// What the camera's thread does next.
#[derive(Debug, Clone, Copy, PartialEq, Eq, Structural)]
pub enum CaptureStep {
    /// Capture a frame.
    Capture,
    /// Wait for the next command.
    WaitForCommand,
    Stop,
}

/// What the camera's thread does before each frame. A thread that captures cannot be resumed.
pub fn poll_command(polled: Polled) -> (r: CaptureStep)
    requires
        polled != Polled::Command(Control::Resume),
    ensures
        r == (match polled {
            Polled::Nothing => CaptureStep::Capture,
            Polled::Command(Control::Pause) => CaptureStep::WaitForCommand,
            _ => CaptureStep::Stop,
        }),
{
    match polled {
        Polled::Nothing => CaptureStep::Capture,
        Polled::Command(Control::Pause) => CaptureStep::WaitForCommand,
        _ => CaptureStep::Stop,
    }
}

/// What a paused thread does on the next command, which can only be to resume. `None` is a
/// command that never comes.
pub fn after_pause(command: Option<Control>) -> (r: CaptureStep)
    requires
        command matches Some(c) ==> c == Control::Resume,
    ensures
        r == (if command is Some {
            CaptureStep::Capture
        } else {
            CaptureStep::Stop
        }),
{
    match command {
        Some(_) => CaptureStep::Capture,
        None => CaptureStep::Stop,
    }
}

/// Why the camera cannot be captured from.
#[derive(Debug, Clone, Copy, PartialEq, Eq, Structural)]
pub enum CameraError {
    /// The image cannot be split into two halves.
    OddWidth,
}

/// The format of the camera's images.
#[derive(Debug, Clone, Copy, PartialEq, Eq, Structural)]
pub struct CameraFormat {
    pub width: u32,
    pub height: u32,
}

/// The camera's images can be split into two halves.
pub open spec fn accepted(format: CameraFormat) -> bool {
    format.width % 2 == 0
}

pub fn check_format(format: &CameraFormat) -> (r: Result<(), CameraError>)
    ensures
        r == (if accepted(*format) {
            Ok::<(), CameraError>(())
        } else {
            Err(CameraError::OddWidth)
        }),
{
    if format.width % 2 != 0 {
        Err(CameraError::OddWidth)
    } else {
        Ok(())
    }
}

/// Frames that may be used again, by number.
#[verifier::external_body]
pub struct FrameSlots {
    slots: SmallVec<[u64; 2]>,
}

/// The frames in the order in which the slots hold them.
pub uninterp spec fn slots_of(slots: FrameSlots) -> Seq<u64>;

/// `SmallVec::new`: no frames.
#[verifier::external_body]
fn slots_new() -> (r: FrameSlots)
    ensures
        slots_of(r) == Seq::<u64>::empty(),
{
    FrameSlots { slots: SmallVec::new() }
}

/// `SmallVec::len`: the number of frames.
#[verifier::external_body]
fn slots_len(slots: &FrameSlots) -> (r: usize)
    ensures
        r == slots_of(*slots).len(),
{
    slots.slots.len()
}

/// Indexing a `SmallVec`: the frame at place `i`.
#[verifier::external_body]
fn slots_get(slots: &FrameSlots, i: usize) -> (r: u64)
    requires
        i < slots_of(*slots).len(),
    ensures
        r == slots_of(*slots)[i as int],
{
    slots.slots[i]
}

/// `SmallVec::push`: puts a frame behind the others.
#[verifier::external_body]
fn slots_push(slots: &mut FrameSlots, frame: u64)
    ensures
        slots_of(*final(slots)) == slots_of(*old(slots)).push(frame),
{
    slots.slots.push(frame)
}

/// `SmallVec::swap_remove`: takes the frame at place `i` out, and puts the last one there.
#[verifier::external_body]
fn slots_swap_remove(slots: &mut FrameSlots, i: usize) -> (r: u64)
    requires
        i < slots_of(*old(slots)).len(),
    ensures
        r == slots_of(*old(slots))[i as int],
        slots_of(*final(slots)) == slots_of(*old(slots)).update(
            i as int,
            slots_of(*old(slots)).last(),
        ).drop_last(),
{
    slots.slots.swap_remove(i)
}

/// How many frames are kept to be used again.
pub const MAX_POOL_SIZE: usize = 2;

/// What the camera's thread knows between two frames.
pub struct Capture {
    /// Frames that may be used again.
    pub pool: FrameSlots,
    /// The camera's clock and ours at the first frame.
    pub first_frame_time: Option<(u64, u64)>,
    /// Whether the splash image is still shown.
    pub is_splash: bool,
    /// The number of the frame that is shown.
    pub shown: u64,
}

/// The place of the first frame that nobody uses.
pub open spec fn first_free(free: Seq<bool>, n: int) -> bool {
    0 <= n < free.len() && free[n] && forall|j: int| 0 <= j < n ==> !free[j]
}

/// The pool without the frame at place `n`, whose place the last one takes.
pub open spec fn taken_out(pool: Seq<u64>, n: int) -> Seq<u64> {
    pool.update(n, pool.last()).drop_last()
}

/// `r` is the first frame of `before` that nobody uses, taken out; if there is none, nothing
/// changes.
pub open spec fn took_free(
    before: Seq<u64>,
    after: Seq<u64>,
    free: Seq<bool>,
    r: Option<u64>,
) -> bool {
    match r {
        Some(frame) => exists|n: int| #[trigger]
            first_free(free, n) && frame == before[n] && after == taken_out(before, n),
        None => !free.contains(true) && after == before,
    }
}

impl Capture {
    /// The frames that may be used again.
    pub open spec fn pool(self) -> Seq<u64> {
        slots_of(self.pool)
    }

    /// There are not too many frames in the pool, none is there twice, and the one that is shown
    /// is not there.
    pub open spec fn wf(self) -> bool {
        &&& self.pool().len() <= MAX_POOL_SIZE
        &&& self.pool().no_duplicates()
        &&& !self.pool().contains(self.shown)
    }

    /// The splash image is shown.
    pub fn new(splash: u64) -> (r: Capture)
        ensures
            r.wf(),
            r.pool() == Seq::<u64>::empty(),
            r.first_frame_time is None,
            r.is_splash,
            r.shown == splash,
    {
        Capture { pool: slots_new(), first_frame_time: None, is_splash: true, shown: splash }
    }

    /// The frame at place `i` of the pool.
    pub fn pooled(&self, i: usize) -> (r: Option<u64>)
        ensures
            r == (if i < self.pool().len() {
                Some(self.pool()[i as int])
            } else {
                None
            }),
    {
        if i < slots_len(&self.pool) {
            Some(slots_get(&self.pool, i))
        } else {
            None
        }
    }

    /// When a frame was captured by our clock: the first is captured `now`, and the others as
    /// long after it as the camera's clock says.
    pub fn frame_time(&mut self, timestamp: u64, now: u64) -> (r: u64)
        requires
            old(self).first_frame_time matches Some((camera, ours)) ==> camera <= timestamp && ours
                + (timestamp - camera) <= u64::MAX,
        ensures
            final(self).pool() == old(self).pool(),
            final(self).is_splash == old(self).is_splash,
            final(self).shown == old(self).shown,
            match old(self).first_frame_time {
                Some((camera, ours)) => r == ours + (timestamp - camera) && final(self).first_frame_time == old(self).first_frame_time,
                None => r == now && final(self).first_frame_time == Some((timestamp, now)),
            },
    {
        match self.first_frame_time {
            Some((camera, ours)) => ours + (timestamp - camera),
            None => {
                self.first_frame_time = Some((timestamp, now));
                now
            },
        }
    }

    /// Takes the first frame out of the pool that nobody uses; `free` says which those are.
    pub fn find_free(&mut self, free: &[bool]) -> (r: Option<u64>)
        requires
            old(self).wf(),
            free@.len() == old(self).pool().len(),
        ensures
            final(self).wf(),
            final(self).first_frame_time == old(self).first_frame_time,
            final(self).is_splash == old(self).is_splash,
            final(self).shown == old(self).shown,
            took_free(old(self).pool(), final(self).pool(), free@, r),
    {
        let mut i: usize = 0;
        while i < free.len() && !free[i]
            invariant
                i <= free.len(),
                forall|j: int| 0 <= j < i ==> !free@[j],
            decreases free.len() - i,
        {
            i += 1;
        }
        if i == free.len() {
            return None;
        }
        let ghost before = self.pool();
        let frame = slots_swap_remove(&mut self.pool, i);
        proof {
            let after = self.pool();
            assert(after =~= taken_out(before, i as int));
            assert(first_free(free@, i as int));
            assert forall|a: int, b: int| 0 <= a < b < after.len() implies after[a]
                != after[b] by {}
            assert forall|x: u64| after.contains(x) implies before.contains(x) by {
                let k = choose|k: int| 0 <= k < after.len() && after[k] == x;
                if k == i {
                    assert(before[before.len() - 1] == x);
                } else {
                    assert(before[k] == x);
                }
            }
        }
        Some(frame)
    }

    /// Shows `frame`. The frame that was shown goes to the pool if there is room; the splash image
    /// does not, since it need not be as large as a frame. Gives back whether it went there.
    pub fn show(&mut self, frame: u64) -> (r: bool)
        requires
            old(self).wf(),
            !old(self).pool().contains(frame),
            frame != old(self).shown,
        ensures
            final(self).wf(),
            final(self).first_frame_time == old(self).first_frame_time,
            final(self).shown == frame,
            !final(self).is_splash,
            r == (!old(self).is_splash && old(self).pool().len() < MAX_POOL_SIZE),
            final(self).pool() == (if r {
                old(self).pool().push(old(self).shown)
            } else {
                old(self).pool()
            }),
    {
        let ghost before = self.pool();
        let last: u64 = self.shown;
        self.shown = frame;
        let keep: bool = !self.is_splash && slots_len(&self.pool) < MAX_POOL_SIZE;
        if keep {
            slots_push(&mut self.pool, last);
            proof {
                let after = self.pool();
                assert(after == before.push(last));
                assert forall|x: u64| after.contains(x) implies before.contains(x) || x == last by {
                    let k = choose|k: int| 0 <= k < after.len() && after[k] == x;
                    if k < before.len() {
                        assert(before[k] == x);
                    }
                }
                assert forall|a: int, b: int| 0 <= a < b < after.len() implies after[a]
                    != after[b] by {
                    if b == before.len() {
                        assert(before.contains(before[a]));
                    }
                }
            }
        }
        self.is_splash = false;
        keep
    }
}

/// What happens with a captured image.
#[derive(Debug, Clone, Copy, PartialEq, Eq, Structural)]
pub struct Captured {
    /// The frame that the image goes to, and that is shown from now on.
    pub frame: u64,
    /// Whether that frame was used before. If not, it is new.
    pub reused: bool,
    /// When the image was captured.
    pub frame_time: u64,
    /// Whether the frame that was shown is kept to be used again.
    pub kept: bool,
}

/// The pool after a captured image was put into the frame from place `taken`, or else into a new
/// one, and the frame that was shown went to the pool.
pub open spec fn pool_after(before: Capture, taken: Option<int>) -> Seq<u64> {
    let left = match taken {
        Some(n) => taken_out(before.pool(), n),
        None => before.pool(),
    };
    if !before.is_splash && left.len() < MAX_POOL_SIZE {
        left.push(before.shown)
    } else {
        left
    }
}

/// An image took the thread from `before` to `after`: it went to the first frame of the pool that
/// nobody uses, or else to a new frame, with the number `fresh`, and that frame is shown.
pub open spec fn advanced(
    before: Capture,
    after: Capture,
    free: Seq<bool>,
    fresh: u64,
    r: Captured,
) -> bool {
    &&& after.shown == r.frame
    &&& !after.is_splash
    &&& r.reused == free.contains(true)
    &&& r.reused ==> exists|n: int| #[trigger]
        first_free(free, n) && r.frame == before.pool()[n] && after.pool() == pool_after(
            before,
            Some(n),
        )
    &&& !r.reused ==> r.frame == fresh && after.pool() == pool_after(before, None)
    &&& r.kept <==> after.pool().contains(before.shown)
}

impl Capture {
    /// An image was captured, at `timestamp` by the camera's clock and `now` by ours. It goes to
    /// a frame of the pool that nobody uses, or else to a new frame, with the number `fresh`.
    pub fn captured(&mut self, timestamp: u64, now: u64, free: &[bool], fresh: u64) -> (r: Captured)
        requires
            old(self).wf(),
            free@.len() == old(self).pool().len(),
            !old(self).pool().contains(fresh),
            fresh != old(self).shown,
            old(self).first_frame_time matches Some((camera, ours)) ==> camera <= timestamp && ours
                + (timestamp - camera) <= u64::MAX,
        ensures
            final(self).wf(),
            match old(self).first_frame_time {
                Some((camera, ours)) => r.frame_time == ours + (timestamp - camera) && final(self).first_frame_time == old(self).first_frame_time,
                None => r.frame_time == now && final(self).first_frame_time == Some(
                    (timestamp, now),
                ),
            },
            advanced(*old(self), *final(self), free@, fresh, r),
    {
        let ghost start = *self;
        let frame_time = self.frame_time(timestamp, now);
        let taken = self.find_free(free);
        let ghost middle = *self;
        match taken {
            Some(frame) => {
                let ghost n = choose|n: int| #[trigger]
                    first_free(free@, n) && frame == start.pool()[n] && middle.pool() == taken_out(
                        start.pool(),
                        n,
                    );
                proof {
                    assert(free@[n]);
                    law_free_frame_is_not_shown(start, frame, n);
                }
                let kept = self.show(frame);
                proof {
                    assert(self.pool() == pool_after(start, Some(n)));
                    lemma_kept(middle, *self, kept);
                }
                Captured { frame, reused: true, frame_time, kept }
            },
            None => {
                let kept = self.show(fresh);
                proof {
                    lemma_kept(middle, *self, kept);
                }
                Captured { frame: fresh, reused: false, frame_time, kept }
            },
        }
    }
}

/// The frame that was shown is in the pool exactly if it was put there.
proof fn lemma_kept(before: Capture, after: Capture, kept: bool)
    requires
        before.wf(),
        after.pool() == (if kept {
            before.pool().push(before.shown)
        } else {
            before.pool()
        }),
    ensures
        kept <==> after.pool().contains(before.shown),
{
    if kept {
        assert(after.pool()[before.pool().len() as int] == before.shown);
    }
}

impl FrameInfo {
    /// Puts a newly captured image into a frame that was used before, which has room for exactly
    /// as many bytes.
    pub fn reuse(&mut self, data: &[u8], frame_time: u64)
        requires
            old(self).frame@.len() == data@.len(),
        ensures
            final(self).frame@ == data@,
            final(self).frame_time == frame_time,
            final(self).needs_postprocess,
            final(self).size == old(self).size,
    {
        let mut i: usize = 0;
        while i < data.len()
            invariant
                i <= data.len(),
                self.frame@.len() == data@.len(),
                self.size == old(self).size,
                forall|j: int| 0 <= j < i ==> self.frame@[j] == data@[j],
            decreases data.len() - i,
        {
            self.frame.set(i, data[i]);
            i += 1;
        }
        assert(self.frame@ =~= data@);
        self.frame_time = frame_time;
        self.needs_postprocess = true;
    }

    /// A new frame for a captured image.
    pub fn fresh(data: &[u8], now: u64, format: &CameraFormat) -> (r: FrameInfo)
        ensures
            r.frame@ == data@,
            r.frame_time == now,
            r.needs_postprocess,
            r.size == (Size { width: format.width / 2, height: format.height }),
    {
        FrameInfo {
            frame: copy_bytes(data),
            frame_time: now,
            needs_postprocess: true,
            size: Size::new(format.width / 2, format.height),
        }
    }
}

/// The thread and all frames that there ever were, by number.
pub struct Footage {
    pub capture: Capture,
    pub frames: Map<u64, FrameInfo>,
}

/// An image that was captured: its bytes, which frames of the pool nobody used, the number for a
/// new frame, and what happened.
pub struct Shot {
    pub image: Seq<u8>,
    pub free: Seq<bool>,
    pub fresh: u64,
    pub taken: Captured,
}

/// A frame for images of the camera, which fill `n` bytes.
pub open spec fn holds_image(frame: FrameInfo, n: nat, format: CameraFormat) -> bool {
    &&& frame.frame@.len() == n
    &&& frame.needs_postprocess
    &&& frame.size == (Size { width: format.width / 2, height: format.height })
}

/// A shot leads from `before` to `after`. Nothing is captured in a format that `check_format`
/// refuses. The image is put into a frame that was used before, as
/// `FrameInfo::reuse` does, or into a new one that `FrameInfo::fresh` makes, whose number no
/// frame had. All other frames stay as they are.
pub open spec fn films(before: Footage, after: Footage, shot: Shot, format: CameraFormat) -> bool {
    let frame = shot.taken.frame;
    let info = after.frames[frame];
    &&& accepted(format)
    &&& shot.free.len() == before.capture.pool().len()
    &&& !before.frames.contains_key(shot.fresh)
    &&& advanced(before.capture, after.capture, shot.free, shot.fresh, shot.taken)
    &&& after.capture.wf()
    &&& after.frames == before.frames.insert(frame, info)
    &&& info.frame@ == shot.image
    &&& info.needs_postprocess
    &&& info.size == (if shot.taken.reused {
        before.frames[frame].size
    } else {
        Size { width: format.width / 2, height: format.height }
    })
}

/// The thread as it starts, with the splash image and no other frame.
pub open spec fn starts_with(start: Footage, splash: u64) -> bool {
    &&& start.capture.wf()
    &&& start.capture.pool() == Seq::<u64>::empty()
    &&& start.capture.is_splash
    &&& start.capture.shown == splash
    &&& start.frames.dom() == set![splash]
}

/// The thread went through all of `run`, by one shot after the other, each of `n` bytes.
pub open spec fn filmed(run: Seq<Footage>, shots: Seq<Shot>, n: nat, format: CameraFormat) -> bool {
    &&& run.len() == shots.len() + 1
    &&& forall|i: int|
        0 <= i < shots.len() ==> films(run[i], run[i + 1], #[trigger] shots[i], format)
            && shots[i].image.len() == n
}

/// What holds while the camera's thread runs: the splash image is as it was at the start and is
/// not in the pool, and every frame in the pool has exactly the room that an image needs. So does
/// the frame that is shown, unless that is still the splash image.
pub open spec fn on_air(
    now: Footage,
    splash: u64,
    image: FrameInfo,
    n: nat,
    format: CameraFormat,
) -> bool {
    let c = now.capture;
    &&& c.wf()
    &&& now.frames.contains_key(splash)
    &&& now.frames[splash] == image
    &&& now.frames.contains_key(c.shown)
    &&& c.is_splash <==> c.shown == splash
    &&& !c.is_splash ==> holds_image(now.frames[c.shown], n, format)
    &&& !c.pool().contains(splash)
    &&& forall|p: u64| #[trigger]
        c.pool().contains(p) ==> now.frames.contains_key(p) && holds_image(
            now.frames[p],
            n,
            format,
        )
}

/// What is in the pool after a shot was in the pool before, or was shown and is no splash image.
proof fn lemma_pool_after_holds(before: Capture, taken: Option<int>, p: u64)
    requires
        taken matches Some(n) ==> 0 <= n < before.pool().len(),
        pool_after(before, taken).contains(p),
    ensures
        before.pool().contains(p) || (p == before.shown && !before.is_splash),
{
    let pool = before.pool();
    let left = match taken {
        Some(n) => taken_out(pool, n),
        None => pool,
    };
    let after = pool_after(before, taken);
    let k = choose|k: int| 0 <= k < after.len() && after[k] == p;
    if k < left.len() {
        assert(left[k] == p);
        match taken {
            Some(n) => {
                if k == n {
                    assert(pool[pool.len() - 1] == p);
                } else {
                    assert(pool[k] == p);
                }
            },
            None => {},
        }
    }
}

proof fn lemma_shot_stays_on_air(
    before: Footage,
    after: Footage,
    shot: Shot,
    splash: u64,
    image: FrameInfo,
    n: nat,
    format: CameraFormat,
)
    requires
        on_air(before, splash, image, n, format),
        films(before, after, shot, format),
        shot.image.len() == n,
    ensures
        on_air(after, splash, image, n, format),
{
    let frame = shot.taken.frame;
    let taken: Option<int> = if shot.taken.reused {
        let i = choose|i: int| #[trigger]
            first_free(shot.free, i) && frame == before.capture.pool()[i] && after.capture.pool()
                == pool_after(before.capture, Some(i));
        assert(before.capture.pool().contains(frame));
        Some(i)
    } else {
        None
    };
    assert forall|p: u64| #[trigger] after.capture.pool().contains(p) implies p != splash
        && after.frames.contains_key(p) && holds_image(after.frames[p], n, format) by {
        lemma_pool_after_holds(before.capture, taken, p);
    }
}

/// Over any run of the camera's thread, the splash image is never put into the pool and never
/// written to. Every frame in the pool has exactly the room that an image needs, so an image can
/// always be put into one. Once an image was captured, the frame that is shown holds the latest
/// one, and is of the size of the camera's format. In a format that is refused none is captured,
/// and the splash image stays.
pub proof fn law_splash_is_never_used_again(
    run: Seq<Footage>,
    shots: Seq<Shot>,
    splash: u64,
    n: nat,
    format: CameraFormat,
    i: int,
)
    requires
        filmed(run, shots, n, format),
        starts_with(run[0], splash),
        0 <= i < run.len(),
    ensures
        on_air(run[i], splash, run[0].frames[splash], n, format),
        i == 0 <==> run[i].capture.is_splash,
        i > 0 ==> run[i].frames[run[i].capture.shown].frame@ == shots[i - 1].image,
        !accepted(format) ==> run[i].capture.shown == splash,
    decreases i,
{
    if i > 0 {
        law_splash_is_never_used_again(run, shots, splash, n, format, i - 1);
        let shot = shots[i - 1];
        assert(films(run[i - 1], run[i - 1 + 1], shot, format));
        lemma_shot_stays_on_air(
            run[i - 1],
            run[i],
            shot,
            splash,
            run[0].frames[splash],
            n,
            format,
        );
    } else {
        assert(run[0].frames.dom().contains(splash));
    }
}

/// No image is put into a frame that is shown or that somebody uses: of the frames that there
/// are, a shot changes at most one, which was in the pool and free.
pub proof fn law_used_frames_stay(
    before: Footage,
    after: Footage,
    shot: Shot,
    format: CameraFormat,
    x: u64,
)
    requires
        before.capture.wf(),
        films(before, after, shot, format),
        before.frames.contains_key(x),
        x == before.capture.shown || !exists|i: int|
            0 <= i < shot.free.len() && #[trigger] shot.free[i] && before.capture.pool()[i] == x,
    ensures
        after.frames.contains_key(x),
        after.frames[x] == before.frames[x],
{
    if shot.taken.reused {
        let i = choose|i: int| #[trigger]
            first_free(shot.free, i) && shot.taken.frame == before.capture.pool()[i]
                && after.capture.pool() == pool_after(before.capture, Some(i));
        assert(shot.free[i]);
        assert(before.capture.pool().contains(shot.taken.frame));
    }
}

/// What comes out of the pool was in the pool, so it is not the frame that is shown, and it is
/// not in the pool any more.
pub proof fn law_free_frame_is_not_shown(before: Capture, frame: u64, n: int)
    requires
        before.wf(),
        0 <= n < before.pool().len(),
        frame == before.pool()[n],
    ensures
        frame != before.shown,
        !taken_out(before.pool(), n).contains(frame),
        taken_out(before.pool(), n).len() == before.pool().len() - 1,
{
    let pool = before.pool();
    assert(pool.contains(frame));
    let rest = taken_out(pool, n);
    if rest.contains(frame) {
        let k = choose|k: int| 0 <= k < rest.len() && rest[k] == frame;
        if k == n {
            assert(pool[pool.len() - 1] == frame);
        } else {
            assert(pool[k] == frame);
        }
    }
}

/// The splash image is shown as it is, in halves; a file that cannot be decoded or split shows
/// nothing.
pub proof fn law_splash_is_shown_in_halves(
    pixels: Pixels,
    now: u64,
    f: FrameInfo,
    png: &[u8],
    r: Option<FrameInfo>,
)
    requires
        call_ensures(splash_frame, (pixels, now), f),
        call_ensures(load_splash, (png, now), r),
    ensures
        f.frame@ == pixels.rgba@ && f.frame_time == now && !f.needs_postprocess,
        f.size.width == pixels.width / 2 && f.size.height == pixels.height,
        r is Some <==> png_pixels(png@) is Some && png_pixels(png@)->Some_0.0 % 2 == 0,
        r matches Some(s) ==> s.frame@ == png_pixels(png@)->Some_0.2 && s.frame_time == now
            && !s.needs_postprocess && s.size.width + s.size.width == png_pixels(png@)->Some_0.0
            && s.size.height == png_pixels(png@)->Some_0.1,
{
}

/// The thread starts to capture when it is resumed. It goes on until it is paused or stopped, and
/// after a pause when it is resumed again.
pub proof fn law_thread_follows_commands(
    command: Option<Control>,
    starts: bool,
    polled: Polled,
    step: CaptureStep,
    after: CaptureStep,
)
    requires
        call_ensures(starts_capture, (command,), starts),
        call_ensures(poll_command, (polled,), step),
        call_ensures(after_pause, (command,), after),
    ensures
        starts <==> command == Some(Control::Resume),
        polled is Nothing ==> step is Capture,
        polled is Disconnected ==> step is Stop,
        polled == Polled::Command(Control::Pause) ==> step is WaitForCommand,
        polled == Polled::Command(Control::Exit) ==> step is Stop,
        command is Some ==> after is Capture,
        command is None ==> after is Stop,
{
}

/// Only an even width can be captured.
pub proof fn law_even_width_is_accepted(format: &CameraFormat, r: Result<(), CameraError>)
    requires
        call_ensures(check_format, (format,), r),
    ensures
        r is Ok <==> format.width / 2 + format.width / 2 == format.width,
        r matches Err(e) ==> e is OddWidth,
{
}

/// The first frame was captured now, and any other as long after it as the camera's clock says;
/// so the times of frames differ as the camera's times do. Nothing else changes.
pub proof fn law_frame_times()
    ensures
        forall|c: &mut Capture, timestamp: u64, now: u64, r: u64| #[trigger]
            call_ensures(Capture::frame_time, (c, timestamp, now), r) ==> {
                &&& (*c).first_frame_time is None ==> r == now && (*final(c)).first_frame_time
                    == Some((timestamp, now))
                &&& (*c).first_frame_time matches Some((camera, ours)) ==> r - ours == timestamp
                    - camera && (*final(c)).first_frame_time == (*c).first_frame_time
                &&& (*final(c)).pool() == (*c).pool()
                &&& (*final(c)).is_splash == (*c).is_splash
                &&& (*final(c)).shown == (*c).shown
            },
{
}

/// A frame that is shown takes the place of the one before, which goes behind those in the pool
/// exactly if it is no splash image and there are fewer than two.
pub proof fn law_shown_frame_goes_to_the_pool()
    ensures
        forall|c: &mut Capture, frame: u64, r: bool| #[trigger]
            call_ensures(Capture::show, (c, frame), r) ==> {
                &&& (*final(c)).shown == frame
                &&& !(*final(c)).is_splash
                &&& (*final(c)).first_frame_time == (*c).first_frame_time
                &&& r <==> !(*c).is_splash && (*c).pool().len() < 2
                &&& r ==> (*final(c)).pool() == (*c).pool().push((*c).shown)
                &&& !r ==> (*final(c)).pool() == (*c).pool()
            },
        forall|splash: u64, c: Capture| #[trigger]
            call_ensures(Capture::new, (splash,), c) ==> c.pool().len() == 0 && c.is_splash
                && c.shown == splash && c.first_frame_time is None,
        forall|c: &Capture, i: usize, r: Option<u64>| #[trigger]
            call_ensures(Capture::pooled, (c, i), r) ==> {
                &&& r is Some <==> i < c.pool().len()
                &&& r matches Some(f) ==> f == c.pool()[i as int]
            },
{
}

/// The frame that is taken out of the pool is the first that is free, and all others stay there.
pub proof fn law_first_free_frame_is_taken(pool: Seq<u64>, free: Seq<bool>, n: int)
    requires
        pool.len() == free.len(),
        first_free(free, n),
    ensures
        free[n],
        forall|j: int| 0 <= j < n ==> !#[trigger] free[j],
        taken_out(pool, n).len() == pool.len() - 1,
        forall|i: int|
            0 <= i < pool.len() && i != n ==> taken_out(pool, n).contains(#[trigger] pool[i]),
        forall|x: u64| #[trigger] taken_out(pool, n).contains(x) ==> exists|i: int|
            0 <= i < pool.len() && i != n && #[trigger] pool[i] == x,
{
    let rest = taken_out(pool, n);
    assert forall|i: int| 0 <= i < pool.len() && i != n implies rest.contains(
        #[trigger] pool[i],
    ) by {
        if i == pool.len() - 1 {
            assert(rest[n] == pool[i]);
        } else {
            assert(rest[i] == pool[i]);
        }
    }
    assert forall|x: u64| #[trigger] rest.contains(x) implies exists|i: int|
        0 <= i < pool.len() && i != n && #[trigger] pool[i] == x by {
        let k = choose|k: int| 0 <= k < rest.len() && rest[k] == x;
        if k == n {
            assert(pool[pool.len() - 1] == x);
        } else {
            assert(pool[k] == x);
        }
    }
}

/// An image goes to the first free frame of the pool, and to a new frame exactly if none is free.
/// What was shown goes to the pool unless it is the splash image or the pool is full.
pub proof fn law_captured_image_finds_a_frame()
    ensures
        forall|c: &mut Capture, timestamp: u64, now: u64, free: &[bool], fresh: u64, r: Captured|
         #[trigger]
            call_ensures(Capture::captured, (c, timestamp, now, free, fresh), r) ==> {
                let left = if r.reused {
                    (*c).pool().len() - 1
                } else {
                    (*c).pool().len() as int
                };
                &&& (*final(c)).shown == r.frame
                &&& !(*final(c)).is_splash
                &&& r.reused <==> free@.contains(true)
                &&& !r.reused ==> r.frame == fresh
                &&& (*c).first_frame_time is None ==> r.frame_time == now
                &&& (*c).first_frame_time matches Some((camera, ours)) ==> r.frame_time - ours
                    == timestamp - camera
                &&& r.kept <==> (*final(c)).pool().contains((*c).shown)
                &&& !r.reused ==> (*final(c)).pool() == (if !(*c).is_splash && left < 2 {
                    (*c).pool().push((*c).shown)
                } else {
                    (*c).pool()
                })
            },
{
}

/// A frame holds the captured image; a new one is of the size of one half, and one that was used
/// before keeps its size.
pub proof fn law_frames_hold_images(data: &[u8], now: u64, format: &CameraFormat, f: FrameInfo)
    requires
        call_ensures(FrameInfo::fresh, (data, now, format), f),
    ensures
        f.frame@ == data@ && f.frame_time == now && f.needs_postprocess,
        f.size.width == format.width / 2 && f.size.height == format.height,
        forall|g: &mut FrameInfo, time: u64| #[trigger]
            call_ensures(FrameInfo::reuse, (g, data, time), ()) ==> (*final(g)).frame@ == data@
                && (*final(g)).frame_time == time && (*final(g)).needs_postprocess
                && (*final(g)).size == (*g).size,
{
}

/// Of the pool that is left when a frame was taken out or not, nothing changes, except that the
/// frame that was shown comes behind it if it is no splash image and fewer than two are left.
pub proof fn law_pool_after_an_image(before: Capture, taken: Option<int>)
    ensures
        ({
            let left = match taken {
                Some(n) => taken_out(before.pool(), n),
                None => before.pool(),
            };
            let after = pool_after(before, taken);
            &&& left.is_prefix_of(after)
            &&& after.len() > left.len() <==> !before.is_splash && left.len() < 2
            &&& after.len() > left.len() ==> after == left + seq![before.shown]
            &&& after.len() <= left.len() + 1
        }),
        forall|c: &mut Capture, timestamp: u64, now: u64, free: &[bool], fresh: u64, r: Captured|
         #[trigger]
            call_ensures(Capture::captured, (c, timestamp, now, free, fresh), r) && r.reused
                ==> reuses_first_free(*c, *final(c), free@, r.frame),
{
    let left = match taken {
        Some(n) => taken_out(before.pool(), n),
        None => before.pool(),
    };
    let after = pool_after(before, taken);
    assert(left =~= after.subrange(0, left.len() as int));
    if after.len() > left.len() {
        assert(after =~= left + seq![before.shown]);
    }
}

/// The frame is the first of the pool that is free, and was taken out of it.
pub open spec fn reuses_first_free(
    before: Capture,
    after: Capture,
    free: Seq<bool>,
    frame: u64,
) -> bool {
    exists|n: int| #[trigger]
        first_free(free, n) && frame == before.pool()[n] && after.pool() == pool_after(
            before,
            Some(n),
        )
}

/// A frame is found exactly if one is free. It was in the pool and is taken out; if none is free,
/// nothing changes.
pub proof fn law_free_frame_is_found()
    ensures
        forall|c: &mut Capture, free: &[bool], r: Option<u64>| #[trigger]
            call_ensures(Capture::find_free, (c, free), r) ==> {
                &&& took_free((*c).pool(), (*final(c)).pool(), free@, r)
                &&& r is Some <==> free@.contains(true)
                &&& r is None ==> (*final(c)).pool() == (*c).pool()
                &&& (*final(c)).shown == (*c).shown
                &&& (*final(c)).is_splash == (*c).is_splash
                &&& (*final(c)).first_frame_time == (*c).first_frame_time
            },
{
    assert forall|c: &mut Capture, free: &[bool], r: Option<u64>| #[trigger]
        call_ensures(Capture::find_free, (c, free), r) implies (r is Some <==> free@.contains(
        true,
    )) by {
        if r is Some {
            let n = choose|n: int| #[trigger]
                first_free(free@, n) && r->Some_0 == (*c).pool()[n] && (*final(c)).pool()
                    == taken_out((*c).pool(), n);
            assert(free@[n]);
        }
    }
}

} // verus!
