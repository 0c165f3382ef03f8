use std::io::Cursor;
use xr_passthrough_layer::camera::{
    after_pause, check_format, load_splash, poll_command, splash_frame, starts_capture,
    CameraError, CameraFormat, Capture, CaptureStep, Control, FrameInfo, Pixels, Polled,
    MAX_POOL_SIZE,
};
use xr_passthrough_layer::device::{
    can_capture, find_index_camera, index_camera_query, CameraSearchError,
};
use xr_passthrough_layer::geometry::Size;

fn png(width: u32, height: u32, rgba: Vec<u8>) -> Vec<u8> {
    let image = image::RgbaImage::from_raw(width, height, rgba).unwrap();
    let mut out = Cursor::new(Vec::new());
    image.write_to(&mut out, image::ImageFormat::Png).unwrap();
    out.into_inner()
}

fn pool(c: &Capture) -> Vec<u64> {
    (0..10).filter_map(|i| c.pooled(i)).collect()
}

#[test]
fn splash_is_decoded() {
    let rgba: Vec<u8> = (0..4 * 2 * 4).collect();
    let frame = load_splash(&png(4, 2, rgba.clone()), 17).unwrap();
    assert_eq!(frame.frame, rgba);
    assert_eq!(frame.frame_time, 17);
    assert!(!frame.needs_postprocess);
    assert_eq!(frame.size, Size::new(2, 2));
}

#[test]
fn splash_has_to_have_two_halves() {
    assert!(load_splash(&png(3, 1, vec![0; 12]), 0).is_none());
    assert!(load_splash(b"not a png", 0).is_none());
}

#[test]
fn splash_frame_from_pixels() {
    let f = splash_frame(Pixels { width: 6, height: 3, rgba: vec![9] }, 5);
    assert_eq!((f.frame, f.frame_time, f.size), (vec![9], 5, Size::new(3, 3)));
}

#[test]
fn camera_waits_for_the_first_command() {
    assert!(starts_capture(Some(Control::Resume)));
    assert!(!starts_capture(Some(Control::Exit)));
    assert!(!starts_capture(None));
}

#[test]
fn commands_while_capturing() {
    assert_eq!(poll_command(Polled::Nothing), CaptureStep::Capture);
    assert_eq!(poll_command(Polled::Disconnected), CaptureStep::Stop);
    assert_eq!(poll_command(Polled::Command(Control::Exit)), CaptureStep::Stop);
    assert_eq!(poll_command(Polled::Command(Control::Pause)), CaptureStep::WaitForCommand);
    assert_eq!(after_pause(Some(Control::Resume)), CaptureStep::Capture);
    assert_eq!(after_pause(None), CaptureStep::Stop);
}

#[test]
fn camera_width_has_to_be_even() {
    assert_eq!(
        check_format(&CameraFormat { width: 3, height: 2 }),
        Err(CameraError::OddWidth)
    );
    assert_eq!(check_format(&CameraFormat { width: 4, height: 3 }), Ok(()));
}

#[test]
fn times_follow_the_cameras_clock() {
    let mut c = Capture::new(0);
    assert_eq!(c.frame_time(1000, 50), 50);
    assert_eq!(c.frame_time(1000, 60), 50);
    assert_eq!(c.frame_time(1030, 99), 80);
}

#[test]
fn splash_is_not_used_again() {
    let mut c = Capture::new(0);
    assert!(!c.show(1));
    assert_eq!(pool(&c), vec![]);
    assert!(c.show(2));
    assert_eq!(pool(&c), vec![1]);
}

#[test]
fn pool_does_not_grow_without_end() {
    let mut c = Capture::new(0);
    for f in 1..=6 {
        c.show(f);
    }
    assert_eq!(pool(&c), vec![1, 2]);
    assert_eq!(pool(&c).len(), MAX_POOL_SIZE);
    assert_eq!(c.shown, 6);
}

#[test]
fn first_free_frame_is_taken() {
    let mut c = Capture::new(0);
    for f in 1..=3 {
        c.show(f);
    }
    assert_eq!(pool(&c), vec![1, 2]);
    assert_eq!(c.find_free(&[false, false]), None);
    assert_eq!(pool(&c), vec![1, 2]);
    assert_eq!(c.find_free(&[true, true]), Some(1));
    assert_eq!(pool(&c), vec![2]);
    assert_eq!(c.find_free(&[true]), Some(2));
    assert_eq!(pool(&c), vec![]);
}

#[test]
fn second_frame_is_taken_if_the_first_is_used() {
    let mut c = Capture::new(0);
    for f in 1..=3 {
        c.show(f);
    }
    assert_eq!(c.find_free(&[false, true]), Some(2));
    assert_eq!(pool(&c), vec![1]);
}

#[test]
fn captured_frames_go_round() {
    let mut c = Capture::new(0);
    let r = c.captured(100, 10, &[], 1);
    assert_eq!((r.frame, r.reused, r.frame_time, r.kept), (1, false, 10, false));
    let r = c.captured(105, 11, &[], 2);
    assert_eq!((r.frame, r.reused, r.frame_time, r.kept), (2, false, 15, true));
    let r = c.captured(110, 99, &[true], 3);
    assert_eq!((r.frame, r.reused, r.frame_time, r.kept), (1, true, 20, true));
    assert_eq!(pool(&c), vec![2]);
    let r = c.captured(115, 99, &[false], 3);
    assert_eq!((r.frame, r.reused, r.kept), (3, false, true));
    assert_eq!(pool(&c), vec![2, 1]);
    let r = c.captured(120, 99, &[false, false], 4);
    assert_eq!((r.frame, r.reused, r.kept), (4, false, false));
    assert_eq!(pool(&c), vec![2, 1]);
}

#[test]
fn splash_stays_as_it_was_over_a_run() {
    let format = CameraFormat { width: 8, height: 5 };
    let mut c = Capture::new(0);
    let splash = splash_frame(Pixels { width: 2, height: 1, rgba: vec![9; 8] }, 3);
    let mut frames = vec![splash];
    for t in 1..=20u8 {
        let image = [t, t + 1, t + 2];
        let free: Vec<bool> = pool(&c).iter().map(|f| (f + t as u64) % 3 != 0).collect();
        let before: Vec<Vec<u8>> = frames.iter().map(|f| f.frame.clone()).collect();
        let fresh = frames.len() as u64;
        let r = c.captured(t as u64, 0, &free, fresh);
        if r.reused {
            frames[r.frame as usize].reuse(&image, r.frame_time);
        } else {
            frames.push(FrameInfo::fresh(&image, r.frame_time, &format));
        }
        assert!(!pool(&c).contains(&0));
        assert_ne!(c.shown, 0);
        let shown = &frames[c.shown as usize];
        assert_eq!((&shown.frame[..], shown.needs_postprocess), (&image[..], true));
        assert_eq!(shown.size, Size::new(4, 5));
        for (i, old) in before.iter().enumerate() {
            if i as u64 != r.frame {
                assert_eq!(&frames[i].frame, old);
            }
        }
    }
    assert_eq!((frames[0].frame.clone(), frames[0].needs_postprocess), (vec![9; 8], false));
}

#[test]
fn shown_frame_is_never_handed_out() {
    let mut c = Capture::new(0);
    for f in 1..=4 {
        c.show(f);
    }
    let shown = c.shown;
    let free = c.find_free(&[true, true]).unwrap();
    assert_ne!(free, shown);
    assert!(!pool(&c).contains(&free));
}

#[test]
fn frames_are_filled() {
    let format = CameraFormat { width: 8, height: 5 };
    let mut f = FrameInfo::fresh(&[1, 2, 3], 7, &format);
    assert_eq!((f.frame.clone(), f.frame_time, f.needs_postprocess), (vec![1, 2, 3], 7, true));
    assert_eq!(f.size, Size::new(4, 5));
    f.needs_postprocess = false;
    f.reuse(&[4, 5, 6], 9);
    assert_eq!((f.frame.clone(), f.frame_time, f.needs_postprocess), (vec![4, 5, 6], 9, true));
    assert_eq!(f.size, Size::new(4, 5));
}

#[test]
fn camera_is_looked_for() {
    let q = index_camera_query();
    assert_eq!(q.subsystem, "video4linux");
    assert_eq!(
        q.properties,
        vec![
            ("ID_VENDOR_ID".to_string(), "28de".to_string()),
            ("ID_MODEL_ID".to_string(), "2400".to_string()),
        ]
    );
}

#[test]
fn first_camera_is_taken() {
    let two = [Some("/dev/video0".to_string()), Some("/dev/video1".to_string())];
    assert_eq!(find_index_camera(&two), Ok("/dev/video0".to_string()));
    assert_eq!(find_index_camera(&[]), Err(CameraSearchError::NotFound));
    assert_eq!(
        find_index_camera(&[None, Some("/dev/video1".to_string())]),
        Err(CameraSearchError::CannotBeAccessed)
    );
}

#[test]
fn camera_has_to_capture() {
    assert!(can_capture(0x8500_0001));
    assert!(!can_capture(0x8500_0002));
}
