use screen_overlay::capture::{
    capture_all_monitors, plan_capture, process_capture, Acquisition, CaptureOutcome, CapturePlan,
    CropRect, DesktopPart, Frame,
};
use screen_overlay::scale::DpiScale;
use screen_overlay::topology::DisplayDescriptor;

fn monitor(x: i32, y: i32, width: u32, height: u32, per_mille: u32, index: usize) -> DisplayDescriptor {
    DisplayDescriptor {
        x,
        y,
        width,
        height,
        scale: DpiScale::from_per_mille(per_mille),
        index,
        source: index,
    }
}

/// A frame in which every byte tells where it stands: column, row, channel.
fn numbered(width: u32, height: u32) -> Frame {
    let mut data = Vec::new();
    for y in 0..height {
        for x in 0..width {
            data.push(x as u8);
            data.push(y as u8);
            data.push((x + y) as u8);
            data.push(255);
        }
    }
    Frame::new(width, height, data).unwrap()
}

fn blank(width: u32, height: u32) -> Frame {
    Frame::new(width, height, vec![0u8; (width * height * 4) as usize]).unwrap()
}

#[test]
fn a_frame_needs_four_bytes_for_each_pixel() {
    assert!(Frame::new(2, 3, vec![0u8; 24]).is_some());
    assert!(Frame::new(2, 3, vec![0u8; 23]).is_none());
    assert!(Frame::new(2, 3, vec![0u8; 25]).is_none());
    assert!(Frame::new(0, 7, Vec::new()).is_some());
    assert!(Frame::new(0, 0, vec![1u8]).is_none());
    let f = Frame::new(1, 2, vec![1, 2, 3, 4, 5, 6, 7, 8]).unwrap();
    assert_eq!((f.width(), f.height()), (1, 2));
    assert_eq!(f.data(), &vec![1, 2, 3, 4, 5, 6, 7, 8]);
}

#[test]
fn crop_copies_the_pixels_of_the_rectangle() {
    let source = numbered(5, 4);
    let part = source.crop(CropRect { x: 1, y: 2, width: 3, height: 2 }).unwrap();
    assert_eq!((part.width(), part.height()), (3, 2));
    let expected: Vec<u8> = vec![
        1, 2, 3, 255, 2, 2, 4, 255, 3, 2, 5, 255, //
        1, 3, 4, 255, 2, 3, 5, 255, 3, 3, 6, 255,
    ];
    assert_eq!(part.data(), &expected);
    assert_ne!(part.data(), source.data());
}

#[test]
fn crop_of_the_whole_frame_is_the_frame() {
    let source = numbered(4, 3);
    let part = source.crop(CropRect { x: 0, y: 0, width: 4, height: 3 }).unwrap();
    assert_eq!(part.data(), source.data());
    assert_eq!((part.width(), part.height()), (4, 3));
}

#[test]
fn crop_of_nothing_is_empty() {
    let source = numbered(4, 3);
    let part = source.crop(CropRect { x: 4, y: 3, width: 0, height: 0 }).unwrap();
    assert_eq!((part.width(), part.height()), (0, 0));
    assert!(part.data().is_empty());
    let row = source.crop(CropRect { x: 1, y: 1, width: 0, height: 2 }).unwrap();
    assert_eq!((row.width(), row.height()), (0, 2));
    assert!(row.data().is_empty());
}

#[test]
fn crop_beyond_the_frame_is_refused() {
    let source = numbered(4, 3);
    assert!(source.crop(CropRect { x: 2, y: 0, width: 3, height: 1 }).is_none());
    assert!(source.crop(CropRect { x: 0, y: 2, width: 1, height: 2 }).is_none());
    assert!(source.crop(CropRect { x: u32::MAX, y: 0, width: u32::MAX, height: 1 }).is_none());
    assert!(source.crop(CropRect { x: 5, y: 0, width: 0, height: 0 }).is_none());
}

#[test]
fn a_buffer_of_the_expected_size_is_kept() {
    let d = monitor(1920, 0, 2560, 1440, 1250, 1);
    assert_eq!(plan_capture(&d, DpiScale::one(), 3200, 1800), CapturePlan::Direct);
}

#[test]
fn a_buffer_within_a_tenth_is_kept() {
    let d = monitor(0, 0, 1000, 1000, 1000, 0);
    let one = DpiScale::one();
    assert_eq!(plan_capture(&d, one, 1100, 1100), CapturePlan::Direct);
    assert_eq!(plan_capture(&d, one, 900, 900), CapturePlan::Direct);
    assert_eq!(plan_capture(&d, one, 1100, 900), CapturePlan::Direct);
    assert_eq!(plan_capture(&d, one, 1, 1), CapturePlan::Direct);
    assert_eq!(plan_capture(&d, one, 0, 0), CapturePlan::Direct);
}

#[test]
fn a_buffer_more_than_a_tenth_larger_is_a_desktop_capture() {
    let d = monitor(0, 0, 1000, 1000, 1000, 0);
    let one = DpiScale::one();
    let rect = CropRect { x: 0, y: 0, width: 1000, height: 1000 };
    assert_eq!(plan_capture(&d, one, 1101, 1000), CapturePlan::Crop(rect));
    assert_eq!(plan_capture(&d, one, 1000, 1101), CapturePlan::Crop(rect));
    let part = DesktopPart { x: 0, y: 0, width: 1000, height: 1000 };
    assert_eq!(plan_capture(&d, one, 1101, 999), CapturePlan::Fallback(part));
}

#[test]
fn a_display_of_no_size_makes_any_buffer_a_desktop_capture() {
    let d = monitor(0, 0, 0, 0, 1000, 0);
    let rect = CropRect { x: 0, y: 0, width: 0, height: 0 };
    assert_eq!(plan_capture(&d, DpiScale::one(), 1, 1), CapturePlan::Crop(rect));
    assert_eq!(plan_capture(&d, DpiScale::one(), 0, 0), CapturePlan::Direct);
}

#[test]
fn the_crop_is_taken_at_the_scale_of_the_desktop() {
    let d = monitor(1920, 100, 2560, 1440, 1000, 1);
    let desktop = DpiScale::from_per_mille(1500);
    assert_eq!(
        plan_capture(&d, desktop, 8000, 4000),
        CapturePlan::Crop(CropRect { x: 2880, y: 150, width: 3840, height: 2160 })
    );
    assert_eq!(
        plan_capture(&d, DpiScale::from_per_mille(1250), 8000, 4000),
        CapturePlan::Crop(CropRect { x: 2400, y: 125, width: 3200, height: 1800 })
    );
}

#[test]
fn a_display_left_of_the_origin_keeps_the_whole_buffer() {
    let left = monitor(-1920, 0, 1920, 1080, 1000, 0);
    assert_eq!(
        plan_capture(&left, DpiScale::one(), 3840, 1080),
        CapturePlan::Fallback(DesktopPart { x: -1920, y: 0, width: 1920, height: 1080 })
    );
    let above = monitor(0, -10, 1920, 1080, 1000, 0);
    assert_eq!(
        plan_capture(&above, DpiScale::from_ratio(1, 2), 3840, 2000),
        CapturePlan::Fallback(DesktopPart { x: 0, y: -5, width: 960, height: 540 })
    );
    let barely = monitor(-1, 0, 100, 100, 1000, 0);
    assert_eq!(
        plan_capture(&barely, DpiScale::from_ratio(1, 1000), 200, 200),
        CapturePlan::Fallback(DesktopPart { x: -1, y: 0, width: 0, height: 0 })
    );
}

#[test]
fn capture_keeps_the_buffer_of_a_display_left_of_the_origin() {
    let acquisitions = vec![
        Acquisition { display: monitor(-4, 0, 4, 2, 1000, 0), buffer: Some(numbered(8, 2)) },
        Acquisition { display: monitor(0, 0, 4, 2, 1000, 1), buffer: Some(numbered(4, 2)) },
    ];
    let captured = capture_all_monitors(&acquisitions);
    assert_eq!(captured.len(), 2);
    match &captured[0].outcome {
        CaptureOutcome::Fallback { part } => {
            assert_eq!(*part, DesktopPart { x: -4, y: 0, width: 4, height: 2 });
        }
        other => panic!("unexpected outcome {:?}", other),
    }
    let stored = captured[0].outcome.image(acquisitions[0].buffer.as_ref().unwrap());
    assert_eq!((stored.width(), stored.height()), (8, 2));
    assert!(matches!(captured[1].outcome, CaptureOutcome::Direct));
}

#[test]
fn a_part_larger_than_any_buffer_is_told_in_full() {
    let d = monitor(i32::MAX, 0, u32::MAX, 1, 1000, 0);
    assert_eq!(
        plan_capture(&d, DpiScale::from_ratio(3, 1), u32::MAX, u32::MAX),
        CapturePlan::Fallback(DesktopPart { x: 6442450941, y: 0, width: 12884901885, height: 3 })
    );
}

#[test]
fn scenario_doubled_buffer_is_cut_to_the_display() {
    let d = monitor(1920, 0, 2560, 1440, 1250, 1);
    let rect = CropRect { x: 1920, y: 0, width: 2560, height: 1440 };
    assert_eq!(plan_capture(&d, DpiScale::one(), 6400, 3600), CapturePlan::Crop(rect));
}

#[test]
fn scenario_crop_beyond_the_buffer_falls_back() {
    let rect = CropRect { x: 1920, y: 0, width: 2560, height: 1440 };
    let part = DesktopPart { x: 1920, y: 0, width: 2560, height: 1440 };
    let buffer = blank(30, 14);
    assert!(buffer.crop(CropRect { x: 19, y: 0, width: 25, height: 14 }).is_none());
    let plain = monitor(1920, 0, 2560, 1440, 1000, 1);
    assert_eq!(plan_capture(&plain, DpiScale::one(), 3000, 1440), CapturePlan::Fallback(part));
    let dense = monitor(1920, 0, 2560, 1440, 1250, 1);
    assert_eq!(plan_capture(&dense, DpiScale::one(), 3000, 1440), CapturePlan::Direct);
    assert_eq!(plan_capture(&dense, DpiScale::one(), 4479, 3600), CapturePlan::Fallback(part));
    assert_eq!(plan_capture(&dense, DpiScale::one(), 4480, 3600), CapturePlan::Crop(rect));
}

#[test]
fn processing_keeps_a_matching_buffer() {
    let d = monitor(0, 0, 4, 3, 1000, 0);
    let buffer = numbered(4, 3);
    assert!(matches!(process_capture(&d, DpiScale::one(), &buffer), CaptureOutcome::Direct));
}

#[test]
fn processing_cuts_the_display_out_of_a_desktop_buffer() {
    let d = monitor(4, 1, 3, 2, 1000, 1);
    let buffer = numbered(8, 4);
    match process_capture(&d, DpiScale::one(), &buffer) {
        CaptureOutcome::Cropped { rect, image } => {
            assert_eq!(rect, CropRect { x: 4, y: 1, width: 3, height: 2 });
            assert_eq!((image.width(), image.height()), (3, 2));
            let expected: Vec<u8> = vec![
                4, 1, 5, 255, 5, 1, 6, 255, 6, 1, 7, 255, //
                4, 2, 6, 255, 5, 2, 7, 255, 6, 2, 8, 255,
            ];
            assert_eq!(image.data(), &expected);
        }
        other => panic!("unexpected outcome {:?}", other),
    }
}

#[test]
fn processing_cuts_at_twice_the_size_on_a_dense_desktop() {
    let d = monitor(2, 1, 2, 1, 1000, 1);
    let buffer = numbered(9, 5);
    match process_capture(&d, DpiScale::from_per_mille(2000), &buffer) {
        CaptureOutcome::Cropped { rect, image } => {
            assert_eq!(rect, CropRect { x: 4, y: 2, width: 4, height: 2 });
            assert_eq!((image.width(), image.height()), (4, 2));
            assert_eq!(&image.data()[0..4], &[4, 2, 6, 255]);
            assert_eq!(&image.data()[28..32], &[7, 3, 10, 255]);
        }
        other => panic!("unexpected outcome {:?}", other),
    }
}

#[test]
fn processing_falls_back_where_the_display_reaches_beyond_the_buffer() {
    let d = monitor(6, 0, 3, 2, 1000, 1);
    let buffer = numbered(8, 4);
    match process_capture(&d, DpiScale::one(), &buffer) {
        CaptureOutcome::Fallback { part } => {
            assert_eq!(part, DesktopPart { x: 6, y: 0, width: 3, height: 2 });
        }
        other => panic!("unexpected outcome {:?}", other),
    }
}

#[test]
fn capture_skips_displays_without_a_buffer() {
    let acquisitions = vec![
        Acquisition { display: monitor(0, 0, 4, 3, 1000, 0), buffer: Some(numbered(4, 3)) },
        Acquisition { display: monitor(4, 0, 4, 3, 1000, 1), buffer: None },
        Acquisition { display: monitor(8, 0, 2, 2, 1000, 2), buffer: Some(numbered(12, 3)) },
    ];
    let captured = capture_all_monitors(&acquisitions);
    assert_eq!(captured.len(), 2);
    assert_eq!((captured[0].slot, captured[0].display.index), (0, 0));
    assert!(matches!(captured[0].outcome, CaptureOutcome::Direct));
    assert_eq!((captured[1].slot, captured[1].display.index), (2, 2));
    match &captured[1].outcome {
        CaptureOutcome::Cropped { rect, image } => {
            assert_eq!(*rect, CropRect { x: 8, y: 0, width: 2, height: 2 });
            assert_eq!(image.data(), &vec![8, 0, 8, 255, 9, 0, 9, 255, 8, 1, 9, 255, 9, 1, 10, 255]);
        }
        other => panic!("unexpected outcome {:?}", other),
    }
}

#[test]
fn capture_takes_the_desktop_scale_from_every_display() {
    let acquisitions = vec![
        Acquisition { display: monitor(0, 0, 2, 2, 2000, 0), buffer: None },
        Acquisition { display: monitor(2, 0, 2, 1, 1000, 1), buffer: Some(numbered(8, 4)) },
    ];
    let captured = capture_all_monitors(&acquisitions);
    assert_eq!(captured.len(), 1);
    match &captured[0].outcome {
        CaptureOutcome::Cropped { rect, .. } => {
            assert_eq!(*rect, CropRect { x: 4, y: 0, width: 4, height: 2 });
        }
        other => panic!("unexpected outcome {:?}", other),
    }
}

#[test]
fn capture_of_nothing_is_nothing() {
    assert!(capture_all_monitors(&Vec::new()).is_empty());
    let failed = vec![Acquisition { display: monitor(0, 0, 4, 3, 1000, 0), buffer: None }];
    assert!(capture_all_monitors(&failed).is_empty());
}

#[test]
fn the_stored_image_is_the_buffer_unless_a_part_was_cut() {
    let buffer = numbered(8, 4);
    let direct = process_capture(&monitor(0, 0, 8, 4, 1000, 0), DpiScale::one(), &buffer);
    assert!(!direct.keeps_raw());
    assert_eq!(direct.image(&buffer).data(), buffer.data());
    let cropped = process_capture(&monitor(4, 1, 3, 2, 1000, 1), DpiScale::one(), &buffer);
    assert!(cropped.keeps_raw());
    assert_eq!((cropped.image(&buffer).width(), cropped.image(&buffer).height()), (3, 2));
    let fallback = process_capture(&monitor(6, 0, 3, 2, 1000, 1), DpiScale::one(), &buffer);
    assert!(fallback.keeps_raw());
    assert_eq!(fallback.image(&buffer).data(), buffer.data());
    assert_eq!((fallback.image(&buffer).width(), fallback.image(&buffer).height()), (8, 4));
}

#[test]
fn a_frame_without_rows_is_cropped_to_nothing() {
    let wide = Frame::new(1 << 30, 0, Vec::new()).unwrap();
    let part = wide.crop(CropRect { x: 0, y: 0, width: 0, height: 0 }).unwrap();
    assert_eq!((part.width(), part.height()), (0, 0));
    assert!(part.data().is_empty());
    let strip = wide.crop(CropRect { x: 5, y: 0, width: 1 << 29, height: 0 }).unwrap();
    assert_eq!((strip.width(), strip.height()), (1 << 29, 0));
    assert!(strip.data().is_empty());
    assert!(wide.crop(CropRect { x: 0, y: 0, width: 1, height: 1 }).is_none());
    let widest = Frame::new(u32::MAX, 0, Vec::new()).unwrap();
    assert!(widest.crop(CropRect { x: u32::MAX, y: 0, width: 0, height: 0 }).is_some());
}

#[test]
fn capture_stands_a_wide_buffer_without_rows() {
    let acquisitions = vec![Acquisition {
        display: monitor(0, 0, 4, 0, 1000, 0),
        buffer: Frame::new(1 << 30, 0, Vec::new()),
    }];
    let captured = capture_all_monitors(&acquisitions);
    assert_eq!(captured.len(), 1);
    match &captured[0].outcome {
        CaptureOutcome::Cropped { rect, image } => {
            assert_eq!(*rect, CropRect { x: 0, y: 0, width: 4, height: 0 });
            assert_eq!((image.width(), image.height()), (4, 0));
            assert!(image.data().is_empty());
        }
        other => panic!("unexpected outcome {:?}", other),
    }
}
