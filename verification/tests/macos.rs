use captis::display::Display;
use captis::macos::{Bitmap, MacOSCapturer, MacOSError, NativeBounds, Screenshot, Shot};
use captis::raster::RgbImage;
use captis::step::Step;

fn native(left: i32, top: i32, width: u32, height: u32, rotation: i32) -> NativeBounds {
    NativeBounds { left, top, width, height, rotation }
}

fn engine(natives: Vec<NativeBounds>) -> MacOSCapturer {
    match MacOSCapturer::new(Ok(natives)) {
        Ok(engine) => engine,
        Err(error) => panic!("no engine: {:?}", error),
    }
}

fn solid(width: usize, height: usize, seed: u8) -> Bitmap {
    let mut data = Vec::new();
    for i in 0..width * height {
        let v = seed.wrapping_add(i as u8);
        data.extend_from_slice(&[v, v.wrapping_add(1), v.wrapping_add(2), 0]);
    }
    Bitmap { width, height, bytes_per_row: 4 * width, data }
}

fn capture(
    engine: &MacOSCapturer,
    index: usize,
    surface: &dyn Fn(&Screenshot) -> Option<Bitmap>,
) -> Result<RgbImage, MacOSError> {
    let mut step = engine.capture(index);
    loop {
        match step {
            Step::Call(session, call) => {
                let reply = surface(&call);
                if let Some(bitmap) = &reply {
                    assert!(bitmap.is_usable(), "a bitmap that describes itself wrongly");
                }
                step = engine.resume_capture(session, reply);
            }
            Step::Done(result) => return result,
        }
    }
}

fn capture_all(
    engine: &MacOSCapturer,
    surface: &dyn Fn(&Screenshot) -> Option<Bitmap>,
) -> (Result<Vec<RgbImage>, MacOSError>, usize) {
    let mut calls = 0;
    let mut step = engine.capture_all();
    loop {
        match step {
            Step::Call(batch, call) => {
                calls += 1;
                let reply = surface(&call);
                if let Some(bitmap) = &reply {
                    assert!(bitmap.is_usable());
                }
                step = engine.resume_capture_all(batch, reply);
            }
            Step::Done(result) => return (result, calls),
        }
    }
}

#[test]
fn macos_rotated_display_has_width_and_height_swapped() {
    let found = MacOSCapturer::get_displays(Ok(vec![native(0, 0, 1080, 1920, 90)]));
    assert_eq!(found, Ok(vec![Display { top: 0, left: 0, width: 1920, height: 1080 }]));
}

#[test]
fn macos_display_rotated_the_other_way_is_swapped_too() {
    let found = MacOSCapturer::get_displays(Ok(vec![native(10, 20, 1080, 1920, -90)]));
    assert_eq!(found, Ok(vec![Display { top: 20, left: 10, width: 1920, height: 1080 }]));
}

#[test]
fn macos_upright_and_upside_down_displays_keep_their_bounds() {
    let found = MacOSCapturer::get_displays(Ok(vec![
        native(0, 0, 2560, 1440, 0),
        native(2560, 0, 1920, 1080, 180),
        native(-800, 0, 800, 600, 270),
    ]));
    assert_eq!(
        found,
        Ok(vec![
            Display { top: 0, left: 0, width: 2560, height: 1440 },
            Display { top: 0, left: 2560, width: 1920, height: 1080 },
            Display { top: 0, left: -800, width: 800, height: 600 },
        ])
    );
}

#[test]
fn macos_refused_enumeration_keeps_the_code() {
    assert_eq!(MacOSCapturer::get_displays(Err(1001)), Err(MacOSError::CoreGraphicsError(1001)));
    assert_eq!(MacOSError::from(-7), MacOSError::CoreGraphicsError(-7));
    assert!(matches!(MacOSCapturer::new(Err(1001)), Err(MacOSError::CoreGraphicsError(1001))));
}

#[test]
fn macos_enumeration_of_no_display_gives_an_empty_list() {
    assert_eq!(MacOSCapturer::get_displays(Ok(vec![])), Ok(vec![]));
    let engine = engine(vec![]);
    assert!(engine.displays().is_empty());
    assert_eq!(engine.primary(), 0);
}

#[test]
fn macos_engine_lists_its_displays_in_order() {
    let engine = engine(vec![native(0, 0, 1080, 1920, 90), native(1920, 0, 800, 600, 0)]);
    assert_eq!(
        engine.displays().to_vec(),
        vec![
            Display { top: 0, left: 0, width: 1920, height: 1080 },
            Display { top: 0, left: 1920, width: 800, height: 600 },
        ]
    );
}

#[test]
fn macos_primary_is_the_first_display_at_the_origin() {
    let engine = engine(vec![
        native(-1920, 0, 1920, 1080, 0),
        native(0, 0, 2560, 1440, 0),
        native(0, 0, 800, 600, 0),
    ]);
    assert_eq!(engine.primary(), 1);
    match engine.capture_primary() {
        Step::Call(session, call) => {
            assert_eq!(session, Shot { index: 1 });
            assert_eq!(call.bounds, Display { top: 0, left: 0, width: 2560, height: 1440 });
        }
        Step::Done(_) => panic!("the primary display exists"),
    }
}

#[test]
fn macos_primary_is_the_first_display_where_none_is_at_the_origin() {
    let engine = engine(vec![native(5, 0, 10, 10, 0), native(0, 5, 10, 10, 0)]);
    assert_eq!(engine.primary(), 0);
}

#[test]
fn macos_capture_asks_for_the_rectangle_of_the_display() {
    let engine = engine(vec![native(0, 0, 4, 2, 0), native(4, -3, 2, 3, 90)]);
    match engine.capture(1) {
        Step::Call(session, call) => {
            assert_eq!(session, Shot { index: 1 });
            assert_eq!(
                call,
                Screenshot {
                    bounds: Display { top: -3, left: 4, width: 3, height: 2 },
                    every_window: true,
                    relative_to: None,
                }
            );
        }
        Step::Done(_) => panic!("display 1 exists"),
    }
}

#[test]
fn macos_capture_takes_the_size_of_the_bitmap() {
    let engine = engine(vec![native(0, 0, 4, 2, 0)]);
    // A backing scale of two: the bitmap is twice as large as the display.
    let image = capture(&engine, 0, &|_| Some(solid(8, 4, 3))).unwrap();
    assert_eq!(image.width(), 8);
    assert_eq!(image.height(), 4);
    assert_eq!(image.get_pixel(0, 0), Some((5, 4, 3)));
    assert_eq!(image.get_pixel(7, 3), Some((36, 35, 34)));
}

#[test]
fn macos_capture_of_a_missing_display_fails_and_leaves_the_engine_alone() {
    let engine = engine(vec![native(0, 0, 4, 2, 0)]);
    for index in [1usize, 2, 1000, usize::MAX] {
        assert!(matches!(
            capture(&engine, index, &|_| panic!("nothing to ask")),
            Err(MacOSError::CouldntFindDisplay)
        ));
    }
    assert_eq!(engine.displays().len(), 1);
    assert!(capture(&engine, 0, &|_| Some(solid(4, 2, 0))).is_ok());
}

#[test]
fn macos_capture_without_a_screenshot_fails() {
    let engine = engine(vec![native(0, 0, 4, 2, 0)]);
    assert!(matches!(capture(&engine, 0, &|_| None), Err(MacOSError::CouldntScreenshot)));
}

#[test]
fn macos_capture_reads_padded_rows_by_their_stride() {
    let engine = engine(vec![native(0, 0, 3, 2, 0)]);
    let padded = |_: &Screenshot| {
        // Rows of three pixels, sixteen bytes apart; the last row is not padded.
        let mut data = vec![0xffu8; 16 + 12];
        for (y, row) in [[1u8, 2, 3], [4, 5, 6]].iter().enumerate() {
            for (x, &v) in row.iter().enumerate() {
                let at = y * 16 + 4 * x;
                data[at..at + 4].copy_from_slice(&[v, v + 10, v + 20, 0]);
            }
        }
        Some(Bitmap { width: 3, height: 2, bytes_per_row: 16, data })
    };
    let image = capture(&engine, 0, &padded).unwrap();
    assert_eq!(image.width(), 3);
    assert_eq!(image.height(), 2);
    assert_eq!(
        image.into_raw(),
        vec![21u8, 11, 1, 22, 12, 2, 23, 13, 3, 24, 14, 4, 25, 15, 5, 26, 16, 6]
    );
}

#[test]
fn macos_bitmap_with_too_little_data_is_not_usable() {
    let mut bitmap = solid(4, 2, 0);
    assert!(bitmap.is_usable());
    bitmap.data.pop();
    assert!(!bitmap.is_usable());
    let padded = Bitmap { width: 4, height: 2, bytes_per_row: 32, data: vec![0; 47] };
    assert!(!padded.is_usable());
    let padded = Bitmap { width: 4, height: 2, bytes_per_row: 32, data: vec![0; 48] };
    assert!(padded.is_usable());
}

#[test]
fn macos_bitmap_with_rows_too_close_is_not_usable() {
    let bitmap = Bitmap { width: 4, height: 2, bytes_per_row: 15, data: vec![0; 64] };
    assert!(!bitmap.is_usable());
    let empty = Bitmap { width: 0, height: 0, bytes_per_row: 0, data: vec![] };
    assert!(empty.is_usable());
}

#[test]
fn macos_bitmap_wider_than_an_image_can_be_is_not_usable() {
    let huge = Bitmap { width: usize::MAX, height: 1, bytes_per_row: usize::MAX, data: vec![] };
    assert!(!huge.is_usable());
}

#[test]
fn macos_capture_all_gives_what_each_capture_gives() {
    let engine = engine(vec![
        native(0, 0, 4, 2, 0),
        native(4, 0, 3, 3, 0),
        native(7, 0, 2, 5, 90),
    ]);
    let surface = |call: &Screenshot| {
        Some(solid(call.bounds.width as usize, call.bounds.height as usize, call.bounds.left as u8))
    };
    let (all, calls) = capture_all(&engine, &surface);
    let all = all.unwrap();
    assert_eq!(calls, 3);
    assert_eq!(all.len(), engine.displays().len());
    for (index, image) in all.into_iter().enumerate() {
        let alone = capture(&engine, index, &surface).unwrap();
        assert_eq!(image.width(), alone.width());
        assert_eq!(image.height(), alone.height());
        assert_eq!(image.into_raw(), alone.into_raw());
    }
}

#[test]
fn macos_capture_all_stops_at_the_first_failure() {
    let engine = engine(vec![
        native(0, 0, 4, 2, 0),
        native(4, 0, 3, 3, 0),
        native(7, 0, 2, 5, 0),
    ]);
    let surface = |call: &Screenshot| {
        if call.bounds.left == 4 {
            None
        } else {
            Some(solid(call.bounds.width as usize, call.bounds.height as usize, 0))
        }
    };
    let (all, calls) = capture_all(&engine, &surface);
    assert!(matches!(all, Err(MacOSError::CouldntScreenshot)));
    assert_eq!(calls, 2);
}

#[test]
fn macos_capture_all_of_no_display_is_empty() {
    let engine = engine(vec![]);
    let (all, calls) = capture_all(&engine, &|_| panic!("nothing to ask"));
    assert!(all.unwrap().is_empty());
    assert_eq!(calls, 0);
}

#[test]
fn macos_refresh_replaces_the_whole_list() {
    let mut engine = engine(vec![native(5, 5, 4, 2, 0), native(0, 0, 3, 3, 0)]);
    assert_eq!(engine.primary(), 1);
    assert_eq!(engine.refresh_displays(Ok(vec![native(0, 0, 1080, 1920, 90)])), Ok(()));
    assert_eq!(
        engine.displays().to_vec(),
        vec![Display { top: 0, left: 0, width: 1920, height: 1080 }]
    );
    assert_eq!(engine.primary(), 0);
}

#[test]
fn macos_refused_refresh_keeps_the_list() {
    let mut engine = engine(vec![native(5, 5, 4, 2, 0), native(0, 0, 3, 3, 0)]);
    assert_eq!(engine.refresh_displays(Err(-3)), Err(MacOSError::CoreGraphicsError(-3)));
    assert_eq!(engine.displays().len(), 2);
    assert_eq!(engine.primary(), 1);
}
