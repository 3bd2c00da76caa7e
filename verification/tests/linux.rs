use captis::display::Display;
use captis::linux::{
    get_displays, resume_get_displays, Crtc, Fetch, Fetching, ImageReply, ImageRequest, Monitor,
    RandrCall, RandrReply, Release, Screen, SetupCall, SetupFailure, SetupReply, Teardown,
    X11Call, X11Capturer, X11Error,
};
use captis::raster::RgbImage;
use captis::step::Step;

const ROOT: u32 = 0x1a4;

fn crtc(x: i16, y: i16, width: u16, height: u16) -> Crtc {
    Crtc { x, y, width, height, mode: 77 }
}

/// A server with one screen of 8 x 4 pixels and three controllers, the
/// second of which is switched off.
fn randr(call: &RandrCall) -> RandrReply {
    match *call {
        RandrCall::ResourcesCurrent { window: ROOT } => RandrReply::Crtcs(vec![61, 62, 63]),
        RandrCall::CrtcInfo { crtc: 61, config_timestamp: 0 } => RandrReply::Crtc(crtc(0, 0, 4, 2)),
        RandrCall::CrtcInfo { crtc: 62, config_timestamp: 0 } => {
            RandrReply::Crtc(Crtc { x: 0, y: 0, width: 0, height: 0, mode: 0 })
        }
        RandrCall::CrtcInfo { crtc: 63, config_timestamp: 0 } => RandrReply::Crtc(crtc(4, 0, 3, 3)),
        _ => RandrReply::Refused,
    }
}

fn plain_server(call: &SetupCall) -> SetupReply {
    match call {
        SetupCall::Connect => SetupReply::Connected {
            screens: vec![Screen { root: ROOT, width_in_pixels: 8, height_in_pixels: 4 }],
            preferred: 0,
        },
        SetupCall::QueryRandr => SetupReply::Present,
        SetupCall::QueryShm => SetupReply::Absent,
        SetupCall::Randr(call) => SetupReply::Randr(randr(call)),
        _ => SetupReply::Failed,
    }
}

fn shm_server(call: &SetupCall) -> SetupReply {
    match call {
        SetupCall::QueryShm => SetupReply::Present,
        SetupCall::GenerateId => SetupReply::Id(99),
        SetupCall::AllocateSegment { .. } => SetupReply::Segment(42),
        SetupCall::MapSegment { .. } => SetupReply::Mapped,
        SetupCall::AttachSegment { .. } => SetupReply::Attached,
        SetupCall::Abandon(_) => SetupReply::Abandoned,
        other => plain_server(other),
    }
}

fn setup(
    server: &dyn Fn(&SetupCall) -> SetupReply,
) -> (Result<X11Capturer, SetupFailure>, Vec<SetupCall>) {
    let mut calls = Vec::new();
    let mut step = X11Capturer::new();
    loop {
        match step {
            Step::Call(session, call) => {
                calls.push(call);
                step = X11Capturer::resume_new(session, server(&call));
            }
            Step::Done(result) => return (result, calls),
        }
    }
}

fn engine(server: &dyn Fn(&SetupCall) -> SetupReply) -> X11Capturer {
    match setup(server).0 {
        Ok(engine) => engine,
        Err(failure) => panic!("no engine: {:?}", failure),
    }
}

fn failure(server: &dyn Fn(&SetupCall) -> SetupReply) -> SetupFailure {
    match setup(server).0 {
        Ok(_) => panic!("an engine was made"),
        Err(failure) => failure,
    }
}

fn enumerate(
    roots: Vec<u32>,
    server: &dyn Fn(&RandrCall) -> RandrReply,
) -> (Result<Vec<Monitor>, X11Error>, Vec<RandrCall>) {
    let mut calls = Vec::new();
    let mut step = get_displays(roots);
    loop {
        match step {
            Step::Call(session, call) => {
                calls.push(call);
                step = resume_get_displays(session, server(&call));
            }
            Step::Done(result) => return (result, calls),
        }
    }
}

/// A screen that does not change: the pixel at (x, y) of the root window is
/// blue x, green y, red x + y. The segment holds what the last image request
/// through shared memory wrote.
struct StaticScreen {
    segment: std::cell::RefCell<Vec<u8>>,
}

impl StaticScreen {
    fn new() -> StaticScreen {
        StaticScreen { segment: std::cell::RefCell::new(vec![0xab; 8 * 4 * 4]) }
    }

    fn pixels(request: &ImageRequest) -> Vec<u8> {
        let mut data = Vec::new();
        for row in 0..request.height as i32 {
            for column in 0..request.width as i32 {
                let x = (request.x as i32 + column) as u8;
                let y = (request.y as i32 + row) as u8;
                data.extend_from_slice(&[x, y, x.wrapping_add(y), 0xee]);
            }
        }
        data
    }

    fn answer(&self, call: &X11Call) -> ImageReply {
        match *call {
            X11Call::GetImage(request) => ImageReply::Pixels(Self::pixels(&request)),
            X11Call::ShmGetImage { request, offset, .. } => {
                let data = Self::pixels(&request);
                let start = offset as usize;
                self.segment.borrow_mut()[start..start + data.len()].copy_from_slice(&data);
                ImageReply::Written { size: data.len() as u32 }
            }
            X11Call::ReadSegment { offset, len } => {
                let start = offset as usize;
                ImageReply::Pixels(self.segment.borrow()[start..start + len as usize].to_vec())
            }
        }
    }
}

fn static_screen() -> impl Fn(&X11Call) -> ImageReply {
    let screen = StaticScreen::new();
    move |call| screen.answer(call)
}

fn capture_calls(
    engine: &X11Capturer,
    index: usize,
    surface: &dyn Fn(&X11Call) -> ImageReply,
) -> (Result<RgbImage, X11Error>, Vec<X11Call>) {
    let mut calls = Vec::new();
    let mut step = engine.capture(index);
    loop {
        match step {
            Step::Call(session, call) => {
                calls.push(call);
                let reply = surface(&call);
                assert!(engine.admits(&session, &reply), "pixels that do not cover the display");
                step = engine.resume_capture(session, reply);
            }
            Step::Done(result) => return (result, calls),
        }
    }
}

fn capture(
    engine: &X11Capturer,
    index: usize,
    surface: &dyn Fn(&X11Call) -> ImageReply,
) -> Result<RgbImage, X11Error> {
    capture_calls(engine, index, surface).0
}

fn capture_all(
    engine: &X11Capturer,
    surface: &dyn Fn(&X11Call) -> ImageReply,
) -> (Result<Vec<RgbImage>, X11Error>, Vec<X11Call>) {
    let mut calls = Vec::new();
    let mut step = engine.capture_all();
    loop {
        match step {
            Step::Call(batch, call) => {
                calls.push(call);
                let reply = surface(&call);
                assert!(engine.admits(&batch.session, &reply));
                step = engine.resume_capture_all(batch, reply);
            }
            Step::Done(result) => return (result, calls),
        }
    }
}

fn request(x: i16, y: i16, width: u16, height: u16) -> ImageRequest {
    ImageRequest { drawable: ROOT, x, y, width, height, plane_mask: 0xffff_ffff, format: 2 }
}

#[test]
fn x11_setup_without_shared_memory_asks_in_order() {
    let (made, calls) = setup(&plain_server);
    assert_eq!(
        calls,
        vec![
            SetupCall::Connect,
            SetupCall::QueryRandr,
            SetupCall::QueryShm,
            SetupCall::Randr(RandrCall::ResourcesCurrent { window: ROOT }),
            SetupCall::Randr(RandrCall::CrtcInfo { crtc: 61, config_timestamp: 0 }),
            SetupCall::Randr(RandrCall::CrtcInfo { crtc: 62, config_timestamp: 0 }),
            SetupCall::Randr(RandrCall::CrtcInfo { crtc: 63, config_timestamp: 0 }),
        ]
    );
    let engine = made.unwrap_or_else(|failure| panic!("no engine: {:?}", failure));
    assert!(!engine.shm_enabled());
    assert_eq!(
        engine.displays().to_vec(),
        vec![
            Display { top: 0, left: 0, width: 4, height: 2 },
            Display { top: 0, left: 4, width: 3, height: 3 },
        ]
    );
    assert_eq!(engine.close(), Teardown { detach: None, unmap: false, remove: None });
}

#[test]
fn x11_setup_with_shared_memory_acquires_the_segment_first() {
    let (made, calls) = setup(&shm_server);
    assert_eq!(
        calls[..7].to_vec(),
        vec![
            SetupCall::Connect,
            SetupCall::QueryRandr,
            SetupCall::QueryShm,
            SetupCall::GenerateId,
            SetupCall::AllocateSegment { size: 8 * 4 * 4, mode: 0o777 },
            SetupCall::MapSegment { shm_id: 42, read_only: true },
            SetupCall::AttachSegment { seg: 99, shmid: 42, read_only: false },
        ]
    );
    assert_eq!(calls[7], SetupCall::Randr(RandrCall::ResourcesCurrent { window: ROOT }));
    let engine = made.unwrap_or_else(|failure| panic!("no engine: {:?}", failure));
    assert!(engine.shm_enabled());
    assert_eq!(engine.displays().len(), 2);
}

#[test]
fn x11_segment_is_sized_for_the_preferred_screen() {
    let server = |call: &SetupCall| match call {
        SetupCall::Connect => SetupReply::Connected {
            screens: vec![
                Screen { root: 1, width_in_pixels: 10, height_in_pixels: 10 },
                Screen { root: 2, width_in_pixels: 65535, height_in_pixels: 65535 },
            ],
            preferred: 1,
        },
        other => shm_server(other),
    };
    let (_, calls) = setup(&server);
    assert_eq!(calls[4], SetupCall::AllocateSegment { size: 17_179_344_900, mode: 0o777 });
}

#[test]
fn x11_teardown_detaches_then_unmaps_then_removes() {
    let teardown = engine(&shm_server).close();
    assert_eq!(teardown, Teardown { detach: Some(99), unmap: true, remove: Some(42) });
    assert_eq!(
        teardown.steps(),
        vec![
            Release::DetachFromServer { seg: 99 },
            Release::Unmap,
            Release::Remove { shm_id: 42 },
        ]
    );
}

#[test]
fn x11_teardown_of_nothing_has_no_steps() {
    assert!(Teardown { detach: None, unmap: false, remove: None }.steps().is_empty());
    assert_eq!(
        Teardown { detach: None, unmap: true, remove: Some(5) }.steps(),
        vec![Release::Unmap, Release::Remove { shm_id: 5 }]
    );
}

#[test]
fn x11_setup_goes_on_without_segment_when_no_id_can_be_picked() {
    let server = |call: &SetupCall| match call {
        SetupCall::GenerateId => SetupReply::Failed,
        other => shm_server(other),
    };
    let (made, calls) = setup(&server);
    assert_eq!(calls[3], SetupCall::GenerateId);
    assert_eq!(calls[4], SetupCall::Randr(RandrCall::ResourcesCurrent { window: ROOT }));
    assert!(!made.unwrap().shm_enabled());
}

#[test]
fn x11_setup_goes_on_without_segment_when_allocation_fails() {
    let server = |call: &SetupCall| match call {
        SetupCall::AllocateSegment { .. } => SetupReply::Segment(-1),
        other => shm_server(other),
    };
    let (made, calls) = setup(&server);
    assert_eq!(calls[5], SetupCall::Randr(RandrCall::ResourcesCurrent { window: ROOT }));
    assert!(!calls.iter().any(|call| matches!(call, SetupCall::Abandon(_))));
    assert!(!made.unwrap().shm_enabled());
}

#[test]
fn x11_setup_removes_the_segment_when_mapping_fails() {
    let server = |call: &SetupCall| match call {
        SetupCall::MapSegment { .. } => SetupReply::Failed,
        other => shm_server(other),
    };
    let (made, calls) = setup(&server);
    assert_eq!(
        calls[6],
        SetupCall::Abandon(Teardown { detach: None, unmap: false, remove: Some(42) })
    );
    assert_eq!(calls[7], SetupCall::Randr(RandrCall::ResourcesCurrent { window: ROOT }));
    let engine = made.unwrap();
    assert!(!engine.shm_enabled());
    assert_eq!(engine.displays().len(), 2);
}

#[test]
fn x11_setup_unmaps_and_removes_the_segment_when_the_server_cannot_attach() {
    let server = |call: &SetupCall| match call {
        SetupCall::AttachSegment { .. } => SetupReply::Failed,
        other => shm_server(other),
    };
    let (made, calls) = setup(&server);
    assert_eq!(
        calls[7],
        SetupCall::Abandon(Teardown { detach: None, unmap: true, remove: Some(42) })
    );
    assert!(!made.unwrap().shm_enabled());
}

#[test]
fn x11_setup_goes_on_even_when_abandoning_fails() {
    let server = |call: &SetupCall| match call {
        SetupCall::MapSegment { .. } => SetupReply::Failed,
        SetupCall::Abandon(_) => SetupReply::Failed,
        other => shm_server(other),
    };
    assert!(!engine(&server).shm_enabled());
}

#[test]
fn x11_setup_fails_without_a_connection() {
    let server = |_: &SetupCall| SetupReply::Failed;
    let (made, calls) = setup(&server);
    assert_eq!(calls, vec![SetupCall::Connect]);
    assert_eq!(
        made.err(),
        Some(SetupFailure {
            error: X11Error::ConnectionFailed,
            release: Teardown { detach: None, unmap: false, remove: None },
        })
    );
}

#[test]
fn x11_setup_fails_when_the_preferred_screen_does_not_exist() {
    let server = |call: &SetupCall| match call {
        SetupCall::Connect => SetupReply::Connected { screens: vec![], preferred: 0 },
        other => plain_server(other),
    };
    assert_eq!(failure(&server).error, X11Error::ConnectionFailed);
}

#[test]
fn x11_setup_fails_without_randr() {
    let server = |call: &SetupCall| match call {
        SetupCall::QueryRandr => SetupReply::Absent,
        other => shm_server(other),
    };
    let (made, calls) = setup(&server);
    assert_eq!(calls, vec![SetupCall::Connect, SetupCall::QueryRandr]);
    assert_eq!(
        made.err(),
        Some(SetupFailure {
            error: X11Error::ExtensionMissing,
            release: Teardown { detach: None, unmap: false, remove: None },
        })
    );
}

#[test]
fn x11_setup_fails_when_an_extension_query_breaks() {
    let randr_breaks = |call: &SetupCall| match call {
        SetupCall::QueryRandr => SetupReply::Failed,
        other => shm_server(other),
    };
    assert_eq!(failure(&randr_breaks).error, X11Error::ProtocolError);
    let shm_breaks = |call: &SetupCall| match call {
        SetupCall::QueryShm => SetupReply::Failed,
        other => shm_server(other),
    };
    assert_eq!(failure(&shm_breaks).error, X11Error::ProtocolError);
}

#[test]
fn x11_setup_fails_when_no_display_is_found_and_hands_the_segment_back() {
    let server = |call: &SetupCall| match call {
        SetupCall::Randr(RandrCall::ResourcesCurrent { .. }) => {
            SetupReply::Randr(RandrReply::Crtcs(vec![]))
        }
        other => shm_server(other),
    };
    assert_eq!(
        failure(&server),
        SetupFailure {
            error: X11Error::NoDisplaysFound,
            release: Teardown { detach: Some(99), unmap: true, remove: Some(42) },
        }
    );
}

#[test]
fn x11_setup_fails_when_enumeration_loses_the_connection() {
    let server = |call: &SetupCall| match call {
        SetupCall::Randr(RandrCall::CrtcInfo { crtc: 63, .. }) => {
            SetupReply::Randr(RandrReply::Lost)
        }
        other => plain_server(other),
    };
    assert_eq!(
        failure(&server),
        SetupFailure {
            error: X11Error::ProtocolError,
            release: Teardown { detach: None, unmap: false, remove: None },
        }
    );
}

#[test]
fn x11_enumeration_emits_the_controllers_that_are_switched_on() {
    let (found, calls) = enumerate(vec![ROOT], &randr);
    assert_eq!(
        found,
        Ok(vec![
            Monitor { root: ROOT, x: 0, y: 0, width: 4, height: 2 },
            Monitor { root: ROOT, x: 4, y: 0, width: 3, height: 3 },
        ])
    );
    assert_eq!(calls.len(), 4);
}

#[test]
fn x11_enumeration_polls_when_the_current_resources_are_refused() {
    let server = |call: &RandrCall| match *call {
        RandrCall::ResourcesCurrent { .. } => RandrReply::Refused,
        RandrCall::Resources { window: ROOT } => RandrReply::Crtcs(vec![5]),
        RandrCall::CrtcInfo { crtc: 5, .. } => RandrReply::Crtc(crtc(-10, 20, 30, 40)),
        _ => RandrReply::Refused,
    };
    let (found, calls) = enumerate(vec![ROOT], &server);
    assert_eq!(
        calls,
        vec![
            RandrCall::ResourcesCurrent { window: ROOT },
            RandrCall::Resources { window: ROOT },
            RandrCall::CrtcInfo { crtc: 5, config_timestamp: 0 },
        ]
    );
    assert_eq!(found, Ok(vec![Monitor { root: ROOT, x: -10, y: 20, width: 30, height: 40 }]));
    assert_eq!(
        found.unwrap()[0].to_display(),
        Display { top: 20, left: -10, width: 30, height: 40 }
    );
}

#[test]
fn x11_enumeration_skips_a_screen_without_resources() {
    let server = |call: &RandrCall| match *call {
        RandrCall::ResourcesCurrent { window: 2 } => RandrReply::Crtcs(vec![9]),
        RandrCall::CrtcInfo { crtc: 9, .. } => RandrReply::Crtc(crtc(1, 2, 3, 4)),
        _ => RandrReply::Refused,
    };
    let (found, calls) = enumerate(vec![1, 2, 3], &server);
    assert_eq!(
        calls,
        vec![
            RandrCall::ResourcesCurrent { window: 1 },
            RandrCall::Resources { window: 1 },
            RandrCall::ResourcesCurrent { window: 2 },
            RandrCall::CrtcInfo { crtc: 9, config_timestamp: 0 },
            RandrCall::ResourcesCurrent { window: 3 },
            RandrCall::Resources { window: 3 },
        ]
    );
    assert_eq!(found, Ok(vec![Monitor { root: 2, x: 1, y: 2, width: 3, height: 4 }]));
}

#[test]
fn x11_enumeration_skips_a_controller_without_info() {
    let server = |call: &RandrCall| match *call {
        RandrCall::CrtcInfo { crtc: 61, .. } => RandrReply::Refused,
        ref other => randr(other),
    };
    let (found, _) = enumerate(vec![ROOT], &server);
    assert_eq!(found, Ok(vec![Monitor { root: ROOT, x: 4, y: 0, width: 3, height: 3 }]));
}

#[test]
fn x11_enumeration_over_every_screen_keeps_the_order() {
    let server = |call: &RandrCall| match *call {
        RandrCall::ResourcesCurrent { window: 1 } => RandrReply::Crtcs(vec![11, 12]),
        RandrCall::ResourcesCurrent { window: 2 } => RandrReply::Crtcs(vec![21]),
        RandrCall::CrtcInfo { crtc, .. } => RandrReply::Crtc(crtc_of(crtc)),
        _ => RandrReply::Refused,
    };
    fn crtc_of(id: u32) -> Crtc {
        Crtc { x: id as i16, y: 0, width: 100, height: 50, mode: 1 }
    }
    let (found, _) = enumerate(vec![1, 2], &server);
    assert_eq!(
        found,
        Ok(vec![
            Monitor { root: 1, x: 11, y: 0, width: 100, height: 50 },
            Monitor { root: 1, x: 12, y: 0, width: 100, height: 50 },
            Monitor { root: 2, x: 21, y: 0, width: 100, height: 50 },
        ])
    );
}

#[test]
fn x11_enumeration_without_screens_finds_nothing() {
    let (found, calls) = enumerate(vec![], &|_| panic!("nothing to ask"));
    assert_eq!(found, Ok(vec![]));
    assert!(calls.is_empty());
}

#[test]
fn x11_enumeration_fails_when_the_connection_breaks() {
    let (found, calls) = enumerate(vec![ROOT], &|_| RandrReply::Lost);
    assert_eq!(found, Err(X11Error::ProtocolError));
    assert_eq!(calls.len(), 1);
}

#[test]
fn x11_standard_capture_asks_for_the_image_over_the_wire() {
    let engine = engine(&plain_server);
    match engine.capture(1) {
        Step::Call(session, call) => {
            assert_eq!(session, Fetch { index: 1, awaited: Fetching::Wire });
            assert_eq!(call, X11Call::GetImage(request(4, 0, 3, 3)));
        }
        Step::Done(_) => panic!("display 1 exists"),
    }
}

#[test]
fn x11_shared_memory_capture_asks_for_the_image_in_the_segment() {
    let engine = engine(&shm_server);
    match engine.capture(0) {
        Step::Call(session, call) => {
            assert_eq!(session, Fetch { index: 0, awaited: Fetching::Shared });
            assert_eq!(
                call,
                X11Call::ShmGetImage { request: request(0, 0, 4, 2), shmseg: 99, offset: 0 }
            );
        }
        Step::Done(_) => panic!("display 0 exists"),
    }
}

#[test]
fn x11_capture_has_the_size_of_the_display() {
    let screen = static_screen();
    let engine = engine(&plain_server);
    for index in 0..engine.displays().len() {
        let image = capture(&engine, index, &screen).unwrap();
        assert_eq!(image.width(), engine.displays()[index].width());
        assert_eq!(image.height(), engine.displays()[index].height());
    }
}

#[test]
fn x11_capture_normalizes_the_pixels_of_the_reply() {
    let screen = static_screen();
    let engine = engine(&plain_server);
    let image = capture(&engine, 1, &screen).unwrap();
    for y in 0..3u32 {
        for x in 0..3u32 {
            let (sx, sy) = (x as u8 + 4, y as u8);
            assert_eq!(image.get_pixel(x, y), Some((sx + sy, sy, sx)));
        }
    }
}

#[test]
fn x11_capture_of_a_missing_display_fails_and_leaves_the_engine_alone() {
    let screen = static_screen();
    for server in [&plain_server as &dyn Fn(&SetupCall) -> SetupReply, &shm_server] {
        let engine = engine(server);
        for index in [2usize, 3, 4096, usize::MAX] {
            assert!(matches!(
                capture(&engine, index, &|_| panic!("nothing to ask")),
                Err(X11Error::DisplayNotFound)
            ));
        }
        assert_eq!(engine.displays().len(), 2);
        assert!(capture(&engine, 0, &screen).is_ok());
    }
}

#[test]
fn x11_capture_fails_alike_on_both_paths_when_the_server_refuses() {
    for server in [&plain_server as &dyn Fn(&SetupCall) -> SetupReply, &shm_server] {
        let engine = engine(server);
        assert!(matches!(
            capture(&engine, 0, &|_| ImageReply::Refused),
            Err(X11Error::ProtocolError)
        ));
        assert!(matches!(
            capture(&engine, 0, &|_| ImageReply::Lost),
            Err(X11Error::ProtocolError)
        ));
    }
}

#[test]
fn x11_pixels_that_do_not_cover_the_display_are_not_admitted() {
    let engine = engine(&plain_server);
    let wire = Fetch { index: 0, awaited: Fetching::Wire };
    let segment = Fetch { index: 0, awaited: Fetching::Segment };
    for session in [wire, segment] {
        assert!(engine.admits(&session, &ImageReply::Pixels(vec![0; 32])));
        assert!(engine.admits(&session, &ImageReply::Pixels(vec![0; 33])));
        assert!(!engine.admits(&session, &ImageReply::Pixels(vec![0; 31])));
        assert!(!engine.admits(&session, &ImageReply::Pixels(vec![])));
        assert!(engine.admits(&session, &ImageReply::Refused));
        assert!(engine.admits(&session, &ImageReply::Lost));
        assert!(engine.admits(&session, &ImageReply::Written { size: 1 }));
    }
    let shared = Fetch { index: 0, awaited: Fetching::Shared };
    assert!(engine.admits(&shared, &ImageReply::Pixels(vec![])));
    let missing = Fetch { index: 7, awaited: Fetching::Wire };
    assert!(engine.admits(&missing, &ImageReply::Pixels(vec![])));
}

#[test]
fn x11_resuming_a_capture_of_a_missing_display_fails() {
    let engine = engine(&plain_server);
    let step = engine.resume_capture(
        Fetch { index: 2, awaited: Fetching::Wire },
        ImageReply::Pixels(vec![0; 1024]),
    );
    assert!(matches!(step, Step::Done(Err(X11Error::DisplayNotFound))));
}

#[test]
fn x11_both_paths_give_identical_images_of_a_static_screen() {
    let screen = static_screen();
    let standard = engine(&plain_server);
    let shared = engine(&shm_server);
    for index in 0..2 {
        let first = capture(&standard, index, &screen).unwrap().into_raw();
        let second = capture(&standard, index, &screen).unwrap().into_raw();
        let third = capture(&shared, index, &screen).unwrap().into_raw();
        let fourth = capture(&shared, index, &screen).unwrap().into_raw();
        assert_eq!(first, second);
        assert_eq!(second, third);
        assert_eq!(third, fourth);
    }
}

#[test]
fn x11_capture_all_gives_what_each_capture_gives() {
    let screen = static_screen();
    for server in [&plain_server as &dyn Fn(&SetupCall) -> SetupReply, &shm_server] {
        let engine = engine(server);
        let (all, calls) = capture_all(&engine, &screen);
        let all = all.unwrap();
        assert_eq!(all.len(), engine.displays().len());
        let requests: Vec<ImageRequest> = calls
            .iter()
            .filter_map(|call| match *call {
                X11Call::GetImage(request) => Some(request),
                X11Call::ShmGetImage { request, .. } => Some(request),
                X11Call::ReadSegment { .. } => None,
            })
            .collect();
        assert_eq!(requests, vec![request(0, 0, 4, 2), request(4, 0, 3, 3)]);
        for (index, image) in all.into_iter().enumerate() {
            let alone = capture(&engine, index, &screen).unwrap();
            assert_eq!(image.width(), alone.width());
            assert_eq!(image.height(), alone.height());
            assert_eq!(image.into_raw(), alone.into_raw());
        }
    }
}

#[test]
fn x11_capture_all_stops_at_the_first_failure() {
    let screen = static_screen();
    let engine = engine(&plain_server);
    let (all, calls) = capture_all(&engine, &|_| ImageReply::Refused);
    assert!(matches!(all, Err(X11Error::ProtocolError)));
    assert_eq!(calls.len(), 1);
    let second_fails = |call: &X11Call| match *call {
        X11Call::GetImage(request) if request.x == 4 => ImageReply::Lost,
        _ => screen(call),
    };
    let (all, calls) = capture_all(&engine, &second_fails);
    assert!(matches!(all, Err(X11Error::ProtocolError)));
    assert_eq!(calls.len(), 2);
}

#[test]
fn x11_shared_memory_capture_reads_what_the_server_wrote() {
    let screen = static_screen();
    let engine = engine(&shm_server);
    let (image, calls) = capture_calls(&engine, 1, &screen);
    assert_eq!(
        calls,
        vec![
            X11Call::ShmGetImage { request: request(4, 0, 3, 3), shmseg: 99, offset: 0 },
            X11Call::ReadSegment { offset: 0, len: 36 },
        ]
    );
    let image = image.unwrap();
    assert_eq!(image.get_pixel(0, 0), Some((4, 0, 4)));
    assert_eq!(image.get_pixel(2, 2), Some((8, 2, 6)));
}

#[test]
fn x11_shared_memory_capture_fails_when_more_was_written_than_the_segment_holds() {
    let engine = engine(&shm_server);
    let overflowing = |call: &X11Call| match *call {
        X11Call::ShmGetImage { .. } => ImageReply::Written { size: 8 * 4 * 4 + 1 },
        _ => panic!("nothing more to ask"),
    };
    assert!(matches!(capture(&engine, 0, &overflowing), Err(X11Error::ProtocolError)));
    let full = |call: &X11Call| match *call {
        X11Call::ShmGetImage { .. } => ImageReply::Written { size: 8 * 4 * 4 },
        X11Call::ReadSegment { offset: 0, len: 128 } => ImageReply::Pixels(vec![7; 128]),
        _ => panic!("not asked for"),
    };
    assert!(capture(&engine, 0, &full).is_ok());
}

#[test]
fn x11_shared_memory_capture_reads_no_more_than_was_written() {
    let engine = engine(&shm_server);
    let step =
        engine.resume_capture(Fetch { index: 0, awaited: Fetching::Shared }, ImageReply::Written {
            size: 31,
        });
    match step {
        Step::Call(session, call) => {
            assert_eq!(session, Fetch { index: 0, awaited: Fetching::Segment });
            assert_eq!(call, X11Call::ReadSegment { offset: 0, len: 31 });
            assert!(!engine.admits(&session, &ImageReply::Pixels(vec![7; 31])));
        }
        Step::Done(_) => panic!("the segment is to be read"),
    }
}

#[test]
fn x11_capture_fails_on_an_answer_of_the_other_path() {
    let standard = engine(&plain_server);
    assert!(matches!(
        capture(&standard, 0, &|_| ImageReply::Written { size: 32 }),
        Err(X11Error::ProtocolError)
    ));
    let shared = engine(&shm_server);
    assert!(matches!(
        capture(&shared, 0, &|_| ImageReply::Pixels(vec![0; 32])),
        Err(X11Error::ProtocolError)
    ));
}

/// An operating system and a server that keep count of what is acquired.
struct Ledger {
    fails_at: Option<SetupCall>,
    empty: bool,
    segments: std::cell::RefCell<Vec<i32>>,
    mappings: std::cell::Cell<u32>,
    attachments: std::cell::RefCell<Vec<u32>>,
    next_id: std::cell::Cell<i32>,
}

impl Ledger {
    fn new(fails_at: Option<SetupCall>, empty: bool) -> Ledger {
        Ledger {
            fails_at,
            empty,
            segments: std::cell::RefCell::new(Vec::new()),
            mappings: std::cell::Cell::new(0),
            attachments: std::cell::RefCell::new(Vec::new()),
            next_id: std::cell::Cell::new(1),
        }
    }

    fn release(&self, teardown: Teardown) {
        for step in teardown.steps() {
            match step {
                Release::DetachFromServer { seg } => {
                    let mut attachments = self.attachments.borrow_mut();
                    let at = attachments.iter().position(|&held| held == seg);
                    attachments.remove(at.expect("only an attached segment is detached"));
                }
                Release::Unmap => {
                    assert!(self.mappings.get() > 0, "only a mapped segment is unmapped");
                    self.mappings.set(self.mappings.get() - 1);
                }
                Release::Remove { shm_id } => {
                    let mut segments = self.segments.borrow_mut();
                    let at = segments.iter().position(|&held| held == shm_id);
                    segments.remove(at.expect("only a live segment is removed"));
                }
            }
        }
    }

    fn answer(&self, call: &SetupCall) -> SetupReply {
        let fails = match (self.fails_at, call) {
            (Some(failing), call) => std::mem::discriminant(&failing) == std::mem::discriminant(call),
            _ => false,
        };
        match *call {
            SetupCall::GenerateId if fails => SetupReply::Failed,
            SetupCall::AllocateSegment { .. } if fails => SetupReply::Segment(-1),
            SetupCall::AllocateSegment { .. } => {
                let id = self.next_id.get();
                self.next_id.set(id + 1);
                self.segments.borrow_mut().push(id);
                SetupReply::Segment(id)
            }
            SetupCall::MapSegment { .. } if fails => SetupReply::Failed,
            SetupCall::MapSegment { shm_id, .. } => {
                assert!(self.segments.borrow().contains(&shm_id));
                self.mappings.set(self.mappings.get() + 1);
                SetupReply::Mapped
            }
            SetupCall::AttachSegment { .. } if fails => SetupReply::Failed,
            SetupCall::AttachSegment { seg, .. } => {
                self.attachments.borrow_mut().push(seg);
                SetupReply::Attached
            }
            SetupCall::Abandon(teardown) => {
                self.release(teardown);
                SetupReply::Abandoned
            }
            SetupCall::Randr(RandrCall::ResourcesCurrent { .. }) if self.empty => {
                SetupReply::Randr(RandrReply::Crtcs(vec![]))
            }
            SetupCall::Randr(_) if fails => SetupReply::Randr(RandrReply::Lost),
            ref other => shm_server(other),
        }
    }

    fn clean(&self) -> bool {
        self.segments.borrow().is_empty()
            && self.mappings.get() == 0
            && self.attachments.borrow().is_empty()
    }
}

#[test]
fn x11_nothing_is_left_behind_over_a_hundred_engines() {
    let failures = [
        None,
        Some(SetupCall::GenerateId),
        Some(SetupCall::AllocateSegment { size: 0, mode: 0 }),
        Some(SetupCall::MapSegment { shm_id: 0, read_only: true }),
        Some(SetupCall::AttachSegment { seg: 0, shmid: 0, read_only: false }),
        Some(SetupCall::Randr(RandrCall::ResourcesCurrent { window: 0 })),
    ];
    let mut accelerated = 0;
    for round in 0..100 {
        let ledger = Ledger::new(failures[round % failures.len()], round % 7 == 3);
        match setup(&|call| ledger.answer(call)).0 {
            Ok(engine) => {
                if engine.shm_enabled() {
                    accelerated += 1;
                    assert!(!ledger.clean());
                }
                ledger.release(engine.close());
            }
            Err(failure) => ledger.release(failure.release),
        }
        assert!(ledger.clean(), "round {} left something behind", round);
    }
    assert!(accelerated > 10);
}

fn run_from(
    engine: &X11Capturer,
    first: Step<Fetch, X11Call, Result<RgbImage, X11Error>>,
    surface: &dyn Fn(&X11Call) -> ImageReply,
) -> Result<RgbImage, X11Error> {
    let mut step = first;
    loop {
        match step {
            Step::Call(session, call) => {
                let reply = surface(&call);
                assert!(engine.admits(&session, &reply));
                step = engine.resume_capture(session, reply);
            }
            Step::Done(result) => return result,
        }
    }
}

#[test]
fn x11_one_engine_gives_the_same_image_on_either_path() {
    let screen = static_screen();
    let engine = engine(&shm_server);
    for index in 0..2 {
        let shared = run_from(&engine, engine.capture_shm(index), &screen).unwrap();
        let again = run_from(&engine, engine.capture_shm(index), &screen).unwrap();
        let standard = run_from(&engine, engine.capture_standard(index), &screen).unwrap();
        let once_more = run_from(&engine, engine.capture_standard(index), &screen).unwrap();
        assert_eq!(shared.width(), standard.width());
        assert_eq!(shared.height(), standard.height());
        let bytes = shared.into_raw();
        assert_eq!(bytes, again.into_raw());
        assert_eq!(bytes, standard.into_raw());
        assert_eq!(bytes, once_more.into_raw());
    }
}

#[test]
fn x11_either_path_fails_alike_for_a_missing_display() {
    let engine = engine(&shm_server);
    assert!(matches!(engine.capture_shm(2), Step::Done(Err(X11Error::DisplayNotFound))));
    assert!(matches!(engine.capture_standard(2), Step::Done(Err(X11Error::DisplayNotFound))));
}
