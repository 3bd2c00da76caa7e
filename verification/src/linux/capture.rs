//! The capture engine: one image request per display, over the wire or
//! through the shared-memory segment.

use crate::display::Display;
use crate::linux::enumeration::Monitor;
use crate::linux::error::X11Error;
use crate::linux::segment::{Segment, Teardown};
use crate::raster::{bgr_to_rgb_image, normalized, raw_buffer_fits, raw_fits, Raster, RgbImage};
use crate::step::{
    batch_resume, batch_start, batch_step, lemma_capture_all_matches_capture, rasters, run, seen,
    seen_all, Batch, Step,
};
use vstd::prelude::*;

verus! {

/// The rectangle of an image request, with what selects the planes and the
/// layout of the pixels.
#[derive(Debug, Copy, Clone, PartialEq, Eq, Structural)]
pub struct ImageRequest {
    pub drawable: u32,
    pub x: i16,
    pub y: i16,
    pub width: u16,
    pub height: u16,
    pub plane_mask: u32,
    pub format: u8,
}

/// A request of a capture.
#[derive(Debug, Copy, Clone, PartialEq, Eq, Structural)]
pub enum X11Call {
    /// Fetch the image; the pixels come back in the reply.
    GetImage(ImageRequest),
    /// Fetch the image; the server writes the pixels into the segment, from
    /// `offset` on.
    ShmGetImage { request: ImageRequest, shmseg: u32, offset: u32 },
    /// Copy `len` bytes out of the mapped segment, from `offset` on.
    ReadSegment { offset: u32, len: u32 },
}

/// What came back from a request of a capture.
pub enum ImageReply {
    /// The pixels, from the reply or from the segment.
    Pixels(Vec<u8>),
    /// The server wrote this many bytes into the segment.
    Written { size: u32 },
    /// The server answered with an error.
    Refused,
    /// The connection broke.
    Lost,
}

/// Which answer a capture waits for.
#[derive(Debug, Copy, Clone, PartialEq, Eq, Structural)]
pub enum Fetching {
    /// The reply to the image request of the standard path, with the pixels.
    Wire,
    /// The reply to the image request of the shared-memory path, with the
    /// number of bytes written.
    Shared,
    /// The bytes of the segment.
    Segment,
}

/// A capture under way: the display it is of, and what it waits for.
#[derive(Debug, Copy, Clone, PartialEq, Eq, Structural)]
pub struct Fetch {
    pub index: usize,
    pub awaited: Fetching,
}

/// Every plane of the drawable.
pub const PLANE_MASK: u32 = 0xffff_ffff;

/// The code of the Z-pixmap image format in the X protocol.
pub const Z_PIXMAP: u8 = 2;

/// `u8::from(ImageFormat::Z_PIXMAP)` of x11rb: the code that the protocol
/// gives the Z-pixmap image format, which is 2.
#[verifier::external_body]
fn z_pixmap() -> (format: u8)
    ensures
        format == Z_PIXMAP,
{
    u8::from(x11rb::protocol::xproto::ImageFormat::Z_PIXMAP)
}

/// The image request for a monitor: its rectangle on its root window, every
/// plane, as a Z-pixmap.
pub open spec fn request_for(monitor: Monitor) -> ImageRequest {
    ImageRequest {
        drawable: monitor.root,
        x: monitor.x,
        y: monitor.y,
        width: monitor.width,
        height: monitor.height,
        plane_mask: PLANE_MASK,
        format: Z_PIXMAP,
    }
}

/// An X11 capture engine, as the contracts see it: its monitors in
/// enumeration order, and its segment where the shared-memory path is on.
pub struct X11View {
    pub monitors: Seq<Monitor>,
    pub segment: Option<Segment>,
}

impl X11View {
    /// The displays of the engine.
    pub open spec fn displays(self) -> Seq<Display> {
        self.monitors.map_values(|monitor: Monitor| monitor.display())
    }
}

/// The X11 capture engine.
pub struct X11Capturer {
    monitors: Vec<Monitor>,
    displays: Vec<Display>,
    segment: Option<Segment>,
}

impl View for X11Capturer {
    type V = X11View;

    closed spec fn view(&self) -> X11View {
        X11View { monitors: self.monitors@, segment: self.segment }
    }
}

impl X11Capturer {
    #[verifier::type_invariant]
    spec fn inv(self) -> bool {
        self.displays@ == self.monitors@.map_values(|monitor: Monitor| monitor.display())
    }

    /// The engine over these monitors, with this segment if any.
    pub(crate) fn over(monitors: Vec<Monitor>, segment: Option<Segment>) -> (engine: X11Capturer)
        ensures
            engine@ == (X11View { monitors: monitors@, segment }),
    {
        let mut displays: Vec<Display> = Vec::with_capacity(monitors.len());
        let mut index: usize = 0;
        while index < monitors.len()
            invariant
                index <= monitors.len(),
                displays@ == monitors@.take(index as int).map_values(
                    |monitor: Monitor| monitor.display(),
                ),
            decreases monitors.len() - index,
        {
            displays.push(monitors[index].to_display());
            index = index + 1;
            assert(displays@ =~= monitors@.take(index as int).map_values(
                |monitor: Monitor| monitor.display(),
            ));
        }
        assert(monitors@.take(index as int) =~= monitors@);
        X11Capturer { monitors, displays, segment }
    }

    /// The displays found at initialization, in enumeration order.
    pub fn displays(&self) -> (list: &[Display])
        ensures
            list@ == self@.displays(),
    {
        proof {
            use_type_invariant(self);
        }
        self.displays.as_slice()
    }

    /// Whether captures go through shared memory.
    pub fn shm_enabled(&self) -> (enabled: bool)
        ensures
            enabled == self@.segment.is_some(),
    {
        self.segment.is_some()
    }

    /// Ends the engine: what the caller has to give back, which is the
    /// segment where the shared-memory path was on and nothing otherwise.
    pub fn close(self) -> (teardown: Teardown)
        ensures
            teardown == Teardown::of(self@.segment),
    {
        match self.segment {
            Some(segment) => Teardown {
                detach: Some(segment.seg),
                unmap: true,
                remove: Some(segment.shm_id),
            },
            None => Teardown { detach: None, unmap: false, remove: None },
        }
    }
}

impl X11View {
    /// The first step of capturing display `index` on the standard path: one
    /// image request for its rectangle, or the failure where there is no
    /// such display.
    pub open spec fn standard(self, index: int) -> Step<Fetch, X11Call, Result<Raster, X11Error>> {
        if 0 <= index < self.monitors.len() {
            Step::Call(
                Fetch { index: index as usize, awaited: Fetching::Wire },
                X11Call::GetImage(request_for(self.monitors[index])),
            )
        } else {
            Step::Done(Err(X11Error::DisplayNotFound))
        }
    }

    /// The first step of capturing display `index` on the shared-memory
    /// path: one image request for its rectangle, to be written at the start
    /// of the segment, or the failure where there is no such display.
    pub open spec fn shared(self, index: int, segment: Segment) -> Step<
        Fetch,
        X11Call,
        Result<Raster, X11Error>,
    > {
        if 0 <= index < self.monitors.len() {
            Step::Call(
                Fetch { index: index as usize, awaited: Fetching::Shared },
                X11Call::ShmGetImage {
                    request: request_for(self.monitors[index]),
                    shmseg: segment.seg,
                    offset: 0,
                },
            )
        } else {
            Step::Done(Err(X11Error::DisplayNotFound))
        }
    }

    /// The first step of capturing display `index`, on the path that the
    /// engine was made for.
    pub open spec fn started(self, index: int) -> Step<Fetch, X11Call, Result<Raster, X11Error>> {
        match self.segment {
            Some(segment) => self.shared(index, segment),
            None => self.standard(index),
        }
    }

    /// Whether an answer is one that a capture can go on with. Pixels have
    /// to cover the display they are of: pixels that do not are no answer of
    /// a server but a fault of whoever hands them in.
    pub open spec fn admits(self, session: Fetch, reply: ImageReply) -> bool {
        session.index < self.monitors.len() && session.awaited != Fetching::Shared
            ==> (reply matches ImageReply::Pixels(data) ==> raw_fits(
            data@.len(),
            self.monitors[session.index as int].width as nat,
            self.monitors[session.index as int].height as nat,
        ))
    }

    /// How a capture of `monitor` ends once the pixels are in: with the
    /// pixels normalized at the size of the monitor.
    pub open spec fn finished(monitor: Monitor, data: Seq<u8>) -> Step<
        Fetch,
        X11Call,
        Result<Raster, X11Error>,
    > {
        Step::Done(Ok(normalized(data, monitor.width as nat, monitor.height as nat)))
    }

    /// The next step of a capture.
    ///
    /// On the standard path the reply to the image request holds the pixels.
    /// On the shared-memory path it says how many bytes the server wrote;
    /// where the segment holds that many, they are read from its start and
    /// are the pixels. From there both paths end alike. Any other answer
    /// fails the capture.
    pub open spec fn resumed(self, session: Fetch, reply: ImageReply) -> Step<
        Fetch,
        X11Call,
        Result<Raster, X11Error>,
    > {
        if session.index < self.monitors.len() {
            let monitor = self.monitors[session.index as int];
            match (session.awaited, reply) {
                (Fetching::Wire, ImageReply::Pixels(data)) => Self::finished(monitor, data@),
                (Fetching::Shared, ImageReply::Written { size }) => if self.segment matches Some(
                    segment,
                ) && size <= segment.size {
                    Step::Call(
                        Fetch { awaited: Fetching::Segment, ..session },
                        X11Call::ReadSegment { offset: 0, len: size },
                    )
                } else {
                    Step::Done(Err(X11Error::ProtocolError))
                },
                (Fetching::Segment, ImageReply::Pixels(data)) => Self::finished(monitor, data@),
                _ => Step::Done(Err(X11Error::ProtocolError)),
            }
        } else {
            Step::Done(Err(X11Error::DisplayNotFound))
        }
    }

    /// [`Self::started`] as a function of the index.
    pub open spec fn starter(self) -> spec_fn(int) -> Step<
        Fetch,
        X11Call,
        Result<Raster, X11Error>,
    > {
        |index: int| self.started(index)
    }

    /// [`Self::resumed`] as a function of session and reply.
    pub open spec fn resumer(self) -> spec_fn(Fetch, ImageReply) -> Step<
        Fetch,
        X11Call,
        Result<Raster, X11Error>,
    > {
        |session: Fetch, reply: ImageReply| self.resumed(session, reply)
    }
}

impl X11Capturer {
    fn request(&self, index: usize) -> (request: ImageRequest)
        requires
            index < self@.monitors.len(),
        ensures
            request == request_for(self@.monitors[index as int]),
    {
        let monitor = self.monitors[index];
        ImageRequest {
            drawable: monitor.root,
            x: monitor.x,
            y: monitor.y,
            width: monitor.width,
            height: monitor.height,
            plane_mask: PLANE_MASK,
            format: z_pixmap(),
        }
    }

    /// Begins the capture of display `index` on the standard path: the
    /// pixels are to come back over the wire.
    pub fn capture_standard(&self, index: usize) -> (step: Step<
        Fetch,
        X11Call,
        Result<RgbImage, X11Error>,
    >)
        ensures
            seen(step) == self@.standard(index as int),
    {
        if index < self.monitors.len() {
            Step::Call(
                Fetch { index, awaited: Fetching::Wire },
                X11Call::GetImage(self.request(index)),
            )
        } else {
            Step::Done(Err(X11Error::DisplayNotFound))
        }
    }

    /// Begins the capture of display `index` on the shared-memory path: the
    /// server is to write the pixels at the start of the segment. Only an
    /// engine that has a segment can take this path.
    pub fn capture_shm(&self, index: usize) -> (step: Step<
        Fetch,
        X11Call,
        Result<RgbImage, X11Error>,
    >)
        requires
            self@.segment.is_some(),
        ensures
            seen(step) == self@.shared(index as int, self@.segment.unwrap()),
    {
        let segment = self.segment.unwrap();
        if index < self.monitors.len() {
            Step::Call(
                Fetch { index, awaited: Fetching::Shared },
                X11Call::ShmGetImage {
                    request: self.request(index),
                    shmseg: segment.seg,
                    offset: 0,
                },
            )
        } else {
            Step::Done(Err(X11Error::DisplayNotFound))
        }
    }

    /// Begins the capture of display `index`, on the path that was chosen
    /// when the engine was made.
    pub fn capture(&self, index: usize) -> (step: Step<Fetch, X11Call, Result<RgbImage, X11Error>>)
        ensures
            seen(step) == self@.started(index as int),
            index >= self@.monitors.len() ==> step matches Step::Done(
                Err(X11Error::DisplayNotFound),
            ),
            index < self@.monitors.len() ==> step is Call,
    {
        if self.segment.is_some() {
            self.capture_shm(index)
        } else {
            self.capture_standard(index)
        }
    }

    /// Whether an answer is one that a capture can go on with: pixels have
    /// to cover the display they are of.
    pub fn admits(&self, session: &Fetch, reply: &ImageReply) -> (admitted: bool)
        ensures
            admitted == self@.admits(*session, *reply),
    {
        if session.index < self.monitors.len() {
            let monitor = self.monitors[session.index];
            match (session.awaited, reply) {
                (Fetching::Shared, _) => true,
                (_, ImageReply::Pixels(data)) => raw_buffer_fits(
                    data.len(),
                    monitor.width as u32,
                    monitor.height as u32,
                ),
                _ => true,
            }
        } else {
            true
        }
    }

    /// Goes on with a capture, given what the last request brought.
    pub fn resume_capture(&self, session: Fetch, reply: ImageReply) -> (step: Step<
        Fetch,
        X11Call,
        Result<RgbImage, X11Error>,
    >)
        requires
            self@.admits(session, reply),
        ensures
            seen(step) == self@.resumed(session, reply),
    {
        if session.index >= self.monitors.len() {
            return Step::Done(Err(X11Error::DisplayNotFound));
        }
        let width = self.monitors[session.index].width as u32;
        let height = self.monitors[session.index].height as u32;
        match (session.awaited, reply) {
            (Fetching::Wire, ImageReply::Pixels(data)) => Step::Done(
                Ok(bgr_to_rgb_image(data.as_slice(), width, height)),
            ),
            (Fetching::Shared, ImageReply::Written { size }) => match self.segment {
                Some(segment) => {
                    if size as u64 <= segment.size {
                        Step::Call(
                            Fetch { index: session.index, awaited: Fetching::Segment },
                            X11Call::ReadSegment { offset: 0, len: size },
                        )
                    } else {
                        Step::Done(Err(X11Error::ProtocolError))
                    }
                },
                None => Step::Done(Err(X11Error::ProtocolError)),
            },
            (Fetching::Segment, ImageReply::Pixels(data)) => Step::Done(
                Ok(bgr_to_rgb_image(data.as_slice(), width, height)),
            ),
            _ => Step::Done(Err(X11Error::ProtocolError)),
        }
    }

    fn collect(&self, images: Vec<RgbImage>, step: Step<Fetch, X11Call, Result<RgbImage, X11Error>>) -> (next:
        Step<Batch<Fetch>, X11Call, Result<Vec<RgbImage>, X11Error>>)
        ensures
            seen_all(next) == batch_step(
                self@.monitors.len(),
                self@.starter(),
                rasters(images@),
                seen(step),
            ),
    {
        let total = self.monitors.len();
        let ghost goal = batch_step(
            self@.monitors.len(),
            self@.starter(),
            rasters(images@),
            seen(step),
        );
        let mut done = images;
        let mut current = step;
        loop
            invariant
                total == self@.monitors.len(),
                goal == batch_step(
                    self@.monitors.len(),
                    self@.starter(),
                    rasters(images@),
                    seen(step),
                ),
                goal == batch_step(
                    self@.monitors.len(),
                    self@.starter(),
                    rasters(done@),
                    seen(current),
                ),
            decreases total - done.len(),
        {
            match current {
                Step::Call(session, call) => {
                    return Step::Call(Batch { images: done, session }, call);
                },
                Step::Done(Err(error)) => {
                    return Step::Done(Err(error));
                },
                Step::Done(Ok(image)) => {
                    let ghost before = rasters(done@);
                    let last = total == 0 || done.len() >= total - 1;
                    done.push(image);
                    assert(rasters(done@) =~= before.push(image@));
                    if last {
                        return Step::Done(Ok(done));
                    }
                    current = self.capture(done.len());
                },
            }
        }
    }

    /// Begins the capture of every display, in the order of the list.
    pub fn capture_all(&self) -> (step: Step<
        Batch<Fetch>,
        X11Call,
        Result<Vec<RgbImage>, X11Error>,
    >)
        ensures
            seen_all(step) == batch_start(self@.monitors.len(), self@.starter()),
    {
        let images: Vec<RgbImage> = Vec::new();
        assert(rasters(images@) =~= Seq::empty());
        if self.monitors.len() == 0 {
            Step::Done(Ok(images))
        } else {
            let first = self.capture(0);
            self.collect(images, first)
        }
    }

    /// Goes on with the capture of every display: the reply ends the capture
    /// of the current one, and the next one begins. The first failure ends
    /// the batch.
    pub fn resume_capture_all(&self, batch: Batch<Fetch>, reply: ImageReply) -> (step: Step<
        Batch<Fetch>,
        X11Call,
        Result<Vec<RgbImage>, X11Error>,
    >)
        requires
            self@.admits(batch.session, reply),
        ensures
            seen_all(step) == batch_resume(
                self@.monitors.len(),
                self@.starter(),
                self@.resumer(),
            )((rasters(batch.images@), batch.session), reply),
    {
        let Batch { images, session } = batch;
        let current = self.resume_capture(session, reply);
        self.collect(images, current)
    }
}

/// What a screen shows in a rectangle, to a surface: the standard path gets
/// these bytes in the reply, and the shared-memory path is told their number
/// and finds them at the start of the segment.
pub open spec fn shows(surface: spec_fn(X11Call) -> ImageReply, call: X11Call, data: Seq<u8>) -> bool {
    match call {
        X11Call::GetImage(_) => surface(call) matches ImageReply::Pixels(pixels) && pixels@ == data,
        X11Call::ShmGetImage { .. } => {
            &&& data.len() <= u32::MAX
            &&& surface(call) == (ImageReply::Written { size: data.len() as u32 })
            &&& surface(X11Call::ReadSegment { offset: 0, len: data.len() as u32 }) matches ImageReply::Pixels(
                pixels,
            ) && pixels@ == data
        },
        X11Call::ReadSegment { .. } => false,
    }
}

/// A capture of an existing display succeeds when the screen shows its
/// pixels and the segment, where there is one, holds them all; the image has
/// the width and height of the display and the pixels shown.
pub proof fn lemma_capture_succeeds(
    engine: X11View,
    index: int,
    surface: spec_fn(X11Call) -> ImageReply,
    data: Seq<u8>,
)
    requires
        0 <= index < engine.monitors.len(),
        index <= usize::MAX,
        engine.started(index) matches Step::Call(_, call) && shows(surface, call, data),
        engine.segment matches Some(segment) ==> data.len() <= segment.size,
    ensures
        run(engine.resumer(), surface, engine.started(index), 2) == Some(
            Ok::<Raster, X11Error>(
                normalized(
                    data,
                    engine.displays()[index].width as nat,
                    engine.displays()[index].height as nat,
                ),
            ),
        ),
{
    reveal_with_fuel(run, 3);
}

/// The shared-memory path and the standard path give the same image of a
/// static screen: on an engine with a segment, the capture of a display
/// ends alike on either path when the screen shows both the same bytes and
/// the segment can hold them.
pub proof fn lemma_paths_agree(
    engine: X11View,
    segment: Segment,
    index: int,
    surface: spec_fn(X11Call) -> ImageReply,
    data: Seq<u8>,
)
    requires
        engine.segment == Some(segment),
        0 <= index < engine.monitors.len(),
        index <= usize::MAX,
        data.len() <= segment.size,
        engine.standard(index) matches Step::Call(_, call) && shows(surface, call, data),
        engine.shared(index, segment) matches Step::Call(_, call) && shows(surface, call, data),
    ensures
        run(engine.resumer(), surface, engine.shared(index, segment), 2) == run(
            engine.resumer(),
            surface,
            engine.standard(index),
            2,
        ),
        run(engine.resumer(), surface, engine.standard(index), 2) == Some(
            Ok::<Raster, X11Error>(
                normalized(
                    data,
                    engine.displays()[index].width as nat,
                    engine.displays()[index].height as nat,
                ),
            ),
        ),
{
    reveal_with_fuel(run, 3);
}

/// A capture depends on nothing but the engine, the display and what the
/// screen shows: two captures of one display on one path, on a screen that
/// answers both alike, end alike.
pub proof fn lemma_capture_repeats(
    engine: X11View,
    first: Step<Fetch, X11Call, Result<Raster, X11Error>>,
    surface: spec_fn(X11Call) -> ImageReply,
    again: spec_fn(X11Call) -> ImageReply,
    calls: nat,
)
    requires
        forall|call: X11Call| #[trigger] surface(call) == again(call),
    ensures
        run(engine.resumer(), surface, first, calls) == run(
            engine.resumer(),
            again,
            first,
            calls,
        ),
    decreases calls,
{
    match first {
        Step::Call(session, call) => {
            if calls > 0 {
                lemma_capture_repeats(
                    engine,
                    engine.resumed(session, surface(call)),
                    surface,
                    again,
                    (calls - 1) as nat,
                );
            }
        },
        Step::Done(_) => {},
    }
}

/// On a screen that does not change, capturing every display gives one image
/// per display, each the image that capturing that display alone gives; and
/// where a display fails alone, the batch fails as the first such display
/// does.
pub proof fn lemma_batch_matches_single(engine: X11View, surface: spec_fn(X11Call) -> ImageReply)
    ensures
        match run(
            batch_resume(engine.monitors.len(), engine.starter(), engine.resumer()),
            surface,
            batch_start(engine.monitors.len(), engine.starter()),
            engine.monitors.len() * 2,
        ) {
            Some(Ok(images)) => {
                &&& images.len() == engine.monitors.len()
                &&& forall|index: int|
                    0 <= index < engine.monitors.len() ==> #[trigger] run(
                        engine.resumer(),
                        surface,
                        engine.started(index),
                        2,
                    ) == Some(Ok::<Raster, X11Error>(images[index]))
            },
            Some(Err(error)) => exists|failed: int|
                {
                    &&& 0 <= failed < engine.monitors.len()
                    &&& #[trigger] run(engine.resumer(), surface, engine.started(failed), 2)
                        == Some(Err::<Raster, X11Error>(error))
                    &&& forall|index: int|
                        0 <= index < failed ==> (#[trigger] run(
                            engine.resumer(),
                            surface,
                            engine.started(index),
                            2,
                        )) matches Some(Ok(_))
                },
            None => false,
        },
{
    let total = engine.monitors.len();
    let start = engine.starter();
    let resume = engine.resumer();
    assert forall|index: int| 0 <= index < total implies (#[trigger] run(
        resume,
        surface,
        start(index),
        2,
    )) is Some by {
        reveal_with_fuel(run, 3);
    }
    lemma_capture_all_matches_capture(total, start, resume, surface, 2);
    assert forall|index: int| 0 <= index < total implies start(index) == engine.started(index) by {}
}

} // verus!
