//! The CoreGraphics backend.
//!
//! The engine owns nothing of the window system. Enumeration is handed the
//! bounds and rotation of every active display; a capture asks for one
//! screenshot and normalizes the bitmap that comes back.

use crate::display::Display;
use crate::raster::{
    bgr_rows_to_rgb_image, normalized_rows, raw_rows_fit, rows_fit, Raster, RgbImage,
};
use crate::step::{
    batch_resume, batch_start, batch_step, lemma_capture_all_matches_capture, rasters, run, seen,
    seen_all, Batch, Step,
};
use vstd::prelude::*;
use vstd::std_specs::convert::FromSpecImpl;

verus! {

/// Why the CoreGraphics backend failed.
#[derive(Debug, Copy, Clone, PartialEq, Eq, Structural)]
pub enum MacOSError {
    /// CoreGraphics refused a query, with this code.
    CoreGraphicsError(i32),
    /// No display has the index asked for.
    CouldntFindDisplay,
    /// No usable screenshot came back.
    CouldntScreenshot,
}

impl From<i32> for MacOSError {
    fn from(number: i32) -> (error: MacOSError) {
        MacOSError::CoreGraphicsError(number)
    }
}

impl FromSpecImpl<i32> for MacOSError {
    open spec fn obeys_from_spec() -> bool {
        true
    }

    open spec fn from_spec(number: i32) -> MacOSError {
        MacOSError::CoreGraphicsError(number)
    }
}

/// What CoreGraphics reports of one active display: its bounding rectangle as
/// the panel is mounted, and its rotation in whole degrees.
#[derive(Debug, Copy, Clone, PartialEq, Eq, Structural)]
pub struct NativeBounds {
    pub left: i32,
    pub top: i32,
    pub width: u32,
    pub height: u32,
    pub rotation: i32,
}

/// The display that native bounds describe: turned by a quarter either way,
/// width and height change places.
pub open spec fn oriented(native: NativeBounds) -> Display {
    if native.rotation == 90 || native.rotation == -90 {
        Display { top: native.top, left: native.left, width: native.height, height: native.width }
    } else {
        Display { top: native.top, left: native.left, width: native.width, height: native.height }
    }
}

/// Whether `index` is the primary display of `displays`: the first one whose
/// rectangle starts at the origin, or the first of all where none does.
pub open spec fn is_primary(displays: Seq<Display>, index: int) -> bool {
    &&& forall|before: int|
        0 <= before < index && before < displays.len() ==> !at_origin(#[trigger] displays[before])
    &&& if 0 <= index < displays.len() && at_origin(displays[index]) {
        true
    } else {
        index == 0 && forall|any: int| 0 <= any < displays.len() ==> !at_origin(#[trigger] displays[any])
    }
}

/// Whether a display's rectangle starts at the origin of the desktop.
pub open spec fn at_origin(display: Display) -> bool {
    display.left == 0 && display.top == 0
}

/// The request for one screenshot: the rectangle to capture, composed of
/// every window on screen, with no window singled out.
#[derive(Debug, Copy, Clone, PartialEq, Eq, Structural)]
pub struct Screenshot {
    pub bounds: Display,
    pub every_window: bool,
    pub relative_to: Option<u32>,
}

/// The bitmap of a screenshot, as CoreGraphics describes it.
pub struct Bitmap {
    pub width: usize,
    pub height: usize,
    pub bytes_per_row: usize,
    pub data: Vec<u8>,
}

impl Bitmap {
    /// Whether the bitmap can be normalized: an image can have its width and
    /// height, its rows hold four bytes to the pixel, and its data holds
    /// every pixel it claims. A bitmap that falls short describes itself
    /// wrongly; it is no answer of the window system but a fault of whoever
    /// hands it in.
    pub open spec fn usable(self) -> bool {
        &&& self.width <= u32::MAX
        &&& self.height <= u32::MAX
        &&& rows_fit(
            self.data@.len(),
            self.width as nat,
            self.height as nat,
            self.bytes_per_row as nat,
        )
    }

    /// Whether the bitmap can be normalized.
    pub fn is_usable(&self) -> (usable: bool)
        ensures
            usable == self.usable(),
    {
        self.width <= u32::MAX as usize && self.height <= u32::MAX as usize && raw_rows_fit(
            self.data.len(),
            self.width as u32,
            self.height as u32,
            self.bytes_per_row,
        )
    }
}

/// Whether an answer is one that a capture can go on with: a bitmap has to
/// be usable.
pub open spec fn admits(reply: Option<Bitmap>) -> bool {
    reply matches Some(bitmap) ==> bitmap.usable()
}

/// A capture under way: the display it is of.
#[derive(Debug, Copy, Clone, PartialEq, Eq, Structural)]
pub struct Shot {
    pub index: usize,
}

/// The CoreGraphics capture engine.
pub struct MacOSCapturer {
    displays: Vec<Display>,
    primary: usize,
}

impl View for MacOSCapturer {
    type V = Seq<Display>;

    closed spec fn view(&self) -> Seq<Display> {
        self.displays@
    }
}

fn find_primary(displays: &Vec<Display>) -> (primary: usize)
    ensures
        is_primary(displays@, primary as int),
{
    let mut index: usize = 0;
    while index < displays.len()
        invariant
            index <= displays.len(),
            forall|before: int| 0 <= before < index ==> !at_origin(#[trigger] displays@[before]),
        decreases displays.len() - index,
    {
        if displays[index].left == 0 && displays[index].top == 0 {
            return index;
        }
        index = index + 1;
    }
    0
}

impl MacOSCapturer {
    #[verifier::type_invariant]
    spec fn inv(self) -> bool {
        is_primary(self.displays@, self.primary as int)
    }

    /// Turns what CoreGraphics reports of the active displays into the
    /// display list, in the order reported. A refused query fails with the
    /// code it gave.
    pub fn get_displays(active: Result<Vec<NativeBounds>, i32>) -> (found: Result<
        Vec<Display>,
        MacOSError,
    >)
        ensures
            match active {
                Ok(natives) => found matches Ok(displays) && displays@ == natives@.map_values(
                    |native: NativeBounds| oriented(native),
                ),
                Err(code) => found == Err::<Vec<Display>, MacOSError>(
                    MacOSError::CoreGraphicsError(code),
                ),
            },
    {
        match active {
            Err(code) => Err(MacOSError::from(code)),
            Ok(natives) => {
                let mut displays: Vec<Display> = Vec::with_capacity(natives.len());
                let mut index: usize = 0;
                while index < natives.len()
                    invariant
                        index <= natives.len(),
                        displays@ == natives@.take(index as int).map_values(
                            |native: NativeBounds| oriented(native),
                        ),
                    decreases natives.len() - index,
                {
                    let native = natives[index];
                    let turned = native.rotation == 90 || native.rotation == -90;
                    displays.push(
                        Display {
                            top: native.top,
                            left: native.left,
                            width: if turned {
                                native.height
                            } else {
                                native.width
                            },
                            height: if turned {
                                native.width
                            } else {
                                native.height
                            },
                        },
                    );
                    index = index + 1;
                    assert(displays@ =~= natives@.take(index as int).map_values(
                        |native: NativeBounds| oriented(native),
                    ));
                }
                assert(natives@.take(index as int) =~= natives@);
                Ok(displays)
            },
        }
    }

    /// Builds the engine from what CoreGraphics reports of the active
    /// displays.
    pub fn new(active: Result<Vec<NativeBounds>, i32>) -> (made: Result<MacOSCapturer, MacOSError>)
        ensures
            match active {
                Ok(natives) => made matches Ok(engine) && engine@ == natives@.map_values(
                    |native: NativeBounds| oriented(native),
                ),
                Err(code) => made matches Err(error) && error == MacOSError::CoreGraphicsError(
                    code,
                ),
            },
    {
        match Self::get_displays(active) {
            Ok(displays) => {
                let primary = find_primary(&displays);
                Ok(MacOSCapturer { displays, primary })
            },
            Err(error) => Err(error),
        }
    }

    /// The displays found by the last enumeration that succeeded.
    pub fn displays(&self) -> (list: &[Display])
        ensures
            list@ == self@,
    {
        self.displays.as_slice()
    }

    /// Enumerates again and replaces the whole list at once. When the query
    /// was refused the list stays as it was.
    pub fn refresh_displays(&mut self, active: Result<Vec<NativeBounds>, i32>) -> (done: Result<
        (),
        MacOSError,
    >)
        ensures
            match active {
                Ok(natives) => done is Ok && final(self)@ == natives@.map_values(
                    |native: NativeBounds| oriented(native),
                ),
                Err(code) => done == Err::<(), MacOSError>(MacOSError::CoreGraphicsError(code))
                    && final(self)@ == old(self)@,
            },
    {
        match Self::get_displays(active) {
            Ok(displays) => {
                let primary = find_primary(&displays);
                *self = MacOSCapturer { displays, primary };
                Ok(())
            },
            Err(error) => Err(error),
        }
    }
}

impl MacOSCapturer {
    /// The index of the primary display.
    pub closed spec fn primary_index(&self) -> int {
        self.primary as int
    }

    /// The first step of capturing display `index`: one screenshot of its
    /// rectangle, or the failure where there is no such display.
    pub open spec fn started(&self, index: int) -> Step<
        Shot,
        Screenshot,
        Result<Raster, MacOSError>,
    > {
        if 0 <= index < self@.len() {
            Step::Call(
                Shot { index: index as usize },
                Screenshot { bounds: self@[index], every_window: true, relative_to: None },
            )
        } else {
            Step::Done(Err(MacOSError::CouldntFindDisplay))
        }
    }

    /// The last step of a capture: the bitmap normalized at its own size,
    /// row by row as far apart as the bitmap says its rows are, or the
    /// failure where no bitmap came back.
    pub open spec fn resumed(&self, session: Shot, reply: Option<Bitmap>) -> Step<
        Shot,
        Screenshot,
        Result<Raster, MacOSError>,
    > {
        match reply {
            Some(bitmap) => Step::Done(
                Ok(
                    normalized_rows(
                        bitmap.data@,
                        bitmap.width as nat,
                        bitmap.height as nat,
                        bitmap.bytes_per_row as nat,
                    ),
                ),
            ),
            None => Step::Done(Err(MacOSError::CouldntScreenshot)),
        }
    }

    /// [`Self::started`] as a function of the index.
    pub open spec fn starter(&self) -> spec_fn(int) -> Step<
        Shot,
        Screenshot,
        Result<Raster, MacOSError>,
    > {
        |index: int| self.started(index)
    }

    /// [`Self::resumed`] as a function of session and reply.
    pub open spec fn resumer(&self) -> spec_fn(Shot, Option<Bitmap>) -> Step<
        Shot,
        Screenshot,
        Result<Raster, MacOSError>,
    > {
        |session: Shot, reply: Option<Bitmap>| self.resumed(session, reply)
    }

    /// The index of the primary display.
    pub fn primary(&self) -> (index: usize)
        ensures
            index == self.primary_index(),
            is_primary(self@, index as int),
    {
        proof {
            use_type_invariant(self);
        }
        self.primary
    }

    /// Begins the capture of display `index`.
    pub fn capture(&self, index: usize) -> (step: Step<
        Shot,
        Screenshot,
        Result<RgbImage, MacOSError>,
    >)
        ensures
            seen(step) == self.started(index as int),
            index >= self@.len() ==> step matches Step::Done(Err(MacOSError::CouldntFindDisplay)),
            index < self@.len() ==> step is Call,
    {
        if index < self.displays.len() {
            Step::Call(
                Shot { index },
                Screenshot { bounds: self.displays[index], every_window: true, relative_to: None },
            )
        } else {
            Step::Done(Err(MacOSError::CouldntFindDisplay))
        }
    }

    /// Ends a capture with what the screenshot request gave.
    pub fn resume_capture(&self, session: Shot, reply: Option<Bitmap>) -> (step: Step<
        Shot,
        Screenshot,
        Result<RgbImage, MacOSError>,
    >)
        requires
            admits(reply),
        ensures
            seen(step) == self.resumed(session, reply),
    {
        match reply {
            Some(bitmap) => Step::Done(
                Ok(
                    bgr_rows_to_rgb_image(
                        bitmap.data.as_slice(),
                        bitmap.width as u32,
                        bitmap.height as u32,
                        bitmap.bytes_per_row,
                    ),
                ),
            ),
            None => Step::Done(Err(MacOSError::CouldntScreenshot)),
        }
    }

    /// Begins the capture of the primary display.
    pub fn capture_primary(&self) -> (step: Step<Shot, Screenshot, Result<RgbImage, MacOSError>>)
        ensures
            is_primary(self@, self.primary_index()),
            seen(step) == self.started(self.primary_index()),
    {
        let primary = self.primary();
        self.capture(primary)
    }

    fn collect(
        &self,
        images: Vec<RgbImage>,
        step: Step<Shot, Screenshot, Result<RgbImage, MacOSError>>,
    ) -> (next: Step<Batch<Shot>, Screenshot, Result<Vec<RgbImage>, MacOSError>>)
        ensures
            seen_all(next) == batch_step(
                self@.len(),
                self.starter(),
                rasters(images@),
                seen(step),
            ),
    {
        let total = self.displays.len();
        let ghost goal = batch_step(self@.len(), self.starter(), rasters(images@), seen(step));
        let mut done = images;
        let mut current = step;
        loop
            invariant
                total == self@.len(),
                goal == batch_step(self@.len(), self.starter(), rasters(images@), seen(step)),
                goal == batch_step(self@.len(), self.starter(), rasters(done@), seen(current)),
            decreases total - done.len(),
        {
            match current {
                Step::Call(session, call) => {
                    return Step::Call(Batch { images: done, session }, call);
                },
                Step::Done(Err(error)) => {
                    return Step::Done(Err(error));
                },
                Step::Done(Ok(image)) => {
                    let ghost before = rasters(done@);
                    let last = total == 0 || done.len() >= total - 1;
                    done.push(image);
                    assert(rasters(done@) =~= before.push(image@));
                    if last {
                        return Step::Done(Ok(done));
                    }
                    current = self.capture(done.len());
                },
            }
        }
    }

    /// Begins the capture of every display, in the order of the list.
    pub fn capture_all(&self) -> (step: Step<
        Batch<Shot>,
        Screenshot,
        Result<Vec<RgbImage>, MacOSError>,
    >)
        ensures
            seen_all(step) == batch_start(self@.len(), self.starter()),
    {
        let images: Vec<RgbImage> = Vec::new();
        assert(rasters(images@) =~= Seq::empty());
        if self.displays.len() == 0 {
            Step::Done(Ok(images))
        } else {
            let first = self.capture(0);
            self.collect(images, first)
        }
    }

    /// Goes on with the capture of every display: the reply ends the capture
    /// of the current one, and the next one begins. The first failure ends
    /// the batch.
    pub fn resume_capture_all(&self, batch: Batch<Shot>, reply: Option<Bitmap>) -> (step: Step<
        Batch<Shot>,
        Screenshot,
        Result<Vec<RgbImage>, MacOSError>,
    >)
        requires
            admits(reply),
        ensures
            seen_all(step) == batch_resume(self@.len(), self.starter(), self.resumer())(
                (rasters(batch.images@), batch.session),
                reply,
            ),
    {
        let Batch { images, session } = batch;
        let current = self.resume_capture(session, reply);
        self.collect(images, current)
    }
}

/// A capture of an existing display succeeds when a bitmap comes back, and
/// the image has the width and height that the bitmap reports, whatever
/// those of the display are.
pub proof fn lemma_capture_succeeds(
    engine: MacOSCapturer,
    index: int,
    surface: spec_fn(Screenshot) -> Option<Bitmap>,
)
    requires
        0 <= index < engine@.len(),
        engine.started(index) matches Step::Call(_, call) && surface(call) is Some,
    ensures
        engine.started(index) matches Step::Call(_, call) && surface(call) matches Some(bitmap)
            && run(engine.resumer(), surface, engine.started(index), 1) matches Some(Ok(image))
            && image.width == bitmap.width && image.height == bitmap.height && image
            == normalized_rows(
            bitmap.data@,
            bitmap.width as nat,
            bitmap.height as nat,
            bitmap.bytes_per_row as nat,
        ),
{
    reveal_with_fuel(run, 2);
}

/// On a screen that does not change, capturing every display gives one image
/// per display, each the image that capturing that display alone gives; and
/// where a display fails alone, the batch fails as the first such display
/// does.
pub proof fn lemma_batch_matches_single(
    engine: MacOSCapturer,
    surface: spec_fn(Screenshot) -> Option<Bitmap>,
)
    ensures
        match run(
            batch_resume(engine@.len(), engine.starter(), engine.resumer()),
            surface,
            batch_start(engine@.len(), engine.starter()),
            engine@.len(),
        ) {
            Some(Ok(images)) => {
                &&& images.len() == engine@.len()
                &&& forall|index: int|
                    0 <= index < engine@.len() ==> #[trigger] run(
                        engine.resumer(),
                        surface,
                        engine.started(index),
                        1,
                    ) == Some(Ok::<Raster, MacOSError>(images[index]))
            },
            Some(Err(error)) => exists|failed: int|
                {
                    &&& 0 <= failed < engine@.len()
                    &&& #[trigger] run(engine.resumer(), surface, engine.started(failed), 1)
                        == Some(Err::<Raster, MacOSError>(error))
                    &&& forall|index: int|
                        0 <= index < failed ==> (#[trigger] run(
                            engine.resumer(),
                            surface,
                            engine.started(index),
                            1,
                        )) matches Some(Ok(_))
                },
            None => false,
        },
{
    let total = engine@.len();
    let start = engine.starter();
    let resume = engine.resumer();
    assert forall|index: int| 0 <= index < total implies (#[trigger] run(
        resume,
        surface,
        start(index),
        1,
    )) is Some by {
        reveal_with_fuel(run, 2);
    }
    lemma_capture_all_matches_capture(total, start, resume, surface, 1);
    assert(total * 1 == total);
    assert forall|index: int| 0 <= index < total implies start(index) == engine.started(index) by {}
}

} // verus!
