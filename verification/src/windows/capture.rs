//! The capture engine: a bitmap section per capture, filled from the screen
//! and read back.

use crate::display::Display;
use crate::raster::{bgr_to_rgb_image, normalized, raw_buffer_fits, raw_fits, Raster, RgbImage};
use crate::step::{
    batch_resume, batch_start, batch_step, calls_of, lemma_capture_all_matches_capture, rasters,
    run, seen, seen_all, Batch, Step,
};
use crate::windows::error::WindowsError;
use crate::windows::setup::Contexts;
use vstd::prelude::*;

verus! {

/// A GDI capture engine, as the contracts see it.
pub struct WindowsView {
    pub displays: Seq<Display>,
    pub bits_per_pixel: u16,
}

/// Whether a bitmap section can be described for a display: its width and
/// height must fit the signed fields of the description.
pub open spec fn describable(display: Display) -> bool {
    display.width <= i32::MAX && display.height <= i32::MAX
}

/// Whether a bitmap section can be described for each of these displays.
pub open spec fn all_describable(displays: Seq<Display>) -> bool {
    forall|index: int| 0 <= index < displays.len() ==> describable(#[trigger] displays[index])
}

/// The GDI capture engine.
pub struct WindowsCapturer {
    displays: Vec<Display>,
    bits_per_pixel: u16,
}

impl View for WindowsCapturer {
    type V = WindowsView;

    closed spec fn view(&self) -> WindowsView {
        WindowsView { displays: self.displays@, bits_per_pixel: self.bits_per_pixel }
    }
}

impl WindowsCapturer {
    #[verifier::type_invariant]
    spec fn inv(self) -> bool {
        all_describable(self.displays@)
    }

    /// The engine over these displays, on a device of this depth.
    pub(crate) fn over(displays: Vec<Display>, bits_per_pixel: u16) -> (engine: WindowsCapturer)
        requires
            all_describable(displays@),
        ensures
            engine@ == (WindowsView { displays: displays@, bits_per_pixel }),
            all_describable(engine@.displays),
    {
        WindowsCapturer { displays, bits_per_pixel }
    }

    /// The displays found at initialization, in enumeration order.
    pub fn displays(&self) -> (list: &[Display])
        ensures
            list@ == self@.displays,
            all_describable(list@),
    {
        proof {
            use_type_invariant(self);
        }
        self.displays.as_slice()
    }

    /// Ends the engine: both device contexts are to be released.
    pub fn close(self) -> (release: Contexts)
        ensures
            release == (Contexts { compatible: true, window: true }),
    {
        Contexts { compatible: true, window: true }
    }
}

/// How the pixels of a bitmap section are stored.
#[derive(Debug, Copy, Clone, PartialEq, Eq, Structural)]
pub enum Compression {
    /// Uncompressed.
    Rgb,
}

/// The description of a bitmap section. A negative height asks for rows from
/// the top down.
#[derive(Debug, Copy, Clone, PartialEq, Eq, Structural)]
pub struct BitmapInfo {
    pub width: i32,
    pub height: i32,
    pub planes: u16,
    pub bit_count: u16,
    pub compression: Compression,
}

/// A block transfer from the screen into the memory context: the rectangle
/// on the screen, and where it lands.
#[derive(Debug, Copy, Clone, PartialEq, Eq, Structural)]
pub struct BlitArea {
    pub x: i32,
    pub y: i32,
    pub width: i32,
    pub height: i32,
    pub source_x: i32,
    pub source_y: i32,
    /// Whether windows layered over the screen are copied too.
    pub layered: bool,
}

/// A GDI call of a capture.
#[derive(Debug, Copy, Clone, PartialEq, Eq, Structural)]
pub enum GdiCall {
    /// Create a bitmap section whose memory can be read directly.
    CreateSection(BitmapInfo),
    /// Select the section into the memory context.
    SelectSection,
    /// Copy the screen rectangle into the memory context.
    Blit(BlitArea),
    /// Copy the first `bytes` bytes of the section's memory out, then delete
    /// the section.
    TakePixels { bytes: u64 },
    /// Delete the section of a capture that failed.
    DiscardSection,
}

/// What came back from a GDI call of a capture.
pub enum GdiReply {
    Created,
    Selected,
    Blitted,
    /// The memory of the section, and whether deleting the section went
    /// through.
    Taken { pixels: Vec<u8>, deleted: bool },
    Discarded,
    /// The call was refused.
    Failed,
}

/// Which answer a capture waits for.
#[derive(Debug, Copy, Clone, PartialEq, Eq, Structural)]
pub enum GdiStage {
    Creating,
    Selecting,
    Blitting,
    Taking,
    /// The capture failed with this error and is deleting its section.
    Discarding(WindowsError),
}

/// A capture under way: the display it is of, and how far it is.
#[derive(Debug, Copy, Clone, PartialEq, Eq, Structural)]
pub struct Transfer {
    pub index: usize,
    pub awaited: GdiStage,
}

/// A captured image, with the error of the release where the section could
/// not be deleted afterwards.
pub struct Frame {
    pub image: RgbImage,
    pub failure: Option<WindowsError>,
}

/// A captured image as the contracts see it.
pub struct FrameView {
    pub image: Raster,
    pub failure: Option<WindowsError>,
}

impl View for Frame {
    type V = FrameView;

    open spec fn view(&self) -> FrameView {
        FrameView { image: self.image@, failure: self.failure }
    }
}

/// A step of a capture as the contracts see it.
pub open spec fn seen_frame(step: Step<Transfer, GdiCall, Result<Frame, WindowsError>>) -> Step<
    Transfer,
    GdiCall,
    Result<FrameView, WindowsError>,
> {
    match step {
        Step::Call(session, call) => Step::Call(session, call),
        Step::Done(Ok(frame)) => Step::Done(Ok(frame@)),
        Step::Done(Err(error)) => Step::Done(Err(error)),
    }
}

/// A capture step for a batch, to which a section that could not be deleted
/// is a failure like any other.
pub open spec fn strict(step: Step<Transfer, GdiCall, Result<FrameView, WindowsError>>) -> Step<
    Transfer,
    GdiCall,
    Result<Raster, WindowsError>,
> {
    match step {
        Step::Call(session, call) => Step::Call(session, call),
        Step::Done(Ok(frame)) => match frame.failure {
            Some(error) => Step::Done(Err(error)),
            None => Step::Done(Ok(frame.image)),
        },
        Step::Done(Err(error)) => Step::Done(Err(error)),
    }
}

/// The bitmap section for a display: as wide and as high as the display,
/// rows from the top down, one plane, uncompressed, at the depth of the
/// device.
pub open spec fn bitmap_for(display: Display, bits_per_pixel: u16) -> BitmapInfo {
    BitmapInfo {
        width: display.width as i32,
        height: (-(display.height as int)) as i32,
        planes: 1,
        bit_count: bits_per_pixel,
        compression: Compression::Rgb,
    }
}

/// The block transfer for a display: its rectangle on the screen, layered
/// windows included, to the origin of the memory context.
pub open spec fn area_for(display: Display) -> BlitArea {
    BlitArea {
        x: 0,
        y: 0,
        width: display.width as i32,
        height: display.height as i32,
        source_x: display.left,
        source_y: display.top,
        layered: true,
    }
}

/// The bytes that the rows of a bitmap section take: every row is padded to
/// a multiple of four bytes.
pub open spec fn section_bytes(display: Display, bits_per_pixel: u16) -> int {
    (display.width * bits_per_pixel + 31) / 32 * 4 * display.height
}

/// The bytes to take from the section of a display: its quads, or the whole
/// section where that holds less.
pub open spec fn taken_bytes(display: Display, bits_per_pixel: u16) -> int {
    if 4 * display.area() <= section_bytes(display, bits_per_pixel) {
        4 * display.area() as int
    } else {
        section_bytes(display, bits_per_pixel)
    }
}

impl WindowsView {
    /// The first step of capturing display `index`: the creation of its
    /// bitmap section, or the failure where there is no such display.
    pub open spec fn started(self, index: int) -> Step<
        Transfer,
        GdiCall,
        Result<FrameView, WindowsError>,
    > {
        if 0 <= index < self.displays.len() {
            Step::Call(
                Transfer { index: index as usize, awaited: GdiStage::Creating },
                GdiCall::CreateSection(bitmap_for(self.displays[index], self.bits_per_pixel)),
            )
        } else {
            Step::Done(Err(WindowsError::CouldntFindDisplay))
        }
    }

    /// Whether an answer is one that a capture can go on with. The pixels
    /// taken from the section have to cover the display: pixels that do not
    /// are no answer of the system but a fault of whoever hands them in, or
    /// of a device that does not spend four bytes on a pixel.
    pub open spec fn admits(self, session: Transfer, reply: GdiReply) -> bool {
        session.index < self.displays.len() && session.awaited == GdiStage::Taking
            ==> (reply matches GdiReply::Taken { pixels, .. } ==> raw_fits(
            pixels@.len(),
            self.displays[session.index as int].width as nat,
            self.displays[session.index as int].height as nat,
        ))
    }

    /// The next step of a capture.
    ///
    /// The section is created, selected, filled from the screen, and read
    /// and deleted, in this order. A call that is refused ends the capture
    /// with the error of that call, once the section, if there is one, is
    /// deleted. The pixels taken are normalized at the size of the display.
    /// Where only the deletion at the end is refused, the image stands and
    /// the error comes with it.
    pub open spec fn resumed(self, session: Transfer, reply: GdiReply) -> Step<
        Transfer,
        GdiCall,
        Result<FrameView, WindowsError>,
    > {
        if !(session.index < self.displays.len()) {
            Step::Done(Err(WindowsError::CouldntFindDisplay))
        } else {
            let display = self.displays[session.index as int];
            match session.awaited {
                GdiStage::Creating => match reply {
                    GdiReply::Created => Step::Call(
                        Transfer { awaited: GdiStage::Selecting, ..session },
                        GdiCall::SelectSection,
                    ),
                    _ => Step::Done(Err(WindowsError::CreateDIBSectionFailed)),
                },
                GdiStage::Selecting => match reply {
                    GdiReply::Selected => Step::Call(
                        Transfer { awaited: GdiStage::Blitting, ..session },
                        GdiCall::Blit(area_for(display)),
                    ),
                    _ => Step::Call(
                        Transfer {
                            awaited: GdiStage::Discarding(WindowsError::SelectObjectFailed),
                            ..session
                        },
                        GdiCall::DiscardSection,
                    ),
                },
                GdiStage::Blitting => match reply {
                    GdiReply::Blitted => Step::Call(
                        Transfer { awaited: GdiStage::Taking, ..session },
                        GdiCall::TakePixels {
                            bytes: taken_bytes(display, self.bits_per_pixel) as u64,
                        },
                    ),
                    _ => Step::Call(
                        Transfer {
                            awaited: GdiStage::Discarding(WindowsError::BitBltFailed),
                            ..session
                        },
                        GdiCall::DiscardSection,
                    ),
                },
                GdiStage::Taking => match reply {
                    GdiReply::Taken { pixels, deleted } => Step::Done(
                        Ok(
                            FrameView {
                                image: normalized(
                                    pixels@,
                                    display.width as nat,
                                    display.height as nat,
                                ),
                                failure: if deleted {
                                    None
                                } else {
                                    Some(WindowsError::DeleteObjectFailed)
                                },
                            },
                        ),
                    ),
                    _ => Step::Done(Err(WindowsError::DeleteObjectFailed)),
                },
                GdiStage::Discarding(error) => Step::Done(Err(error)),
            }
        }
    }

    /// [`Self::started`] as a batch sees it, as a function of the index.
    pub open spec fn starter(self) -> spec_fn(int) -> Step<
        Transfer,
        GdiCall,
        Result<Raster, WindowsError>,
    > {
        |index: int| strict(self.started(index))
    }

    /// [`Self::resumed`] as a batch sees it, as a function of session and
    /// reply.
    pub open spec fn resumer(self) -> spec_fn(Transfer, GdiReply) -> Step<
        Transfer,
        GdiCall,
        Result<Raster, WindowsError>,
    > {
        |session: Transfer, reply: GdiReply| strict(self.resumed(session, reply))
    }
}

fn settle(step: Step<Transfer, GdiCall, Result<Frame, WindowsError>>) -> (settled: Step<
    Transfer,
    GdiCall,
    Result<RgbImage, WindowsError>,
>)
    ensures
        seen(settled) == strict(seen_frame(step)),
{
    match step {
        Step::Call(session, call) => Step::Call(session, call),
        Step::Done(Ok(frame)) => match frame.failure {
            Some(error) => Step::Done(Err(error)),
            None => Step::Done(Ok(frame.image)),
        },
        Step::Done(Err(error)) => Step::Done(Err(error)),
    }
}

fn bytes_to_take(display: Display, bits_per_pixel: u16) -> (bytes: u64)
    requires
        describable(display),
    ensures
        bytes == taken_bytes(display, bits_per_pixel),
{
    assert(0 <= display.width * display.height <= 0x7fff_ffff * 0x7fff_ffff && 0 <= display.width
        * bits_per_pixel <= 0x7fff_ffff * 0xffff) by (nonlinear_arith)
        requires
            display.width <= 0x7fff_ffff,
            display.height <= 0x7fff_ffff,
            bits_per_pixel <= 0xffff,
    ;
    let quads: u128 = 4 * ((display.width as u128) * (display.height as u128));
    let row: u128 = ((display.width as u128) * (bits_per_pixel as u128) + 31) / 32 * 4;
    assert(0 <= row * display.height <= 0x2_0000_0000_0000 * 0x7fff_ffff && row * display.height
        == section_bytes(display, bits_per_pixel)) by (nonlinear_arith)
        requires
            0 <= row <= 0x2_0000_0000_0000,
            display.height <= 0x7fff_ffff,
            row == (display.width * bits_per_pixel + 31) / 32 * 4,
    ;
    let section: u128 = row * (display.height as u128);
    if quads <= section {
        quads as u64
    } else {
        section as u64
    }
}

impl WindowsCapturer {
    /// Begins the capture of display `index`.
    pub fn capture(&self, index: usize) -> (step: Step<
        Transfer,
        GdiCall,
        Result<Frame, WindowsError>,
    >)
        ensures
            seen_frame(step) == self@.started(index as int),
            index >= self@.displays.len() ==> step matches Step::Done(
                Err(WindowsError::CouldntFindDisplay),
            ),
            index < self@.displays.len() ==> step is Call,
    {
        proof {
            use_type_invariant(self);
        }
        if index >= self.displays.len() {
            return Step::Done(Err(WindowsError::CouldntFindDisplay));
        }
        let display = self.displays[index];
        Step::Call(
            Transfer { index, awaited: GdiStage::Creating },
            GdiCall::CreateSection(
                BitmapInfo {
                    width: display.width as i32,
                    height: -(display.height as i32),
                    planes: 1,
                    bit_count: self.bits_per_pixel,
                    compression: Compression::Rgb,
                },
            ),
        )
    }

    /// Whether an answer is one that a capture can go on with: the pixels
    /// taken have to cover the display.
    pub fn admits(&self, session: &Transfer, reply: &GdiReply) -> (admitted: bool)
        ensures
            admitted == self@.admits(*session, *reply),
    {
        if session.index < self.displays.len() {
            let display = self.displays[session.index];
            match (session.awaited, reply) {
                (GdiStage::Taking, GdiReply::Taken { pixels, deleted: _ }) => raw_buffer_fits(
                    pixels.len(),
                    display.width,
                    display.height,
                ),
                _ => true,
            }
        } else {
            true
        }
    }

    /// Goes on with a capture, given what the last call brought.
    pub fn resume_capture(&self, session: Transfer, reply: GdiReply) -> (step: Step<
        Transfer,
        GdiCall,
        Result<Frame, WindowsError>,
    >)
        requires
            self@.admits(session, reply),
        ensures
            seen_frame(step) == self@.resumed(session, reply),
    {
        proof {
            use_type_invariant(self);
        }
        if session.index >= self.displays.len() {
            return Step::Done(Err(WindowsError::CouldntFindDisplay));
        }
        let display = self.displays[session.index];
        let index = session.index;
        match session.awaited {
            GdiStage::Creating => match reply {
                GdiReply::Created => Step::Call(
                    Transfer { index, awaited: GdiStage::Selecting },
                    GdiCall::SelectSection,
                ),
                _ => Step::Done(Err(WindowsError::CreateDIBSectionFailed)),
            },
            GdiStage::Selecting => match reply {
                GdiReply::Selected => Step::Call(
                    Transfer { index, awaited: GdiStage::Blitting },
                    GdiCall::Blit(
                        BlitArea {
                            x: 0,
                            y: 0,
                            width: display.width as i32,
                            height: display.height as i32,
                            source_x: display.left,
                            source_y: display.top,
                            layered: true,
                        },
                    ),
                ),
                _ => Step::Call(
                    Transfer {
                        index,
                        awaited: GdiStage::Discarding(WindowsError::SelectObjectFailed),
                    },
                    GdiCall::DiscardSection,
                ),
            },
            GdiStage::Blitting => match reply {
                GdiReply::Blitted => Step::Call(
                    Transfer { index, awaited: GdiStage::Taking },
                    GdiCall::TakePixels { bytes: bytes_to_take(display, self.bits_per_pixel) },
                ),
                _ => Step::Call(
                    Transfer { index, awaited: GdiStage::Discarding(WindowsError::BitBltFailed) },
                    GdiCall::DiscardSection,
                ),
            },
            GdiStage::Taking => match reply {
                GdiReply::Taken { pixels, deleted } => {
                    let image = bgr_to_rgb_image(pixels.as_slice(), display.width, display.height);
                    let failure = if deleted {
                        None
                    } else {
                        Some(WindowsError::DeleteObjectFailed)
                    };
                    Step::Done(Ok(Frame { image, failure }))
                },
                _ => Step::Done(Err(WindowsError::DeleteObjectFailed)),
            },
            GdiStage::Discarding(error) => Step::Done(Err(error)),
        }
    }

    fn collect(
        &self,
        images: Vec<RgbImage>,
        step: Step<Transfer, GdiCall, Result<RgbImage, WindowsError>>,
    ) -> (next: Step<Batch<Transfer>, GdiCall, Result<Vec<RgbImage>, WindowsError>>)
        ensures
            seen_all(next) == batch_step(
                self@.displays.len(),
                self@.starter(),
                rasters(images@),
                seen(step),
            ),
    {
        let total = self.displays.len();
        let ghost goal = batch_step(
            self@.displays.len(),
            self@.starter(),
            rasters(images@),
            seen(step),
        );
        let mut done = images;
        let mut current = step;
        loop
            invariant
                total == self@.displays.len(),
                goal == batch_step(
                    self@.displays.len(),
                    self@.starter(),
                    rasters(images@),
                    seen(step),
                ),
                goal == batch_step(
                    self@.displays.len(),
                    self@.starter(),
                    rasters(done@),
                    seen(current),
                ),
            decreases total - done.len(),
        {
            match current {
                Step::Call(session, call) => {
                    return Step::Call(Batch { images: done, session }, call);
                },
                Step::Done(Err(error)) => {
                    return Step::Done(Err(error));
                },
                Step::Done(Ok(image)) => {
                    let ghost before = rasters(done@);
                    let last = total == 0 || done.len() >= total - 1;
                    done.push(image);
                    assert(rasters(done@) =~= before.push(image@));
                    if last {
                        return Step::Done(Ok(done));
                    }
                    current = settle(self.capture(done.len()));
                },
            }
        }
    }

    /// Begins the capture of every display, in the order of the list.
    pub fn capture_all(&self) -> (step: Step<
        Batch<Transfer>,
        GdiCall,
        Result<Vec<RgbImage>, WindowsError>,
    >)
        ensures
            seen_all(step) == batch_start(self@.displays.len(), self@.starter()),
    {
        let images: Vec<RgbImage> = Vec::new();
        assert(rasters(images@) =~= Seq::empty());
        if self.displays.len() == 0 {
            Step::Done(Ok(images))
        } else {
            let first = settle(self.capture(0));
            self.collect(images, first)
        }
    }

    /// Goes on with the capture of every display: the reply goes to the
    /// capture of the current one, and when that ends the next one begins.
    /// The first failure ends the batch, a section that could not be deleted
    /// included.
    pub fn resume_capture_all(&self, batch: Batch<Transfer>, reply: GdiReply) -> (step: Step<
        Batch<Transfer>,
        GdiCall,
        Result<Vec<RgbImage>, WindowsError>,
    >)
        requires
            self@.admits(batch.session, reply),
        ensures
            seen_all(step) == batch_resume(
                self@.displays.len(),
                self@.starter(),
                self@.resumer(),
            )((rasters(batch.images@), batch.session), reply),
    {
        let Batch { images, session } = batch;
        let current = settle(self.resume_capture(session, reply));
        self.collect(images, current)
    }
}

/// A capture of an existing display whose every call goes through ends in an
/// image with the width and height of the display, whatever the depth of the
/// device.
pub proof fn lemma_capture_succeeds(
    engine: WindowsView,
    index: int,
    surface: spec_fn(GdiCall) -> GdiReply,
)
    requires
        0 <= index < engine.displays.len(),
        index <= usize::MAX,
        surface(GdiCall::CreateSection(bitmap_for(engine.displays[index], engine.bits_per_pixel)))
            == GdiReply::Created,
        surface(GdiCall::SelectSection) == GdiReply::Selected,
        surface(GdiCall::Blit(area_for(engine.displays[index]))) == GdiReply::Blitted,
        surface(
            GdiCall::TakePixels {
                bytes: taken_bytes(engine.displays[index], engine.bits_per_pixel) as u64,
            },
        ) is Taken,
    ensures
        surface(
            GdiCall::TakePixels {
                bytes: taken_bytes(engine.displays[index], engine.bits_per_pixel) as u64,
            },
        ) matches GdiReply::Taken { pixels, deleted } && run(
            |session: Transfer, reply: GdiReply| engine.resumed(session, reply),
            surface,
            engine.started(index),
            4,
        ) matches Some(Ok(frame)) && frame.image.width == engine.displays[index].width
            && frame.image.height == engine.displays[index].height && frame.image == normalized(
            pixels@,
            engine.displays[index].width as nat,
            engine.displays[index].height as nat,
        ) && (frame.failure is None <==> deleted),
{
    reveal_with_fuel(run, 5);
}

/// On a screen that does not change, capturing every display gives one image
/// per display, each the image that capturing that display alone gives; and
/// where a display fails alone, the batch fails as the first such display
/// does.
pub proof fn lemma_batch_matches_single(
    engine: WindowsView,
    surface: spec_fn(GdiCall) -> GdiReply,
)
    ensures
        match run(
            batch_resume(engine.displays.len(), engine.starter(), engine.resumer()),
            surface,
            batch_start(engine.displays.len(), engine.starter()),
            engine.displays.len() * 4,
        ) {
            Some(Ok(images)) => {
                &&& images.len() == engine.displays.len()
                &&& forall|index: int|
                    0 <= index < engine.displays.len() ==> #[trigger] run(
                        engine.resumer(),
                        surface,
                        strict(engine.started(index)),
                        4,
                    ) == Some(Ok::<Raster, WindowsError>(images[index]))
            },
            Some(Err(error)) => exists|failed: int|
                {
                    &&& 0 <= failed < engine.displays.len()
                    &&& #[trigger] run(
                        engine.resumer(),
                        surface,
                        strict(engine.started(failed)),
                        4,
                    ) == Some(Err::<Raster, WindowsError>(error))
                    &&& forall|index: int|
                        0 <= index < failed ==> (#[trigger] run(
                            engine.resumer(),
                            surface,
                            strict(engine.started(index)),
                            4,
                        )) matches Some(Ok(_))
                },
            None => false,
        },
{
    let total = engine.displays.len();
    let start = engine.starter();
    let resume = engine.resumer();
    assert forall|index: int| 0 <= index < total implies (#[trigger] run(
        resume,
        surface,
        start(index),
        4,
    )) is Some by {
        reveal_with_fuel(run, 5);
    }
    lemma_capture_all_matches_capture(total, start, resume, surface, 4);
    assert forall|index: int| 0 <= index < total implies start(index) == strict(
        engine.started(index),
    ) by {}
}

/// Whether a call deletes the bitmap section.
pub open spec fn deletes(call: GdiCall) -> bool {
    call is TakePixels || call is DiscardSection
}

/// A capture ends within four calls, and it deletes the section it creates.
///
/// Where the section is created, the last call of the capture deletes it
/// and no call before that one does; where it is not, no call deletes
/// anything.
pub proof fn lemma_section_is_deleted(
    engine: WindowsView,
    index: int,
    surface: spec_fn(GdiCall) -> GdiReply,
)
    requires
        index <= usize::MAX,
    ensures
        run(
            |session: Transfer, reply: GdiReply| engine.resumed(session, reply),
            surface,
            engine.started(index),
            4,
        ) is Some,
        ({
            let made = calls_of(
                |session: Transfer, reply: GdiReply| engine.resumed(session, reply),
                surface,
                engine.started(index),
                4,
            );
            if engine.started(index) matches Step::Call(_, create) && surface(create) is Created {
                &&& made.len() >= 2
                &&& deletes(made.last())
                &&& forall|at: int| 0 <= at < made.len() - 1 ==> !deletes(#[trigger] made[at])
            } else {
                forall|at: int| 0 <= at < made.len() ==> !deletes(#[trigger] made[at])
            }
        }),
{
    reveal_with_fuel(run, 5);
    reveal_with_fuel(calls_of, 5);
}

} // verus!
