//! Initialization: the two device contexts, the depth of the device, and
//! the monitors.

use crate::display::Display;
use crate::step::{run, Step};
use crate::windows::capture::{all_describable, describable, WindowsCapturer, WindowsView};
use crate::windows::error::WindowsError;
use vstd::prelude::*;

verus! {

/// Which of the two device contexts are to be released. The memory context
/// goes first, then the window context it was derived from.
#[derive(Debug, Copy, Clone, PartialEq, Eq, Structural)]
pub struct Contexts {
    pub compatible: bool,
    pub window: bool,
}

/// A request of the initialization.
#[derive(Debug, Copy, Clone, PartialEq, Eq, Structural)]
pub enum SetupCall {
    /// Acquire the device context of the whole desktop.
    GetWindowDc,
    /// Derive a memory device context from it.
    CreateCompatibleDc,
    /// Read how many bits the device spends on a pixel.
    GetBitsPerPixel,
    /// Enumerate the monitors, each through the enumeration callback.
    EnumerateMonitors,
}

/// What came back from a request of the initialization.
pub enum SetupReply {
    /// The context was acquired.
    Acquired,
    /// The bits per pixel of the device.
    BitsPerPixel(u16),
    /// The enumeration went through, and the callback collected these.
    Monitors(Vec<Display>),
    /// The call was refused.
    Failed,
}

/// Which answer an initialization waits for.
#[derive(Debug, Copy, Clone, PartialEq, Eq, Structural)]
pub enum SetupStage {
    AcquiringWindow,
    AcquiringCompatible,
    ReadingBits,
    Enumerating,
}

/// An initialization under way.
#[derive(Debug, Copy, Clone, PartialEq, Eq, Structural)]
pub struct Setup {
    pub awaited: SetupStage,
    pub bits_per_pixel: u16,
}

/// Why an initialization failed, and which contexts the caller has to
/// release.
#[derive(Debug, Copy, Clone, PartialEq, Eq, Structural)]
pub struct SetupFailure {
    pub error: WindowsError,
    pub release: Contexts,
}

/// A step of an initialization as the contracts see it.
pub open spec fn seen_setup(step: Step<Setup, SetupCall, Result<WindowsCapturer, SetupFailure>>) -> Step<
    Setup,
    SetupCall,
    Result<WindowsView, SetupFailure>,
> {
    match step {
        Step::Call(session, call) => Step::Call(session, call),
        Step::Done(Ok(engine)) => Step::Done(Ok(engine@)),
        Step::Done(Err(failure)) => Step::Done(Err(failure)),
    }
}

/// Whether an answer is one that an initialization can go on with. A bitmap
/// section must be describable for every monitor collected: its width and
/// height fit a signed 32-bit number, as those of any monitor do.
pub open spec fn admits(reply: SetupReply) -> bool {
    reply matches SetupReply::Monitors(displays) ==> all_describable(displays@)
}

/// How an initialization ends in failure.
pub open spec fn setup_failed(error: WindowsError, compatible: bool, window: bool) -> Step<
    Setup,
    SetupCall,
    Result<WindowsView, SetupFailure>,
> {
    Step::Done(Err(SetupFailure { error, release: Contexts { compatible, window } }))
}

/// The first step of an initialization.
pub open spec fn setup_started() -> Step<Setup, SetupCall, Result<WindowsView, SetupFailure>> {
    Step::Call(
        Setup { awaited: SetupStage::AcquiringWindow, bits_per_pixel: 0 },
        SetupCall::GetWindowDc,
    )
}

/// The next step of an initialization. A call that is refused ends it with
/// the error of that call, and so does an enumeration that finds nothing;
/// every failure names the contexts acquired until then.
pub open spec fn setup_resumed(session: Setup, reply: SetupReply) -> Step<
    Setup,
    SetupCall,
    Result<WindowsView, SetupFailure>,
> {
    match session.awaited {
        SetupStage::AcquiringWindow => match reply {
            SetupReply::Acquired => Step::Call(
                Setup { awaited: SetupStage::AcquiringCompatible, ..session },
                SetupCall::CreateCompatibleDc,
            ),
            _ => setup_failed(WindowsError::CouldntGetWindowDC, false, false),
        },
        SetupStage::AcquiringCompatible => match reply {
            SetupReply::Acquired => Step::Call(
                Setup { awaited: SetupStage::ReadingBits, ..session },
                SetupCall::GetBitsPerPixel,
            ),
            _ => setup_failed(WindowsError::CouldntCreateCompatibleDC, false, true),
        },
        SetupStage::ReadingBits => match reply {
            SetupReply::BitsPerPixel(bits_per_pixel) => Step::Call(
                Setup { awaited: SetupStage::Enumerating, bits_per_pixel },
                SetupCall::EnumerateMonitors,
            ),
            _ => setup_failed(WindowsError::CouldntGetDeviceCaps, true, true),
        },
        SetupStage::Enumerating => match reply {
            SetupReply::Monitors(displays) => if displays@.len() == 0 {
                setup_failed(WindowsError::CouldntFindAnyDisplays, true, true)
            } else {
                Step::Done(
                    Ok(
                        WindowsView {
                            displays: displays@,
                            bits_per_pixel: session.bits_per_pixel,
                        },
                    ),
                )
            },
            _ => setup_failed(WindowsError::CouldntEnumDisplayMonitors, true, true),
        },
    }
}

fn fail_setup(error: WindowsError, compatible: bool, window: bool) -> (step: Step<
    Setup,
    SetupCall,
    Result<WindowsCapturer, SetupFailure>,
>)
    ensures
        seen_setup(step) == setup_failed(error, compatible, window),
{
    Step::Done(Err(SetupFailure { error, release: Contexts { compatible, window } }))
}

fn describable_list(displays: &Vec<Display>) -> (fits: bool)
    ensures
        fits == all_describable(displays@),
{
    let mut index: usize = 0;
    while index < displays.len()
        invariant
            index <= displays.len(),
            all_describable(displays@.take(index as int)),
        decreases displays.len() - index,
    {
        if displays[index].width > i32::MAX as u32 || displays[index].height > i32::MAX as u32 {
            assert(!describable(displays@[index as int]));
            return false;
        }
        index = index + 1;
    }
    assert(displays@.take(index as int) =~= displays@);
    true
}

/// Whether an answer is one that an initialization can go on with.
pub fn admits_reply(reply: &SetupReply) -> (admitted: bool)
    ensures
        admitted == admits(*reply),
{
    match reply {
        SetupReply::Monitors(displays) => describable_list(displays),
        _ => true,
    }
}

impl WindowsCapturer {
    /// Begins the initialization of an engine.
    pub fn new() -> (step: Step<Setup, SetupCall, Result<WindowsCapturer, SetupFailure>>)
        ensures
            seen_setup(step) == setup_started(),
    {
        Step::Call(
            Setup { awaited: SetupStage::AcquiringWindow, bits_per_pixel: 0 },
            SetupCall::GetWindowDc,
        )
    }

    /// Goes on with an initialization, given what the last call brought.
    pub fn resume_new(session: Setup, reply: SetupReply) -> (step: Step<
        Setup,
        SetupCall,
        Result<WindowsCapturer, SetupFailure>,
    >)
        requires
            admits(reply),
        ensures
            seen_setup(step) == setup_resumed(session, reply),
    {
        match session.awaited {
            SetupStage::AcquiringWindow => match reply {
                SetupReply::Acquired => Step::Call(
                    Setup {
                        awaited: SetupStage::AcquiringCompatible,
                        bits_per_pixel: session.bits_per_pixel,
                    },
                    SetupCall::CreateCompatibleDc,
                ),
                _ => fail_setup(WindowsError::CouldntGetWindowDC, false, false),
            },
            SetupStage::AcquiringCompatible => match reply {
                SetupReply::Acquired => Step::Call(
                    Setup {
                        awaited: SetupStage::ReadingBits,
                        bits_per_pixel: session.bits_per_pixel,
                    },
                    SetupCall::GetBitsPerPixel,
                ),
                _ => fail_setup(WindowsError::CouldntCreateCompatibleDC, false, true),
            },
            SetupStage::ReadingBits => match reply {
                SetupReply::BitsPerPixel(bits_per_pixel) => Step::Call(
                    Setup { awaited: SetupStage::Enumerating, bits_per_pixel },
                    SetupCall::EnumerateMonitors,
                ),
                _ => fail_setup(WindowsError::CouldntGetDeviceCaps, true, true),
            },
            SetupStage::Enumerating => match reply {
                SetupReply::Monitors(displays) => {
                    if displays.len() == 0 {
                        fail_setup(WindowsError::CouldntFindAnyDisplays, true, true)
                    } else {
                        Step::Done(Ok(WindowsCapturer::over(displays, session.bits_per_pixel)))
                    }
                },
                _ => fail_setup(WindowsError::CouldntEnumDisplayMonitors, true, true),
            },
        }
    }
}

/// [`setup_resumed`] as a function of session and reply.
pub open spec fn setup_resumer() -> spec_fn(Setup, SetupReply) -> Step<
    Setup,
    SetupCall,
    Result<WindowsView, SetupFailure>,
> {
    |session: Setup, reply: SetupReply| setup_resumed(session, reply)
}

/// Whether every call of an initialization goes through on a desktop, and
/// the enumeration finds a monitor.
pub open spec fn goes_through(desktop: spec_fn(SetupCall) -> SetupReply) -> bool {
    &&& desktop(SetupCall::GetWindowDc) is Acquired
    &&& desktop(SetupCall::CreateCompatibleDc) is Acquired
    &&& desktop(SetupCall::GetBitsPerPixel) is BitsPerPixel
    &&& desktop(SetupCall::EnumerateMonitors) matches SetupReply::Monitors(displays)
        && displays@.len() > 0
}

/// An initialization ends within four calls. It makes the engine exactly
/// when every call goes through and the enumeration finds a monitor; the
/// engine then holds the monitors found, in order, and the depth read.
/// Where it fails, the failure names exactly the contexts that were
/// acquired.
pub proof fn lemma_setup_ends(desktop: spec_fn(SetupCall) -> SetupReply)
    ensures
        ({
            let window = desktop(SetupCall::GetWindowDc) is Acquired;
            let compatible = window && desktop(SetupCall::CreateCompatibleDc) is Acquired;
            match run(setup_resumer(), desktop, setup_started(), 4) {
                Some(Ok(engine)) => {
                    &&& goes_through(desktop)
                    &&& desktop(SetupCall::GetBitsPerPixel) matches SetupReply::BitsPerPixel(bits)
                        && engine.bits_per_pixel == bits
                    &&& desktop(SetupCall::EnumerateMonitors) matches SetupReply::Monitors(
                        displays,
                    ) && engine.displays == displays@
                },
                Some(Err(failure)) => {
                    &&& !goes_through(desktop)
                    &&& failure.release == (Contexts { compatible, window })
                },
                None => false,
            }
        }),
{
    reveal_with_fuel(run, 5);
}

} // verus!
