//! Initialization: the connection, the extensions, the segment where it can
//! be had, and the displays.

use crate::linux::capture::{X11Capturer, X11View};
use crate::linux::enumeration::{
    begin_screen, enumeration_resumed, enumeration_resumer, enumeration_started,
    lemma_enumeration_finds_the_monitors, monitors_on, resume_get_displays, screen_begun,
    seen_found, stands, Awaited, Enumeration, EnumerationView, Monitor, RandrCall, RandrReply,
};
use crate::linux::error::X11Error;
use crate::linux::segment::{Segment, Teardown};
use crate::step::{run, Step};
use vstd::prelude::*;

verus! {

/// One screen of the server, as the connection setup describes it.
#[derive(Debug, Copy, Clone, PartialEq, Eq, Structural)]
pub struct Screen {
    pub root: u32,
    pub width_in_pixels: u16,
    pub height_in_pixels: u16,
}

/// A request of the initialization.
#[derive(Debug, Copy, Clone, PartialEq, Eq, Structural)]
pub enum SetupCall {
    /// Open the connection to the server.
    Connect,
    /// Ask whether the server has the RANDR extension.
    QueryRandr,
    /// Ask whether the server has the MIT-SHM extension.
    QueryShm,
    /// Have the connection pick an id for the segment.
    GenerateId,
    /// Create a private shared-memory segment of `size` bytes that everyone
    /// may read and write.
    AllocateSegment { size: u64, mode: u32 },
    /// Map the segment into this process.
    MapSegment { shm_id: i32, read_only: bool },
    /// Make the segment known to the server under the id picked.
    AttachSegment { seg: u32, shmid: u32, read_only: bool },
    /// Give back what was acquired of a segment that will not be used.
    Abandon(Teardown),
    /// A request of the enumeration.
    Randr(RandrCall),
}

/// What came back from a request of the initialization.
pub enum SetupReply {
    /// The connection stands: the screens of the server, and the one the
    /// connection prefers.
    Connected { screens: Vec<Screen>, preferred: usize },
    /// The server has the extension.
    Present,
    /// The server lacks the extension.
    Absent,
    /// The id picked.
    Id(u32),
    /// What creating the segment returned: its id, or a negative number.
    Segment(i32),
    /// The segment is mapped.
    Mapped,
    /// The request to attach the segment was sent.
    Attached,
    /// The releases were attempted.
    Abandoned,
    /// The answer to a request of the enumeration.
    Randr(RandrReply),
    /// The request failed.
    Failed,
}

/// Which answer an initialization waits for.
#[derive(Debug, Copy, Clone, PartialEq, Eq, Structural)]
pub enum SetupStage {
    Connecting,
    QueryingRandr,
    QueryingShm,
    PickingId,
    Allocating,
    Mapping,
    Attaching,
    Abandoning,
    Enumerating,
}

/// An initialization under way.
pub struct Setup {
    pub awaited: SetupStage,
    /// The bytes that the preferred screen needs at four to the pixel.
    pub size: u64,
    /// The id picked for the segment.
    pub seg: u32,
    /// The id that the operating system gave the segment.
    pub shm_id: i32,
    /// The segment, once it is attached on both sides.
    pub segment: Option<Segment>,
    pub enumeration: Enumeration,
}

/// An initialization under way, as the contracts see it.
pub struct SetupView {
    pub awaited: SetupStage,
    pub size: u64,
    pub seg: u32,
    pub shm_id: i32,
    pub segment: Option<Segment>,
    pub enumeration: EnumerationView,
}

impl View for Setup {
    type V = SetupView;

    open spec fn view(&self) -> SetupView {
        SetupView {
            awaited: self.awaited,
            size: self.size,
            seg: self.seg,
            shm_id: self.shm_id,
            segment: self.segment,
            enumeration: self.enumeration@,
        }
    }
}

/// Why an initialization failed, and what the caller has to give back.
#[derive(Debug, Copy, Clone, PartialEq, Eq, Structural)]
pub struct SetupFailure {
    pub error: X11Error,
    pub release: Teardown,
}

/// A step of an initialization as the contracts see it.
pub open spec fn seen_setup(step: Step<Setup, SetupCall, Result<X11Capturer, SetupFailure>>) -> Step<
    SetupView,
    SetupCall,
    Result<X11View, SetupFailure>,
> {
    match step {
        Step::Call(session, call) => Step::Call(session@, call),
        Step::Done(Ok(engine)) => Step::Done(Ok(engine@)),
        Step::Done(Err(failure)) => Step::Done(Err(failure)),
    }
}

/// The root windows of screens, in order.
pub open spec fn roots_of(screens: Seq<Screen>) -> Seq<u32> {
    screens.map_values(|screen: Screen| screen.root)
}

/// The bytes that a screen needs at four to the pixel.
pub open spec fn bytes_of(screen: Screen) -> int {
    4 * screen.width_in_pixels * screen.height_in_pixels
}

/// The first step of an initialization.
pub open spec fn setup_started() -> Step<SetupView, SetupCall, Result<X11View, SetupFailure>> {
    Step::Call(
        SetupView {
            awaited: SetupStage::Connecting,
            size: 0,
            seg: 0,
            shm_id: 0,
            segment: None,
            enumeration: EnumerationView {
                roots: Seq::empty(),
                screen: 0,
                awaited: Awaited::Current,
                crtcs: Seq::empty(),
                next: 0,
                found: Seq::empty(),
            },
        },
        SetupCall::Connect,
    )
}

/// How an initialization ends in failure.
pub open spec fn setup_failed(error: X11Error, release: Teardown) -> Step<
    SetupView,
    SetupCall,
    Result<X11View, SetupFailure>,
> {
    Step::Done(Err(SetupFailure { error, release }))
}

/// What an enumeration step means to the initialization around it: its
/// requests are passed on, its failure fails the initialization, and so does
/// an empty list. Either failure gives the segment back.
pub open spec fn setup_enumerating(
    session: SetupView,
    step: Step<EnumerationView, RandrCall, Result<Seq<Monitor>, X11Error>>,
) -> Step<SetupView, SetupCall, Result<X11View, SetupFailure>> {
    match step {
        Step::Call(enumeration, call) => Step::Call(
            SetupView { awaited: SetupStage::Enumerating, enumeration, ..session },
            SetupCall::Randr(call),
        ),
        Step::Done(Ok(found)) => if found.len() == 0 {
            setup_failed(X11Error::NoDisplaysFound, Teardown::of(session.segment))
        } else {
            Step::Done(Ok(X11View { monitors: found, segment: session.segment }))
        },
        Step::Done(Err(error)) => setup_failed(error, Teardown::of(session.segment)),
    }
}

/// The initialization turns to enumeration, with the segment or without.
pub open spec fn setup_enumerate(session: SetupView, segment: Option<Segment>) -> Step<
    SetupView,
    SetupCall,
    Result<X11View, SetupFailure>,
> {
    setup_enumerating(SetupView { segment, ..session }, screen_begun(session.enumeration))
}

/// The initialization gives up a segment and goes on without one.
pub open spec fn setup_abandon(session: SetupView, unmap: bool) -> Step<
    SetupView,
    SetupCall,
    Result<X11View, SetupFailure>,
> {
    Step::Call(
        SetupView { awaited: SetupStage::Abandoning, ..session },
        SetupCall::Abandon(Teardown { detach: None, unmap, remove: Some(session.shm_id) }),
    )
}

/// The next step of an initialization.
///
/// Without a connection or without RANDR there is no engine. The segment is
/// optional: where MIT-SHM is absent, or any step of acquiring the segment
/// fails, the initialization gives back what it had of the segment and goes
/// on to enumeration without one.
pub open spec fn setup_resumed(session: SetupView, reply: SetupReply) -> Step<
    SetupView,
    SetupCall,
    Result<X11View, SetupFailure>,
> {
    match session.awaited {
        SetupStage::Connecting => match reply {
            SetupReply::Connected { screens, preferred } => if preferred < screens@.len() {
                Step::Call(
                    SetupView {
                        awaited: SetupStage::QueryingRandr,
                        size: bytes_of(screens@[preferred as int]) as u64,
                        enumeration: EnumerationView {
                            roots: roots_of(screens@),
                            ..session.enumeration
                        },
                        ..session
                    },
                    SetupCall::QueryRandr,
                )
            } else {
                setup_failed(X11Error::ConnectionFailed, Teardown::nothing())
            },
            _ => setup_failed(X11Error::ConnectionFailed, Teardown::nothing()),
        },
        SetupStage::QueryingRandr => match reply {
            SetupReply::Present => Step::Call(
                SetupView { awaited: SetupStage::QueryingShm, ..session },
                SetupCall::QueryShm,
            ),
            SetupReply::Absent => setup_failed(X11Error::ExtensionMissing, Teardown::nothing()),
            _ => setup_failed(X11Error::ProtocolError, Teardown::nothing()),
        },
        SetupStage::QueryingShm => match reply {
            SetupReply::Present => Step::Call(
                SetupView { awaited: SetupStage::PickingId, ..session },
                SetupCall::GenerateId,
            ),
            SetupReply::Absent => setup_enumerate(session, None),
            _ => setup_failed(X11Error::ProtocolError, Teardown::nothing()),
        },
        SetupStage::PickingId => match reply {
            SetupReply::Id(seg) => Step::Call(
                SetupView { awaited: SetupStage::Allocating, seg, ..session },
                SetupCall::AllocateSegment { size: session.size, mode: 0o777 },
            ),
            _ => setup_enumerate(session, None),
        },
        SetupStage::Allocating => match reply {
            SetupReply::Segment(shm_id) => if shm_id >= 0 {
                Step::Call(
                    SetupView { awaited: SetupStage::Mapping, shm_id, ..session },
                    SetupCall::MapSegment { shm_id, read_only: true },
                )
            } else {
                setup_enumerate(session, None)
            },
            _ => setup_enumerate(session, None),
        },
        SetupStage::Mapping => match reply {
            SetupReply::Mapped => if session.shm_id >= 0 {
                Step::Call(
                    SetupView { awaited: SetupStage::Attaching, ..session },
                    SetupCall::AttachSegment {
                        seg: session.seg,
                        shmid: session.shm_id as u32,
                        read_only: false,
                    },
                )
            } else {
                setup_abandon(session, true)
            },
            _ => setup_abandon(session, false),
        },
        SetupStage::Attaching => match reply {
            SetupReply::Attached => setup_enumerate(
                session,
                Some(Segment { seg: session.seg, shm_id: session.shm_id, size: session.size }),
            ),
            _ => setup_abandon(session, true),
        },
        SetupStage::Abandoning => setup_enumerate(session, None),
        SetupStage::Enumerating => match reply {
            SetupReply::Randr(reply) => setup_enumerating(
                session,
                enumeration_resumed(session.enumeration, reply),
            ),
            _ => setup_failed(X11Error::ProtocolError, Teardown::of(session.segment)),
        },
    }
}

fn fail_setup(error: X11Error, segment: Option<Segment>) -> (step: Step<
    Setup,
    SetupCall,
    Result<X11Capturer, SetupFailure>,
>)
    ensures
        seen_setup(step) == setup_failed(error, Teardown::of(segment)),
{
    let release = match segment {
        Some(segment) => Teardown {
            detach: Some(segment.seg),
            unmap: true,
            remove: Some(segment.shm_id),
        },
        None => Teardown { detach: None, unmap: false, remove: None },
    };
    Step::Done(Err(SetupFailure { error, release }))
}

fn enumerating(
    awaited: SetupStage,
    size: u64,
    seg: u32,
    shm_id: i32,
    segment: Option<Segment>,
    step: Step<Enumeration, RandrCall, Result<Vec<Monitor>, X11Error>>,
) -> (next: Step<Setup, SetupCall, Result<X11Capturer, SetupFailure>>)
    ensures
        forall|enumeration: EnumerationView|
            seen_setup(next) == setup_enumerating(
                SetupView { awaited, size, seg, shm_id, segment, enumeration },
                seen_found(step),
            ),
{
    match step {
        Step::Call(enumeration, call) => Step::Call(
            Setup { awaited: SetupStage::Enumerating, size, seg, shm_id, segment, enumeration },
            SetupCall::Randr(call),
        ),
        Step::Done(Ok(found)) => {
            if found.len() == 0 {
                fail_setup(X11Error::NoDisplaysFound, segment)
            } else {
                Step::Done(Ok(X11Capturer::over(found, segment)))
            }
        },
        Step::Done(Err(error)) => fail_setup(error, segment),
    }
}

fn enumerate(session: Setup, segment: Option<Segment>) -> (step: Step<
    Setup,
    SetupCall,
    Result<X11Capturer, SetupFailure>,
>)
    ensures
        seen_setup(step) == setup_enumerate(session@, segment),
{
    let Setup { awaited, size, seg, shm_id, segment: _, enumeration } = session;
    let first = begin_screen(enumeration);
    enumerating(awaited, size, seg, shm_id, segment, first)
}

fn abandon(session: Setup, unmap: bool) -> (step: Step<
    Setup,
    SetupCall,
    Result<X11Capturer, SetupFailure>,
>)
    ensures
        seen_setup(step) == setup_abandon(session@, unmap),
{
    let call = SetupCall::Abandon(Teardown { detach: None, unmap, remove: Some(session.shm_id) });
    let mut session = session;
    session.awaited = SetupStage::Abandoning;
    Step::Call(session, call)
}

impl X11Capturer {
    /// Begins the initialization of an engine.
    pub fn new() -> (step: Step<Setup, SetupCall, Result<X11Capturer, SetupFailure>>)
        ensures
            seen_setup(step) == setup_started(),
    {
        Step::Call(
            Setup {
                awaited: SetupStage::Connecting,
                size: 0,
                seg: 0,
                shm_id: 0,
                segment: None,
                enumeration: Enumeration {
                    roots: Vec::new(),
                    screen: 0,
                    awaited: Awaited::Current,
                    crtcs: Vec::new(),
                    next: 0,
                    found: Vec::new(),
                },
            },
            SetupCall::Connect,
        )
    }

    /// Goes on with an initialization, given what the last request brought.
    pub fn resume_new(session: Setup, reply: SetupReply) -> (step: Step<
        Setup,
        SetupCall,
        Result<X11Capturer, SetupFailure>,
    >)
        ensures
            seen_setup(step) == setup_resumed(session@, reply),
    {
        match session.awaited {
            SetupStage::Connecting => match reply {
                SetupReply::Connected { screens, preferred } => {
                    if preferred < screens.len() {
                        let screen = screens[preferred];
                        assert(4 * screen.width_in_pixels * screen.height_in_pixels <= 4
                            * 0xffff * 0xffff) by (nonlinear_arith)
                            requires
                                screen.width_in_pixels <= 0xffff,
                                screen.height_in_pixels <= 0xffff,
                        ;
                        let size: u64 = 4 * (screen.width_in_pixels as u64) * (
                        screen.height_in_pixels as u64);
                        let mut roots: Vec<u32> = Vec::with_capacity(screens.len());
                        let mut index: usize = 0;
                        while index < screens.len()
                            invariant
                                index <= screens.len(),
                                roots@ == roots_of(screens@.take(index as int)),
                            decreases screens.len() - index,
                        {
                            roots.push(screens[index].root);
                            index = index + 1;
                            assert(roots@ =~= roots_of(screens@.take(index as int)));
                        }
                        assert(screens@.take(index as int) =~= screens@);
                        let mut session = session;
                        session.awaited = SetupStage::QueryingRandr;
                        session.size = size;
                        session.enumeration.roots = roots;
                        Step::Call(session, SetupCall::QueryRandr)
                    } else {
                        fail_setup(X11Error::ConnectionFailed, None)
                    }
                },
                _ => fail_setup(X11Error::ConnectionFailed, None),
            },
            SetupStage::QueryingRandr => match reply {
                SetupReply::Present => {
                    let mut session = session;
                    session.awaited = SetupStage::QueryingShm;
                    Step::Call(session, SetupCall::QueryShm)
                },
                SetupReply::Absent => fail_setup(X11Error::ExtensionMissing, None),
                _ => fail_setup(X11Error::ProtocolError, None),
            },
            SetupStage::QueryingShm => match reply {
                SetupReply::Present => {
                    let mut session = session;
                    session.awaited = SetupStage::PickingId;
                    Step::Call(session, SetupCall::GenerateId)
                },
                SetupReply::Absent => enumerate(session, None),
                _ => fail_setup(X11Error::ProtocolError, None),
            },
            SetupStage::PickingId => match reply {
                SetupReply::Id(seg) => {
                    let call = SetupCall::AllocateSegment { size: session.size, mode: 0o777 };
                    let mut session = session;
                    session.awaited = SetupStage::Allocating;
                    session.seg = seg;
                    Step::Call(session, call)
                },
                _ => enumerate(session, None),
            },
            SetupStage::Allocating => match reply {
                SetupReply::Segment(shm_id) => {
                    if shm_id >= 0 {
                        let mut session = session;
                        session.awaited = SetupStage::Mapping;
                        session.shm_id = shm_id;
                        Step::Call(session, SetupCall::MapSegment { shm_id, read_only: true })
                    } else {
                        enumerate(session, None)
                    }
                },
                _ => enumerate(session, None),
            },
            SetupStage::Mapping => match reply {
                SetupReply::Mapped => {
                    if session.shm_id >= 0 {
                        let call = SetupCall::AttachSegment {
                            seg: session.seg,
                            shmid: session.shm_id as u32,
                            read_only: false,
                        };
                        let mut session = session;
                        session.awaited = SetupStage::Attaching;
                        Step::Call(session, call)
                    } else {
                        abandon(session, true)
                    }
                },
                _ => abandon(session, false),
            },
            SetupStage::Attaching => match reply {
                SetupReply::Attached => {
                    let segment = Segment {
                        seg: session.seg,
                        shm_id: session.shm_id,
                        size: session.size,
                    };
                    enumerate(session, Some(segment))
                },
                _ => abandon(session, true),
            },
            SetupStage::Abandoning => enumerate(session, None),
            SetupStage::Enumerating => match reply {
                SetupReply::Randr(reply) => {
                    let Setup { awaited, size, seg, shm_id, segment, enumeration } = session;
                    let step = resume_get_displays(enumeration, reply);
                    enumerating(awaited, size, seg, shm_id, segment, step)
                },
                _ => fail_setup(X11Error::ProtocolError, session.segment),
            },
        }
    }
}

/// An engine that comes out of initialization has at least one display, and
/// it has a segment only where the initialization held one.
pub proof fn lemma_engine_made(session: SetupView, reply: SetupReply)
    ensures
        setup_resumed(session, reply) matches Step::Done(Ok(engine)) ==> engine.monitors.len() > 0
            && (engine.segment.is_some() ==> session.awaited == SetupStage::Attaching
            || session.segment == engine.segment),
{
}

/// What of a segment an initialization holds while it waits: the segment
/// itself once it is created, its mapping once that is made, and the
/// server's attachment once the segment is attached there.
pub open spec fn held(session: SetupView) -> Teardown {
    match session.awaited {
        SetupStage::Mapping => Teardown {
            detach: None,
            unmap: false,
            remove: Some(session.shm_id),
        },
        SetupStage::Attaching => Teardown {
            detach: None,
            unmap: true,
            remove: Some(session.shm_id),
        },
        SetupStage::Enumerating => Teardown::of(session.segment),
        _ => Teardown::nothing(),
    }
}

/// What of a segment an initialization holds once an answer is in: what it
/// held before, and what the answer says was acquired.
pub open spec fn held_with(session: SetupView, reply: SetupReply) -> Teardown {
    match (session.awaited, reply) {
        (SetupStage::Allocating, SetupReply::Segment(shm_id)) => if shm_id >= 0 {
            Teardown { detach: None, unmap: false, remove: Some(shm_id) }
        } else {
            Teardown::nothing()
        },
        (SetupStage::Mapping, SetupReply::Mapped) => Teardown {
            detach: None,
            unmap: true,
            remove: Some(session.shm_id),
        },
        (SetupStage::Attaching, SetupReply::Attached) => Teardown {
            detach: Some(session.seg),
            unmap: true,
            remove: Some(session.shm_id),
        },
        _ => held(session),
    }
}

/// An initialization loses track of nothing it acquired.
///
/// Whatever it holds of a segment once an answer is in goes one of four
/// ways: the next step still holds it; it is given up, and then all of it is
/// in the request to abandon; the initialization fails, and then all of it is
/// in the failure for the caller to give back; or the engine is made, and
/// then the engine's segment is all of it, which closing the engine returns.
pub proof fn lemma_nothing_leaks(session: SetupView, reply: SetupReply)
    ensures
        match setup_resumed(session, reply) {
            Step::Call(next, SetupCall::Abandon(release)) => release == held_with(session, reply)
                && held(next) == Teardown::nothing(),
            Step::Call(next, _) => held(next) == held_with(session, reply),
            Step::Done(Err(failure)) => failure.release == held_with(session, reply),
            Step::Done(Ok(engine)) => Teardown::of(engine.segment) == held_with(session, reply),
        },
{
}

/// [`setup_resumed`] as a function of session and reply.
pub open spec fn setup_resumer() -> spec_fn(SetupView, SetupReply) -> Step<
    SetupView,
    SetupCall,
    Result<X11View, SetupFailure>,
> {
    |session: SetupView, reply: SetupReply| setup_resumed(session, reply)
}

/// What a server answers to the requests of the enumeration. An answer that
/// is none to such a request counts as a broken connection.
pub open spec fn randr_of(server: spec_fn(SetupCall) -> SetupReply) -> spec_fn(RandrCall) -> RandrReply {
    |call: RandrCall|
        match server(SetupCall::Randr(call)) {
            SetupReply::Randr(reply) => reply,
            _ => RandrReply::Lost,
        }
}

/// The segment that an initialization ends up with on a server, for a
/// screen that needs `size` bytes: the segment attached on both sides where
/// the server has MIT-SHM and every step of acquiring the segment goes
/// through, and none otherwise.
pub open spec fn segment_on(server: spec_fn(SetupCall) -> SetupReply, size: u64) -> Option<Segment> {
    if server(SetupCall::QueryShm) is Present {
        match server(SetupCall::GenerateId) {
            SetupReply::Id(seg) => match server(SetupCall::AllocateSegment { size, mode: 0o777 }) {
                SetupReply::Segment(shm_id) => if shm_id >= 0 && server(
                    SetupCall::MapSegment { shm_id, read_only: true },
                ) is Mapped && server(
                    SetupCall::AttachSegment { seg, shmid: shm_id as u32, read_only: false },
                ) is Attached {
                    Some(Segment { seg, shm_id, size })
                } else {
                    None
                },
                _ => None,
            },
            _ => None,
        }
    } else {
        None
    }
}

/// How an initialization ends once the enumeration has: with an engine over
/// the monitors found, or in failure where none was found or the
/// enumeration failed.
pub open spec fn setup_outcome(
    found: Result<Seq<Monitor>, X11Error>,
    segment: Option<Segment>,
) -> Result<X11View, SetupFailure> {
    match found {
        Ok(monitors) => if monitors.len() == 0 {
            Err(SetupFailure { error: X11Error::NoDisplaysFound, release: Teardown::of(segment) })
        } else {
            Ok(X11View { monitors, segment })
        },
        Err(error) => Err(SetupFailure { error, release: Teardown::of(segment) }),
    }
}

proof fn lemma_enumerating(
    server: spec_fn(SetupCall) -> SetupReply,
    session: SetupView,
    step: Step<EnumerationView, RandrCall, Result<Seq<Monitor>, X11Error>>,
    calls: nat,
)
    requires
        run(enumeration_resumer(), randr_of(server), step, calls) is Some,
    ensures
        run(setup_resumer(), server, setup_enumerating(session, step), calls) == Some(
            setup_outcome(
                run(enumeration_resumer(), randr_of(server), step, calls).unwrap(),
                session.segment,
            ),
        ),
    decreases calls,
{
    match step {
        Step::Call(enumeration, call) => {
            let asked = SetupView { awaited: SetupStage::Enumerating, enumeration, ..session };
            let reply = randr_of(server)(call);
            let next = enumeration_resumed(enumeration, reply);
            lemma_enumerating(server, asked, next, (calls - 1) as nat);
            assert(setup_resumed(asked, server(SetupCall::Randr(call))) == setup_enumerating(
                asked,
                next,
            ));
            assert(setup_enumerating(asked, next) == setup_enumerating(session, next));
        },
        Step::Done(_) => {},
    }
}

proof fn lemma_enumerate(
    server: spec_fn(SetupCall) -> SetupReply,
    session: SetupView,
    segment: Option<Segment>,
) -> (calls: nat)
    requires
        stands(randr_of(server)),
        session.enumeration.screen == 0,
        session.enumeration.found == Seq::<Monitor>::empty(),
    ensures
        run(setup_resumer(), server, setup_enumerate(session, segment), calls) == Some(
            setup_outcome(
                Ok(
                    monitors_on(
                        randr_of(server),
                        session.enumeration.roots,
                        session.enumeration.roots.len(),
                    ),
                ),
                segment,
            ),
        ),
{
    let roots = session.enumeration.roots;
    lemma_enumeration_finds_the_monitors(roots, randr_of(server));
    let calls = choose|calls: nat|
        run(enumeration_resumer(), randr_of(server), enumeration_started(roots), calls) == Some(
            Ok::<Seq<Monitor>, X11Error>(monitors_on(randr_of(server), roots, roots.len())),
        );
    assert(screen_begun(session.enumeration) == enumeration_started(roots));
    lemma_enumerating(
        server,
        SetupView { segment, ..session },
        screen_begun(session.enumeration),
        calls,
    );
    calls
}

/// On a server that can be reached and has RANDR, an initialization ends as
/// long as the connection stands. It ends with an engine over exactly the
/// monitors of the server, in enumeration order, or in failure where the
/// server has none. The engine has the segment where the server has MIT-SHM
/// and every step of acquiring the segment goes through, and goes without
/// one otherwise.
pub proof fn lemma_setup_makes_the_engine(
    server: spec_fn(SetupCall) -> SetupReply,
    screens: Seq<Screen>,
    preferred: usize,
)
    requires
        server(SetupCall::Connect) matches SetupReply::Connected { screens: list, preferred: index }
            && list@ == screens && index == preferred,
        preferred < screens.len(),
        server(SetupCall::QueryRandr) is Present,
        server(SetupCall::QueryShm) is Present || server(SetupCall::QueryShm) is Absent,
        stands(randr_of(server)),
    ensures
        exists|calls: nat|
            run(setup_resumer(), server, setup_started(), calls) == Some(
                setup_outcome(
                    Ok(monitors_on(randr_of(server), roots_of(screens), screens.len())),
                    segment_on(server, bytes_of(screens[preferred as int]) as u64),
                ),
            ),
{
    let size = bytes_of(screens[preferred as int]) as u64;
    let resume = setup_resumer();
    let connecting = setup_started()->Call_0;
    let querying_randr = SetupView {
        awaited: SetupStage::QueryingRandr,
        size,
        enumeration: EnumerationView { roots: roots_of(screens), ..connecting.enumeration },
        ..connecting
    };
    let querying_shm = SetupView { awaited: SetupStage::QueryingShm, ..querying_randr };
    let goal = setup_outcome(
        Ok(monitors_on(randr_of(server), roots_of(screens), screens.len())),
        segment_on(server, size),
    );
    assert(roots_of(screens).len() == screens.len());
    assert(resume(connecting, server(SetupCall::Connect)) == Step::<
        SetupView,
        SetupCall,
        Result<X11View, SetupFailure>,
    >::Call(querying_randr, SetupCall::QueryRandr));
    assert(resume(querying_randr, server(SetupCall::QueryRandr)) == Step::<
        SetupView,
        SetupCall,
        Result<X11View, SetupFailure>,
    >::Call(querying_shm, SetupCall::QueryShm));
    // From the answer about MIT-SHM on: `rest` calls end the initialization.
    let after_shm = resume(querying_shm, server(SetupCall::QueryShm));
    let rest = lemma_after_shm(server, querying_shm);
    assert(run(resume, server, after_shm, rest) == Some(goal));
    assert(run(resume, server, setup_started(), rest + 3) == Some(goal)) by {
        reveal_with_fuel(run, 4);
    }
}

proof fn lemma_after_shm(server: spec_fn(SetupCall) -> SetupReply, session: SetupView) -> (calls:
    nat)
    requires
        session.awaited == SetupStage::QueryingShm,
        server(SetupCall::QueryShm) is Present || server(SetupCall::QueryShm) is Absent,
        stands(randr_of(server)),
        session.enumeration.screen == 0,
        session.enumeration.found == Seq::<Monitor>::empty(),
    ensures
        run(
            setup_resumer(),
            server,
            setup_resumed(session, server(SetupCall::QueryShm)),
            calls,
        ) == Some(
            setup_outcome(
                Ok(
                    monitors_on(
                        randr_of(server),
                        session.enumeration.roots,
                        session.enumeration.roots.len(),
                    ),
                ),
                segment_on(server, session.size),
            ),
        ),
{
    let resume = setup_resumer();
    let size = session.size;
    if server(SetupCall::QueryShm) is Absent {
        lemma_enumerate(server, session, None)
    } else {
        let picking = SetupView { awaited: SetupStage::PickingId, ..session };
        match server(SetupCall::GenerateId) {
            SetupReply::Id(seg) => {
                let allocating = SetupView { awaited: SetupStage::Allocating, seg, ..picking };
                let allocate = SetupCall::AllocateSegment { size, mode: 0o777 };
                assert(resume(picking, server(SetupCall::GenerateId)) == Step::<
                    SetupView,
                    SetupCall,
                    Result<X11View, SetupFailure>,
                >::Call(allocating, allocate));
                match server(allocate) {
                    SetupReply::Segment(shm_id) => {
                        if shm_id >= 0 {
                            let mapping = SetupView {
                                awaited: SetupStage::Mapping,
                                shm_id,
                                ..allocating
                            };
                            let map = SetupCall::MapSegment { shm_id, read_only: true };
                            let attach = SetupCall::AttachSegment {
                                seg,
                                shmid: shm_id as u32,
                                read_only: false,
                            };
                            let attaching = SetupView {
                                awaited: SetupStage::Attaching,
                                ..mapping
                            };
                            let abandoning = SetupView {
                                awaited: SetupStage::Abandoning,
                                ..mapping
                            };
                            if server(map) is Mapped {
                                if server(attach) is Attached {
                                    let calls = lemma_enumerate(
                                        server,
                                        attaching,
                                        Some(Segment { seg, shm_id, size }),
                                    );
                                    reveal_with_fuel(run, 5);
                                    calls + 4
                                } else {
                                    let calls = lemma_enumerate(server, abandoning, None);
                                    reveal_with_fuel(run, 6);
                                    calls + 5
                                }
                            } else {
                                let calls = lemma_enumerate(server, abandoning, None);
                                reveal_with_fuel(run, 5);
                                calls + 4
                            }
                        } else {
                            let calls = lemma_enumerate(server, allocating, None);
                            reveal_with_fuel(run, 3);
                            calls + 2
                        }
                    },
                    _ => {
                        let calls = lemma_enumerate(server, allocating, None);
                        reveal_with_fuel(run, 3);
                        calls + 2
                    },
                }
            },
            _ => {
                let calls = lemma_enumerate(server, picking, None);
                reveal_with_fuel(run, 2);
                calls + 1
            },
        }
    }
}

} // verus!
