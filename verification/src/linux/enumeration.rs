//! Display enumeration through RANDR.
//!
//! Every screen of the server is asked for its controllers, and every
//! controller for its state; a controller that is switched on is a monitor.

use crate::display::Display;
use crate::linux::error::X11Error;
use crate::step::{run, Step};
use vstd::prelude::*;

verus! {

/// One controller of the X server with the rectangle it scans out, and the
/// root window of the screen it belongs to.
#[derive(Debug, Copy, Clone, PartialEq, Eq, Structural)]
pub struct Monitor {
    pub root: u32,
    pub x: i16,
    pub y: i16,
    pub width: u16,
    pub height: u16,
}

impl Monitor {
    /// The display that the controller shows.
    pub open spec fn display(self) -> Display {
        Display {
            top: self.y as i32,
            left: self.x as i32,
            width: self.width as u32,
            height: self.height as u32,
        }
    }

    /// The display that the controller shows.
    pub fn to_display(&self) -> (display: Display)
        ensures
            display == self.display(),
    {
        Display {
            top: self.y as i32,
            left: self.x as i32,
            width: self.width as u32,
            height: self.height as u32,
        }
    }
}

/// What the server reports of one controller. A controller with no mode set
/// is switched off.
#[derive(Debug, Copy, Clone, PartialEq, Eq, Structural)]
pub struct Crtc {
    pub x: i16,
    pub y: i16,
    pub width: u16,
    pub height: u16,
    pub mode: u32,
}

impl Crtc {
    /// Whether the controller drives a display.
    pub open spec fn enabled(self) -> bool {
        self.mode != 0
    }

    /// The controller as a monitor of the screen with the given root window.
    pub open spec fn monitor(self, root: u32) -> Monitor {
        Monitor { root, x: self.x, y: self.y, width: self.width, height: self.height }
    }
}

/// A RANDR request of the enumeration.
#[derive(Debug, Copy, Clone, PartialEq, Eq, Structural)]
pub enum RandrCall {
    /// The controllers of a screen as the server last saw them.
    ResourcesCurrent { window: u32 },
    /// The controllers of a screen, polling the hardware.
    Resources { window: u32 },
    /// The state of one controller.
    CrtcInfo { crtc: u32, config_timestamp: u32 },
}

/// What came back from a RANDR request.
pub enum RandrReply {
    /// The controllers of the screen.
    Crtcs(Vec<u32>),
    /// The state of the controller.
    Crtc(Crtc),
    /// The server answered with an error.
    Refused,
    /// The connection broke.
    Lost,
}

/// Which answer an enumeration waits for.
#[derive(Debug, Copy, Clone, PartialEq, Eq, Structural)]
pub enum Awaited {
    /// The controllers of the current screen, as last seen.
    Current,
    /// The controllers of the current screen, polled.
    Polled,
    /// The state of the current controller.
    Crtc,
}

/// An enumeration under way.
pub struct Enumeration {
    /// The root window of every screen.
    pub roots: Vec<u32>,
    /// The screen being enumerated.
    pub screen: usize,
    pub awaited: Awaited,
    /// The controllers of that screen.
    pub crtcs: Vec<u32>,
    /// The controller being asked about.
    pub next: usize,
    /// The monitors found so far.
    pub found: Vec<Monitor>,
}

/// An enumeration under way, as the contracts see it.
pub struct EnumerationView {
    pub roots: Seq<u32>,
    pub screen: int,
    pub awaited: Awaited,
    pub crtcs: Seq<u32>,
    pub next: int,
    pub found: Seq<Monitor>,
}

impl View for Enumeration {
    type V = EnumerationView;

    open spec fn view(&self) -> EnumerationView {
        EnumerationView {
            roots: self.roots@,
            screen: self.screen as int,
            awaited: self.awaited,
            crtcs: self.crtcs@,
            next: self.next as int,
            found: self.found@,
        }
    }
}

/// A step of an enumeration as the contracts see it.
pub open spec fn seen_found(step: Step<Enumeration, RandrCall, Result<Vec<Monitor>, X11Error>>) -> Step<
    EnumerationView,
    RandrCall,
    Result<Seq<Monitor>, X11Error>,
> {
    match step {
        Step::Call(session, call) => Step::Call(session@, call),
        Step::Done(Ok(found)) => Step::Done(Ok(found@)),
        Step::Done(Err(error)) => Step::Done(Err(error)),
    }
}

/// Turns to the screen that the session names: asks for its controllers, or
/// ends the enumeration after the last screen.
pub open spec fn screen_begun(session: EnumerationView) -> Step<
    EnumerationView,
    RandrCall,
    Result<Seq<Monitor>, X11Error>,
> {
    if 0 <= session.screen < session.roots.len() {
        Step::Call(
            EnumerationView { awaited: Awaited::Current, crtcs: Seq::empty(), next: 0, ..session },
            RandrCall::ResourcesCurrent { window: session.roots[session.screen] },
        )
    } else {
        Step::Done(Ok(session.found))
    }
}

/// Turns to the controller that the session names: asks for its state, or
/// goes on to the next screen after the last controller.
pub open spec fn crtc_begun(session: EnumerationView) -> Step<
    EnumerationView,
    RandrCall,
    Result<Seq<Monitor>, X11Error>,
> {
    if 0 <= session.next < session.crtcs.len() {
        Step::Call(
            EnumerationView { awaited: Awaited::Crtc, ..session },
            RandrCall::CrtcInfo { crtc: session.crtcs[session.next], config_timestamp: 0 },
        )
    } else {
        screen_begun(EnumerationView { screen: session.screen + 1, ..session })
    }
}

/// What an enumeration does when the answer it waited for did not come and
/// the connection still stands: it polls where the last-seen controllers
/// were refused, and skips the screen or the controller otherwise.
pub open spec fn skipped(session: EnumerationView) -> Step<
    EnumerationView,
    RandrCall,
    Result<Seq<Monitor>, X11Error>,
> {
    match session.awaited {
        Awaited::Current => if 0 <= session.screen < session.roots.len() {
            Step::Call(
                EnumerationView { awaited: Awaited::Polled, ..session },
                RandrCall::Resources { window: session.roots[session.screen] },
            )
        } else {
            Step::Done(Ok(session.found))
        },
        Awaited::Polled => screen_begun(EnumerationView { screen: session.screen + 1, ..session }),
        Awaited::Crtc => crtc_begun(EnumerationView { next: session.next + 1, ..session }),
    }
}

/// The first step of an enumeration over the screens with these root windows.
pub open spec fn enumeration_started(roots: Seq<u32>) -> Step<
    EnumerationView,
    RandrCall,
    Result<Seq<Monitor>, X11Error>,
> {
    screen_begun(
        EnumerationView {
            roots,
            screen: 0,
            awaited: Awaited::Current,
            crtcs: Seq::empty(),
            next: 0,
            found: Seq::empty(),
        },
    )
}

/// The next step of an enumeration. A broken connection ends it in failure.
/// The controllers of a screen are asked about one by one; a controller that
/// is switched on adds a monitor on the current screen's root window.
pub open spec fn enumeration_resumed(session: EnumerationView, reply: RandrReply) -> Step<
    EnumerationView,
    RandrCall,
    Result<Seq<Monitor>, X11Error>,
> {
    match reply {
        RandrReply::Lost => Step::Done(Err(X11Error::ProtocolError)),
        RandrReply::Crtcs(crtcs) => if session.awaited != Awaited::Crtc {
            crtc_begun(EnumerationView { crtcs: crtcs@, next: 0, ..session })
        } else {
            skipped(session)
        },
        RandrReply::Crtc(crtc) => if session.awaited == Awaited::Crtc && crtc.enabled() && 0
            <= session.screen < session.roots.len() {
            crtc_begun(
                EnumerationView {
                    next: session.next + 1,
                    found: session.found.push(crtc.monitor(session.roots[session.screen])),
                    ..session
                },
            )
        } else {
            skipped(session)
        },
        RandrReply::Refused => skipped(session),
    }
}

pub(crate) fn begin_screen(session: Enumeration) -> (step: Step<
    Enumeration,
    RandrCall,
    Result<Vec<Monitor>, X11Error>,
>)
    ensures
        seen_found(step) == screen_begun(session@),
{
    if session.screen < session.roots.len() {
        let window = session.roots[session.screen];
        Step::Call(
            Enumeration {
                roots: session.roots,
                screen: session.screen,
                awaited: Awaited::Current,
                crtcs: Vec::new(),
                next: 0,
                found: session.found,
            },
            RandrCall::ResourcesCurrent { window },
        )
    } else {
        Step::Done(Ok(session.found))
    }
}

fn next_screen(session: Enumeration) -> (step: Step<
    Enumeration,
    RandrCall,
    Result<Vec<Monitor>, X11Error>,
>)
    ensures
        seen_found(step) == screen_begun(EnumerationView { screen: session@.screen + 1, ..session@ }),
{
    if session.screen < session.roots.len() {
        let mut session = session;
        session.screen = session.screen + 1;
        begin_screen(session)
    } else {
        Step::Done(Ok(session.found))
    }
}

fn begin_crtc(session: Enumeration) -> (step: Step<
    Enumeration,
    RandrCall,
    Result<Vec<Monitor>, X11Error>,
>)
    ensures
        seen_found(step) == crtc_begun(session@),
{
    if session.next < session.crtcs.len() {
        let crtc = session.crtcs[session.next];
        let mut session = session;
        session.awaited = Awaited::Crtc;
        Step::Call(session, RandrCall::CrtcInfo { crtc, config_timestamp: 0 })
    } else {
        next_screen(session)
    }
}

fn next_crtc(session: Enumeration) -> (step: Step<
    Enumeration,
    RandrCall,
    Result<Vec<Monitor>, X11Error>,
>)
    ensures
        seen_found(step) == crtc_begun(EnumerationView { next: session@.next + 1, ..session@ }),
{
    if session.next < session.crtcs.len() {
        let mut session = session;
        session.next = session.next + 1;
        begin_crtc(session)
    } else {
        next_screen(session)
    }
}

fn skip(session: Enumeration) -> (step: Step<Enumeration, RandrCall, Result<Vec<Monitor>, X11Error>>)
    ensures
        seen_found(step) == skipped(session@),
{
    match session.awaited {
        Awaited::Current => {
            if session.screen < session.roots.len() {
                let window = session.roots[session.screen];
                let mut session = session;
                session.awaited = Awaited::Polled;
                Step::Call(session, RandrCall::Resources { window })
            } else {
                Step::Done(Ok(session.found))
            }
        },
        Awaited::Polled => next_screen(session),
        Awaited::Crtc => next_crtc(session),
    }
}

/// Begins the enumeration of the displays on the screens with these root
/// windows.
pub fn get_displays(roots: Vec<u32>) -> (step: Step<
    Enumeration,
    RandrCall,
    Result<Vec<Monitor>, X11Error>,
>)
    ensures
        seen_found(step) == enumeration_started(roots@),
{
    begin_screen(
        Enumeration {
            roots,
            screen: 0,
            awaited: Awaited::Current,
            crtcs: Vec::new(),
            next: 0,
            found: Vec::new(),
        },
    )
}

/// Goes on with an enumeration, given what the last request brought.
pub fn resume_get_displays(session: Enumeration, reply: RandrReply) -> (step: Step<
    Enumeration,
    RandrCall,
    Result<Vec<Monitor>, X11Error>,
>)
    ensures
        seen_found(step) == enumeration_resumed(session@, reply),
{
    match reply {
        RandrReply::Lost => Step::Done(Err(X11Error::ProtocolError)),
        RandrReply::Crtcs(crtcs) => {
            match session.awaited {
                Awaited::Crtc => skip(session),
                _ => {
                    let mut session = session;
                    session.crtcs = crtcs;
                    session.next = 0;
                    begin_crtc(session)
                },
            }
        },
        RandrReply::Crtc(crtc) => {
            match session.awaited {
                Awaited::Crtc => {
                    if crtc.mode != 0 && session.screen < session.roots.len() {
                        let root = session.roots[session.screen];
                        let mut session = session;
                        session.found.push(
                            Monitor {
                                root,
                                x: crtc.x,
                                y: crtc.y,
                                width: crtc.width,
                                height: crtc.height,
                            },
                        );
                        next_crtc(session)
                    } else {
                        skip(session)
                    }
                },
                _ => skip(session),
            }
        },
        RandrReply::Refused => skip(session),
    }
}

/// [`enumeration_resumed`] as a function of session and reply.
pub open spec fn enumeration_resumer() -> spec_fn(EnumerationView, RandrReply) -> Step<
    EnumerationView,
    RandrCall,
    Result<Seq<Monitor>, X11Error>,
> {
    |session: EnumerationView, reply: RandrReply| enumeration_resumed(session, reply)
}

/// Whether the connection to a server stands whatever is asked of it.
pub open spec fn stands(server: spec_fn(RandrCall) -> RandrReply) -> bool {
    forall|call: RandrCall| !(#[trigger] server(call) is Lost)
}

/// The controllers that a server reports of a screen: those it last saw,
/// else those it finds by polling, else none.
pub open spec fn crtcs_of(server: spec_fn(RandrCall) -> RandrReply, root: u32) -> Seq<u32> {
    match server(RandrCall::ResourcesCurrent { window: root }) {
        RandrReply::Crtcs(crtcs) => crtcs@,
        _ => match server(RandrCall::Resources { window: root }) {
            RandrReply::Crtcs(crtcs) => crtcs@,
            _ => Seq::empty(),
        },
    }
}

/// The monitors among the first `count` of these controllers of a screen:
/// one for each controller that the server reports as switched on, in order.
pub open spec fn monitors_among(
    server: spec_fn(RandrCall) -> RandrReply,
    root: u32,
    crtcs: Seq<u32>,
    count: nat,
) -> Seq<Monitor>
    decreases count,
{
    if count == 0 {
        Seq::empty()
    } else {
        let before = monitors_among(server, root, crtcs, (count - 1) as nat);
        match server(RandrCall::CrtcInfo { crtc: crtcs[count - 1], config_timestamp: 0 }) {
            RandrReply::Crtc(crtc) => if crtc.enabled() {
                before.push(crtc.monitor(root))
            } else {
                before
            },
            _ => before,
        }
    }
}

/// The monitors on the first `count` of these screens, screen after screen.
pub open spec fn monitors_on(
    server: spec_fn(RandrCall) -> RandrReply,
    roots: Seq<u32>,
    count: nat,
) -> Seq<Monitor>
    decreases count,
{
    if count == 0 {
        Seq::empty()
    } else {
        let root = roots[count - 1];
        monitors_on(server, roots, (count - 1) as nat) + monitors_among(
            server,
            root,
            crtcs_of(server, root),
            crtcs_of(server, root).len(),
        )
    }
}

proof fn lemma_from_screen(
    server: spec_fn(RandrCall) -> RandrReply,
    session: EnumerationView,
) -> (calls: nat)
    requires
        stands(server),
        0 <= session.screen <= session.roots.len(),
        session.found == monitors_on(server, session.roots, session.screen as nat),
    ensures
        run(enumeration_resumer(), server, screen_begun(session), calls) == Some(
            Ok::<Seq<Monitor>, X11Error>(
                monitors_on(server, session.roots, session.roots.len()),
            ),
        ),
    decreases session.roots.len() - session.screen, 2int, 0int,
{
    if session.screen >= session.roots.len() {
        0
    } else {
        let root = session.roots[session.screen];
        let asked = EnumerationView {
            awaited: Awaited::Current,
            crtcs: Seq::empty(),
            next: 0,
            ..session
        };
        let next = EnumerationView { screen: session.screen + 1, ..asked };
        assert(!(server(RandrCall::ResourcesCurrent { window: root }) is Lost));
        assert(!(server(RandrCall::Resources { window: root }) is Lost));
        match server(RandrCall::ResourcesCurrent { window: root }) {
            RandrReply::Crtcs(crtcs) => {
                let listed = EnumerationView { crtcs: crtcs@, next: 0, ..asked };
                assert(listed.found =~= listed.found + monitors_among(
                    server,
                    root,
                    listed.crtcs,
                    0,
                ));
                let calls = lemma_from_crtc(server, listed);
                reveal_with_fuel(run, 2);
                calls + 1
            },
            _ => {
                let polling = EnumerationView { awaited: Awaited::Polled, ..asked };
                match server(RandrCall::Resources { window: root }) {
                    RandrReply::Crtcs(crtcs) => {
                        let listed = EnumerationView { crtcs: crtcs@, next: 0, ..polling };
                        assert(listed.found =~= listed.found + monitors_among(
                            server,
                            root,
                            listed.crtcs,
                            0,
                        ));
                        let calls = lemma_from_crtc(server, listed);
                        reveal_with_fuel(run, 3);
                        calls + 2
                    },
                    _ => {
                        let skipping = EnumerationView { screen: session.screen + 1, ..polling };
                        assert(monitors_on(server, session.roots, skipping.screen as nat)
                            =~= session.found);
                        let calls = lemma_from_screen(server, skipping);
                        reveal_with_fuel(run, 3);
                        calls + 2
                    },
                }
            },
        }
    }
}

proof fn lemma_from_crtc(
    server: spec_fn(RandrCall) -> RandrReply,
    session: EnumerationView,
) -> (calls: nat)
    requires
        stands(server),
        0 <= session.screen < session.roots.len(),
        session.crtcs == crtcs_of(server, session.roots[session.screen]),
        0 <= session.next <= session.crtcs.len(),
        session.found == monitors_on(server, session.roots, session.screen as nat)
            + monitors_among(
            server,
            session.roots[session.screen],
            session.crtcs,
            session.next as nat,
        ),
    ensures
        run(enumeration_resumer(), server, crtc_begun(session), calls) == Some(
            Ok::<Seq<Monitor>, X11Error>(
                monitors_on(server, session.roots, session.roots.len()),
            ),
        ),
    decreases session.roots.len() - session.screen, 1int, session.crtcs.len() - session.next,
{
    let root = session.roots[session.screen];
    if session.next >= session.crtcs.len() {
        let next = EnumerationView { screen: session.screen + 1, ..session };
        lemma_from_screen(server, next)
    } else {
        let asked = EnumerationView { awaited: Awaited::Crtc, ..session };
        let call = RandrCall::CrtcInfo { crtc: session.crtcs[session.next], config_timestamp: 0 };
        assert(!(server(call) is Lost));
        let before = monitors_on(server, session.roots, session.screen as nat);
        let among = monitors_among(server, root, session.crtcs, session.next as nat);
        let found = match server(call) {
            RandrReply::Crtc(crtc) => if crtc.enabled() {
                session.found.push(crtc.monitor(root))
            } else {
                session.found
            },
            _ => session.found,
        };
        let next = EnumerationView { next: session.next + 1, found, ..asked };
        assert(monitors_among(server, root, session.crtcs, (session.next + 1) as nat) == match server(
            call,
        ) {
            RandrReply::Crtc(crtc) => if crtc.enabled() {
                among.push(crtc.monitor(root))
            } else {
                among
            },
            _ => among,
        });
        assert(found =~= before + monitors_among(
            server,
            root,
            session.crtcs,
            (session.next + 1) as nat,
        ));
        let calls = lemma_from_crtc(server, next);
        assert(enumeration_resumed(asked, server(call)) == crtc_begun(next)) by {
            assert(crtc_begun(next) == crtc_begun(EnumerationView { awaited: Awaited::Crtc, ..next }));
        }
        reveal_with_fuel(run, 2);
        calls + 1
    }
}

/// As long as the connection stands, an enumeration ends, and it finds
/// exactly the monitors of the server: on every screen in order, for every
/// controller of the screen in order, one monitor if the controller is
/// switched on.
pub proof fn lemma_enumeration_finds_the_monitors(
    roots: Seq<u32>,
    server: spec_fn(RandrCall) -> RandrReply,
)
    requires
        stands(server),
    ensures
        exists|calls: nat|
            run(enumeration_resumer(), server, enumeration_started(roots), calls) == Some(
                Ok::<Seq<Monitor>, X11Error>(monitors_on(server, roots, roots.len())),
            ),
{
    let session = EnumerationView {
        roots,
        screen: 0,
        awaited: Awaited::Current,
        crtcs: Seq::empty(),
        next: 0,
        found: Seq::empty(),
    };
    let calls = lemma_from_screen(server, session);
    assert(run(enumeration_resumer(), server, enumeration_started(roots), calls) == Some(
        Ok::<Seq<Monitor>, X11Error>(monitors_on(server, roots, roots.len())),
    ));
}

} // verus!
