//! The X11 backend.
//!
//! The engine decides what to ask of the X server and what each answer means;
//! the caller owns the connection and the shared-memory segment and performs
//! the requests. With the MIT-SHM extension the server writes the pixels into
//! the segment; without it they come back in the reply. Either way the same
//! bytes end in the same image.

pub mod capture;
pub mod enumeration;
pub mod error;
pub mod segment;
pub mod setup;

pub use capture::{
    Fetch, Fetching, ImageReply, ImageRequest, X11Call, X11Capturer, X11View, PLANE_MASK, Z_PIXMAP,
};
pub use enumeration::{
    get_displays, resume_get_displays, Awaited, Crtc, Enumeration, Monitor, RandrCall, RandrReply,
};
pub use error::X11Error;
pub use segment::{Release, Segment, Teardown};
pub use setup::{Screen, Setup, SetupCall, SetupFailure, SetupReply, SetupStage};
