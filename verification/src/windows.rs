//! The GDI backend.
//!
//! The engine decides the order of the GDI calls, what each refusal means and
//! what has to be released; the caller owns the two device contexts and the
//! bitmap section and performs the calls.

pub mod capture;
pub mod error;
pub mod monitor;
pub mod setup;

pub use capture::{
    BitmapInfo, BlitArea, Compression, Frame, GdiCall, GdiReply, GdiStage, Transfer,
    WindowsCapturer, WindowsView,
};
pub use error::WindowsError;
pub use monitor::{enum_display_callback, Rect};
pub use setup::{
    admits_reply, Contexts, Setup, SetupCall, SetupFailure, SetupReply, SetupStage,
};
