//! Error kinds reported by the capture pipeline.

use vstd::prelude::*;

verus! {

/// Everything that can go wrong during a capture call.
#[derive(Debug)]
pub enum Error {
    /// The compositor could not be reached; fatal for the whole call.
    ConnectionFailed,
    /// A required global (screen-copy manager, output-geometry manager or
    /// shared-memory factory) was never announced by the compositor.
    ProtocolUnsupported,
    /// No output carries the requested name.
    NoOutput(String),
    /// The output set is empty after filtering, so there is nothing to
    /// composite (for example a region entirely outside every output).
    NoCaptures,
    /// A frame was offered in a wire pixel format outside the three
    /// supported ones, or with degenerate buffer dimensions.
    UnsupportedPixelFormat,
    /// The compositor reported an output transform beyond the eight
    /// handled rotation/flip variants.
    UnsupportedTransform,
    /// The compositor reported failure for an output's copy request.
    ScreencopyFailed,
}

impl Error {
    /// A human-readable description of the error.
    pub fn message(&self) -> (r: String)
        ensures
            match self {
                Error::ConnectionFailed => r@ == "failed to connect to the wayland server"@,
                Error::ProtocolUnsupported => r@
                    == "the compositor lacks a required protocol extension"@,
                Error::NoOutput(name) => r@ == name@,
                Error::NoCaptures => r@
                    == "no screen captures when trying to composite the complete capture"@,
                Error::UnsupportedPixelFormat => r@
                    == "the compositor offered an unsupported pixel format"@,
                Error::UnsupportedTransform => r@
                    == "the compositor reported an unsupported output transform"@,
                Error::ScreencopyFailed => r@ == "the compositor reported a failed screen copy"@,
            },
    {
        match self {
            Error::ConnectionFailed => "failed to connect to the wayland server".to_owned(),
            Error::ProtocolUnsupported => "the compositor lacks a required protocol extension".to_owned(),
            Error::NoOutput(name) => name.clone(),
            Error::NoCaptures => "no screen captures when trying to composite the complete capture".to_owned(),
            Error::UnsupportedPixelFormat => "the compositor offered an unsupported pixel format".to_owned(),
            Error::UnsupportedTransform => "the compositor reported an unsupported output transform".to_owned(),
            Error::ScreencopyFailed => "the compositor reported a failed screen copy".to_owned(),
        }
    }
}

} // verus!
