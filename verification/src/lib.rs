//! Screen capture compositing library for wlr-screencopy compositors.
//!
//! The library holds the verified core of a screenshot tool: rectangle
//! algebra, the screen-copy negotiation state machine, per-output transform
//! and pixel-format normalization, and compositing of per-output captures
//! into one logically-addressed RGBA8 buffer. Connection handling and event
//! dispatch are left to the caller, which feeds plain values into the state
//! machine and hands the captured buffers back for compositing.

pub mod capture;
pub mod composite;
pub mod error;
pub mod protocol;
pub mod rectangle;
pub mod region;

pub use capture::OutputCapture;
pub use capture::PixelFormat;
pub use capture::Transform;
pub use composite::Capture;
pub use composite::captures_to_buffer;
pub use composite::grey_value;
pub use error::Error;
pub use protocol::OutputInfo;
pub use protocol::State;
pub use rectangle::Position;
pub use rectangle::Rectangle;
pub use rectangle::Size;
pub use region::Rect;
pub use region::RectValueParser;
pub use region::Region;
pub use region::RegionValueParser;
