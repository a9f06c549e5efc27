//! Debug Adapter Protocol messages and message framing.

pub mod protocol;
pub mod transport;

pub use protocol::{
    Event, EventMessageType, OutgoingMessage, Request, RequestMessageType, Response,
    ResponseMessageType,
};
pub use transport::{DapReader, DapWriter, FramingError, HeaderState, HeaderStep, DEFAULT_MAX_CONTENT_LENGTH};

use vstd::prelude::*;

verus! {

/// Current internal version of the DAP implementation.
pub const VERSION: &'static str = "0.1.0";

} // verus!
