//! Inertial Measurement Unit Data Transfer Protocol (IDTP): the frame codec
//! that turns headers and payloads into wire bytes and back.

pub mod error;
pub mod frame;
pub mod header;

pub use error::IdtpError;
pub use frame::{
    FrameView, IdtpFrame, IDTP_PACKET_MAX_SIZE, IDTP_PACKET_MIN_SIZE, IDTP_PAYLOAD_MAX_SIZE,
};
pub use header::{
    IdtpHeader, Mode, Version, IDTP_VERSION_MAJOR, IDTP_VERSION_MINOR, IDTP_VERSION_PATCH,
    IDTP_HEADER_SIZE, IDTP_PREAMBLE, IDTP_PREAMBLE_SIZE, IDTP_TRAILER, IDTP_TRAILER_SIZE,
    IDTP_VERSION_SIZE,
};
