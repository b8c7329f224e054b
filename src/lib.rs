//! Next-deadline evaluation for cron schedules, and parsing of the
//! control-listener address specification.
use vstd::prelude::*;
use vstd::string::StringSliceAdditionalSpecFns;

pub mod decimal;
pub mod deadline;
pub mod address;

pub use address::{parse_control_address, ControlAddr, Transports};
pub use deadline::{compute_next_deadline, next_deadline_at, parse_test_offset, Schedule};

verus! {

#[verifier::external_type_specification]
#[verifier::external_body]
pub struct ExIoError(std::io::Error);

/// The ways evaluating a schedule or reading the control address can fail.
#[derive(Debug)]
pub enum CronError {
    /// The schedule does not parse, or admits no later occurrence.
    InvalidCron,
    /// A listener could not be set up, or a VSOCK address lacks the colon
    /// between context id and port; the underlying error is kept as is.
    Io(std::io::Error),
    /// The address part of a recognised transport does not parse.
    InvalidSockAddr,
}

/// The UTF-8 bytes of an optional text.
pub open spec fn text_bytes(text: Option<&str>) -> Option<Seq<u8>> {
    match text {
        Some(t) => Some(t.spec_bytes()),
        None => None,
    }
}

} // verus!
