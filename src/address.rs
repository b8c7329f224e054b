//! The control-listener address specification, `<transport>:<address>`,
//! read into the listener it asks for.
use vstd::prelude::*;
use vstd::string::StringSliceAdditionalSpecFns;
use vstd::utf8::*;

use crate::decimal::{decimal_u32, parse_u32};
use crate::{text_bytes, CronError};

verus! {

/// `:` in ASCII.
pub const COLON: u8 = 58;

/// The VSOCK context id that stands for any context id.
pub const VSOCK_CID_ANY: u32 = 4294967295;

/// The transports, beside TCP, that the platform can listen on.
#[derive(Clone, Copy, Debug)]
pub struct Transports {
    pub unix: bool,
    pub vsock: bool,
}

/// The listener that an address specification asks for.
#[derive(Debug)]
pub enum ControlAddr {
    /// A TCP listener at a socket address (`host:port`).
    Tcp(String),
    /// A Unix-domain listener at a filesystem path.
    Unix(String),
    /// A VSOCK listener at a context id and port.
    Vsock { cid: u32, port: u32 },
}

/// What an address specification, as bytes, asks for.
pub enum AddrOutcome {
    /// No listener is configured.
    Unconfigured,
    /// A TCP listener at the socket address with these bytes.
    Tcp(Seq<u8>),
    /// A Unix-domain listener at the path with these bytes.
    Unix(Seq<u8>),
    /// A VSOCK listener at this context id and port.
    Vsock(u32, u32),
    /// The address under a recognised transport does not parse.
    BadAddress,
    /// A VSOCK address without the colon between context id and port.
    BadVsockForm,
}

/// `tcp`.
pub open spec fn tag_tcp() -> Seq<u8> {
    seq![116u8, 99u8, 112u8]
}

/// `unix`.
pub open spec fn tag_unix() -> Seq<u8> {
    seq![117u8, 110u8, 105u8, 120u8]
}

/// `vsock`.
pub open spec fn tag_vsock() -> Seq<u8> {
    seq![118u8, 115u8, 111u8, 99u8, 107u8]
}

/// `-1`, the text of the wildcard context id.
pub open spec fn any_cid_text() -> Seq<u8> {
    seq![45u8, 49u8]
}

/// Whether `FromStr for core::net::SocketAddr` accepts `text`.
pub uninterp spec fn is_socket_addr(text: Seq<char>) -> bool;

/// `i` is the position of the first colon in `b`.
pub open spec fn is_first_colon(b: Seq<u8>, i: int) -> bool {
    &&& 0 <= i < b.len()
    &&& b[i] == COLON
    &&& forall|j: int| 0 <= j < i ==> b[j] != COLON
}

/// `b` cut at its first colon, the colon itself dropped.
pub open spec fn split_at_colon(b: Seq<u8>) -> Option<(Seq<u8>, Seq<u8>)> {
    if exists|i: int| is_first_colon(b, i) {
        let i = choose|i: int| is_first_colon(b, i);
        Some((b.take(i), b.skip(i + 1)))
    } else {
        None
    }
}

/// What the VSOCK address `cid:port` asks for.
pub open spec fn vsock_outcome(rest: Seq<u8>) -> AddrOutcome {
    match split_at_colon(rest) {
        None => AddrOutcome::BadVsockForm,
        Some((c, p)) => {
            let cid = if c == any_cid_text() {
                Some(VSOCK_CID_ANY)
            } else {
                decimal_u32(c)
            };
            match (cid, decimal_u32(p)) {
                (Some(cid), Some(port)) => AddrOutcome::Vsock(cid, port),
                _ => AddrOutcome::BadAddress,
            }
        }
    }
}

/// What the address specification `spec` asks for on a platform with
/// `transports`. An absent specification, one without a colon, and one with
/// a tag that the platform does not know all mean that nothing is configured.
pub open spec fn address_outcome(spec: Option<Seq<u8>>, transports: Transports) -> AddrOutcome {
    match spec {
        None => AddrOutcome::Unconfigured,
        Some(b) => match split_at_colon(b) {
            None => AddrOutcome::Unconfigured,
            Some((tag, rest)) => if tag == tag_tcp() {
                if is_socket_addr(decode_utf8(rest)) {
                    AddrOutcome::Tcp(rest)
                } else {
                    AddrOutcome::BadAddress
                }
            } else if tag == tag_unix() && transports.unix {
                AddrOutcome::Unix(rest)
            } else if tag == tag_vsock() && transports.vsock {
                vsock_outcome(rest)
            } else {
                AddrOutcome::Unconfigured
            },
        },
    }
}

/// A specification without a colon, or with a transport tag other than
/// `tcp`, `unix` and `vsock`, leaves the listener unconfigured and is never
/// an error, whatever follows the tag.
pub proof fn lemma_unknown_transport_is_unconfigured(b: Seq<u8>, transports: Transports)
    requires
        match split_at_colon(b) {
            None => true,
            Some((tag, _)) => tag != tag_tcp() && tag != tag_unix() && tag != tag_vsock(),
        },
    ensures
        address_outcome(Some(b), transports) == AddrOutcome::Unconfigured,
{
}

/// What a result of `parse_control_address` says, if it is one that the
/// function can give.
pub open spec fn outcome_of(r: Result<Option<ControlAddr>, CronError>) -> Option<AddrOutcome> {
    match r {
        Ok(None) => Some(AddrOutcome::Unconfigured),
        Ok(Some(ControlAddr::Tcp(a))) => Some(AddrOutcome::Tcp(encode_utf8(a@))),
        Ok(Some(ControlAddr::Unix(p))) => Some(AddrOutcome::Unix(encode_utf8(p@))),
        Ok(Some(ControlAddr::Vsock { cid, port })) => Some(AddrOutcome::Vsock(cid, port)),
        Err(CronError::InvalidSockAddr) => Some(AddrOutcome::BadAddress),
        Err(CronError::Io(_)) => Some(AddrOutcome::BadVsockForm),
        Err(CronError::InvalidCron) => None,
    }
}

/// Relies on `FromStr for core::net::SocketAddr`: whether it accepts the text.
#[verifier::external_body]
fn parses_as_socket_addr(text: &str) -> (r: bool)
    ensures
        r == is_socket_addr(text@),
{
    text.parse::<core::net::SocketAddr>().is_ok()
}

/// Relies on `std::io::Error::new`: the `InvalidInput` error for a VSOCK
/// address without a colon between context id and port.
#[verifier::external_body]
fn invalid_vsock_addr_error() -> std::io::Error {
    std::io::Error::new(std::io::ErrorKind::InvalidInput, "invalid vsock addr")
}

/// The position of the first colon in `b`.
fn first_colon(b: &[u8]) -> (r: Option<usize>)
    ensures
        match r {
            Some(i) => is_first_colon(b@, i as int),
            None => forall|j: int| 0 <= j < b@.len() ==> b@[j] != COLON,
        },
{
    let mut i: usize = 0;
    while i < b.len()
        invariant
            i <= b@.len(),
            forall|j: int| 0 <= j < i ==> b@[j] != COLON,
        decreases b@.len() - i,
    {
        if b[i] == COLON {
            return Some(i);
        }
        i = i + 1;
    }
    None
}

proof fn lemma_split_at_colon(b: Seq<u8>, i: int)
    requires
        is_first_colon(b, i),
    ensures
        split_at_colon(b) == Some((b.take(i), b.skip(i + 1))),
{
    let k = choose|k: int| is_first_colon(b, k);
    assert(is_first_colon(b, k));
    if k < i {
        assert(b[k] != COLON);
    } else if i < k {
        assert(b[i] != COLON);
    }
}

/// Splits `s` at its first colon, dropping the colon.
fn split_once_colon(s: &str) -> (r: Option<(&str, &str)>)
    ensures
        match r {
            Some((h, t)) => split_at_colon(s.spec_bytes()) == Some((h.spec_bytes(), t.spec_bytes())),
            None => split_at_colon(s.spec_bytes()) is None,
        },
{
    let b = s.as_bytes();
    match first_colon(b) {
        None => {
            assert(!exists|i: int| is_first_colon(s.spec_bytes(), i));
            None
        },
        Some(i) => {
            let ghost bytes = s.spec_bytes();
            proof {
                encode_utf8_valid_utf8(s@);
                is_char_boundary_iff_not_is_continuation_byte(bytes, i as int);
            }
            let (head, tail) = s.split_at(i);
            let ghost tb = tail.spec_bytes();
            proof {
                encode_utf8_valid_utf8(tail@);
                assert(tb[0] == COLON);
                if tb.len() == 1 {
                    is_char_boundary_start_end_of_seq(tb);
                } else {
                    reveal_with_fuel(is_char_boundary, 2);
                    assert(length_of_first_scalar(tb) == 1);
                    assert(is_char_boundary(pop_first_scalar(tb), 0));
                }
            }
            let (_, rest) = tail.split_at(1);
            proof {
                lemma_split_at_colon(bytes, i as int);
                assert(head.spec_bytes() =~= bytes.take(i as int));
                assert(rest.spec_bytes() =~= bytes.skip(i + 1));
            }
            Some((head, rest))
        },
    }
}

/// Whether the transport tag is `tcp`.
fn is_tcp_tag(b: &str) -> (r: bool)
    ensures
        r == (b.spec_bytes() == tag_tcp()),
{
    let b = b.as_bytes();
    let r = b.len() == 3 && b[0] == 116 && b[1] == 99 && b[2] == 112;
    if r {
        assert(b@ =~= tag_tcp());
    }
    r
}

/// Whether the transport tag is `unix`.
fn is_unix_tag(b: &str) -> (r: bool)
    ensures
        r == (b.spec_bytes() == tag_unix()),
{
    let b = b.as_bytes();
    let r = b.len() == 4 && b[0] == 117 && b[1] == 110 && b[2] == 105 && b[3] == 120;
    if r {
        assert(b@ =~= tag_unix());
    }
    r
}

/// Whether the transport tag is `vsock`.
fn is_vsock_tag(b: &str) -> (r: bool)
    ensures
        r == (b.spec_bytes() == tag_vsock()),
{
    let b = b.as_bytes();
    let r = b.len() == 5 && b[0] == 118 && b[1] == 115 && b[2] == 111 && b[3] == 99 && b[4]
        == 107;
    if r {
        assert(b@ =~= tag_vsock());
    }
    r
}

/// Whether the context id is written `-1`.
fn is_any_cid(b: &str) -> (r: bool)
    ensures
        r == (b.spec_bytes() == any_cid_text()),
{
    let b = b.as_bytes();
    let r = b.len() == 2 && b[0] == 45 && b[1] == 49;
    if r {
        assert(b@ =~= any_cid_text());
    }
    r
}

/// Reads the VSOCK address `cid:port`; a context id of `-1` is any.
fn parse_vsock_addr(rest: &str) -> (r: Result<Option<ControlAddr>, CronError>)
    ensures
        outcome_of(r) == Some(vsock_outcome(rest.spec_bytes())),
{
    let (cid_text, port_text) = match split_once_colon(rest) {
        Some(parts) => parts,
        None => return Err(CronError::Io(invalid_vsock_addr_error())),
    };
    let cid = if is_any_cid(cid_text) {
        VSOCK_CID_ANY
    } else {
        match parse_u32(cid_text) {
            Some(c) => c,
            None => return Err(CronError::InvalidSockAddr),
        }
    };
    match parse_u32(port_text) {
        Some(port) => Ok(Some(ControlAddr::Vsock { cid, port })),
        None => Err(CronError::InvalidSockAddr),
    }
}

/// Reads the control-listener address specification `spec`, if one is set,
/// on a platform that can listen on `transports`. Only a malformed address
/// under a recognised transport is an error; anything else that is not an
/// address means that no listener is configured.
pub fn parse_control_address(spec: Option<&str>, transports: Transports) -> (r: Result<
    Option<ControlAddr>,
    CronError,
>)
    ensures
        outcome_of(r) == Some(address_outcome(text_bytes(spec), transports)),
{
    let spec = match spec {
        Some(s) => s,
        None => return Ok(None),
    };
    let (tag, rest) = match split_once_colon(spec) {
        Some(parts) => parts,
        None => return Ok(None),
    };
    proof {
        encode_utf8_decode_utf8(rest@);
    }
    if is_tcp_tag(tag) {
        if parses_as_socket_addr(rest) {
            Ok(Some(ControlAddr::Tcp(rest.to_owned())))
        } else {
            Err(CronError::InvalidSockAddr)
        }
    } else if is_unix_tag(tag) && transports.unix {
        Ok(Some(ControlAddr::Unix(rest.to_owned())))
    } else if is_vsock_tag(tag) && transports.vsock {
        parse_vsock_addr(rest)
    } else {
        Ok(None)
    }
}

} // verus!
