//! The per-connection request-handling state machine. Each accepted client
//! connection walks `AwaitingRequest → RateLimitCheck → Forwarding →
//! AwaitingUpstreamResponse → RelayingResponse` and back, until the client
//! hangs up or a fatal error closes it. Every transition is a function from
//! the current state and the outcome of the last piece of outside work to
//! the next state and the next action; the socket work itself happens
//! outside this crate.

use vstd::prelude::*;
use crate::pool::{UpstreamPool, counter_updated, window_exceeds};

verus! {

pub const STATUS_OK: u16 = 200;

pub const STATUS_BAD_REQUEST: u16 = 400;

pub const STATUS_PAYLOAD_TOO_LARGE: u16 = 413;

pub const STATUS_TOO_MANY_REQUESTS: u16 = 429;

pub const STATUS_BAD_GATEWAY: u16 = 502;

/// The states of one client connection's handler.
#[derive(Clone, Copy, Debug, PartialEq, Eq, Structural)]
pub enum HandlerState {
    /// Blocked reading the next request off the client socket.
    AwaitingRequest,
    /// A request arrived; its client is being counted against the limit.
    RateLimitCheck,
    /// Writing the request to the already-selected upstream.
    Forwarding,
    /// Blocked reading one response from the upstream.
    AwaitingUpstreamResponse,
    /// Copying the upstream's response back to the client.
    RelayingResponse,
    /// The client hung up before sending another request.
    ClosedByClient,
    /// A socket-level failure tore the connection down.
    ClosedOnFatalError,
}

/// What can go wrong while reading one request from the client, as the
/// HTTP layer reports it.
#[derive(Clone, Copy, Debug, PartialEq, Eq, Structural)]
pub enum RequestError {
    /// The stream ended after this many bytes of an unfinished request.
    IncompleteRequest(usize),
    /// The bytes did not parse as an HTTP request.
    MalformedRequest,
    /// The Content-Length header did not parse as a number.
    InvalidContentLength,
    /// The body's length did not match the declared Content-Length.
    ContentLengthMismatch,
    /// The body exceeded the configured maximum.
    RequestBodyTooLarge,
    /// An I/O error on the client socket itself.
    ConnectionError,
}

/// What the surrounding connection loop must do next.
#[derive(Clone, Copy, Debug, PartialEq, Eq, Structural)]
pub enum HandlerAction {
    /// Read the next request from the client.
    ReadRequest,
    /// Count this request against the client's rate limit.
    CheckRateLimit,
    /// Write the request (with the forwarded-for header) to the upstream.
    ForwardRequest,
    /// Read one response from the upstream.
    ReadUpstreamResponse,
    /// Copy the upstream's response to the client.
    RelayResponse,
    /// Send a synthesized response with this status, then keep the
    /// connection open and read the next request.
    SendAndContinue(u16),
    /// Send a synthesized response with this status, then close.
    SendAndClose(u16),
    /// Close without any response.
    CloseSilently,
}

/// Where the handler goes after an attempt to read one request. The client
/// hanging up cleanly (no bytes of a next request) closes gracefully; an
/// I/O error on the client socket closes without a response; a request the
/// HTTP layer rejected is answered with 400 — or 413 for an oversized
/// body — and the connection stays open; a well-formed request moves on to
/// the rate-limit check.
pub open spec fn read_transition(outcome: Result<(), RequestError>) -> (
    HandlerState,
    HandlerAction,
) {
    match outcome {
        Ok(()) => (HandlerState::RateLimitCheck, HandlerAction::CheckRateLimit),
        Err(e) => match e {
            RequestError::IncompleteRequest(n) => if n == 0 {
                (HandlerState::ClosedByClient, HandlerAction::CloseSilently)
            } else {
                (
                    HandlerState::AwaitingRequest,
                    HandlerAction::SendAndContinue(STATUS_BAD_REQUEST),
                )
            },
            RequestError::ConnectionError => (
                HandlerState::ClosedOnFatalError,
                HandlerAction::CloseSilently,
            ),
            RequestError::RequestBodyTooLarge => (
                HandlerState::AwaitingRequest,
                HandlerAction::SendAndContinue(STATUS_PAYLOAD_TOO_LARGE),
            ),
            _ => (
                HandlerState::AwaitingRequest,
                HandlerAction::SendAndContinue(STATUS_BAD_REQUEST),
            ),
        },
    }
}

/// Where the handler goes after the rate-limit check: an over-limit client
/// is told 429 and the connection stays open; otherwise the request is
/// forwarded.
pub open spec fn rate_limit_transition(
    counts: Seq<(String, usize)>,
    ip: Seq<char>,
    limit: usize,
) -> (HandlerState, HandlerAction) {
    if window_exceeds(counts, ip, limit) {
        (HandlerState::AwaitingRequest, HandlerAction::SendAndContinue(STATUS_TOO_MANY_REQUESTS))
    } else {
        (HandlerState::Forwarding, HandlerAction::ForwardRequest)
    }
}

/// Where the handler goes after writing the request to the upstream: a
/// write failure is fatal for this connection — 502, then close, with no
/// reselection mid-stream.
pub open spec fn forward_transition(ok: bool) -> (HandlerState, HandlerAction) {
    if ok {
        (HandlerState::AwaitingUpstreamResponse, HandlerAction::ReadUpstreamResponse)
    } else {
        (HandlerState::ClosedOnFatalError, HandlerAction::SendAndClose(STATUS_BAD_GATEWAY))
    }
}

/// Where the handler goes after reading the upstream's response: a read
/// failure is fatal in the same way as a write failure.
pub open spec fn upstream_response_transition(ok: bool) -> (HandlerState, HandlerAction) {
    if ok {
        (HandlerState::RelayingResponse, HandlerAction::RelayResponse)
    } else {
        (HandlerState::ClosedOnFatalError, HandlerAction::SendAndClose(STATUS_BAD_GATEWAY))
    }
}

/// Where the handler goes at connection setup, given the selector's answer:
/// with no live upstream the client is told 502 at once and the connection
/// stays open, so a later request may retry; otherwise the handler starts
/// reading requests.
pub open spec fn connect_transition(selected: Option<usize>) -> (HandlerState, HandlerAction) {
    match selected {
        None => (HandlerState::AwaitingRequest, HandlerAction::SendAndContinue(STATUS_BAD_GATEWAY)),
        Some(_) => (HandlerState::AwaitingRequest, HandlerAction::ReadRequest),
    }
}

/// Step taken when the selector has answered (or failed to answer) with an
/// upstream for a fresh connection.
pub fn on_upstream_selected(selected: &Option<usize>) -> (r: (HandlerState, HandlerAction))
    ensures
        r == connect_transition(*selected),
{
    match selected {
        None => (HandlerState::AwaitingRequest, HandlerAction::SendAndContinue(STATUS_BAD_GATEWAY)),
        Some(_) => (HandlerState::AwaitingRequest, HandlerAction::ReadRequest),
    }
}

/// Step taken when an attempt to read one request has finished.
pub fn on_request_read(state: HandlerState, outcome: &Result<(), RequestError>) -> (r: (
    HandlerState,
    HandlerAction,
))
    requires
        state == HandlerState::AwaitingRequest,
    ensures
        r == read_transition(*outcome),
{
    match outcome {
        Ok(()) => (HandlerState::RateLimitCheck, HandlerAction::CheckRateLimit),
        Err(e) => match e {
            RequestError::IncompleteRequest(n) => if *n == 0 {
                (HandlerState::ClosedByClient, HandlerAction::CloseSilently)
            } else {
                (
                    HandlerState::AwaitingRequest,
                    HandlerAction::SendAndContinue(STATUS_BAD_REQUEST),
                )
            },
            RequestError::ConnectionError => (
                HandlerState::ClosedOnFatalError,
                HandlerAction::CloseSilently,
            ),
            RequestError::RequestBodyTooLarge => (
                HandlerState::AwaitingRequest,
                HandlerAction::SendAndContinue(STATUS_PAYLOAD_TOO_LARGE),
            ),
            _ => (
                HandlerState::AwaitingRequest,
                HandlerAction::SendAndContinue(STATUS_BAD_REQUEST),
            ),
        },
    }
}

/// Step taken for the rate-limit check: counts this request against
/// `client_ip` in the pool and answers 429 — with the connection kept
/// open — when the client went over the limit.
pub fn on_rate_limit_check(state: HandlerState, pool: &mut UpstreamPool, client_ip: &String) -> (r:
    (HandlerState, HandlerAction))
    requires
        state == HandlerState::RateLimitCheck,
        old(pool).wf(),
    ensures
        final(pool).wf(),
        final(pool).same_config(*old(pool)),
        final(pool).upstream_address_flags == old(pool).upstream_address_flags,
        final(pool).upstream_address_alive_num == old(pool).upstream_address_alive_num,
        counter_updated(*old(pool), *final(pool), client_ip@),
        r == rate_limit_transition(
            old(pool).rate_limiting_counter@,
            client_ip@,
            old(pool).max_requests_per_minute,
        ),
{
    let exceeded = pool.increment_and_check(client_ip);
    if exceeded {
        (HandlerState::AwaitingRequest, HandlerAction::SendAndContinue(STATUS_TOO_MANY_REQUESTS))
    } else {
        (HandlerState::Forwarding, HandlerAction::ForwardRequest)
    }
}

/// Step taken when the write of the request to the upstream has finished.
pub fn on_forward_result(state: HandlerState, ok: bool) -> (r: (HandlerState, HandlerAction))
    requires
        state == HandlerState::Forwarding,
    ensures
        r == forward_transition(ok),
{
    if ok {
        (HandlerState::AwaitingUpstreamResponse, HandlerAction::ReadUpstreamResponse)
    } else {
        (HandlerState::ClosedOnFatalError, HandlerAction::SendAndClose(STATUS_BAD_GATEWAY))
    }
}

/// Step taken when the read of the upstream's response has finished.
pub fn on_upstream_response(state: HandlerState, ok: bool) -> (r: (HandlerState, HandlerAction))
    requires
        state == HandlerState::AwaitingUpstreamResponse,
    ensures
        r == upstream_response_transition(ok),
{
    if ok {
        (HandlerState::RelayingResponse, HandlerAction::RelayResponse)
    } else {
        (HandlerState::ClosedOnFatalError, HandlerAction::SendAndClose(STATUS_BAD_GATEWAY))
    }
}

/// Step taken once the response has been relayed: back to reading the next
/// request over the same connection.
pub fn on_response_relayed(state: HandlerState) -> (r: (HandlerState, HandlerAction))
    requires
        state == HandlerState::RelayingResponse,
    ensures
        r == (HandlerState::AwaitingRequest, HandlerAction::ReadRequest),
{
    (HandlerState::AwaitingRequest, HandlerAction::ReadRequest)
}

/// The x-forwarded-for value the upstream observes: the client's address
/// alone when the client sent none, and otherwise the existing value
/// extended — not replaced — so chained proxies keep their history.
pub fn extend_header_value(existing: Option<&str>, client_ip: &str) -> (r: String)
    ensures
        existing is None ==> r@ == client_ip@,
        existing matches Some(v) ==> r@ == v@ + ", "@ + client_ip@,
{
    match existing {
        None => client_ip.to_owned(),
        Some(v) => {
            let mut s = v.to_owned();
            s.append(", ");
            s.append(client_ip);
            s
        },
    }
}

/// Malformed-request resilience: a request whose Content-Length is invalid
/// is answered with 400 while the connection stays open, and a following
/// well-formed request from a client within its rate limit proceeds to
/// forwarding over that same connection.
pub proof fn lemma_malformed_request_recovery(
    counts: Seq<(String, usize)>,
    ip: Seq<char>,
    limit: usize,
)
    requires
        !window_exceeds(counts, ip, limit),
    ensures
        read_transition(Err(RequestError::InvalidContentLength)) == (
            HandlerState::AwaitingRequest,
            HandlerAction::SendAndContinue(STATUS_BAD_REQUEST),
        ),
        read_transition(Ok(())) == (HandlerState::RateLimitCheck, HandlerAction::CheckRateLimit),
        rate_limit_transition(counts, ip, limit) == (
            HandlerState::Forwarding,
            HandlerAction::ForwardRequest,
        ),
{
}

} // verus!
