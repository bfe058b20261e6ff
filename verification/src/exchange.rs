//! One exchange as the logger sees it: what it waits for, and what is to be
//! done next.
//!
//! The caller does the work that takes time: it reads the bodies, hands the
//! request on and writes the log. After each piece of work it reports what
//! came of it and is told what to do next. The bytes that are handed on are
//! the bytes that were read.

use crate::header::{header_views, Header, HeaderView};
use crate::logger::{CapturedExchange, ExchangeView};
use crate::text::{chars_of, copy_bytes, push_chars, string_of};
use vstd::prelude::*;

verus! {

/// How far an exchange has come.
#[derive(Clone, Copy, Debug, PartialEq, Eq, Structural)]
pub enum Phase {
    /// Peer, method, target, protocol and time are recorded; the body of
    /// the request is being read.
    Entered,
    /// The body of the request is kept and is to be handed on.
    RequestCaptured,
    /// The request is with the responder.
    DownstreamRunning,
    /// Status, headers and body of the response are kept; the log is to be
    /// written and the response to be sent.
    ResponseCaptured,
    /// The log is written and the bodies are let go.
    Emitted,
    /// A body could not be read.
    Failed,
}

/// An exchange on its way.
#[derive(Clone, Debug, PartialEq, Eq)]
pub struct Exchange {
    pub phase: Phase,
    pub captured: CapturedExchange,
}

/// What an [`Exchange`] holds.
pub struct StateView {
    pub phase: Phase,
    pub captured: ExchangeView,
}

impl View for Exchange {
    type V = StateView;

    open spec fn view(&self) -> StateView {
        StateView { phase: self.phase, captured: self.captured@ }
    }
}

/// What the caller reports.
#[derive(Debug, PartialEq, Eq)]
pub enum Event {
    /// The body of the request was read, or could not be.
    RequestBody(Result<Vec<u8>, String>),
    /// The request was handed on.
    Forwarded,
    /// The responder has answered; the body of the answer was read, or
    /// could not be.
    Response { status: u16, headers: Vec<Header>, body: Result<Vec<u8>, String> },
    /// The log was written.
    Written,
}

/// What an [`Event`] holds.
pub enum EventView {
    RequestBody(Result<Seq<u8>, Seq<char>>),
    Forwarded,
    Response { status: u16, headers: Seq<HeaderView>, body: Result<Seq<u8>, Seq<char>> },
    Written,
}

/// The view of what was read.
pub open spec fn read_view(body: Result<Vec<u8>, String>) -> Result<Seq<u8>, Seq<char>> {
    match body {
        Ok(bytes) => Ok(bytes@),
        Err(message) => Err(message@),
    }
}

impl View for Event {
    type V = EventView;

    open spec fn view(&self) -> EventView {
        match self {
            Event::RequestBody(body) => EventView::RequestBody(read_view(*body)),
            Event::Forwarded => EventView::Forwarded,
            Event::Response { status, headers, body } => EventView::Response {
                status: *status,
                headers: header_views(headers@),
                body: read_view(*body),
            },
            Event::Written => EventView::Written,
        }
    }
}

/// What the caller is to do next.
#[derive(Clone, Debug, PartialEq, Eq)]
pub enum Action {
    /// Hand the request on with this body.
    Forward(Vec<u8>),
    /// Wait for the responder.
    Await,
    /// Write the log for what is captured, and send the response with this
    /// body.
    Emit(Vec<u8>),
    /// Answer with this status and message, and log the message.
    Reject { status: u16, message: String },
    /// Nothing is left to do.
    Done,
    /// The report does not belong here; nothing has changed.
    Ignore,
}

/// What an [`Action`] holds.
pub enum ActionView {
    Forward(Seq<u8>),
    Await,
    Emit(Seq<u8>),
    Reject { status: u16, message: Seq<char> },
    Done,
    Ignore,
}

impl View for Action {
    type V = ActionView;

    open spec fn view(&self) -> ActionView {
        match self {
            Action::Forward(bytes) => ActionView::Forward(bytes@),
            Action::Await => ActionView::Await,
            Action::Emit(bytes) => ActionView::Emit(bytes@),
            Action::Reject { status, message } => ActionView::Reject {
                status: *status,
                message: message@,
            },
            Action::Done => ActionView::Done,
            Action::Ignore => ActionView::Ignore,
        }
    }
}

/// The status of the answer to a body that could not be read.
pub const UNREADABLE_STATUS: u16 = 400;

/// The message for the body of a request that could not be read.
pub open spec fn request_failure(reason: Seq<char>) -> Seq<char> {
    "failed to read request body: "@ + reason
}

/// The message for the body of a response that could not be read.
pub open spec fn response_failure(reason: Seq<char>) -> Seq<char> {
    "failed to read response body: "@ + reason
}

/// The exchange at its entry: nothing of the bodies or the response yet.
pub open spec fn entered(
    peer: Seq<char>,
    method: Seq<char>,
    uri: Seq<char>,
    protocol: Seq<char>,
    headers: Seq<HeaderView>,
    timestamp: Seq<char>,
) -> StateView {
    StateView {
        phase: Phase::Entered,
        captured: ExchangeView {
            peer,
            method,
            uri,
            protocol,
            request_headers: headers,
            request_body: Seq::empty(),
            response_status: 0,
            response_headers: Seq::empty(),
            response_body: Seq::empty(),
            timestamp,
        },
    }
}

/// The exchange in another phase.
pub open spec fn in_phase(state: StateView, phase: Phase) -> StateView {
    StateView { phase, captured: state.captured }
}

/// The next state and the next action for a report. A report that does not
/// belong to the phase changes nothing.
pub open spec fn next(state: StateView, event: EventView) -> (StateView, ActionView) {
    let c = state.captured;
    match (state.phase, event) {
        (Phase::Entered, EventView::RequestBody(Ok(bytes))) => (
            StateView {
                phase: Phase::RequestCaptured,
                captured: ExchangeView { request_body: bytes, ..c },
            },
            ActionView::Forward(bytes),
        ),
        (Phase::Entered, EventView::RequestBody(Err(reason))) => (
            in_phase(state, Phase::Failed),
            ActionView::Reject { status: UNREADABLE_STATUS, message: request_failure(reason) },
        ),
        (Phase::RequestCaptured, EventView::Forwarded) => (
            in_phase(state, Phase::DownstreamRunning),
            ActionView::Await,
        ),
        (Phase::DownstreamRunning, EventView::Response { status, headers, body: Ok(bytes) }) => (
            StateView {
                phase: Phase::ResponseCaptured,
                captured: ExchangeView {
                    response_status: status,
                    response_headers: headers,
                    response_body: bytes,
                    ..c
                },
            },
            ActionView::Emit(bytes),
        ),
        (Phase::DownstreamRunning, EventView::Response { status, headers, body: Err(reason) }) => (
            StateView {
                phase: Phase::Failed,
                captured: ExchangeView { response_status: status, response_headers: headers, ..c },
            },
            ActionView::Reject { status: UNREADABLE_STATUS, message: response_failure(reason) },
        ),
        (Phase::ResponseCaptured, EventView::Written) => (
            StateView {
                phase: Phase::Emitted,
                captured: ExchangeView {
                    request_body: Seq::empty(),
                    response_body: Seq::empty(),
                    ..c
                },
            },
            ActionView::Done,
        ),
        _ => (state, ActionView::Ignore),
    }
}

/// The bytes that are handed on, or sent, are the bytes that were read.
pub proof fn lemma_bytes_pass_unchanged(state: StateView, event: EventView)
    ensures
        next(state, event).1 matches ActionView::Forward(bytes) ==> event
            == EventView::RequestBody(Ok(bytes)) && next(state, event).0.captured.request_body
            == bytes,
        next(state, event).1 matches ActionView::Emit(bytes) ==> (event matches EventView::Response {
            body,
            ..
        } && body == Ok::<Seq<u8>, Seq<char>>(bytes)) && next(
            state,
            event,
        ).0.captured.response_body == bytes,
{
}

/// What was recorded at the entry stays as it is.
pub proof fn lemma_entry_is_kept(state: StateView, event: EventView)
    ensures
        next(state, event).0.captured.peer == state.captured.peer,
        next(state, event).0.captured.method == state.captured.method,
        next(state, event).0.captured.uri == state.captured.uri,
        next(state, event).0.captured.protocol == state.captured.protocol,
        next(state, event).0.captured.request_headers == state.captured.request_headers,
        next(state, event).0.captured.timestamp == state.captured.timestamp,
{
}

/// The message `prefix` and then `reason`.
fn failure_message(prefix: &str, reason: &str) -> (message: String)
    ensures
        message@ == prefix@ + reason@,
{
    let mut out = chars_of(prefix);
    let more = chars_of(reason);
    push_chars(&mut out, &more);
    string_of(&out)
}

impl Exchange {
    /// The exchange at the entry of a request.
    pub fn enter(
        peer: String,
        method: String,
        uri: String,
        protocol: String,
        headers: Vec<Header>,
        timestamp: String,
    ) -> (exchange: Exchange)
        ensures
            exchange@ == entered(
                peer@,
                method@,
                uri@,
                protocol@,
                header_views(headers@),
                timestamp@,
            ),
    {
        let none: Vec<Header> = Vec::new();
        assert(header_views(none@) =~= Seq::<HeaderView>::empty());
        Exchange {
            phase: Phase::Entered,
            captured: CapturedExchange {
                peer,
                method,
                uri,
                protocol,
                request_headers: headers,
                request_body: Vec::new(),
                response_status: 0,
                response_headers: none,
                response_body: Vec::new(),
                timestamp,
            },
        }
    }

    /// Takes a report and says what to do next.
    pub fn step(self, event: Event) -> (out: (Exchange, Action))
        ensures
            (out.0@, out.1@) == next(self@, event@),
    {
        let Exchange { phase, captured } = self;
        match (phase, event) {
            (Phase::Entered, Event::RequestBody(Ok(bytes))) => {
                let kept = copy_bytes(&bytes);
                let captured = CapturedExchange { request_body: kept, ..captured };
                (Exchange { phase: Phase::RequestCaptured, captured }, Action::Forward(bytes))
            },
            (Phase::Entered, Event::RequestBody(Err(reason))) => {
                let message = failure_message("failed to read request body: ", reason.as_str());
                (
                    Exchange { phase: Phase::Failed, captured },
                    Action::Reject { status: UNREADABLE_STATUS, message },
                )
            },
            (Phase::RequestCaptured, Event::Forwarded) => (
                Exchange { phase: Phase::DownstreamRunning, captured },
                Action::Await,
            ),
            (Phase::DownstreamRunning, Event::Response { status, headers, body: Ok(bytes) }) => {
                let kept = copy_bytes(&bytes);
                let captured = CapturedExchange {
                    response_status: status,
                    response_headers: headers,
                    response_body: kept,
                    ..captured
                };
                (Exchange { phase: Phase::ResponseCaptured, captured }, Action::Emit(bytes))
            },
            (Phase::DownstreamRunning, Event::Response { status, headers, body: Err(reason) }) => {
                let message = failure_message("failed to read response body: ", reason.as_str());
                let captured = CapturedExchange {
                    response_status: status,
                    response_headers: headers,
                    ..captured
                };
                (
                    Exchange { phase: Phase::Failed, captured },
                    Action::Reject { status: UNREADABLE_STATUS, message },
                )
            },
            (Phase::ResponseCaptured, Event::Written) => {
                let captured = CapturedExchange {
                    request_body: Vec::new(),
                    response_body: Vec::new(),
                    ..captured
                };
                (Exchange { phase: Phase::Emitted, captured }, Action::Done)
            },
            (phase, _) => (Exchange { phase, captured }, Action::Ignore),
        }
    }
}

} // verus!
