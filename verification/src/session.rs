//! The connection manager: which connection is served, in which state, and
//! what is to be done next. The manager never touches a socket. It is told
//! what happened and answers with what to do.

use vstd::prelude::*;
use vstd::string::StrSliceExecFns;
use vstd::utf8::encode_utf8;
use crate::frame::{chunk_ends_session, encode_text_frame, ends_session, text_frame};
use crate::handshake::{
    after_line, internal_error_response, response_bytes, Handshake, HandshakeState,
    HandshakeView, INTERNAL_ERROR_HEAD, MAX_LINE_LEN,
};

verus! {

/// The state of the session that a connection goes through.
#[derive(Clone, Copy, Debug, PartialEq, Eq, Structural)]
pub enum SessionState {
    /// No request has been answered: a connection is awaited, or its request
    /// is being read.
    Listening,
    /// The request is being answered with an error.
    Rejected,
    /// The request is being answered with the viewer page.
    PlainServed,
    /// The connection was upgraded and wire events are written to it.
    Streaming,
    /// The session has ended and the connection is given up.
    Closed,
}

/// What the manager waits for.
#[derive(Clone, Copy, Debug, PartialEq, Eq, Structural)]
pub enum Phase {
    /// For a connection.
    Listening,
    /// For the next line of the request.
    Handshaking,
    /// For the response to a plain or rejected request to be written.
    Responding,
    /// For the upgrade response to be written.
    Upgrading,
    /// For a wire event.
    Idle,
    /// For what the viewer sent, before the wire event at hand is written.
    Polling,
    /// For the frame to be written.
    Sending,
    /// For the viewer's leaving to be published.
    Detaching,
    /// For the failure response to be written.
    Reporting,
}

/// What happened since the manager last said what to do.
pub enum Event {
    /// A connection was accepted.
    Accepted,
    /// A line of the request was read.
    Line(String),
    /// The request ended, or reading it failed, before an empty line.
    EndOfInput,
    /// What was asked for has been done.
    Completed,
    /// What was asked for failed; the text describes the failure.
    Failed(String),
    /// A wire event was taken from the channel.
    Payload(String),
    /// The channel will never hand out a wire event again.
    ChannelClosed,
    /// Bytes were read from the viewer; none at all means the stream ended.
    Inbound(Vec<u8>),
    /// The viewer has sent nothing that could be read now.
    Quiet,
}

/// What is to be done next.
pub enum Action {
    /// Nothing: the event was not awaited and has changed nothing.
    Nothing,
    /// Wait for the next connection.
    Accept,
    /// Read the next line of the request.
    ReadLine,
    /// Write the bytes, which answer the request, and flush.
    Respond(Vec<u8>),
    /// Publish that a viewer is attached, then write the bytes, which accept
    /// the upgrade, and flush.
    Upgrade(Vec<u8>),
    /// Wait for the next wire event.
    AwaitPayload,
    /// Read what the viewer has sent, without waiting for it.
    Poll,
    /// Write the bytes, which are one frame, and flush.
    Send(Vec<u8>),
    /// Publish that no viewer is attached.
    Detach,
    /// Write the bytes, which report a failure, whether or not that works.
    Report(Vec<u8>),
}

/// An event, its texts and bytes as sequences.
pub enum EventView {
    Accepted,
    Line(Seq<char>),
    EndOfInput,
    Completed,
    Failed(Seq<char>),
    Payload(Seq<char>),
    ChannelClosed,
    Inbound(Seq<u8>),
    Quiet,
}

/// An action, its bytes as a sequence.
pub enum ActionView {
    Nothing,
    Accept,
    ReadLine,
    Respond(Seq<u8>),
    Upgrade(Seq<u8>),
    AwaitPayload,
    Poll,
    Send(Seq<u8>),
    Detach,
    Report(Seq<u8>),
}

impl View for Event {
    type V = EventView;

    open spec fn view(&self) -> EventView {
        match *self {
            Event::Accepted => EventView::Accepted,
            Event::Line(l) => EventView::Line(l@),
            Event::EndOfInput => EventView::EndOfInput,
            Event::Completed => EventView::Completed,
            Event::Failed(d) => EventView::Failed(d@),
            Event::Payload(p) => EventView::Payload(p@),
            Event::ChannelClosed => EventView::ChannelClosed,
            Event::Inbound(b) => EventView::Inbound(b@),
            Event::Quiet => EventView::Quiet,
        }
    }
}

impl View for Action {
    type V = ActionView;

    open spec fn view(&self) -> ActionView {
        match *self {
            Action::Nothing => ActionView::Nothing,
            Action::Accept => ActionView::Accept,
            Action::ReadLine => ActionView::ReadLine,
            Action::Respond(b) => ActionView::Respond(b@),
            Action::Upgrade(b) => ActionView::Upgrade(b@),
            Action::AwaitPayload => ActionView::AwaitPayload,
            Action::Poll => ActionView::Poll,
            Action::Send(b) => ActionView::Send(b@),
            Action::Detach => ActionView::Detach,
            Action::Report(b) => ActionView::Report(b@),
        }
    }
}

/// What a manager holds.
pub struct ManagerView {
    pub phase: Phase,
    /// Whether a viewer is attached, as last published.
    pub attached: bool,
    /// The handshake of the connection at hand.
    pub handshake: HandshakeView,
    /// The wire event at hand, while the viewer is polled.
    pub pending: Seq<char>,
    /// The viewer page.
    pub page: Seq<u8>,
}

/// A handshake that has read nothing.
pub open spec fn fresh_handshake() -> HandshakeView {
    HandshakeView {
        state: HandshakeState::AwaitingRequestLine,
        request_line: Seq::empty(),
        token: None,
    }
}

/// Whether a handshake has answered its request.
pub open spec fn finished(h: HandshakeView) -> bool {
    h.state != HandshakeState::AwaitingRequestLine && h.state != HandshakeState::AwaitingHeaders
}

/// The manager and its action once the handshake has taken a line: it reads
/// on, or answers the request; with the upgrade, a viewer is attached.
pub open spec fn after_request_line(m: ManagerView, h: HandshakeView) -> (ManagerView, ActionView) {
    if !finished(h) {
        (ManagerView { handshake: h, ..m }, ActionView::ReadLine)
    } else if h.state == HandshakeState::Upgraded {
        (
            ManagerView { phase: Phase::Upgrading, attached: true, handshake: h, ..m },
            ActionView::Upgrade(response_bytes(h, m.page)),
        )
    } else {
        (
            ManagerView { phase: Phase::Responding, handshake: h, ..m },
            ActionView::Respond(response_bytes(h, m.page)),
        )
    }
}

/// The manager and its action after a failure: the failure is reported on
/// the connection, which is then given up.
pub open spec fn after_failure(m: ManagerView, detail: Seq<char>) -> (ManagerView, ActionView) {
    (
        ManagerView { phase: Phase::Reporting, ..m },
        ActionView::Report(encode_utf8(INTERNAL_ERROR_HEAD@ + detail)),
    )
}

/// The manager and its action when the connection is given up.
pub open spec fn listening_again(m: ManagerView) -> (ManagerView, ActionView) {
    (ManagerView { phase: Phase::Listening, ..m }, ActionView::Accept)
}

/// The manager after an event, and what it asks for. An event that the phase
/// does not await changes nothing and asks for nothing.
pub open spec fn next(m: ManagerView, e: EventView) -> (ManagerView, ActionView) {
    match (m.phase, e) {
        (Phase::Listening, EventView::Accepted) => (
            ManagerView { phase: Phase::Handshaking, handshake: fresh_handshake(), ..m },
            ActionView::ReadLine,
        ),
        (Phase::Handshaking, EventView::Line(line)) => after_request_line(
            m,
            after_line(m.handshake, line),
        ),
        (Phase::Handshaking, EventView::EndOfInput) => after_request_line(
            m,
            after_line(m.handshake, Seq::empty()),
        ),
        (Phase::Responding, EventView::Completed) => listening_again(m),
        (Phase::Responding, EventView::Failed(detail)) => after_failure(m, detail),
        (Phase::Upgrading, EventView::Completed) => (
            ManagerView { phase: Phase::Idle, ..m },
            ActionView::AwaitPayload,
        ),
        (Phase::Upgrading, EventView::Failed(detail)) => after_failure(m, detail),
        (Phase::Idle, EventView::Payload(payload)) => (
            ManagerView { phase: Phase::Polling, pending: payload, ..m },
            ActionView::Poll,
        ),
        (Phase::Idle, EventView::ChannelClosed) => listening_again(m),
        (Phase::Polling, EventView::Inbound(chunk)) => if ends_session(chunk) {
            (
                ManagerView {
                    phase: Phase::Detaching,
                    attached: false,
                    pending: Seq::empty(),
                    ..m
                },
                ActionView::Detach,
            )
        } else {
            (m, ActionView::Poll)
        },
        (Phase::Polling, EventView::Quiet) => (
            ManagerView { phase: Phase::Sending, pending: Seq::empty(), ..m },
            ActionView::Send(text_frame(encode_utf8(m.pending))),
        ),
        (Phase::Sending, EventView::Completed) => (
            ManagerView { phase: Phase::Idle, ..m },
            ActionView::AwaitPayload,
        ),
        (Phase::Sending, EventView::Failed(detail)) => after_failure(m, detail),
        (Phase::Detaching, EventView::Completed) => listening_again(m),
        (Phase::Reporting, EventView::Completed) => listening_again(m),
        (Phase::Reporting, EventView::Failed(_)) => listening_again(m),
        _ => (m, ActionView::Nothing),
    }
}

/// The state of the session in a phase of the manager.
pub open spec fn session_state_of(m: ManagerView) -> SessionState {
    match m.phase {
        Phase::Listening | Phase::Handshaking => SessionState::Listening,
        Phase::Responding => if m.handshake.state == HandshakeState::PlainHttpServed {
            SessionState::PlainServed
        } else {
            SessionState::Rejected
        },
        Phase::Upgrading | Phase::Idle | Phase::Polling | Phase::Sending => SessionState::Streaming,
        Phase::Detaching | Phase::Reporting => SessionState::Closed,
    }
}

/// Whether a phase belongs to a session that streams to a viewer.
pub open spec fn streams(p: Phase) -> bool {
    p == Phase::Upgrading || p == Phase::Idle || p == Phase::Polling || p == Phase::Sending
}

/// Whether an event tells a manager that polls the viewer that the viewer
/// has left.
pub open spec fn viewer_left(m: ManagerView, e: EventView) -> bool {
    m.phase == Phase::Polling && match e {
        EventView::Inbound(chunk) => ends_session(chunk),
        _ => false,
    }
}

/// One session at a time: the manager asks for a connection exactly when it
/// goes back to listening, and while it does anything else a connection that
/// is reported to it changes nothing and asks for nothing. A session that
/// streams stays as it is until the channel closes, the viewer leaves or a
/// write fails.
pub proof fn lemma_one_session_at_a_time(m: ManagerView, e: EventView)
    ensures
        next(m, e).1 is Accept <==> m.phase != Phase::Listening && next(m, e).0.phase
            == Phase::Listening,
        m.phase != Phase::Listening ==> next(m, EventView::Accepted) == (m, ActionView::Nothing),
        streams(m.phase) && !streams(next(m, e).0.phase) ==> {
            ||| m.phase == Phase::Idle && e is ChannelClosed
            ||| viewer_left(m, e)
            ||| m.phase != Phase::Idle && m.phase != Phase::Polling && e is Failed
        },
{
}

/// The viewer counts as attached from the upgrade until it is seen to leave:
/// only the upgrade sets the mark, and only a chunk that ends the session,
/// read while a wire event is at hand, clears it.
pub proof fn lemma_attachment(m: ManagerView, e: EventView)
    ensures
        next(m, e).0.attached == (if next(m, e).1 is Upgrade {
            true
        } else if next(m, e).1 is Detach {
            false
        } else {
            m.attached
        }),
        next(m, e).1 is Upgrade <==> next(m, e).0.phase == Phase::Upgrading && m.phase
            == Phase::Handshaking,
        next(m, e).1 is Detach <==> viewer_left(m, e),
        next(m, e).1 is Detach ==> next(next(m, e).0, EventView::Completed).1 is Accept,
{
}

/// A wire event taken from the channel is the next thing written: once the
/// viewer is quiet, the manager asks for its frame, and only after that
/// frame is written for the next wire event.
pub proof fn lemma_payload_is_sent_next(m: ManagerView, payload: Seq<char>)
    requires
        m.phase == Phase::Idle,
    ensures
        next(m, EventView::Payload(payload)).1 is Poll,
        next(next(m, EventView::Payload(payload)).0, EventView::Quiet).1 == ActionView::Send(
            text_frame(encode_utf8(payload)),
        ),
        next(
            next(next(m, EventView::Payload(payload)).0, EventView::Quiet).0,
            EventView::Completed,
        ) == ((ManagerView { pending: Seq::empty(), ..m }), ActionView::AwaitPayload),
{
}

/// The manager of the one connection that is served at a time.
pub struct ConnectionManager {
    phase: Phase,
    attached: bool,
    handshake: Handshake,
    pending: String,
    page: Vec<u8>,
}

impl View for ConnectionManager {
    type V = ManagerView;

    closed spec fn view(&self) -> ManagerView {
        ManagerView {
            phase: self.phase,
            attached: self.attached,
            handshake: self.handshake@,
            pending: self.pending@,
            page: self.page@,
        }
    }
}

impl ConnectionManager {
    /// A manager that serves `page` to plain requests. It awaits a
    /// connection, so the first thing to do is to accept one.
    pub fn new(page: Vec<u8>) -> (m: Self)
        ensures
            m@ == (ManagerView {
                phase: Phase::Listening,
                attached: false,
                handshake: fresh_handshake(),
                pending: Seq::empty(),
                page: page@,
            }),
    {
        ConnectionManager {
            phase: Phase::Listening,
            attached: false,
            handshake: Handshake::new(),
            pending: String::new(),
            page,
        }
    }

    /// What the manager waits for.
    pub fn phase(&self) -> (p: Phase)
        ensures
            p == self@.phase,
    {
        self.phase
    }

    /// Whether a viewer is attached, as last published.
    pub fn is_attached(&self) -> (b: bool)
        ensures
            b == self@.attached,
    {
        self.attached
    }

    /// The state of the session.
    pub fn session_state(&self) -> (s: SessionState)
        ensures
            s == session_state_of(self@),
    {
        match self.phase {
            Phase::Listening | Phase::Handshaking => SessionState::Listening,
            Phase::Responding => match self.handshake.state() {
                HandshakeState::PlainHttpServed => SessionState::PlainServed,
                _ => SessionState::Rejected,
            },
            Phase::Upgrading | Phase::Idle | Phase::Polling | Phase::Sending => {
                SessionState::Streaming
            },
            Phase::Detaching | Phase::Reporting => SessionState::Closed,
        }
    }

    /// Goes on after the handshake has taken a line.
    fn answer_request(&mut self) -> (action: Action)
        requires
            old(self)@.phase == Phase::Handshaking,
        ensures
            (final(self)@, action@) == after_request_line(old(self)@, old(self)@.handshake),
    {
        if !self.handshake.is_finished() {
            return Action::ReadLine;
        }
        let bytes = self.handshake.response(self.page.as_slice());
        match self.handshake.state() {
            HandshakeState::Upgraded => {
                self.phase = Phase::Upgrading;
                self.attached = true;
                Action::Upgrade(bytes)
            },
            _ => {
                self.phase = Phase::Responding;
                Action::Respond(bytes)
            },
        }
    }

    /// Gives the connection up after a failure.
    fn report(&mut self, detail: &str) -> (action: Action)
        ensures
            (final(self)@, action@) == after_failure(old(self)@, detail@),
    {
        self.phase = Phase::Reporting;
        Action::Report(internal_error_response(detail).as_str().as_bytes_vec())
    }

    /// Takes what happened and says what to do next.
    pub fn step(&mut self, event: Event) -> (action: Action)
        requires
            event matches Event::Line(line) ==> encode_utf8(line@).len() < MAX_LINE_LEN,
        ensures
            (final(self)@, action@) == next(old(self)@, event@),
    {
        match (self.phase, event) {
            (Phase::Listening, Event::Accepted) => {
                self.handshake = Handshake::new();
                self.phase = Phase::Handshaking;
                Action::ReadLine
            },
            (Phase::Handshaking, Event::Line(line)) => {
                self.handshake.feed_line(line.as_str());
                self.answer_request()
            },
            (Phase::Handshaking, Event::EndOfInput) => {
                self.handshake.end_of_input();
                self.answer_request()
            },
            (Phase::Responding, Event::Completed) => {
                self.phase = Phase::Listening;
                Action::Accept
            },
            (Phase::Responding, Event::Failed(detail)) => self.report(detail.as_str()),
            (Phase::Upgrading, Event::Completed) => {
                self.phase = Phase::Idle;
                Action::AwaitPayload
            },
            (Phase::Upgrading, Event::Failed(detail)) => self.report(detail.as_str()),
            (Phase::Idle, Event::Payload(payload)) => {
                self.pending = payload;
                self.phase = Phase::Polling;
                Action::Poll
            },
            (Phase::Idle, Event::ChannelClosed) => {
                self.phase = Phase::Listening;
                Action::Accept
            },
            (Phase::Polling, Event::Inbound(chunk)) => {
                if chunk_ends_session(chunk.as_slice()) {
                    self.phase = Phase::Detaching;
                    self.attached = false;
                    self.pending = String::new();
                    Action::Detach
                } else {
                    Action::Poll
                }
            },
            (Phase::Polling, Event::Quiet) => {
                let frame = encode_text_frame(self.pending.as_str());
                self.phase = Phase::Sending;
                self.pending = String::new();
                Action::Send(frame)
            },
            (Phase::Sending, Event::Completed) => {
                self.phase = Phase::Idle;
                Action::AwaitPayload
            },
            (Phase::Sending, Event::Failed(detail)) => self.report(detail.as_str()),
            (Phase::Detaching, Event::Completed) => {
                self.phase = Phase::Listening;
                Action::Accept
            },
            (Phase::Reporting, Event::Completed) => {
                self.phase = Phase::Listening;
                Action::Accept
            },
            (Phase::Reporting, Event::Failed(_)) => {
                self.phase = Phase::Listening;
                Action::Accept
            },
            _ => Action::Nothing,
        }
    }
}

} // verus!
