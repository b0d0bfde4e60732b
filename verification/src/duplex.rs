//! The duplex loop: the decisions of the inbound and the outbound
//! activity of a session, and the state that ends them together.
//!
//! The caller owns the transport. It hands over what it received or what
//! the operator typed, performs the action that comes back, and goes on
//! while the loop is running.

use crate::badges::{catalog_view, BadgeView, TwitchBadge};
use crate::clock::{is_time_of_day, ClockTime, ClockView};
use crate::connection::{HandshakePhase, Session};
use crate::reader::{events_view, frame_events, read_frame, ChatEvent, ChatEventView};
use crate::text::is_blank;
use crate::writer::{lemma_blank_input_sends_nothing, outbound_line, outbound_of};
use vstd::prelude::*;
use vstd::string::*;

verus! {

/// Why a session ended.
#[derive(Debug, Clone, Copy, PartialEq, Eq, Structural)]
pub enum EndReason {
    /// The transport signalled its close.
    TransportClosed,
    /// The transport handed over nothing more.
    StreamEnded,
    /// Receiving failed.
    ReceiveFailed,
    /// The operator's input came to its end.
    InputEnded,
    /// Sending failed.
    SendFailed,
}

/// What the transport handed to the inbound activity.
#[derive(Debug)]
pub enum Incoming {
    /// A text frame.
    Text(String),
    /// The frame that signals the close of the transport.
    Close,
    /// Any other frame.
    Other,
    /// An error of the transport.
    Failed,
    /// The end of the stream.
    Ended,
}

/// What the operator's input handed to the outbound activity.
#[derive(Debug)]
pub enum Typed {
    /// One line of input.
    Line(String),
    /// The end of the input.
    Ended,
}

/// What the caller is to do next.
#[derive(Debug)]
pub enum LoopAction {
    /// Show these events, in order.
    Deliver(Vec<ChatEvent>),
    /// Write this line to the transport, and report how it went.
    Send(String),
    /// Nothing to do.
    Continue,
    /// Stop both activities; the session has ended for this reason.
    Stop(EndReason),
}

/// An action as mathematical values.
pub enum ActionView {
    Deliver(Seq<ChatEventView>),
    Send(Seq<char>),
    Continue,
    Stop(EndReason),
}

impl View for LoopAction {
    type V = ActionView;

    open spec fn view(&self) -> ActionView {
        match self {
            LoopAction::Deliver(events) => ActionView::Deliver(events_view(events@)),
            LoopAction::Send(line) => ActionView::Send(line@),
            LoopAction::Continue => ActionView::Continue,
            LoopAction::Stop(reason) => ActionView::Stop(*reason),
        }
    }
}

/// The state of a duplex loop as mathematical values.
pub struct LoopView {
    pub channel: Seq<char>,
    pub ended: Option<EndReason>,
}

/// An activity runs as long as the session has not ended. The same holds
/// of both activities: there is one end for the two of them.
pub open spec fn active(state: LoopView) -> bool {
    state.ended is None
}

/// The state that ends the session, unless it has ended before: the
/// first reason stays.
pub open spec fn end_with(state: LoopView, reason: EndReason) -> LoopView {
    if state.ended is Some {
        state
    } else {
        LoopView { ended: Some(reason), ..state }
    }
}

/// The inbound decision for what was received at a given time. A text
/// frame is decoded and its events are delivered; a close frame, an
/// error and the end of the stream end the session; other frames are
/// passed over. After the end nothing is delivered.
pub open spec fn inbound_step(
    state: LoopView,
    incoming: Incoming,
    catalog: Seq<BadgeView>,
    received: ClockView,
) -> (LoopView, ActionView) {
    match state.ended {
        Some(reason) => (state, ActionView::Stop(reason)),
        None => match incoming {
            Incoming::Text(text) => (
                state,
                ActionView::Deliver(frame_events(text@, catalog, received)),
            ),
            Incoming::Close => (
                end_with(state, EndReason::TransportClosed),
                ActionView::Stop(EndReason::TransportClosed),
            ),
            Incoming::Other => (state, ActionView::Continue),
            Incoming::Failed => (
                end_with(state, EndReason::ReceiveFailed),
                ActionView::Stop(EndReason::ReceiveFailed),
            ),
            Incoming::Ended => (
                end_with(state, EndReason::StreamEnded),
                ActionView::Stop(EndReason::StreamEnded),
            ),
        },
    }
}

/// The outbound decision. A line that is not blank is sent as a chat
/// line to the session's channel; a blank line is passed over; the end
/// of the input ends the session. After the end nothing is sent.
pub open spec fn outbound_step(state: LoopView, typed: Typed) -> (LoopView, ActionView) {
    match state.ended {
        Some(reason) => (state, ActionView::Stop(reason)),
        None => match typed {
            Typed::Line(input) => match outbound_of(state.channel, input@) {
                Some(line) => (state, ActionView::Send(line)),
                None => (state, ActionView::Continue),
            },
            Typed::Ended => (
                end_with(state, EndReason::InputEnded),
                ActionView::Stop(EndReason::InputEnded),
            ),
        },
    }
}

/// The decision after a write: a failure ends the session.
pub open spec fn sent_step(state: LoopView, ok: bool) -> (LoopView, ActionView) {
    match state.ended {
        Some(reason) => (state, ActionView::Stop(reason)),
        None => if ok {
            (state, ActionView::Continue)
        } else {
            (end_with(state, EndReason::SendFailed), ActionView::Stop(EndReason::SendFailed))
        },
    }
}

/// Blank input is passed over: whatever the state, a line of nothing but
/// whitespace makes the outbound activity send nothing.
pub proof fn lemma_blank_input_is_passed_over(state: LoopView, input: String)
    requires
        is_blank(input@),
    ensures
        !(outbound_step(state, Typed::Line(input)).1 is Send),
{
    lemma_blank_input_sends_nothing(state.channel, input@);
}

/// A step stops the caller exactly when it leaves the session ended, and
/// then neither activity is active any more: whatever ends one activity
/// ends the other with it.
pub proof fn lemma_activities_end_together(
    state: LoopView,
    incoming: Incoming,
    typed: Typed,
    ok: bool,
    catalog: Seq<BadgeView>,
    received: ClockView,
)
    ensures
        inbound_step(state, incoming, catalog, received).1 is Stop <==> !active(
            inbound_step(state, incoming, catalog, received).0,
        ),
        outbound_step(state, typed).1 is Stop <==> !active(outbound_step(state, typed).0),
        sent_step(state, ok).1 is Stop <==> !active(sent_step(state, ok).0),
{
}

/// The close of the transport ends a running session: after it neither
/// the inbound nor the outbound activity delivers or sends anything.
pub proof fn lemma_close_ends_session(
    state: LoopView,
    incoming: Incoming,
    typed: Typed,
    ok: bool,
    catalog: Seq<BadgeView>,
    received: ClockView,
)
    requires
        active(state),
    ensures
        ({
            let closed = inbound_step(state, Incoming::Close, catalog, received).0;
            &&& closed.ended == Some(EndReason::TransportClosed)
            &&& inbound_step(closed, incoming, catalog, received) == (
                closed,
                ActionView::Stop(EndReason::TransportClosed),
            )
            &&& outbound_step(closed, typed) == (
                closed,
                ActionView::Stop(EndReason::TransportClosed),
            )
            &&& sent_step(closed, ok) == (closed, ActionView::Stop(EndReason::TransportClosed))
        }),
{
}

/// The end is final: an ended session stays as it is and answers every
/// event with the reason for which it ended.
pub proof fn lemma_end_is_final(
    state: LoopView,
    incoming: Incoming,
    typed: Typed,
    ok: bool,
    catalog: Seq<BadgeView>,
    received: ClockView,
)
    requires
        state.ended is Some,
    ensures
        inbound_step(state, incoming, catalog, received) == (
            state,
            ActionView::Stop(state.ended.unwrap()),
        ),
        outbound_step(state, typed) == (state, ActionView::Stop(state.ended.unwrap())),
        sent_step(state, ok) == (state, ActionView::Stop(state.ended.unwrap())),
{
}

/// The state of the duplex loop of one session.
#[derive(Debug)]
pub struct DuplexLoop {
    pub channel: String,
    pub ended: Option<EndReason>,
}

impl View for DuplexLoop {
    type V = LoopView;

    open spec fn view(&self) -> LoopView {
        LoopView { channel: self.channel@, ended: self.ended }
    }
}

impl DuplexLoop {
    /// The loop of a session whose handshake is complete. A session that
    /// has not joined its channel has no loop.
    pub fn start(session: &Session) -> (r: Option<Self>)
        ensures
            r is Some <==> session@.phase == HandshakePhase::ChannelJoined,
            r matches Some(state) ==> state@ == (LoopView {
                channel: session@.channel,
                ended: None,
            }),
    {
        if session.is_joined() {
            Some(DuplexLoop { channel: session.channel.clone(), ended: None })
        } else {
            None
        }
    }

    /// Tells whether the inbound activity is to go on.
    pub fn inbound_active(&self) -> (b: bool)
        ensures
            b == active(self@),
    {
        self.ended.is_none()
    }

    /// Tells whether the outbound activity is to go on.
    pub fn outbound_active(&self) -> (b: bool)
        ensures
            b == active(self@),
    {
        self.ended.is_none()
    }

    /// Ends the session for `reason`, unless it has ended before.
    fn end(&mut self, reason: EndReason) -> (action: LoopAction)
        requires
            old(self).ended is None,
        ensures
            final(self)@ == end_with(old(self)@, reason),
            action@ == ActionView::Stop(reason),
    {
        self.ended = Some(reason);
        LoopAction::Stop(reason)
    }

    /// Decides what to do with what the transport handed over at
    /// `received`.
    pub fn on_incoming_at(
        &mut self,
        incoming: Incoming,
        catalog: &Vec<TwitchBadge>,
        received: ClockTime,
    ) -> (action: LoopAction)
        ensures
            (final(self)@, action@) == inbound_step(
                old(self)@,
                incoming,
                catalog_view(catalog@),
                received@,
            ),
    {
        if let Some(reason) = self.ended {
            return LoopAction::Stop(reason);
        }
        match incoming {
            Incoming::Text(text) => LoopAction::Deliver(
                read_frame(text.as_str(), catalog, received),
            ),
            Incoming::Close => self.end(EndReason::TransportClosed),
            Incoming::Other => LoopAction::Continue,
            Incoming::Failed => self.end(EndReason::ReceiveFailed),
            Incoming::Ended => self.end(EndReason::StreamEnded),
        }
    }

    /// Decides what to do with what the transport handed over just now:
    /// the decision of `on_incoming_at` for the local time of day,
    /// whichever that is.
    pub fn on_incoming(&mut self, incoming: Incoming, catalog: &Vec<TwitchBadge>) -> (action:
        LoopAction)
        ensures
            exists|received: ClockView|
                is_time_of_day(received.hour, received.minute) && (final(self)@, action@)
                    == #[trigger] inbound_step(
                    old(self)@,
                    incoming,
                    catalog_view(catalog@),
                    received,
                ),
    {
        let received = ClockTime::now();
        self.on_incoming_at(incoming, catalog, received)
    }

    /// Decides what to do with what the operator typed.
    pub fn on_typed(&mut self, typed: Typed) -> (action: LoopAction)
        ensures
            (final(self)@, action@) == outbound_step(old(self)@, typed),
    {
        if let Some(reason) = self.ended {
            return LoopAction::Stop(reason);
        }
        match typed {
            Typed::Line(input) => match outbound_line(self.channel.as_str(), input.as_str()) {
                Some(line) => LoopAction::Send(line),
                None => LoopAction::Continue,
            },
            Typed::Ended => self.end(EndReason::InputEnded),
        }
    }

    /// Decides what to do after a write to the transport.
    pub fn on_sent(&mut self, ok: bool) -> (action: LoopAction)
        ensures
            (final(self)@, action@) == sent_step(old(self)@, ok),
    {
        if let Some(reason) = self.ended {
            return LoopAction::Stop(reason);
        }
        if ok {
            LoopAction::Continue
        } else {
            self.end(EndReason::SendFailed)
        }
    }
}

} // verus!
