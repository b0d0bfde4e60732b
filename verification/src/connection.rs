//! The session and its handshake: the lines that authenticate the client
//! and join the channel, and the phases that sending them goes through.

use crate::text::texts;
use crate::wire::{
    capability_request, capability_request_line, join_line, join_line_of, nick_line,
    nick_line_of, pass_line, pass_line_of,
};
use vstd::prelude::*;
use vstd::string::*;

verus! {

/// The phases of a session, in the order in which it goes through them.
#[derive(Debug, Clone, Copy, PartialEq, Eq, Structural)]
pub enum HandshakePhase {
    /// No transport yet.
    Disconnected,
    /// The transport is open; nothing was sent.
    TransportOpen,
    /// The capability request was sent.
    CapabilitiesRequested,
    /// The credential and the nickname were sent.
    Authenticated,
    /// The join line was sent: the handshake is complete.
    ChannelJoined,
}

/// A session as mathematical values.
pub struct SessionView {
    pub url: Seq<char>,
    pub oauth_token: Seq<char>,
    pub nickname: Seq<char>,
    pub channel: Seq<char>,
    pub phase: HandshakePhase,
}

/// The phase that follows `phase`. The last phase is final.
pub open spec fn next_phase(phase: HandshakePhase) -> HandshakePhase {
    match phase {
        HandshakePhase::Disconnected => HandshakePhase::TransportOpen,
        HandshakePhase::TransportOpen => HandshakePhase::CapabilitiesRequested,
        HandshakePhase::CapabilitiesRequested => HandshakePhase::Authenticated,
        HandshakePhase::Authenticated => HandshakePhase::ChannelJoined,
        HandshakePhase::ChannelJoined => HandshakePhase::ChannelJoined,
    }
}

/// The number of steps from `phase` to the end of the handshake.
pub open spec fn steps_left(phase: HandshakePhase) -> nat {
    match phase {
        HandshakePhase::Disconnected => 4,
        HandshakePhase::TransportOpen => 3,
        HandshakePhase::CapabilitiesRequested => 2,
        HandshakePhase::Authenticated => 1,
        HandshakePhase::ChannelJoined => 0,
    }
}

/// The lines that are sent to leave `phase`, in order. Opening the
/// transport sends nothing, and nothing is sent once the channel is
/// joined.
pub open spec fn lines_of_step(s: SessionView, phase: HandshakePhase) -> Seq<Seq<char>> {
    match phase {
        HandshakePhase::Disconnected => Seq::empty(),
        HandshakePhase::TransportOpen => seq![capability_request_line()],
        HandshakePhase::CapabilitiesRequested => seq![
            pass_line_of(s.oauth_token),
            nick_line_of(s.nickname),
        ],
        HandshakePhase::Authenticated => seq![join_line_of(s.channel)],
        HandshakePhase::ChannelJoined => Seq::empty(),
    }
}

/// All the lines that are sent from `phase` to the end of the handshake,
/// in the order in which the steps send them.
pub open spec fn lines_from(s: SessionView, phase: HandshakePhase) -> Seq<Seq<char>>
    decreases steps_left(phase),
{
    if phase == HandshakePhase::ChannelJoined {
        Seq::empty()
    } else {
        lines_of_step(s, phase) + lines_from(s, next_phase(phase))
    }
}

/// The four handshake lines: capability request, credential, nickname,
/// join.
pub open spec fn handshake_lines_of(s: SessionView) -> Seq<Seq<char>> {
    seq![
        capability_request_line(),
        pass_line_of(s.oauth_token),
        nick_line_of(s.nickname),
        join_line_of(s.channel),
    ]
}

/// Whatever the session's parameters, a handshake that starts without a
/// transport sends the capability request, then the credential, then the
/// nickname, then the join line, and nothing else; and it ends with the
/// channel joined.
pub proof fn lemma_handshake_order(s: SessionView)
    ensures
        lines_from(s, HandshakePhase::Disconnected) == handshake_lines_of(s),
        lines_from(s, HandshakePhase::TransportOpen) == handshake_lines_of(s),
        next_phase(next_phase(next_phase(next_phase(HandshakePhase::Disconnected))))
            == HandshakePhase::ChannelJoined,
{
    reveal_with_fuel(lines_from, 5);
    assert(lines_from(s, HandshakePhase::Disconnected) =~= handshake_lines_of(s));
    assert(lines_from(s, HandshakePhase::TransportOpen) =~= handshake_lines_of(s));
}

/// Each step brings the handshake one step nearer to its end, and only
/// the last phase has no step left.
pub proof fn lemma_handshake_progress(phase: HandshakePhase)
    ensures
        phase != HandshakePhase::ChannelJoined ==> steps_left(next_phase(phase)) + 1
            == steps_left(phase),
        steps_left(phase) == 0 <==> phase == HandshakePhase::ChannelJoined,
{
}

/// The state of one connection: where to connect, as whom, to which
/// channel, and how far the handshake has come.
#[derive(Debug)]
pub struct Session {
    pub url: String,
    pub oauth_token: String,
    pub nickname: String,
    pub channel: String,
    pub phase: HandshakePhase,
}

impl View for Session {
    type V = SessionView;

    open spec fn view(&self) -> SessionView {
        SessionView {
            url: self.url@,
            oauth_token: self.oauth_token@,
            nickname: self.nickname@,
            channel: self.channel@,
            phase: self.phase,
        }
    }
}

impl Session {
    /// A session that has not connected yet.
    pub fn new(url: String, oauth_token: String, nickname: String, channel: String) -> (s: Self)
        ensures
            s@ == (SessionView {
                url: url@,
                oauth_token: oauth_token@,
                nickname: nickname@,
                channel: channel@,
                phase: HandshakePhase::Disconnected,
            }),
    {
        Session { url, oauth_token, nickname, channel, phase: HandshakePhase::Disconnected }
    }

    /// Tells whether the handshake is complete.
    pub fn is_joined(&self) -> (b: bool)
        ensures
            b == (self@.phase == HandshakePhase::ChannelJoined),
    {
        self.phase == HandshakePhase::ChannelJoined
    }

    /// The lines to send in order to leave the current phase.
    pub fn step_lines(&self) -> (lines: Vec<String>)
        ensures
            texts(lines@) == lines_of_step(self@, self@.phase),
    {
        let mut lines: Vec<String> = Vec::new();
        match self.phase {
            HandshakePhase::TransportOpen => {
                lines.push(capability_request());
            },
            HandshakePhase::CapabilitiesRequested => {
                lines.push(pass_line(self.oauth_token.as_str()));
                lines.push(nick_line(self.nickname.as_str()));
            },
            HandshakePhase::Authenticated => {
                lines.push(join_line(self.channel.as_str()));
            },
            _ => {},
        }
        proof {
            assert(texts(lines@) =~= lines_of_step(self@, self@.phase));
        }
        lines
    }

    /// Moves on to the next phase, once the transport is open or the
    /// lines of the current step are sent.
    pub fn advance(&mut self)
        ensures
            final(self)@ == (SessionView { phase: next_phase(old(self)@.phase), ..old(self)@ }),
    {
        self.phase =
        match self.phase {
            HandshakePhase::Disconnected => HandshakePhase::TransportOpen,
            HandshakePhase::TransportOpen => HandshakePhase::CapabilitiesRequested,
            HandshakePhase::CapabilitiesRequested => HandshakePhase::Authenticated,
            HandshakePhase::Authenticated => HandshakePhase::ChannelJoined,
            HandshakePhase::ChannelJoined => HandshakePhase::ChannelJoined,
        };
    }

    /// Takes the outcome of sending the lines of the current step: after
    /// a success the session moves on to the next phase, after a failure
    /// it stays where it is and the handshake is not to go on.
    pub fn on_step_sent(&mut self, ok: bool) -> (go_on: bool)
        ensures
            go_on == ok,
            ok ==> final(self)@ == (SessionView {
                phase: next_phase(old(self)@.phase),
                ..old(self)@
            }),
            !ok ==> final(self)@ == old(self)@,
    {
        if ok {
            self.advance();
        }
        ok
    }

    /// The four handshake lines, in the order in which they are sent.
    pub fn handshake_lines(&self) -> (lines: Vec<String>)
        ensures
            texts(lines@) == handshake_lines_of(self@),
    {
        let mut lines: Vec<String> = Vec::new();
        lines.push(capability_request());
        lines.push(pass_line(self.oauth_token.as_str()));
        lines.push(nick_line(self.nickname.as_str()));
        lines.push(join_line(self.channel.as_str()));
        proof {
            assert(texts(lines@) =~= handshake_lines_of(self@));
        }
        lines
    }
}

} // verus!
