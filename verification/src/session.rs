//! The messages that go over a WebSocket, and the course of a session.
use vstd::prelude::*;

verus! {

/// What a client may say. The server takes note of it and does nothing.
#[derive(Debug, Clone, Copy, PartialEq, Eq, Structural)]
pub enum ClientMessage {
    Ping,
    RequestRefresh,
}

/// What the server may say.
#[derive(Debug, Clone, Copy, PartialEq, Eq, Structural)]
pub enum ServerMessage {
    Reload,
    Pong,
}

/// What came from the client.
#[derive(Debug)]
pub enum ClientFrame {
    /// A text, and the message that it holds if it holds one.
    Text(Option<ClientMessage>),
    /// The client closes the connection.
    Close,
    /// Anything else, a frame that could not be read among it.
    Other,
    /// The connection has ended.
    Ended,
}

/// What happens in a session.
#[derive(Debug)]
pub enum SessionEvent {
    /// Something came from the client.
    Received(ClientFrame),
    /// A change was announced.
    Announced(ServerMessage),
    /// No announcement can be received any more, or some have been lost.
    AnnouncementsLost,
    /// The announced message could not be written down, and was not sent.
    NotEncoded,
    /// The announced message was sent.
    Sent,
    /// The announced message could not be sent.
    SendFailed,
}

/// Where a session stands.
#[derive(Debug, Clone, Copy, PartialEq, Eq, Structural)]
pub enum Session {
    Open,
    Closed,
}

/// What is to be done next in a session.
#[derive(Debug, Clone, Copy, PartialEq, Eq, Structural)]
pub enum SessionAction {
    /// Wait for the next event.
    Wait,
    /// Send a message to the client, and say what came of it.
    Send(ServerMessage),
    /// Let go of the connection.
    HangUp,
}

/// Whether an event ends the session.
pub open spec fn ends_session(event: SessionEvent) -> bool {
    match event {
        SessionEvent::Received(ClientFrame::Close) => true,
        SessionEvent::Received(ClientFrame::Ended) => true,
        SessionEvent::AnnouncementsLost => true,
        SessionEvent::SendFailed => true,
        _ => false,
    }
}

/// Where a session stands after an event, and what is to be done.
pub open spec fn session_step(session: Session, event: SessionEvent) -> (Session, SessionAction) {
    if session == Session::Closed || ends_session(event) {
        (Session::Closed, SessionAction::HangUp)
    } else {
        match event {
            SessionEvent::Announced(message) => (Session::Open, SessionAction::Send(message)),
            _ => (Session::Open, SessionAction::Wait),
        }
    }
}

/// Where a session stands after some events, and the messages that it was told to send.
pub open spec fn session_run(events: Seq<SessionEvent>) -> (Session, Seq<ServerMessage>)
    decreases events.len(),
{
    if events.len() == 0 {
        (Session::Open, Seq::empty())
    } else {
        let (session, sent) = session_run(events.drop_last());
        let (next, action) = session_step(session, events.last());
        match action {
            SessionAction::Send(message) => (next, sent.push(message)),
            _ => (next, sent),
        }
    }
}

/// The messages announced in a course of events, in order.
pub open spec fn announced(events: Seq<SessionEvent>) -> Seq<ServerMessage>
    decreases events.len(),
{
    if events.len() == 0 {
        Seq::empty()
    } else {
        match events.last() {
            SessionEvent::Announced(message) => announced(events.drop_last()).push(message),
            _ => announced(events.drop_last()),
        }
    }
}

/// Takes a session on by one event. Changes are passed on to the client until one side is gone; what
/// the client says changes nothing.
pub fn handle_websocket(session: Session, event: SessionEvent) -> (r: (Session, SessionAction))
    ensures
        r == session_step(session, event),
{
    if session == Session::Closed {
        return (Session::Closed, SessionAction::HangUp);
    }
    match event {
        SessionEvent::Received(frame) => match frame {
            ClientFrame::Text(Some(message)) => match message {
                ClientMessage::Ping | ClientMessage::RequestRefresh => (
                    Session::Open,
                    SessionAction::Wait,
                ),
            },
            ClientFrame::Text(None) => (Session::Open, SessionAction::Wait),
            ClientFrame::Close => (Session::Closed, SessionAction::HangUp),
            ClientFrame::Other => (Session::Open, SessionAction::Wait),
            ClientFrame::Ended => (Session::Closed, SessionAction::HangUp),
        },
        SessionEvent::Announced(message) => (Session::Open, SessionAction::Send(message)),
        SessionEvent::AnnouncementsLost => (Session::Closed, SessionAction::HangUp),
        SessionEvent::NotEncoded => (Session::Open, SessionAction::Wait),
        SessionEvent::Sent => (Session::Open, SessionAction::Wait),
        SessionEvent::SendFailed => (Session::Closed, SessionAction::HangUp),
    }
}

/// As long as nothing ends the session, every announced change is sent, once and in order.
pub proof fn law_open_session_sends_every_announcement(events: Seq<SessionEvent>)
    requires
        forall|i: int| 0 <= i < events.len() ==> !ends_session(#[trigger] events[i]),
    ensures
        session_run(events) == (Session::Open, announced(events)),
    decreases events.len(),
{
    if events.len() > 0 {
        let before = events.drop_last();
        assert forall|i: int| 0 <= i < before.len() implies !ends_session(
            #[trigger] before[i],
        ) by {
            assert(before[i] == events[i]);
        }
        law_open_session_sends_every_announcement(before);
        assert(!ends_session(events[events.len() - 1]));
    }
}

/// Once something has ended the session, nothing more is sent.
pub proof fn law_closed_session_sends_nothing(
    before: Seq<SessionEvent>,
    end: SessionEvent,
    after: Seq<SessionEvent>,
)
    requires
        ends_session(end),
    ensures
        session_run(before.push(end) + after) == (Session::Closed, session_run(before).1),
    decreases after.len(),
{
    let all = before.push(end) + after;
    if after.len() == 0 {
        assert(all =~= before.push(end));
        assert(all.drop_last() =~= before);
    } else {
        law_closed_session_sends_nothing(before, end, after.drop_last());
        assert(all.drop_last() =~= before.push(end) + after.drop_last());
    }
}

/// A session ends when the client closes the connection or is gone, when announcements can no longer be
/// received and when one cannot be sent, and by nothing else: what a client says, and what cannot be
/// read or written down, does not end it.
pub proof fn law_what_ends_a_session(message: Option<ClientMessage>, announced: ServerMessage)
    ensures
        session_step(Session::Open, SessionEvent::Received(ClientFrame::Close)) == (
            Session::Closed,
            SessionAction::HangUp,
        ),
        session_step(Session::Open, SessionEvent::Received(ClientFrame::Ended)) == (
            Session::Closed,
            SessionAction::HangUp,
        ),
        session_step(Session::Open, SessionEvent::AnnouncementsLost) == (
            Session::Closed,
            SessionAction::HangUp,
        ),
        session_step(Session::Open, SessionEvent::SendFailed) == (
            Session::Closed,
            SessionAction::HangUp,
        ),
        session_step(Session::Open, SessionEvent::Received(ClientFrame::Text(message))) == (
            Session::Open,
            SessionAction::Wait,
        ),
        session_step(Session::Open, SessionEvent::Received(ClientFrame::Other)) == (
            Session::Open,
            SessionAction::Wait,
        ),
        session_step(Session::Open, SessionEvent::NotEncoded) == (
            Session::Open,
            SessionAction::Wait,
        ),
        session_step(Session::Open, SessionEvent::Sent) == (Session::Open, SessionAction::Wait),
        session_step(Session::Open, SessionEvent::Announced(announced)) == (
            Session::Open,
            SessionAction::Send(announced),
        ),
{
}

/// Once a session is closed it stays closed, and nothing is sent in it.
pub proof fn law_closed_session_stays_closed(event: SessionEvent)
    ensures
        session_step(Session::Closed, event) == (Session::Closed, SessionAction::HangUp),
{
}

/// A message is sent only when it was announced just then, and it is the one that was announced.
pub proof fn law_only_announcements_are_sent(
    session: Session,
    event: SessionEvent,
    message: ServerMessage,
)
    requires
        session_step(session, event).1 == SessionAction::Send(message),
    ensures
        session == Session::Open,
        event == SessionEvent::Announced(message),
{
}

} // verus!
