use mdserve::session::{
    handle_websocket, ClientFrame, ClientMessage, ServerMessage, Session, SessionAction,
    SessionEvent,
};

#[test]
fn client_messages_change_nothing() {
    for frame in [
        ClientFrame::Text(Some(ClientMessage::Ping)),
        ClientFrame::Text(Some(ClientMessage::RequestRefresh)),
        ClientFrame::Text(None),
        ClientFrame::Other,
    ] {
        let step = handle_websocket(Session::Open, SessionEvent::Received(frame));
        assert_eq!(step, (Session::Open, SessionAction::Wait));
    }
}

#[test]
fn announcements_are_sent_in_order() {
    let mut session = Session::Open;
    let mut sent = Vec::new();
    for message in [ServerMessage::Reload, ServerMessage::Pong, ServerMessage::Reload] {
        let (next, action) = handle_websocket(session, SessionEvent::Announced(message));
        if let SessionAction::Send(message) = action {
            sent.push(message);
        }
        session = handle_websocket(next, SessionEvent::Sent).0;
    }
    assert_eq!(sent, vec![ServerMessage::Reload, ServerMessage::Pong, ServerMessage::Reload]);
    assert_eq!(session, Session::Open);
}

#[test]
fn message_that_cannot_be_written_is_skipped() {
    let step = handle_websocket(Session::Open, SessionEvent::NotEncoded);
    assert_eq!(step, (Session::Open, SessionAction::Wait));
}

#[test]
fn session_ends_when_either_side_is_gone() {
    for event in [
        SessionEvent::Received(ClientFrame::Close),
        SessionEvent::Received(ClientFrame::Ended),
        SessionEvent::AnnouncementsLost,
        SessionEvent::SendFailed,
    ] {
        let step = handle_websocket(Session::Open, event);
        assert_eq!(step, (Session::Closed, SessionAction::HangUp));
    }
}

#[test]
fn closed_session_sends_nothing() {
    let step = handle_websocket(Session::Closed, SessionEvent::Announced(ServerMessage::Reload));
    assert_eq!(step, (Session::Closed, SessionAction::HangUp));
}
