use gurkle::ws::raw::{
    receive_step, received, ClientMessage, Frame, MessageError, ReceiveStep, ServerMessage,
    SocketError,
};
use gurkle::{RequestBody, Response};

fn request() -> RequestBody {
    RequestBody {
        variables: serde_json::Value::Null,
        query: "subscription { count }",
        operation_name: "Counter",
    }
}

fn data(id: &str) -> ServerMessage {
    ServerMessage::Data {
        id: id.to_owned(),
        payload: Response { data: Some(serde_json::Value::from(1)), errors: None },
    }
}

fn acknowledge(text: String) -> Result<ServerMessage, serde_json::Error> {
    match serde_json::from_str::<serde_json::Value>(&text) {
        Ok(_) => Ok(ServerMessage::ConnectionAck),
        Err(error) => Err(error),
    }
}

#[test]
fn client_messages_are_tagged_json_objects() {
    assert_eq!(
        ClientMessage::ConnectionInit { payload: None }.to_json(),
        "{\"type\":\"connection_init\"}"
    );
    assert_eq!(
        ClientMessage::ConnectionInit { payload: Some(serde_json::Value::Bool(true)) }.to_json(),
        "{\"type\":\"connection_init\",\"payload\":true}"
    );
    assert_eq!(
        ClientMessage::Start { id: "1F".to_owned(), payload: request() }.to_json(),
        "{\"type\":\"start\",\"id\":\"1F\",\"payload\":{\"variables\":null,\"query\":\
         \"subscription { count }\",\"operationName\":\"Counter\"}}"
    );
    assert_eq!(
        ClientMessage::Stop { id: "a\"b".to_owned() }.to_json(),
        "{\"type\":\"stop\",\"id\":\"a\\\"b\"}"
    );
    assert_eq!(
        ClientMessage::ConnectionTerminate.to_json(),
        "{\"type\":\"connection_terminate\"}"
    );
}

#[test]
fn client_messages_are_sent_as_text_and_copied_whole() {
    for message in [
        ClientMessage::ConnectionInit { payload: None },
        ClientMessage::ConnectionInit { payload: Some(serde_json::Value::from(2)) },
        ClientMessage::Start { id: "1".to_owned(), payload: request() },
        ClientMessage::Stop { id: "2".to_owned() },
        ClientMessage::ConnectionTerminate,
    ] {
        assert_eq!(message.clone().to_json(), message.to_json());
        match message.to_frame() {
            Frame::Text(text) => assert_eq!(text, message.to_json()),
            other => panic!("{:?}", other),
        }
    }
}

#[test]
fn server_messages_are_numbered_in_hexadecimal() {
    assert_eq!(data("1F").id(), Some(31));
    assert_eq!(data("x").id(), None);
    let failure =
        ServerMessage::Error { id: "a".to_owned(), payload: serde_json::Value::Null };
    assert_eq!(failure.id(), Some(10));
    assert_eq!(ServerMessage::Complete { id: "10".to_owned() }.id(), Some(16));
    assert_eq!(ServerMessage::ConnectionAck.id(), None);
    assert_eq!(ServerMessage::ConnectionKeepAlive.id(), None);
    let failure = ServerMessage::ConnectionError { payload: serde_json::Value::Null };
    assert_eq!(failure.id(), None);
}

#[test]
fn only_text_frames_carry_messages() {
    assert!(matches!(
        ServerMessage::try_from(Frame::Text("1".to_owned()), acknowledge),
        Ok(ServerMessage::ConnectionAck)
    ));
    assert!(matches!(
        ServerMessage::try_from(Frame::Text("{".to_owned()), acknowledge),
        Err(MessageError::Decoding(e)) if e.is_eof()
    ));
    for frame in [
        Frame::Binary(vec![1]),
        Frame::Ping(vec![1]),
        Frame::Pong(vec![1]),
        Frame::Close(Some((1000, "bye".to_owned()))),
    ] {
        let shown = format!("{:?}", frame);
        match ServerMessage::try_from(frame, acknowledge) {
            Err(MessageError::InvalidMessage(same)) => assert_eq!(format!("{:?}", same), shown),
            other => panic!("{:?}", other),
        }
    }
}

#[test]
fn received_items_are_messages_or_errors() {
    assert!(matches!(
        received(Ok(Frame::Text("[]".to_owned())), acknowledge),
        Ok(ServerMessage::ConnectionAck)
    ));
    assert!(matches!(
        received(Ok(Frame::Text("[".to_owned())), acknowledge),
        Err(MessageError::Decoding(_))
    ));
    assert!(matches!(
        received(Ok(Frame::Close(None)), acknowledge),
        Err(MessageError::InvalidMessage(Frame::Close(None)))
    ));
    assert!(matches!(
        received(Err(SocketError::ConnectionClosed), acknowledge),
        Err(MessageError::WebSocket(SocketError::ConnectionClosed))
    ));
}

#[test]
fn keep_alive_is_skipped_and_other_messages_are_processed() {
    assert!(matches!(
        receive_step(Some(Ok(ServerMessage::ConnectionKeepAlive))),
        ReceiveStep::Continue
    ));
    match receive_step(Some(Ok(data("7")))) {
        ReceiveStep::Process(message) => assert_eq!(message.id(), Some(7)),
        other => panic!("{:?}", other),
    }
}

#[test]
fn only_a_reset_asks_for_a_new_connection() {
    assert!(matches!(receive_step(None), ReceiveStep::Finish { should_reconnect: false }));
    let reset = MessageError::WebSocket(SocketError::ResetWithoutClosingHandshake);
    assert!(matches!(
        receive_step(Some(Err(reset))),
        ReceiveStep::Finish { should_reconnect: true }
    ));
    let closed = MessageError::WebSocket(SocketError::ConnectionClosed);
    assert!(matches!(
        receive_step(Some(Err(closed))),
        ReceiveStep::Finish { should_reconnect: false }
    ));
}

#[test]
fn other_errors_are_reported() {
    let other = MessageError::WebSocket(SocketError::Other(tungstenite::Error::AlreadyClosed));
    assert!(matches!(
        receive_step(Some(Err(other))),
        ReceiveStep::Report(MessageError::WebSocket(SocketError::Other(
            tungstenite::Error::AlreadyClosed
        )))
    ));
    let invalid = MessageError::InvalidMessage(Frame::Ping(vec![]));
    assert!(matches!(
        receive_step(Some(Err(invalid))),
        ReceiveStep::Report(MessageError::InvalidMessage(Frame::Ping(_)))
    ));
}

#[test]
fn server_messages_are_copied_whole() {
    for message in [
        ServerMessage::ConnectionError { payload: serde_json::Value::from("gone") },
        ServerMessage::ConnectionAck,
        data("1F"),
        ServerMessage::Error { id: "2".to_owned(), payload: serde_json::Value::from("no") },
        ServerMessage::Complete { id: "3".to_owned() },
        ServerMessage::ConnectionKeepAlive,
    ] {
        assert_eq!(format!("{:?}", message.clone()), format!("{:?}", message));
    }
}

#[test]
fn names_are_escaped_like_json_strings() {
    let id: String = (0..0x100u32).map(|n| char::from_u32(n).unwrap()).collect();
    let text = ClientMessage::Stop { id: id.clone() }.to_json();
    let mut expected = "{\"type\":\"stop\",\"id\":\"".to_owned();
    for c in id.chars() {
        match c {
            '"' => expected.push_str("\\\""),
            '\\' => expected.push_str("\\\\"),
            '\u{8}' => expected.push_str("\\b"),
            '\t' => expected.push_str("\\t"),
            '\n' => expected.push_str("\\n"),
            '\u{c}' => expected.push_str("\\f"),
            '\r' => expected.push_str("\\r"),
            c if c < ' ' => expected.push_str(&format!("\\u{:04x}", c as u32)),
            c => expected.push(c),
        }
    }
    expected.push_str("\"}");
    assert_eq!(text, expected);
}

#[test]
fn different_names_are_sent_differently() {
    let names = ["a", "\\", "\\\\", "\"", "\\\"", "\n", "\\n", "\u{b}", "\\u000b", ""];
    for (i, a) in names.iter().enumerate() {
        for b in &names[i + 1..] {
            assert_ne!(
                ClientMessage::Stop { id: a.to_string() }.to_json(),
                ClientMessage::Stop { id: b.to_string() }.to_json()
            );
        }
    }
}

fn answer(items: Vec<Result<Frame, SocketError>>) -> (usize, bool) {
    let mut items = items.into_iter();
    let mut processed = 0;
    loop {
        match receive_step(items.next().map(|item| received(item, acknowledge))) {
            ReceiveStep::Continue | ReceiveStep::Report(_) => {}
            ReceiveStep::Process(_) => processed += 1,
            ReceiveStep::Finish { should_reconnect } => return (processed, should_reconnect),
        }
    }
}

#[test]
fn connection_is_made_again_where_a_reset_comes_before_a_close() {
    let text = || Ok(Frame::Text("[]".to_owned()));
    let broken = || Ok(Frame::Text("[".to_owned()));
    let ping = || Ok(Frame::Ping(vec![]));
    let reset = || Err(SocketError::ResetWithoutClosingHandshake);
    let closed = || Err(SocketError::ConnectionClosed);
    let other = || Err(SocketError::Other(tungstenite::Error::AlreadyClosed));

    assert_eq!(answer(vec![]), (0, false));
    assert_eq!(answer(vec![text(), broken(), ping(), other(), text()]), (2, false));
    assert_eq!(answer(vec![text(), other(), reset(), text(), closed()]), (1, true));
    assert_eq!(answer(vec![text(), closed(), text(), reset()]), (1, false));
}
