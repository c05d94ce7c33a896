//! The messages of the `graphql-ws` protocol and the frames that carry them.

use serde_json::Error as JsonError;
use tungstenite::Error as WebSocketError;
use vstd::prelude::*;

use crate::client::{RequestBody, Response};
use crate::json;
use crate::text;

verus! {

/// What the client sends.
#[derive(Debug)]
pub enum ClientMessage {
    /// Opens the protocol on a new connection.
    ConnectionInit { payload: Option<serde_json::Value> },
    /// Starts the subscription `id`.
    Start { id: String, payload: RequestBody },
    /// Stops the subscription `id`.
    Stop { id: String },
    /// Closes the protocol.
    ConnectionTerminate,
}

impl Clone for ClientMessage {
    fn clone(&self) -> (copy: Self)
        ensures
            copy == *self,
    {
        match self {
            ClientMessage::ConnectionInit { payload: Some(payload) } => {
                ClientMessage::ConnectionInit { payload: Some(payload.clone()) }
            },
            ClientMessage::ConnectionInit { payload: None } => {
                ClientMessage::ConnectionInit { payload: None }
            },
            ClientMessage::Start { id, payload } => {
                ClientMessage::Start { id: id.clone(), payload: payload.clone() }
            },
            ClientMessage::Stop { id } => ClientMessage::Stop { id: id.clone() },
            ClientMessage::ConnectionTerminate => ClientMessage::ConnectionTerminate,
        }
    }
}

impl ClientMessage {
    /// The JSON object that is sent for the message, tagged by its type.
    pub open spec fn text(self) -> Seq<char> {
        match self {
            ClientMessage::ConnectionInit { payload: None } => "{\"type\":\"connection_init\"}"@,
            ClientMessage::ConnectionInit { payload: Some(payload) } => {
                "{\"type\":\"connection_init\",\"payload\":"@ + json::value_text(payload) + "}"@
            },
            ClientMessage::Start { id, payload } => {
                "{\"type\":\"start\",\"id\":"@ + json::string_literal(id@) + ",\"payload\":"@
                    + payload.text() + "}"@
            },
            ClientMessage::Stop { id } => {
                "{\"type\":\"stop\",\"id\":"@ + json::string_literal(id@) + "}"@
            },
            ClientMessage::ConnectionTerminate => "{\"type\":\"connection_terminate\"}"@,
        }
    }

    /// Writes the message as a JSON object.
    pub fn to_json(&self) -> (text: String)
        ensures
            text@ == self.text(),
    {
        match self {
            ClientMessage::ConnectionInit { payload: None } => {
                "{\"type\":\"connection_init\"}".to_owned()
            },
            ClientMessage::ConnectionInit { payload: Some(payload) } => {
                let mut text = "{\"type\":\"connection_init\",\"payload\":".to_owned();
                text.append(json::write_value(payload).as_str());
                text.append("}");
                text
            },
            ClientMessage::Start { id, payload } => {
                let mut text = "{\"type\":\"start\",\"id\":".to_owned();
                text.append(json::write_string(id.as_str()).as_str());
                text.append(",\"payload\":");
                text.append(payload.to_json().as_str());
                text.append("}");
                text
            },
            ClientMessage::Stop { id } => {
                let mut text = "{\"type\":\"stop\",\"id\":".to_owned();
                text.append(json::write_string(id.as_str()).as_str());
                text.append("}");
                text
            },
            ClientMessage::ConnectionTerminate => {
                "{\"type\":\"connection_terminate\"}".to_owned()
            },
        }
    }

    /// The frame that carries the message.
    pub fn to_frame(&self) -> (frame: Frame)
        ensures
            frame matches Frame::Text(text) && text@ == self.text(),
    {
        Frame::Text(self.to_json())
    }
}

/// What the server sends.
#[derive(Debug)]
pub enum ServerMessage {
    /// The connection as a whole has failed.
    ConnectionError { payload: serde_json::Value },
    /// The connection has been accepted.
    ConnectionAck,
    /// A result of the subscription `id`.
    Data { id: String, payload: Response<serde_json::Value> },
    /// The subscription `id` has failed.
    Error { id: String, payload: serde_json::Value },
    /// The subscription `id` has no further results.
    Complete { id: String },
    /// The connection is still alive.
    ConnectionKeepAlive,
}

impl Clone for ServerMessage {
    fn clone(&self) -> (copy: Self)
        ensures
            match *self {
                ServerMessage::Data { id, payload } => copy matches ServerMessage::Data {
                    id: other,
                    payload: copied,
                } && other == id && copied.data == payload.data && copied.error_views()
                    == payload.error_views(),
                _ => copy == *self,
            },
    {
        match self {
            ServerMessage::ConnectionError { payload } => {
                ServerMessage::ConnectionError { payload: payload.clone() }
            },
            ServerMessage::ConnectionAck => ServerMessage::ConnectionAck,
            ServerMessage::Data { id, payload } => {
                ServerMessage::Data { id: id.clone(), payload: payload.clone() }
            },
            ServerMessage::Error { id, payload } => {
                ServerMessage::Error { id: id.clone(), payload: payload.clone() }
            },
            ServerMessage::Complete { id } => ServerMessage::Complete { id: id.clone() },
            ServerMessage::ConnectionKeepAlive => ServerMessage::ConnectionKeepAlive,
        }
    }
}

impl ServerMessage {
    /// The subscription that the message names, as it spells it.
    pub open spec fn named_id(self) -> Option<Seq<char>> {
        match self {
            ServerMessage::Data { id, .. } => Some(id@),
            ServerMessage::Error { id, .. } => Some(id@),
            ServerMessage::Complete { id } => Some(id@),
            _ => None,
        }
    }

    /// The number of the subscription that the message is for, where it names
    /// one in hexadecimal.
    pub open spec fn number(self) -> Option<u64> {
        match self.named_id() {
            Some(id) => text::parsed_hex(id),
            None => None,
        }
    }

    /// Whether the message is the last one for the subscription that it names.
    pub open spec fn is_last(self) -> bool {
        self is Error || self is Complete
    }

    /// The number of the subscription that the message is for.
    pub fn id(&self) -> (number: Option<u64>)
        ensures
            number == self.number(),
    {
        let id = match self {
            ServerMessage::Data { id, .. } => id,
            ServerMessage::Error { id, .. } => id,
            ServerMessage::Complete { id } => id,
            _ => return None,
        };
        text::parse_hex(id.as_str())
    }

    /// Reads the message that a frame carries. Only a text frame carries one;
    /// `decode` reads the text.
    pub fn try_from<F: FnOnce(String) -> Result<ServerMessage, JsonError>>(
        frame: Frame,
        decode: F,
    ) -> (message: Result<ServerMessage, MessageError>)
        requires
            forall|text: String| decode.requires((text,)),
        ensures
            match frame {
                Frame::Text(text) => exists|decoded: Result<ServerMessage, JsonError>|
                    decode.ensures((text,), decoded) && message == match decoded {
                        Ok(value) => Ok(value),
                        Err(error) => Err(MessageError::Decoding(error)),
                    },
                _ => message == Err::<ServerMessage, MessageError>(
                    MessageError::InvalidMessage(frame),
                ),
            },
    {
        match frame {
            Frame::Text(text) => match decode(text) {
                Ok(value) => Ok(value),
                Err(error) => Err(MessageError::Decoding(error)),
            },
            other => Err(MessageError::InvalidMessage(other)),
        }
    }
}

/// A WebSocket frame.
#[derive(Debug)]
pub enum Frame {
    Text(String),
    Binary(Vec<u8>),
    Ping(Vec<u8>),
    Pong(Vec<u8>),
    /// A closing frame, with its code and reason where it has them.
    Close(Option<(u16, String)>),
}

/// How a WebSocket connection fails.
#[derive(Debug)]
pub enum SocketError {
    /// The peer went away without a closing handshake.
    ResetWithoutClosingHandshake,
    /// The connection has been closed in the normal way.
    ConnectionClosed,
    /// Any other failure.
    Other(WebSocketError),
}

/// Why there is no message to handle.
#[derive(Debug)]
pub enum MessageError {
    /// The text is not a message.
    Decoding(JsonError),
    /// The frame carries no text.
    InvalidMessage(Frame),
    /// The connection has failed.
    WebSocket(SocketError),
}

/// Whether `message` is what an item of a WebSocket connection can come to: the
/// failure of the connection, the refusal of a frame without a text, and for a
/// text whatever decoding it gives.
pub open spec fn can_come_to(
    item: Result<Frame, SocketError>,
    message: Result<ServerMessage, MessageError>,
) -> bool {
    match item {
        Ok(Frame::Text(_)) => message is Ok || message matches Err(MessageError::Decoding(_)),
        Ok(frame) => message == Err::<ServerMessage, MessageError>(
            MessageError::InvalidMessage(frame),
        ),
        Err(error) => message == Err::<ServerMessage, MessageError>(MessageError::WebSocket(error)),
    }
}

/// What the next item of a WebSocket connection comes to: the message in the
/// frame, or the failure of the connection.
pub fn received<F: FnOnce(String) -> Result<ServerMessage, JsonError>>(
    item: Result<Frame, SocketError>,
    decode: F,
) -> (message: Result<ServerMessage, MessageError>)
    requires
        forall|text: String| decode.requires((text,)),
    ensures
        can_come_to(item, message),
        match item {
            Ok(Frame::Text(text)) => exists|decoded: Result<ServerMessage, JsonError>|
                decode.ensures((text,), decoded) && message == match decoded {
                    Ok(value) => Ok(value),
                    Err(error) => Err(MessageError::Decoding(error)),
                },
            Ok(frame) => message == Err::<ServerMessage, MessageError>(
                MessageError::InvalidMessage(frame),
            ),
            Err(error) => message == Err::<ServerMessage, MessageError>(
                MessageError::WebSocket(error),
            ),
        },
{
    match item {
        Ok(frame) => ServerMessage::try_from(frame, decode),
        Err(error) => Err(MessageError::WebSocket(error)),
    }
}

/// What the receiving side of a connection does next.
#[derive(Debug)]
pub enum ReceiveStep {
    /// Wait for the next message.
    Continue,
    /// Hand the message to the subscriptions that it is for, then wait.
    Process(ServerMessage),
    /// Report the error, then wait.
    Report(MessageError),
    /// Stop, and say whether the connection is to be made again.
    Finish { should_reconnect: bool },
}

/// What the receiving side does with what it has received; `None` is the end of
/// the connection's items.
pub open spec fn step_on(next: Option<Result<ServerMessage, MessageError>>) -> ReceiveStep {
    match next {
        None => ReceiveStep::Finish { should_reconnect: false },
        Some(Ok(ServerMessage::ConnectionKeepAlive)) => ReceiveStep::Continue,
        Some(Ok(message)) => ReceiveStep::Process(message),
        Some(
            Err(MessageError::WebSocket(SocketError::ResetWithoutClosingHandshake)),
        ) => ReceiveStep::Finish { should_reconnect: true },
        Some(
            Err(MessageError::WebSocket(SocketError::ConnectionClosed)),
        ) => ReceiveStep::Finish { should_reconnect: false },
        Some(Err(error)) => ReceiveStep::Report(error),
    }
}

/// Decides what the receiving side does with what it has received; `None` is the
/// end of the connection's items.
pub fn receive_step(next: Option<Result<ServerMessage, MessageError>>) -> (step: ReceiveStep)
    ensures
        step == step_on(next),
{
    match next {
        None => ReceiveStep::Finish { should_reconnect: false },
        Some(Ok(ServerMessage::ConnectionKeepAlive)) => ReceiveStep::Continue,
        Some(Ok(message)) => ReceiveStep::Process(message),
        Some(Err(MessageError::WebSocket(SocketError::ResetWithoutClosingHandshake))) => {
            ReceiveStep::Finish { should_reconnect: true }
        },
        Some(Err(MessageError::WebSocket(SocketError::ConnectionClosed))) => {
            // Not an error, the connection has closed normally.
            ReceiveStep::Finish { should_reconnect: false }
        },
        Some(Err(error)) => ReceiveStep::Report(error),
    }
}

/// What the receiving side answers when it stops, after it has received
/// `messages` one after the other.
pub open spec fn answer(messages: Seq<Result<ServerMessage, MessageError>>) -> bool
    decreases messages.len(),
{
    let next = if messages.len() == 0 {
        None
    } else {
        Some(messages.first())
    };
    match step_on(next) {
        ReceiveStep::Finish { should_reconnect } => should_reconnect,
        _ => messages.len() > 0 && answer(messages.drop_first()),
    }
}

/// All that the receiving side hands on to the subscriptions until it stops,
/// where it receives `messages` one after the other.
pub open spec fn processed(messages: Seq<Result<ServerMessage, MessageError>>) -> Seq<ServerMessage>
    decreases messages.len(),
{
    if messages.len() == 0 {
        Seq::empty()
    } else {
        match step_on(Some(messages.first())) {
            ReceiveStep::Finish { .. } => Seq::empty(),
            ReceiveStep::Process(message) => seq![message] + processed(messages.drop_first()),
            _ => processed(messages.drop_first()),
        }
    }
}

/// Whether the peer has gone away without a closing handshake.
pub open spec fn is_reset(item: Result<Frame, SocketError>) -> bool {
    item matches Err(SocketError::ResetWithoutClosingHandshake)
}

/// Whether the connection has been closed in the normal way.
pub open spec fn is_close(item: Result<Frame, SocketError>) -> bool {
    item matches Err(SocketError::ConnectionClosed)
}

/// Whether the peer goes away with item `i`, and the connection has not been
/// closed before.
pub open spec fn is_lost_at(items: Seq<Result<Frame, SocketError>>, i: int) -> bool {
    0 <= i < items.len() && is_reset(items[i]) && forall|j: int|
        0 <= j < i ==> !is_close(#[trigger] items[j])
}

/// Whether the peer goes away without a closing handshake before the connection
/// is closed in the normal way.
pub open spec fn is_lost(items: Seq<Result<Frame, SocketError>>) -> bool {
    exists|i: int| is_lost_at(items, i)
}

/// The receiving side asks for a new connection exactly where the connection is
/// lost, whatever else comes over it.
pub proof fn lost_connection_is_made_again(
    items: Seq<Result<Frame, SocketError>>,
    messages: Seq<Result<ServerMessage, MessageError>>,
)
    requires
        items.len() == messages.len(),
        forall|i: int| 0 <= i < items.len() ==> can_come_to(#[trigger] items[i], messages[i]),
    ensures
        answer(messages) == is_lost(items),
    decreases items.len(),
{
    if items.len() > 0 {
        let rest = items.drop_first();
        let later = messages.drop_first();
        assert(can_come_to(items[0], messages[0]));
        assert forall|i: int| 0 <= i < rest.len() implies can_come_to(#[trigger] rest[i], later[i]) by {
            assert(can_come_to(items[i + 1], messages[i + 1]));
        }
        lost_connection_is_made_again(rest, later);
        if is_reset(items[0]) {
            assert(is_lost_at(items, 0));
        } else if is_lost(items) {
            let i = choose|i: int| is_lost_at(items, i);
            assert(!is_close(items[0]));
            assert forall|j: int| 0 <= j < i - 1 implies !is_close(#[trigger] rest[j]) by {
                assert(rest[j] == items[j + 1]);
            }
            assert(is_lost_at(rest, i - 1));
        } else if is_lost(rest) && !is_close(items[0]) {
            let i = choose|i: int| is_lost_at(rest, i);
            assert forall|j: int| 0 <= j < i + 1 implies !is_close(#[trigger] items[j]) by {
                if j > 0 {
                    assert(items[j] == rest[j - 1]);
                }
            }
            assert(is_lost_at(items, i + 1));
        }
    }
}

/// While nothing has ended the receiving, a message is handed on after those
/// before it, unless it only keeps the connection alive.
pub proof fn message_is_handed_on(
    before: Seq<Result<ServerMessage, MessageError>>,
    message: ServerMessage,
)
    requires
        forall|i: int| 0 <= i < before.len() ==> !(step_on(Some(#[trigger] before[i])) is Finish),
    ensures
        processed(before.push(Ok(message))) == if message is ConnectionKeepAlive {
            processed(before)
        } else {
            processed(before).push(message)
        },
    decreases before.len(),
{
    let all = before.push(Ok(message));
    if before.len() == 0 {
        assert(all.drop_first() == Seq::<Result<ServerMessage, MessageError>>::empty());
        assert(processed(all.drop_first()) == Seq::<ServerMessage>::empty());
        if !(message is ConnectionKeepAlive) {
            assert(processed(all) =~= processed(before).push(message));
        }
    } else {
        let rest = before.drop_first();
        assert(!(step_on(Some(before[0])) is Finish));
        assert forall|i: int| 0 <= i < rest.len() implies !(step_on(
            Some(#[trigger] rest[i]),
        ) is Finish) by {
            assert(rest[i] == before[i + 1]);
        }
        message_is_handed_on(rest, message);
        assert(all.drop_first() == rest.push(Ok(message)));
        assert(all.first() == before.first());
        if !(message is ConnectionKeepAlive) {
            assert(processed(all) =~= processed(before).push(message));
        }
    }
}

/// Nothing is handed on that comes after the end.
pub proof fn nothing_is_handed_on_after_the_end(
    upto: Seq<Result<ServerMessage, MessageError>>,
    after: Seq<Result<ServerMessage, MessageError>>,
)
    requires
        upto.len() > 0,
        step_on(Some(upto.last())) is Finish,
    ensures
        processed(upto + after) == processed(upto),
        answer(upto + after) == answer(upto),
    decreases upto.len(),
{
    let all = upto + after;
    assert(all.first() == upto.first());
    assert(all.drop_first() == upto.drop_first() + after);
    if upto.len() > 1 {
        nothing_is_handed_on_after_the_end(upto.drop_first(), after);
    }
}

} // verus!
