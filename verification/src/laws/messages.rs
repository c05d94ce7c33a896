//! Laws on the messages of the protocol and the frames that carry them.

use serde_json::Error as JsonError;
use vstd::prelude::*;

use crate::client::RequestBody;
use crate::json;
use crate::laws::client::{lemma_middle, lemma_same_errors, same_errors};
use crate::text::parse_hex;
use crate::ws::raw::{
    receive_step, received, ClientMessage, Frame, MessageError, ReceiveStep, ServerMessage,
    SocketError,
};

verus! {

/// The copy of a message to the server is the message.
pub proof fn client_message_is_copied_whole(message: ClientMessage, copy: ClientMessage)
    requires
        call_ensures(<ClientMessage as Clone>::clone, (&message,), copy),
    ensures
        copy == message,
{
}

/// A message is sent as a text frame, and the text is its JSON.
pub proof fn message_is_sent_as_its_json(message: ClientMessage, frame: Frame, text: String)
    requires
        call_ensures(ClientMessage::to_frame, (&message,), frame),
        call_ensures(ClientMessage::to_json, (&message,), text),
    ensures
        frame matches Frame::Text(sent) && sent@ == text@,
{
}

/// Opening the protocol says so, with a payload where there is one.
pub proof fn opening_says_so(payload: Option<serde_json::Value>, text: String)
    requires
        call_ensures(ClientMessage::to_json, (&ClientMessage::ConnectionInit { payload },), text),
    ensures
        match payload {
            Some(payload) => text@ == "{\"type\":\"connection_init\",\"payload\":"@
                + json::value_text(payload) + "}"@,
            None => text@ == "{\"type\":\"connection_init\"}"@,
        },
{
}

/// Starting a subscription says so, and names the subscription and what it is to.
pub proof fn starting_says_so(id: String, payload: RequestBody, text: String, body: String)
    requires
        call_ensures(ClientMessage::to_json, (&ClientMessage::Start { id, payload },), text),
        call_ensures(RequestBody::to_json, (&payload,), body),
    ensures
        text@ == "{\"type\":\"start\",\"id\":"@ + json::string_literal(id@) + ",\"payload\":"@ + body@
            + "}"@,
{
}

/// Stopping a subscription says so, and names the subscription.
pub proof fn stopping_says_so(id: String, text: String)
    requires
        call_ensures(ClientMessage::to_json, (&ClientMessage::Stop { id },), text),
    ensures
        text@ == "{\"type\":\"stop\",\"id\":"@ + json::string_literal(id@) + "}"@,
{
}

/// Closing the protocol says so.
pub proof fn closing_says_so(text: String)
    requires
        call_ensures(ClientMessage::to_json, (&ClientMessage::ConnectionTerminate,), text),
    ensures
        text@ == "{\"type\":\"connection_terminate\"}"@,
{
}

/// Whether two messages are of one kind.
pub open spec fn of_one_kind(a: ClientMessage, b: ClientMessage) -> bool {
    ||| a is ConnectionInit && b is ConnectionInit
    ||| a is Start && b is Start
    ||| a is Stop && b is Stop
    ||| a is ConnectionTerminate && b is ConnectionTerminate
}

/// Messages of different kinds are sent differently.
pub proof fn kinds_are_told_apart(
    a: ClientMessage,
    b: ClientMessage,
    a_text: String,
    b_text: String,
)
    requires
        call_ensures(ClientMessage::to_json, (&a,), a_text),
        call_ensures(ClientMessage::to_json, (&b,), b_text),
        a_text@ == b_text@,
    ensures
        of_one_kind(a, b),
{
    lemma_kind_is_written(a, a_text);
    lemma_kind_is_written(b, b_text);
}

/// The kind of a message shows in three characters of its text.
proof fn lemma_kind_is_written(message: ClientMessage, text: String)
    requires
        call_ensures(ClientMessage::to_json, (&message,), text),
    ensures
        text@.len() > 11,
        message is ConnectionInit ==> text@.len() > 20 && text@[9] == 'c' && text@[20] == 'i',
        message is ConnectionTerminate ==> text@.len() > 20 && text@[9] == 'c' && text@[20] == 't',
        message is Start ==> text@[9] == 's' && text@[11] == 'a',
        message is Stop ==> text@[9] == 's' && text@[11] == 'o',
{
    reveal_strlit("{\"type\":\"connection_init\"}");
    reveal_strlit("{\"type\":\"connection_init\",\"payload\":");
    reveal_strlit("{\"type\":\"start\",\"id\":");
    reveal_strlit("{\"type\":\"stop\",\"id\":");
    reveal_strlit("{\"type\":\"connection_terminate\"}");
    match message {
        ClientMessage::ConnectionInit { payload: None } => {},
        ClientMessage::ConnectionInit { payload: Some(_) } => {
            let head = "{\"type\":\"connection_init\",\"payload\":"@;
            assert(text@[9] == head[9] && text@[20] == head[20]);
        },
        ClientMessage::Start { .. } => {
            let head = "{\"type\":\"start\",\"id\":"@;
            assert(text@[9] == head[9] && text@[11] == head[11]);
        },
        ClientMessage::Stop { .. } => {
            let head = "{\"type\":\"stop\",\"id\":"@;
            assert(text@[9] == head[9] && text@[11] == head[11]);
        },
        ClientMessage::ConnectionTerminate => {},
    }
}

/// Subscriptions are started alike only under one name: where the payloads are
/// sent alike, so are the names.
pub proof fn started_name_is_not_lost(
    a: String,
    b: String,
    payload: RequestBody,
    a_text: String,
    b_text: String,
)
    requires
        call_ensures(ClientMessage::to_json, (&ClientMessage::Start { id: a, payload },), a_text),
        call_ensures(ClientMessage::to_json, (&ClientMessage::Start { id: b, payload },), b_text),
        a_text@ == b_text@,
    ensures
        a@ == b@,
{
    lemma_middle(
        "{\"type\":\"start\",\"id\":"@,
        json::string_literal(a@),
        json::string_literal(b@),
        ",\"payload\":"@ + payload.text() + "}"@,
        a_text@,
    );
    json::string_literal_is_injective(a@, b@);
}

/// Under one name, subscriptions are started alike only where their payloads are
/// sent alike.
pub proof fn started_payload_is_not_lost(
    id: String,
    a: RequestBody,
    b: RequestBody,
    a_text: String,
    b_text: String,
    a_body: String,
    b_body: String,
)
    requires
        call_ensures(ClientMessage::to_json, (&ClientMessage::Start { id, payload: a },), a_text),
        call_ensures(ClientMessage::to_json, (&ClientMessage::Start { id, payload: b },), b_text),
        call_ensures(RequestBody::to_json, (&a,), a_body),
        call_ensures(RequestBody::to_json, (&b,), b_body),
        a_text@ == b_text@,
    ensures
        a_body@ == b_body@,
{
    starting_says_so(id, a, a_text, a_body);
    starting_says_so(id, b, b_text, b_body);
    lemma_middle(
        "{\"type\":\"start\",\"id\":"@ + json::string_literal(id@) + ",\"payload\":"@,
        a_body@,
        b_body@,
        "}"@,
        a_text@,
    );
}

/// Subscriptions are stopped alike only under one name.
pub proof fn stopped_name_is_not_lost(a: String, b: String, a_text: String, b_text: String)
    requires
        call_ensures(ClientMessage::to_json, (&ClientMessage::Stop { id: a },), a_text),
        call_ensures(ClientMessage::to_json, (&ClientMessage::Stop { id: b },), b_text),
        a_text@ == b_text@,
    ensures
        a@ == b@,
{
    lemma_middle(
        "{\"type\":\"stop\",\"id\":"@,
        json::string_literal(a@),
        json::string_literal(b@),
        "}"@,
        a_text@,
    );
    json::string_literal_is_injective(a@, b@);
}

/// The copy of a message from the server is the message; the errors of a result
/// are copied as [`crate::laws::client::error_is_copied_whole`] says.
pub proof fn server_message_is_copied_whole(message: ServerMessage, copy: ServerMessage)
    requires
        call_ensures(<ServerMessage as Clone>::clone, (&message,), copy),
    ensures
        match message {
            ServerMessage::Data { id, payload } => match copy {
                ServerMessage::Data { id: other, payload: copied } => other == id && copied.data
                    == payload.data && same_errors(copied.errors, payload.errors),
                _ => false,
            },
            _ => copy == message,
        },
{
    if message is Data {
        lemma_same_errors(copy->Data_payload, message->Data_payload);
    }
}

/// A message that names a subscription has the number that the name is read as.
pub proof fn number_is_read_from_the_name(
    message: ServerMessage,
    name: &str,
    number: Option<u64>,
    read: Option<u64>,
)
    requires
        call_ensures(ServerMessage::id, (&message,), number),
        call_ensures(parse_hex, (name,), read),
        match message {
            ServerMessage::Data { id, payload: _ } => id@ == name@,
            ServerMessage::Error { id, payload: _ } => id@ == name@,
            ServerMessage::Complete { id } => id@ == name@,
            _ => false,
        },
    ensures
        number == read,
{
}

/// A message that names no subscription has no number.
pub proof fn message_without_a_name_has_no_number(message: ServerMessage, number: Option<u64>)
    requires
        call_ensures(ServerMessage::id, (&message,), number),
        message is ConnectionError || message is ConnectionAck || message is ConnectionKeepAlive,
    ensures
        number is None,
{
}

/// What a text frame carries is what decoding its text gives, message or error.
pub proof fn text_frame_carries_what_it_decodes_to<
    F: FnOnce(String) -> Result<ServerMessage, JsonError>,
>(
    text: String,
    decode: F,
    decoded: Result<ServerMessage, JsonError>,
    message: Result<ServerMessage, MessageError>,
    item: Result<ServerMessage, MessageError>,
)
    requires
        call_ensures(ServerMessage::try_from::<F>, (Frame::Text(text), decode), message),
        call_ensures(received::<F>, (Ok(Frame::Text(text)), decode), item),
        forall|other: Result<ServerMessage, JsonError>|
            call_ensures(decode, (text,), other) ==> other == decoded,
    ensures
        decoded matches Ok(value) ==> message == Ok::<ServerMessage, MessageError>(value) && item
            == message,
        decoded matches Err(error) ==> message == Err::<ServerMessage, MessageError>(
            MessageError::Decoding(error),
        ) && item == message,
{
}

/// A frame without a text is handed back as it is.
pub proof fn other_frames_are_handed_back<F: FnOnce(String) -> Result<ServerMessage, JsonError>>(
    frame: Frame,
    decode: F,
    message: Result<ServerMessage, MessageError>,
    item: Result<ServerMessage, MessageError>,
)
    requires
        call_ensures(ServerMessage::try_from::<F>, (frame, decode), message),
        call_ensures(received::<F>, (Ok(frame), decode), item),
        !(frame is Text),
    ensures
        message == Err::<ServerMessage, MessageError>(MessageError::InvalidMessage(frame)),
        item == message,
{
}

/// A failure of the connection is handed on as it is.
pub proof fn failures_are_handed_on<F: FnOnce(String) -> Result<ServerMessage, JsonError>>(
    error: SocketError,
    decode: F,
    item: Result<ServerMessage, MessageError>,
)
    requires
        call_ensures(received::<F>, (Err(error), decode), item),
    ensures
        item == Err::<ServerMessage, MessageError>(MessageError::WebSocket(error)),
{
}

/// Every message is processed as it is, but for those that only keep the
/// connection alive.
pub proof fn messages_are_processed(message: ServerMessage, step: ReceiveStep)
    requires
        call_ensures(receive_step, (Some(Ok(message)),), step),
    ensures
        message is ConnectionKeepAlive ==> step is Continue,
        !(message is ConnectionKeepAlive) ==> step == ReceiveStep::Process(message),
{
}

/// The receiving side stops at the end, on a reset and on a normal close, and
/// nowhere else; it asks for a new connection on a reset alone.
pub proof fn receiving_stops_with_the_connection(
    next: Option<Result<ServerMessage, MessageError>>,
    step: ReceiveStep,
)
    requires
        call_ensures(receive_step, (next,), step),
    ensures
        step is Finish <==> match next {
            None => true,
            Some(Err(MessageError::WebSocket(SocketError::ResetWithoutClosingHandshake))) => true,
            Some(Err(MessageError::WebSocket(SocketError::ConnectionClosed))) => true,
            _ => false,
        },
        step == (ReceiveStep::Finish { should_reconnect: true }) <==> match next {
            Some(Err(MessageError::WebSocket(SocketError::ResetWithoutClosingHandshake))) => true,
            _ => false,
        },
{
}

/// An error that does not end the connection is reported as it is.
pub proof fn other_errors_are_reported(error: MessageError, step: ReceiveStep)
    requires
        call_ensures(receive_step, (Some(Err(error)),), step),
        match error {
            MessageError::WebSocket(SocketError::ResetWithoutClosingHandshake) => false,
            MessageError::WebSocket(SocketError::ConnectionClosed) => false,
            _ => true,
        },
    ensures
        step == ReceiveStep::Report(error),
{
}

} // verus!
