//! Laws on subscriptions, their messages and the connections that carry them.

use vstd::prelude::*;

use crate::client::{Error, RequestBody, Response};
use crate::text::{self, write_upper_hex};
use crate::ws::raw::{ClientMessage, ServerMessage};
use crate::ws::{
    has_finished, outputs, step, Attempted, Delivery, GraphQLConnection, GraphQLWebSocket,
    Reconnecter, Reconnection, Subscription, SubscriptionHandle, SubscriptionStep,
};

verus! {

/// A new socket has given out no number and has no subscription.
pub proof fn new_socket_has_no_subscriptions<C>(
    socket: GraphQLWebSocket<C>,
    count: u64,
    id: u64,
    handle: Option<&SubscriptionHandle<C>>,
    ids: Vec<u64>,
)
    requires
        call_ensures(GraphQLWebSocket::<C>::connect, (), socket),
        call_ensures(GraphQLWebSocket::<C>::id_count, (&socket,), count),
        call_ensures(GraphQLWebSocket::<C>::subscription, (&socket, id), handle),
        call_ensures(GraphQLWebSocket::<C>::ids, (&socket,), ids),
    ensures
        socket.wf(),
        count == 0,
        handle is None,
        ids@.len() == 0,
{
    if ids@.len() > 0 {
        assert(ids@.to_set().contains(ids@[0]));
    }
}

/// The numbers that a socket lists are those of its subscriptions, each once.
pub proof fn listed_numbers_are_those_of_subscriptions<C>(
    socket: GraphQLWebSocket<C>,
    id: u64,
    handle: Option<&SubscriptionHandle<C>>,
    ids: Vec<u64>,
)
    requires
        call_ensures(GraphQLWebSocket::<C>::subscription, (&socket, id), handle),
        call_ensures(GraphQLWebSocket::<C>::ids, (&socket,), ids),
    ensures
        handle is Some <==> exists|i: int| 0 <= i < ids@.len() && #[trigger] ids@[i] == id,
        forall|i: int, j: int| 0 <= i < j < ids@.len() ==> #[trigger] ids@[i] != #[trigger] ids@[j],
{
    assert(ids@.to_set().contains(id) <==> ids@.contains(id));
}

/// A subscription is added under the next number, which nothing had before, with
/// what it was given; nothing else changes. It is named by its number in
/// hexadecimal, and the message that starts it carries that name and its payload.
pub proof fn subscription_is_added_under_a_new_number<C>(
    socket: &mut GraphQLWebSocket<C>,
    payload: RequestBody,
    channel: C,
    liveness: u8,
    started: (Subscription, ClientMessage),
    count_before: u64,
    count: u64,
    number: u64,
    before: Option<&SubscriptionHandle<C>>,
    after: Option<&SubscriptionHandle<C>>,
    name: String,
)
    requires
        call_ensures(GraphQLWebSocket::<C>::id_count, (&*socket,), count_before),
        call_ensures(GraphQLWebSocket::<C>::subscription, (&*socket, number), before),
        call_ensures(
            GraphQLWebSocket::<C>::subscribe,
            (socket, payload, channel, liveness),
            started,
        ),
        call_ensures(GraphQLWebSocket::<C>::id_count, (&*final(socket),), count),
        call_ensures(GraphQLWebSocket::<C>::subscription, (&*final(socket), number), after),
        call_ensures(write_upper_hex, (count,), name),
    ensures
        final(socket).wf(),
        count == count_before + 1,
        number == count ==> before is None && (after matches Some(handle) && handle.channel
            == channel && handle.request == payload && handle.liveness == liveness),
        number != count ==> after == before,
        started.0.id@ == name@,
        started.1 == (ClientMessage::Start { id: started.0.id, payload }),
{
}

/// A message without a number goes to everybody; one with a number goes to the
/// subscription of that number where it is there, and else to nobody. It is the
/// last one exactly where it is an error or a completion.
pub proof fn message_goes_where_its_number_says<C>(
    socket: GraphQLWebSocket<C>,
    message: ServerMessage,
    to: Delivery,
    number: Option<u64>,
    handle: Option<&SubscriptionHandle<C>>,
)
    requires
        call_ensures(GraphQLWebSocket::<C>::process_server_message, (&socket, &message), to),
        call_ensures(ServerMessage::id, (&message,), number),
        number matches Some(n) ==> call_ensures(
            GraphQLWebSocket::<C>::subscription,
            (&socket, n),
            handle,
        ),
    ensures
        number is None ==> to == Delivery::Everybody,
        number is Some && handle is None ==> to == Delivery::Nobody,
        number matches Some(n) && handle is Some ==> to == (Delivery::One {
            id: number->0,
            last: message is Error || message is Complete,
        }),
{
}

/// A message of the server that names a subscription as it was started goes to
/// that subscription.
pub proof fn named_message_goes_to_its_subscription<C>(
    socket: GraphQLWebSocket<C>,
    id: u64,
    name: String,
    handle: Option<&SubscriptionHandle<C>>,
    payload: Response<serde_json::Value>,
    error: serde_json::Value,
    result_to: Delivery,
    error_to: Delivery,
    completion_to: Delivery,
)
    requires
        call_ensures(write_upper_hex, (id,), name),
        call_ensures(GraphQLWebSocket::<C>::subscription, (&socket, id), handle),
        handle is Some,
        call_ensures(
            GraphQLWebSocket::<C>::process_server_message,
            (&socket, &ServerMessage::Data { id: name, payload }),
            result_to,
        ),
        call_ensures(
            GraphQLWebSocket::<C>::process_server_message,
            (&socket, &ServerMessage::Error { id: name, payload: error }),
            error_to,
        ),
        call_ensures(
            GraphQLWebSocket::<C>::process_server_message,
            (&socket, &ServerMessage::Complete { id: name }),
            completion_to,
        ),
    ensures
        result_to == (Delivery::One { id, last: false }),
        error_to == (Delivery::One { id, last: true }),
        completion_to == (Delivery::One { id, last: true }),
{
    text::upper_hex_reads_back(id);
}

/// A subscription is forgotten on its last message, or where nobody takes its
/// messages, and stays otherwise; others stay as they are, and no number is given
/// out.
pub proof fn subscription_is_forgotten_after_its_last_message<C>(
    socket: &mut GraphQLWebSocket<C>,
    id: u64,
    last: bool,
    send_failed: bool,
    count_before: u64,
    count: u64,
    number: u64,
    before: Option<&SubscriptionHandle<C>>,
    after: Option<&SubscriptionHandle<C>>,
)
    requires
        call_ensures(GraphQLWebSocket::<C>::id_count, (&*socket,), count_before),
        call_ensures(GraphQLWebSocket::<C>::subscription, (&*socket, number), before),
        call_ensures(GraphQLWebSocket::<C>::delivered, (socket, id, last, send_failed), ()),
        call_ensures(GraphQLWebSocket::<C>::id_count, (&*final(socket),), count),
        call_ensures(GraphQLWebSocket::<C>::subscription, (&*final(socket), number), after),
    ensures
        final(socket).wf(),
        count == count_before,
        number == id && (last || send_failed) ==> after is None,
        number != id || !(last || send_failed) ==> after == before,
{
}

/// A connection is the one that it was made for.
pub proof fn connection_has_its_number(liveness: u8, connection: GraphQLConnection)
    requires
        call_ensures(GraphQLConnection::new, (liveness,), connection),
    ensures
        connection.liveness == liveness,
{
}

/// Opening a connection keeps every subscription, and leaves it started on that
/// connection.
pub proof fn opening_keeps_every_subscription<C>(
    connection: GraphQLConnection,
    socket: &mut GraphQLWebSocket<C>,
    messages: Vec<ClientMessage>,
    count_before: u64,
    count: u64,
    number: u64,
    before: Option<&SubscriptionHandle<C>>,
    after: Option<&SubscriptionHandle<C>>,
)
    requires
        call_ensures(GraphQLWebSocket::<C>::id_count, (&*socket,), count_before),
        call_ensures(GraphQLWebSocket::<C>::subscription, (&*socket, number), before),
        call_ensures(GraphQLConnection::open::<C>, (&connection, socket), messages),
        call_ensures(GraphQLWebSocket::<C>::id_count, (&*final(socket),), count),
        call_ensures(GraphQLWebSocket::<C>::subscription, (&*final(socket), number), after),
    ensures
        final(socket).wf(),
        count == count_before,
        match before {
            Some(handle) => after matches Some(kept) && kept.channel == handle.channel
                && kept.request == handle.request && kept.liveness == connection.liveness,
            None => after is None,
        },
{
}

/// A connection opens the protocol first, and all else that it begins with starts
/// a subscription.
pub proof fn opening_comes_first<C>(
    connection: GraphQLConnection,
    socket: &mut GraphQLWebSocket<C>,
    messages: Vec<ClientMessage>,
)
    requires
        call_ensures(GraphQLConnection::open::<C>, (&connection, socket), messages),
    ensures
        messages@.len() > 0,
        messages@[0] == (ClientMessage::ConnectionInit { payload: None }),
        forall|i: int| 1 <= i < messages@.len() ==> #[trigger] messages@[i] is Start,
{
    let before = old(socket).running();
    let order = choose|order: Seq<u64>| #[trigger]
        crate::ws::is_opening(messages@, order, before) && order.no_duplicates() && order.to_set()
            == crate::ws::stale(before, connection.liveness);
    assert forall|i: int| 1 <= i < messages@.len() implies #[trigger] messages@[i] is Start by {
        let id = order[i - 1];
        assert(messages@[i - 1 + 1] is Start);
    }
}

/// Whether a subscription was last started on another connection than `liveness`.
pub open spec fn is_older<C>(
    running: Map<u64, SubscriptionHandle<C>>,
    id: u64,
    liveness: u8,
) -> bool {
    running.contains_key(id) && running[id].liveness != liveness
}

/// Whether `messages`, the first one left aside, start the subscriptions `order`,
/// which are the older ones, each once, under their numbers in decimal and with
/// their requests.
pub open spec fn restarts<C>(
    messages: Seq<ClientMessage>,
    order: Seq<u64>,
    running: Map<u64, SubscriptionHandle<C>>,
    liveness: u8,
) -> bool {
    &&& order.no_duplicates()
    &&& messages.len() == order.len() + 1
    &&& forall|id: u64| #[trigger] is_older(running, id, liveness) <==> order.contains(id)
    &&& forall|i: int|
        0 <= i < order.len() ==> is_start(
            messages[i + 1],
            text::decimal(#[trigger] order[i]),
            running[order[i]].request,
        )
}

/// Whether a message starts `request` under `name`.
pub open spec fn is_start(message: ClientMessage, name: Seq<char>, request: RequestBody) -> bool {
    message is Start && message->Start_id@ == name && message->Start_payload == request
}

/// What a connection begins with starts again, once each, under its number in
/// decimal and with its request, every subscription that was last started on
/// another connection, and no other.
pub proof fn older_subscriptions_are_started_again<C>(
    connection: GraphQLConnection,
    socket: &mut GraphQLWebSocket<C>,
    messages: Vec<ClientMessage>,
)
    requires
        call_ensures(GraphQLConnection::open::<C>, (&connection, socket), messages),
    ensures
        exists|order: Seq<u64>|
            restarts(messages@, order, old(socket).running(), connection.liveness),
{
    let before = old(socket).running();
    let liveness = connection.liveness;
    let order = choose|order: Seq<u64>| #[trigger]
        crate::ws::is_opening(messages@, order, before) && order.no_duplicates() && order.to_set()
            == crate::ws::stale(before, liveness);
    assert forall|id: u64| #[trigger] is_older(before, id, liveness) <==> order.contains(id) by {
        assert(crate::ws::stale(before, liveness).contains(id) <==> is_older(before, id, liveness));
        assert(order.to_set().contains(id) <==> order.contains(id));
    }
    assert forall|i: int| 0 <= i < order.len() implies is_start(
        messages@[i + 1],
        text::decimal(#[trigger] order[i]),
        before[order[i]].request,
    ) by {
        assert(crate::ws::starts(
            messages@[i + 1],
            text::decimal(order[i]),
            before[order[i]].request,
        ));
    }
    assert(restarts(messages@, order, before, liveness));
}

/// A subscription that the socket has is the one that it runs.
pub proof fn subscription_is_the_running_one<C>(
    socket: GraphQLWebSocket<C>,
    id: u64,
    handle: Option<&SubscriptionHandle<C>>,
)
    requires
        call_ensures(GraphQLWebSocket::<C>::subscription, (&socket, id), handle),
    ensures
        handle is Some <==> socket.running().contains_key(id),
        handle matches Some(found) ==> *found == socket.running()[id],
{
}

/// A connection ends by closing the protocol.
pub proof fn connection_ends_by_closing(message: ClientMessage)
    requires
        call_ensures(GraphQLConnection::termination, (), message),
    ensures
        message is ConnectionTerminate,
{
}

/// A connection that is not to be made again is left; else the next one is tried,
/// whose number is one more, and zero after the greatest.
pub proof fn next_connection_has_the_next_number(
    liveness: u8,
    watch: Reconnecter,
    lost: Option<Reconnection>,
    closed: Option<Reconnection>,
)
    requires
        call_ensures(Reconnecter::new, (liveness,), watch),
        call_ensures(Reconnecter::finished, (watch, true), lost),
        call_ensures(Reconnecter::finished, (watch, false), closed),
    ensures
        watch.liveness == liveness,
        lost matches Some(attempt) && attempt.liveness as int == (liveness as int + 1) % 256,
        closed is None,
{
}

/// An attempt that fails is made again after three seconds, under the same
/// number; one that succeeds is watched under that number.
pub proof fn attempt_is_made_again_until_it_succeeds(
    attempt: Reconnection,
    failed: Attempted,
    succeeded: Attempted,
)
    requires
        call_ensures(Reconnection::attempted, (attempt, false), failed),
        call_ensures(Reconnection::attempted, (attempt, true), succeeded),
    ensures
        failed matches Attempted::Retry { attempt: again, after_seconds } && again.liveness
            == attempt.liveness && after_seconds == 3,
        succeeded matches Attempted::Watch(watch) && watch.liveness == attempt.liveness,
{
}

/// A subscription has the name that it was made with, and is stopped under it.
pub proof fn subscription_is_stopped_under_its_name(
    id: String,
    subscription: Subscription,
    message: ClientMessage,
)
    requires
        call_ensures(Subscription::new, (id,), subscription),
        call_ensures(Subscription::stop, (&subscription,), message),
    ensures
        subscription.id == id,
        message matches ClientMessage::Stop { id: name } && name@ == id@,
{
}

/// A result for the subscription is yielded: its data where it has some, else its
/// errors, else that it is empty. The subscription goes on.
pub proof fn result_is_yielded(
    subscription: Subscription,
    id: String,
    payload: Response<serde_json::Value>,
    done: SubscriptionStep,
)
    requires
        call_ensures(
            Subscription::handle,
            (&subscription, ServerMessage::Data { id, payload }),
            done,
        ),
        id@ == subscription.id@,
    ensures
        !done.finished,
        payload.data matches Some(data) ==> done.output == Some(
            Ok::<serde_json::Value, Error>(data),
        ),
        payload.data is None && payload.errors is Some ==> done.output == Some(
            Err::<serde_json::Value, Error>(Error::GraphQL(payload.errors->0)),
        ),
        payload.data is None && payload.errors is None ==> done.output == Some(
            Err::<serde_json::Value, Error>(Error::Empty),
        ),
{
}

/// An error for the subscription is yielded with its payload, whatever that is.
/// The subscription goes on.
pub proof fn error_is_yielded(
    subscription: Subscription,
    id: String,
    payload: serde_json::Value,
    done: SubscriptionStep,
)
    requires
        call_ensures(
            Subscription::handle,
            (&subscription, ServerMessage::Error { id, payload }),
            done,
        ),
        id@ == subscription.id@,
    ensures
        done.output == Some(Err::<serde_json::Value, Error>(Error::Server(payload))),
        !done.finished,
{
}

/// Its completion ends a subscription, and yields nothing.
pub proof fn completion_ends_the_subscription(
    subscription: Subscription,
    id: String,
    done: SubscriptionStep,
)
    requires
        call_ensures(Subscription::handle, (&subscription, ServerMessage::Complete { id }), done),
        id@ == subscription.id@,
    ensures
        done.output is None,
        done.finished,
{
}

/// A failure of the connection is yielded with its payload, and ends every
/// subscription.
pub proof fn connection_error_is_yielded(
    subscription: Subscription,
    payload: serde_json::Value,
    done: SubscriptionStep,
)
    requires
        call_ensures(
            Subscription::handle,
            (&subscription, ServerMessage::ConnectionError { payload }),
            done,
        ),
    ensures
        done.output == Some(Err::<serde_json::Value, Error>(Error::Server(payload))),
        done.finished,
{
}

/// What names another subscription, and what says only that the connection is
/// up, yields nothing and ends nothing.
pub proof fn other_messages_are_passed_over(
    subscription: Subscription,
    message: ServerMessage,
    done: SubscriptionStep,
)
    requires
        call_ensures(Subscription::handle, (&subscription, message), done),
        match message {
            ServerMessage::Data { id, payload: _ } => id@ != subscription.id@,
            ServerMessage::Error { id, payload: _ } => id@ != subscription.id@,
            ServerMessage::Complete { id } => id@ != subscription.id@,
            ServerMessage::ConnectionError { payload: _ } => false,
            ServerMessage::ConnectionAck => true,
            ServerMessage::ConnectionKeepAlive => true,
        },
    ensures
        done.output is None,
        !done.finished,
{
}

/// An error is yielded after all that a running subscription has yielded before
/// it, with its payload, whatever that is.
pub proof fn error_is_yielded_in_its_place(
    id: Seq<char>,
    before: Seq<ServerMessage>,
    error: ServerMessage,
)
    requires
        !has_finished(id, before),
        error is Error,
        error.named_id() == Some(id),
    ensures
        step(id, error) == (SubscriptionStep {
            output: Some(Err(Error::Server(error->Error_payload))),
            finished: false,
        }),
        outputs(id, before.push(error)) == outputs(id, before).push(
            Err(Error::Server(error->Error_payload)),
        ),
        !has_finished(id, before.push(error)),
{
    let all = before.push(error);
    assert(all.drop_last() == before);
    assert forall|i: int| 0 <= i < all.len() implies !(#[trigger] step(id, all[i])).finished by {
        if i < before.len() {
            assert(!step(id, before[i]).finished);
        }
    }
}

/// A result is yielded after all that a running subscription has yielded before
/// it.
pub proof fn result_is_yielded_in_its_place(
    id: Seq<char>,
    before: Seq<ServerMessage>,
    result: ServerMessage,
    data: serde_json::Value,
)
    requires
        !has_finished(id, before),
        result is Data,
        result.named_id() == Some(id),
        result->Data_payload.data == Some(data),
    ensures
        outputs(id, before.push(result)) == outputs(id, before).push(Ok(data)),
        !has_finished(id, before.push(result)),
{
    let all = before.push(result);
    assert(all.drop_last() == before);
    assert forall|i: int| 0 <= i < all.len() implies !(#[trigger] step(id, all[i])).finished by {
        if i < before.len() {
            assert(!step(id, before[i]).finished);
        }
    }
}

} // verus!
