//! Subscriptions over one WebSocket connection.

use std::collections::HashMap;

use vstd::prelude::*;

use crate::client::{Error, RequestBody};
use crate::text;
use crate::ws::raw::{ClientMessage, ServerMessage};

pub mod raw;

verus! {

broadcast use vstd::std_specs::hash::group_hash_axioms;

/// A running subscription, as the socket keeps it. `channel` is where its
/// messages go.
pub struct SubscriptionHandle<C> {
    pub channel: C,
    /// What the subscription was started with.
    pub request: RequestBody,
    /// The connection that the subscription was last started on.
    pub liveness: u8,
}

/// The subscriptions of a client, by number.
pub struct GraphQLWebSocket<C> {
    subscriptions: HashMap<u64, SubscriptionHandle<C>>,
    /// How many subscriptions there have been.
    id_count: u64,
}

/// To whom a message of the server goes.
#[derive(Debug, PartialEq, Eq, Structural, Clone, Copy)]
pub enum Delivery {
    /// To nobody: the subscription that it names is not there.
    Nobody,
    /// To one subscription; `last` where it is the last message for it.
    One { id: u64, last: bool },
    /// To every subscription.
    Everybody,
}

/// To whom `message` goes, where `running` are the subscriptions.
pub open spec fn delivery(message: ServerMessage, running: Set<u64>) -> Delivery {
    match message.number() {
        Some(id) => if running.contains(id) {
            Delivery::One { id, last: message.is_last() }
        } else {
            Delivery::Nobody
        },
        None => Delivery::Everybody,
    }
}

impl<C> GraphQLWebSocket<C> {
    /// The subscriptions that are there.
    pub closed spec fn running(self) -> Map<u64, SubscriptionHandle<C>> {
        self.subscriptions@
    }

    /// How many subscriptions there have been.
    pub closed spec fn count(self) -> u64 {
        self.id_count
    }

    /// Every subscription has one of the numbers that have been given out.
    pub open spec fn wf(self) -> bool {
        forall|id: u64| #[trigger] self.running().contains_key(id) ==> 1 <= id <= self.count()
    }

    /// A socket without subscriptions.
    pub fn connect() -> (socket: Self)
        ensures
            socket.wf(),
            socket.running() == Map::<u64, SubscriptionHandle<C>>::empty(),
            socket.count() == 0,
    {
        GraphQLWebSocket { subscriptions: HashMap::new(), id_count: 0 }
    }

    /// Adds a subscription under a number of its own, on the connection
    /// `liveness`. Gives back the subscription and the message that starts it.
    pub fn subscribe(&mut self, payload: RequestBody, channel: C, liveness: u8) -> (started: (
        Subscription,
        ClientMessage,
    ))
        requires
            old(self).wf(),
            old(self).count() < u64::MAX,
        ensures
            final(self).wf(),
            final(self).count() == old(self).count() + 1,
            !old(self).running().contains_key(final(self).count()),
            final(self).running() == old(self).running().insert(
                final(self).count(),
                SubscriptionHandle { channel, request: payload, liveness },
            ),
            started.0.id@ == text::upper_hex(final(self).count()),
            started.1 == (ClientMessage::Start { id: started.0.id, payload }),
    {
        self.id_count = self.id_count + 1;
        let id = text::write_upper_hex(self.id_count);
        let handle = SubscriptionHandle { channel, request: payload.clone(), liveness };
        self.subscriptions.insert(self.id_count, handle);
        let message = ClientMessage::Start { id: id.clone(), payload };
        assert forall|other: u64| #[trigger] self.running().contains_key(other) implies 1 <= other
            <= self.count() by {
            assert(other == self.count() || old(self).running().contains_key(other));
        }
        (Subscription::new(id), message)
    }

    /// Decides to whom a message goes.
    pub fn process_server_message(&self, message: &ServerMessage) -> (to: Delivery)
        ensures
            to == delivery(*message, self.running().dom()),
    {
        match message.id() {
            Some(id) => if self.subscriptions.contains_key(&id) {
                let last = match message {
                    ServerMessage::Error { .. } | ServerMessage::Complete { .. } => true,
                    _ => false,
                };
                Delivery::One { id, last }
            } else {
                Delivery::Nobody
            },
            None => Delivery::Everybody,
        }
    }

    /// Forgets the subscription `id` where it has had its last message, or where
    /// nobody takes its messages any longer.
    pub fn delivered(&mut self, id: u64, last: bool, send_failed: bool)
        requires
            old(self).wf(),
        ensures
            final(self).wf(),
            final(self).count() == old(self).count(),
            final(self).running() == if send_failed || last {
                old(self).running().remove(id)
            } else {
                old(self).running()
            },
    {
        if send_failed || last {
            self.subscriptions.remove(&id);
        }
        assert forall|other: u64| #[trigger] self.running().contains_key(other) implies 1 <= other
            <= self.count() by {
            assert(old(self).running().contains_key(other));
        }
    }

    /// The subscription `id`, where it is there.
    pub fn subscription(&self, id: u64) -> (handle: Option<&SubscriptionHandle<C>>)
        ensures
            match handle {
                Some(handle) => self.running().contains_key(id) && *handle == self.running()[id],
                None => !self.running().contains_key(id),
            },
    {
        self.subscriptions.get(&id)
    }

    /// How many subscriptions there have been.
    pub fn id_count(&self) -> (count: u64)
        ensures
            count == self.count(),
    {
        self.id_count
    }

    /// The numbers of the subscriptions, each once, in no particular order.
    pub fn ids(&self) -> (ids: Vec<u64>)
        ensures
            ids@.no_duplicates(),
            ids@.to_set() == self.running().dom(),
    {
        let mut ids: Vec<u64> = Vec::new();
        for id in keys: self.subscriptions.keys()
            invariant
                ids@.len() == keys.index(),
                forall|i: int|
                    #![trigger ids@[i]]
                    #![trigger keys.seq().unref()[i]]
                    0 <= i < ids@.len() ==> ids@[i] == keys.seq().unref()[i],
                keys.seq().unref().to_set() == self.subscriptions@.dom(),
                forall|id: u64| #[trigger]
                    self.subscriptions@.contains_key(id) ==> keys.seq().unref().contains(id),
                keys.seq().unref().no_duplicates(),
        {
            ids.push(*id);
        }
        ids
    }
}

/// The subscriptions that were last started on another connection than `liveness`.
pub open spec fn stale<C>(subscriptions: Map<u64, SubscriptionHandle<C>>, liveness: u8) -> Set<u64> {
    subscriptions.dom().filter(|id: u64| subscriptions[id].liveness != liveness)
}

/// The same subscriptions, all of them started on the connection `liveness`.
pub open spec fn refreshed<C>(
    subscriptions: Map<u64, SubscriptionHandle<C>>,
    liveness: u8,
) -> Map<u64, SubscriptionHandle<C>> {
    subscriptions.map_values(
        |handle: SubscriptionHandle<C>| SubscriptionHandle { liveness, ..handle },
    )
}

/// Whether `message` starts a subscription to `request` under the name `id`.
pub open spec fn starts(message: ClientMessage, id: Seq<char>, request: RequestBody) -> bool {
    message matches ClientMessage::Start { id: name, payload } && name@ == id && payload == request
}

/// Whether `messages` open a connection and start the subscriptions `order` on
/// it, one after the other, each under its number in decimal.
pub open spec fn is_opening<C>(
    messages: Seq<ClientMessage>,
    order: Seq<u64>,
    subscriptions: Map<u64, SubscriptionHandle<C>>,
) -> bool {
    &&& messages.len() == order.len() + 1
    &&& messages[0] == ClientMessage::ConnectionInit { payload: None }
    &&& forall|i: int|
        0 <= i < order.len() ==> starts(
            messages[i + 1],
            text::decimal(#[trigger] order[i]),
            subscriptions[order[i]].request,
        )
}

/// A connection to the server. Its `liveness` tells it from the one before it.
#[derive(Debug)]
pub struct GraphQLConnection {
    pub liveness: u8,
}

impl GraphQLConnection {
    /// The connection `liveness`.
    pub fn new(liveness: u8) -> (connection: Self)
        ensures
            connection.liveness == liveness,
    {
        GraphQLConnection { liveness }
    }

    /// The messages that a new connection begins with: the protocol is opened,
    /// then each subscription that was last started on another connection is
    /// started again, in no particular order.
    pub fn open<C>(&self, socket: &mut GraphQLWebSocket<C>) -> (messages: Vec<ClientMessage>)
        requires
            old(socket).wf(),
        ensures
            final(socket).wf(),
            final(socket).count() == old(socket).count(),
            final(socket).running() == refreshed(old(socket).running(), self.liveness),
            exists|order: Seq<u64>| #[trigger]
                is_opening(messages@, order, old(socket).running()) && order.no_duplicates()
                    && order.to_set() == stale(old(socket).running(), self.liveness),
    {
        let ghost before = socket.subscriptions@;
        let ghost mut order: Seq<u64> = Seq::empty();
        let mut messages: Vec<ClientMessage> = Vec::new();
        messages.push(ClientMessage::ConnectionInit { payload: None });
        let ids = socket.ids();
        let mut i: usize = 0;
        while i < ids.len()
            invariant
                i <= ids.len(),
                before == old(socket).running(),
                ids@.no_duplicates(),
                ids@.to_set() == before.dom(),
                socket.id_count == old(socket).count(),
                socket.subscriptions@.dom() == before.dom(),
                forall|id: u64| #[trigger]
                    before.contains_key(id) ==> socket.subscriptions@[id] == if ids@.take(
                        i as int,
                    ).contains(id) {
                        SubscriptionHandle { liveness: self.liveness, ..before[id] }
                    } else {
                        before[id]
                    },
                order.no_duplicates(),
                forall|id: u64| #[trigger]
                    order.contains(id) <==> ids@.take(i as int).contains(id) && before[id].liveness
                        != self.liveness,
                is_opening(messages@, order, before),
            decreases ids.len() - i,
        {
            let id: u64 = ids[i];
            proof {
                assert(ids@.to_set().contains(ids@[i as int]));
                assert(!ids@.take(i as int).contains(id));
                assert(ids@.take(i + 1) == ids@.take(i as int).push(id));
                assert forall|other: u64|
                    ids@.take(i + 1).contains(other) <==> ids@.take(i as int).contains(other)
                        || other == id by {
                    let shorter = ids@.take(i as int);
                    let longer = shorter.push(id);
                    if shorter.contains(other) {
                        let at = choose|at: int| 0 <= at < shorter.len() && shorter[at] == other;
                        assert(longer[at] == other);
                    }
                    assert(longer[i as int] == id);
                }
            }
            if let Some(handle) = socket.subscriptions.remove(&id) {
                let stale_handle = handle.liveness != self.liveness;
                let SubscriptionHandle { channel, request, liveness: _ } = handle;
                if stale_handle {
                    messages.push(
                        ClientMessage::Start {
                            id: text::write_decimal(id),
                            payload: request.clone(),
                        },
                    );
                    proof {
                        let longer = order.push(id);
                        assert(!order.contains(id));
                        assert(longer.no_duplicates()) by {
                            assert forall|at: int| 0 <= at < order.len() implies order[at] != id by {
                                assert(order.contains(order[at]));
                            }
                        }
                        assert forall|other: u64|
                            longer.contains(other) <==> order.contains(other) || other == id by {
                            if order.contains(other) {
                                let at = choose|at: int| 0 <= at < order.len() && order[at] == other;
                                assert(longer[at] == other);
                            }
                            assert(longer[order.len() as int] == id);
                        }
                        order = longer;
                    }
                }
                socket.subscriptions.insert(
                    id,
                    SubscriptionHandle { channel, request, liveness: self.liveness },
                );
            }
            i += 1;
        }
        proof {
            assert(ids@.take(ids.len() as int) == ids@);
            assert forall|id: u64| #[trigger] before.contains_key(id) implies ids@.contains(id) by {
                assert(before.dom().contains(id));
            }
            assert(socket.subscriptions@ =~= refreshed(before, self.liveness));
            assert(order.to_set() =~= stale(before, self.liveness));
        }
        messages
    }

    /// The message that a connection ends with.
    pub fn termination() -> (message: ClientMessage)
        ensures
            message == ClientMessage::ConnectionTerminate,
    {
        ClientMessage::ConnectionTerminate
    }
}

/// The number of the first connection of a client.
pub const FIRST_LIVENESS: u8 = 0;

/// How long a client waits before it tries again to make a connection.
pub const RETRY_SECONDS: u64 = 3;

/// The liveness of the connection that follows the connection `liveness`.
pub open spec fn next_liveness(liveness: u8) -> u8 {
    if liveness == u8::MAX {
        0
    } else {
        (liveness + 1) as u8
    }
}

/// Watches over a connection, to make it again when it is lost.
#[derive(Debug)]
pub struct Reconnecter {
    /// The connection that is watched.
    pub liveness: u8,
}

/// Tries to make a connection.
#[derive(Debug)]
pub struct Reconnection {
    /// The connection that is tried.
    pub liveness: u8,
}

/// What follows an attempt to make a connection.
#[derive(Debug)]
pub enum Attempted {
    /// Wait, then try the same connection again.
    Retry { attempt: Reconnection, after_seconds: u64 },
    /// Use the new connection, and watch over it.
    Watch(Reconnecter),
}

impl Reconnecter {
    /// Watches over the connection `liveness`.
    pub fn new(liveness: u8) -> (watch: Self)
        ensures
            watch.liveness == liveness,
    {
        Reconnecter { liveness }
    }

    /// What follows the end of the watched connection: the attempt to make the
    /// next one where its receiving side asks for it, else nothing.
    pub open spec fn follow_up(self, should_reconnect: bool) -> Option<Reconnection> {
        if should_reconnect {
            Some(Reconnection { liveness: next_liveness(self.liveness) })
        } else {
            None
        }
    }

    /// What follows the end of the watched connection: the attempt to make the
    /// next one where its receiving side asks for it, else nothing.
    pub fn finished(self, should_reconnect: bool) -> (attempt: Option<Reconnection>)
        ensures
            attempt == self.follow_up(should_reconnect),
    {
        if should_reconnect {
            Some(Reconnection { liveness: self.liveness.wrapping_add(1) })
        } else {
            None
        }
    }
}

impl Reconnection {
    /// What follows the attempt: a watch over the connection that it has made,
    /// else the same attempt again, after a while.
    pub open spec fn follow_up(self, connected: bool) -> Attempted {
        if connected {
            Attempted::Watch(Reconnecter { liveness: self.liveness })
        } else {
            Attempted::Retry { attempt: self, after_seconds: RETRY_SECONDS }
        }
    }

    /// The attempts that have been begun, this one and those that follow it, once
    /// attempts have come to `outcomes`, one after the other.
    pub open spec fn attempts(self, outcomes: Seq<bool>) -> Seq<Reconnection>
        decreases outcomes.len(),
    {
        if outcomes.len() == 0 {
            seq![self]
        } else {
            match self.follow_up(outcomes.first()) {
                Attempted::Retry { attempt, .. } => seq![self] + attempt.attempts(
                    outcomes.drop_first(),
                ),
                Attempted::Watch(_) => seq![self],
            }
        }
    }

    /// The watch that the attempts end in, once they have come to `outcomes`, one
    /// after the other; nothing where there is an attempt still to come.
    pub open spec fn ends_in(self, outcomes: Seq<bool>) -> Option<Reconnecter>
        decreases outcomes.len(),
    {
        if outcomes.len() == 0 {
            None
        } else {
            match self.follow_up(outcomes.first()) {
                Attempted::Retry { attempt, .. } => attempt.ends_in(outcomes.drop_first()),
                Attempted::Watch(watch) => Some(watch),
            }
        }
    }

    /// What follows the attempt, given whether it has made the connection.
    pub fn attempted(self, connected: bool) -> (next: Attempted)
        ensures
            next == self.follow_up(connected),
    {
        if connected {
            Attempted::Watch(Reconnecter::new(self.liveness))
        } else {
            Attempted::Retry { attempt: self, after_seconds: RETRY_SECONDS }
        }
    }
}

/// A subscription, as its subscriber holds it.
#[derive(Debug)]
pub struct Subscription {
    pub id: String,
}

/// What a subscription does with one message.
#[derive(Debug)]
pub struct SubscriptionStep {
    /// What it yields to its subscriber.
    pub output: Option<Result<serde_json::Value, Error>>,
    /// Whether it ends.
    pub finished: bool,
}

/// What the subscription `id` does with `message`.
pub open spec fn step(id: Seq<char>, message: ServerMessage) -> SubscriptionStep {
    match message {
        ServerMessage::Data { id: name, payload } => if name@ == id {
            SubscriptionStep { output: Some(payload.outcome()), finished: false }
        } else {
            SubscriptionStep { output: None, finished: false }
        },
        ServerMessage::Complete { id: name } => SubscriptionStep {
            output: None,
            finished: name@ == id,
        },
        ServerMessage::ConnectionError { payload } => SubscriptionStep {
            output: Some(Err(Error::Server(payload))),
            finished: true,
        },
        ServerMessage::Error { id: name, payload } => if name@ == id {
            SubscriptionStep { output: Some(Err(Error::Server(payload))), finished: false }
        } else {
            SubscriptionStep { output: None, finished: false }
        },
        ServerMessage::ConnectionAck => SubscriptionStep { output: None, finished: false },
        ServerMessage::ConnectionKeepAlive => SubscriptionStep { output: None, finished: false },
    }
}

/// Whether the subscription `id` ends on one of `messages`.
pub open spec fn has_finished(id: Seq<char>, messages: Seq<ServerMessage>) -> bool {
    exists|i: int| 0 <= i < messages.len() && (#[trigger] step(id, messages[i])).finished
}

/// All that the subscription `id` yields on `messages`.
pub open spec fn outputs(id: Seq<char>, messages: Seq<ServerMessage>) -> Seq<
    Result<serde_json::Value, Error>,
>
    decreases messages.len(),
{
    if messages.len() == 0 {
        Seq::empty()
    } else {
        let before = messages.drop_last();
        if has_finished(id, before) {
            outputs(id, before)
        } else {
            match step(id, messages.last()).output {
                Some(output) => outputs(id, before).push(output),
                None => outputs(id, before),
            }
        }
    }
}

impl Subscription {
    /// The subscription that is named `id`.
    pub fn new(id: String) -> (subscription: Self)
        ensures
            subscription.id == id,
    {
        Subscription { id }
    }

    /// Handles one message that has come for the subscription.
    pub fn handle(&self, message: ServerMessage) -> (done: SubscriptionStep)
        ensures
            done == step(self.id@, message),
    {
        match message {
            ServerMessage::Data { id, payload } => if id == self.id {
                SubscriptionStep { output: Some(Result::from(payload)), finished: false }
            } else {
                SubscriptionStep { output: None, finished: false }
            },
            ServerMessage::Complete { id } => {
                SubscriptionStep { output: None, finished: id == self.id }
            },
            ServerMessage::ConnectionError { payload } => {
                SubscriptionStep { output: Some(Err(Error::Server(payload))), finished: true }
            },
            ServerMessage::Error { id, payload } => if id == self.id {
                SubscriptionStep { output: Some(Err(Error::Server(payload))), finished: false }
            } else {
                SubscriptionStep { output: None, finished: false }
            },
            ServerMessage::ConnectionAck => SubscriptionStep { output: None, finished: false },
            ServerMessage::ConnectionKeepAlive => SubscriptionStep {
                output: None,
                finished: false,
            },
        }
    }

    /// The message that stops the subscription.
    pub fn stop(&self) -> (message: ClientMessage)
        ensures
            message == (ClientMessage::Stop { id: self.id }),
    {
        ClientMessage::Stop { id: self.id.clone() }
    }
}

/// A message that names a running subscription as it was started goes to that
/// subscription and to no other.
pub proof fn started_subscription_gets_its_messages(message: ServerMessage, id: u64, running: Set<u64>)
    requires
        message.named_id() == Some(text::upper_hex(id)),
        running.contains(id),
    ensures
        delivery(message, running) == (Delivery::One { id, last: message.is_last() }),
{
    text::upper_hex_reads_back(id);
}

/// A message that names a running subscription as it is started again on a later
/// connection goes to that subscription where its number has one digit, and only
/// there.
pub proof fn restarted_subscription_gets_its_messages(
    message: ServerMessage,
    id: u64,
    running: Set<u64>,
)
    requires
        message.named_id() == Some(text::decimal(id)),
        running.contains(id),
    ensures
        delivery(message, running) == (Delivery::One { id, last: message.is_last() }) <==> id < 10,
        text::decimal(id) == text::upper_hex(id) <==> id < 10,
{
    text::decimal_reads_back_as_hex(id);
    text::upper_hex_reads_back(id);
}

/// A result that names a running subscription as it was started goes to that
/// subscription, which yields it and goes on.
pub proof fn result_reaches_its_subscriber(message: ServerMessage, id: u64, running: Set<u64>)
    requires
        message is Data,
        message.named_id() == Some(text::upper_hex(id)),
        running.contains(id),
    ensures
        delivery(message, running) == (Delivery::One { id, last: false }),
        step(text::upper_hex(id), message) == (SubscriptionStep {
            output: Some(message->Data_payload.outcome()),
            finished: false,
        }),
{
    text::upper_hex_reads_back(id);
}

/// A running subscription misses nothing: what does not go to it, it would pay
/// no heed to.
pub proof fn routing_loses_nothing(message: ServerMessage, id: u64, running: Set<u64>)
    requires
        running.contains(id),
        delivery(message, running) != Delivery::Everybody,
        delivery(message, running) != (Delivery::One { id, last: message.is_last() }),
    ensures
        step(text::upper_hex(id), message) == (SubscriptionStep { output: None, finished: false }),
{
    text::upper_hex_reads_back(id);
}

/// A subscription that has been forgotten gets no message that names it as it
/// was started.
pub proof fn forgotten_subscription_gets_nothing(message: ServerMessage, id: u64, running: Set<u64>)
    requires
        message.named_id() == Some(text::upper_hex(id)),
    ensures
        delivery(message, running.remove(id)) == Delivery::Nobody,
{
    text::upper_hex_reads_back(id);
}

/// A message that names no subscription in hexadecimal goes to every one.
pub proof fn unnumbered_message_goes_to_everybody(message: ServerMessage, running: Set<u64>)
    requires
        match message.named_id() {
            Some(name) => text::parsed_hex(name) is None,
            None => true,
        },
    ensures
        delivery(message, running) == Delivery::Everybody,
{
}

/// Subscriptions with different numbers are started under different names.
pub proof fn started_names_are_distinct(a: u64, b: u64)
    requires
        a != b,
    ensures
        text::upper_hex(a) != text::upper_hex(b),
{
    if text::upper_hex(a) == text::upper_hex(b) {
        text::upper_hex_is_injective(a, b);
    }
}

/// Where every subscription was last started on one connection, the connection
/// that follows it starts every one of them again.
pub proof fn reconnection_restarts_everything<C>(
    subscriptions: Map<u64, SubscriptionHandle<C>>,
    liveness: u8,
)
    requires
        forall|id: u64| #[trigger]
            subscriptions.contains_key(id) ==> subscriptions[id].liveness == liveness,
    ensures
        stale(subscriptions, next_liveness(liveness)) == subscriptions.dom(),
{
    assert(stale(subscriptions, next_liveness(liveness)) =~= subscriptions.dom());
}

/// The first connection of a client without subscriptions opens the protocol and
/// starts nothing.
pub proof fn first_connection_only_opens<C>(messages: Seq<ClientMessage>, order: Seq<u64>)
    requires
        is_opening(messages, order, Map::<u64, SubscriptionHandle<C>>::empty()),
        order.to_set() == stale(Map::<u64, SubscriptionHandle<C>>::empty(), FIRST_LIVENESS),
    ensures
        messages == seq![ClientMessage::ConnectionInit { payload: None }],
{
    if order.len() > 0 {
        assert(order.to_set().contains(order[0]));
    }
}

/// A lost connection is tried again and again under one number, the one that
/// follows its own, until an attempt succeeds; only then do the attempts end, and
/// the new connection is watched under that number.
pub proof fn attempts_end_in_success_only(watch: Reconnecter, outcomes: Seq<bool>)
    ensures
        watch.follow_up(true) matches Some(first) && {
            &&& forall|i: int|
                0 <= i < first.attempts(outcomes).len() ==> (#[trigger] first.attempts(
                    outcomes,
                )[i]).liveness == next_liveness(watch.liveness)
            &&& first.ends_in(outcomes) == if outcomes.contains(true) {
                Some(Reconnecter { liveness: next_liveness(watch.liveness) })
            } else {
                None
            }
            &&& first.attempts(outcomes).len() == if outcomes.contains(true) {
                outcomes.index_of_first(true)->0 + 1
            } else {
                (outcomes.len() + 1) as int
            }
        },
{
    let first = Reconnection { liveness: next_liveness(watch.liveness) };
    lemma_attempts(first, outcomes);
    if outcomes.contains(true) {
        outcomes.index_of_first_ensures(true);
        let k = outcomes.index_of_first(true)->0;
        assert(outcomes[k] && forall|j: int| 0 <= j < k ==> !#[trigger] outcomes[j]);
    } else {
        assert forall|j: int| 0 <= j < outcomes.len() implies !#[trigger] outcomes[j] by {
            if outcomes[j] {
                assert(outcomes.contains(true));
            }
        }
    }
}

/// Attempts go on to the first success, under one number.
proof fn lemma_attempts(first: Reconnection, outcomes: Seq<bool>)
    ensures
        forall|i: int|
            0 <= i < first.attempts(outcomes).len() ==> #[trigger] first.attempts(outcomes)[i]
                == first,
        forall|k: int|
            0 <= k < outcomes.len() && #[trigger] outcomes[k] && (forall|j: int|
                0 <= j < k ==> !#[trigger] outcomes[j]) ==> first.attempts(outcomes).len() == k + 1
                && first.ends_in(outcomes) == Some(Reconnecter { liveness: first.liveness }),
        (forall|j: int| 0 <= j < outcomes.len() ==> !#[trigger] outcomes[j])
            ==> first.attempts(outcomes).len() == outcomes.len() + 1 && first.ends_in(
            outcomes,
        ) is None,
    decreases outcomes.len(),
{
    if outcomes.len() > 0 {
        let rest = outcomes.drop_first();
        lemma_attempts(first, rest);
        assert forall|k: int|
            0 <= k < outcomes.len() && #[trigger] outcomes[k] && (forall|j: int|
                0 <= j < k ==> !#[trigger] outcomes[j]) implies first.attempts(outcomes).len() == k + 1
            && first.ends_in(outcomes) == Some(Reconnecter { liveness: first.liveness }) by {
            if k > 0 {
                assert(!outcomes[0]);
                assert(rest[k - 1] == outcomes[k]);
                assert forall|j: int| 0 <= j < k - 1 implies !#[trigger] rest[j] by {
                    assert(rest[j] == outcomes[j + 1]);
                }
            }
        }
        if forall|j: int| 0 <= j < outcomes.len() ==> !#[trigger] outcomes[j] {
            assert(!outcomes[0]);
            assert forall|j: int| 0 <= j < rest.len() implies !#[trigger] rest[j] by {
                assert(rest[j] == outcomes[j + 1]);
            }
        }
    }
}

/// What a connection has started it does not start a second time.
pub proof fn opening_leaves_nothing_stale<C>(
    subscriptions: Map<u64, SubscriptionHandle<C>>,
    liveness: u8,
)
    ensures
        stale(refreshed(subscriptions, liveness), liveness) == Set::<u64>::empty(),
        refreshed(refreshed(subscriptions, liveness), liveness) == refreshed(
            subscriptions,
            liveness,
        ),
{
    assert(stale(refreshed(subscriptions, liveness), liveness) =~= Set::<u64>::empty());
    assert(refreshed(refreshed(subscriptions, liveness), liveness) =~= refreshed(
        subscriptions,
        liveness,
    ));
}

/// A subscription that is added on a connection is not started again by it, and
/// does not keep others from being started again.
pub proof fn new_subscription_is_not_restarted<C>(
    subscriptions: Map<u64, SubscriptionHandle<C>>,
    id: u64,
    handle: SubscriptionHandle<C>,
)
    ensures
        stale(subscriptions.insert(id, handle), handle.liveness) == stale(
            subscriptions,
            handle.liveness,
        ).remove(id),
{
    assert(stale(subscriptions.insert(id, handle), handle.liveness) =~= stale(
        subscriptions,
        handle.liveness,
    ).remove(id));
}

/// A subscription pays no heed to what is for another one.
pub proof fn other_subscriptions_are_silent(id: Seq<char>, message: ServerMessage)
    requires
        message.named_id() matches Some(name) && name != id,
    ensures
        step(id, message) == (SubscriptionStep { output: None, finished: false }),
{
}

/// What a subscription yields on messages in two parts: what it yields on the
/// first part and, unless it has ended there, what it yields on the second.
pub proof fn outputs_in_two_parts(
    id: Seq<char>,
    first: Seq<ServerMessage>,
    second: Seq<ServerMessage>,
)
    ensures
        outputs(id, first + second) == if has_finished(id, first) {
            outputs(id, first)
        } else {
            outputs(id, first) + outputs(id, second)
        },
        has_finished(id, first + second) == (has_finished(id, first) || has_finished(id, second)),
    decreases second.len(),
{
    let all = first + second;
    assert(has_finished(id, all) == (has_finished(id, first) || has_finished(id, second))) by {
        if has_finished(id, first) {
            let i = choose|i: int| 0 <= i < first.len() && (#[trigger] step(id, first[i])).finished;
            assert(step(id, all[i]).finished);
        }
        if has_finished(id, second) {
            let i = choose|i: int| 0 <= i < second.len() && (#[trigger] step(id, second[i])).finished;
            assert(step(id, all[first.len() + i]).finished);
        }
        if has_finished(id, all) {
            let i = choose|i: int| 0 <= i < all.len() && (#[trigger] step(id, all[i])).finished;
            if i < first.len() {
                assert(step(id, first[i]).finished);
            } else {
                assert(step(id, second[i - first.len()]).finished);
            }
        }
    }
    if second.len() == 0 {
        assert(all == first);
    } else {
        outputs_in_two_parts(id, first, second.drop_last());
        assert(all.drop_last() == first + second.drop_last());
        assert(outputs(id, first + second.drop_last()) == outputs(id, all.drop_last()));
        if !has_finished(id, first) {
            assert(outputs(id, all) =~= outputs(id, first) + outputs(id, second));
        }
    }
}

/// A subscription yields nothing after it has been completed.
pub proof fn nothing_follows_completion(
    id: Seq<char>,
    before: Seq<ServerMessage>,
    completion: ServerMessage,
    after: Seq<ServerMessage>,
)
    requires
        completion is Complete,
        completion.named_id() == Some(id),
    ensures
        outputs(id, before.push(completion) + after) == outputs(id, before),
{
    outputs_in_two_parts(id, before.push(completion), after);
    let upto = before.push(completion);
    assert(upto.drop_last() == before);
    assert(step(id, upto[before.len() as int]).finished);
}

/// A failure of the connection is the last thing that a running subscription
/// yields.
pub proof fn connection_error_comes_last(
    id: Seq<char>,
    before: Seq<ServerMessage>,
    payload: serde_json::Value,
    after: Seq<ServerMessage>,
)
    requires
        !has_finished(id, before),
    ensures
        outputs(id, before.push(ServerMessage::ConnectionError { payload }) + after) == outputs(
            id,
            before,
        ).push(Err(Error::Server(payload))),
{
    let upto = before.push(ServerMessage::ConnectionError { payload });
    outputs_in_two_parts(id, upto, after);
    assert(upto.drop_last() == before);
    assert(step(id, upto[before.len() as int]).finished);
}

/// The subscriptions that are left once a message has gone where it goes, and
/// has been taken there.
pub open spec fn left_after(message: ServerMessage, running: Set<u64>) -> Set<u64> {
    match delivery(message, running) {
        Delivery::One { id, last: true } => running.remove(id),
        _ => running,
    }
}

/// Those of `messages` that go to the subscription `id`, where they come one
/// after the other, and `running` are the subscriptions at first.
pub open spec fn reaching(messages: Seq<ServerMessage>, id: u64, running: Set<u64>) -> Seq<
    ServerMessage,
>
    decreases messages.len(),
{
    if messages.len() == 0 {
        Seq::empty()
    } else {
        let message = messages.first();
        let rest = reaching(messages.drop_first(), id, left_after(message, running));
        match delivery(message, running) {
            Delivery::One { id: to, .. } => if to == id {
                seq![message] + rest
            } else {
                rest
            },
            Delivery::Everybody => seq![message] + rest,
            Delivery::Nobody => rest,
        }
    }
}

/// Until its last message comes, a running subscription yields all that it would
/// yield if every message went to it.
pub proof fn subscriber_misses_nothing(messages: Seq<ServerMessage>, id: u64, running: Set<u64>)
    requires
        running.contains(id),
        forall|i: int|
            0 <= i < messages.len() && (#[trigger] messages[i]).number() == Some(id)
                ==> !messages[i].is_last(),
    ensures
        outputs(text::upper_hex(id), reaching(messages, id, running)) == outputs(
            text::upper_hex(id),
            messages,
        ),
    decreases messages.len(),
{
    let name = text::upper_hex(id);
    if messages.len() > 0 {
        let message = messages.first();
        let rest = messages.drop_first();
        let left = left_after(message, running);
        assert(messages[0] == message);
        assert(left.contains(id));
        assert forall|i: int|
            0 <= i < rest.len() && (#[trigger] rest[i]).number() == Some(
                id,
            ) implies !rest[i].is_last() by {
            assert(rest[i] == messages[i + 1]);
        }
        subscriber_misses_nothing(rest, id, left);
        let one = seq![message];
        assert(messages == one + rest);
        outputs_in_two_parts(name, one, rest);
        outputs_in_two_parts(name, one, reaching(rest, id, left));
        let to = delivery(message, running);
        if to != Delivery::Everybody && to != (Delivery::One { id, last: message.is_last() }) {
            routing_loses_nothing(message, id, running);
            let none = Seq::<ServerMessage>::empty();
            assert(one.drop_last() == none);
            assert(outputs(name, none) == Seq::<Result<serde_json::Value, Error>>::empty());
            assert(outputs(name, one) == Seq::<Result<serde_json::Value, Error>>::empty());
            assert(!has_finished(name, one));
        }
    }
}

} // verus!
