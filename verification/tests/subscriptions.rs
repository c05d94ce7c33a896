use gurkle::ws::raw::{ClientMessage, ServerMessage};
use gurkle::ws::{
    Attempted, Delivery, GraphQLConnection, GraphQLWebSocket, Reconnecter, Subscription,
    FIRST_LIVENESS, RETRY_SECONDS,
};
use gurkle::{Error, GraphQLError, RequestBody, Response};

fn request(operation_name: &'static str) -> RequestBody {
    RequestBody { variables: serde_json::Value::Null, query: "q", operation_name }
}

fn data(id: &str, value: i32) -> ServerMessage {
    ServerMessage::Data {
        id: id.to_owned(),
        payload: Response { data: Some(serde_json::Value::from(value)), errors: None },
    }
}

fn failure(id: &str) -> ServerMessage {
    ServerMessage::Error { id: id.to_owned(), payload: serde_json::Value::from("no") }
}

fn complete(id: &str) -> ServerMessage {
    ServerMessage::Complete { id: id.to_owned() }
}

fn socket(subscriptions: usize) -> GraphQLWebSocket<usize> {
    let mut socket = GraphQLWebSocket::connect();
    for channel in 0..subscriptions {
        socket.subscribe(request("Op"), channel, 0);
    }
    socket
}

#[test]
fn subscriptions_are_numbered_from_one_and_named_in_hexadecimal() {
    let mut socket: GraphQLWebSocket<&str> = GraphQLWebSocket::connect();
    assert_eq!(socket.id_count(), 0);
    assert!(socket.ids().is_empty());
    for n in 1..=17u64 {
        let (subscription, message) = socket.subscribe(request("Op"), "channel", 4);
        assert_eq!(subscription.id, format!("{:X}", n));
        match message {
            ClientMessage::Start { id, payload } => {
                assert_eq!(id, subscription.id);
                assert_eq!(payload.operation_name, "Op");
            }
            other => panic!("{:?}", other),
        }
        assert_eq!(socket.id_count(), n);
        let handle = socket.subscription(n).unwrap();
        assert_eq!(handle.channel, "channel");
        assert_eq!(handle.request.operation_name, "Op");
        assert_eq!(handle.liveness, 4);
    }
    let mut ids = socket.ids();
    ids.sort();
    assert_eq!(ids, (1..=17).collect::<Vec<u64>>());
}

#[test]
fn numbers_are_not_used_again() {
    let mut socket = socket(2);
    socket.delivered(2, true, false);
    let (subscription, _) = socket.subscribe(request("Op"), 0, 0);
    assert_eq!(subscription.id, "3");
}

#[test]
fn messages_go_to_the_subscription_that_they_name() {
    let socket = socket(11);
    assert_eq!(
        socket.process_server_message(&data("B", 1)),
        Delivery::One { id: 11, last: false }
    );
    assert_eq!(
        socket.process_server_message(&failure("B")),
        Delivery::One { id: 11, last: true }
    );
    assert_eq!(
        socket.process_server_message(&complete("1")),
        Delivery::One { id: 1, last: true }
    );
    assert_eq!(socket.process_server_message(&data("11", 1)), Delivery::Nobody);
    assert_eq!(socket.process_server_message(&data("C", 1)), Delivery::Nobody);
}

#[test]
fn messages_without_a_number_go_to_everybody() {
    let socket = socket(1);
    assert_eq!(
        socket.process_server_message(&ServerMessage::ConnectionAck),
        Delivery::Everybody
    );
    let error = ServerMessage::ConnectionError { payload: serde_json::Value::Null };
    assert_eq!(socket.process_server_message(&error), Delivery::Everybody);
    assert_eq!(socket.process_server_message(&data("xyz", 1)), Delivery::Everybody);
}

#[test]
fn subscriptions_are_forgotten_on_their_last_message_or_a_failed_send() {
    let mut socket = socket(3);
    socket.delivered(1, false, false);
    assert_eq!(socket.ids().len(), 3);
    socket.delivered(1, true, false);
    assert_eq!(socket.process_server_message(&data("1", 1)), Delivery::Nobody);
    socket.delivered(2, false, true);
    assert_eq!(socket.process_server_message(&data("2", 1)), Delivery::Nobody);
    socket.delivered(9, true, true);
    assert_eq!(socket.ids(), vec![3]);
}

#[test]
fn first_connection_starts_nothing_again() {
    let mut socket = socket(2);
    let messages = GraphQLConnection::new(0).open(&mut socket);
    assert_eq!(messages.len(), 1);
    assert!(matches!(messages[0], ClientMessage::ConnectionInit { payload: None }));
}

#[test]
fn first_connection_of_a_fresh_socket_only_opens() {
    assert_eq!(FIRST_LIVENESS, 0);
    let mut socket: GraphQLWebSocket<()> = GraphQLWebSocket::connect();
    assert!(socket.subscription(1).is_none());
    let messages = GraphQLConnection::new(FIRST_LIVENESS).open(&mut socket);
    assert_eq!(messages.len(), 1);
    assert!(matches!(messages[0], ClientMessage::ConnectionInit { payload: None }));
}

#[test]
fn next_connection_starts_everything_again_once() {
    let mut socket = socket(12);
    let messages = GraphQLConnection::new(1).open(&mut socket);
    assert!(matches!(messages[0], ClientMessage::ConnectionInit { payload: None }));
    let mut names: Vec<String> = messages[1..]
        .iter()
        .map(|message| match message {
            ClientMessage::Start { id, payload } => {
                assert_eq!(payload.operation_name, "Op");
                id.clone()
            }
            other => panic!("{:?}", other),
        })
        .collect();
    names.sort();
    let mut expected: Vec<String> = (1..=12).map(|n| n.to_string()).collect();
    expected.sort();
    assert_eq!(names, expected);
    for id in socket.ids() {
        assert_eq!(socket.subscription(id).unwrap().liveness, 1);
        assert_eq!(socket.subscription(id).unwrap().channel as u64, id - 1);
    }
    assert_eq!(GraphQLConnection::new(1).open(&mut socket).len(), 1);
}

#[test]
fn only_older_subscriptions_are_started_again() {
    let mut socket = socket(1);
    socket.subscribe(request("New"), 5, 3);
    let messages = GraphQLConnection::new(3).open(&mut socket);
    assert_eq!(messages.len(), 2);
    assert!(matches!(&messages[1], ClientMessage::Start { id, .. } if id == "1"));
}

#[test]
fn names_on_a_later_connection_are_routed_below_ten_only() {
    let socket = socket(20);
    assert_eq!(
        socket.process_server_message(&data("9", 1)),
        Delivery::One { id: 9, last: false }
    );
    assert_eq!(
        socket.process_server_message(&data("10", 1)),
        Delivery::One { id: 16, last: false }
    );
}

#[test]
fn connections_end_with_a_termination() {
    assert_eq!(GraphQLConnection::new(7).liveness, 7);
    assert!(matches!(GraphQLConnection::termination(), ClientMessage::ConnectionTerminate));
}

#[test]
fn lost_connections_are_made_again_where_asked_for() {
    assert!(Reconnecter::new(0).finished(false).is_none());
    let attempt = Reconnecter::new(0).finished(true).unwrap();
    assert_eq!(attempt.liveness, 1);
    let attempt = match attempt.attempted(false) {
        Attempted::Retry { attempt, after_seconds } => {
            assert_eq!(after_seconds, RETRY_SECONDS);
            assert_eq!(after_seconds, 3);
            attempt
        }
        other => panic!("{:?}", other),
    };
    assert_eq!(attempt.liveness, 1);
    match attempt.attempted(true) {
        Attempted::Watch(watch) => assert_eq!(watch.liveness, 1),
        other => panic!("{:?}", other),
    }
    assert_eq!(Reconnecter::new(255).finished(true).unwrap().liveness, 0);
}

#[test]
fn subscription_yields_its_results() {
    let subscription = Subscription::new("A".to_owned());
    let step = subscription.handle(data("A", 5));
    assert!(!step.finished);
    assert_eq!(step.output.unwrap().unwrap(), serde_json::Value::from(5));

    let errors = vec![GraphQLError {
        message: "m".to_owned(),
        locations: None,
        path: None,
        extensions: None,
    }];
    let step = subscription.handle(ServerMessage::Data {
        id: "A".to_owned(),
        payload: Response { data: None, errors: Some(errors) },
    });
    assert!(!step.finished);
    assert!(matches!(step.output, Some(Err(Error::GraphQL(e))) if e[0].message == "m"));

    let step = subscription.handle(ServerMessage::Data {
        id: "A".to_owned(),
        payload: Response { data: None, errors: None },
    });
    assert!(matches!(step.output, Some(Err(Error::Empty))));
}

#[test]
fn subscription_ignores_what_is_for_others() {
    let subscription = Subscription::new("A".to_owned());
    for message in [
        data("B", 5),
        data("a", 5),
        failure("B"),
        complete("B"),
        ServerMessage::ConnectionAck,
        ServerMessage::ConnectionKeepAlive,
    ] {
        let step = subscription.handle(message);
        assert!(step.output.is_none());
        assert!(!step.finished);
    }
}

#[test]
fn subscription_ends_on_completion_and_on_a_connection_error() {
    let subscription = Subscription::new("A".to_owned());
    let step = subscription.handle(complete("A"));
    assert!(step.output.is_none());
    assert!(step.finished);

    let step = subscription.handle(failure("A"));
    assert!(!step.finished);
    assert!(matches!(step.output, Some(Err(Error::Server(p))) if p == "no"));

    let step = subscription
        .handle(ServerMessage::ConnectionError { payload: serde_json::Value::from("gone") });
    assert!(step.finished);
    assert!(matches!(step.output, Some(Err(Error::Server(p))) if p == "gone"));
}

#[test]
fn nothing_is_yielded_after_the_end() {
    let subscription = Subscription::new("A".to_owned());
    let mut outputs = Vec::new();
    for message in [data("A", 1), data("B", 2), data("A", 3), complete("A"), data("A", 4)] {
        let step = subscription.handle(message);
        outputs.extend(step.output);
        if step.finished {
            break;
        }
    }
    let outputs: Vec<serde_json::Value> = outputs.into_iter().map(|o| o.unwrap()).collect();
    assert_eq!(outputs, vec![serde_json::Value::from(1), serde_json::Value::from(3)]);
}

#[test]
fn subscription_is_stopped_by_name() {
    let subscription = Subscription::new("1F".to_owned());
    assert!(matches!(subscription.stop(), ClientMessage::Stop { id } if id == "1F"));
}

#[test]
fn results_reach_their_subscriber_from_start_to_end() {
    let mut socket: GraphQLWebSocket<()> = GraphQLWebSocket::connect();
    let mut subscriptions = Vec::new();
    for _ in 0..12 {
        subscriptions.push(socket.subscribe(request("Op"), (), 0).0);
    }
    for (index, subscription) in subscriptions.iter().enumerate() {
        let message = data(&subscription.id, 40);
        let id = index as u64 + 1;
        assert_eq!(socket.process_server_message(&message), Delivery::One { id, last: false });
        let step = subscription.handle(message);
        assert_eq!(step.output.unwrap().unwrap(), serde_json::Value::from(40));
    }
}

#[test]
fn attempts_go_on_under_one_number_until_one_succeeds() {
    let mut attempt = Reconnecter::new(6).finished(true).unwrap();
    for _ in 0..300 {
        assert_eq!(attempt.liveness, 7);
        attempt = match attempt.attempted(false) {
            Attempted::Retry { attempt, .. } => attempt,
            other => panic!("{:?}", other),
        };
    }
    match attempt.attempted(true) {
        Attempted::Watch(watch) => assert_eq!(watch.liveness, 7),
        other => panic!("{:?}", other),
    }
}

#[test]
fn subscriber_misses_nothing_until_its_last_message() {
    let mut socket = socket(2);
    let subscription = Subscription::new("1".to_owned());
    let mut yielded = Vec::new();
    let mut unrouted = Vec::new();
    for message in [
        data("1", 1),
        data("2", 2),
        ServerMessage::ConnectionAck,
        complete("2"),
        data("x", 3),
        data("7", 4),
        data("1", 5),
    ] {
        unrouted.extend(subscription.handle(message.clone()).output);
        match socket.process_server_message(&message) {
            Delivery::One { id, last } => {
                if id == 1 {
                    yielded.extend(subscription.handle(message).output);
                }
                socket.delivered(id, last, false);
            }
            Delivery::Everybody => yielded.extend(subscription.handle(message).output),
            Delivery::Nobody => {}
        }
    }
    assert_eq!(yielded.len(), 2);
    assert_eq!(format!("{:?}", yielded), format!("{:?}", unrouted));
    assert_eq!(socket.ids(), vec![1]);
}
