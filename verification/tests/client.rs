use std::collections::HashMap;

use gurkle::client::{can_be_header, subscription_item};
use gurkle::{
    Error, GraphQLError, HttpClient, Location, PathFragment, RequestBody, Response, WsRequest,
};

fn error(
    message: &str,
    locations: Option<Vec<Location>>,
    path: Option<Vec<PathFragment>>,
) -> GraphQLError {
    GraphQLError { message: message.to_owned(), locations, path, extensions: None }
}

fn key(key: &str) -> PathFragment {
    PathFragment::Key(key.to_owned())
}

fn json_error() -> serde_json::Error {
    serde_json::from_str::<serde_json::Value>("{").unwrap_err()
}

fn http_error() -> reqwest::Error {
    reqwest::Client::new().get("no url").build().unwrap_err()
}

#[test]
fn default_location_is_zero() {
    assert_eq!(Location::default(), Location { line: 0, column: 0 });
}

#[test]
fn path_fragments_are_shown_as_they_are() {
    assert_eq!(key("rating").to_string(), "rating");
    assert_eq!(key("").to_string(), "");
    assert_eq!(PathFragment::Index(20).to_string(), "20");
    assert_eq!(PathFragment::Index(-3).to_string(), "-3");
}

#[test]
fn error_with_just_a_message_is_shown_at_the_query() {
    assert_eq!(
        error("I accidentally your whole query", None, None).to_string(),
        "<query>:0:0: I accidentally your whole query"
    );
}

#[test]
fn full_error_is_shown_at_its_path_and_first_location() {
    let locations = vec![Location { line: 3, column: 13 }, Location { line: 56, column: 1 }];
    let path = vec![key("home"), key("alone"), PathFragment::Index(3), key("rating")];
    assert_eq!(
        error("I accidentally your whole query", Some(locations), Some(path)).to_string(),
        "home/alone/3/rating:3:13: I accidentally your whole query"
    );
}

#[test]
fn empty_path_and_locations_are_shown_as_nothing_and_zeros() {
    assert_eq!(error("m", Some(vec![]), Some(vec![])).to_string(), ":0:0: m");
}

#[test]
fn slashes_at_the_end_of_a_path_are_dropped() {
    assert_eq!(error("m", None, Some(vec![key("a"), key("b//")])).to_string(), "a/b:0:0: m");
    assert_eq!(error("m", None, Some(vec![key("a"), key("")])).to_string(), "a:0:0: m");
    assert_eq!(error("m", None, Some(vec![key(""), key("a")])).to_string(), "/a:0:0: m");
}

#[test]
fn cloned_errors_are_equal() {
    let mut extensions = HashMap::new();
    extensions.insert(
        "code".to_owned(),
        serde_json::Value::String("CAN_NOT_FETCH_BY_ID".to_owned()),
    );
    let full = GraphQLError {
        message: "m".to_owned(),
        locations: Some(vec![Location { line: 1, column: 2 }]),
        path: Some(vec![key("a"), PathFragment::Index(1)]),
        extensions: Some(extensions),
    };
    assert_eq!(full.clone(), full);
    let response = Response { data: Some(5), errors: Some(vec![full]) };
    assert_eq!(response.clone(), response);
    let empty: Response<i32> = Response { data: None, errors: None };
    assert_eq!(empty.clone(), empty);
}

#[test]
fn data_wins_over_errors() {
    let response = Response { data: Some(7), errors: Some(vec![error("m", None, None)]) };
    assert!(matches!(Result::from(response), Ok(7)));
    let response = Response { data: Some(8), errors: None };
    assert!(matches!(Result::from(response), Ok(8)));
}

#[test]
fn errors_come_out_where_there_is_no_data() {
    let errors = vec![
        error("The server crashed. Sorry.", Some(vec![Location { line: 1, column: 1 }]), None),
        error("Seismic activity detected", None, Some(vec![key("underground"), PathFragment::Index(20)])),
    ];
    let response: Response<i32> = Response { data: None, errors: Some(errors.clone()) };
    match Result::from(response) {
        Err(Error::GraphQL(found)) => assert_eq!(found, errors),
        other => panic!("{:?}", other),
    }
    let response: Response<i32> = Response { data: None, errors: Some(vec![]) };
    assert!(matches!(Result::from(response), Err(Error::GraphQL(found)) if found.is_empty()));
}

#[test]
fn response_without_data_and_errors_is_empty() {
    let response: Response<i32> = Response { data: None, errors: None };
    assert!(matches!(Result::from(response), Err(Error::Empty)));
}

#[test]
fn errors_are_shown_by_kind() {
    assert_eq!(Error::GraphQL(vec![]).to_string(), "The response contains errors.");
    assert_eq!(Error::from(http_error()).to_string(), "An HTTP error occurred.");
    assert_eq!(Error::from(json_error()).to_string(), "An error parsing JSON response occurred.");
    assert_eq!(
        Error::Server(serde_json::Value::Null).to_string(),
        "The server replied with an error payload."
    );
    assert_eq!(
        Error::from(tungstenite::Error::ConnectionClosed).to_string(),
        "A WebSocket error occurred."
    );
    assert_eq!(Error::Empty.to_string(), "The response body is empty.");
}

#[test]
fn outside_errors_are_wrapped() {
    assert!(matches!(Error::from(http_error()), Error::Http(e) if e.is_builder()));
    assert!(matches!(Error::from(json_error()), Error::Json(e) if e.is_eof()));
    assert!(matches!(
        Error::from(tungstenite::Error::AlreadyClosed),
        Error::WebSocket(tungstenite::Error::AlreadyClosed)
    ));
}

#[test]
fn request_body_is_a_json_object() {
    let body = RequestBody {
        variables: serde_json::Value::Array(vec![
            serde_json::Value::Bool(true),
            serde_json::Value::from(12),
        ]),
        query: "query \"Q\" {\n\ta\\b é \u{1} }",
        operation_name: "Q",
    };
    let text = body.to_json();
    assert_eq!(
        text,
        "{\"variables\":[true,12],\"query\":\"query \\\"Q\\\" {\\n\\ta\\\\b é \\u0001 }\",\
         \"operationName\":\"Q\"}"
    );
    let value: serde_json::Value = serde_json::from_str(&text).unwrap();
    assert_eq!(value["query"], serde_json::Value::String(body.query.to_owned()));
    assert_eq!(body.clone().to_json(), text);
}

#[test]
fn header_texts_are_those_that_http_takes() {
    for text in ["", "secret", "a\tb", "a b", "é\u{80}\u{3000}", "a\nb", "\r", "\0", "\u{1f}", "\u{7f}"] {
        let taken = reqwest::header::HeaderValue::from_str(text).is_ok();
        assert_eq!(can_be_header(text), taken, "{:?}", text);
    }
    assert!(can_be_header("a\tb"));
    assert!(!can_be_header("a\nb"));
}

#[test]
fn bearer_tokens_can_be_headers() {
    let client = HttpClient::new("http://localhost/", Some("a b\té".to_owned()));
    assert!(can_be_header(&client.authorization.unwrap()));
    let request = WsRequest::new(
        "ws://localhost/",
        Some("t".to_owned()),
        vec!["a".to_owned(), "é".to_owned()],
    );
    for (_, value) in request.headers {
        assert!(can_be_header(&value));
    }
}

#[test]
fn http_client_carries_a_bearer_token() {
    let client = HttpClient::new("http://localhost/graphql", Some("secret".to_owned()));
    assert_eq!(client.http_endpoint, "http://localhost/graphql");
    assert_eq!(client.authorization, Some("Bearer secret".to_owned()));
    let client = HttpClient::new("http://localhost/", None);
    assert_eq!(client.authorization, None);
}

#[test]
fn execution_comes_to_the_response_or_the_http_error() {
    let body = Response { data: Some(1), errors: None };
    assert!(matches!(HttpClient::execute_inner(Ok(body)), Ok(1)));
    let body: Response<i32> = Response { data: None, errors: Some(vec![error("m", None, None)]) };
    assert!(matches!(HttpClient::execute_inner(Ok(body)), Err(Error::GraphQL(e)) if e.len() == 1));
    let body: Response<i32> = Response { data: None, errors: None };
    assert!(matches!(HttpClient::execute_inner(Ok(body)), Err(Error::Empty)));
    assert!(matches!(
        HttpClient::execute_inner::<i32>(Err(http_error())),
        Err(Error::Http(e)) if e.is_builder()
    ));
}

#[test]
fn ws_request_has_a_header_for_what_is_there() {
    let request = WsRequest::new("ws://localhost:4000/", None, vec![]);
    assert_eq!(request.url, "ws://localhost:4000/");
    assert!(request.headers.is_empty());

    let request = WsRequest::new(
        "ws://localhost:4000/",
        Some("secret".to_owned()),
        vec!["graphql-ws".to_owned(), "other".to_owned()],
    );
    assert_eq!(
        request.headers,
        vec![
            ("Authorization", "Bearer secret".to_owned()),
            ("Sec-WebSocket-Protocol", "graphql-ws, other".to_owned()),
        ]
    );

    let request = WsRequest::new("ws://localhost:4000/", None, vec!["graphql-ws".to_owned()]);
    assert_eq!(request.headers, vec![("Sec-WebSocket-Protocol", "graphql-ws".to_owned())]);
}

#[test]
fn subscription_items_are_decoded_values_or_errors() {
    assert!(matches!(subscription_item(Ok(Ok(3))), Ok(3)));
    assert!(matches!(
        subscription_item::<i32>(Ok(Err(json_error()))),
        Err(Error::Json(e)) if e.is_eof()
    ));
    assert!(matches!(subscription_item::<i32>(Err(Error::Empty)), Err(Error::Empty)));
}
