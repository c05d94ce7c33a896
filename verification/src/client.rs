//! Responses, errors and request bodies, shared by the HTTP and the WebSocket
//! client.

use std::collections::HashMap;

use reqwest::Error as HttpError;
use serde_json::Error as JsonError;
use tungstenite::Error as WebSocketError;
use vstd::prelude::*;

use crate::json;
use crate::text;

verus! {

/// An error of the HTTP client, carried through as it is.
#[verifier::external_type_specification]
#[verifier::external_body]
pub struct ExHttpError(HttpError);

/// An error of the WebSocket client, carried through as it is.
#[verifier::external_type_specification]
#[verifier::external_body]
pub struct ExWebSocketError(WebSocketError);

/// Represents a location inside a query string. Used in errors. See [`GraphQLError`].
#[derive(Debug, Clone, Copy, PartialEq, Eq, Structural)]
pub struct Location {
    /// The line number in the query string where the error originated (starting from 1).
    pub line: i32,
    /// The column number in the query string where the error originated (starting from 1).
    pub column: i32,
}

impl Default for Location {
    fn default() -> (location: Self)
        ensures
            location == (Location { line: 0, column: 0 }),
    {
        Location { line: 0, column: 0 }
    }
}

/// Part of a path in a query. It can be an object key or an array index. See [`GraphQLError`].
#[derive(Debug, PartialEq)]
pub enum PathFragment {
    /// A key inside an object
    Key(String),
    /// An index inside an array
    Index(i32),
}

impl Clone for PathFragment {
    fn clone(&self) -> (copy: Self)
        ensures
            copy == *self,
    {
        match self {
            PathFragment::Key(key) => PathFragment::Key(key.clone()),
            PathFragment::Index(index) => PathFragment::Index(*index),
        }
    }
}

impl PathFragment {
    /// How the fragment is shown: a key as it is, an index in decimal.
    pub open spec fn text(self) -> Seq<char> {
        match self {
            PathFragment::Key(key) => key@,
            PathFragment::Index(index) => text::signed_decimal(index),
        }
    }

    /// Shows the fragment.
    pub fn to_string(&self) -> (text: String)
        ensures
            text@ == self.text(),
    {
        match self {
            PathFragment::Key(key) => key.clone(),
            PathFragment::Index(index) => text::write_signed_decimal(*index),
        }
    }
}

/// An element in the top-level `errors` array of a response body.
#[derive(Debug, PartialEq)]
pub struct GraphQLError {
    /// The human-readable error message. This is the only required field.
    pub message: String,
    /// Which locations in the query the error applies to.
    pub locations: Option<Vec<Location>>,
    /// Which path in the query the error applies to, e.g. `["users", 0, "email"]`.
    pub path: Option<Vec<PathFragment>>,
    /// Additional errors. Their exact format is defined by the server.
    pub extensions: Option<HashMap<String, serde_json::Value>>,
}

/// What a [`GraphQLError`] holds.
pub struct GraphQLErrorView {
    pub message: Seq<char>,
    pub locations: Option<Seq<Location>>,
    pub path: Option<Seq<PathFragment>>,
    pub extensions: Option<Map<String, serde_json::Value>>,
}

impl View for GraphQLError {
    type V = GraphQLErrorView;

    open spec fn view(&self) -> GraphQLErrorView {
        GraphQLErrorView {
            message: self.message@,
            locations: match self.locations {
                Some(locations) => Some(locations@),
                None => None,
            },
            path: match self.path {
                Some(path) => Some(path@),
                None => None,
            },
            extensions: match self.extensions {
                Some(extensions) => Some(extensions@),
                None => None,
            },
        }
    }
}

impl Clone for GraphQLError {
    fn clone(&self) -> (copy: Self)
        ensures
            copy@ == self@,
    {
        let copy = GraphQLError {
            message: self.message.clone(),
            locations: self.locations.clone(),
            path: self.path.clone(),
            extensions: self.extensions.clone(),
        };
        proof {
            if self.locations is Some {
                assert(copy.locations->0@ == self.locations->0@);
            }
            if self.path is Some {
                assert(copy.path->0@ == self.path->0@);
            }
        }
        copy
    }
}

/// The fragments one after the other, each followed by a slash.
pub open spec fn slash_terminated(fragments: Seq<PathFragment>) -> Seq<char>
    decreases fragments.len(),
{
    if fragments.len() == 0 {
        Seq::empty()
    } else {
        slash_terminated(fragments.drop_last()) + fragments.last().text() + seq!['/']
    }
}

impl GraphQLErrorView {
    /// Where in the response the error is, like a JSON Pointer.
    pub open spec fn path_text(self) -> Seq<char> {
        match self.path {
            Some(fragments) => text::trimmed_end(slash_terminated(fragments), '/'),
            None => "<query>"@,
        }
    }

    /// The location that is shown: the first one, or zeros where there is none.
    pub open spec fn shown_location(self) -> Location {
        match self.locations {
            Some(locations) => if locations.len() > 0 {
                locations[0]
            } else {
                Location { line: 0, column: 0 }
            },
            None => Location { line: 0, column: 0 },
        }
    }

    /// How the error is shown: `path:line:column: message`.
    pub open spec fn text(self) -> Seq<char> {
        self.path_text() + ":"@ + text::signed_decimal(self.shown_location().line) + ":"@
            + text::signed_decimal(self.shown_location().column) + ": "@ + self.message
    }
}

impl GraphQLError {
    /// The path, with `/` as a separator like JSON Pointer.
    fn path_string(&self) -> (text: String)
        ensures
            text@ == self@.path_text(),
    {
        match &self.path {
            None => "<query>".to_owned(),
            Some(fragments) => {
                let mut acc = String::new();
                let mut i: usize = 0;
                assert(fragments@.take(0) == Seq::<PathFragment>::empty());
                while i < fragments.len()
                    invariant
                        i <= fragments.len(),
                        acc@ == slash_terminated(fragments@.take(i as int)),
                    decreases fragments.len() - i,
                {
                    let ghost before = acc@;
                    let item = fragments[i].to_string();
                    acc.append(item.as_str());
                    acc.append("/");
                    proof {
                        reveal_strlit("/");
                        assert("/"@ == seq!['/']);
                        let longer = fragments@.take(i + 1);
                        assert(longer.drop_last() == fragments@.take(i as int));
                    }
                    i += 1;
                }
                assert(fragments@.take(fragments.len() as int) == fragments@);
                text::trim_end(acc.as_str(), '/')
            },
        }
    }

    /// The first location, or the default one.
    fn first_location(&self) -> (location: Location)
        ensures
            location == self@.shown_location(),
    {
        match &self.locations {
            Some(locations) => if locations.len() > 0 {
                locations[0]
            } else {
                Location::default()
            },
            None => Location::default(),
        }
    }

    /// Shows the error as `path:line:column: message`.
    pub fn to_string(&self) -> (text: String)
        ensures
            text@ == self@.text(),
    {
        let location = self.first_location();
        let mut text = self.path_string();
        text.append(":");
        text.append(text::write_signed_decimal(location.line).as_str());
        text.append(":");
        text.append(text::write_signed_decimal(location.column).as_str());
        text.append(": ");
        text.append(self.message.as_str());
        text
    }
}

/// A path whose last fragment has a text that does not end in a slash is shown
/// as its fragments with a slash between neighbours.
pub proof fn path_is_slash_separated(error: GraphQLErrorView)
    requires
        error.path matches Some(fragments) && fragments.len() > 0 && fragments.last().text().len() > 0
            && fragments.last().text().last() != '/',
    ensures
        error.path_text() == text::joined(
            error.path->0.map_values(|fragment: PathFragment| fragment.text()),
            seq!['/'],
        ),
{
    let fragments = error.path->0;
    let whole = slash_terminated(fragments);
    lemma_slash_terminated(fragments);
    let body = whole.drop_last();
    assert(body == slash_terminated(fragments.drop_last()) + fragments.last().text());
    assert(text::trimmed_end(body, '/') == body);
}

/// Fragments that each end in a slash are fragments separated by slashes, and a
/// slash.
pub proof fn lemma_slash_terminated(fragments: Seq<PathFragment>)
    requires
        fragments.len() > 0,
    ensures
        slash_terminated(fragments) == text::joined(
            fragments.map_values(|fragment: PathFragment| fragment.text()),
            seq!['/'],
        ).push('/'),
    decreases fragments.len(),
{
    let parts = fragments.map_values(|fragment: PathFragment| fragment.text());
    let head = fragments.drop_last();
    if fragments.len() > 1 {
        lemma_slash_terminated(head);
        assert(parts.drop_last() == head.map_values(|fragment: PathFragment| fragment.text()));
        assert(slash_terminated(head) == text::joined(parts.drop_last(), seq!['/']) + seq!['/']);
    } else {
        assert(slash_terminated(head) == Seq::<char>::empty());
    }
    assert(slash_terminated(fragments) == text::joined(parts, seq!['/']).push('/'));
}

/// GraphQL errors
#[derive(Debug)]
pub enum Error {
    /// The error field of a GraphQL response.
    GraphQL(Vec<GraphQLError>),
    /// A HTTP error.
    Http(HttpError),
    /// A JSON decoding error.
    Json(JsonError),
    /// A `graphql-ws` level error, which can be of any shape.
    Server(serde_json::Value),
    /// A low-level WebSocket error.
    WebSocket(WebSocketError),
    /// The response contains `null` for both the `data` and `errors` fields.
    Empty,
}

impl Error {
    /// How the error is shown.
    pub open spec fn text(self) -> Seq<char> {
        match self {
            Error::GraphQL(_) => "The response contains errors."@,
            Error::Http(_) => "An HTTP error occurred."@,
            Error::Json(_) => "An error parsing JSON response occurred."@,
            Error::Server(_) => "The server replied with an error payload."@,
            Error::WebSocket(_) => "A WebSocket error occurred."@,
            Error::Empty => "The response body is empty."@,
        }
    }

    /// Shows the error.
    pub fn to_string(&self) -> (text: String)
        ensures
            text@ == self.text(),
    {
        match self {
            Error::GraphQL(_) => "The response contains errors.".to_owned(),
            Error::Http(_) => "An HTTP error occurred.".to_owned(),
            Error::Json(_) => "An error parsing JSON response occurred.".to_owned(),
            Error::Server(_) => "The server replied with an error payload.".to_owned(),
            Error::WebSocket(_) => "A WebSocket error occurred.".to_owned(),
            Error::Empty => "The response body is empty.".to_owned(),
        }
    }
}

impl From<HttpError> for Error {
    fn from(error: HttpError) -> (wrapped: Self) {
        Error::Http(error)
    }
}

impl vstd::std_specs::convert::FromSpecImpl<HttpError> for Error {
    open spec fn obeys_from_spec() -> bool {
        true
    }

    open spec fn from_spec(error: HttpError) -> Self {
        Error::Http(error)
    }
}

impl From<JsonError> for Error {
    fn from(error: JsonError) -> (wrapped: Self) {
        Error::Json(error)
    }
}

impl vstd::std_specs::convert::FromSpecImpl<JsonError> for Error {
    open spec fn obeys_from_spec() -> bool {
        true
    }

    open spec fn from_spec(error: JsonError) -> Self {
        Error::Json(error)
    }
}

impl From<WebSocketError> for Error {
    fn from(error: WebSocketError) -> (wrapped: Self) {
        Error::WebSocket(error)
    }
}

impl vstd::std_specs::convert::FromSpecImpl<WebSocketError> for Error {
    open spec fn obeys_from_spec() -> bool {
        true
    }

    open spec fn from_spec(error: WebSocketError) -> Self {
        Error::WebSocket(error)
    }
}

/// The generic shape taken by the responses of GraphQL APIs.
///
/// This will generally be used with the response type of a generated module.
#[derive(Debug, PartialEq)]
pub struct Response<Data> {
    /// The absent, partial or complete response data.
    pub data: Option<Data>,
    /// The top-level errors returned by the server.
    pub errors: Option<Vec<GraphQLError>>,
}

impl<Data> Response<Data> {
    /// What a response means: its data where it has some, else its errors where
    /// it has some, else that it is empty.
    pub open spec fn outcome(self) -> Result<Data, Error> {
        match (self.data, self.errors) {
            (Some(data), _) => Ok(data),
            (None, Some(errors)) => Err(Error::GraphQL(errors)),
            (None, None) => Err(Error::Empty),
        }
    }

    /// What each of the errors holds.
    pub open spec fn error_views(self) -> Option<Seq<GraphQLErrorView>> {
        match self.errors {
            Some(errors) => Some(errors@.map_values(|error: GraphQLError| error@)),
            None => None,
        }
    }
}

impl<Data> From<Response<Data>> for Result<Data, Error> {
    fn from(response: Response<Data>) -> (outcome: Self) {
        match (response.data, response.errors) {
            (Some(data), _) => Ok(data),
            (None, Some(errors)) => Err(Error::GraphQL(errors)),
            (None, None) => Err(Error::Empty),
        }
    }
}

impl<Data> vstd::std_specs::convert::FromSpecImpl<Response<Data>> for Result<Data, Error> {
    open spec fn obeys_from_spec() -> bool {
        true
    }

    open spec fn from_spec(response: Response<Data>) -> Self {
        response.outcome()
    }
}

/// A response is a success where it has data, whatever errors come with it; it
/// is empty where it has neither data nor errors, and else it is its errors.
pub proof fn outcomes_are_told_apart<Data>(response: Response<Data>)
    ensures
        response.outcome() is Ok <==> response.data is Some,
        response.outcome() matches Err(Error::Empty) <==> response.data is None
            && response.errors is None,
        response.outcome() matches Err(Error::GraphQL(_)) <==> response.data is None
            && response.errors is Some,
{
}

impl<Data: Clone> Clone for Response<Data> {
    fn clone(&self) -> (copy: Self)
        ensures
            match self.data {
                Some(data) => copy.data matches Some(other) && cloned::<Data>(data, other),
                None => copy.data is None,
            },
            copy.error_views() == self.error_views(),
    {
        let copy = Response { data: self.data.clone(), errors: self.errors.clone() };
        proof {
            if self.errors is Some {
                assert(copy.error_views()->0 =~= self.error_views()->0);
            }
        }
        copy
    }
}

/// The form in which queries are sent over HTTP in most implementations.
#[derive(Debug)]
pub struct RequestBody {
    /// The values for the variables. They must match those declared in the queries.
    pub variables: serde_json::Value,
    /// The GraphQL query, as a string.
    pub query: &'static str,
    /// The GraphQL operation name, as a string.
    pub operation_name: &'static str,
}

impl Clone for RequestBody {
    fn clone(&self) -> (copy: Self)
        ensures
            copy == *self,
    {
        RequestBody {
            variables: self.variables.clone(),
            query: self.query,
            operation_name: self.operation_name,
        }
    }
}

impl RequestBody {
    /// The JSON object that is sent for the request.
    pub open spec fn text(self) -> Seq<char> {
        "{\"variables\":"@ + json::value_text(self.variables) + ",\"query\":"@ + json::string_literal(
            self.query@,
        ) + ",\"operationName\":"@ + json::string_literal(self.operation_name@) + "}"@
    }

    /// Writes the request as a JSON object.
    pub fn to_json(&self) -> (text: String)
        ensures
            text@ == self.text(),
    {
        let mut text = "{\"variables\":".to_owned();
        text.append(json::write_value(&self.variables).as_str());
        text.append(",\"query\":");
        text.append(json::write_string(self.query).as_str());
        text.append(",\"operationName\":");
        text.append(json::write_string(self.operation_name).as_str());
        text.append("}");
        text
    }
}

/// Whether a character can stand in the value of a header.
pub open spec fn is_header_char(c: char) -> bool {
    c == '\t' || (c >= ' ' && c != '\u{7f}')
}

/// Whether a text can be the value of a header.
pub open spec fn is_header_text(text: Seq<char>) -> bool {
    forall|i: int| 0 <= i < text.len() ==> is_header_char(#[trigger] text[i])
}

/// Whether a text can be the value of a header.
pub fn can_be_header(text: &str) -> (can: bool)
    ensures
        can == is_header_text(text@),
{
    let chars = text::characters(text);
    let mut i: usize = 0;
    while i < chars.len()
        invariant
            i <= chars.len(),
            chars@ == text@,
            forall|k: int| 0 <= k < i ==> is_header_char(#[trigger] text@[k]),
        decreases chars.len() - i,
    {
        let c: char = chars[i];
        if !(c == '\t' || (c >= ' ' && c != '\u{7f}')) {
            assert(!is_header_char(text@[i as int]));
            return false;
        }
        i += 1;
    }
    true
}

/// The value of an `Authorization` header that carries a bearer token.
pub open spec fn bearer_text(token: Seq<char>) -> Seq<char> {
    "Bearer "@ + token
}

/// Writes the value of an `Authorization` header that carries a bearer token.
fn bearer(token: &str) -> (value: String)
    ensures
        value@ == bearer_text(token@),
{
    let mut value = "Bearer ".to_owned();
    value.append(token);
    value
}

/// HTTP(S) GraphQL client: where it posts to and what it adds to each request.
#[derive(Debug)]
pub struct HttpClient {
    /// The endpoint that requests are posted to.
    pub http_endpoint: String,
    /// The value of the `Authorization` header, where one is sent.
    pub authorization: Option<String>,
}

impl HttpClient {
    /// Create a new HTTP client. The token, where there is one, can stand in a
    /// header.
    pub fn new(endpoint: &str, bearer_token: Option<String>) -> (client: Self)
        requires
            bearer_token matches Some(token) ==> is_header_text(token@),
        ensures
            client.http_endpoint@ == endpoint@,
            match bearer_token {
                Some(token) => client.authorization matches Some(value) && value@ == bearer_text(token@),
                None => client.authorization is None,
            },
    {
        let authorization = match bearer_token {
            Some(token) => Some(bearer(token.as_str())),
            None => None,
        };
        HttpClient { http_endpoint: endpoint.to_owned(), authorization }
    }

    /// What an execution comes to, given the decoded response, or the error that
    /// sending the request or decoding its response ended in.
    pub fn execute_inner<T>(received: Result<Response<T>, HttpError>) -> (outcome: Result<T, Error>)
        ensures
            outcome == match received {
                Ok(body) => body.outcome(),
                Err(error) => Err(Error::Http(error)),
            },
    {
        match received {
            Ok(body) => Result::from(body),
            Err(error) => Err(Error::from(error)),
        }
    }
}

/// The header that names the subprotocols that a WebSocket client speaks.
pub const PROTOCOL_HEADER: &'static str = "Sec-WebSocket-Protocol";

/// The header that carries a bearer token.
pub const AUTHORIZATION_HEADER: &'static str = "Authorization";

/// The request that opens a WebSocket connection.
#[derive(Debug, Clone)]
pub struct WsRequest {
    /// The endpoint to connect to.
    pub url: String,
    /// The headers to add, each with its value.
    pub headers: Vec<(&'static str, String)>,
}

/// The names and values that headers hold.
pub open spec fn header_texts(headers: Seq<(&'static str, String)>) -> Seq<(Seq<char>, Seq<char>)> {
    headers.map_values(|header: (&'static str, String)| (header.0@, header.1@))
}

/// The headers of a WebSocket request: a bearer token where there is one, and
/// the subprotocols where there are any.
pub open spec fn ws_headers(bearer_token: Option<Seq<char>>, protocols: Seq<Seq<char>>) -> Seq<
    (Seq<char>, Seq<char>),
> {
    let authorization = match bearer_token {
        Some(token) => seq![(AUTHORIZATION_HEADER@, bearer_text(token))],
        None => Seq::empty(),
    };
    let subprotocols = if protocols.len() > 0 {
        seq![(PROTOCOL_HEADER@, text::joined(protocols, ", "@))]
    } else {
        Seq::empty()
    };
    authorization + subprotocols
}

impl WsRequest {
    /// The request for a client that connects to `endpoint`. The token and the
    /// protocols can stand in a header.
    pub fn new(endpoint: &str, bearer_token: Option<String>, ws_protocols: Vec<String>) -> (request:
        Self)
        requires
            bearer_token matches Some(token) ==> is_header_text(token@),
            forall|i: int|
                0 <= i < ws_protocols.len() ==> is_header_text((#[trigger] ws_protocols@[i])@),
        ensures
            request.url@ == endpoint@,
            header_texts(request.headers@) == ws_headers(
                match bearer_token {
                    Some(token) => Some(token@),
                    None => None,
                },
                text::texts(ws_protocols@),
            ),
    {
        let mut headers: Vec<(&'static str, String)> = Vec::new();
        if let Some(token) = bearer_token {
            headers.push((AUTHORIZATION_HEADER, bearer(token.as_str())));
        }
        if ws_protocols.len() > 0 {
            headers.push((PROTOCOL_HEADER, text::join(&ws_protocols, ", ")));
        }
        WsRequest { url: endpoint.to_owned(), headers }
    }
}

/// A bearer token that can stand in a header makes a value that can.
pub proof fn bearer_text_is_header_text(token: Seq<char>)
    ensures
        is_header_text(bearer_text(token)) <==> is_header_text(token),
{
    reveal_strlit("Bearer ");
    let value = bearer_text(token);
    let prefix = "Bearer "@;
    assert(forall|i: int| 0 <= i < prefix.len() ==> is_header_char(#[trigger] prefix[i]));
    if is_header_text(value) {
        assert forall|i: int| 0 <= i < token.len() implies is_header_char(#[trigger] token[i]) by {
            assert(token[i] == value[prefix.len() + i]);
        }
    }
}

/// Every header of a WebSocket request has a value that can stand in a header,
/// where the token and the protocols can.
pub proof fn ws_headers_are_header_texts(
    bearer_token: Option<Seq<char>>,
    protocols: Seq<Seq<char>>,
    i: int,
)
    requires
        bearer_token matches Some(token) ==> is_header_text(token),
        forall|k: int| 0 <= k < protocols.len() ==> is_header_text(#[trigger] protocols[k]),
        0 <= i < ws_headers(bearer_token, protocols).len(),
    ensures
        is_header_text(ws_headers(bearer_token, protocols)[i].1),
{
    if bearer_token is Some {
        bearer_text_is_header_text(bearer_token->0);
    }
    lemma_joined_header_text(protocols);
}

/// Protocols that can stand in a header can do so with a comma between
/// neighbours.
proof fn lemma_joined_header_text(protocols: Seq<Seq<char>>)
    requires
        forall|k: int| 0 <= k < protocols.len() ==> is_header_text(#[trigger] protocols[k]),
    ensures
        is_header_text(text::joined(protocols, ", "@)),
    decreases protocols.len(),
{
    reveal_strlit(", ");
    if protocols.len() > 1 {
        let before = protocols.drop_last();
        assert forall|k: int| 0 <= k < before.len() implies is_header_text(#[trigger] before[k]) by {
            assert(before[k] == protocols[k]);
        }
        lemma_joined_header_text(before);
        assert(is_header_text(protocols[protocols.len() - 1]));
    } else if protocols.len() == 1 {
        assert(is_header_text(protocols[0]));
    }
}

/// What a typed subscription yields for one message: the message decoded, given
/// what decoding it came to, or the error that the message is.
pub fn subscription_item<T>(message: Result<Result<T, JsonError>, Error>) -> (item: Result<
    T,
    Error,
>)
    ensures
        item == match message {
            Ok(Ok(value)) => Ok(value),
            Ok(Err(error)) => Err(Error::Json(error)),
            Err(error) => Err(error),
        },
{
    match message {
        Ok(Ok(value)) => Ok(value),
        Ok(Err(error)) => Err(Error::Json(error)),
        Err(error) => Err(error),
    }
}

} // verus!
