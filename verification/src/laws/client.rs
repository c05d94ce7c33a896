//! Laws on responses, errors, request bodies and headers.

use reqwest::Error as HttpError;
use serde_json::Error as JsonError;
use tungstenite::Error as WebSocketError;
use vstd::prelude::*;

use crate::client::{
    can_be_header, subscription_item, Error, GraphQLError, HttpClient, Location, PathFragment,
    RequestBody, Response, WsRequest,
};
use crate::json;
use crate::text::{join, trim_end, write_signed_decimal};

verus! {

/// The default location is line zero, column zero.
pub proof fn default_location_is_zero(location: Location)
    requires
        call_ensures(<Location as Default>::default, (), location),
    ensures
        location.line == 0,
        location.column == 0,
{
}

/// A key is shown as it is.
pub proof fn key_is_shown_as_it_is(key: String, text: String)
    requires
        call_ensures(PathFragment::to_string, (&PathFragment::Key(key),), text),
    ensures
        text@ == key@,
{
}

/// An index is shown as the number that it is.
pub proof fn index_is_shown_as_its_number(index: i32, text: String, number: String)
    requires
        call_ensures(PathFragment::to_string, (&PathFragment::Index(index),), text),
        call_ensures(write_signed_decimal, (index,), number),
    ensures
        text@ == number@,
{
}

/// The copy of a fragment is the fragment.
pub proof fn fragment_is_copied_whole(fragment: PathFragment, copy: PathFragment)
    requires
        call_ensures(<PathFragment as Clone>::clone, (&fragment,), copy),
    ensures
        copy == fragment,
{
}

/// The copy of an error holds what the error holds.
pub proof fn error_is_copied_whole(error: GraphQLError, copy: GraphQLError)
    requires
        call_ensures(<GraphQLError as Clone>::clone, (&error,), copy),
    ensures
        same_error(copy, error),
{
    assert(copy@.locations == error@.locations);
    assert(copy@.path == error@.path);
    assert(copy@.extensions == error@.extensions);
}

/// Whether two errors hold the same.
pub open spec fn same_error(a: GraphQLError, b: GraphQLError) -> bool {
    &&& a.message@ == b.message@
    &&& match (a.locations, b.locations) {
        (Some(x), Some(y)) => x@ == y@,
        (None, None) => true,
        _ => false,
    }
    &&& match (a.path, b.path) {
        (Some(x), Some(y)) => x@ == y@,
        (None, None) => true,
        _ => false,
    }
    &&& match (a.extensions, b.extensions) {
        (Some(x), Some(y)) => x@ == y@,
        (None, None) => true,
        _ => false,
    }
}

/// Whether two rows of errors hold the same.
pub open spec fn same_errors(a: Option<Vec<GraphQLError>>, b: Option<Vec<GraphQLError>>) -> bool {
    match (a, b) {
        (Some(x), Some(y)) => x@.len() == y@.len() && forall|i: int|
            0 <= i < x@.len() ==> same_error(#[trigger] x@[i], y@[i]),
        (None, None) => true,
        _ => false,
    }
}

/// Errors with equal views hold the same.
pub proof fn lemma_same_errors(a: Response<serde_json::Value>, b: Response<serde_json::Value>)
    requires
        a.error_views() == b.error_views(),
    ensures
        same_errors(a.errors, b.errors),
{
    lemma_same_error_rows(a.errors, b.errors);
}

/// Rows of errors with equal views hold the same.
proof fn lemma_same_error_rows(a: Option<Vec<GraphQLError>>, b: Option<Vec<GraphQLError>>)
    requires
        match (a, b) {
            (Some(x), Some(y)) => x@.map_values(|error: GraphQLError| error@) == y@.map_values(
                |error: GraphQLError| error@,
            ),
            (None, None) => true,
            _ => false,
        },
    ensures
        same_errors(a, b),
{
    if a is Some {
        let x = a->0@;
        let y = b->0@;
        let xs = x.map_values(|error: GraphQLError| error@);
        let ys = y.map_values(|error: GraphQLError| error@);
        assert(xs.len() == ys.len());
        assert forall|i: int| 0 <= i < x.len() implies same_error(#[trigger] x[i], y[i]) by {
            assert(xs[i] == x[i]@ && ys[i] == y[i]@);
            assert(x[i]@.locations == y[i]@.locations);
            assert(x[i]@.path == y[i]@.path);
            assert(x[i]@.extensions == y[i]@.extensions);
        }
    }
}

/// The location that stands for an error: its first one, else line zero, column
/// zero.
pub open spec fn stands_at(error: GraphQLError, line: i32, column: i32) -> bool {
    if error.locations is Some && error.locations->0@.len() > 0 {
        error.locations->0@[0] == Location { line, column }
    } else {
        line == 0 && column == 0
    }
}

/// An error is shown as where it is in the response, its line, its column and
/// its message; where it is in the response is as [`path_is_shown_by_fragments`]
/// and [`error_without_a_path_is_in_the_query`] say.
pub proof fn error_is_shown_with_its_place(
    error: GraphQLError,
    text: String,
    line: i32,
    column: i32,
    line_text: String,
    column_text: String,
)
    requires
        call_ensures(GraphQLError::to_string, (&error,), text),
        stands_at(error, line, column),
        call_ensures(write_signed_decimal, (line,), line_text),
        call_ensures(write_signed_decimal, (column,), column_text),
    ensures
        text@.len() >= (":"@ + line_text@ + ":"@ + column_text@ + ": "@ + error.message@).len(),
        text@.skip(
            text@.len() - (":"@ + line_text@ + ":"@ + column_text@ + ": "@ + error.message@).len(),
        ) == ":"@ + line_text@ + ":"@ + column_text@ + ": "@ + error.message@,
{
    let tail = ":"@ + line_text@ + ":"@ + column_text@ + ": "@ + error.message@;
    assert(text@ =~= error@.path_text() + tail);
}

/// An error without a path is shown to be in the query.
pub proof fn error_without_a_path_is_in_the_query(
    error: GraphQLError,
    text: String,
    line: i32,
    column: i32,
    line_text: String,
    column_text: String,
)
    requires
        call_ensures(GraphQLError::to_string, (&error,), text),
        error.path is None,
        stands_at(error, line, column),
        call_ensures(write_signed_decimal, (line,), line_text),
        call_ensures(write_signed_decimal, (column,), column_text),
    ensures
        text@ == "<query>"@ + ":"@ + line_text@ + ":"@ + column_text@ + ": "@ + error.message@,
{
}

/// The path of an error is shown as its fragments are, with slashes between
/// neighbours and none at the end.
pub proof fn path_is_shown_by_fragments(
    error: GraphQLError,
    text: String,
    fragments: Vec<String>,
    joined: String,
    joined_text: &str,
    path: String,
    line: i32,
    column: i32,
    line_text: String,
    column_text: String,
)
    requires
        call_ensures(GraphQLError::to_string, (&error,), text),
        error.path matches Some(all) && all@.len() == fragments@.len() && forall|i: int|
            0 <= i < all@.len() ==> call_ensures(
                PathFragment::to_string,
                (&#[trigger] all@[i],),
                fragments@[i],
            ),
        call_ensures(join, (&fragments, "/"), joined),
        joined_text@ == joined@,
        call_ensures(trim_end, (joined_text, '/'), path),
        stands_at(error, line, column),
        call_ensures(write_signed_decimal, (line,), line_text),
        call_ensures(write_signed_decimal, (column,), column_text),
    ensures
        text@ == path@ + ":"@ + line_text@ + ":"@ + column_text@ + ": "@ + error.message@,
{
    let all = error.path->0@;
    reveal_strlit("/");
    assert("/"@ == seq!['/']);
    let shown = all.map_values(|fragment: PathFragment| fragment.text());
    assert(crate::text::texts(fragments@) == shown) by {
        assert forall|i: int| 0 <= i < all.len() implies #[trigger] shown[i]
            == crate::text::texts(fragments@)[i] by {
            assert(call_ensures(PathFragment::to_string, (&all[i],), fragments@[i]));
        }
    }
    if all.len() > 0 {
        crate::client::lemma_slash_terminated(all);
        let whole = crate::client::slash_terminated(all);
        assert(whole.drop_last() == crate::text::joined(shown, seq!['/']));
        assert(crate::text::trimmed_end(whole, '/') == crate::text::trimmed_end(
            whole.drop_last(),
            '/',
        ));
    } else {
        assert(crate::client::slash_terminated(all) == Seq::<char>::empty());
    }
}

/// How an error is shown depends on its kind alone.
pub proof fn errors_are_shown_by_kind(error: Error, text: String)
    requires
        call_ensures(Error::to_string, (&error,), text),
    ensures
        error is GraphQL ==> text@ == "The response contains errors."@,
        error is Http ==> text@ == "An HTTP error occurred."@,
        error is Json ==> text@ == "An error parsing JSON response occurred."@,
        error is Server ==> text@ == "The server replied with an error payload."@,
        error is WebSocket ==> text@ == "A WebSocket error occurred."@,
        error is Empty ==> text@ == "The response body is empty."@,
{
}

/// An error of an outside part is kept whole, as an error of its kind.
pub proof fn outside_errors_are_kept(
    http: HttpError,
    json_error: JsonError,
    socket: WebSocketError,
    from_http: Error,
    from_json: Error,
    from_socket: Error,
)
    requires
        call_ensures(<Error as From<HttpError>>::from, (http,), from_http),
        call_ensures(<Error as From<JsonError>>::from, (json_error,), from_json),
        call_ensures(<Error as From<WebSocketError>>::from, (socket,), from_socket),
    ensures
        from_http == Error::Http(http),
        from_json == Error::Json(json_error),
        from_socket == Error::WebSocket(socket),
{
}

/// Data is what a response means, whatever errors come with it.
pub proof fn data_is_what_a_response_means<Data>(
    data: Data,
    errors: Option<Vec<GraphQLError>>,
    outcome: Result<Data, Error>,
)
    requires
        call_ensures(
            <Result<Data, Error> as From<Response<Data>>>::from,
            (Response { data: Some(data), errors },),
            outcome,
        ),
    ensures
        outcome == Ok::<Data, Error>(data),
{
}

/// Without data a response means its errors, all of them.
pub proof fn errors_are_what_a_response_without_data_means<Data>(
    errors: Vec<GraphQLError>,
    outcome: Result<Data, Error>,
)
    requires
        call_ensures(
            <Result<Data, Error> as From<Response<Data>>>::from,
            (Response { data: None, errors: Some(errors) },),
            outcome,
        ),
    ensures
        outcome == Err::<Data, Error>(Error::GraphQL(errors)),
{
}

/// A response without data and errors is empty.
pub proof fn response_without_anything_is_empty<Data>(outcome: Result<Data, Error>)
    requires
        call_ensures(
            <Result<Data, Error> as From<Response<Data>>>::from,
            (Response { data: None, errors: None },),
            outcome,
        ),
    ensures
        outcome == Err::<Data, Error>(Error::Empty),
{
}

/// The copy of a response has data and errors where the response has them, and
/// its errors hold what those of the response hold.
pub proof fn response_is_copied_whole<Data: Clone>(
    response: Response<Data>,
    copy: Response<Data>,
)
    requires
        call_ensures(<Response<Data> as Clone>::clone, (&response,), copy),
    ensures
        match response.data {
            Some(data) => copy.data matches Some(copied) && cloned::<Data>(data, copied),
            None => copy.data is None,
        },
        same_errors(copy.errors, response.errors),
{
    assert(copy.error_views() == response.error_views());
    lemma_same_error_rows(copy.errors, response.errors);
}

/// An execution over HTTP comes to what its response means, or to the HTTP error
/// that came in its place.
pub proof fn execution_comes_to_its_response<T>(
    received: Result<Response<T>, HttpError>,
    outcome: Result<T, Error>,
)
    requires
        call_ensures(HttpClient::execute_inner::<T>, (received,), outcome),
    ensures
        match received {
            Ok(Response { data: Some(data), errors: _ }) => outcome == Ok::<T, Error>(data),
            Ok(Response { data: None, errors: Some(errors) }) => outcome == Err::<T, Error>(
                Error::GraphQL(errors),
            ),
            Ok(Response { data: None, errors: None }) => outcome == Err::<T, Error>(Error::Empty),
            Err(error) => outcome == Err::<T, Error>(Error::Http(error)),
        },
{
}

/// A subscription yields a decoded value, or the error of decoding it, or the
/// error that came in its place.
pub proof fn subscription_yields_values_or_errors<T>(
    value: T,
    json_error: JsonError,
    error: Error,
    from_value: Result<T, Error>,
    from_json_error: Result<T, Error>,
    from_error: Result<T, Error>,
)
    requires
        call_ensures(subscription_item::<T>, (Ok(Ok(value)),), from_value),
        call_ensures(subscription_item::<T>, (Ok(Err(json_error)),), from_json_error),
        call_ensures(subscription_item::<T>, (Err(error),), from_error),
    ensures
        from_value == Ok::<T, Error>(value),
        from_json_error == Err::<T, Error>(Error::Json(json_error)),
        from_error == Err::<T, Error>(error),
{
}

/// The copy of a request is the request.
pub proof fn request_is_copied_whole(body: RequestBody, copy: RequestBody)
    requires
        call_ensures(<RequestBody as Clone>::clone, (&body,), copy),
    ensures
        copy == body,
{
}

/// A request is an object of three members: its variables, its query and its
/// operation name.
pub proof fn request_is_sent_as_an_object(body: RequestBody, text: String)
    requires
        call_ensures(RequestBody::to_json, (&body,), text),
    ensures
        text@ == "{\"variables\":"@ + json::value_text(body.variables) + ",\"query\":"@
            + json::string_literal(body.query@) + ",\"operationName\":"@ + json::string_literal(
            body.operation_name@,
        ) + "}"@,
{
}

/// Requests that differ in their variables alone are sent differently, whatever
/// the query is: where they are sent alike, the texts of the variables are equal.
pub proof fn variables_are_not_lost(
    a: RequestBody,
    b: RequestBody,
    a_text: String,
    b_text: String,
)
    requires
        call_ensures(RequestBody::to_json, (&a,), a_text),
        call_ensures(RequestBody::to_json, (&b,), b_text),
        a.query@ == b.query@,
        a.operation_name@ == b.operation_name@,
        a_text@ == b_text@,
    ensures
        json::value_text(a.variables) == json::value_text(b.variables),
{
    request_is_sent_as_an_object(a, a_text);
    request_is_sent_as_an_object(b, b_text);
    let head = "{\"variables\":"@;
    let tail = ",\"query\":"@ + json::string_literal(a.query@) + ",\"operationName\":"@
        + json::string_literal(a.operation_name@) + "}"@;
    lemma_middle(head, json::value_text(a.variables), json::value_text(b.variables), tail, a_text@);
}

/// Requests that differ in their queries alone are sent differently.
pub proof fn query_is_not_lost(a: RequestBody, b: RequestBody, a_text: String, b_text: String)
    requires
        call_ensures(RequestBody::to_json, (&a,), a_text),
        call_ensures(RequestBody::to_json, (&b,), b_text),
        json::value_text(a.variables) == json::value_text(b.variables),
        a.operation_name@ == b.operation_name@,
        a_text@ == b_text@,
    ensures
        a.query@ == b.query@,
{
    request_is_sent_as_an_object(a, a_text);
    request_is_sent_as_an_object(b, b_text);
    let head = "{\"variables\":"@ + json::value_text(a.variables) + ",\"query\":"@;
    let tail = ",\"operationName\":"@ + json::string_literal(a.operation_name@) + "}"@;
    lemma_middle(
        head,
        json::string_literal(a.query@),
        json::string_literal(b.query@),
        tail,
        a_text@,
    );
    json::string_literal_is_injective(a.query@, b.query@);
}

/// Requests that differ in their operation names alone are sent differently.
pub proof fn operation_name_is_not_lost(
    a: RequestBody,
    b: RequestBody,
    a_text: String,
    b_text: String,
)
    requires
        call_ensures(RequestBody::to_json, (&a,), a_text),
        call_ensures(RequestBody::to_json, (&b,), b_text),
        json::value_text(a.variables) == json::value_text(b.variables),
        a.query@ == b.query@,
        a_text@ == b_text@,
    ensures
        a.operation_name@ == b.operation_name@,
{
    request_is_sent_as_an_object(a, a_text);
    request_is_sent_as_an_object(b, b_text);
    let head = "{\"variables\":"@ + json::value_text(a.variables) + ",\"query\":"@
        + json::string_literal(a.query@) + ",\"operationName\":"@;
    lemma_middle(
        head,
        json::string_literal(a.operation_name@),
        json::string_literal(b.operation_name@),
        "}"@,
        a_text@,
    );
    json::string_literal_is_injective(a.operation_name@, b.operation_name@);
}

/// Texts that make the same text between the same ends are the same.
pub proof fn lemma_middle(
    head: Seq<char>,
    a: Seq<char>,
    b: Seq<char>,
    tail: Seq<char>,
    whole: Seq<char>,
)
    requires
        whole =~= head + a + tail,
        whole =~= head + b + tail,
    ensures
        a == b,
{
    assert(whole.len() == (head + a + tail).len());
    assert(whole.len() == (head + b + tail).len());
    assert(a.len() == b.len());
    assert(a == whole.subrange(head.len() as int, (head.len() + a.len()) as int));
    assert(b == whole.subrange(head.len() as int, (head.len() + b.len()) as int));
}

/// A text can be the value of a header unless it has a control character other
/// than a tab.
pub proof fn header_has_no_control_characters(text: &str, can: bool)
    requires
        call_ensures(can_be_header, (text,), can),
    ensures
        !can <==> exists|i: int|
            0 <= i < text@.len() && #[trigger] text@[i] != '\t' && (text@[i] <= '\u{1f}' || text@[i]
                == '\u{7f}'),
{
    if can {
        assert forall|i: int| 0 <= i < text@.len() implies !(#[trigger] text@[i] != '\t' && (
        text@[i] <= '\u{1f}' || text@[i] == '\u{7f}')) by {
            assert(crate::client::is_header_char(text@[i]));
        }
    } else {
        let i = choose|i: int|
            0 <= i < text@.len() && !crate::client::is_header_char(#[trigger] text@[i]);
        assert(text@[i] != '\t' && (text@[i] <= '\u{1f}' || text@[i] == '\u{7f}'));
    }
}

/// A client over HTTP posts to its endpoint, and authorizes itself exactly where
/// it has a token, with that token.
pub proof fn http_client_carries_its_token(
    endpoint: &str,
    bearer_token: Option<String>,
    client: HttpClient,
)
    requires
        call_ensures(HttpClient::new, (endpoint, bearer_token), client),
    ensures
        client.http_endpoint@ == endpoint@,
        match bearer_token {
            Some(token) => client.authorization matches Some(value) && value@ == "Bearer "@ + token@,
            None => client.authorization is None,
        },
{
}

/// Whether a request has a header of this name and value at `i`.
pub open spec fn has_header(request: WsRequest, i: int, name: Seq<char>, value: Seq<char>) -> bool {
    0 <= i < request.headers@.len() && request.headers@[i].0@ == name && request.headers@[i].1@
        == value
}

/// A WebSocket request goes to its endpoint and has no other headers than one for
/// its token and one for its protocols, each exactly where there are any.
pub proof fn ws_request_has_a_header_for_what_is_there(
    endpoint: &str,
    bearer_token: Option<String>,
    ws_protocols: Vec<String>,
    request: WsRequest,
    protocols: String,
)
    requires
        call_ensures(WsRequest::new, (endpoint, bearer_token, ws_protocols), request),
        call_ensures(join, (&ws_protocols, ", "), protocols),
    ensures
        request.url@ == endpoint@,
        bearer_token matches Some(token) ==> has_header(
            request,
            0,
            "Authorization"@,
            "Bearer "@ + token@,
        ),
        ws_protocols@.len() > 0 ==> has_header(
            request,
            request.headers@.len() - 1,
            "Sec-WebSocket-Protocol"@,
            protocols@,
        ),
        request.headers@.len() == (if bearer_token is Some {
            1int
        } else {
            0
        }) + (if ws_protocols@.len() > 0 {
            1int
        } else {
            0
        }),
{
    let headers = crate::client::header_texts(request.headers@);
    assert(headers.len() == request.headers@.len());
    if headers.len() > 0 {
        assert(headers[0] == (request.headers@[0].0@, request.headers@[0].1@));
        let last = request.headers@.len() - 1;
        assert(headers[last] == (request.headers@[last].0@, request.headers@[last].1@));
    }
}

/// A token adds its header in front of those of the request without it, and
/// changes none of them.
pub proof fn token_changes_no_other_header(
    endpoint: &str,
    token: String,
    ws_protocols: Vec<String>,
    with: WsRequest,
    without: WsRequest,
)
    requires
        call_ensures(WsRequest::new, (endpoint, Some(token), ws_protocols), with),
        call_ensures(WsRequest::new, (endpoint, None, ws_protocols), without),
    ensures
        with.url@ == without.url@,
        with.headers@.len() == without.headers@.len() + 1,
        has_header(with, 0, "Authorization"@, "Bearer "@ + token@),
        forall|i: int|
            0 <= i < without.headers@.len() ==> has_header(
                with,
                i + 1,
                (#[trigger] without.headers@[i]).0@,
                without.headers@[i].1@,
            ) && without.headers@[i].0@ != "Authorization"@,
{
    reveal_strlit("Authorization");
    reveal_strlit("Sec-WebSocket-Protocol");
    assert("Authorization"@.len() != "Sec-WebSocket-Protocol"@.len());
    let a = crate::client::header_texts(with.headers@);
    let b = crate::client::header_texts(without.headers@);
    assert(a.len() == with.headers@.len() && b.len() == without.headers@.len());
    assert(a[0] == (with.headers@[0].0@, with.headers@[0].1@));
    assert forall|i: int| 0 <= i < without.headers@.len() implies has_header(
        with,
        i + 1,
        (#[trigger] without.headers@[i]).0@,
        without.headers@[i].1@,
    ) && without.headers@[i].0@ != "Authorization"@ by {
        assert(b[i] == (without.headers@[i].0@, without.headers@[i].1@));
        assert(a[i + 1] == (with.headers@[i + 1].0@, with.headers@[i + 1].1@));
    }
}

/// With a token there is an authorization header in front, without one there is
/// none, and the token changes no other header.
pub proof fn ws_headers_carry_the_token(token: Seq<char>, protocols: Seq<Seq<char>>)
    ensures
        crate::client::ws_headers(Some(token), protocols) == seq![
            ("Authorization"@, "Bearer "@ + token),
        ] + crate::client::ws_headers(None, protocols),
        forall|i: int|
            0 <= i < crate::client::ws_headers(None, protocols).len() ==> (
            #[trigger] crate::client::ws_headers(None, protocols)[i]).0 != "Authorization"@,
{
    reveal_strlit("Authorization");
    reveal_strlit("Sec-WebSocket-Protocol");
    assert("Authorization"@.len() != "Sec-WebSocket-Protocol"@.len());
}

} // verus!
