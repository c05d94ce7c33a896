//! Schemas and query documents: which format a schema is in, and reading them.

use graphql_introspection_query::introspection_response::IntrospectionResponse;
use serde_json::Error as JsonError;
use vstd::prelude::*;

use crate::codegen::block_string::cuts_cleanly;
use crate::text;

verus! {

/// A schema document of `graphql_parser`, carried through as it is.
#[verifier::external_type_specification]
#[verifier::external_body]
pub struct ExSchemaDocument(graphql_parser::schema::Document);

/// A query document of `graphql_parser`, carried through as it is.
#[verifier::external_type_specification]
#[verifier::external_body]
pub struct ExQueryDocument(graphql_parser::query::Document);

/// A schema that a server has described, carried through as it is.
#[verifier::external_type_specification]
#[verifier::external_body]
pub struct ExIntrospectionResponse(IntrospectionResponse);

/// What `graphql_parser` makes of a schema: a document, or the text of an error.
pub uninterp spec fn parsed_schema(text: Seq<char>) -> Result<
    graphql_parser::schema::Document,
    Seq<char>,
>;

/// What `graphql_parser` makes of a query document: a document, or the text of
/// an error.
pub uninterp spec fn parsed_query(text: Seq<char>) -> Result<
    graphql_parser::query::Document,
    Seq<char>,
>;

/// What `serde_json` makes of the description of a schema.
pub uninterp spec fn parsed_introspection(text: Seq<char>) -> Result<
    IntrospectionResponse,
    JsonError,
>;

/// `graphql_parser::schema::parse_schema`: the document, or what the error
/// displays, named [`parsed_schema`]. It takes the indentation off a block string
/// by bytes, and panics where that cuts a character, hence the condition. How
/// deep a text may nest is bounded by the stack. For each float that it reads it
/// also prints a line.
#[verifier::external_body]
fn parse_schema(text: &str) -> (parsed: Result<graphql_parser::schema::Document, String>)
    requires
        cuts_cleanly(text@),
    ensures
        match parsed {
            Ok(document) => parsed_schema(text@) == Ok::<
                graphql_parser::schema::Document,
                Seq<char>,
            >(document),
            Err(error) => parsed_schema(text@) == Err::<
                graphql_parser::schema::Document,
                Seq<char>,
            >(error@),
        },
{
    match graphql_parser::schema::parse_schema(text) {
        Ok(document) => Ok(document),
        Err(error) => Err(error.to_string()),
    }
}

/// `graphql_parser::query::parse_query`: the document, or what the error
/// displays, named [`parsed_query`]. It takes the indentation off a block string
/// by bytes, and panics where that cuts a character, hence the condition. How
/// deep a text may nest is bounded by the stack. For each float that it reads it
/// also prints a line.
#[verifier::external_body]
fn parse_query(text: &str) -> (parsed: Result<graphql_parser::query::Document, String>)
    requires
        cuts_cleanly(text@),
    ensures
        match parsed {
            Ok(document) => parsed_query(text@) == Ok::<graphql_parser::query::Document, Seq<char>>(
                document,
            ),
            Err(error) => parsed_query(text@) == Err::<graphql_parser::query::Document, Seq<char>>(
                error@,
            ),
        },
{
    match graphql_parser::query::parse_query(text) {
        Ok(document) => Ok(document),
        Err(error) => Err(error.to_string()),
    }
}

/// `serde_json::from_str` into an `IntrospectionResponse`: its result, named
/// [`parsed_introspection`].
#[verifier::external_body]
fn parse_introspection(text: &str) -> (parsed: Result<IntrospectionResponse, JsonError>)
    ensures
        parsed == parsed_introspection(text@),
{
    serde_json::from_str(text)
}

/// What went wrong, in words.
#[derive(Debug)]
pub struct GeneralError(pub String);

impl GeneralError {
    /// Shows the error.
    pub fn to_string(&self) -> (text: String)
        ensures
            text@ == self.0@,
    {
        self.0.clone()
    }
}

/// Why there is no schema.
#[derive(Debug)]
pub enum SchemaError {
    /// The schema cannot be read, or not in its format.
    General(GeneralError),
    /// The schema is not the description of one.
    Json(JsonError),
}

/// How a schema is written down.
#[derive(Debug, Clone, Copy, PartialEq, Eq, Structural)]
pub enum SchemaFormat {
    /// In the schema language of GraphQL.
    Graphql,
    /// As the JSON that a server describes its schema with.
    Json,
}

/// A schema that has been read.
pub enum SchemaSource {
    /// From the schema language of GraphQL.
    Document(graphql_parser::schema::Document),
    /// From the description that a server gives.
    Introspection(IntrospectionResponse),
}

/// The extension of a schema file; a file without one has an invalid one.
pub open spec fn shown_extension(extension: Option<Seq<char>>) -> Seq<char> {
    match extension {
        Some(extension) => extension,
        None => "INVALID"@,
    }
}

/// The format that the extension of a schema file stands for.
pub open spec fn format_of(extension: Option<Seq<char>>) -> Option<SchemaFormat> {
    let extension = shown_extension(extension);
    if extension == "graphql"@ || extension == "gql"@ {
        Some(SchemaFormat::Graphql)
    } else if extension == "json"@ {
        Some(SchemaFormat::Json)
    } else {
        None
    }
}

/// What is said of the extension of a schema file that stands for no format.
pub open spec fn unsupported_extension(extension: Seq<char>) -> Seq<char> {
    "Unsupported extension for the GraphQL schema: "@ + extension
        + " (only .json and .graphql are supported)"@
}

/// The format that the extension of a schema file stands for, or what is wrong
/// with the extension.
pub fn schema_format(extension: Option<&str>) -> (format: Result<SchemaFormat, GeneralError>)
    ensures
        match format {
            Ok(format) => format_of(option_text(extension)) == Some(format),
            Err(error) => format_of(option_text(extension)) is None && error.0@
                == unsupported_extension(shown_extension(option_text(extension))),
        },
{
    let extension = match extension {
        Some(extension) => extension.to_owned(),
        None => "INVALID".to_owned(),
    };
    if extension == "graphql".to_owned() || extension == "gql".to_owned() {
        Ok(SchemaFormat::Graphql)
    } else if extension == "json".to_owned() {
        Ok(SchemaFormat::Json)
    } else {
        let mut message = "Unsupported extension for the GraphQL schema: ".to_owned();
        message.append(extension.as_str());
        message.append(" (only .json and .graphql are supported)");
        Err(GeneralError(message))
    }
}

/// What a text that may be missing holds.
pub open spec fn option_text(text: Option<&str>) -> Option<Seq<char>> {
    match text {
        Some(text) => Some(text@),
        None => None,
    }
}

/// The schema that a schema document stands for, or what is wrong with it, given
/// what parsing it came to.
pub fn document_schema(
    parsed: Result<graphql_parser::schema::Document, String>,
) -> (schema: Result<SchemaSource, SchemaError>)
    ensures
        match parsed {
            Ok(document) => schema == Ok::<SchemaSource, SchemaError>(
                SchemaSource::Document(document),
            ),
            Err(error) => schema matches Err(SchemaError::General(shown)) && shown.0@
                == "Parser error: "@ + error@,
        },
{
    match parsed {
        Ok(document) => Ok(SchemaSource::Document(document)),
        Err(error) => {
            let mut message = "Parser error: ".to_owned();
            message.append(error.as_str());
            Err(SchemaError::General(GeneralError(message)))
        },
    }
}

/// The schema that a description stands for, or what is wrong with it, given
/// what reading it came to.
pub fn introspection_schema(
    parsed: Result<IntrospectionResponse, JsonError>,
) -> (schema: Result<SchemaSource, SchemaError>)
    ensures
        schema == match parsed {
            Ok(response) => Ok(SchemaSource::Introspection(response)),
            Err(error) => Err(SchemaError::Json(error)),
        },
{
    match parsed {
        Ok(response) => Ok(SchemaSource::Introspection(response)),
        Err(error) => Err(SchemaError::Json(error)),
    }
}

/// Reads a schema, given the extension of its file and what the file holds.
pub fn load_schema(extension: Option<&str>, text: &str) -> (schema: Result<
    SchemaSource,
    SchemaError,
>)
    requires
        format_of(option_text(extension)) == Some(SchemaFormat::Graphql) ==> cuts_cleanly(text@),
    ensures
        match format_of(option_text(extension)) {
            Some(SchemaFormat::Graphql) => match parsed_schema(text@) {
                Ok(document) => schema == Ok::<SchemaSource, SchemaError>(
                    SchemaSource::Document(document),
                ),
                Err(error) => schema matches Err(SchemaError::General(shown)) && shown.0@
                    == "Parser error: "@ + error,
            },
            Some(SchemaFormat::Json) => schema == match parsed_introspection(text@) {
                Ok(response) => Ok(SchemaSource::Introspection(response)),
                Err(error) => Err(SchemaError::Json(error)),
            },
            None => schema matches Err(SchemaError::General(shown)) && shown.0@
                == unsupported_extension(shown_extension(option_text(extension))),
        },
{
    match schema_format(extension) {
        Ok(SchemaFormat::Graphql) => document_schema(parse_schema(text)),
        Ok(SchemaFormat::Json) => introspection_schema(parse_introspection(text)),
        Err(error) => Err(SchemaError::General(error)),
    }
}

/// What stands between the texts of two query files.
pub const QUERY_SEPARATOR: &'static str = "\n\n";

/// The texts of the query files as one text.
pub fn join_queries(files: &Vec<String>) -> (query: String)
    ensures
        query@ == text::joined(text::texts(files@), QUERY_SEPARATOR@),
{
    text::join(files, QUERY_SEPARATOR)
}

/// The query document, or what is wrong with it, given what parsing it came to.
pub fn query_document(
    parsed: Result<graphql_parser::query::Document, String>,
) -> (query: Result<graphql_parser::query::Document, GeneralError>)
    ensures
        match parsed {
            Ok(document) => query == Ok::<graphql_parser::query::Document, GeneralError>(document),
            Err(error) => query matches Err(shown) && shown.0@ == "Query parser error: "@ + error@,
        },
{
    match parsed {
        Ok(document) => Ok(document),
        Err(error) => {
            let mut message = "Query parser error: ".to_owned();
            message.append(error.as_str());
            Err(GeneralError(message))
        },
    }
}

/// Reads the query document that the texts of the query files make together.
pub fn load_query(files: &Vec<String>) -> (query: Result<
    graphql_parser::query::Document,
    GeneralError,
>)
    requires
        cuts_cleanly(text::joined(text::texts(files@), QUERY_SEPARATOR@)),
    ensures
        match parsed_query(text::joined(text::texts(files@), QUERY_SEPARATOR@)) {
            Ok(document) => query == Ok::<graphql_parser::query::Document, GeneralError>(document),
            Err(error) => query matches Err(shown) && shown.0@ == "Query parser error: "@ + error,
        },
{
    let text = join_queries(files);
    query_document(parse_query(text.as_str()))
}

/// Query files make the same document as one file that holds their texts one
/// after the other, with an empty line between neighbours.
pub proof fn one_file_stands_for_many(files: Seq<Seq<char>>)
    ensures
        text::joined(seq![text::joined(files, QUERY_SEPARATOR@)], QUERY_SEPARATOR@) == text::joined(
            files,
            QUERY_SEPARATOR@,
        ),
{
}

} // verus!
