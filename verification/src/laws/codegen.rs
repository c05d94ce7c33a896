//! Laws on the code generator.

use graphql_introspection_query::introspection_response::IntrospectionResponse;
use serde_json::Error as JsonError;
use vstd::prelude::*;

use crate::codegen::case;
use crate::codegen::document::{
    document_schema, introspection_schema, join_queries, load_query, load_schema,
    parsed_introspection, parsed_query, parsed_schema, query_document, schema_format, GeneralError,
    SchemaError, SchemaFormat, SchemaSource,
};
use crate::codegen::generated_module::{
    generate_modules, piece_views, GeneratedModule, ModuleNames, OperationNotFound, Piece, PieceView,
    EXECUTE_BODY, EXECUTE_HEAD, EXECUTE_RESULT, FILE_HEAD, FILE_TAIL, MAP_BODY, MODULE_HEAD,
    QUERY_HEAD, QUERY_TAIL, SUBSCRIBE_BODY, SUBSCRIBE_HEAD, SUBSCRIBE_RESULT,
};
use crate::codegen::operations::{
    select_operations, OperationId, OperationType, ResolvedOperation,
};
use crate::codegen::type_qualifiers::{graphql_parser_depth, GraphqlTypeQualifier, Type};
use crate::text::join;

verus! {

/// Only what is required is required.
pub proof fn required_is_required(qualifier: GraphqlTypeQualifier, required: bool)
    requires
        call_ensures(GraphqlTypeQualifier::is_required, (&qualifier,), required),
    ensures
        qualifier is Required ==> required,
        qualifier is List ==> !required,
{
}

/// A name has no depth, and a list or a requirement around a type is one deeper
/// than the type.
pub proof fn qualifiers_add_depth(
    name: String,
    inner: Type,
    name_depth: usize,
    depth: usize,
    list_depth: usize,
    required_depth: usize,
)
    requires
        call_ensures(graphql_parser_depth, (&Type::NamedType(name),), name_depth),
        call_ensures(graphql_parser_depth, (&inner,), depth),
        call_ensures(graphql_parser_depth, (&Type::ListType(Box::new(inner)),), list_depth),
        call_ensures(graphql_parser_depth, (&Type::NonNullType(Box::new(inner)),), required_depth),
    ensures
        name_depth == 0,
        list_depth == depth + 1,
        required_depth == depth + 1,
{
}

/// The segment of an operation is its name in camel case.
pub proof fn segment_is_the_name_in_camel_case(op: ResolvedOperation, segment: String)
    requires
        call_ensures(ResolvedOperation::to_path_segment, (&op,), segment),
    ensures
        segment@ == case::camel_case(op.name@),
{
}

/// Where an operation is selected, code is generated for it alone, and else for
/// all of them, in order.
pub proof fn selected_operation_stands_alone<T>(
    operation: T,
    all: Vec<T>,
    alone: Vec<T>,
    everything: Vec<T>,
)
    requires
        call_ensures(select_operations::<T>, (Some(operation), all), alone),
        call_ensures(select_operations::<T>, (None, all), everything),
    ensures
        alone@.len() == 1,
        alone@[0] == operation,
        everything@ == all@,
{
}

/// A schema is in the schema language where its extension is `graphql` or `gql`,
/// a description where it is `json`, and refused, by the extension, where it is
/// anything else.
pub proof fn extension_decides_the_format(
    extension: &str,
    format: Result<SchemaFormat, GeneralError>,
)
    requires
        call_ensures(schema_format, (Some(extension),), format),
    ensures
        extension@ == "graphql"@ || extension@ == "gql"@ ==> format == Ok::<
            SchemaFormat,
            GeneralError,
        >(SchemaFormat::Graphql),
        extension@ == "json"@ ==> format == Ok::<SchemaFormat, GeneralError>(SchemaFormat::Json),
        extension@ != "graphql"@ && extension@ != "gql"@ && extension@ != "json"@ ==> (
        format matches Err(error) && error.0@ == "Unsupported extension for the GraphQL schema: "@
            + extension@ + " (only .json and .graphql are supported)"@),
{
    reveal_strlit("graphql");
    reveal_strlit("gql");
    reveal_strlit("json");
    assert("graphql"@.len() != "json"@.len() && "gql"@.len() != "json"@.len());
}

/// A schema without an extension is refused.
pub proof fn missing_extension_is_refused(format: Result<SchemaFormat, GeneralError>)
    requires
        call_ensures(schema_format, (None,), format),
    ensures
        format matches Err(error) && error.0@ == "Unsupported extension for the GraphQL schema: "@
            + "INVALID"@ + " (only .json and .graphql are supported)"@,
{
    reveal_strlit("INVALID");
    reveal_strlit("graphql");
    reveal_strlit("gql");
    reveal_strlit("json");
    assert("INVALID"@[0] != "graphql"@[0]);
    assert("INVALID"@.len() != "gql"@.len() && "INVALID"@.len() != "json"@.len());
}

/// An error in words is shown as it is.
pub proof fn general_error_is_shown_as_it_is(error: GeneralError, text: String)
    requires
        call_ensures(GeneralError::to_string, (&error,), text),
    ensures
        text@ == error.0@,
{
}

/// A parsed document is the schema, and a parser error is passed on in words.
pub proof fn parsed_document_is_the_schema(
    document: graphql_parser::schema::Document,
    error: String,
    from_document: Result<SchemaSource, SchemaError>,
    from_error: Result<SchemaSource, SchemaError>,
)
    requires
        call_ensures(document_schema, (Ok(document),), from_document),
        call_ensures(document_schema, (Err(error),), from_error),
    ensures
        from_document == Ok::<SchemaSource, SchemaError>(SchemaSource::Document(document)),
        from_error matches Err(SchemaError::General(shown)) && shown.0@ == "Parser error: "@ + error@,
{
}

/// A description that has been read is the schema, and the error of reading it is
/// passed on as it is.
pub proof fn description_is_the_schema(
    response: IntrospectionResponse,
    error: JsonError,
    from_response: Result<SchemaSource, SchemaError>,
    from_error: Result<SchemaSource, SchemaError>,
)
    requires
        call_ensures(introspection_schema, (Ok(response),), from_response),
        call_ensures(introspection_schema, (Err(error),), from_error),
    ensures
        from_response == Ok::<SchemaSource, SchemaError>(SchemaSource::Introspection(response)),
        from_error == Err::<SchemaSource, SchemaError>(SchemaError::Json(error)),
{
}

/// A schema is read in the format that its extension stands for, and refused
/// where the extension is.
pub proof fn schema_is_read_in_its_format(
    extension: Option<&str>,
    text: &str,
    format: Result<SchemaFormat, GeneralError>,
    schema: Result<SchemaSource, SchemaError>,
)
    requires
        call_ensures(schema_format, (extension,), format),
        call_ensures(load_schema, (extension, text), schema),
    ensures
        match format {
            Ok(SchemaFormat::Graphql) => match parsed_schema(text@) {
                Ok(document) => schema == Ok::<SchemaSource, SchemaError>(
                    SchemaSource::Document(document),
                ),
                Err(error) => schema matches Err(SchemaError::General(shown)) && shown.0@
                    == "Parser error: "@ + error,
            },
            Ok(SchemaFormat::Json) => match parsed_introspection(text@) {
                Ok(response) => schema == Ok::<SchemaSource, SchemaError>(
                    SchemaSource::Introspection(response),
                ),
                Err(error) => schema == Err::<SchemaSource, SchemaError>(SchemaError::Json(error)),
            },
            Err(error) => schema matches Err(SchemaError::General(shown)) && shown.0@ == error.0@,
        },
{
}

/// The texts of query files are joined with an empty line between neighbours.
pub proof fn query_files_are_joined(files: Vec<String>, query: String, joined: String)
    requires
        call_ensures(join_queries, (&files,), query),
        call_ensures(join, (&files, "\n\n"), joined),
    ensures
        query@ == joined@,
{
}

/// A parsed query is the query, and a parser error is passed on in words.
pub proof fn parsed_query_is_the_query(
    document: graphql_parser::query::Document,
    error: String,
    from_document: Result<graphql_parser::query::Document, GeneralError>,
    from_error: Result<graphql_parser::query::Document, GeneralError>,
)
    requires
        call_ensures(query_document, (Ok(document),), from_document),
        call_ensures(query_document, (Err(error),), from_error),
    ensures
        from_document == Ok::<graphql_parser::query::Document, GeneralError>(document),
        from_error matches Err(shown) && shown.0@ == "Query parser error: "@ + error@,
{
}

/// Query files are read as the text that they make together.
pub proof fn query_files_are_read_together(
    files: Vec<String>,
    joined: String,
    query: Result<graphql_parser::query::Document, GeneralError>,
)
    requires
        call_ensures(join_queries, (&files,), joined),
        call_ensures(load_query, (&files,), query),
    ensures
        match parsed_query(joined@) {
            Ok(document) => query == Ok::<graphql_parser::query::Document, GeneralError>(document),
            Err(error) => query matches Err(shown) && shown.0@ == "Query parser error: "@ + error,
        },
{
}

/// A missing operation is named where its error is shown.
pub proof fn missing_operation_is_named(error: OperationNotFound, text: String)
    requires
        call_ensures(OperationNotFound::to_string, (&error,), text),
    ensures
        text@ == "Could not find an operation named "@ + error.operation_name@
            + " in the query document."@,
{
}

/// A module is named after its operation, and gives out what the operation yields
/// and its request.
pub proof fn module_is_named_after_its_operation(module: GeneratedModule<'_>, names: ModuleNames)
    requires
        call_ensures(GeneratedModule::names, (&module,), names),
    ensures
        names.module@ == case::snake_case(module.operation@),
        names.operation@ == module.normalized@,
        names.request@ == module.normalized@ + "Request"@,
{
}

/// The operation of a module, and its number, are those that it was given; where
/// it was given none, the error names the operation, and there is no code.
pub proof fn missing_operation_gives_no_code(
    module: GeneratedModule<'_>,
    id: Result<OperationId, OperationNotFound>,
    op: Result<&ResolvedOperation, OperationNotFound>,
    code: Result<Vec<Piece>, OperationNotFound>,
)
    requires
        call_ensures(GeneratedModule::root, (&module,), id),
        call_ensures(GeneratedModule::root_op, (&module,), op),
        call_ensures(GeneratedModule::to_token_stream, (&module,), code),
    ensures
        match module.selected {
            Some((number, operation)) => id == Ok::<OperationId, OperationNotFound>(number) && op
                == Ok::<&ResolvedOperation, OperationNotFound>(operation) && code is Ok,
            None => id is Err && id->Err_0.operation_name@ == module.normalized@ && op is Err
                && op->Err_0.operation_name@ == module.normalized@ && code is Err
                && code->Err_0.operation_name@ == module.normalized@,
        },
{
}

/// Whether a piece is what `view` says.
pub open spec fn shows(piece: Piece, view: PieceView) -> bool {
    match (piece, view) {
        (Piece::Code(code), PieceView::Code(text)) => code@ == text,
        (Piece::Ident(name), PieceView::Ident(text)) => name@ == text,
        (Piece::Literal(literal), PieceView::Literal(text)) => literal@ == text,
        (Piece::Visibility, PieceView::Visibility) => true,
        (Piece::Impls, PieceView::Impls) => true,
        _ => false,
    }
}

/// Whether the pieces from position `from` on read as `views`.
pub open spec fn reads(pieces: Seq<Piece>, from: int, views: Seq<PieceView>) -> bool {
    from + views.len() <= pieces.len() && forall|i: int|
        0 <= i < views.len() ==> shows(pieces[from + i], #[trigger] views[i])
}

/// How many pieces there are for the query file.
pub open spec fn file_pieces(query_file: Option<Option<&str>>) -> int {
    match query_file {
        Some(Some(_)) => 3,
        Some(None) => 2,
        None => 0,
    }
}

/// The module of an operation begins with its name and constants for the
/// operation name and the query; a query file adds a constant for the file; the
/// items for the variables and the response follow, then what subscribes or
/// executes, then what maps the response, and last the names that it gives out.
pub proof fn module_has_its_parts(
    module: GeneratedModule<'_>,
    id: OperationId,
    op: &ResolvedOperation,
    code: Vec<Piece>,
    names: ModuleNames,
)
    requires
        module.selected == Some((id, op)),
        call_ensures(GeneratedModule::to_token_stream, (&module,), Ok(code)),
        call_ensures(GeneratedModule::names, (&module,), names),
    ensures
        code@.len() == 29 + file_pieces(module.query_file),
        reads(
            code@,
            0,
            seq![
                PieceView::Visibility,
                PieceView::Code(" mod "@),
                PieceView::Ident(names.module@),
                PieceView::Code(MODULE_HEAD@),
                PieceView::Literal(module.operation@),
                PieceView::Code(QUERY_HEAD@),
                PieceView::Literal(op.query_string@),
                PieceView::Code(QUERY_TAIL@),
            ],
        ),
        module.query_file is Some ==> shows(code@[8], PieceView::Code(FILE_HEAD@)) && shows(
            code@[7 + file_pieces(module.query_file)],
            PieceView::Code(FILE_TAIL@),
        ),
        module.query_file matches Some(Some(path)) ==> shows(code@[9], PieceView::Literal(path@)),
        shows(code@[8 + file_pieces(module.query_file)], PieceView::Impls),
        op.operation_type is Subscription ==> reads(
            code@,
            9 + file_pieces(module.query_file),
            seq![
                PieceView::Code(SUBSCRIBE_HEAD@),
                PieceView::Ident(names.operation@),
                PieceView::Code(SUBSCRIBE_RESULT@),
                PieceView::Ident(names.operation@),
                PieceView::Code(SUBSCRIBE_BODY@),
            ],
        ),
        op.operation_type is Query || op.operation_type is Mutation ==> reads(
            code@,
            9 + file_pieces(module.query_file),
            seq![
                PieceView::Code(EXECUTE_HEAD@),
                PieceView::Ident(names.operation@),
                PieceView::Code(EXECUTE_RESULT@),
                PieceView::Ident(names.operation@),
                PieceView::Code(EXECUTE_BODY@),
            ],
        ),
        reads(
            code@,
            14 + file_pieces(module.query_file),
            seq![
                PieceView::Code(" impl "@),
                PieceView::Ident(names.operation@),
                PieceView::Code(MAP_BODY@),
                PieceView::Visibility,
                PieceView::Code(" use "@),
                PieceView::Ident(names.module@),
                PieceView::Code("::"@),
                PieceView::Ident(names.operation@),
                PieceView::Code("; "@),
                PieceView::Visibility,
                PieceView::Code(" use "@),
                PieceView::Ident(names.module@),
                PieceView::Code("::Variables as "@),
                PieceView::Ident(names.request@),
                PieceView::Code(";"@),
            ],
        ),
{
    let views = piece_views(code@);
    assert(views == module.pieces(*op));
    assert(views.len() == code@.len());
    assert forall|i: int| 0 <= i < code@.len() implies shows(#[trigger] code@[i], views[i]) by {
        assert(views[i] == code@[i]@);
    }
    let n = file_pieces(module.query_file);
    let head = module.head_pieces(*op);
    let variables = crate::codegen::generated_module::variables_pieces(
        op.operation_type,
        module.normalized@,
    );
    let tail = module.tail_pieces();
    lemma_reads(code@, 0, head);
    lemma_reads(code@, 9 + n, variables);
    lemma_reads(code@, 14 + n, tail);
    if module.query_file is Some {
        assert(views[8] == PieceView::Code(FILE_HEAD@));
        assert(views[7 + n] == PieceView::Code(FILE_TAIL@));
        assert(shows(code@[8], views[8]) && shows(code@[7 + n], views[7 + n]));
    }
}

/// Pieces read as what they hold.
proof fn lemma_reads(pieces: Seq<Piece>, from: int, views: Seq<PieceView>)
    requires
        0 <= from,
        from + views.len() <= pieces.len(),
        piece_views(pieces).subrange(from, from + views.len()) =~= views,
    ensures
        reads(pieces, from, views),
{
    assert forall|i: int| 0 <= i < views.len() implies shows(
        pieces[from + i],
        #[trigger] views[i],
    ) by {
        assert(piece_views(pieces).subrange(from, from + views.len())[i] == views[i]);
        assert(piece_views(pieces)[from + i] == pieces[from + i]@);
    }
}

/// Whether one of the pieces is this code.
pub open spec fn holds_code(pieces: Seq<Piece>, text: Seq<char>) -> bool {
    exists|i: int| 0 <= i < pieces.len() && shows(#[trigger] pieces[i], PieceView::Code(text))
}

/// A subscription is subscribed to and not executed; a query or a mutation is
/// executed and not subscribed to; whatever the query file is.
pub proof fn only_subscriptions_are_subscribed_to(
    module: GeneratedModule<'_>,
    id: OperationId,
    op: &ResolvedOperation,
    code: Vec<Piece>,
)
    requires
        module.selected == Some((id, op)),
        call_ensures(GeneratedModule::to_token_stream, (&module,), Ok(code)),
    ensures
        holds_code(code@, SUBSCRIBE_HEAD@) <==> op.operation_type is Subscription,
        holds_code(code@, SUBSCRIBE_BODY@) <==> op.operation_type is Subscription,
        holds_code(code@, EXECUTE_HEAD@) <==> !(op.operation_type is Subscription),
        holds_code(code@, EXECUTE_BODY@) <==> !(op.operation_type is Subscription),
{
    let views = piece_views(code@);
    assert(views == module.pieces(*op));
    assert(views.len() == code@.len());
    assert forall|i: int| 0 <= i < code@.len() implies shows(#[trigger] code@[i], views[i]) by {
        assert(views[i] == code@[i]@);
    }
    only_subscriptions_have_subscribe(module, *op);
    assert forall|text: Seq<char>|
        #[trigger] holds_code(code@, text) <==> views.contains(PieceView::Code(text)) by {
        if holds_code(code@, text) {
            let i = choose|i: int|
                0 <= i < code@.len() && shows(#[trigger] code@[i], PieceView::Code(text));
            assert(views[i] == PieceView::Code(text));
        }
        if views.contains(PieceView::Code(text)) {
            let i = choose|i: int| 0 <= i < views.len() && views[i] == PieceView::Code(text);
            assert(shows(code@[i], PieceView::Code(text)));
        }
    }
}

/// The code for a subscription has what subscribes and not what executes, that
/// for a query or a mutation the other way round, whatever the query file is.
pub proof fn only_subscriptions_have_subscribe(module: GeneratedModule<'_>, op: ResolvedOperation)
    ensures
        module.pieces(op).contains(PieceView::Code(SUBSCRIBE_HEAD@)) <==> op.operation_type
            is Subscription,
        module.pieces(op).contains(PieceView::Code(SUBSCRIBE_BODY@)) <==> op.operation_type
            is Subscription,
        module.pieces(op).contains(PieceView::Code(EXECUTE_HEAD@)) <==> !(op.operation_type
            is Subscription),
        module.pieces(op).contains(PieceView::Code(EXECUTE_BODY@)) <==> !(op.operation_type
            is Subscription),
{
    lemma_lengths();
    let pieces = module.pieces(op);
    let at = pieces.len() - 20;
    if op.operation_type is Subscription {
        assert(pieces[at] == PieceView::Code(SUBSCRIBE_HEAD@));
        assert(pieces[at + 4] == PieceView::Code(SUBSCRIBE_BODY@));
    } else {
        assert(pieces[at] == PieceView::Code(EXECUTE_HEAD@));
        assert(pieces[at + 4] == PieceView::Code(EXECUTE_BODY@));
    }
}

/// How long the pieces of code of a module are.
proof fn lemma_lengths()
    ensures
        MODULE_HEAD@.len() == 82,
        QUERY_HEAD@.len() == 26,
        QUERY_TAIL@.len() == 2,
        FILE_HEAD@.len() == 46,
        FILE_TAIL@.len() == 3,
        SUBSCRIBE_HEAD@.len() == 74,
        SUBSCRIBE_RESULT@.len() == 62,
        SUBSCRIBE_BODY@.len() == 186,
        EXECUTE_HEAD@.len() == 90,
        EXECUTE_RESULT@.len() == 14,
        EXECUTE_BODY@.len() == 180,
        MAP_BODY@.len() == 74,
        MAP_BODY@[1] != SUBSCRIBE_HEAD@[1],
        " mod "@.len() == 5,
        " impl "@.len() == 6,
        " use "@.len() == 5,
        "::"@.len() == 2,
        "; "@.len() == 2,
        "::Variables as "@.len() == 15,
        ";"@.len() == 1,
{
    reveal_strlit(" { #![allow(dead_code)] use std::result::Result; pub const OPERATION_NAME: &str = ");
    reveal_strlit("; pub const QUERY: &str = ");
    reveal_strlit("; ");
    reveal_strlit("const __QUERY_WORKAROUND: &str = include_str!(");
    reveal_strlit("); ");
    reveal_strlit(" impl Variables { pub fn subscribe(&self, client: &dyn gurkle::Subscriber<");
    reveal_strlit(">,) -> Pin<Box<dyn futures_util::stream::Stream<Item = Result<");
    reveal_strlit(", gurkle::Error>> + Send>> { let req_body = gurkle::RequestBody { variables: serde_json::to_value(&self)?, query: QUERY, operation_name: OPERATION_NAME, }; client.subscribe(req_body) } }");
    reveal_strlit(" impl Variables { pub async fn execute<'a>(&'a self, client: &'a dyn gurkle::Executor<'a, ");
    reveal_strlit(">,) -> Result<");
    reveal_strlit(", gurkle::Error> { let req_body = gurkle::RequestBody { variables: serde_json::to_value(&self)?, query: QUERY, operation_name: OPERATION_NAME, }; client.execute(req_body).await } }");
    reveal_strlit(" { pub fn map<T, F: FnOnce(Self) -> T>(self, f: F) -> T { (f)(self) } } } ");
    reveal_strlit(" mod ");
    reveal_strlit(" impl ");
    reveal_strlit(" use ");
    reveal_strlit("::");
    reveal_strlit("; ");
    reveal_strlit("::Variables as ");
    reveal_strlit(";");
}

/// Whether two pieces hold the same.
pub open spec fn same_piece(a: Piece, b: Piece) -> bool {
    match (a, b) {
        (Piece::Code(x), Piece::Code(y)) => x@ == y@,
        (Piece::Ident(x), Piece::Ident(y)) => x@ == y@,
        (Piece::Literal(x), Piece::Literal(y)) => x@ == y@,
        (Piece::Visibility, Piece::Visibility) => true,
        (Piece::Impls, Piece::Impls) => true,
        _ => false,
    }
}

/// The modules of a document are those of its operations, one each, in order.
pub proof fn modules_are_generated_one_by_one(
    modules: Vec<GeneratedModule<'_>>,
    code: Vec<Vec<Piece>>,
    i: int,
    single: Result<Vec<Piece>, OperationNotFound>,
)
    requires
        call_ensures(generate_modules, (&modules,), Ok(code)),
        0 <= i < modules@.len(),
        call_ensures(GeneratedModule::to_token_stream, (&modules@[i],), single),
    ensures
        code@.len() == modules@.len(),
        single matches Ok(pieces) && pieces@.len() == code@[i]@.len() && forall|k: int|
            0 <= k < pieces@.len() ==> same_piece(#[trigger] pieces@[k], code@[i]@[k]),
{
    assert(modules@[i].code() == Some(piece_views(code@[i]@)));
    let pieces = single->Ok_0@;
    assert(piece_views(pieces) == piece_views(code@[i]@));
    assert(piece_views(pieces).len() == pieces.len());
    assert forall|k: int| 0 <= k < pieces.len() implies same_piece(
        #[trigger] pieces[k],
        code@[i]@[k],
    ) by {
        assert(piece_views(pieces)[k] == pieces[k]@);
        assert(piece_views(code@[i]@)[k] == code@[i]@[k]@);
    }
}

/// Where the operation of a module is missing there is no code at all, and the
/// error names the first such operation; else there is code.
pub proof fn one_missing_operation_leaves_no_module(
    modules: Vec<GeneratedModule<'_>>,
    code: Result<Vec<Vec<Piece>>, OperationNotFound>,
    first: int,
)
    requires
        call_ensures(generate_modules, (&modules,), code),
        0 <= first <= modules@.len(),
        forall|i: int| 0 <= i < first ==> (#[trigger] modules@[i]).selected is Some,
        first < modules@.len() ==> modules@[first].selected is None,
    ensures
        first < modules@.len() ==> code is Err && code->Err_0.operation_name@
            == modules@[first].normalized@,
        first == modules@.len() ==> code is Ok && code->Ok_0@.len() == modules@.len(),
{
    if code is Ok && first < modules@.len() {
        assert(modules@[first].code() is Some);
    }
    if code is Err {
        let error = code->Err_0;
        let i = choose|i: int|
            0 <= i < modules.len() && (#[trigger] modules@[i]).selected is None
                && error.operation_name@ == modules@[i].normalized@ && forall|k: int|
                0 <= k < i ==> (#[trigger] modules@[k]).selected is Some;
        if first < i {
            assert(modules@[first].selected is Some);
        }
    }
}

} // verus!
