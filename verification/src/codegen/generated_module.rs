//! The module that is generated for an operation.

use vstd::prelude::*;

use crate::codegen::case;
use crate::codegen::operations::{OperationId, OperationType, ResolvedOperation};

verus! {

/// From the name of the module to its operation name.
pub const MODULE_HEAD: &'static str =
    " { #![allow(dead_code)] use std::result::Result; pub const OPERATION_NAME: &str = ";

/// From the operation name to the query.
pub const QUERY_HEAD: &'static str = "; pub const QUERY: &str = ";

/// From the query on.
pub const QUERY_TAIL: &'static str = "; ";

/// A constant that makes the module depend on the query file, up to the file.
pub const FILE_HEAD: &'static str = "const __QUERY_WORKAROUND: &str = include_str!(";

/// From the query file on.
pub const FILE_TAIL: &'static str = "); ";

/// What starts a subscription, up to the type that it yields.
pub const SUBSCRIBE_HEAD: &'static str =
    " impl Variables { pub fn subscribe(&self, client: &dyn gurkle::Subscriber<";

/// Between the two mentions of the type that a subscription yields.
pub const SUBSCRIBE_RESULT: &'static str =
    ">,) -> Pin<Box<dyn futures_util::stream::Stream<Item = Result<";

/// The rest of what starts a subscription.
pub const SUBSCRIBE_BODY: &'static str =
    ", gurkle::Error>> + Send>> { let req_body = gurkle::RequestBody { variables: serde_json::to_value(&self)?, query: QUERY, operation_name: OPERATION_NAME, }; client.subscribe(req_body) } }";

/// What executes an operation, up to the type that it yields.
pub const EXECUTE_HEAD: &'static str =
    " impl Variables { pub async fn execute<'a>(&'a self, client: &'a dyn gurkle::Executor<'a, ";

/// Between the two mentions of the type that an operation yields.
pub const EXECUTE_RESULT: &'static str = ">,) -> Result<";

/// The rest of what executes an operation.
pub const EXECUTE_BODY: &'static str =
    ", gurkle::Error> { let req_body = gurkle::RequestBody { variables: serde_json::to_value(&self)?, query: QUERY, operation_name: OPERATION_NAME, }; client.execute(req_body).await } }";

/// The conversion of what the operation yields, and the end of the module.
pub const MAP_BODY: &'static str =
    " { pub fn map<T, F: FnOnce(Self) -> T>(self, f: F) -> T { (f)(self) } } } ";

/// What follows the name of an operation in the name of its request.
pub const REQUEST_SUFFIX: &'static str = "Request";

/// A piece of generated code.
#[derive(Debug)]
pub enum Piece {
    /// Code, as it stands.
    Code(&'static str),
    /// An identifier.
    Ident(String),
    /// A string literal for the text.
    Literal(String),
    /// The visibility of the module.
    Visibility,
    /// The items for the variables and the response.
    Impls,
}

/// What a [`Piece`] holds.
pub enum PieceView {
    Code(Seq<char>),
    Ident(Seq<char>),
    Literal(Seq<char>),
    Visibility,
    Impls,
}

impl View for Piece {
    type V = PieceView;

    open spec fn view(&self) -> PieceView {
        match self {
            Piece::Code(code) => PieceView::Code(code@),
            Piece::Ident(name) => PieceView::Ident(name@),
            Piece::Literal(text) => PieceView::Literal(text@),
            Piece::Visibility => PieceView::Visibility,
            Piece::Impls => PieceView::Impls,
        }
    }
}

/// What each of the pieces holds.
pub open spec fn piece_views(pieces: Seq<Piece>) -> Seq<PieceView> {
    pieces.map_values(|piece: Piece| piece@)
}

/// The operation that code is to be generated for is not there.
#[derive(Debug)]
pub struct OperationNotFound {
    pub operation_name: String,
}

impl OperationNotFound {
    /// How the error is shown.
    pub open spec fn text(self) -> Seq<char> {
        "Could not find an operation named "@ + self.operation_name@ + " in the query document."@
    }

    /// Shows the error.
    pub fn to_string(&self) -> (text: String)
        ensures
            text@ == self.text(),
    {
        let mut text = "Could not find an operation named ".to_owned();
        text.append(self.operation_name.as_str());
        text.append(" in the query document.");
        text
    }
}

/// The identifiers that a generated module introduces.
#[derive(Debug)]
pub struct ModuleNames {
    /// The module.
    pub module: String,
    /// What the operation yields.
    pub operation: String,
    /// The request.
    pub request: String,
}

/// This struct contains the parameters necessary to generate code for a given operation.
pub struct GeneratedModule<'a> {
    /// The name of the operation.
    pub operation: &'a str,
    /// The name of the operation, normalized.
    pub normalized: &'a str,
    /// What the query document has under the normalized name.
    pub selected: Option<(OperationId, &'a ResolvedOperation)>,
    /// The query file where there is one, and its path where that is a text.
    pub query_file: Option<Option<&'a str>>,
}

/// The constant that makes the module depend on the query file.
pub open spec fn query_file_pieces(query_file: Option<Option<&str>>) -> Seq<PieceView> {
    match query_file {
        Some(Some(path)) => seq![
            PieceView::Code(FILE_HEAD@),
            PieceView::Literal(path@),
            PieceView::Code(FILE_TAIL@),
        ],
        Some(None) => seq![PieceView::Code(FILE_HEAD@), PieceView::Code(FILE_TAIL@)],
        None => Seq::empty(),
    }
}

/// What starts a subscription, or executes any other operation.
pub open spec fn variables_pieces(operation_type: OperationType, normalized: Seq<char>) -> Seq<
    PieceView,
> {
    if operation_type == OperationType::Subscription {
        seq![
            PieceView::Code(SUBSCRIBE_HEAD@),
            PieceView::Ident(normalized),
            PieceView::Code(SUBSCRIBE_RESULT@),
            PieceView::Ident(normalized),
            PieceView::Code(SUBSCRIBE_BODY@),
        ]
    } else {
        seq![
            PieceView::Code(EXECUTE_HEAD@),
            PieceView::Ident(normalized),
            PieceView::Code(EXECUTE_RESULT@),
            PieceView::Ident(normalized),
            PieceView::Code(EXECUTE_BODY@),
        ]
    }
}

impl<'a> GeneratedModule<'a> {
    /// The module up to its query.
    pub open spec fn head_pieces(self, op: ResolvedOperation) -> Seq<PieceView> {
        seq![
            PieceView::Visibility,
            PieceView::Code(" mod "@),
            PieceView::Ident(case::snake_case(self.operation@)),
            PieceView::Code(MODULE_HEAD@),
            PieceView::Literal(self.operation@),
            PieceView::Code(QUERY_HEAD@),
            PieceView::Literal(op.query_string@),
            PieceView::Code(QUERY_TAIL@),
        ]
    }

    /// The end of the module, and the names that it gives to its surroundings.
    pub open spec fn tail_pieces(self) -> Seq<PieceView> {
        let module = PieceView::Ident(case::snake_case(self.operation@));
        seq![
            PieceView::Code(" impl "@),
            PieceView::Ident(self.normalized@),
            PieceView::Code(MAP_BODY@),
            PieceView::Visibility,
            PieceView::Code(" use "@),
            module,
            PieceView::Code("::"@),
            PieceView::Ident(self.normalized@),
            PieceView::Code("; "@),
            PieceView::Visibility,
            PieceView::Code(" use "@),
            module,
            PieceView::Code("::Variables as "@),
            PieceView::Ident(self.normalized@ + REQUEST_SUFFIX@),
            PieceView::Code(";"@),
        ]
    }

    /// The module for the operation `op` and all the code inside.
    pub open spec fn pieces(self, op: ResolvedOperation) -> Seq<PieceView> {
        self.head_pieces(op) + query_file_pieces(self.query_file) + seq![PieceView::Impls]
            + variables_pieces(op.operation_type, self.normalized@) + self.tail_pieces()
    }

    /// The module and all the code inside, where its operation is there.
    pub open spec fn code(self) -> Option<Seq<PieceView>> {
        match self.selected {
            Some(op) => Some(self.pieces(*op.1)),
            None => None,
        }
    }

    /// The number of the operation.
    pub fn root(&self) -> (id: Result<OperationId, OperationNotFound>)
        ensures
            match self.selected {
                Some(op) => id == Ok::<OperationId, OperationNotFound>(op.0),
                None => id matches Err(error) && error.operation_name@ == self.normalized@,
            },
    {
        match &self.selected {
            Some(op) => Ok(op.0),
            None => Err(OperationNotFound { operation_name: self.normalized.to_owned() }),
        }
    }

    /// The operation.
    pub fn root_op(&self) -> (op: Result<&'a ResolvedOperation, OperationNotFound>)
        ensures
            match self.selected {
                Some(selected) => op == Ok::<&'a ResolvedOperation, OperationNotFound>(selected.1),
                None => op matches Err(error) && error.operation_name@ == self.normalized@,
            },
    {
        match &self.selected {
            Some(op) => Ok(op.1),
            None => Err(OperationNotFound { operation_name: self.normalized.to_owned() }),
        }
    }

    /// The identifiers that the module introduces.
    pub fn names(&self) -> (names: ModuleNames)
        ensures
            names.module@ == case::snake_case(self.operation@),
            names.operation@ == self.normalized@,
            names.request@ == self.normalized@ + REQUEST_SUFFIX@,
    {
        let mut request = self.normalized.to_owned();
        request.append(REQUEST_SUFFIX);
        ModuleNames {
            module: case::to_snake_case(self.operation),
            operation: self.normalized.to_owned(),
            request,
        }
    }

    /// Generate the module and all the code inside.
    pub fn to_token_stream(&self) -> (module: Result<Vec<Piece>, OperationNotFound>)
        ensures
            match self.selected {
                Some(op) => module matches Ok(pieces) && piece_views(pieces@) == self.pieces(*op.1),
                None => module matches Err(error) && error.operation_name@ == self.normalized@,
            },
    {
        let names = self.names();
        let op = match self.root_op() {
            Ok(op) => op,
            Err(error) => return Err(error),
        };
        let mut pieces: Vec<Piece> = Vec::new();
        pieces.push(Piece::Visibility);
        pieces.push(Piece::Code(" mod "));
        pieces.push(Piece::Ident(names.module.clone()));
        pieces.push(Piece::Code(MODULE_HEAD));
        pieces.push(Piece::Literal(self.operation.to_owned()));
        pieces.push(Piece::Code(QUERY_HEAD));
        pieces.push(Piece::Literal(op.query_string.clone()));
        pieces.push(Piece::Code(QUERY_TAIL));
        assert(piece_views(pieces@) == self.head_pieces(*op));
        // Makes a build refresh the generated code when the query file changes.
        if let Some(path) = &self.query_file {
            pieces.push(Piece::Code(FILE_HEAD));
            if let Some(path) = path {
                pieces.push(Piece::Literal((*path).to_owned()));
            }
            pieces.push(Piece::Code(FILE_TAIL));
        }
        pieces.push(Piece::Impls);
        assert(piece_views(pieces@) == self.head_pieces(*op) + query_file_pieces(self.query_file)
            + seq![PieceView::Impls]);
        let ghost before = pieces@;
        let (head, result, body) = if op.operation_type == OperationType::Subscription {
            (SUBSCRIBE_HEAD, SUBSCRIBE_RESULT, SUBSCRIBE_BODY)
        } else {
            (EXECUTE_HEAD, EXECUTE_RESULT, EXECUTE_BODY)
        };
        pieces.push(Piece::Code(head));
        pieces.push(Piece::Ident(names.operation.clone()));
        pieces.push(Piece::Code(result));
        pieces.push(Piece::Ident(names.operation.clone()));
        pieces.push(Piece::Code(body));
        assert(piece_views(pieces@) == piece_views(before) + variables_pieces(
            op.operation_type,
            self.normalized@,
        ));
        let ghost before = pieces@;
        pieces.push(Piece::Code(" impl "));
        pieces.push(Piece::Ident(names.operation.clone()));
        pieces.push(Piece::Code(MAP_BODY));
        pieces.push(Piece::Visibility);
        pieces.push(Piece::Code(" use "));
        pieces.push(Piece::Ident(names.module.clone()));
        pieces.push(Piece::Code("::"));
        pieces.push(Piece::Ident(names.operation));
        pieces.push(Piece::Code("; "));
        pieces.push(Piece::Visibility);
        pieces.push(Piece::Code(" use "));
        pieces.push(Piece::Ident(names.module));
        pieces.push(Piece::Code("::Variables as "));
        pieces.push(Piece::Ident(names.request));
        pieces.push(Piece::Code(";"));
        assert(piece_views(pieces@) == piece_views(before) + self.tail_pieces());
        Ok(pieces)
    }
}

/// Generates the modules in order, or none of them where the operation of one is
/// not there; the error is then that of the first such module.
pub fn generate_modules(modules: &Vec<GeneratedModule<'_>>) -> (code: Result<
    Vec<Vec<Piece>>,
    OperationNotFound,
>)
    ensures
        match code {
            Ok(code) => code.len() == modules.len() && forall|i: int|
                #![trigger modules@[i]]
                #![trigger code@[i]]
                0 <= i < modules.len() ==> modules@[i].code() == Some(piece_views(code@[i]@)),
            Err(error) => exists|i: int|
                0 <= i < modules.len() && (#[trigger] modules@[i]).selected is None
                    && error.operation_name@ == modules@[i].normalized@ && forall|k: int|
                    0 <= k < i ==> (#[trigger] modules@[k]).selected is Some,
        },
{
    let mut code: Vec<Vec<Piece>> = Vec::new();
    let mut i: usize = 0;
    while i < modules.len()
        invariant
            i <= modules.len(),
            code.len() == i,
            forall|k: int|
                #![trigger modules@[k]]
                #![trigger code@[k]]
                0 <= k < i ==> modules@[k].code() == Some(piece_views(code@[k]@)),
        decreases modules.len() - i,
    {
        match modules[i].to_token_stream() {
            Ok(pieces) => code.push(pieces),
            Err(error) => {
                assert(modules@[i as int].selected is None);
                return Err(error);
            },
        }
        i += 1;
    }
    Ok(code)
}

/// Every identifier in the code for a module is one of the three that the module
/// introduces.
pub proof fn module_uses_its_own_names(module: GeneratedModule<'_>, op: ResolvedOperation, name: Seq<char>)
    requires
        module.pieces(op).contains(PieceView::Ident(name)),
    ensures
        name == case::snake_case(module.operation@) || name == module.normalized@ || name
            == module.normalized@ + REQUEST_SUFFIX@,
{
}

/// Queries and mutations are executed alike.
pub proof fn mutations_are_generated_like_queries(
    module: GeneratedModule<'_>,
    op: ResolvedOperation,
    other: ResolvedOperation,
)
    requires
        op.operation_type is Query,
        other.operation_type is Mutation,
        op.query_string@ == other.query_string@,
    ensures
        module.pieces(op) == module.pieces(other),
{
}

} // verus!
