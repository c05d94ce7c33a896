use gurkle::codegen::block_string::can_be_cut;
use gurkle::codegen::document::{
    document_schema, introspection_schema, join_queries, load_query, load_schema,
    query_document, schema_format, GeneralError, SchemaError, SchemaFormat, SchemaSource,
};
use gurkle::codegen::generated_module::{
    generate_modules, GeneratedModule, OperationNotFound, Piece,
};
use gurkle::codegen::operations::{
    select_operations, ObjectId, OperationId, OperationType, ResolvedOperation, SelectionId,
};
use gurkle::codegen::type_qualifiers::{graphql_parser_depth, GraphqlTypeQualifier, Type};

fn operation(operation_type: OperationType) -> ResolvedOperation {
    ResolvedOperation {
        name: "count_things".to_owned(),
        query_string: "query { \"a\" }".to_owned(),
        operation_type,
        selection_set: vec![SelectionId(1)],
        object_id: ObjectId(0),
    }
}

fn shown(pieces: Vec<Piece>) -> String {
    let mut text = String::new();
    for piece in pieces {
        match piece {
            Piece::Code(code) => text.push_str(code),
            Piece::Ident(name) => text.push_str(&format!("`{}`", name)),
            Piece::Literal(literal) => text.push_str(&format!("{:?}", literal)),
            Piece::Visibility => text.push_str("<visibility>"),
            Piece::Impls => text.push_str("<impls>"),
        }
    }
    text
}

#[test]
fn required_is_required() {
    assert!(GraphqlTypeQualifier::Required.is_required());
    assert!(!GraphqlTypeQualifier::List.is_required());
}

#[test]
fn depth_counts_lists_and_non_nulls() {
    let named = Type::NamedType("Int".to_owned());
    assert_eq!(graphql_parser_depth(&named), 0);
    let non_null = Type::NonNullType(Box::new(named));
    assert_eq!(graphql_parser_depth(&non_null), 1);
    let list = Type::NonNullType(Box::new(Type::ListType(Box::new(non_null))));
    assert_eq!(graphql_parser_depth(&list), 3);
}

#[test]
fn path_segment_is_in_camel_case() {
    assert_eq!(operation(OperationType::Query).to_path_segment(), "CountThings");
}

#[test]
fn selected_operation_is_the_only_one() {
    let all = vec![OperationId(0), OperationId(1)];
    assert_eq!(select_operations(Some(OperationId(1)), all.clone()), vec![OperationId(1)]);
    assert_eq!(select_operations(None, all.clone()), all);
}

#[test]
fn missing_operation_is_named() {
    let module = GeneratedModule {
        operation: "count_things",
        normalized: "CountThings",
        selected: None,
        query_file: None,
    };
    let text = "Could not find an operation named CountThings in the query document.";
    assert_eq!(module.root().unwrap_err().to_string(), text);
    assert_eq!(module.root_op().unwrap_err().to_string(), text);
    assert_eq!(module.to_token_stream().unwrap_err().to_string(), text);
    let error = OperationNotFound { operation_name: String::new() };
    assert_eq!(
        error.to_string(),
        "Could not find an operation named  in the query document."
    );
}

#[test]
fn module_names_come_from_the_operation() {
    let op = operation(OperationType::Query);
    let module = GeneratedModule {
        operation: "CountThings",
        normalized: "CountThings",
        selected: Some((OperationId(4), &op)),
        query_file: None,
    };
    assert_eq!(module.root().unwrap(), OperationId(4));
    assert_eq!(module.root_op().unwrap().name, "count_things");
    let names = module.names();
    assert_eq!(names.module, "count_things");
    assert_eq!(names.operation, "CountThings");
    assert_eq!(names.request, "CountThingsRequest");
}

#[test]
fn queries_and_mutations_are_executed() {
    for operation_type in [OperationType::Query, OperationType::Mutation] {
        let op = operation(operation_type);
        let module = GeneratedModule {
            operation: "countThings",
            normalized: "CountThings",
            selected: Some((OperationId(0), &op)),
            query_file: None,
        };
        assert_eq!(
            shown(module.to_token_stream().unwrap()),
            "<visibility> mod `count_things` { #![allow(dead_code)] use std::result::Result; \
             pub const OPERATION_NAME: &str = \"countThings\"; \
             pub const QUERY: &str = \"query { \\\"a\\\" }\"; <impls> \
             impl Variables { pub async fn execute<'a>(&'a self, \
             client: &'a dyn gurkle::Executor<'a, `CountThings`>,) \
             -> Result<`CountThings`, gurkle::Error> { \
             let req_body = gurkle::RequestBody { variables: serde_json::to_value(&self)?, \
             query: QUERY, operation_name: OPERATION_NAME, }; \
             client.execute(req_body).await } } \
             impl `CountThings` { \
             pub fn map<T, F: FnOnce(Self) -> T>(self, f: F) -> T { (f)(self) } } } \
             <visibility> use `count_things`::`CountThings`; \
             <visibility> use `count_things`::Variables as `CountThingsRequest`;"
        );
    }
}

#[test]
fn subscriptions_are_subscribed_to() {
    let op = operation(OperationType::Subscription);
    let module = GeneratedModule {
        operation: "Counter",
        normalized: "Counter",
        selected: Some((OperationId(0), &op)),
        query_file: Some(Some("src/counter.graphql")),
    };
    assert_eq!(
        shown(module.to_token_stream().unwrap()),
        "<visibility> mod `counter` { #![allow(dead_code)] use std::result::Result; \
         pub const OPERATION_NAME: &str = \"Counter\"; \
         pub const QUERY: &str = \"query { \\\"a\\\" }\"; \
         const __QUERY_WORKAROUND: &str = include_str!(\"src/counter.graphql\"); <impls> \
         impl Variables { pub fn subscribe(&self, client: &dyn gurkle::Subscriber<`Counter`>,) \
         -> Pin<Box<dyn futures_util::stream::Stream<Item = Result<`Counter`, gurkle::Error>> \
         + Send>> { let req_body = gurkle::RequestBody { variables: serde_json::to_value(&self)?, \
         query: QUERY, operation_name: OPERATION_NAME, }; client.subscribe(req_body) } } \
         impl `Counter` { pub fn map<T, F: FnOnce(Self) -> T>(self, f: F) -> T { (f)(self) } } } \
         <visibility> use `counter`::`Counter`; \
         <visibility> use `counter`::Variables as `CounterRequest`;"
    );
}

#[test]
fn query_file_without_a_text_path_has_no_literal() {
    let op = operation(OperationType::Query);
    let module = GeneratedModule {
        operation: "Q",
        normalized: "Q",
        selected: Some((OperationId(0), &op)),
        query_file: Some(None),
    };
    let text = shown(module.to_token_stream().unwrap());
    assert!(text.contains("const __QUERY_WORKAROUND: &str = include_str!(); <impls>"));
}

#[test]
fn generated_modules_are_token_streams() {
    for operation_type in [OperationType::Query, OperationType::Subscription] {
        let op = operation(operation_type);
        let module = GeneratedModule {
            operation: "Q",
            normalized: "Q",
            selected: Some((OperationId(0), &op)),
            query_file: Some(Some("q.graphql")),
        };
        let text = shown(module.to_token_stream().unwrap())
            .replace('`', "")
            .replace("<visibility>", "pub")
            .replace("<impls>", "pub struct Variables;");
        assert!(text.parse::<proc_macro2::TokenStream>().is_ok(), "{}", text);
    }
}

#[test]
fn schema_format_goes_by_the_extension() {
    assert_eq!(schema_format(Some("graphql")).unwrap(), SchemaFormat::Graphql);
    assert_eq!(schema_format(Some("gql")).unwrap(), SchemaFormat::Graphql);
    assert_eq!(schema_format(Some("json")).unwrap(), SchemaFormat::Json);
    assert_eq!(
        schema_format(Some("GraphQL")).unwrap_err().to_string(),
        "Unsupported extension for the GraphQL schema: GraphQL (only .json and .graphql are supported)"
    );
    assert_eq!(
        schema_format(None).unwrap_err().to_string(),
        "Unsupported extension for the GraphQL schema: INVALID (only .json and .graphql are supported)"
    );
}

#[test]
fn graphql_schema_is_parsed() {
    for extension in ["graphql", "gql"] {
        match load_schema(Some(extension), "type Query { a: Int, b: [Int!]! }") {
            Ok(SchemaSource::Document(document)) => assert_eq!(document.definitions.len(), 1),
            _ => panic!("no document"),
        }
        match load_schema(Some(extension), "type Query {") {
            Err(SchemaError::General(error)) => {
                let text = error.to_string();
                assert!(text.starts_with("Parser error: "), "{}", text);
                assert!(text.len() > "Parser error: ".len());
            }
            _ => panic!("no error"),
        }
    }
}

#[test]
fn json_schema_is_read() {
    let text = "{\"data\":{\"__schema\":{\"queryType\":{\"name\":\"Query\"},\"mutationType\":null,\
                \"subscriptionType\":null,\"types\":[],\"directives\":[]}}}";
    assert!(matches!(load_schema(Some("json"), text), Ok(SchemaSource::Introspection(_))));
    assert!(matches!(load_schema(Some("json"), "{"), Err(SchemaError::Json(_))));
}

#[test]
fn schema_with_another_extension_is_refused() {
    match load_schema(Some("txt"), "type Query { a: Int }") {
        Err(SchemaError::General(GeneralError(text))) => assert_eq!(
            text,
            "Unsupported extension for the GraphQL schema: txt (only .json and .graphql are supported)"
        ),
        _ => panic!("no error"),
    }
}

#[test]
fn parse_results_become_schemas_or_errors() {
    let document = graphql_parser::schema::parse_schema("scalar Date").unwrap();
    assert!(matches!(
        document_schema(Ok(document.clone())),
        Ok(SchemaSource::Document(same)) if same == document
    ));
    assert!(matches!(
        document_schema(Err("oops".to_owned())),
        Err(SchemaError::General(GeneralError(text))) if text == "Parser error: oops"
    ));
    let error = serde_json::from_str::<serde_json::Value>("").unwrap_err();
    assert!(matches!(introspection_schema(Err(error)), Err(SchemaError::Json(e)) if e.is_eof()));
}

#[test]
fn query_files_make_one_document() {
    let files = vec!["query A { a }".to_owned(), "query B { b }".to_owned()];
    assert_eq!(join_queries(&files), "query A { a }\n\nquery B { b }");
    assert_eq!(load_query(&files).unwrap().definitions.len(), 2);
    let broken = vec!["query A {".to_owned()];
    let text = load_query(&broken).unwrap_err().to_string();
    assert!(text.starts_with("Query parser error: "), "{}", text);
    let error = query_document(Err("oops".to_owned())).unwrap_err();
    assert_eq!(error.to_string(), "Query parser error: oops");
}

#[test]
fn block_strings_that_are_cut_inside_a_character_are_found() {
    for text in [
        "\"\"\"\n  x\n\u{3000}y\n\"\"\" type A { a: Int }",
        "\"\"\"\n x\n\u{a0}y\n\"\"\" type A { a: Int }",
        "\"\"\"\n x\n\u{3000}\n\"\"\" type A { a: Int }",
        "\"\"\"\n x \\\"\"\" z\n\u{3000}y\n\"\"\" type A { a: Int }",
        "\"\"\"a\"\"\" type A { a: Int } \"\"\"\n x\n\u{2003}y\"\"\" type B { b: Int }",
        "\"#\" \"\\\"\" \"\"\"\n x\n\u{3000}y\n\"\"\"",
        "# \"\"\"\n\"\"\"\n x\n\u{3000}y\n\"\"\"",
    ] {
        assert!(!can_be_cut(text), "{:?}", text);
    }
}

#[test]
fn schemas_with_cleanly_cut_block_strings_are_read() {
    for text in [
        "\"\"\"\n  First é\u{3000}line.\n\n    Second line.\n\"\"\"\ntype Query { a: Int }",
        "\"\"\"\nFirst.\n\u{3000}Second.\n\"\"\"\ntype Query { a: Int }",
        "\"\"\"\n\u{3000}First.\n\u{3000}\u{3000}Second.\n\u{3000}\r\n\"\"\"\ntype Query { a: Int }",
        "\"\"\"\u{3000}x\n y\n\"\"\"\ntype Query { a: Int }",
        "\"\"\"\n \u{a0}x\n   y\n\"\"\"\ntype Query { a: Int }",
        "\"\"\"\n\u{3000}\n\u{a0}\n\"\"\"\ntype Query { a: Int }",
        "\"\"\"\n   x\n\u{a0}\n\"\"\"\ntype Query { a: Int }",
        "\"\"\"\nx \\\"\"\"\n  y\n\u{3000}z\n\"\"\"\ntype Query { a: Int }",
        "# \"\"\"\n  # x\n# \u{3000}y\ntype Query { a: Int }",
        "type Query { \"\\\"\" a: Int \"\\\\\" b: Int \"\" c: Int }",
    ] {
        assert!(can_be_cut(text), "{:?}", text);
        assert!(load_schema(Some("graphql"), text).is_ok(), "{:?}", text);
    }
}

#[test]
fn queries_with_wide_indentation_are_read() {
    let files = vec!["query { a(b: \"\"\"\n\u{3000}b\n\"\"\") }".to_owned()];
    assert!(can_be_cut(&files[0]));
    assert!(load_query(&files).is_ok());
}

#[test]
fn wide_indentation_of_code_is_a_parser_error() {
    for text in [
        "type A {\n  \"\"\"a\"\"\"\n  a: Int\n\u{3000}b: Int\n  \"\"\"c\"\"\"\n  c: Int\n}",
        "\"\"\"a\"\"\" type A {\n\u{a0}b: Int\n}",
        "\u{a0}\"\"\"\"\"\" type A { a: Int }",
        "\u{3000} \"\"\"\n x\n\u{3000}y\n\"\"\" type A { a: Int }",
        "\"\"\"\n x\n\u{3000}y",
        "\"a\n\"\"\"\n x\n\u{3000}y\"\"\"",
    ] {
        assert!(can_be_cut(text), "{:?}", text);
        match load_schema(Some("graphql"), text) {
            Err(SchemaError::General(error)) => {
                assert!(error.to_string().starts_with("Parser error: "))
            }
            _ => panic!("{:?}", text),
        }
    }
    let files = vec!["query { a(b: \"\"\"b\"\"\")\n\u{3000}c }".to_owned()];
    assert!(can_be_cut(&files[0]));
    assert!(load_query(&files).unwrap_err().to_string().starts_with("Query parser error: "));
}

#[test]
fn nothing_is_read_after_what_is_no_token() {
    let block = "\"\"\"\n x\n\u{3000}y\n\"\"\"";
    for start in [
        ".", "..", "+", "+1", "%", "\\", "-", "01", "-01", "1.", "1.e1", "1..2", "1e", "1e0", "1e9",
        "1e5e6", "1x", "1\u{feff}", "1\"", "1é", "--1", "1-", "é", "\u{a0}", "\"",
    ] {
        let text = format!("{} {}", start, block);
        assert!(can_be_cut(&text), "{:?}", text);
        assert!(load_schema(Some("graphql"), &text).is_err(), "{:?}", text);
        assert!(load_query(&vec![text]).is_err());
    }
    assert!(can_be_cut(&format!("1{}", block)));
}

#[test]
fn block_strings_after_other_tokens_are_found() {
    let block = "\"\"\"\n x\n\u{3000}y\n\"\"\"";
    for start in [
        "...", "a", "_a1", "a1.", "0", "-0", "10", "-12", "1.50", "0.5", "-0.5e-10", "1e+", "1E80",
        "1!", "1#\n", "{", "\u{feff}", ",", "\"\"", "\"a\\\"\"", "\"\"\"\"\"\"", "# é\r",
    ] {
        let text = if start == "a1." {
            format!("a1...{}", block)
        } else {
            format!("{} {}", start, block)
        };
        assert!(!can_be_cut(&text), "{:?}", text);
    }
    let query = "query { a(b: 1.50, c: -3, d: 2e-8, ...a1: \"\\\"\") }";
    assert!(can_be_cut(query));
    let files = vec!["query { a(b: 1.50, c: -3, d: 2e-8, e: \"\"\"\n\u{3000}b\n\"\"\") ...f }".to_owned()];
    assert!(can_be_cut(&files[0]));
    assert!(load_query(&files).is_ok());
}

#[test]
fn ascii_white_space_is_never_cut_badly() {
    for text in ["", "\"", "\"\"", "\"\"\"", "\"\"\"\"", "\"\"\"\"\"\"", "\"\"\"\n\té\n x\"\"\"\"", "é", "#"] {
        assert!(can_be_cut(text), "{:?}", text);
    }
}

#[test]
fn one_query_file_stands_for_many() {
    let many = vec!["query A { a }".to_owned(), "query B { b }".to_owned()];
    let one = vec![join_queries(&many)];
    assert_eq!(join_queries(&one), join_queries(&many));
    assert_eq!(load_query(&one).unwrap(), load_query(&many).unwrap());
}

#[test]
fn modules_are_generated_in_order() {
    let op = operation(OperationType::Query);
    let modules: Vec<GeneratedModule<'_>> = ["A", "B"]
        .iter()
        .map(|name| GeneratedModule {
            operation: name,
            normalized: name,
            selected: Some((OperationId(0), &op)),
            query_file: None,
        })
        .collect();
    let code = generate_modules(&modules).unwrap();
    assert_eq!(code.len(), 2);
    for (module, pieces) in modules.iter().zip(code) {
        assert_eq!(shown(pieces), shown(module.to_token_stream().unwrap()));
    }
    assert!(generate_modules(&vec![]).unwrap().is_empty());
}

#[test]
fn first_missing_operation_leaves_no_module() {
    let op = operation(OperationType::Query);
    let modules: Vec<GeneratedModule<'_>> = ["A", "B", "C"]
        .iter()
        .map(|name| GeneratedModule {
            operation: name,
            normalized: name,
            selected: if *name == "A" { Some((OperationId(0), &op)) } else { None },
            query_file: None,
        })
        .collect();
    assert_eq!(generate_modules(&modules).unwrap_err().operation_name, "B");
}

#[test]
fn every_small_text_that_can_be_cut_is_parsed() {
    let alphabet = ['"', '\\', '\n', ' ', '\u{3000}', 'x', '#', '1', '.'];
    let mut texts = vec![String::new()];
    let mut from = 0;
    for _ in 0..5 {
        let to = texts.len();
        for i in from..to {
            for c in alphabet {
                let mut longer = texts[i].clone();
                longer.push(c);
                texts.push(longer);
            }
        }
        from = to;
    }
    let mut refused = 0;
    for text in &texts {
        for document in [
            format!("\"\"\"\n{}\n\"\"\" type A {{ a: Int }}", text),
            format!("\"{} \"\"\"\n x\n{}\"\"\" type A {{ a: Int }}", text, text),
        ] {
            if can_be_cut(&document) {
                let _ = load_schema(Some("graphql"), &document);
            } else {
                refused += 1;
            }
        }
    }
    assert!(refused > 0);
}
