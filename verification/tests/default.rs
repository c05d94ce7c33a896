use gurkle::RequestBody;

trait GraphQLRequest {
    type Variables;

    fn build_query(variables: Self::Variables) -> RequestBody;
}

#[derive(Default)]
struct Variables {
    optional: Option<String>,
}

struct OptQuery;

impl GraphQLRequest for OptQuery {
    type Variables = Variables;

    fn build_query(variables: Variables) -> RequestBody {
        let mut object = serde_json::Map::new();
        object.insert(
            "optional".to_owned(),
            match variables.optional {
                Some(text) => serde_json::Value::String(text),
                None => serde_json::Value::Null,
            },
        );
        RequestBody {
            variables: serde_json::Value::Object(object),
            query: "query OptQuery($optional: String) { echo(text: $optional) }",
            operation_name: "OptQuery",
        }
    }
}

#[test]
fn variables_can_derive_default() {
    let _: <OptQuery as GraphQLRequest>::Variables = Default::default();
}

#[test]
fn default_variables_are_sent_as_null() {
    let body = OptQuery::build_query(Default::default());
    assert_eq!(
        body.to_json(),
        "{\"variables\":{\"optional\":null},\"query\":\"query OptQuery($optional: String) \
         { echo(text: $optional) }\",\"operationName\":\"OptQuery\"}"
    );
}
