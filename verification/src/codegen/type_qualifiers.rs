//! What stands around the name of a type in a schema.

use vstd::prelude::*;

verus! {

/// What a type in a schema says of the type that it stands around.
#[derive(Clone, Debug, PartialEq, Eq, Hash, Structural)]
pub enum GraphqlTypeQualifier {
    /// It is not null.
    Required,
    /// There are any number of them.
    List,
}

impl GraphqlTypeQualifier {
    /// Whether the type is not null.
    pub fn is_required(&self) -> (required: bool)
        ensures
            required == (*self is Required),
    {
        *self == GraphqlTypeQualifier::Required
    }
}

/// A type in a schema.
#[derive(Debug, PartialEq)]
pub enum Type {
    NamedType(String),
    ListType(Box<Type>),
    NonNullType(Box<Type>),
}

/// How many qualifiers stand around the name of a type.
pub open spec fn type_depth(schema_type: Type) -> nat
    decreases schema_type,
{
    match schema_type {
        Type::ListType(inner) => 1 + type_depth(*inner),
        Type::NonNullType(inner) => 1 + type_depth(*inner),
        Type::NamedType(_) => 0,
    }
}

/// Counts the qualifiers that stand around the name of a type.
pub fn graphql_parser_depth(schema_type: &Type) -> (depth: usize)
    requires
        type_depth(*schema_type) <= usize::MAX,
    ensures
        depth == type_depth(*schema_type),
    decreases *schema_type,
{
    match schema_type {
        Type::ListType(inner) => 1 + graphql_parser_depth(inner),
        Type::NonNullType(inner) => 1 + graphql_parser_depth(inner),
        Type::NamedType(_) => 0,
    }
}

} // verus!
