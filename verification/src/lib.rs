//! A GraphQL client core: request and response types, the `graphql-ws`
//! subscription protocol, and the parts of the code generator that decide what
//! a generated module says.

pub mod client;
pub mod codegen;
pub mod json;
pub mod laws;
pub mod text;
pub mod ws;

pub use client::{
    Error, GraphQLError, HttpClient, Location, PathFragment, RequestBody, Response, WsRequest,
};
