//! The operations of a query document.

use vstd::prelude::*;

use crate::codegen::case;

verus! {

/// What an operation does.
#[derive(Debug, Clone, Copy, PartialEq, Eq, Structural)]
pub enum OperationType {
    Query,
    Mutation,
    Subscription,
}

/// The number of an operation in its document.
#[derive(Debug, Clone, Copy, PartialEq, Eq, Structural)]
pub struct OperationId(pub u32);

/// The number of a selection in its document.
#[derive(Debug, Clone, Copy, PartialEq, Eq, Structural)]
pub struct SelectionId(pub u32);

/// The number of an object in its schema.
#[derive(Debug, Clone, Copy, PartialEq, Eq, Structural)]
pub struct ObjectId(pub u32);

/// An operation whose selections have been found in the schema.
#[derive(Debug)]
pub struct ResolvedOperation {
    pub name: String,
    pub query_string: String,
    pub operation_type: OperationType,
    pub selection_set: Vec<SelectionId>,
    pub object_id: ObjectId,
}

impl ResolvedOperation {
    /// The name of the operation as a segment of a path.
    pub fn to_path_segment(&self) -> (segment: String)
        ensures
            segment@ == case::camel_case(self.name@),
    {
        case::to_camel_case(self.name.as_str())
    }
}

/// The operations to generate code for: the one that was asked for where it is
/// there, else all of them.
pub fn select_operations<T>(selected: Option<T>, all: Vec<T>) -> (operations: Vec<T>)
    ensures
        operations@ == match selected {
            Some(operation) => seq![operation],
            None => all@,
        },
{
    match selected {
        Some(operation) => {
            let mut operations: Vec<T> = Vec::new();
            operations.push(operation);
            operations
        },
        None => all,
    }
}

} // verus!
