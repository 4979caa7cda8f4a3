//! Typed failures of the structural walks.  Every error is fatal for the walk
//! that raised it: there is no partial-result mode.

use vstd::prelude::*;

verus! {

/// Spec-level image of a `WalkError`.
pub enum ErrModel {
    /// A structural key (`paths`, `components`, `schemas`, `operationId`,
    /// a method name) is absent where a walk expects it.
    KeyMissing(Seq<char>),
    /// A reference stands where only inline content is valid, or resolves to
    /// content that is itself another reference.
    ChainViolation(Seq<char>),
    /// A reference names a document that was never pre-loaded.
    Unresolved(Seq<char>),
}

/// A failure while walking the key hierarchy of a document set.
#[derive(Debug)]
pub enum WalkError {
    /// An expected structural key is missing; holds the key.
    StructuralKeyMissing(String),
    /// A reference chain longer than one hop; holds the offending reference.
    ReferenceChainViolation(String),
    /// A reference to a document absent from the content provider; holds the
    /// reference.
    UnresolvedReference(String),
}

impl View for WalkError {
    type V = ErrModel;

    open spec fn view(&self) -> ErrModel {
        match self {
            WalkError::StructuralKeyMissing(k) => ErrModel::KeyMissing(k@),
            WalkError::ReferenceChainViolation(r) => ErrModel::ChainViolation(r@),
            WalkError::UnresolvedReference(r) => ErrModel::Unresolved(r@),
        }
    }
}

pub open spec fn walk_message_model(e: ErrModel) -> Seq<char> {
    match e {
        ErrModel::KeyMissing(k) => "missing expected key `"@ + k + "`"@,
        ErrModel::ChainViolation(r) => "$ref cannot link to another $ref: `"@ + r + "`"@,
        ErrModel::Unresolved(r) => "document was not pre-loaded: `"@ + r + "`"@,
    }
}

impl WalkError {
    /// A human-readable account of the failure.
    pub fn message(&self) -> (m: String)
        ensures
            m@ == walk_message_model(self@),
    {
        match self {
            WalkError::StructuralKeyMissing(k) => {
                let head: String = "missing expected key `".to_owned();
                head.concat(k.as_str()).concat("`")
            },
            WalkError::ReferenceChainViolation(r) => {
                let head: String = "$ref cannot link to another $ref: `".to_owned();
                head.concat(r.as_str()).concat("`")
            },
            WalkError::UnresolvedReference(r) => {
                let head: String = "document was not pre-loaded: `".to_owned();
                head.concat(r.as_str()).concat("`")
            },
        }
    }
}

/// Spec-level image of an `OpenapiSchemerError`.
pub enum ApiErrModel {
    OperationList(ErrModel),
    PathList(ErrModel),
    SchemaList(ErrModel),
}

/// A walk failure tagged with the query that raised it.
#[derive(Debug)]
pub enum OpenapiSchemerError {
    OperationList(WalkError),
    PathList(WalkError),
    SchemaList(WalkError),
}

impl View for OpenapiSchemerError {
    type V = ApiErrModel;

    open spec fn view(&self) -> ApiErrModel {
        match self {
            OpenapiSchemerError::OperationList(e) => ApiErrModel::OperationList(e@),
            OpenapiSchemerError::PathList(e) => ApiErrModel::PathList(e@),
            OpenapiSchemerError::SchemaList(e) => ApiErrModel::SchemaList(e@),
        }
    }
}

pub open spec fn api_message_model(e: ApiErrModel) -> Seq<char> {
    match e {
        ApiErrModel::OperationList(w) => walk_message_model(w),
        ApiErrModel::PathList(w) => walk_message_model(w),
        ApiErrModel::SchemaList(w) => walk_message_model(w),
    }
}

impl OpenapiSchemerError {
    /// The message of the underlying walk failure.
    pub fn message(&self) -> (m: String)
        ensures
            m@ == api_message_model(self@),
    {
        match self {
            OpenapiSchemerError::OperationList(e) => e.message(),
            OpenapiSchemerError::PathList(e) => e.message(),
            OpenapiSchemerError::SchemaList(e) => e.message(),
        }
    }
}

} // verus!
