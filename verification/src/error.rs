//! The two error families: failed resolution, and failed validation with
//! the path to the failing node.

use vstd::prelude::*;
use vstd::string::StringExecFns;

verus! {

/// Why a reference could not be turned into a value.
#[derive(Clone, Debug, PartialEq, Eq)]
pub enum ResolutionError {
    /// A selector that holds neither a value nor a reference was dereferenced.
    BadPointer,
    /// The in-document pointer leads to no location that the context holds;
    /// the error carries the pointer.
    UnknownPath(String),
    /// The location exists, but what stands there is not of the expected shape.
    TypeMismatch,
    /// The nesting or the chain of references went past the depth ceiling.
    CyclicRef,
}

/// A failed resolution as a plain value.
pub ghost enum ResolutionFailure {
    BadPointer,
    UnknownPath(Seq<char>),
    TypeMismatch,
    CyclicRef,
}

impl View for ResolutionError {
    type V = ResolutionFailure;

    open spec fn view(&self) -> ResolutionFailure {
        match *self {
            ResolutionError::BadPointer => ResolutionFailure::BadPointer,
            ResolutionError::UnknownPath(pointer) => ResolutionFailure::UnknownPath(pointer@),
            ResolutionError::TypeMismatch => ResolutionFailure::TypeMismatch,
            ResolutionError::CyclicRef => ResolutionFailure::CyclicRef,
        }
    }
}

/// What went wrong at the node where a check stopped.
#[derive(Clone, Debug, PartialEq)]
pub enum OApiErrorKind {
    /// A reference below the node could not be resolved.
    Resolution(ResolutionError),
    /// A rule of the node's own shape is broken; the text says which.
    Rule(String),
}

/// The first failure of a check, with the path from the root to the failing
/// node.
#[derive(Clone, Debug, PartialEq)]
pub struct OApiError {
    pub breadcrumb: Vec<String>,
    pub kind: OApiErrorKind,
}

/// The cause of a failure, as a plain value.
pub ghost enum Cause {
    Resolution(ResolutionFailure),
    Rule(Seq<char>),
}

/// A failure as a plain value: the path to the failing node and the cause.
pub ghost struct Failure {
    pub path: Seq<Seq<char>>,
    pub cause: Cause,
}

impl View for OApiErrorKind {
    type V = Cause;

    open spec fn view(&self) -> Cause {
        match *self {
            OApiErrorKind::Resolution(e) => Cause::Resolution(e@),
            OApiErrorKind::Rule(text) => Cause::Rule(text@),
        }
    }
}

/// The words for a failed resolution.
pub open spec fn resolution_text(e: ResolutionFailure) -> Seq<char> {
    match e {
        ResolutionFailure::BadPointer => "an ill formed pointer was dereferenced"@,
        ResolutionFailure::UnknownPath(pointer) => "the pointer `"@ + pointer + "` is undefined"@,
        ResolutionFailure::TypeMismatch => "the pointed value is not of the expected shape"@,
        ResolutionFailure::CyclicRef => "a cyclic reference was stopped"@,
    }
}

impl ResolutionError {
    /// The error in words.
    pub fn message(&self) -> (text: String)
        ensures
            text@ == resolution_text(self@),
    {
        match self {
            ResolutionError::BadPointer => String::from_str(
                "an ill formed pointer was dereferenced",
            ),
            ResolutionError::UnknownPath(pointer) => {
                let mut text = String::from_str("the pointer `");
                text.append(pointer.as_str());
                text.append("` is undefined");
                text
            },
            ResolutionError::TypeMismatch => String::from_str(
                "the pointed value is not of the expected shape",
            ),
            ResolutionError::CyclicRef => String::from_str("a cyclic reference was stopped"),
        }
    }
}

impl OApiError {
    /// The message of the failure: the text of the broken rule, or the words
    /// for the failed resolution.
    pub fn message(&self) -> (text: String)
        ensures
            text@ == match self.kind@ {
                Cause::Resolution(e) => resolution_text(e),
                Cause::Rule(rule) => rule,
            },
    {
        match &self.kind {
            OApiErrorKind::Resolution(e) => e.message(),
            OApiErrorKind::Rule(rule) => rule.clone(),
        }
    }
}

} // verus!
