//! A document model for machine-readable API descriptions: schema values that
//! are either direct values or references, composed under boolean operators,
//! resolved against a resolution context and validated with a path trail.

pub mod check;
pub mod context;
pub mod document;
pub mod error;
pub mod laws;
pub mod objects;
pub mod operators;
pub mod wire;

pub use check::{check_document, OApiCheckTrait};
pub use context::{Entry, NodeHandle, Registration, ResolutionContext, Selector, Target};
pub use document::decode_value;
pub use error::{OApiError, OApiErrorKind, ResolutionError};
pub use operators::{
    AllOfSelect, AnyOfSelect, NotSelect, OApiOperator, OneOfSelect, OperatorSelector,
};
pub use objects::{
    OApiContact, OApiDiscriminator, OApiExample, OApiExampleSelector, OApiExternalDocumentation,
    OApiInfo, OApiLicense, OApiOAuthFlowImplicit, OApiParameter, OApiParameterLocation,
    OApiParameterStyle, OApiSchemaCommon, OApiSecuritySchemeHttp,
};
pub use wire::{decode, encode, Field, Node, OperatorKind};
