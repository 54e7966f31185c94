//! The attribute records of the document model.

use crate::check::{check_field, under, OApiCheckTrait};
use crate::context::ResolutionContext;
use crate::error::{Failure, OApiError};
use crate::operators::OperatorSelector;
use std::collections::HashMap;
use vstd::prelude::*;

verus! {

/// `url::Url`, carried through as it is.
#[verifier::external_type_specification]
#[verifier::external_body]
pub struct ExUrl(url::Url);

/// `Clone` of `url::Url`, which the crate derives. Nothing is claimed of the
/// copy.
pub assume_specification[ <url::Url as Clone>::clone ](url: &url::Url) -> (copy: url::Url);

/// `serde_json::Value`, carried through as it is.
#[verifier::external_type_specification]
#[verifier::external_body]
pub struct ExValue(serde_json::Value);

/// `Clone` of `serde_json::Value`, which the crate derives. Nothing is
/// claimed of the copy.
pub assume_specification[ <serde_json::Value as Clone>::clone ](value: &serde_json::Value) -> (copy:
    serde_json::Value);

/// Whom to contact about the described interface.
#[derive(Clone, Debug, PartialEq)]
pub struct OApiContact {
    pub name: Option<String>,
    pub url: Option<String>,
    pub email: Option<String>,
}

/// The license of the described interface.
#[derive(Clone, Debug, PartialEq)]
pub struct OApiLicense {
    pub name: String,
    pub url: Option<String>,
}

/// General information about the described interface.
#[derive(Clone, Debug, PartialEq)]
pub struct OApiInfo {
    pub title: String,
    pub description: Option<String>,
    pub terms_of_services: Option<String>,
    pub contact: Option<OApiContact>,
    pub license: Option<OApiLicense>,
    pub version: String,
}

impl OApiInfo {
    pub fn title(&self) -> (r: &String)
        ensures
            *r == self.title,
    {
        &self.title
    }

    pub fn description(&self) -> (r: &Option<String>)
        ensures
            *r == self.description,
    {
        &self.description
    }

    pub fn terms_of_services(&self) -> (r: &Option<String>)
        ensures
            *r == self.terms_of_services,
    {
        &self.terms_of_services
    }

    pub fn contact(&self) -> (r: &Option<OApiContact>)
        ensures
            *r == self.contact,
    {
        &self.contact
    }

    pub fn license(&self) -> (r: &Option<OApiLicense>)
        ensures
            *r == self.license,
    {
        &self.license
    }

    pub fn version(&self) -> (r: &String)
        ensures
            *r == self.version,
    {
        &self.version
    }
}

/// One example of a value, with its vendor extension.
#[derive(Clone, Debug, PartialEq)]
pub struct OApiExample<ExampleExt> {
    pub summary: Option<String>,
    pub description: Option<String>,
    pub extension: ExampleExt,
}

/// One example or several.
#[derive(Clone, Debug, PartialEq)]
pub enum OApiExampleSelector<ExampleExt> {
    Single(OApiExample<ExampleExt>),
    Multiple(Vec<OApiExample<ExampleExt>>),
}

/// Where a parameter is carried.
#[derive(Clone, Copy, Debug, PartialEq, Eq, Structural)]
pub enum OApiParameterLocation {
    Query,
    Header,
    Path,
    Cookie,
}

/// How a parameter is written out.
#[derive(Clone, Copy, Debug, PartialEq, Eq, Structural)]
pub enum OApiParameterStyle {
    Matrix,
    Label,
    Form,
    Simple,
    SpaceDelimited,
    PipeDelimited,
    DeepObject,
}

/// A parameter of an operation. `Schema` is the shape of schema values.
#[derive(Clone, Debug, PartialEq)]
pub struct OApiParameter<ParameterExt, ExampleExt, Schema> {
    pub name: String,
    pub in_: OApiParameterLocation,
    pub description: Option<String>,
    pub required: Option<bool>,
    pub deprecated: bool,
    pub allow_empty_value: bool,
    pub style: Option<OApiParameterStyle>,
    pub explode: bool,
    pub allow_reserved: bool,
    pub schema: Option<OperatorSelector<Schema>>,
    pub example: Option<OApiExampleSelector<ExampleExt>>,
    pub extension: ParameterExt,
}

impl<ParameterExt, ExampleExt, Schema> OApiParameter<ParameterExt, ExampleExt, Schema> {
    pub fn name(&self) -> (r: &String)
        ensures
            *r == self.name,
    {
        &self.name
    }

    pub fn in_(&self) -> (r: &OApiParameterLocation)
        ensures
            *r == self.in_,
    {
        &self.in_
    }

    pub fn description(&self) -> (r: &Option<String>)
        ensures
            *r == self.description,
    {
        &self.description
    }

    pub fn required(&self) -> (r: &Option<bool>)
        ensures
            *r == self.required,
    {
        &self.required
    }

    pub fn deprecated(&self) -> (r: &bool)
        ensures
            *r == self.deprecated,
    {
        &self.deprecated
    }

    pub fn allow_empty_value(&self) -> (r: &bool)
        ensures
            *r == self.allow_empty_value,
    {
        &self.allow_empty_value
    }

    pub fn style(&self) -> (r: &Option<OApiParameterStyle>)
        ensures
            *r == self.style,
    {
        &self.style
    }

    pub fn explode(&self) -> (r: &bool)
        ensures
            *r == self.explode,
    {
        &self.explode
    }

    pub fn allow_reserved(&self) -> (r: &bool)
        ensures
            *r == self.allow_reserved,
    {
        &self.allow_reserved
    }

    pub fn schema(&self) -> (r: &Option<OperatorSelector<Schema>>)
        ensures
            *r == self.schema,
    {
        &self.schema
    }

    pub fn example(&self) -> (r: &Option<OApiExampleSelector<ExampleExt>>)
        ensures
            *r == self.example,
    {
        &self.example
    }

    pub fn extension(&self) -> (r: &ParameterExt)
        ensures
            *r == self.extension,
    {
        &self.extension
    }
}

impl<ParameterExt, ExampleExt, Schema: OApiCheckTrait<ResolutionContext<Schema>>> OApiCheckTrait<
    ResolutionContext<Schema>,
> for OApiParameter<ParameterExt, ExampleExt, Schema> {
    /// A parameter fails where its schema fails, under the step `schema`.
    open spec fn violation(&self, state: &ResolutionContext<Schema>) -> Option<Failure> {
        match self.schema {
            None => None,
            Some(s) => under(seq!["schema"@], s.violation(state)),
        }
    }

    fn oapi_check_inner(
        &self,
        state: &ResolutionContext<Schema>,
        bread_crumb: &mut Vec<String>,
    ) -> (r: Result<(), OApiError>) {
        match &self.schema {
            None => Ok(()),
            Some(s) => check_field("schema", s, state, bread_crumb),
        }
    }

    fn oapi_check(&self, state: &ResolutionContext<Schema>, bread_crumb: &mut Vec<String>) -> (r:
        Result<(), OApiError>) {
        self.oapi_check_inner(state, bread_crumb)
    }
}

/// The HTTP security scheme.
#[derive(Clone, Debug, PartialEq)]
pub struct OApiSecuritySchemeHttp<SecuritySchemeHttpExt> {
    pub description: Option<String>,
    pub scheme: String,
    pub bearer_format: Option<String>,
    pub extension: SecuritySchemeHttpExt,
}

impl<SecuritySchemeHttpExt> OApiSecuritySchemeHttp<SecuritySchemeHttpExt> {
    pub fn description(&self) -> (r: &Option<String>)
        ensures
            *r == self.description,
    {
        &self.description
    }

    pub fn scheme(&self) -> (r: &String)
        ensures
            *r == self.scheme,
    {
        &self.scheme
    }

    pub fn bearer_format(&self) -> (r: &Option<String>)
        ensures
            *r == self.bearer_format,
    {
        &self.bearer_format
    }

    pub fn extension(&self) -> (r: &SecuritySchemeHttpExt)
        ensures
            *r == self.extension,
    {
        &self.extension
    }
}

/// The implicit OAuth flow.
#[derive(Clone, Debug, PartialEq)]
pub struct OApiOAuthFlowImplicit<OAuthFlowImplicitExt> {
    pub authorization_url: url::Url,
    pub refresh_url: Option<String>,
    pub scopes: HashMap<String, String>,
    pub extension: OAuthFlowImplicitExt,
}

impl<OAuthFlowImplicitExt> OApiOAuthFlowImplicit<OAuthFlowImplicitExt> {
    pub fn authorization_url(&self) -> (r: &url::Url)
        ensures
            *r == self.authorization_url,
    {
        &self.authorization_url
    }

    pub fn refresh_url(&self) -> (r: &Option<String>)
        ensures
            *r == self.refresh_url,
    {
        &self.refresh_url
    }

    pub fn scopes(&self) -> (r: &HashMap<String, String>)
        ensures
            *r == self.scopes,
    {
        &self.scopes
    }

    pub fn extension(&self) -> (r: &OAuthFlowImplicitExt)
        ensures
            *r == self.extension,
    {
        &self.extension
    }
}

/// Names the property that tells the shapes of a composed schema apart.
#[derive(Clone, Debug, PartialEq)]
pub struct OApiDiscriminator {
    pub property_name: String,
}

/// A pointer to documentation kept elsewhere.
#[derive(Clone, Debug, PartialEq)]
pub struct OApiExternalDocumentation {
    pub url: String,
    pub description: Option<String>,
}

/// The attributes that every schema has, each one a schema value itself.
#[derive(Clone, Debug, PartialEq)]
pub struct OApiSchemaCommon {
    pub nullable: Option<OperatorSelector<bool>>,
    pub read_only: Option<OperatorSelector<bool>>,
    pub write_only: Option<OperatorSelector<bool>>,
    pub example: Option<OperatorSelector<serde_json::Value>>,
    pub deprecated: Option<OperatorSelector<bool>>,
    pub discriminator: Option<OperatorSelector<OApiDiscriminator>>,
    pub external_docs: Option<OperatorSelector<OApiExternalDocumentation>>,
}

impl Default for OApiSchemaCommon {
    /// Every attribute absent.
    fn default() -> (made: Self)
        ensures
            made.nullable.is_none(),
            made.read_only.is_none(),
            made.write_only.is_none(),
            made.example.is_none(),
            made.deprecated.is_none(),
            made.discriminator.is_none(),
            made.external_docs.is_none(),
    {
        OApiSchemaCommon {
            nullable: None,
            read_only: None,
            write_only: None,
            example: None,
            deprecated: None,
            discriminator: None,
            external_docs: None,
        }
    }
}

impl OApiSchemaCommon {
    pub fn nullable(&self) -> (r: &Option<OperatorSelector<bool>>)
        ensures
            *r == self.nullable,
    {
        &self.nullable
    }

    pub fn read_only(&self) -> (r: &Option<OperatorSelector<bool>>)
        ensures
            *r == self.read_only,
    {
        &self.read_only
    }

    pub fn write_only(&self) -> (r: &Option<OperatorSelector<bool>>)
        ensures
            *r == self.write_only,
    {
        &self.write_only
    }

    pub fn example(&self) -> (r: &Option<OperatorSelector<serde_json::Value>>)
        ensures
            *r == self.example,
    {
        &self.example
    }

    pub fn deprecated(&self) -> (r: &Option<OperatorSelector<bool>>)
        ensures
            *r == self.deprecated,
    {
        &self.deprecated
    }

    pub fn discriminator(&self) -> (r: &Option<OperatorSelector<OApiDiscriminator>>)
        ensures
            *r == self.discriminator,
    {
        &self.discriminator
    }

    pub fn external_docs(&self) -> (r: &Option<OperatorSelector<OApiExternalDocumentation>>)
        ensures
            *r == self.external_docs,
    {
        &self.external_docs
    }
}

impl<S, SecuritySchemeHttpExt> OApiCheckTrait<S> for OApiSecuritySchemeHttp<SecuritySchemeHttpExt> {
    /// A security scheme holds no schema value, so nothing below it can fail.
    open spec fn violation(&self, state: &S) -> Option<Failure> {
        None
    }

    fn oapi_check_inner(&self, state: &S, bread_crumb: &mut Vec<String>) -> (r: Result<
        (),
        OApiError,
    >) {
        Ok(())
    }

    fn oapi_check(&self, state: &S, bread_crumb: &mut Vec<String>) -> (r: Result<(), OApiError>) {
        self.oapi_check_inner(state, bread_crumb)
    }
}

impl<S, OAuthFlowImplicitExt> OApiCheckTrait<S> for OApiOAuthFlowImplicit<OAuthFlowImplicitExt> {
    /// A flow holds no schema value, so nothing below it can fail.
    open spec fn violation(&self, state: &S) -> Option<Failure> {
        None
    }

    fn oapi_check_inner(&self, state: &S, bread_crumb: &mut Vec<String>) -> (r: Result<
        (),
        OApiError,
    >) {
        Ok(())
    }

    fn oapi_check(&self, state: &S, bread_crumb: &mut Vec<String>) -> (r: Result<(), OApiError>) {
        self.oapi_check_inner(state, bread_crumb)
    }
}

impl<S, ExampleExt> OApiCheckTrait<S> for OApiExampleSelector<ExampleExt> {
    /// Examples hold no schema value, so nothing below them can fail.
    open spec fn violation(&self, state: &S) -> Option<Failure> {
        None
    }

    fn oapi_check_inner(&self, state: &S, bread_crumb: &mut Vec<String>) -> (r: Result<
        (),
        OApiError,
    >) {
        Ok(())
    }

    fn oapi_check(&self, state: &S, bread_crumb: &mut Vec<String>) -> (r: Result<(), OApiError>) {
        self.oapi_check_inner(state, bread_crumb)
    }
}

impl<S> OApiCheckTrait<S> for bool {
    /// A truth value is always well formed.
    open spec fn violation(&self, state: &S) -> Option<Failure> {
        None
    }

    fn oapi_check_inner(&self, state: &S, bread_crumb: &mut Vec<String>) -> (r: Result<
        (),
        OApiError,
    >) {
        Ok(())
    }

    fn oapi_check(&self, state: &S, bread_crumb: &mut Vec<String>) -> (r: Result<(), OApiError>) {
        Ok(())
    }
}

impl<S> OApiCheckTrait<S> for String {
    /// A text is always well formed.
    open spec fn violation(&self, state: &S) -> Option<Failure> {
        None
    }

    fn oapi_check_inner(&self, state: &S, bread_crumb: &mut Vec<String>) -> (r: Result<
        (),
        OApiError,
    >) {
        Ok(())
    }

    fn oapi_check(&self, state: &S, bread_crumb: &mut Vec<String>) -> (r: Result<(), OApiError>) {
        Ok(())
    }
}

} // verus!
