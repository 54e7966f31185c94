use oapi::check::{check_field, check_members, check_tree, copy_trail, index_text};
use oapi::{
    check_document, AnyOfSelect, NotSelect, OApiCheckTrait, OApiErrorKind, OApiParameter,
    OApiParameterLocation, OneOfSelect, OperatorSelector, ResolutionContext, ResolutionError,
    Selector, Target,
};

fn context() -> ResolutionContext<String> {
    let mut ctx = ResolutionContext::new();
    ctx.add_entry("/A".to_string(), Target::Value("integer".to_string()));
    ctx.add_entry("/wrong".to_string(), Target::Mismatch);
    ctx
}

fn plain(v: &str) -> OperatorSelector<String> {
    OperatorSelector::new_from_val(v.to_string())
}

fn reference(p: &str) -> OperatorSelector<String> {
    OperatorSelector::Val(Selector::Ref(p.to_string()))
}

fn parameter(schema: Option<OperatorSelector<String>>) -> OApiParameter<(), (), String> {
    OApiParameter {
        name: "limit".to_string(),
        in_: OApiParameterLocation::Query,
        description: None,
        required: Some(true),
        deprecated: false,
        allow_empty_value: false,
        style: None,
        explode: false,
        allow_reserved: false,
        schema,
        example: None,
        extension: (),
    }
}

fn resolution(kind: &OApiErrorKind) -> Option<ResolutionError> {
    match kind {
        OApiErrorKind::Resolution(e) => Some(e.clone()),
        OApiErrorKind::Rule(_) => None,
    }
}

#[test]
fn well_formed_document_passes_with_empty_breadcrumb() {
    let ctx = context();
    let schema = OperatorSelector::AnyOf(AnyOfSelect {
        root: vec![plain("string"), reference("#/A"), OperatorSelector::Not(NotSelect { root: vec![plain("x")] })],
    });
    let root = parameter(Some(schema));
    assert!(check_document(&root, &ctx).is_ok());
    let mut crumb: Vec<String> = Vec::new();
    assert!(root.oapi_check(&ctx, &mut crumb).is_ok());
    assert!(crumb.is_empty());
    assert!(check_document(&parameter(None), &ctx).is_ok());
}

#[test]
fn third_member_of_any_of_fails_under_schema() {
    let ctx = context();
    let schema = OperatorSelector::AnyOf(AnyOfSelect {
        root: vec![plain("string"), reference("#/A"), reference("#/missing"), reference("#/wrong")],
    });
    let err = check_document(&parameter(Some(schema)), &ctx).unwrap_err();
    assert_eq!(err.breadcrumb, vec!["schema", "anyOf", "2"]);
    assert_eq!(resolution(&err.kind), Some(ResolutionError::UnknownPath("/missing".to_string())));
}

#[test]
fn nested_failure_carries_the_nested_path() {
    let ctx = context();
    let nested = OperatorSelector::OneOf(OneOfSelect {
        root: vec![plain("a"), reference("#/wrong")],
    });
    let schema = OperatorSelector::AnyOf(AnyOfSelect {
        root: vec![plain("string"), reference("#/A"), nested],
    });
    let err = check_document(&parameter(Some(schema)), &ctx).unwrap_err();
    assert_eq!(err.breadcrumb, vec!["schema", "anyOf", "2", "oneOf", "1"]);
    assert_eq!(resolution(&err.kind), Some(ResolutionError::TypeMismatch));
}

#[test]
fn breadcrumb_is_left_at_the_failing_node() {
    let ctx = context();
    let node = OperatorSelector::Not(NotSelect { root: vec![plain("a"), reference("#/missing")] });
    let mut crumb = vec!["paths".to_string(), "get".to_string()];
    let err = node.oapi_check(&ctx, &mut crumb).unwrap_err();
    assert_eq!(crumb, vec!["paths", "get", "not", "1"]);
    assert_eq!(err.breadcrumb, crumb);
    let mut again = vec!["paths".to_string()];
    assert!(node.oapi_check_inner(&ctx, &mut again).is_err());
    assert_eq!(again, vec!["paths", "not", "1"]);
}

#[test]
fn breadcrumb_is_restored_after_success() {
    let ctx = context();
    let node = OperatorSelector::AllOf(oapi::AllOfSelect { root: vec![plain("a"), reference("#/A")] });
    let mut crumb = vec!["components".to_string()];
    assert!(check_tree(&node, &ctx, &mut crumb).is_ok());
    assert_eq!(crumb, vec!["components"]);
    assert!(check_field("schema", &node, &ctx, &mut crumb).is_ok());
    assert_eq!(crumb, vec!["components"]);
}

#[test]
fn plain_failure_has_no_further_step() {
    let ctx = context();
    let err = check_document(&reference("#/missing"), &ctx).unwrap_err();
    assert!(err.breadcrumb.is_empty());
    assert_eq!(resolution(&err.kind), Some(ResolutionError::UnknownPath("/missing".to_string())));
    let unfilled: OperatorSelector<String> = OperatorSelector::Val(Selector::Null);
    let err = check_document(&unfilled, &ctx).unwrap_err();
    assert_eq!(resolution(&err.kind), Some(ResolutionError::BadPointer));
}

#[test]
fn members_are_checked_under_kind_and_index() {
    let ctx = context();
    let mut members: Vec<OperatorSelector<String>> = Vec::new();
    for _ in 0..12 {
        members.push(plain("ok"));
    }
    members.push(reference("#/missing"));
    let mut crumb: Vec<String> = Vec::new();
    let err = check_members(&members, &ctx, &mut crumb, "allOf").unwrap_err();
    assert_eq!(err.breadcrumb, vec!["allOf", "12"]);
}

#[test]
fn index_text_is_decimal() {
    assert_eq!(index_text(0), "0");
    assert_eq!(index_text(9), "9");
    assert_eq!(index_text(10), "10");
    assert_eq!(index_text(123), "123");
    assert_eq!(index_text(4056), "4056");
    assert_eq!(index_text(usize::MAX), usize::MAX.to_string());
}

#[test]
fn copy_trail_copies_every_step() {
    let crumb = vec!["a".to_string(), "b".to_string()];
    assert_eq!(copy_trail(&crumb), crumb);
    assert!(copy_trail(&Vec::new()).is_empty());
}

#[test]
fn errors_carry_a_message() {
    let ctx = context();
    let err = check_document(&reference("#/missing"), &ctx).unwrap_err();
    assert_eq!(err.message(), "the pointer `/missing` is undefined");
    assert_eq!(ResolutionError::BadPointer.message(), "an ill formed pointer was dereferenced");
    assert_eq!(
        ResolutionError::TypeMismatch.message(),
        "the pointed value is not of the expected shape"
    );
    assert_eq!(ResolutionError::CyclicRef.message(), "a cyclic reference was stopped");
    let rule = oapi::OApiError {
        breadcrumb: vec!["info".to_string()],
        kind: OApiErrorKind::Rule("title is empty".to_string()),
    };
    assert_eq!(rule.message(), "title is empty");
}

#[test]
fn records_without_schema_values_always_pass() {
    let ctx = context();
    let scheme = oapi::OApiSecuritySchemeHttp {
        description: None,
        scheme: "basic".to_string(),
        bearer_format: None,
        extension: (),
    };
    let mut crumb = vec!["components".to_string()];
    assert!(scheme.oapi_check(&ctx, &mut crumb).is_ok());
    assert_eq!(crumb, vec!["components"]);
    let examples: oapi::OApiExampleSelector<()> = oapi::OApiExampleSelector::Multiple(vec![]);
    assert!(check_document(&examples, &ctx).is_ok());
    let flow = oapi::OApiOAuthFlowImplicit {
        authorization_url: url::Url::parse("https://example.com/auth").unwrap(),
        refresh_url: None,
        scopes: std::collections::HashMap::new(),
        extension: (),
    };
    assert!(flow.oapi_check_inner(&ctx, &mut crumb).is_ok());
    assert_eq!(flow.clone(), flow);
    assert_eq!(crumb, vec!["components"]);
}
