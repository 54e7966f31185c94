use oapi::error::Failure;
use oapi::{
    check_document, AnyOfSelect, OApiCheckTrait, OApiError, OApiErrorKind, OperatorSelector,
    ResolutionContext, Selector, Target,
};

#[derive(Debug, PartialEq)]
struct Bounded {
    low: i64,
    high: i64,
}

impl OApiCheckTrait<ResolutionContext<Bounded>> for Bounded {
    fn violation(&self, _state: &ResolutionContext<Bounded>) -> Option<Failure> {
        unreachable!()
    }

    fn oapi_check_inner(
        &self,
        _state: &ResolutionContext<Bounded>,
        bread_crumb: &mut Vec<String>,
    ) -> Result<(), OApiError> {
        if self.low <= self.high {
            Ok(())
        } else {
            bread_crumb.push("low".to_string());
            Err(OApiError {
                breadcrumb: bread_crumb.clone(),
                kind: OApiErrorKind::Rule("low is above high".to_string()),
            })
        }
    }

    fn oapi_check(
        &self,
        state: &ResolutionContext<Bounded>,
        bread_crumb: &mut Vec<String>,
    ) -> Result<(), OApiError> {
        self.oapi_check_inner(state, bread_crumb)
    }
}

#[test]
fn rule_violation_of_the_resolved_shape_bubbles_up() {
    let mut ctx: ResolutionContext<Bounded> = ResolutionContext::new();
    ctx.add_entry("/bad".to_string(), Target::Value(Bounded { low: 3, high: 1 }));
    let node = OperatorSelector::AnyOf(AnyOfSelect {
        root: vec![
            OperatorSelector::new_from_val(Bounded { low: 0, high: 1 }),
            OperatorSelector::new_from_val(Bounded { low: 1, high: 1 }),
            OperatorSelector::Val(Selector::Ref("#/bad".to_string())),
        ],
    });
    let err = check_document(&node, &ctx).unwrap_err();
    assert_eq!(err.breadcrumb, vec!["anyOf", "2", "low"]);
    assert_eq!(err.kind, OApiErrorKind::Rule("low is above high".to_string()));
}
