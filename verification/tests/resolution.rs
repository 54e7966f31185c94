use oapi::{
    AllOfSelect, AnyOfSelect, NodeHandle, NotSelect, OApiOperator, OneOfSelect, OperatorSelector,
    ResolutionContext, ResolutionError, Selector, Target,
};

fn plain(v: u64) -> OperatorSelector<u64> {
    OperatorSelector::new_from_val(v)
}

fn reference(p: &str) -> OperatorSelector<u64> {
    OperatorSelector::Val(Selector::Ref(p.to_string()))
}

fn sample_context() -> ResolutionContext<u64> {
    let mut ctx = ResolutionContext::new();
    ctx.add_entry("/A".to_string(), Target::Value(11));
    ctx.add_entry("/B".to_string(), Target::Value(22));
    ctx.add_entry("/wrong".to_string(), Target::Mismatch);
    ctx.add_entry("/alias".to_string(), Target::Alias("#/B".to_string()));
    ctx.add_entry("/self".to_string(), Target::Alias("#/self".to_string()));
    ctx.add_entry("/dangling".to_string(), Target::Alias("#/nowhere".to_string()));
    ctx
}

fn owned(r: Result<Vec<&u64>, ResolutionError>) -> Result<Vec<u64>, ResolutionError> {
    r.map(|vals| vals.into_iter().copied().collect())
}

#[test]
fn inline_value_resolves_to_itself() {
    let ctx = sample_context();
    assert_eq!(owned(plain(7).get(&ctx)), Ok(vec![7]));
    let empty: ResolutionContext<u64> = ResolutionContext::new();
    assert_eq!(owned(plain(0).get(&empty)), Ok(vec![0]));
}

#[test]
fn new_from_val_wraps_the_value_in_place() {
    match OperatorSelector::new_from_val(5u64) {
        OperatorSelector::Val(Selector::Obj(v)) => assert_eq!(v, 5),
        other => panic!("unexpected shape {:?}", other),
    }
}

#[test]
fn default_is_a_plain_default_value() {
    let d: OperatorSelector<u64> = Default::default();
    match d {
        OperatorSelector::Val(Selector::Obj(v)) => assert_eq!(v, 0),
        other => panic!("unexpected shape {:?}", other),
    }
}

#[test]
fn every_kind_flattens_alike() {
    let ctx = sample_context();
    let members = || vec![plain(1), reference("#/A"), plain(3), reference("#/alias")];
    let expected = Ok(vec![1, 11, 3, 22]);
    let any = OperatorSelector::AnyOf(AnyOfSelect { root: members() });
    let one = OperatorSelector::OneOf(OneOfSelect { root: members() });
    let all = OperatorSelector::AllOf(AllOfSelect { root: members() });
    let not = OperatorSelector::Not(NotSelect { root: members() });
    assert_eq!(owned(any.get(&ctx)), expected);
    assert_eq!(owned(one.get(&ctx)), expected);
    assert_eq!(owned(all.get(&ctx)), expected);
    assert_eq!(owned(not.get(&ctx)), expected);
}

#[test]
fn nested_composites_concatenate_in_order() {
    let ctx = sample_context();
    let inner = OperatorSelector::AllOf(AllOfSelect { root: vec![plain(2), reference("#/B")] });
    let empty = OperatorSelector::Not(NotSelect { root: vec![] });
    let outer = OperatorSelector::AnyOf(AnyOfSelect { root: vec![plain(1), inner, empty, plain(4)] });
    assert_eq!(owned(outer.get(&ctx)), Ok(vec![1, 2, 22, 4]));
}

#[test]
fn empty_composite_resolves_to_nothing() {
    let ctx = sample_context();
    let empty = OperatorSelector::OneOf(OneOfSelect { root: vec![] });
    assert_eq!(owned(empty.get(&ctx)), Ok(vec![]));
}

#[test]
fn missing_reference_is_an_unknown_path() {
    let ctx = sample_context();
    assert_eq!(owned(reference("#/missing").get(&ctx)), Err(ResolutionError::UnknownPath("/missing".to_string())));
    assert_eq!(owned(reference("#/dangling").get(&ctx)), Err(ResolutionError::UnknownPath("/nowhere".to_string())));
}

#[test]
fn wrong_shape_is_a_type_mismatch() {
    let ctx = sample_context();
    assert_eq!(owned(reference("#/wrong").get(&ctx)), Err(ResolutionError::TypeMismatch));
}

#[test]
fn unfilled_selector_is_a_bad_pointer() {
    let ctx = sample_context();
    let node: OperatorSelector<u64> = OperatorSelector::Val(Selector::Null);
    assert_eq!(owned(node.get(&ctx)), Err(ResolutionError::BadPointer));
}

#[test]
fn first_failure_in_member_order_decides() {
    let ctx = sample_context();
    let node = OperatorSelector::OneOf(OneOfSelect {
        root: vec![plain(1), reference("#/wrong"), reference("#/missing")],
    });
    assert_eq!(owned(node.get(&ctx)), Err(ResolutionError::TypeMismatch));
    let node = OperatorSelector::OneOf(OneOfSelect {
        root: vec![reference("#/missing"), reference("#/wrong")],
    });
    assert_eq!(owned(node.get(&ctx)), Err(ResolutionError::UnknownPath("/missing".to_string())));
}

#[test]
fn cycle_of_length_one_fails_as_cyclic() {
    let ctx = sample_context();
    assert_eq!(owned(reference("#/self").get(&ctx)), Err(ResolutionError::CyclicRef));
    assert_eq!(ctx.resolve("#/self"), Err(ResolutionError::CyclicRef));
}

#[test]
fn cycle_of_length_two_fails_as_cyclic() {
    let mut ctx: ResolutionContext<u64> = ResolutionContext::new();
    ctx.add_entry("/x".to_string(), Target::Alias("#/y".to_string()));
    ctx.add_entry("/y".to_string(), Target::Alias("#/x".to_string()));
    assert_eq!(ctx.resolve("#/x"), Err(ResolutionError::CyclicRef));
}

#[test]
fn chain_of_references_up_to_the_ceiling() {
    let mut ctx: ResolutionContext<u64> = ResolutionContext::new();
    for i in 0..99 {
        ctx.add_entry(format!("/n{}", i), Target::Alias(format!("#/n{}", i + 1)));
    }
    ctx.add_entry("/n99".to_string(), Target::Value(5));
    assert_eq!(ctx.resolve("#/n0"), Ok(&5));
    let mut longer: ResolutionContext<u64> = ResolutionContext::new();
    for i in 0..100 {
        longer.add_entry(format!("/n{}", i), Target::Alias(format!("#/n{}", i + 1)));
    }
    longer.add_entry("/n100".to_string(), Target::Value(5));
    assert_eq!(longer.resolve("#/n0"), Err(ResolutionError::CyclicRef));
    assert_eq!(longer.resolve("#/n1"), Ok(&5));
}

#[test]
fn descriptors_are_cut_at_the_first_hash() {
    let ctx = sample_context();
    assert_eq!(ctx.load_or_get("#/A"), Ok(NodeHandle { index: 0 }));
    assert_eq!(ctx.load_or_get("#A"), Ok(NodeHandle { index: 0 }));
    assert_eq!(ctx.load_or_get("/A"), Ok(NodeHandle { index: 0 }));
    assert_eq!(ctx.load_or_get("A"), Ok(NodeHandle { index: 0 }));
    assert_eq!(ctx.load_or_get("other.json#/B"), Ok(NodeHandle { index: 1 }));
    assert_eq!(ctx.load_or_get("#/A#/B"), Err(ResolutionError::UnknownPath("/A#/B".to_string())));
    assert_eq!(ctx.load_or_get("#/C"), Err(ResolutionError::UnknownPath("/C".to_string())));
}

#[test]
fn empty_descriptor_names_the_root() {
    let mut ctx: ResolutionContext<u64> = ResolutionContext::new();
    ctx.add_entry("/".to_string(), Target::Value(1));
    assert_eq!(ctx.resolve(""), Ok(&1));
    assert_eq!(ctx.resolve("#"), Ok(&1));
    assert_eq!(ctx.resolve("#/"), Ok(&1));
}

#[test]
fn earlier_entry_takes_precedence() {
    let mut ctx: ResolutionContext<u64> = ResolutionContext::new();
    ctx.add_entry("/A".to_string(), Target::Value(1));
    ctx.add_entry("/A".to_string(), Target::Value(2));
    assert_eq!(ctx.resolve("#/A"), Ok(&1));
}

#[test]
fn as_typed_reads_a_handle() {
    let ctx = sample_context();
    assert_eq!(ctx.as_typed(NodeHandle { index: 1 }), Ok(&22));
    assert_eq!(ctx.as_typed(NodeHandle { index: 2 }), Err(ResolutionError::TypeMismatch));
    assert_eq!(ctx.as_typed(NodeHandle { index: 3 }), Ok(&22));
    assert_eq!(ctx.as_typed(NodeHandle { index: 60 }), Err(ResolutionError::UnknownPath(String::new())));
}

#[test]
fn operator_trait_builds_and_resolves() {
    let ctx = sample_context();
    let any: AnyOfSelect<u64> = OApiOperator::new(vec![plain(1), reference("#/A")]);
    assert_eq!(any.root().len(), 2);
    assert_eq!(one_root_len(), 1);
    assert_eq!(owned(OApiOperator::get(&any, &ctx)), Ok(vec![1, 11]));
    let one: OneOfSelect<u64> = OApiOperator::new(vec![plain(2)]);
    assert_eq!(owned(OApiOperator::get(&one, &ctx)), Ok(vec![2]));
    let all: AllOfSelect<u64> = OApiOperator::new(vec![reference("#/wrong")]);
    assert_eq!(owned(OApiOperator::get(&all, &ctx)), Err(ResolutionError::TypeMismatch));
    let not: Box<NotSelect<u64>> = OApiOperator::new(vec![plain(3), plain(4)]);
    assert_eq!(owned(OApiOperator::get(&not, &ctx)), Ok(vec![3, 4]));
}

#[test]
fn one_of_with_reference_and_inline_schema() {
    let integer: serde_json::Value = serde_json::from_str("{\"type\": \"integer\"}").unwrap();
    let string: serde_json::Value = serde_json::from_str("{\"type\": \"string\"}").unwrap();
    let mut ctx: ResolutionContext<serde_json::Value> = ResolutionContext::new();
    ctx.add_entry("/A".to_string(), Target::Value(integer.clone()));
    let field = OperatorSelector::OneOf(OneOfSelect {
        root: vec![
            OperatorSelector::Val(Selector::Ref("#/A".to_string())),
            OperatorSelector::new_from_val(string.clone()),
        ],
    });
    let got = field.get(&ctx).unwrap();
    assert_eq!(got, vec![&integer, &string]);
}

fn one_root_len() -> usize {
    let one: OneOfSelect<u64> = OApiOperator::new(vec![plain(2)]);
    one.root().len()
}

#[test]
fn default_for_bool_is_plain_false() {
    let d: OperatorSelector<bool> = Default::default();
    assert_eq!(d, OperatorSelector::new_from_val(false));
    let text: OperatorSelector<String> = Default::default();
    assert_eq!(text, OperatorSelector::new_from_val(String::new()));
}

#[test]
fn clone_copies_the_whole_tree() {
    let tree = OperatorSelector::AnyOf(AnyOfSelect {
        root: vec![
            plain(1),
            reference("#/A"),
            OperatorSelector::Not(NotSelect { root: vec![plain(2), OperatorSelector::Val(Selector::Null)] }),
        ],
    });
    assert_eq!(tree.clone(), tree);
    let all = AllOfSelect { root: vec![plain(3), reference("x.json#/y")] };
    assert_eq!(all.clone(), all);
}
