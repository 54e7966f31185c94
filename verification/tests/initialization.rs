use oapi::{
    AllOfSelect, AnyOfSelect, NotSelect, OneOfSelect, OperatorSelector, ResolutionContext, ResolutionError, Selector,
};

fn reference(p: &str) -> OperatorSelector<u64> {
    OperatorSelector::Val(Selector::Ref(p.to_string()))
}

fn registered(ctx: &ResolutionContext<u64>) -> Vec<(String, u32)> {
    ctx.registrations.iter().map(|r| (r.pointer.clone(), r.depth)).collect()
}

#[test]
fn plain_reference_registers_one_level_down() {
    let mut ctx = ResolutionContext::new();
    assert_eq!(reference("#/A").sparse_init(&mut ctx, 0), Ok(()));
    assert_eq!(registered(&ctx), vec![("#/A".to_string(), 1)]);
}

#[test]
fn inline_value_registers_nothing() {
    let mut ctx = ResolutionContext::new();
    assert_eq!(OperatorSelector::new_from_val(3u64).sparse_init(&mut ctx, 5), Ok(()));
    assert!(registered(&ctx).is_empty());
}

#[test]
fn members_are_initialized_left_to_right_one_level_deeper() {
    let inner = OperatorSelector::AllOf(AllOfSelect { root: vec![reference("#/C")] });
    let node = OperatorSelector::AnyOf(AnyOfSelect {
        root: vec![reference("#/A"), inner, reference("#/B")],
    });
    let mut ctx = ResolutionContext::new();
    assert_eq!(node.sparse_init(&mut ctx, 0), Ok(()));
    assert_eq!(
        registered(&ctx),
        vec![("#/A".to_string(), 2), ("#/C".to_string(), 3), ("#/B".to_string(), 2)]
    );
}

#[test]
fn initialization_stops_at_the_first_failure() {
    let node = OperatorSelector::AnyOf(AnyOfSelect {
        root: vec![reference("#/A"), OperatorSelector::Val(Selector::Null), reference("#/B")],
    });
    let mut ctx = ResolutionContext::new();
    assert_eq!(node.sparse_init(&mut ctx, 0), Err(ResolutionError::BadPointer));
    assert_eq!(registered(&ctx), vec![("#/A".to_string(), 2)]);
}

#[test]
fn initialization_is_bounded_by_the_depth_ceiling() {
    let mut ctx = ResolutionContext::new();
    assert_eq!(reference("#/A").sparse_init(&mut ctx, 100), Err(ResolutionError::CyclicRef));
    assert_eq!(reference("#/A").sparse_init(&mut ctx, 99), Err(ResolutionError::CyclicRef));
    assert_eq!(reference("#/A").sparse_init(&mut ctx, u32::MAX), Err(ResolutionError::CyclicRef));
    assert!(registered(&ctx).is_empty());
    assert_eq!(reference("#/A").sparse_init(&mut ctx, 98), Ok(()));
    assert_eq!(registered(&ctx), vec![("#/A".to_string(), 99)]);
}

#[test]
fn nesting_deeper_than_the_ceiling_fails() {
    let mut node = reference("#/A");
    for _ in 0..120 {
        node = OperatorSelector::AnyOf(AnyOfSelect { root: vec![node] });
    }
    let mut ctx = ResolutionContext::new();
    assert_eq!(node.sparse_init(&mut ctx, 0), Err(ResolutionError::CyclicRef));
    assert!(registered(&ctx).is_empty());
}

#[test]
fn register_records_reference_and_depth() {
    let mut ctx: ResolutionContext<u64> = ResolutionContext::new();
    assert_eq!(ctx.register(&Selector::Ref("a.json#/x".to_string()), 4), Ok(()));
    assert_eq!(ctx.register(&Selector::Obj(1), 4), Ok(()));
    assert_eq!(ctx.register(&Selector::Null, 4), Err(ResolutionError::BadPointer));
    assert_eq!(ctx.register(&Selector::Ref("#/y".to_string()), 100), Err(ResolutionError::CyclicRef));
    assert_eq!(registered(&ctx), vec![("a.json#/x".to_string(), 4)]);
    assert!(ctx.entries.is_empty());
}

#[test]
fn composite_without_members_initializes_at_any_depth() {
    let mut ctx: ResolutionContext<u64> = ResolutionContext::new();
    for depth in [0, 99, 100, 101, 5000, u32::MAX - 1] {
        let any: OperatorSelector<u64> = OperatorSelector::AnyOf(AnyOfSelect { root: vec![] });
        assert_eq!(any.sparse_init(&mut ctx, depth), Ok(()));
        let not: OperatorSelector<u64> = OperatorSelector::Not(NotSelect { root: vec![] });
        assert_eq!(not.sparse_init(&mut ctx, depth), Ok(()));
    }
    assert!(registered(&ctx).is_empty());
    let last: OperatorSelector<u64> = OperatorSelector::OneOf(OneOfSelect { root: vec![] });
    assert_eq!(last.sparse_init(&mut ctx, u32::MAX), Err(ResolutionError::CyclicRef));
}

#[test]
fn composites_over_composites_initialize_past_the_ceiling() {
    let empty = || OperatorSelector::<u64>::AllOf(AllOfSelect { root: vec![] });
    let node = OperatorSelector::AnyOf(AnyOfSelect {
        root: vec![empty(), OperatorSelector::Not(NotSelect { root: vec![empty()] }), empty()],
    });
    let mut ctx = ResolutionContext::new();
    assert_eq!(node.sparse_init(&mut ctx, 200), Ok(()));
    assert!(registered(&ctx).is_empty());
}

#[test]
fn tree_without_references_initializes() {
    let node = OperatorSelector::AnyOf(AnyOfSelect {
        root: vec![
            OperatorSelector::new_from_val(1u64),
            OperatorSelector::OneOf(OneOfSelect { root: vec![OperatorSelector::new_from_val(2)] }),
        ],
    });
    let mut ctx = ResolutionContext::new();
    assert_eq!(node.sparse_init(&mut ctx, 0), Ok(()));
    assert_eq!(node.sparse_init(&mut ctx, 96), Ok(()));
    assert_eq!(node.sparse_init(&mut ctx, 97), Err(ResolutionError::CyclicRef));
    assert!(registered(&ctx).is_empty());
    let empty: ResolutionContext<u64> = ResolutionContext::new();
    let got: Vec<u64> = node.get(&empty).unwrap().into_iter().copied().collect();
    assert_eq!(got, vec![1, 2]);
}

#[test]
fn selector_below_a_composite_meets_the_ceiling() {
    let node = OperatorSelector::AnyOf(AnyOfSelect { root: vec![reference("#/A")] });
    let mut ctx = ResolutionContext::new();
    assert_eq!(node.sparse_init(&mut ctx, 98), Err(ResolutionError::CyclicRef));
    assert!(registered(&ctx).is_empty());
    assert_eq!(node.sparse_init(&mut ctx, 97), Ok(()));
    assert_eq!(registered(&ctx), vec![("#/A".to_string(), 99)]);
}
