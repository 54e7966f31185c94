use oapi::wire::{compose, copy_node, find_key, find_list, find_operator, find_reference, key_of};
use oapi::{
    decode, encode, AnyOfSelect, Field, Node, NotSelect, OneOfSelect, OperatorKind,
    OperatorSelector, ResolutionContext, Selector, Target,
};

fn text(s: &str) -> Node {
    Node::Text(s.to_string())
}

fn record(fields: Vec<(&str, Node)>) -> Node {
    Node::Record(fields.into_iter().map(|(k, v)| Field { key: k.to_string(), value: v }).collect())
}

fn typed(name: &str) -> Node {
    record(vec![("type", text(name))])
}

fn pointer(p: &str) -> Node {
    record(vec![("$ref", text(p))])
}

#[test]
fn one_of_record_reads_as_exclusive_choice() {
    let field = record(vec![("oneOf", Node::List(vec![pointer("#/A"), typed("string")]))]);
    let tree = decode(&field);
    let expected = OperatorSelector::OneOf(OneOfSelect {
        root: vec![
            OperatorSelector::Val(Selector::Ref("#/A".to_string())),
            OperatorSelector::Val(Selector::Obj(typed("string"))),
        ],
    });
    assert_eq!(tree, expected);
    let mut ctx: ResolutionContext<Node> = ResolutionContext::new();
    ctx.add_entry("/A".to_string(), Target::Value(typed("integer")));
    assert_eq!(tree.get(&ctx), Ok(vec![&typed("integer"), &typed("string")]));
}

#[test]
fn each_operator_key_reads_as_its_kind() {
    let items = || Node::List(vec![Node::Bool(true)]);
    let member = || vec![OperatorSelector::Val(Selector::Obj(Node::Bool(true)))];
    assert_eq!(
        decode(&record(vec![("anyOf", items())])),
        OperatorSelector::AnyOf(AnyOfSelect { root: member() })
    );
    assert_eq!(
        decode(&record(vec![("oneOf", items())])),
        OperatorSelector::OneOf(OneOfSelect { root: member() })
    );
    assert_eq!(
        decode(&record(vec![("allOf", items())])),
        OperatorSelector::AllOf(oapi::AllOfSelect { root: member() })
    );
    assert_eq!(
        decode(&record(vec![("not", items())])),
        OperatorSelector::Not(NotSelect { root: member() })
    );
}

#[test]
fn other_shapes_read_as_plain_values() {
    for node in vec![
        Node::Null,
        Node::Bool(false),
        Node::Number("12.5".to_string()),
        text("x"),
        Node::List(vec![text("a")]),
        typed("string"),
        record(vec![("anyOf", text("not a list"))]),
        record(vec![("$ref", Node::Bool(true))]),
        record(vec![]),
    ] {
        assert_eq!(decode(&node), OperatorSelector::Val(Selector::Obj(copy_node(&node))));
    }
}

#[test]
fn operator_keys_take_precedence_in_order() {
    let both = record(vec![
        ("oneOf", Node::List(vec![])),
        ("anyOf", Node::List(vec![Node::Null])),
        ("$ref", text("#/A")),
    ]);
    assert_eq!(
        decode(&both),
        OperatorSelector::AnyOf(AnyOfSelect {
            root: vec![OperatorSelector::Val(Selector::Obj(Node::Null))]
        })
    );
    let fields = match &both {
        Node::Record(fields) => fields,
        _ => unreachable!(),
    };
    assert_eq!(find_operator(fields), Some((OperatorKind::AnyOf, 1)));
    assert_eq!(find_key(fields, "$ref"), Some(2));
    assert_eq!(find_key(fields, "allOf"), None);
    assert_eq!(find_list(fields, "oneOf"), Some(0));
    assert_eq!(find_list(fields, "$ref"), None);
    assert_eq!(find_reference(fields), Some("#/A".to_string()));
}

#[test]
fn trees_are_written_out_under_their_keys() {
    let tree = OperatorSelector::AnyOf(AnyOfSelect {
        root: vec![
            OperatorSelector::Val(Selector::Ref("defs.json#/B".to_string())),
            OperatorSelector::Not(NotSelect {
                root: vec![OperatorSelector::Val(Selector::Obj(typed("null")))],
            }),
        ],
    });
    let expected = record(vec![(
        "anyOf",
        Node::List(vec![
            pointer("defs.json#/B"),
            record(vec![("not", Node::List(vec![typed("null")]))]),
        ]),
    )]);
    assert_eq!(encode(&tree), expected);
    assert_eq!(encode(&OperatorSelector::Val(Selector::Null)), Node::Null);
}

#[test]
fn reading_and_writing_round_trips() {
    let field = record(vec![(
        "allOf",
        Node::List(vec![
            pointer("#/A"),
            record(vec![("oneOf", Node::List(vec![typed("string"), pointer("other.yaml#/x/y")]))]),
            Node::Number("3".to_string()),
        ]),
    )]);
    let tree = decode(&field);
    let written = encode(&tree);
    assert_eq!(written, field);
    assert_eq!(decode(&written), tree);
}

#[test]
fn stray_keys_are_dropped_but_the_tree_stays() {
    let field = record(vec![
        ("description", text("either")),
        ("anyOf", Node::List(vec![pointer("#/A")])),
    ]);
    let tree = decode(&field);
    let written = encode(&tree);
    assert_eq!(written, record(vec![("anyOf", Node::List(vec![pointer("#/A")]))]));
    assert_eq!(decode(&written), tree);
}

#[test]
fn kinds_have_their_keys() {
    assert_eq!(key_of(OperatorKind::AnyOf), "anyOf");
    assert_eq!(key_of(OperatorKind::OneOf), "oneOf");
    assert_eq!(key_of(OperatorKind::AllOf), "allOf");
    assert_eq!(key_of(OperatorKind::Not), "not");
    let made = compose(OperatorKind::Not, vec![]);
    assert_eq!(made, OperatorSelector::Not(NotSelect { root: vec![] }));
}
