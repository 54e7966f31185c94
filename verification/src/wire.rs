//! The wire shape of schema values: fragments of a document, and reading
//! and writing trees of selectors as fragments.

use crate::check::OApiCheckTrait;
use crate::context::Selector;
use crate::error::{Failure, OApiError};
use crate::operators::{AllOfSelect, AnyOfSelect, NotSelect, OneOfSelect, OperatorSelector};
use vstd::prelude::*;
use vstd::string::StringExecFns;

verus! {

/// A fragment of a document, as it stands on the wire.
#[derive(Debug, PartialEq)]
pub enum Node {
    Null,
    Bool(bool),
    /// A number, kept as its text.
    Number(String),
    Text(String),
    List(Vec<Node>),
    Record(Vec<Field>),
}

/// One key of a record with its value.
#[derive(Debug, PartialEq)]
pub struct Field {
    pub key: String,
    pub value: Node,
}

/// A fragment as a plain value.
pub ghost enum Wire {
    Null,
    Bool(bool),
    Number(Seq<char>),
    Text(Seq<char>),
    List(Seq<Wire>),
    Record(Seq<(Seq<char>, Wire)>),
}

/// The plain value of a fragment.
pub open spec fn node_view(node: Node) -> Wire
    decreases node,
{
    match node {
        Node::Null => Wire::Null,
        Node::Bool(b) => Wire::Bool(b),
        Node::Number(t) => Wire::Number(t@),
        Node::Text(t) => Wire::Text(t@),
        Node::List(items) => Wire::List(
            Seq::new(
                items@.len(),
                |i: int|
                    if 0 <= i < items@.len() {
                        node_view(items@[i])
                    } else {
                        Wire::Null
                    },
            ),
        ),
        Node::Record(fields) => Wire::Record(
            Seq::new(
                fields@.len(),
                |i: int|
                    if 0 <= i < fields@.len() {
                        (fields@[i].key@, node_view(fields@[i].value))
                    } else {
                        (Seq::empty(), Wire::Null)
                    },
            ),
        ),
    }
}


impl<S> OApiCheckTrait<S> for Node {
    /// A fragment held as it is has no rule to break.
    open spec fn violation(&self, state: &S) -> Option<Failure> {
        None
    }

    fn oapi_check_inner(&self, state: &S, bread_crumb: &mut Vec<String>) -> (r: Result<
        (),
        OApiError,
    >) {
        Ok(())
    }

    fn oapi_check(&self, state: &S, bread_crumb: &mut Vec<String>) -> (r: Result<(), OApiError>) {
        Ok(())
    }
}

/// The plain values of the fields of a record.
pub open spec fn record_view(fields: Seq<Field>) -> Seq<(Seq<char>, Wire)> {
    Seq::new(fields.len(), |i: int| (fields[i].key@, node_view(fields[i].value)))
}

/// The plain values of the items of a list.
pub open spec fn list_view(items: Seq<Node>) -> Seq<Wire> {
    Seq::new(items.len(), |i: int| node_view(items[i]))
}

/// The view of a record is the record of the views of its fields.
pub proof fn lemma_record_view(fields: Vec<Field>)
    ensures
        node_view(Node::Record(fields)) == Wire::Record(record_view(fields@)),
{
    assert(node_view(Node::Record(fields))->Record_0 =~= record_view(fields@));
}

/// The view of a list is the list of the views of its items.
pub proof fn lemma_list_view(items: Vec<Node>)
    ensures
        node_view(Node::List(items)) == Wire::List(list_view(items@)),
{
    assert(node_view(Node::List(items))->List_0 =~= list_view(items@));
}

/// The four ways of composing schema values.
#[derive(Clone, Copy, Debug, PartialEq, Eq, Structural)]
pub enum OperatorKind {
    AnyOf,
    OneOf,
    AllOf,
    Not,
}

/// A tree of selectors over fragments, as a plain value.
pub ghost enum Shape {
    Composite(OperatorKind, Seq<Shape>),
    Reference(Seq<char>),
    Inline(Wire),
    Empty,
}

/// The key under which a composite of the given kind stands on the wire.
pub open spec fn kind_key(kind: OperatorKind) -> Seq<char> {
    match kind {
        OperatorKind::AnyOf => "anyOf"@,
        OperatorKind::OneOf => "oneOf"@,
        OperatorKind::AllOf => "allOf"@,
        OperatorKind::Not => "not"@,
    }
}

/// The position of the first field at or after `from` with the given key.
pub open spec fn key_from(fields: Seq<(Seq<char>, Wire)>, key: Seq<char>, from: int) -> Option<int>
    decreases fields.len() - from,
{
    if from < 0 || from >= fields.len() {
        None
    } else if fields[from].0 == key {
        Some(from)
    } else {
        key_from(fields, key, from + 1)
    }
}

/// The position of the field with the given key, where its value is a list.
pub open spec fn list_index(fields: Seq<(Seq<char>, Wire)>, key: Seq<char>) -> Option<int> {
    match key_from(fields, key, 0) {
        Some(i) => if fields[i].1 is List {
            Some(i)
        } else {
            None
        },
        None => None,
    }
}

/// The operator that a record spells out and the position of its key: the
/// first of `anyOf`, `oneOf`, `allOf`, `not` that is present with a list.
pub open spec fn operator_of(fields: Seq<(Seq<char>, Wire)>) -> Option<(OperatorKind, int)> {
    if list_index(fields, "anyOf"@) is Some {
        Some((OperatorKind::AnyOf, list_index(fields, "anyOf"@).unwrap()))
    } else if list_index(fields, "oneOf"@) is Some {
        Some((OperatorKind::OneOf, list_index(fields, "oneOf"@).unwrap()))
    } else if list_index(fields, "allOf"@) is Some {
        Some((OperatorKind::AllOf, list_index(fields, "allOf"@).unwrap()))
    } else if list_index(fields, "not"@) is Some {
        Some((OperatorKind::Not, list_index(fields, "not"@).unwrap()))
    } else {
        None
    }
}

/// The reference descriptor that a record spells out: the text under `$ref`.
pub open spec fn reference_of(fields: Seq<(Seq<char>, Wire)>) -> Option<Seq<char>> {
    match key_from(fields, "$ref"@, 0) {
        Some(i) => match fields[i].1 {
            Wire::Text(p) => Some(p),
            _ => None,
        },
        None => None,
    }
}

/// A key that is found lies within the record, at or after the start.
pub proof fn lemma_key_from_range(fields: Seq<(Seq<char>, Wire)>, key: Seq<char>, from: int)
    requires
        0 <= from,
    ensures
        match key_from(fields, key, from) {
            Some(i) => from <= i < fields.len() && fields[i].0 == key,
            None => true,
        },
    decreases fields.len() - from,
{
    if from < fields.len() {
        lemma_key_from_range(fields, key, from + 1);
    }
}

/// The operator of a record stands at a field within it that holds a list.
pub proof fn lemma_operator_range(fields: Seq<(Seq<char>, Wire)>)
    ensures
        match operator_of(fields) {
            Some((kind, i)) => 0 <= i < fields.len() && fields[i].1 is List && fields[i].0
                == kind_key(kind),
            None => true,
        },
{
    lemma_key_from_range(fields, "anyOf"@, 0);
    lemma_key_from_range(fields, "oneOf"@, 0);
    lemma_key_from_range(fields, "allOf"@, 0);
    lemma_key_from_range(fields, "not"@, 0);
}

/// The tree that a fragment spells out: a record with an operator key and a
/// list is that composite over the trees of the list's items; a record with a
/// text under `$ref` is a reference; anything else is a value held in place.
pub open spec fn decode_spec(w: Wire) -> Shape
    decreases w,
{
    match w {
        Wire::Record(fields) => match operator_of(fields) {
            Some((kind, i)) => {
                proof {
                    lemma_operator_range(fields);
                }
                let items = fields[i].1->List_0;
                Shape::Composite(
                    kind,
                    Seq::new(
                        items.len(),
                        |j: int|
                            if 0 <= j < items.len() {
                                decode_spec(items[j])
                            } else {
                                Shape::Empty
                            },
                    ),
                )
            },
            None => match reference_of(fields) {
                Some(p) => Shape::Reference(p),
                None => Shape::Inline(w),
            },
        },
        _ => Shape::Inline(w),
    }
}

/// The fragment that spells a tree out.
pub open spec fn encode_spec(s: Shape) -> Wire
    decreases s,
{
    match s {
        Shape::Composite(kind, items) => Wire::Record(
            seq![
                (
                    kind_key(kind),
                    Wire::List(
                        Seq::new(
                            items.len(),
                            |j: int|
                                if 0 <= j < items.len() {
                                    encode_spec(items[j])
                                } else {
                                    Wire::Null
                                },
                        ),
                    ),
                ),
            ],
        ),
        Shape::Reference(p) => Wire::Record(seq![("$ref"@, Wire::Text(p))]),
        Shape::Inline(w) => w,
        Shape::Empty => Wire::Null,
    }
}

/// The shapes of the members of a composite.
pub open spec fn shapes_of(members: Seq<OperatorSelector<Node>>) -> Seq<Shape>
    decreases members,
{
    Seq::new(
        members.len(),
        |j: int|
            if 0 <= j < members.len() {
                shape_of(members[j])
            } else {
                Shape::Empty
            },
    )
}

/// A tree of selectors over fragments as a plain value.
pub open spec fn shape_of(tree: OperatorSelector<Node>) -> Shape
    decreases tree,
{
    match tree {
        OperatorSelector::AnyOf(x) => Shape::Composite(OperatorKind::AnyOf, shapes_of(x.root@)),
        OperatorSelector::OneOf(x) => Shape::Composite(OperatorKind::OneOf, shapes_of(x.root@)),
        OperatorSelector::AllOf(x) => Shape::Composite(OperatorKind::AllOf, shapes_of(x.root@)),
        OperatorSelector::Not(x) => Shape::Composite(OperatorKind::Not, shapes_of(x.root@)),
        OperatorSelector::Val(Selector::Ref(p)) => Shape::Reference(p@),
        OperatorSelector::Val(Selector::Obj(n)) => Shape::Inline(node_view(n)),
        OperatorSelector::Val(Selector::Null) => Shape::Empty,
    }
}

/// A deep copy of a fragment.
pub fn copy_node(node: &Node) -> (out: Node)
    ensures
        node_view(out) == node_view(*node),
    decreases *node,
{
    match node {
        Node::Null => Node::Null,
        Node::Bool(b) => Node::Bool(*b),
        Node::Number(t) => Node::Number(t.clone()),
        Node::Text(t) => Node::Text(t.clone()),
        Node::List(items) => {
            let out = copy_nodes(items);
            proof {
                lemma_list_view(out);
                lemma_list_view(*items);
            }
            Node::List(out)
        },
        Node::Record(fields) => {
            let out = copy_fields(fields);
            proof {
                lemma_record_view(out);
                lemma_record_view(*fields);
            }
            Node::Record(out)
        },
    }
}

/// A deep copy of the items of a list.
pub fn copy_nodes(items: &Vec<Node>) -> (out: Vec<Node>)
    ensures
        list_view(out@) == list_view(items@),
    decreases *items,
{
    let mut out: Vec<Node> = Vec::new();
    let mut i: usize = 0;
    while i < items.len()
        invariant
            i <= items@.len(),
            out@.len() == i,
            forall|j: int| 0 <= j < i ==> node_view(out@[j]) == node_view(items@[j]),
        decreases items@.len() - i,
    {
        out.push(copy_node(&items[i]));
        i += 1;
    }
    assert(list_view(out@) =~= list_view(items@));
    out
}

/// A deep copy of the fields of a record.
pub fn copy_fields(fields: &Vec<Field>) -> (out: Vec<Field>)
    ensures
        record_view(out@) == record_view(fields@),
    decreases *fields,
{
    let mut out: Vec<Field> = Vec::new();
    let mut i: usize = 0;
    while i < fields.len()
        invariant
            i <= fields@.len(),
            out@.len() == i,
            forall|j: int|
                0 <= j < i ==> out@[j].key@ == fields@[j].key@ && node_view(out@[j].value)
                    == node_view(fields@[j].value),
        decreases fields@.len() - i,
    {
        assert(decreases_to!(*fields => fields[i as int]));
        out.push(Field { key: fields[i].key.clone(), value: copy_node(&fields[i].value) });
        i += 1;
    }
    assert(record_view(out@) =~= record_view(fields@));
    out
}

impl Clone for Node {
    fn clone(&self) -> (copy: Self)
        ensures
            node_view(copy) == node_view(*self),
    {
        copy_node(self)
    }
}

impl Clone for Field {
    fn clone(&self) -> (copy: Self)
        ensures
            copy.key@ == self.key@,
            node_view(copy.value) == node_view(self.value),
    {
        Field { key: self.key.clone(), value: copy_node(&self.value) }
    }
}

/// Finds the first field with the given key.
pub fn find_key(fields: &Vec<Field>, key: &str) -> (r: Option<usize>)
    ensures
        match r {
            Some(i) => key_from(record_view(fields@), key@, 0) == Some(i as int) && i
                < fields@.len(),
            None => key_from(record_view(fields@), key@, 0).is_none(),
        },
{
    let wanted = String::from_str(key);
    let mut i: usize = 0;
    while i < fields.len()
        invariant
            i <= fields@.len(),
            wanted@ == key@,
            key_from(record_view(fields@), key@, 0) == key_from(
                record_view(fields@),
                key@,
                i as int,
            ),
        decreases fields@.len() - i,
    {
        if fields[i].key == wanted {
            return Some(i);
        }
        i += 1;
    }
    None
}

/// Finds the field with the given key, where its value is a list.
pub fn find_list(fields: &Vec<Field>, key: &str) -> (r: Option<usize>)
    ensures
        match r {
            Some(i) => list_index(record_view(fields@), key@) == Some(i as int) && i
                < fields@.len() && fields@[i as int].value is List,
            None => list_index(record_view(fields@), key@).is_none(),
        },
{
    match find_key(fields, key) {
        None => None,
        Some(i) => match &fields[i].value {
            Node::List(items) => {
                proof {
                    lemma_list_view(*items);
                }
                Some(i)
            },
            _ => None,
        },
    }
}

/// Finds the operator that a record spells out.
pub fn find_operator(fields: &Vec<Field>) -> (r: Option<(OperatorKind, usize)>)
    ensures
        match r {
            Some((kind, i)) => operator_of(record_view(fields@)) == Some((kind, i as int)) && i
                < fields@.len() && fields@[i as int].value is List,
            None => operator_of(record_view(fields@)).is_none(),
        },
{
    if let Some(i) = find_list(fields, "anyOf") {
        Some((OperatorKind::AnyOf, i))
    } else if let Some(i) = find_list(fields, "oneOf") {
        Some((OperatorKind::OneOf, i))
    } else if let Some(i) = find_list(fields, "allOf") {
        Some((OperatorKind::AllOf, i))
    } else if let Some(i) = find_list(fields, "not") {
        Some((OperatorKind::Not, i))
    } else {
        None
    }
}

/// Finds the reference descriptor that a record spells out.
pub fn find_reference(fields: &Vec<Field>) -> (r: Option<String>)
    ensures
        match r {
            Some(p) => reference_of(record_view(fields@)) == Some(p@),
            None => reference_of(record_view(fields@)).is_none(),
        },
{
    match find_key(fields, "$ref") {
        None => None,
        Some(i) => match &fields[i].value {
            Node::Text(p) => Some(p.clone()),
            _ => None,
        },
    }
}

/// Builds the composite of the given kind over the members.
pub fn compose(kind: OperatorKind, members: Vec<OperatorSelector<Node>>) -> (tree: OperatorSelector<
    Node,
>)
    ensures
        shape_of(tree) == Shape::Composite(kind, shapes_of(members@)),
        tree.members() == members@,
{
    match kind {
        OperatorKind::AnyOf => OperatorSelector::AnyOf(AnyOfSelect { root: members }),
        OperatorKind::OneOf => OperatorSelector::OneOf(OneOfSelect { root: members }),
        OperatorKind::AllOf => OperatorSelector::AllOf(AllOfSelect { root: members }),
        OperatorKind::Not => OperatorSelector::Not(NotSelect { root: members }),
    }
}

/// Reads a fragment as a tree of selectors.
pub fn decode(node: &Node) -> (tree: OperatorSelector<Node>)
    ensures
        shape_of(tree) == decode_spec(node_view(*node)),
    decreases *node,
{
    match node {
        Node::Record(fields) => {
            proof {
                lemma_record_view(*fields);
            }
            match find_operator(fields) {
                Some((kind, at)) => match &fields[at].value {
                    Node::List(items) => {
                        assert(decreases_to!(*fields => fields[at as int]));
                        let members = decode_all(items);
                        proof {
                            lemma_list_view(*items);
                            let want = decode_spec(node_view(*node));
                            assert(want->Composite_1 =~= shapes_of(members@));
                        }
                        compose(kind, members)
                    },
                    _ => OperatorSelector::Val(Selector::Obj(copy_node(node))),
                },
                None => match find_reference(fields) {
                    Some(p) => OperatorSelector::Val(Selector::Ref(p)),
                    None => OperatorSelector::Val(Selector::Obj(copy_node(node))),
                },
            }
        },
        _ => OperatorSelector::Val(Selector::Obj(copy_node(node))),
    }
}

/// Reads each item of a list as a tree of selectors.
pub fn decode_all(items: &Vec<Node>) -> (members: Vec<OperatorSelector<Node>>)
    ensures
        members@.len() == items@.len(),
        forall|j: int|
            0 <= j < items@.len() ==> shape_of(#[trigger] members@[j]) == decode_spec(
                node_view(items@[j]),
            ),
    decreases *items,
{
    let mut members: Vec<OperatorSelector<Node>> = Vec::new();
    let mut i: usize = 0;
    while i < items.len()
        invariant
            i <= items@.len(),
            members@.len() == i,
            forall|j: int|
                0 <= j < i ==> shape_of(#[trigger] members@[j]) == decode_spec(
                    node_view(items@[j]),
                ),
        decreases items@.len() - i,
    {
        members.push(decode(&items[i]));
        i += 1;
    }
    members
}

/// The key of a kind.
pub fn key_of(kind: OperatorKind) -> (key: String)
    ensures
        key@ == kind_key(kind),
{
    match kind {
        OperatorKind::AnyOf => String::from_str("anyOf"),
        OperatorKind::OneOf => String::from_str("oneOf"),
        OperatorKind::AllOf => String::from_str("allOf"),
        OperatorKind::Not => String::from_str("not"),
    }
}

/// Writes a tree of selectors out as a fragment.
pub fn encode(tree: &OperatorSelector<Node>) -> (out: Node)
    ensures
        node_view(out) == encode_spec(shape_of(*tree)),
    decreases *tree,
{
    match tree {
        OperatorSelector::Val(Selector::Ref(p)) => {
            let mut fields: Vec<Field> = Vec::new();
            fields.push(Field { key: String::from_str("$ref"), value: Node::Text(p.clone()) });
            proof {
                lemma_record_view(fields);
                assert(record_view(fields@) =~= seq![("$ref"@, Wire::Text(p@))]);
            }
            Node::Record(fields)
        },
        OperatorSelector::Val(Selector::Obj(n)) => copy_node(n),
        OperatorSelector::Val(Selector::Null) => Node::Null,
        OperatorSelector::AnyOf(x) => encode_members(OperatorKind::AnyOf, &x.root),
        OperatorSelector::OneOf(x) => encode_members(OperatorKind::OneOf, &x.root),
        OperatorSelector::AllOf(x) => encode_members(OperatorKind::AllOf, &x.root),
        OperatorSelector::Not(x) => encode_members(OperatorKind::Not, &x.root),
    }
}

/// Writes a composite out: one record with the kind's key over the list of
/// the members.
pub fn encode_members(kind: OperatorKind, members: &Vec<OperatorSelector<Node>>) -> (out: Node)
    ensures
        node_view(out) == encode_spec(Shape::Composite(kind, shapes_of(members@))),
    decreases *members,
{
    let mut items: Vec<Node> = Vec::new();
    let mut i: usize = 0;
    while i < members.len()
        invariant
            i <= members@.len(),
            items@.len() == i,
            forall|j: int|
                0 <= j < i ==> node_view(items@[j]) == encode_spec(shape_of(members@[j])),
        decreases members@.len() - i,
    {
        items.push(encode(&members[i]));
        i += 1;
    }
    let ghost listed = items;
    let mut fields: Vec<Field> = Vec::new();
    fields.push(Field { key: key_of(kind), value: Node::List(items) });
    proof {
        lemma_record_view(fields);
        lemma_list_view(listed);
        let want = encode_spec(Shape::Composite(kind, shapes_of(members@)));
        assert(want->Record_0[0].1->List_0 =~= list_view(listed@));
        assert(record_view(fields@) =~= want->Record_0);
    }
    Node::Record(fields)
}

/// The four operator keys differ from each other.
pub proof fn lemma_keys_differ()
    ensures
        "anyOf"@ != "oneOf"@,
        "anyOf"@ != "allOf"@,
        "anyOf"@ != "not"@,
        "oneOf"@ != "allOf"@,
        "oneOf"@ != "not"@,
        "allOf"@ != "not"@,
{
    reveal_strlit("anyOf");
    reveal_strlit("oneOf");
    reveal_strlit("allOf");
    reveal_strlit("not");
    assert("anyOf"@[0] == 'a' && "anyOf"@[1] == 'n');
    assert("oneOf"@[0] == 'o');
    assert("allOf"@[0] == 'a' && "allOf"@[1] == 'l');
    assert("not"@.len() == 3 && "anyOf"@.len() == 5 && "oneOf"@.len() == 5 && "allOf"@.len() == 5);
}

/// A record that holds nothing but an operator key over a list spells out
/// that operator.
pub proof fn lemma_single_operator(kind: OperatorKind, items: Seq<Wire>)
    ensures
        operator_of(seq![(kind_key(kind), Wire::List(items))]) == Some((kind, 0int)),
{
    lemma_keys_differ();
    reveal_with_fuel(key_from, 3);
    let rec = seq![(kind_key(kind), Wire::List(items))];
    assert(rec[0].0 == kind_key(kind));
    assert(rec[0].1 is List);
}

/// A record that holds nothing but a text under `$ref` spells out a
/// reference, and no operator.
pub proof fn lemma_single_reference(p: Seq<char>)
    ensures
        operator_of(seq![("$ref"@, Wire::Text(p))]).is_none(),
        reference_of(seq![("$ref"@, Wire::Text(p))]) == Some(p),
{
    reveal_with_fuel(key_from, 3);
    let rec = seq![("$ref"@, Wire::Text(p))];
    assert(rec[0].0 == "$ref"@);
    assert(rec[0].1 == Wire::Text(p));
    lemma_key_from_range(rec, "anyOf"@, 0);
    lemma_key_from_range(rec, "oneOf"@, 0);
    lemma_key_from_range(rec, "allOf"@, 0);
    lemma_key_from_range(rec, "not"@, 0);
}

/// Reading a fragment as a tree, writing the tree out and reading that again
/// gives the same tree: the same operator kinds, the same members in the same
/// order, the same reference descriptors and the same values held in place.
pub proof fn law_rewritten_fragment_reads_alike(w: Wire)
    ensures
        decode_spec(encode_spec(decode_spec(w))) == decode_spec(w),
    decreases w,
{
    match w {
        Wire::Record(fields) => match operator_of(fields) {
            Some((kind, i)) => {
                lemma_operator_range(fields);
                let items = fields[i].1->List_0;
                let members = decode_spec(w)->Composite_1;
                let written = encode_spec(decode_spec(w));
                let listed = written->Record_0[0].1->List_0;
                lemma_single_operator(kind, listed);
                assert(written->Record_0 =~= seq![(kind_key(kind), Wire::List(listed))]);
                assert forall|j: int| 0 <= j < items.len() implies decode_spec(listed[j])
                    == members[j] by {
                    law_rewritten_fragment_reads_alike(items[j]);
                }
                assert(decode_spec(written)->Composite_1 =~= members);
            },
            None => match reference_of(fields) {
                Some(p) => {
                    lemma_single_reference(p);
                },
                None => {},
            },
        },
        _ => {},
    }
}

/// Whether a tree is one that reading a fragment can give: no unfilled
/// selector, and no value held in place that spells out an operator or a
/// reference itself.
pub open spec fn readable(s: Shape) -> bool
    decreases s,
{
    match s {
        Shape::Composite(_, items) => forall|j: int|
            0 <= j < items.len() ==> readable(#[trigger] items[j]),
        Shape::Reference(_) => true,
        Shape::Inline(w) => decode_spec(w) == Shape::Inline(w),
        Shape::Empty => false,
    }
}

/// Writing such a tree out and reading the fragment gives the tree back.
pub proof fn law_written_tree_reads_back(s: Shape)
    requires
        readable(s),
    ensures
        decode_spec(encode_spec(s)) == s,
    decreases s,
{
    match s {
        Shape::Composite(kind, items) => {
            let written = encode_spec(s);
            let listed = written->Record_0[0].1->List_0;
            lemma_single_operator(kind, listed);
            assert(written->Record_0 =~= seq![(kind_key(kind), Wire::List(listed))]);
            assert forall|j: int| 0 <= j < items.len() implies decode_spec(listed[j])
                == items[j] by {
                assert(readable(items[j]));
                law_written_tree_reads_back(items[j]);
            }
            assert(decode_spec(written)->Composite_1 =~= items);
        },
        Shape::Reference(p) => {
            lemma_single_reference(p);
        },
        _ => {},
    }
}

} // verus!
