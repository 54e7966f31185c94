//! Filling a resolution context from a JSON document, location by location.

use crate::context::{
    locate_from, normalize_pointer, pointer_part, Entry, NodeHandle, ResolutionContext, Target,
};
use crate::operators::OperatorSelector;
use crate::error::{ResolutionError, ResolutionFailure};
use crate::wire::{
    decode, decode_spec, find_reference, node_view, reference_of, shape_of, Field, Node, Wire,
};
use vstd::prelude::*;

verus! {

/// What `serde_json::Value::pointer` finds in a document at an in-document
/// pointer; nothing where the pointer leads nowhere.
pub uninterp spec fn document_at(document: serde_json::Value, pointer: Seq<char>) -> Option<
    serde_json::Value,
>;

/// What a `serde_json::Value` holds, as a plain value.
pub uninterp spec fn value_wire(value: serde_json::Value) -> Wire;

/// Calls `serde_json::Value::pointer` and clones what it finds. Trusted: the
/// value handed back is the one that the document holds at the pointer, and
/// nothing is handed back where the pointer leads nowhere.
#[verifier::external_body]
fn lookup(document: &serde_json::Value, pointer: &str) -> (found: Option<serde_json::Value>)
    ensures
        found == document_at(*document, pointer@),
{
    document.pointer(pointer).cloned()
}

/// Copies a `serde_json::Value` into a fragment, variant by variant. A number
/// is kept as the text that `serde_json::Number` displays. Trusted: the
/// fragment holds what the value holds.
#[verifier::external_body]
fn node_of_value(value: &serde_json::Value) -> (node: Node)
    ensures
        node_view(node) == value_wire(*value),
{
    match value {
        serde_json::Value::Null => Node::Null,
        serde_json::Value::Bool(b) => Node::Bool(*b),
        serde_json::Value::Number(n) => Node::Number(n.to_string()),
        serde_json::Value::String(s) => Node::Text(s.clone()),
        serde_json::Value::Array(items) => Node::List(items.iter().map(node_of_value).collect()),
        serde_json::Value::Object(map) => Node::Record(
            map.iter().map(|(k, v)| Field { key: k.clone(), value: node_of_value(v) }).collect(),
        ),
    }
}

/// Whether a target is what a fragment found in a document stands for: a
/// reference where the fragment spells one out, else the fragment itself.
pub open spec fn stands_for(target: Target<Node>, w: Wire) -> bool {
    let alias = match w {
        Wire::Record(fields) => reference_of(fields),
        _ => None,
    };
    match alias {
        Some(p) => target is Alias && target->Alias_0@ == p,
        None => target is Value && node_view(target->Value_0) == w,
    }
}

/// The target that a fragment found in a document stands for.
pub fn target_of(node: Node) -> (target: Target<Node>)
    ensures
        stands_for(target, node_view(node)),
{
    let alias = match &node {
        Node::Record(fields) => {
            proof {
                crate::wire::lemma_record_view(*fields);
            }
            find_reference(fields)
        },
        _ => None,
    };
    match alias {
        Some(p) => Target::Alias(p),
        None => Target::Value(node),
    }
}

/// Reads a JSON value as a tree of selectors.
pub fn decode_value(value: &serde_json::Value) -> (tree: OperatorSelector<Node>)
    ensures
        shape_of(tree) == decode_spec(value_wire(*value)),
{
    let node = node_of_value(value);
    decode(&node)
}

/// A location that is found stays where it is when locations are added at
/// the end.
pub proof fn lemma_locate_stable(
    before: Seq<Entry<Node>>,
    after: Seq<Entry<Node>>,
    key: Seq<char>,
    from: int,
)
    requires
        0 <= from,
        before.len() <= after.len(),
        after.take(before.len() as int) == before,
        locate_from(before, key, from).is_some(),
    ensures
        locate_from(after, key, from) == locate_from(before, key, from),
    decreases before.len() - from,
{
    if from < before.len() {
        assert(after[from] == after.take(before.len() as int)[from]);
        if before[from].pointer@ != key {
            lemma_locate_stable(before, after, key, from + 1);
        }
    }
}

/// A location added at the end is found under its pointer where no earlier
/// location has that pointer.
pub proof fn lemma_locate_added(before: Seq<Entry<Node>>, added: Entry<Node>, from: int)
    requires
        0 <= from <= before.len(),
        locate_from(before, added.pointer@, from).is_none(),
    ensures
        locate_from(before.push(added), added.pointer@, from) == Some(before.len() as int),
    decreases before.len() - from,
{
    let after = before.push(added);
    if from < before.len() {
        assert(after[from] == before[from]);
        lemma_locate_added(before, added, from + 1);
    } else {
        assert(after[from] == added);
    }
}

/// Locations taken from the document stay so when further locations taken
/// from it are added at the end.
pub proof fn lemma_taken_from_kept(
    before: &ResolutionContext<Node>,
    after: &ResolutionContext<Node>,
    document: &serde_json::Value,
    from: int,
)
    requires
        0 <= from <= before.entries@.len() <= after.entries@.len(),
        after.entries@.take(before.entries@.len() as int) == before.entries@,
        before.taken_from(document, from),
        after.taken_from(document, before.entries@.len() as int),
    ensures
        after.taken_from(document, from),
{
    assert forall|k: int| from <= k < after.entries@.len() implies {
        let entry = #[trigger] after.entries@[k];
        match document_at(*document, entry.pointer@) {
            Some(found) => stands_for(entry.target, value_wire(found)),
            None => false,
        }
    } by {
        if k < before.entries@.len() {
            assert(after.entries@[k] == after.entries@.take(before.entries@.len() as int)[k]);
            assert(after.entries@[k] == before.entries@[k]);
        }
    }
}

impl ResolutionContext<Node> {
    /// Whether every location from position `from` on was taken from the
    /// document: the document holds something at the location's pointer, and
    /// the location's target stands for it.
    pub open spec fn taken_from(&self, document: &serde_json::Value, from: int) -> bool {
        forall|k: int|
            from <= k < self.entries@.len() ==> {
                let entry = #[trigger] self.entries@[k];
                match document_at(*document, entry.pointer@) {
                    Some(found) => stands_for(entry.target, value_wire(found)),
                    None => false,
                }
            }
    }

    /// Finds the location a descriptor names, and loads it from the document
    /// where the context does not hold it yet. A location that is held is
    /// never loaded again; a new one is added at the end.
    pub fn load(&mut self, document: &serde_json::Value, raw: &str) -> (r: Result<
        NodeHandle,
        ResolutionError,
    >)
        ensures
            final(self).registrations == old(self).registrations,
            match old(self).locate(raw@) {
                Some(at) => r == Ok::<NodeHandle, ResolutionError>(NodeHandle { index: at as usize })
                    && final(self).entries == old(self).entries,
                None => match document_at(*document, pointer_part(raw@)) {
                    None => r.is_err() && r->Err_0@ == ResolutionFailure::UnknownPath(
                        pointer_part(raw@),
                    )
                        && final(self).entries == old(self).entries,
                    Some(found) => {
                        &&& r == Ok::<NodeHandle, ResolutionError>(
                            NodeHandle { index: old(self).entries@.len() as usize },
                        )
                        &&& final(self).entries@.len() == old(self).entries@.len() + 1
                        &&& final(self).entries@.drop_last() == old(self).entries@
                        &&& final(self).entries@.last().pointer@ == pointer_part(raw@)
                        &&& stands_for(final(self).entries@.last().target, value_wire(found))
                    },
                },
            },
            r.is_ok() ==> final(self).locate(raw@) == Some(r.unwrap().index as int),
            old(self).entries@.len() <= final(self).entries@.len(),
            final(self).entries@.take(old(self).entries@.len() as int) == old(self).entries@,
            final(self).taken_from(document, old(self).entries@.len() as int),
    {
        match self.load_or_get(raw) {
            Ok(handle) => {
                assert(self.entries@.take(self.entries@.len() as int) =~= self.entries@);
                Ok(handle)
            },
            Err(_) => {
                let pointer = normalize_pointer(raw);
                match lookup(document, pointer.as_str()) {
                    None => {
                        assert(self.entries@.take(self.entries@.len() as int) =~= self.entries@);
                        Err(ResolutionError::UnknownPath(pointer))
                    },
                    Some(found) => {
                        let at = self.entries.len();
                        let target = target_of(node_of_value(&found));
                        self.add_entry(pointer, target);
                        proof {
                            assert(self.entries@.drop_last() =~= old(self).entries@);
                            assert(self.entries@.take(old(self).entries@.len() as int) =~= old(
                                self,
                            ).entries@);
                            lemma_locate_added(old(self).entries@, self.entries@.last(), 0);
                        }
                        Ok(NodeHandle { index: at })
                    },
                }
            },
        }
    }

    /// Loads from the document every reference that was registered while the
    /// graph was built. Afterwards each registered reference is held by the
    /// context, unless the document has nothing at its pointer. Locations
    /// that were held before stay where they are.
    pub fn load_registered(&mut self, document: &serde_json::Value)
        ensures
            final(self).registrations == old(self).registrations,
            old(self).entries@.len() <= final(self).entries@.len(),
            final(self).entries@.take(old(self).entries@.len() as int) == old(self).entries@,
            final(self).taken_from(document, old(self).entries@.len() as int),
            forall|i: int|
                0 <= i < old(self).registrations@.len() ==> {
                    let raw = #[trigger] old(self).registrations@[i].pointer@;
                    final(self).locate(raw).is_some() || document_at(
                        *document,
                        pointer_part(raw),
                    ).is_none()
                },
    {
        let mut i: usize = 0;
        assert(self.entries@.take(self.entries@.len() as int) =~= self.entries@);
        while i < self.registrations.len()
            invariant
                i <= self.registrations@.len(),
                self.registrations == old(self).registrations,
                old(self).entries@.len() <= self.entries@.len(),
                self.entries@.take(old(self).entries@.len() as int) == old(self).entries@,
                self.taken_from(document, old(self).entries@.len() as int),
                forall|j: int|
                    0 <= j < i ==> {
                        let raw = #[trigger] old(self).registrations@[j].pointer@;
                        self.locate(raw).is_some() || document_at(
                            *document,
                            pointer_part(raw),
                        ).is_none()
                    },
            decreases self.registrations@.len() - i,
        {
            let ghost before = self.entries@;
            let ghost earlier = *self;
            let raw = self.registrations[i].pointer.clone();
            let _ = self.load(document, raw.as_str());
            proof {
                let after = self.entries@;
                assert(after.take(before.len() as int) =~= before);
                assert(after.take(old(self).entries@.len() as int) =~= before.take(
                    old(self).entries@.len() as int,
                ));
                lemma_taken_from_kept(
                    &earlier,
                    &*self,
                    document,
                    old(self).entries@.len() as int,
                );
                assert forall|j: int| 0 <= j < i + 1 implies {
                    let r = #[trigger] old(self).registrations@[j].pointer@;
                    self.locate(r).is_some() || document_at(*document, pointer_part(r)).is_none()
                } by {
                    let r = old(self).registrations@[j].pointer@;
                    if j < i {
                        if locate_from(before, pointer_part(r), 0).is_some() {
                            lemma_locate_stable(before, after, pointer_part(r), 0);
                        }
                    }
                }
            }
            i += 1;
        }
    }

    /// Whether every reference that stands at one of the first `upto`
    /// locations is held by the context, unless the document has nothing at
    /// its pointer.
    pub open spec fn aliases_loaded(&self, document: &serde_json::Value, upto: int) -> bool {
        forall|j: int|
            0 <= j < upto && j < self.entries@.len() && (#[trigger] self.entries@[j]).target is Alias
                ==> {
                let raw = self.entries@[j].target->Alias_0@;
                self.locate(raw).is_some() || document_at(*document, pointer_part(raw)).is_none()
            }
    }

    /// Loads from the document what the references among the locations lead
    /// to, and what those lead to in turn, visiting at most `limit`
    /// locations. Hands back whether every location was visited; then no
    /// reference in the context leads to a location that the document has
    /// and the context lacks.
    pub fn load_aliases(&mut self, document: &serde_json::Value, limit: usize) -> (complete: bool)
        ensures
            final(self).registrations == old(self).registrations,
            old(self).entries@.len() <= final(self).entries@.len(),
            final(self).entries@.take(old(self).entries@.len() as int) == old(self).entries@,
            final(self).taken_from(document, old(self).entries@.len() as int),
            complete == (final(self).entries@.len() <= limit),
            final(self).aliases_loaded(document, limit as int),
    {
        let mut at: usize = 0;
        assert(self.entries@.take(self.entries@.len() as int) =~= self.entries@);
        while at < limit && at < self.entries.len()
            invariant
                at <= limit,
                self.registrations == old(self).registrations,
                old(self).entries@.len() <= self.entries@.len(),
                self.entries@.take(old(self).entries@.len() as int) == old(self).entries@,
                self.taken_from(document, old(self).entries@.len() as int),
                self.aliases_loaded(document, at as int),
            decreases limit - at,
        {
            let ghost before = self.entries@;
            let ghost earlier = *self;
            let next = match &self.entries[at].target {
                Target::Alias(raw) => Some(raw.clone()),
                _ => None,
            };
            match next {
                Some(raw) => {
                    let _ = self.load(document, raw.as_str());
                },
                None => {},
            }
            proof {
                let after = self.entries@;
                assert(after.take(before.len() as int) =~= before);
                assert(after.take(old(self).entries@.len() as int) =~= before.take(
                    old(self).entries@.len() as int,
                ));
                lemma_taken_from_kept(
                    &earlier,
                    &*self,
                    document,
                    old(self).entries@.len() as int,
                );
                assert forall|j: int|
                    0 <= j < at + 1 && j < after.len() && (#[trigger] after[j]).target is Alias implies {
                    let r = after[j].target->Alias_0@;
                    self.locate(r).is_some() || document_at(*document, pointer_part(r)).is_none()
                } by {
                    assert(after[j] == after.take(before.len() as int)[j]);
                    assert(after[j] == before[j]);
                    let r = after[j].target->Alias_0@;
                    if j < at {
                        if locate_from(before, pointer_part(r), 0).is_some() {
                            lemma_locate_stable(before, after, pointer_part(r), 0);
                        }
                    }
                }
            }
            at += 1;
        }
        self.entries.len() <= limit
    }
}

} // verus!
