//! The resolution context: the locations of a document graph by their
//! in-document pointers, and selectors that hold a value or refer to one.

use crate::error::{ResolutionError, ResolutionFailure};
use vstd::prelude::*;

verus! {

/// The depth at which initialization and resolution give up with
/// [`ResolutionError::CyclicRef`].
pub open spec fn max_depth() -> nat {
    100
}

/// The index of the first `#` in `raw`, or `raw.len()` where there is none.
pub open spec fn first_hash(raw: Seq<char>) -> int
    decreases raw.len(),
{
    if raw.len() == 0 || raw[0] == '#' {
        0
    } else {
        1 + first_hash(raw.skip(1))
    }
}

/// The in-document pointer that a reference descriptor names: what follows the
/// first `#` (the whole descriptor where it has none), with a leading `/`
/// added unless it is there already.
pub open spec fn pointer_part(raw: Seq<char>) -> Seq<char> {
    let cut = first_hash(raw);
    let rest = if cut < raw.len() {
        raw.skip(cut + 1)
    } else {
        raw
    };
    if rest.len() > 0 && rest[0] == '/' {
        rest
    } else {
        seq!['/'] + rest
    }
}

/// Calls `sppparse::SparseMetadata::new` with an empty base path and hands
/// back the parsed pointer of the result. Trusted: the returned text is
/// `pointer_part` of the descriptor, which is how the pointer parser of
/// `sppparse` cuts a descriptor at its first `#` and puts a `/` in front.
#[verifier::external_body]
pub(crate) fn normalize_pointer(raw: &str) -> (out: String)
    ensures
        out@ == pointer_part(raw@),
{
    sppparse::SparseMetadata::new(raw.to_string(), std::path::PathBuf::new()).pointer().clone()
}

/// Reads `sppparse::MAX_SPARSE_DEPTH`. Trusted: that constant is 100.
#[verifier::external_body]
fn depth_ceiling() -> (ceiling: u32)
    ensures
        ceiling == max_depth(),
{
    sppparse::MAX_SPARSE_DEPTH
}

/// What stands at a location of the document graph.
#[derive(Clone, Debug, PartialEq)]
pub enum Target<T> {
    /// A value of the expected shape.
    Value(T),
    /// A reference to another location.
    Alias(String),
    /// Something that is not of the expected shape.
    Mismatch,
}

/// A location of the document graph: its in-document pointer and what stands
/// there.
#[derive(Clone, Debug, PartialEq)]
pub struct Entry<T> {
    pub pointer: String,
    pub target: Target<T>,
}

/// A reference that a node announced while the graph was built, with the
/// nesting depth of the node.
#[derive(Clone, Debug, PartialEq)]
pub struct Registration {
    pub pointer: String,
    pub depth: u32,
}

/// The position of a location in a context.
#[derive(Clone, Copy, Debug, PartialEq, Eq, Structural)]
pub struct NodeHandle {
    pub index: usize,
}

/// The locations of a document graph, in the order in which they were loaded,
/// and the references registered against it.
#[derive(Clone, Debug, PartialEq)]
pub struct ResolutionContext<T> {
    pub entries: Vec<Entry<T>>,
    pub registrations: Vec<Registration>,
}

/// A direct value, or a reference to one that lives elsewhere in the graph.
#[derive(Clone, Debug, PartialEq)]
pub enum Selector<T> {
    /// A reference descriptor.
    Ref(String),
    /// A value held in place.
    Obj(T),
    /// Neither: the state of a selector that was never filled.
    Null,
}

/// The position of the first entry at or after `from` whose pointer is `key`.
pub open spec fn locate_from<T>(entries: Seq<Entry<T>>, key: Seq<char>, from: int) -> Option<int>
    decreases entries.len() - from,
{
    if from < 0 || from >= entries.len() {
        None
    } else if entries[from].pointer@ == key {
        Some(from)
    } else {
        locate_from(entries, key, from + 1)
    }
}

impl<T> ResolutionContext<T> {
    /// The position of the location that the descriptor `raw` names.
    pub open spec fn locate(&self, raw: Seq<char>) -> Option<int> {
        locate_from(self.entries@, pointer_part(raw), 0)
    }

    /// The value reached from position `handle` after `depth` references were
    /// already followed.
    pub open spec fn typed_from(&self, handle: int, depth: nat) -> Result<T, ResolutionFailure>
        decreases max_depth() - depth,
    {
        if depth >= max_depth() {
            Err(ResolutionFailure::CyclicRef)
        } else if handle < 0 || handle >= self.entries@.len() {
            Err(ResolutionFailure::UnknownPath(Seq::empty()))
        } else {
            match self.entries@[handle].target {
                Target::Value(v) => Ok(v),
                Target::Mismatch => Err(ResolutionFailure::TypeMismatch),
                Target::Alias(p) => match self.locate(p@) {
                    None => Err(ResolutionFailure::UnknownPath(pointer_part(p@))),
                    Some(next) => self.typed_from(next, depth + 1),
                },
            }
        }
    }

    /// The value that the descriptor `raw` resolves to.
    pub open spec fn resolve_spec(&self, raw: Seq<char>) -> Result<T, ResolutionFailure> {
        match self.locate(raw) {
            None => Err(ResolutionFailure::UnknownPath(pointer_part(raw))),
            Some(handle) => self.typed_from(handle, 0),
        }
    }

    /// The registered references as plain values: descriptor and depth.
    pub open spec fn registered(&self) -> Seq<(Seq<char>, nat)> {
        Seq::new(
            self.registrations@.len(),
            |i: int| (self.registrations@[i].pointer@, self.registrations@[i].depth as nat),
        )
    }

    /// Takes note of a selector met at `depth` while the graph is built. A
    /// reference is recorded with its depth and not resolved; a value held in
    /// place leaves the context as it is.
    pub fn register(&mut self, selector: &Selector<T>, depth: u32) -> (r: Result<
        (),
        ResolutionError,
    >)
        ensures
            final(self).entries == old(self).entries,
            final(self).registered() == old(self).registered() + selector.register_spec(
                depth as nat,
            ).0,
            match r {
                Ok(_) => selector.register_spec(depth as nat).1.is_none(),
                Err(e) => selector.register_spec(depth as nat).1 == Some(e@),
            },
    {
        if depth >= depth_ceiling() {
            assert(self.registered() =~= old(self).registered() + Seq::empty());
            return Err(ResolutionError::CyclicRef);
        }
        match selector {
            Selector::Null => {
                assert(self.registered() =~= old(self).registered() + Seq::empty());
                Err(ResolutionError::BadPointer)
            },
            Selector::Obj(_) => {
                assert(self.registered() =~= old(self).registered() + Seq::empty());
                Ok(())
            },
            Selector::Ref(p) => {
                self.registrations.push(Registration { pointer: p.clone(), depth });
                assert(self.registered() =~= old(self).registered() + seq![(p@, depth as nat)]);
                Ok(())
            },
        }
    }

    /// A context without locations or registrations.
    pub fn new() -> (ctx: Self)
        ensures
            ctx.entries@.len() == 0,
            ctx.registrations@.len() == 0,
    {
        ResolutionContext { entries: Vec::new(), registrations: Vec::new() }
    }

    /// Adds a location at the end; an earlier location with the same pointer
    /// keeps precedence.
    pub fn add_entry(&mut self, pointer: String, target: Target<T>)
        ensures
            final(self).entries@ == old(self).entries@.push(Entry { pointer, target }),
            final(self).registrations == old(self).registrations,
    {
        self.entries.push(Entry { pointer, target });
    }

    /// Finds the location a descriptor names; where the context holds none,
    /// the error carries the in-document pointer of the descriptor.
    pub fn load_or_get(&self, raw: &str) -> (r: Result<NodeHandle, ResolutionError>)
        ensures
            match r {
                Ok(h) => self.locate(raw@) == Some(h.index as int),
                Err(e) => e@ == ResolutionFailure::UnknownPath(pointer_part(raw@)) && self.locate(
                    raw@,
                ).is_none(),
            },
    {
        let key = normalize_pointer(raw);
        let mut i: usize = 0;
        while i < self.entries.len()
            invariant
                i <= self.entries@.len(),
                key@ == pointer_part(raw@),
                self.locate(raw@) == locate_from(self.entries@, key@, i as int),
            decreases self.entries@.len() - i,
        {
            if self.entries[i].pointer == key {
                return Ok(NodeHandle { index: i });
            }
            i += 1;
        }
        Err(ResolutionError::UnknownPath(key))
    }

    /// Reads the value at a location, following references from there up to
    /// the depth ceiling. A reference that leads nowhere fails as an unknown
    /// path with its pointer; a handle that names no location fails as an
    /// unknown path with an empty pointer.
    pub fn as_typed(&self, handle: NodeHandle) -> (r: Result<&T, ResolutionError>)
        ensures
            match r {
                Ok(v) => self.typed_from(handle.index as int, 0) == Ok::<T, ResolutionFailure>(*v),
                Err(e) => self.typed_from(handle.index as int, 0) == Err::<T, ResolutionFailure>(
                    e@,
                ),
            },
    {
        let ceiling = depth_ceiling();
        let mut at: usize = handle.index;
        let mut depth: u32 = 0;
        loop
            invariant
                ceiling == max_depth(),
                depth <= ceiling,
                self.typed_from(handle.index as int, 0) == self.typed_from(at as int, depth as nat),
            decreases ceiling - depth,
        {
            if depth >= ceiling {
                return Err(ResolutionError::CyclicRef);
            }
            if at >= self.entries.len() {
                return Err(ResolutionError::UnknownPath(String::new()));
            }
            match &self.entries[at].target {
                Target::Value(v) => {
                    return Ok(v);
                },
                Target::Mismatch => {
                    return Err(ResolutionError::TypeMismatch);
                },
                Target::Alias(p) => match self.load_or_get(p.as_str()) {
                    Err(e) => {
                        return Err(e);
                    },
                    Ok(next) => {
                        at = next.index;
                        depth = depth + 1;
                    },
                },
            }
        }
    }

    /// Resolves a descriptor: finds its location and reads the value there.
    pub fn resolve(&self, raw: &str) -> (r: Result<&T, ResolutionError>)
        ensures
            match r {
                Ok(v) => self.resolve_spec(raw@) == Ok::<T, ResolutionFailure>(*v),
                Err(e) => self.resolve_spec(raw@) == Err::<T, ResolutionFailure>(e@),
            },
    {
        match self.load_or_get(raw) {
            Err(e) => Err(e),
            Ok(handle) => self.as_typed(handle),
        }
    }
}

impl<T> Selector<T> {
    /// What the selector stands for in a context.
    pub open spec fn get_spec(&self, ctx: &ResolutionContext<T>) -> Result<T, ResolutionFailure> {
        match *self {
            Selector::Obj(v) => Ok(v),
            Selector::Ref(p) => ctx.resolve_spec(p@),
            Selector::Null => Err(ResolutionFailure::BadPointer),
        }
    }

    /// What registering the selector at `depth` records, and the failure if
    /// there is one.
    pub open spec fn register_spec(&self, depth: nat) -> (
        Seq<(Seq<char>, nat)>,
        Option<ResolutionFailure>,
    ) {
        if depth >= max_depth() {
            (Seq::empty(), Some(ResolutionFailure::CyclicRef))
        } else {
            match *self {
                Selector::Null => (Seq::empty(), Some(ResolutionFailure::BadPointer)),
                Selector::Obj(_) => (Seq::empty(), None),
                Selector::Ref(p) => (seq![(p@, depth)], None),
            }
        }
    }

    /// The value held in place, or the one the reference resolves to.
    pub fn get<'a>(&'a self, ctx: &'a ResolutionContext<T>) -> (r: Result<&'a T, ResolutionError>)
        ensures
            match r {
                Ok(v) => self.get_spec(ctx) == Ok::<T, ResolutionFailure>(*v),
                Err(e) => self.get_spec(ctx) == Err::<T, ResolutionFailure>(e@),
            },
    {
        match self {
            Selector::Obj(v) => Ok(v),
            Selector::Ref(p) => ctx.resolve(p.as_str()),
            Selector::Null => Err(ResolutionError::BadPointer),
        }
    }
}

} // verus!
