//! Schema values: plain selectors and the four composites over them, with
//! resolution and initialization.

use crate::context::{max_depth, ResolutionContext, Selector};
use crate::error::{ResolutionError, ResolutionFailure};
use vstd::prelude::*;

verus! {

/// A list of selectors combined under one of the composition kinds.
pub trait OApiOperator<T>: Sized {
    /// The members, in declaration order.
    spec fn members(&self) -> Seq<OperatorSelector<T>>;

    /// Every value reachable from the members, in member order; the first
    /// member that fails to resolve decides the error.
    fn get<'a>(&'a self, ctx: &'a ResolutionContext<T>) -> (r: Result<Vec<&'a T>, ResolutionError>)
        ensures
            resolved_as(resolve_list(self.members(), ctx), r),
    ;

    /// The operator over the given members.
    fn new(val: Vec<OperatorSelector<T>>) -> (made: Self)
        ensures
            made.members() == val@,
    ;
}

/// Disjunction: the `anyOf` list.
#[derive(Debug, PartialEq)]
pub struct AnyOfSelect<T> {
    pub root: Vec<OperatorSelector<T>>,
}

/// Exclusive choice: the `oneOf` list.
#[derive(Debug, PartialEq)]
pub struct OneOfSelect<T> {
    pub root: Vec<OperatorSelector<T>>,
}

/// Conjunction: the `allOf` list.
#[derive(Debug, PartialEq)]
pub struct AllOfSelect<T> {
    pub root: Vec<OperatorSelector<T>>,
}

/// Negation: the `not` list.
#[derive(Debug, PartialEq)]
pub struct NotSelect<T> {
    pub root: Vec<OperatorSelector<T>>,
}

/// A schema value: a plain selector, or selectors composed under an operator.
#[derive(Debug, PartialEq)]
pub enum OperatorSelector<T> {
    AnyOf(AnyOfSelect<T>),
    OneOf(OneOfSelect<T>),
    AllOf(AllOfSelect<T>),
    Not(NotSelect<T>),
    Val(Selector<T>),
}

/// The values behind a list of borrowed values.
pub open spec fn values_of<T>(refs: Seq<&T>) -> Seq<T> {
    Seq::new(refs.len(), |i: int| *refs[i])
}

/// Whether an executable outcome is the expected one.
pub open spec fn resolved_as<T>(
    expected: Result<Seq<T>, ResolutionFailure>,
    got: Result<Vec<&T>, ResolutionError>,
) -> bool {
    match got {
        Ok(vals) => expected == Ok::<Seq<T>, ResolutionFailure>(values_of(vals@)),
        Err(e) => expected == Err::<Seq<T>, ResolutionFailure>(e@),
    }
}

/// The concatenation of what each member resolves to, or the error of the
/// first member that fails.
pub open spec fn resolve_list<T>(
    members: Seq<OperatorSelector<T>>,
    ctx: &ResolutionContext<T>,
) -> Result<Seq<T>, ResolutionFailure>
    decreases members,
{
    if members.len() == 0 {
        Ok(Seq::empty())
    } else {
        match resolve_list(members.drop_last(), ctx) {
            Err(e) => Err(e),
            Ok(front) => match members.last().resolve_spec(ctx) {
                Err(e) => Err(e),
                Ok(back) => Ok(front + back),
            },
        }
    }
}

/// The references that initializing the members at `depth` registers, in
/// order, up to and including the first failure, and that failure.
pub open spec fn init_list<T>(members: Seq<OperatorSelector<T>>, depth: nat) -> (
    Seq<(Seq<char>, nat)>,
    Option<ResolutionFailure>,
)
    decreases members,
{
    if members.len() == 0 {
        (Seq::empty(), None)
    } else {
        let front = init_list(members.drop_last(), depth);
        if front.1.is_some() {
            front
        } else {
            let back = members.last().init_spec(depth);
            (front.0 + back.0, back.1)
        }
    }
}

/// Whether a selector stands somewhere below one of the members.
pub open spec fn any_holds_selector<T>(members: Seq<OperatorSelector<T>>) -> bool
    decreases members,
{
    exists|i: int| 0 <= i < members.len() && (#[trigger] members[i]).holds_selector()
}

/// Whether every leaf of the tree holds its value in place and, with the
/// tree initialized at `depth`, is registered below the depth ceiling.
pub open spec fn inline_within<T>(tree: OperatorSelector<T>, depth: nat) -> bool
    decreases tree,
{
    match tree {
        OperatorSelector::AnyOf(x) => all_inline_within(x.root@, depth + 1),
        OperatorSelector::OneOf(x) => all_inline_within(x.root@, depth + 1),
        OperatorSelector::AllOf(x) => all_inline_within(x.root@, depth + 1),
        OperatorSelector::Not(x) => all_inline_within(x.root@, depth + 1),
        OperatorSelector::Val(s) => s is Obj && depth + 1 < max_depth(),
    }
}

/// Whether `inline_within` holds of every member at `depth`.
pub open spec fn all_inline_within<T>(members: Seq<OperatorSelector<T>>, depth: nat) -> bool
    decreases members,
{
    depth <= u32::MAX && forall|i: int|
        0 <= i < members.len() ==> inline_within(#[trigger] members[i], depth)
}

impl<T> OperatorSelector<T> {
    /// The members of a composite; none for a plain value.
    pub open spec fn members(&self) -> Seq<OperatorSelector<T>> {
        match *self {
            OperatorSelector::AnyOf(x) => x.root@,
            OperatorSelector::OneOf(x) => x.root@,
            OperatorSelector::AllOf(x) => x.root@,
            OperatorSelector::Not(x) => x.root@,
            OperatorSelector::Val(_) => Seq::empty(),
        }
    }

    /// Every value reachable from this node, in declaration order.
    pub open spec fn resolve_spec(&self, ctx: &ResolutionContext<T>) -> Result<
        Seq<T>,
        ResolutionFailure,
    >
        decreases *self,
    {
        match *self {
            OperatorSelector::AnyOf(x) => resolve_list(x.root@, ctx),
            OperatorSelector::OneOf(x) => resolve_list(x.root@, ctx),
            OperatorSelector::AllOf(x) => resolve_list(x.root@, ctx),
            OperatorSelector::Not(x) => resolve_list(x.root@, ctx),
            OperatorSelector::Val(s) => match s.get_spec(ctx) {
                Ok(v) => Ok(seq![v]),
                Err(e) => Err(e),
            },
        }
    }

    /// Whether a selector stands somewhere in this tree.
    pub open spec fn holds_selector(&self) -> bool
        decreases *self,
    {
        match *self {
            OperatorSelector::AnyOf(x) => any_holds_selector(x.root@),
            OperatorSelector::OneOf(x) => any_holds_selector(x.root@),
            OperatorSelector::AllOf(x) => any_holds_selector(x.root@),
            OperatorSelector::Not(x) => any_holds_selector(x.root@),
            OperatorSelector::Val(_) => true,
        }
    }

    /// The references that initializing this node at `depth` registers, up to
    /// the first failure, and that failure. A composite hands its members
    /// the next depth and fails by itself only where that depth cannot be
    /// counted any more; the depth ceiling is met where a selector is
    /// registered.
    pub open spec fn init_spec(&self, depth: nat) -> (
        Seq<(Seq<char>, nat)>,
        Option<ResolutionFailure>,
    )
        decreases *self,
    {
        if depth >= u32::MAX {
            (Seq::empty(), Some(ResolutionFailure::CyclicRef))
        } else {
            match *self {
                OperatorSelector::AnyOf(x) => init_list(x.root@, depth + 1),
                OperatorSelector::OneOf(x) => init_list(x.root@, depth + 1),
                OperatorSelector::AllOf(x) => init_list(x.root@, depth + 1),
                OperatorSelector::Not(x) => init_list(x.root@, depth + 1),
                OperatorSelector::Val(s) => s.register_spec(depth + 1),
            }
        }
    }

    /// Resolves this node: one value for a plain selector, and for a composite
    /// of any kind the values of its members one after the other.
    pub fn get<'a>(&'a self, ctx: &'a ResolutionContext<T>) -> (r: Result<
        Vec<&'a T>,
        ResolutionError,
    >)
        ensures
            resolved_as(self.resolve_spec(ctx), r),
        decreases *self,
    {
        match self {
            OperatorSelector::AnyOf(x) => resolve_members(&x.root, ctx),
            OperatorSelector::OneOf(x) => resolve_members(&x.root, ctx),
            OperatorSelector::AllOf(x) => resolve_members(&x.root, ctx),
            OperatorSelector::Not(x) => resolve_members(&x.root, ctx),
            OperatorSelector::Val(s) => match s.get(ctx) {
                Ok(v) => {
                    let mut one: Vec<&'a T> = Vec::new();
                    one.push(v);
                    assert(values_of(one@) =~= seq![*v]);
                    Ok(one)
                },
                Err(e) => Err(e),
            },
        }
    }

    /// A plain value held in place.
    pub fn new_from_val(val: T) -> (made: Self)
        ensures
            made == OperatorSelector::Val(Selector::Obj(val)),
    {
        OperatorSelector::Val(Selector::Obj(val))
    }

    /// Announces this node to the context as the graph is built: a composite
    /// initializes its members one level down, left to right, and a plain
    /// value registers its selector one level down. Stops at the first
    /// failure. A composite without members succeeds at every depth but the
    /// last that a `u32` can count.
    pub fn sparse_init(&self, ctx: &mut ResolutionContext<T>, depth: u32) -> (r: Result<
        (),
        ResolutionError,
    >)
        ensures
            final(ctx).entries == old(ctx).entries,
            final(ctx).registered() == old(ctx).registered() + self.init_spec(depth as nat).0,
            match r {
                Ok(_) => self.init_spec(depth as nat).1.is_none(),
                Err(e) => self.init_spec(depth as nat).1 == Some(e@),
            },
        decreases *self,
    {
        if depth == u32::MAX {
            assert(ctx.registered() =~= old(ctx).registered() + Seq::empty());
            return Err(ResolutionError::CyclicRef);
        }
        match self {
            OperatorSelector::AnyOf(x) => init_members(&x.root, ctx, depth + 1),
            OperatorSelector::OneOf(x) => init_members(&x.root, ctx, depth + 1),
            OperatorSelector::AllOf(x) => init_members(&x.root, ctx, depth + 1),
            OperatorSelector::Not(x) => init_members(&x.root, ctx, depth + 1),
            OperatorSelector::Val(s) => ctx.register(s, depth + 1),
        }
    }
}

/// An error among the first members is the error of the whole list.
pub proof fn lemma_resolve_prefix_error<T>(
    members: Seq<OperatorSelector<T>>,
    ctx: &ResolutionContext<T>,
    k: int,
)
    requires
        0 <= k <= members.len(),
        resolve_list(members.take(k), ctx).is_err(),
    ensures
        resolve_list(members, ctx) == resolve_list(members.take(k), ctx),
    decreases members.len() - k,
{
    if k == members.len() {
        assert(members.take(k) =~= members);
    } else {
        assert(members.take(k + 1).drop_last() =~= members.take(k));
        lemma_resolve_prefix_error(members, ctx, k + 1);
    }
}

/// A failure among the first members is the outcome of the whole list.
pub proof fn lemma_init_prefix_error<T>(members: Seq<OperatorSelector<T>>, depth: nat, k: int)
    requires
        0 <= k <= members.len(),
        init_list(members.take(k), depth).1.is_some(),
    ensures
        init_list(members, depth) == init_list(members.take(k), depth),
    decreases members.len() - k,
{
    if k == members.len() {
        assert(members.take(k) =~= members);
    } else {
        assert(members.take(k + 1).drop_last() =~= members.take(k));
        lemma_init_prefix_error(members, depth, k + 1);
    }
}

/// Resolves the members of a composite, one after the other.
pub fn resolve_members<'a, T>(root: &'a Vec<OperatorSelector<T>>, ctx: &'a ResolutionContext<T>) -> (r:
    Result<Vec<&'a T>, ResolutionError>)
    ensures
        resolved_as(resolve_list(root@, ctx), r),
    decreases *root,
{
    let mut res: Vec<&'a T> = Vec::new();
    let mut i: usize = 0;
    assert(root@.take(0) =~= Seq::empty());
    assert(values_of(res@) =~= Seq::empty());
    while i < root.len()
        invariant
            i <= root@.len(),
            resolve_list(root@.take(i as int), ctx) == Ok::<Seq<T>, ResolutionFailure>(
                values_of(res@),
            ),
        decreases root@.len() - i,
    {
        proof {
            assert(root@.take(i + 1).drop_last() =~= root@.take(i as int));
            assert(root@.take(i + 1).last() == root@[i as int]);
        }
        match root[i].get(ctx) {
            Err(e) => {
                proof {
                    lemma_resolve_prefix_error(root@, ctx, i + 1);
                }
                return Err(e);
            },
            Ok(mut part) => {
                let ghost before = values_of(res@);
                let ghost added = values_of(part@);
                res.append(&mut part);
                assert(values_of(res@) =~= before + added);
            },
        }
        i += 1;
    }
    assert(root@.take(i as int) =~= root@);
    Ok(res)
}

/// Initializes the members of a composite at `depth`, left to right.
pub fn init_members<T>(
    root: &Vec<OperatorSelector<T>>,
    ctx: &mut ResolutionContext<T>,
    depth: u32,
) -> (r: Result<(), ResolutionError>)
    ensures
        final(ctx).entries == old(ctx).entries,
        final(ctx).registered() == old(ctx).registered() + init_list(root@, depth as nat).0,
        match r {
            Ok(_) => init_list(root@, depth as nat).1.is_none(),
            Err(e) => init_list(root@, depth as nat).1 == Some(e@),
        },
    decreases *root,
{
    let mut i: usize = 0;
    assert(root@.take(0) =~= Seq::empty());
    assert(ctx.registered() =~= old(ctx).registered() + Seq::empty());
    while i < root.len()
        invariant
            i <= root@.len(),
            ctx.entries == old(ctx).entries,
            init_list(root@.take(i as int), depth as nat).1.is_none(),
            ctx.registered() == old(ctx).registered() + init_list(
                root@.take(i as int),
                depth as nat,
            ).0,
        decreases root@.len() - i,
    {
        proof {
            assert(root@.take(i + 1).drop_last() =~= root@.take(i as int));
            assert(root@.take(i + 1).last() == root@[i as int]);
        }
        let ghost before = ctx.registered();
        let step = root[i].sparse_init(ctx, depth);
        proof {
            let front = init_list(root@.take(i as int), depth as nat).0;
            let back = root@[i as int].init_spec(depth as nat).0;
            assert(ctx.registered() =~= old(ctx).registered() + (front + back));
        }
        match step {
            Err(e) => {
                proof {
                    lemma_init_prefix_error(root@, depth as nat, i + 1);
                }
                return Err(e);
            },
            Ok(_) => {},
        }
        i += 1;
    }
    assert(root@.take(i as int) =~= root@);
    Ok(())
}

impl<T, U: OApiOperator<T>> OApiOperator<T> for Box<U> {
    open spec fn members(&self) -> Seq<OperatorSelector<T>> {
        (**self).members()
    }

    fn get<'a>(&'a self, ctx: &'a ResolutionContext<T>) -> (r: Result<Vec<&'a T>, ResolutionError>) {
        (**self).get(ctx)
    }

    fn new(val: Vec<OperatorSelector<T>>) -> (made: Self) {
        Box::new(U::new(val))
    }
}

impl<T: Default> Default for OperatorSelector<T> {
    /// A plain value that holds in place what `T::default()` returns.
    fn default() -> (made: Self)
        ensures
            made is Val,
            made->Val_0 is Obj,
            call_ensures(T::default, (), made->Val_0->Obj_0),
    {
        OperatorSelector::new_from_val(T::default())
    }
}

impl<T> AnyOfSelect<T> {
    /// The members, in declaration order.
    pub fn root(&self) -> (r: &Vec<OperatorSelector<T>>)
        ensures
            *r == self.root,
    {
        &self.root
    }
}

impl<T> OApiOperator<T> for AnyOfSelect<T> {
    open spec fn members(&self) -> Seq<OperatorSelector<T>> {
        self.root@
    }

    fn get<'a>(&'a self, ctx: &'a ResolutionContext<T>) -> (r: Result<Vec<&'a T>, ResolutionError>) {
        resolve_members(&self.root, ctx)
    }

    fn new(val: Vec<OperatorSelector<T>>) -> (made: Self) {
        AnyOfSelect { root: val }
    }
}

impl<T> OneOfSelect<T> {
    /// The members, in declaration order.
    pub fn root(&self) -> (r: &Vec<OperatorSelector<T>>)
        ensures
            *r == self.root,
    {
        &self.root
    }
}

impl<T> OApiOperator<T> for OneOfSelect<T> {
    open spec fn members(&self) -> Seq<OperatorSelector<T>> {
        self.root@
    }

    fn get<'a>(&'a self, ctx: &'a ResolutionContext<T>) -> (r: Result<Vec<&'a T>, ResolutionError>) {
        resolve_members(&self.root, ctx)
    }

    fn new(val: Vec<OperatorSelector<T>>) -> (made: Self) {
        OneOfSelect { root: val }
    }
}

impl<T> AllOfSelect<T> {
    /// The members, in declaration order.
    pub fn root(&self) -> (r: &Vec<OperatorSelector<T>>)
        ensures
            *r == self.root,
    {
        &self.root
    }
}

impl<T> OApiOperator<T> for AllOfSelect<T> {
    open spec fn members(&self) -> Seq<OperatorSelector<T>> {
        self.root@
    }

    fn get<'a>(&'a self, ctx: &'a ResolutionContext<T>) -> (r: Result<Vec<&'a T>, ResolutionError>) {
        resolve_members(&self.root, ctx)
    }

    fn new(val: Vec<OperatorSelector<T>>) -> (made: Self) {
        AllOfSelect { root: val }
    }
}

impl<T> NotSelect<T> {
    /// The members, in declaration order.
    pub fn root(&self) -> (r: &Vec<OperatorSelector<T>>)
        ensures
            *r == self.root,
    {
        &self.root
    }
}

impl<T> OApiOperator<T> for NotSelect<T> {
    open spec fn members(&self) -> Seq<OperatorSelector<T>> {
        self.root@
    }

    fn get<'a>(&'a self, ctx: &'a ResolutionContext<T>) -> (r: Result<Vec<&'a T>, ResolutionError>) {
        resolve_members(&self.root, ctx)
    }

    fn new(val: Vec<OperatorSelector<T>>) -> (made: Self) {
        NotSelect { root: val }
    }
}

/// Whether `copy` is a copy of `tree`: the same kinds, the same members in
/// the same order, the same reference descriptors, and for each value held
/// in place a clone of it.
pub open spec fn copy_of<T: Clone>(tree: OperatorSelector<T>, copy: OperatorSelector<T>) -> bool
    decreases tree,
{
    match (tree, copy) {
        (OperatorSelector::AnyOf(x), OperatorSelector::AnyOf(y)) => copies_of(x.root@, y.root@),
        (OperatorSelector::OneOf(x), OperatorSelector::OneOf(y)) => copies_of(x.root@, y.root@),
        (OperatorSelector::AllOf(x), OperatorSelector::AllOf(y)) => copies_of(x.root@, y.root@),
        (OperatorSelector::Not(x), OperatorSelector::Not(y)) => copies_of(x.root@, y.root@),
        (OperatorSelector::Val(Selector::Ref(p)), OperatorSelector::Val(Selector::Ref(q))) => p
            == q,
        (OperatorSelector::Val(Selector::Obj(v)), OperatorSelector::Val(Selector::Obj(w))) => cloned(
            v,
            w,
        ),
        (OperatorSelector::Val(Selector::Null), OperatorSelector::Val(Selector::Null)) => true,
        _ => false,
    }
}

/// Whether each member of `copies` is a copy of the member of `members` at
/// the same position.
pub open spec fn copies_of<T: Clone>(
    members: Seq<OperatorSelector<T>>,
    copies: Seq<OperatorSelector<T>>,
) -> bool
    decreases members,
{
    members.len() == copies.len() && forall|i: int|
        0 <= i < members.len() ==> copy_of(#[trigger] members[i], copies[i])
}

/// A copy of a tree of selectors.
pub fn copy_tree<T: Clone>(tree: &OperatorSelector<T>) -> (copy: OperatorSelector<T>)
    ensures
        copy_of(*tree, copy),
    decreases *tree,
{
    match tree {
        OperatorSelector::AnyOf(x) => OperatorSelector::AnyOf(
            AnyOfSelect { root: copy_members(&x.root) },
        ),
        OperatorSelector::OneOf(x) => OperatorSelector::OneOf(
            OneOfSelect { root: copy_members(&x.root) },
        ),
        OperatorSelector::AllOf(x) => OperatorSelector::AllOf(
            AllOfSelect { root: copy_members(&x.root) },
        ),
        OperatorSelector::Not(x) => OperatorSelector::Not(
            NotSelect { root: copy_members(&x.root) },
        ),
        OperatorSelector::Val(Selector::Ref(p)) => OperatorSelector::Val(Selector::Ref(p.clone())),
        OperatorSelector::Val(Selector::Obj(v)) => OperatorSelector::Val(Selector::Obj(v.clone())),
        OperatorSelector::Val(Selector::Null) => OperatorSelector::Val(Selector::Null),
    }
}

/// A copy of the members of a composite.
pub fn copy_members<T: Clone>(root: &Vec<OperatorSelector<T>>) -> (copies: Vec<OperatorSelector<T>>)
    ensures
        copies_of(root@, copies@),
    decreases *root,
{
    let mut copies: Vec<OperatorSelector<T>> = Vec::new();
    let mut i: usize = 0;
    while i < root.len()
        invariant
            i <= root@.len(),
            copies@.len() == i,
            forall|j: int| 0 <= j < i ==> copy_of(#[trigger] root@[j], copies@[j]),
        decreases root@.len() - i,
    {
        copies.push(copy_tree(&root[i]));
        i += 1;
    }
    copies
}

impl<T: Clone> Clone for OperatorSelector<T> {
    fn clone(&self) -> (copy: Self)
        ensures
            copy_of(*self, copy),
    {
        copy_tree(self)
    }
}

impl<T: Clone> Clone for AnyOfSelect<T> {
    fn clone(&self) -> (copy: Self)
        ensures
            copies_of(self.root@, copy.root@),
    {
        AnyOfSelect { root: copy_members(&self.root) }
    }
}

impl<T: Clone> Clone for OneOfSelect<T> {
    fn clone(&self) -> (copy: Self)
        ensures
            copies_of(self.root@, copy.root@),
    {
        OneOfSelect { root: copy_members(&self.root) }
    }
}

impl<T: Clone> Clone for AllOfSelect<T> {
    fn clone(&self) -> (copy: Self)
        ensures
            copies_of(self.root@, copy.root@),
    {
        AllOfSelect { root: copy_members(&self.root) }
    }
}

impl<T: Clone> Clone for NotSelect<T> {
    fn clone(&self) -> (copy: Self)
        ensures
            copies_of(self.root@, copy.root@),
    {
        NotSelect { root: copy_members(&self.root) }
    }
}

} // verus!
