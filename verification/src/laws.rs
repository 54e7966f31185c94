//! What holds of resolution in every context.

use crate::context::{
    locate_from, max_depth, pointer_part, ResolutionContext, Selector, Target,
};
use crate::error::ResolutionFailure;
use crate::operators::{
    all_inline_within, any_holds_selector, init_list, inline_within, resolve_list, AllOfSelect,
    AnyOfSelect, NotSelect, OneOfSelect, OperatorSelector,
};
use vstd::prelude::*;

verus! {

/// A plain value held in place resolves to exactly that value, in any context.
pub proof fn law_inline_value_resolves_to_itself<T>(v: T, ctx: &ResolutionContext<T>)
    ensures
        OperatorSelector::Val(Selector::Obj(v)).resolve_spec(ctx) == Ok::<
            Seq<T>,
            ResolutionFailure,
        >(seq![v]),
{
}

/// The four kinds of composite resolve alike: each to what the list of its
/// members resolves to.
pub proof fn law_kinds_resolve_alike<T>(
    root: Vec<OperatorSelector<T>>,
    ctx: &ResolutionContext<T>,
)
    ensures
        OperatorSelector::AnyOf(AnyOfSelect { root }).resolve_spec(ctx) == resolve_list(root@, ctx),
        OperatorSelector::OneOf(OneOfSelect { root }).resolve_spec(ctx) == resolve_list(root@, ctx),
        OperatorSelector::AllOf(AllOfSelect { root }).resolve_spec(ctx) == resolve_list(root@, ctx),
        OperatorSelector::Not(NotSelect { root }).resolve_spec(ctx) == resolve_list(root@, ctx),
{
}

/// A list of one member resolves to what the member resolves to.
pub proof fn law_single_member<T>(member: OperatorSelector<T>, ctx: &ResolutionContext<T>)
    ensures
        resolve_list(seq![member], ctx) == member.resolve_spec(ctx),
{
    let one = seq![member];
    assert(one.drop_last() =~= Seq::empty());
    assert(one.last() == member);
    assert(resolve_list(one.drop_last(), ctx) == Ok::<Seq<T>, ResolutionFailure>(Seq::empty()));
    match member.resolve_spec(ctx) {
        Ok(back) => {
            assert(Seq::<T>::empty() + back =~= back);
        },
        Err(_) => {},
    }
}

/// Two lists one after the other resolve to the values of the first followed
/// by the values of the second; the first failure, in member order, decides
/// the error.
pub proof fn law_resolution_concatenates<T>(
    first: Seq<OperatorSelector<T>>,
    second: Seq<OperatorSelector<T>>,
    ctx: &ResolutionContext<T>,
)
    ensures
        resolve_list(first + second, ctx) == match resolve_list(first, ctx) {
            Err(e) => Err::<Seq<T>, ResolutionFailure>(e),
            Ok(front) => match resolve_list(second, ctx) {
                Err(e) => Err(e),
                Ok(back) => Ok(front + back),
            },
        },
    decreases second.len(),
{
    if second.len() == 0 {
        assert(first + second =~= first);
        match resolve_list(first, ctx) {
            Ok(front) => {
                assert(front + Seq::<T>::empty() =~= front);
            },
            Err(_) => {},
        }
    } else {
        let whole = first + second;
        assert(whole.drop_last() =~= first + second.drop_last());
        assert(whole.last() == second.last());
        law_resolution_concatenates(first, second.drop_last(), ctx);
        match resolve_list(first, ctx) {
            Ok(front) => {
                match resolve_list(second.drop_last(), ctx) {
                    Ok(middle) => {
                        match second.last().resolve_spec(ctx) {
                            Ok(back) => {
                                assert((front + middle) + back =~= front + (middle + back));
                            },
                            Err(_) => {},
                        }
                    },
                    Err(_) => {},
                }
            },
            Err(_) => {},
        }
    }
}

/// A reference to a location that the context does not hold fails as an
/// unknown path.
pub proof fn law_missing_reference<T>(pointer: String, ctx: &ResolutionContext<T>)
    requires
        ctx.locate(pointer@).is_none(),
    ensures
        OperatorSelector::Val(Selector::Ref(pointer)).resolve_spec(ctx) == Err::<
            Seq<T>,
            ResolutionFailure,
        >(ResolutionFailure::UnknownPath(pointer_part(pointer@))),
{
}

/// A reference to a location that holds something of another shape fails as a
/// type mismatch.
pub proof fn law_wrong_shape<T>(pointer: String, ctx: &ResolutionContext<T>)
    requires
        ctx.locate(pointer@).is_some(),
        ctx.entries@[ctx.locate(pointer@).unwrap()].target is Mismatch,
    ensures
        OperatorSelector::Val(Selector::Ref(pointer)).resolve_spec(ctx) == Err::<
            Seq<T>,
            ResolutionFailure,
        >(ResolutionFailure::TypeMismatch),
{
    lemma_locate_in_range(ctx, pointer@);
}

/// A located position lies within the entries.
pub proof fn lemma_locate_in_range<T>(ctx: &ResolutionContext<T>, raw: Seq<char>)
    ensures
        match ctx.locate(raw) {
            Some(at) => 0 <= at < ctx.entries@.len(),
            None => true,
        },
{
    lemma_locate_from_in_range(ctx, raw, 0);
}

/// A position found at or after `from` lies between `from` and the end.
proof fn lemma_locate_from_in_range<T>(ctx: &ResolutionContext<T>, raw: Seq<char>, from: int)
    requires
        0 <= from,
    ensures
        match locate_from(ctx.entries@, pointer_part(raw), from) {
            Some(at) => from <= at < ctx.entries@.len(),
            None => true,
        },
    decreases ctx.entries@.len() - from,
{
    if from < ctx.entries@.len() {
        lemma_locate_from_in_range(ctx, raw, from + 1);
    }
}

/// A location whose reference leads back to itself is never followed without
/// end: reading it fails as a cyclic reference, from whatever depth.
pub proof fn law_self_reference_is_cyclic<T>(
    ctx: &ResolutionContext<T>,
    at: int,
    pointer: String,
    depth: nat,
)
    requires
        0 <= at < ctx.entries@.len(),
        ctx.entries@[at].target == Target::<T>::Alias(pointer),
        ctx.locate(pointer@) == Some(at),
    ensures
        ctx.typed_from(at, depth) == Err::<T, ResolutionFailure>(ResolutionFailure::CyclicRef),
    decreases max_depth() - depth,
{
    if depth < max_depth() {
        law_self_reference_is_cyclic(ctx, at, pointer, depth + 1);
    }
}

/// A selector that refers to a location whose reference leads back to itself
/// fails to resolve, as a cyclic reference.
pub proof fn law_cycle_of_one_fails<T>(ctx: &ResolutionContext<T>, pointer: String)
    requires
        ctx.locate(pointer@).is_some(),
        ctx.entries@[ctx.locate(pointer@).unwrap()].target == Target::<T>::Alias(pointer),
    ensures
        OperatorSelector::Val(Selector::Ref(pointer)).resolve_spec(ctx) == Err::<
            Seq<T>,
            ResolutionFailure,
        >(ResolutionFailure::CyclicRef),
{
    lemma_locate_in_range(ctx, pointer@);
    law_self_reference_is_cyclic(ctx, ctx.locate(pointer@).unwrap(), pointer, 0);
}

/// At or past the depth ceiling initialization registers nothing, and fails,
/// if it fails, as a cyclic reference; it does fail where the tree holds a
/// selector.
pub proof fn lemma_init_past_ceiling<T>(node: OperatorSelector<T>, depth: nat)
    requires
        depth + 1 >= max_depth(),
    ensures
        node.init_spec(depth).0 == Seq::<(Seq<char>, nat)>::empty(),
        node.init_spec(depth).1.is_none() || node.init_spec(depth).1 == Some(
            ResolutionFailure::CyclicRef,
        ),
        node.holds_selector() ==> node.init_spec(depth).1 == Some(ResolutionFailure::CyclicRef),
    decreases node,
{
    match node {
        OperatorSelector::AnyOf(x) => lemma_init_list_past_ceiling(x.root@, depth + 1),
        OperatorSelector::OneOf(x) => lemma_init_list_past_ceiling(x.root@, depth + 1),
        OperatorSelector::AllOf(x) => lemma_init_list_past_ceiling(x.root@, depth + 1),
        OperatorSelector::Not(x) => lemma_init_list_past_ceiling(x.root@, depth + 1),
        OperatorSelector::Val(_) => {},
    }
}

/// The same of the members of a composite.
pub proof fn lemma_init_list_past_ceiling<T>(members: Seq<OperatorSelector<T>>, depth: nat)
    requires
        depth >= max_depth(),
    ensures
        init_list(members, depth).0 == Seq::<(Seq<char>, nat)>::empty(),
        init_list(members, depth).1.is_none() || init_list(members, depth).1 == Some(
            ResolutionFailure::CyclicRef,
        ),
        any_holds_selector(members) ==> init_list(members, depth).1 == Some(
            ResolutionFailure::CyclicRef,
        ),
    decreases members,
{
    if members.len() > 0 {
        let front = members.drop_last();
        lemma_init_list_past_ceiling(front, depth);
        lemma_init_past_ceiling(members.last(), depth);
        assert(init_list(members, depth).0 =~= Seq::<(Seq<char>, nat)>::empty());
        if any_holds_selector(members) {
            let i = choose|i: int| 0 <= i < members.len() && (#[trigger] members[i]).holds_selector();
            if i < members.len() - 1 {
                assert(front[i] == members[i]);
                assert(any_holds_selector(front));
            } else {
                assert(members.last() == members[i]);
            }
        }
    }
}

/// Initialization never takes a selector past the depth ceiling: a tree that
/// holds a selector, initialized where its leaves would be registered at the
/// ceiling or beyond, fails as a cyclic reference and registers nothing.
pub proof fn law_initialization_is_bounded<T>(node: OperatorSelector<T>, depth: nat)
    requires
        depth + 1 >= max_depth(),
        node.holds_selector(),
    ensures
        node.init_spec(depth) == (
            Seq::<(Seq<char>, nat)>::empty(),
            Some(ResolutionFailure::CyclicRef),
        ),
{
    lemma_init_past_ceiling(node, depth);
}

/// A composite of any kind whose members all initialize one level down
/// initializes, at every depth whose successor a `u32` can count.
pub proof fn law_composite_initializes<T>(root: Vec<OperatorSelector<T>>, depth: nat)
    requires
        depth < u32::MAX,
        forall|i: int|
            0 <= i < root@.len() ==> (#[trigger] root@[i]).init_spec(depth + 1).1.is_none(),
    ensures
        OperatorSelector::AnyOf(AnyOfSelect { root }).init_spec(depth).1.is_none(),
        OperatorSelector::OneOf(OneOfSelect { root }).init_spec(depth).1.is_none(),
        OperatorSelector::AllOf(AllOfSelect { root }).init_spec(depth).1.is_none(),
        OperatorSelector::Not(NotSelect { root }).init_spec(depth).1.is_none(),
{
    lemma_members_initialize(root@, depth + 1);
}

/// Members that all initialize at `depth` initialize as a list.
pub proof fn lemma_members_initialize<T>(members: Seq<OperatorSelector<T>>, depth: nat)
    requires
        forall|i: int|
            0 <= i < members.len() ==> (#[trigger] members[i]).init_spec(depth).1.is_none(),
    ensures
        init_list(members, depth).1.is_none(),
    decreases members.len(),
{
    if members.len() > 0 {
        let front = members.drop_last();
        assert forall|i: int| 0 <= i < front.len() implies (#[trigger] front[i]).init_spec(
            depth,
        ).1.is_none() by {
            assert(front[i] == members[i]);
        }
        lemma_members_initialize(front, depth);
        assert(members.last() == members[members.len() - 1]);
    }
}

/// A tree without references, its leaves below the depth ceiling, initializes
/// and registers nothing.
pub proof fn law_tree_without_references_initializes<T>(node: OperatorSelector<T>, depth: nat)
    requires
        inline_within(node, depth),
    ensures
        node.init_spec(depth) == (Seq::<(Seq<char>, nat)>::empty(), None::<ResolutionFailure>),
    decreases node,
{
    match node {
        OperatorSelector::AnyOf(x) => lemma_list_without_references(x.root@, depth + 1),
        OperatorSelector::OneOf(x) => lemma_list_without_references(x.root@, depth + 1),
        OperatorSelector::AllOf(x) => lemma_list_without_references(x.root@, depth + 1),
        OperatorSelector::Not(x) => lemma_list_without_references(x.root@, depth + 1),
        OperatorSelector::Val(_) => {},
    }
}

/// The same of the members of a composite.
pub proof fn lemma_list_without_references<T>(members: Seq<OperatorSelector<T>>, depth: nat)
    requires
        all_inline_within(members, depth),
    ensures
        init_list(members, depth) == (Seq::<(Seq<char>, nat)>::empty(), None::<ResolutionFailure>),
    decreases members,
{
    if members.len() > 0 {
        let front = members.drop_last();
        assert forall|i: int| 0 <= i < front.len() implies inline_within(
            #[trigger] front[i],
            depth,
        ) by {
            assert(front[i] == members[i]);
        }
        lemma_list_without_references(front, depth);
        assert(members.last() == members[members.len() - 1]);
        law_tree_without_references_initializes(members.last(), depth);
        assert(init_list(members, depth).0 =~= Seq::<(Seq<char>, nat)>::empty());
    }
}

} // verus!
