//! The validation protocol: a depth-first, fail-fast walk over trees of
//! selectors that keeps a breadcrumb of the path to the node under check.

use crate::context::{ResolutionContext, Selector};
use crate::error::{Cause, Failure, OApiError, OApiErrorKind};
use crate::operators::OperatorSelector;
use vstd::prelude::*;
use vstd::string::StringExecFns;

verus! {

/// The text of each step of a breadcrumb.
pub open spec fn trail(crumbs: Seq<String>) -> Seq<Seq<char>> {
    Seq::new(crumbs.len(), |i: int| crumbs[i]@)
}

/// Whether a check that started with the breadcrumb `before` ended as
/// `expected` says: success with the breadcrumb back at `before`, or the
/// expected failure with the breadcrumb, and the error's copy of it, at the
/// failing node.
pub open spec fn checked_as(
    expected: Option<Failure>,
    before: Seq<Seq<char>>,
    after: Seq<Seq<char>>,
    r: Result<(), OApiError>,
) -> bool {
    match expected {
        None => r.is_ok() && after == before,
        Some(f) => match r {
            Ok(_) => false,
            Err(e) => e.kind@ == f.cause && trail(e.breadcrumb@) == before + f.path && after
                == before + f.path,
        },
    }
}

/// The trail of the first `n` steps is the first `n` steps of the trail.
pub proof fn lemma_trail_take(crumbs: Seq<String>, n: int)
    requires
        0 <= n <= crumbs.len(),
    ensures
        trail(crumbs.take(n)) == trail(crumbs).take(n),
{
    assert(trail(crumbs.take(n)) =~= trail(crumbs).take(n));
}

/// A failure found below a step of the path: the step comes first.
pub open spec fn under(steps: Seq<Seq<char>>, inner: Option<Failure>) -> Option<Failure> {
    match inner {
        None => None,
        Some(f) => Some(Failure { path: steps + f.path, cause: f.cause }),
    }
}

/// The text of one decimal digit.
pub open spec fn digit_text(d: nat) -> Seq<char> {
    if d == 0 {
        "0"@
    } else if d == 1 {
        "1"@
    } else if d == 2 {
        "2"@
    } else if d == 3 {
        "3"@
    } else if d == 4 {
        "4"@
    } else if d == 5 {
        "5"@
    } else if d == 6 {
        "6"@
    } else if d == 7 {
        "7"@
    } else if d == 8 {
        "8"@
    } else {
        "9"@
    }
}

/// A number in decimal, without leading zeros.
pub open spec fn decimal(n: nat) -> Seq<char>
    decreases n,
{
    if n < 10 {
        digit_text(n)
    } else {
        decimal(n / 10) + digit_text(n % 10)
    }
}

/// The first failure among the members of a composite of the given kind, with
/// the kind and the member's index in front of its path.
pub open spec fn list_violation<T: OApiCheckTrait<ResolutionContext<T>>>(
    members: Seq<OperatorSelector<T>>,
    state: &ResolutionContext<T>,
    kind: Seq<char>,
) -> Option<Failure>
    decreases members,
{
    if members.len() == 0 {
        None
    } else {
        match list_violation(members.drop_last(), state, kind) {
            Some(f) => Some(f),
            None => under(
                seq![kind, decimal((members.len() - 1) as nat)],
                tree_violation(&members.last(), state),
            ),
        }
    }
}

/// The first failure in a tree of selectors, depth first and left to right.
pub open spec fn tree_violation<T: OApiCheckTrait<ResolutionContext<T>>>(
    node: &OperatorSelector<T>,
    state: &ResolutionContext<T>,
) -> Option<Failure>
    decreases *node,
{
    match *node {
        OperatorSelector::AnyOf(x) => list_violation(x.root@, state, "anyOf"@),
        OperatorSelector::OneOf(x) => list_violation(x.root@, state, "oneOf"@),
        OperatorSelector::AllOf(x) => list_violation(x.root@, state, "allOf"@),
        OperatorSelector::Not(x) => list_violation(x.root@, state, "not"@),
        OperatorSelector::Val(s) => match s.get_spec(state) {
            Err(e) => Some(Failure { path: Seq::empty(), cause: Cause::Resolution(e) }),
            Ok(v) => v.violation(state),
        },
    }
}

/// The structural check that every shape of the document model offers. `S` is
/// the state that is shared by every nested check.
pub trait OApiCheckTrait<S> {
    /// The first failure below this value, with its path from this value; none
    /// where the value is well formed.
    spec fn violation(&self, state: &S) -> Option<Failure>;

    /// Checks the value itself. On success the breadcrumb is as it was; on
    /// failure it ends at the failing node, and the error holds a copy.
    fn oapi_check_inner(&self, state: &S, bread_crumb: &mut Vec<String>) -> (r: Result<
        (),
        OApiError,
    >)
        ensures
            checked_as(
                self.violation(state),
                trail(old(bread_crumb)@),
                trail(final(bread_crumb)@),
                r,
            ),
    ;

    /// Checks the value as a part of a larger one.
    fn oapi_check(&self, state: &S, bread_crumb: &mut Vec<String>) -> (r: Result<(), OApiError>)
        ensures
            checked_as(
                self.violation(state),
                trail(old(bread_crumb)@),
                trail(final(bread_crumb)@),
                r,
            ),
    ;
}

/// A copy of a breadcrumb.
pub fn copy_trail(crumbs: &Vec<String>) -> (out: Vec<String>)
    ensures
        out@ == crumbs@,
{
    let mut out: Vec<String> = Vec::new();
    let mut i: usize = 0;
    while i < crumbs.len()
        invariant
            i <= crumbs@.len(),
            out@ == crumbs@.take(i as int),
        decreases crumbs@.len() - i,
    {
        out.push(crumbs[i].clone());
        assert(out@ =~= crumbs@.take(i + 1));
        i += 1;
    }
    assert(crumbs@.take(i as int) =~= crumbs@);
    out
}

/// The decimal text of an index.
pub fn index_text(n: usize) -> (text: String)
    ensures
        text@ == decimal(n as nat),
    decreases n,
{
    let d: usize = n % 10;
    let digit: &str = if d == 0 {
        "0"
    } else if d == 1 {
        "1"
    } else if d == 2 {
        "2"
    } else if d == 3 {
        "3"
    } else if d == 4 {
        "4"
    } else if d == 5 {
        "5"
    } else if d == 6 {
        "6"
    } else if d == 7 {
        "7"
    } else if d == 8 {
        "8"
    } else {
        "9"
    };
    if n < 10 {
        String::from_str(digit)
    } else {
        let mut text = index_text(n / 10);
        text.append(digit);
        text
    }
}

/// Checks a tree of selectors: the members of a composite in order, each
/// under the operator's name and its index, and for a plain value the value
/// it resolves to. The first failure ends the check.
pub fn check_tree<T: OApiCheckTrait<ResolutionContext<T>>>(
    node: &OperatorSelector<T>,
    state: &ResolutionContext<T>,
    bread_crumb: &mut Vec<String>,
) -> (r: Result<(), OApiError>)
    ensures
        checked_as(
            tree_violation(node, state),
            trail(old(bread_crumb)@),
            trail(final(bread_crumb)@),
            r,
        ),
    decreases *node,
{
    match node {
        OperatorSelector::AnyOf(x) => check_members(&x.root, state, bread_crumb, "anyOf"),
        OperatorSelector::OneOf(x) => check_members(&x.root, state, bread_crumb, "oneOf"),
        OperatorSelector::AllOf(x) => check_members(&x.root, state, bread_crumb, "allOf"),
        OperatorSelector::Not(x) => check_members(&x.root, state, bread_crumb, "not"),
        OperatorSelector::Val(s) => match s.get(state) {
            Err(e) => {
                let at = copy_trail(bread_crumb);
                assert(trail(at@) =~= trail(old(bread_crumb)@) + Seq::empty());
                Err(OApiError { breadcrumb: at, kind: OApiErrorKind::Resolution(e) })
            },
            Ok(v) => v.oapi_check(state, bread_crumb),
        },
    }
}

/// Checks the members of a composite of the given kind, in order.
pub fn check_members<T: OApiCheckTrait<ResolutionContext<T>>>(
    root: &Vec<OperatorSelector<T>>,
    state: &ResolutionContext<T>,
    bread_crumb: &mut Vec<String>,
    kind: &str,
) -> (r: Result<(), OApiError>)
    ensures
        checked_as(
            list_violation(root@, state, kind@),
            trail(old(bread_crumb)@),
            trail(final(bread_crumb)@),
            r,
        ),
    decreases *root,
{
    let mut i: usize = 0;
    assert(root@.take(0) =~= Seq::empty());
    while i < root.len()
        invariant
            i <= root@.len(),
            list_violation(root@.take(i as int), state, kind@).is_none(),
            trail(bread_crumb@) == trail(old(bread_crumb)@),
        decreases root@.len() - i,
    {
        proof {
            assert(root@.take(i + 1).drop_last() =~= root@.take(i as int));
            assert(root@.take(i + 1).last() == root@[i as int]);
        }
        let ghost base = trail(bread_crumb@);
        bread_crumb.push(String::from_str(kind));
        bread_crumb.push(index_text(i));
        let ghost steps = seq![kind@, decimal(i as nat)];
        assert(trail(bread_crumb@) =~= base + steps);
        match check_tree(&root[i], state, bread_crumb) {
            Err(e) => {
                proof {
                    let f = tree_violation(&root@[i as int], state).unwrap();
                    assert((base + steps) + f.path =~= base + (steps + f.path));
                    lemma_violation_prefix(root@, state, kind@, i + 1);
                }
                return Err(e);
            },
            Ok(_) => {
                let ghost full = bread_crumb@;
                bread_crumb.pop();
                bread_crumb.pop();
                proof {
                    assert(trail(full).len() == full.len());
                    assert(bread_crumb@ =~= full.take(full.len() - 2));
                    lemma_trail_take(full, full.len() - 2);
                    assert((base + steps).take(base.len() as int) =~= base);
                }
            },
        }
        i += 1;
    }
    assert(root@.take(i as int) =~= root@);
    Ok(())
}

/// A failure among the first members is the failure of the whole list.
pub proof fn lemma_violation_prefix<T: OApiCheckTrait<ResolutionContext<T>>>(
    members: Seq<OperatorSelector<T>>,
    state: &ResolutionContext<T>,
    kind: Seq<char>,
    k: int,
)
    requires
        0 <= k <= members.len(),
        list_violation(members.take(k), state, kind).is_some(),
    ensures
        list_violation(members, state, kind) == list_violation(members.take(k), state, kind),
    decreases members.len() - k,
{
    if k == members.len() {
        assert(members.take(k) =~= members);
    } else {
        assert(members.take(k + 1).drop_last() =~= members.take(k));
        lemma_violation_prefix(members, state, kind, k + 1);
    }
}

/// A composite whose members are all well formed is well formed, whatever
/// its kind.
pub proof fn law_well_formed_members_pass<T: OApiCheckTrait<ResolutionContext<T>>>(
    members: Seq<OperatorSelector<T>>,
    state: &ResolutionContext<T>,
    kind: Seq<char>,
)
    requires
        forall|i: int|
            0 <= i < members.len() ==> tree_violation(&#[trigger] members[i], state).is_none(),
    ensures
        list_violation(members, state, kind).is_none(),
    decreases members.len(),
{
    if members.len() > 0 {
        let front = members.drop_last();
        assert forall|i: int| 0 <= i < front.len() implies tree_violation(
            &#[trigger] front[i],
            state,
        ).is_none() by {
            assert(front[i] == members[i]);
        }
        law_well_formed_members_pass(front, state, kind);
        assert(members.last() == members[members.len() - 1]);
    }
}

/// A plain selector is well formed exactly where it resolves and the value
/// it resolves to is well formed.
pub proof fn law_plain_selector_passes<T: OApiCheckTrait<ResolutionContext<T>>>(
    selector: Selector<T>,
    state: &ResolutionContext<T>,
)
    ensures
        tree_violation(&OperatorSelector::Val(selector), state).is_none() <==> (
        selector.get_spec(state).is_ok() && selector.get_spec(state)->Ok_0.violation(
            state,
        ).is_none()),
{
}

/// Where the members before position `at` are well formed and the member at
/// `at` fails, the composite fails with the operator's name and `at` in
/// decimal before the member's own path, whatever follows that member.
pub proof fn law_failing_member_path<T: OApiCheckTrait<ResolutionContext<T>>>(
    members: Seq<OperatorSelector<T>>,
    state: &ResolutionContext<T>,
    kind: Seq<char>,
    at: int,
)
    requires
        0 <= at < members.len(),
        list_violation(members.take(at), state, kind).is_none(),
        tree_violation(&members[at], state).is_some(),
    ensures
        list_violation(members, state, kind) == under(
            seq![kind, decimal(at as nat)],
            tree_violation(&members[at], state),
        ),
{
    assert(members.take(at + 1).drop_last() =~= members.take(at));
    assert(members.take(at + 1).last() == members[at]);
    lemma_violation_prefix(members, state, kind, at + 1);
}

impl<T: OApiCheckTrait<ResolutionContext<T>>> OApiCheckTrait<
    ResolutionContext<T>,
> for OperatorSelector<T> {
    open spec fn violation(&self, state: &ResolutionContext<T>) -> Option<Failure> {
        tree_violation(self, state)
    }

    fn oapi_check_inner(&self, state: &ResolutionContext<T>, bread_crumb: &mut Vec<String>) -> (r:
        Result<(), OApiError>) {
        check_tree(self, state, bread_crumb)
    }

    fn oapi_check(&self, state: &ResolutionContext<T>, bread_crumb: &mut Vec<String>) -> (r: Result<
        (),
        OApiError,
    >) {
        self.oapi_check_inner(state, bread_crumb)
    }
}

/// Checks one field of a record under the field's name.
pub fn check_field<S, F: OApiCheckTrait<S>>(
    name: &str,
    field: &F,
    state: &S,
    bread_crumb: &mut Vec<String>,
) -> (r: Result<(), OApiError>)
    ensures
        checked_as(
            under(seq![name@], field.violation(state)),
            trail(old(bread_crumb)@),
            trail(final(bread_crumb)@),
            r,
        ),
{
    let ghost base = trail(bread_crumb@);
    bread_crumb.push(String::from_str(name));
    assert(trail(bread_crumb@) =~= base + seq![name@]);
    match field.oapi_check(state, bread_crumb) {
        Err(e) => {
            proof {
                let f = field.violation(state).unwrap();
                assert((base + seq![name@]) + f.path =~= base + (seq![name@] + f.path));
            }
            Err(e)
        },
        Ok(_) => {
            let ghost full = bread_crumb@;
            bread_crumb.pop();
            proof {
                assert(trail(full).len() == full.len());
                assert(bread_crumb@ =~= full.take(full.len() - 1));
                lemma_trail_take(full, full.len() - 1);
                assert((base + seq![name@]).take(base.len() as int) =~= base);
            }
            Ok(())
        },
    }
}

/// Validates a whole document from its root, starting with an empty
/// breadcrumb: success where nothing below the root fails, else the first
/// failure with the path from the root to the failing node.
pub fn check_document<S, R: OApiCheckTrait<S>>(root: &R, state: &S) -> (r: Result<(), OApiError>)
    ensures
        match root.violation(state) {
            None => r.is_ok(),
            Some(f) => match r {
                Ok(_) => false,
                Err(e) => e.kind@ == f.cause && trail(e.breadcrumb@) == f.path,
            },
        },
{
    let mut bread_crumb: Vec<String> = Vec::new();
    assert(trail(bread_crumb@) =~= Seq::empty());
    let r = root.oapi_check(state, &mut bread_crumb);
    proof {
        if let Some(f) = root.violation(state) {
            assert(Seq::<Seq<char>>::empty() + f.path =~= f.path);
        }
    }
    r
}

} // verus!
