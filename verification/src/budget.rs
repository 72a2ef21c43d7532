//! How two players settle on a rollback budget.
//!
//! Each names the budget they would like. The one used is 6 if one of them
//! names more and the other less, and otherwise the one of the two that is
//! nearest to 6.
use vstd::prelude::*;

verus! {

/// The budget where nobody asks for another.
pub const DEFAULT_MAX_ROLLBACK: usize = 6;

/// The budget that two wishes lead to.
pub open spec fn agreed(a: nat, b: nat) -> nat {
    let low = if a <= b {
        a
    } else {
        b
    };
    let high = if a <= b {
        b
    } else {
        a
    };
    if low < 6 && 6 < high {
        6
    } else if high <= 6 {
        high
    } else {
        low
    }
}

/// Settles on a budget.
pub fn agree_on_rollback(theirs: usize, mine: usize) -> (r: usize)
    ensures
        r == agreed(theirs as nat, mine as nat),
{
    let min: usize = if theirs <= mine {
        theirs
    } else {
        mine
    };
    let max: usize = if theirs <= mine {
        mine
    } else {
        theirs
    };
    if min < DEFAULT_MAX_ROLLBACK && DEFAULT_MAX_ROLLBACK < max {
        DEFAULT_MAX_ROLLBACK
    } else if max <= DEFAULT_MAX_ROLLBACK {
        max
    } else {
        min
    }
}

/// How much a player likes each budget: `peak` the most, and the less the
/// further away on either side.
pub open spec fn single_peaked(likes: spec_fn(nat) -> int, peak: nat) -> bool {
    &&& forall|x: nat, y: nat| x <= y <= peak ==> #[trigger] likes(x) <= #[trigger] likes(y)
    &&& forall|x: nat, y: nat| peak <= x <= y ==> #[trigger] likes(x) >= #[trigger] likes(y)
}

/// If both wish for the same, that is what they get.
pub proof fn unanimous_consent(n: nat)
    ensures
        agreed(n, n) == n,
{
}

/// It does not matter who wishes for which.
pub proof fn symmetry(a: nat, b: nat)
    ensures
        agreed(a, b) == agreed(b, a),
{
}

/// The budget lies between the two wishes.
pub proof fn between_the_wishes(a: nat, b: nat)
    ensures
        a <= agreed(a, b) <= b || b <= agreed(a, b) <= a,
{
}

/// Nobody is worse off than with the default.
pub proof fn never_worse_than_default(a: nat, b: nat, likes: spec_fn(nat) -> int)
    requires
        single_peaked(likes, a),
    ensures
        likes(agreed(a, b)) >= likes(6),
{
    let _ = (likes(agreed(a, b)), likes(6), likes(a));
}

/// Whatever the other wishes for, nobody does better than by wishing for what
/// they like most.
pub proof fn honesty_pays(a: nat, b: nat, pretended: nat, likes: spec_fn(nat) -> int)
    requires
        single_peaked(likes, a),
    ensures
        likes(agreed(a, b)) >= likes(agreed(pretended, b)),
{
    let _ = (likes(agreed(a, b)), likes(agreed(pretended, b)), likes(a));
}

/// No pair of pretended wishes is better for both than the honest ones.
pub proof fn no_gain_for_both(
    a: nat,
    b: nat,
    pretended_a: nat,
    pretended_b: nat,
    likes_a: spec_fn(nat) -> int,
    likes_b: spec_fn(nat) -> int,
)
    requires
        single_peaked(likes_a, a),
        single_peaked(likes_b, b),
    ensures
        !(likes_a(agreed(pretended_a, pretended_b)) > likes_a(agreed(a, b)) && likes_b(
            agreed(pretended_a, pretended_b),
        ) > likes_b(agreed(a, b))),
{
    let got = agreed(pretended_a, pretended_b);
    let due = agreed(a, b);
    let _ = (likes_a(got), likes_a(due), likes_b(got), likes_b(due));
}

/// A rule leaves nobody worse off than with the default.
pub open spec fn improves_on_default(rule: spec_fn(nat, nat) -> nat) -> bool {
    forall|a: nat, b: nat, likes: spec_fn(nat) -> int|
        single_peaked(likes, a) ==> #[trigger] likes(#[trigger] rule(a, b)) >= likes(6)
}

/// This is the only symmetric rule that keeps between the wishes and leaves
/// nobody worse off than with the default.
pub proof fn the_only_such_rule(rule: spec_fn(nat, nat) -> nat, a: nat, b: nat)
    requires
        forall|x: nat, y: nat| #[trigger] rule(x, y) == rule(y, x),
        forall|x: nat, y: nat|
            x <= #[trigger] rule(x, y) <= y || y <= rule(x, y) <= x,
        improves_on_default(rule),
    ensures
        rule(a, b) == agreed(a, b),
{
    toward_the_default(rule, a, b);
    toward_the_default(rule, b, a);
    assert(rule(a, b) == rule(b, a));
}

/// Such a rule leaves a player between their wish and the default.
proof fn toward_the_default(rule: spec_fn(nat, nat) -> nat, a: nat, b: nat)
    requires
        improves_on_default(rule),
    ensures
        a <= rule(a, b) <= 6 || 6 <= rule(a, b) <= a,
{
    let likes = |x: nat|
        if a <= x <= 6 || 6 <= x <= a {
            0int
        } else {
            -1
        };
    assert(single_peaked(likes, a));
    assert(likes(rule(a, b)) >= likes(6));
}

} // verus!
