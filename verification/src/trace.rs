//! The mathematical model of one evaluation: a roll is a sequence of drawn
//! faces (a trace), and every quantity the evaluator reports is a function of
//! that sequence and the configuration.

use vstd::prelude::*;

use crate::config_error;
use crate::DiceRoll;

verus! {

/// How many dice one evaluation of `c` must settle: `dice`, or none when
/// `dice` is negative.
pub open spec fn dice_goal(c: DiceRoll) -> int {
    if c.dice >= 0 {
        c.dice as int
    } else {
        0
    }
}

/// Whether `f` is a face a die with `c.sides` faces can show.
pub open spec fn face_in_range(c: DiceRoll, f: i32) -> bool {
    1 <= f <= c.sides
}

/// Whether drawing `f` explodes: the die is rerolled, so the face settles no
/// die. A face explodes when it counts as a success and reaches the explosion
/// threshold of an enabled exploding-dice rule.
pub open spec fn face_explodes(c: DiceRoll, f: i32) -> bool {
    c.exploding_dice_enabled && f >= c.target && f >= c.explode_on
}

/// Whether drawing `f` settles one die (advances the evaluation by one die).
pub open spec fn face_settles(c: DiceRoll, f: i32) -> bool {
    !face_explodes(c, f)
}

/// What drawing `f` adds to the success count: one for a face at or above the
/// target, minus one for a face of exactly 1 under the penalty rule, else
/// nothing. (In sum mode the target is typically 0, so every face counts; the
/// total ignores the count there.)
pub open spec fn success_delta(c: DiceRoll, f: i32) -> int {
    if f >= c.target {
        1
    } else if c.ones_subtract_enabled && f == 1 {
        -1
    } else {
        0
    }
}

/// The sum of all faces of `s`.
pub open spec fn sum_of(s: Seq<i32>) -> int
    decreases s.len(),
{
    if s.len() == 0 {
        0
    } else {
        sum_of(s.drop_last()) + s.last()
    }
}

/// The net success count of `s` under `c`: the sum of each face's
/// `success_delta`.
pub open spec fn successes_of(c: DiceRoll, s: Seq<i32>) -> int
    decreases s.len(),
{
    if s.len() == 0 {
        0
    } else {
        successes_of(c, s.drop_last()) + success_delta(c, s.last())
    }
}

/// How many faces of `s` settle a die under `c`.
pub open spec fn settled_count(c: DiceRoll, s: Seq<i32>) -> int
    decreases s.len(),
{
    if s.len() == 0 {
        0
    } else {
        settled_count(c, s.drop_last()) + if face_settles(c, s.last()) {
            1int
        } else {
            0int
        }
    }
}

/// Whether `s` is exactly the face sequence of one finished evaluation of
/// `c`: every face is one a die can show, the faces settle exactly the dice
/// asked for, and no face is drawn after the last die settles (every proper
/// prefix leaves some die unsettled).
pub open spec fn is_complete_trace(c: DiceRoll, s: Seq<i32>) -> bool {
    &&& forall|j: int| 0 <= j < s.len() ==> face_in_range(c, #[trigger] s[j])
    &&& settled_count(c, s) == dice_goal(c)
    &&& forall|j: int| 0 <= j < s.len() ==> settled_count(c, #[trigger] s.take(j)) < dice_goal(c)
}

/// The total that `c`'s mode assigns to the trace `s`: the net success count
/// in success-counting mode, else the sum of all faces plus the modifier.
pub open spec fn total_of(c: DiceRoll, s: Seq<i32>) -> int {
    if c.target_number_enabled {
        successes_of(c, s)
    } else {
        sum_of(s) + c.modifier
    }
}

/// Extending a trace by one face extends each fold by that face's
/// contribution.
pub proof fn lemma_fold_push(c: DiceRoll, s: Seq<i32>, f: i32)
    ensures
        sum_of(s.push(f)) == sum_of(s) + f,
        successes_of(c, s.push(f)) == successes_of(c, s) + success_delta(c, f),
        settled_count(c, s.push(f)) == settled_count(c, s) + if face_settles(c, f) {
            1int
        } else {
            0int
        },
{
    assert(s.push(f).drop_last() =~= s);
    assert(s.push(f).last() == f);
}

/// The folds of a trace are bounded by its length: every face settles at most
/// one die, changes the success count by at most one either way, and adds
/// between 1 and `i32::MAX` to the sum when it is a face a die can show.
pub proof fn lemma_fold_bounds(c: DiceRoll, s: Seq<i32>)
    requires
        forall|j: int| 0 <= j < s.len() ==> face_in_range(c, #[trigger] s[j]),
    ensures
        0 <= settled_count(c, s) <= s.len(),
        -s.len() <= successes_of(c, s) <= s.len(),
        s.len() <= sum_of(s) <= s.len() * 0x7fff_ffff,
    decreases s.len(),
{
    if s.len() > 0 {
        assert(forall|j: int| 0 <= j < s.drop_last().len() ==> face_in_range(
            c,
            #[trigger] s.drop_last()[j],
        ));
        lemma_fold_bounds(c, s.drop_last());
        assert(face_in_range(c, s.last()));
    }
}

/// A longer prefix never settles fewer dice.
pub proof fn lemma_settled_count_monotone(c: DiceRoll, s: Seq<i32>, j: int, k: int)
    requires
        0 <= j <= k <= s.len(),
    ensures
        settled_count(c, s.take(j)) <= settled_count(c, s.take(k)),
    decreases k - j,
{
    if j < k {
        lemma_settled_count_monotone(c, s, j, k - 1);
        assert(s.take(k).drop_last() =~= s.take(k - 1));
        assert(settled_count(c, s.take(k - 1)) <= settled_count(c, s.take(k)));
    }
}

/// A trace settles its whole length exactly when every face of it settles.
pub proof fn lemma_settled_count_full(c: DiceRoll, s: Seq<i32>)
    ensures
        settled_count(c, s) == s.len() <==> (forall|j: int|
            0 <= j < s.len() ==> face_settles(c, #[trigger] s[j])),
    decreases s.len(),
{
    if s.len() > 0 {
        lemma_settled_count_full(c, s.drop_last());
        lemma_fold_bounds_settled(c, s.drop_last());
        assert(s.last() == s[s.len() - 1]);
        assert(forall|j: int| 0 <= j < s.len() - 1 ==> s.drop_last()[j] == #[trigger] s[j]);
        if settled_count(c, s) == s.len() {
            assert(settled_count(c, s.drop_last()) == s.drop_last().len());
        }
    }
}

/// A settled count never exceeds the trace's length, whatever the faces.
proof fn lemma_fold_bounds_settled(c: DiceRoll, s: Seq<i32>)
    ensures
        0 <= settled_count(c, s) <= s.len(),
    decreases s.len(),
{
    if s.len() > 0 {
        lemma_fold_bounds_settled(c, s.drop_last());
    }
}

/// A finished evaluation draws at least one face per die asked for, and draws
/// exactly that many iff exploding dice are disabled or no drawn face reached
/// the explosion threshold.
pub proof fn lemma_rolls_length(c: DiceRoll, s: Seq<i32>)
    requires
        config_error(c) is None,
        is_complete_trace(c, s),
    ensures
        s.len() >= dice_goal(c),
        s.len() == dice_goal(c) <==> (!c.exploding_dice_enabled || (forall|j: int|
            0 <= j < s.len() ==> #[trigger] s[j] < c.explode_on)),
{
    lemma_fold_bounds_settled(c, s);
    lemma_settled_count_full(c, s);
    if c.exploding_dice_enabled {
        assert(c.explode_on >= c.target);
        assert(forall|j: int| 0 <= j < s.len() ==> (face_settles(c, #[trigger] s[j]) <==> s[j]
            < c.explode_on));
    }
}

/// Determinism: a draw sequence has at most one prefix that is a complete
/// trace, so the evaluation of a fixed draw sequence is a function of that
/// sequence and the configuration.
pub proof fn lemma_complete_prefix_unique(c: DiceRoll, draws: Seq<i32>, n1: int, n2: int)
    requires
        0 <= n1 <= draws.len(),
        0 <= n2 <= draws.len(),
        is_complete_trace(c, draws.take(n1)),
        is_complete_trace(c, draws.take(n2)),
    ensures
        n1 == n2,
{
    if n1 < n2 {
        assert(draws.take(n2).take(n1) =~= draws.take(n1));
        assert(settled_count(c, draws.take(n1)) < dice_goal(c));
    } else if n2 < n1 {
        assert(draws.take(n1).take(n2) =~= draws.take(n2));
        assert(settled_count(c, draws.take(n2)) < dice_goal(c));
    }
}

} // verus!
