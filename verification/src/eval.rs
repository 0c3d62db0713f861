//! The roll evaluator: validates a configuration, draws faces, and folds them
//! into a result, proved against the trace model in [`crate::trace`].

use vstd::prelude::*;

use rand::Rng;

use crate::config_error;
use crate::trace::dice_goal;
use crate::trace::face_in_range;
use crate::trace::is_complete_trace;
use crate::trace::lemma_fold_bounds;
use crate::trace::lemma_fold_push;
use crate::trace::lemma_rolls_length;
use crate::trace::lemma_settled_count_monotone;
use crate::trace::settled_count;
use crate::trace::successes_of;
use crate::trace::sum_of;
use crate::trace::total_of;
use crate::DiceError;
use crate::DiceRoll;
use crate::RollResult;
use crate::MAX_DRAWS;

verus! {

/// Draws one face of a die with `sides` faces.
///
/// Relies on `rand::Rng::gen_range` over the inclusive range `1..=sides` on
/// `rand::thread_rng()`: it samples a value of the range, so the result lies
/// inside it; it panics only on an empty range, which `sides >= 1` rules out.
#[verifier::external_body]
fn draw_face(sides: i32) -> (r: i32)
    requires
        1 <= sides,
    ensures
        1 <= r <= sides,
{
    rand::thread_rng().gen_range(1..=sides)
}

/// Checks the five configuration rules, in order.
fn validate(c: DiceRoll) -> (r: Result<(), DiceError>)
    ensures
        (match config_error(c) {
            Some(e) => r == Err::<(), DiceError>(e),
            None => r is Ok,
        }),
{
    if c.sides < 1 {
        Err(DiceError::NoSides)
    } else if c.target_number_enabled && c.target > c.sides {
        Err(DiceError::TargetAboveSides)
    } else if c.target_number_enabled && c.target < 1 {
        Err(DiceError::TargetBelowOne)
    } else if c.exploding_dice_enabled && c.explode_on < c.target {
        Err(DiceError::ExplodeBelowTarget)
    } else if c.exploding_dice_enabled && c.explode_on == 1 {
        Err(DiceError::ExplodeOnOne)
    } else {
        Ok(())
    }
}

/// Evaluates one roll of `configuration`, drawing fresh random faces.
///
/// A configuration error is reported before any face is drawn, exactly as
/// [`config_error`] says. On success the returned faces are a complete trace
/// of the configuration, and the total is the one its mode assigns: the net
/// success count in success-counting mode, else the sum of the faces plus the
/// modifier. `Err(DiceError::OutOfDraws)` is possible only for a valid
/// configuration with exploding dice enabled and a positive die count, when
/// [`MAX_DRAWS`] faces still settle too few dice; on every other valid
/// configuration success is guaranteed, since each draw settles one die.
pub fn roll(configuration: DiceRoll) -> (r: Result<RollResult, DiceError>)
    ensures
        (match config_error(configuration) {
            Some(e) => r == Err::<RollResult, DiceError>(e),
            None => r is Ok || r == Err::<RollResult, DiceError>(DiceError::OutOfDraws),
        }),
        r matches Ok(res) ==> {
            &&& config_error(configuration) is None
            &&& is_complete_trace(configuration, res.rolls@)
            &&& res.total as int == total_of(configuration, res.rolls@)
            &&& forall|j: int|
                0 <= j < res.rolls@.len() ==> face_in_range(configuration, #[trigger] res.rolls@[j])
            &&& !configuration.target_number_enabled ==> res.total as int == sum_of(res.rolls@)
                + configuration.modifier
            &&& configuration.target_number_enabled ==> res.total as int == successes_of(
                configuration,
                res.rolls@,
            )
            &&& res.rolls@.len() >= dice_goal(configuration)
        },
        config_error(configuration) is None && (configuration.dice <= 0
            || !configuration.exploding_dice_enabled) ==> r is Ok,
{
    match validate(configuration) {
        Err(e) => {
            return Err(e);
        },
        Ok(()) => {},
    }
    let mut sum: i64 = 0;
    let mut successes: i64 = 0;
    let mut i: i32 = 0;
    let mut rolls: Vec<i32> = Vec::new();
    while i < configuration.dice && rolls.len() < MAX_DRAWS
        invariant
            config_error(configuration) is None,
            0 <= i,
            i as int == settled_count(configuration, rolls@),
            i as int <= dice_goal(configuration),
            forall|j: int|
                0 <= j < rolls@.len() ==> face_in_range(configuration, #[trigger] rolls@[j]),
            forall|j: int|
                0 <= j < rolls@.len() ==> settled_count(configuration, #[trigger] rolls@.take(j))
                    < dice_goal(configuration),
            sum as int == sum_of(rolls@),
            successes as int == successes_of(configuration, rolls@),
            rolls@.len() <= MAX_DRAWS,
            !configuration.exploding_dice_enabled ==> i as int == rolls@.len(),
        decreases MAX_DRAWS - rolls@.len(),
    {
        let ghost prev = rolls@;
        let result = draw_face(configuration.sides);
        proof {
            lemma_fold_push(configuration, prev, result);
            lemma_fold_bounds(configuration, prev);
            assert forall|j: int| 0 <= j <= prev.len() implies #[trigger] prev.push(result).take(j)
                == prev.take(j) by {
                assert(prev.push(result).take(j) =~= prev.take(j));
            }
            assert(prev.take(prev.len() as int) =~= prev);
        }
        rolls.push(result);
        if result >= configuration.target {
            successes = successes + 1;
            if configuration.exploding_dice_enabled && result >= configuration.explode_on {
                // the die explodes: this index is rerolled, so no die settles
            } else {
                i = i + 1;
            }
        } else {
            if configuration.ones_subtract_enabled && result == 1 {
                successes = successes - 1;
            }
            i = i + 1;
        }
        sum = sum + result as i64;
    }
    if i < configuration.dice {
        // only an exploding configuration can exhaust the budget: without
        // explosions every draw settles a die, and `dice` is below the budget
        assert(configuration.dice > 0 && configuration.exploding_dice_enabled);
        return Err(DiceError::OutOfDraws);
    }
    proof {
        lemma_fold_bounds(configuration, rolls@);
        lemma_rolls_length(configuration, rolls@);
    }
    let total: i64 = if configuration.target_number_enabled {
        successes
    } else {
        sum + configuration.modifier as i64
    };
    Ok(RollResult { rolls, total })
}

/// Evaluates one roll of `configuration` against a fixed sequence of draws,
/// consuming faces from `draws` in order instead of a random source.
///
/// This is the deterministic core of [`roll`]: for a given configuration and
/// draw sequence the outcome is fully determined, since a draw sequence has
/// at most one prefix that is a complete trace
/// ([`crate::trace::lemma_complete_prefix_unique`]). Configuration errors are
/// reported exactly as for [`roll`]; `Err(DiceError::OutOfDraws)` is returned
/// iff the configuration is valid and no prefix of `draws` completes it.
pub fn roll_with_draws(configuration: DiceRoll, draws: &Vec<i32>) -> (r: Result<
    RollResult,
    DiceError,
>)
    requires
        draws@.len() <= MAX_DRAWS,
        forall|j: int| 0 <= j < draws@.len() ==> face_in_range(configuration, #[trigger] draws@[j]),
    ensures
        (match config_error(configuration) {
            Some(e) => r == Err::<RollResult, DiceError>(e),
            None => r is Ok || r == Err::<RollResult, DiceError>(DiceError::OutOfDraws),
        }),
        r matches Ok(res) ==> {
            &&& config_error(configuration) is None
            &&& res.rolls@.len() <= draws@.len()
            &&& res.rolls@ == draws@.take(res.rolls@.len() as int)
            &&& is_complete_trace(configuration, res.rolls@)
            &&& res.total as int == total_of(configuration, res.rolls@)
        },
        config_error(configuration) is None ==> (r is Ok <==> exists|n: int|
            0 <= n <= draws@.len() && is_complete_trace(configuration, #[trigger] draws@.take(n))),
{
    match validate(configuration) {
        Err(e) => {
            return Err(e);
        },
        Ok(()) => {},
    }
    let mut sum: i64 = 0;
    let mut successes: i64 = 0;
    let mut i: i32 = 0;
    let mut k: usize = 0;
    let mut rolls: Vec<i32> = Vec::new();
    while i < configuration.dice && k < draws.len()
        invariant
            config_error(configuration) is None,
            draws@.len() <= MAX_DRAWS,
            forall|j: int|
                0 <= j < draws@.len() ==> face_in_range(configuration, #[trigger] draws@[j]),
            0 <= i,
            k <= draws@.len(),
            rolls@ == draws@.take(k as int),
            i as int == settled_count(configuration, rolls@),
            i as int <= dice_goal(configuration),
            forall|j: int|
                0 <= j < rolls@.len() ==> settled_count(configuration, #[trigger] rolls@.take(j))
                    < dice_goal(configuration),
            sum as int == sum_of(rolls@),
            successes as int == successes_of(configuration, rolls@),
        decreases draws@.len() - k,
    {
        let ghost prev = rolls@;
        let result = draws[k];
        k = k + 1;
        proof {
            lemma_fold_push(configuration, prev, result);
            lemma_fold_bounds(configuration, prev);
            assert forall|j: int| 0 <= j <= prev.len() implies #[trigger] prev.push(result).take(j)
                == prev.take(j) by {
                assert(prev.push(result).take(j) =~= prev.take(j));
            }
            assert(prev.take(prev.len() as int) =~= prev);
            assert(draws@.take(k as int) =~= prev.push(result));
        }
        rolls.push(result);
        if result >= configuration.target {
            successes = successes + 1;
            if configuration.exploding_dice_enabled && result >= configuration.explode_on {
                // the die explodes: this index is rerolled, so no die settles
            } else {
                i = i + 1;
            }
        } else {
            if configuration.ones_subtract_enabled && result == 1 {
                successes = successes - 1;
            }
            i = i + 1;
        }
        sum = sum + result as i64;
    }
    if i < configuration.dice {
        proof {
            assert(rolls@ =~= draws@);
            assert forall|n: int| 0 <= n <= draws@.len() implies !is_complete_trace(
                configuration,
                #[trigger] draws@.take(n),
            ) by {
                lemma_settled_count_monotone(configuration, draws@, n, draws@.len() as int);
                assert(draws@.take(draws@.len() as int) =~= draws@);
            }
        }
        return Err(DiceError::OutOfDraws);
    }
    proof {
        lemma_fold_bounds(configuration, rolls@);
        assert(is_complete_trace(configuration, rolls@));
        assert(draws@.take(rolls@.len() as int) == rolls@);
    }
    let total: i64 = if configuration.target_number_enabled {
        successes
    } else {
        sum + configuration.modifier as i64
    };
    Ok(RollResult { rolls, total })
}

/// Rolls `configuration` twice independently and returns both results with
/// the higher total first; on a tie the pair keeps the order it was rolled
/// in. A configuration error, or an exhausted draw budget on either roll, is
/// propagated and no partial pair is returned.
pub fn roll_with_advantage(configuration: DiceRoll) -> (r: Result<[RollResult; 2], DiceError>)
    ensures
        (match config_error(configuration) {
            Some(e) => r == Err::<[RollResult; 2], DiceError>(e),
            None => r is Ok || r == Err::<[RollResult; 2], DiceError>(DiceError::OutOfDraws),
        }),
        r matches Ok(pair) ==> {
            &&& pair[0].total >= pair[1].total
            &&& is_complete_trace(configuration, pair[0].rolls@)
            &&& pair[0].total as int == total_of(configuration, pair[0].rolls@)
            &&& is_complete_trace(configuration, pair[1].rolls@)
            &&& pair[1].total as int == total_of(configuration, pair[1].rolls@)
        },
        config_error(configuration) is None && (configuration.dice <= 0
            || !configuration.exploding_dice_enabled) ==> r is Ok,
{
    let left_roll = match roll(configuration) {
        Ok(res) => res,
        Err(e) => {
            return Err(e);
        },
    };
    let right_roll = match roll(configuration) {
        Ok(res) => res,
        Err(e) => {
            return Err(e);
        },
    };
    if left_roll.total >= right_roll.total {
        Ok([left_roll, right_roll])
    } else {
        Ok([right_roll, left_roll])
    }
}

/// Rolls `configuration` twice independently and returns both results with
/// the lower total first; on a tie the pair keeps the order it was rolled
/// in. A configuration error, or an exhausted draw budget on either roll, is
/// propagated and no partial pair is returned.
pub fn roll_with_disadvantage(configuration: DiceRoll) -> (r: Result<[RollResult; 2], DiceError>)
    ensures
        (match config_error(configuration) {
            Some(e) => r == Err::<[RollResult; 2], DiceError>(e),
            None => r is Ok || r == Err::<[RollResult; 2], DiceError>(DiceError::OutOfDraws),
        }),
        r matches Ok(pair) ==> {
            &&& pair[0].total <= pair[1].total
            &&& is_complete_trace(configuration, pair[0].rolls@)
            &&& pair[0].total as int == total_of(configuration, pair[0].rolls@)
            &&& is_complete_trace(configuration, pair[1].rolls@)
            &&& pair[1].total as int == total_of(configuration, pair[1].rolls@)
        },
        config_error(configuration) is None && (configuration.dice <= 0
            || !configuration.exploding_dice_enabled) ==> r is Ok,
{
    let left_roll = match roll(configuration) {
        Ok(res) => res,
        Err(e) => {
            return Err(e);
        },
    };
    let right_roll = match roll(configuration) {
        Ok(res) => res,
        Err(e) => {
            return Err(e);
        },
    };
    if left_roll.total <= right_roll.total {
        Ok([left_roll, right_roll])
    } else {
        Ok([right_roll, left_roll])
    }
}

} // verus!
