use dice_roller::roll;
use dice_roller::roll_with_advantage;
use dice_roller::roll_with_disadvantage;
use dice_roller::roll_with_draws;
use dice_roller::DiceError;
use dice_roller::DiceRoll;
use dice_roller::RollResult;

fn sum(rolls: &[i32]) -> i64 {
    rolls.iter().map(|f| *f as i64).sum()
}

fn successes(rolls: &[i32], target: i32, ones_subtract: bool) -> i64 {
    let mut count: i64 = 0;
    for f in rolls {
        if *f >= target {
            count += 1;
        } else if ones_subtract && *f == 1 {
            count -= 1;
        }
    }
    count
}

#[test]
fn builder_defaults() {
    let c = DiceRoll::new();
    assert_eq!(c.dice, 1);
    assert_eq!(c.sides, 6);
    assert_eq!(c.target, 0);
    assert!(!c.target_number_enabled);
    assert!(!c.ones_subtract_enabled);
    assert_eq!(c.explode_on, 0);
    assert!(!c.exploding_dice_enabled);
    assert_eq!(c.modifier, 0);
}

#[test]
fn builder_setters_chain() {
    let c = DiceRoll::new().dice(4).sides(10).modifier(-2).ones_subtract(true);
    assert_eq!(c.dice, 4);
    assert_eq!(c.sides, 10);
    assert_eq!(c.modifier, -2);
    assert!(c.ones_subtract_enabled);
    assert!(!c.target_number_enabled);
    assert!(!c.exploding_dice_enabled);
}

#[test]
fn target_setter_enables_target_mode() {
    let c = DiceRoll::new().target(5);
    assert_eq!(c.target, 5);
    assert!(c.target_number_enabled);
}

#[test]
fn explode_on_setter_enables_exploding() {
    let c = DiceRoll::new().explode_on(6);
    assert_eq!(c.explode_on, 6);
    assert!(c.exploding_dice_enabled);
}

#[test]
fn zero_sides_fails_for_any_dice() {
    for dice in [-3, 0, 1, 5] {
        let r = roll(DiceRoll::new().dice(dice).sides(0));
        assert_eq!(r.err(), Some(DiceError::NoSides));
    }
}

#[test]
fn negative_sides_fails() {
    let r = roll(DiceRoll::new().sides(-4));
    assert_eq!(r.err(), Some(DiceError::NoSides));
}

#[test]
fn target_above_sides_fails() {
    let r = roll(DiceRoll::new().sides(6).target(7));
    assert_eq!(r.err(), Some(DiceError::TargetAboveSides));
}

#[test]
fn target_below_one_fails() {
    let r = roll(DiceRoll::new().target(0));
    assert_eq!(r.err(), Some(DiceError::TargetBelowOne));
    let r = roll(DiceRoll::new().target(-2));
    assert_eq!(r.err(), Some(DiceError::TargetBelowOne));
}

#[test]
fn explode_below_target_fails() {
    let r = roll(DiceRoll::new().sides(6).target(4).explode_on(3));
    assert_eq!(r.err(), Some(DiceError::ExplodeBelowTarget));
}

#[test]
fn explode_on_one_fails_regardless_of_target() {
    let r = roll(DiceRoll::new().explode_on(1));
    assert_eq!(r.err(), Some(DiceError::ExplodeOnOne));
    let r = roll(DiceRoll::new().target(1).explode_on(1));
    assert_eq!(r.err(), Some(DiceError::ExplodeOnOne));
    // with a higher target the explosion threshold fails an earlier check,
    // but the configuration is still refused
    let r = roll(DiceRoll::new().sides(6).target(3).explode_on(1));
    assert!(r.is_err());
}

#[test]
fn validation_checks_run_in_order() {
    // an invalid side count is reported before an invalid target
    let r = roll(DiceRoll::new().sides(0).target(7));
    assert_eq!(r.err(), Some(DiceError::NoSides));
    // an invalid target is reported before an invalid explosion threshold
    let r = roll(DiceRoll::new().sides(6).target(7).explode_on(1));
    assert_eq!(r.err(), Some(DiceError::TargetAboveSides));
}

#[test]
fn sum_mode_totals_the_faces() {
    let res = roll(DiceRoll::new().dice(3)).unwrap();
    assert_eq!(res.rolls.len(), 3);
    for f in &res.rolls {
        assert!((1..=6).contains(f));
    }
    assert_eq!(res.total, sum(&res.rolls));
}

#[test]
fn sum_mode_adds_the_modifier() {
    let res = roll(DiceRoll::new().dice(2).modifier(10)).unwrap();
    assert_eq!(res.total, sum(&res.rolls) + 10);
    let res = roll(DiceRoll::new().dice(2).modifier(-7)).unwrap();
    assert_eq!(res.total, sum(&res.rolls) - 7);
}

#[test]
fn one_sided_dice_roll_all_ones() {
    let res = roll(DiceRoll::new().dice(4).sides(1)).unwrap();
    assert_eq!(res.rolls, vec![1, 1, 1, 1]);
    assert_eq!(res.total, 4);
}

#[test]
fn zero_dice_gives_empty_roll() {
    let res = roll(DiceRoll::new().dice(0).modifier(3)).unwrap();
    assert!(res.rolls.is_empty());
    assert_eq!(res.total, 3);
}

#[test]
fn negative_dice_gives_empty_roll() {
    let res = roll(DiceRoll::new().dice(-5)).unwrap();
    assert!(res.rolls.is_empty());
    assert_eq!(res.total, 0);
}

#[test]
fn target_mode_counts_successes() {
    let res = roll(DiceRoll::new().dice(10).sides(6).target(4)).unwrap();
    assert_eq!(res.rolls.len(), 10);
    for f in &res.rolls {
        assert!((1..=6).contains(f));
    }
    assert_eq!(res.total, successes(&res.rolls, 4, false));
}

#[test]
fn target_mode_with_ones_penalty() {
    let res = roll(DiceRoll::new().dice(20).sides(6).target(5).ones_subtract(true)).unwrap();
    assert_eq!(res.rolls.len(), 20);
    assert_eq!(res.total, successes(&res.rolls, 5, true));
}

#[test]
fn exploding_dice_reroll_high_faces() {
    let cfg = DiceRoll::new().dice(50).sides(2).explode_on(2);
    let res = roll(cfg).unwrap();
    // every face below the threshold settles one die, and nothing is drawn
    // after the last die settles
    let settled = res.rolls.iter().filter(|f| **f < 2).count();
    let exploded = res.rolls.iter().filter(|f| **f >= 2).count();
    assert_eq!(settled, 50);
    assert_eq!(res.rolls.len(), 50 + exploded);
    assert!(*res.rolls.last().unwrap() < 2);
    assert_eq!(res.total, sum(&res.rolls));
}

#[test]
fn exploding_dice_in_target_mode() {
    let cfg = DiceRoll::new().dice(10).sides(6).target(5).explode_on(6);
    let res = roll(cfg).unwrap();
    let settled = res.rolls.iter().filter(|f| **f < 6).count();
    assert_eq!(settled, 10);
    assert!(res.rolls.len() >= 10);
    assert_eq!(res.total, successes(&res.rolls, 5, false));
}

#[test]
fn faces_vary_across_draws() {
    // thirty draws of a six-sided die all but surely show more than one face;
    // a draw source stuck on a single value would fail this
    let res = roll(DiceRoll::new().dice(30)).unwrap();
    assert!(res.rolls.iter().any(|f| *f < 6));
    assert!(res.rolls.iter().any(|f| *f > 1));
}

#[test]
fn advantage_orders_pair_high_first() {
    let [first, second] = roll_with_advantage(DiceRoll::new().dice(3)).unwrap();
    assert!(first.total >= second.total);
    for res in [&first, &second] {
        assert_eq!(res.rolls.len(), 3);
        for f in &res.rolls {
            assert!((1..=6).contains(f));
        }
        assert_eq!(res.total, sum(&res.rolls));
    }
}

#[test]
fn disadvantage_orders_pair_low_first() {
    let [first, second] = roll_with_disadvantage(DiceRoll::new().dice(3)).unwrap();
    assert!(first.total <= second.total);
    for res in [&first, &second] {
        assert_eq!(res.rolls.len(), 3);
        assert_eq!(res.total, sum(&res.rolls));
    }
}

#[test]
fn advantage_propagates_configuration_errors() {
    let r = roll_with_advantage(DiceRoll::new().sides(0));
    assert_eq!(r.err(), Some(DiceError::NoSides));
    let r = roll_with_disadvantage(DiceRoll::new().target(0));
    assert_eq!(r.err(), Some(DiceError::TargetBelowOne));
}

#[test]
fn advantage_tie_keeps_both_totals() {
    // zero dice make both totals equal to the modifier, forcing a tie
    let [first, second] = roll_with_advantage(DiceRoll::new().dice(0).modifier(4)).unwrap();
    assert_eq!(first.total, 4);
    assert_eq!(second.total, 4);
    let [first, second] = roll_with_disadvantage(DiceRoll::new().dice(0).modifier(4)).unwrap();
    assert_eq!(first.total, 4);
    assert_eq!(second.total, 4);
}

#[test]
fn fixed_draws_reproduce_the_documented_vector() {
    let res = roll_with_draws(DiceRoll::new().dice(3), &vec![4, 1, 6]).unwrap();
    assert_eq!(res.rolls, vec![4, 1, 6]);
    assert_eq!(res.total, 11);
}

#[test]
fn fixed_draws_apply_the_modifier() {
    let res = roll_with_draws(DiceRoll::new().dice(3).modifier(5), &vec![4, 1, 6]).unwrap();
    assert_eq!(res.rolls, vec![4, 1, 6]);
    assert_eq!(res.total, 16);
}

#[test]
fn fixed_draws_count_successes() {
    let cfg = DiceRoll::new().dice(3).sides(6).target(5);
    let res = roll_with_draws(cfg, &vec![5, 1, 2]).unwrap();
    assert_eq!(res.total, 1);
    let res = roll_with_draws(cfg.ones_subtract(true), &vec![5, 1, 2]).unwrap();
    assert_eq!(res.total, 0);
}

#[test]
fn fixed_draws_can_go_negative_in_target_mode() {
    let cfg = DiceRoll::new().dice(3).sides(6).target(5).ones_subtract(true);
    let res = roll_with_draws(cfg, &vec![1, 1, 1]).unwrap();
    assert_eq!(res.rolls, vec![1, 1, 1]);
    assert_eq!(res.total, -3);
}

#[test]
fn fixed_draws_explode_in_sum_mode() {
    let cfg = DiceRoll::new().dice(1).sides(6).explode_on(6);
    let res = roll_with_draws(cfg, &vec![6, 6, 2]).unwrap();
    assert_eq!(res.rolls, vec![6, 6, 2]);
    assert_eq!(res.total, 14);
}

#[test]
fn fixed_draws_explode_in_target_mode() {
    let cfg = DiceRoll::new().dice(2).sides(6).target(5).explode_on(5);
    let res = roll_with_draws(cfg, &vec![5, 3, 6, 2]).unwrap();
    assert_eq!(res.rolls, vec![5, 3, 6, 2]);
    assert_eq!(res.total, 2);
}

#[test]
fn fixed_draws_stop_at_the_completed_roll() {
    let res = roll_with_draws(DiceRoll::new().dice(3), &vec![4, 1, 6, 5, 5]).unwrap();
    assert_eq!(res.rolls, vec![4, 1, 6]);
    assert_eq!(res.total, 11);
}

#[test]
fn fixed_draws_report_a_short_supply() {
    let r = roll_with_draws(DiceRoll::new().dice(2), &vec![4]);
    assert_eq!(r.err(), Some(DiceError::OutOfDraws));
    // a chain of explosions can outlast the supply as well
    let cfg = DiceRoll::new().dice(1).sides(6).explode_on(6);
    let r = roll_with_draws(cfg, &vec![6, 6]);
    assert_eq!(r.err(), Some(DiceError::OutOfDraws));
}

#[test]
fn fixed_draws_check_the_configuration_first() {
    let r = roll_with_draws(DiceRoll::new().sides(0), &vec![]);
    assert_eq!(r.err(), Some(DiceError::NoSides));
    let r = roll_with_draws(DiceRoll::new().sides(6).target(7), &vec![]);
    assert_eq!(r.err(), Some(DiceError::TargetAboveSides));
}

#[test]
fn fixed_draws_are_deterministic() {
    let cfg = DiceRoll::new().dice(4).sides(8).target(6).ones_subtract(true);
    let draws = vec![8, 1, 6, 3, 7];
    let a = roll_with_draws(cfg, &draws).unwrap();
    let b = roll_with_draws(cfg, &draws).unwrap();
    assert_eq!(a.rolls, b.rolls);
    assert_eq!(a.total, b.total);
}

#[test]
fn zero_dice_need_no_draws() {
    let res = roll_with_draws(DiceRoll::new().dice(0).modifier(9), &vec![]).unwrap();
    assert!(res.rolls.is_empty());
    assert_eq!(res.total, 9);
}

#[test]
fn error_messages_name_each_cause() {
    assert_eq!(DiceError::NoSides.message(), "dice must have at least one side.");
    assert_eq!(
        DiceError::TargetAboveSides.message(),
        "if target number is enabled, your target number must not be higher than the amount of sides on your dice."
    );
    assert_eq!(
        DiceError::TargetBelowOne.message(),
        "if target number is enabled, your target number must not be lower than one."
    );
    assert_eq!(
        DiceError::ExplodeBelowTarget.message(),
        "you can't explode dice on a number smaller than the target number."
    );
    assert_eq!(
        DiceError::ExplodeOnOne.message(),
        "explode_on must be higher than one, otherwise exploding successes would continue infinitely."
    );
    assert_eq!(DiceError::OutOfDraws.message(), "the draw supply ended before every die settled.");
}

#[test]
fn roll_result_exposes_rolls_and_total() {
    let res = RollResult { rolls: vec![2, 5], total: 7 };
    assert_eq!(res.rolls, vec![2, 5]);
    assert_eq!(res.total, 7);
}
