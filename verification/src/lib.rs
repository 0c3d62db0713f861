use vstd::prelude::*;

mod eval;
mod trace;

pub use eval::roll;
pub use eval::roll_with_advantage;
pub use eval::roll_with_disadvantage;
pub use eval::roll_with_draws;
pub use trace::dice_goal;
pub use trace::face_explodes;
pub use trace::face_in_range;
pub use trace::face_settles;
pub use trace::is_complete_trace;
pub use trace::lemma_complete_prefix_unique;
pub use trace::lemma_rolls_length;
pub use trace::settled_count;
pub use trace::success_delta;
pub use trace::successes_of;
pub use trace::sum_of;
pub use trace::total_of;

verus! {

/// The largest number of faces one evaluation will draw.
///
/// Exploding dice make the number of draws unbounded in principle; this budget
/// is a machine limit (the face vector alone would take many gigabytes at this
/// size), chosen so that every total fits an `i64` exactly: the budget times
/// the largest face, plus the largest modifier, stays below `i64::MAX`.
pub const MAX_DRAWS: usize = 0xffff_ffff;

/// The rules for one roll: how many dice, their size, and which optional
/// mechanics (success counting, penalty on ones, exploding dice, a flat
/// modifier) apply.
///
/// A configuration is built by chaining the setters below and is not checked
/// while it is built: validation happens at evaluation time, so intermediate
/// states of a chain may be invalid.
#[derive(Copy, Clone, PartialEq, Eq, Structural)]
pub struct DiceRoll {
    /// How many dice to roll.
    pub dice: i32,
    /// Faces per die; every draw lies in `[1, sides]`.
    pub sides: i32,
    /// Success threshold, read only when `target_number_enabled` is set.
    pub target: i32,
    /// Switches the evaluator from sum mode to success-counting mode.
    pub target_number_enabled: bool,
    /// In success-counting mode, a face of exactly 1 lowers the count.
    pub ones_subtract_enabled: bool,
    /// Faces at or above this threshold explode, read only when
    /// `exploding_dice_enabled` is set.
    pub explode_on: i32,
    /// Whether a face at or above `explode_on` is rerolled and counted again.
    pub exploding_dice_enabled: bool,
    /// Added to the sum of faces in sum mode; ignored in success-counting mode.
    pub modifier: i32,
}

/// The outcome of one evaluation: every face in the order drawn, and the
/// total that the configuration's mode assigns to them.
pub struct RollResult {
    /// Each drawn face, in order, including extra draws caused by explosions.
    pub rolls: Vec<i32>,
    /// The success count in success-counting mode, else the sum of all faces
    /// plus the modifier.
    pub total: i64,
}

/// Why an evaluation refused to produce a result.
///
/// The first five variants are configuration errors: the evaluator checks
/// them in the order they are declared and refuses to draw anything.
/// `OutOfDraws` is not a configuration error: it reports that the supply of
/// faces ended (the budget of [`MAX_DRAWS`], or a given draw sequence) before
/// every die settled.
#[derive(Copy, Clone, Debug, PartialEq, Eq, Structural)]
pub enum DiceError {
    /// `sides < 1`.
    NoSides,
    /// Success counting is enabled and `target > sides`.
    TargetAboveSides,
    /// Success counting is enabled and `target < 1`.
    TargetBelowOne,
    /// Exploding dice are enabled and `explode_on < target`.
    ExplodeBelowTarget,
    /// Exploding dice are enabled and `explode_on == 1`, which would explode
    /// on every face.
    ExplodeOnOne,
    /// The draw supply ended before every die settled.
    OutOfDraws,
}

impl DiceRoll {
    /// The default configuration: one six-sided die in sum mode with no
    /// optional mechanics.
    pub fn new() -> (r: DiceRoll)
        ensures
            r == (DiceRoll {
                dice: 1,
                sides: 6,
                target: 0,
                target_number_enabled: false,
                ones_subtract_enabled: false,
                explode_on: 0,
                exploding_dice_enabled: false,
                modifier: 0,
            }),
    {
        DiceRoll {
            dice: 1,
            sides: 6,
            target: 0,
            target_number_enabled: false,
            ones_subtract_enabled: false,
            explode_on: 0,
            exploding_dice_enabled: false,
            modifier: 0,
        }
    }

    /// Sets how many dice to roll.
    pub fn dice(self, amount: i32) -> (r: DiceRoll)
        ensures
            r == (DiceRoll { dice: amount, ..self }),
    {
        DiceRoll { dice: amount, ..self }
    }

    /// Sets the number of faces per die.
    pub fn sides(self, amount: i32) -> (r: DiceRoll)
        ensures
            r == (DiceRoll { sides: amount, ..self }),
    {
        DiceRoll { sides: amount, ..self }
    }

    /// Sets the success threshold and switches to success-counting mode.
    pub fn target(self, number: i32) -> (r: DiceRoll)
        ensures
            r == (DiceRoll { target: number, target_number_enabled: true, ..self }),
    {
        DiceRoll { target: number, target_number_enabled: true, ..self }
    }

    /// Sets whether a face of exactly 1 lowers the success count.
    pub fn ones_subtract(self, enabled: bool) -> (r: DiceRoll)
        ensures
            r == (DiceRoll { ones_subtract_enabled: enabled, ..self }),
    {
        DiceRoll { ones_subtract_enabled: enabled, ..self }
    }

    /// Sets the explosion threshold and enables exploding dice.
    pub fn explode_on(self, number: i32) -> (r: DiceRoll)
        ensures
            r == (DiceRoll { explode_on: number, exploding_dice_enabled: true, ..self }),
    {
        DiceRoll { explode_on: number, exploding_dice_enabled: true, ..self }
    }

    /// Sets the flat modifier added to the sum in sum mode.
    pub fn modifier(self, number: i32) -> (r: DiceRoll)
        ensures
            r == (DiceRoll { modifier: number, ..self }),
    {
        DiceRoll { modifier: number, ..self }
    }
}

/// The configuration error an evaluation of `c` reports, if any: the five
/// checks in order, each independent of the others.
pub open spec fn config_error(c: DiceRoll) -> Option<DiceError> {
    if c.sides < 1 {
        Some(DiceError::NoSides)
    } else if c.target_number_enabled && c.target > c.sides {
        Some(DiceError::TargetAboveSides)
    } else if c.target_number_enabled && c.target < 1 {
        Some(DiceError::TargetBelowOne)
    } else if c.exploding_dice_enabled && c.explode_on < c.target {
        Some(DiceError::ExplodeBelowTarget)
    } else if c.exploding_dice_enabled && c.explode_on == 1 {
        Some(DiceError::ExplodeOnOne)
    } else {
        None
    }
}

impl DiceError {
    /// The human-readable cause of `self`.
    pub open spec fn message_spec(self) -> Seq<char> {
        match self {
            DiceError::NoSides => "dice must have at least one side."@,
            DiceError::TargetAboveSides => "if target number is enabled, your target number must not be higher than the amount of sides on your dice."@,
            DiceError::TargetBelowOne => "if target number is enabled, your target number must not be lower than one."@,
            DiceError::ExplodeBelowTarget => "you can't explode dice on a number smaller than the target number."@,
            DiceError::ExplodeOnOne => "explode_on must be higher than one, otherwise exploding successes would continue infinitely."@,
            DiceError::OutOfDraws => "the draw supply ended before every die settled."@,
        }
    }

    /// The human-readable cause of `self`.
    pub fn message(&self) -> (r: &'static str)
        ensures
            r@ == self.message_spec(),
    {
        match self {
            DiceError::NoSides => "dice must have at least one side.",
            DiceError::TargetAboveSides => "if target number is enabled, your target number must not be higher than the amount of sides on your dice.",
            DiceError::TargetBelowOne => "if target number is enabled, your target number must not be lower than one.",
            DiceError::ExplodeBelowTarget => "you can't explode dice on a number smaller than the target number.",
            DiceError::ExplodeOnOne => "explode_on must be higher than one, otherwise exploding successes would continue infinitely.",
            DiceError::OutOfDraws => "the draw supply ended before every die settled.",
        }
    }
}

} // verus!
