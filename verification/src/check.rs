use vstd::prelude::*;

verus! {

/// The outcome of an opposed check: success or failure, with the margin.
#[derive(Clone, Debug, PartialEq, Eq, Structural)]
pub enum CheckResult {
    Success(u32),
    Failure(u32),
}

/// A randomized comparison of a value against a difficulty. Implementations
/// are supplied by the game built on this engine; [`RandomChecker`] is the
/// dice-based one. The bounds keep the margin arithmetic inside `i32`
/// whatever dice an implementation rolls.
pub trait Checker {
    fn check(&self, value: i32, difficulty: i32) -> (r: CheckResult)
        requires
            -1000000000 <= value <= 1000000000,
            -1000000000 <= difficulty <= 1000000000,
    ;
}

/// The margin of `value` against `difficulty` once the two die rolls are
/// in: success exactly when `value - difficulty + (positive - negative)`
/// is not negative, carrying that margin's absolute value.
pub open spec fn spec_check(value: int, difficulty: int, positive: int, negative: int)
    -> CheckResult {
    let result = value - difficulty + (positive - negative);
    if result >= 0 {
        CheckResult::Success(result as u32)
    } else {
        CheckResult::Failure((-result) as u32)
    }
}

/// Decide an opposed check from its two die rolls.
pub fn check_with_rolls(value: i32, difficulty: i32, positive_die: i32, negative_die: i32) -> (r:
    CheckResult)
    requires
        -1000000000 <= value <= 1000000000,
        -1000000000 <= difficulty <= 1000000000,
        1 <= positive_die <= 1000000,
        1 <= negative_die <= 1000000,
    ensures
        r == spec_check(value as int, difficulty as int, positive_die as int, negative_die as int),
{
    let random_modifier: i64 = positive_die as i64 - negative_die as i64;
    let result: i64 = value as i64 - difficulty as i64 + random_modifier;

    if result >= 0 {
        CheckResult::Success(result as u32)
    } else {
        CheckResult::Failure((-result) as u32)
    }
}

/// A machine word drawn from the thread-local generator; nothing is
/// promised of its value.
///
/// Relies on rand's `thread_rng().next_u32()`: it returns an arbitrary
/// `u32` and does not panic, except that the generator's first use in a
/// thread aborts when the system's entropy source cannot be reached.
#[verifier::external_body]
fn random_u32() -> u32 {
    rand::RngCore::next_u32(&mut rand::thread_rng())
}

/// The dice-based checker: each check rolls one positive and one negative
/// die with `die_sides` sides and compares the modified value against the
/// difficulty.
pub struct RandomChecker {
    die_sides: u32,
}

impl RandomChecker {
    /// The die is usable: at least one side, and few enough that margins
    /// stay inside `i32`.
    #[verifier::type_invariant]
    pub closed spec fn wf(self) -> bool {
        1 <= self.die_sides <= 1000000
    }

    /// A checker rolling dice with `die_sides` sides.
    pub fn new(die_sides: u32) -> (r: RandomChecker)
        requires
            1 <= die_sides <= 1000000,
    {
        RandomChecker { die_sides }
    }

    /// One roll: a value in `1 ..= die_sides`.
    fn roll_die(&self) -> (r: i32)
        ensures
            1 <= r <= 1000000,
    {
        proof {
            use_type_invariant(self);
        }
        let value = random_u32();
        (1 + value % self.die_sides) as i32
    }
}

impl Checker for RandomChecker {
    fn check(&self, value: i32, difficulty: i32) -> (r: CheckResult) {
        let positive_die = self.roll_die();
        let negative_die = self.roll_die();
        check_with_rolls(value, difficulty, positive_die, negative_die)
    }
}

} // verus!
