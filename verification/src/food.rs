//! Where food appears and which way it drifts, drawn at random on a grid of
//! whole numbers.

use rand::Rng;
use vstd::prelude::*;

verus! {

/// Food appears no farther than this from the origin along either axis.
pub const FOOD_POSITION_LIMIT: i32 = 300;

/// Food drifts along a heading of no more than this many units either way.
pub const FOOD_DIRECTION_LIMIT: i32 = 180;

/// Draws a whole number between `low` and `high`, both included.
///
/// Calls `rand::thread_rng` and, on the generator it returns,
/// `rand::Rng::gen_range` with the inclusive range `low..=high`. Believed of
/// the call: the number lies in the range. Which number comes is left open.
/// `gen_range` panics on an empty range; `low <= high` keeps the range from
/// being empty. `thread_rng` panics where the system gives it nothing to seed
/// the generator with, which no argument decides.
#[verifier::external_body]
fn random_between(low: i32, high: i32) -> (n: i32)
    requires
        low <= high,
    ensures
        low <= n <= high,
{
    rand::thread_rng().gen_range(low..=high)
}

/// Draws the grid point at which a food appears.
pub fn new_food_position() -> (pos: (i32, i32))
    ensures
        -FOOD_POSITION_LIMIT <= pos.0 <= FOOD_POSITION_LIMIT,
        -FOOD_POSITION_LIMIT <= pos.1 <= FOOD_POSITION_LIMIT,
{
    let x: i32 = random_between(-FOOD_POSITION_LIMIT, FOOD_POSITION_LIMIT);
    let y: i32 = random_between(-FOOD_POSITION_LIMIT, FOOD_POSITION_LIMIT);
    (x, y)
}

/// Draws the heading along which a food drifts.
pub fn new_food_direction() -> (direction: i32)
    ensures
        -FOOD_DIRECTION_LIMIT <= direction <= FOOD_DIRECTION_LIMIT,
{
    random_between(-FOOD_DIRECTION_LIMIT, FOOD_DIRECTION_LIMIT)
}

} // verus!
