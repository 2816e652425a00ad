use vstd::prelude::*;

use crate::api::position::{abs, Position, SCANNING_DISTANCE};
use crate::api::world_size::WorldSize;

verus! {

pub struct Evaluator;

pub const BIAS: i64 = 10;

/// The score of a position: highest at a scan's length from the nearest edge of the
/// world, dropping by ten for every cell nearer or further.
pub open spec fn position_score(world_size: WorldSize, target: Position) -> int {
    let furthest = if world_size.x / 2 >= world_size.y / 2 {
        world_size.x / 2
    } else {
        world_size.y / 2
    };
    let to_edge = min4(
        target.x as int,
        world_size.x - target.x,
        target.y as int,
        world_size.y - target.y,
    );
    (furthest - abs(to_edge - SCANNING_DISTANCE)) * BIAS
}

/// The smallest of four numbers.
pub open spec fn min4(a: int, b: int, c: int, d: int) -> int {
    let ab = if a <= b {
        a
    } else {
        b
    };
    let abc = if ab <= c {
        ab
    } else {
        c
    };
    if abc <= d {
        abc
    } else {
        d
    }
}

// Evaluator is used to give the AI hints about the current position
// The AI will always try to choose the move which has the bigger evaluation.
impl Evaluator {
    pub fn evaluate_position(world_size: &WorldSize, target_position: &Position) -> (r: i64)
        requires
            world_size.fits_map(),
            target_position.x <= world_size.x,
            target_position.y <= world_size.y,
        ensures
            r == position_score(*world_size, *target_position),
    {
        // furthest you can be from an edge
        let world_centre = (world_size.x / 2, world_size.y / 2);
        let furthest_dist = if world_centre.0 >= world_centre.1 {
            world_centre.0
        } else {
            world_centre.1
        };

        // Compute distances to the edges
        let left_dist = target_position.x;
        let right_dist = world_size.x - target_position.x;
        let top_dist = target_position.y;
        let bottom_dist = world_size.y - target_position.y;
        let lr = if left_dist <= right_dist {
            left_dist
        } else {
            right_dist
        };
        let lrt = if lr <= top_dist {
            lr
        } else {
            top_dist
        };
        let dist_to_edge = (if lrt <= bottom_dist {
            lrt
        } else {
            bottom_dist
        }) as i64;

        let off = dist_to_edge - (SCANNING_DISTANCE as i64);
        let ideal_dist = if off < 0 {
            -off
        } else {
            off
        };

        // To prioritize edge closeness, we invert the score
        return (furthest_dist as i64 - ideal_dist) * BIAS;
    }
}

} // verus!
