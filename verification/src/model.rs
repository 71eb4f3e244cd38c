//! The mathematical model of a planning run: what one tick does to the
//! state, and what a whole run is.

use crate::grid::{in_bounds, rectangular, visited, weight_at, Position};
use vstd::prelude::*;

verus! {

/// The state of a run between two ticks.
pub ghost struct PlanState {
    /// The weights, with every visit so far recorded.
    pub cells: Seq<Seq<int>>,
    /// Where the agent stands.
    pub pos: Position,
    /// The cells it left most recently, oldest first.
    pub trail: Seq<Position>,
    /// How many moves it has made.
    pub steps: nat,
    /// The sum of what those moves were charged.
    pub cost: int,
}

/// What chance contributes to one tick: whether the tick explores instead
/// of choosing greedily, and the neighbour drawn for the case that no
/// greedy choice is made.
pub type Decision = (bool, Option<Position>);

/// One step towards zero, stopping there.
pub open spec fn step_down(v: usize) -> usize {
    if v > 0 { (v - 1) as usize } else { 0 }
}

/// One step up, stopping at the last index below `limit`.
pub open spec fn step_up(v: usize, limit: nat) -> usize {
    if v + 1 < limit { (v + 1) as usize } else { (limit - 1) as usize }
}

/// The eight neighbours of `pos`, each coordinate kept inside the grid on
/// its own. The order is fixed: the row above from left to right, then left
/// and right, then the row below from left to right. On an edge the same
/// cell, or `pos` itself, appears more than once.
pub open spec fn neighbours(cells: Seq<Seq<int>>, pos: Position) -> Seq<Position> {
    let up = step_down(pos.0);
    let down = step_up(pos.0, cells.len());
    let left = step_down(pos.1);
    let right = step_up(pos.1, cells[0].len());
    seq![
        (up, left),
        (up, pos.1),
        (up, right),
        (pos.0, left),
        (pos.0, right),
        (down, left),
        (down, pos.1),
        (down, right),
    ]
}

/// A neighbour may be chosen greedily when it is not the current cell and
/// not on the trail.
pub open spec fn eligible(pos: Position, trail: Seq<Position>, n: Position) -> bool {
    n != pos && !trail.contains(n)
}

/// The eligible cell of least weight among the first `k` options; of
/// several equally light ones the earliest.
pub open spec fn lightest(
    cells: Seq<Seq<int>>,
    options: Seq<Position>,
    pos: Position,
    trail: Seq<Position>,
    k: int,
) -> Option<Position>
    decreases k,
{
    if k <= 0 {
        None
    } else {
        let before = lightest(cells, options, pos, trail, k - 1);
        let n = options[k - 1];
        if !eligible(pos, trail, n) {
            before
        } else {
            match before {
                None => Some(n),
                Some(b) => if weight_at(cells, n) < weight_at(cells, b) { Some(n) } else { before },
            }
        }
    }
}

/// The greedy choice at `pos`, if there is one.
pub open spec fn greedy(cells: Seq<Seq<int>>, pos: Position, trail: Seq<Position>) -> Option<
    Position,
> {
    lightest(cells, neighbours(cells, pos), pos, trail, 8)
}

/// Where a tick moves to: the greedy choice unless the tick explores or
/// nothing is eligible; then the drawn neighbour; without one, nowhere.
pub open spec fn destination(
    cells: Seq<Seq<int>>,
    pos: Position,
    trail: Seq<Position>,
    d: Decision,
) -> Position {
    let choice = if d.0 { None } else { greedy(cells, pos, trail) };
    match choice {
        Some(n) => n,
        None => match d.1 {
            Some(n) => n,
            None => pos,
        },
    }
}

/// The trail after `pos` was left: `pos` is appended, and the oldest entry
/// goes when that makes more than `capacity`.
pub open spec fn remember(trail: Seq<Position>, pos: Position, capacity: nat) -> Seq<Position> {
    let longer = trail.push(pos);
    if longer.len() > capacity { longer.drop_first() } else { longer }
}

/// One tick: the current cell is marked as visited, the destination is
/// picked on the weights as they then are, and the move is charged the
/// destination's weight at that moment.
pub open spec fn step(s: PlanState, capacity: nat, d: Decision) -> PlanState {
    let cells = visited(s.cells, s.pos);
    let dest = destination(cells, s.pos, s.trail, d);
    PlanState {
        cells,
        pos: dest,
        trail: remember(s.trail, s.pos, capacity),
        steps: s.steps + 1,
        cost: s.cost + weight_at(cells, dest),
    }
}

/// The state before the first tick.
pub open spec fn initial(cells: Seq<Seq<int>>, start: Position) -> PlanState {
    PlanState { cells, pos: start, trail: seq![start], steps: 0, cost: 0 }
}

/// The state after one tick for each decision of `script`, in order.
pub open spec fn run(s: PlanState, capacity: nat, script: Seq<Decision>) -> PlanState
    decreases script.len(),
{
    if script.len() == 0 {
        s
    } else {
        step(run(s, capacity, script.drop_last()), capacity, script.last())
    }
}

/// A decision is admissible in a state when the neighbour it draws, if
/// any, is one of the eight neighbours of the current cell.
pub open spec fn admissible(s: PlanState, d: Decision) -> bool {
    match d.1 {
        Some(n) => neighbours(s.cells, s.pos).contains(n),
        None => true,
    }
}

/// A script is admissible when each decision is, in the state it meets.
pub open spec fn admissible_script(s: PlanState, capacity: nat, script: Seq<Decision>) -> bool
    decreases script.len(),
{
    script.len() == 0 || {
        &&& admissible_script(s, capacity, script.drop_last())
        &&& admissible(run(s, capacity, script.drop_last()), script.last())
    }
}

/// A state is sound when the grid is rectangular, the agent stands on it
/// and the trail is within its capacity.
pub open spec fn sound(s: PlanState, capacity: nat) -> bool {
    &&& rectangular(s.cells)
    &&& in_bounds(s.cells, s.pos)
    &&& s.trail.len() <= capacity
}

/// No decision of the script explores.
pub open spec fn never_explores(script: Seq<Decision>) -> bool {
    forall|i: int| 0 <= i < script.len() ==> !(#[trigger] script[i]).0
}

/// A state is stuck when no neighbour of the current cell is eligible, so
/// that even a tick that does not explore has to draw.
pub open spec fn stuck(s: PlanState) -> bool {
    greedy(visited(s.cells, s.pos), s.pos, s.trail) is None
}

/// The weight of the cell the agent stands on, as the state holds it: the
/// weight the agent met on arrival, before its own next visit is recorded.
pub open spec fn arrival_weight(s: PlanState) -> int {
    weight_at(s.cells, s.pos)
}

/// The arrival weights of all the moves of a run, added up.
pub open spec fn charges(s: PlanState, capacity: nat, script: Seq<Decision>) -> int
    decreases script.len(),
{
    if script.len() == 0 {
        0
    } else {
        charges(s, capacity, script.drop_last()) + arrival_weight(run(s, capacity, script))
    }
}

} // verus!
