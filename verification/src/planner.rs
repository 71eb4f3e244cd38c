//! The planner: one tick at a time, or a whole run.

use crate::chance::{draw_explore, draw_neighbour};
use crate::grid::{in_bounds, rectangular, visited, weight_at, Grid, Position};
use crate::model::{
    admissible, greedy, initial, lightest, neighbours, run, step, stuck, Decision, PlanState,
};
use std::collections::VecDeque;
use vstd::prelude::*;

verus! {

/// What a caller sets for a run.
#[derive(Clone, Copy, Debug)]
pub struct PlanConfig {
    /// How many recently left cells the agent refuses to step back onto.
    pub trail_capacity: usize,
    /// A tick explores with a chance of `explore_numerator` in
    /// `explore_denominator`.
    pub explore_numerator: u32,
    /// See `explore_numerator`.
    pub explore_denominator: u32,
}

impl PlanConfig {
    /// A configuration is valid when the trail can hold a cell and the
    /// chance to explore is a ratio between zero and one.
    pub open spec fn valid(&self) -> bool {
        &&& self.trail_capacity >= 1
        &&& self.explore_denominator > 0
        &&& self.explore_numerator <= self.explore_denominator
    }

    /// A trail of three cells and one exploring tick in ten.
    pub fn standard() -> (config: PlanConfig)
        ensures
            config.valid(),
            config.trail_capacity == 3,
            config.explore_numerator == 1,
            config.explore_denominator == 10,
    {
        PlanConfig { trail_capacity: 3, explore_numerator: 1, explore_denominator: 10 }
    }

    /// A trail of `trail_capacity` cells and no exploring tick.
    pub fn greedy_only(trail_capacity: usize) -> (config: PlanConfig)
        ensures
            config.trail_capacity == trail_capacity,
            config.explore_numerator == 0,
            config.explore_denominator == 1,
            config.valid() == (trail_capacity >= 1),
    {
        PlanConfig { trail_capacity, explore_numerator: 0, explore_denominator: 1 }
    }

    /// Whether the configuration is valid.
    pub fn is_valid(&self) -> (ok: bool)
        ensures
            ok == self.valid(),
    {
        self.trail_capacity >= 1 && self.explore_denominator > 0 && self.explore_numerator
            <= self.explore_denominator
    }
}

/// Every weight can take `budget` more visits without leaving `i32`.
pub open spec fn headroom(cells: Seq<Seq<int>>, budget: nat) -> bool {
    forall|p: Position| in_bounds(cells, p) ==> #[trigger] weight_at(cells, p) + budget <= i32::MAX
}

/// What a run needs of its inputs: a rectangular grid, a start on it, a
/// valid configuration, and a budget that the weights leave room for.
pub open spec fn ready(cells: Seq<Seq<int>>, budget: nat, start: Position, config: PlanConfig) -> bool {
    &&& rectangular(cells)
    &&& in_bounds(cells, start)
    &&& config.valid()
    &&& budget <= i32::MAX
    &&& headroom(cells, budget)
}

/// What the configuration and the state fix of a tick's decision: a chance
/// of zero never explores, a chance of one always does, and a neighbour is
/// drawn exactly when the tick explores or the state is stuck.
pub open spec fn drawn_as_configured(config: PlanConfig, s: PlanState, d: Decision) -> bool {
    &&& (config.explore_numerator == 0 ==> !d.0)
    &&& (config.explore_numerator == config.explore_denominator ==> d.0)
    &&& (d.1 is Some <==> d.0 || stuck(s))
}

/// Every decision of the script is as the configuration and the state it
/// meets fix it.
pub open spec fn configured_script(
    config: PlanConfig,
    s: PlanState,
    script: Seq<Decision>,
) -> bool
    decreases script.len(),
{
    script.len() == 0 || {
        &&& configured_script(config, s, script.drop_last())
        &&& drawn_as_configured(
            config,
            run(s, config.trail_capacity as nat, script.drop_last()),
            script.last(),
        )
    }
}

/// The number of ticks that a budget of `t` allows: none when `t` is negative.
pub open spec fn ticks_of(t: i32) -> nat {
    if t > 0 { t as nat } else { 0 }
}

/// The eight neighbours of `pos` in their fixed order.
pub fn neighbours_of(grid: &Grid, pos: Position) -> (options: Vec<Position>)
    requires
        grid.wf(),
        in_bounds(grid@, pos),
    ensures
        options@ == neighbours(grid@, pos),
        forall|i: int| 0 <= i < 8 ==> in_bounds(grid@, #[trigger] options@[i]),
{
    let rows = grid.rows();
    let cols = grid.cols();
    let up: usize = if pos.0 > 0 { pos.0 - 1 } else { 0 };
    let down: usize = if pos.0 + 1 < rows { pos.0 + 1 } else { rows - 1 };
    let left: usize = if pos.1 > 0 { pos.1 - 1 } else { 0 };
    let right: usize = if pos.1 + 1 < cols { pos.1 + 1 } else { cols - 1 };
    let mut options: Vec<Position> = Vec::new();
    options.push((up, left));
    options.push((up, pos.1));
    options.push((up, right));
    options.push((pos.0, left));
    options.push((pos.0, right));
    options.push((down, left));
    options.push((down, pos.1));
    options.push((down, right));
    assert(options@ =~= neighbours(grid@, pos));
    options
}

/// Whether `n` is on the trail.
pub fn on_trail(trail: &VecDeque<Position>, n: Position) -> (found: bool)
    ensures
        found == trail@.contains(n),
{
    let mut i: usize = 0;
    while i < trail.len()
        invariant
            i <= trail@.len(),
            forall|j: int| 0 <= j < i ==> trail@[j] != n,
        decreases trail@.len() - i,
    {
        let seen = trail[i];
        if seen.0 == n.0 && seen.1 == n.1 {
            return true;
        }
        i = i + 1;
    }
    false
}

/// The eligible option of least weight, the earliest of several.
pub fn pick_lightest(
    grid: &Grid,
    options: &Vec<Position>,
    pos: Position,
    trail: &VecDeque<Position>,
) -> (best: Option<Position>)
    requires
        grid.wf(),
        forall|i: int| 0 <= i < options@.len() ==> in_bounds(grid@, #[trigger] options@[i]),
    ensures
        best == lightest(grid@, options@, pos, trail@, options@.len() as int),
        match best {
            Some(n) => options@.contains(n),
            None => true,
        },
{
    let mut best: Option<Position> = None;
    let mut k: usize = 0;
    while k < options.len()
        invariant
            grid.wf(),
            k <= options@.len(),
            forall|i: int| 0 <= i < options@.len() ==> in_bounds(grid@, #[trigger] options@[i]),
            best == lightest(grid@, options@, pos, trail@, k as int),
            match best {
                Some(n) => options@.contains(n),
                None => true,
            },
        decreases options@.len() - k,
    {
        let n = options[k];
        let is_current = n.0 == pos.0 && n.1 == pos.1;
        if !is_current && !on_trail(trail, n) {
            match best {
                None => {
                    best = Some(n);
                },
                Some(b) => {
                    if grid.get(n) < grid.get(b) {
                        best = Some(n);
                    }
                },
            }
        }
        k = k + 1;
    }
    best
}

/// Where a run stands.
#[derive(Clone, Copy, PartialEq, Eq, Structural, Debug)]
pub enum Status {
    /// Ticks are left and no stop was seen.
    Running,
    /// A stop was seen at the top of a tick.
    Cancelled,
    /// The budget is used up.
    Completed,
}

/// Why a run cannot start.
#[derive(Clone, Copy, PartialEq, Eq, Structural, Debug)]
pub enum ConfigError {
    /// The start is not a cell of the grid.
    StartOutOfBounds,
    /// The trail capacity is zero, or the chance to explore is no ratio
    /// between zero and one.
    InvalidConfig,
    /// The budget is above `i32::MAX`, or some weight would leave `i32` if
    /// its cell took every visit of the budget.
    WeightTooLarge,
}

/// A run in progress. It owns its grid: the visits it records are seen
/// nowhere else.
pub struct Planner {
    grid: Grid,
    position: Position,
    trail: VecDeque<Position>,
    steps: usize,
    cost: i64,
    budget: usize,
    config: PlanConfig,
    status: Status,
}

impl View for Planner {
    type V = PlanState;

    closed spec fn view(&self) -> PlanState {
        PlanState {
            cells: self.grid@,
            pos: self.position,
            trail: self.trail@,
            steps: self.steps as nat,
            cost: self.cost as int,
        }
    }
}

impl Planner {
    /// The number of ticks the run may take.
    pub closed spec fn spec_budget(&self) -> nat {
        self.budget as nat
    }

    /// The configuration the run was started with.
    pub closed spec fn spec_config(&self) -> PlanConfig {
        self.config
    }

    /// Where the run stands.
    pub closed spec fn spec_status(&self) -> Status {
        self.status
    }

    /// What holds of every planner between two ticks.
    pub closed spec fn wf(&self) -> bool {
        &&& self.grid.wf()
        &&& in_bounds(self.grid@, self.position)
        &&& self.config.valid()
        &&& self.trail@.len() <= self.config.trail_capacity
        &&& self.steps <= self.budget <= i32::MAX
        &&& (self.status == Status::Running ==> self.steps < self.budget)
        &&& (self.status == Status::Completed ==> self.steps == self.budget)
        &&& headroom(self.grid@, (self.budget - self.steps) as nat)
        &&& -0x8000_0000 * self.steps <= self.cost <= 0x8000_0000 * self.steps
    }

    /// What a planner's soundness means for its state.
    pub proof fn lemma_wf(&self)
        requires
            self.wf(),
        ensures
            rectangular(self@.cells),
            in_bounds(self@.cells, self@.pos),
            self.spec_config().valid(),
            self@.trail.len() <= self.spec_config().trail_capacity,
            self@.steps <= self.spec_budget(),
            self.spec_status() == Status::Running ==> self@.steps < self.spec_budget(),
            self.spec_status() == Status::Completed ==> self@.steps == self.spec_budget(),
            headroom(self@.cells, (self.spec_budget() - self@.steps) as nat),
    {
    }

    /// A planner on `grid` at `start`, before its first tick. With a budget
    /// of zero the run is complete at once.
    pub fn new(grid: Grid, budget: usize, start: Position, config: PlanConfig) -> (planner: Planner)
        requires
            grid.wf(),
            ready(grid@, budget as nat, start, config),
        ensures
            planner.wf(),
            planner@ == initial(grid@, start),
            planner.spec_budget() == budget,
            planner.spec_config() == config,
            planner.spec_status() == if budget == 0 { Status::Completed } else { Status::Running },
    {
        let mut trail: VecDeque<Position> = VecDeque::new();
        trail.push_back(start);
        let status = if budget == 0 { Status::Completed } else { Status::Running };
        assert(trail@ =~= seq![start]);
        Planner { grid, position: start, trail, steps: 0, cost: 0, budget, config, status }
    }

    /// Where the run stands.
    pub fn status(&self) -> (status: Status)
        ensures
            status == self.spec_status(),
    {
        self.status
    }

    /// The number of moves made so far.
    pub fn steps(&self) -> (steps: usize)
        ensures
            steps == self@.steps,
    {
        self.steps
    }

    /// The sum charged for the moves made so far.
    pub fn cost(&self) -> (cost: i64)
        ensures
            cost == self@.cost,
    {
        self.cost
    }

    /// Where the agent stands.
    pub fn position(&self) -> (pos: Position)
        ensures
            pos == self@.pos,
    {
        self.position
    }

    /// The weight that the planner's own grid holds at `pos`.
    pub fn weight(&self, pos: Position) -> (w: i32)
        requires
            self.wf(),
            in_bounds(self@.cells, pos),
        ensures
            w == weight_at(self@.cells, pos),
    {
        self.grid.get(pos)
    }

    /// The number of cells on the trail.
    pub fn trail_len(&self) -> (len: usize)
        ensures
            len == self@.trail.len(),
    {
        self.trail.len()
    }

    /// Steps made, their cost, and the final position.
    pub fn outcome(&self) -> (result: (usize, i64, Position))
        ensures
            result.0 == self@.steps,
            result.1 == self@.cost,
            result.2 == self@.pos,
    {
        (self.steps, self.cost, self.position)
    }

    /// The eight neighbours of the current cell in their fixed order.
    pub fn options(&self) -> (options: Vec<Position>)
        requires
            self.wf(),
        ensures
            options@ == neighbours(self@.cells, self@.pos),
    {
        neighbours_of(&self.grid, self.position)
    }

    /// Whether a tick that does not explore would find an eligible
    /// neighbour.
    pub fn has_candidate(&self) -> (found: bool)
        requires
            self.wf(),
        ensures
            found == greedy(visited(self@.cells, self@.pos), self@.pos, self@.trail).is_some(),
    {
        let options = neighbours_of(&self.grid, self.position);
        let ghost cells = visited(self.grid@, self.position);
        assert(neighbours(cells, self.position) =~= options@);
        let mut found = false;
        let mut k: usize = 0;
        while k < 8
            invariant
                k <= 8,
                options@.len() == 8,
                found == lightest(cells, options@, self.position, self.trail@, k as int).is_some(),
            decreases 8 - k,
        {
            let n = options[k];
            let is_current = n.0 == self.position.0 && n.1 == self.position.1;
            if !is_current && !on_trail(&self.trail, n) {
                found = true;
            }
            k = k + 1;
        }
        found
    }

    /// One move, with what chance contributes given by the caller: marks
    /// the current cell as visited, moves to the destination that the
    /// decision leads to, and charges the destination's weight.
    pub fn advance(&mut self, explore: bool, drawn: Option<Position>)
        requires
            old(self).wf(),
            old(self).spec_status() == Status::Running,
            admissible(old(self)@, (explore, drawn)),
        ensures
            final(self).wf(),
            final(self)@ == step(
                old(self)@,
                old(self).spec_config().trail_capacity as nat,
                (explore, drawn),
            ),
            final(self).spec_budget() == old(self).spec_budget(),
            final(self).spec_config() == old(self).spec_config(),
            final(self).spec_status() == if final(self)@.steps == final(self).spec_budget() {
                Status::Completed
            } else {
                Status::Running
            },
    {
        let ghost before = self@;
        let here = self.position;
        let options = neighbours_of(&self.grid, here);
        self.grid.increment(here);
        assert(neighbours(self.grid@, here) =~= options@);
        let choice = if explore { None } else { pick_lightest(&self.grid, &options, here, &self.trail) };
        let dest = match choice {
            Some(n) => n,
            None => match drawn {
                Some(n) => n,
                None => here,
            },
        };
        self.trail.push_back(here);
        if self.trail.len() > self.config.trail_capacity {
            self.trail.pop_front();
        }
        let charge = self.grid.get(dest);
        self.cost = self.cost + charge as i64;
        self.steps = self.steps + 1;
        self.position = dest;
        if self.steps == self.budget {
            self.status = Status::Completed;
        }
        assert(self@.trail =~= step(before, self.config.trail_capacity as nat, (explore, drawn)).trail);
        assert forall|p: Position| in_bounds(self.grid@, p) implies #[trigger] weight_at(self.grid@, p)
            + (self.budget - self.steps) <= i32::MAX by {
            assert(in_bounds(before.cells, p));
            assert(weight_at(before.cells, p) + (self.budget - self.steps + 1) <= i32::MAX);
        }
    }

    /// One tick. A planner that is not running stays as it is. A running
    /// one stops when `cancelled` is set, and otherwise makes one move, for
    /// which it draws what chance contributes.
    pub fn tick(&mut self, cancelled: bool) -> (status: Status)
        requires
            old(self).wf(),
        ensures
            final(self).wf(),
            status == final(self).spec_status(),
            final(self).spec_budget() == old(self).spec_budget(),
            final(self).spec_config() == old(self).spec_config(),
            old(self)@.steps <= final(self)@.steps <= old(self)@.steps + 1,
            final(self)@.steps <= final(self).spec_budget(),
            final(self)@.trail.len() <= final(self).spec_config().trail_capacity,
            in_bounds(final(self)@.cells, final(self)@.pos),
            old(self).spec_status() != Status::Running ==> *final(self) == *old(self),
            old(self).spec_status() == Status::Running && cancelled ==> {
                &&& final(self)@ == old(self)@
                &&& status == Status::Cancelled
            },
            old(self).spec_status() == Status::Running && !cancelled ==> {
                &&& status != Status::Cancelled
                &&& (status == Status::Completed) == (final(self)@.steps == final(self).spec_budget())
                &&& exists|d: Decision|
                    {
                        &&& admissible(old(self)@, d)
                        &&& drawn_as_configured(old(self).spec_config(), old(self)@, d)
                        &&& #[trigger] step(old(self)@, old(self).spec_config().trail_capacity as nat, d)
                            == final(self)@
                    }
            },
    {
        match self.status {
            Status::Running => {},
            Status::Cancelled => {
                return Status::Cancelled;
            },
            Status::Completed => {
                return Status::Completed;
            },
        }
        if cancelled {
            self.status = Status::Cancelled;
            return Status::Cancelled;
        }
        let explore = draw_explore(self.config.explore_numerator, self.config.explore_denominator);
        let drawn = if explore || !self.has_candidate() {
            let options = neighbours_of(&self.grid, self.position);
            draw_neighbour(&options)
        } else {
            None
        };
        self.advance(explore, drawn);
        self.status
    }
}

} // verus!
