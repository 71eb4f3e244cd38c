//! Whole runs: checking the inputs, and ticking until the run ends.

use crate::grid::{in_bounds, weight_at, Grid, Position};
use crate::laws::lemma_run_sound;
use crate::model::{admissible, admissible_script, initial, never_explores, run, step, Decision};
use crate::planner::{
    configured_script, drawn_as_configured, headroom, ready, ticks_of, ConfigError, PlanConfig, Planner, Status,
};
use crate::signal::CancelSignal;
use vstd::prelude::*;

verus! {

/// `result` is what the run from `start` comes to when chance decides as
/// `script` says: one decision for each move made, each admissible and as
/// the configuration fixes it, and the state they lead to has the steps,
/// the cost and the position of `result`.
pub open spec fn plays_out(
    cells: Seq<Seq<int>>,
    start: Position,
    config: PlanConfig,
    script: Seq<Decision>,
    result: (usize, i64, Position),
) -> bool {
    let first = initial(cells, start);
    let end = run(first, config.trail_capacity as nat, script);
    &&& script.len() == result.0
    &&& admissible_script(first, config.trail_capacity as nat, script)
    &&& configured_script(config, first, script)
    &&& (config.explore_numerator == 0 ==> never_explores(script))
    &&& end.steps == result.0
    &&& end.cost == result.1
    &&& end.pos == result.2
}

/// The number of ticks that a budget of `t` allows.
pub fn budget_of(t: i32) -> (budget: usize)
    ensures
        budget == ticks_of(t),
        budget <= i32::MAX,
{
    if t > 0 { t as usize } else { 0 }
}

/// What is wrong with the inputs of a run, if anything: a start off the
/// grid is named first, then an invalid configuration, then a weight too
/// close to the end of `i32`.
pub open spec fn check_error(
    cells: Seq<Seq<int>>,
    budget: nat,
    start: Position,
    config: PlanConfig,
) -> Option<ConfigError> {
    if !in_bounds(cells, start) {
        Some(ConfigError::StartOutOfBounds)
    } else if !config.valid() {
        Some(ConfigError::InvalidConfig)
    } else if !(budget <= i32::MAX && headroom(cells, budget)) {
        Some(ConfigError::WeightTooLarge)
    } else {
        None
    }
}

/// Tells whether a run can start on these inputs, and if not, why not.
pub fn check_inputs(grid: &Grid, budget: usize, start: Position, config: PlanConfig) -> (res: Result<
    (),
    ConfigError,
>)
    requires
        grid.wf(),
    ensures
        res == match check_error(grid@, budget as nat, start, config) {
            Some(e) => Err::<(), ConfigError>(e),
            None => Ok(()),
        },
        res is Ok <==> ready(grid@, budget as nat, start, config),
{
    if !grid.contains(start) {
        return Err(ConfigError::StartOutOfBounds);
    }
    if !config.is_valid() {
        return Err(ConfigError::InvalidConfig);
    }
    if budget > i32::MAX as usize {
        return Err(ConfigError::WeightTooLarge);
    }
    let top = grid.max_weight();
    if top as i64 + budget as i64 > i32::MAX as i64 {
        proof {
            let p = choose|p: Position| in_bounds(grid@, p) && weight_at(grid@, p) == top;
            assert(weight_at(grid@, p) + budget > i32::MAX);
        }
        return Err(ConfigError::WeightTooLarge);
    }
    assert(headroom(grid@, budget as nat)) by {
        assert forall|p: Position| in_bounds(grid@, p) implies #[trigger] weight_at(grid@, p) + budget
            <= i32::MAX by {
            assert(weight_at(grid@, p) <= top);
        }
    }
    Ok(())
}

/// Plans a path of at most `t` moves from `start` on a copy of `grid`, and
/// returns the number of moves made, their cost and the final position. The
/// signal is read once at the top of every tick; the run ends there when it
/// is raised. The caller's grid is not touched.
///
/// What the run returns depends on the signal and on chance. Whatever they
/// do, the result is what the model gives for some admissible script with
/// one decision for each move made.
pub fn pathplan(
    grid: &Grid,
    t: i32,
    start: Position,
    config: PlanConfig,
    cancel: &CancelSignal,
) -> (result: (usize, i64, Position))
    requires
        grid.wf(),
        ready(grid@, ticks_of(t), start, config),
    ensures
        result.0 <= ticks_of(t),
        ticks_of(t) == 0 ==> result == (0usize, 0i64, start),
        in_bounds(grid@, result.2),
        exists|script: Seq<Decision>| #[trigger] plays_out(grid@, start, config, script, result),
{
    let budget = budget_of(t);
    let mut planner = Planner::new(grid.clone(), budget, start, config);
    let ghost first = initial(grid@, start);
    let ghost capacity = config.trail_capacity as nat;
    let ghost mut script: Seq<Decision> = Seq::empty();
    let mut status = planner.status();
    while status == Status::Running
        invariant
            planner.wf(),
            status == planner.spec_status(),
            planner.spec_budget() == budget,
            planner.spec_config() == config,
            first == initial(grid@, start),
            capacity == config.trail_capacity as nat,
            planner@ == run(first, capacity, script),
            script.len() == planner@.steps,
            admissible_script(first, capacity, script),
            configured_script(config, first, script),
            config.explore_numerator == 0 ==> never_explores(script),
        decreases (budget - planner@.steps) + (if status == Status::Running { 1int } else { 0int }),
    {
        let ghost before = planner@;
        let ghost played = script;
        proof {
            planner.lemma_wf();
        }
        let cancelled = cancel.is_requested();
        status = planner.tick(cancelled);
        proof {
            planner.lemma_wf();
            if !cancelled {
                let d = choose|d: Decision|
                    {
                        &&& admissible(before, d)
                        &&& drawn_as_configured(config, before, d)
                        &&& #[trigger] step(before, capacity, d) == planner@
                    };
                script = played.push(d);
                assert(script.drop_last() =~= played);
                assert(script.last() == d);
            }
        }
    }
    let result = planner.outcome();
    proof {
        planner.lemma_wf();
        lemma_run_sound(first, capacity, script);
        assert(plays_out(grid@, start, config, script, result));
    }
    result
}

/// Checks the inputs and then plans as [`pathplan`] does. Inputs on which a
/// run cannot start come back as the error that [`check_inputs`] names.
pub fn try_pathplan(
    grid: &Grid,
    t: i32,
    start: Position,
    config: PlanConfig,
    cancel: &CancelSignal,
) -> (res: Result<(usize, i64, Position), ConfigError>)
    requires
        grid.wf(),
    ensures
        res is Ok <==> ready(grid@, ticks_of(t), start, config),
        res matches Ok(result) ==> {
            &&& result.0 <= ticks_of(t)
            &&& (ticks_of(t) == 0 ==> result == (0usize, 0i64, start))
            &&& in_bounds(grid@, result.2)
            &&& exists|script: Seq<Decision>| #[trigger] plays_out(grid@, start, config, script, result)
        },
        res matches Err(e) ==> check_error(grid@, ticks_of(t), start, config) == Some(e),
{
    match check_inputs(grid, budget_of(t), start, config) {
        Err(e) => Err(e),
        Ok(_) => {
            let result = pathplan(grid, t, start, config, cancel);
            assert(exists|script: Seq<Decision>| #[trigger]
                plays_out(grid@, start, config, script, result));
            Ok(result)
        },
    }
}

} // verus!
