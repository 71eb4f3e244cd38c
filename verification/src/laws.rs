//! What holds of every run.

use crate::grid::{in_bounds, rectangular, visited, weight_at, Position};
use crate::model::{
    admissible, admissible_script, charges, destination, eligible, lightest, neighbours,
    never_explores, run, sound, step, stuck, Decision, PlanState,
};
use vstd::prelude::*;

verus! {

/// Marking a cell of a rectangular grid as visited keeps the grid's shape:
/// the same cells are in bounds and every cell has the same neighbours.
pub proof fn lemma_visit_keeps_shape(cells: Seq<Seq<int>>, pos: Position)
    requires
        rectangular(cells),
        in_bounds(cells, pos),
    ensures
        rectangular(visited(cells, pos)),
        visited(cells, pos).len() == cells.len(),
        visited(cells, pos)[0].len() == cells[0].len(),
        forall|p: Position| in_bounds(visited(cells, pos), p) == in_bounds(cells, p),
        forall|p: Position| #[trigger] neighbours(visited(cells, pos), p) == neighbours(cells, p),
{
    let after = visited(cells, pos);
    assert forall|r: int| 0 <= r < after.len() implies (#[trigger] after[r]).len() == after[0].len() by {
        assert(cells[r].len() == cells[0].len());
    }
}

/// Every neighbour of a cell of the grid is a cell of the grid.
pub proof fn lemma_neighbours_in_bounds(cells: Seq<Seq<int>>, pos: Position)
    requires
        rectangular(cells),
        in_bounds(cells, pos),
    ensures
        neighbours(cells, pos).len() == 8,
        forall|i: int| 0 <= i < 8 ==> in_bounds(cells, #[trigger] neighbours(cells, pos)[i]),
{
}

/// What the lightest eligible option is: nothing exactly when no option
/// among the first `k` is eligible; otherwise an eligible option that no
/// eligible option undercuts and that no earlier eligible option equals in
/// weight.
pub proof fn lemma_lightest_is_first_minimum(
    cells: Seq<Seq<int>>,
    options: Seq<Position>,
    pos: Position,
    trail: Seq<Position>,
    k: int,
)
    requires
        0 <= k <= options.len(),
    ensures
        match lightest(cells, options, pos, trail, k) {
            None => forall|j: int| 0 <= j < k ==> !eligible(pos, trail, #[trigger] options[j]),
            Some(b) => exists|i: int|
                {
                    &&& 0 <= i < k
                    &&& #[trigger] options[i] == b
                    &&& eligible(pos, trail, b)
                    &&& forall|j: int|
                        0 <= j < k && eligible(pos, trail, #[trigger] options[j]) ==> weight_at(cells, b)
                            <= weight_at(cells, options[j])
                    &&& forall|j: int|
                        0 <= j < i && eligible(pos, trail, #[trigger] options[j]) ==> weight_at(cells, b)
                            < weight_at(cells, options[j])
                },
        },
    decreases k,
{
    if k > 0 {
        lemma_lightest_is_first_minimum(cells, options, pos, trail, k - 1);
        let before = lightest(cells, options, pos, trail, k - 1);
        let n = options[k - 1];
        let now = lightest(cells, options, pos, trail, k);
        if eligible(pos, trail, n) {
            match before {
                None => {
                    assert(options[k - 1] == n);
                },
                Some(b) => {
                    if weight_at(cells, n) < weight_at(cells, b) {
                        assert(options[k - 1] == n);
                    } else {
                        let i = choose|i: int|
                            {
                                &&& 0 <= i < k - 1
                                &&& #[trigger] options[i] == b
                                &&& eligible(pos, trail, b)
                                &&& forall|j: int|
                                    0 <= j < k - 1 && eligible(pos, trail, #[trigger] options[j])
                                        ==> weight_at(cells, b) <= weight_at(cells, options[j])
                                &&& forall|j: int|
                                    0 <= j < i && eligible(pos, trail, #[trigger] options[j])
                                        ==> weight_at(cells, b) < weight_at(cells, options[j])
                            };
                        assert(options[i] == b);
                    }
                },
            }
        } else {
            match before {
                None => {},
                Some(b) => {
                    let i = choose|i: int|
                        {
                            &&& 0 <= i < k - 1
                            &&& #[trigger] options[i] == b
                            &&& eligible(pos, trail, b)
                            &&& forall|j: int|
                                0 <= j < k - 1 && eligible(pos, trail, #[trigger] options[j])
                                    ==> weight_at(cells, b) <= weight_at(cells, options[j])
                            &&& forall|j: int|
                                0 <= j < i && eligible(pos, trail, #[trigger] options[j])
                                    ==> weight_at(cells, b) < weight_at(cells, options[j])
                        };
                    assert(options[i] == b);
                },
            }
        }
    }
}

/// The lightest option, when there is one, is one of the options.
pub proof fn lemma_lightest_is_option(
    cells: Seq<Seq<int>>,
    options: Seq<Position>,
    pos: Position,
    trail: Seq<Position>,
    k: int,
)
    requires
        0 <= k <= options.len(),
    ensures
        match lightest(cells, options, pos, trail, k) {
            None => true,
            Some(b) => options.contains(b),
        },
    decreases k,
{
    if k > 0 {
        lemma_lightest_is_option(cells, options, pos, trail, k - 1);
        assert(options.contains(options[k - 1]));
    }
}

/// Bounds and trail bound, for one tick: from a sound state an admissible
/// decision leads to a sound state, one step further, on a grid of the
/// same shape.
pub proof fn lemma_step_sound(s: PlanState, capacity: nat, d: Decision)
    requires
        sound(s, capacity),
        capacity >= 1,
        admissible(s, d),
    ensures
        sound(step(s, capacity, d), capacity),
        step(s, capacity, d).steps == s.steps + 1,
        step(s, capacity, d).cells.len() == s.cells.len(),
        step(s, capacity, d).cells[0].len() == s.cells[0].len(),
{
    let cells = visited(s.cells, s.pos);
    lemma_visit_keeps_shape(s.cells, s.pos);
    lemma_neighbours_in_bounds(s.cells, s.pos);
    let options = neighbours(cells, s.pos);
    assert(options == neighbours(s.cells, s.pos));
    lemma_lightest_is_option(cells, options, s.pos, s.trail, 8);
    let dest = destination(cells, s.pos, s.trail, d);
    assert(dest == s.pos || options.contains(dest));
    assert(in_bounds(s.cells, dest));
    assert(in_bounds(cells, dest));
}

/// Bounds, step count and trail bound, for a whole run: after any
/// admissible script the agent stands on the grid, the trail holds at most
/// `capacity` cells, and one move was made for each decision.
pub proof fn lemma_run_sound(s: PlanState, capacity: nat, script: Seq<Decision>)
    requires
        sound(s, capacity),
        capacity >= 1,
        admissible_script(s, capacity, script),
    ensures
        sound(run(s, capacity, script), capacity),
        run(s, capacity, script).steps == s.steps + script.len(),
        run(s, capacity, script).cells.len() == s.cells.len(),
        run(s, capacity, script).cells[0].len() == s.cells[0].len(),
    decreases script.len(),
{
    if script.len() > 0 {
        lemma_run_sound(s, capacity, script.drop_last());
        lemma_step_sound(run(s, capacity, script.drop_last()), capacity, script.last());
    }
}

/// Cost consistency: the cost of a run is the cost it started with plus,
/// for every move, the weight that the destination had when the agent
/// arrived, before the visit that the next tick records there.
pub proof fn lemma_cost_is_sum_of_arrival_weights(s: PlanState, capacity: nat, script: Seq<Decision>)
    ensures
        run(s, capacity, script).cost == s.cost + charges(s, capacity, script),
    decreases script.len(),
{
    if script.len() > 0 {
        lemma_cost_is_sum_of_arrival_weights(s, capacity, script.drop_last());
    }
}

/// The trail after a move holds the cell that was left as its newest
/// entry, and never more than `capacity` cells.
pub proof fn lemma_trail_after_step(s: PlanState, capacity: nat, d: Decision)
    requires
        s.trail.len() <= capacity,
        capacity >= 1,
    ensures
        step(s, capacity, d).trail.len() <= capacity,
        step(s, capacity, d).trail.len() >= 1,
        step(s, capacity, d).trail.last() == s.pos,
{
}

/// A tick that does not explore and is not stuck goes where the weights
/// send it, whatever was drawn.
pub proof fn lemma_step_ignores_unused_draw(s: PlanState, capacity: nat, a: Decision, b: Decision)
    requires
        !a.0,
        !b.0,
        !stuck(s),
    ensures
        step(s, capacity, a) == step(s, capacity, b),
{
}

/// Determinism: two runs from the same state that never explore, and that
/// draw the same neighbour wherever the run is stuck, end in the same state.
pub proof fn lemma_runs_agree(s: PlanState, capacity: nat, a: Seq<Decision>, b: Seq<Decision>)
    requires
        a.len() == b.len(),
        never_explores(a),
        never_explores(b),
        forall|i: int|
            0 <= i < a.len() && stuck(#[trigger] run(s, capacity, a.take(i))) ==> a[i].1 == b[i].1,
    ensures
        run(s, capacity, a) == run(s, capacity, b),
    decreases a.len(),
{
    if a.len() > 0 {
        let shorter_a = a.drop_last();
        let shorter_b = b.drop_last();
        assert forall|i: int|
            0 <= i < shorter_a.len() && stuck(
                #[trigger] run(s, capacity, shorter_a.take(i)),
            ) implies shorter_a[i].1 == shorter_b[i].1 by {
            assert(shorter_a.take(i) =~= a.take(i));
        }
        assert(never_explores(shorter_a)) by {
            assert forall|i: int| 0 <= i < shorter_a.len() implies !(#[trigger] shorter_a[i]).0 by {
                assert(shorter_a[i] == a[i]);
            }
        }
        assert(never_explores(shorter_b)) by {
            assert forall|i: int| 0 <= i < shorter_b.len() implies !(#[trigger] shorter_b[i]).0 by {
                assert(shorter_b[i] == b[i]);
            }
        }
        lemma_runs_agree(s, capacity, shorter_a, shorter_b);
        let before = run(s, capacity, shorter_a);
        assert(a.take(a.len() - 1) =~= shorter_a);
        assert(!a[a.len() - 1].0 && !b[b.len() - 1].0);
        if stuck(before) {
            assert(a.last().1 == b.last().1);
            assert(a.last() == b.last());
        } else {
            lemma_step_ignores_unused_draw(before, capacity, a.last(), b.last());
        }
    }
}

/// A script that never explores and meets no stuck state needs no draw at
/// all: the run is the one that the weights alone decide.
pub proof fn lemma_greedy_run_is_fixed(s: PlanState, capacity: nat, a: Seq<Decision>, b: Seq<Decision>)
    requires
        a.len() == b.len(),
        never_explores(a),
        never_explores(b),
        forall|i: int| 0 <= i < a.len() ==> !stuck(#[trigger] run(s, capacity, a.take(i))),
    ensures
        run(s, capacity, a) == run(s, capacity, b),
{
    lemma_runs_agree(s, capacity, a, b);
}

/// Determinism, step by step: two runs as in [`lemma_runs_agree`] are in
/// the same state after every number of moves.
pub proof fn lemma_runs_agree_at_every_step(
    s: PlanState,
    capacity: nat,
    a: Seq<Decision>,
    b: Seq<Decision>,
    n: int,
)
    requires
        a.len() == b.len(),
        never_explores(a),
        never_explores(b),
        forall|i: int|
            0 <= i < a.len() && stuck(#[trigger] run(s, capacity, a.take(i))) ==> a[i].1 == b[i].1,
        0 <= n <= a.len(),
    ensures
        run(s, capacity, a.take(n)) == run(s, capacity, b.take(n)),
{
    let front_a = a.take(n);
    let front_b = b.take(n);
    assert forall|i: int|
        0 <= i < front_a.len() && stuck(
            #[trigger] run(s, capacity, front_a.take(i)),
        ) implies front_a[i].1 == front_b[i].1 by {
        assert(front_a.take(i) =~= a.take(i));
    }
    assert(never_explores(front_a)) by {
        assert forall|i: int| 0 <= i < front_a.len() implies !(#[trigger] front_a[i]).0 by {
            assert(front_a[i] == a[i]);
        }
    }
    assert(never_explores(front_b)) by {
        assert forall|i: int| 0 <= i < front_b.len() implies !(#[trigger] front_b[i]).0 by {
            assert(front_b[i] == b[i]);
        }
    }
    lemma_runs_agree(s, capacity, front_a, front_b);
}

/// Bounds, step count and trail bound at every point of a run: the state
/// after the first `n` decisions of an admissible script is sound, and `n`
/// moves were made.
pub proof fn lemma_run_sound_at_every_step(
    s: PlanState,
    capacity: nat,
    script: Seq<Decision>,
    n: int,
)
    requires
        sound(s, capacity),
        capacity >= 1,
        admissible_script(s, capacity, script),
        0 <= n <= script.len(),
    ensures
        admissible_script(s, capacity, script.take(n)),
        sound(run(s, capacity, script.take(n)), capacity),
        run(s, capacity, script.take(n)).steps == s.steps + n,
    decreases script.len(),
{
    if n == script.len() {
        assert(script.take(n) =~= script);
        lemma_run_sound(s, capacity, script);
    } else {
        assert(script.drop_last().take(n) =~= script.take(n));
        lemma_run_sound_at_every_step(s, capacity, script.drop_last(), n);
    }
}

/// Recording a visit changes the weight of the visited cell alone.
pub proof fn lemma_visit_changes_one_weight(cells: Seq<Seq<int>>, pos: Position, other: Position)
    requires
        rectangular(cells),
        in_bounds(cells, pos),
        in_bounds(cells, other),
    ensures
        weight_at(visited(cells, pos), pos) == weight_at(cells, pos) + 1,
        other != pos ==> weight_at(visited(cells, pos), other) == weight_at(cells, other),
{
    assert(cells[other.0 as int].len() == cells[0].len());
    assert(cells[pos.0 as int].len() == cells[0].len());
}

/// A tick that does not explore and is not stuck moves to a neighbour that
/// is neither the current cell nor on the trail, and that no such neighbour
/// undercuts in weight.
pub proof fn lemma_greedy_move_is_lightest(s: PlanState, capacity: nat, d: Decision)
    requires
        sound(s, capacity),
        !d.0,
        !stuck(s),
    ensures
        neighbours(s.cells, s.pos).contains(step(s, capacity, d).pos),
        eligible(s.pos, s.trail, step(s, capacity, d).pos),
        forall|i: int|
            0 <= i < 8 && eligible(s.pos, s.trail, #[trigger] neighbours(s.cells, s.pos)[i])
                ==> weight_at(s.cells, step(s, capacity, d).pos) <= weight_at(
                s.cells,
                neighbours(s.cells, s.pos)[i],
            ),
        step(s, capacity, d).cost == s.cost + weight_at(s.cells, step(s, capacity, d).pos),
{
    let cells = visited(s.cells, s.pos);
    lemma_visit_keeps_shape(s.cells, s.pos);
    lemma_neighbours_in_bounds(s.cells, s.pos);
    let options = neighbours(s.cells, s.pos);
    assert(neighbours(cells, s.pos) == options);
    lemma_lightest_is_first_minimum(cells, options, s.pos, s.trail, 8);
    lemma_lightest_is_option(cells, options, s.pos, s.trail, 8);
    let dest = step(s, capacity, d).pos;
    assert(lightest(cells, options, s.pos, s.trail, 8) == Some(dest));
    let at = choose|i: int| 0 <= i < 8 && options[i] == dest;
    assert(in_bounds(s.cells, options[at]));
    lemma_visit_changes_one_weight(s.cells, s.pos, dest);
    assert forall|i: int| 0 <= i < 8 && eligible(s.pos, s.trail, #[trigger] options[i]) implies weight_at(
        s.cells,
        dest,
    ) <= weight_at(s.cells, options[i]) by {
        lemma_visit_changes_one_weight(s.cells, s.pos, options[i]);
        assert(weight_at(cells, dest) <= weight_at(cells, options[i]));
    }
}

} // verus!
