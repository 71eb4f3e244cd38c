use pathplan::grid::Grid;
use pathplan::plan::{budget_of, check_inputs, pathplan, try_pathplan};
use pathplan::planner::{
    neighbours_of, on_trail, pick_lightest, ConfigError, PlanConfig, Planner, Status,
};
use pathplan::signal::CancelSignal;
use std::collections::VecDeque;

fn five_by_five() -> Grid {
    Grid::from_rows(&vec![
        vec![17, 3, 22, 9, 14],
        vec![6, 25, 11, 1, 20],
        vec![13, 8, 19, 24, 5],
        vec![2, 21, 16, 10, 23],
        vec![18, 7, 12, 4, 15],
    ])
    .unwrap()
}

fn survey_grid() -> Grid {
    Grid::from_rows(&vec![
        vec![1, 5, 5, 2, 5],
        vec![1, 2, 3, 4, 2],
        vec![3, 1, 0, 4, 0],
        vec![9, 5, 1, 6, 1],
        vec![0, 2, 6, 1, 3],
    ])
    .unwrap()
}

#[test]
fn neighbours_of_an_inner_cell_in_order() {
    let g = five_by_five();
    assert_eq!(
        neighbours_of(&g, (1, 2)),
        vec![(0, 1), (0, 2), (0, 3), (1, 1), (1, 3), (2, 1), (2, 2), (2, 3)]
    );
}

#[test]
fn neighbours_of_a_corner_repeat_cells() {
    let g = five_by_five();
    assert_eq!(
        neighbours_of(&g, (0, 0)),
        vec![(0, 0), (0, 0), (0, 1), (0, 0), (0, 1), (1, 0), (1, 0), (1, 1)]
    );
    assert_eq!(
        neighbours_of(&g, (4, 4)),
        vec![(3, 3), (3, 4), (3, 4), (4, 3), (4, 4), (4, 3), (4, 4), (4, 4)]
    );
}

#[test]
fn neighbours_of_clamp_columns_by_the_width() {
    let g = Grid::from_rows(&vec![vec![0, 0, 0, 0], vec![0, 0, 0, 0]]).unwrap();
    assert_eq!(
        neighbours_of(&g, (1, 3)),
        vec![(0, 2), (0, 3), (0, 3), (1, 2), (1, 3), (1, 2), (1, 3), (1, 3)]
    );
    assert_eq!(
        neighbours_of(&g, (0, 2)),
        vec![(0, 1), (0, 2), (0, 3), (0, 1), (0, 3), (1, 1), (1, 2), (1, 3)]
    );
}

#[test]
fn neighbours_of_the_only_cell() {
    let g = Grid::from_rows(&vec![vec![7]]).unwrap();
    assert_eq!(neighbours_of(&g, (0, 0)), vec![(0, 0); 8]);
}

#[test]
fn on_trail_finds_only_what_is_there() {
    let mut trail: VecDeque<(usize, usize)> = VecDeque::new();
    assert!(!on_trail(&trail, (0, 0)));
    trail.push_back((1, 2));
    trail.push_back((3, 4));
    assert!(on_trail(&trail, (1, 2)));
    assert!(on_trail(&trail, (3, 4)));
    assert!(!on_trail(&trail, (1, 4)));
    assert!(!on_trail(&trail, (3, 2)));
}

#[test]
fn pick_lightest_takes_the_least_weight() {
    let g = five_by_five();
    let options = neighbours_of(&g, (1, 2));
    let trail: VecDeque<(usize, usize)> = VecDeque::new();
    assert_eq!(pick_lightest(&g, &options, (1, 2), &trail), Some((1, 3)));
}

#[test]
fn pick_lightest_skips_the_trail_and_the_current_cell() {
    let g = five_by_five();
    let options = neighbours_of(&g, (1, 2));
    let mut trail: VecDeque<(usize, usize)> = VecDeque::new();
    trail.push_back((1, 3));
    assert_eq!(pick_lightest(&g, &options, (1, 2), &trail), Some((0, 1)));
    trail.push_back((0, 1));
    assert_eq!(pick_lightest(&g, &options, (1, 2), &trail), Some((2, 1)));
    let corner = neighbours_of(&g, (0, 0));
    let none: VecDeque<(usize, usize)> = VecDeque::new();
    assert_eq!(pick_lightest(&g, &corner, (0, 0), &none), Some((0, 1)));
}

#[test]
fn pick_lightest_takes_the_first_of_equal_weights() {
    let g = Grid::from_rows(&vec![vec![2, 1, 2], vec![1, 9, 1], vec![2, 1, 2]]).unwrap();
    let options = neighbours_of(&g, (1, 1));
    let mut trail: VecDeque<(usize, usize)> = VecDeque::new();
    assert_eq!(pick_lightest(&g, &options, (1, 1), &trail), Some((0, 1)));
    trail.push_back((0, 1));
    assert_eq!(pick_lightest(&g, &options, (1, 1), &trail), Some((1, 0)));
    trail.push_back((1, 0));
    assert_eq!(pick_lightest(&g, &options, (1, 1), &trail), Some((1, 2)));
}

#[test]
fn pick_lightest_finds_nothing_when_all_are_excluded() {
    let g = Grid::from_rows(&vec![vec![7]]).unwrap();
    let options = neighbours_of(&g, (0, 0));
    let trail: VecDeque<(usize, usize)> = VecDeque::new();
    assert_eq!(pick_lightest(&g, &options, (0, 0), &trail), None);
    let pair = Grid::from_rows(&vec![vec![7, 8]]).unwrap();
    let mut seen: VecDeque<(usize, usize)> = VecDeque::new();
    seen.push_back((0, 1));
    assert_eq!(pick_lightest(&pair, &neighbours_of(&pair, (0, 0)), (0, 0), &seen), None);
}

#[test]
fn config_validity() {
    assert!(PlanConfig::standard().is_valid());
    let c = PlanConfig::standard();
    assert_eq!((c.trail_capacity, c.explore_numerator, c.explore_denominator), (3, 1, 10));
    assert!(PlanConfig::greedy_only(3).is_valid());
    assert!(!PlanConfig::greedy_only(0).is_valid());
    assert!(!PlanConfig { trail_capacity: 3, explore_numerator: 1, explore_denominator: 0 }.is_valid());
    assert!(!PlanConfig { trail_capacity: 3, explore_numerator: 3, explore_denominator: 2 }.is_valid());
    assert!(PlanConfig { trail_capacity: 1, explore_numerator: 2, explore_denominator: 2 }.is_valid());
}

#[test]
fn budget_of_counts_no_tick_for_a_negative_number() {
    assert_eq!(budget_of(-4), 0);
    assert_eq!(budget_of(0), 0);
    assert_eq!(budget_of(27), 27);
    assert_eq!(budget_of(i32::MAX), 2147483647);
}

#[test]
fn distinct_weights_give_one_path() {
    let g = five_by_five();
    let expected = [
        ((1usize, 3usize), 1i64),
        ((2, 4), 6),
        ((3, 3), 16),
        ((4, 3), 20),
        ((4, 2), 32),
        ((4, 1), 39),
        ((3, 0), 41),
    ];
    let mut p = Planner::new(g.clone(), 7, (1, 2), PlanConfig::greedy_only(3));
    assert_eq!(p.status(), Status::Running);
    for (i, (pos, cost)) in expected.iter().enumerate() {
        let status = p.tick(false);
        assert_eq!(p.position(), *pos);
        assert_eq!(p.cost(), *cost);
        assert_eq!(p.steps(), i + 1);
        assert_eq!(status, if i == 6 { Status::Completed } else { Status::Running });
    }
    assert_eq!(p.outcome(), (7, 41, (3, 0)));
    assert_eq!(g.get((1, 2)), 11);
    assert_eq!(p.weight((1, 2)), 12);
    assert_eq!(p.weight((4, 1)), 8);
    assert_eq!(p.weight((3, 0)), 2);
}

#[test]
fn pathplan_on_distinct_weights_is_reproducible() {
    let g = five_by_five();
    let signal = CancelSignal::new();
    let first = pathplan(&g, 7, (1, 2), PlanConfig::greedy_only(3), &signal);
    let second = pathplan(&g, 7, (1, 2), PlanConfig::greedy_only(3), &signal);
    assert_eq!(first, (7, 41, (3, 0)));
    assert_eq!(second, first);
    assert_eq!(g.get((1, 2)), 11);
    assert_eq!(g.get((1, 3)), 1);
}

#[test]
fn pathplan_survey_of_twenty_seven_steps() {
    let g = survey_grid();
    let signal = CancelSignal::new();
    assert_eq!(pathplan(&g, 27, (1, 2), PlanConfig::greedy_only(3), &signal), (27, 53, (2, 1)));
    assert_eq!(pathplan(&g, 5, (0, 0), PlanConfig::greedy_only(3), &signal), (5, 4, (4, 3)));
}

#[test]
fn pathplan_breaks_ties_by_order() {
    let g = Grid::from_rows(&vec![vec![0, 0, 0], vec![0, 0, 0]]).unwrap();
    let signal = CancelSignal::new();
    assert_eq!(pathplan(&g, 1, (0, 0), PlanConfig::greedy_only(3), &signal), (1, 0, (0, 1)));
    assert_eq!(pathplan(&g, 3, (0, 0), PlanConfig::greedy_only(3), &signal), (3, 0, (1, 1)));
    assert_eq!(pathplan(&g, 4, (0, 0), PlanConfig::greedy_only(3), &signal), (4, 0, (1, 0)));
}

#[test]
fn zero_budget_returns_at_once() {
    let g = five_by_five();
    let signal = CancelSignal::new();
    assert_eq!(pathplan(&g, 0, (1, 2), PlanConfig::standard(), &signal), (0, 0, (1, 2)));
    assert_eq!(pathplan(&g, -3, (4, 4), PlanConfig::standard(), &signal), (0, 0, (4, 4)));
    let mut p = Planner::new(g, 0, (1, 2), PlanConfig::standard());
    assert_eq!(p.status(), Status::Completed);
    assert_eq!(p.tick(false), Status::Completed);
    assert_eq!(p.outcome(), (0, 0, (1, 2)));
}

#[test]
fn raised_signal_stops_before_the_first_move() {
    let g = five_by_five();
    let signal = CancelSignal::new();
    assert!(!signal.is_requested());
    signal.request();
    assert!(signal.is_requested());
    signal.request();
    assert!(signal.is_requested());
    assert_eq!(pathplan(&g, 7, (1, 2), PlanConfig::greedy_only(3), &signal), (0, 0, (1, 2)));
}

#[test]
fn cancelled_tick_changes_nothing_and_is_final() {
    let mut p = Planner::new(five_by_five(), 7, (1, 2), PlanConfig::greedy_only(3));
    assert_eq!(p.tick(false), Status::Running);
    assert_eq!(p.tick(false), Status::Running);
    let before = p.outcome();
    assert_eq!(before, (2, 6, (2, 4)));
    assert_eq!(p.tick(true), Status::Cancelled);
    assert_eq!(p.outcome(), before);
    assert_eq!(p.weight((2, 4)), 5);
    assert_eq!(p.tick(false), Status::Cancelled);
    assert_eq!(p.status(), Status::Cancelled);
    assert_eq!(p.outcome(), before);
}

#[test]
fn steps_grow_by_one_up_to_the_budget() {
    let mut p = Planner::new(survey_grid(), 5, (2, 2), PlanConfig::standard());
    let mut last = 0;
    for _ in 0..9 {
        p.tick(false);
        assert!(p.steps() >= last && p.steps() <= last + 1);
        assert!(p.steps() <= 5);
        last = p.steps();
    }
    assert_eq!(p.steps(), 5);
    assert_eq!(p.status(), Status::Completed);
}

#[test]
fn trail_stays_within_its_capacity() {
    let mut p = Planner::new(survey_grid(), 12, (2, 2), PlanConfig::standard());
    assert_eq!(p.trail_len(), 1);
    p.tick(false);
    assert_eq!(p.trail_len(), 2);
    p.tick(false);
    assert_eq!(p.trail_len(), 3);
    for _ in 0..10 {
        p.tick(false);
        assert_eq!(p.trail_len(), 3);
    }
    let mut q = Planner::new(survey_grid(), 4, (2, 2), PlanConfig::greedy_only(1));
    for _ in 0..4 {
        q.tick(false);
        assert_eq!(q.trail_len(), 1);
    }
}

#[test]
fn positions_stay_on_the_grid() {
    let g = Grid::from_rows(&vec![vec![0, 1, 2], vec![3, 4, 5]]).unwrap();
    let mut p = Planner::new(g.clone(), 40, (1, 2), PlanConfig::standard());
    while p.status() == Status::Running {
        p.tick(false);
        assert!(g.contains(p.position()));
    }
    assert_eq!(p.steps(), 40);
}

#[test]
fn advance_explores_to_the_drawn_neighbour() {
    let mut p = Planner::new(five_by_five(), 3, (1, 2), PlanConfig::standard());
    p.advance(true, Some((2, 2)));
    assert_eq!(p.outcome(), (1, 19, (2, 2)));
    p.advance(false, Some((1, 1)));
    assert_eq!(p.outcome(), (2, 20, (1, 3)));
    assert_eq!(p.status(), Status::Running);
    p.advance(true, None);
    assert_eq!(p.outcome(), (3, 22, (1, 3)));
    assert_eq!(p.status(), Status::Completed);
}

#[test]
fn options_are_the_neighbours_of_the_current_cell() {
    let mut p = Planner::new(five_by_five(), 2, (1, 2), PlanConfig::greedy_only(3));
    assert_eq!(p.options(), neighbours_of(&five_by_five(), (1, 2)));
    p.tick(false);
    assert_eq!(p.options(), neighbours_of(&five_by_five(), (1, 3)));
}

#[test]
fn cost_charges_the_weight_met_on_arrival() {
    let mut p = Planner::new(five_by_five(), 4, (1, 2), PlanConfig::greedy_only(3));
    let mut total = 0i64;
    for _ in 0..4 {
        p.tick(false);
        total += p.weight(p.position()) as i64;
        assert_eq!(p.cost(), total);
    }
    assert_eq!(total, 20);
}

#[test]
fn single_cell_grid_stays_and_pays_each_visit() {
    let g = Grid::from_rows(&vec![vec![5]]).unwrap();
    let signal = CancelSignal::new();
    assert_eq!(pathplan(&g, 3, (0, 0), PlanConfig::standard(), &signal), (3, 21, (0, 0)));
    assert_eq!(g.get((0, 0)), 5);
    let mut p = Planner::new(g, 2, (0, 0), PlanConfig::greedy_only(2));
    assert!(!p.has_candidate());
    p.tick(false);
    assert_eq!(p.outcome(), (1, 6, (0, 0)));
}

#[test]
fn always_exploring_moves_to_some_neighbour() {
    let g = five_by_five();
    let config = PlanConfig { trail_capacity: 3, explore_numerator: 1, explore_denominator: 1 };
    for _ in 0..20 {
        let mut p = Planner::new(g.clone(), 1, (2, 2), config);
        assert!(p.has_candidate());
        p.tick(false);
        let pos = p.position();
        assert!(neighbours_of(&g, (2, 2)).contains(&pos));
        assert_eq!(p.cost(), g.get(pos) as i64);
    }
}

#[test]
fn never_exploring_takes_the_greedy_move_every_time() {
    let g = five_by_five();
    for _ in 0..50 {
        let mut p = Planner::new(g.clone(), 1, (2, 2), PlanConfig::greedy_only(3));
        p.tick(false);
        assert_eq!(p.outcome(), (1, 1, (1, 3)));
    }
}

#[test]
fn check_inputs_names_what_is_wrong() {
    let g = five_by_five();
    let ok = PlanConfig::standard();
    let bad = PlanConfig::greedy_only(0);
    assert_eq!(check_inputs(&g, 7, (1, 2), ok), Ok(()));
    assert_eq!(check_inputs(&g, 7, (5, 2), ok), Err(ConfigError::StartOutOfBounds));
    assert_eq!(check_inputs(&g, 7, (1, 5), bad), Err(ConfigError::StartOutOfBounds));
    assert_eq!(check_inputs(&g, 7, (1, 2), bad), Err(ConfigError::InvalidConfig));
    assert_eq!(check_inputs(&g, 2147483622, (1, 2), ok), Ok(()));
    assert_eq!(check_inputs(&g, 2147483623, (1, 2), ok), Err(ConfigError::WeightTooLarge));
    let full = Grid::from_rows(&vec![vec![0, i32::MAX]]).unwrap();
    assert_eq!(check_inputs(&full, 0, (0, 0), ok), Ok(()));
    assert_eq!(check_inputs(&full, 1, (0, 0), ok), Err(ConfigError::WeightTooLarge));
    let low = Grid::from_rows(&vec![vec![i32::MIN]]).unwrap();
    assert_eq!(check_inputs(&low, 2147483647, (0, 0), ok), Ok(()));
    assert_eq!(check_inputs(&low, 2147483648, (0, 0), ok), Err(ConfigError::WeightTooLarge));
}

#[test]
fn try_pathplan_runs_or_names_the_error() {
    let g = five_by_five();
    let signal = CancelSignal::new();
    let greedy = PlanConfig::greedy_only(3);
    assert_eq!(try_pathplan(&g, 7, (1, 2), greedy, &signal), Ok((7, 41, (3, 0))));
    assert_eq!(try_pathplan(&g, 7, (9, 9), greedy, &signal), Err(ConfigError::StartOutOfBounds));
    assert_eq!(
        try_pathplan(&g, 7, (1, 2), PlanConfig::greedy_only(0), &signal),
        Err(ConfigError::InvalidConfig)
    );
    let full = Grid::from_rows(&vec![vec![i32::MAX, 0]]).unwrap();
    assert_eq!(try_pathplan(&full, 1, (0, 1), greedy, &signal), Err(ConfigError::WeightTooLarge));
    assert_eq!(try_pathplan(&full, 0, (0, 1), greedy, &signal), Ok((0, 0, (0, 1))));
}
