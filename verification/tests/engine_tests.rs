use cellfade::color::{Color, ColorPolicy};
use cellfade::config::Config;
use cellfade::engine::{make_colors, Engine};
use cellfade::grid::row_major_cells;
use cellfade::plan::Command;
use cellfade::rng::make_rng;
use rand::rngs::StdRng;
use rand::SeedableRng;

fn cfg(width: usize, height: usize, color: &str, no_decay: bool, cycles: usize) -> Config {
    Config::new(width, height, 10, 200, color, no_decay, cycles).unwrap()
}

fn draws_of(plan: &[Command]) -> Vec<(usize, usize)> {
    plan.iter()
        .filter_map(|c| match c {
            Command::Draw { x, y, .. } => Some((*x, *y)),
            _ => None,
        })
        .collect()
}

fn erases_of(plan: &[Command]) -> Vec<(usize, usize)> {
    plan.iter()
        .filter_map(|c| match c {
            Command::Erase { x, y } => Some((*x, *y)),
            _ => None,
        })
        .collect()
}

fn colors_of(plan: &[Command]) -> Vec<Color> {
    plan.iter()
        .filter_map(|c| match c {
            Command::Draw { color, .. } => Some(*color),
            _ => None,
        })
        .collect()
}

#[test]
fn row_major_order_of_two_by_one_grid() {
    assert_eq!(row_major_cells(2, 1), vec![(0, 0), (1, 0)]);
    assert_eq!(row_major_cells(2, 2), vec![(0, 0), (1, 0), (0, 1), (1, 1)]);
    assert_eq!(row_major_cells(3, 0), Vec::<(usize, usize)>::new());
}

#[test]
fn seeded_two_by_one_run_is_reproducible() {
    let mut plans: Vec<Vec<Command>> = Vec::new();
    for _ in 0..2 {
        let mut engine = Engine::new(cfg(2, 1, "green", false, 1));
        let mut rng = StdRng::seed_from_u64(42);
        plans.push(engine.next_cycle(&mut rng).unwrap());
    }
    assert_eq!(plans[0], plans[1]);
    let draws = draws_of(&plans[0]);
    let mut sorted = draws.clone();
    sorted.sort();
    assert_eq!(sorted, vec![(0, 0), (1, 0)]);
    let erases = erases_of(&plans[0]);
    let mut reversed = draws.clone();
    reversed.reverse();
    assert_eq!(erases, reversed);
}

#[test]
fn seeded_runs_with_random_colors_are_identical() {
    let mut plans: Vec<Vec<Command>> = Vec::new();
    for _ in 0..2 {
        let mut engine = Engine::new(cfg(8, 8, "random", false, 2));
        let mut rng = StdRng::seed_from_u64(7);
        let mut all: Vec<Command> = Vec::new();
        while let Some(plan) = engine.next_cycle(&mut rng) {
            all.extend(plan);
        }
        plans.push(all);
    }
    assert_eq!(plans[0], plans[1]);
}

#[test]
fn draw_phase_covers_each_grid_cell_exactly_once() {
    let mut engine = Engine::new(cfg(4, 3, "green", false, 1));
    let mut rng = StdRng::seed_from_u64(1);
    let plan = engine.next_cycle(&mut rng).unwrap();
    let mut draws = draws_of(&plan);
    assert_eq!(draws.len(), 12);
    draws.sort();
    draws.dedup();
    assert_eq!(draws.len(), 12);
    for (x, y) in draws {
        assert!(x < 4 && y < 3);
    }
}

#[test]
fn erase_phase_is_exact_reverse_of_draw_phase() {
    let mut engine = Engine::new(cfg(5, 4, "blue", false, 1));
    let mut rng = StdRng::seed_from_u64(99);
    let plan = engine.next_cycle(&mut rng).unwrap();
    let draws = draws_of(&plan);
    let erases = erases_of(&plan);
    assert_eq!(erases.len(), draws.len());
    let mut reversed = draws.clone();
    reversed.reverse();
    assert_eq!(erases, reversed);
}

#[test]
fn no_decay_plans_have_no_erases_and_start_with_clear() {
    let mut engine = Engine::new(cfg(3, 3, "green", true, 2));
    let mut rng = StdRng::seed_from_u64(5);
    let first = engine.next_cycle(&mut rng).unwrap();
    let second = engine.next_cycle(&mut rng).unwrap();
    assert!(engine.next_cycle(&mut rng).is_none());
    for plan in [&first, &second] {
        assert_eq!(plan[0], Command::Clear);
        assert!(erases_of(plan).is_empty());
        assert_eq!(draws_of(plan).len(), 9);
    }
}

#[test]
fn finite_run_performs_exactly_its_cycle_count() {
    let mut engine = Engine::new(cfg(2, 2, "green", false, 3));
    let mut rng = StdRng::seed_from_u64(0);
    let mut produced = 0;
    while let Some(plan) = engine.next_cycle(&mut rng) {
        assert_eq!(draws_of(&plan).len(), 4);
        produced += 1;
        assert!(produced <= 3);
    }
    assert_eq!(produced, 3);
    assert!(engine.next_cycle(&mut rng).is_none());
}

#[test]
fn infinite_run_keeps_yielding() {
    let mut engine = Engine::new(cfg(2, 1, "green", false, 0));
    let mut rng = StdRng::seed_from_u64(3);
    for _ in 0..20 {
        assert!(engine.next_cycle(&mut rng).is_some());
    }
}

#[test]
fn plan_interleaves_draws_with_draw_delay_pauses() {
    let config = Config::new(2, 2, 10, 200, "green", false, 1).unwrap();
    let mut engine = Engine::new(config);
    let mut rng = StdRng::seed_from_u64(11);
    let plan = engine.next_cycle(&mut rng).unwrap();
    assert_eq!(plan[0], Command::Clear);
    for i in 0..4 {
        assert!(matches!(plan[1 + 2 * i], Command::Draw { .. }));
        assert_eq!(plan[2 + 2 * i], Command::Sleep { ms: 10 });
    }
    assert_eq!(plan[9], Command::Sleep { ms: 200 });
    for i in 0..4 {
        assert!(matches!(plan[10 + 2 * i], Command::Erase { .. }));
        assert_eq!(plan[11 + 2 * i], Command::Sleep { ms: 10 });
    }
    assert_eq!(plan.len(), 18);
}

#[test]
fn fixed_policy_draws_every_cell_in_that_color() {
    let mut engine = Engine::new(cfg(4, 4, "magenta", false, 1));
    let mut rng = StdRng::seed_from_u64(2);
    let plan = engine.next_cycle(&mut rng).unwrap();
    let colors = colors_of(&plan);
    assert_eq!(colors.len(), 16);
    assert!(colors.iter().all(|c| *c == Color::Magenta));
}

#[test]
fn unrecognized_color_name_draws_everything_green() {
    let mut engine = Engine::new(cfg(4, 4, "definitely-not-a-color", false, 1));
    let mut rng = StdRng::seed_from_u64(2);
    let plan = engine.next_cycle(&mut rng).unwrap();
    let colors = colors_of(&plan);
    assert_eq!(colors.len(), 16);
    assert!(colors.iter().all(|c| *c == Color::Green));
}

#[test]
fn random_colors_stay_near_uniform_and_never_black() {
    let mut rng = StdRng::seed_from_u64(12345);
    let colors = make_colors(ColorPolicy::Random, 7000, &mut rng);
    assert_eq!(colors.len(), 7000);
    let palette = [
        Color::Red,
        Color::Green,
        Color::Blue,
        Color::Yellow,
        Color::Magenta,
        Color::Cyan,
        Color::White,
    ];
    for c in &colors {
        assert_ne!(*c, Color::Black);
        assert!(palette.contains(c));
    }
    for p in &palette {
        let count = colors.iter().filter(|c| *c == p).count();
        assert!(count > 800, "color {:?} drawn only {} times", p, count);
        assert!(count < 1200, "color {:?} drawn {} times", p, count);
    }
}

#[test]
fn make_rng_succeeds_with_and_without_seed() {
    assert!(make_rng(Some(42)).is_some());
    assert!(make_rng(None).is_some());
}

#[test]
fn shuffle_actually_permutes_for_this_seed() {
    let mut engine = Engine::new(cfg(8, 8, "green", true, 1));
    let mut rng = StdRng::seed_from_u64(1);
    let plan = engine.next_cycle(&mut rng).unwrap();
    let draws = draws_of(&plan);
    assert_eq!(draws.len(), 64);
    assert_ne!(draws, row_major_cells(8, 8));
}

#[test]
fn zero_sized_grid_yields_cycles_without_cells() {
    let mut engine = Engine::new(cfg(0, 3, "green", false, 2));
    let mut rng = StdRng::seed_from_u64(4);
    let first = engine.next_cycle(&mut rng).unwrap();
    let second = engine.next_cycle(&mut rng).unwrap();
    assert!(engine.next_cycle(&mut rng).is_none());
    for plan in [&first, &second] {
        assert_eq!(plan[0], Command::Clear);
        assert!(draws_of(plan).is_empty());
        assert!(erases_of(plan).is_empty());
        assert_eq!(plan.len(), 2);
        assert_eq!(plan[1], Command::Sleep { ms: 200 });
    }
}
