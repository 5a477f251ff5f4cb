//! The screen-command sequence of one animation cycle.
//!
//! A cycle is modelled as the exact sequence of terminal commands it performs:
//! clear the screen, draw every cell of a shuffled cell order (pausing after
//! each), pause once between the phases, and — when decay is enabled — erase
//! the same cells in exact reverse order (again pausing after each).  The
//! specification functions here pin that sequence down, and the lemmas state
//! the laws of a cycle: the draw phase visits every grid cell exactly once,
//! the erase phase is the exact reverse of the draw phase, and without decay
//! no erase happens at all — the next cycle's leading clear removes the cells.

use vstd::prelude::*;

use crate::color::{Color, ColorPolicy, palette};
use crate::config::Config;
use crate::grid::{Cell, grid_seq, lemma_grid_seq_counts};

verus! {

/// One terminal command of the animation.
#[derive(Clone, Copy, Debug, PartialEq, Eq, Structural)]
pub enum Command {
    /// Clear the whole visible screen.
    Clear,
    /// Draw the cell at grid coordinate `(x, y)` in the given color.
    Draw { x: usize, y: usize, color: Color },
    /// Erase the cell at grid coordinate `(x, y)`.
    Erase { x: usize, y: usize },
    /// Pause for the given number of milliseconds.
    Sleep { ms: u64 },
}

/// The cell a command draws, if it draws one.
pub open spec fn draw_cell_of(cmd: Command) -> Seq<Cell> {
    match cmd {
        Command::Draw { x, y, .. } => seq![(x, y)],
        _ => Seq::empty(),
    }
}

/// The cell a command erases, if it erases one.
pub open spec fn erase_cell_of(cmd: Command) -> Seq<Cell> {
    match cmd {
        Command::Erase { x, y } => seq![(x, y)],
        _ => Seq::empty(),
    }
}

/// The color a command draws, if it draws one.
pub open spec fn draw_color_of(cmd: Command) -> Seq<Color> {
    match cmd {
        Command::Draw { color, .. } => seq![color],
        _ => Seq::empty(),
    }
}

/// The cells a command sequence draws, in order.
pub open spec fn draw_order(p: Seq<Command>) -> Seq<Cell>
    decreases p.len(),
{
    if p.len() == 0 {
        Seq::empty()
    } else {
        draw_order(p.drop_last()) + draw_cell_of(p.last())
    }
}

/// The colors a command sequence draws, in order.
pub open spec fn draw_colors(p: Seq<Command>) -> Seq<Color>
    decreases p.len(),
{
    if p.len() == 0 {
        Seq::empty()
    } else {
        draw_colors(p.drop_last()) + draw_color_of(p.last())
    }
}

/// The cells a command sequence erases, in order.
pub open spec fn erase_order(p: Seq<Command>) -> Seq<Cell>
    decreases p.len(),
{
    if p.len() == 0 {
        Seq::empty()
    } else {
        erase_order(p.drop_last()) + erase_cell_of(p.last())
    }
}

/// The draw phase over `cells` in order: each cell drawn in its color, with a
/// pause of `dd` milliseconds after each.
pub open spec fn draw_cmds(cells: Seq<Cell>, colors: Seq<Color>, dd: u64) -> Seq<Command>
    decreases cells.len(),
{
    if cells.len() == 0 {
        Seq::empty()
    } else {
        draw_cmds(cells.drop_last(), colors.drop_last(), dd) + seq![
            (Command::Draw { x: cells.last().0, y: cells.last().1, color: colors.last() }),
            (Command::Sleep { ms: dd }),
        ]
    }
}

/// The erase phase over `cells` in order: each cell erased, with a pause of
/// `dd` milliseconds after each.
pub open spec fn erase_cmds(cells: Seq<Cell>, dd: u64) -> Seq<Command>
    decreases cells.len(),
{
    if cells.len() == 0 {
        Seq::empty()
    } else {
        erase_cmds(cells.drop_last(), dd) + seq![
            (Command::Erase { x: cells.last().0, y: cells.last().1 }),
            (Command::Sleep { ms: dd }),
        ]
    }
}

/// The full command sequence of one cycle over the shuffled cell order
/// `cells` with per-cell colors `colors`: clear the screen, draw every cell,
/// pause for the inter-cycle interval, and — when decay is enabled — erase
/// the cells in exact reverse order.
pub open spec fn cycle_cmds(cells: Seq<Cell>, colors: Seq<Color>, cfg: Config) -> Seq<Command> {
    seq![Command::Clear] + draw_cmds(cells, colors, cfg.draw_delay) + seq![
        (Command::Sleep { ms: cfg.interval_delay }),
    ] + if cfg.decay {
        erase_cmds(cells.reverse(), cfg.draw_delay)
    } else {
        Seq::empty()
    }
}

/// A color agrees with the run's color policy: the fixed color under a fixed
/// policy, any palette color (so never black) under the random policy.
pub open spec fn color_matches(policy: ColorPolicy, c: Color) -> bool {
    match policy {
        ColorPolicy::Fixed(k) => c == k,
        ColorPolicy::Random => palette().contains(c),
    }
}

/// Every color of a cycle agrees with the run's color policy.
pub open spec fn colors_match(policy: ColorPolicy, colors: Seq<Color>) -> bool {
    forall|i: int| 0 <= i < colors.len() ==> color_matches(policy, #[trigger] colors[i])
}

/// `plan` is a valid cycle plan for `cfg`: its cell order is a permutation of
/// the grid, it carries one policy-conforming color per cell, and its command
/// sequence is exactly the cycle over that order.
pub open spec fn is_cycle_plan(
    cfg: Config,
    cells: Seq<Cell>,
    colors: Seq<Color>,
    plan: Seq<Command>,
) -> bool {
    &&& cells.to_multiset() == grid_seq(cfg.width as nat, cfg.height as nat).to_multiset()
    &&& colors.len() == cells.len()
    &&& colors_match(cfg.policy, colors)
    &&& plan == cycle_cmds(cells, colors, cfg)
}

/// `plan` is the command sequence of a valid cycle for `cfg`: the cycle over
/// some grid permutation with policy-conforming per-cell colors.
pub open spec fn is_valid_cycle(cfg: Config, plan: Seq<Command>) -> bool {
    exists|cells: Seq<Cell>, colors: Seq<Color>|
        #[trigger] is_cycle_plan(cfg, cells, colors, plan)
}

proof fn lemma_order_singleton(cmd: Command)
    ensures
        draw_order(seq![cmd]) == draw_cell_of(cmd),
        erase_order(seq![cmd]) == erase_cell_of(cmd),
        draw_colors(seq![cmd]) == draw_color_of(cmd),
{
    let s = seq![cmd];
    assert(s.drop_last() =~= Seq::<Command>::empty());
    assert(s.last() == cmd);
    assert(draw_order(Seq::<Command>::empty()) =~= Seq::<Cell>::empty());
    assert(erase_order(Seq::<Command>::empty()) =~= Seq::<Cell>::empty());
    assert(draw_colors(Seq::<Command>::empty()) =~= Seq::<Color>::empty());
    assert(draw_order(s) =~= draw_cell_of(cmd));
    assert(erase_order(s) =~= erase_cell_of(cmd));
    assert(draw_colors(s) =~= draw_color_of(cmd));
}

proof fn lemma_order_pair(c1: Command, c2: Command)
    ensures
        draw_order(seq![c1, c2]) == draw_cell_of(c1) + draw_cell_of(c2),
        erase_order(seq![c1, c2]) == erase_cell_of(c1) + erase_cell_of(c2),
        draw_colors(seq![c1, c2]) == draw_color_of(c1) + draw_color_of(c2),
{
    let s = seq![c1, c2];
    assert(s.drop_last() =~= seq![c1]);
    assert(s.last() == c2);
    lemma_order_singleton(c1);
    assert(draw_order(s) =~= draw_cell_of(c1) + draw_cell_of(c2));
    assert(erase_order(s) =~= erase_cell_of(c1) + erase_cell_of(c2));
    assert(draw_colors(s) =~= draw_color_of(c1) + draw_color_of(c2));
}

proof fn lemma_draw_order_concat(a: Seq<Command>, b: Seq<Command>)
    ensures
        draw_order(a + b) == draw_order(a) + draw_order(b),
    decreases b.len(),
{
    if b.len() == 0 {
        assert(a + b =~= a);
        assert(draw_order(a) + draw_order(b) =~= draw_order(a));
    } else {
        lemma_draw_order_concat(a, b.drop_last());
        assert((a + b).drop_last() =~= a + b.drop_last());
        assert((a + b).last() == b.last());
        assert(draw_order(a + b) =~= draw_order(a) + draw_order(b)) by {
            assert(draw_order(a + b) == draw_order(a) + draw_order(b.drop_last())
                + draw_cell_of(b.last()));
        }
    }
}

proof fn lemma_erase_order_concat(a: Seq<Command>, b: Seq<Command>)
    ensures
        erase_order(a + b) == erase_order(a) + erase_order(b),
    decreases b.len(),
{
    if b.len() == 0 {
        assert(a + b =~= a);
        assert(erase_order(a) + erase_order(b) =~= erase_order(a));
    } else {
        lemma_erase_order_concat(a, b.drop_last());
        assert((a + b).drop_last() =~= a + b.drop_last());
        assert((a + b).last() == b.last());
        assert(erase_order(a + b) =~= erase_order(a) + erase_order(b)) by {
            assert(erase_order(a + b) == erase_order(a) + erase_order(b.drop_last())
                + erase_cell_of(b.last()));
        }
    }
}

proof fn lemma_draw_colors_concat(a: Seq<Command>, b: Seq<Command>)
    ensures
        draw_colors(a + b) == draw_colors(a) + draw_colors(b),
    decreases b.len(),
{
    if b.len() == 0 {
        assert(a + b =~= a);
        assert(draw_colors(a) + draw_colors(b) =~= draw_colors(a));
    } else {
        lemma_draw_colors_concat(a, b.drop_last());
        assert((a + b).drop_last() =~= a + b.drop_last());
        assert((a + b).last() == b.last());
        assert(draw_colors(a + b) =~= draw_colors(a) + draw_colors(b)) by {
            assert(draw_colors(a + b) == draw_colors(a) + draw_colors(b.drop_last())
                + draw_color_of(b.last()));
        }
    }
}

/// The draw phase draws exactly its cells, in order, and erases nothing.
proof fn lemma_orders_of_draw_cmds(cells: Seq<Cell>, colors: Seq<Color>, dd: u64)
    ensures
        draw_order(draw_cmds(cells, colors, dd)) == cells,
        erase_order(draw_cmds(cells, colors, dd)) == Seq::<Cell>::empty(),
    decreases cells.len(),
{
    if cells.len() == 0 {
        assert(draw_order(draw_cmds(cells, colors, dd)) =~= cells);
    } else {
        lemma_orders_of_draw_cmds(cells.drop_last(), colors.drop_last(), dd);
        let two = seq![
            (Command::Draw { x: cells.last().0, y: cells.last().1, color: colors.last() }),
            (Command::Sleep { ms: dd }),
        ];
        lemma_draw_order_concat(draw_cmds(cells.drop_last(), colors.drop_last(), dd), two);
        lemma_erase_order_concat(draw_cmds(cells.drop_last(), colors.drop_last(), dd), two);
        lemma_order_pair(
            Command::Draw { x: cells.last().0, y: cells.last().1, color: colors.last() },
            Command::Sleep { ms: dd },
        );
        assert(draw_order(two) =~= seq![(cells.last().0, cells.last().1)]);
        assert(erase_order(two) =~= Seq::<Cell>::empty());
        assert(cells.last() == (cells.last().0, cells.last().1));
        assert(draw_order(draw_cmds(cells, colors, dd)) =~= cells.drop_last().push(cells.last()));
        assert(cells.drop_last().push(cells.last()) =~= cells);
        assert(erase_order(draw_cmds(cells, colors, dd)) =~= Seq::<Cell>::empty());
    }
}

/// The erase phase erases exactly its cells, in order, and draws nothing.
proof fn lemma_orders_of_erase_cmds(cells: Seq<Cell>, dd: u64)
    ensures
        erase_order(erase_cmds(cells, dd)) == cells,
        draw_order(erase_cmds(cells, dd)) == Seq::<Cell>::empty(),
    decreases cells.len(),
{
    if cells.len() == 0 {
        assert(erase_order(erase_cmds(cells, dd)) =~= cells);
    } else {
        lemma_orders_of_erase_cmds(cells.drop_last(), dd);
        let two = seq![
            (Command::Erase { x: cells.last().0, y: cells.last().1 }),
            (Command::Sleep { ms: dd }),
        ];
        lemma_erase_order_concat(erase_cmds(cells.drop_last(), dd), two);
        lemma_draw_order_concat(erase_cmds(cells.drop_last(), dd), two);
        lemma_order_pair(
            Command::Erase { x: cells.last().0, y: cells.last().1 },
            Command::Sleep { ms: dd },
        );
        assert(erase_order(two) =~= seq![(cells.last().0, cells.last().1)]);
        assert(draw_order(two) =~= Seq::<Cell>::empty());
        assert(cells.last() == (cells.last().0, cells.last().1));
        assert(erase_order(erase_cmds(cells, dd)) =~= cells.drop_last().push(cells.last()));
        assert(cells.drop_last().push(cells.last()) =~= cells);
        assert(draw_order(erase_cmds(cells, dd)) =~= Seq::<Cell>::empty());
    }
}

/// The draw phase draws exactly its colors, in order; the erase phase draws
/// no color at all.
proof fn lemma_colors_of_phases(cells: Seq<Cell>, colors: Seq<Color>, dd: u64)
    requires
        colors.len() == cells.len(),
    ensures
        draw_colors(draw_cmds(cells, colors, dd)) == colors,
        draw_colors(erase_cmds(cells, dd)) == Seq::<Color>::empty(),
    decreases cells.len(),
{
    if cells.len() == 0 {
        assert(draw_colors(draw_cmds(cells, colors, dd)) =~= colors);
        assert(draw_colors(erase_cmds(cells, dd)) =~= Seq::<Color>::empty());
    } else {
        lemma_colors_of_phases(cells.drop_last(), colors.drop_last(), dd);
        let two = seq![
            (Command::Draw { x: cells.last().0, y: cells.last().1, color: colors.last() }),
            (Command::Sleep { ms: dd }),
        ];
        let etwo = seq![
            (Command::Erase { x: cells.last().0, y: cells.last().1 }),
            (Command::Sleep { ms: dd }),
        ];
        lemma_draw_colors_concat(draw_cmds(cells.drop_last(), colors.drop_last(), dd), two);
        lemma_draw_colors_concat(erase_cmds(cells.drop_last(), dd), etwo);
        lemma_order_pair(
            Command::Draw { x: cells.last().0, y: cells.last().1, color: colors.last() },
            Command::Sleep { ms: dd },
        );
        lemma_order_pair(
            Command::Erase { x: cells.last().0, y: cells.last().1 },
            Command::Sleep { ms: dd },
        );
        assert(draw_colors(two) =~= seq![colors.last()]);
        assert(draw_colors(etwo) =~= Seq::<Color>::empty());
        assert(draw_colors(draw_cmds(cells, colors, dd)) =~= colors.drop_last().push(
            colors.last(),
        ));
        assert(colors.drop_last().push(colors.last()) =~= colors);
        assert(draw_colors(erase_cmds(cells, dd)) =~= Seq::<Color>::empty());
    }
}

/// A cycle draws exactly its colors, one per cell, in draw order.
pub proof fn lemma_cycle_colors(cells: Seq<Cell>, colors: Seq<Color>, cfg: Config)
    requires
        colors.len() == cells.len(),
    ensures
        draw_colors(cycle_cmds(cells, colors, cfg)) == colors,
{
    let head = seq![Command::Clear];
    let draws = draw_cmds(cells, colors, cfg.draw_delay);
    let pause = seq![(Command::Sleep { ms: cfg.interval_delay })];
    let tail = if cfg.decay {
        erase_cmds(cells.reverse(), cfg.draw_delay)
    } else {
        Seq::<Command>::empty()
    };
    lemma_colors_of_phases(cells, colors, cfg.draw_delay);
    lemma_colors_of_phases(cells.reverse(), colors.reverse(), cfg.draw_delay);
    lemma_order_singleton(Command::Clear);
    lemma_order_singleton(Command::Sleep { ms: cfg.interval_delay });
    lemma_draw_colors_concat(head, draws);
    lemma_draw_colors_concat(head + draws, pause);
    lemma_draw_colors_concat(head + draws + pause, tail);
    assert(draw_colors(cycle_cmds(cells, colors, cfg)) =~= colors);
}

/// Every color a cycle the engine yields draws follows the run's color
/// policy: under a fixed policy every cell is drawn in that one color, under
/// the random policy every cell is drawn in a palette color — never black.
pub proof fn lemma_valid_cycle_colors_follow_policy(cfg: Config, plan: Seq<Command>)
    requires
        is_valid_cycle(cfg, plan),
    ensures
        draw_colors(plan).len() == draw_order(plan).len(),
        colors_match(cfg.policy, draw_colors(plan)),
{
    let (cells, colors) = choose|cells: Seq<Cell>, colors: Seq<Color>|
        #[trigger] is_cycle_plan(cfg, cells, colors, plan);
    lemma_cycle_colors(cells, colors, cfg);
    lemma_cycle_orders(cells, colors, cfg);
}

/// A run configured with an unrecognized color name — neither `random` nor
/// any of the eight color names — draws every cell of every cycle in the
/// default color, green, and raises no error.
pub proof fn lemma_unrecognized_name_draws_only_green(
    cfg: Config,
    plan: Seq<Command>,
    name: Seq<char>,
)
    requires
        is_valid_cycle(cfg, plan),
        cfg.policy == crate::color::spec_color_policy(name),
        !crate::color::spec_is_random_name(name),
        crate::color::spec_parse_color(name) is None,
    ensures
        forall|i: int|
            0 <= i < draw_colors(plan).len() ==> #[trigger] draw_colors(plan)[i] == Color::Green,
{
    crate::color::lemma_unrecognized_name_defaults_to_green(name);
    lemma_valid_cycle_colors_follow_policy(cfg, plan);
}

/// A run with random colors never draws black.
pub proof fn lemma_random_policy_never_draws_black(cfg: Config, plan: Seq<Command>)
    requires
        is_valid_cycle(cfg, plan),
        cfg.policy == ColorPolicy::Random,
    ensures
        forall|i: int|
            0 <= i < draw_colors(plan).len() ==> #[trigger] draw_colors(plan)[i] != Color::Black,
{
    lemma_valid_cycle_colors_follow_policy(cfg, plan);
    assert forall|i: int| 0 <= i < draw_colors(plan).len() implies #[trigger] draw_colors(
        plan,
    )[i] != Color::Black by {
        assert(color_matches(cfg.policy, draw_colors(plan)[i]));
        let c = draw_colors(plan)[i];
        assert(palette().contains(c));
        let j = choose|j: int| 0 <= j < palette().len() && palette()[j] == c;
        assert(palette()[j] != Color::Black);
    }
}

/// A cycle draws exactly its cell order and — when decay is enabled — erases
/// exactly that order reversed; without decay it erases nothing.
pub proof fn lemma_cycle_orders(cells: Seq<Cell>, colors: Seq<Color>, cfg: Config)
    ensures
        draw_order(cycle_cmds(cells, colors, cfg)) == cells,
        cfg.decay ==> erase_order(cycle_cmds(cells, colors, cfg)) == cells.reverse(),
        !cfg.decay ==> erase_order(cycle_cmds(cells, colors, cfg)) == Seq::<Cell>::empty(),
{
    let head = seq![Command::Clear];
    let draws = draw_cmds(cells, colors, cfg.draw_delay);
    let pause = seq![(Command::Sleep { ms: cfg.interval_delay })];
    let tail = if cfg.decay {
        erase_cmds(cells.reverse(), cfg.draw_delay)
    } else {
        Seq::<Command>::empty()
    };
    lemma_orders_of_draw_cmds(cells, colors, cfg.draw_delay);
    lemma_orders_of_erase_cmds(cells.reverse(), cfg.draw_delay);
    lemma_order_singleton(Command::Clear);
    lemma_order_singleton(Command::Sleep { ms: cfg.interval_delay });
    assert(draw_order(head) =~= Seq::<Cell>::empty());
    assert(erase_order(head) =~= Seq::<Cell>::empty());
    assert(draw_order(pause) =~= Seq::<Cell>::empty());
    assert(erase_order(pause) =~= Seq::<Cell>::empty());
    lemma_draw_order_concat(head, draws);
    lemma_draw_order_concat(head + draws, pause);
    lemma_draw_order_concat(head + draws + pause, tail);
    lemma_erase_order_concat(head, draws);
    lemma_erase_order_concat(head + draws, pause);
    lemma_erase_order_concat(head + draws + pause, tail);
    assert(draw_order(cycle_cmds(cells, colors, cfg)) =~= cells);
    if cfg.decay {
        assert(erase_order(cycle_cmds(cells, colors, cfg)) =~= cells.reverse());
    } else {
        assert(erase_order(cycle_cmds(cells, colors, cfg)) =~= Seq::<Cell>::empty());
    }
}

/// The erase phase of a cycle with decay enabled is the exact reverse of its
/// draw phase: same cells, same order reversed.
pub proof fn lemma_erase_reverses_draw(cells: Seq<Cell>, colors: Seq<Color>, cfg: Config)
    requires
        cfg.decay,
    ensures
        erase_order(cycle_cmds(cells, colors, cfg))
            == draw_order(cycle_cmds(cells, colors, cfg)).reverse(),
{
    lemma_cycle_orders(cells, colors, cfg);
}

/// A cycle with decay disabled erases nothing at all; its cells are removed
/// only by a later cycle's leading screen clear.  Every cycle — with decay or
/// without — begins by clearing the whole screen.
pub proof fn lemma_no_decay_erases_nothing(cells: Seq<Cell>, colors: Seq<Color>, cfg: Config)
    requires
        !cfg.decay,
    ensures
        erase_order(cycle_cmds(cells, colors, cfg)) == Seq::<Cell>::empty(),
        cycle_cmds(cells, colors, cfg)[0] == Command::Clear,
{
    lemma_cycle_orders(cells, colors, cfg);
    assert(cycle_cmds(cells, colors, cfg)[0] == Command::Clear);
}

/// Every cycle begins by clearing the whole screen.
pub proof fn lemma_cycle_starts_with_clear(cells: Seq<Cell>, colors: Seq<Color>, cfg: Config)
    ensures
        cycle_cmds(cells, colors, cfg).len() > 0,
        cycle_cmds(cells, colors, cfg)[0] == Command::Clear,
{
    assert(cycle_cmds(cells, colors, cfg)[0] == Command::Clear);
}

/// The draw phase of a valid cycle plan visits every cell of the grid exactly
/// once — and visits nothing outside the grid.
pub proof fn lemma_cycle_draws_grid_once(
    cfg: Config,
    cells: Seq<Cell>,
    colors: Seq<Color>,
    plan: Seq<Command>,
)
    requires
        is_cycle_plan(cfg, cells, colors, plan),
    ensures
        draw_order(plan).len() == cfg.width * cfg.height,
        forall|c: Cell|
            #[trigger] draw_order(plan).to_multiset().count(c) == if c.0 < cfg.width && c.1
                < cfg.height {
                1nat
            } else {
                0nat
            },
{
    broadcast use vstd::seq_lib::group_to_multiset_ensures;

    lemma_cycle_orders(cells, colors, cfg);
    lemma_grid_seq_counts(cfg.width as nat, cfg.height as nat);
    assert(draw_order(plan) == cells);
    assert(cells.to_multiset().len() == grid_seq(cfg.width as nat, cfg.height as nat)
        .to_multiset().len());
}

/// Every cycle the engine yields draws every cell of the grid exactly once —
/// and draws nothing outside the grid.
pub proof fn lemma_valid_cycle_draws_grid_once(cfg: Config, plan: Seq<Command>)
    requires
        is_valid_cycle(cfg, plan),
    ensures
        draw_order(plan).len() == cfg.width * cfg.height,
        forall|c: Cell|
            #[trigger] draw_order(plan).to_multiset().count(c) == if c.0 < cfg.width && c.1
                < cfg.height {
                1nat
            } else {
                0nat
            },
{
    let (cells, colors) = choose|cells: Seq<Cell>, colors: Seq<Color>|
        #[trigger] is_cycle_plan(cfg, cells, colors, plan);
    lemma_cycle_draws_grid_once(cfg, cells, colors, plan);
}

/// In every cycle the engine yields with decay enabled, the erase phase is
/// the exact reverse of the draw phase: same cells, same order reversed.
pub proof fn lemma_valid_cycle_erase_reverses_draw(cfg: Config, plan: Seq<Command>)
    requires
        is_valid_cycle(cfg, plan),
        cfg.decay,
    ensures
        erase_order(plan) == draw_order(plan).reverse(),
{
    let (cells, colors) = choose|cells: Seq<Cell>, colors: Seq<Color>|
        #[trigger] is_cycle_plan(cfg, cells, colors, plan);
    lemma_erase_reverses_draw(cells, colors, cfg);
}

/// Every cycle the engine yields with decay disabled erases nothing, and
/// begins by clearing the whole screen — so the cells of the cycle before it
/// are removed by this clear, not by any erase phase.
pub proof fn lemma_valid_cycle_no_decay(cfg: Config, plan: Seq<Command>)
    requires
        is_valid_cycle(cfg, plan),
        !cfg.decay,
    ensures
        erase_order(plan) == Seq::<Cell>::empty(),
        plan.len() > 0,
        plan[0] == Command::Clear,
{
    let (cells, colors) = choose|cells: Seq<Cell>, colors: Seq<Color>|
        #[trigger] is_cycle_plan(cfg, cells, colors, plan);
    lemma_no_decay_erases_nothing(cells, colors, cfg);
    lemma_cycle_starts_with_clear(cells, colors, cfg);
}

/// Builds the command sequence of one cycle over the given shuffled cell
/// order and per-cell colors.
pub fn build_cycle(cfg: &Config, cells: &Vec<Cell>, colors: &Vec<Color>) -> (plan: Vec<Command>)
    requires
        colors@.len() == cells@.len(),
    ensures
        plan@ == cycle_cmds(cells@, colors@, *cfg),
{
    let n = cells.len();
    let mut plan: Vec<Command> = Vec::new();
    plan.push(Command::Clear);
    let mut i: usize = 0;
    while i < n
        invariant
            i <= n,
            n == cells@.len(),
            colors@.len() == n,
            plan@ == seq![Command::Clear] + draw_cmds(
                cells@.take(i as int),
                colors@.take(i as int),
                cfg.draw_delay,
            ),
        decreases n - i,
    {
        let (x, y) = cells[i];
        plan.push(Command::Draw { x, y, color: colors[i] });
        plan.push(Command::Sleep { ms: cfg.draw_delay });
        proof {
            let pre_c = cells@.take(i as int);
            let pre_k = colors@.take(i as int);
            let now_c = cells@.take(i + 1);
            let now_k = colors@.take(i + 1);
            assert(now_c.drop_last() =~= pre_c);
            assert(now_k.drop_last() =~= pre_k);
            assert(now_c.last() == cells@[i as int]);
            assert(now_k.last() == colors@[i as int]);
            assert(plan@ =~= seq![Command::Clear] + draw_cmds(now_c, now_k, cfg.draw_delay));
        }
        i = i + 1;
    }
    assert(cells@.take(n as int) =~= cells@);
    assert(colors@.take(n as int) =~= colors@);
    plan.push(Command::Sleep { ms: cfg.interval_delay });
    if cfg.decay {
        let ghost base = plan@;
        let mut j: usize = 0;
        while j < n
            invariant
                j <= n,
                n == cells@.len(),
                plan@ == base + erase_cmds(cells@.reverse().take(j as int), cfg.draw_delay),
            decreases n - j,
        {
            let (x, y) = cells[n - 1 - j];
            plan.push(Command::Erase { x, y });
            plan.push(Command::Sleep { ms: cfg.draw_delay });
            proof {
                let rev = cells@.reverse();
                let pre = rev.take(j as int);
                let now = rev.take(j + 1);
                assert(now.drop_last() =~= pre);
                assert(now.last() == rev[j as int]);
                assert(rev[j as int] == cells@[n - 1 - j]);
                assert(plan@ =~= base + erase_cmds(now, cfg.draw_delay));
            }
            j = j + 1;
        }
        assert(cells@.reverse().take(n as int) =~= cells@.reverse());
    }
    assert(plan@ =~= cycle_cmds(cells@, colors@, *cfg));
    plan
}

} // verus!
