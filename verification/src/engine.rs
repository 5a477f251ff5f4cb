//! The animation engine: cycle accounting and cycle-plan generation.
//!
//! The engine owns the run configuration and the count of cycles still to
//! run.  Each call to `next_cycle` either yields the full command sequence of
//! the next cycle — built over a freshly shuffled grid order and per-cell
//! colors drawn under the run's color policy — or reports that the configured
//! number of cycles has completed.  With a cycle count of zero the engine
//! yields forever.

use vstd::prelude::*;

use crate::color::{Color, ColorPolicy, get_random_color};
use crate::config::Config;
use crate::grid::{Cell, grid_seq, row_major_cells};
use crate::plan::{Command, build_cycle, color_matches, colors_match, is_cycle_plan, is_valid_cycle};
use crate::rng::shuffle_cells;

verus! {

/// Builds the cell order of one cycle: every cell of the `width x height`
/// grid exactly once, in an order shuffled uniformly by `rng`.
pub fn make_cells(width: usize, height: usize, rng: &mut rand::rngs::StdRng) -> (cells: Vec<Cell>)
    ensures
        cells@.to_multiset() == grid_seq(width as nat, height as nat).to_multiset(),
{
    let mut cells = row_major_cells(width, height);
    shuffle_cells(&mut cells, rng);
    cells
}

/// Draws the per-cell colors of one cycle: one color per cell, each chosen
/// under the run's color policy — the fixed color as it is, a fresh uniform
/// palette draw from `rng` per cell under the random policy.
pub fn make_colors(policy: ColorPolicy, n: usize, rng: &mut rand::rngs::StdRng) -> (colors: Vec<
    Color,
>)
    ensures
        colors@.len() == n,
        colors_match(policy, colors@),
{
    let mut colors: Vec<Color> = Vec::new();
    let mut i: usize = 0;
    while i < n
        invariant
            i <= n,
            colors@.len() == i,
            colors_match(policy, colors@),
        decreases n - i,
    {
        let c = match policy {
            ColorPolicy::Random => get_random_color(rng),
            ColorPolicy::Fixed(k) => k,
        };
        assert(color_matches(policy, c));
        colors.push(c);
        i = i + 1;
    }
    colors
}

/// The animation engine of one run.
#[derive(Clone, Copy, Debug, PartialEq, Eq, Structural)]
pub struct Engine {
    /// The run's configuration, immutable for the whole run.
    pub config: Config,
    /// Cycles still to run; meaningful only for a finite cycle count.
    pub remaining: usize,
}

impl Engine {
    /// The engine still yields cycles: always with an infinite (zero) cycle
    /// count, and while cycles remain with a finite one.
    pub open spec fn yields(self) -> bool {
        self.config.cycles == 0 || self.remaining > 0
    }

    /// Starts a run: the full configured number of cycles is still to come.
    pub fn new(config: Config) -> (e: Engine)
        ensures
            e.config == config,
            e.remaining == config.cycles,
    {
        Engine { config, remaining: config.cycles }
    }

    /// Yields the command sequence of the next cycle, or `None` once the
    /// configured finite number of cycles has completed.  Every yielded plan
    /// is a valid cycle plan: its cell order is a permutation of the grid and
    /// its colors follow the run's color policy.
    pub fn next_cycle(&mut self, rng: &mut rand::rngs::StdRng) -> (r: Option<Vec<Command>>)
        requires
            old(self).config.wf(),
        ensures
            final(self).config == old(self).config,
            r is Some <==> old(self).yields(),
            r is None ==> *final(self) == *old(self),
            old(self).config.cycles == 0 ==> final(self).remaining == old(self).remaining,
            old(self).config.cycles > 0 && old(self).remaining > 0 ==> final(self).remaining
                == old(self).remaining - 1,
            r matches Some(plan) ==> is_valid_cycle(old(self).config, plan@),
    {
        if self.config.cycles > 0 && self.remaining == 0 {
            return None;
        }
        let cfg = self.config;
        let cells = make_cells(cfg.width, cfg.height, rng);
        let colors = make_colors(cfg.policy, cells.len(), rng);
        let plan = build_cycle(&cfg, &cells, &colors);
        proof {
            assert(is_cycle_plan(old(self).config, cells@, colors@, plan@));
            assert(is_valid_cycle(old(self).config, plan@));
        }
        if self.config.cycles > 0 {
            self.remaining = self.remaining - 1;
        }
        Some(plan)
    }
}

/// An engine that has completed `k` of its `N > 0` configured cycles yields
/// another cycle exactly when `k < N`: a finite run performs exactly `N`
/// cycles and then stops.
pub proof fn lemma_finite_run_is_exact(e: Engine, k: nat)
    requires
        e.config.cycles > 0,
        k <= e.config.cycles,
        e.remaining == e.config.cycles - k,
    ensures
        e.yields() <==> k < e.config.cycles,
{
}

/// An engine with a cycle count of zero never stops on its own: whatever it
/// has already run, it yields another cycle.
pub proof fn lemma_infinite_run_never_stops(e: Engine)
    requires
        e.config.cycles == 0,
    ensures
        e.yields(),
{
}

} // verus!
