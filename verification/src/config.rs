//! The immutable configuration of one animation run.

use vstd::prelude::*;

use crate::color::{ColorPolicy, color_policy, spec_color_policy};

verus! {

/// Everything a run is configured with.  Built once at startup and never
/// changed afterwards.
#[derive(Clone, Copy, Debug, PartialEq, Eq, Structural)]
pub struct Config {
    /// Grid columns.
    pub width: usize,
    /// Grid rows.
    pub height: usize,
    /// Pause after drawing or erasing each cell, in milliseconds.
    pub draw_delay: u64,
    /// Pause between the draw phase and the decay phase, in milliseconds.
    pub interval_delay: u64,
    /// How each drawn cell's color is chosen.
    pub policy: ColorPolicy,
    /// Whether the decay (erase) phase runs at the end of each cycle.
    pub decay: bool,
    /// Number of cycles to run; 0 means run forever.
    pub cycles: usize,
}

impl Config {
    /// The grid fits the machine: the cell count and every doubled screen
    /// column fit in `usize`.
    pub open spec fn wf(self) -> bool {
        &&& self.width * self.height <= usize::MAX
        &&& 2 * self.width <= usize::MAX
    }

    /// Builds a run configuration from plain settings.  The color name is
    /// interpreted by `spec_color_policy`: `random` (any case) selects random
    /// per-cell colors, an unrecognized name falls back to green.  Returns
    /// `None` exactly when the grid is too large for the machine.
    pub fn new(
        width: usize,
        height: usize,
        draw_delay: u64,
        interval_delay: u64,
        color_name: &str,
        no_decay: bool,
        cycles: usize,
    ) -> (r: Option<Config>)
        ensures
            r is Some <==> (width * height <= usize::MAX && 2 * width <= usize::MAX),
            r is Some ==> r.unwrap() == (Config {
                width,
                height,
                draw_delay,
                interval_delay,
                policy: spec_color_policy(color_name@),
                decay: !no_decay,
                cycles,
            }),
            r is Some ==> r.unwrap().wf(),
    {
        if width > usize::MAX / 2 {
            proof {
                assert(2 * width > usize::MAX) by (nonlinear_arith)
                    requires
                        width > usize::MAX / 2,
                ;
            }
            return None;
        }
        proof {
            assert(2 * width <= usize::MAX) by (nonlinear_arith)
                requires
                    width <= usize::MAX / 2,
            ;
        }
        if height > 0 && width > usize::MAX / height {
            proof {
                assert(width * height > usize::MAX) by (nonlinear_arith)
                    requires
                        height > 0,
                        width > usize::MAX / height,
                ;
            }
            return None;
        }
        proof {
            if height > 0 {
                assert(width * height <= usize::MAX) by (nonlinear_arith)
                    requires
                        height > 0,
                        width <= usize::MAX / height,
                ;
            } else {
                assert(width * height == 0) by (nonlinear_arith)
                    requires
                        height == 0,
                ;
            }
        }
        Some(Config {
            width,
            height,
            draw_delay,
            interval_delay,
            policy: color_policy(color_name),
            decay: !no_decay,
            cycles,
        })
    }
}

/// The screen column a grid column is drawn at: columns are doubled because a
/// cell is two characters wide, which renders roughly square.
pub fn screen_col(cfg: &Config, x: usize) -> (col: usize)
    requires
        cfg.wf(),
        x < cfg.width,
    ensures
        col == 2 * x,
{
    proof {
        assert(2 * x <= 2 * cfg.width) by (nonlinear_arith)
            requires
                x < cfg.width,
        ;
    }
    2 * x
}

} // verus!
