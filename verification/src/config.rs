use vstd::prelude::*;
use vstd::arithmetic::div_mod::lemma_fundamental_div_mod;
use vstd::arithmetic::div_mod::lemma_small_mod;

verus! {

/// The settings the simulation is created from.  Grid dimensions are in
/// cells; `ants` is the number of agents; `steps_per_tick` is how many
/// simulated steps one rendered frame performs; `tick_rate` is the target
/// number of ticks per second.
#[derive(Clone, Copy, Debug, PartialEq, Eq, Structural)]
pub struct SimulationConfig {
    pub width: usize,
    pub height: usize,
    pub ants: usize,
    pub steps_per_tick: u32,
    pub tick_rate: u32,
}

/// Why a set of startup options was rejected.
#[derive(Clone, Copy, Debug, PartialEq, Eq, Structural)]
pub enum ConfigError {
    ZeroScreenWidth,
    ZeroScreenHeight,
    ZeroCellSize,
    ZeroAnts,
    ZeroTickRate,
    ZeroStepsPerTick,
    WidthNotDivisible,
    HeightNotDivisible,
    GridTooLarge,
}

impl SimulationConfig {
    /// A configuration the simulation accepts: positive dimensions and
    /// counts, and a cell total that fits the address space.
    pub open spec fn wf(self) -> bool {
        &&& self.width > 0
        &&& self.height > 0
        &&& self.ants > 0
        &&& self.steps_per_tick >= 1
        &&& self.tick_rate >= 1
        &&& self.width * self.height <= usize::MAX
    }
}

/// The configuration, or the error, that a set of startup options yields:
/// every option must be positive, the screen must split into whole cells on
/// both axes, and the resulting cell total must fit the address space.  The
/// checks are made in this order and the first failure names the error.
pub open spec fn spec_validate(
    screen_width: u32,
    screen_height: u32,
    cell_size: u32,
    ants: usize,
    tick_rate: u32,
    steps_per_tick: u32,
) -> Result<SimulationConfig, ConfigError> {
    if screen_width == 0 {
        Err(ConfigError::ZeroScreenWidth)
    } else if screen_height == 0 {
        Err(ConfigError::ZeroScreenHeight)
    } else if cell_size == 0 {
        Err(ConfigError::ZeroCellSize)
    } else if ants == 0 {
        Err(ConfigError::ZeroAnts)
    } else if tick_rate == 0 {
        Err(ConfigError::ZeroTickRate)
    } else if steps_per_tick == 0 {
        Err(ConfigError::ZeroStepsPerTick)
    } else if screen_width as int % cell_size as int != 0 {
        Err(ConfigError::WidthNotDivisible)
    } else if screen_height as int % cell_size as int != 0 {
        Err(ConfigError::HeightNotDivisible)
    } else if (screen_width / cell_size) as int * ((screen_height / cell_size) as int)
        > usize::MAX as int {
        Err(ConfigError::GridTooLarge)
    } else {
        Ok(
            SimulationConfig {
                width: (screen_width / cell_size) as usize,
                height: (screen_height / cell_size) as usize,
                ants,
                steps_per_tick,
                tick_rate,
            },
        )
    }
}

/// For positive `w`, the product `w * h` stays within `m` exactly when `h`
/// is at most `m / w`.
proof fn lemma_product_fits(w: int, h: int, m: int)
    requires
        w > 0,
        h >= 0,
        m >= 0,
    ensures
        (h <= m / w) <==> (w * h <= m),
{
    lemma_fundamental_div_mod(m, w);
    let q = m / w;
    let r = m % w;
    if h <= q {
        assert(w * h <= m) by (nonlinear_arith)
            requires
                h <= q,
                w > 0,
                m == w * q + r,
                r >= 0,
        ;
    }
    if w * h <= m {
        assert(h <= q) by (nonlinear_arith)
            requires
                w * h <= m,
                w > 0,
                m == w * q + r,
                0 <= r < w,
        ;
    }
}

/// Validates the startup options once and derives the grid dimensions from
/// the screen size, exactly as `spec_validate` says; an accepted
/// configuration is well formed.
pub fn validate(
    screen_width: u32,
    screen_height: u32,
    cell_size: u32,
    ants: usize,
    tick_rate: u32,
    steps_per_tick: u32,
) -> (r: Result<SimulationConfig, ConfigError>)
    ensures
        r == spec_validate(screen_width, screen_height, cell_size, ants, tick_rate, steps_per_tick),
        r matches Ok(c) ==> c.wf(),
{
    if screen_width == 0 {
        return Err(ConfigError::ZeroScreenWidth);
    }
    if screen_height == 0 {
        return Err(ConfigError::ZeroScreenHeight);
    }
    if cell_size == 0 {
        return Err(ConfigError::ZeroCellSize);
    }
    if ants == 0 {
        return Err(ConfigError::ZeroAnts);
    }
    if tick_rate == 0 {
        return Err(ConfigError::ZeroTickRate);
    }
    if steps_per_tick == 0 {
        return Err(ConfigError::ZeroStepsPerTick);
    }
    if screen_width % cell_size != 0 {
        return Err(ConfigError::WidthNotDivisible);
    }
    if screen_height % cell_size != 0 {
        return Err(ConfigError::HeightNotDivisible);
    }
    let width = (screen_width / cell_size) as usize;
    let height = (screen_height / cell_size) as usize;
    proof {
        if screen_width < cell_size {
            lemma_small_mod(screen_width as nat, cell_size as nat);
        }
        if screen_height < cell_size {
            lemma_small_mod(screen_height as nat, cell_size as nat);
        }
        lemma_fundamental_div_mod(screen_width as int, cell_size as int);
        lemma_fundamental_div_mod(screen_height as int, cell_size as int);
        assert(width >= 1 && height >= 1) by (nonlinear_arith)
            requires
                cell_size > 0,
                screen_width >= cell_size,
                screen_height >= cell_size,
                screen_width == cell_size * (screen_width as int / cell_size as int),
                screen_height == cell_size * (screen_height as int / cell_size as int),
                width == screen_width as int / cell_size as int,
                height == screen_height as int / cell_size as int,
        ;
        lemma_product_fits(width as int, height as int, usize::MAX as int);
    }
    if height > usize::MAX / width {
        return Err(ConfigError::GridTooLarge);
    }
    Ok(SimulationConfig { width, height, ants, steps_per_tick, tick_rate })
}

} // verus!
