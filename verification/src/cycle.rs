use vstd::arithmetic::div_mod::lemma_fundamental_div_mod;
use vstd::prelude::*;

use crate::aggregate::aggregate;
use crate::aggregate::spec_avg_channel;
use crate::color::Frame;
use crate::color::SmoothedColor;
use crate::command::Command;
use crate::command::build_command;
use crate::smooth::FACTOR_SCALE;
use crate::smooth::smooth_color;
use crate::smooth::spec_smooth_channel;

verus! {

/// How long the loop backs off before re-checking a disarmed gate.
pub const IDLE_BACKOFF_MS: u64 = 500;

/// How long the loop cools down after a transient capture failure.
pub const CAPTURE_COOLDOWN_MS: u64 = 100;

/// Why a configuration was rejected at startup. Each of these is fatal:
/// running with a degenerate sampling scheme would divide by zero or
/// overflow mid-loop.
#[derive(Clone, Copy, PartialEq, Eq, Structural, Debug)]
pub enum ConfigError {
    /// The pixel stride was zero; the sampling scheme divides by it.
    ZeroStride,
    /// The monitor's pixel count is too large for the summing scheme.
    FrameTooLarge,
    /// The stride exceeds the pixel count, leaving a zero sample size.
    EmptySample,
}

/// Everything the loop needs each cycle, fixed for the process lifetime:
/// the two entity identifiers, the timing parameters, the sampling stride,
/// the fixed-point smoothing factor, and the monitor geometry with the
/// sample size derived from it once at startup.
#[derive(Clone, Debug)]
pub struct Config {
    pub light_entity: String,
    pub trigger_entity: String,
    pub transition_ms: u64,
    pub grab_interval_ms: u64,
    pub skip_pixels: u64,
    pub smoothing_factor: u64,
    pub width: u32,
    pub height: u32,
    pub size: u64,
}

impl Config {
    /// A validated configuration: stride at least one, the sample size the
    /// stride's whole share of the pixel count and itself at least one, the
    /// smoothing factor in range, and the frame small enough that channel
    /// sums cannot overflow.
    pub open spec fn wf(self) -> bool {
        &&& 1 <= self.skip_pixels
        &&& self.size == (self.width as int * self.height as int) / (self.skip_pixels as int)
        &&& 1 <= self.size
        &&& self.smoothing_factor <= FACTOR_SCALE
        &&& 255 * (self.width as int * self.height as int) <= u64::MAX
    }

    /// Startup validation. Accepts exactly the configurations under which
    /// the per-cycle arithmetic is defined: a nonzero stride, a frame whose
    /// channel sums fit the accumulators, and a nonzero sample size; each
    /// rejection names the first condition violated.
    pub fn validate(
        light_entity: String,
        trigger_entity: String,
        transition_ms: u64,
        grab_interval_ms: u64,
        skip_pixels: u64,
        smoothing_factor: u64,
        width: u32,
        height: u32,
    ) -> (r: Result<Config, ConfigError>)
        requires
            smoothing_factor <= FACTOR_SCALE,
        ensures
            ({
                let area = width as int * height as int;
                &&& (r matches Err(e) && e == ConfigError::ZeroStride <==> skip_pixels == 0)
                &&& (r matches Err(e) && e == ConfigError::FrameTooLarge <==> skip_pixels >= 1
                    && 255 * area > u64::MAX)
                &&& (r matches Err(e) && e == ConfigError::EmptySample <==> skip_pixels >= 1
                    && 255 * area <= u64::MAX && area / (skip_pixels as int) == 0)
                &&& (r is Ok <==> skip_pixels >= 1 && 255 * area <= u64::MAX && area / (
                skip_pixels as int) >= 1)
            }),
            r matches Ok(cfg) ==> cfg.wf() && cfg.light_entity@ == light_entity@
                && cfg.trigger_entity@ == trigger_entity@ && cfg.transition_ms == transition_ms
                && cfg.grab_interval_ms == grab_interval_ms && cfg.skip_pixels == skip_pixels
                && cfg.smoothing_factor == smoothing_factor && cfg.width == width && cfg.height
                == height && cfg.size == (width as int * height as int) / (skip_pixels as int),
    {
        if skip_pixels == 0 {
            return Err(ConfigError::ZeroStride);
        }
        proof {
            assert(width * height <= u32::MAX as int * u32::MAX as int) by (nonlinear_arith)
                requires
                    width <= u32::MAX as int,
                    height <= u32::MAX as int,
            ;
            lemma_fundamental_div_mod(u64::MAX as int, 255);
        }
        let area: u64 = (width as u64) * (height as u64);
        if area > u64::MAX / 255 {
            return Err(ConfigError::FrameTooLarge);
        }
        let size: u64 = area / skip_pixels;
        if size == 0 {
            return Err(ConfigError::EmptySample);
        }
        Ok(
            Config {
                light_entity,
                trigger_entity,
                transition_ms,
                grab_interval_ms,
                skip_pixels,
                smoothing_factor,
                width,
                height,
                size,
            },
        )
    }
}

/// What one capture attempt produced: a frame, or a transient failure that
/// the loop absorbs without changing state.
#[derive(Debug)]
pub enum CaptureOutcome {
    Captured(Frame),
    Failed,
}

/// What the loop does with the rest of a cycle. At most one command is ever
/// emitted per cycle, and only from an armed cycle with a captured frame.
#[derive(Debug)]
pub enum CycleAction {
    /// Gate disarmed: sleep `IDLE_BACKOFF_MS`, touch nothing.
    IdleSleep,
    /// Capture failed: sleep `CAPTURE_COOLDOWN_MS`, touch nothing.
    Cooldown,
    /// Send this command to the hub, then sleep the configured interval.
    Emit(Command),
}

/// The numeric state the loop carries across cycles: only the smoothed
/// color. It persists through disarmed stretches, giving continuity when
/// the shared gate re-arms, and resets to black only with the process.
#[derive(Clone, Copy, PartialEq, Eq, Structural, Debug)]
pub struct LoopState {
    pub smoothed: SmoothedColor,
}

impl LoopState {
    /// The state a fresh process starts from: smoothed color black.
    pub fn init() -> (s: LoopState)
        ensures
            s.smoothed.r == 0 && s.smoothed.g == 0 && s.smoothed.b == 0,
    {
        LoopState { smoothed: SmoothedColor::black() }
    }
}

/// One cycle of the sampling loop, after the carrier has read the shared gate and
/// — only when it was armed — attempted exactly one capture. Disarmed
/// cycles and failed captures leave the state untouched and emit nothing;
/// an armed cycle with a frame aggregates it, folds it into the smoothed
/// color, and yields the one command to emit.
pub fn run_cycle(
    state: &mut LoopState,
    cfg: &Config,
    gate: bool,
    capture: Option<CaptureOutcome>,
) -> (a: CycleAction)
    requires
        cfg.wf(),
        gate <==> capture is Some,
        capture matches Some(CaptureOutcome::Captured(f)) ==> f.wf() && f.width == cfg.width
            && f.height == cfg.height,
    ensures
        !gate ==> a is IdleSleep && *final(state) == *old(state),
        capture matches Some(CaptureOutcome::Failed) ==> a is Cooldown && *final(state) == *old(
            state,
        ),
        capture matches Some(CaptureOutcome::Captured(f)) ==> {
            let stride = cfg.skip_pixels as int;
            let size = cfg.size as int;
            let factor = cfg.smoothing_factor as int;
            let prev = old(state).smoothed;
            let next = final(state).smoothed;
            &&& next.r as int == spec_smooth_channel(
                prev.r as int,
                spec_avg_channel(f.reds(), stride, size),
                factor,
            )
            &&& next.g as int == spec_smooth_channel(
                prev.g as int,
                spec_avg_channel(f.greens(), stride, size),
                factor,
            )
            &&& next.b as int == spec_smooth_channel(
                prev.b as int,
                spec_avg_channel(f.blues(), stride, size),
                factor,
            )
            &&& a matches CycleAction::Emit(cmd) && cmd.entity_id@ == cfg.light_entity@
                && cmd.red == next.r && cmd.green == next.g && cmd.blue == next.b
                && cmd.brightness == next.spec_brightness() && cmd.transition_ms
                == cfg.transition_ms
        },
{
    if !gate {
        return CycleAction::IdleSleep;
    }
    match capture {
        None => CycleAction::IdleSleep,  // ruled out by the contract: armed implies a capture
        Some(CaptureOutcome::Failed) => CycleAction::Cooldown,
        Some(CaptureOutcome::Captured(frame)) => {
            proof {
                assert(255 * frame.pixels@.len() <= u64::MAX);
            }
            let agg = aggregate(&frame, cfg.skip_pixels, cfg.size);
            let sm = smooth_color(&state.smoothed, &agg, cfg.smoothing_factor);
            state.smoothed = sm;
            let cmd = build_command(&cfg.light_entity, &sm, cfg.transition_ms);
            CycleAction::Emit(cmd)
        },
    }
}

} // verus!
