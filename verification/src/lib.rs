//! Verified core of a display-to-light color sync loop.
//!
//! The library holds the logic that decides what a synchronizer does each
//! cycle: averaging a captured frame's pixels at a configurable stride,
//! exponentially smoothing the averaged color across cycles, deriving a
//! brightness, building the light-control command, and arming or disarming
//! the loop from device state-change events. The surrounding process (screen
//! capture, the hub connection, timers) drives these functions and performs
//! the I/O they decide on.

mod aggregate;
mod color;
mod command;
mod cycle;
mod gate;
mod smooth;

pub use command::Command;
pub use command::build_command;

pub use cycle::CAPTURE_COOLDOWN_MS;
pub use cycle::CaptureOutcome;
pub use cycle::Config;
pub use cycle::ConfigError;
pub use cycle::CycleAction;
pub use cycle::IDLE_BACKOFF_MS;
pub use cycle::LoopState;
pub use cycle::run_cycle;

pub use gate::StateEvent;
pub use gate::gate_update;
pub use gate::spec_apply_update;
pub use gate::spec_gate_after;

pub use aggregate::aggregate;
pub use aggregate::lemma_aggregate_sampled_uniform;
pub use aggregate::lemma_aggregate_uniform;
pub use aggregate::sampled_sum;
pub use aggregate::spec_avg_channel;

pub use smooth::FACTOR_SCALE;
pub use smooth::lemma_smoother_monotone_cycles;
pub use smooth::lemma_smoother_moves_toward;
pub use smooth::spec_smooth_iter;
pub use smooth::smooth_channel;
pub use smooth::smooth_color;
pub use smooth::spec_smooth_channel;

pub use color::AggregatedColor;
pub use color::Frame;
pub use color::Pixel;
pub use color::SmoothedColor;
