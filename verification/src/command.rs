use vstd::prelude::*;

use crate::color::SmoothedColor;

verus! {

/// A light-control command, built fresh for one emitted cycle: the target
/// entity, the color to show, the derived brightness, and how long the
/// light should take to fade over. The carrier hands it to the hub as a
/// "light" / "turn_on" service call.
#[derive(Clone, Debug)]
pub struct Command {
    pub entity_id: String,
    pub red: u64,
    pub green: u64,
    pub blue: u64,
    pub brightness: u64,
    pub transition_ms: u64,
}

/// Build the command for the current smoothed color: its three channels
/// verbatim, brightness as the largest channel, and the configured
/// transition time.
pub fn build_command(light_entity: &String, color: &SmoothedColor, transition_ms: u64) -> (c:
    Command)
    ensures
        c.entity_id@ == light_entity@,
        c.red == color.r,
        c.green == color.g,
        c.blue == color.b,
        c.brightness == color.spec_brightness(),
        c.transition_ms == transition_ms,
{
    Command {
        entity_id: light_entity.clone(),
        red: color.r,
        green: color.g,
        blue: color.b,
        brightness: color.brightness(),
        transition_ms,
    }
}

} // verus!
