use vstd::prelude::*;

verus! {

/// A device state-change event as the listener sees it: which entity
/// changed, and the newly reported state string, when one was reported.
#[derive(Clone, Debug)]
pub struct StateEvent {
    pub entity_id: String,
    pub new_state: Option<String>,
}

/// What the shared gate holds after an event arrives while it holds
/// `current`: an event for another entity leaves it alone; an event for the
/// trigger entity arms it exactly when the new state reads "on" (any other
/// state, or an absent one, disarms it).
pub open spec fn spec_gate_after(ev: StateEvent, trigger: Seq<char>, current: bool) -> bool {
    if ev.entity_id@ == trigger {
        ev.new_state matches Some(s) && s@ == "on"@
    } else {
        current
    }
}

/// Fold an update decision into the shared gate's current value: `None`
/// means the event was not for the trigger entity and the shared gate keeps
/// its value.
pub open spec fn spec_apply_update(upd: Option<bool>, current: bool) -> bool {
    match upd {
        Some(v) => v,
        None => current,
    }
}

/// The listener's decision for one received event. `None` asks for no write
/// to the shared gate at all (the event concerned another entity);
/// `Some(v)` overwrites the shared gate with `v`. Folded into any current
/// value, the decision realizes exactly `spec_gate_after`.
pub fn gate_update(ev: &StateEvent, trigger: &String) -> (upd: Option<bool>)
    ensures
        upd is None <==> ev.entity_id@ != trigger@,
        upd matches Some(v) ==> v == (ev.new_state matches Some(s) && s@ == "on"@),
        forall|current: bool|
            spec_apply_update(upd, current) == spec_gate_after(*ev, trigger@, current),
{
    if !(ev.entity_id == *trigger) {
        return None;
    }
    let armed: bool = match &ev.new_state {
        Some(s) => {
            let on: String = "on".to_owned();
            *s == on
        },
        None => false,
    };
    Some(armed)
}

} // verus!
