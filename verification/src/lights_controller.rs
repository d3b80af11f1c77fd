use vstd::prelude::*;

use crate::flic::enums::ClickType;
use crate::flic::events::{Event, EventResult};
use crate::hue::LightInfo;
use crate::state::{snapshot, Light, State};

verus! {

/// What the controller does in answer to a button event.
#[derive(Debug, Clone, Copy, PartialEq, Eq, Structural)]
pub enum ControllerAction {
    /// A single click: toggle all lights.
    Click,
    /// A double click: set the scene of the light group.
    DoubleClick,
    /// A hold: only reported.
    Hold,
    /// Anything else, or a press reported too late: nothing.
    Ignore,
}

/// Presses reported with a time difference of this many seconds or more are stale.
pub const STALE_AFTER: i32 = 5;

/// The action for an event: a single or double click or a hold, reported with
/// a time difference under `STALE_AFTER`, gets its action; anything else is ignored.
pub open spec fn spec_event_action(r: EventResult) -> ControllerAction {
    match r {
        EventResult::Event(Event::ButtonSingleOrDoubleClickOrHold { click_type, time_diff, .. }) => {
            if time_diff < STALE_AFTER {
                match click_type {
                    ClickType::ButtonDoubleClick => ControllerAction::DoubleClick,
                    ClickType::ButtonSingleClick => ControllerAction::Click,
                    ClickType::ButtonHold => ControllerAction::Hold,
                    _ => ControllerAction::Ignore,
                }
            } else {
                ControllerAction::Ignore
            }
        },
        _ => ControllerAction::Ignore,
    }
}

/// Decides what the controller does with the event result read from the daemon.
pub fn event_action(event_result: &EventResult) -> (a: ControllerAction)
    ensures
        a == spec_event_action(*event_result),
{
    match event_result {
        EventResult::Event(
            Event::ButtonSingleOrDoubleClickOrHold { click_type, time_diff, .. },
        ) => {
            if *time_diff < STALE_AFTER {
                match click_type {
                    ClickType::ButtonDoubleClick => ControllerAction::DoubleClick,
                    ClickType::ButtonSingleClick => ControllerAction::Click,
                    ClickType::ButtonHold => ControllerAction::Hold,
                    _ => ControllerAction::Ignore,
                }
            } else {
                ControllerAction::Ignore
            }
        },
        _ => ControllerAction::Ignore,
    }
}

/// One switch that the controller asks the bridge to make.
#[derive(Debug, Clone, Copy, PartialEq, Eq, Structural)]
pub enum LightSwitch {
    TurnOn(usize),
    TurnOff(usize),
}

/// Whether some light among `lights` is on.
pub open spec fn any_on(lights: Seq<LightInfo>) -> bool {
    exists|i: int| 0 <= i < lights.len() && #[trigger] lights[i].on
}

/// The records that saving each of `lights` in turn appends.
pub open spec fn snapshots(lights: Seq<LightInfo>) -> Seq<Light> {
    lights.map_values(|l: LightInfo| snapshot(l))
}

/// A switch-off for each light of `lights` that is on, in order.
pub open spec fn switch_offs(lights: Seq<LightInfo>) -> Seq<LightSwitch>
    decreases lights.len(),
{
    if lights.len() == 0 {
        Seq::empty()
    } else {
        let last = lights.last();
        switch_offs(lights.drop_last()) + if last.on {
            seq![LightSwitch::TurnOff(last.id)]
        } else {
            Seq::empty()
        }
    }
}

/// A switch-on for each saved light that was on, in order.
pub open spec fn switch_ons(saved: Seq<Light>) -> Seq<LightSwitch>
    decreases saved.len(),
{
    if saved.len() == 0 {
        Seq::empty()
    } else {
        let last = saved.last();
        switch_ons(saved.drop_last()) + if last.on {
            seq![LightSwitch::TurnOn(last.id)]
        } else {
            Seq::empty()
        }
    }
}

/// What a toggle of all lights does, given the saved lights and the lights the
/// bridge reports: the saved lights afterwards and the switches to make.
/// With some light on, it remembers every light and switches off those that are on;
/// with every light off, it switches on the saved lights that were on.
pub open spec fn spec_toggle_all(saved: Seq<Light>, lights: Seq<LightInfo>) -> (Seq<Light>, Seq<LightSwitch>) {
    if any_on(lights) {
        (snapshots(lights), switch_offs(lights))
    } else {
        (saved, switch_ons(saved))
    }
}

/// The same switch in the other direction.
pub open spec fn reversed_switch(s: LightSwitch) -> LightSwitch {
    match s {
        LightSwitch::TurnOn(id) => LightSwitch::TurnOff(id),
        LightSwitch::TurnOff(id) => LightSwitch::TurnOn(id),
    }
}

/// The lights as the bridge reports them once every one of them is off.
pub open spec fn all_off(lights: Seq<LightInfo>) -> Seq<LightInfo> {
    lights.map_values(
        |l: LightInfo|
            LightInfo {
                id: l.id,
                name: l.name,
                on: false,
                bri: l.bri,
                hue: l.hue,
                sat: l.sat,
                ct: l.ct,
            },
    )
}

/// Toggles all lights: when some light is on, remembers every light in `state`
/// and returns a switch-off for each light that is on; when none is on, leaves
/// `state` as it is and returns a switch-on for each remembered light that was on.
pub fn toggle_all(state: &mut State, lights: &Vec<LightInfo>) -> (switches: Vec<LightSwitch>)
    ensures
        (final(state).lights@, switches@) == spec_toggle_all(old(state).lights@, lights@),
{
    let n = lights.len();
    let mut some_on = false;
    let mut i: usize = 0;
    while i < n
        invariant
            n == lights@.len(),
            i <= n,
            some_on <==> exists|j: int| 0 <= j < i && #[trigger] lights@[j].on,
        decreases n - i,
    {
        if lights[i].on {
            some_on = true;
        }
        i = i + 1;
    }
    let mut switches: Vec<LightSwitch> = Vec::new();
    if some_on {
        state.clear();
        let mut k: usize = 0;
        while k < n
            invariant
                n == lights@.len(),
                k <= n,
                state.lights@ == snapshots(lights@.take(k as int)),
                switches@ == switch_offs(lights@.take(k as int)),
            decreases n - k,
        {
            let l = &lights[k];
            proof {
                assert(lights@.take(k + 1).drop_last() =~= lights@.take(k as int));
            }
            state.save(l);
            if l.on {
                switches.push(LightSwitch::TurnOff(l.id));
            }
            assert(state.lights@ =~= snapshots(lights@.take(k + 1)));
            k = k + 1;
        }
        assert(lights@.take(n as int) =~= lights@);
    } else {
        let m = state.lights.len();
        let mut k: usize = 0;
        while k < m
            invariant
                m == state.lights@.len(),
                k <= m,
                switches@ == switch_ons(state.lights@.take(k as int)),
            decreases m - k,
        {
            proof {
                assert(state.lights@.take(k + 1).drop_last() =~= state.lights@.take(k as int));
            }
            if state.lights[k].on {
                switches.push(LightSwitch::TurnOn(state.lights[k].id));
            }
            k = k + 1;
        }
        assert(state.lights@.take(m as int) =~= state.lights@);
    }
    switches
}

proof fn lemma_round_trip_switches(lights: Seq<LightInfo>)
    ensures
        switch_ons(snapshots(lights)) == switch_offs(lights).map_values(
            |s: LightSwitch| reversed_switch(s),
        ),
    decreases lights.len(),
{
    if lights.len() > 0 {
        lemma_round_trip_switches(lights.drop_last());
        assert(snapshots(lights).drop_last() =~= snapshots(lights.drop_last()));
        assert(switch_ons(snapshots(lights)) =~= switch_offs(lights).map_values(
            |s: LightSwitch| reversed_switch(s),
        ));
    } else {
        assert(switch_ons(snapshots(lights)) =~= switch_offs(lights).map_values(
            |s: LightSwitch| reversed_switch(s),
        ));
    }
}

/// Toggling twice restores the lights: when some light is on, a first toggle
/// switches off the lights that are on and remembers them all; once the bridge
/// reports those lights all off, a second toggle keeps what was remembered and
/// switches on exactly the lights that the first switched off, in the same order.
pub proof fn lemma_toggle_twice_restores(saved: Seq<Light>, lights: Seq<LightInfo>)
    requires
        any_on(lights),
    ensures
        ({
            let (remembered, first) = spec_toggle_all(saved, lights);
            let (kept, second) = spec_toggle_all(remembered, all_off(lights));
            &&& kept == remembered
            &&& second == first.map_values(|s: LightSwitch| reversed_switch(s))
        }),
{
    let off = all_off(lights);
    assert(!any_on(off)) by {
        if any_on(off) {
            let i = choose|i: int| 0 <= i < off.len() && #[trigger] off[i].on;
            assert(off[i].on == false);
        }
    }
    lemma_round_trip_switches(lights);
}

proof fn lemma_switch_offs_are_the_lights_on(lights: Seq<LightInfo>)
    ensures
        switch_offs(lights) == lights.filter(|l: LightInfo| l.on).map_values(
            |l: LightInfo| LightSwitch::TurnOff(l.id),
        ),
    decreases lights.len(),
{
    reveal_with_fuel(Seq::<_>::filter, 1);
    if lights.len() > 0 {
        lemma_switch_offs_are_the_lights_on(lights.drop_last());
        let on = lights.filter(|l: LightInfo| l.on);
        let before = lights.drop_last().filter(|l: LightInfo| l.on);
        if lights.last().on {
            assert(on == before.push(lights.last()));
        } else {
            assert(on == before);
        }
        assert(switch_offs(lights) =~= on.map_values(|l: LightInfo| LightSwitch::TurnOff(l.id)));
    } else {
        assert(switch_offs(lights) =~= lights.filter(|l: LightInfo| l.on).map_values(
            |l: LightInfo| LightSwitch::TurnOff(l.id),
        ));
    }
}

proof fn lemma_switch_ons_are_the_saved_lights_on(saved: Seq<Light>)
    ensures
        switch_ons(saved) == saved.filter(|l: Light| l.on).map_values(
            |l: Light| LightSwitch::TurnOn(l.id),
        ),
    decreases saved.len(),
{
    reveal_with_fuel(Seq::<_>::filter, 1);
    if saved.len() > 0 {
        lemma_switch_ons_are_the_saved_lights_on(saved.drop_last());
        let on = saved.filter(|l: Light| l.on);
        let before = saved.drop_last().filter(|l: Light| l.on);
        if saved.last().on {
            assert(on == before.push(saved.last()));
        } else {
            assert(on == before);
        }
        assert(switch_ons(saved) =~= on.map_values(|l: Light| LightSwitch::TurnOn(l.id)));
    } else {
        assert(switch_ons(saved) =~= saved.filter(|l: Light| l.on).map_values(
            |l: Light| LightSwitch::TurnOn(l.id),
        ));
    }
}

/// Toggling while some reported light is on switches off exactly the reported
/// lights that are on, in the order reported, whatever their ids; and it
/// remembers every reported light, in order, with its id, name and power state.
pub proof fn lemma_toggle_switches_off_the_lights_on(saved: Seq<Light>, lights: Seq<LightInfo>)
    requires
        any_on(lights),
    ensures
        ({
            let (remembered, switches) = spec_toggle_all(saved, lights);
            &&& switches == lights.filter(|l: LightInfo| l.on).map_values(
                |l: LightInfo| LightSwitch::TurnOff(l.id),
            )
            &&& remembered.len() == lights.len()
            &&& forall|i: int|
                0 <= i < lights.len() ==> {
                    &&& #[trigger] remembered[i].id == lights[i].id
                    &&& remembered[i].name == lights[i].name
                    &&& remembered[i].on == lights[i].on
                }
        }),
{
    lemma_switch_offs_are_the_lights_on(lights);
}

/// Toggling while every reported light is off switches on exactly the
/// remembered lights that were on, in the order remembered, whatever their ids,
/// and keeps what is remembered.
pub proof fn lemma_toggle_switches_on_the_saved_lights(saved: Seq<Light>, lights: Seq<LightInfo>)
    requires
        !any_on(lights),
    ensures
        ({
            let (remembered, switches) = spec_toggle_all(saved, lights);
            &&& switches == saved.filter(|l: Light| l.on).map_values(
                |l: Light| LightSwitch::TurnOn(l.id),
            )
            &&& remembered == saved
        }),
{
    lemma_switch_ons_are_the_saved_lights_on(saved);
}

/// A button report gets its action from its click type and time difference
/// alone, whatever its connection id and whether it was queued: a single click,
/// double click or hold reported with a time difference under `STALE_AFTER`
/// gives `Click`, `DoubleClick` or `Hold`; any other report, and anything that
/// is not a report, gives `Ignore`.
pub proof fn lemma_event_action_by_click(
    conn_id: u32,
    click_type: ClickType,
    was_queued: bool,
    time_diff: i32,
)
    ensures
        ({
            let a = spec_event_action(
                EventResult::Event(
                    Event::ButtonSingleOrDoubleClickOrHold {
                        conn_id,
                        click_type,
                        was_queued,
                        time_diff,
                    },
                ),
            );
            &&& (time_diff < 5 && click_type == ClickType::ButtonSingleClick) ==> a
                == ControllerAction::Click
            &&& (time_diff < 5 && click_type == ClickType::ButtonDoubleClick) ==> a
                == ControllerAction::DoubleClick
            &&& (time_diff < 5 && click_type == ClickType::ButtonHold) ==> a
                == ControllerAction::Hold
            &&& (time_diff >= 5 || (click_type != ClickType::ButtonSingleClick && click_type
                != ClickType::ButtonDoubleClick && click_type != ClickType::ButtonHold)) ==> a
                == ControllerAction::Ignore
        }),
        spec_event_action(EventResult::Event(Event::NoOp)) == ControllerAction::Ignore,
        spec_event_action(EventResult::NoEvent) == ControllerAction::Ignore,
{
}

/// Toggling while every reported light is off leaves the remembered lights as they are.
pub proof fn lemma_toggle_on_keeps_state(saved: Seq<Light>, lights: Seq<LightInfo>)
    requires
        !any_on(lights),
    ensures
        spec_toggle_all(saved, lights).0 == saved,
{
}

} // verus!
