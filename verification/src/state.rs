use vstd::prelude::*;

use crate::hue::LightInfo;

verus! {

/// What the controller remembers of one light: its id, its name, and whether it was on.
pub struct Light {
    pub id: usize,
    pub name: String,
    pub on: bool,
}

/// The lights as they were the last time the controller switched everything off.
pub struct State {
    pub lights: Vec<Light>,
}

/// The record that `State::save` keeps of a light reported by the bridge.
pub open spec fn snapshot(light: LightInfo) -> Light {
    Light { id: light.id, name: light.name, on: light.on }
}

/// The saved lights after saving each of `lights` in turn, starting from `saved`
/// (each `State::save` appends one record).
pub open spec fn after_saves(saved: Seq<Light>, lights: Seq<LightInfo>) -> Seq<Light>
    decreases lights.len(),
{
    if lights.len() == 0 {
        saved
    } else {
        after_saves(saved, lights.drop_last()).push(snapshot(lights.last()))
    }
}

/// Clearing and then saving each of `lights` in turn leaves exactly one record
/// per light, in order: the record of `lights[i]` at position `i`.
pub proof fn lemma_clear_then_save_all(lights: Seq<LightInfo>)
    ensures
        after_saves(Seq::<Light>::empty(), lights).len() == lights.len(),
        forall|i: int|
            0 <= i < lights.len() ==> {
                &&& #[trigger] after_saves(Seq::<Light>::empty(), lights)[i] == snapshot(lights[i])
                &&& after_saves(Seq::<Light>::empty(), lights)[i].id == lights[i].id
                &&& after_saves(Seq::<Light>::empty(), lights)[i].name == lights[i].name
                &&& after_saves(Seq::<Light>::empty(), lights)[i].on == lights[i].on
            },
    decreases lights.len(),
{
    if lights.len() > 0 {
        lemma_clear_then_save_all(lights.drop_last());
        let before = after_saves(Seq::<Light>::empty(), lights.drop_last());
        assert forall|i: int| 0 <= i < lights.len() implies #[trigger] after_saves(
            Seq::<Light>::empty(),
            lights,
        )[i] == snapshot(lights[i]) by {
            if i < lights.len() - 1 {
                assert(before[i] == snapshot(lights.drop_last()[i]));
            }
        }
    }
}

impl State {
    /// A state that remembers no light.
    pub fn new() -> (s: State)
        ensures
            s.lights@ == Seq::<Light>::empty(),
    {
        State { lights: Vec::new() }
    }

    /// Remembers `light` after the lights already saved.
    pub fn save(&mut self, light: &LightInfo)
        ensures
            final(self).lights@ == old(self).lights@.push(snapshot(*light)),
    {
        let l = Light { id: light.id, name: light.name.clone(), on: light.on };
        self.lights.push(l);
    }

    /// Forgets every saved light.
    pub fn clear(&mut self)
        ensures
            final(self).lights@ == Seq::<Light>::empty(),
    {
        self.lights.clear();
    }
}

} // verus!
