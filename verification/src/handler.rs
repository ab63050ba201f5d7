//! The handler for light-action events.
//!
//! The handler owns the entity registry: an arena of lights with unique
//! names.  Given a light-action event it resolves the target by name;
//! a miss is absorbed as a silent no-op by design, a hit builds the
//! command for the requested verb and executes it.

use vstd::prelude::*;
use crate::command::{LightOffCommand, LightOnCommand, Remote, arena_switched};
use crate::event::{Event, EventTypeId, LightAction, LightActionType};
use crate::light::Light;
use crate::mediator::Handler;
use crate::observer::Subject;

verus! {

/// True when some light carries the name `name`.
pub open spec fn has_light(lights: Seq<Light>, name: Seq<char>) -> bool {
    exists|i: int| 0 <= i < lights.len() && lights[i].subject_id() == name
}

/// The index of the light named `name`; meaningful only when
/// `has_light` holds and names are unique.
pub open spec fn light_index(lights: Seq<Light>, name: Seq<char>) -> int {
    choose|i: int| 0 <= i < lights.len() && lights[i].subject_id() == name
}

/// Arena well-formedness: names are unique and every light is
/// well-formed.
pub open spec fn lights_wf(lights: Seq<Light>) -> bool {
    &&& forall|i: int, j: int|
        0 <= i < j < lights.len() ==> lights[i].subject_id() != lights[j].subject_id()
    &&& forall|i: int| 0 <= i < lights.len() ==> (#[trigger] lights[i]).subject_wf()
}

/// The arena after adding `light`: the light under an existing name is
/// replaced in place, a fresh name is appended.
pub open spec fn add_light_post(lights: Seq<Light>, light: Light) -> Seq<Light> {
    if has_light(lights, light.subject_id()) {
        lights.update(light_index(lights, light.subject_id()), light)
    } else {
        lights.push(light)
    }
}

/// How dispatching one light action transforms the arena: the named
/// light, when present, is switched to the requested state and every
/// other light is untouched; a miss leaves the arena unchanged.
pub open spec fn dispatch_rel(pre: Seq<Light>, action: LightAction, post: Seq<Light>) -> bool {
    if has_light(pre, action.light_name@) {
        arena_switched(
            pre,
            post,
            light_index(pre, action.light_name@),
            action.spec_desired_state(),
        )
    } else {
        post == pre
    }
}

/// Any index whose light carries `name` is the unique one
/// `light_index` picks, provided the names are unique.
proof fn lemma_light_index_is(lights: Seq<Light>, name: Seq<char>, i: int)
    requires
        forall|a: int, b: int|
            0 <= a < b < lights.len() ==> lights[a].subject_id() != lights[b].subject_id(),
        0 <= i < lights.len(),
        lights[i].subject_id() == name,
    ensures
        has_light(lights, name),
        light_index(lights, name) == i,
{
    assert(has_light(lights, name));
    let j = light_index(lights, name);
    if i < j {
        assert(lights[i].subject_id() != lights[j].subject_id());
    } else if j < i {
        assert(lights[j].subject_id() != lights[i].subject_id());
    }
}

/// Handles `LightAction` events against the arena of lights it owns.
pub struct LightActionHandler {
    lights: Vec<Light>,
}

impl LightActionHandler {
    /// The arena of lights this handler acts on.
    pub closed spec fn spec_lights(&self) -> Seq<Light> {
        self.lights@
    }

    /// A fresh handler owning no lights.
    pub fn new() -> (h: Self)
        ensures
            h.spec_lights() == Seq::<Light>::empty(),
            h.handler_wf(),
    {
        LightActionHandler { lights: Vec::new() }
    }

    /// Moves `light` into the arena, replacing any light of the same
    /// name.
    pub fn add_light(&mut self, light: Light)
        requires
            old(self).handler_wf(),
            light.subject_wf(),
        ensures
            final(self).handler_wf(),
            final(self).spec_lights() == add_light_post(old(self).spec_lights(), light),
    {
        let idx_opt = self.find_light(light.name());
        match idx_opt {
            Some(i) => {
                proof {
                    lemma_light_index_is(self.spec_lights(), light.subject_id(), i as int);
                }
                self.lights[i] = light;
            },
            None => {
                self.lights.push(light);
            },
        }
    }

    /// The index of the light named `name`, if one exists.
    fn find_light(&self, name: &String) -> (r: Option<usize>)
        ensures
            match r {
                Some(i) => i < self.spec_lights().len() && self.spec_lights()[
                    i as int
                ].subject_id() == name@,
                None => forall|j: int|
                    0 <= j < self.spec_lights().len() ==> (#[trigger] self.spec_lights()[
                        j
                    ]).subject_id() != name@,
            },
    {
        let n = self.lights.len();
        let mut i: usize = 0;
        while i < n
            invariant
                i <= n,
                n == self.lights@.len(),
                forall|j: int|
                    0 <= j < i ==> (#[trigger] self.lights@[j]).subject_id() != name@,
            decreases n - i,
        {
            if *self.lights[i].name() == *name {
                return Some(i);
            }
            i = i + 1;
        }
        None
    }

    /// How many lights the arena holds.
    pub fn light_count(&self) -> (n: usize)
        ensures
            n == self.spec_lights().len(),
    {
        self.lights.len()
    }

    /// The light named `name`, if any.
    pub fn get_light(&self, name: &String) -> (r: Option<&Light>)
        requires
            self.handler_wf(),
        ensures
            match r {
                Some(l) => {
                    &&& has_light(self.spec_lights(), name@)
                    &&& *l == self.spec_lights()[light_index(self.spec_lights(), name@)]
                },
                None => !has_light(self.spec_lights(), name@),
            },
    {
        let idx_opt = self.find_light(name);
        match idx_opt {
            Some(i) => {
                proof {
                    lemma_light_index_is(self.spec_lights(), name@, i as int);
                }
                Some(&self.lights[i])
            },
            None => None,
        }
    }
}

impl Handler for LightActionHandler {
    open spec fn declared_type(&self) -> EventTypeId {
        EventTypeId::LightAction
    }

    open spec fn handler_wf(&self) -> bool {
        lights_wf(self.spec_lights())
    }

    open spec fn handle_rel(pre: Self, event: Event, post: Self) -> bool {
        match event {
            Event::Light(action) => dispatch_rel(pre.spec_lights(), action, post.spec_lights()),
        }
    }

    fn handles_type(&self) -> (t: EventTypeId) {
        EventTypeId::LightAction
    }

    fn handle_event(&mut self, event: &Event) {
        match event {
            Event::Light(action) => {
                let idx_opt = self.find_light(&action.light_name);
                match idx_opt {
                    Some(i) => {
                        proof {
                            lemma_light_index_is(
                                self.spec_lights(),
                                action.light_name@,
                                i as int,
                            );
                        }
                        match action.action_type {
                            LightActionType::On => {
                                let mut remote = Remote::new(LightOnCommand::new(i));
                                remote.execute(&mut self.lights);
                            },
                            LightActionType::Off => {
                                let mut remote = Remote::new(LightOffCommand::new(i));
                                remote.execute(&mut self.lights);
                            },
                        }
                    },
                    None => {},
                }
            },
        }
    }
}

} // verus!
