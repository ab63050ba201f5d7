//! Encapsulated, re-invocable actions bound to one target entity.
//!
//! A command binds an arena handle to one verb at construction time.
//! Executing it acquires a scoped exclusive borrow of exactly one arena
//! slot for the duration of the verb; because the arena owns every
//! entity, overlapping exclusive acquisitions of one entity cannot
//! arise.

use vstd::prelude::*;
use crate::light::Light;
use crate::observer::Subject;

verus! {

/// How one command execution transforms the arena: the target slot is
/// switched to `s`, every other slot is untouched.
pub open spec fn arena_switched(
    pre: Seq<Light>,
    post: Seq<Light>,
    target: int,
    s: bool,
) -> bool {
    &&& post.len() == pre.len()
    &&& forall|j: int| 0 <= j < pre.len() && j != target ==> post[j] == pre[j]
    &&& Light::switched_to(pre[target], post[target], s)
}

/// A parameterless, re-invocable action bound to one arena slot.
pub trait Command: Sized {
    /// The arena index of the entity this command is bound to.
    spec fn target(&self) -> int;

    /// The state the bound verb drives the entity to.
    spec fn desired_state(&self) -> bool;

    /// Performs the bound verb on the bound entity.  The command itself
    /// is left unchanged, so it may be invoked again.
    fn execute(&mut self, lights: &mut Vec<Light>)
        requires
            0 <= old(self).target() < old(lights)@.len(),
            old(lights)@[old(self).target()].subject_wf(),
        ensures
            *final(self) == *old(self),
            arena_switched(
                old(lights)@,
                final(lights)@,
                old(self).target(),
                old(self).desired_state(),
            ),
    ;
}

/// The command that turns its bound light on.
pub struct LightOnCommand {
    light: usize,
}

impl LightOnCommand {
    /// A command bound to the arena slot `light`.
    pub fn new(light: usize) -> (c: Self)
        ensures
            c.target() == light as int,
            c.desired_state() == true,
    {
        LightOnCommand { light }
    }
}

impl Command for LightOnCommand {
    closed spec fn target(&self) -> int {
        self.light as int
    }

    closed spec fn desired_state(&self) -> bool {
        true
    }

    fn execute(&mut self, lights: &mut Vec<Light>) {
        let i = self.light;
        lights[i].on();
    }
}

/// The command that turns its bound light off.
pub struct LightOffCommand {
    light: usize,
}

impl LightOffCommand {
    /// A command bound to the arena slot `light`.
    pub fn new(light: usize) -> (c: Self)
        ensures
            c.target() == light as int,
            c.desired_state() == false,
    {
        LightOffCommand { light }
    }
}

impl Command for LightOffCommand {
    closed spec fn target(&self) -> int {
        self.light as int
    }

    closed spec fn desired_state(&self) -> bool {
        false
    }

    fn execute(&mut self, lights: &mut Vec<Light>) {
        let i = self.light;
        lights[i].off();
    }
}

/// An invoker that holds one command and triggers it on demand.
pub struct Remote<C: Command> {
    command: C,
}

impl<C: Command> Remote<C> {
    /// The command currently held.
    pub closed spec fn spec_command(&self) -> C {
        self.command
    }

    /// A remote holding `command`.
    pub fn new(command: C) -> (r: Self)
        ensures
            r.spec_command() == command,
    {
        Remote { command }
    }

    /// Swaps in a different command.
    pub fn set_command(&mut self, command: C)
        ensures
            final(self).spec_command() == command,
    {
        self.command = command;
    }

    /// Triggers the held command against the arena.
    pub fn execute(&mut self, lights: &mut Vec<Light>)
        requires
            0 <= old(self).spec_command().target() < old(lights)@.len(),
            old(lights)@[old(self).spec_command().target()].subject_wf(),
        ensures
            *final(self) == *old(self),
            arena_switched(
                old(lights)@,
                final(lights)@,
                old(self).spec_command().target(),
                old(self).spec_command().desired_state(),
            ),
    {
        self.command.execute(lights);
    }
}

} // verus!
