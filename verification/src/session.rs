//! The life of a game: started by the host, advanced tick by tick, shut
//! down by the host.
use vstd::prelude::*;
use crate::event::CollisionEvent;
use crate::layout::Layout;
use crate::input::Direction;
use crate::world::World;

verus! {

/// The state object that the host holds for a game. It holds a world from
/// `init` until `shutdown`, and none before or after.
#[derive(Debug)]
pub struct Session {
    pub world: Option<World>,
}

impl Session {
    /// A game is under way.
    pub open spec fn spec_is_running(&self) -> bool {
        self.world is Some
    }

    /// The world of a session that is running is well formed.
    pub open spec fn wf(&self) -> bool {
        self.world matches Some(world) ==> world.wf()
    }

    /// A tick of length `dt` can be taken: a game is under way, and the
    /// position that its ball reaches can be represented.
    pub open spec fn spec_can_step(&self, dt: u32) -> bool {
        self.world matches Some(world) && world.can_step(dt)
    }

    /// A session in which no game is under way.
    pub fn new() -> (session: Session)
        ensures
            !session.is_running(),
            session.wf(),
    {
        Session { world: None }
    }

    /// Whether a game is under way.
    #[verifier::when_used_as_spec(spec_is_running)]
    pub fn is_running(&self) -> (running: bool)
        ensures
            running == self.spec_is_running(),
    {
        self.world.is_some()
    }

    /// Whether the world of the session is well formed, which is what
    /// `step` asks. It is, unless the host has altered it by hand.
    pub fn is_well_formed(&self) -> (ok: bool)
        ensures
            ok == self.wf(),
    {
        match &self.world {
            Some(world) => world.is_well_formed(),
            None => true,
        }
    }

    /// Whether a tick of length `dt` can be taken, which is what `step`
    /// asks.
    #[verifier::when_used_as_spec(spec_can_step)]
    pub fn can_step(&self, dt: u32) -> (ok: bool)
        ensures
            ok == self.spec_can_step(dt),
    {
        match &self.world {
            Some(world) => world.can_step(dt),
            None => false,
        }
    }

    /// Starts a game from `layout`. A game that was under way is given up.
    pub fn init(&mut self, layout: &Layout)
        requires
            layout.is_valid(),
        ensures
            final(self).world matches Some(world) && world@ == layout.initial(),
            final(self).wf(),
    {
        self.world = Some(World::new(layout));
    }

    /// Feeds the input for the ticks to come.
    pub fn set_input(&mut self, input: Direction)
        requires
            old(self).is_running(),
        ensures
            final(self).world matches Some(world) && world@ == old(self).world->0@.with_input(
                input,
            ),
            final(self).wf() == old(self).wf(),
            forall|dt: u32| final(self).can_step(dt) == old(self).can_step(dt),
    {
        match &mut self.world {
            Some(world) => {
                world.set_input(input);
            },
            None => {},
        }
    }

    /// Advances the game by one tick of length `dt` and hands back the
    /// events of the tick.
    pub fn step(&mut self, dt: u32) -> (events: Vec<CollisionEvent>)
        requires
            old(self).wf(),
            old(self).can_step(dt),
        ensures
            final(self).world matches Some(world) && world@ == old(self).world->0@.step(
                dt as int,
            ),
            events@ == old(self).world->0@.events(dt as int),
            final(self).wf(),
    {
        match &mut self.world {
            Some(world) => world.step(dt),
            None => Vec::new(),
        }
    }

    /// Ends the game and lets go of its state.
    pub fn shutdown(&mut self)
        ensures
            !final(self).is_running(),
            final(self).wf(),
    {
        self.world = None;
    }
}

} // verus!
