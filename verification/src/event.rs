//! What a tick tells its listeners.
use vstd::prelude::*;
use crate::arena::Side;

verus! {

/// One resolved contact of the ball. Events are handed out by the tick in
/// which they arise and are not kept.
#[derive(Clone, Copy, Debug, PartialEq, Eq, Structural)]
pub enum CollisionEvent {
    /// The ball met the wall on the given side.
    Wall(Side),
    /// The ball met the paddle.
    Paddle,
    /// The ball met the brick at the given place, which was destroyed.
    BrickDestroyed(usize),
}

impl CollisionEvent {
    /// The event tells of a destroyed brick.
    pub open spec fn spec_destroys_brick(&self) -> bool {
        self is BrickDestroyed
    }

    /// Whether the event tells of a destroyed brick.
    #[verifier::when_used_as_spec(spec_destroys_brick)]
    pub fn destroys_brick(&self) -> (b: bool)
        ensures
            b == self.spec_destroys_brick(),
    {
        match self {
            CollisionEvent::BrickDestroyed(_) => true,
            _ => false,
        }
    }
}

/// The event where there was a contact, and none where there was not.
pub open spec fn event_if(hit: bool, event: CollisionEvent) -> Seq<CollisionEvent> {
    if hit {
        seq![event]
    } else {
        Seq::empty()
    }
}

/// The number of events that tell of a destroyed brick.
pub open spec fn tally(events: Seq<CollisionEvent>) -> nat
    decreases events.len(),
{
    if events.len() == 0 {
        0
    } else {
        tally(events.drop_last()) + if events.last().destroys_brick() {
            1nat
        } else {
            0nat
        }
    }
}

/// The tally of two lists in a row is the sum of their tallies.
pub proof fn lemma_tally_concat(a: Seq<CollisionEvent>, b: Seq<CollisionEvent>)
    ensures
        tally(a + b) == tally(a) + tally(b),
    decreases b.len(),
{
    if b.len() == 0 {
        assert(a + b =~= a);
    } else {
        assert((a + b).drop_last() =~= a + b.drop_last());
        lemma_tally_concat(a, b.drop_last());
    }
}

/// The tally of one event or of none.
pub proof fn lemma_tally_event_if(hit: bool, event: CollisionEvent)
    ensures
        tally(event_if(hit, event)) == if hit && event.destroys_brick() {
            1nat
        } else {
            0nat
        },
{
    if hit {
        let one = seq![event];
        assert(one.drop_last() =~= Seq::<CollisionEvent>::empty());
        assert(tally(one.drop_last()) == 0);
        assert(one.last() == event);
    }
}

} // verus!
