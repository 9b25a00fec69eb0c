//! The score: one point for every brick that was destroyed.
use vstd::prelude::*;
use crate::event::{lemma_tally_concat, tally, CollisionEvent};

verus! {

/// A counter of destroyed bricks.
#[derive(Clone, Copy, Debug, PartialEq, Eq, Structural)]
pub struct Scoreboard {
    pub score: u64,
}

impl View for Scoreboard {
    type V = nat;

    open spec fn view(&self) -> nat {
        self.score as nat
    }
}

impl Scoreboard {
    /// A scoreboard that shows zero.
    pub fn new() -> (s: Scoreboard)
        ensures
            s@ == 0,
    {
        Scoreboard { score: 0 }
    }

    /// The score.
    pub fn score(&self) -> (score: u64)
        ensures
            score == self@,
    {
        self.score
    }

    /// Takes note of one event: a destroyed brick counts one point, any
    /// other event nothing.
    pub fn record(&mut self, event: &CollisionEvent)
        requires
            event.destroys_brick() ==> old(self)@ < u64::MAX,
        ensures
            final(self)@ == old(self)@ + if event.destroys_brick() {
                1nat
            } else {
                0nat
            },
    {
        if event.destroys_brick() {
            self.score = self.score + 1;
        }
    }

    /// Takes note of the events of a tick, in their order.
    pub fn record_all(&mut self, events: &Vec<CollisionEvent>)
        requires
            old(self)@ + tally(events@) <= u64::MAX,
        ensures
            final(self)@ == old(self)@ + tally(events@),
    {
        let mut i: usize = 0;
        proof {
            assert(events@.take(0) =~= Seq::<CollisionEvent>::empty());
        }
        while i < events.len()
            invariant
                i <= events.len(),
                self@ == old(self)@ + tally(events@.take(i as int)),
                old(self)@ + tally(events@) <= u64::MAX,
            decreases events.len() - i,
        {
            proof {
                let seen = events@.take(i + 1);
                assert(seen.drop_last() =~= events@.take(i as int));
                assert(events@ =~= seen + events@.skip(i + 1));
                lemma_tally_concat(seen, events@.skip(i + 1));
            }
            self.record(&events[i]);
            i += 1;
        }
        proof {
            assert(events@.take(events.len() as int) =~= events@);
        }
    }
}

} // verus!
