//! Bricks: fixed boxes that live until the ball first overlaps them.
use vstd::prelude::*;
use vstd::set_lib::*;
use crate::geometry::{Aabb, AabbView};

verus! {

/// A brick, as a mathematical box and a flag that says whether it is live.
pub struct BrickView {
    pub body: AabbView,
    pub alive: bool,
}

impl BrickView {
    /// The brick is live and overlaps `bounds`.
    pub open spec fn hit_by(self, bounds: AabbView) -> bool {
        self.alive && bounds.overlaps(self.body)
    }

    /// The same brick, destroyed.
    pub open spec fn destroyed(self) -> BrickView {
        BrickView { alive: false, ..self }
    }
}

/// A brick. Its place in the list of bricks names it for the whole session,
/// also after it was destroyed.
#[derive(Clone, Copy, Debug, PartialEq, Eq, Structural)]
pub struct Brick {
    pub body: Aabb,
    pub alive: bool,
}

impl View for Brick {
    type V = BrickView;

    open spec fn view(&self) -> BrickView {
        BrickView { body: self.body@, alive: self.alive }
    }
}

/// The bricks of a list, each as its mathematical value.
pub open spec fn bricks_view(bricks: Seq<Brick>) -> Seq<BrickView> {
    Seq::new(bricks.len(), |i: int| bricks[i]@)
}

/// The places of the live bricks.
pub open spec fn live_set(bricks: Seq<BrickView>) -> Set<int> {
    Set::new(|i: int| 0 <= i < bricks.len() && bricks[i].alive)
}

/// The places of the destroyed bricks.
pub open spec fn destroyed_set(bricks: Seq<BrickView>) -> Set<int> {
    Set::new(|i: int| 0 <= i < bricks.len() && !bricks[i].alive)
}

/// The number of live bricks.
pub open spec fn live_count(bricks: Seq<BrickView>) -> nat {
    live_set(bricks).len()
}

/// The number of destroyed bricks.
pub open spec fn destroyed_count(bricks: Seq<BrickView>) -> nat {
    destroyed_set(bricks).len()
}

/// The list with the brick at place `i` destroyed.
pub open spec fn destroyed_at(bricks: Seq<BrickView>, i: int) -> Seq<BrickView> {
    bricks.update(i, bricks[i].destroyed())
}

/// The place of the first brick from `start` on that `bounds` hits.
pub open spec fn first_hit_from(bounds: AabbView, bricks: Seq<BrickView>, start: int) -> Option<
    int,
>
    decreases bricks.len() - start,
{
    if start < 0 || start >= bricks.len() {
        None
    } else if bricks[start].hit_by(bounds) {
        Some(start)
    } else {
        first_hit_from(bounds, bricks, start + 1)
    }
}

/// The place of the first brick in the list that `bounds` hits.
pub open spec fn first_hit(bounds: AabbView, bricks: Seq<BrickView>) -> Option<int> {
    first_hit_from(bounds, bricks, 0)
}

/// What `first_hit_from` finds is a brick that is hit, none before it from
/// `start` on is; and it finds none only where none is hit.
pub proof fn lemma_first_hit_from(bounds: AabbView, bricks: Seq<BrickView>, start: int)
    requires
        0 <= start,
    ensures
        match first_hit_from(bounds, bricks, start) {
            Some(i) => {
                &&& start <= i < bricks.len()
                &&& bricks[i].hit_by(bounds)
                &&& forall|j: int| start <= j < i ==> !(#[trigger] bricks[j]).hit_by(bounds)
            },
            None => forall|j: int|
                start <= j < bricks.len() ==> !(#[trigger] bricks[j]).hit_by(bounds),
        },
    decreases bricks.len() - start,
{
    if start < bricks.len() && !bricks[start].hit_by(bounds) {
        lemma_first_hit_from(bounds, bricks, start + 1);
    }
}

/// The first hit is a live brick that overlaps `bounds`, and no brick before
/// it is one; there is none only where no live brick overlaps `bounds`.
pub proof fn lemma_first_hit(bounds: AabbView, bricks: Seq<BrickView>)
    ensures
        match first_hit(bounds, bricks) {
            Some(i) => {
                &&& 0 <= i < bricks.len()
                &&& bricks[i].hit_by(bounds)
                &&& forall|j: int| 0 <= j < i ==> !(#[trigger] bricks[j]).hit_by(bounds)
            },
            None => forall|j: int|
                0 <= j < bricks.len() ==> !(#[trigger] bricks[j]).hit_by(bounds),
        },
{
    lemma_first_hit_from(bounds, bricks, 0);
}

/// Live and destroyed bricks are finitely many, and together they are all
/// the bricks.
pub proof fn lemma_counts(bricks: Seq<BrickView>)
    ensures
        live_set(bricks).finite(),
        destroyed_set(bricks).finite(),
        live_count(bricks) + destroyed_count(bricks) == bricks.len(),
{
    let all = set_int_range(0, bricks.len() as int);
    lemma_int_range(0, bricks.len() as int);
    let live = live_set(bricks);
    let dead = destroyed_set(bricks);
    lemma_len_subset(live, all);
    lemma_len_subset(dead, all);
    assert(live.disjoint(dead));
    lemma_set_disjoint_lens(live, dead);
    assert(live + dead =~= all);
}

/// Destroying a live brick takes its place, and no other, out of the live
/// set and into the destroyed set.
pub proof fn lemma_destroyed_at(bricks: Seq<BrickView>, i: int)
    requires
        0 <= i < bricks.len(),
        bricks[i].alive,
    ensures
        live_set(destroyed_at(bricks, i)) == live_set(bricks).remove(i),
        destroyed_set(destroyed_at(bricks, i)) == destroyed_set(bricks).insert(i),
        live_count(destroyed_at(bricks, i)) + 1 == live_count(bricks),
        destroyed_count(destroyed_at(bricks, i)) == destroyed_count(bricks) + 1,
{
    let after = destroyed_at(bricks, i);
    lemma_counts(bricks);
    lemma_counts(after);
    assert(live_set(after) =~= live_set(bricks).remove(i));
    assert(destroyed_set(after) =~= destroyed_set(bricks).insert(i));
    assert(live_set(bricks).contains(i));
}

impl Brick {
    /// A live brick.
    pub fn new(body: Aabb) -> (b: Brick)
        ensures
            b.body == body,
            b.alive,
    {
        Brick { body, alive: true }
    }
}

/// The place of the first live brick that overlaps `bounds`.
pub fn find_first_hit(bounds: &Aabb, bricks: &Vec<Brick>) -> (found: Option<usize>)
    ensures
        match found {
            Some(i) => first_hit(bounds@, bricks_view(bricks@)) == Some(i as int),
            None => first_hit(bounds@, bricks_view(bricks@)) is None,
        },
{
    let mut i: usize = 0;
    while i < bricks.len()
        invariant
            i <= bricks.len(),
            first_hit(bounds@, bricks_view(bricks@)) == first_hit_from(
                bounds@,
                bricks_view(bricks@),
                i as int,
            ),
        decreases bricks.len() - i,
    {
        if bricks[i].alive && bounds.overlaps(&bricks[i].body) {
            return Some(i);
        }
        i += 1;
    }
    None
}

/// Destroys the brick at place `i`.
pub fn destroy(bricks: &mut Vec<Brick>, i: usize)
    requires
        i < old(bricks).len(),
    ensures
        bricks_view(final(bricks)@) == destroyed_at(bricks_view(old(bricks)@), i as int),
        final(bricks).len() == old(bricks).len(),
{
    let brick = bricks[i];
    bricks[i] = Brick { body: brick.body, alive: false };
    assert(bricks_view(bricks@) =~= destroyed_at(bricks_view(old(bricks)@), i as int));
}

/// Counts the live bricks.
pub fn count_live(bricks: &Vec<Brick>) -> (n: usize)
    ensures
        n == live_count(bricks_view(bricks@)),
{
    let ghost all = bricks_view(bricks@);
    let mut n: usize = 0;
    let mut i: usize = 0;
    proof {
        assert(live_set(all.take(0)) =~= Set::<int>::empty());
    }
    while i < bricks.len()
        invariant
            i <= bricks.len(),
            all == bricks_view(bricks@),
            n == live_count(all.take(i as int)),
            n <= i,
        decreases bricks.len() - i,
    {
        proof {
            let before = all.take(i as int);
            let after = all.take(i + 1);
            lemma_counts(before);
            if all[i as int].alive {
                assert(live_set(after) =~= live_set(before).insert(i as int));
            } else {
                assert(live_set(after) =~= live_set(before));
            }
        }
        if bricks[i].alive {
            n += 1;
        }
        i += 1;
    }
    proof {
        assert(all.take(bricks.len() as int) =~= all);
    }
    n
}

} // verus!
