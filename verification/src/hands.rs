//! Resource and development-card hands: five-slot card counters indexed by an
//! ordinal enum, together with the fixed build costs and bank seeds.
use vstd::prelude::*;

verus! {

/// A resource card kind: the five commodities of the game.
#[derive(Clone, Copy, PartialEq, Eq, Structural, Debug)]
pub enum Resource {
    Wood,
    Brick,
    Wheat,
    Sheep,
    Ore,
}

/// A development card kind.
#[derive(Clone, Copy, PartialEq, Eq, Structural, Debug)]
pub enum DVCard {
    Knight,
    RoadBuilding,
    YearOfPlenty,
    Monopoly,
    VictoryPoint,
}

/// The slot of a resource in a five-slot hand.
pub open spec fn res_index(r: Resource) -> int {
    match r {
        Resource::Wood => 0,
        Resource::Brick => 1,
        Resource::Wheat => 2,
        Resource::Sheep => 3,
        Resource::Ore => 4,
    }
}

/// The resource stored at a slot.
pub open spec fn res_of(i: int) -> Resource {
    if i == 0 {
        Resource::Wood
    } else if i == 1 {
        Resource::Brick
    } else if i == 2 {
        Resource::Wheat
    } else if i == 3 {
        Resource::Sheep
    } else {
        Resource::Ore
    }
}

/// The slot of a development card in a five-slot hand.
pub open spec fn dv_index(d: DVCard) -> int {
    match d {
        DVCard::Knight => 0,
        DVCard::RoadBuilding => 1,
        DVCard::YearOfPlenty => 2,
        DVCard::Monopoly => 3,
        DVCard::VictoryPoint => 4,
    }
}

/// The development card stored at a slot.
pub open spec fn dv_of(i: int) -> DVCard {
    if i == 0 {
        DVCard::Knight
    } else if i == 1 {
        DVCard::RoadBuilding
    } else if i == 2 {
        DVCard::YearOfPlenty
    } else if i == 3 {
        DVCard::Monopoly
    } else {
        DVCard::VictoryPoint
    }
}

/// Returns the slot of a resource.
pub fn res_ord(r: Resource) -> (i: usize)
    ensures
        i == res_index(r),
{
    match r {
        Resource::Wood => 0,
        Resource::Brick => 1,
        Resource::Wheat => 2,
        Resource::Sheep => 3,
        Resource::Ore => 4,
    }
}

/// Returns the resource stored at a slot.
pub fn res_at(i: usize) -> (r: Resource)
    requires
        i < 5,
    ensures
        r == res_of(i as int),
        res_index(r) == i,
{
    if i == 0 {
        Resource::Wood
    } else if i == 1 {
        Resource::Brick
    } else if i == 2 {
        Resource::Wheat
    } else if i == 3 {
        Resource::Sheep
    } else {
        Resource::Ore
    }
}

/// Returns the slot of a development card.
pub fn dv_ord(d: DVCard) -> (i: usize)
    ensures
        i == dv_index(d),
{
    match d {
        DVCard::Knight => 0,
        DVCard::RoadBuilding => 1,
        DVCard::YearOfPlenty => 2,
        DVCard::Monopoly => 3,
        DVCard::VictoryPoint => 4,
    }
}

/// Returns the development card stored at a slot.
pub fn dv_at(i: usize) -> (d: DVCard)
    requires
        i < 5,
    ensures
        d == dv_of(i as int),
        dv_index(d) == i,
{
    if i == 0 {
        DVCard::Knight
    } else if i == 1 {
        DVCard::RoadBuilding
    } else if i == 2 {
        DVCard::YearOfPlenty
    } else if i == 3 {
        DVCard::Monopoly
    } else {
        DVCard::VictoryPoint
    }
}

impl DVCard {
    /// The two-letter label of a development card.
    pub open spec fn spec_label(self) -> Seq<char> {
        match self {
            DVCard::Knight => "KN"@,
            DVCard::RoadBuilding => "RB"@,
            DVCard::YearOfPlenty => "YP"@,
            DVCard::Monopoly => "MN"@,
            DVCard::VictoryPoint => "VP"@,
        }
    }

    /// Returns the two-letter label of this development card.
    pub fn into_label(self) -> (s: String)
        ensures
            s@ == self.spec_label(),
    {
        match self {
            DVCard::Knight => "KN".to_owned(),
            DVCard::RoadBuilding => "RB".to_owned(),
            DVCard::YearOfPlenty => "YP".to_owned(),
            DVCard::Monopoly => "MN".to_owned(),
            DVCard::VictoryPoint => "VP".to_owned(),
        }
    }
}

/// A hand of resource cards: one count per resource.
#[derive(Clone, Copy, Debug)]
pub struct ResHand {
    pub counts: [usize; 5],
}

/// A hand of development cards: one count per card kind.
#[derive(Clone, Copy, Debug)]
pub struct DVHand {
    pub counts: [usize; 5],
}

impl ResHand {
    /// The number of cards of one resource held.
    pub open spec fn cnt(self, r: Resource) -> usize {
        self.counts[res_index(r)]
    }

    /// The total number of cards held, as a mathematical integer.
    pub open spec fn total(self) -> int {
        self.counts[0] + self.counts[1] + self.counts[2] + self.counts[3] + self.counts[4]
    }

    /// Component-wise sums fit the machine word.
    pub open spec fn can_add(self, rhs: ResHand) -> bool {
        forall|r: Resource| #[trigger] self.cnt(r) + rhs.cnt(r) <= usize::MAX
    }

    /// Every count of `rhs` is covered by this hand.
    pub open spec fn covers(self, rhs: ResHand) -> bool {
        forall|r: Resource| #[trigger] self.cnt(r) >= rhs.cnt(r)
    }

    /// Returns the empty hand.
    pub fn new() -> (h: ResHand)
        ensures
            forall|r: Resource| h.cnt(r) == 0,
            h.total() == 0,
    {
        ResHand { counts: [0, 0, 0, 0, 0] }
    }

    /// Returns a hand holding `count` cards of `resource` and nothing else.
    pub fn from_monopoly(resource: Resource, count: usize) -> (h: ResHand)
        ensures
            h.cnt(resource) == count,
            forall|r: Resource| r != resource ==> h.cnt(r) == 0,
            h.total() == count,
    {
        let mut h = ResHand::new();
        h.counts[res_ord(resource)] = count;
        proof {
            assert(h.cnt(Resource::Wood) == h.counts[0]);
            assert(h.cnt(Resource::Brick) == h.counts[1]);
            assert(h.cnt(Resource::Wheat) == h.counts[2]);
            assert(h.cnt(Resource::Sheep) == h.counts[3]);
            assert(h.cnt(Resource::Ore) == h.counts[4]);
        }
        h
    }

    /// Returns a hand holding one card of `resource` and nothing else.
    pub fn from_single(resource: Resource) -> (h: ResHand)
        ensures
            h.cnt(resource) == 1,
            forall|r: Resource| r != resource ==> h.cnt(r) == 0,
            h.total() == 1,
    {
        let h = ResHand::from_monopoly(resource, 1);
        h
    }

    /// Returns the count of one resource.
    pub fn get(&self, r: Resource) -> (n: usize)
        ensures
            n == self.cnt(r),
    {
        self.counts[res_ord(r)]
    }

    /// Empties the hand.
    pub fn clear(&mut self)
        ensures
            forall|r: Resource| final(self).cnt(r) == 0,
            final(self).total() == 0,
    {
        self.counts[0] = 0;
        self.counts[1] = 0;
        self.counts[2] = 0;
        self.counts[3] = 0;
        self.counts[4] = 0;
    }

    /// Returns the total number of cards held.
    pub fn size(&self) -> (n: usize)
        requires
            self.total() <= usize::MAX,
        ensures
            n == self.total(),
    {
        self.counts[0] + self.counts[1] + self.counts[2] + self.counts[3] + self.counts[4]
    }

    /// Returns how many resources have a nonzero count.
    pub fn count_nonzero(&self) -> (n: usize)
        ensures
            n == self.spec_count_nonzero(),
    {
        let mut n: usize = 0;
        if self.counts[0] != 0 {
            n = n + 1;
        }
        if self.counts[1] != 0 {
            n = n + 1;
        }
        if self.counts[2] != 0 {
            n = n + 1;
        }
        if self.counts[3] != 0 {
            n = n + 1;
        }
        if self.counts[4] != 0 {
            n = n + 1;
        }
        n
    }

    /// The number of resources with a nonzero count.
    pub open spec fn spec_count_nonzero(self) -> int {
        (if self.counts[0] != 0 { 1int } else { 0 }) + (if self.counts[1] != 0 { 1int } else { 0 })
            + (if self.counts[2] != 0 { 1int } else { 0 }) + (if self.counts[3] != 0 {
            1int
        } else {
            0
        }) + (if self.counts[4] != 0 { 1int } else { 0 })
    }

    /// The `n`-th resource with a nonzero count, scanning slots from `i` up.
    pub open spec fn spec_nth_nonzero_from(self, i: int, n: int) -> Option<Resource>
        decreases 5 - i,
    {
        if i >= 5 {
            None
        } else if self.counts[i] > 0 {
            if n == 0 {
                Some(res_of(i))
            } else {
                self.spec_nth_nonzero_from(i + 1, n - 1)
            }
        } else {
            self.spec_nth_nonzero_from(i + 1, n)
        }
    }

    /// The `n`-th resource with a nonzero count, in slot order.
    pub open spec fn spec_nth_nonzero(self, n: int) -> Option<Resource> {
        self.spec_nth_nonzero_from(0, n)
    }

    /// Returns the `n`-th resource with a nonzero count, in slot order.
    pub fn nth_nonzero(&self, n: usize) -> (r: Option<Resource>)
        ensures
            r == self.spec_nth_nonzero(n as int),
    {
        let mut i: usize = 0;
        let mut left: usize = n;
        while i < 5
            invariant
                i <= 5,
                self.spec_nth_nonzero(n as int) == self.spec_nth_nonzero_from(i as int, left as int),
            decreases 5 - i,
        {
            if self.counts[i] > 0 {
                if left == 0 {
                    return Some(res_at(i));
                }
                left = left - 1;
            }
            i = i + 1;
        }
        None
    }

    /// Adds every count of `rhs` to this hand.
    pub fn add(&mut self, rhs: ResHand)
        requires
            old(self).can_add(rhs),
        ensures
            forall|r: Resource| #[trigger] final(self).cnt(r) == old(self).cnt(r) + rhs.cnt(r),
            final(self).total() == old(self).total() + rhs.total(),
    {
        proof {
            assert(self.cnt(Resource::Wood) + rhs.cnt(Resource::Wood) <= usize::MAX);
            assert(self.cnt(Resource::Brick) + rhs.cnt(Resource::Brick) <= usize::MAX);
            assert(self.cnt(Resource::Wheat) + rhs.cnt(Resource::Wheat) <= usize::MAX);
            assert(self.cnt(Resource::Sheep) + rhs.cnt(Resource::Sheep) <= usize::MAX);
            assert(self.cnt(Resource::Ore) + rhs.cnt(Resource::Ore) <= usize::MAX);
        }
        self.counts[0] = self.counts[0] + rhs.counts[0];
        self.counts[1] = self.counts[1] + rhs.counts[1];
        self.counts[2] = self.counts[2] + rhs.counts[2];
        self.counts[3] = self.counts[3] + rhs.counts[3];
        self.counts[4] = self.counts[4] + rhs.counts[4];
    }

    /// Adds one card of `card` to this hand.
    pub fn add_card(&mut self, card: Resource)
        requires
            old(self).cnt(card) < usize::MAX,
        ensures
            final(self).cnt(card) == old(self).cnt(card) + 1,
            forall|r: Resource| r != card ==> final(self).cnt(r) == old(self).cnt(r),
            final(self).total() == old(self).total() + 1,
    {
        let i = res_ord(card);
        self.counts[i] = self.counts[i] + 1;
    }

    /// Returns whether every count of `rhs` is covered by this hand.
    pub fn can_discard(&self, rhs: ResHand) -> (b: bool)
        ensures
            b == self.covers(rhs),
    {
        let b = self.counts[0] >= rhs.counts[0] && self.counts[1] >= rhs.counts[1]
            && self.counts[2] >= rhs.counts[2] && self.counts[3] >= rhs.counts[3]
            && self.counts[4] >= rhs.counts[4];
        proof {
            if b {
                assert forall|r: Resource| #[trigger] self.cnt(r) >= rhs.cnt(r) by {
                    let i = res_index(r);
                    assert(0 <= i < 5);
                }
            } else {
                if self.counts[0] < rhs.counts[0] {
                    assert(!(self.cnt(Resource::Wood) >= rhs.cnt(Resource::Wood)));
                } else if self.counts[1] < rhs.counts[1] {
                    assert(!(self.cnt(Resource::Brick) >= rhs.cnt(Resource::Brick)));
                } else if self.counts[2] < rhs.counts[2] {
                    assert(!(self.cnt(Resource::Wheat) >= rhs.cnt(Resource::Wheat)));
                } else if self.counts[3] < rhs.counts[3] {
                    assert(!(self.cnt(Resource::Sheep) >= rhs.cnt(Resource::Sheep)));
                } else {
                    assert(!(self.cnt(Resource::Ore) >= rhs.cnt(Resource::Ore)));
                }
            }
        }
        b
    }

    /// Removes every count of `rhs` from this hand.
    pub fn discard(&mut self, rhs: ResHand)
        requires
            old(self).covers(rhs),
        ensures
            forall|r: Resource| #[trigger] final(self).cnt(r) == old(self).cnt(r) - rhs.cnt(r),
            final(self).total() == old(self).total() - rhs.total(),
    {
        proof {
            assert(self.cnt(Resource::Wood) >= rhs.cnt(Resource::Wood));
            assert(self.cnt(Resource::Brick) >= rhs.cnt(Resource::Brick));
            assert(self.cnt(Resource::Wheat) >= rhs.cnt(Resource::Wheat));
            assert(self.cnt(Resource::Sheep) >= rhs.cnt(Resource::Sheep));
            assert(self.cnt(Resource::Ore) >= rhs.cnt(Resource::Ore));
        }
        self.counts[0] = self.counts[0] - rhs.counts[0];
        self.counts[1] = self.counts[1] - rhs.counts[1];
        self.counts[2] = self.counts[2] - rhs.counts[2];
        self.counts[3] = self.counts[3] - rhs.counts[3];
        self.counts[4] = self.counts[4] - rhs.counts[4];
    }

    /// Removes each count of `rhs`, clamping at zero where it is not covered.
    pub fn discard_max(&mut self, rhs: ResHand)
        ensures
            forall|r: Resource|
                #[trigger] final(self).cnt(r) == if old(self).cnt(r) >= rhs.cnt(r) {
                    (old(self).cnt(r) - rhs.cnt(r)) as usize
                } else {
                    0usize
                },
    {
        let mut i: usize = 0;
        while i < 5
            invariant
                i <= 5,
                forall|j: int|
                    0 <= j < i ==> self.counts[j] == if old(self).counts[j] >= rhs.counts[j] {
                        (old(self).counts[j] - rhs.counts[j]) as usize
                    } else {
                        0usize
                    },
                forall|j: int| i <= j < 5 ==> self.counts[j] == old(self).counts[j],
            decreases 5 - i,
        {
            if self.counts[i] >= rhs.counts[i] {
                self.counts[i] = self.counts[i] - rhs.counts[i];
            } else {
                self.counts[i] = 0;
            }
            i = i + 1;
        }
    }

    /// Removes every card of one resource.
    pub fn discard_all(&mut self, resource: Resource)
        ensures
            final(self).cnt(resource) == 0,
            forall|r: Resource| r != resource ==> final(self).cnt(r) == old(self).cnt(r),
    {
        self.counts[res_ord(resource)] = 0;
    }

    /// The total count held in the slots from `i` up.
    pub open spec fn tail_sum(self, i: int) -> int {
        (if i <= 0 { self.counts[0] as int } else { 0 }) + (if i <= 1 {
            self.counts[1] as int
        } else {
            0
        }) + (if i <= 2 { self.counts[2] as int } else { 0 }) + (if i <= 3 {
            self.counts[3] as int
        } else {
            0
        }) + (if i <= 4 { self.counts[4] as int } else { 0 })
    }

    /// The resource removed when the cards are laid out in slot order and the
    /// card at position `sel` is taken.
    pub open spec fn spec_pick_from(self, i: int, sel: int) -> Resource
        decreases 5 - i,
    {
        if i >= 4 {
            res_of(i)
        } else if sel < self.counts[i] {
            res_of(i)
        } else {
            self.spec_pick_from(i + 1, sel - self.counts[i])
        }
    }

    /// The resource at position `sel` of the hand laid out in slot order.
    pub open spec fn spec_pick(self, sel: int) -> Resource {
        self.spec_pick_from(0, sel)
    }

    /// Removes the card at position `sel` of the hand laid out in slot order,
    /// and returns its resource.
    pub fn discard_at(&mut self, sel: usize) -> (r: Resource)
        requires
            sel < old(self).total(),
        ensures
            r == old(self).spec_pick(sel as int),
            old(self).cnt(r) > 0,
            final(self).cnt(r) == old(self).cnt(r) - 1,
            forall|x: Resource| x != r ==> final(self).cnt(x) == old(self).cnt(x),
            final(self).total() == old(self).total() - 1,
    {
        let mut i: usize = 0;
        let mut left: usize = sel;
        while i < 4
            invariant
                i <= 4,
                old(self).spec_pick(sel as int) == old(self).spec_pick_from(i as int, left as int),
                left < old(self).tail_sum(i as int),
                self == old(self),
            decreases 4 - i,
        {
            if left < self.counts[i] {
                self.counts[i] = self.counts[i] - 1;
                return res_at(i);
            }
            left = left - self.counts[i];
            i = i + 1;
        }
        self.counts[4] = self.counts[4] - 1;
        res_at(4)
    }

    /// Removes one uniformly random card, or returns `None` when the hand is
    /// empty. Whatever card is removed was present in the hand.
    pub fn discard_random(&mut self) -> (r: Option<Resource>)
        requires
            old(self).total() <= usize::MAX,
        ensures
            match r {
                Some(res) => old(self).cnt(res) > 0 && final(self).cnt(res) == old(self).cnt(res)
                    - 1 && (forall|x: Resource| x != res ==> final(self).cnt(x) == old(self).cnt(x))
                    && final(self).total() == old(self).total() - 1,
                None => old(self).total() == 0 && *final(self) == *old(self),
            },
    {
        let n = self.size();
        if n == 0 {
            return None;
        }
        let sel = crate::rng::random_below(n);
        Some(self.discard_at(sel))
    }
}

impl DVHand {
    /// The number of cards of one kind held.
    pub open spec fn cnt(self, d: DVCard) -> usize {
        self.counts[dv_index(d)]
    }

    /// The total number of cards held, as a mathematical integer.
    pub open spec fn total(self) -> int {
        self.counts[0] + self.counts[1] + self.counts[2] + self.counts[3] + self.counts[4]
    }

    /// Component-wise sums fit the machine word.
    pub open spec fn can_add(self, rhs: DVHand) -> bool {
        forall|d: DVCard| #[trigger] self.cnt(d) + rhs.cnt(d) <= usize::MAX
    }

    /// Returns the empty hand.
    pub fn new() -> (h: DVHand)
        ensures
            forall|d: DVCard| h.cnt(d) == 0,
            h.total() == 0,
    {
        DVHand { counts: [0, 0, 0, 0, 0] }
    }

    /// Returns the count of one card kind.
    pub fn get(&self, d: DVCard) -> (n: usize)
        ensures
            n == self.cnt(d),
    {
        self.counts[dv_ord(d)]
    }

    /// Empties the hand.
    pub fn clear(&mut self)
        ensures
            forall|d: DVCard| final(self).cnt(d) == 0,
            final(self).total() == 0,
    {
        self.counts[0] = 0;
        self.counts[1] = 0;
        self.counts[2] = 0;
        self.counts[3] = 0;
        self.counts[4] = 0;
    }

    /// Returns the total number of cards held.
    pub fn size(&self) -> (n: usize)
        requires
            self.total() <= usize::MAX,
        ensures
            n == self.total(),
    {
        self.counts[0] + self.counts[1] + self.counts[2] + self.counts[3] + self.counts[4]
    }

    /// Returns how many card kinds have a nonzero count.
    pub fn count_nonzero(&self) -> (n: usize)
        ensures
            n == (if self.counts[0] != 0 { 1int } else { 0 }) + (if self.counts[1] != 0 {
                1int
            } else {
                0
            }) + (if self.counts[2] != 0 { 1int } else { 0 }) + (if self.counts[3] != 0 {
                1int
            } else {
                0
            }) + (if self.counts[4] != 0 { 1int } else { 0 }),
    {
        let mut n: usize = 0;
        if self.counts[0] != 0 {
            n = n + 1;
        }
        if self.counts[1] != 0 {
            n = n + 1;
        }
        if self.counts[2] != 0 {
            n = n + 1;
        }
        if self.counts[3] != 0 {
            n = n + 1;
        }
        if self.counts[4] != 0 {
            n = n + 1;
        }
        n
    }

    /// The `n`-th card kind with a nonzero count, scanning slots from `i` up.
    pub open spec fn spec_nth_nonzero_from(self, i: int, n: int) -> Option<DVCard>
        decreases 5 - i,
    {
        if i >= 5 {
            None
        } else if self.counts[i] > 0 {
            if n == 0 {
                Some(dv_of(i))
            } else {
                self.spec_nth_nonzero_from(i + 1, n - 1)
            }
        } else {
            self.spec_nth_nonzero_from(i + 1, n)
        }
    }

    /// The `n`-th card kind with a nonzero count, in slot order.
    pub open spec fn spec_nth_nonzero(self, n: int) -> Option<DVCard> {
        self.spec_nth_nonzero_from(0, n)
    }

    /// Returns the `n`-th card kind with a nonzero count, in slot order.
    pub fn nth_nonzero(&self, n: usize) -> (r: Option<DVCard>)
        ensures
            r == self.spec_nth_nonzero(n as int),
    {
        let mut i: usize = 0;
        let mut left: usize = n;
        while i < 5
            invariant
                i <= 5,
                self.spec_nth_nonzero(n as int) == self.spec_nth_nonzero_from(i as int, left as int),
            decreases 5 - i,
        {
            if self.counts[i] > 0 {
                if left == 0 {
                    return Some(dv_at(i));
                }
                left = left - 1;
            }
            i = i + 1;
        }
        None
    }

    /// Adds every count of `rhs` to this hand.
    pub fn add(&mut self, rhs: DVHand)
        requires
            old(self).can_add(rhs),
        ensures
            forall|d: DVCard| #[trigger] final(self).cnt(d) == old(self).cnt(d) + rhs.cnt(d),
            final(self).total() == old(self).total() + rhs.total(),
    {
        proof {
            assert(self.cnt(DVCard::Knight) + rhs.cnt(DVCard::Knight) <= usize::MAX);
            assert(self.cnt(DVCard::RoadBuilding) + rhs.cnt(DVCard::RoadBuilding) <= usize::MAX);
            assert(self.cnt(DVCard::YearOfPlenty) + rhs.cnt(DVCard::YearOfPlenty) <= usize::MAX);
            assert(self.cnt(DVCard::Monopoly) + rhs.cnt(DVCard::Monopoly) <= usize::MAX);
            assert(self.cnt(DVCard::VictoryPoint) + rhs.cnt(DVCard::VictoryPoint) <= usize::MAX);
        }
        self.counts[0] = self.counts[0] + rhs.counts[0];
        self.counts[1] = self.counts[1] + rhs.counts[1];
        self.counts[2] = self.counts[2] + rhs.counts[2];
        self.counts[3] = self.counts[3] + rhs.counts[3];
        self.counts[4] = self.counts[4] + rhs.counts[4];
    }

    /// Adds one card of `card` to this hand.
    pub fn add_card(&mut self, card: DVCard)
        requires
            old(self).cnt(card) < usize::MAX,
        ensures
            final(self).cnt(card) == old(self).cnt(card) + 1,
            forall|d: DVCard| d != card ==> final(self).cnt(d) == old(self).cnt(d),
            final(self).total() == old(self).total() + 1,
    {
        let i = dv_ord(card);
        self.counts[i] = self.counts[i] + 1;
    }

    /// Returns whether at least one card of `card` is held.
    pub fn can_discard_card(&self, card: DVCard) -> (b: bool)
        ensures
            b == (self.cnt(card) != 0),
    {
        self.counts[dv_ord(card)] != 0
    }

    /// Removes one card of `card`.
    pub fn discard_card(&mut self, card: DVCard)
        requires
            old(self).cnt(card) > 0,
        ensures
            final(self).cnt(card) == old(self).cnt(card) - 1,
            forall|d: DVCard| d != card ==> final(self).cnt(d) == old(self).cnt(d),
            final(self).total() == old(self).total() - 1,
    {
        let i = dv_ord(card);
        self.counts[i] = self.counts[i] - 1;
    }

    /// The total count held in the slots from `i` up.
    pub open spec fn tail_sum(self, i: int) -> int {
        (if i <= 0 { self.counts[0] as int } else { 0 }) + (if i <= 1 {
            self.counts[1] as int
        } else {
            0
        }) + (if i <= 2 { self.counts[2] as int } else { 0 }) + (if i <= 3 {
            self.counts[3] as int
        } else {
            0
        }) + (if i <= 4 { self.counts[4] as int } else { 0 })
    }

    /// The card removed when the cards are laid out in slot order and the card
    /// at position `sel` is taken.
    pub open spec fn spec_pick_from(self, i: int, sel: int) -> DVCard
        decreases 5 - i,
    {
        if i >= 4 {
            dv_of(i)
        } else if sel < self.counts[i] {
            dv_of(i)
        } else {
            self.spec_pick_from(i + 1, sel - self.counts[i])
        }
    }

    /// The card at position `sel` of the hand laid out in slot order.
    pub open spec fn spec_pick(self, sel: int) -> DVCard {
        self.spec_pick_from(0, sel)
    }

    /// Removes the card at position `sel` of the hand laid out in slot order,
    /// and returns its kind.
    pub fn discard_at(&mut self, sel: usize) -> (d: DVCard)
        requires
            sel < old(self).total(),
        ensures
            d == old(self).spec_pick(sel as int),
            old(self).cnt(d) > 0,
            final(self).cnt(d) == old(self).cnt(d) - 1,
            forall|x: DVCard| x != d ==> final(self).cnt(x) == old(self).cnt(x),
            final(self).total() == old(self).total() - 1,
    {
        let mut i: usize = 0;
        let mut left: usize = sel;
        while i < 4
            invariant
                i <= 4,
                old(self).spec_pick(sel as int) == old(self).spec_pick_from(i as int, left as int),
                left < old(self).tail_sum(i as int),
                self == old(self),
            decreases 4 - i,
        {
            if left < self.counts[i] {
                self.counts[i] = self.counts[i] - 1;
                return dv_at(i);
            }
            left = left - self.counts[i];
            i = i + 1;
        }
        self.counts[4] = self.counts[4] - 1;
        dv_at(4)
    }

    /// Removes one uniformly random card, or returns `None` when the hand is
    /// empty. Whatever card is removed was present in the hand.
    pub fn discard_random(&mut self) -> (r: Option<DVCard>)
        requires
            old(self).total() <= usize::MAX,
        ensures
            match r {
                Some(d) => old(self).cnt(d) > 0 && final(self).cnt(d) == old(self).cnt(d) - 1 && (
                forall|x: DVCard| x != d ==> final(self).cnt(x) == old(self).cnt(x)) && final(self).total() == old(self).total() - 1,
                None => old(self).total() == 0 && *final(self) == *old(self),
            },
    {
        let n = self.size();
        if n == 0 {
            return None;
        }
        let sel = crate::rng::random_below(n);
        Some(self.discard_at(sel))
    }
}

impl ResHand {
    /// A non-empty hand has a first held resource, and its count is nonzero.
    pub proof fn lemma_first_nonzero(self)
        requires
            self.total() > 0,
        ensures
            self.spec_nth_nonzero(0) is Some,
            self.cnt(self.spec_nth_nonzero(0).unwrap()) > 0,
    {
        if self.counts[0] > 0 {
            assert(self.spec_nth_nonzero_from(0, 0) == Some(res_of(0)));
        } else if self.counts[1] > 0 {
            assert(self.spec_nth_nonzero_from(0, 0) == self.spec_nth_nonzero_from(1, 0));
            assert(self.spec_nth_nonzero_from(1, 0) == Some(res_of(1)));
        } else if self.counts[2] > 0 {
            assert(self.spec_nth_nonzero_from(0, 0) == self.spec_nth_nonzero_from(1, 0));
            assert(self.spec_nth_nonzero_from(1, 0) == self.spec_nth_nonzero_from(2, 0));
            assert(self.spec_nth_nonzero_from(2, 0) == Some(res_of(2)));
        } else if self.counts[3] > 0 {
            assert(self.spec_nth_nonzero_from(0, 0) == self.spec_nth_nonzero_from(1, 0));
            assert(self.spec_nth_nonzero_from(1, 0) == self.spec_nth_nonzero_from(2, 0));
            assert(self.spec_nth_nonzero_from(2, 0) == self.spec_nth_nonzero_from(3, 0));
            assert(self.spec_nth_nonzero_from(3, 0) == Some(res_of(3)));
        } else {
            assert(self.counts[4] > 0);
            assert(self.spec_nth_nonzero_from(0, 0) == self.spec_nth_nonzero_from(1, 0));
            assert(self.spec_nth_nonzero_from(1, 0) == self.spec_nth_nonzero_from(2, 0));
            assert(self.spec_nth_nonzero_from(2, 0) == self.spec_nth_nonzero_from(3, 0));
            assert(self.spec_nth_nonzero_from(3, 0) == self.spec_nth_nonzero_from(4, 0));
            assert(self.spec_nth_nonzero_from(4, 0) == Some(res_of(4)));
        }
    }
}

/// The road cost per resource: one wood and one brick.
pub open spec fn spec_road_cost(r: Resource) -> int {
    match r {
        Resource::Wood => 1,
        Resource::Brick => 1,
        _ => 0,
    }
}

/// The settlement cost per resource: one each of wood, brick, wheat and sheep.
pub open spec fn spec_settlement_cost(r: Resource) -> int {
    match r {
        Resource::Wood => 1,
        Resource::Brick => 1,
        Resource::Wheat => 1,
        Resource::Sheep => 1,
        Resource::Ore => 0,
    }
}

/// The city cost per resource: two wheat and three ore.
pub open spec fn spec_city_cost(r: Resource) -> int {
    match r {
        Resource::Wheat => 2,
        Resource::Ore => 3,
        _ => 0,
    }
}

/// The development-card cost per resource: one each of wheat, sheep and ore.
pub open spec fn spec_dv_card_cost(r: Resource) -> int {
    match r {
        Resource::Wheat => 1,
        Resource::Sheep => 1,
        Resource::Ore => 1,
        _ => 0,
    }
}

/// The fixed cost of a road: one wood and one brick.
pub fn road_cost() -> (h: ResHand)
    ensures
        forall|r: Resource| #[trigger] h.cnt(r) == spec_road_cost(r),
        h.total() == 2,
{
    ResHand { counts: [1, 1, 0, 0, 0] }
}

/// The fixed cost of a settlement: one each of wood, brick, wheat and sheep.
pub fn settlement_cost() -> (h: ResHand)
    ensures
        forall|r: Resource| #[trigger] h.cnt(r) == spec_settlement_cost(r),
        h.total() == 4,
{
    ResHand { counts: [1, 1, 1, 1, 0] }
}

/// The fixed cost of a city: two wheat and three ore.
pub fn city_cost() -> (h: ResHand)
    ensures
        forall|r: Resource| #[trigger] h.cnt(r) == spec_city_cost(r),
        h.total() == 5,
{
    ResHand { counts: [0, 0, 2, 0, 3] }
}

/// The fixed cost of a development card: one each of wheat, sheep and ore.
pub fn dv_card_cost() -> (h: ResHand)
    ensures
        forall|r: Resource| #[trigger] h.cnt(r) == spec_dv_card_cost(r),
        h.total() == 3,
{
    ResHand { counts: [0, 0, 1, 1, 1] }
}

/// The bank's starting stock: nineteen of each resource.
pub fn starting_bank() -> (h: ResHand)
    ensures
        forall|r: Resource| #[trigger] h.cnt(r) == 19,
        h.total() == 95,
    {
    ResHand { counts: [19, 19, 19, 19, 19] }
}

/// The development-card bank's starting stock: fourteen knights, two each of
/// road building, year of plenty and monopoly, and five victory points.
pub fn starting_dv_bank() -> (h: DVHand)
    ensures
        h.cnt(DVCard::Knight) == 14,
        h.cnt(DVCard::RoadBuilding) == 2,
        h.cnt(DVCard::YearOfPlenty) == 2,
        h.cnt(DVCard::Monopoly) == 2,
        h.cnt(DVCard::VictoryPoint) == 5,
        h.total() == 25,
    {
    DVHand { counts: [14, 2, 2, 2, 5] }
}

} // verus!
