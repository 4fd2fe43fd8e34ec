//! A participant: their hand, development cards, victory points, bonus flags
//! and build pools, with the legality checks and mutations for that player's
//! own resources.
use vstd::prelude::*;

use crate::board::PlayerColor;
use crate::hands::{
    city_cost, dv_card_cost, road_cost, settlement_cost, spec_city_cost, spec_dv_card_cost,
    spec_road_cost, spec_settlement_cost, DVCard, DVHand, ResHand, Resource,
};

verus! {

/// A player: color, hands, victory points, bonus flags and build pools.
#[derive(Clone, Copy, Debug)]
pub struct Player {
    pub color: PlayerColor,
    pub is_human: bool,
    pub base_vps: usize,
    pub hand: ResHand,
    pub dvs: DVHand,
    pub new_dvs: DVHand,
    pub knights: usize,
    pub largest_army: bool,
    pub road_len: usize,
    pub longest_road: bool,
    pub road_pool: usize,
    pub settlement_pool: usize,
    pub city_pool: usize,
}

impl Player {
    /// Victory points: base points, plus one per victory-point card, plus two
    /// each for largest army and longest road.
    pub open spec fn spec_vps(self) -> int {
        self.base_vps + self.dvs.cnt(DVCard::VictoryPoint) + (if self.largest_army {
            2int
        } else {
            0
        }) + (if self.longest_road {
            2int
        } else {
            0
        })
    }

    /// The victory-point sum fits the machine word.
    pub open spec fn vps_fit(self) -> bool {
        self.base_vps + self.dvs.cnt(DVCard::VictoryPoint) + 4 <= usize::MAX
    }

    /// Returns a fresh player of the given color with empty hands, no points,
    /// and full build pools (15 roads, 5 settlements, 4 cities).
    pub fn new(color: PlayerColor, is_human: bool) -> (p: Player)
        ensures
            p.color == color,
            p.is_human == is_human,
            p.base_vps == 0,
            forall|r: Resource| p.hand.cnt(r) == 0,
            forall|d: DVCard| p.dvs.cnt(d) == 0,
            forall|d: DVCard| p.new_dvs.cnt(d) == 0,
            p.knights == 0,
            !p.largest_army,
            p.road_len == 0,
            !p.longest_road,
            p.road_pool == 15,
            p.settlement_pool == 5,
            p.city_pool == 4,
    {
        Player {
            color,
            is_human,
            base_vps: 0,
            hand: ResHand::new(),
            dvs: DVHand::new(),
            new_dvs: DVHand::new(),
            knights: 0,
            largest_army: false,
            road_len: 0,
            longest_road: false,
            road_pool: 15,
            settlement_pool: 5,
            city_pool: 4,
        }
    }

    /// Returns the player's color.
    pub fn get_color(&self) -> (c: PlayerColor)
        ensures
            c == self.color,
    {
        self.color
    }

    /// Returns the player's victory points.
    pub fn get_vps(&self) -> (n: usize)
        requires
            self.vps_fit(),
        ensures
            n == self.spec_vps(),
    {
        self.base_vps + self.dvs.get(DVCard::VictoryPoint) + (if self.largest_army {
            2
        } else {
            0
        }) + (if self.longest_road {
            2
        } else {
            0
        })
    }

    /// Returns the player's resource hand.
    pub fn get_hand(&self) -> (h: ResHand)
        ensures
            h == self.hand,
    {
        self.hand
    }

    /// Returns the playable development cards.
    pub fn get_dvs(&self) -> (h: DVHand)
        ensures
            h == self.dvs,
    {
        self.dvs
    }

    /// Returns the development cards bought this turn.
    pub fn get_new_dvs(&self) -> (h: DVHand)
        ensures
            h == self.new_dvs,
    {
        self.new_dvs
    }

    /// Returns the playable and freshly bought development cards together.
    pub fn get_combined_dvs(&self) -> (h: DVHand)
        requires
            self.dvs.can_add(self.new_dvs),
        ensures
            forall|d: DVCard| #[trigger] h.cnt(d) == self.dvs.cnt(d) + self.new_dvs.cnt(d),
    {
        let mut combined = self.dvs;
        combined.add(self.new_dvs);
        combined
    }

    /// Returns the number of knights the player has played.
    pub fn get_knights(&self) -> (n: usize)
        ensures
            n == self.knights,
    {
        self.knights
    }

    /// Sets the largest-army flag.
    pub fn set_largest_army(&mut self, value: bool)
        ensures
            (*final(self) == Player { largest_army: value, ..*old(self) }),
    {
        self.largest_army = value;
    }

    /// Sets the longest-road flag.
    pub fn set_longest_road(&mut self, value: bool)
        ensures
            (*final(self) == Player { longest_road: value, ..*old(self) }),
    {
        self.longest_road = value;
    }

    /// Records the player's longest road length.
    pub fn set_road_len(&mut self, value: usize)
        ensures
            (*final(self) == Player { road_len: value, ..*old(self) }),
    {
        self.road_len = value;
    }

    /// Returns whether the player has the given color.
    pub fn is_color(&self, color: PlayerColor) -> (b: bool)
        ensures
            b == (self.color == color),
    {
        self.color == color
    }

    /// Returns whether the player has reached ten victory points.
    pub fn has_won(&self) -> (b: bool)
        requires
            self.vps_fit(),
        ensures
            b == (self.spec_vps() >= 10),
    {
        self.get_vps() >= 10
    }

    /// Returns whether the player holds more than seven cards and must
    /// discard on a seven.
    pub fn must_discard(&self) -> (b: bool)
        requires
            self.hand.total() <= usize::MAX,
        ensures
            b == (self.hand.total() > 7),
    {
        self.hand.size() > 7
    }

    /// Adds a hand of cards to the player's hand.
    pub fn get_cards(&mut self, new: ResHand)
        requires
            old(self).hand.can_add(new),
        ensures
            forall|r: Resource| #[trigger]
                final(self).hand.cnt(r) == old(self).hand.cnt(r) + new.cnt(r),
            final(self).hand.total() == old(self).hand.total() + new.total(),
            (*final(self) == Player { hand: final(self).hand, ..*old(self) }),
    {
        self.hand.add(new);
    }

    /// Adds one card to the player's hand.
    pub fn get_card(&mut self, new: Resource)
        requires
            old(self).hand.cnt(new) < usize::MAX,
        ensures
            final(self).hand.cnt(new) == old(self).hand.cnt(new) + 1,
            forall|r: Resource| r != new ==> final(self).hand.cnt(r) == old(self).hand.cnt(r),
            final(self).hand.total() == old(self).hand.total() + 1,
            (*final(self) == Player { hand: final(self).hand, ..*old(self) }),
    {
        self.hand.add_card(new);
    }

    /// Removes a hand of cards from the player's hand.
    pub fn discard_cards(&mut self, lost: ResHand)
        requires
            old(self).hand.covers(lost),
        ensures
            forall|r: Resource| #[trigger]
                final(self).hand.cnt(r) == old(self).hand.cnt(r) - lost.cnt(r),
            final(self).hand.total() == old(self).hand.total() - lost.total(),
            (*final(self) == Player { hand: final(self).hand, ..*old(self) }),
    {
        self.hand.discard(lost);
    }

    /// Removes every card of one resource from the player's hand.
    pub fn discard_all(&mut self, lost: Resource)
        ensures
            final(self).hand.cnt(lost) == 0,
            forall|r: Resource| r != lost ==> final(self).hand.cnt(r) == old(self).hand.cnt(r),
            (*final(self) == Player { hand: final(self).hand, ..*old(self) }),
    {
        self.hand.discard_all(lost);
    }

    /// Removes the card at position `sel` of the hand laid out in slot order.
    pub fn discard_card_at(&mut self, sel: usize) -> (r: Resource)
        requires
            sel < old(self).hand.total(),
        ensures
            old(self).hand.cnt(r) > 0,
            final(self).hand.cnt(r) == old(self).hand.cnt(r) - 1,
            forall|x: Resource| x != r ==> final(self).hand.cnt(x) == old(self).hand.cnt(x),
            final(self).hand.total() == old(self).hand.total() - 1,
            (*final(self) == Player { hand: final(self).hand, ..*old(self) }),
    {
        self.hand.discard_at(sel)
    }

    /// Removes one uniformly random card from the player's hand, or returns
    /// `None` when the hand is empty. Whatever card is removed was present.
    pub fn discard_random_card(&mut self) -> (r: Option<Resource>)
        requires
            old(self).hand.total() <= usize::MAX,
        ensures
            match r {
                Some(res) => old(self).hand.cnt(res) > 0 && final(self).hand.cnt(res) == old(self).hand.cnt(res) - 1 && (forall|x: Resource|
                    x != res ==> final(self).hand.cnt(x) == old(self).hand.cnt(x)) && final(self).hand.total() == old(self).hand.total() - 1,
                None => old(self).hand.total() == 0 && final(self).hand == old(self).hand,
            },
            (*final(self) == Player { hand: final(self).hand, ..*old(self) }),
    {
        let n = self.hand.size();
        if n == 0 {
            return None;
        }
        let sel = crate::rng::random_below(n);
        Some(self.hand.discard_at(sel))
    }

    /// Returns whether the player can afford a development card.
    pub fn can_buy_dv(&self) -> (b: bool)
        ensures
            b == forall|r: Resource| #[trigger] self.hand.cnt(r) >= spec_dv_card_cost(r),
    {
        let cost = dv_card_cost();
        let b = self.hand.can_discard(cost);
        proof {
            if self.hand.covers(cost) {
                assert forall|r: Resource| #[trigger]
                    self.hand.cnt(r) >= spec_dv_card_cost(r) by {
                    assert(self.hand.cnt(r) >= cost.cnt(r));
                }
            } else {
                let r = choose|r: Resource| !(#[trigger] self.hand.cnt(r) >= cost.cnt(r));
                assert(!(self.hand.cnt(r) >= spec_dv_card_cost(r)));
            }
        }
        b
    }

    /// Returns whether the player can afford a road and has one left in the
    /// pool.
    pub fn can_build_road(&self) -> (b: bool)
        ensures
            b == ((forall|r: Resource| #[trigger] self.hand.cnt(r) >= spec_road_cost(r))
                && self.road_pool > 0),
    {
        let cost = road_cost();
        let b = self.hand.can_discard(cost);
        proof {
            if self.hand.covers(cost) {
                assert forall|r: Resource| #[trigger] self.hand.cnt(r) >= spec_road_cost(r) by {
                    assert(self.hand.cnt(r) >= cost.cnt(r));
                }
            } else {
                let r = choose|r: Resource| !(#[trigger] self.hand.cnt(r) >= cost.cnt(r));
                assert(!(self.hand.cnt(r) >= spec_road_cost(r)));
            }
        }
        b && self.road_pool > 0
    }

    /// Returns whether the player can afford a settlement and has one left in
    /// the pool.
    pub fn can_build_settlement(&self) -> (b: bool)
        ensures
            b == ((forall|r: Resource| #[trigger] self.hand.cnt(r) >= spec_settlement_cost(r))
                && self.settlement_pool > 0),
    {
        let cost = settlement_cost();
        let b = self.hand.can_discard(cost);
        proof {
            if self.hand.covers(cost) {
                assert forall|r: Resource| #[trigger]
                    self.hand.cnt(r) >= spec_settlement_cost(r) by {
                    assert(self.hand.cnt(r) >= cost.cnt(r));
                }
            } else {
                let r = choose|r: Resource| !(#[trigger] self.hand.cnt(r) >= cost.cnt(r));
                assert(!(self.hand.cnt(r) >= spec_settlement_cost(r)));
            }
        }
        b && self.settlement_pool > 0
    }

    /// Returns whether the player can afford a city and has one left in the
    /// pool.
    pub fn can_build_city(&self) -> (b: bool)
        ensures
            b == ((forall|r: Resource| #[trigger] self.hand.cnt(r) >= spec_city_cost(r))
                && self.city_pool > 0),
    {
        let cost = city_cost();
        let b = self.hand.can_discard(cost);
        proof {
            if self.hand.covers(cost) {
                assert forall|r: Resource| #[trigger] self.hand.cnt(r) >= spec_city_cost(r) by {
                    assert(self.hand.cnt(r) >= cost.cnt(r));
                }
            } else {
                let r = choose|r: Resource| !(#[trigger] self.hand.cnt(r) >= cost.cnt(r));
                assert(!(self.hand.cnt(r) >= spec_city_cost(r)));
            }
        }
        b && self.city_pool > 0
    }

    /// Pays for a development card and stores it among the cards bought this
    /// turn, unplayable until the turn cycles.
    pub fn buy_dv(&mut self, dv: DVCard)
        requires
            forall|r: Resource| #[trigger] old(self).hand.cnt(r) >= spec_dv_card_cost(r),
            old(self).new_dvs.cnt(dv) < usize::MAX,
        ensures
            forall|r: Resource| #[trigger]
                final(self).hand.cnt(r) == old(self).hand.cnt(r) - spec_dv_card_cost(r),
            final(self).new_dvs.cnt(dv) == old(self).new_dvs.cnt(dv) + 1,
            forall|d: DVCard| d != dv ==> final(self).new_dvs.cnt(d) == old(self).new_dvs.cnt(d),
            final(self).dvs == old(self).dvs,
            (*final(self) == Player {
                hand: final(self).hand,
                new_dvs: final(self).new_dvs,
                ..*old(self)
            }),
    {
        let cost = dv_card_cost();
        proof {
            assert forall|r: Resource| #[trigger] old(self).hand.cnt(r) >= cost.cnt(r) by {
                assert(old(self).hand.cnt(r) >= spec_dv_card_cost(r));
            }
        }
        self.hand.discard(cost);
        self.new_dvs.add_card(dv);
    }

    /// Pays for a road and takes one from the pool.
    pub fn build_road(&mut self)
        requires
            forall|r: Resource| #[trigger] old(self).hand.cnt(r) >= spec_road_cost(r),
            old(self).road_pool > 0,
        ensures
            forall|r: Resource| #[trigger]
                final(self).hand.cnt(r) == old(self).hand.cnt(r) - spec_road_cost(r),
            final(self).road_pool == old(self).road_pool - 1,
            (*final(self) == Player {
                hand: final(self).hand,
                road_pool: final(self).road_pool,
                ..*old(self)
            }),
    {
        let cost = road_cost();
        proof {
            assert forall|r: Resource| #[trigger] old(self).hand.cnt(r) >= cost.cnt(r) by {
                assert(old(self).hand.cnt(r) >= spec_road_cost(r));
            }
        }
        self.hand.discard(cost);
        self.road_pool = self.road_pool - 1;
    }

    /// Pays for a settlement, gains one base victory point, and takes one
    /// settlement from the pool.
    pub fn build_settlement(&mut self)
        requires
            forall|r: Resource| #[trigger] old(self).hand.cnt(r) >= spec_settlement_cost(r),
            old(self).settlement_pool > 0,
            old(self).base_vps < usize::MAX,
        ensures
            forall|r: Resource| #[trigger]
                final(self).hand.cnt(r) == old(self).hand.cnt(r) - spec_settlement_cost(r),
            final(self).settlement_pool == old(self).settlement_pool - 1,
            final(self).base_vps == old(self).base_vps + 1,
            (*final(self) == Player {
                hand: final(self).hand,
                settlement_pool: final(self).settlement_pool,
                base_vps: final(self).base_vps,
                ..*old(self)
            }),
    {
        let cost = settlement_cost();
        proof {
            assert forall|r: Resource| #[trigger] old(self).hand.cnt(r) >= cost.cnt(r) by {
                assert(old(self).hand.cnt(r) >= spec_settlement_cost(r));
            }
        }
        self.hand.discard(cost);
        self.base_vps = self.base_vps + 1;
        self.settlement_pool = self.settlement_pool - 1;
    }

    /// Takes one road from the pool during setup, at no cost.
    pub fn place_setup_road(&mut self)
        requires
            old(self).road_pool > 0,
        ensures
            final(self).road_pool == old(self).road_pool - 1,
            (*final(self) == Player { road_pool: final(self).road_pool, ..*old(self) }),
    {
        self.road_pool = self.road_pool - 1;
    }

    /// Takes one settlement from the pool during setup, at no cost, gaining
    /// one base victory point.
    pub fn place_setup_settlement(&mut self)
        requires
            old(self).settlement_pool > 0,
            old(self).base_vps < usize::MAX,
        ensures
            final(self).settlement_pool == old(self).settlement_pool - 1,
            final(self).base_vps == old(self).base_vps + 1,
            (*final(self) == Player {
                settlement_pool: final(self).settlement_pool,
                base_vps: final(self).base_vps,
                ..*old(self)
            }),
    {
        self.base_vps = self.base_vps + 1;
        self.settlement_pool = self.settlement_pool - 1;
    }

    /// Pays for a city, gains one base victory point, takes one city from
    /// the pool and returns the upgraded settlement piece to its pool.
    pub fn build_city(&mut self)
        requires
            forall|r: Resource| #[trigger] old(self).hand.cnt(r) >= spec_city_cost(r),
            old(self).city_pool > 0,
            old(self).base_vps < usize::MAX,
            old(self).settlement_pool < usize::MAX,
        ensures
            forall|r: Resource| #[trigger]
                final(self).hand.cnt(r) == old(self).hand.cnt(r) - spec_city_cost(r),
            final(self).city_pool == old(self).city_pool - 1,
            final(self).settlement_pool == old(self).settlement_pool + 1,
            final(self).base_vps == old(self).base_vps + 1,
            (*final(self) == Player {
                hand: final(self).hand,
                city_pool: final(self).city_pool,
                settlement_pool: final(self).settlement_pool,
                base_vps: final(self).base_vps,
                ..*old(self)
            }),
    {
        let cost = city_cost();
        proof {
            assert forall|r: Resource| #[trigger] old(self).hand.cnt(r) >= cost.cnt(r) by {
                assert(old(self).hand.cnt(r) >= spec_city_cost(r));
            }
        }
        self.hand.discard(cost);
        self.base_vps = self.base_vps + 1;
        self.city_pool = self.city_pool - 1;
        self.settlement_pool = self.settlement_pool + 1;
    }

    /// Plays one playable development card, counting knights.
    pub fn play_dv_card(&mut self, card: DVCard)
        requires
            old(self).dvs.cnt(card) > 0,
            card == DVCard::Knight ==> old(self).knights < usize::MAX,
        ensures
            final(self).dvs.cnt(card) == old(self).dvs.cnt(card) - 1,
            forall|d: DVCard| d != card ==> final(self).dvs.cnt(d) == old(self).dvs.cnt(d),
            final(self).knights == (if card == DVCard::Knight {
                old(self).knights + 1
            } else {
                old(self).knights as int
            }),
            (*final(self) == Player {
                dvs: final(self).dvs,
                knights: final(self).knights,
                ..*old(self)
            }),
    {
        self.dvs.discard_card(card);
        if matches!(card, DVCard::Knight) {
            self.knights = self.knights + 1;
        }
    }

    /// Moves the cards bought this turn into the playable pile; called once
    /// per pass of the turn.
    pub fn cycle_dvs(&mut self)
        requires
            old(self).dvs.can_add(old(self).new_dvs),
        ensures
            forall|d: DVCard| #[trigger]
                final(self).dvs.cnt(d) == old(self).dvs.cnt(d) + old(self).new_dvs.cnt(d),
            forall|d: DVCard| #[trigger] final(self).new_dvs.cnt(d) == 0,
            (*final(self) == Player {
                dvs: final(self).dvs,
                new_dvs: final(self).new_dvs,
                ..*old(self)
            }),
    {
        let adding = self.new_dvs;
        self.dvs.add(adding);
        self.new_dvs.clear();
    }
}

} // verus!
