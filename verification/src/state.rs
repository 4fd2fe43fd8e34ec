//! The turn/action state machine: the current actor and phase, the dice
//! roll, per-turn flags, and the commit/cancel protocol for pending
//! multi-resource selections (discard, trade, year of plenty, monopoly).
use vstd::prelude::*;

use crate::board::{Board, PlayerColor, Structure, StructureType};
use crate::coords::{
    coord_on_board, corner_canonical, edge_canonical, CornerCoord, EdgeCoord, HexCoord,
};
use crate::hands::{
    spec_city_cost, spec_dv_card_cost, spec_road_cost, spec_settlement_cost, DVCard, ResHand,
    Resource,
};
use crate::player::Player;

verus! {

/// The phase of the current turn: what kind of input the engine is waiting
/// for.
#[derive(Clone, Copy, PartialEq, Eq, Structural, Debug)]
pub enum Action {
    Idling,
    Discarding,
    MovingRobber,
    ChoosingVictim,
    BuildingRoad,
    BuildingSettlement,
    BuildingCity,
    RoadBuilding(bool),
}

/// A pending random event that the driver must resolve.
#[derive(Clone, Copy, PartialEq, Eq, Structural, Debug)]
pub enum RngAction {
    RollingDice,
    Stealing(PlayerColor),
    BuyingDV,
}

/// A pending multi-resource choice awaiting commit or cancellation: what is
/// being discarded, offered (give, get), picked for year of plenty, or chosen
/// for monopoly.
#[derive(Clone, Copy, Debug)]
pub enum Selector {
    Discarding(ResHand),
    Trading(ResHand, ResHand),
    Yopping(ResHand),
    Monopolizing(ResHand),
}

impl Selector {
    /// The hand being given or selected.
    pub open spec fn spec_bottom(self) -> ResHand {
        match self {
            Selector::Discarding(hand) => hand,
            Selector::Trading(give, _) => give,
            Selector::Yopping(hand) => hand,
            Selector::Monopolizing(hand) => hand,
        }
    }

    /// The hand being requested; only a trade has one.
    pub open spec fn spec_top(self) -> Option<ResHand> {
        match self {
            Selector::Trading(_, get) => Some(get),
            _ => None,
        }
    }

    /// Returns the hand being given or selected.
    pub fn get_bottom(&self) -> (h: ResHand)
        ensures
            h == self.spec_bottom(),
    {
        match self {
            Selector::Discarding(hand) => *hand,
            Selector::Trading(give, _) => *give,
            Selector::Yopping(hand) => *hand,
            Selector::Monopolizing(hand) => *hand,
        }
    }

    /// Returns the hand being requested, when this is a trade.
    pub fn get_top(&self) -> (h: Option<ResHand>)
        ensures
            h == self.spec_top(),
    {
        match self {
            Selector::Trading(_, get) => Some(*get),
            _ => None,
        }
    }

    /// The same selector shape with a new bottom hand.
    pub open spec fn spec_with_bottom(self, h: ResHand) -> Selector {
        match self {
            Selector::Discarding(_) => Selector::Discarding(h),
            Selector::Trading(_, get) => Selector::Trading(h, get),
            Selector::Yopping(_) => Selector::Yopping(h),
            Selector::Monopolizing(_) => Selector::Monopolizing(h),
        }
    }

    /// Adds one card to the bottom hand.
    pub fn add_bottom_card(&mut self, card: Resource)
        requires
            old(self).spec_bottom().cnt(card) < usize::MAX,
        ensures
            final(self).spec_bottom().cnt(card) == old(self).spec_bottom().cnt(card) + 1,
            forall|r: Resource|
                r != card ==> final(self).spec_bottom().cnt(r) == old(self).spec_bottom().cnt(r),
            final(self).spec_bottom().total() == old(self).spec_bottom().total() + 1,
            *final(self) == old(self).spec_with_bottom(final(self).spec_bottom()),
    {
        let mut h = self.get_bottom();
        h.add_card(card);
        *self = match self {
            Selector::Discarding(_) => Selector::Discarding(h),
            Selector::Trading(_, get) => Selector::Trading(h, *get),
            Selector::Yopping(_) => Selector::Yopping(h),
            Selector::Monopolizing(_) => Selector::Monopolizing(h),
        };
    }

    /// Removes one card from the bottom hand.
    pub fn discard_bottom_card(&mut self, card: Resource)
        requires
            old(self).spec_bottom().cnt(card) > 0,
        ensures
            final(self).spec_bottom().cnt(card) == old(self).spec_bottom().cnt(card) - 1,
            forall|r: Resource|
                r != card ==> final(self).spec_bottom().cnt(r) == old(self).spec_bottom().cnt(r),
            final(self).spec_bottom().total() == old(self).spec_bottom().total() - 1,
            *final(self) == old(self).spec_with_bottom(final(self).spec_bottom()),
    {
        let mut h = self.get_bottom();
        let single = ResHand::from_single(card);
        proof {
            assert forall|r: Resource| #[trigger] h.cnt(r) >= single.cnt(r) by {
                if r != card {
                    assert(single.cnt(r) == 0);
                }
            }
        }
        h.discard(single);
        *self = match self {
            Selector::Discarding(_) => Selector::Discarding(h),
            Selector::Trading(_, get) => Selector::Trading(h, *get),
            Selector::Yopping(_) => Selector::Yopping(h),
            Selector::Monopolizing(_) => Selector::Monopolizing(h),
        };
    }

    /// Adds one card to the requested hand of a trade.
    pub fn add_top_card(&mut self, card: Resource)
        requires
            (*old(self)) is Trading,
            old(self).spec_top().unwrap().cnt(card) < usize::MAX,
        ensures
            (*final(self)) is Trading,
            final(self).spec_bottom() == old(self).spec_bottom(),
            final(self).spec_top().unwrap().cnt(card) == old(self).spec_top().unwrap().cnt(card)
                + 1,
            forall|r: Resource|
                r != card ==> final(self).spec_top().unwrap().cnt(r) == old(self).spec_top().unwrap().cnt(r),
            final(self).spec_top().unwrap().total() == old(self).spec_top().unwrap().total() + 1,
    {
        match self {
            Selector::Trading(give, get) => {
                let mut h = *get;
                h.add_card(card);
                *self = Selector::Trading(*give, h);
            },
            _ => {},
        }
    }

    /// Removes one card from the requested hand of a trade.
    pub fn discard_top_card(&mut self, card: Resource)
        requires
            (*old(self)) is Trading,
            old(self).spec_top().unwrap().cnt(card) > 0,
        ensures
            (*final(self)) is Trading,
            final(self).spec_bottom() == old(self).spec_bottom(),
            final(self).spec_top().unwrap().cnt(card) == old(self).spec_top().unwrap().cnt(card)
                - 1,
            forall|r: Resource|
                r != card ==> final(self).spec_top().unwrap().cnt(r) == old(self).spec_top().unwrap().cnt(r),
            final(self).spec_top().unwrap().total() == old(self).spec_top().unwrap().total() - 1,
    {
        match self {
            Selector::Trading(give, get) => {
                let mut h = *get;
                let single = ResHand::from_single(card);
                proof {
                    assert forall|r: Resource| #[trigger] h.cnt(r) >= single.cnt(r) by {
                        if r != card {
                            assert(single.cnt(r) == 0);
                        }
                    }
                }
                h.discard(single);
                *self = Selector::Trading(*give, h);
            },
            _ => {},
        }
    }
}

/// A give offered for a get is reasonable: both sides are non-empty and no
/// resource appears on both sides.
pub open spec fn spec_trade_is_reasonable(give: ResHand, get: ResHand) -> bool {
    give.total() > 0 && get.total() > 0 && forall|r: Resource|
        #[trigger] give.cnt(r) == 0 || get.cnt(r) == 0
}

/// Returns whether a give offered for a get is reasonable.
pub fn trade_is_reasonable(give: ResHand, get: ResHand) -> (b: bool)
    requires
        give.total() <= usize::MAX,
        get.total() <= usize::MAX,
    ensures
        b == spec_trade_is_reasonable(give, get),
{
    if give.size() == 0 || get.size() == 0 {
        return false;
    }
    let mut i: usize = 0;
    while i < 5
        invariant
            i <= 5,
            forall|j: int|
                0 <= j < i ==> give.counts[j] == 0 || get.counts[j] == 0,
        decreases 5 - i,
    {
        if give.counts[i] != 0 && get.counts[i] != 0 {
            proof {
                assert(give.cnt(crate::hands::res_of(i as int)) != 0 && get.cnt(
                    crate::hands::res_of(i as int),
                ) != 0);
            }
            return false;
        }
        i = i + 1;
    }
    proof {
        assert forall|r: Resource| #[trigger] give.cnt(r) == 0 || get.cnt(r) == 0 by {
            let j = crate::hands::res_index(r);
            assert(0 <= j < 5);
        }
    }
    true
}

/// One throw of the two dice.
#[derive(Clone, Copy, PartialEq, Eq, Structural, Debug)]
pub struct DiceRoll {
    pub die1: usize,
    pub die2: usize,
}

/// The whole game: the board, the players, the bonus holders, the actor and
/// phase of the current turn, and any pending selection.
#[derive(Debug)]
pub struct GameState {
    pub num_players: usize,
    pub board: Board,
    pub players: Vec<Player>,
    pub largest_army: Option<PlayerColor>,
    pub largest_army_size: usize,
    pub longest_road: Option<PlayerColor>,
    pub longest_road_size: usize,
    pub current_player: usize,
    pub turn_player: usize,
    pub roll: Option<DiceRoll>,
    pub played_dv: bool,
    pub selector: Option<Selector>,
    pub offered_trades: Vec<(ResHand, ResHand)>,
    pub action: Action,
    pub rng_action: Option<RngAction>,
}

impl GameState {
    /// A well-formed game: the board is well formed and obeys the distance
    /// rule, the seats are consistent, and colors are distinct.
    pub open spec fn wf(self) -> bool {
        &&& self.board.wf()
        &&& self.board.distance_rule_ok()
        &&& self.players@.len() == self.num_players
        &&& 1 <= self.num_players <= 4
        &&& self.current_player < self.num_players
        &&& self.turn_player < self.num_players
        &&& forall|i: int, j: int|
            0 <= i < j < self.players@.len() ==> (#[trigger] self.players@[i]).color != (
            #[trigger] self.players@[j]).color
    }

    /// The color whose response is awaited.
    pub open spec fn spec_current_color(self) -> PlayerColor {
        self.players@[self.current_player as int].color
    }

    /// Returns the color whose response is awaited.
    pub fn get_current_color(&self) -> (c: PlayerColor)
        requires
            self.wf(),
        ensures
            c == self.spec_current_color(),
    {
        self.players[self.current_player].get_color()
    }

    /// Returns the player whose response is awaited.
    pub fn get_current_player(&self) -> (p: &Player)
        requires
            self.wf(),
        ensures
            p == self.players@[self.current_player as int],
    {
        &self.players[self.current_player]
    }

    /// Returns the seat of the player of `color`, if any seat holds it.
    pub fn find_player(&self, color: PlayerColor) -> (res: Option<usize>)
        ensures
            match res {
                Some(i) => i < self.players@.len() && self.players@[i as int].color == color,
                None => forall|i: int|
                    0 <= i < self.players@.len() ==> (#[trigger] self.players@[i]).color != color,
            },
    {
        let mut i: usize = 0;
        while i < self.players.len()
            invariant
                i <= self.players@.len(),
                forall|j: int|
                    0 <= j < i ==> (#[trigger] self.players@[j]).color != color,
            decreases self.players@.len() - i,
        {
            if self.players[i].is_color(color) {
                return Some(i);
            }
            i = i + 1;
        }
        None
    }

    /// Returns the player of `color`, if any seat holds it.
    pub fn get_player(&self, color: PlayerColor) -> (res: Option<&Player>)
        ensures
            match res {
                Some(p) => exists|i: int|
                    0 <= i < self.players@.len() && #[trigger] self.players@[i] == *p && p.color
                        == color,
                None => forall|i: int|
                    0 <= i < self.players@.len() ==> (#[trigger] self.players@[i]).color != color,
            },
    {
        match self.find_player(color) {
            Some(i) => {
                let p = &self.players[i];
                proof {
                    assert(self.players@[i as int] == *p);
                }
                Some(p)
            },
            None => None,
        }
    }

    /// Returns the seat colors in seat order.
    pub fn get_order(&self) -> (v: Vec<PlayerColor>)
        ensures
            v@.len() == self.players@.len(),
            forall|i: int|
                0 <= i < v@.len() ==> #[trigger] v@[i] == self.players@[i].color,
    {
        let mut v: Vec<PlayerColor> = Vec::new();
        let mut i: usize = 0;
        while i < self.players.len()
            invariant
                i <= self.players@.len(),
                v@.len() == i,
                forall|j: int| 0 <= j < i ==> #[trigger] v@[j] == self.players@[j].color,
            decreases self.players@.len() - i,
        {
            v.push(self.players[i].get_color());
            i = i + 1;
        }
        v
    }

    /// Returns whether it is the turn of the player of `color` to respond.
    pub fn is_players_turn(&self, color: PlayerColor) -> (b: bool)
        requires
            self.wf(),
        ensures
            b == (self.spec_current_color() == color),
    {
        self.get_current_color() == color
    }
}


impl GameState {
    /// The current player can afford a development card and one is left in
    /// the bank.
    pub open spec fn spec_can_buy_dv(self) -> bool {
        (forall|r: Resource|
            #[trigger] self.players@[self.current_player as int].hand.cnt(r) >= spec_dv_card_cost(
                r,
            )) && self.board.dv_bank.total() > 0
    }

    /// Returns whether the current player can buy a development card.
    pub fn can_buy_dv(&self) -> (b: bool)
        requires
            self.wf(),
        ensures
            b == self.spec_can_buy_dv(),
    {
        self.get_current_player().can_buy_dv() && self.board.can_draw_dv_card()
    }

    /// The current player can afford a road, has a road piece left, and some
    /// edge admits one.
    pub open spec fn spec_can_build_road(self) -> bool {
        &&& forall|r: Resource|
            #[trigger] self.players@[self.current_player as int].hand.cnt(r) >= spec_road_cost(r)
        &&& self.players@[self.current_player as int].road_pool > 0
        &&& exists|k: (int, int, int)|
            coord_on_board(k) && edge_canonical(k) && #[trigger] self.board.spec_can_place_road(
                k,
                self.spec_current_color(),
            )
    }

    /// Returns whether the current player can build a road somewhere.
    pub fn can_build_road(&self) -> (b: bool)
        requires
            self.wf(),
        ensures
            b == self.spec_can_build_road(),
    {
        self.get_current_player().can_build_road() && self.board.can_place_any_road(
            self.get_current_color(),
        )
    }

    /// The current player can afford a settlement, has a piece left, and some
    /// corner admits one.
    pub open spec fn spec_can_build_settlement(self) -> bool {
        &&& forall|r: Resource|
            #[trigger] self.players@[self.current_player as int].hand.cnt(r)
                >= spec_settlement_cost(r)
        &&& self.players@[self.current_player as int].settlement_pool > 0
        &&& exists|k: (int, int, int)|
            coord_on_board(k) && corner_canonical(k)
                && #[trigger] self.board.spec_can_place_settlement(k, self.spec_current_color())
    }

    /// Returns whether the current player can build a settlement somewhere.
    pub fn can_build_settlement(&self) -> (b: bool)
        requires
            self.wf(),
        ensures
            b == self.spec_can_build_settlement(),
    {
        self.get_current_player().can_build_settlement() && self.board.can_place_any_settlement(
            self.get_current_color(),
        )
    }

    /// The current player can afford a city, has a piece left, and owns a
    /// settlement to upgrade.
    pub open spec fn spec_can_build_city(self) -> bool {
        &&& forall|r: Resource|
            #[trigger] self.players@[self.current_player as int].hand.cnt(r) >= spec_city_cost(r)
        &&& self.players@[self.current_player as int].city_pool > 0
        &&& exists|k: (int, int, int)|
            coord_on_board(k) && corner_canonical(k) && #[trigger] self.board.spec_can_place_city(
                k,
                self.spec_current_color(),
            )
    }

    /// Returns whether the current player can build a city somewhere.
    pub fn can_build_city(&self) -> (b: bool)
        requires
            self.wf(),
        ensures
            b == self.spec_can_build_city(),
    {
        self.get_current_player().can_build_city() && self.board.can_place_any_city(
            self.get_current_color(),
        )
    }

    /// The five action gates offered to `color`: buy a development card,
    /// build a road, a settlement, a city, or pass. All closed when it is not
    /// that player's turn, before the roll, and in every phase but idling and
    /// the three build phases.
    pub open spec fn spec_available_actions(self, color: PlayerColor) -> Seq<bool> {
        if color != self.spec_current_color() || self.roll is None {
            seq![false, false, false, false, false]
        } else {
            match self.action {
                Action::Idling => seq![
                    self.spec_can_buy_dv(),
                    self.spec_can_build_road(),
                    self.spec_can_build_settlement(),
                    self.spec_can_build_city(),
                    true,
                ],
                Action::BuildingRoad => seq![false, true, false, false, false],
                Action::BuildingSettlement => seq![false, false, true, false, false],
                Action::BuildingCity => seq![false, false, false, true, false],
                _ => seq![false, false, false, false, false],
            }
        }
    }

    /// Returns the five action gates offered to `color`.
    pub fn get_available_actions(&self, color: PlayerColor) -> (acts: [bool; 5])
        requires
            self.wf(),
        ensures
            acts@ == self.spec_available_actions(color),
    {
        if color != self.get_current_color() || self.roll.is_none() {
            let acts = [false, false, false, false, false];
            proof {
                assert(acts@ =~= self.spec_available_actions(color));
            }
            return acts;
        }
        let acts = match self.action {
            Action::Idling => [
                self.can_buy_dv(),
                self.can_build_road(),
                self.can_build_settlement(),
                self.can_build_city(),
                true,
            ],
            Action::BuildingRoad => [false, true, false, false, false],
            Action::BuildingSettlement => [false, false, true, false, false],
            Action::BuildingCity => [false, false, false, true, false],
            _ => [false, false, false, false, false],
        };
        proof {
            assert(acts@ =~= self.spec_available_actions(color));
        }
        acts
    }

    /// Rolls the two dice and records the throw; returns the sum.
    pub fn roll_dice(&mut self) -> (sum: usize)
        ensures
            final(self).roll is Some,
            1 <= final(self).roll.unwrap().die1 <= 6,
            1 <= final(self).roll.unwrap().die2 <= 6,
            sum == final(self).roll.unwrap().die1 + final(self).roll.unwrap().die2,
            (*final(self) == GameState { roll: final(self).roll, ..*old(self) }),
    {
        let d1 = crate::rng::random_below(6) + 1;
        let d2 = crate::rng::random_below(6) + 1;
        self.roll = Some(DiceRoll { die1: d1, die2: d2 });
        d1 + d2
    }

    /// Every player's hand has room for any single roll's payout.
    pub open spec fn hands_have_room(self) -> bool {
        forall|j: int, r: Resource|
            0 <= j < self.players@.len() ==> (#[trigger] self.players@[j].hand.cnt(r)) + 300
                <= usize::MAX
    }

    /// Distributes the payout of a rolled number: every player receives, for
    /// each unrobbed matching hex, one card of its resource per settlement and
    /// two per city they own on its corners.
    pub fn give_resources(&mut self, roll: usize)
        requires
            old(self).wf(),
            old(self).hands_have_room(),
        ensures
            final(self).wf(),
            final(self).players@.len() == old(self).players@.len(),
            forall|j: int, r: Resource|
                0 <= j < old(self).players@.len() ==> (#[trigger] final(self).players@[j].hand.cnt(
                    r,
                )) == old(self).players@[j].hand.cnt(r) + old(self).board.spec_roll_yield(
                    roll as int,
                    old(self).players@[j].color,
                    r,
                ),
            forall|j: int|
                0 <= j < old(self).players@.len() ==> (#[trigger] final(self).players@[j])
                    == (Player { hand: final(self).players@[j].hand, ..old(self).players@[j] }),
            (*final(self) == GameState { players: final(self).players, ..*old(self) }),
    {
        let order = self.get_order();
        let resources = self.board.get_new_resources(&order, roll);
        let ghost pre = *self;
        let mut idx: usize = 0;
        while idx < self.players.len()
            invariant
                pre.wf(),
                pre.hands_have_room(),
                self.players@.len() == pre.players@.len(),
                resources@.len() == pre.players@.len(),
                forall|j: int, r: Resource|
                    0 <= j < pre.players@.len() ==> (#[trigger] resources@[j].cnt(r))
                        == pre.board.spec_roll_yield(roll as int, pre.players@[j].color, r),
                idx <= pre.players@.len(),
                forall|j: int, r: Resource|
                    0 <= j < idx ==> (#[trigger] self.players@[j].hand.cnt(r))
                        == pre.players@[j].hand.cnt(r) + pre.board.spec_roll_yield(
                        roll as int,
                        pre.players@[j].color,
                        r,
                    ),
                forall|j: int|
                    0 <= j < idx ==> (#[trigger] self.players@[j]) == (Player {
                        hand: self.players@[j].hand,
                        ..pre.players@[j]
                    }),
                forall|j: int|
                    idx <= j < pre.players@.len() ==> (#[trigger] self.players@[j])
                        == pre.players@[j],
                (*self == GameState { players: self.players, ..pre }),
            decreases self.players@.len() - idx,
        {
            let mut p = self.players[idx];
            proof {
                assert forall|r: Resource| #[trigger]
                    p.hand.cnt(r) + resources@[idx as int].cnt(r) <= usize::MAX by {
                    pre.board.lemma_roll_yield_bound(
                        roll as int,
                        pre.players@[idx as int].color,
                        r,
                    );
                    assert(pre.players@[idx as int].hand.cnt(r) + 300 <= usize::MAX);
                }
            }
            p.get_cards(resources[idx]);
            self.players.set(idx, p);
            idx = idx + 1;
        }
    }

    /// Opens an empty trade offer.
    pub fn open_trade_menu(&mut self)
        ensures
            (*final(self) == GameState { selector: final(self).selector, ..*old(self) }),
            match final(self).selector {
                Some(s) => (s is Trading) && s.spec_bottom().total() == 0
                    && s.spec_top().unwrap().total() == 0,
                None => false,
            },
    {
        self.selector = Some(Selector::Trading(ResHand::new(), ResHand::new()));
    }

    /// Abandons the pending selection.
    pub fn cancel_selector(&mut self)
        ensures
            (*final(self) == GameState { selector: None, ..*old(self) }),
    {
        self.selector = None;
    }

    /// A pending selection may be abandoned unless it is a mandatory
    /// discard.
    pub open spec fn spec_can_cancel_selector(self) -> bool {
        !(self.selector.unwrap() is Discarding)
    }

    /// Returns whether the pending selection may be abandoned.
    pub fn can_cancel_selector(&self) -> (b: bool)
        requires
            self.selector is Some,
        ensures
            b == self.spec_can_cancel_selector(),
    {
        match self.selector {
            Some(Selector::Discarding(_)) => false,
            _ => true,
        }
    }

    /// One more card of `card` may go into the bottom hand: bounded by the
    /// current player's hand for a discard or trade give, by two cards for
    /// year of plenty, and by one pick for monopoly.
    pub open spec fn spec_can_add_to_bottom(self, card: Resource) -> bool {
        match self.selector.unwrap() {
            Selector::Discarding(hand) => hand.cnt(card) < self.players@[self.current_player as int].hand.cnt(card),
            Selector::Trading(give, _) => give.cnt(card) < self.players@[self.current_player as int].hand.cnt(card),
            Selector::Yopping(hand) => hand.total() < 2,
            Selector::Monopolizing(hand) => hand.total() < 1,
        }
    }

    /// Returns whether one more card of `card` may go into the bottom hand.
    pub fn can_add_to_bottom(&self, card: Resource) -> (b: bool)
        requires
            self.wf(),
            self.selector is Some,
            self.selector.unwrap().spec_bottom().total() <= usize::MAX,
        ensures
            b == self.spec_can_add_to_bottom(card),
    {
        let pool = self.get_current_player().get_hand().get(card);
        match &self.selector {
            Some(Selector::Discarding(hand)) => hand.get(card) < pool,
            Some(Selector::Trading(give, _)) => give.get(card) < pool,
            Some(Selector::Yopping(hand)) => hand.size() < 2,
            Some(Selector::Monopolizing(hand)) => hand.size() < 1,
            None => false,
        }
    }

    /// One more card of `card` may be requested: only in a trade, bounded by
    /// the bank's stock of nineteen.
    pub open spec fn spec_can_add_to_top(self, card: Resource) -> bool {
        match self.selector.unwrap() {
            Selector::Trading(_, get) => get.cnt(card) < 19,
            _ => false,
        }
    }

    /// Returns whether one more card of `card` may be requested.
    pub fn can_add_to_top(&self, card: Resource) -> (b: bool)
        requires
            self.selector is Some,
        ensures
            b == self.spec_can_add_to_top(card),
    {
        match &self.selector {
            Some(Selector::Trading(_, get)) => get.get(card) < 19,
            _ => false,
        }
    }

    /// A card of `card` may leave the bottom hand.
    pub open spec fn spec_can_discard_from_bottom(self, card: Resource) -> bool {
        self.selector.unwrap().spec_bottom().cnt(card) > 0
    }

    /// Returns whether a card of `card` may leave the bottom hand.
    pub fn can_discard_from_bottom(&self, card: Resource) -> (b: bool)
        requires
            self.selector is Some,
        ensures
            b == self.spec_can_discard_from_bottom(card),
    {
        match &self.selector {
            Some(s) => s.get_bottom().get(card) > 0,
            None => false,
        }
    }

    /// A card of `card` may leave the requested hand of a trade.
    pub open spec fn spec_can_discard_from_top(self, card: Resource) -> bool {
        match self.selector.unwrap() {
            Selector::Trading(_, get) => get.cnt(card) > 0,
            _ => false,
        }
    }

    /// Returns whether a card of `card` may leave the requested hand.
    pub fn can_discard_from_top(&self, card: Resource) -> (b: bool)
        requires
            self.selector is Some,
        ensures
            b == self.spec_can_discard_from_top(card),
    {
        match &self.selector {
            Some(Selector::Trading(_, get)) => get.get(card) > 0,
            _ => false,
        }
    }

    /// Returns the pending selection.
    pub fn get_selector(&self) -> (s: &Selector)
        requires
            self.selector is Some,
        ensures
            *s == self.selector.unwrap(),
    {
        self.selector.as_ref().unwrap()
    }

    /// Adds one card of `card` to the bottom hand of the pending selection.
    pub fn selector_add_bottom(&mut self, card: Resource)
        requires
            old(self).selector is Some,
            old(self).selector.unwrap().spec_bottom().cnt(card) < usize::MAX,
        ensures
            final(self).selector is Some,
            final(self).selector.unwrap() == old(self).selector.unwrap().spec_with_bottom(
                final(self).selector.unwrap().spec_bottom(),
            ),
            final(self).selector.unwrap().spec_bottom().cnt(card) == old(self).selector.unwrap().spec_bottom().cnt(card) + 1,
            forall|r: Resource|
                r != card ==> final(self).selector.unwrap().spec_bottom().cnt(r) == old(self).selector.unwrap().spec_bottom().cnt(r),
            final(self).selector.unwrap().spec_bottom().total() == old(self).selector.unwrap().spec_bottom().total() + 1,
            (*final(self) == GameState { selector: final(self).selector, ..*old(self) }),
    {
        let mut s = self.selector.unwrap();
        s.add_bottom_card(card);
        self.selector = Some(s);
    }

    /// Removes one card of `card` from the bottom hand of the pending
    /// selection.
    pub fn selector_discard_bottom(&mut self, card: Resource)
        requires
            old(self).selector is Some,
            old(self).selector.unwrap().spec_bottom().cnt(card) > 0,
        ensures
            final(self).selector is Some,
            final(self).selector.unwrap() == old(self).selector.unwrap().spec_with_bottom(
                final(self).selector.unwrap().spec_bottom(),
            ),
            final(self).selector.unwrap().spec_bottom().cnt(card) == old(self).selector.unwrap().spec_bottom().cnt(card) - 1,
            forall|r: Resource|
                r != card ==> final(self).selector.unwrap().spec_bottom().cnt(r) == old(self).selector.unwrap().spec_bottom().cnt(r),
            (*final(self) == GameState { selector: final(self).selector, ..*old(self) }),
    {
        let mut s = self.selector.unwrap();
        s.discard_bottom_card(card);
        self.selector = Some(s);
    }

    /// Adds one card of `card` to the requested hand of a pending trade.
    pub fn selector_add_top(&mut self, card: Resource)
        requires
            old(self).selector is Some,
            old(self).selector.unwrap() is Trading,
            old(self).selector.unwrap().spec_top().unwrap().cnt(card) < usize::MAX,
        ensures
            final(self).selector is Some,
            final(self).selector.unwrap() is Trading,
            final(self).selector.unwrap().spec_bottom() == old(self).selector.unwrap().spec_bottom(),
            final(self).selector.unwrap().spec_top().unwrap().cnt(card) == old(self).selector.unwrap().spec_top().unwrap().cnt(card) + 1,
            forall|r: Resource|
                r != card ==> final(self).selector.unwrap().spec_top().unwrap().cnt(r) == old(self).selector.unwrap().spec_top().unwrap().cnt(r),
            (*final(self) == GameState { selector: final(self).selector, ..*old(self) }),
    {
        let mut s = self.selector.unwrap();
        s.add_top_card(card);
        self.selector = Some(s);
    }

    /// Removes one card of `card` from the requested hand of a pending
    /// trade.
    pub fn selector_discard_top(&mut self, card: Resource)
        requires
            old(self).selector is Some,
            old(self).selector.unwrap() is Trading,
            old(self).selector.unwrap().spec_top().unwrap().cnt(card) > 0,
        ensures
            final(self).selector is Some,
            final(self).selector.unwrap() is Trading,
            final(self).selector.unwrap().spec_bottom() == old(self).selector.unwrap().spec_bottom(),
            final(self).selector.unwrap().spec_top().unwrap().cnt(card) == old(self).selector.unwrap().spec_top().unwrap().cnt(card) - 1,
            forall|r: Resource|
                r != card ==> final(self).selector.unwrap().spec_top().unwrap().cnt(r) == old(self).selector.unwrap().spec_top().unwrap().cnt(r),
            (*final(self) == GameState { selector: final(self).selector, ..*old(self) }),
    {
        let mut s = self.selector.unwrap();
        s.discard_top_card(card);
        self.selector = Some(s);
    }

    /// Returns whether the trade of `give` for `get` executes against the
    /// bank for the current player.
    pub fn can_trade_with_bank(&self, give: ResHand, get: ResHand) -> (b: bool)
        requires
            self.wf(),
            give.total() <= usize::MAX,
            get.total() <= usize::MAX,
        ensures
            b == self.board.spec_can_trade_with_bank(give, get, self.spec_current_color()),
    {
        let color = self.get_current_color();
        self.board.can_trade_with_bank(give, get, color)
    }

    /// The pending selection may be committed: a discard holds exactly half
    /// the hand (rounded down), a trade is reasonable, a year-of-plenty pick
    /// holds exactly two cards, and a monopoly pick exactly one.
    pub open spec fn spec_can_execute_selector(self) -> bool {
        match self.selector.unwrap() {
            Selector::Discarding(hand) => hand.total() == self.players@[self.current_player as int].hand.total() / 2,
            Selector::Trading(give, get) => spec_trade_is_reasonable(give, get),
            Selector::Yopping(hand) => hand.total() == 2,
            Selector::Monopolizing(hand) => hand.total() == 1,
        }
    }

    /// Returns whether the pending selection may be committed.
    pub fn can_execute_selector(&self) -> (b: bool)
        requires
            self.wf(),
            self.selector is Some,
            self.selector.unwrap().spec_bottom().total() <= usize::MAX,
            (self.selector.unwrap() is Trading) ==> self.selector.unwrap().spec_top().unwrap().total() <= usize::MAX,
            self.players@[self.current_player as int].hand.total() <= usize::MAX,
        ensures
            b == self.spec_can_execute_selector(),
    {
        match &self.selector {
            Some(Selector::Discarding(hand)) => {
                hand.size() == self.get_current_player().get_hand().size() / 2
            },
            Some(Selector::Trading(give, get)) => trade_is_reasonable(*give, *get),
            Some(Selector::Yopping(hand)) => hand.size() == 2,
            Some(Selector::Monopolizing(hand)) => hand.size() == 1,
            None => false,
        }
    }

    /// Ends the turn: the cards bought this turn become playable, the next
    /// seat becomes both turn player and current player, and the roll, the
    /// played-card flag, the offered trades and the phase are reset.
    pub fn pass_turn(&mut self)
        requires
            old(self).wf(),
            old(self).players@[old(self).current_player as int].dvs.can_add(
                old(self).players@[old(self).current_player as int].new_dvs,
            ),
        ensures
            final(self).wf(),
            ({
                let cur = old(self).current_player as int;
                let p = old(self).players@[cur];
                &&& forall|d: DVCard| #[trigger]
                    final(self).players@[cur].dvs.cnt(d) == p.dvs.cnt(d) + p.new_dvs.cnt(d)
                &&& forall|d: DVCard| #[trigger] final(self).players@[cur].new_dvs.cnt(d) == 0
                &&& final(self).players@ == old(self).players@.update(
                    cur,
                    final(self).players@[cur],
                )
                &&& final(self).players@[cur] == (Player {
                    dvs: final(self).players@[cur].dvs,
                    new_dvs: final(self).players@[cur].new_dvs,
                    ..p
                })
            }),
            final(self).turn_player == (old(self).turn_player + 1) % (old(self).num_players as int),
            final(self).current_player == final(self).turn_player,
            final(self).roll is None,
            !final(self).played_dv,
            final(self).offered_trades@.len() == 0,
            final(self).action is Idling,
            final(self).board == old(self).board,
            final(self).num_players == old(self).num_players,
            final(self).selector == old(self).selector,
            final(self).largest_army == old(self).largest_army,
            final(self).largest_army_size == old(self).largest_army_size,
            final(self).longest_road == old(self).longest_road,
            final(self).longest_road_size == old(self).longest_road_size,
            final(self).rng_action == old(self).rng_action,
    {
        let cur = self.current_player;
        let mut p = self.players[cur];
        p.cycle_dvs();
        self.players.set(cur, p);
        self.turn_player = (self.turn_player + 1) % self.num_players;
        self.current_player = self.turn_player;
        self.roll = None;
        self.played_dv = false;
        self.offered_trades = Vec::new();
        self.action = Action::Idling;
    }
}


impl GameState {
    /// Builds a road for the current player on the physical edge named by
    /// `edge`: the road is written at every duplicate coordinate, the player
    /// pays the road cost, the bank receives it, and one road piece leaves
    /// the pool.
    pub fn build_road(&mut self, edge: EdgeCoord)
        requires
            old(self).wf(),
            coord_on_board(edge@),
            old(self).board.spec_can_place_road(edge@, old(self).spec_current_color()),
            forall|r: Resource| #[trigger]
                old(self).players@[old(self).current_player as int].hand.cnt(r) >= spec_road_cost(
                    r,
                ),
            old(self).players@[old(self).current_player as int].road_pool > 0,
            old(self).board.bank_has_room(),
        ensures
            final(self).wf(),
            ({
                let cur = old(self).current_player as int;
                let color = old(self).spec_current_color();
                &&& forall|m: (int, int, int)|
                    coord_on_board(m) && crate::coords::spec_reduce_edge(m)
                        == crate::coords::spec_reduce_edge(edge@) ==> final(self).board.road_at(m)
                        == Some(color)
                &&& forall|m: (int, int, int)|
                    coord_on_board(m) && crate::coords::spec_reduce_edge(m)
                        != crate::coords::spec_reduce_edge(edge@) ==> final(self).board.road_at(m)
                        == old(self).board.road_at(m)
                &&& forall|r: Resource| #[trigger]
                    final(self).board.bank.cnt(r) == old(self).board.bank.cnt(r) + spec_road_cost(
                        r,
                    )
                &&& forall|r: Resource| #[trigger]
                    final(self).players@[cur].hand.cnt(r) == old(self).players@[cur].hand.cnt(r)
                        - spec_road_cost(r)
                &&& forall|r: Resource|
                    final(self).board.bank.cnt(r) + final(self).players@[cur].hand.cnt(r) == old(self).board.bank.cnt(r) + old(self).players@[cur].hand.cnt(r)
                &&& final(self).players@[cur].road_pool == old(self).players@[cur].road_pool - 1
                &&& final(self).players@[cur] == (Player {
                    hand: final(self).players@[cur].hand,
                    road_pool: final(self).players@[cur].road_pool,
                    ..old(self).players@[cur]
                })
                &&& final(self).players@ == old(self).players@.update(
                    cur,
                    final(self).players@[cur],
                )
                &&& final(self).board.structures@ == old(self).board.structures@
                &&& final(self).board.hexes@ == old(self).board.hexes@
                &&& final(self).board.ports@ == old(self).board.ports@
                &&& final(self).board.robber == old(self).board.robber
                &&& final(self).board.dv_bank == old(self).board.dv_bank
            }),
            (*final(self) == GameState {
                board: final(self).board,
                players: final(self).players,
                ..*old(self)
            }),
    {
        let color = self.get_current_color();
        self.board.place_road(edge, color);
        let cur = self.current_player;
        let mut p = self.players[cur];
        p.build_road();
        self.players.set(cur, p);
        proof {
            Board::lemma_distance_rule_same_structures(old(self).board, self.board);
        }
    }

    /// Builds a settlement for the current player on the physical corner
    /// named by `corner`: the settlement is written at every duplicate
    /// coordinate, the player pays the settlement cost and gains a point, and
    /// the distance rule is preserved.
    pub fn build_settlement(&mut self, corner: CornerCoord)
        requires
            old(self).wf(),
            coord_on_board(corner@),
            old(self).board.spec_can_place_settlement(corner@, old(self).spec_current_color()),
            forall|r: Resource| #[trigger]
                old(self).players@[old(self).current_player as int].hand.cnt(r)
                    >= spec_settlement_cost(r),
            old(self).players@[old(self).current_player as int].settlement_pool > 0,
            old(self).players@[old(self).current_player as int].base_vps < usize::MAX,
            old(self).board.bank_has_room(),
        ensures
            final(self).wf(),
            ({
                let cur = old(self).current_player as int;
                let color = old(self).spec_current_color();
                &&& forall|m: (int, int, int)|
                    coord_on_board(m) && crate::coords::spec_reduce_corner(m)
                        == crate::coords::spec_reduce_corner(corner@) ==> final(self).board.structure_at(m) == Some(
                        Structure { structure_type: StructureType::Settlement, color },
                    )
                &&& forall|m: (int, int, int)|
                    coord_on_board(m) && crate::coords::spec_reduce_corner(m)
                        != crate::coords::spec_reduce_corner(corner@) ==> final(self).board.structure_at(m) == old(self).board.structure_at(m)
                &&& forall|r: Resource| #[trigger]
                    final(self).board.bank.cnt(r) == old(self).board.bank.cnt(r)
                        + spec_settlement_cost(r)
                &&& forall|r: Resource| #[trigger]
                    final(self).players@[cur].hand.cnt(r) == old(self).players@[cur].hand.cnt(r)
                        - spec_settlement_cost(r)
                &&& forall|r: Resource|
                    final(self).board.bank.cnt(r) + final(self).players@[cur].hand.cnt(r) == old(self).board.bank.cnt(r) + old(self).players@[cur].hand.cnt(r)
                &&& final(self).players@[cur].settlement_pool == old(self).players@[cur].settlement_pool - 1
                &&& final(self).players@[cur].base_vps == old(self).players@[cur].base_vps + 1
                &&& final(self).players@[cur] == (Player {
                    hand: final(self).players@[cur].hand,
                    settlement_pool: final(self).players@[cur].settlement_pool,
                    base_vps: final(self).players@[cur].base_vps,
                    ..old(self).players@[cur]
                })
                &&& final(self).players@ == old(self).players@.update(
                    cur,
                    final(self).players@[cur],
                )
                &&& final(self).board.roads@ == old(self).board.roads@
                &&& final(self).board.hexes@ == old(self).board.hexes@
                &&& final(self).board.ports@ == old(self).board.ports@
                &&& final(self).board.robber == old(self).board.robber
                &&& final(self).board.dv_bank == old(self).board.dv_bank
            }),
            (*final(self) == GameState {
                board: final(self).board,
                players: final(self).players,
                ..*old(self)
            }),
    {
        let color = self.get_current_color();
        self.board.place_settlement(corner, color);
        let cur = self.current_player;
        let mut p = self.players[cur];
        p.build_settlement();
        self.players.set(cur, p);
        proof {
            Board::lemma_settlement_keeps_distance_rule(
                old(self).board,
                self.board,
                corner@,
                Structure { structure_type: StructureType::Settlement, color },
            );
        }
    }

    /// Upgrades the current player's settlement at `corner` to a city: the
    /// player pays the city cost, gains a point, returns the settlement piece
    /// to its pool and takes a city piece.
    pub fn build_city(&mut self, corner: CornerCoord)
        requires
            old(self).wf(),
            coord_on_board(corner@),
            old(self).board.spec_can_place_city(corner@, old(self).spec_current_color()),
            forall|r: Resource| #[trigger]
                old(self).players@[old(self).current_player as int].hand.cnt(r) >= spec_city_cost(
                    r,
                ),
            old(self).players@[old(self).current_player as int].city_pool > 0,
            old(self).players@[old(self).current_player as int].base_vps < usize::MAX,
            old(self).players@[old(self).current_player as int].settlement_pool < usize::MAX,
            old(self).board.bank_has_room(),
        ensures
            final(self).wf(),
            ({
                let cur = old(self).current_player as int;
                let color = old(self).spec_current_color();
                &&& forall|m: (int, int, int)|
                    coord_on_board(m) && crate::coords::spec_reduce_corner(m)
                        == crate::coords::spec_reduce_corner(corner@) ==> final(self).board.structure_at(m) == Some(
                        Structure { structure_type: StructureType::City, color },
                    )
                &&& forall|m: (int, int, int)|
                    coord_on_board(m) && crate::coords::spec_reduce_corner(m)
                        != crate::coords::spec_reduce_corner(corner@) ==> final(self).board.structure_at(m) == old(self).board.structure_at(m)
                &&& forall|r: Resource| #[trigger]
                    final(self).board.bank.cnt(r) == old(self).board.bank.cnt(r) + spec_city_cost(
                        r,
                    )
                &&& forall|r: Resource| #[trigger]
                    final(self).players@[cur].hand.cnt(r) == old(self).players@[cur].hand.cnt(r)
                        - spec_city_cost(r)
                &&& forall|r: Resource|
                    final(self).board.bank.cnt(r) + final(self).players@[cur].hand.cnt(r) == old(self).board.bank.cnt(r) + old(self).players@[cur].hand.cnt(r)
                &&& final(self).players@[cur].city_pool == old(self).players@[cur].city_pool - 1
                &&& final(self).players@[cur].settlement_pool == old(self).players@[cur].settlement_pool + 1
                &&& final(self).players@[cur].base_vps == old(self).players@[cur].base_vps + 1
                &&& final(self).players@[cur] == (Player {
                    hand: final(self).players@[cur].hand,
                    city_pool: final(self).players@[cur].city_pool,
                    settlement_pool: final(self).players@[cur].settlement_pool,
                    base_vps: final(self).players@[cur].base_vps,
                    ..old(self).players@[cur]
                })
                &&& final(self).players@ == old(self).players@.update(
                    cur,
                    final(self).players@[cur],
                )
                &&& final(self).board.roads@ == old(self).board.roads@
                &&& final(self).board.hexes@ == old(self).board.hexes@
                &&& final(self).board.ports@ == old(self).board.ports@
                &&& final(self).board.robber == old(self).board.robber
                &&& final(self).board.dv_bank == old(self).board.dv_bank
            }),
            (*final(self) == GameState {
                board: final(self).board,
                players: final(self).players,
                ..*old(self)
            }),
    {
        let color = self.get_current_color();
        self.board.place_city(corner, color);
        let cur = self.current_player;
        let mut p = self.players[cur];
        p.build_city();
        self.players.set(cur, p);
        proof {
            assert forall|k: (int, int, int)| coord_on_board(k) implies ((
            #[trigger] self.board.structure_at(k)) is Some <==> old(self).board.structure_at(
                k,
            ) is Some) by {}
            Board::lemma_distance_rule_same_occupancy(old(self).board, self.board);
        }
    }

    /// Moves the robber to `hex` and resolves the robbery over the owners of
    /// the hex's structures other than the mover (the mover's own structures
    /// are never robbable): with no such owner play returns to idling; with
    /// exactly one a steal from that owner is queued; with several the mover
    /// must choose a victim.
    pub fn move_robber(&mut self, hex: HexCoord)
        requires
            old(self).wf(),
            crate::coords::hex_on_board(hex@.0, hex@.1),
        ensures
            final(self).wf(),
            final(self).board == (Board { robber: hex, ..old(self).board }),
            ({
                let me = old(self).spec_current_color();
                &&& ((forall|col: PlayerColor|
                    col != me ==> !old(self).board.spec_color_on_hex(hex@, col)) ==> final(self).action is Idling && final(self).rng_action == old(self).rng_action)
                &&& (forall|col: PlayerColor|
                    (col != me && #[trigger] old(self).board.spec_color_on_hex(hex@, col) && (
                    forall|c2: PlayerColor|
                        c2 != me && old(self).board.spec_color_on_hex(hex@, c2) ==> c2 == col))
                        ==> final(self).rng_action == Some(RngAction::Stealing(col)) && final(self).action is Idling)
                &&& ((exists|c1: PlayerColor, c2: PlayerColor|
                    c1 != c2 && c1 != me && c2 != me && #[trigger] old(self).board.spec_color_on_hex(hex@, c1) && #[trigger] old(self).board.spec_color_on_hex(hex@, c2)) ==> final(self).action is ChoosingVictim
                    && final(self).rng_action == old(self).rng_action)
            }),
            (*final(self) == GameState {
                board: final(self).board,
                action: final(self).action,
                rng_action: final(self).rng_action,
                ..*old(self)
            }),
    {
        self.board.robber = hex;
        proof {
            Board::lemma_distance_rule_same_structures(old(self).board, self.board);
            assert forall|col: PlayerColor|
                self.board.spec_color_on_hex(hex@, col) == old(self).board.spec_color_on_hex(
                    hex@,
                    col,
                ) by {
                if self.board.spec_color_on_hex(hex@, col) {
                    let c = choose|c: int|
                        0 <= c < 6 && match #[trigger] self.board.structure_at(
                            (hex@.0, hex@.1, c),
                        ) {
                            Some(s) => s.color == col,
                            None => false,
                        };
                    assert(match old(self).board.structure_at((hex@.0, hex@.1, c)) {
                        Some(s) => s.color == col,
                        None => false,
                    });
                }
                if old(self).board.spec_color_on_hex(hex@, col) {
                    let c = choose|c: int|
                        0 <= c < 6 && match #[trigger] old(self).board.structure_at(
                            (hex@.0, hex@.1, c),
                        ) {
                            Some(s) => s.color == col,
                            None => false,
                        };
                    assert(match self.board.structure_at((hex@.0, hex@.1, c)) {
                        Some(s) => s.color == col,
                        None => false,
                    });
                }
            }
        }
        let me = self.get_current_color();
        let colors = self.board.get_colors_on_hex(hex);
        let mut robbable: Vec<PlayerColor> = Vec::new();
        let mut i: usize = 0;
        while i < colors.len()
            invariant
                i <= colors@.len(),
                forall|k1: int, k2: int| 0 <= k1 < k2 < colors@.len() ==> colors@[k1] != colors@[k2],
                forall|k: int|
                    0 <= k < colors@.len() ==> old(self).board.spec_color_on_hex(
                        hex@,
                        #[trigger] colors@[k],
                    ),
                forall|col: PlayerColor|
                    old(self).board.spec_color_on_hex(hex@, col) ==> exists|k: int|
                        0 <= k < colors@.len() && colors@[k] == col,
                forall|k: int|
                    0 <= k < robbable@.len() ==> (#[trigger] robbable@[k]) != me && old(self).board.spec_color_on_hex(hex@, robbable@[k]),
                forall|k: int|
                    0 <= k < robbable@.len() ==> exists|j: int|
                        0 <= j < i && #[trigger] robbable@[k] == colors@[j],
                forall|k1: int, k2: int|
                    0 <= k1 < k2 < robbable@.len() ==> robbable@[k1] != robbable@[k2],
                forall|j: int|
                    0 <= j < i && (#[trigger] colors@[j]) != me ==> exists|k: int|
                        0 <= k < robbable@.len() && robbable@[k] == colors@[j],
            decreases colors@.len() - i,
        {
            if colors[i] != me {
                let ghost pre = robbable@;
                robbable.push(colors[i]);
                proof {
                    assert(robbable@[pre.len() as int] == colors@[i as int]);
                    assert forall|k1: int, k2: int|
                        0 <= k1 < k2 < robbable@.len() implies robbable@[k1] != robbable@[k2] by {
                        if k2 == pre.len() {
                            let j = choose|j: int|
                                0 <= j < i && #[trigger] pre[k1] == colors@[j];
                            assert(colors@[j] != colors@[i as int]);
                        }
                    }
                    assert forall|j: int|
                        0 <= j < i + 1 && (#[trigger] colors@[j]) != me implies exists|k: int|
                        0 <= k < robbable@.len() && robbable@[k] == colors@[j] by {
                        if j < i {
                            let k = choose|k: int|
                                0 <= k < pre.len() && #[trigger] pre[k] == colors@[j];
                            assert(robbable@[k] == colors@[j]);
                        } else {
                            assert(robbable@[pre.len() as int] == colors@[j]);
                        }
                    }
                }
            }
            i = i + 1;
        }
        if robbable.len() == 0 {
            proof {
                assert forall|col: PlayerColor|
                    col != me implies !old(self).board.spec_color_on_hex(hex@, col) by {
                    if old(self).board.spec_color_on_hex(hex@, col) {
                        let k = choose|k: int|
                            0 <= k < colors@.len() && #[trigger] colors@[k] == col;
                    }
                }
            }
            self.action = Action::Idling;
        } else if robbable.len() == 1 {
            proof {
                assert forall|col: PlayerColor|
                    col != me && old(self).board.spec_color_on_hex(hex@, col) implies col
                    == robbable@[0] by {
                    let k = choose|k: int| 0 <= k < colors@.len() && #[trigger] colors@[k] == col;
                }
            }
            self.rng_action = Some(RngAction::Stealing(robbable[0]));
            self.action = Action::Idling;
        } else {
            proof {
                assert(robbable@[0] != robbable@[1]);
            }
            self.action = Action::ChoosingVictim;
        }
    }

    /// Draws a development card for the current player: the player pays the
    /// card cost, the bank receives it, and whatever card the bank yields
    /// goes among the cards bought this turn. Returns the drawn card.
    pub fn buy_dv_card(&mut self) -> (card: DVCard)
        requires
            old(self).wf(),
            forall|r: Resource| #[trigger]
                old(self).players@[old(self).current_player as int].hand.cnt(r)
                    >= spec_dv_card_cost(r),
            forall|d: DVCard| #[trigger]
                old(self).players@[old(self).current_player as int].new_dvs.cnt(d) < usize::MAX,
            0 < old(self).board.dv_bank.total() <= usize::MAX,
            old(self).board.bank_has_room(),
        ensures
            final(self).wf(),
            ({
                let cur = old(self).current_player as int;
                &&& old(self).board.dv_bank.cnt(card) > 0
                &&& final(self).board.dv_bank.cnt(card) == old(self).board.dv_bank.cnt(card) - 1
                &&& forall|d: DVCard|
                    d != card ==> final(self).board.dv_bank.cnt(d) == old(self).board.dv_bank.cnt(
                        d,
                    )
                &&& forall|r: Resource| #[trigger]
                    final(self).board.bank.cnt(r) == old(self).board.bank.cnt(r)
                        + spec_dv_card_cost(r)
                &&& forall|r: Resource| #[trigger]
                    final(self).players@[cur].hand.cnt(r) == old(self).players@[cur].hand.cnt(r)
                        - spec_dv_card_cost(r)
                &&& final(self).players@[cur].new_dvs.cnt(card) == old(self).players@[cur].new_dvs.cnt(card) + 1
                &&& forall|d: DVCard|
                    d != card ==> final(self).players@[cur].new_dvs.cnt(d) == old(self).players@[cur].new_dvs.cnt(d)
                &&& final(self).players@[cur].dvs == old(self).players@[cur].dvs
                &&& final(self).players@[cur] == (Player {
                    hand: final(self).players@[cur].hand,
                    new_dvs: final(self).players@[cur].new_dvs,
                    ..old(self).players@[cur]
                })
                &&& final(self).players@ == old(self).players@.update(
                    cur,
                    final(self).players@[cur],
                )
                &&& final(self).board.structures@ == old(self).board.structures@
                &&& final(self).board.roads@ == old(self).board.roads@
                &&& final(self).board.hexes@ == old(self).board.hexes@
                &&& final(self).board.ports@ == old(self).board.ports@
                &&& final(self).board.robber == old(self).board.robber
            }),
            (*final(self) == GameState {
                board: final(self).board,
                players: final(self).players,
                ..*old(self)
            }),
    {
        let dv = self.board.draw_dv_card();
        let cur = self.current_player;
        let mut p = self.players[cur];
        p.buy_dv(dv);
        self.players.set(cur, p);
        proof {
            Board::lemma_distance_rule_same_structures(old(self).board, self.board);
        }
        dv
    }
}


/// The seat `s` steps after `start` in cyclic order over `n` seats.
pub open spec fn seat_after(start: int, s: int, n: int) -> int
    recommends
        0 <= start < n,
        0 <= s <= n,
{
    if start + s < n {
        start + s
    } else {
        start + s - n
    }
}

/// The seat that must respond next in a discard round: scanning from `start`
/// (inclusive), the first seat holding more than seven cards, stopping with
/// `None` when the scan comes back around to the turn player.
pub open spec fn spec_scan_discarder(
    players: Seq<Player>,
    start: int,
    turnp: int,
    n: int,
    s: int,
) -> Option<int>
    decreases n - s,
{
    if s >= n {
        None
    } else {
        let seat = seat_after(start, s, n);
        if s > 0 && seat == turnp {
            None
        } else if players[seat].hand.total() > 7 {
            Some(seat)
        } else {
            spec_scan_discarder(players, start, turnp, n, s + 1)
        }
    }
}

impl GameState {
    /// Every hand's total fits the machine word.
    pub open spec fn hand_totals_fit(self) -> bool {
        forall|j: int|
            0 <= j < self.players@.len() ==> (#[trigger] self.players@[j]).hand.total()
                <= usize::MAX
    }

    /// Returns whether any player holds more than seven cards.
    pub fn someone_must_discard(&self) -> (b: bool)
        requires
            self.wf(),
            self.hand_totals_fit(),
        ensures
            b == exists|j: int|
                0 <= j < self.players@.len() && (#[trigger] self.players@[j]).hand.total() > 7,
    {
        let mut j: usize = 0;
        while j < self.players.len()
            invariant
                self.hand_totals_fit(),
                j <= self.players@.len(),
                forall|i: int|
                    0 <= i < j ==> (#[trigger] self.players@[i]).hand.total() <= 7,
            decreases self.players@.len() - j,
        {
            if self.players[j].must_discard() {
                return true;
            }
            j = j + 1;
        }
        false
    }

    /// Hands the largest-army bonus to the current player: the previous
    /// holder, if another player, loses the flag; the threshold becomes the
    /// current player's knight count. A holder extending their own army keeps
    /// the flag.
    fn update_largest_army(&mut self)
        requires
            old(self).wf(),
        ensures
            final(self).wf(),
            ({
                let cur = old(self).current_player as int;
                &&& final(self).largest_army == Some(old(self).spec_current_color())
                &&& final(self).largest_army_size == old(self).players@[cur].knights
                &&& final(self).players@.len() == old(self).players@.len()
                &&& final(self).players@[cur] == (Player {
                    largest_army: true,
                    ..old(self).players@[cur]
                })
                &&& forall|j: int|
                    0 <= j < old(self).players@.len() && j != cur ==> (
                    #[trigger] final(self).players@[j]) == (Player {
                        largest_army: (if old(self).largest_army == Some(
                            old(self).players@[j].color,
                        ) {
                            false
                        } else {
                            old(self).players@[j].largest_army
                        }),
                        ..old(self).players@[j]
                    })
            }),
            (*final(self) == GameState {
                players: final(self).players,
                largest_army: final(self).largest_army,
                largest_army_size: final(self).largest_army_size,
                ..*old(self)
            }),
    {
        let cur = self.current_player;
        let color = self.get_current_color();
        let prev = self.largest_army;
        self.largest_army = Some(color);
        self.largest_army_size = self.players[cur].get_knights();
        let mut p = self.players[cur];
        p.set_largest_army(true);
        self.players.set(cur, p);
        if let Some(pc) = prev {
            if pc != color {
                if let Some(j) = self.find_player(pc) {
                    let mut q = self.players[j];
                    q.set_largest_army(false);
                    self.players.set(j, q);
                }
            }
        }
    }

    /// Plays one development card of the current player. A knight moves the
    /// robber phase in and may transfer the largest army (only on strictly
    /// exceeding the threshold); road building opens the two free placements;
    /// year of plenty and monopoly open their pending selections; a
    /// victory-point card is never played.
    pub fn play_dv_card(&mut self, card: DVCard)
        requires
            old(self).wf(),
            (card == DVCard::Knight || card == DVCard::RoadBuilding) ==> old(self).players@[old(self).current_player as int].dvs.cnt(card) > 0,
            card == DVCard::Knight ==> old(self).players@[old(self).current_player as int].knights
                < usize::MAX,
        ensures
            final(self).wf(),
            card == DVCard::VictoryPoint ==> *final(self) == *old(self),
            card == DVCard::YearOfPlenty ==> ({
                &&& match final(self).selector {
                    Some(s) => (s is Yopping) && s.spec_bottom().total() == 0,
                    None => false,
                }
                &&& (*final(self) == GameState { selector: final(self).selector, ..*old(self) })
            }),
            card == DVCard::Monopoly ==> ({
                &&& match final(self).selector {
                    Some(s) => (s is Monopolizing) && s.spec_bottom().total() == 0,
                    None => false,
                }
                &&& (*final(self) == GameState { selector: final(self).selector, ..*old(self) })
            }),
            card == DVCard::RoadBuilding ==> ({
                let cur = old(self).current_player as int;
                &&& final(self).players@[cur].dvs.cnt(DVCard::RoadBuilding) == old(self).players@[cur].dvs.cnt(DVCard::RoadBuilding) - 1
                &&& forall|d: DVCard|
                    d != DVCard::RoadBuilding ==> final(self).players@[cur].dvs.cnt(d) == old(self).players@[cur].dvs.cnt(d)
                &&& final(self).players@[cur] == (Player {
                    dvs: final(self).players@[cur].dvs,
                    ..old(self).players@[cur]
                })
                &&& final(self).players@ == old(self).players@.update(
                    cur,
                    final(self).players@[cur],
                )
                &&& final(self).action == Action::RoadBuilding(false)
                &&& (*final(self) == GameState {
                    players: final(self).players,
                    action: final(self).action,
                    ..*old(self)
                })
            }),
            card == DVCard::Knight ==> ({
                let cur = old(self).current_player as int;
                let newk = old(self).players@[cur].knights + 1;
                &&& final(self).players@[cur].dvs.cnt(DVCard::Knight) == old(self).players@[cur].dvs.cnt(DVCard::Knight) - 1
                &&& forall|d: DVCard|
                    d != DVCard::Knight ==> final(self).players@[cur].dvs.cnt(d) == old(self).players@[cur].dvs.cnt(d)
                &&& final(self).players@[cur].knights == newk
                &&& final(self).action is MovingRobber
                &&& (newk > old(self).largest_army_size ==> final(self).largest_army == Some(
                    old(self).spec_current_color(),
                ) && final(self).largest_army_size == newk
                    && final(self).players@[cur].largest_army && (forall|j: int|
                    0 <= j < old(self).players@.len() && j != cur
                        ==> (#[trigger] final(self).players@[j]) == (Player {
                        largest_army: (if old(self).largest_army == Some(
                            old(self).players@[j].color,
                        ) {
                            false
                        } else {
                            old(self).players@[j].largest_army
                        }),
                        ..old(self).players@[j]
                    })))
                &&& (newk <= old(self).largest_army_size ==> final(self).largest_army == old(self).largest_army && final(self).largest_army_size == old(self).largest_army_size
                    && final(self).players@[cur].largest_army == old(self).players@[cur].largest_army && (forall|j: int|
                    0 <= j < old(self).players@.len() && j != cur
                        ==> #[trigger] final(self).players@[j] == old(self).players@[j]))
                &&& final(self).players@.len() == old(self).players@.len()
                &&& (*final(self) == GameState {
                    players: final(self).players,
                    action: final(self).action,
                    largest_army: final(self).largest_army,
                    largest_army_size: final(self).largest_army_size,
                    ..*old(self)
                })
            }),
    {
        match card {
            DVCard::Knight => {
                let cur = self.current_player;
                let mut p = self.players[cur];
                p.play_dv_card(DVCard::Knight);
                self.players.set(cur, p);
                if self.players[cur].get_knights() > self.largest_army_size {
                    self.update_largest_army();
                }
                self.action = Action::MovingRobber;
            },
            DVCard::RoadBuilding => {
                let cur = self.current_player;
                let mut p = self.players[cur];
                p.play_dv_card(DVCard::RoadBuilding);
                self.players.set(cur, p);
                self.action = Action::RoadBuilding(false);
            },
            DVCard::YearOfPlenty => {
                self.selector = Some(Selector::Yopping(ResHand::new()));
            },
            DVCard::Monopoly => {
                self.selector = Some(Selector::Monopolizing(ResHand::new()));
            },
            DVCard::VictoryPoint => {},
        }
    }

    /// Advances the free road-building phase: the first placement arms the
    /// flag, the second returns to idling.
    pub fn advance_road_building(&mut self)
        requires
            old(self).action is RoadBuilding,
        ensures
            old(self).action == Action::RoadBuilding(false) ==> final(self).action
                == Action::RoadBuilding(true),
            old(self).action == Action::RoadBuilding(true) ==> final(self).action is Idling,
            (*final(self) == GameState { action: final(self).action, ..*old(self) }),
    {
        match self.action {
            Action::RoadBuilding(placed_once) => {
                if placed_once {
                    self.action = Action::Idling;
                } else {
                    self.action = Action::RoadBuilding(true);
                }
            },
            _ => {},
        }
    }

    /// Begins the discard round after a seven: the first over-limit seat in
    /// cyclic order from the current player becomes the actor, with an empty
    /// mandatory discard selection open.
    pub fn initiate_discarding(&mut self)
        requires
            old(self).wf(),
            old(self).hand_totals_fit(),
            exists|j: int|
                0 <= j < old(self).players@.len() && (#[trigger] old(self).players@[j]).hand.total()
                    > 7,
        ensures
            final(self).wf(),
            final(self).action is Discarding,
            match final(self).selector {
                Some(s) => (s is Discarding) && s.spec_bottom().total() == 0,
                None => false,
            },
            final(self).players@[final(self).current_player as int].hand.total() > 7,
            exists|s: int|
                0 <= s < old(self).num_players && final(self).current_player == seat_after(
                    old(self).current_player as int,
                    s,
                    old(self).num_players as int,
                ) && (forall|d: int|
                    0 <= d < s ==> (#[trigger] old(self).players@[seat_after(
                        old(self).current_player as int,
                        d,
                        old(self).num_players as int,
                    )]).hand.total() <= 7),
            (*final(self) == GameState {
                current_player: final(self).current_player,
                action: final(self).action,
                selector: final(self).selector,
                ..*old(self)
            }),
    {
        self.action = Action::Discarding;
        self.selector = Some(Selector::Discarding(ResHand::new()));
        let n = self.num_players;
        let start = self.current_player;
        let mut s: usize = 0;
        while s < n
            invariant
                self.wf(),
                self.hand_totals_fit(),
                exists|j: int|
                    0 <= j < self.players@.len() && (#[trigger] self.players@[j]).hand.total() > 7,
                n == self.num_players,
                start == self.current_player,
                start == old(self).current_player,
                start < n,
                s <= n,
                self.action is Discarding,
                match self.selector {
                    Some(sl) => (sl is Discarding) && sl.spec_bottom().total() == 0,
                    None => false,
                },
                (*self == GameState {
                    current_player: self.current_player,
                    action: self.action,
                    selector: self.selector,
                    ..*old(self)
                }),
                forall|d: int|
                    0 <= d < s ==> (#[trigger] self.players@[seat_after(
                        start as int,
                        d,
                        n as int,
                    )]).hand.total() <= 7,
            decreases n - s,
        {
            let seat = if start + s < n {
                start + s
            } else {
                start + s - n
            };
            if self.players[seat].must_discard() {
                self.current_player = seat;
                proof {
                    assert(seat == seat_after(start as int, s as int, n as int));
                }
                return ;
            }
            s = s + 1;
        }
        proof {
            let j = choose|j: int|
                0 <= j < self.players@.len() && (#[trigger] self.players@[j]).hand.total() > 7;
            let d = if j >= start {
                j - start
            } else {
                j + n - start
            };
            assert(seat_after(start as int, d, n as int) == j);
            assert(false);
        }
    }

    /// Commits a mandatory discard: the current player gives up the selected
    /// cards; the scan then continues to the next over-limit seat and opens a
    /// fresh discard selection, or, once it comes back around to the turn
    /// player, the robber phase begins with the turn player as actor.
    pub fn execute_discard(&mut self, hand: ResHand)
        requires
            old(self).wf(),
            old(self).hand_totals_fit(),
            old(self).players@[old(self).current_player as int].hand.covers(hand),
        ensures
            final(self).wf(),
            ({
                let cur = old(self).current_player as int;
                let n = old(self).num_players as int;
                let turnp = old(self).turn_player as int;
                let mid = old(self).players@.update(cur, final(self).players@[cur]);
                &&& forall|r: Resource| #[trigger]
                    final(self).players@[cur].hand.cnt(r) == old(self).players@[cur].hand.cnt(r)
                        - hand.cnt(r)
                &&& final(self).players@[cur] == (Player {
                    hand: final(self).players@[cur].hand,
                    ..old(self).players@[cur]
                })
                &&& final(self).players@ == mid
                &&& match spec_scan_discarder(mid, cur, turnp, n, 0) {
                    Some(seat) => {
                        &&& final(self).current_player == seat
                        &&& match final(self).selector {
                            Some(s) => (s is Discarding) && s.spec_bottom().total() == 0,
                            None => false,
                        }
                        &&& final(self).action == old(self).action
                    },
                    None => {
                        &&& final(self).current_player == old(self).turn_player
                        &&& final(self).action is MovingRobber
                        &&& final(self).selector == old(self).selector
                    },
                }
            }),
            (*final(self) == GameState {
                players: final(self).players,
                current_player: final(self).current_player,
                action: final(self).action,
                selector: final(self).selector,
                ..*old(self)
            }),
    {
        let cur = self.current_player;
        let mut p = self.players[cur];
        p.discard_cards(hand);
        self.players.set(cur, p);
        let ghost mid = self.players@;
        let n = self.num_players;
        let turnp = self.turn_player;
        let mut s: usize = 0;
        while s < n
            invariant
                self.wf(),
                self.hand_totals_fit(),
                mid == self.players@,
                n == self.num_players,
                turnp == self.turn_player,
                cur == self.current_player,
                cur == old(self).current_player,
                cur < n,
                s <= n,
                forall|r: Resource| #[trigger]
                    self.players@[cur as int].hand.cnt(r) == old(self).players@[cur as int].hand.cnt(
                        r,
                    ) - hand.cnt(r),
                self.players@[cur as int] == (Player {
                    hand: self.players@[cur as int].hand,
                    ..old(self).players@[cur as int]
                }),
                self.players@ == old(self).players@.update(cur as int, self.players@[cur as int]),
                (*self == GameState { players: self.players, ..*old(self) }),
                spec_scan_discarder(mid, cur as int, turnp as int, n as int, s as int)
                    == spec_scan_discarder(mid, cur as int, turnp as int, n as int, 0),
            decreases n - s,
        {
            let seat = if cur + s < n {
                cur + s
            } else {
                cur + s - n
            };
            proof {
                assert(seat == seat_after(cur as int, s as int, n as int));
            }
            if s > 0 && seat == turnp {
                self.current_player = turnp;
                self.action = Action::MovingRobber;
                return ;
            }
            if self.players[seat].must_discard() {
                self.current_player = seat;
                self.selector = Some(Selector::Discarding(ResHand::new()));
                return ;
            }
            s = s + 1;
        }
        self.current_player = turnp;
        self.action = Action::MovingRobber;
    }
}


/// The total count of `r` held by the seats below `j`, the seat `me` not
/// counted.
pub open spec fn others_total_upto(players: Seq<Player>, me: int, r: Resource, j: int) -> int
    decreases j,
{
    if j <= 0 {
        0
    } else {
        others_total_upto(players, me, r, j - 1) + (if j - 1 == me {
            0
        } else {
            players[j - 1].hand.cnt(r) as int
        })
    }
}

/// Prefixes of the others' total are monotone and non-negative.
pub proof fn lemma_others_total_mono(players: Seq<Player>, me: int, r: Resource, j1: int, j2: int)
    requires
        0 <= j1 <= j2,
    ensures
        0 <= others_total_upto(players, me, r, j1) <= others_total_upto(players, me, r, j2),
    decreases j2,
{
    if j2 > j1 {
        lemma_others_total_mono(players, me, r, j1, j2 - 1);
    } else if j2 > 0 {
        lemma_others_total_mono(players, me, r, j1 - 1, j2 - 1);
    }
}

/// The others' total depends only on the hands of the seats other than `me`.
pub proof fn lemma_others_total_same(
    a: Seq<Player>,
    b: Seq<Player>,
    me: int,
    r: Resource,
    j: int,
)
    requires
        a.len() == b.len(),
        0 <= j <= a.len(),
        forall|i: int|
            0 <= i < a.len() && i != me ==> (#[trigger] b[i]).hand.cnt(r) == a[i].hand.cnt(r),
    ensures
        others_total_upto(b, me, r, j) == others_total_upto(a, me, r, j),
    decreases j,
{
    if j > 0 {
        lemma_others_total_same(a, b, me, r, j - 1);
    }
}

impl GameState {
    /// Commits a trade offer: a single-resource give matching the player's
    /// bank rate executes immediately against the bank; any other reasonable
    /// offer is queued for the other players. Either way a fresh empty trade
    /// selection is opened.
    pub fn execute_trade(&mut self, give: ResHand, get: ResHand)
        requires
            old(self).wf(),
            give.total() <= usize::MAX,
            get.total() <= usize::MAX,
            old(self).board.spec_can_trade_with_bank(give, get, old(self).spec_current_color())
                ==> ({
                let cur = old(self).current_player as int;
                &&& old(self).players@[cur].hand.covers(give)
                &&& forall|r: Resource| #[trigger]
                    old(self).players@[cur].hand.cnt(r) + get.cnt(r) <= usize::MAX
                &&& forall|r: Resource| #[trigger]
                    old(self).board.bank.cnt(r) + give.cnt(r) <= usize::MAX
            }),
        ensures
            final(self).wf(),
            ({
                let cur = old(self).current_player as int;
                if old(self).board.spec_can_trade_with_bank(
                    give,
                    get,
                    old(self).spec_current_color(),
                ) {
                    &&& forall|r: Resource| #[trigger]
                        final(self).board.bank.cnt(r) == old(self).board.bank.cnt(r) - get.cnt(r)
                            + give.cnt(r)
                    &&& forall|r: Resource| #[trigger]
                        final(self).players@[cur].hand.cnt(r) == old(self).players@[cur].hand.cnt(
                            r,
                        ) - give.cnt(r) + get.cnt(r)
                    &&& forall|r: Resource|
                        final(self).board.bank.cnt(r) + final(self).players@[cur].hand.cnt(r)
                            == old(self).board.bank.cnt(r) + old(self).players@[cur].hand.cnt(r)
                    &&& final(self).players@[cur] == (Player {
                        hand: final(self).players@[cur].hand,
                        ..old(self).players@[cur]
                    })
                    &&& final(self).players@ == old(self).players@.update(
                        cur,
                        final(self).players@[cur],
                    )
                    &&& final(self).board == (Board { bank: final(self).board.bank, ..old(self).board })
                    &&& final(self).offered_trades@ == old(self).offered_trades@
                } else {
                    &&& final(self).offered_trades@ == old(self).offered_trades@.push((give, get))
                    &&& final(self).players@ == old(self).players@
                    &&& final(self).board == old(self).board
                }
            }),
            match final(self).selector {
                Some(s) => (s is Trading) && s.spec_bottom().total() == 0
                    && s.spec_top().unwrap().total() == 0,
                None => false,
            },
            (*final(self) == GameState {
                board: final(self).board,
                players: final(self).players,
                offered_trades: final(self).offered_trades,
                selector: final(self).selector,
                ..*old(self)
            }),
    {
        if self.can_trade_with_bank(give, get) {
            proof {
                assert forall|r: Resource| #[trigger] self.board.bank.cnt(r) >= get.cnt(r) by {
                    assert(self.board.bank.covers(get));
                }
            }
            self.board.bank.discard(get);
            self.board.bank.add(give);
            let cur = self.current_player;
            let mut p = self.players[cur];
            p.discard_cards(give);
            p.get_cards(get);
            self.players.set(cur, p);
            proof {
                Board::lemma_distance_rule_same_structures(old(self).board, self.board);
            }
        } else {
            self.offered_trades.push((give, get));
        }
        self.selector = Some(Selector::Trading(ResHand::new(), ResHand::new()));
    }

    /// Commits a year-of-plenty pick: the card is played and the two chosen
    /// cards join the current player's hand.
    pub fn execute_yop(&mut self, hand: ResHand)
        requires
            old(self).wf(),
            old(self).players@[old(self).current_player as int].dvs.cnt(DVCard::YearOfPlenty) > 0,
            old(self).players@[old(self).current_player as int].hand.can_add(hand),
        ensures
            final(self).wf(),
            ({
                let cur = old(self).current_player as int;
                &&& final(self).players@[cur].dvs.cnt(DVCard::YearOfPlenty) == old(self).players@[cur].dvs.cnt(DVCard::YearOfPlenty) - 1
                &&& forall|d: DVCard|
                    d != DVCard::YearOfPlenty ==> final(self).players@[cur].dvs.cnt(d) == old(self).players@[cur].dvs.cnt(d)
                &&& forall|r: Resource| #[trigger]
                    final(self).players@[cur].hand.cnt(r) == old(self).players@[cur].hand.cnt(r)
                        + hand.cnt(r)
                &&& final(self).players@[cur] == (Player {
                    hand: final(self).players@[cur].hand,
                    dvs: final(self).players@[cur].dvs,
                    ..old(self).players@[cur]
                })
                &&& final(self).players@ == old(self).players@.update(
                    cur,
                    final(self).players@[cur],
                )
            }),
            (*final(self) == GameState { players: final(self).players, ..*old(self) }),
    {
        let cur = self.current_player;
        let mut p = self.players[cur];
        p.play_dv_card(DVCard::YearOfPlenty);
        p.get_cards(hand);
        self.players.set(cur, p);
    }

    /// Commits a monopoly pick: the card is played, and every other player's
    /// whole count of the chosen resource moves into the current player's
    /// hand.
    pub fn execute_monopoly(&mut self, card: Resource)
        requires
            old(self).wf(),
            old(self).players@[old(self).current_player as int].dvs.cnt(DVCard::Monopoly) > 0,
            old(self).players@[old(self).current_player as int].hand.cnt(card) + others_total_upto(
                old(self).players@,
                old(self).current_player as int,
                card,
                old(self).players@.len() as int,
            ) <= usize::MAX,
        ensures
            final(self).wf(),
            ({
                let cur = old(self).current_player as int;
                let n = old(self).players@.len() as int;
                &&& final(self).players@.len() == old(self).players@.len()
                &&& final(self).players@[cur].hand.cnt(card) == old(self).players@[cur].hand.cnt(
                    card,
                ) + others_total_upto(old(self).players@, cur, card, n)
                &&& forall|r: Resource|
                    r != card ==> final(self).players@[cur].hand.cnt(r) == old(self).players@[cur].hand.cnt(r)
                &&& final(self).players@[cur].dvs.cnt(DVCard::Monopoly) == old(self).players@[cur].dvs.cnt(DVCard::Monopoly) - 1
                &&& forall|d: DVCard|
                    d != DVCard::Monopoly ==> final(self).players@[cur].dvs.cnt(d) == old(self).players@[cur].dvs.cnt(d)
                &&& final(self).players@[cur] == (Player {
                    hand: final(self).players@[cur].hand,
                    dvs: final(self).players@[cur].dvs,
                    ..old(self).players@[cur]
                })
                &&& forall|j: int|
                    0 <= j < n && j != cur ==> (#[trigger] final(self).players@[j]) == (Player {
                        hand: final(self).players@[j].hand,
                        ..old(self).players@[j]
                    })
                &&& forall|j: int|
                    0 <= j < n && j != cur ==> (#[trigger] final(self).players@[j]).hand.cnt(card)
                        == 0
                &&& forall|j: int, r: Resource|
                    0 <= j < n && j != cur && r != card ==> (
                    #[trigger] final(self).players@[j].hand.cnt(r)) == old(self).players@[j].hand.cnt(r)
            }),
            (*final(self) == GameState { players: final(self).players, ..*old(self) }),
    {
        let cur = self.current_player;
        let mut p = self.players[cur];
        p.play_dv_card(DVCard::Monopoly);
        self.players.set(cur, p);
        let monopolizer = self.get_current_color();
        let ghost pre = self.players@;
        proof {
            lemma_others_total_same(
                old(self).players@,
                pre,
                cur as int,
                card,
                pre.len() as int,
            );
        }
        let mut gained: usize = 0;
        let mut j: usize = 0;
        while j < self.players.len()
            invariant
                self.wf(),
                cur == self.current_player,
                cur < self.players@.len(),
                monopolizer == self.players@[cur as int].color,
                j <= self.players@.len(),
                pre.len() == self.players@.len(),
                gained == others_total_upto(pre, cur as int, card, j as int),
                others_total_upto(pre, cur as int, card, pre.len() as int) == others_total_upto(
                    old(self).players@,
                    cur as int,
                    card,
                    old(self).players@.len() as int,
                ),
                old(self).players@[cur as int].hand.cnt(card) + others_total_upto(
                    pre,
                    cur as int,
                    card,
                    pre.len() as int,
                ) <= usize::MAX,
                self.players@[cur as int].hand == old(self).players@[cur as int].hand,
                forall|i: int|
                    0 <= i < j && i != cur ==> (#[trigger] self.players@[i]) == (Player {
                        hand: self.players@[i].hand,
                        ..pre[i]
                    }) && self.players@[i].hand.cnt(card) == 0 && (forall|r: Resource|
                        r != card ==> self.players@[i].hand.cnt(r) == pre[i].hand.cnt(r)),
                forall|i: int| j <= i < pre.len() ==> (#[trigger] self.players@[i]) == pre[i],
                self.players@[cur as int] == pre[cur as int],
                (*self == GameState { players: self.players, ..*old(self) }),
            decreases self.players@.len() - j,
        {
            proof {
                lemma_others_total_mono(pre, cur as int, card, j as int + 1, pre.len() as int);
                lemma_others_total_mono(pre, cur as int, card, j as int, j as int + 1);
            }
            if !self.players[j].is_color(monopolizer) {
                proof {
                    assert(j != cur) by {
                        if j == cur {
                            assert(self.players@[j as int].color == monopolizer);
                        }
                    }
                }
                let mut q = self.players[j];
                gained = gained + q.get_hand().get(card);
                q.discard_all(card);
                self.players.set(j, q);
            } else {
                proof {
                    assert(j == cur) by {
                        if j != cur {
                            assert(self.players@[j as int].color != self.players@[cur as int].color);
                        }
                    }
                }
            }
            j = j + 1;
        }
        let monopolied = ResHand::from_monopoly(card, gained);
        let mut me = self.players[cur];
        proof {
            assert forall|r: Resource| #[trigger]
                me.hand.cnt(r) + monopolied.cnt(r) <= usize::MAX by {
                if r != card {
                    assert(monopolied.cnt(r) == 0);
                }
            }
        }
        me.get_cards(monopolied);
        self.players.set(cur, me);
    }
}


impl GameState {
    /// Commits the pending selection, clearing it first: a discard runs the
    /// discard round forward, a trade executes or is queued, a year-of-plenty
    /// pick pays out, and a monopoly pick transfers the chosen resource.
    pub fn execute_selector(&mut self)
        requires
            old(self).wf(),
            old(self).selector is Some,
            old(self).spec_can_execute_selector(),
            old(self).hand_totals_fit(),
            match old(self).selector.unwrap() {
                Selector::Discarding(h) => old(self).players@[old(self).current_player as int].hand.covers(h),
                Selector::Trading(give, get) => give.total() <= usize::MAX && get.total()
                    <= usize::MAX && (old(self).board.spec_can_trade_with_bank(
                    give,
                    get,
                    old(self).spec_current_color(),
                ) ==> ({
                    let cur = old(self).current_player as int;
                    &&& old(self).players@[cur].hand.covers(give)
                    &&& forall|r: Resource| #[trigger]
                        old(self).players@[cur].hand.cnt(r) + get.cnt(r) <= usize::MAX
                    &&& forall|r: Resource| #[trigger]
                        old(self).board.bank.cnt(r) + give.cnt(r) <= usize::MAX
                })),
                Selector::Yopping(h) => old(self).players@[old(self).current_player as int].dvs.cnt(DVCard::YearOfPlenty) > 0
                    && old(self).players@[old(self).current_player as int].hand.can_add(h),
                Selector::Monopolizing(h) => old(self).players@[old(self).current_player as int].dvs.cnt(DVCard::Monopoly) > 0 && match h.spec_nth_nonzero(
                    0,
                ) {
                    Some(c) => old(self).players@[old(self).current_player as int].hand.cnt(c)
                        + others_total_upto(
                        old(self).players@,
                        old(self).current_player as int,
                        c,
                        old(self).players@.len() as int,
                    ) <= usize::MAX,
                    None => true,
                },
            },
        ensures
            final(self).wf(),
            match old(self).selector.unwrap() {
                Selector::Discarding(h) => ({
                    let cur = old(self).current_player as int;
                    let n = old(self).num_players as int;
                    let turnp = old(self).turn_player as int;
                    let mid = old(self).players@.update(cur, final(self).players@[cur]);
                    &&& forall|r: Resource| #[trigger]
                        final(self).players@[cur].hand.cnt(r) == old(self).players@[cur].hand.cnt(
                            r,
                        ) - h.cnt(r)
                    &&& final(self).players@ == mid
                    &&& match spec_scan_discarder(mid, cur, turnp, n, 0) {
                        Some(seat) => final(self).current_player == seat && match final(self).selector {
                            Some(sl) => (sl is Discarding) && sl.spec_bottom().total() == 0,
                            None => false,
                        } && final(self).action == old(self).action,
                        None => final(self).current_player == old(self).turn_player && final(self).action is MovingRobber && final(self).selector is None,
                    }
                }),
                Selector::Trading(give, get) => ({
                    let cur = old(self).current_player as int;
                    &&& (old(self).board.spec_can_trade_with_bank(
                        give,
                        get,
                        old(self).spec_current_color(),
                    ) ==> ({
                        &&& forall|r: Resource| #[trigger]
                            final(self).board.bank.cnt(r) == old(self).board.bank.cnt(r)
                                - get.cnt(r) + give.cnt(r)
                        &&& forall|r: Resource| #[trigger]
                            final(self).players@[cur].hand.cnt(r) == old(self).players@[cur].hand.cnt(r) - give.cnt(r) + get.cnt(r)
                        &&& final(self).offered_trades@ == old(self).offered_trades@
                    }))
                    &&& (!old(self).board.spec_can_trade_with_bank(
                        give,
                        get,
                        old(self).spec_current_color(),
                    ) ==> final(self).offered_trades@ == old(self).offered_trades@.push(
                        (give, get),
                    ) && final(self).players@ == old(self).players@ && final(self).board == old(self).board)
                    &&& match final(self).selector {
                        Some(sl) => (sl is Trading) && sl.spec_bottom().total() == 0
                            && sl.spec_top().unwrap().total() == 0,
                        None => false,
                    }
                }),
                Selector::Yopping(h) => ({
                    let cur = old(self).current_player as int;
                    &&& final(self).players@[cur].dvs.cnt(DVCard::YearOfPlenty) == old(self).players@[cur].dvs.cnt(DVCard::YearOfPlenty) - 1
                    &&& forall|r: Resource| #[trigger]
                        final(self).players@[cur].hand.cnt(r) == old(self).players@[cur].hand.cnt(
                            r,
                        ) + h.cnt(r)
                    &&& final(self).selector is None
                }),
                Selector::Monopolizing(h) => ({
                    let cur = old(self).current_player as int;
                    let n = old(self).players@.len() as int;
                    match h.spec_nth_nonzero(0) {
                        Some(card) => {
                            &&& final(self).players@[cur].hand.cnt(card) == old(self).players@[cur].hand.cnt(card) + others_total_upto(
                                old(self).players@,
                                cur,
                                card,
                                n,
                            )
                            &&& forall|j: int|
                                0 <= j < n && j != cur ==> (
                                #[trigger] final(self).players@[j]).hand.cnt(card) == 0
                            &&& final(self).players@[cur].dvs.cnt(DVCard::Monopoly) == old(self).players@[cur].dvs.cnt(DVCard::Monopoly) - 1
                            &&& final(self).selector is None
                        },
                        None => false,
                    }
                }),
            },
    {
        let sel = self.selector.unwrap();
        self.selector = None;
        match sel {
            Selector::Discarding(h) => self.execute_discard(h),
            Selector::Trading(give, get) => self.execute_trade(give, get),
            Selector::Yopping(h) => self.execute_yop(h),
            Selector::Monopolizing(h) => {
                proof {
                    h.lemma_first_nonzero();
                }
                let card = h.nth_nonzero(0).unwrap();
                self.execute_monopoly(card);
            },
        }
    }

    /// Resolves a pending dice roll: on anything but a seven the payout is
    /// distributed; on a seven the discard round begins if any hand is over
    /// the limit, else the robber phase begins at once.
    pub fn resolve_roll(&mut self)
        requires
            old(self).wf(),
            old(self).hands_have_room(),
            old(self).hand_totals_fit(),
        ensures
            final(self).wf(),
            final(self).roll is Some,
            1 <= final(self).roll.unwrap().die1 <= 6,
            1 <= final(self).roll.unwrap().die2 <= 6,
            final(self).rng_action is None,
            ({
                let sum = final(self).roll.unwrap().die1 + final(self).roll.unwrap().die2;
                if sum != 7 {
                    &&& forall|j: int, r: Resource|
                        0 <= j < old(self).players@.len() ==> (
                        #[trigger] final(self).players@[j].hand.cnt(r)) == old(self).players@[j].hand.cnt(r) + old(self).board.spec_roll_yield(
                            sum as int,
                            old(self).players@[j].color,
                            r,
                        )
                    &&& final(self).action == old(self).action
                    &&& final(self).selector == old(self).selector
                    &&& final(self).board == old(self).board
                } else if exists|j: int|
                    0 <= j < old(self).players@.len() && (#[trigger] old(self).players@[j]).hand.total() > 7 {
                    &&& final(self).action is Discarding
                    &&& match final(self).selector {
                        Some(sl) => (sl is Discarding) && sl.spec_bottom().total() == 0,
                        None => false,
                    }
                    &&& final(self).players@ == old(self).players@
                    &&& final(self).players@[final(self).current_player as int].hand.total() > 7
                    &&& final(self).board == old(self).board
                } else {
                    &&& final(self).action is MovingRobber
                    &&& final(self).players@ == old(self).players@
                    &&& final(self).selector == old(self).selector
                    &&& final(self).board == old(self).board
                }
            }),
    {
        let sum = self.roll_dice();
        self.rng_action = None;
        if sum != 7 {
            self.give_resources(sum);
        } else {
            if self.someone_must_discard() {
                self.initiate_discarding();
            } else {
                self.action = Action::MovingRobber;
            }
        }
    }

    /// Resolves a pending steal: one uniformly random card moves from the
    /// victim's hand to the current player's, or nothing happens when the
    /// victim holds no cards. Returns the stolen resource.
    pub fn resolve_steal(&mut self, victim: PlayerColor) -> (stolen: Option<Resource>)
        requires
            old(self).wf(),
            old(self).spec_current_color() != victim,
            old(self).hand_totals_fit(),
            forall|r: Resource| #[trigger]
                old(self).players@[old(self).current_player as int].hand.cnt(r) < usize::MAX,
        ensures
            final(self).wf(),
            final(self).action is Idling,
            final(self).rng_action is None,
            final(self).players@.len() == old(self).players@.len(),
            match stolen {
                Some(res) => ({
                    let cur = old(self).current_player as int;
                    &&& final(self).players@[cur].hand.cnt(res) == old(self).players@[cur].hand.cnt(res) + 1
                    &&& forall|r: Resource|
                        r != res ==> final(self).players@[cur].hand.cnt(r) == old(self).players@[cur].hand.cnt(r)
                    &&& forall|v: int|
                        0 <= v < old(self).players@.len() && (#[trigger] old(self).players@[v]).color == victim ==> old(self).players@[v].hand.cnt(res) > 0
                            && final(self).players@[v].hand.cnt(res) == old(self).players@[v].hand.cnt(res) - 1 && (forall|r: Resource|
                            r != res ==> final(self).players@[v].hand.cnt(r) == old(self).players@[v].hand.cnt(r))
                    &&& forall|j: int|
                        0 <= j < old(self).players@.len() && j != cur && old(self).players@[j].color != victim ==> #[trigger] final(self).players@[j] == old(self).players@[j]
                }),
                None => ({
                    &&& final(self).players@ == old(self).players@
                    &&& forall|v: int|
                        0 <= v < old(self).players@.len() && (#[trigger] old(self).players@[v]).color == victim ==> old(self).players@[v].hand.total() == 0
                }),
            },
            (*final(self) == GameState {
                players: final(self).players,
                action: final(self).action,
                rng_action: final(self).rng_action,
                ..*old(self)
            }),
    {
        self.action = Action::Idling;
        self.rng_action = None;
        let seat = self.find_player(victim);
        match seat {
            Some(v) => {
                let mut q = self.players[v];
                let got = q.discard_random_card();
                self.players.set(v, q);
                match got {
                    Some(res) => {
                        let cur = self.current_player;
                        proof {
                            assert(cur != v);
                        }
                        let mut me = self.players[cur];
                        me.get_card(res);
                        self.players.set(cur, me);
                        proof {
                            assert(self.players@ == old(self).players@.update(
                                v as int,
                                self.players@[v as int],
                            ).update(cur as int, self.players@[cur as int]));
                        }
                        Some(res)
                    },
                    None => {
                        proof {
                            assert(self.players@ =~= old(self).players@);
                        }
                        None
                    },
                }
            },
            None => None,
        }
    }

    /// Builds the opening game state from a finished setup round: the board
    /// and players carry over, seat zero starts, no bonus is held, and the
    /// turn begins idle with nothing rolled, played, selected or offered.
    pub fn from_setup(setup: crate::setup::SetupState) -> (g: GameState)
        requires
            setup.wf(),
        ensures
            g.wf(),
            g.board == setup.board,
            g.players@ == setup.players@,
            g.num_players == setup.num_players,
            g.largest_army is None,
            g.largest_army_size == 2,
            g.longest_road is None,
            g.longest_road_size == 4,
            g.current_player == 0,
            g.turn_player == 0,
            g.roll is None,
            !g.played_dv,
            g.selector is None,
            g.offered_trades@.len() == 0,
            g.action is Idling,
            g.rng_action is None,
    {
        GameState {
            num_players: setup.num_players,
            board: setup.board,
            players: setup.players,
            largest_army: None,
            largest_army_size: 2,
            longest_road: None,
            longest_road_size: 4,
            current_player: 0,
            turn_player: 0,
            roll: None,
            played_dv: false,
            selector: None,
            offered_trades: Vec::new(),
            action: Action::Idling,
            rng_action: None,
        }
    }
}

} // verus!





