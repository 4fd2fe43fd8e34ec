//! The setup phase: the snake-order initial placement round. Each seat places
//! one settlement (distance rule only) and one road touching it; on the
//! second, reversed pass the new settlement immediately grants the resources
//! of its adjacent hexes.
use vstd::prelude::*;

use crate::board::{Board, PlayerColor, Structure, StructureType};
use crate::coords::{
    coord_on_board, spec_hexes_touched, spec_reduce_corner, spec_reduce_edge, CornerCoord,
    EdgeCoord,
};
use crate::hands::Resource;
use crate::player::Player;

verus! {

/// The state of the initial placement round.
#[derive(Debug)]
pub struct SetupState {
    pub num_players: usize,
    pub board: Board,
    pub players: Vec<Player>,
    pub current_player: usize,
    pub all_placed_once: bool,
    pub settlement: Option<CornerCoord>,
    pub finished: bool,
}

impl SetupState {
    /// A well-formed setup: the board is well formed and obeys the distance
    /// rule, the seats are consistent, and colors are distinct.
    pub open spec fn wf(self) -> bool {
        &&& self.board.wf()
        &&& self.board.distance_rule_ok()
        &&& self.players@.len() == self.num_players
        &&& 1 <= self.num_players <= 4
        &&& self.current_player < self.num_players
        &&& forall|i: int, j: int|
            0 <= i < j < self.players@.len() ==> (#[trigger] self.players@[i]).color != (
            #[trigger] self.players@[j]).color
    }

    /// Starts a match: generates a fresh board and deals distinct random
    /// colors, the first `num_humans` seats being human.
    pub fn new(num_humans: usize, num_cpus: usize) -> (s: SetupState)
        requires
            1 <= num_humans + num_cpus <= 4,
        ensures
            s.wf(),
            s.num_players == num_humans + num_cpus,
            s.board.spec_freshly_generated(),
            s.current_player == 0,
            !s.all_placed_once,
            s.settlement is None,
            !s.finished,
            forall|i: int|
                0 <= i < s.players@.len() ==> (#[trigger] s.players@[i]).is_human == (i < num_humans),
            forall|i: int, r: Resource|
                0 <= i < s.players@.len() ==> (#[trigger] s.players@[i].hand.cnt(r)) == 0,
            forall|i: int|
                0 <= i < s.players@.len() ==> (#[trigger] s.players@[i]).base_vps == 0
                    && s.players@[i].road_pool == 15 && s.players@[i].settlement_pool == 5
                    && s.players@[i].city_pool == 4,
    {
        let num_players = num_humans + num_cpus;
        let board = Board::new();
        let picks = crate::rng::choose_distinct(4, num_players);
        let mut players: Vec<Player> = Vec::new();
        let mut i: usize = 0;
        while i < num_players
            invariant
                i <= num_players,
                num_players <= 4,
                picks@.len() == num_players,
                forall|j: int| 0 <= j < picks@.len() ==> #[trigger] picks@[j] < 4,
                forall|j: int, k: int| 0 <= j < k < picks@.len() ==> picks@[j] != picks@[k],
                players@.len() == i,
                forall|j: int|
                    0 <= j < i ==> crate::board::color_index(
                        (#[trigger] players@[j]).color,
                    ) == picks@[j],
                forall|j: int|
                    0 <= j < i ==> (#[trigger] players@[j]).is_human == (j < num_humans),
                forall|j: int, r: Resource|
                    0 <= j < i ==> (#[trigger] players@[j].hand.cnt(r)) == 0,
                forall|j: int|
                    0 <= j < i ==> (#[trigger] players@[j]).base_vps == 0 && players@[j].road_pool
                        == 15 && players@[j].settlement_pool == 5 && players@[j].city_pool == 4
                        && players@[j].knights == 0 && !players@[j].largest_army && players@[j].road_len
                        == 0 && !players@[j].longest_road,
            decreases num_players - i,
        {
            let color = crate::board::color_at(picks[i]);
            players.push(Player::new(color, i < num_humans));
            i = i + 1;
        }
        proof {
            assert forall|i2: int, j2: int|
                0 <= i2 < j2 < players@.len() implies (#[trigger] players@[i2]).color != (
            #[trigger] players@[j2]).color by {
                assert(crate::board::color_index(players@[i2].color) == picks@[i2]);
                assert(crate::board::color_index(players@[j2].color) == picks@[j2]);
            }
        }
        SetupState {
            num_players,
            board,
            players,
            current_player: 0,
            all_placed_once: false,
            settlement: None,
            finished: false,
        }
    }

    /// Returns the color of the seat now placing.
    pub fn get_current_color(&self) -> (c: PlayerColor)
        requires
            self.wf(),
        ensures
            c == self.players@[self.current_player as int].color,
    {
        self.players[self.current_player].get_color()
    }

    /// Returns the player now placing.
    pub fn get_current_player(&self) -> (p: &Player)
        requires
            self.wf(),
        ensures
            p == self.players@[self.current_player as int],
    {
        &self.players[self.current_player]
    }

    /// Returns whether the seat of `color` is the one now placing.
    pub fn is_players_turn(&self, color: PlayerColor) -> (b: bool)
        requires
            self.wf(),
        ensures
            b == (self.players@[self.current_player as int].color == color),
    {
        self.get_current_color() == color
    }

    /// Places the current player's setup settlement: the structure is written
    /// at every duplicate coordinate of the corner, one settlement piece and
    /// one point are booked, and on the second pass the corner's adjacent
    /// terrain hexes immediately pay one card each.
    pub fn place_settlement(&mut self, corner: CornerCoord)
        requires
            old(self).wf(),
            coord_on_board(corner@),
            old(self).board.spec_can_place_setup_settlement(corner@),
            old(self).players@[old(self).current_player as int].settlement_pool > 0,
            old(self).players@[old(self).current_player as int].base_vps < usize::MAX,
            forall|r: Resource| #[trigger]
                old(self).players@[old(self).current_player as int].hand.cnt(r) + 3 <= usize::MAX,
        ensures
            final(self).wf(),
            ({
                let cur = old(self).current_player as int;
                let color = old(self).players@[cur].color;
                &&& forall|m: (int, int, int)|
                    coord_on_board(m) && spec_reduce_corner(m) == spec_reduce_corner(corner@)
                        ==> final(self).board.structure_at(m) == Some(
                        Structure { structure_type: StructureType::Settlement, color },
                    )
                &&& forall|m: (int, int, int)|
                    coord_on_board(m) && spec_reduce_corner(m) != spec_reduce_corner(corner@)
                        ==> final(self).board.structure_at(m) == old(self).board.structure_at(m)
                &&& final(self).players@[cur].settlement_pool == old(self).players@[cur].settlement_pool - 1
                &&& final(self).players@[cur].base_vps == old(self).players@[cur].base_vps + 1
                &&& forall|r: Resource| #[trigger]
                    final(self).players@[cur].hand.cnt(r) == old(self).players@[cur].hand.cnt(r)
                        + (if old(self).all_placed_once {
                        old(self).board.spec_start_sum(spec_hexes_touched(corner@), r)
                    } else {
                        0
                    })
                &&& final(self).players@[cur] == (Player {
                    hand: final(self).players@[cur].hand,
                    settlement_pool: final(self).players@[cur].settlement_pool,
                    base_vps: final(self).players@[cur].base_vps,
                    ..old(self).players@[cur]
                })
                &&& final(self).players@ == old(self).players@.update(
                    cur,
                    final(self).players@[cur],
                )
                &&& final(self).board.roads@ == old(self).board.roads@
                &&& final(self).board.hexes@ == old(self).board.hexes@
                &&& final(self).board.ports@ == old(self).board.ports@
                &&& final(self).board.robber == old(self).board.robber
                &&& final(self).board.bank == old(self).board.bank
                &&& final(self).board.dv_bank == old(self).board.dv_bank
            }),
            final(self).settlement == Some(corner),
            (*final(self) == SetupState {
                board: final(self).board,
                players: final(self).players,
                settlement: final(self).settlement,
                ..*old(self)
            }),
    {
        let color = self.get_current_color();
        self.board.place_setup_settlement(corner, color);
        let cur = self.current_player;
        let mut p = self.players[cur];
        p.place_setup_settlement();
        if self.all_placed_once {
            let start_hand = self.board.get_starting_resources(corner);
            proof {
                assert forall|r: Resource| #[trigger]
                    p.hand.cnt(r) + start_hand.cnt(r) <= usize::MAX by {
                    self.board.lemma_start_sum_bound(spec_hexes_touched(corner@), r);
                }
                assert forall|r: Resource| #[trigger]
                    start_hand.cnt(r) == old(self).board.spec_start_sum(
                        spec_hexes_touched(corner@),
                        r,
                    ) by {
                    Board::lemma_start_sum_same_hexes(
                        old(self).board,
                        self.board,
                        spec_hexes_touched(corner@),
                        r,
                    );
                }
            }
            p.get_cards(start_hand);
        }
        self.players.set(cur, p);
        self.settlement = Some(corner);
        proof {
            Board::lemma_settlement_keeps_distance_rule(
                old(self).board,
                self.board,
                corner@,
                Structure { structure_type: StructureType::Settlement, color },
            );
        }
    }

    /// Places the current player's setup road: the road is written at every
    /// duplicate coordinate of the edge and one road piece leaves the pool.
    pub fn place_road(&mut self, edge: EdgeCoord)
        requires
            old(self).wf(),
            coord_on_board(edge@),
            old(self).settlement is Some,
            old(self).board.spec_can_place_setup_road(edge@, old(self).settlement.unwrap()@),
            old(self).players@[old(self).current_player as int].road_pool > 0,
        ensures
            final(self).wf(),
            ({
                let cur = old(self).current_player as int;
                let color = old(self).players@[cur].color;
                &&& forall|m: (int, int, int)|
                    coord_on_board(m) && spec_reduce_edge(m) == spec_reduce_edge(edge@) ==> final(self).board.road_at(m) == Some(color)
                &&& forall|m: (int, int, int)|
                    coord_on_board(m) && spec_reduce_edge(m) != spec_reduce_edge(edge@) ==> final(self).board.road_at(m) == old(self).board.road_at(m)
                &&& final(self).players@[cur].road_pool == old(self).players@[cur].road_pool - 1
                &&& final(self).players@[cur] == (Player {
                    road_pool: final(self).players@[cur].road_pool,
                    ..old(self).players@[cur]
                })
                &&& final(self).players@ == old(self).players@.update(
                    cur,
                    final(self).players@[cur],
                )
                &&& final(self).board.structures@ == old(self).board.structures@
                &&& final(self).board.hexes@ == old(self).board.hexes@
                &&& final(self).board.ports@ == old(self).board.ports@
                &&& final(self).board.robber == old(self).board.robber
                &&& final(self).board.bank == old(self).board.bank
                &&& final(self).board.dv_bank == old(self).board.dv_bank
            }),
            (*final(self) == SetupState {
                board: final(self).board,
                players: final(self).players,
                ..*old(self)
            }),
    {
        let color = self.get_current_color();
        self.board.place_setup_road(edge, color);
        let cur = self.current_player;
        let mut p = self.players[cur];
        p.place_setup_road();
        self.players.set(cur, p);
        proof {
            Board::lemma_distance_rule_same_structures(old(self).board, self.board);
        }
    }

    /// Advances the snake order: seats 0 up to the last on the first pass,
    /// then back down to seat 0, which finishes the setup. The pending
    /// settlement marker is cleared.
    pub fn advance_turn(&mut self)
        requires
            old(self).wf(),
        ensures
            final(self).wf(),
            final(self).settlement is None,
            old(self).all_placed_once && old(self).current_player == 0 ==> final(self).finished
                && final(self).current_player == 0 && final(self).all_placed_once,
            old(self).all_placed_once && old(self).current_player > 0 ==> final(self).current_player
                == old(self).current_player - 1 && final(self).finished == old(self).finished
                && final(self).all_placed_once,
            !old(self).all_placed_once && old(self).current_player == old(self).num_players - 1
                ==> final(self).all_placed_once && final(self).current_player == old(self).current_player && final(self).finished == old(self).finished,
            !old(self).all_placed_once && old(self).current_player < old(self).num_players - 1
                ==> final(self).current_player == old(self).current_player + 1 && !final(self).all_placed_once && final(self).finished == old(self).finished,
            (*final(self) == SetupState {
                current_player: final(self).current_player,
                all_placed_once: final(self).all_placed_once,
                settlement: None,
                finished: final(self).finished,
                ..*old(self)
            }),
    {
        if self.all_placed_once {
            if self.current_player == 0 {
                self.finished = true;
            } else {
                self.current_player = self.current_player - 1;
            }
        } else {
            if self.current_player == self.num_players - 1 {
                self.all_placed_once = true;
            } else {
                self.current_player = self.current_player + 1;
            }
        }
        self.settlement = None;
    }
}

} // verus!
