//! The board: terrain, ports, structures, roads, the robber, and the two
//! banks, with placement legality and mutation.
//!
//! Structures and roads are stored in one slot per physical feature, keyed by
//! the canonical coordinate; every query canonicalizes its argument first, so
//! all duplicate coordinates of a feature always give the same answer.
use vstd::prelude::*;

use crate::coords::{
    coord_on_board, corner_canonical, corner_code, corner_corner_neighbors, corner_edge_neighbors,
    corner_coords, corner_listed, edge_canonical, edge_coords, edge_corner_neighbors,
    edge_edge_neighbors, edge_listed, hex_code, hex_coords,
    hex_listed, hex_on_board, hexes_touched, intersecting_corner, is_on_board,
    lemma_corner_code_injective, lemma_ccn_not_self,
    lemma_ccn_on_board, lemma_corner_neighbors_canonical, lemma_corner_neighbors_sym_canonical,
    lemma_reduce_corner_idempotent, lemma_reduce_corner_on_board, lemma_reduce_edge_idempotent,
    lemma_reduce_edge_on_board,
    port_coords, reduce_corner, reduce_edge, rot, rotn, spec_corner_corner_neighbors,
    spec_corner_edge_neighbors, spec_edge_corner_neighbors,
    spec_edge_edge_neighbors, spec_hexes_touched, spec_intersecting_corner, spec_port_coord,
    spec_reduce_corner, spec_reduce_edge, dir_q, dir_r, CornerCoord, EdgeCoord, HexCoord,
};
use crate::hands::{
    city_cost, dv_card_cost, road_cost, settlement_cost, spec_city_cost,
    spec_dv_card_cost, spec_road_cost, spec_settlement_cost, starting_bank, starting_dv_bank,
    DVCard, DVHand, ResHand, Resource,
};

verus! {

/// A player's color, which identifies the player on the board.
#[derive(Clone, Copy, PartialEq, Eq, Structural, Debug)]
pub enum PlayerColor {
    Red,
    Blue,
    Orange,
    White,
}

/// The seat order of a color among the four colors.
pub open spec fn color_index(c: PlayerColor) -> int {
    match c {
        PlayerColor::Red => 0,
        PlayerColor::Blue => 1,
        PlayerColor::Orange => 2,
        PlayerColor::White => 3,
    }
}

/// Returns the color at a seat position.
pub fn color_at(i: usize) -> (c: PlayerColor)
    requires
        i < 4,
    ensures
        color_index(c) == i,
{
    if i == 0 {
        PlayerColor::Red
    } else if i == 1 {
        PlayerColor::Blue
    } else if i == 2 {
        PlayerColor::Orange
    } else {
        PlayerColor::White
    }
}

/// What stands on a corner: a settlement or its city upgrade.
#[derive(Clone, Copy, PartialEq, Eq, Structural, Debug)]
pub enum StructureType {
    Settlement,
    City,
}

/// A structure on a corner, owned by a player.
#[derive(Clone, Copy, PartialEq, Eq, Structural, Debug)]
pub struct Structure {
    pub structure_type: StructureType,
    pub color: PlayerColor,
}

/// A terrain tile: the resource it produces and its number token.
#[derive(Clone, Copy, PartialEq, Eq, Structural, Debug)]
pub struct Hex {
    pub resource: Resource,
    pub number: usize,
}

/// A port: a generic three-for-one harbor or a two-for-one harbor for one
/// resource.
#[derive(Clone, Copy, PartialEq, Eq, Structural, Debug)]
pub enum Port {
    ThreeForOne,
    TwoForOne(Resource),
}

/// The board state: terrain, ports, structures, roads, the robber, the
/// resource bank and the development-card bank.
///
/// `hexes` has 25 slots in row-major order; only the 19 on-board cells are
/// meaningful and the desert (robber start) cell holds `None`. `structures`
/// and `roads` have one slot per corner/edge coordinate; only the slot of the
/// canonical coordinate of a physical feature is ever written, and every read
/// canonicalizes first.
#[derive(Debug)]
pub struct Board {
    pub hexes: Vec<Option<Hex>>,
    pub ports: Vec<Port>,
    pub structures: Vec<Option<Structure>>,
    pub roads: Vec<Option<PlayerColor>>,
    pub robber: HexCoord,
    pub bank: ResHand,
    pub dv_bank: DVHand,
}

impl Board {
    /// The storage shape of a well-formed board.
    pub open spec fn wf(self) -> bool {
        &&& self.hexes@.len() == 25
        &&& self.ports@.len() == 9
        &&& self.structures@.len() == 150
        &&& self.roads@.len() == 150
        &&& hex_on_board(self.robber@.0, self.robber@.1)
    }

    /// The terrain at a hex, `None` for the desert.
    pub open spec fn hex_at(self, h: (int, int)) -> Option<Hex> {
        self.hexes@[hex_code(h)]
    }

    /// The structure on the physical corner named by `k`.
    pub open spec fn structure_at(self, k: (int, int, int)) -> Option<Structure> {
        self.structures@[corner_code(spec_reduce_corner(k))]
    }

    /// The road color on the physical edge named by `k`.
    pub open spec fn road_at(self, k: (int, int, int)) -> Option<PlayerColor> {
        self.roads@[corner_code(spec_reduce_edge(k))]
    }

    /// The corner holds a structure of the given color.
    pub open spec fn spec_structure_is_color(self, k: (int, int, int), color: PlayerColor) -> bool {
        match self.structure_at(k) {
            Some(s) => s.color == color,
            None => false,
        }
    }

    /// The corner holds a structure of some other color.
    pub open spec fn spec_structure_isnt_color(
        self,
        k: (int, int, int),
        color: PlayerColor,
    ) -> bool {
        match self.structure_at(k) {
            Some(s) => s.color != color,
            None => false,
        }
    }

    /// The edge holds a road of the given color.
    pub open spec fn spec_road_is_color(self, k: (int, int, int), color: PlayerColor) -> bool {
        match self.road_at(k) {
            Some(c) => c == color,
            None => false,
        }
    }

    /// Returns the terrain at a hex.
    pub fn hex_get(&self, h: HexCoord) -> (res: Option<Hex>)
        requires
            self.wf(),
            hex_on_board(h@.0, h@.1),
        ensures
            res == self.hex_at(h@),
    {
        self.hexes[h.r * 5 + h.q]
    }

    /// Returns the structure on the physical corner named by `k`, consulting
    /// the canonical slot.
    pub fn structure_get(&self, k: CornerCoord) -> (res: Option<Structure>)
        requires
            self.wf(),
            coord_on_board(k@),
        ensures
            res == self.structure_at(k@),
    {
        let red = reduce_corner(k);
        self.structures[(red.r * 5 + red.q) * 6 + red.c]
    }

    /// Returns the road on the physical edge named by `k`, consulting the
    /// canonical slot.
    pub fn road_get(&self, k: EdgeCoord) -> (res: Option<PlayerColor>)
        requires
            self.wf(),
            coord_on_board(k@),
        ensures
            res == self.road_at(k@),
    {
        let red = reduce_edge(k);
        self.roads[(red.r * 5 + red.q) * 6 + red.e]
    }

    /// Returns whether the corner holds any structure.
    pub fn structure_exists(&self, k: CornerCoord) -> (b: bool)
        requires
            self.wf(),
            coord_on_board(k@),
        ensures
            b == (self.structure_at(k@) is Some),
    {
        self.structure_get(k).is_some()
    }

    /// Returns whether the corner holds a structure of the given color.
    pub fn structure_is_color(&self, k: CornerCoord, color: PlayerColor) -> (b: bool)
        requires
            self.wf(),
            coord_on_board(k@),
        ensures
            b == self.spec_structure_is_color(k@, color),
    {
        match self.structure_get(k) {
            Some(s) => s.color == color,
            None => false,
        }
    }

    /// Returns whether the corner holds a structure of some other color.
    pub fn structure_isnt_color(&self, k: CornerCoord, color: PlayerColor) -> (b: bool)
        requires
            self.wf(),
            coord_on_board(k@),
        ensures
            b == self.spec_structure_isnt_color(k@, color),
    {
        match self.structure_get(k) {
            Some(s) => s.color != color,
            None => false,
        }
    }

    /// Returns whether the edge holds a road of the given color.
    pub fn road_is_color(&self, k: EdgeCoord, color: PlayerColor) -> (b: bool)
        requires
            self.wf(),
            coord_on_board(k@),
        ensures
            b == self.spec_road_is_color(k@, color),
    {
        match self.road_get(k) {
            Some(c) => c == color,
            None => false,
        }
    }

    /// The corner is a legal robbery target: a hex touching it holds the
    /// robber, it holds a structure, and that structure does not belong to the
    /// robbing player.
    pub open spec fn spec_is_robbable(self, k: (int, int, int), robber: PlayerColor) -> bool {
        &&& exists|i: int|
            0 <= i < spec_hexes_touched(k).len() && #[trigger] spec_hexes_touched(k)[i]
                == self.robber@
        &&& self.structure_at(k) is Some
        &&& self.spec_structure_isnt_color(k, robber)
    }

    /// Returns whether the corner is a legal robbery target for the player of
    /// color `robber`.
    pub fn is_robbable(&self, k: CornerCoord, robber: PlayerColor) -> (b: bool)
        requires
            self.wf(),
            coord_on_board(k@),
        ensures
            b == self.spec_is_robbable(k@, robber),
    {
        let touched = hexes_touched(k);
        let mut on_robber = false;
        let mut i: usize = 0;
        while i < touched.len()
            invariant
                i <= touched@.len(),
                touched@.len() == spec_hexes_touched(k@).len(),
                forall|j: int|
                    0 <= j < touched@.len() ==> (#[trigger] touched@[j])@ == spec_hexes_touched(
                        k@,
                    )[j],
                on_robber == exists|j: int|
                    0 <= j < i && #[trigger] spec_hexes_touched(k@)[j] == self.robber@,
            decreases touched@.len() - i,
        {
            if touched[i].r == self.robber.r && touched[i].q == self.robber.q {
                proof {
                    assert(spec_hexes_touched(k@)[i as int] == self.robber@);
                }
                on_robber = true;
            }
            i = i + 1;
        }
        on_robber && self.structure_exists(k) && self.structure_isnt_color(k, robber)
    }

    /// A structure of color `col` stands on some corner of the hex `h`.
    pub open spec fn spec_color_on_hex(self, h: (int, int), col: PlayerColor) -> bool {
        exists|c: int|
            0 <= c < 6 && match #[trigger] self.structure_at((h.0, h.1, c)) {
                Some(s) => s.color == col,
                None => false,
            }
    }

    /// Returns the deduplicated set of colors that own a structure on a corner
    /// of the hex `h`.
    pub fn get_colors_on_hex(&self, h: HexCoord) -> (v: Vec<PlayerColor>)
        requires
            self.wf(),
            hex_on_board(h@.0, h@.1),
        ensures
            forall|i: int, j: int| 0 <= i < j < v@.len() ==> v@[i] != v@[j],
            forall|i: int| 0 <= i < v@.len() ==> self.spec_color_on_hex(h@, #[trigger] v@[i]),
            forall|col: PlayerColor|
                self.spec_color_on_hex(h@, col) ==> exists|i: int|
                    0 <= i < v@.len() && v@[i] == col,
    {
        let mut v: Vec<PlayerColor> = Vec::new();
        let mut c: usize = 0;
        while c < 6
            invariant
                c <= 6,
                self.wf(),
                hex_on_board(h@.0, h@.1),
                forall|i: int, j: int| 0 <= i < j < v@.len() ==> v@[i] != v@[j],
                forall|i: int| 0 <= i < v@.len() ==> self.spec_color_on_hex(h@, #[trigger] v@[i]),
                forall|cc: int|
                    0 <= cc < c ==> match #[trigger] self.structure_at((h@.0, h@.1, cc)) {
                        Some(s) => exists|i: int| 0 <= i < v@.len() && v@[i] == s.color,
                        None => true,
                    },
            decreases 6 - c,
        {
            if let Some(s) = self.structure_get(CornerCoord { r: h.r, q: h.q, c }) {
                let mut present = false;
                let mut i: usize = 0;
                while i < v.len()
                    invariant
                        i <= v@.len(),
                        present == exists|j: int| 0 <= j < i && v@[j] == s.color,
                    decreases v@.len() - i,
                {
                    if v[i] == s.color {
                        present = true;
                    }
                    i = i + 1;
                }
                if !present {
                    proof {
                        assert(self.structure_at((h@.0, h@.1, c as int)) == Some(s));
                    }
                    let ghost vs = v@;
                    v.push(s.color);
                    proof {
                        assert(v@[vs.len() as int] == s.color);
                        assert forall|cc: int|
                            0 <= cc < c + 1 implies match #[trigger] self.structure_at(
                            (h@.0, h@.1, cc),
                        ) {
                            Some(st) => exists|i: int| 0 <= i < v@.len() && v@[i] == st.color,
                            None => true,
                        } by {
                            match self.structure_at((h@.0, h@.1, cc)) {
                                Some(st) => {
                                    if cc < c {
                                        let j = choose|j: int|
                                            0 <= j < vs.len() && #[trigger] vs[j] == st.color;
                                        assert(v@[j] == st.color);
                                    } else {
                                        assert(v@[vs.len() as int] == st.color);
                                    }
                                },
                                None => {},
                            }
                        }
                    }
                }
            }
            c = c + 1;
        }
        v
    }
}


impl Board {
    /// The neighbor edge at index `i` of `kc` carries a same-color road whose
    /// shared corner with `kc` is not blocked by an opposing structure.
    pub open spec fn spec_road_link_ok(self, kc: (int, int, int), i: int, color: PlayerColor) -> bool {
        let ne = spec_edge_edge_neighbors(kc)[i];
        self.spec_road_is_color(ne, color) && match spec_intersecting_corner(kc, ne) {
            Some(ic) => !self.spec_structure_isnt_color(ic, color),
            None => false,
        }
    }

    /// A road of `color` may be placed on the edge: the edge is unoccupied,
    /// and it either touches a same-color structure at an endpoint or extends
    /// a same-color road through an unblocked shared corner.
    pub open spec fn spec_can_place_road(self, k: (int, int, int), color: PlayerColor) -> bool {
        let kc = spec_reduce_edge(k);
        &&& self.road_at(kc) is None
        &&& ({
            ||| exists|i: int|
                0 <= i < 2 && self.spec_structure_is_color(
                    #[trigger] spec_edge_corner_neighbors(kc)[i],
                    color,
                )
            ||| exists|i: int|
                0 <= i < spec_edge_edge_neighbors(kc).len() && self.spec_road_link_ok(
                    kc,
                    i,
                    color,
                )
        })
    }

    /// Returns whether a road of `color` may be placed on the edge.
    pub fn can_place_road(&self, k: EdgeCoord, color: PlayerColor) -> (b: bool)
        requires
            self.wf(),
            coord_on_board(k@),
        ensures
            b == self.spec_can_place_road(k@, color),
    {
        let kc = reduce_edge(k);
        if self.road_get(kc).is_some() {
            proof {
                lemma_reduce_edge_idempotent(k@);
            }
            return false;
        }
        let endpoints = edge_corner_neighbors(kc);
        let mut i: usize = 0;
        while i < 2
            invariant
                self.wf(),
                coord_on_board(kc@),
                kc@ == spec_reduce_edge(k@),
                self.road_at(kc@) is None,
                i <= 2,
                endpoints@.len() == 2,
                forall|j: int|
                    0 <= j < 2 ==> (#[trigger] endpoints@[j])@ == spec_edge_corner_neighbors(
                        kc@,
                    )[j] && coord_on_board(spec_edge_corner_neighbors(kc@)[j]),
                forall|j: int|
                    0 <= j < i ==> !self.spec_structure_is_color(
                        #[trigger] spec_edge_corner_neighbors(kc@)[j],
                        color,
                    ),
            decreases 2 - i,
        {
            if self.structure_is_color(endpoints[i], color) {
                proof {
                    assert(self.spec_structure_is_color(
                        spec_edge_corner_neighbors(kc@)[i as int],
                        color,
                    ));
                }
                return true;
            }
            i = i + 1;
        }
        let neighbors = edge_edge_neighbors(kc);
        let mut j: usize = 0;
        while j < neighbors.len()
            invariant
                self.wf(),
                coord_on_board(kc@),
                kc@ == spec_reduce_edge(k@),
                self.road_at(kc@) is None,
                j <= neighbors@.len(),
                neighbors@.len() == spec_edge_edge_neighbors(kc@).len(),
                forall|m: int|
                    0 <= m < neighbors@.len() ==> (#[trigger] neighbors@[m])@
                        == spec_edge_edge_neighbors(kc@)[m] && coord_on_board(
                        spec_edge_edge_neighbors(kc@)[m],
                    ),
                forall|m: int| 0 <= m < 2 ==> !self.spec_structure_is_color(
                        #[trigger] spec_edge_corner_neighbors(kc@)[m],
                        color,
                    ),
                forall|m: int| 0 <= m < j ==> !self.spec_road_link_ok(kc@, m, color),
            decreases neighbors@.len() - j,
        {
            let ne = neighbors[j];
            if self.road_is_color(ne, color) {
                match intersecting_corner(kc, ne) {
                    Some(ic) => {
                        if !self.structure_isnt_color(ic, color) {
                            proof {
                                assert(self.spec_road_link_ok(kc@, j as int, color));
                            }
                            return true;
                        }
                    },
                    None => {},
                }
            }
            j = j + 1;
        }
        false
    }

    /// A road may be placed on the edge during setup: the edge is unoccupied
    /// and touches the just-placed settlement.
    pub open spec fn spec_can_place_setup_road(
        self,
        k: (int, int, int),
        settlement: (int, int, int),
    ) -> bool {
        let kc = spec_reduce_edge(k);
        &&& self.road_at(kc) is None
        &&& exists|i: int|
            0 <= i < 2 && spec_reduce_corner(#[trigger] spec_edge_corner_neighbors(kc)[i])
                == spec_reduce_corner(settlement)
    }

    /// Returns whether a road may be placed on the edge during setup, next to
    /// the settlement at `settlement`.
    pub fn can_place_setup_road(&self, k: EdgeCoord, settlement: CornerCoord) -> (b: bool)
        requires
            self.wf(),
            coord_on_board(k@),
            coord_on_board(settlement@),
        ensures
            b == self.spec_can_place_setup_road(k@, settlement@),
    {
        let kc = reduce_edge(k);
        proof {
            lemma_reduce_edge_idempotent(k@);
        }
        if self.road_get(kc).is_some() {
            return false;
        }
        let endpoints = edge_corner_neighbors(kc);
        let target = reduce_corner(settlement);
        let mut i: usize = 0;
        while i < 2
            invariant
                i <= 2,
                coord_on_board(kc@),
                kc@ == spec_reduce_edge(k@),
                self.road_at(kc@) is None,
                target@ == spec_reduce_corner(settlement@),
                endpoints@.len() == 2,
                forall|j: int|
                    0 <= j < 2 ==> (#[trigger] endpoints@[j])@ == spec_edge_corner_neighbors(
                        kc@,
                    )[j] && coord_on_board(spec_edge_corner_neighbors(kc@)[j]),
                forall|j: int|
                    0 <= j < i ==> spec_reduce_corner(#[trigger] spec_edge_corner_neighbors(kc@)[j])
                        != spec_reduce_corner(settlement@),
            decreases 2 - i,
        {
            let red = reduce_corner(endpoints[i]);
            if red.r == target.r && red.q == target.q && red.c == target.c {
                proof {
                    assert(spec_reduce_corner(spec_edge_corner_neighbors(kc@)[i as int])
                        == spec_reduce_corner(settlement@));
                }
                return true;
            }
            i = i + 1;
        }
        false
    }

    /// A settlement of `color` may be placed on the corner: the corner and all
    /// its corner neighbors are unoccupied, and an incident edge carries a
    /// same-color road.
    pub open spec fn spec_can_place_settlement(self, k: (int, int, int), color: PlayerColor) -> bool {
        let kc = spec_reduce_corner(k);
        &&& self.structure_at(kc) is None
        &&& forall|i: int|
            0 <= i < spec_corner_corner_neighbors(kc).len() ==> self.structure_at(
                #[trigger] spec_corner_corner_neighbors(kc)[i],
            ) is None
        &&& exists|i: int|
            0 <= i < spec_corner_edge_neighbors(kc).len() && self.spec_road_is_color(
                #[trigger] spec_corner_edge_neighbors(kc)[i],
                color,
            )
    }

    /// A settlement may be placed on the corner during setup: the corner and
    /// all its corner neighbors are unoccupied.
    pub open spec fn spec_can_place_setup_settlement(self, k: (int, int, int)) -> bool {
        let kc = spec_reduce_corner(k);
        &&& self.structure_at(kc) is None
        &&& forall|i: int|
            0 <= i < spec_corner_corner_neighbors(kc).len() ==> self.structure_at(
                #[trigger] spec_corner_corner_neighbors(kc)[i],
            ) is None
    }

    /// Returns whether the corner and all its corner neighbors are unoccupied.
    fn corner_area_free(&self, kc: CornerCoord) -> (b: bool)
        requires
            self.wf(),
            coord_on_board(kc@),
        ensures
            b == (self.structure_at(kc@) is None && forall|i: int|
                0 <= i < spec_corner_corner_neighbors(kc@).len() ==> self.structure_at(
                    #[trigger] spec_corner_corner_neighbors(kc@)[i],
                ) is None),
    {
        if self.structure_get(kc).is_some() {
            return false;
        }
        let neighbors = corner_corner_neighbors(kc);
        let mut i: usize = 0;
        while i < neighbors.len()
            invariant
                self.wf(),
                coord_on_board(kc@),
                i <= neighbors@.len(),
                self.structure_at(kc@) is None,
                neighbors@.len() == spec_corner_corner_neighbors(kc@).len(),
                forall|j: int|
                    0 <= j < neighbors@.len() ==> (#[trigger] neighbors@[j])@
                        == spec_corner_corner_neighbors(kc@)[j] && coord_on_board(
                        spec_corner_corner_neighbors(kc@)[j],
                    ),
                forall|j: int|
                    0 <= j < i ==> self.structure_at(
                        #[trigger] spec_corner_corner_neighbors(kc@)[j],
                    ) is None,
            decreases neighbors@.len() - i,
        {
            if self.structure_get(neighbors[i]).is_some() {
                return false;
            }
            i = i + 1;
        }
        true
    }

    /// Returns whether a settlement of `color` may be placed on the corner.
    pub fn can_place_settlement(&self, k: CornerCoord, color: PlayerColor) -> (b: bool)
        requires
            self.wf(),
            coord_on_board(k@),
        ensures
            b == self.spec_can_place_settlement(k@, color),
    {
        let kc = reduce_corner(k);
        proof {
            lemma_reduce_corner_idempotent(k@);
        }
        if !self.corner_area_free(kc) {
            return false;
        }
        let edges = corner_edge_neighbors(kc);
        let mut i: usize = 0;
        while i < edges.len()
            invariant
                self.wf(),
                coord_on_board(kc@),
                kc@ == spec_reduce_corner(k@),
                self.structure_at(kc@) is None,
                forall|j: int|
                    0 <= j < spec_corner_corner_neighbors(kc@).len() ==> self.structure_at(
                        #[trigger] spec_corner_corner_neighbors(kc@)[j],
                    ) is None,
                i <= edges@.len(),
                edges@.len() == spec_corner_edge_neighbors(kc@).len(),
                forall|j: int|
                    0 <= j < edges@.len() ==> (#[trigger] edges@[j])@ == spec_corner_edge_neighbors(
                        kc@,
                    )[j] && coord_on_board(spec_corner_edge_neighbors(kc@)[j]),
                forall|j: int|
                    0 <= j < i ==> !self.spec_road_is_color(
                        #[trigger] spec_corner_edge_neighbors(kc@)[j],
                        color,
                    ),
            decreases edges@.len() - i,
        {
            if self.road_is_color(edges[i], color) {
                proof {
                    assert(self.spec_road_is_color(spec_corner_edge_neighbors(kc@)[i as int], color));
                }
                return true;
            }
            i = i + 1;
        }
        false
    }

    /// Returns whether a settlement may be placed on the corner during setup.
    pub fn can_place_setup_settlement(&self, k: CornerCoord) -> (b: bool)
        requires
            self.wf(),
            coord_on_board(k@),
        ensures
            b == self.spec_can_place_setup_settlement(k@),
    {
        let kc = reduce_corner(k);
        proof {
            lemma_reduce_corner_idempotent(k@);
        }
        self.corner_area_free(kc)
    }

    /// A city of `color` may be placed on the corner: the corner holds a
    /// same-color settlement (cities only upgrade).
    pub open spec fn spec_can_place_city(self, k: (int, int, int), color: PlayerColor) -> bool {
        self.structure_at(k) == Some(
            Structure { structure_type: StructureType::Settlement, color },
        )
    }

    /// Returns whether a city of `color` may be placed on the corner.
    pub fn can_place_city(&self, k: CornerCoord, color: PlayerColor) -> (b: bool)
        requires
            self.wf(),
            coord_on_board(k@),
        ensures
            b == self.spec_can_place_city(k@, color),
    {
        match self.structure_get(k) {
            Some(s) => s.color == color && matches!(s.structure_type, StructureType::Settlement),
            None => false,
        }
    }

    /// Returns whether any canonical edge admits a road of `color`.
    pub fn can_place_any_road(&self, color: PlayerColor) -> (b: bool)
        requires
            self.wf(),
        ensures
            b == exists|k: (int, int, int)|
                coord_on_board(k) && edge_canonical(k) && #[trigger] self.spec_can_place_road(
                    k,
                    color,
                ),
    {
        let coords = edge_coords();
        let mut i: usize = 0;
        while i < coords.len()
            invariant
                self.wf(),
                i <= coords@.len(),
                forall|j: int|
                    0 <= j < coords@.len() ==> coord_on_board((#[trigger] coords@[j])@)
                        && edge_canonical(coords@[j]@),
                forall|k: (int, int, int)|
                    coord_on_board(k) && edge_canonical(k) ==> edge_listed(coords@, k),
                forall|j: int|
                    0 <= j < i ==> !self.spec_can_place_road((#[trigger] coords@[j])@, color),
            decreases coords@.len() - i,
        {
            if self.can_place_road(coords[i], color) {
                return true;
            }
            i = i + 1;
        }
        proof {
            assert forall|k: (int, int, int)|
                coord_on_board(k) && edge_canonical(k) implies !self.spec_can_place_road(
                k,
                color,
            ) by {
                assert(edge_listed(coords@, k));
                let j = choose|j: int| 0 <= j < coords@.len() && (#[trigger] coords@[j])@ == k;
                assert(!self.spec_can_place_road(coords@[j]@, color));
            }
        }
        false
    }

    /// Returns whether any canonical corner admits a settlement of `color`.
    pub fn can_place_any_settlement(&self, color: PlayerColor) -> (b: bool)
        requires
            self.wf(),
        ensures
            b == exists|k: (int, int, int)|
                coord_on_board(k) && corner_canonical(k)
                    && #[trigger] self.spec_can_place_settlement(k, color),
    {
        let coords = corner_coords();
        let mut i: usize = 0;
        while i < coords.len()
            invariant
                self.wf(),
                i <= coords@.len(),
                forall|j: int|
                    0 <= j < coords@.len() ==> coord_on_board((#[trigger] coords@[j])@)
                        && corner_canonical(coords@[j]@),
                forall|k: (int, int, int)|
                    coord_on_board(k) && corner_canonical(k) ==> corner_listed(coords@, k),
                forall|j: int|
                    0 <= j < i ==> !self.spec_can_place_settlement((#[trigger] coords@[j])@, color),
            decreases coords@.len() - i,
        {
            if self.can_place_settlement(coords[i], color) {
                return true;
            }
            i = i + 1;
        }
        proof {
            assert forall|k: (int, int, int)|
                coord_on_board(k) && corner_canonical(k) implies !self.spec_can_place_settlement(
                k,
                color,
            ) by {
                assert(corner_listed(coords@, k));
                let j = choose|j: int| 0 <= j < coords@.len() && (#[trigger] coords@[j])@ == k;
                assert(!self.spec_can_place_settlement(coords@[j]@, color));
            }
        }
        false
    }

    /// Returns whether any canonical corner admits a city of `color`.
    pub fn can_place_any_city(&self, color: PlayerColor) -> (b: bool)
        requires
            self.wf(),
        ensures
            b == exists|k: (int, int, int)|
                coord_on_board(k) && corner_canonical(k) && #[trigger] self.spec_can_place_city(
                    k,
                    color,
                ),
    {
        let coords = corner_coords();
        let mut i: usize = 0;
        while i < coords.len()
            invariant
                self.wf(),
                i <= coords@.len(),
                forall|j: int|
                    0 <= j < coords@.len() ==> coord_on_board((#[trigger] coords@[j])@)
                        && corner_canonical(coords@[j]@),
                forall|k: (int, int, int)|
                    coord_on_board(k) && corner_canonical(k) ==> corner_listed(coords@, k),
                forall|j: int|
                    0 <= j < i ==> !self.spec_can_place_city((#[trigger] coords@[j])@, color),
            decreases coords@.len() - i,
        {
            if self.can_place_city(coords[i], color) {
                return true;
            }
            i = i + 1;
        }
        proof {
            assert forall|k: (int, int, int)|
                coord_on_board(k) && corner_canonical(k) implies !self.spec_can_place_city(
                k,
                color,
            ) by {
                assert(corner_listed(coords@, k));
                let j = choose|j: int| 0 <= j < coords@.len() && (#[trigger] coords@[j])@ == k;
                assert(!self.spec_can_place_city(coords@[j]@, color));
            }
        }
        false
    }
}


impl Board {
    /// The bank can absorb any single build cost without overflowing a count.
    pub open spec fn bank_has_room(self) -> bool {
        forall|r: Resource| #[trigger] self.bank.cnt(r) + 5 <= usize::MAX
    }

    /// Places a road of `color` on the physical edge named by `k` and credits
    /// the road cost to the bank. Every duplicate coordinate of the edge then
    /// reads the new road; every other edge is untouched.
    pub fn place_road(&mut self, k: EdgeCoord, color: PlayerColor)
        requires
            old(self).wf(),
            coord_on_board(k@),
            old(self).bank_has_room(),
        ensures
            final(self).wf(),
            forall|m: (int, int, int)|
                coord_on_board(m) && spec_reduce_edge(m) == spec_reduce_edge(k@) ==> final(self).road_at(m) == Some(color),
            forall|m: (int, int, int)|
                coord_on_board(m) && spec_reduce_edge(m) != spec_reduce_edge(k@) ==> final(self).road_at(m) == old(self).road_at(m),
            forall|r: Resource| #[trigger]
                final(self).bank.cnt(r) == old(self).bank.cnt(r) + spec_road_cost(r),
            final(self).structures@ == old(self).structures@,
            final(self).hexes@ == old(self).hexes@,
            final(self).ports@ == old(self).ports@,
            final(self).robber == old(self).robber,
            final(self).dv_bank == old(self).dv_bank,
    {
        let cost = road_cost();
        proof {
            assert(old(self).bank.cnt(Resource::Wood) + 5 <= usize::MAX);
            assert(old(self).bank.cnt(Resource::Brick) + 5 <= usize::MAX);
            assert(old(self).bank.cnt(Resource::Wheat) + 5 <= usize::MAX);
            assert(old(self).bank.cnt(Resource::Sheep) + 5 <= usize::MAX);
            assert(old(self).bank.cnt(Resource::Ore) + 5 <= usize::MAX);
        }
        self.bank.add(cost);
        self.set_road(k, color);
    }

    /// Places a road of `color` during setup: the same write without any cost.
    pub fn place_setup_road(&mut self, k: EdgeCoord, color: PlayerColor)
        requires
            old(self).wf(),
            coord_on_board(k@),
        ensures
            final(self).wf(),
            forall|m: (int, int, int)|
                coord_on_board(m) && spec_reduce_edge(m) == spec_reduce_edge(k@) ==> final(self).road_at(m) == Some(color),
            forall|m: (int, int, int)|
                coord_on_board(m) && spec_reduce_edge(m) != spec_reduce_edge(k@) ==> final(self).road_at(m) == old(self).road_at(m),
            final(self).structures@ == old(self).structures@,
            final(self).hexes@ == old(self).hexes@,
            final(self).ports@ == old(self).ports@,
            final(self).robber == old(self).robber,
            final(self).bank == old(self).bank,
            final(self).dv_bank == old(self).dv_bank,
    {
        self.set_road(k, color);
    }

    /// Writes the canonical road slot of the physical edge named by `k`.
    #[verifier::rlimit(90)]
    fn set_road(&mut self, k: EdgeCoord, color: PlayerColor)
        requires
            old(self).wf(),
            coord_on_board(k@),
        ensures
            final(self).wf(),
            forall|m: (int, int, int)|
                coord_on_board(m) && spec_reduce_edge(m) == spec_reduce_edge(k@) ==> final(self).road_at(m) == Some(color),
            forall|m: (int, int, int)|
                coord_on_board(m) && spec_reduce_edge(m) != spec_reduce_edge(k@) ==> final(self).road_at(m) == old(self).road_at(m),
            final(self).structures@ == old(self).structures@,
            final(self).hexes@ == old(self).hexes@,
            final(self).ports@ == old(self).ports@,
            final(self).robber == old(self).robber,
            final(self).bank == old(self).bank,
            final(self).dv_bank == old(self).dv_bank,
    {
        let red = reduce_edge(k);
        self.roads.set((red.r * 5 + red.q) * 6 + red.e, Some(color));
        proof {
            assert forall|m: (int, int, int)|
                coord_on_board(m) && spec_reduce_edge(m) == spec_reduce_edge(k@) implies final(self).road_at(m) == Some(color) by {
                lemma_reduce_edge_on_board(m);
            }
            assert forall|m: (int, int, int)|
                coord_on_board(m) && spec_reduce_edge(m) != spec_reduce_edge(k@) implies final(self).road_at(m) == old(self).road_at(m) by {
                lemma_reduce_edge_on_board(m);
                lemma_reduce_edge_on_board(k@);
                if corner_code(spec_reduce_edge(m)) == corner_code(spec_reduce_edge(k@)) {
                    lemma_corner_code_injective(spec_reduce_edge(m), spec_reduce_edge(k@));
                }
            }
        }
    }

    /// Writes the canonical structure slot of the physical corner named by
    /// `k`.
    #[verifier::rlimit(90)]
    fn set_structure(&mut self, k: CornerCoord, s: Structure)
        requires
            old(self).wf(),
            coord_on_board(k@),
        ensures
            final(self).wf(),
            forall|m: (int, int, int)|
                coord_on_board(m) && spec_reduce_corner(m) == spec_reduce_corner(k@) ==> final(self).structure_at(m) == Some(s),
            forall|m: (int, int, int)|
                coord_on_board(m) && spec_reduce_corner(m) != spec_reduce_corner(k@) ==> final(self).structure_at(m) == old(self).structure_at(m),
            final(self).roads@ == old(self).roads@,
            final(self).hexes@ == old(self).hexes@,
            final(self).ports@ == old(self).ports@,
            final(self).robber == old(self).robber,
            final(self).bank == old(self).bank,
            final(self).dv_bank == old(self).dv_bank,
    {
        let red = reduce_corner(k);
        self.structures.set((red.r * 5 + red.q) * 6 + red.c, Some(s));
        proof {
            assert forall|m: (int, int, int)|
                coord_on_board(m) && spec_reduce_corner(m) == spec_reduce_corner(k@) implies final(self).structure_at(m) == Some(s) by {
                lemma_reduce_corner_on_board(m);
            }
            assert forall|m: (int, int, int)|
                coord_on_board(m) && spec_reduce_corner(m) != spec_reduce_corner(k@) implies final(self).structure_at(m) == old(self).structure_at(m) by {
                lemma_reduce_corner_on_board(m);
                lemma_reduce_corner_on_board(k@);
                if corner_code(spec_reduce_corner(m)) == corner_code(spec_reduce_corner(k@)) {
                    lemma_corner_code_injective(spec_reduce_corner(m), spec_reduce_corner(k@));
                }
            }
        }
    }

    /// Credits one fixed cost to the bank.
    fn credit_bank(&mut self, cost: ResHand)
        requires
            old(self).wf(),
            old(self).bank_has_room(),
            forall|r: Resource| #[trigger] cost.cnt(r) <= 5,
        ensures
            final(self).wf(),
            forall|r: Resource| #[trigger]
                final(self).bank.cnt(r) == old(self).bank.cnt(r) + cost.cnt(r),
            final(self).structures@ == old(self).structures@,
            final(self).roads@ == old(self).roads@,
            final(self).hexes@ == old(self).hexes@,
            final(self).ports@ == old(self).ports@,
            final(self).robber == old(self).robber,
            final(self).dv_bank == old(self).dv_bank,
    {
        proof {
            assert(old(self).bank.cnt(Resource::Wood) + 5 <= usize::MAX);
            assert(old(self).bank.cnt(Resource::Brick) + 5 <= usize::MAX);
            assert(old(self).bank.cnt(Resource::Wheat) + 5 <= usize::MAX);
            assert(old(self).bank.cnt(Resource::Sheep) + 5 <= usize::MAX);
            assert(old(self).bank.cnt(Resource::Ore) + 5 <= usize::MAX);
            assert(cost.cnt(Resource::Wood) <= 5);
            assert(cost.cnt(Resource::Brick) <= 5);
            assert(cost.cnt(Resource::Wheat) <= 5);
            assert(cost.cnt(Resource::Sheep) <= 5);
            assert(cost.cnt(Resource::Ore) <= 5);
        }
        self.bank.add(cost);
    }

    /// Places a settlement of `color` on the physical corner named by `k` and
    /// credits the settlement cost to the bank.
    pub fn place_settlement(&mut self, k: CornerCoord, color: PlayerColor)
        requires
            old(self).wf(),
            coord_on_board(k@),
            old(self).bank_has_room(),
        ensures
            final(self).wf(),
            forall|m: (int, int, int)|
                coord_on_board(m) && spec_reduce_corner(m) == spec_reduce_corner(k@) ==> final(self).structure_at(m) == Some(
                    Structure { structure_type: StructureType::Settlement, color },
                ),
            forall|m: (int, int, int)|
                coord_on_board(m) && spec_reduce_corner(m) != spec_reduce_corner(k@) ==> final(self).structure_at(m) == old(self).structure_at(m),
            forall|r: Resource| #[trigger]
                final(self).bank.cnt(r) == old(self).bank.cnt(r) + spec_settlement_cost(r),
            final(self).roads@ == old(self).roads@,
            final(self).hexes@ == old(self).hexes@,
            final(self).ports@ == old(self).ports@,
            final(self).robber == old(self).robber,
            final(self).dv_bank == old(self).dv_bank,
    {
        let cost = settlement_cost();
        self.credit_bank(cost);
        self.set_structure(k, Structure { structure_type: StructureType::Settlement, color });
    }

    /// Places a settlement of `color` during setup: the same write without
    /// any cost.
    pub fn place_setup_settlement(&mut self, k: CornerCoord, color: PlayerColor)
        requires
            old(self).wf(),
            coord_on_board(k@),
        ensures
            final(self).wf(),
            forall|m: (int, int, int)|
                coord_on_board(m) && spec_reduce_corner(m) == spec_reduce_corner(k@) ==> final(self).structure_at(m) == Some(
                    Structure { structure_type: StructureType::Settlement, color },
                ),
            forall|m: (int, int, int)|
                coord_on_board(m) && spec_reduce_corner(m) != spec_reduce_corner(k@) ==> final(self).structure_at(m) == old(self).structure_at(m),
            final(self).roads@ == old(self).roads@,
            final(self).hexes@ == old(self).hexes@,
            final(self).ports@ == old(self).ports@,
            final(self).robber == old(self).robber,
            final(self).bank == old(self).bank,
            final(self).dv_bank == old(self).dv_bank,
    {
        self.set_structure(k, Structure { structure_type: StructureType::Settlement, color });
    }

    /// Upgrades the corner to a city of `color` and credits the city cost to
    /// the bank.
    pub fn place_city(&mut self, k: CornerCoord, color: PlayerColor)
        requires
            old(self).wf(),
            coord_on_board(k@),
            old(self).bank_has_room(),
        ensures
            final(self).wf(),
            forall|m: (int, int, int)|
                coord_on_board(m) && spec_reduce_corner(m) == spec_reduce_corner(k@) ==> final(self).structure_at(m) == Some(
                    Structure { structure_type: StructureType::City, color },
                ),
            forall|m: (int, int, int)|
                coord_on_board(m) && spec_reduce_corner(m) != spec_reduce_corner(k@) ==> final(self).structure_at(m) == old(self).structure_at(m),
            forall|r: Resource| #[trigger]
                final(self).bank.cnt(r) == old(self).bank.cnt(r) + spec_city_cost(r),
            final(self).roads@ == old(self).roads@,
            final(self).hexes@ == old(self).hexes@,
            final(self).ports@ == old(self).ports@,
            final(self).robber == old(self).robber,
            final(self).dv_bank == old(self).dv_bank,
    {
        let cost = city_cost();
        self.credit_bank(cost);
        self.set_structure(k, Structure { structure_type: StructureType::City, color });
    }

    /// Returns whether the development-card bank still holds a card.
    pub fn can_draw_dv_card(&self) -> (b: bool)
        ensures
            b == (self.dv_bank.total() > 0),
    {
        self.dv_bank.counts[0] > 0 || self.dv_bank.counts[1] > 0 || self.dv_bank.counts[2] > 0
            || self.dv_bank.counts[3] > 0 || self.dv_bank.counts[4] > 0
    }

    /// Draws the development card at position `sel` of the bank laid out in
    /// slot order, crediting the card cost to the resource bank.
    pub fn draw_dv_at(&mut self, sel: usize) -> (card: DVCard)
        requires
            old(self).wf(),
            sel < old(self).dv_bank.total(),
            old(self).bank_has_room(),
        ensures
            final(self).wf(),
            card == old(self).dv_bank.spec_pick(sel as int),
            old(self).dv_bank.cnt(card) > 0,
            final(self).dv_bank.cnt(card) == old(self).dv_bank.cnt(card) - 1,
            forall|d: DVCard| d != card ==> final(self).dv_bank.cnt(d) == old(self).dv_bank.cnt(d),
            final(self).dv_bank.total() == old(self).dv_bank.total() - 1,
            forall|r: Resource| #[trigger]
                final(self).bank.cnt(r) == old(self).bank.cnt(r) + spec_dv_card_cost(r),
            final(self).structures@ == old(self).structures@,
            final(self).roads@ == old(self).roads@,
            final(self).hexes@ == old(self).hexes@,
            final(self).ports@ == old(self).ports@,
            final(self).robber == old(self).robber,
    {
        let cost = dv_card_cost();
        self.credit_bank(cost);
        self.dv_bank.discard_at(sel)
    }

    /// Draws a uniformly random development card from the bank, crediting the
    /// card cost to the resource bank. Whatever card is drawn, it was present
    /// in the bank and exactly one copy of it is removed.
    pub fn draw_dv_card(&mut self) -> (card: DVCard)
        requires
            old(self).wf(),
            0 < old(self).dv_bank.total() <= usize::MAX,
            old(self).bank_has_room(),
        ensures
            final(self).wf(),
            old(self).dv_bank.cnt(card) > 0,
            final(self).dv_bank.cnt(card) == old(self).dv_bank.cnt(card) - 1,
            forall|d: DVCard| d != card ==> final(self).dv_bank.cnt(d) == old(self).dv_bank.cnt(d),
            final(self).dv_bank.total() == old(self).dv_bank.total() - 1,
            forall|r: Resource| #[trigger]
                final(self).bank.cnt(r) == old(self).bank.cnt(r) + spec_dv_card_cost(r),
            final(self).structures@ == old(self).structures@,
            final(self).roads@ == old(self).roads@,
            final(self).hexes@ == old(self).hexes@,
            final(self).ports@ == old(self).ports@,
            final(self).robber == old(self).robber,
    {
        let n = self.dv_bank.size();
        let sel = crate::rng::random_below(n);
        self.draw_dv_at(sel)
    }

    /// No two corners at distance one are both settled: for every corner that
    /// holds a structure, no corner neighboring it holds one.
    pub open spec fn distance_rule_ok(self) -> bool {
        forall|k: (int, int, int), i: int|
            coord_on_board(k) && 0 <= i < spec_corner_corner_neighbors(k).len() ==> !(
            self.structure_at(k) is Some && self.structure_at(
                #[trigger] spec_corner_corner_neighbors(k)[i],
            ) is Some)
    }

    /// The distance rule depends only on the structure slots.
    pub proof fn lemma_distance_rule_same_structures(a: Board, b: Board)
        requires
            a.distance_rule_ok(),
            b.structures@ == a.structures@,
        ensures
            b.distance_rule_ok(),
    {
        assert forall|k: (int, int, int), i: int|
            coord_on_board(k) && 0 <= i < spec_corner_corner_neighbors(k).len() implies !(
        b.structure_at(k) is Some && b.structure_at(
            #[trigger] spec_corner_corner_neighbors(k)[i],
        ) is Some) by {
            assert(!(a.structure_at(k) is Some && a.structure_at(
                spec_corner_corner_neighbors(k)[i],
            ) is Some));
        }
    }

    /// Placing a settlement on a corner whose whole neighborhood is free
    /// preserves the distance rule.
    pub proof fn lemma_settlement_keeps_distance_rule(
        pre: Board,
        post: Board,
        k: (int, int, int),
        s: Structure,
    )
        requires
            pre.wf(),
            coord_on_board(k),
            pre.distance_rule_ok(),
            pre.spec_can_place_setup_settlement(k),
            forall|m: (int, int, int)|
                coord_on_board(m) && spec_reduce_corner(m) == spec_reduce_corner(k)
                    ==> post.structure_at(m) == Some(s),
            forall|m: (int, int, int)|
                coord_on_board(m) && spec_reduce_corner(m) != spec_reduce_corner(k)
                    ==> post.structure_at(m) == pre.structure_at(m),
        ensures
            post.distance_rule_ok(),
    {
        let kc = spec_reduce_corner(k);
        lemma_reduce_corner_on_board(k);
        lemma_reduce_corner_idempotent(k);
        assert forall|x: (int, int, int), i: int|
            coord_on_board(x) && 0 <= i < spec_corner_corner_neighbors(x).len() implies !(
        post.structure_at(x) is Some && post.structure_at(
            #[trigger] spec_corner_corner_neighbors(x)[i],
        ) is Some) by {
            let n = spec_corner_corner_neighbors(x)[i];
            lemma_ccn_on_board(x, i);
            if post.structure_at(x) is Some && post.structure_at(n) is Some {
                if spec_reduce_corner(x) == kc {
                    lemma_ccn_not_self(x, i);
                    assert(spec_reduce_corner(n) != kc);
                    assert(pre.structure_at(n) is Some);
                    lemma_corner_neighbors_canonical(x, i);
                    let j = choose|j: int|
                        0 <= j < spec_corner_corner_neighbors(kc).len() && spec_reduce_corner(
                            #[trigger] spec_corner_corner_neighbors(kc)[j],
                        ) == spec_reduce_corner(n);
                    assert(pre.structure_at(spec_corner_corner_neighbors(kc)[j]) is None);
                    assert(pre.structure_at(spec_corner_corner_neighbors(kc)[j])
                        == pre.structure_at(n));
                } else if spec_reduce_corner(n) == kc {
                    assert(pre.structure_at(x) is Some);
                    lemma_corner_neighbors_sym_canonical(x, i);
                    let j = choose|j: int|
                        0 <= j < spec_corner_corner_neighbors(kc).len() && spec_reduce_corner(
                            #[trigger] spec_corner_corner_neighbors(kc)[j],
                        ) == spec_reduce_corner(x);
                    assert(pre.structure_at(spec_corner_corner_neighbors(kc)[j]) is None);
                    assert(pre.structure_at(spec_corner_corner_neighbors(kc)[j])
                        == pre.structure_at(x));
                } else {
                    assert(pre.structure_at(x) is Some && pre.structure_at(n) is Some);
                }
            }
        }
    }
}


impl Board {
    /// One card of `r` for the hex `h` when its terrain produces `r`.
    pub open spec fn spec_hex_gives(self, h: (int, int), r: Resource) -> int {
        match self.hex_at(h) {
            Some(hx) => if hx.resource == r {
                1int
            } else {
                0
            },
            None => 0,
        }
    }

    /// The cards of `r` granted by a list of hexes.
    pub open spec fn spec_start_sum(self, s: Seq<(int, int)>, r: Resource) -> int
        decreases s.len(),
    {
        if s.len() == 0 {
            0
        } else {
            self.spec_hex_gives(s[0], r) + self.spec_start_sum(s.drop_first(), r)
        }
    }

    /// Returns the starting hand granted by a settlement at `k`: one card for
    /// each terrain hex touching the corner.
    pub fn get_starting_resources(&self, k: CornerCoord) -> (h: ResHand)
        requires
            self.wf(),
            coord_on_board(k@),
        ensures
            forall|r: Resource| #[trigger]
                h.cnt(r) == self.spec_start_sum(spec_hexes_touched(k@), r),
    {
        let ghost htv = spec_hexes_touched(k@);
        let touched = hexes_touched(k);
        let mut h = ResHand::new();
        let mut i: usize = 0;
        proof {
            assert(htv.skip(0) =~= htv);
        }
        while i < touched.len()
            invariant
                self.wf(),
                i <= touched@.len(),
                touched@.len() == htv.len(),
                htv == spec_hexes_touched(k@),
                forall|j: int|
                    0 <= j < htv.len() ==> (#[trigger] touched@[j])@ == htv[j] && hex_on_board(
                        htv[j].0,
                        htv[j].1,
                    ),
                forall|r: Resource| #[trigger] h.cnt(r) <= i,
                forall|r: Resource| #[trigger]
                    h.cnt(r) + self.spec_start_sum(htv.skip(i as int), r) == self.spec_start_sum(
                        htv,
                        r,
                    ),
            decreases touched@.len() - i,
        {
            proof {
                assert(htv.skip(i as int)[0] == htv[i as int]);
                assert(htv.skip(i as int).drop_first() =~= htv.skip(i as int + 1));
            }
            if let Some(hx) = self.hex_get(touched[i]) {
                h.add_card(hx.resource);
            }
            i = i + 1;
        }
        proof {
            assert(htv.skip(i as int).len() == 0);
        }
        h
    }
}


impl Board {
    /// The cards of one resource that the structure on corner `c` of hex `h`
    /// earns its owner: two for a city, one for a settlement, none for another
    /// player's structure or an empty corner.
    pub open spec fn spec_corner_yield(self, h: (int, int), c: int, col: PlayerColor) -> int {
        match self.structure_at((h.0, h.1, c)) {
            Some(s) => if s.color == col {
                if s.structure_type == StructureType::City {
                    2int
                } else {
                    1int
                }
            } else {
                0
            },
            None => 0,
        }
    }

    /// The yield of the first `cmax` corners of hex `h` for one player.
    pub open spec fn spec_hex_yield_upto(self, h: (int, int), cmax: int, col: PlayerColor) -> int
        decreases cmax,
    {
        if cmax <= 0 {
            0
        } else {
            self.spec_hex_yield_upto(h, cmax - 1, col) + self.spec_corner_yield(h, cmax - 1, col)
        }
    }

    /// The cards of `r` that hex `h` pays the player of color `col` on a roll:
    /// nothing when the hex holds the robber, is desert, or does not match the
    /// roll or the resource; otherwise the summed corner yields.
    pub open spec fn spec_hex_yield(
        self,
        h: (int, int),
        roll: int,
        col: PlayerColor,
        r: Resource,
    ) -> int {
        if h == self.robber@ {
            0
        } else {
            match self.hex_at(h) {
                Some(hx) => if hx.number == roll && hx.resource == r {
                    self.spec_hex_yield_upto(h, 6, col)
                } else {
                    0
                },
                None => 0,
            }
        }
    }

    /// The roll yield summed over the first `qmax` cells of row `rr`.
    pub open spec fn spec_row_yield_upto(
        self,
        rr: int,
        qmax: int,
        roll: int,
        col: PlayerColor,
        r: Resource,
    ) -> int
        decreases qmax,
    {
        if qmax <= 0 {
            0
        } else {
            self.spec_row_yield_upto(rr, qmax - 1, roll, col, r) + (if hex_on_board(rr, qmax - 1) {
                self.spec_hex_yield((rr, qmax - 1), roll, col, r)
            } else {
                0
            })
        }
    }

    /// The roll yield summed over the first `rmax` rows of the board.
    pub open spec fn spec_yield_upto(
        self,
        rmax: int,
        roll: int,
        col: PlayerColor,
        r: Resource,
    ) -> int
        decreases rmax,
    {
        if rmax <= 0 {
            0
        } else {
            self.spec_yield_upto(rmax - 1, roll, col, r) + self.spec_row_yield_upto(
                rmax - 1,
                5,
                roll,
                col,
                r,
            )
        }
    }

    /// The cards of `r` that the whole board pays the player of color `col`
    /// on a roll.
    pub open spec fn spec_roll_yield(self, roll: int, col: PlayerColor, r: Resource) -> int {
        self.spec_yield_upto(5, roll, col, r)
    }

    /// The yield of a hex prefix is between zero and two cards per corner.
    proof fn lemma_hex_yield_upto_bound(self, h: (int, int), cmax: int, col: PlayerColor)
        requires
            0 <= cmax <= 6,
        ensures
            0 <= self.spec_hex_yield_upto(h, cmax, col) <= 2 * cmax,
        decreases cmax,
    {
        if cmax > 0 {
            self.lemma_hex_yield_upto_bound(h, cmax - 1, col);
        }
    }

    /// The yield of a row prefix is between zero and twelve cards per cell.
    proof fn lemma_row_yield_upto_bound(
        self,
        rr: int,
        qmax: int,
        roll: int,
        col: PlayerColor,
        r: Resource,
    )
        requires
            0 <= qmax <= 5,
        ensures
            0 <= self.spec_row_yield_upto(rr, qmax, roll, col, r) <= 12 * qmax,
        decreases qmax,
    {
        if qmax > 0 {
            self.lemma_row_yield_upto_bound(rr, qmax - 1, roll, col, r);
            self.lemma_hex_yield_upto_bound((rr, qmax - 1), 6, col);
        }
    }

    /// The yield of a row-count prefix is between zero and sixty cards per
    /// row.
    proof fn lemma_yield_upto_bound(
        self,
        rmax: int,
        roll: int,
        col: PlayerColor,
        r: Resource,
    )
        requires
            0 <= rmax <= 5,
        ensures
            0 <= self.spec_yield_upto(rmax, roll, col, r) <= 60 * rmax,
        decreases rmax,
    {
        if rmax > 0 {
            self.lemma_yield_upto_bound(rmax - 1, roll, col, r);
            self.lemma_row_yield_upto_bound(rmax - 1, 5, roll, col, r);
        }
    }

    /// Returns, for each listed player, the hand of cards that the roll pays
    /// out: scanning every hex that matches the roll and is not robbed, one
    /// card of its resource per settlement and two per city on its corners.
    pub fn get_new_resources(&self, players: &Vec<PlayerColor>, roll: usize) -> (res: Vec<ResHand>)
        requires
            self.wf(),
            forall|i: int, j: int| 0 <= i < j < players@.len() ==> players@[i] != players@[j],
        ensures
            res@.len() == players@.len(),
            forall|j: int, r: Resource|
                0 <= j < players@.len() ==> (#[trigger] res@[j].cnt(r)) == self.spec_roll_yield(
                    roll as int,
                    players@[j],
                    r,
                ),
    {
        let mut cards: Vec<ResHand> = Vec::new();
        let mut n: usize = 0;
        while n < players.len()
            invariant
                n <= players@.len(),
                cards@.len() == n,
                forall|j: int, r: Resource|
                    0 <= j < n ==> (#[trigger] cards@[j].cnt(r)) == 0,
            decreases players@.len() - n,
        {
            cards.push(ResHand::new());
            n = n + 1;
        }
        let mut rr: usize = 0;
        while rr < 5
            invariant
                self.wf(),
                rr <= 5,
                cards@.len() == players@.len(),
                forall|i: int, j: int| 0 <= i < j < players@.len() ==> players@[i] != players@[j],
                forall|j: int, r: Resource|
                    0 <= j < players@.len() ==> (#[trigger] cards@[j].cnt(r))
                        == self.spec_yield_upto(rr as int, roll as int, players@[j], r),
            decreases 5 - rr,
        {
            let mut qq: usize = 0;
            while qq < 5
                invariant
                    self.wf(),
                    rr < 5,
                    qq <= 5,
                    cards@.len() == players@.len(),
                    forall|i: int, j: int|
                        0 <= i < j < players@.len() ==> players@[i] != players@[j],
                    forall|j: int, r: Resource|
                        0 <= j < players@.len() ==> (#[trigger] cards@[j].cnt(r))
                            == self.spec_yield_upto(rr as int, roll as int, players@[j], r)
                            + self.spec_row_yield_upto(
                            rr as int,
                            qq as int,
                            roll as int,
                            players@[j],
                            r,
                        ),
                decreases 5 - qq,
            {
                if is_on_board(rr, qq) && !(self.robber.r == rr && self.robber.q == qq) {
                    if let Some(hx) = self.hex_get(HexCoord { r: rr, q: qq }) {
                        if hx.number == roll {
                            let ghost h = (rr as int, qq as int);
                            let mut c: usize = 0;
                            while c < 6
                                invariant
                                    self.wf(),
                                    rr < 5,
                                    qq < 5,
                                    c <= 6,
                                    h == (rr as int, qq as int),
                                    hex_on_board(h.0, h.1),
                                    h != self.robber@,
                                    self.hex_at(h) == Some(hx),
                                    hx.number == roll,
                                    cards@.len() == players@.len(),
                                    forall|i: int, j: int|
                                        0 <= i < j < players@.len() ==> players@[i] != players@[j],
                                    forall|j: int, r: Resource|
                                        0 <= j < players@.len() ==> (#[trigger] cards@[j].cnt(r))
                                            == self.spec_yield_upto(
                                            rr as int,
                                            roll as int,
                                            players@[j],
                                            r,
                                        ) + self.spec_row_yield_upto(
                                            rr as int,
                                            qq as int,
                                            roll as int,
                                            players@[j],
                                            r,
                                        ) + (if hx.resource == r {
                                            self.spec_hex_yield_upto(h, c as int, players@[j])
                                        } else {
                                            0int
                                        }),
                                decreases 6 - c,
                            {
                                if let Some(st) = self.structure_get(
                                    CornerCoord { r: rr, q: qq, c },
                                ) {
                                    let mut found: Option<usize> = None;
                                    let mut p: usize = 0;
                                    while p < players.len()
                                        invariant
                                            p <= players@.len(),
                                            match found {
                                                Some(idx) => idx < players@.len()
                                                    && players@[idx as int] == st.color,
                                                None => forall|pp: int|
                                                    0 <= pp < p ==> players@[pp] != st.color,
                                            },
                                        decreases players@.len() - p,
                                    {
                                        if players[p] == st.color {
                                            found = Some(p);
                                        }
                                        p = p + 1;
                                    }
                                    if let Some(idx) = found {
                                        proof {
                                            self.lemma_yield_upto_bound(
                                                rr as int,
                                                roll as int,
                                                players@[idx as int],
                                                hx.resource,
                                            );
                                            self.lemma_row_yield_upto_bound(
                                                rr as int,
                                                qq as int,
                                                roll as int,
                                                players@[idx as int],
                                                hx.resource,
                                            );
                                            self.lemma_hex_yield_upto_bound(
                                                h,
                                                c as int,
                                                players@[idx as int],
                                            );
                                        }
                                        let mut hand = cards[idx];
                                        hand.add_card(hx.resource);
                                        if matches!(st.structure_type, StructureType::City) {
                                            hand.add_card(hx.resource);
                                        }
                                        cards.set(idx, hand);
                                    }
                                }
                                c = c + 1;
                            }
                        }
                    }
                }
                qq = qq + 1;
            }
            rr = rr + 1;
        }
        cards
    }
}


impl Board {
    /// The port slot `i` is owned by `color`: a structure of that color
    /// stands on one of the two corners flanking the port's edge.
    pub open spec fn spec_port_owned(self, i: int, color: PlayerColor) -> bool {
        let e = spec_port_coord(i);
        self.spec_structure_is_color((e.0, e.1, e.2), color) || self.spec_structure_is_color(
            (e.0, e.1, rot(e.2, 5)),
            color,
        )
    }

    /// The player owns a two-for-one port for the resource.
    pub open spec fn spec_has_two_for_one(self, color: PlayerColor, res: Resource) -> bool {
        exists|i: int|
            0 <= i < 9 && #[trigger] self.spec_port_owned(i, color) && self.ports@[i]
                == Port::TwoForOne(res)
    }

    /// The player owns a generic three-for-one port.
    pub open spec fn spec_has_three_for_one(self, color: PlayerColor) -> bool {
        exists|i: int|
            0 <= i < 9 && #[trigger] self.spec_port_owned(i, color) && self.ports@[i]
                == Port::ThreeForOne
    }

    /// The bank trade rate of the player for giving `res`: two with a
    /// matching two-for-one port, three with a generic port, else four.
    pub open spec fn spec_trade_rate(self, color: PlayerColor, res: Resource) -> int {
        if self.spec_has_two_for_one(color, res) {
            2
        } else if self.spec_has_three_for_one(color) {
            3
        } else {
            4
        }
    }

    /// Returns whether the port slot `i` is owned by `color`.
    fn port_owned(&self, e: EdgeCoord, i: usize, color: PlayerColor) -> (b: bool)
        requires
            self.wf(),
            i < 9,
            e@ == spec_port_coord(i as int),
            coord_on_board(e@),
        ensures
            b == self.spec_port_owned(i as int, color),
    {
        let c1 = CornerCoord { r: e.r, q: e.q, c: e.e };
        let c2 = CornerCoord { r: e.r, q: e.q, c: rotn(e.e, 5) };
        self.structure_is_color(c1, color) || self.structure_is_color(c2, color)
    }

    /// Returns the bank trade rate of the player of `color` for giving `res`.
    pub fn trade_rate(&self, color: PlayerColor, res: Resource) -> (rate: usize)
        requires
            self.wf(),
        ensures
            rate == self.spec_trade_rate(color, res),
    {
        let ports = port_coords();
        let mut rate: usize = 4;
        let mut i: usize = 0;
        while i < 9
            invariant
                self.wf(),
                i <= 9,
                ports@.len() == 9,
                forall|j: int|
                    0 <= j < 9 ==> (#[trigger] ports@[j])@ == spec_port_coord(j) && coord_on_board(
                        spec_port_coord(j),
                    ),
                forall|j: int|
                    0 <= j < i ==> !(#[trigger] self.spec_port_owned(j, color) && self.ports@[j]
                        == Port::TwoForOne(res)),
                rate == (if exists|j: int|
                    0 <= j < i && #[trigger] self.spec_port_owned(j, color) && self.ports@[j]
                        == Port::ThreeForOne {
                    3int
                } else {
                    4int
                }),
            decreases 9 - i,
        {
            if self.port_owned(ports[i], i, color) {
                match self.ports[i] {
                    Port::ThreeForOne => {
                        if rate == 4 {
                            proof {
                                assert(self.spec_port_owned(i as int, color) && self.ports@[i as int]
                                    == Port::ThreeForOne);
                            }
                            rate = 3;
                        }
                    },
                    Port::TwoForOne(r) => {
                        if r == res {
                            proof {
                                assert(self.spec_port_owned(i as int, color) && self.ports@[i as int]
                                    == Port::TwoForOne(res));
                            }
                            return 2;
                        }
                    },
                }
            }
            i = i + 1;
        }
        rate
    }

    /// The trade of `give` for `get` executes against the bank: the bank can
    /// pay `get`, exactly one resource is given, and the amount given is the
    /// player's rate times the amount received.
    pub open spec fn spec_can_trade_with_bank(
        self,
        give: ResHand,
        get: ResHand,
        color: PlayerColor,
    ) -> bool {
        &&& self.bank.covers(get)
        &&& give.spec_count_nonzero() == 1
        &&& match give.spec_nth_nonzero(0) {
            Some(item) => give.total() == self.spec_trade_rate(color, item) * get.total(),
            None => false,
        }
    }

    /// Returns whether the trade of `give` for `get` executes against the
    /// bank for the player of `color`.
    pub fn can_trade_with_bank(&self, give: ResHand, get: ResHand, color: PlayerColor) -> (b: bool)
        requires
            self.wf(),
            give.total() <= usize::MAX,
            get.total() <= usize::MAX,
        ensures
            b == self.spec_can_trade_with_bank(give, get, color),
    {
        if !self.bank.can_discard(get) || give.count_nonzero() != 1 {
            return false;
        }
        match give.nth_nonzero(0) {
            Some(item) => {
                let rate = self.trade_rate(color, item);
                match rate.checked_mul(get.size()) {
                    Some(p) => give.size() == p,
                    None => {
                        proof {
                            assert(give.total() <= usize::MAX);
                            assert(self.spec_trade_rate(color, item) * get.total() > usize::MAX);
                        }
                        false
                    },
                }
            },
            None => false,
        }
    }
}


/// The number token is one of the tokens of the game (seven is never on a
/// tile).
pub open spec fn valid_token(n: int) -> bool {
    n == 2 || n == 3 || n == 4 || n == 5 || n == 6 || n == 8 || n == 9 || n == 10 || n == 11 || n
        == 12
}

/// The hex `b` is one step from the hex `a`.
pub open spec fn hexes_adjacent(a: (int, int), b: (int, int)) -> bool {
    exists|d: int| 0 <= d < 6 && b == (a.0 + #[trigger] dir_r(d), a.1 + dir_q(d))
}

/// The cell of `h` carries a six or an eight.
pub open spec fn red_at(hexes: Seq<Option<Hex>>, h: (int, int)) -> bool {
    match hexes[hex_code(h)] {
        Some(hx) => hx.number == 6 || hx.number == 8,
        None => false,
    }
}

/// No two hexes at distance one both carry a six or an eight.
pub open spec fn no_adjacent_red(hexes: Seq<Option<Hex>>) -> bool {
    forall|a: (int, int), b: (int, int)|
        hex_on_board(a.0, a.1) && hex_on_board(b.0, b.1) && hexes_adjacent(a, b) ==> !(
        #[trigger] red_at(hexes, a) && #[trigger] red_at(hexes, b))
}

/// Returns the eighteen terrain tiles of the game, before shuffling: four
/// wood, three brick, four wheat, four sheep and three ore.
pub fn board_resources() -> (v: Vec<Resource>)
    ensures
        v@.len() == 18,
        forall|r: Resource| #[trigger] v@.to_multiset().count(r) == spec_terrain_count(r),
{
    let mut v: Vec<Resource> = Vec::new();
    proof {
        v@.to_multiset_ensures();
        assert forall|r: Resource| v@.to_multiset().count(r) == 0 by {
            assert(!v@.contains(r));
        }
    }
    push_res(&mut v, Resource::Wood);
    push_res(&mut v, Resource::Wood);
    push_res(&mut v, Resource::Wood);
    push_res(&mut v, Resource::Wood);
    push_res(&mut v, Resource::Brick);
    push_res(&mut v, Resource::Brick);
    push_res(&mut v, Resource::Brick);
    push_res(&mut v, Resource::Wheat);
    push_res(&mut v, Resource::Wheat);
    push_res(&mut v, Resource::Wheat);
    push_res(&mut v, Resource::Wheat);
    push_res(&mut v, Resource::Sheep);
    push_res(&mut v, Resource::Sheep);
    push_res(&mut v, Resource::Sheep);
    push_res(&mut v, Resource::Sheep);
    push_res(&mut v, Resource::Ore);
    push_res(&mut v, Resource::Ore);
    push_res(&mut v, Resource::Ore);
    v
}

/// Returns the eighteen number tokens of the game, before shuffling: one
/// two and one twelve, and two of every other token.
pub fn board_numbers() -> (v: Vec<usize>)
    ensures
        v@.len() == 18,
        forall|n: usize| #[trigger] v@.to_multiset().count(n) == spec_token_count(n as int),
        forall|i: int| 0 <= i < 18 ==> valid_token(#[trigger] v@[i] as int),
{
    let mut v: Vec<usize> = Vec::new();
    proof {
        v@.to_multiset_ensures();
        assert forall|n: usize| v@.to_multiset().count(n) == 0 by {
            assert(!v@.contains(n));
        }
    }
    push_num(&mut v, 2);
    push_num(&mut v, 3);
    push_num(&mut v, 3);
    push_num(&mut v, 4);
    push_num(&mut v, 4);
    push_num(&mut v, 5);
    push_num(&mut v, 5);
    push_num(&mut v, 6);
    push_num(&mut v, 6);
    push_num(&mut v, 8);
    push_num(&mut v, 8);
    push_num(&mut v, 9);
    push_num(&mut v, 9);
    push_num(&mut v, 10);
    push_num(&mut v, 10);
    push_num(&mut v, 11);
    push_num(&mut v, 11);
    push_num(&mut v, 12);
    proof {
        v@.to_multiset_ensures();
        assert forall|i: int| 0 <= i < 18 implies valid_token(#[trigger] v@[i] as int) by {
            assert(v@.contains(v@[i]));
            assert(v@.to_multiset().count(v@[i]) > 0);
            assert(spec_token_count(v@[i] as int) > 0);
        }
    }
    v
}

/// Returns the nine ports of the game, before shuffling: four generic ports
/// and one two-for-one port per resource.
/// The number of copies of each port among the nine ports of the game: four
/// generic harbors and one two-for-one harbor per resource.
pub open spec fn spec_port_count(p: Port) -> int {
    match p {
        Port::ThreeForOne => 4,
        Port::TwoForOne(_) => 1,
    }
}

/// Appends one port, tracking how the multiset of ports changes.
fn push_port(v: &mut Vec<Port>, p: Port)
    ensures
        final(v)@.len() == old(v)@.len() + 1,
        forall|x: Port| #[trigger]
            final(v)@.to_multiset().count(x) == old(v)@.to_multiset().count(x) + (if x == p {
                1int
            } else {
                0
            }),
{
    proof {
        old(v)@.to_multiset_ensures();
    }
    v.push(p);
}

pub fn board_ports() -> (v: Vec<Port>)
    ensures
        v@.len() == 9,
        forall|p: Port| #[trigger] v@.to_multiset().count(p) == spec_port_count(p),
{
    let mut v: Vec<Port> = Vec::new();
    proof {
        v@.to_multiset_ensures();
        assert forall|p: Port| v@.to_multiset().count(p) == 0 by {
            assert(!v@.contains(p));
        }
    }
    push_port(&mut v, Port::ThreeForOne);
    push_port(&mut v, Port::ThreeForOne);
    push_port(&mut v, Port::ThreeForOne);
    push_port(&mut v, Port::ThreeForOne);
    push_port(&mut v, Port::TwoForOne(Resource::Wood));
    push_port(&mut v, Port::TwoForOne(Resource::Brick));
    push_port(&mut v, Port::TwoForOne(Resource::Sheep));
    push_port(&mut v, Port::TwoForOne(Resource::Wheat));
    push_port(&mut v, Port::TwoForOne(Resource::Ore));
    v
}

/// Returns whether the cell of `(r, q)` carries a six or an eight.
fn red_probe(hexes: &Vec<Option<Hex>>, r: usize, q: usize) -> (b: bool)
    requires
        hexes@.len() == 25,
        r < 5,
        q < 5,
    ensures
        b == red_at(hexes@, (r as int, q as int)),
{
    match hexes[r * 5 + q] {
        Some(hx) => hx.number == 6 || hx.number == 8,
        None => false,
    }
}

impl Board {
    /// No two hexes of this board at distance one both carry a six or an
    /// eight.
    pub open spec fn spec_no_adjacent_red(self) -> bool {
        no_adjacent_red(self.hexes@)
    }

    /// Tries to lay the shuffled tiles and tokens onto the 19 cells in scan
    /// order, leaving the robber cell as desert. Fails (returns `None`) when
    /// a six or eight would land next to another six or eight.
    fn try_generate(robber: HexCoord, resources: &Vec<Resource>, numbers: &Vec<usize>) -> (res:
        Option<Vec<Option<Hex>>>)
        requires
            hex_on_board(robber@.0, robber@.1),
            resources@.len() == 18,
            numbers@.len() == 18,
        ensures
            match res {
                Some(hexes) => {
                    &&& hexes@.len() == 25
                    &&& forall|h: (int, int)|
                        hex_on_board(h.0, h.1) ==> ((hexes@[hex_code(h)] is Some) <==> h
                            != robber@)
                    &&& forall|h: (int, int)|
                        0 <= h.0 < 5 && 0 <= h.1 < 5 ==> match #[trigger] hexes@[hex_code(h)] {
                            Some(hx) => exists|i: int|
                                0 <= i < 18 && hx.number == numbers@[i] && hx.resource
                                    == resources@[i],
                            None => true,
                        }
                    &&& forall|r: Resource|
                        cells_with_res(hexes@, r, 25) == resources@.to_multiset().count(r)
                    &&& forall|n: usize|
                        cells_with_num(hexes@, n, 25) == numbers@.to_multiset().count(n)
                    &&& no_adjacent_red(hexes@)
                },
                None => true,
            },
    {
        let mut hexes: Vec<Option<Hex>> = Vec::new();
        let mut t: usize = 0;
        while t < 25
            invariant
                hexes@.len() == t,
                t <= 25,
                forall|i: int| 0 <= i < t ==> (#[trigger] hexes@[i]) is None,
            decreases 25 - t,
        {
            hexes.push(None);
            t = t + 1;
        }
        let mut idx: usize = 0;
        proof {
            lemma_cells_none(hexes@, 25);
            assert(resources@.take(0) =~= Seq::<Resource>::empty());
            assert(numbers@.take(0) =~= Seq::<usize>::empty());
            resources@.take(0).to_multiset_ensures();
            numbers@.take(0).to_multiset_ensures();
            assert forall|r: Resource| resources@.take(0).to_multiset().count(r) == 0 by {
                assert(!resources@.take(0).contains(r));
            }
            assert forall|n: usize| numbers@.take(0).to_multiset().count(n) == 0 by {
                assert(!numbers@.take(0).contains(n));
            }
        }
        let mut rr: usize = 0;
        while rr < 5
            invariant
                rr <= 5,
                idx <= 18,
                resources@.len() == 18,
                numbers@.len() == 18,
                hex_on_board(robber@.0, robber@.1),
                hexes@.len() == 25,
                forall|h: (int, int)|
                    0 <= h.0 < 5 && 0 <= h.1 < 5 ==> (((#[trigger] hexes@[hex_code(h)]) is Some) <==> (
                    hex_on_board(h.0, h.1) && h != robber@ && hex_code(h) < rr * 5)),
                forall|h: (int, int)|
                    0 <= h.0 < 5 && 0 <= h.1 < 5 ==> match #[trigger] hexes@[hex_code(h)] {
                        Some(hx) => exists|i: int|
                            0 <= i < 18 && hx.number == numbers@[i] && hx.resource
                                == resources@[i],
                        None => true,
                    },
                forall|r: Resource|
                    cells_with_res(hexes@, r, 25) == resources@.take(
                        idx as int,
                    ).to_multiset().count(r),
                forall|n: usize|
                    cells_with_num(hexes@, n, 25) == numbers@.take(idx as int).to_multiset().count(
                        n,
                    ),
                no_adjacent_red(hexes@),
            decreases 5 - rr,
        {
            let mut qq: usize = 0;
            while qq < 5
                invariant
                    rr < 5,
                    qq <= 5,
                    idx <= 18,
                    resources@.len() == 18,
                    numbers@.len() == 18,
                    hex_on_board(robber@.0, robber@.1),
                    hexes@.len() == 25,
                    forall|h: (int, int)|
                        0 <= h.0 < 5 && 0 <= h.1 < 5 ==> (((#[trigger] hexes@[hex_code(h)]) is Some) <==> (
                        hex_on_board(h.0, h.1) && h != robber@ && hex_code(h) < rr * 5 + qq)),
                    forall|h: (int, int)|
                        0 <= h.0 < 5 && 0 <= h.1 < 5 ==> match #[trigger] hexes@[hex_code(h)] {
                            Some(hx) => exists|i: int|
                                0 <= i < 18 && hx.number == numbers@[i] && hx.resource
                                    == resources@[i],
                            None => true,
                        },
                    forall|r: Resource|
                        cells_with_res(hexes@, r, 25) == resources@.take(
                            idx as int,
                        ).to_multiset().count(r),
                    forall|n: usize|
                        cells_with_num(hexes@, n, 25) == numbers@.take(
                            idx as int,
                        ).to_multiset().count(n),
                    no_adjacent_red(hexes@),
                decreases 5 - qq,
            {
                if is_on_board(rr, qq) && !(robber.r == rr && robber.q == qq) {
                    if idx >= 18 {
                        return None;
                    }
                    let num = numbers[idx];
                    if num == 6 || num == 8 {
                        if rr >= 1 && red_probe(&hexes, rr - 1, qq) {
                            return None;
                        }
                        if rr >= 1 && qq + 1 < 5 && red_probe(&hexes, rr - 1, qq + 1) {
                            return None;
                        }
                        if qq >= 1 && red_probe(&hexes, rr, qq - 1) {
                            return None;
                        }
                    }
                    let ghost pre = hexes@;
                    proof {
                        assert(pre[(rr * 5 + qq) as int] is None) by {
                            assert(!(hex_on_board(rr as int, qq as int) && (rr as int, qq as int)
                                != robber@ && hex_code((rr as int, qq as int)) < rr * 5 + qq));
                        }
                    }
                    hexes.set(rr * 5 + qq, Some(Hex { resource: resources[idx], number: num }));
                    proof {
                        let placed = Hex { resource: resources@[idx as int], number: num };
                        lemma_cells_update(pre, (rr * 5 + qq) as int, placed, 25);
                        assert(resources@.take(idx as int + 1) =~= resources@.take(
                            idx as int,
                        ).push(resources@[idx as int]));
                        assert(numbers@.take(idx as int + 1) =~= numbers@.take(idx as int).push(
                            numbers@[idx as int],
                        ));
                        resources@.take(idx as int).to_multiset_ensures();
                        numbers@.take(idx as int).to_multiset_ensures();
                        assert forall|r: Resource|
                            cells_with_res(hexes@, r, 25) == resources@.take(
                                idx as int + 1,
                            ).to_multiset().count(r) by {
                            assert(cells_with_res(hexes@, r, 25) == cells_with_res(pre, r, 25) + (
                            if placed.resource == r {
                                1int
                            } else {
                                0
                            }));
                        }
                        assert forall|n: usize|
                            cells_with_num(hexes@, n, 25) == numbers@.take(
                                idx as int + 1,
                            ).to_multiset().count(n) by {
                            assert(cells_with_num(hexes@, n, 25) == cells_with_num(pre, n, 25) + (
                            if placed.number == n {
                                1int
                            } else {
                                0
                            }));
                        }
                        let hnew = (rr as int, qq as int);
                        assert(hexes@[hex_code(hnew)] == Some(
                            Hex { resource: resources@[idx as int], number: num },
                        ));
                        assert forall|h: (int, int)|
                            0 <= h.0 < 5 && 0 <= h.1 < 5 && h != hnew implies hexes@[hex_code(h)]
                            == pre[hex_code(h)] by {}
                        assert forall|a: (int, int), b: (int, int)|
                            hex_on_board(a.0, a.1) && hex_on_board(b.0, b.1) && hexes_adjacent(
                                a,
                                b,
                            ) implies !(red_at(hexes@, a) && red_at(hexes@, b)) by {
                            if red_at(hexes@, a) && red_at(hexes@, b) {
                                let d = choose|d: int|
                                    0 <= d < 6 && b == (a.0 + #[trigger] dir_r(d), a.1 + dir_q(
                                        d,
                                    ));
                                if a != hnew && b != hnew {
                                    assert(red_at(pre, a) && red_at(pre, b));
                                    assert(hexes_adjacent(a, b));
                                } else if a == hnew {
                                    assert(b != hnew);
                                    assert(red_at(pre, b));
                                    assert(hex_code(b) < rr * 5 + qq);
                                } else {
                                    assert(a != hnew);
                                    assert(red_at(pre, a));
                                    assert(hex_code(a) < rr * 5 + qq);
                                }
                            }
                        }
                    }
                    idx = idx + 1;
                }
                qq = qq + 1;
            }
            rr = rr + 1;
        }
        if idx != 18 {
            return None;
        }
        proof {
            assert(resources@.take(18) =~= resources@);
            assert(numbers@.take(18) =~= numbers@);
        }
        Some(hexes)
    }
}


impl Board {
    /// Returns a vector of 150 empty feature slots.
    fn empty_slots<T: Copy>(filler: Option<T>) -> (v: Vec<Option<T>>)
        requires
            filler is None,
        ensures
            v@.len() == 150,
            forall|i: int| 0 <= i < 150 ==> (#[trigger] v@[i]) is None,
    {
        let mut v: Vec<Option<T>> = Vec::new();
        let mut t: usize = 0;
        while t < 150
            invariant
                v@.len() == t,
                t <= 150,
                filler is None,
                forall|i: int| 0 <= i < t ==> (#[trigger] v@[i]) is None,
            decreases 150 - t,
        {
            v.push(filler);
            t = t + 1;
        }
        v
    }

    /// The desert cell and nothing else is empty; the tiles are the standard
    /// mix of four wood, three brick, four wheat, four sheep and three ore;
    /// the tokens are the standard eighteen with no two sixes or eights
    /// adjacent; the ports are four generic harbors plus one two-for-one per
    /// resource; and the banks and feature slots are at their starting state.
    pub open spec fn spec_freshly_generated(self) -> bool {
        &&& self.wf()
        &&& self.spec_no_adjacent_red()
        &&& forall|h: (int, int)|
            hex_on_board(h.0, h.1) ==> ((#[trigger] self.hex_at(h)) is Some <==> h != self.robber@)
        &&& forall|h: (int, int)|
            hex_on_board(h.0, h.1) ==> match #[trigger] self.hex_at(h) {
                Some(hx) => valid_token(hx.number as int),
                None => true,
            }
        &&& forall|k: (int, int, int)| coord_on_board(k) ==> (#[trigger] self.structure_at(k)) is None
        &&& forall|k: (int, int, int)| coord_on_board(k) ==> (#[trigger] self.road_at(k)) is None
        &&& forall|r: Resource| #[trigger]
            cells_with_res(self.hexes@, r, 25) == spec_terrain_count(r)
        &&& forall|n: usize| #[trigger] cells_with_num(self.hexes@, n, 25) == spec_token_count(n as int)
        &&& forall|p: Port| #[trigger] self.ports@.to_multiset().count(p) == spec_port_count(p)
        &&& forall|r: Resource| #[trigger] self.bank.cnt(r) == 19
        &&& self.dv_bank.total() == 25
        &&& self.dv_bank.cnt(DVCard::Knight) == 14
        &&& self.dv_bank.cnt(DVCard::RoadBuilding) == 2
        &&& self.dv_bank.cnt(DVCard::YearOfPlenty) == 2
        &&& self.dv_bank.cnt(DVCard::Monopoly) == 2
        &&& self.dv_bank.cnt(DVCard::VictoryPoint) == 5
    }

    /// Assembles a board around a generated terrain layout.
    fn assemble(hexes: Vec<Option<Hex>>, ports: Vec<Port>, robber: HexCoord) -> (b: Board)
        requires
            hexes@.len() == 25,
            ports@.len() == 9,
            hex_on_board(robber@.0, robber@.1),
            forall|h: (int, int)|
                hex_on_board(h.0, h.1) ==> (((#[trigger] hexes@[hex_code(h)]) is Some) <==> h
                    != robber@),
            forall|h: (int, int)|
                hex_on_board(h.0, h.1) ==> match #[trigger] hexes@[hex_code(h)] {
                    Some(hx) => valid_token(hx.number as int),
                    None => true,
                },
            forall|r: Resource| #[trigger] cells_with_res(hexes@, r, 25) == spec_terrain_count(r),
            forall|n: usize| #[trigger] cells_with_num(hexes@, n, 25) == spec_token_count(n as int),
            forall|p: Port| #[trigger] ports@.to_multiset().count(p) == spec_port_count(p),
            no_adjacent_red(hexes@),
        ensures
            b.spec_freshly_generated(),
            b.hexes@ == hexes@,
            b.ports@ == ports@,
            b.robber == robber,
    {
        let b = Board {
            hexes,
            ports,
            structures: Self::empty_slots::<Structure>(None),
            roads: Self::empty_slots::<PlayerColor>(None),
            robber,
            bank: starting_bank(),
            dv_bank: starting_dv_bank(),
        };
        proof {
            assert forall|k: (int, int, int)| coord_on_board(k) implies (#[trigger] b.structure_at(
                k,
            )) is None by {
                lemma_reduce_corner_on_board(k);
            }
            assert forall|k: (int, int, int)| coord_on_board(k) implies (#[trigger] b.road_at(
                k,
            )) is None by {
                lemma_reduce_edge_on_board(k);
            }
        }
        b
    }

    /// Generates a fresh board: the robber starts on a random desert cell and
    /// the shuffled tiles, tokens and ports are laid out so that no two sixes
    /// or eights are adjacent; an arrangement that violates the constraint is
    /// rejected and redrawn in full.
    pub fn new() -> (b: Board)
        ensures
            b.spec_freshly_generated(),
    {
        broadcast use vstd::seq_lib::group_to_multiset_ensures;

        let mut attempt: usize = 0;
        while attempt < 10000
            invariant
                attempt <= 10000,
            decreases 10000 - attempt,
        {
            let cells = hex_coords();
            proof {
                assert(hex_listed(cells@, (2int, 2int)));
            }
            let ri = crate::rng::random_below(cells.len());
            let robber = cells[ri];
            let mut resources = board_resources();
            let ghost res_src = resources@;
            crate::rng::shuffle_vec(&mut resources);
            let mut numbers = board_numbers();
            let ghost num_src = numbers@;
            crate::rng::shuffle_vec(&mut numbers);
            proof {
                assert forall|i: int| 0 <= i < 18 implies valid_token(
                    #[trigger] numbers@[i] as int,
                ) by {
                    numbers@.to_multiset_ensures();
                    num_src.to_multiset_ensures();
                    let x = numbers@[i];
                    assert(numbers@.contains(x));
                    assert(numbers@.to_multiset().count(x) > 0);
                    assert(num_src.to_multiset().count(x) > 0);
                    assert(num_src.contains(x));
                    let j = choose|j: int| 0 <= j < num_src.len() && num_src[j] == x;
                    assert(valid_token(num_src[j] as int));
                }
            }
            let mut ports = board_ports();
            let ghost port_src = ports@;
            crate::rng::shuffle_vec(&mut ports);
            if let Some(hexes) = Self::try_generate(robber, &resources, &numbers) {
                proof {
                    assert forall|r: Resource| #[trigger]
                        cells_with_res(hexes@, r, 25) == spec_terrain_count(r) by {
                        assert(resources@.to_multiset().count(r) == res_src.to_multiset().count(r));
                    }
                    assert forall|n: usize| #[trigger]
                        cells_with_num(hexes@, n, 25) == spec_token_count(n as int) by {
                        assert(numbers@.to_multiset().count(n) == num_src.to_multiset().count(n));
                    }
                    assert forall|p: Port| #[trigger]
                        ports@.to_multiset().count(p) == spec_port_count(p) by {
                        assert(ports@.to_multiset().count(p) == port_src.to_multiset().count(p));
                    }
                }
                return Self::assemble(hexes, ports, robber);
            }
            attempt = attempt + 1;
        }
        Self::fallback_board()
    }

    /// A fixed conflict-free layout of the real tiles and tokens, used only
    /// if rejection sampling somehow never succeeds: the desert sits in the
    /// center and the two sixes and two eights sit on four pairwise
    /// non-adjacent hexes.
    fn fallback_board() -> (b: Board)
        ensures
            b.spec_freshly_generated(),
    {
        let mut v: Vec<Option<Hex>> = Vec::new();
        proof {
            assert forall|r: Resource| cells_with_res(v@, r, 0) == 0 by {}
            assert forall|n: usize| cells_with_num(v@, n, 0) == 0 by {}
        }
        push_cell(&mut v, None);
        push_cell(&mut v, None);
        push_cell(&mut v, Some(Hex { resource: Resource::Wood, number: 6 }));
        push_cell(&mut v, Some(Hex { resource: Resource::Wood, number: 2 }));
        push_cell(&mut v, Some(Hex { resource: Resource::Wood, number: 3 }));
        push_cell(&mut v, None);
        push_cell(&mut v, Some(Hex { resource: Resource::Wood, number: 3 }));
        push_cell(&mut v, Some(Hex { resource: Resource::Brick, number: 4 }));
        push_cell(&mut v, Some(Hex { resource: Resource::Brick, number: 4 }));
        push_cell(&mut v, Some(Hex { resource: Resource::Brick, number: 5 }));
        push_cell(&mut v, Some(Hex { resource: Resource::Wheat, number: 6 }));
        push_cell(&mut v, Some(Hex { resource: Resource::Wheat, number: 5 }));
        push_cell(&mut v, None);
        push_cell(&mut v, Some(Hex { resource: Resource::Wheat, number: 9 }));
        push_cell(&mut v, Some(Hex { resource: Resource::Wheat, number: 8 }));
        push_cell(&mut v, Some(Hex { resource: Resource::Sheep, number: 9 }));
        push_cell(&mut v, Some(Hex { resource: Resource::Sheep, number: 10 }));
        push_cell(&mut v, Some(Hex { resource: Resource::Sheep, number: 10 }));
        push_cell(&mut v, Some(Hex { resource: Resource::Sheep, number: 11 }));
        push_cell(&mut v, None);
        push_cell(&mut v, Some(Hex { resource: Resource::Ore, number: 11 }));
        push_cell(&mut v, Some(Hex { resource: Resource::Ore, number: 12 }));
        push_cell(&mut v, Some(Hex { resource: Resource::Ore, number: 8 }));
        push_cell(&mut v, None);
        push_cell(&mut v, None);
        proof {
            assert forall|h: (int, int)|
                hex_on_board(h.0, h.1) implies (((#[trigger] v@[hex_code(h)]) is Some) <==> h != (
            2int,
            2int,
            )) by {}
            assert forall|h: (int, int)|
                hex_on_board(h.0, h.1) implies match #[trigger] v@[hex_code(h)] {
                Some(hx) => valid_token(hx.number as int),
                None => true,
            } by {}
            assert forall|r: Resource| #[trigger]
                cells_with_res(v@, r, 25) == spec_terrain_count(r) by {}
            assert forall|n: usize| #[trigger]
                cells_with_num(v@, n, 25) == spec_token_count(n as int) by {}
            assert forall|a: (int, int), b: (int, int)|
                hex_on_board(a.0, a.1) && hex_on_board(b.0, b.1) && hexes_adjacent(
                    a,
                    b,
                ) implies !(red_at(v@, a) && red_at(v@, b)) by {
                if red_at(v@, a) && red_at(v@, b) {
                    let d = choose|d: int|
                        0 <= d < 6 && b == (a.0 + #[trigger] dir_r(d), a.1 + dir_q(d));
                    assert(a == (0int, 2int) || a == (2int, 0int) || a == (2int, 4int) || a == (
                    4int,
                    2int,
                    ));
                    assert(b == (0int, 2int) || b == (2int, 0int) || b == (2int, 4int) || b == (
                    4int,
                    2int,
                    ));
                    assert(false);
                }
            }
        }
        Self::assemble(v, board_ports(), HexCoord { r: 2, q: 2 })
    }
}


impl Board {
    /// A roll pays any player at most 300 cards of one resource.
    pub proof fn lemma_roll_yield_bound(self, roll: int, col: PlayerColor, r: Resource)
        ensures
            0 <= self.spec_roll_yield(roll, col, r) <= 300,
    {
        self.lemma_yield_upto_bound(5, roll, col, r);
    }

    /// A settlement grants at most one card per touching hex.
    pub proof fn lemma_start_sum_bound(self, s: Seq<(int, int)>, r: Resource)
        ensures
            0 <= self.spec_start_sum(s, r) <= s.len(),
        decreases s.len(),
    {
        if s.len() > 0 {
            self.lemma_start_sum_bound(s.drop_first(), r);
        }
    }

    /// The starting grant of a corner depends only on the terrain.
    pub proof fn lemma_start_sum_same_hexes(a: Board, b: Board, s: Seq<(int, int)>, r: Resource)
        requires
            b.hexes@ == a.hexes@,
        ensures
            b.spec_start_sum(s, r) == a.spec_start_sum(s, r),
        decreases s.len(),
    {
        if s.len() > 0 {
            Self::lemma_start_sum_same_hexes(a, b, s.drop_first(), r);
        }
    }

    /// The distance rule depends only on which corners are occupied.
    pub proof fn lemma_distance_rule_same_occupancy(a: Board, b: Board)
        requires
            a.distance_rule_ok(),
            forall|k: (int, int, int)|
                coord_on_board(k) ==> ((#[trigger] b.structure_at(k)) is Some <==> a.structure_at(
                    k,
                ) is Some),
        ensures
            b.distance_rule_ok(),
    {
        assert forall|k: (int, int, int), i: int|
            coord_on_board(k) && 0 <= i < spec_corner_corner_neighbors(k).len() implies !(
        b.structure_at(k) is Some && b.structure_at(
            #[trigger] spec_corner_corner_neighbors(k)[i],
        ) is Some) by {
            crate::coords::lemma_ccn_on_board(k, i);
            assert(!(a.structure_at(k) is Some && a.structure_at(
                spec_corner_corner_neighbors(k)[i],
            ) is Some));
        }
    }
}


/// The number of cells among the first `t` whose terrain produces `r`.
pub open spec fn cells_with_res(hexes: Seq<Option<Hex>>, r: Resource, t: int) -> int
    decreases t,
{
    if t <= 0 {
        0
    } else {
        cells_with_res(hexes, r, t - 1) + (match hexes[t - 1] {
            Some(hx) => if hx.resource == r {
                1int
            } else {
                0
            },
            None => 0,
        })
    }
}

/// The number of cells among the first `t` that carry the token `n`.
pub open spec fn cells_with_num(hexes: Seq<Option<Hex>>, n: usize, t: int) -> int
    decreases t,
{
    if t <= 0 {
        0
    } else {
        cells_with_num(hexes, n, t - 1) + (match hexes[t - 1] {
            Some(hx) => if hx.number == n {
                1int
            } else {
                0
            },
            None => 0,
        })
    }
}

/// Empty cells contribute nothing to the counts.
proof fn lemma_cells_none(hexes: Seq<Option<Hex>>, t: int)
    requires
        0 <= t <= hexes.len(),
        forall|i: int| 0 <= i < t ==> (#[trigger] hexes[i]) is None,
    ensures
        forall|r: Resource| cells_with_res(hexes, r, t) == 0,
        forall|n: usize| cells_with_num(hexes, n, t) == 0,
    decreases t,
{
    if t > 0 {
        lemma_cells_none(hexes, t - 1);
    }
    assert forall|r: Resource| cells_with_res(hexes, r, t) == 0 by {
        if t > 0 {
            assert(cells_with_res(hexes, r, t - 1) == 0);
        }
    }
    assert forall|n: usize| cells_with_num(hexes, n, t) == 0 by {
        if t > 0 {
            assert(cells_with_num(hexes, n, t - 1) == 0);
        }
    }
}

/// Filling one empty cell raises exactly the matching counts by one.
proof fn lemma_cells_update(pre: Seq<Option<Hex>>, j: int, hx: Hex, t: int)
    requires
        0 <= j < pre.len(),
        pre[j] is None,
        0 <= t <= pre.len(),
    ensures
        forall|r: Resource|
            cells_with_res(pre.update(j, Some(hx)), r, t) == cells_with_res(pre, r, t) + (if j < t
                && hx.resource == r {
                1int
            } else {
                0
            }),
        forall|n: usize|
            cells_with_num(pre.update(j, Some(hx)), n, t) == cells_with_num(pre, n, t) + (if j < t
                && hx.number == n {
                1int
            } else {
                0
            }),
    decreases t,
{
    if t > 0 {
        lemma_cells_update(pre, j, hx, t - 1);
    }
    let post = pre.update(j, Some(hx));
    assert forall|r: Resource|
        cells_with_res(post, r, t) == cells_with_res(pre, r, t) + (if j < t && hx.resource == r {
            1int
        } else {
            0
        }) by {
        if t > 0 {
            assert(cells_with_res(post, r, t - 1) == cells_with_res(pre, r, t - 1) + (if j < t - 1
                && hx.resource == r {
                1int
            } else {
                0
            }));
        }
    }
    assert forall|n: usize|
        cells_with_num(post, n, t) == cells_with_num(pre, n, t) + (if j < t && hx.number == n {
            1int
        } else {
            0
        }) by {
        if t > 0 {
            assert(cells_with_num(post, n, t - 1) == cells_with_num(pre, n, t - 1) + (if j < t - 1
                && hx.number == n {
                1int
            } else {
                0
            }));
        }
    }
}

/// The cell counts read only the first `t` cells.
proof fn lemma_cells_prefix(a: Seq<Option<Hex>>, b: Seq<Option<Hex>>, t: int)
    requires
        0 <= t <= a.len(),
        t <= b.len(),
        forall|i: int| 0 <= i < t ==> a[i] == b[i],
    ensures
        forall|r: Resource| cells_with_res(b, r, t) == cells_with_res(a, r, t),
        forall|n: usize| cells_with_num(b, n, t) == cells_with_num(a, n, t),
    decreases t,
{
    if t > 0 {
        lemma_cells_prefix(a, b, t - 1);
    }
    assert forall|r: Resource| cells_with_res(b, r, t) == cells_with_res(a, r, t) by {
        if t > 0 {
            assert(cells_with_res(b, r, t - 1) == cells_with_res(a, r, t - 1));
        }
    }
    assert forall|n: usize| cells_with_num(b, n, t) == cells_with_num(a, n, t) by {
        if t > 0 {
            assert(cells_with_num(b, n, t - 1) == cells_with_num(a, n, t - 1));
        }
    }
}

/// Appends one cell, tracking how the terrain and token counts change.
fn push_cell(v: &mut Vec<Option<Hex>>, cell: Option<Hex>)
    ensures
        final(v)@.len() == old(v)@.len() + 1,
        final(v)@ == old(v)@.push(cell),
        forall|r: Resource|
            cells_with_res(final(v)@, r, final(v)@.len() as int) == cells_with_res(
                old(v)@,
                r,
                old(v)@.len() as int,
            ) + (match cell {
                Some(hx) => if hx.resource == r {
                    1int
                } else {
                    0
                },
                None => 0,
            }),
        forall|n: usize|
            cells_with_num(final(v)@, n, final(v)@.len() as int) == cells_with_num(
                old(v)@,
                n,
                old(v)@.len() as int,
            ) + (match cell {
                Some(hx) => if hx.number == n {
                    1int
                } else {
                    0
                },
                None => 0,
            }),
{
    let ghost pre = v@;
    v.push(cell);
    proof {
        lemma_cells_prefix(pre, v@, pre.len() as int);
        assert forall|r: Resource|
            cells_with_res(v@, r, v@.len() as int) == cells_with_res(pre, r, pre.len() as int) + (
            match cell {
                Some(hx) => if hx.resource == r {
                    1int
                } else {
                    0
                },
                None => 0,
            }) by {
            assert(cells_with_res(v@, r, pre.len() as int) == cells_with_res(
                pre,
                r,
                pre.len() as int,
            ));
        }
        assert forall|n: usize|
            cells_with_num(v@, n, v@.len() as int) == cells_with_num(pre, n, pre.len() as int) + (
            match cell {
                Some(hx) => if hx.number == n {
                    1int
                } else {
                    0
                },
                None => 0,
            }) by {
            assert(cells_with_num(v@, n, pre.len() as int) == cells_with_num(
                pre,
                n,
                pre.len() as int,
            ));
        }
    }
}

/// Appends one tile, tracking how the multiset of tiles changes.
fn push_res(v: &mut Vec<Resource>, r: Resource)
    ensures
        final(v)@.len() == old(v)@.len() + 1,
        forall|x: Resource| #[trigger]
            final(v)@.to_multiset().count(x) == old(v)@.to_multiset().count(x) + (if x == r {
                1int
            } else {
                0
            }),
{
    proof {
        old(v)@.to_multiset_ensures();
    }
    v.push(r);
}

/// Appends one token, tracking how the multiset of tokens changes.
fn push_num(v: &mut Vec<usize>, n: usize)
    ensures
        final(v)@.len() == old(v)@.len() + 1,
        forall|x: usize| #[trigger]
            final(v)@.to_multiset().count(x) == old(v)@.to_multiset().count(x) + (if x == n {
                1int
            } else {
                0
            }),
{
    proof {
        old(v)@.to_multiset_ensures();
    }
    v.push(n);
}

/// The number of tiles of each terrain among the eighteen tiles of the game.
pub open spec fn spec_terrain_count(r: Resource) -> int {
    match r {
        Resource::Wood => 4,
        Resource::Brick => 3,
        Resource::Wheat => 4,
        Resource::Sheep => 4,
        Resource::Ore => 3,
    }
}

/// The number of copies of each token among the eighteen tokens of the game.
pub open spec fn spec_token_count(n: int) -> int {
    if n == 2 || n == 12 {
        1
    } else if n == 3 || n == 4 || n == 5 || n == 6 || n == 8 || n == 9 || n == 10 || n == 11 {
        2
    } else {
        0
    }
}

} // verus!









