//! Coordinate algebra for the hex grid: hex, corner and edge coordinates,
//! canonicalization of the up-to-three representations of a physical corner or
//! edge, and the topological neighbor queries.
//!
//! Hexes are addressed by axial coordinates `(r, q)` restricted to a 5-by-5
//! window with `2 <= r + q <= 6` (19 hexes). Corners `(r, q, c)` and edges
//! `(r, q, e)` are hex-relative with the third component in `0..6`, corner 0 at
//! the top of the hex and indices growing clockwise; the edge `(r, q, e)` is a
//! half step counterclockwise from the corner `(r, q, e)`. A physical corner is
//! shared by up to three hexes and a physical edge by up to two, so a feature
//! has up to three (resp. two) coordinate representations; `reduce_corner` and
//! `reduce_edge` map each to its one canonical representation.
use vstd::prelude::*;

verus! {

/// An axial hex coordinate.
#[derive(Clone, Copy, PartialEq, Eq, Structural, Debug)]
pub struct HexCoord {
    pub r: usize,
    pub q: usize,
}

/// A hex-relative corner coordinate.
#[derive(Clone, Copy, PartialEq, Eq, Structural, Debug)]
pub struct CornerCoord {
    pub r: usize,
    pub q: usize,
    pub c: usize,
}

/// A hex-relative edge coordinate.
#[derive(Clone, Copy, PartialEq, Eq, Structural, Debug)]
pub struct EdgeCoord {
    pub r: usize,
    pub q: usize,
    pub e: usize,
}

impl View for HexCoord {
    type V = (int, int);

    open spec fn view(&self) -> (int, int) {
        (self.r as int, self.q as int)
    }
}

impl View for CornerCoord {
    type V = (int, int, int);

    open spec fn view(&self) -> (int, int, int) {
        (self.r as int, self.q as int, self.c as int)
    }
}

impl View for EdgeCoord {
    type V = (int, int, int);

    open spec fn view(&self) -> (int, int, int) {
        (self.r as int, self.q as int, self.e as int)
    }
}

/// The hex `(r, q)` lies on the 19-hex board.
pub open spec fn hex_on_board(r: int, q: int) -> bool {
    0 <= r < 5 && 0 <= q < 5 && 2 <= r + q <= 6
}

/// The corner (or edge) coordinate is a position on the board with a
/// direction index below six.
pub open spec fn coord_on_board(k: (int, int, int)) -> bool {
    hex_on_board(k.0, k.1) && 0 <= k.2 < 6
}

/// Rotation of a direction index: `c` advanced clockwise by `k` steps.
pub open spec fn rot(c: int, k: int) -> int
    recommends
        0 <= c < 6,
        0 <= k < 6,
{
    if c + k < 6 {
        c + k
    } else {
        c + k - 6
    }
}

/// The row offset of the neighboring hex in direction `d` (0 is up, indices
/// grow clockwise).
pub open spec fn dir_r(d: int) -> int {
    if d == 0 {
        -1
    } else if d == 1 {
        -1
    } else if d == 2 {
        0
    } else if d == 3 {
        1
    } else if d == 4 {
        1
    } else {
        0
    }
}

/// The column offset of the neighboring hex in direction `d`.
pub open spec fn dir_q(d: int) -> int {
    if d == 0 {
        0
    } else if d == 1 {
        1
    } else if d == 2 {
        1
    } else if d == 3 {
        0
    } else if d == 4 {
        -1
    } else {
        -1
    }
}

/// The canonical representation of a corner coordinate: the lexicographically
/// first hex that contains the same physical corner, with the corner re-indexed
/// relative to that hex.
pub open spec fn spec_reduce_corner(k: (int, int, int)) -> (int, int, int) {
    let (r, q, c) = k;
    if c == 0 {
        if hex_on_board(r - 1, q) {
            (r - 1, q, 2)
        } else if hex_on_board(r - 1, q + 1) {
            (r - 1, q + 1, 4)
        } else {
            (r, q, 0)
        }
    } else if c == 1 {
        if hex_on_board(r - 1, q + 1) {
            (r - 1, q + 1, 3)
        } else {
            (r, q, 1)
        }
    } else if c == 2 {
        (r, q, 2)
    } else if c == 3 {
        (r, q, 3)
    } else if c == 4 {
        if hex_on_board(r, q - 1) {
            (r, q - 1, 2)
        } else {
            (r, q, 4)
        }
    } else {
        if hex_on_board(r - 1, q) {
            (r - 1, q, 3)
        } else if hex_on_board(r, q - 1) {
            (r, q - 1, 1)
        } else {
            (r, q, 5)
        }
    }
}

/// The canonical representation of an edge coordinate.
pub open spec fn spec_reduce_edge(k: (int, int, int)) -> (int, int, int) {
    let (r, q, e) = k;
    if e == 0 {
        if hex_on_board(r - 1, q) {
            (r - 1, q, 3)
        } else {
            (r, q, 0)
        }
    } else if e == 1 {
        if hex_on_board(r - 1, q + 1) {
            (r - 1, q + 1, 4)
        } else {
            (r, q, 1)
        }
    } else if e == 5 {
        if hex_on_board(r, q - 1) {
            (r, q - 1, 2)
        } else {
            (r, q, 5)
        }
    } else {
        (r, q, e)
    }
}

/// A corner coordinate is canonical when reduction leaves it unchanged.
pub open spec fn corner_canonical(k: (int, int, int)) -> bool {
    spec_reduce_corner(k) == k
}

/// An edge coordinate is canonical when reduction leaves it unchanged.
pub open spec fn edge_canonical(k: (int, int, int)) -> bool {
    spec_reduce_edge(k) == k
}

/// Reducing a corner coordinate yields a coordinate of the same physical
/// corner that is on the board.
pub proof fn lemma_reduce_corner_on_board(k: (int, int, int))
    requires
        coord_on_board(k),
    ensures
        coord_on_board(spec_reduce_corner(k)),
{
}

/// Reducing an edge coordinate yields a coordinate on the board.
pub proof fn lemma_reduce_edge_on_board(k: (int, int, int))
    requires
        coord_on_board(k),
    ensures
        coord_on_board(spec_reduce_edge(k)),
{
}

/// Corner canonicalization is idempotent: the reduction of any valid corner
/// coordinate is canonical.
pub proof fn lemma_reduce_corner_idempotent(k: (int, int, int))
    requires
        coord_on_board(k),
    ensures
        spec_reduce_corner(spec_reduce_corner(k)) == spec_reduce_corner(k),
{
}

/// Edge canonicalization is idempotent: the reduction of any valid edge
/// coordinate is canonical.
pub proof fn lemma_reduce_edge_idempotent(k: (int, int, int))
    requires
        coord_on_board(k),
    ensures
        spec_reduce_edge(spec_reduce_edge(k)) == spec_reduce_edge(k),
{
}

/// Returns whether the hex `(r, q)` lies on the board.
pub fn is_on_board(r: usize, q: usize) -> (b: bool)
    ensures
        b == hex_on_board(r as int, q as int),
{
    r < 5 && q < 5 && r + q >= 2 && r + q <= 6
}

/// Returns the canonical representation of a corner coordinate.
pub fn reduce_corner(k: CornerCoord) -> (res: CornerCoord)
    requires
        coord_on_board(k@),
    ensures
        res@ == spec_reduce_corner(k@),
        coord_on_board(res@),
        corner_canonical(res@),
{
    proof {
        lemma_reduce_corner_idempotent(k@);
    }
    let CornerCoord { r, q, c } = k;
    if c == 0 {
        if r >= 1 && is_on_board(r - 1, q) {
            CornerCoord { r: r - 1, q, c: 2 }
        } else if r >= 1 && is_on_board(r - 1, q + 1) {
            CornerCoord { r: r - 1, q: q + 1, c: 4 }
        } else {
            k
        }
    } else if c == 1 {
        if r >= 1 && is_on_board(r - 1, q + 1) {
            CornerCoord { r: r - 1, q: q + 1, c: 3 }
        } else {
            k
        }
    } else if c == 4 {
        if q >= 1 && is_on_board(r, q - 1) {
            CornerCoord { r, q: q - 1, c: 2 }
        } else {
            k
        }
    } else if c == 5 {
        if r >= 1 && is_on_board(r - 1, q) {
            CornerCoord { r: r - 1, q, c: 3 }
        } else if q >= 1 && is_on_board(r, q - 1) {
            CornerCoord { r, q: q - 1, c: 1 }
        } else {
            k
        }
    } else {
        k
    }
}

/// Returns the canonical representation of an edge coordinate.
pub fn reduce_edge(k: EdgeCoord) -> (res: EdgeCoord)
    requires
        coord_on_board(k@),
    ensures
        res@ == spec_reduce_edge(k@),
        coord_on_board(res@),
        edge_canonical(res@),
{
    proof {
        lemma_reduce_edge_idempotent(k@);
    }
    let EdgeCoord { r, q, e } = k;
    if e == 0 {
        if r >= 1 && is_on_board(r - 1, q) {
            EdgeCoord { r: r - 1, q, e: 3 }
        } else {
            k
        }
    } else if e == 1 {
        if r >= 1 && is_on_board(r - 1, q + 1) {
            EdgeCoord { r: r - 1, q: q + 1, e: 4 }
        } else {
            k
        }
    } else if e == 5 {
        if q >= 1 && is_on_board(r, q - 1) {
            EdgeCoord { r, q: q - 1, e: 2 }
        } else {
            k
        }
    } else {
        k
    }
}


/// The hexes that touch a corner: the corner's own hex plus the up-to-two
/// neighboring hexes incident to the same physical corner.
pub open spec fn spec_hexes_touched(k: (int, int, int)) -> Seq<(int, int)> {
    let (r, q, c) = k;
    let n1 = (r + dir_r(c), q + dir_q(c));
    let n2 = (r + dir_r(rot(c, 1)), q + dir_q(rot(c, 1)));
    seq![(r, q)] + (if hex_on_board(n1.0, n1.1) {
        seq![n1]
    } else {
        Seq::<(int, int)>::empty()
    }) + (if hex_on_board(n2.0, n2.1) {
        seq![n2]
    } else {
        Seq::<(int, int)>::empty()
    })
}

/// All coordinate representations of the physical corner named by `k`: the
/// coordinate itself plus its re-indexing on each neighboring hex that exists.
pub open spec fn spec_dup_corners(k: (int, int, int)) -> Seq<(int, int, int)> {
    let (r, q, c) = k;
    let n1 = (r + dir_r(c), q + dir_q(c));
    let n2 = (r + dir_r(rot(c, 1)), q + dir_q(rot(c, 1)));
    seq![k] + (if hex_on_board(n1.0, n1.1) {
        seq![(n1.0, n1.1, rot(c, 2))]
    } else {
        Seq::<(int, int, int)>::empty()
    }) + (if hex_on_board(n2.0, n2.1) {
        seq![(n2.0, n2.1, rot(c, 4))]
    } else {
        Seq::<(int, int, int)>::empty()
    })
}

/// All coordinate representations of the physical edge named by `k`: the
/// coordinate itself plus its re-indexing on the facing hex when it exists.
pub open spec fn spec_dup_edges(k: (int, int, int)) -> Seq<(int, int, int)> {
    let (r, q, e) = k;
    let n = (r + dir_r(e), q + dir_q(e));
    seq![k] + (if hex_on_board(n.0, n.1) {
        seq![(n.0, n.1, rot(e, 3))]
    } else {
        Seq::<(int, int, int)>::empty()
    })
}

/// The corner coordinates adjacent to a corner: the two neighbors on the same
/// hex, plus the rotation of the far neighbor into the adjacent hex when one
/// of the two hexes flanking the corner exists.
pub open spec fn spec_corner_corner_neighbors(k: (int, int, int)) -> Seq<(int, int, int)> {
    let (r, q, c) = k;
    let n1 = (r + dir_r(c), q + dir_q(c));
    let n2 = (r + dir_r(rot(c, 1)), q + dir_q(rot(c, 1)));
    seq![(r, q, rot(c, 5)), (r, q, rot(c, 1))] + (if hex_on_board(n1.0, n1.1) {
        seq![(n1.0, n1.1, rot(c, 1))]
    } else if hex_on_board(n2.0, n2.1) {
        seq![(n2.0, n2.1, rot(c, 5))]
    } else {
        Seq::<(int, int, int)>::empty()
    })
}

/// The edge coordinates that touch a corner.
pub open spec fn spec_corner_edge_neighbors(k: (int, int, int)) -> Seq<(int, int, int)> {
    let (r, q, c) = k;
    let n1 = (r + dir_r(c), q + dir_q(c));
    let n2 = (r + dir_r(rot(c, 1)), q + dir_q(rot(c, 1)));
    seq![(r, q, c), (r, q, rot(c, 1))] + (if hex_on_board(n1.0, n1.1) {
        seq![(n1.0, n1.1, rot(c, 2))]
    } else if hex_on_board(n2.0, n2.1) {
        seq![(n2.0, n2.1, rot(c, 5))]
    } else {
        Seq::<(int, int, int)>::empty()
    })
}

/// The edge coordinates adjacent to an edge: the two same-hex neighbors, plus
/// either the two far neighbors on the facing hex or the rotations on the two
/// half-facing hexes.
pub open spec fn spec_edge_edge_neighbors(k: (int, int, int)) -> Seq<(int, int, int)> {
    let (r, q, e) = k;
    let full = (r + dir_r(e), q + dir_q(e));
    let hl = (r + dir_r(rot(e, 5)), q + dir_q(rot(e, 5)));
    let hr = (r + dir_r(rot(e, 1)), q + dir_q(rot(e, 1)));
    seq![(r, q, rot(e, 5)), (r, q, rot(e, 1))] + (if hex_on_board(full.0, full.1) {
        seq![(full.0, full.1, rot(e, 2)), (full.0, full.1, rot(e, 4))]
    } else {
        (if hex_on_board(hl.0, hl.1) {
            seq![(hl.0, hl.1, rot(e, 1))]
        } else {
            Seq::<(int, int, int)>::empty()
        }) + (if hex_on_board(hr.0, hr.1) {
            seq![(hr.0, hr.1, rot(e, 5))]
        } else {
            Seq::<(int, int, int)>::empty()
        })
    })
}

/// The two endpoint corners of an edge.
pub open spec fn spec_edge_corner_neighbors(k: (int, int, int)) -> Seq<(int, int, int)> {
    let (r, q, e) = k;
    seq![(r, q, e), (r, q, rot(e, 5))]
}

/// Every duplicate representation of a corner canonicalizes to the same
/// coordinate as the corner itself.
pub proof fn lemma_dup_corners_reduce(k: (int, int, int))
    requires
        coord_on_board(k),
    ensures
        forall|i: int|
            0 <= i < spec_dup_corners(k).len() ==> coord_on_board(#[trigger] spec_dup_corners(k)[i])
                && spec_reduce_corner(spec_dup_corners(k)[i]) == spec_reduce_corner(k),
{
}

/// Every duplicate representation of an edge canonicalizes to the same
/// coordinate as the edge itself.
pub proof fn lemma_dup_edges_reduce(k: (int, int, int))
    requires
        coord_on_board(k),
    ensures
        forall|i: int|
            0 <= i < spec_dup_edges(k).len() ==> coord_on_board(#[trigger] spec_dup_edges(k)[i])
                && spec_reduce_edge(spec_dup_edges(k)[i]) == spec_reduce_edge(k),
{
}


/// Returns `c` advanced clockwise by `k` steps.
pub fn rotn(c: usize, k: usize) -> (res: usize)
    requires
        c < 6,
        k < 6,
    ensures
        res == rot(c as int, k as int),
        res < 6,
{
    if c + k < 6 {
        c + k
    } else {
        c + k - 6
    }
}

/// Returns the neighboring hex of `(r, q)` in direction `d`, or `None` when it
/// falls off the board.
fn hex_step(r: usize, q: usize, d: usize) -> (h: Option<HexCoord>)
    requires
        hex_on_board(r as int, q as int),
        d < 6,
    ensures
        match h {
            Some(n) => n@ == (r + dir_r(d as int), q + dir_q(d as int)) && hex_on_board(
                n@.0,
                n@.1,
            ),
            None => !hex_on_board(r + dir_r(d as int), q + dir_q(d as int)),
        },
{
    let (ro, qo): (Option<usize>, Option<usize>) = match d {
        0 => (r.checked_sub(1), Some(q)),
        1 => (r.checked_sub(1), Some(q + 1)),
        2 => (Some(r), Some(q + 1)),
        3 => (Some(r + 1), Some(q)),
        4 => (Some(r + 1), q.checked_sub(1)),
        _ => (Some(r), q.checked_sub(1)),
    };
    match (ro, qo) {
        (Some(nr), Some(nq)) => if is_on_board(nr, nq) {
            Some(HexCoord { r: nr, q: nq })
        } else {
            None
        },
        _ => None,
    }
}

/// Returns the hexes that touch a corner.
pub fn hexes_touched(k: CornerCoord) -> (v: Vec<HexCoord>)
    requires
        coord_on_board(k@),
    ensures
        v@.len() == spec_hexes_touched(k@).len(),
        forall|i: int| 0 <= i < v@.len() ==> (#[trigger] v@[i])@ == spec_hexes_touched(k@)[i],
        forall|i: int|
            0 <= i < v@.len() ==> hex_on_board(
                #[trigger] spec_hexes_touched(k@)[i].0,
                spec_hexes_touched(k@)[i].1,
            ),
{
    let CornerCoord { r, q, c } = k;
    let mut v: Vec<HexCoord> = Vec::new();
    v.push(HexCoord { r, q });
    if let Some(n1) = hex_step(r, q, c) {
        v.push(n1);
    }
    if let Some(n2) = hex_step(r, q, rotn(c, 1)) {
        v.push(n2);
    }
    v
}

/// Returns all coordinate representations of the physical corner named by `k`.
pub fn get_dup_corners(k: CornerCoord) -> (v: Vec<CornerCoord>)
    requires
        coord_on_board(k@),
    ensures
        v@.len() == spec_dup_corners(k@).len(),
        forall|i: int| 0 <= i < v@.len() ==> (#[trigger] v@[i])@ == spec_dup_corners(k@)[i],
        forall|i: int| 0 <= i < v@.len() ==> coord_on_board(#[trigger] spec_dup_corners(k@)[i]),
{
    let CornerCoord { r, q, c } = k;
    let mut v: Vec<CornerCoord> = Vec::new();
    v.push(k);
    if let Some(n1) = hex_step(r, q, c) {
        v.push(CornerCoord { r: n1.r, q: n1.q, c: rotn(c, 2) });
    }
    if let Some(n2) = hex_step(r, q, rotn(c, 1)) {
        v.push(CornerCoord { r: n2.r, q: n2.q, c: rotn(c, 4) });
    }
    v
}

/// Returns all coordinate representations of the physical edge named by `k`.
pub fn get_dup_edges(k: EdgeCoord) -> (v: Vec<EdgeCoord>)
    requires
        coord_on_board(k@),
    ensures
        v@.len() == spec_dup_edges(k@).len(),
        forall|i: int| 0 <= i < v@.len() ==> (#[trigger] v@[i])@ == spec_dup_edges(k@)[i],
        forall|i: int| 0 <= i < v@.len() ==> coord_on_board(#[trigger] spec_dup_edges(k@)[i]),
{
    let EdgeCoord { r, q, e } = k;
    let mut v: Vec<EdgeCoord> = Vec::new();
    v.push(k);
    if let Some(n) = hex_step(r, q, e) {
        v.push(EdgeCoord { r: n.r, q: n.q, e: rotn(e, 3) });
    }
    v
}

/// Returns the corner coordinates adjacent to a corner.
pub fn corner_corner_neighbors(k: CornerCoord) -> (v: Vec<CornerCoord>)
    requires
        coord_on_board(k@),
    ensures
        v@.len() == spec_corner_corner_neighbors(k@).len(),
        forall|i: int|
            0 <= i < v@.len() ==> (#[trigger] v@[i])@ == spec_corner_corner_neighbors(k@)[i],
        forall|i: int|
            0 <= i < v@.len() ==> coord_on_board(#[trigger] spec_corner_corner_neighbors(k@)[i]),
{
    let CornerCoord { r, q, c } = k;
    let mut v: Vec<CornerCoord> = Vec::new();
    v.push(CornerCoord { r, q, c: rotn(c, 5) });
    v.push(CornerCoord { r, q, c: rotn(c, 1) });
    if let Some(n1) = hex_step(r, q, c) {
        v.push(CornerCoord { r: n1.r, q: n1.q, c: rotn(c, 1) });
    } else if let Some(n2) = hex_step(r, q, rotn(c, 1)) {
        v.push(CornerCoord { r: n2.r, q: n2.q, c: rotn(c, 5) });
    }
    v
}

/// Returns the edge coordinates that touch a corner.
pub fn corner_edge_neighbors(k: CornerCoord) -> (v: Vec<EdgeCoord>)
    requires
        coord_on_board(k@),
    ensures
        v@.len() == spec_corner_edge_neighbors(k@).len(),
        forall|i: int|
            0 <= i < v@.len() ==> (#[trigger] v@[i])@ == spec_corner_edge_neighbors(k@)[i],
        forall|i: int|
            0 <= i < v@.len() ==> coord_on_board(#[trigger] spec_corner_edge_neighbors(k@)[i]),
{
    let CornerCoord { r, q, c } = k;
    let mut v: Vec<EdgeCoord> = Vec::new();
    v.push(EdgeCoord { r, q, e: c });
    v.push(EdgeCoord { r, q, e: rotn(c, 1) });
    if let Some(n1) = hex_step(r, q, c) {
        v.push(EdgeCoord { r: n1.r, q: n1.q, e: rotn(c, 2) });
    } else if let Some(n2) = hex_step(r, q, rotn(c, 1)) {
        v.push(EdgeCoord { r: n2.r, q: n2.q, e: rotn(c, 5) });
    }
    v
}

/// Returns the edge coordinates adjacent to an edge.
pub fn edge_edge_neighbors(k: EdgeCoord) -> (v: Vec<EdgeCoord>)
    requires
        coord_on_board(k@),
    ensures
        v@.len() == spec_edge_edge_neighbors(k@).len(),
        forall|i: int| 0 <= i < v@.len() ==> (#[trigger] v@[i])@ == spec_edge_edge_neighbors(k@)[i],
        forall|i: int|
            0 <= i < v@.len() ==> coord_on_board(#[trigger] spec_edge_edge_neighbors(k@)[i]),
{
    let EdgeCoord { r, q, e } = k;
    let mut v: Vec<EdgeCoord> = Vec::new();
    v.push(EdgeCoord { r, q, e: rotn(e, 5) });
    v.push(EdgeCoord { r, q, e: rotn(e, 1) });
    if let Some(full) = hex_step(r, q, e) {
        v.push(EdgeCoord { r: full.r, q: full.q, e: rotn(e, 2) });
        v.push(EdgeCoord { r: full.r, q: full.q, e: rotn(e, 4) });
    } else {
        if let Some(hl) = hex_step(r, q, rotn(e, 5)) {
            v.push(EdgeCoord { r: hl.r, q: hl.q, e: rotn(e, 1) });
        }
        if let Some(hr) = hex_step(r, q, rotn(e, 1)) {
            v.push(EdgeCoord { r: hr.r, q: hr.q, e: rotn(e, 5) });
        }
    }
    v
}

/// Returns the two endpoint corners of an edge.
pub fn edge_corner_neighbors(k: EdgeCoord) -> (v: Vec<CornerCoord>)
    requires
        coord_on_board(k@),
    ensures
        v@.len() == 2,
        forall|i: int|
            0 <= i < v@.len() ==> (#[trigger] v@[i])@ == spec_edge_corner_neighbors(k@)[i],
        forall|i: int|
            0 <= i < 2 ==> coord_on_board(#[trigger] spec_edge_corner_neighbors(k@)[i]),
{
    let EdgeCoord { r, q, e } = k;
    let mut v: Vec<CornerCoord> = Vec::new();
    v.push(CornerCoord { r, q, c: e });
    v.push(CornerCoord { r, q, c: rotn(e, 5) });
    v
}


/// Corner adjacency is symmetric at the raw level: when `n` is a neighbor of
/// `k`, some neighbor of `n` canonicalizes to the canonical form of `k`.
pub proof fn lemma_corner_neighbors_sym(k: (int, int, int), i: int)
    requires
        coord_on_board(k),
        0 <= i < spec_corner_corner_neighbors(k).len(),
    ensures
        ({
            let n = spec_corner_corner_neighbors(k)[i];
            exists|j: int|
                0 <= j < spec_corner_corner_neighbors(n).len() && spec_reduce_corner(
                    #[trigger] spec_corner_corner_neighbors(n)[j],
                ) == spec_reduce_corner(k)
        }),
{
    let n = spec_corner_corner_neighbors(k)[i];
    let ns = spec_corner_corner_neighbors(n);
    lemma_dup_corners_reduce(k);
    assert(spec_reduce_corner(ns[0]) == spec_reduce_corner(k) || spec_reduce_corner(ns[1])
        == spec_reduce_corner(k) || (ns.len() == 3 && spec_reduce_corner(ns[2])
        == spec_reduce_corner(k)));
}

/// The neighbor set of a corner depends only on the physical corner: every
/// neighbor of `k` is matched, up to canonicalization, by a neighbor of the
/// canonical form of `k`.
pub proof fn lemma_corner_neighbors_canonical(k: (int, int, int), i: int)
    requires
        coord_on_board(k),
        0 <= i < spec_corner_corner_neighbors(k).len(),
    ensures
        ({
            let kc = spec_reduce_corner(k);
            exists|j: int|
                0 <= j < spec_corner_corner_neighbors(kc).len() && spec_reduce_corner(
                    #[trigger] spec_corner_corner_neighbors(kc)[j],
                ) == spec_reduce_corner(spec_corner_corner_neighbors(k)[i])
        }),
{
    let kc = spec_reduce_corner(k);
    let t = spec_reduce_corner(spec_corner_corner_neighbors(k)[i]);
    let ns = spec_corner_corner_neighbors(kc);
    assert(spec_reduce_corner(ns[0]) == t || spec_reduce_corner(ns[1]) == t || (ns.len() == 3
        && spec_reduce_corner(ns[2]) == t));
}

/// Corner adjacency is symmetric through canonical forms: when `n` is a
/// neighbor of `k`, some neighbor of the canonical form of `n` canonicalizes to
/// the canonical form of `k`.
pub proof fn lemma_corner_neighbors_sym_canonical(k: (int, int, int), i: int)
    requires
        coord_on_board(k),
        0 <= i < spec_corner_corner_neighbors(k).len(),
    ensures
        ({
            let nc = spec_reduce_corner(spec_corner_corner_neighbors(k)[i]);
            exists|j: int|
                0 <= j < spec_corner_corner_neighbors(nc).len() && spec_reduce_corner(
                    #[trigger] spec_corner_corner_neighbors(nc)[j],
                ) == spec_reduce_corner(k)
        }),
{
    let n = spec_corner_corner_neighbors(k)[i];
    let nc = spec_reduce_corner(n);
    lemma_corner_neighbors_sym(k, i);
    let j1 = choose|j: int|
        0 <= j < spec_corner_corner_neighbors(n).len() && spec_reduce_corner(
            #[trigger] spec_corner_corner_neighbors(n)[j],
        ) == spec_reduce_corner(k);
    lemma_corner_neighbors_canonical(n, j1);
}


/// A strict linear position for corner coordinates, ordering them by hex row,
/// then hex column, then direction index.
pub open spec fn corner_code(k: (int, int, int)) -> int {
    k.0 * 30 + k.1 * 6 + k.2
}

/// The coordinate `k` appears in the list `s`.
pub open spec fn corner_listed(s: Seq<CornerCoord>, k: (int, int, int)) -> bool {
    exists|i: int| 0 <= i < s.len() && (#[trigger] s[i])@ == k
}

/// The coordinate `k` appears in the list `s`.
pub open spec fn edge_listed(s: Seq<EdgeCoord>, k: (int, int, int)) -> bool {
    exists|i: int| 0 <= i < s.len() && (#[trigger] s[i])@ == k
}

/// Returns the canonical corner coordinates of the whole board, in scan order.
/// The list is sound (every entry is a valid canonical corner), strictly
/// ordered (hence pairwise distinct), and complete (every valid canonical
/// corner appears).
pub fn corner_coords() -> (v: Vec<CornerCoord>)
    ensures
        forall|i: int|
            0 <= i < v@.len() ==> coord_on_board((#[trigger] v@[i])@) && corner_canonical(v@[i]@),
        forall|i: int, j: int|
            0 <= i < j < v@.len() ==> corner_code((#[trigger] v@[i])@) < corner_code(
                (#[trigger] v@[j])@,
            ),
        forall|k: (int, int, int)|
            coord_on_board(k) && corner_canonical(k) ==> corner_listed(v@, k),
{
    let mut v: Vec<CornerCoord> = Vec::new();
    let mut r: usize = 0;
    while r < 5
        invariant
            r <= 5,
            forall|i: int|
                0 <= i < v@.len() ==> coord_on_board((#[trigger] v@[i])@) && corner_canonical(
                    v@[i]@,
                ),
            forall|i: int| 0 <= i < v@.len() ==> corner_code((#[trigger] v@[i])@) < r * 30,
            forall|i: int, j: int|
                0 <= i < j < v@.len() ==> corner_code((#[trigger] v@[i])@) < corner_code(
                    (#[trigger] v@[j])@,
                ),
            forall|k: (int, int, int)|
                coord_on_board(k) && corner_canonical(k) && corner_code(k) < r * 30
                    ==> corner_listed(v@, k),
        decreases 5 - r,
    {
        let mut q: usize = 0;
        while q < 5
            invariant
                r < 5,
                q <= 5,
                forall|i: int|
                    0 <= i < v@.len() ==> coord_on_board((#[trigger] v@[i])@) && corner_canonical(
                        v@[i]@,
                    ),
                forall|i: int|
                    0 <= i < v@.len() ==> corner_code((#[trigger] v@[i])@) < r * 30 + q * 6,
                forall|i: int, j: int|
                    0 <= i < j < v@.len() ==> corner_code((#[trigger] v@[i])@) < corner_code(
                        (#[trigger] v@[j])@,
                    ),
                forall|k: (int, int, int)|
                    coord_on_board(k) && corner_canonical(k) && corner_code(k) < r * 30 + q * 6
                        ==> corner_listed(v@, k),
            decreases 5 - q,
        {
            let mut c: usize = 0;
            while c < 6
                invariant
                    r < 5,
                    q < 5,
                    c <= 6,
                    forall|i: int|
                        0 <= i < v@.len() ==> coord_on_board((#[trigger] v@[i])@)
                            && corner_canonical(v@[i]@),
                    forall|i: int|
                        0 <= i < v@.len() ==> corner_code((#[trigger] v@[i])@) < r * 30 + q * 6
                            + c,
                    forall|i: int, j: int|
                        0 <= i < j < v@.len() ==> corner_code((#[trigger] v@[i])@) < corner_code(
                            (#[trigger] v@[j])@,
                        ),
                    forall|k: (int, int, int)|
                        coord_on_board(k) && corner_canonical(k) && corner_code(k) < r * 30 + q * 6
                            + c ==> corner_listed(v@, k),
                decreases 6 - c,
            {
                if is_on_board(r, q) {
                    let k = CornerCoord { r, q, c };
                    let red = reduce_corner(k);
                    if red.r == r && red.q == q && red.c == c {
                        let ghost vs = v@;
                        v.push(k);
                        proof {
                            assert forall|m: (int, int, int)| corner_listed(vs, m) implies corner_listed(
                                v@,
                                m,
                            ) by {
                                let i = choose|i: int| 0 <= i < vs.len() && (#[trigger] vs[i])@ == m;
                                assert(v@[i]@ == m);
                            }
                            assert(v@[vs.len() as int]@ == (r as int, q as int, c as int));
                        }
                    }
                }
                proof {
                    assert forall|k: (int, int, int)|
                        coord_on_board(k) && corner_canonical(k) && corner_code(k) < r * 30 + q * 6
                            + c + 1 implies corner_listed(v@, k) by {
                        if corner_code(k) == r * 30 + q * 6 + c {
                            assert(k == (r as int, q as int, c as int));
                        }
                    }
                }
                c = c + 1;
            }
            q = q + 1;
        }
        r = r + 1;
    }
    v
}

/// Returns the canonical edge coordinates of the whole board, in scan order.
/// The list is sound, strictly ordered (hence pairwise distinct), and
/// complete.
pub fn edge_coords() -> (v: Vec<EdgeCoord>)
    ensures
        forall|i: int|
            0 <= i < v@.len() ==> coord_on_board((#[trigger] v@[i])@) && edge_canonical(v@[i]@),
        forall|i: int, j: int|
            0 <= i < j < v@.len() ==> corner_code((#[trigger] v@[i])@) < corner_code(
                (#[trigger] v@[j])@,
            ),
        forall|k: (int, int, int)| coord_on_board(k) && edge_canonical(k) ==> edge_listed(v@, k),
{
    let mut v: Vec<EdgeCoord> = Vec::new();
    let mut r: usize = 0;
    while r < 5
        invariant
            r <= 5,
            forall|i: int|
                0 <= i < v@.len() ==> coord_on_board((#[trigger] v@[i])@) && edge_canonical(
                    v@[i]@,
                ),
            forall|i: int| 0 <= i < v@.len() ==> corner_code((#[trigger] v@[i])@) < r * 30,
            forall|i: int, j: int|
                0 <= i < j < v@.len() ==> corner_code((#[trigger] v@[i])@) < corner_code(
                    (#[trigger] v@[j])@,
                ),
            forall|k: (int, int, int)|
                coord_on_board(k) && edge_canonical(k) && corner_code(k) < r * 30 ==> edge_listed(
                    v@,
                    k,
                ),
        decreases 5 - r,
    {
        let mut q: usize = 0;
        while q < 5
            invariant
                r < 5,
                q <= 5,
                forall|i: int|
                    0 <= i < v@.len() ==> coord_on_board((#[trigger] v@[i])@) && edge_canonical(
                        v@[i]@,
                    ),
                forall|i: int|
                    0 <= i < v@.len() ==> corner_code((#[trigger] v@[i])@) < r * 30 + q * 6,
                forall|i: int, j: int|
                    0 <= i < j < v@.len() ==> corner_code((#[trigger] v@[i])@) < corner_code(
                        (#[trigger] v@[j])@,
                    ),
                forall|k: (int, int, int)|
                    coord_on_board(k) && edge_canonical(k) && corner_code(k) < r * 30 + q * 6
                        ==> edge_listed(v@, k),
            decreases 5 - q,
        {
            let mut e: usize = 0;
            while e < 6
                invariant
                    r < 5,
                    q < 5,
                    e <= 6,
                    forall|i: int|
                        0 <= i < v@.len() ==> coord_on_board((#[trigger] v@[i])@) && edge_canonical(
                            v@[i]@,
                        ),
                    forall|i: int|
                        0 <= i < v@.len() ==> corner_code((#[trigger] v@[i])@) < r * 30 + q * 6
                            + e,
                    forall|i: int, j: int|
                        0 <= i < j < v@.len() ==> corner_code((#[trigger] v@[i])@) < corner_code(
                            (#[trigger] v@[j])@,
                        ),
                    forall|k: (int, int, int)|
                        coord_on_board(k) && edge_canonical(k) && corner_code(k) < r * 30 + q * 6
                            + e ==> edge_listed(v@, k),
                decreases 6 - e,
            {
                if is_on_board(r, q) {
                    let k = EdgeCoord { r, q, e };
                    let red = reduce_edge(k);
                    if red.r == r && red.q == q && red.e == e {
                        let ghost vs = v@;
                        v.push(k);
                        proof {
                            assert forall|m: (int, int, int)| edge_listed(vs, m) implies edge_listed(
                                v@,
                                m,
                            ) by {
                                let i = choose|i: int| 0 <= i < vs.len() && (#[trigger] vs[i])@ == m;
                                assert(v@[i]@ == m);
                            }
                            assert(v@[vs.len() as int]@ == (r as int, q as int, e as int));
                        }
                    }
                }
                proof {
                    assert forall|k: (int, int, int)|
                        coord_on_board(k) && edge_canonical(k) && corner_code(k) < r * 30 + q * 6 + e
                            + 1 implies edge_listed(v@, k) by {
                        if corner_code(k) == r * 30 + q * 6 + e {
                            assert(k == (r as int, q as int, e as int));
                        }
                    }
                }
                e = e + 1;
            }
            q = q + 1;
        }
        r = r + 1;
    }
    v
}

/// A strict linear position for hex coordinates: row-major scan order.
pub open spec fn hex_code(h: (int, int)) -> int {
    h.0 * 5 + h.1
}

/// The hex `h` appears in the list `s`.
pub open spec fn hex_listed(s: Seq<HexCoord>, h: (int, int)) -> bool {
    exists|i: int| 0 <= i < s.len() && (#[trigger] s[i])@ == h
}

/// Returns the 19 on-board hexes in row-major scan order. The list is sound,
/// strictly ordered (hence pairwise distinct), and complete.
pub fn hex_coords() -> (v: Vec<HexCoord>)
    ensures
        forall|i: int| 0 <= i < v@.len() ==> hex_on_board((#[trigger] v@[i])@.0, v@[i]@.1),
        forall|i: int, j: int|
            0 <= i < j < v@.len() ==> hex_code((#[trigger] v@[i])@) < hex_code((#[trigger] v@[j])@),
        forall|h: (int, int)| hex_on_board(h.0, h.1) ==> hex_listed(v@, h),
{
    let mut v: Vec<HexCoord> = Vec::new();
    let mut r: usize = 0;
    while r < 5
        invariant
            r <= 5,
            forall|i: int| 0 <= i < v@.len() ==> hex_on_board((#[trigger] v@[i])@.0, v@[i]@.1),
            forall|i: int| 0 <= i < v@.len() ==> hex_code((#[trigger] v@[i])@) < r * 5,
            forall|i: int, j: int|
                0 <= i < j < v@.len() ==> hex_code((#[trigger] v@[i])@) < hex_code(
                    (#[trigger] v@[j])@,
                ),
            forall|h: (int, int)|
                hex_on_board(h.0, h.1) && hex_code(h) < r * 5 ==> hex_listed(v@, h),
        decreases 5 - r,
    {
        let mut q: usize = 0;
        while q < 5
            invariant
                r < 5,
                q <= 5,
                forall|i: int| 0 <= i < v@.len() ==> hex_on_board((#[trigger] v@[i])@.0, v@[i]@.1),
                forall|i: int| 0 <= i < v@.len() ==> hex_code((#[trigger] v@[i])@) < r * 5 + q,
                forall|i: int, j: int|
                    0 <= i < j < v@.len() ==> hex_code((#[trigger] v@[i])@) < hex_code(
                        (#[trigger] v@[j])@,
                    ),
                forall|h: (int, int)|
                    hex_on_board(h.0, h.1) && hex_code(h) < r * 5 + q ==> hex_listed(v@, h),
            decreases 5 - q,
        {
            let ghost vs = v@;
            if is_on_board(r, q) {
                v.push(HexCoord { r, q });
                proof {
                    assert(v@[vs.len() as int]@ == (r as int, q as int));
                    assert(hex_listed(v@, (r as int, q as int)));
                }
            }
            proof {
                assert forall|h: (int, int)|
                    hex_on_board(h.0, h.1) && hex_code(h) < r * 5 + q + 1 implies hex_listed(
                    v@,
                    h,
                ) by {
                    if hex_code(h) == r * 5 + q {
                        assert(h == (r as int, q as int));
                    } else {
                        assert(hex_listed(vs, h));
                        let i = choose|i: int| 0 <= i < vs.len() && (#[trigger] vs[i])@ == h;
                        assert(v@[i]@ == h);
                    }
                }
            }
            q = q + 1;
        }
        r = r + 1;
    }
    v
}


/// The first candidate coordinate that also occurs among the targets.
pub open spec fn first_match(cands: Seq<(int, int, int)>, targets: Seq<(int, int, int)>) -> Option<
    (int, int, int),
>
    decreases cands.len(),
{
    if cands.len() == 0 {
        None
    } else if targets.contains(cands[0]) {
        Some(cands[0])
    } else {
        first_match(cands.drop_first(), targets)
    }
}

/// The candidate corner coordinates scanned when intersecting two edges: each
/// endpoint of the first edge together with all its duplicate representations.
pub open spec fn spec_intersect_cands(e1: (int, int, int)) -> Seq<(int, int, int)> {
    spec_dup_corners(spec_edge_corner_neighbors(e1)[0]) + spec_dup_corners(
        spec_edge_corner_neighbors(e1)[1],
    )
}

/// The shared endpoint of two edges: the first duplicate representation of an
/// endpoint of `e1` that is written exactly like an endpoint of `e2`, or
/// `None` when the edges do not meet.
pub open spec fn spec_intersecting_corner(e1: (int, int, int), e2: (int, int, int)) -> Option<
    (int, int, int),
> {
    first_match(spec_intersect_cands(e1), spec_edge_corner_neighbors(e2))
}

/// The view of an optional corner coordinate.
pub open spec fn opt_corner_view(o: Option<CornerCoord>) -> Option<(int, int, int)> {
    match o {
        Some(k) => Some(k@),
        None => None,
    }
}

/// Returns the shared endpoint corner of two edges, or `None` when the edges
/// do not meet.
pub fn intersecting_corner(e1: EdgeCoord, e2: EdgeCoord) -> (res: Option<CornerCoord>)
    requires
        coord_on_board(e1@),
        coord_on_board(e2@),
    ensures
        opt_corner_view(res) == spec_intersecting_corner(e1@, e2@),
        res is Some ==> coord_on_board(res.unwrap()@),
{
    let ghost targets = spec_edge_corner_neighbors(e2@);
    let endpoints = edge_corner_neighbors(e1);
    let mut cands = get_dup_corners(endpoints[0]);
    let mut tail = get_dup_corners(endpoints[1]);
    cands.append(&mut tail);
    proof {
        assert(cands@.map_values(|k: CornerCoord| k@) =~= spec_intersect_cands(e1@));
    }
    let ghost candsv = cands@.map_values(|k: CornerCoord| k@);
    let t0 = CornerCoord { r: e2.r, q: e2.q, c: e2.e };
    let t1 = CornerCoord { r: e2.r, q: e2.q, c: rotn(e2.e, 5) };
    assert(t0@ == targets[0] && t1@ == targets[1]);
    let mut i: usize = 0;
    proof {
        assert(candsv.skip(0) =~= candsv);
    }
    while i < cands.len()
        invariant
            i <= cands.len(),
            candsv == cands@.map_values(|k: CornerCoord| k@),
            candsv.len() == cands@.len(),
            forall|j: int| 0 <= j < candsv.len() ==> candsv[j] == (#[trigger] cands@[j])@,
            forall|j: int| 0 <= j < candsv.len() ==> coord_on_board(#[trigger] candsv[j]),
            targets == spec_edge_corner_neighbors(e2@),
            targets.len() == 2,
            t0@ == targets[0] && t1@ == targets[1],
            first_match(candsv.skip(i as int), targets) == first_match(candsv, targets),
            first_match(candsv, targets) == spec_intersecting_corner(e1@, e2@),
        decreases cands.len() - i,
    {
        let k = cands[i];
        proof {
            assert(candsv.skip(i as int).len() > 0);
            assert(candsv.skip(i as int)[0] == k@);
        }
        if k.r == t0.r && k.q == t0.q && k.c == t0.c {
            proof {
                assert(targets.contains(candsv.skip(i as int)[0]));
            }
            return Some(k);
        }
        if k.r == t1.r && k.q == t1.q && k.c == t1.c {
            proof {
                assert(targets.contains(candsv.skip(i as int)[0]));
            }
            return Some(k);
        }
        proof {
            assert forall|j: int| 0 <= j < targets.len() implies targets[j] != k@ by {
                assert(targets[0] == t0@ && targets[1] == t1@);
            }
            assert(!targets.contains(candsv.skip(i as int)[0]));
            assert(candsv.skip(i as int).drop_first() =~= candsv.skip(i as int + 1));
        }
        i = i + 1;
    }
    proof {
        assert(candsv.skip(i as int).len() == 0);
    }
    None
}

/// The edge coordinate of the port slot `i` of the nine fixed port slots.
pub open spec fn spec_port_coord(i: int) -> (int, int, int) {
    if i == 0 {
        (0, 3, 0)
    } else if i == 1 {
        (0, 4, 1)
    } else if i == 2 {
        (1, 4, 2)
    } else if i == 3 {
        (3, 3, 2)
    } else if i == 4 {
        (4, 2, 3)
    } else if i == 5 {
        (4, 1, 4)
    } else if i == 6 {
        (3, 0, 4)
    } else if i == 7 {
        (2, 0, 5)
    } else {
        (1, 1, 0)
    }
}

/// Returns the edge coordinates of the nine fixed port slots.
pub fn port_coords() -> (v: Vec<EdgeCoord>)
    ensures
        v@.len() == 9,
        forall|i: int|
            0 <= i < 9 ==> (#[trigger] v@[i])@ == spec_port_coord(i) && coord_on_board(
                spec_port_coord(i),
            ),
{
    let mut v: Vec<EdgeCoord> = Vec::new();
    v.push(EdgeCoord { r: 0, q: 3, e: 0 });
    v.push(EdgeCoord { r: 0, q: 4, e: 1 });
    v.push(EdgeCoord { r: 1, q: 4, e: 2 });
    v.push(EdgeCoord { r: 3, q: 3, e: 2 });
    v.push(EdgeCoord { r: 4, q: 2, e: 3 });
    v.push(EdgeCoord { r: 4, q: 1, e: 4 });
    v.push(EdgeCoord { r: 3, q: 0, e: 4 });
    v.push(EdgeCoord { r: 2, q: 0, e: 5 });
    v.push(EdgeCoord { r: 1, q: 1, e: 0 });
    v
}


/// Every corner neighbor of a valid corner is itself a valid coordinate.
pub proof fn lemma_ccn_on_board(k: (int, int, int), i: int)
    requires
        coord_on_board(k),
        0 <= i < spec_corner_corner_neighbors(k).len(),
    ensures
        coord_on_board(spec_corner_corner_neighbors(k)[i]),
{
}

/// No corner is its own neighbor: a neighbor of `k` canonicalizes to a
/// different coordinate than `k` itself.
pub proof fn lemma_ccn_not_self(k: (int, int, int), i: int)
    requires
        coord_on_board(k),
        0 <= i < spec_corner_corner_neighbors(k).len(),
    ensures
        spec_reduce_corner(spec_corner_corner_neighbors(k)[i]) != spec_reduce_corner(k),
{
}


/// Distinct valid coordinates have distinct linear positions.
pub proof fn lemma_corner_code_injective(a: (int, int, int), b: (int, int, int))
    requires
        coord_on_board(a),
        coord_on_board(b),
        corner_code(a) == corner_code(b),
    ensures
        a == b,
{
}

} // verus!







