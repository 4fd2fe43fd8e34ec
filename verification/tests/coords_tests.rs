use catan_core::coords::{
    corner_coords, corner_corner_neighbors, edge_coords, edge_corner_neighbors,
    edge_edge_neighbors, get_dup_corners, get_dup_edges, hex_coords, intersecting_corner,
    is_on_board, port_coords, reduce_corner, reduce_edge, CornerCoord, EdgeCoord,
};

#[test]
fn canonical_counts() {
    assert_eq!(hex_coords().len(), 19);
    assert_eq!(corner_coords().len(), 54);
    assert_eq!(edge_coords().len(), 72);
    assert_eq!(port_coords().len(), 9);
}

#[test]
fn canonical_lists_are_distinct() {
    let corners = corner_coords();
    for i in 0..corners.len() {
        for j in 0..i {
            assert_ne!(corners[i], corners[j]);
        }
    }
    let edges = edge_coords();
    for i in 0..edges.len() {
        for j in 0..i {
            assert_ne!(edges[i], edges[j]);
        }
    }
}

#[test]
fn reduce_corner_is_idempotent_everywhere() {
    for r in 0..5 {
        for q in 0..5 {
            if !is_on_board(r, q) {
                continue;
            }
            for c in 0..6 {
                let k = CornerCoord { r, q, c };
                let once = reduce_corner(k);
                assert_eq!(reduce_corner(once), once);
            }
        }
    }
}

#[test]
fn reduce_edge_is_idempotent_everywhere() {
    for r in 0..5 {
        for q in 0..5 {
            if !is_on_board(r, q) {
                continue;
            }
            for e in 0..6 {
                let k = EdgeCoord { r, q, e };
                let once = reduce_edge(k);
                assert_eq!(reduce_edge(once), once);
            }
        }
    }
}

#[test]
fn duplicates_reduce_to_the_same_corner() {
    for r in 0..5 {
        for q in 0..5 {
            if !is_on_board(r, q) {
                continue;
            }
            for c in 0..6 {
                let k = CornerCoord { r, q, c };
                let canon = reduce_corner(k);
                for d in get_dup_corners(k) {
                    assert_eq!(reduce_corner(d), canon);
                }
            }
        }
    }
}

#[test]
fn duplicates_reduce_to_the_same_edge() {
    for r in 0..5 {
        for q in 0..5 {
            if !is_on_board(r, q) {
                continue;
            }
            for e in 0..6 {
                let k = EdgeCoord { r, q, e };
                let canon = reduce_edge(k);
                for d in get_dup_edges(k) {
                    assert_eq!(reduce_edge(d), canon);
                }
            }
        }
    }
}

#[test]
fn interior_corner_has_three_neighbors() {
    let k = CornerCoord { r: 2, q: 2, c: 0 };
    assert_eq!(corner_corner_neighbors(k).len(), 3);
}

#[test]
fn edge_has_two_endpoints() {
    let k = EdgeCoord { r: 2, q: 2, e: 0 };
    let ends = edge_corner_neighbors(k);
    assert_eq!(ends.len(), 2);
    assert_eq!(ends[0], CornerCoord { r: 2, q: 2, c: 0 });
    assert_eq!(ends[1], CornerCoord { r: 2, q: 2, c: 5 });
}

#[test]
fn neighboring_edges_share_a_corner() {
    let k = EdgeCoord { r: 2, q: 2, e: 0 };
    let neighbors = edge_edge_neighbors(k);
    assert!(neighbors.len() >= 3);
    for ne in neighbors {
        assert!(intersecting_corner(k, ne).is_some());
    }
}

#[test]
fn distant_edges_share_no_corner() {
    let a = EdgeCoord { r: 0, q: 2, e: 0 };
    let b = EdgeCoord { r: 4, q: 2, e: 3 };
    assert!(intersecting_corner(a, b).is_none());
}
