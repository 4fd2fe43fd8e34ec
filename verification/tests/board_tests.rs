use catan_core::board::{
    board_ports, Board, Hex, PlayerColor, Port, Structure, StructureType,
};
use catan_core::coords::{is_on_board, CornerCoord, EdgeCoord, HexCoord};
use catan_core::hands::{starting_bank, starting_dv_bank, ResHand, Resource};

/// A hand-made board: every cell carries wood with a number of 3, except the
/// center hex, which carries wheat with a number of 6; the robber starts on
/// the top-left hex, which is the desert.
fn test_board() -> Board {
    let mut hexes: Vec<Option<Hex>> = Vec::new();
    for r in 0..5usize {
        for q in 0..5usize {
            if !is_on_board(r, q) || (r == 0 && q == 2) {
                hexes.push(None);
            } else if r == 2 && q == 2 {
                hexes.push(Some(Hex { resource: Resource::Wheat, number: 6 }));
            } else {
                hexes.push(Some(Hex { resource: Resource::Wood, number: 3 }));
            }
        }
    }
    Board {
        hexes,
        ports: board_ports(),
        structures: vec![None; 150],
        roads: vec![None; 150],
        robber: HexCoord { r: 0, q: 2 },
        bank: starting_bank(),
        dv_bank: starting_dv_bank(),
    }
}

#[test]
fn generated_board_has_no_adjacent_red_numbers() {
    let board = Board::new();
    let dirs: [(i32, i32); 6] = [(-1, 0), (-1, 1), (0, 1), (1, 0), (1, -1), (0, -1)];
    for r in 0..5usize {
        for q in 0..5usize {
            if !is_on_board(r, q) {
                continue;
            }
            let here = match board.hex_get(HexCoord { r, q }) {
                Some(h) => h.number == 6 || h.number == 8,
                None => false,
            };
            if !here {
                continue;
            }
            for (dr, dq) in dirs {
                let nr = r as i32 + dr;
                let nq = q as i32 + dq;
                if nr < 0 || nq < 0 {
                    continue;
                }
                let (nr, nq) = (nr as usize, nq as usize);
                if !is_on_board(nr, nq) {
                    continue;
                }
                let there = match board.hex_get(HexCoord { r: nr, q: nq }) {
                    Some(h) => h.number == 6 || h.number == 8,
                    None => false,
                };
                assert!(!there, "two red numbers touch");
            }
        }
    }
}

#[test]
fn generated_board_leaves_only_the_desert_empty() {
    let board = Board::new();
    let mut desert_count = 0;
    for r in 0..5usize {
        for q in 0..5usize {
            if !is_on_board(r, q) {
                continue;
            }
            match board.hex_get(HexCoord { r, q }) {
                Some(h) => {
                    assert!(h.number >= 2 && h.number <= 12 && h.number != 7);
                }
                None => {
                    assert_eq!((r, q), (board.robber.r, board.robber.q));
                    desert_count += 1;
                }
            }
        }
    }
    assert_eq!(desert_count, 1);
}

#[test]
fn generated_board_has_the_standard_terrain_mix() {
    let board = Board::new();
    let mut counts = [0usize; 5];
    for r in 0..5usize {
        for q in 0..5usize {
            if !is_on_board(r, q) {
                continue;
            }
            if let Some(h) = board.hex_get(HexCoord { r, q }) {
                let i = match h.resource {
                    Resource::Wood => 0,
                    Resource::Brick => 1,
                    Resource::Wheat => 2,
                    Resource::Sheep => 3,
                    Resource::Ore => 4,
                };
                counts[i] += 1;
            }
        }
    }
    assert_eq!(counts, [4, 3, 4, 4, 3]);
}

#[test]
fn placing_writes_every_duplicate_coordinate() {
    let mut board = test_board();
    let corner = CornerCoord { r: 2, q: 2, c: 0 };
    board.place_settlement(corner, PlayerColor::Red);
    let expected = Some(Structure {
        structure_type: StructureType::Settlement,
        color: PlayerColor::Red,
    });
    // The same physical corner seen from the three incident hexes.
    assert_eq!(board.structure_get(corner), expected);
    assert_eq!(board.structure_get(CornerCoord { r: 1, q: 2, c: 2 }), expected);
    assert_eq!(board.structure_get(CornerCoord { r: 1, q: 3, c: 4 }), expected);

    let edge = EdgeCoord { r: 2, q: 2, e: 0 };
    board.place_road(edge, PlayerColor::Red);
    // The same physical edge seen from both incident hexes.
    assert_eq!(board.road_get(edge), Some(PlayerColor::Red));
    assert_eq!(board.road_get(EdgeCoord { r: 1, q: 2, e: 3 }), Some(PlayerColor::Red));
}

#[test]
fn settlement_next_to_settlement_is_rejected() {
    // Fresh board, settlement at corner (2,2,0); its neighbor
    // (1,2,2)'s surroundings then violate the distance rule, while the edge
    // (2,2,0) touches the new settlement and accepts a road.
    let mut board = test_board();
    board.place_setup_settlement(CornerCoord { r: 2, q: 2, c: 0 }, PlayerColor::Blue);
    assert!(!board.can_place_settlement(CornerCoord { r: 1, q: 2, c: 2 }, PlayerColor::Blue));
    assert!(!board.can_place_setup_settlement(CornerCoord { r: 1, q: 2, c: 2 }));
    // A direct neighbor corner of the settlement is also rejected.
    assert!(!board.can_place_setup_settlement(CornerCoord { r: 2, q: 2, c: 1 }));
    assert!(board.can_place_road(EdgeCoord { r: 2, q: 2, e: 0 }, PlayerColor::Blue));
    // A far edge that touches nothing of Blue's is rejected.
    assert!(!board.can_place_road(EdgeCoord { r: 4, q: 0, e: 3 }, PlayerColor::Blue));
}

#[test]
fn city_yields_two_cards_and_settlement_one() {
    // Roll equals the number of hex (2,2); a city on one of its
    // corners earns two wheat, a settlement one, and the robber voids it all.
    let players = vec![PlayerColor::Red];
    let mut board = test_board();
    board.place_setup_settlement(CornerCoord { r: 2, q: 2, c: 2 }, PlayerColor::Red);
    board.place_city(CornerCoord { r: 2, q: 2, c: 2 }, PlayerColor::Red);
    let hands = board.get_new_resources(&players, 6);
    assert_eq!(hands[0].get(Resource::Wheat), 2);
    assert_eq!(hands[0].get(Resource::Wood), 0);

    let mut board = test_board();
    board.place_setup_settlement(CornerCoord { r: 2, q: 2, c: 2 }, PlayerColor::Red);
    let hands = board.get_new_resources(&players, 6);
    assert_eq!(hands[0].get(Resource::Wheat), 1);

    let mut board = test_board();
    board.place_setup_settlement(CornerCoord { r: 2, q: 2, c: 2 }, PlayerColor::Red);
    board.place_city(CornerCoord { r: 2, q: 2, c: 2 }, PlayerColor::Red);
    board.robber = HexCoord { r: 2, q: 2 };
    let hands = board.get_new_resources(&players, 6);
    assert_eq!(hands[0].get(Resource::Wheat), 0);
}

#[test]
fn starting_resources_come_from_touching_hexes() {
    let board = test_board();
    // Corner (2,2,2) touches hexes (2,2) wheat, (2,3) wood and (3,2) wood.
    let hand = board.get_starting_resources(CornerCoord { r: 2, q: 2, c: 2 });
    assert_eq!(hand.get(Resource::Wheat), 1);
    assert_eq!(hand.get(Resource::Wood), 2);
    // A corner of the desert gets nothing from it.
    let hand = board.get_starting_resources(CornerCoord { r: 0, q: 2, c: 0 });
    assert_eq!(hand.size(), 0);
}

#[test]
fn robbable_needs_the_robber_and_a_foreign_structure() {
    let mut board = test_board();
    board.robber = HexCoord { r: 2, q: 2 };
    let corner = CornerCoord { r: 2, q: 2, c: 3 };
    assert!(!board.is_robbable(corner, PlayerColor::Red));
    board.place_setup_settlement(corner, PlayerColor::Blue);
    assert!(board.is_robbable(corner, PlayerColor::Red));
    // The robbing player's own structure is no target.
    assert!(!board.is_robbable(corner, PlayerColor::Blue));
    // A structure away from the robber hex is no target.
    let far = CornerCoord { r: 4, q: 0, c: 3 };
    board.place_setup_settlement(far, PlayerColor::Blue);
    assert!(!board.is_robbable(far, PlayerColor::Red));
}

#[test]
fn colors_on_hex_deduplicates() {
    let mut board = test_board();
    board.place_setup_settlement(CornerCoord { r: 2, q: 2, c: 0 }, PlayerColor::Blue);
    board.place_setup_settlement(CornerCoord { r: 2, q: 2, c: 2 }, PlayerColor::Blue);
    board.place_setup_settlement(CornerCoord { r: 2, q: 2, c: 4 }, PlayerColor::White);
    let colors = board.get_colors_on_hex(HexCoord { r: 2, q: 2 });
    assert_eq!(colors.len(), 2);
    assert!(colors.contains(&PlayerColor::Blue));
    assert!(colors.contains(&PlayerColor::White));
}

#[test]
fn port_rates_follow_ownership() {
    // Trading two wood for one ore works only with a wood
    // two-for-one port; a generic port asks three, no port asks four.
    let make = |port: Option<Port>| -> Board {
        let mut board = test_board();
        if let Some(p) = port {
            board.ports[0] = p;
            // Port slot 0 sits on edge (0,3,0); settle one of its corners.
            board.place_setup_settlement(CornerCoord { r: 0, q: 3, c: 0 }, PlayerColor::Red);
        }
        board
    };
    let give2 = ResHand::from_monopoly(Resource::Wood, 2);
    let give3 = ResHand::from_monopoly(Resource::Wood, 3);
    let give4 = ResHand::from_monopoly(Resource::Wood, 4);
    let get = ResHand::from_monopoly(Resource::Ore, 1);

    let board = make(Some(Port::TwoForOne(Resource::Wood)));
    assert_eq!(board.trade_rate(PlayerColor::Red, Resource::Wood), 2);
    assert!(board.can_trade_with_bank(give2, get, PlayerColor::Red));
    assert!(!board.can_trade_with_bank(give3, get, PlayerColor::Red));

    let board = make(Some(Port::ThreeForOne));
    assert_eq!(board.trade_rate(PlayerColor::Red, Resource::Wood), 3);
    assert!(!board.can_trade_with_bank(give2, get, PlayerColor::Red));
    assert!(board.can_trade_with_bank(give3, get, PlayerColor::Red));

    let board = make(None);
    assert_eq!(board.trade_rate(PlayerColor::Red, Resource::Wood), 4);
    assert!(!board.can_trade_with_bank(give2, get, PlayerColor::Red));
    assert!(!board.can_trade_with_bank(give3, get, PlayerColor::Red));
    assert!(board.can_trade_with_bank(give4, get, PlayerColor::Red));
}

#[test]
fn a_two_for_one_port_of_the_wrong_kind_does_not_help() {
    let mut board = test_board();
    board.ports[0] = Port::TwoForOne(Resource::Sheep);
    board.place_setup_settlement(CornerCoord { r: 0, q: 3, c: 0 }, PlayerColor::Red);
    assert_eq!(board.trade_rate(PlayerColor::Red, Resource::Wood), 4);
    assert_eq!(board.trade_rate(PlayerColor::Red, Resource::Sheep), 2);
}

#[test]
fn dv_bank_draws_shrink_it() {
    let mut board = test_board();
    assert!(board.can_draw_dv_card());
    let before = board.dv_bank.size();
    let card = board.draw_dv_at(0);
    assert_eq!(board.dv_bank.size(), before - 1);
    // Position zero of the fresh bank is a knight.
    assert_eq!(card, catan_core::hands::DVCard::Knight);
    // The card cost was credited to the bank.
    assert_eq!(board.bank.get(Resource::Wheat), 20);
    assert_eq!(board.bank.get(Resource::Wood), 19);
}

#[test]
fn generated_board_has_the_standard_token_mix() {
    let board = Board::new();
    let mut counts = [0usize; 13];
    for r in 0..5usize {
        for q in 0..5usize {
            if !is_on_board(r, q) {
                continue;
            }
            if let Some(h) = board.hex_get(HexCoord { r, q }) {
                counts[h.number] += 1;
            }
        }
    }
    assert_eq!(counts, [0, 0, 1, 2, 2, 2, 2, 0, 2, 2, 2, 2, 1]);
}

#[test]
fn generated_board_has_the_standard_port_mix() {
    let board = Board::new();
    let mut generic = 0usize;
    let mut specific = [0usize; 5];
    for p in &board.ports {
        match p {
            Port::ThreeForOne => generic += 1,
            Port::TwoForOne(res) => {
                let i = match res {
                    Resource::Wood => 0,
                    Resource::Brick => 1,
                    Resource::Wheat => 2,
                    Resource::Sheep => 3,
                    Resource::Ore => 4,
                };
                specific[i] += 1;
            }
        }
    }
    assert_eq!(generic, 4);
    assert_eq!(specific, [1, 1, 1, 1, 1]);
}
