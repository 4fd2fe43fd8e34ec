use catan_core::board::{board_ports, Board, Hex, PlayerColor};
use catan_core::coords::{is_on_board, CornerCoord, EdgeCoord, HexCoord};
use catan_core::hands::{
    starting_bank, starting_dv_bank, DVCard, ResHand, Resource,
};
use catan_core::player::Player;
use catan_core::setup::SetupState;
use catan_core::state::{trade_is_reasonable, Action, GameState, Selector};

fn flat_board() -> Board {
    let mut hexes: Vec<Option<Hex>> = Vec::new();
    for r in 0..5usize {
        for q in 0..5usize {
            if !is_on_board(r, q) || (r == 0 && q == 2) {
                hexes.push(None);
            } else {
                hexes.push(Some(Hex { resource: Resource::Wood, number: 3 }));
            }
        }
    }
    Board {
        hexes,
        ports: board_ports(),
        structures: vec![None; 150],
        roads: vec![None; 150],
        robber: HexCoord { r: 0, q: 2 },
        bank: starting_bank(),
        dv_bank: starting_dv_bank(),
    }
}

fn game_with(players: Vec<Player>) -> GameState {
    let n = players.len();
    GameState {
        num_players: n,
        board: flat_board(),
        players,
        largest_army: None,
        largest_army_size: 2,
        longest_road: None,
        longest_road_size: 4,
        current_player: 0,
        turn_player: 0,
        roll: None,
        played_dv: false,
        selector: None,
        offered_trades: Vec::new(),
        action: Action::Idling,
        rng_action: None,
    }
}

#[test]
fn discard_selector_commits_only_at_exactly_half() {
    // A player holding exactly eight cards after a seven must
    // discard exactly four; three or five selected cards are refused.
    let mut p = Player::new(PlayerColor::Red, true);
    p.get_cards(ResHand::from_monopoly(Resource::Wood, 8));
    let mut gs = game_with(vec![p, Player::new(PlayerColor::Blue, false)]);
    gs.action = Action::Discarding;
    for picked in [3usize, 4, 5] {
        gs.selector = Some(Selector::Discarding(ResHand::from_monopoly(
            Resource::Wood,
            picked,
        )));
        assert_eq!(gs.can_execute_selector(), picked == 4);
    }
}

#[test]
fn monopoly_takes_every_other_wheat() {
    // Monopoly on wheat gives the caller every other player's
    // wheat, zeroes theirs, and only adds to the caller's own.
    let mut caller = Player::new(PlayerColor::Red, true);
    caller.get_cards(ResHand::from_monopoly(Resource::Wheat, 2));
    caller.dvs.add_card(DVCard::Monopoly);
    let mut second = Player::new(PlayerColor::Blue, false);
    second.get_cards(ResHand::from_monopoly(Resource::Wheat, 3));
    second.get_cards(ResHand::from_monopoly(Resource::Ore, 2));
    let mut third = Player::new(PlayerColor::White, false);
    third.get_cards(ResHand::from_monopoly(Resource::Wheat, 5));
    let mut gs = game_with(vec![caller, second, third]);
    gs.execute_monopoly(Resource::Wheat);
    assert_eq!(gs.players[0].get_hand().get(Resource::Wheat), 10);
    assert_eq!(gs.players[1].get_hand().get(Resource::Wheat), 0);
    assert_eq!(gs.players[1].get_hand().get(Resource::Ore), 2);
    assert_eq!(gs.players[2].get_hand().get(Resource::Wheat), 0);
    assert_eq!(gs.players[0].get_dvs().get(DVCard::Monopoly), 0);
}

#[test]
fn monopoly_through_the_selector() {
    let mut caller = Player::new(PlayerColor::Red, true);
    caller.dvs.add_card(DVCard::Monopoly);
    let mut other = Player::new(PlayerColor::Blue, false);
    other.get_cards(ResHand::from_monopoly(Resource::Sheep, 4));
    let mut gs = game_with(vec![caller, other]);
    gs.play_dv_card(DVCard::Monopoly);
    assert!(gs.can_add_to_bottom(Resource::Sheep));
    gs.selector_add_bottom(Resource::Sheep);
    // One resource picked: no second card may join, and the pick commits.
    assert!(!gs.can_add_to_bottom(Resource::Wood));
    assert!(gs.can_execute_selector());
    gs.execute_selector();
    assert_eq!(gs.players[0].get_hand().get(Resource::Sheep), 4);
    assert_eq!(gs.players[1].get_hand().get(Resource::Sheep), 0);
}

#[test]
fn year_of_plenty_needs_exactly_two() {
    let mut caller = Player::new(PlayerColor::Red, true);
    caller.dvs.add_card(DVCard::YearOfPlenty);
    let mut gs = game_with(vec![caller]);
    gs.play_dv_card(DVCard::YearOfPlenty);
    gs.selector_add_bottom(Resource::Brick);
    assert!(!gs.can_execute_selector());
    gs.selector_add_bottom(Resource::Ore);
    assert!(gs.can_execute_selector());
    assert!(!gs.can_add_to_bottom(Resource::Wood));
    gs.execute_selector();
    assert_eq!(gs.players[0].get_hand().get(Resource::Brick), 1);
    assert_eq!(gs.players[0].get_hand().get(Resource::Ore), 1);
    assert_eq!(gs.players[0].get_dvs().get(DVCard::YearOfPlenty), 0);
}

#[test]
fn bank_trade_moves_the_exact_bundle() {
    let mut caller = Player::new(PlayerColor::Red, true);
    caller.get_cards(ResHand::from_monopoly(Resource::Wood, 4));
    let mut gs = game_with(vec![caller]);
    let give = ResHand::from_monopoly(Resource::Wood, 4);
    let get = ResHand::from_monopoly(Resource::Ore, 1);
    assert!(gs.can_trade_with_bank(give, get));
    gs.execute_trade(give, get);
    assert_eq!(gs.players[0].get_hand().get(Resource::Wood), 0);
    assert_eq!(gs.players[0].get_hand().get(Resource::Ore), 1);
    assert_eq!(gs.board.bank.get(Resource::Wood), 23);
    assert_eq!(gs.board.bank.get(Resource::Ore), 18);
    assert!(gs.offered_trades.is_empty());
}

#[test]
fn unmatched_offer_is_queued() {
    let mut caller = Player::new(PlayerColor::Red, true);
    caller.get_cards(ResHand::from_monopoly(Resource::Wood, 1));
    let mut gs = game_with(vec![caller]);
    let give = ResHand::from_monopoly(Resource::Wood, 1);
    let get = ResHand::from_monopoly(Resource::Ore, 1);
    assert!(!gs.can_trade_with_bank(give, get));
    gs.execute_trade(give, get);
    assert_eq!(gs.players[0].get_hand().get(Resource::Wood), 1);
    assert_eq!(gs.offered_trades.len(), 1);
}

#[test]
fn reasonable_trades_are_disjoint_and_nonempty() {
    let wood = ResHand::from_monopoly(Resource::Wood, 2);
    let ore = ResHand::from_monopoly(Resource::Ore, 1);
    let empty = ResHand::new();
    let mut mixed = ResHand::from_monopoly(Resource::Wood, 1);
    mixed.add_card(Resource::Ore);
    assert!(trade_is_reasonable(wood, ore));
    assert!(!trade_is_reasonable(wood, empty));
    assert!(!trade_is_reasonable(empty, ore));
    assert!(!trade_is_reasonable(wood, mixed));
}

#[test]
fn pass_turn_advances_and_cycles_cards() {
    let mut p0 = Player::new(PlayerColor::Red, true);
    p0.new_dvs.add_card(DVCard::Knight);
    let p1 = Player::new(PlayerColor::Blue, false);
    let mut gs = game_with(vec![p0, p1]);
    gs.roll = Some(catan_core::state::DiceRoll { die1: 3, die2: 4 });
    gs.pass_turn();
    assert_eq!(gs.turn_player, 1);
    assert_eq!(gs.current_player, 1);
    assert!(gs.roll.is_none());
    assert!(matches!(gs.action, Action::Idling));
    assert_eq!(gs.players[0].get_dvs().get(DVCard::Knight), 1);
    assert_eq!(gs.players[0].get_new_dvs().get(DVCard::Knight), 0);
}

#[test]
fn knight_play_transfers_largest_army_only_past_the_threshold() {
    let mut p0 = Player::new(PlayerColor::Red, true);
    p0.dvs.add_card(DVCard::Knight);
    p0.dvs.add_card(DVCard::Knight);
    p0.dvs.add_card(DVCard::Knight);
    let p1 = Player::new(PlayerColor::Blue, false);
    let mut gs = game_with(vec![p0, p1]);
    gs.play_dv_card(DVCard::Knight);
    assert!(matches!(gs.action, Action::MovingRobber));
    assert_eq!(gs.players[0].get_knights(), 1);
    // One knight does not beat the starting threshold of two.
    assert_eq!(gs.largest_army, None);
    gs.play_dv_card(DVCard::Knight);
    assert_eq!(gs.largest_army, None);
    gs.play_dv_card(DVCard::Knight);
    // Three knights strictly exceed two: the bonus transfers.
    assert_eq!(gs.largest_army, Some(PlayerColor::Red));
    assert_eq!(gs.largest_army_size, 3);
    assert!(gs.players[0].largest_army);
    assert_eq!(gs.players[0].get_vps(), 2);
}

#[test]
fn road_building_places_two_free_roads() {
    let mut p0 = Player::new(PlayerColor::Red, true);
    p0.dvs.add_card(DVCard::RoadBuilding);
    let mut gs = game_with(vec![p0]);
    gs.board.place_setup_settlement(CornerCoord { r: 2, q: 2, c: 0 }, PlayerColor::Red);
    gs.play_dv_card(DVCard::RoadBuilding);
    assert!(matches!(gs.action, Action::RoadBuilding(false)));
    let e1 = EdgeCoord { r: 2, q: 2, e: 0 };
    assert!(gs.board.can_place_road(e1, PlayerColor::Red));
    gs.board.place_road(e1, PlayerColor::Red);
    gs.advance_road_building();
    assert!(matches!(gs.action, Action::RoadBuilding(true)));
    let e2 = EdgeCoord { r: 2, q: 2, e: 1 };
    assert!(gs.board.can_place_road(e2, PlayerColor::Red));
    gs.board.place_road(e2, PlayerColor::Red);
    gs.advance_road_building();
    assert!(matches!(gs.action, Action::Idling));
}

#[test]
fn build_settlement_pays_and_scores() {
    let mut p0 = Player::new(PlayerColor::Red, true);
    p0.get_cards(ResHand::from_monopoly(Resource::Wood, 2));
    p0.get_cards(ResHand::from_monopoly(Resource::Brick, 2));
    p0.get_cards(ResHand::from_monopoly(Resource::Wheat, 1));
    p0.get_cards(ResHand::from_monopoly(Resource::Sheep, 1));
    let mut gs = game_with(vec![p0]);
    // A road to settle on, placed during setup.
    gs.board.place_setup_road(EdgeCoord { r: 2, q: 2, e: 0 }, PlayerColor::Red);
    let corner = CornerCoord { r: 2, q: 2, c: 0 };
    assert!(gs.board.can_place_settlement(corner, PlayerColor::Red));
    gs.build_settlement(corner);
    assert_eq!(gs.players[0].get_vps(), 1);
    assert_eq!(gs.players[0].get_hand().get(Resource::Wood), 1);
    assert_eq!(gs.players[0].get_hand().get(Resource::Wheat), 0);
    assert_eq!(gs.players[0].settlement_pool, 4);
    assert_eq!(gs.board.bank.get(Resource::Wheat), 20);
    // Upgrade it to a city.
    let mut costs = ResHand::from_monopoly(Resource::Wheat, 2);
    costs.add(ResHand::from_monopoly(Resource::Ore, 3));
    let mut p = gs.players[0];
    p.get_cards(costs);
    gs.players[0] = p;
    assert!(gs.board.can_place_city(corner, PlayerColor::Red));
    gs.build_city(corner);
    assert_eq!(gs.players[0].get_vps(), 2);
    assert_eq!(gs.players[0].settlement_pool, 5);
    assert_eq!(gs.players[0].city_pool, 3);
    assert_eq!(gs.board.bank.get(Resource::Ore), 22);
}

#[test]
fn move_robber_resolves_by_foreign_owner_count() {
    let mut gs = game_with(vec![
        Player::new(PlayerColor::Red, true),
        Player::new(PlayerColor::Blue, false),
        Player::new(PlayerColor::White, false),
    ]);
    // Nobody on the hex: straight back to idling.
    gs.action = Action::MovingRobber;
    gs.move_robber(HexCoord { r: 2, q: 2 });
    assert!(matches!(gs.action, Action::Idling));
    assert!(gs.rng_action.is_none());
    // Only the mover's own settlement: no candidate, back to idling.
    gs.board.place_setup_settlement(CornerCoord { r: 2, q: 2, c: 0 }, PlayerColor::Red);
    gs.action = Action::MovingRobber;
    gs.move_robber(HexCoord { r: 2, q: 2 });
    assert!(matches!(gs.action, Action::Idling));
    assert!(gs.rng_action.is_none());
    // The mover plus one other owner: the steal from the other is queued.
    gs.board.place_setup_settlement(CornerCoord { r: 2, q: 2, c: 2 }, PlayerColor::Blue);
    gs.action = Action::MovingRobber;
    gs.move_robber(HexCoord { r: 2, q: 2 });
    assert!(matches!(gs.action, Action::Idling));
    assert!(matches!(
        gs.rng_action,
        Some(catan_core::state::RngAction::Stealing(PlayerColor::Blue))
    ));
    // Two owners beside the mover: the mover must choose.
    gs.rng_action = None;
    gs.board.place_setup_settlement(CornerCoord { r: 2, q: 2, c: 4 }, PlayerColor::White);
    gs.action = Action::MovingRobber;
    gs.move_robber(HexCoord { r: 2, q: 2 });
    assert!(matches!(gs.action, Action::ChoosingVictim));
}

#[test]
fn steal_moves_one_card() {
    let mut victim = Player::new(PlayerColor::Blue, false);
    victim.get_cards(ResHand::from_monopoly(Resource::Ore, 2));
    let mut gs = game_with(vec![Player::new(PlayerColor::Red, true), victim]);
    let stolen = gs.resolve_steal(PlayerColor::Blue);
    assert_eq!(stolen, Some(Resource::Ore));
    assert_eq!(gs.players[0].get_hand().get(Resource::Ore), 1);
    assert_eq!(gs.players[1].get_hand().get(Resource::Ore), 1);
    // An empty victim yields nothing.
    let mut gs = game_with(vec![
        Player::new(PlayerColor::Red, true),
        Player::new(PlayerColor::Blue, false),
    ]);
    assert_eq!(gs.resolve_steal(PlayerColor::Blue), None);
}

#[test]
fn discard_round_walks_the_over_limit_hands() {
    let mut p0 = Player::new(PlayerColor::Red, true);
    p0.get_cards(ResHand::from_monopoly(Resource::Wood, 8));
    let p1 = Player::new(PlayerColor::Blue, false);
    let mut p2 = Player::new(PlayerColor::White, false);
    p2.get_cards(ResHand::from_monopoly(Resource::Sheep, 9));
    let mut gs = game_with(vec![p0, p1, p2]);
    gs.initiate_discarding();
    assert!(matches!(gs.action, Action::Discarding));
    assert_eq!(gs.current_player, 0);
    // Player zero discards half of eight.
    gs.execute_discard(ResHand::from_monopoly(Resource::Wood, 4));
    assert_eq!(gs.players[0].get_hand().size(), 4);
    // The scan skips player one and lands on player two.
    assert_eq!(gs.current_player, 2);
    assert!(matches!(gs.selector, Some(Selector::Discarding(_))));
    gs.execute_discard(ResHand::from_monopoly(Resource::Sheep, 5));
    // Everyone is under the limit: the robber phase begins at the turn player.
    assert!(matches!(gs.action, Action::MovingRobber));
    assert_eq!(gs.current_player, gs.turn_player);
}

#[test]
fn available_actions_follow_phase_and_roll() {
    let mut p0 = Player::new(PlayerColor::Red, true);
    p0.get_cards(ResHand::from_monopoly(Resource::Wood, 1));
    p0.get_cards(ResHand::from_monopoly(Resource::Brick, 1));
    let mut gs = game_with(vec![p0]);
    gs.board.place_setup_settlement(CornerCoord { r: 2, q: 2, c: 0 }, PlayerColor::Red);
    // Before the roll nothing is offered.
    assert_eq!(gs.get_available_actions(PlayerColor::Red), [false; 5]);
    gs.roll = Some(catan_core::state::DiceRoll { die1: 2, die2: 3 });
    let acts = gs.get_available_actions(PlayerColor::Red);
    assert!(!acts[0]); // cannot afford a development card
    assert!(acts[1]); // road is affordable and placeable
    assert!(!acts[2]); // settlement unaffordable
    assert!(acts[4]); // passing is always offered
    // Another color sees nothing.
    assert_eq!(gs.get_available_actions(PlayerColor::Blue), [false; 5]);
}

#[test]
fn setup_snake_order_and_starting_grant() {
    let s = SetupState::new(1, 1);
    let mut s = s;
    assert_eq!(s.num_players, 2);
    assert_eq!(s.current_player, 0);
    let c0 = CornerCoord { r: 2, q: 2, c: 0 };
    assert!(s.board.can_place_setup_settlement(c0));
    s.place_settlement(c0);
    let e0 = EdgeCoord { r: 2, q: 2, e: 0 };
    assert!(s.board.can_place_setup_road(e0, c0));
    s.place_road(e0);
    s.advance_turn();
    assert_eq!(s.current_player, 1);
    let c1 = CornerCoord { r: 4, q: 0, c: 0 };
    s.place_settlement(c1);
    s.place_road(EdgeCoord { r: 4, q: 0, e: 0 });
    s.advance_turn();
    // Snake order: the last seat places again, now with resources granted.
    assert_eq!(s.current_player, 1);
    assert!(s.all_placed_once);
    let c2 = CornerCoord { r: 0, q: 4, c: 0 };
    s.place_settlement(c2);
    // The corner touches one hex, so at most one card is granted (none if
    // the robber happens to sit there).
    let granted = s.players[1].get_hand().size();
    assert!(granted <= 1);
    s.place_road(EdgeCoord { r: 0, q: 4, e: 0 });
    s.advance_turn();
    assert_eq!(s.current_player, 0);
    let c3 = CornerCoord { r: 2, q: 0, c: 4 };
    s.place_settlement(c3);
    s.place_road(EdgeCoord { r: 2, q: 0, e: 4 });
    s.advance_turn();
    assert!(s.finished);
    assert_eq!(s.players[0].get_vps(), 2);
    assert_eq!(s.players[0].settlement_pool, 3);
    assert_eq!(s.players[0].road_pool, 13);
    // The finished setup opens the game idle at seat zero.
    let gs = GameState::from_setup(s);
    assert_eq!(gs.current_player, 0);
    assert!(matches!(gs.action, Action::Idling));
    assert!(gs.roll.is_none());
}

#[test]
fn resolve_roll_pays_or_starts_the_discard_round() {
    let mut p0 = Player::new(PlayerColor::Red, true);
    p0.get_cards(ResHand::from_monopoly(Resource::Wood, 9));
    let mut gs = game_with(vec![p0]);
    gs.resolve_roll();
    let roll = gs.roll.expect("the dice were rolled");
    let sum = roll.die1 + roll.die2;
    if sum == 7 {
        assert!(matches!(gs.action, Action::Discarding));
        assert!(matches!(gs.selector, Some(Selector::Discarding(_))));
    } else {
        // The flat board has no hex with the rolled number except threes.
        assert!(matches!(gs.action, Action::Idling));
    }
}

#[test]
fn selector_cancel_rules() {
    let mut gs = game_with(vec![Player::new(PlayerColor::Red, true)]);
    gs.open_trade_menu();
    assert!(gs.can_cancel_selector());
    gs.cancel_selector();
    assert!(gs.selector.is_none());
    gs.selector = Some(Selector::Discarding(ResHand::new()));
    assert!(!gs.can_cancel_selector());
}

#[test]
fn buying_a_dv_card_moves_cost_and_card() {
    let mut p0 = Player::new(PlayerColor::Red, true);
    p0.get_cards(ResHand::from_monopoly(Resource::Wheat, 1));
    p0.get_cards(ResHand::from_monopoly(Resource::Sheep, 1));
    p0.get_cards(ResHand::from_monopoly(Resource::Ore, 1));
    let mut gs = game_with(vec![p0]);
    assert!(gs.can_buy_dv());
    let card = gs.buy_dv_card();
    assert_eq!(gs.players[0].get_hand().size(), 0);
    assert_eq!(gs.players[0].get_new_dvs().get(card), 1);
    assert_eq!(gs.players[0].get_dvs().size(), 0);
    assert_eq!(gs.board.dv_bank.size(), 24);
    assert_eq!(gs.board.bank.get(Resource::Wheat), 20);
    assert!(!gs.can_buy_dv());
}

#[test]
fn roll_payout_reaches_the_right_players() {
    let mut gs = game_with(vec![
        Player::new(PlayerColor::Red, true),
        Player::new(PlayerColor::Blue, false),
    ]);
    // Red settles a corner of a wood hex numbered three; Blue owns nothing.
    gs.board.place_setup_settlement(CornerCoord { r: 2, q: 2, c: 2 }, PlayerColor::Red);
    gs.give_resources(3);
    // Corner (2,2,2) touches three wood hexes, each numbered three.
    assert_eq!(gs.players[0].get_hand().get(Resource::Wood), 3);
    assert_eq!(gs.players[1].get_hand().size(), 0);
    // A roll matching no hex pays nothing.
    gs.give_resources(11);
    assert_eq!(gs.players[0].get_hand().size(), 3);
}

#[test]
fn empty_board_offers_no_build_sites() {
    let gs = game_with(vec![Player::new(PlayerColor::Red, true)]);
    // With no road anywhere a settlement has nothing to connect to, a road
    // nothing to extend, and a city nothing to upgrade.
    assert!(!gs.board.can_place_any_settlement(PlayerColor::Red));
    assert!(!gs.board.can_place_any_road(PlayerColor::Red));
    assert!(!gs.board.can_place_any_city(PlayerColor::Red));
}
