use catan_core::board::PlayerColor;
use catan_core::hands::{DVCard, DVHand, ResHand, Resource};
use catan_core::player::Player;

#[test]
fn fresh_player_state() {
    let p = Player::new(PlayerColor::Orange, false);
    assert_eq!(p.get_color(), PlayerColor::Orange);
    assert_eq!(p.get_vps(), 0);
    assert!(!p.has_won());
    assert_eq!(p.get_hand().size(), 0);
    assert_eq!(p.get_knights(), 0);
    assert_eq!(p.road_pool, 15);
    assert_eq!(p.settlement_pool, 5);
    assert_eq!(p.city_pool, 4);
    assert!(!p.must_discard());
}

#[test]
fn victory_points_add_up() {
    let mut p = Player::new(PlayerColor::Red, true);
    p.base_vps = 5;
    p.dvs.add_card(DVCard::VictoryPoint);
    p.set_largest_army(true);
    p.set_longest_road(true);
    assert_eq!(p.get_vps(), 10);
    assert!(p.has_won());
    p.set_largest_army(false);
    assert_eq!(p.get_vps(), 8);
    assert!(!p.has_won());
}

#[test]
fn must_discard_above_seven() {
    let mut p = Player::new(PlayerColor::Red, true);
    p.get_cards(ResHand::from_monopoly(Resource::Wood, 7));
    assert!(!p.must_discard());
    p.get_card(Resource::Brick);
    assert!(p.must_discard());
}

#[test]
fn building_checks_cost_and_pool() {
    let mut p = Player::new(PlayerColor::Red, true);
    assert!(!p.can_build_road());
    p.get_cards(ResHand::from_monopoly(Resource::Wood, 1));
    p.get_cards(ResHand::from_monopoly(Resource::Brick, 1));
    assert!(p.can_build_road());
    p.build_road();
    assert_eq!(p.road_pool, 14);
    assert_eq!(p.get_hand().size(), 0);
    assert!(!p.can_build_road());
    p.get_cards(ResHand::from_monopoly(Resource::Wood, 1));
    p.get_cards(ResHand::from_monopoly(Resource::Brick, 1));
    p.road_pool = 0;
    assert!(!p.can_build_road());
}

#[test]
fn buying_and_cycling_development_cards() {
    let mut p = Player::new(PlayerColor::Red, true);
    p.get_cards(ResHand::from_monopoly(Resource::Wheat, 1));
    p.get_cards(ResHand::from_monopoly(Resource::Sheep, 1));
    p.get_cards(ResHand::from_monopoly(Resource::Ore, 1));
    assert!(p.can_buy_dv());
    p.buy_dv(DVCard::Knight);
    assert_eq!(p.get_new_dvs().get(DVCard::Knight), 1);
    assert_eq!(p.get_dvs().get(DVCard::Knight), 0);
    assert_eq!(p.get_combined_dvs().get(DVCard::Knight), 1);
    p.cycle_dvs();
    assert_eq!(p.get_dvs().get(DVCard::Knight), 1);
    assert_eq!(p.get_new_dvs().size(), 0);
    p.play_dv_card(DVCard::Knight);
    assert_eq!(p.get_knights(), 1);
    assert_eq!(p.get_dvs().get(DVCard::Knight), 0);
}

#[test]
fn city_upgrade_returns_the_settlement_piece() {
    let mut p = Player::new(PlayerColor::Red, true);
    p.get_cards(ResHand::from_monopoly(Resource::Wheat, 2));
    p.get_cards(ResHand::from_monopoly(Resource::Ore, 3));
    assert!(p.can_build_city());
    p.settlement_pool = 4;
    p.build_city();
    assert_eq!(p.city_pool, 3);
    assert_eq!(p.settlement_pool, 5);
    assert_eq!(p.base_vps, 1);
}

#[test]
fn random_discards_come_from_the_hand() {
    let mut h = ResHand::from_monopoly(Resource::Sheep, 2);
    h.add_card(Resource::Ore);
    let mut seen_total = h.size();
    while seen_total > 0 {
        let got = h.discard_random().expect("hand is not empty");
        assert!(got == Resource::Sheep || got == Resource::Ore);
        seen_total -= 1;
        assert_eq!(h.size(), seen_total);
    }
    assert_eq!(h.discard_random(), None);

    let mut d = DVHand::new();
    d.add_card(DVCard::Monopoly);
    assert_eq!(d.discard_random(), Some(DVCard::Monopoly));
    assert_eq!(d.discard_random(), None);
}

#[test]
fn player_random_discard_feeds_the_thief() {
    let mut p = Player::new(PlayerColor::Blue, false);
    p.get_cards(ResHand::from_monopoly(Resource::Brick, 3));
    let got = p.discard_random_card();
    assert_eq!(got, Some(Resource::Brick));
    assert_eq!(p.get_hand().size(), 2);
}
