use catan_core::hands::{
    city_cost, dv_card_cost, road_cost, settlement_cost, starting_bank, starting_dv_bank, DVCard,
    DVHand, ResHand, Resource,
};

#[test]
fn new_hand_is_empty() {
    let h = ResHand::new();
    assert_eq!(h.size(), 0);
    assert_eq!(h.count_nonzero(), 0);
    assert_eq!(h.nth_nonzero(0), None);
}

#[test]
fn add_and_discard_roundtrip() {
    let mut h = ResHand::new();
    h.add_card(Resource::Wood);
    h.add_card(Resource::Wood);
    h.add_card(Resource::Ore);
    assert_eq!(h.size(), 3);
    assert_eq!(h.get(Resource::Wood), 2);
    assert_eq!(h.get(Resource::Ore), 1);
    assert_eq!(h.count_nonzero(), 2);
    assert_eq!(h.nth_nonzero(0), Some(Resource::Wood));
    assert_eq!(h.nth_nonzero(1), Some(Resource::Ore));
    let mut cost = ResHand::new();
    cost.add_card(Resource::Wood);
    assert!(h.can_discard(cost));
    h.discard(cost);
    assert_eq!(h.get(Resource::Wood), 1);
    assert_eq!(h.size(), 2);
}

#[test]
fn can_discard_fails_on_shortage() {
    let mut h = ResHand::new();
    h.add_card(Resource::Brick);
    let mut want = ResHand::new();
    want.add_card(Resource::Brick);
    want.add_card(Resource::Brick);
    assert!(!h.can_discard(want));
}

#[test]
fn discard_max_clamps_at_zero() {
    let mut h = ResHand::from_monopoly(Resource::Sheep, 1);
    h.add_card(Resource::Wood);
    let mut lose = ResHand::from_monopoly(Resource::Sheep, 3);
    lose.add_card(Resource::Wood);
    h.discard_max(lose);
    assert_eq!(h.get(Resource::Sheep), 0);
    assert_eq!(h.get(Resource::Wood), 0);
}

#[test]
fn discard_at_walks_slot_order() {
    let mut h = ResHand::new();
    h.add_card(Resource::Brick);
    h.add_card(Resource::Wheat);
    h.add_card(Resource::Wheat);
    // Laid out in slot order the cards are: brick, wheat, wheat.
    assert_eq!(h.discard_at(0), Resource::Brick);
    assert_eq!(h.discard_at(1), Resource::Wheat);
    assert_eq!(h.size(), 1);
}

#[test]
fn from_monopoly_holds_one_kind() {
    let h = ResHand::from_monopoly(Resource::Wheat, 7);
    assert_eq!(h.get(Resource::Wheat), 7);
    assert_eq!(h.size(), 7);
    assert_eq!(h.count_nonzero(), 1);
}

#[test]
fn dv_hand_counting() {
    let mut h = DVHand::new();
    h.add_card(DVCard::Knight);
    h.add_card(DVCard::Knight);
    h.add_card(DVCard::Monopoly);
    assert_eq!(h.size(), 3);
    assert!(h.can_discard_card(DVCard::Knight));
    assert!(!h.can_discard_card(DVCard::VictoryPoint));
    h.discard_card(DVCard::Knight);
    assert_eq!(h.get(DVCard::Knight), 1);
    assert_eq!(h.nth_nonzero(1), Some(DVCard::Monopoly));
}

#[test]
fn dv_labels() {
    assert_eq!(DVCard::Knight.into_label(), "KN");
    assert_eq!(DVCard::RoadBuilding.into_label(), "RB");
    assert_eq!(DVCard::YearOfPlenty.into_label(), "YP");
    assert_eq!(DVCard::Monopoly.into_label(), "MN");
    assert_eq!(DVCard::VictoryPoint.into_label(), "VP");
}

#[test]
fn fixed_costs() {
    assert_eq!(road_cost().size(), 2);
    assert_eq!(road_cost().get(Resource::Wood), 1);
    assert_eq!(road_cost().get(Resource::Brick), 1);
    assert_eq!(settlement_cost().size(), 4);
    assert_eq!(settlement_cost().get(Resource::Ore), 0);
    assert_eq!(city_cost().get(Resource::Wheat), 2);
    assert_eq!(city_cost().get(Resource::Ore), 3);
    assert_eq!(dv_card_cost().size(), 3);
    assert_eq!(starting_bank().get(Resource::Sheep), 19);
    let dv = starting_dv_bank();
    assert_eq!(dv.size(), 25);
    assert_eq!(dv.get(DVCard::Knight), 14);
    assert_eq!(dv.get(DVCard::VictoryPoint), 5);
}
