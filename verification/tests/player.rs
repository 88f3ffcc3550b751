use std::collections::HashMap;

use uuid::Uuid;

use catan::player::{Player, PlayerColor, PlayerHand};
use catan::resource::{spend_resources, Resource};
use catan::rules::{
    can_afford_city, can_afford_development_card, can_afford_icbm, can_afford_road,
    can_afford_settlement,
};

fn player_with(resources: HashMap<u8, u8>) -> Player {
    let mut hand = PlayerHand::new();
    hand.resources = resources;
    Player {
        id: Uuid::new_v4(),
        name: "player".to_string(),
        color: PlayerColor::Red,
        playerhand: hand,
    }
}

#[test]
fn can_afford() {
    let default_resources: HashMap<u8, u8> = HashMap::from([
        (Resource::Brick.key(), 2),
        (Resource::Ore.key(), 3),
        (Resource::Uranium.key(), 2),
        (Resource::Wheat.key(), 2),
        (Resource::Wood.key(), 0),
        (Resource::Wool.key(), 2),
    ]);

    let test_hand = PlayerHand {
        resources: default_resources,
        road_pieces: 4,
        settlement_pieces: 2,
        city_pieces: 0,
        development_cards: Vec::new(),
        icbm_pieces: 1,
    };

    let player1 = Player {
        id: Uuid::new_v4(),
        name: "player 1".to_string(),
        color: PlayerColor::Blue,
        playerhand: test_hand.clone(),
    };

    assert!(!can_afford_road(&player1));
    assert!(can_afford_city(&player1));
    assert!(can_afford_icbm(&player1));
    assert!(can_afford_development_card(&player1));
}

#[test]
fn starting_hand() {
    let hand = PlayerHand::new();
    assert!(hand.resources.is_empty());
    assert_eq!(hand.road_pieces, 4);
    assert_eq!(hand.settlement_pieces, 2);
    assert_eq!(hand.city_pieces, 0);
    assert!(hand.development_cards.is_empty());
    assert_eq!(hand.icbm_pieces, 1);
}

#[test]
fn resource_keys_are_distinct() {
    let keys = [
        Resource::Brick.key(),
        Resource::Wood.key(),
        Resource::Wool.key(),
        Resource::Wheat.key(),
        Resource::Ore.key(),
        Resource::Uranium.key(),
    ];
    assert_eq!(keys, [0, 1, 2, 3, 4, 5]);
}

#[test]
fn missing_resource_counts_as_none() {
    let p = player_with(HashMap::from([(Resource::Ore.key(), 7)]));
    assert_eq!(p.get_resource_count(Resource::Ore), 7);
    assert_eq!(p.get_resource_count(Resource::Wool), 0);
}

#[test]
fn affordability_thresholds() {
    let road = player_with(HashMap::from([(Resource::Brick.key(), 1), (Resource::Wood.key(), 1)]));
    assert!(can_afford_road(&road));
    assert!(!can_afford_settlement(&road));
    let settlement = player_with(HashMap::from([
        (Resource::Wheat.key(), 1),
        (Resource::Brick.key(), 1),
        (Resource::Wool.key(), 1),
        (Resource::Wood.key(), 1),
    ]));
    assert!(can_afford_settlement(&settlement));
    assert!(can_afford_road(&settlement));
    assert!(!can_afford_development_card(&settlement));
    let almost_city = player_with(HashMap::from([(Resource::Wheat.key(), 2), (Resource::Ore.key(), 2)]));
    assert!(!can_afford_city(&almost_city));
    let almost_icbm = player_with(HashMap::from([(Resource::Uranium.key(), 1), (Resource::Wool.key(), 5)]));
    assert!(!can_afford_icbm(&almost_icbm));
}

#[test]
fn spend_takes_exactly_the_cost() {
    let mut p = player_with(HashMap::from([
        (Resource::Brick.key(), 2),
        (Resource::Wood.key(), 1),
        (Resource::Ore.key(), 4),
    ]));
    let res = spend_resources(&mut p, &[(Resource::Brick, 1), (Resource::Wood, 1)]);
    assert_eq!(res, Ok(()));
    assert_eq!(p.get_resource_count(Resource::Brick), 1);
    assert_eq!(p.get_resource_count(Resource::Wood), 0);
    assert_eq!(p.get_resource_count(Resource::Ore), 4);
    assert!(!can_afford_road(&p));
    // The same resource listed twice is paid twice.
    let res = spend_resources(&mut p, &[(Resource::Ore, 1), (Resource::Ore, 2)]);
    assert_eq!(res, Ok(()));
    assert_eq!(p.get_resource_count(Resource::Ore), 1);
}

#[test]
fn spend_refuses_and_leaves_hand_unchanged() {
    let mut p = player_with(HashMap::from([(Resource::Brick.key(), 2)]));
    let res = spend_resources(&mut p, &[(Resource::Brick, 1), (Resource::Wood, 1)]);
    assert_eq!(res, Err("Not enough resources".to_string()));
    assert_eq!(p.playerhand.resources, HashMap::from([(Resource::Brick.key(), 2)]));
}

#[test]
fn spend_of_nothing_records_an_empty_entry() {
    let mut p = player_with(HashMap::new());
    let res = spend_resources(&mut p, &[(Resource::Wool, 0)]);
    assert_eq!(res, Ok(()));
    assert_eq!(p.playerhand.resources, HashMap::from([(Resource::Wool.key(), 0)]));
}

#[test]
fn affordable_exactly_when_spend_succeeds() {
    for bricks in 0..3u8 {
        for wood in 0..3u8 {
            let mut p = player_with(HashMap::from([
                (Resource::Brick.key(), bricks),
                (Resource::Wood.key(), wood),
            ]));
            let affordable = can_afford_road(&p);
            let spent = spend_resources(&mut p, &[(Resource::Brick, 1), (Resource::Wood, 1)]);
            assert_eq!(affordable, spent.is_ok());
        }
    }
}
