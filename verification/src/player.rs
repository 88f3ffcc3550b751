use vstd::prelude::*;

use std::collections::HashMap;
use uuid::Uuid;

use crate::development_card::DevelopmentCard;
use crate::resource::{count_in, Resource};

verus! {

broadcast use vstd::std_specs::hash::group_hash_axioms;

#[verifier::external_type_specification]
#[verifier::external_body]
pub struct ExUuid(Uuid);

/// A player: identity, name, colour, and the hand they hold.
pub struct Player {
    pub id: Uuid,
    pub name: String,
    pub color: PlayerColor,
    pub playerhand: PlayerHand,
}

/// What a player holds. `resources` maps the key of a resource
/// (`Resource::key`) to the count held; an absent key means none.
#[derive(Clone)]
pub struct PlayerHand {
    pub resources: HashMap<u8, u8>,
    pub road_pieces: u8,
    pub settlement_pieces: u8,
    pub city_pieces: u8,
    pub development_cards: Vec<DevelopmentCard>,
    pub icbm_pieces: u8,
}

/// The colours a player can take.
#[derive(Clone, Copy, Debug, PartialEq, Eq, Structural)]
pub enum PlayerColor {
    Red,
    Blue,
    Orange,
    White,
}

impl Player {
    /// `self` and `other` agree on everything but the resource counts.
    pub open spec fn same_but_resources(self, other: Player) -> bool {
        &&& self.id == other.id
        &&& self.name@ == other.name@
        &&& self.color == other.color
        &&& self.playerhand.road_pieces == other.playerhand.road_pieces
        &&& self.playerhand.settlement_pieces == other.playerhand.settlement_pieces
        &&& self.playerhand.city_pieces == other.playerhand.city_pieces
        &&& self.playerhand.development_cards@ == other.playerhand.development_cards@
        &&& self.playerhand.icbm_pieces == other.playerhand.icbm_pieces
    }

    /// How many of `resource` the player holds; none when the hand has no entry for it.
    pub fn get_resource_count(&self, resource: Resource) -> (n: u8)
        ensures
            n == count_in(self.playerhand.resources@, resource),
    {
        let resource_count = self.playerhand.resources.get(&resource.key());
        match resource_count {
            Some(n) => *n,
            None => 0,
        }
    }
}

impl PlayerHand {
    /// The starting hand: no resources or cards, four roads, two
    /// settlements, no city and one ICBM.
    pub fn new() -> (hand: Self)
        ensures
            hand.resources@ == Map::<u8, u8>::empty(),
            hand.road_pieces == 4,
            hand.settlement_pieces == 2,
            hand.city_pieces == 0,
            hand.development_cards@ == Seq::<DevelopmentCard>::empty(),
            hand.icbm_pieces == 1,
    {
        PlayerHand {
            resources: HashMap::new(),
            road_pieces: 4,
            settlement_pieces: 2,
            city_pieces: 0,
            development_cards: Vec::new(),
            icbm_pieces: 1,
        }
    }
}

} // verus!
