use vstd::prelude::*;

use crate::player::Player;
use crate::resource::{count_in, covers, covers_in_total, total_cost, Resource};

verus! {

/// The cost of a road: one brick and one wood.
pub open spec fn road_cost() -> Seq<(Resource, u8)> {
    seq![(Resource::Brick, 1u8), (Resource::Wood, 1u8)]
}

/// The cost of a settlement: one each of wheat, brick, wool and wood.
pub open spec fn settlement_cost() -> Seq<(Resource, u8)> {
    seq![(Resource::Wheat, 1u8), (Resource::Brick, 1u8), (Resource::Wool, 1u8), (Resource::Wood, 1u8)]
}

/// The cost of a city: two wheat and three ore.
pub open spec fn city_cost() -> Seq<(Resource, u8)> {
    seq![(Resource::Wheat, 2u8), (Resource::Ore, 3u8)]
}

/// The cost of a development card: one each of wheat, ore and wool.
pub open spec fn development_card_cost() -> Seq<(Resource, u8)> {
    seq![(Resource::Wheat, 1u8), (Resource::Ore, 1u8), (Resource::Wool, 1u8)]
}

/// The cost of an ICBM: two uranium and one wool.
pub open spec fn icbm_cost() -> Seq<(Resource, u8)> {
    seq![(Resource::Uranium, 2u8), (Resource::Wool, 1u8)]
}

/// How many of `r` the player holds.
pub open spec fn holds(player: Player, r: Resource) -> int {
    count_in(player.playerhand.resources@, r)
}

/// Whether the player holds at least the amount of each item of `cost`.
fn has_resources(player: &Player, cost: &[(Resource, u8)]) -> (res: bool)
    ensures
        res == covers(player.playerhand.resources@, cost@),
        res <==> forall|j: int|
            0 <= j < cost@.len() ==> (#[trigger] cost@[j]).1 <= count_in(
                player.playerhand.resources@,
                cost@[j].0,
            ),
{
    let mut i: usize = 0;
    while i < cost.len()
        invariant
            0 <= i <= cost.len(),
            forall|k: int|
                0 <= k < i ==> (#[trigger] cost@[k]).1 <= count_in(
                    player.playerhand.resources@,
                    cost@[k].0,
                ),
        decreases cost.len() - i,
    {
        let (res, amount) = cost[i];
        if player.get_resource_count(res) < amount {
            return false;
        }
        i += 1;
    }
    true
}

pub fn can_afford_road(player: &Player) -> (res: bool)
    ensures
        res == (holds(*player, Resource::Brick) >= 1 && holds(*player, Resource::Wood) >= 1),
        res == covers(player.playerhand.resources@, road_cost()),
{
    let cost = [(Resource::Brick, 1u8), (Resource::Wood, 1u8)];
    assert(cost@ =~= road_cost());
    has_resources(player, &cost)
}

pub fn can_afford_settlement(player: &Player) -> (res: bool)
    ensures
        res == (holds(*player, Resource::Wheat) >= 1 && holds(*player, Resource::Brick) >= 1
            && holds(*player, Resource::Wool) >= 1 && holds(*player, Resource::Wood) >= 1),
        res == covers(player.playerhand.resources@, settlement_cost()),
{
    let cost = [
        (Resource::Wheat, 1u8),
        (Resource::Brick, 1u8),
        (Resource::Wool, 1u8),
        (Resource::Wood, 1u8),
    ];
    assert(cost@ =~= settlement_cost());
    has_resources(player, &cost)
}

pub fn can_afford_city(player: &Player) -> (res: bool)
    ensures
        res == (holds(*player, Resource::Wheat) >= 2 && holds(*player, Resource::Ore) >= 3),
        res == covers(player.playerhand.resources@, city_cost()),
{
    let cost = [(Resource::Wheat, 2u8), (Resource::Ore, 3u8)];
    assert(cost@ =~= city_cost());
    has_resources(player, &cost)
}

pub fn can_afford_development_card(player: &Player) -> (res: bool)
    ensures
        res == (holds(*player, Resource::Wheat) >= 1 && holds(*player, Resource::Ore) >= 1
            && holds(*player, Resource::Wool) >= 1),
        res == covers(player.playerhand.resources@, development_card_cost()),
{
    let cost = [(Resource::Wheat, 1u8), (Resource::Ore, 1u8), (Resource::Wool, 1u8)];
    assert(cost@ =~= development_card_cost());
    has_resources(player, &cost)
}

pub fn can_afford_icbm(player: &Player) -> (res: bool)
    ensures
        res == (holds(*player, Resource::Uranium) >= 2 && holds(*player, Resource::Wool) >= 1),
        res == covers(player.playerhand.resources@, icbm_cost()),
{
    let cost = [(Resource::Uranium, 2u8), (Resource::Wool, 1u8)];
    assert(cost@ =~= icbm_cost());
    has_resources(player, &cost)
}

/// No resource occurs in two items of `cost`.
pub open spec fn lists_each_resource_once(cost: Seq<(Resource, u8)>) -> bool {
    forall|i: int, j: int| 0 <= i < j < cost.len() ==> cost[i].0 != cost[j].0
}

proof fn lemma_total_cost_absent(cost: Seq<(Resource, u8)>, r: Resource)
    requires
        forall|i: int| 0 <= i < cost.len() ==> cost[i].0 != r,
    ensures
        total_cost(cost, r) == 0,
    decreases cost.len(),
{
    if cost.len() > 0 {
        let d = cost.drop_last();
        assert(forall|i: int| 0 <= i < d.len() ==> d[i] == cost[i]);
        lemma_total_cost_absent(d, r);
    }
}

/// When a cost lists each resource once, covering each item covers the whole
/// cost: `spend_resources` then accepts the cost for any player.
pub proof fn lemma_single_listing_covered_in_total(m: Map<u8, u8>, cost: Seq<(Resource, u8)>)
    requires
        lists_each_resource_once(cost),
        covers(m, cost),
    ensures
        covers_in_total(m, cost),
    decreases cost.len(),
{
    if cost.len() > 0 {
        let d = cost.drop_last();
        assert(forall|i: int| 0 <= i < d.len() ==> d[i] == cost[i]);
        assert(lists_each_resource_once(d));
        assert(covers(m, d)) by {
            assert forall|i: int| 0 <= i < d.len() implies (#[trigger] d[i]).1 <= count_in(
                m,
                d[i].0,
            ) by {
                assert(d[i] == cost[i]);
            }
        }
        lemma_single_listing_covered_in_total(m, d);
        let last = cost.last();
        assert(last == cost[cost.len() - 1]);
        lemma_total_cost_absent(d, last.0);
        assert forall|r: Resource| #[trigger] total_cost(cost, r) <= count_in(m, r) by {
            assert(total_cost(d, r) <= count_in(m, r));
        }
    }
}

/// Every building cost lists each resource once, so for each of them
/// `spend_resources` accepts any player, and (by its contract and that of the
/// matching `can_afford_*`) succeeds exactly when `can_afford_*` says yes.
pub proof fn lemma_building_costs_payable_when_affordable(m: Map<u8, u8>)
    ensures
        covers(m, road_cost()) ==> covers_in_total(m, road_cost()),
        covers(m, settlement_cost()) ==> covers_in_total(m, settlement_cost()),
        covers(m, city_cost()) ==> covers_in_total(m, city_cost()),
        covers(m, development_card_cost()) ==> covers_in_total(m, development_card_cost()),
        covers(m, icbm_cost()) ==> covers_in_total(m, icbm_cost()),
{
    assert(lists_each_resource_once(road_cost()));
    assert(lists_each_resource_once(settlement_cost()));
    assert(lists_each_resource_once(city_cost()));
    assert(lists_each_resource_once(development_card_cost()));
    assert(lists_each_resource_once(icbm_cost()));
    if covers(m, road_cost()) {
        lemma_single_listing_covered_in_total(m, road_cost());
    }
    if covers(m, settlement_cost()) {
        lemma_single_listing_covered_in_total(m, settlement_cost());
    }
    if covers(m, city_cost()) {
        lemma_single_listing_covered_in_total(m, city_cost());
    }
    if covers(m, development_card_cost()) {
        lemma_single_listing_covered_in_total(m, development_card_cost());
    }
    if covers(m, icbm_cost()) {
        lemma_single_listing_covered_in_total(m, icbm_cost());
    }
}

} // verus!
