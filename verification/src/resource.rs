use vstd::prelude::*;

use crate::player::Player;

verus! {

/// The kinds of resource a player can hold.
#[derive(Clone, Copy, PartialEq, Eq, Structural, Hash, Debug)]
pub enum Resource {
    Brick,
    Wood,
    Wool,
    Wheat,
    Ore,
    Uranium,
}

impl Resource {
    /// The key under which counts of this resource are stored.
    pub open spec fn spec_key(self) -> u8 {
        match self {
            Resource::Brick => 0,
            Resource::Wood => 1,
            Resource::Wool => 2,
            Resource::Wheat => 3,
            Resource::Ore => 4,
            Resource::Uranium => 5,
        }
    }

    /// The key under which counts of this resource are stored.
    #[verifier::when_used_as_spec(spec_key)]
    pub fn key(self) -> (k: u8)
        ensures
            k == self.spec_key(),
    {
        match self {
            Resource::Brick => 0,
            Resource::Wood => 1,
            Resource::Wool => 2,
            Resource::Wheat => 3,
            Resource::Ore => 4,
            Resource::Uranium => 5,
        }
    }
}

/// The count of `r` in a map of counts keyed by `Resource::key`; an absent key means none.
pub open spec fn count_in(m: Map<u8, u8>, r: Resource) -> int {
    if m.contains_key(r.spec_key()) {
        m[r.spec_key()] as int
    } else {
        0
    }
}

/// Every item of `cost` asks for no more of its resource than `m` holds.
pub open spec fn covers(m: Map<u8, u8>, cost: Seq<(Resource, u8)>) -> bool {
    forall|i: int| 0 <= i < cost.len() ==> (#[trigger] cost[i]).1 <= count_in(m, cost[i].0)
}

/// Distinct resources are stored under distinct keys, and the count of a
/// resource is the value stored under its key, or none when the key is absent.
pub proof fn lemma_count_in_reads_the_key(m: Map<u8, u8>, r: Resource, s: Resource)
    ensures
        r != s ==> r.spec_key() != s.spec_key(),
        m.contains_key(r.spec_key()) ==> count_in(m, r) == m[r.spec_key()] as int,
        !m.contains_key(r.spec_key()) ==> count_in(m, r) == 0,
{
}

/// `m` covers `cost` exactly when no item asks for more of its resource than
/// `m` holds.
pub proof fn lemma_covers_iff_each_item_held(m: Map<u8, u8>, cost: Seq<(Resource, u8)>)
    ensures
        covers(m, cost) <==> !exists|j: int|
            0 <= j < cost.len() && count_in(m, (#[trigger] cost[j]).0) < cost[j].1,
{
}

/// The total amount of `r` that the items of `cost` ask for.
pub open spec fn total_cost(cost: Seq<(Resource, u8)>, r: Resource) -> int
    decreases cost.len(),
{
    if cost.len() == 0 {
        0
    } else {
        total_cost(cost.drop_last(), r) + if cost.last().0 == r {
            cost.last().1 as int
        } else {
            0
        }
    }
}

/// The counts after paying the items of `cost` one after the other.
pub open spec fn paid(m: Map<u8, u8>, cost: Seq<(Resource, u8)>) -> Map<u8, u8>
    decreases cost.len(),
{
    if cost.len() == 0 {
        m
    } else {
        let before = paid(m, cost.drop_last());
        let (res, amt) = cost.last();
        before.insert(res.spec_key(), (count_in(before, res) - amt) as u8)
    }
}

/// Totals add up over concatenated costs, a single item asks for its amount
/// of its own resource and for none of any other.
pub proof fn lemma_total_cost_laws(a: Seq<(Resource, u8)>, b: Seq<(Resource, u8)>, r: Resource)
    ensures
        total_cost(a + b, r) == total_cost(a, r) + total_cost(b, r),
        forall|x: Resource, amt: u8|
            #[trigger] total_cost(seq![(x, amt)], r) == if x == r {
                amt as int
            } else {
                0
            },
    decreases b.len(),
{
    assert forall|x: Resource, amt: u8|
        #[trigger] total_cost(seq![(x, amt)], r) == if x == r {
            amt as int
        } else {
            0
        } by {
        let one = seq![(x, amt)];
        assert(one.drop_last() =~= Seq::<(Resource, u8)>::empty());
        assert(total_cost(one.drop_last(), r) == 0);
        assert(one.last() == (x, amt));
    }
    if b.len() == 0 {
        assert(a + b =~= a);
    } else {
        lemma_total_cost_laws(a, b.drop_last(), r);
        assert((a + b).drop_last() =~= a + b.drop_last());
        assert((a + b).last() == b.last());
    }
}

/// No resource is asked for in total more than `m` holds.
pub open spec fn covers_in_total(m: Map<u8, u8>, cost: Seq<(Resource, u8)>) -> bool {
    forall|r: Resource| #[trigger] total_cost(cost, r) <= count_in(m, r)
}

proof fn lemma_total_cost_prefix(cost: Seq<(Resource, u8)>, k: int, r: Resource)
    requires
        0 <= k <= cost.len(),
    ensures
        0 <= total_cost(cost.take(k), r) <= total_cost(cost, r),
    decreases cost.len(),
{
    if k < cost.len() {
        assert(cost.drop_last().take(k) =~= cost.take(k));
        lemma_total_cost_prefix(cost.drop_last(), k, r);
    } else {
        assert(cost.take(k) =~= cost);
        lemma_total_cost_nonneg(cost, r);
    }
}

proof fn lemma_total_cost_nonneg(cost: Seq<(Resource, u8)>, r: Resource)
    ensures
        0 <= total_cost(cost, r),
    decreases cost.len(),
{
    if cost.len() > 0 {
        lemma_total_cost_nonneg(cost.drop_last(), r);
    }
}

/// Paying a cost that is covered in total lowers each count by exactly what
/// the cost asks for of that resource.
pub proof fn lemma_paid_counts(m: Map<u8, u8>, cost: Seq<(Resource, u8)>)
    requires
        covers_in_total(m, cost),
    ensures
        forall|r: Resource|
            #[trigger] count_in(paid(m, cost), r) == count_in(m, r) - total_cost(cost, r),
    decreases cost.len(),
{
    if cost.len() > 0 {
        let d = cost.drop_last();
        assert forall|r: Resource| #[trigger] total_cost(d, r) <= count_in(m, r) by {
            lemma_total_cost_prefix(cost, cost.len() - 1, r);
            assert(cost.take(cost.len() - 1) =~= d);
        }
        lemma_paid_counts(m, d);
        let (res, amt) = cost.last();
        assert(total_cost(cost, res) <= count_in(m, res));
        lemma_total_cost_nonneg(d, res);
        assert forall|r: Resource|
            #[trigger] count_in(paid(m, cost), r) == count_in(m, r) - total_cost(cost, r) by {
            let before = paid(m, d);
            assert(paid(m, cost) == before.insert(
                res.spec_key(),
                (count_in(before, res) - amt) as u8,
            ));
            assert(total_cost(cost, r) == total_cost(d, r) + if res == r {
                amt as int
            } else {
                0
            });
            assert(count_in(before, r) == count_in(m, r) - total_cost(d, r));
            assert(count_in(before, res) == count_in(m, res) - total_cost(d, res));
            if r != res {
                assert(r.spec_key() != res.spec_key());
                assert(count_in(paid(m, cost), r) == count_in(before, r));
            } else {
                let v = count_in(before, res) - amt;
                assert(0 <= v <= 255);
                assert(paid(m, cost)[res.spec_key()] == v as u8);
                assert(count_in(paid(m, cost), r) == v);
            }
        }
    }
}

/// Takes the resources that `cost` lists from the player's hand. Fails,
/// leaving the player unchanged, when some item asks for more of its
/// resource than the player holds.
pub fn spend_resources(player: &mut Player, cost: &[(Resource, u8)]) -> (res: Result<(), String>)
    requires
        covers(old(player).playerhand.resources@, cost@) ==> covers_in_total(
            old(player).playerhand.resources@,
            cost@,
        ),
    ensures
        match res {
            Err(e) => !covers(old(player).playerhand.resources@, cost@) && *final(player)
                == *old(player) && e@ == "Not enough resources"@,
            Ok(()) => covers(old(player).playerhand.resources@, cost@)
                && final(player).playerhand.resources@ == paid(
                old(player).playerhand.resources@,
                cost@,
            ) && final(player).same_but_resources(*old(player)),
        },
        res is Err <==> exists|j: int|
            0 <= j < cost@.len() && count_in(old(player).playerhand.resources@, (#[trigger] cost@[j]).0)
                < cost@[j].1,
        res is Ok ==> forall|r: Resource|
            #[trigger] count_in(final(player).playerhand.resources@, r) == count_in(
                old(player).playerhand.resources@,
                r,
            ) - total_cost(cost@, r),
{
    let ghost m = player.playerhand.resources@;
    let mut i: usize = 0;
    while i < cost.len()
        invariant
            0 <= i <= cost.len(),
            m == player.playerhand.resources@,
            forall|k: int| 0 <= k < i ==> (#[trigger] cost@[k]).1 <= count_in(m, cost@[k].0),
        decreases cost.len() - i,
    {
        let (res, amt) = cost[i];
        if player.get_resource_count(res) < amt {
            proof {
                lemma_covers_iff_each_item_held(m, cost@);
            }
            return Err("Not enough resources".to_owned());
        }
        i += 1;
    }
    proof {
        lemma_covers_iff_each_item_held(m, cost@);
        lemma_paid_counts(m, cost@);
    }
    let ghost start = *player;
    let mut j: usize = 0;
    while j < cost.len()
        invariant
            0 <= j <= cost.len(),
            covers_in_total(m, cost@),
            m == start.playerhand.resources@,
            player.playerhand.resources@ == paid(m, cost@.take(j as int)),
            player.same_but_resources(start),
        decreases cost.len() - j,
    {
        let (res, amt) = cost[j];
        assert(cost@.take(j + 1).drop_last() =~= cost@.take(j as int));
        assert(cost@.take(j + 1).last() == cost@[j as int]);
        proof {
            lemma_total_cost_prefix(cost@, j + 1, res);
            assert forall|r: Resource| #[trigger] total_cost(cost@.take(j as int), r) <= count_in(m, r) by {
                lemma_total_cost_prefix(cost@, j as int, r);
            }
            lemma_paid_counts(m, cost@.take(j as int));
        }
        let key = res.key();
        let current = player.get_resource_count(res);
        player.playerhand.resources.insert(key, current - amt);
        j += 1;
    }
    assert(cost@.take(j as int) =~= cost@);
    Ok(())
}

} // verus!
