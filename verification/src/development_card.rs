use vstd::multiset::Multiset;
use vstd::prelude::*;

use rand::rngs::StdRng;
use rand::seq::SliceRandom;
use rand::SeedableRng;

verus! {

broadcast use vstd::seq_lib::group_to_multiset_ensures;

#[verifier::external_type_specification]
#[verifier::external_body]
pub struct ExStdRng(StdRng);

/// The development cards, standard and custom.
#[derive(Clone, Copy, PartialEq, Eq, Structural, Debug)]
pub enum DevelopmentCard {
    Monopoly,
    RoadBuilding,
    VictoryPoint,
    Knight,
    YearOfPlenty,
    TowerOfBabel,
    Spy,
    KingArthur,
    UssIowa,
}

/// How many copies of each card a fresh deck holds.
pub open spec fn standard_count(card: DevelopmentCard) -> nat {
    match card {
        DevelopmentCard::Knight => 14,
        DevelopmentCard::VictoryPoint => 5,
        DevelopmentCard::RoadBuilding => 2,
        DevelopmentCard::YearOfPlenty => 2,
        DevelopmentCard::Monopoly => 2,
        DevelopmentCard::TowerOfBabel => 2,
        DevelopmentCard::Spy => 2,
        DevelopmentCard::KingArthur => 1,
        DevelopmentCard::UssIowa => 1,
    }
}

/// The number of cards in a fresh deck.
pub open spec fn standard_deck_size() -> nat {
    31
}

/// `rest` is what remains of `start` after the cards `drawn` were drawn one at
/// a time from the top, the first drawn first.
pub open spec fn drawn_down(
    start: Seq<DevelopmentCard>,
    drawn: Seq<DevelopmentCard>,
    rest: Seq<DevelopmentCard>,
) -> bool {
    start == rest + drawn.reverse()
}

/// One more draw, as `DevDeck::draw` describes it, extends the record of
/// what was drawn.
pub proof fn lemma_draw_extends(
    start: Seq<DevelopmentCard>,
    drawn: Seq<DevelopmentCard>,
    before: Seq<DevelopmentCard>,
    card: DevelopmentCard,
)
    requires
        drawn_down(start, drawn, before),
        before.len() > 0,
        card == before.last(),
    ensures
        drawn_down(start, drawn.push(card), before.drop_last()),
{
    assert(drawn.push(card).reverse() =~= seq![card] + drawn.reverse());
    assert(before.drop_last() + (seq![card] + drawn.reverse()) =~= before + drawn.reverse());
}

/// Drawing neither creates nor loses cards: the cards drawn and the cards
/// left together are the cards the deck started with.
pub proof fn lemma_drawn_and_left(
    start: Seq<DevelopmentCard>,
    drawn: Seq<DevelopmentCard>,
    rest: Seq<DevelopmentCard>,
)
    requires
        drawn_down(start, drawn, rest),
    ensures
        rest.len() + drawn.len() == start.len(),
        forall|c: DevelopmentCard|
            #![trigger start.to_multiset().count(c)]
            drawn.to_multiset().count(c) + rest.to_multiset().count(c) == start.to_multiset().count(
                c,
            ),
    decreases drawn.len(),
{
    if drawn.len() == 0 {
        assert(drawn.to_multiset() =~= Multiset::empty());
        assert(rest + drawn.reverse() =~= rest);
    } else {
        let d = drawn.drop_last();
        let c = drawn.last();
        assert(d.push(c) =~= drawn);
        assert(drawn.reverse() =~= seq![c] + d.reverse());
        assert(rest + (seq![c] + d.reverse()) =~= rest.push(c) + d.reverse());
        lemma_drawn_and_left(start, d, rest.push(c));
        assert(drawn.to_multiset() == d.to_multiset().insert(c));
        assert(rest.push(c).to_multiset() == rest.to_multiset().insert(c));
    }
}

/// Drawing `drawn` from a fresh deck leaves `31 - drawn.len()` cards, a
/// further draw finds a card exactly when fewer than 31 were drawn, and the
/// cards drawn and left hold each card exactly as often as a fresh deck does.
pub proof fn lemma_draws_from_fresh_deck(
    start: Seq<DevelopmentCard>,
    drawn: Seq<DevelopmentCard>,
    rest: Seq<DevelopmentCard>,
)
    requires
        start.len() == standard_deck_size(),
        forall|c: DevelopmentCard| #[trigger] start.to_multiset().count(c) == standard_count(c),
        drawn_down(start, drawn, rest),
    ensures
        drawn.len() <= standard_deck_size(),
        rest.len() == standard_deck_size() - drawn.len(),
        rest.len() > 0 <==> drawn.len() < standard_deck_size(),
        forall|c: DevelopmentCard|
            #![trigger rest.to_multiset().count(c)]
            drawn.to_multiset().count(c) + rest.to_multiset().count(c) == standard_count(c),
{
    lemma_drawn_and_left(start, drawn, rest);
    assert forall|c: DevelopmentCard|
        #![trigger rest.to_multiset().count(c)]
        drawn.to_multiset().count(c) + rest.to_multiset().count(c) == standard_count(c) by {
        assert(start.to_multiset().count(c) == standard_count(c));
    }
}

/// `SeedableRng::try_from_os_rng` for `StdRng`: a generator seeded from the
/// operating system's random source, or `None` when that source fails (the
/// source returns the failure as an error instead of panicking). Which
/// generator comes back, and whether one does, is left unsaid: both depend on
/// the machine.
#[verifier::external_body]
fn seeded_rng() -> Option<StdRng> {
    StdRng::try_from_os_rng().ok()
}

/// `SliceRandom::shuffle` with a `StdRng`: puts the cards in a random order.
/// Its source only swaps elements, so the claim is that the same cards, with
/// the same multiplicities, come out; which order comes out is left unsaid.
/// `StdRng` never reseeds, so the shuffle draws no further randomness from
/// the operating system.
#[verifier::external_body]
fn shuffle_cards(cards: &mut Vec<DevelopmentCard>, rng: &mut StdRng)
    ensures
        final(cards)@.to_multiset() == old(cards)@.to_multiset(),
{
    cards.shuffle(rng);
}

/// Appends `n` copies of `card`.
fn add_copies(cards: &mut Vec<DevelopmentCard>, card: DevelopmentCard, n: usize)
    ensures
        final(cards)@ == old(cards)@ + Seq::new(n as nat, |_i: int| card),
        forall|c: DevelopmentCard|
            #![trigger final(cards)@.to_multiset().count(c)]
            final(cards)@.to_multiset().count(c) == old(cards)@.to_multiset().count(c) + if c
                == card {
                n as nat
            } else {
                0
            },
{
    let ghost start = cards@;
    let mut i: usize = 0;
    while i < n
        invariant
            0 <= i <= n,
            cards@ == start + Seq::new(i as nat, |_i: int| card),
            forall|c: DevelopmentCard|
                #![trigger cards@.to_multiset().count(c)]
                cards@.to_multiset().count(c) == start.to_multiset().count(c) + if c == card {
                    i as nat
                } else {
                    0
                },
        decreases n - i,
    {
        let ghost before = cards@;
        cards.push(card);
        assert(cards@ =~= start + Seq::new((i + 1) as nat, |_i: int| card));
        assert(cards@.to_multiset() == before.to_multiset().insert(card));
        i += 1;
    }
}

/// A deck of development cards; the last card of the view is drawn first.
pub struct DevDeck {
    cards: Vec<DevelopmentCard>,
}

impl View for DevDeck {
    type V = Seq<DevelopmentCard>;

    closed spec fn view(&self) -> Seq<DevelopmentCard> {
        self.cards@
    }
}

impl DevDeck {
    /// A shuffled deck of the standard composition, or `None` when the
    /// operating system's random source cannot seed the shuffle.
    pub fn new() -> (deck: Option<Self>)
        ensures
            deck matches Some(d) ==> d@.len() == standard_deck_size() && forall|c: DevelopmentCard|
                #[trigger] d@.to_multiset().count(c) == standard_count(c),
    {
        match seeded_rng() {
            Some(mut rng) => Some(Self::with_rng(&mut rng)),
            None => None,
        }
    }

    /// A deck of the standard composition, shuffled with `rng`.
    pub fn with_rng(rng: &mut StdRng) -> (deck: Self)
        ensures
            deck@.len() == standard_deck_size(),
            forall|c: DevelopmentCard| #[trigger] deck@.to_multiset().count(c) == standard_count(c),
    {
        let mut cards: Vec<DevelopmentCard> = Vec::new();
        proof {
            assert(cards@.to_multiset() =~= Multiset::empty());
        }
        // standard game cards
        add_copies(&mut cards, DevelopmentCard::Knight, 14);
        add_copies(&mut cards, DevelopmentCard::VictoryPoint, 5);
        add_copies(&mut cards, DevelopmentCard::RoadBuilding, 2);
        add_copies(&mut cards, DevelopmentCard::YearOfPlenty, 2);
        add_copies(&mut cards, DevelopmentCard::Monopoly, 2);
        // custom cards
        add_copies(&mut cards, DevelopmentCard::TowerOfBabel, 2);
        add_copies(&mut cards, DevelopmentCard::Spy, 2);
        add_copies(&mut cards, DevelopmentCard::KingArthur, 1);
        add_copies(&mut cards, DevelopmentCard::UssIowa, 1);
        let ghost before = cards@;
        shuffle_cards(&mut cards, rng);
        proof {
            assert(before.len() == 31);
            assert(cards@.len() == cards@.to_multiset().len());
            assert(before.len() == before.to_multiset().len());
        }
        DevDeck { cards }
    }

    /// Takes the top card, if any.
    pub fn draw(&mut self) -> (res: Option<DevelopmentCard>)
        ensures
            match res {
                Some(card) => old(self)@.len() > 0 && card == old(self)@.last() && final(self)@
                    == old(self)@.drop_last(),
                None => old(self)@.len() == 0 && final(self)@ == old(self)@,
            },
    {
        self.cards.pop()
    }
}

} // verus!
