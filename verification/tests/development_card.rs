use rand::rngs::StdRng;
use rand::SeedableRng;

use catan::development_card::{DevDeck, DevelopmentCard};

fn fresh_deck() -> DevDeck {
    DevDeck::new().expect("the operating system's random source is available")
}

fn draw_all(deck: &mut DevDeck) -> Vec<DevelopmentCard> {
    let mut drawn = Vec::new();
    while let Some(card) = deck.draw() {
        drawn.push(card);
    }
    drawn
}

#[test]
fn new_deck_has_the_standard_composition() {
    let mut deck = fresh_deck();
    let drawn = draw_all(&mut deck);
    assert_eq!(drawn.len(), 31);
    let count = |c: DevelopmentCard| drawn.iter().filter(|d| **d == c).count();
    assert_eq!(count(DevelopmentCard::Knight), 14);
    assert_eq!(count(DevelopmentCard::VictoryPoint), 5);
    assert_eq!(count(DevelopmentCard::RoadBuilding), 2);
    assert_eq!(count(DevelopmentCard::YearOfPlenty), 2);
    assert_eq!(count(DevelopmentCard::Monopoly), 2);
    assert_eq!(count(DevelopmentCard::TowerOfBabel), 2);
    assert_eq!(count(DevelopmentCard::Spy), 2);
    assert_eq!(count(DevelopmentCard::KingArthur), 1);
    assert_eq!(count(DevelopmentCard::UssIowa), 1);
}

#[test]
fn drawing_from_an_empty_deck_gives_nothing() {
    let mut deck = fresh_deck();
    draw_all(&mut deck);
    assert_eq!(deck.draw(), None);
    assert_eq!(deck.draw(), None);
}

#[test]
fn new_deck_is_shuffled() {
    // Unshuffled, the cards would be drawn in reverse order of insertion.
    let mut unshuffled = Vec::new();
    unshuffled.extend(std::iter::repeat(DevelopmentCard::Knight).take(14));
    unshuffled.extend(std::iter::repeat(DevelopmentCard::VictoryPoint).take(5));
    unshuffled.extend(std::iter::repeat(DevelopmentCard::RoadBuilding).take(2));
    unshuffled.extend(std::iter::repeat(DevelopmentCard::YearOfPlenty).take(2));
    unshuffled.extend(std::iter::repeat(DevelopmentCard::Monopoly).take(2));
    unshuffled.extend(std::iter::repeat(DevelopmentCard::TowerOfBabel).take(2));
    unshuffled.extend(std::iter::repeat(DevelopmentCard::Spy).take(2));
    unshuffled.extend(std::iter::repeat(DevelopmentCard::KingArthur).take(1));
    unshuffled.extend(std::iter::repeat(DevelopmentCard::UssIowa).take(1));
    unshuffled.reverse();
    // Two decks in a row both coming out unshuffled is practically impossible.
    let first = draw_all(&mut fresh_deck());
    let second = draw_all(&mut fresh_deck());
    assert!(first != unshuffled || second != unshuffled);
}

#[test]
fn deck_shuffled_with_a_given_generator_has_the_standard_composition() {
    let mut rng = StdRng::seed_from_u64(7);
    let mut deck = DevDeck::with_rng(&mut rng);
    let drawn = draw_all(&mut deck);
    assert_eq!(drawn.len(), 31);
    assert_eq!(drawn.iter().filter(|c| **c == DevelopmentCard::Knight).count(), 14);
    assert_eq!(drawn.iter().filter(|c| **c == DevelopmentCard::UssIowa).count(), 1);
}

#[test]
fn drawn_and_left_make_up_the_fresh_deck() {
    let mut deck = fresh_deck();
    let mut drawn = Vec::new();
    for _ in 0..10 {
        drawn.push(deck.draw().unwrap());
    }
    let rest = draw_all(&mut deck);
    assert_eq!(rest.len(), 21);
    let count = |c: DevelopmentCard| {
        drawn.iter().filter(|d| **d == c).count() + rest.iter().filter(|d| **d == c).count()
    };
    assert_eq!(count(DevelopmentCard::Knight), 14);
    assert_eq!(count(DevelopmentCard::VictoryPoint), 5);
    assert_eq!(count(DevelopmentCard::Spy), 2);
    assert_eq!(count(DevelopmentCard::KingArthur), 1);
}
