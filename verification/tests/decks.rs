use poker_core::deck::Deck;
use poker_core::errors::DeckIsEmptyErr;

#[test]
fn test_deck_return_err_if_emtpy() {
    let mut deck = Deck::default();
    for _ in 0..51 {
        let _ = deck.get_random_card();
    }
    assert_ne!(deck.get_random_card(), Err(DeckIsEmptyErr));
    assert_eq!(deck.get_random_card(), Err(DeckIsEmptyErr));
}

#[test]
fn test_deck_draws_whole_deck() {
    let mut deck = Deck::default();
    let cards = deck.get_random_cards(52).unwrap();
    assert_eq!(52, cards.len());
    // every card is distinct: the deck samples without replacement
    for i in 0..52 {
        for j in 0..i {
            assert_ne!(cards[i], cards[j]);
        }
    }
    assert_eq!(Err(DeckIsEmptyErr), deck.get_random_card());
}

#[test]
fn test_deck_refuses_more_than_full_deck() {
    let mut deck = Deck::default();
    assert_eq!(Err(DeckIsEmptyErr), deck.get_random_cards(53));
    // the refusal left the deck untouched
    assert_eq!(52, deck.get_random_cards(52).unwrap().len());
}

#[test]
fn test_deck_hand_sized_draw() {
    let mut deck = Deck::default();
    let cards = deck.get_random_cards(5).unwrap();
    assert_eq!(5, cards.len());
    let more = deck.get_random_cards(47).unwrap();
    assert_eq!(47, more.len());
    assert_eq!(Err(DeckIsEmptyErr), deck.get_random_card());
}
