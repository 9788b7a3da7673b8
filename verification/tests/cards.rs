use rsheet::cards::{
    hand_display_name, identify_hand, is_face_card, rank_value, smeared_eq_suit, Card, PokerHand,
    Rank, Suit,
};

fn card(rank: Rank, suit: Suit) -> Card {
    Card { rank, suit }
}

fn hand(spec: &[(Rank, Suit)]) -> Vec<Card> {
    spec.iter().map(|&(r, s)| card(r, s)).collect()
}

#[test]
fn classifies_the_standard_hands() {
    assert_eq!(identify_hand(&hand(&[])), PokerHand::HighCard);
    assert_eq!(identify_hand(&hand(&[(Rank::Ace, Suit::Hearts)])), PokerHand::HighCard);
    assert_eq!(identify_hand(&hand(&[(Rank::Ace, Suit::Hearts), (Rank::Ace, Suit::Spades)])), PokerHand::Pair);
    assert_eq!(
        identify_hand(&hand(&[(Rank::Ace, Suit::Hearts), (Rank::Ace, Suit::Spades), (Rank::King, Suit::Hearts), (Rank::King, Suit::Clubs)])),
        PokerHand::TwoPair
    );
    assert_eq!(
        identify_hand(&hand(&[(Rank::Ace, Suit::Hearts), (Rank::Ace, Suit::Spades), (Rank::Ace, Suit::Clubs), (Rank::Two, Suit::Hearts)])),
        PokerHand::ThreeOfAKind
    );
    assert_eq!(
        identify_hand(
            &hand(&[(Rank::Two, Suit::Hearts), (Rank::Three, Suit::Spades), (Rank::Four, Suit::Clubs), (Rank::Five, Suit::Hearts), (Rank::Six, Suit::Clubs)])
        ),
        PokerHand::Straight
    );
    assert_eq!(
        identify_hand(
            &hand(&[(Rank::Two, Suit::Hearts), (Rank::Nine, Suit::Hearts), (Rank::Four, Suit::Hearts), (Rank::Five, Suit::Hearts), (Rank::King, Suit::Hearts)])
        ),
        PokerHand::Flush
    );
    assert_eq!(
        identify_hand(
            &hand(&[(Rank::Ace, Suit::Hearts), (Rank::Ace, Suit::Spades), (Rank::Ace, Suit::Clubs), (Rank::King, Suit::Hearts), (Rank::King, Suit::Clubs)])
        ),
        PokerHand::FullHouse
    );
    assert_eq!(
        identify_hand(
            &hand(&[(Rank::Ace, Suit::Hearts), (Rank::Ace, Suit::Spades), (Rank::Ace, Suit::Clubs), (Rank::Ace, Suit::Diamonds), (Rank::Two, Suit::Clubs)])
        ),
        PokerHand::FourOfAKind
    );
    assert_eq!(
        identify_hand(
            &hand(&[(Rank::Two, Suit::Hearts), (Rank::Three, Suit::Hearts), (Rank::Four, Suit::Hearts), (Rank::Five, Suit::Hearts), (Rank::Six, Suit::Hearts)])
        ),
        PokerHand::StraightFlush
    );
}

#[test]
fn classifies_the_illegal_hands() {
    assert_eq!(
        identify_hand(
            &hand(&[(Rank::Ace, Suit::Hearts), (Rank::Ace, Suit::Spades), (Rank::Ace, Suit::Clubs), (Rank::Ace, Suit::Diamonds), (Rank::Ace, Suit::Hearts)])
        ),
        PokerHand::FiveOfAKind
    );
    assert_eq!(
        identify_hand(
            &hand(&[(Rank::Ace, Suit::Hearts), (Rank::Ace, Suit::Hearts), (Rank::Ace, Suit::Hearts), (Rank::King, Suit::Hearts), (Rank::King, Suit::Hearts)])
        ),
        PokerHand::FlushHouse
    );
    assert_eq!(
        identify_hand(
            &hand(&[(Rank::Ace, Suit::Hearts), (Rank::Ace, Suit::Hearts), (Rank::Ace, Suit::Hearts), (Rank::Ace, Suit::Hearts), (Rank::Ace, Suit::Hearts)])
        ),
        PokerHand::FlushFive
    );
}

#[test]
fn the_wheel_counts_as_a_straight() {
    assert_eq!(
        identify_hand(
            &hand(&[(Rank::Ace, Suit::Hearts), (Rank::Two, Suit::Spades), (Rank::Three, Suit::Clubs), (Rank::Four, Suit::Hearts), (Rank::Five, Suit::Clubs)])
        ),
        PokerHand::Straight
    );
    // Queen-king-ace does not wrap around.
    assert_eq!(
        identify_hand(
            &hand(&[(Rank::Queen, Suit::Hearts), (Rank::King, Suit::Spades), (Rank::Ace, Suit::Clubs), (Rank::Two, Suit::Hearts), (Rank::Three, Suit::Clubs)])
        ),
        PokerHand::HighCard
    );
}

#[test]
fn rank_values_follow_the_card_order() {
    assert_eq!(rank_value(Rank::Two), 2);
    assert_eq!(rank_value(Rank::Ten), 10);
    assert_eq!(rank_value(Rank::Jack), 11);
    assert_eq!(rank_value(Rank::Ace), 14);
}

#[test]
fn smeared_suits_compare_by_color() {
    assert!(smeared_eq_suit(Suit::Hearts, Suit::Hearts, false));
    assert!(!smeared_eq_suit(Suit::Hearts, Suit::Diamonds, false));
    assert!(smeared_eq_suit(Suit::Hearts, Suit::Diamonds, true));
    assert!(smeared_eq_suit(Suit::Spades, Suit::Clubs, true));
    assert!(!smeared_eq_suit(Suit::Hearts, Suit::Spades, true));
}

#[test]
fn face_cards_and_the_all_faces_illusion() {
    assert!(is_face_card(&card(Rank::Jack, Suit::Hearts), false));
    assert!(is_face_card(&card(Rank::Queen, Suit::Hearts), false));
    assert!(is_face_card(&card(Rank::King, Suit::Hearts), false));
    assert!(!is_face_card(&card(Rank::Ace, Suit::Hearts), false));
    assert!(is_face_card(&card(Rank::Two, Suit::Hearts), true));
}

#[test]
fn hand_names_read_as_expected() {
    assert_eq!(hand_display_name(PokerHand::HighCard), "High Card");
    assert_eq!(hand_display_name(PokerHand::FlushFive), "Flush Five");
    assert_eq!(hand_display_name(PokerHand::ThreeOfAKind), "Three Of A Kind");
}
