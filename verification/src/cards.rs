//! Playing cards and poker-hand classification.
//!
//! A hand of cards is classified into the best poker hand it forms,
//! the two illegal hands included. The classification is exact:
//! straights, flushes and the rank-count patterns are each stated as a
//! predicate over the cards, and the classifier follows the same
//! precedence the scoring rules use.

use vstd::prelude::*;

verus! {

/// A card rank, two through ace.
#[derive(Clone, Copy, PartialEq, Eq, Structural, Debug)]
pub enum Rank {
    Two,
    Three,
    Four,
    Five,
    Six,
    Seven,
    Eight,
    Nine,
    Ten,
    Jack,
    Queen,
    King,
    Ace,
}

/// A card suit.
#[derive(Clone, Copy, PartialEq, Eq, Structural, Debug)]
pub enum Suit {
    Hearts,
    Diamonds,
    Spades,
    Clubs,
}

/// One playing card.
#[derive(Clone, Copy, PartialEq, Eq, Structural, Debug)]
pub struct Card {
    pub rank: Rank,
    pub suit: Suit,
}

/// The poker hands, weakest first.
#[derive(Clone, Copy, PartialEq, Eq, Structural, Debug)]
pub enum PokerHand {
    HighCard,
    Pair,
    TwoPair,
    ThreeOfAKind,
    Straight,
    Flush,
    FullHouse,
    FourOfAKind,
    StraightFlush,
    FiveOfAKind,
    FlushHouse,
    FlushFive,
}

/// The numeric value of a rank: two through ten as written, then
/// eleven to fourteen for the face cards and the ace.
pub open spec fn rank_value_spec(r: Rank) -> int {
    match r {
        Rank::Two => 2,
        Rank::Three => 3,
        Rank::Four => 4,
        Rank::Five => 5,
        Rank::Six => 6,
        Rank::Seven => 7,
        Rank::Eight => 8,
        Rank::Nine => 9,
        Rank::Ten => 10,
        Rank::Jack => 11,
        Rank::Queen => 12,
        Rank::King => 13,
        Rank::Ace => 14,
    }
}

/// The rank's numeric value, as an executable function.
pub fn rank_value(r: Rank) -> (v: u8)
    ensures
        v == rank_value_spec(r),
{
    match r {
        Rank::Two => 2,
        Rank::Three => 3,
        Rank::Four => 4,
        Rank::Five => 5,
        Rank::Six => 6,
        Rank::Seven => 7,
        Rank::Eight => 8,
        Rank::Nine => 9,
        Rank::Ten => 10,
        Rank::Jack => 11,
        Rank::Queen => 12,
        Rank::King => 13,
        Rank::Ace => 14,
    }
}

/// How many cards of the hand carry the rank of value `v`.
pub open spec fn count_value(cards: Seq<Card>, v: int) -> int
    decreases cards.len(),
{
    if cards.len() == 0 {
        0
    } else {
        count_value(cards.drop_last(), v) + if rank_value_spec(cards.last().rank) == v {
            1int
        } else {
            0int
        }
    }
}

/// Whether some rank appears exactly `n` times.
pub open spec fn has_count(cards: Seq<Card>, n: int) -> bool {
    exists|v: int| 2 <= v <= 14 && count_value(cards, v) == n
}

/// Whether two different ranks each appear exactly twice.
pub open spec fn has_two_pairs(cards: Seq<Card>) -> bool {
    exists|v1: int, v2: int|
        2 <= v1 <= 14 && 2 <= v2 <= 14 && v1 != v2 && count_value(cards, v1) == 2 && count_value(
            cards,
            v2,
        ) == 2
}

/// Whether every card has the suit of the first.
pub open spec fn is_flush_spec(cards: Seq<Card>) -> bool {
    forall|i: int| 0 <= i < cards.len() ==> (#[trigger] cards[i]).suit == cards[0].suit
}

/// Whether a rank of value `v` is present at all.
pub open spec fn has_value(cards: Seq<Card>, v: int) -> bool {
    count_value(cards, v) >= 1
}

/// Whether the five values starting at `lo` are all present.
pub open spec fn run_from(cards: Seq<Card>, lo: int) -> bool {
    forall|k: int| 0 <= k < 5 ==> has_value(cards, #[trigger] (lo + k))
}

/// Whether five distinct ranks form a straight: five consecutive
/// values, or the wheel, ace counting low.
pub open spec fn is_straight_spec(cards: Seq<Card>) -> bool {
    &&& cards.len() == 5
    &&& (forall|v: int| 2 <= v <= 14 ==> #[trigger] count_value(cards, v) <= 1)
    &&& ((exists|lo: int| 2 <= lo <= 10 && #[trigger] run_from(cards, lo)) || (has_value(cards, 14)
        && has_value(cards, 2) && has_value(cards, 3) && has_value(cards, 4) && has_value(
        cards,
        5,
    )))
}

/// The best hand a set of cards forms, by the precedence the scoring
/// rules use: the illegal hands first, then the standard hands
/// strongest first.
pub open spec fn hand_spec(cards: Seq<Card>) -> PokerHand {
    if cards.len() == 0 {
        PokerHand::HighCard
    } else if cards.len() == 5 && is_flush_spec(cards) && has_count(cards, 5) {
        PokerHand::FlushFive
    } else if cards.len() == 5 && is_flush_spec(cards) && has_count(cards, 3) && has_count(
        cards,
        2,
    ) {
        PokerHand::FlushHouse
    } else if has_count(cards, 5) {
        PokerHand::FiveOfAKind
    } else if cards.len() == 5 && is_flush_spec(cards) && is_straight_spec(cards) {
        PokerHand::StraightFlush
    } else if has_count(cards, 4) {
        PokerHand::FourOfAKind
    } else if has_count(cards, 3) && has_count(cards, 2) {
        PokerHand::FullHouse
    } else if is_flush_spec(cards) && cards.len() >= 5 {
        PokerHand::Flush
    } else if is_straight_spec(cards) {
        PokerHand::Straight
    } else if has_count(cards, 3) {
        PokerHand::ThreeOfAKind
    } else if has_two_pairs(cards) {
        PokerHand::TwoPair
    } else if has_count(cards, 2) {
        PokerHand::Pair
    } else {
        PokerHand::HighCard
    }
}

/// Counts the cards carrying the rank of value `v`.
fn count_value_exec(cards: &Vec<Card>, v: u8) -> (n: usize)
    ensures
        n == count_value(cards@, v as int),
{
    let mut n: usize = 0;
    let mut i: usize = 0;
    while i < cards.len()
        invariant
            i <= cards@.len(),
            n == count_value(cards@.subrange(0, i as int), v as int),
            n <= i,
        decreases cards@.len() - i,
    {
        proof {
            let pre1 = cards@.subrange(0, i as int + 1);
            assert(pre1.drop_last() =~= cards@.subrange(0, i as int));
            assert(pre1.last() == cards@[i as int]);
        }
        if rank_value(cards[i].rank) == v {
            n = n + 1;
        }
        i = i + 1;
    }
    proof {
        assert(cards@.subrange(0, cards@.len() as int) =~= cards@);
    }
    n
}

/// Decides whether some rank appears exactly `n` times.
fn has_count_exec(cards: &Vec<Card>, n: usize) -> (r: bool)
    ensures
        r == has_count(cards@, n as int),
{
    let mut v: u8 = 2;
    while v <= 14
        invariant
            2 <= v <= 15,
            forall|vv: int| 2 <= vv < v ==> count_value(cards@, vv) != n,
        decreases 15 - v as int,
    {
        if count_value_exec(cards, v) == n {
            return true;
        }
        v = v + 1;
    }
    false
}

/// Decides whether two different ranks each appear exactly twice.
fn has_two_pairs_exec(cards: &Vec<Card>) -> (r: bool)
    ensures
        r == has_two_pairs(cards@),
{
    let mut pairs: usize = 0;
    let mut v: u8 = 2;
    let ghost mut first: int = 0;
    while v <= 14
        invariant
            2 <= v <= 15,
            pairs <= 1 ==> (forall|v1: int, v2: int|
                2 <= v1 < v && 2 <= v2 < v && v1 != v2 ==> !(count_value(cards@, v1) == 2
                    && count_value(cards@, v2) == 2)),
            pairs == 1 ==> 2 <= first < v && count_value(cards@, first) == 2,
            pairs == 0 ==> (forall|vv: int| 2 <= vv < v ==> count_value(cards@, vv) != 2),
            pairs <= 1,
        decreases 15 - v as int,
    {
        if count_value_exec(cards, v) == 2 {
            if pairs == 1 {
                proof {
                    assert(count_value(cards@, first) == 2 && count_value(cards@, v as int) == 2
                        && first != v as int);
                }
                return true;
            }
            pairs = 1;
            proof {
                first = v as int;
            }
        }
        v = v + 1;
    }
    false
}

/// Decides whether every card shares the first card's suit.
fn is_flush_exec(cards: &Vec<Card>) -> (r: bool)
    requires
        cards@.len() >= 1,
    ensures
        r == is_flush_spec(cards@),
{
    let s0 = cards[0].suit;
    let mut i: usize = 0;
    while i < cards.len()
        invariant
            i <= cards@.len(),
            cards@.len() >= 1,
            s0 == cards@[0].suit,
            forall|j: int| 0 <= j < i ==> (#[trigger] cards@[j]).suit == s0,
        decreases cards@.len() - i,
    {
        if !suit_eq(cards[i].suit, s0) {
            return false;
        }
        i = i + 1;
    }
    true
}

/// Decides suit equality.
fn suit_eq(a: Suit, b: Suit) -> (r: bool)
    ensures
        r == (a == b),
{
    a == b
}

/// Decides whether the cards form a straight.
fn is_straight_exec(cards: &Vec<Card>) -> (r: bool)
    ensures
        r == is_straight_spec(cards@),
{
    if cards.len() != 5 {
        return false;
    }
    let mut v: u8 = 2;
    while v <= 14
        invariant
            2 <= v <= 15,
            forall|vv: int| 2 <= vv < v ==> #[trigger] count_value(cards@, vv) <= 1,
        decreases 15 - v as int,
    {
        if count_value_exec(cards, v) > 1 {
            return false;
        }
        v = v + 1;
    }
    let mut lo: u8 = 2;
    while lo <= 10
        invariant
            2 <= lo <= 11,
            cards@.len() == 5,
            forall|v: int| 2 <= v <= 14 ==> #[trigger] count_value(cards@, v) <= 1,
            forall|l: int| 2 <= l < lo ==> !#[trigger] run_from(cards@, l),
        decreases 11 - lo as int,
    {
        let mut k: u8 = 0;
        let mut run = true;
        while k < 5
            invariant
                k <= 5,
                2 <= lo <= 10,
                run ==> (forall|kk: int| 0 <= kk < k ==> has_value(cards@, #[trigger] (lo as int
                    + kk))),
                !run ==> !run_from(cards@, lo as int),
            decreases 5 - k as int,
        {
            if count_value_exec(cards, lo + k) == 0 {
                proof {
                    assert(!has_value(cards@, lo as int + k as int));
                }
                run = false;
            }
            k = k + 1;
        }
        if run {
            proof {
                assert(run_from(cards@, lo as int));
            }
            return true;
        }
        lo = lo + 1;
    }
    let wheel = count_value_exec(cards, 14) >= 1 && count_value_exec(cards, 2) >= 1
        && count_value_exec(cards, 3) >= 1 && count_value_exec(cards, 4) >= 1
        && count_value_exec(cards, 5) >= 1;
    wheel
}

/// Classifies a hand of cards into the best poker hand it forms, per
/// [`hand_spec`].
pub fn identify_hand(cards: &Vec<Card>) -> (r: PokerHand)
    ensures
        r == hand_spec(cards@),
{
    if cards.len() == 0 {
        return PokerHand::HighCard;
    }
    let flush = is_flush_exec(cards);
    let straight = is_straight_exec(cards);
    let five = has_count_exec(cards, 5);
    let four = has_count_exec(cards, 4);
    let three = has_count_exec(cards, 3);
    let two = has_count_exec(cards, 2);
    let two_pairs = has_two_pairs_exec(cards);

    if cards.len() == 5 && flush && five {
        PokerHand::FlushFive
    } else if cards.len() == 5 && flush && three && two {
        PokerHand::FlushHouse
    } else if five {
        PokerHand::FiveOfAKind
    } else if cards.len() == 5 && flush && straight {
        PokerHand::StraightFlush
    } else if four {
        PokerHand::FourOfAKind
    } else if three && two {
        PokerHand::FullHouse
    } else if flush && cards.len() >= 5 {
        PokerHand::Flush
    } else if straight {
        PokerHand::Straight
    } else if three {
        PokerHand::ThreeOfAKind
    } else if two_pairs {
        PokerHand::TwoPair
    } else if two {
        PokerHand::Pair
    } else {
        PokerHand::HighCard
    }
}

/// Whether a suit is one of the red suits.
pub open spec fn is_red(s: Suit) -> bool {
    s == Suit::Hearts || s == Suit::Diamonds
}

/// Compares two suits, the red suits counting as one and the black
/// suits counting as one when `smeared` holds.
pub fn smeared_eq_suit(a: Suit, b: Suit, smeared: bool) -> (r: bool)
    ensures
        !smeared ==> r == (a == b),
        smeared ==> r == (is_red(a) == is_red(b)),
{
    if !smeared {
        return suit_eq(a, b);
    }
    match (a, b) {
        (Suit::Hearts, Suit::Diamonds) | (Suit::Diamonds, Suit::Hearts) => true,
        (Suit::Spades, Suit::Clubs) | (Suit::Clubs, Suit::Spades) => true,
        _ => suit_eq(a, b),
    }
}

/// Whether a card counts as a face card: jacks, queens and kings do,
/// and every card does under the all-faces illusion.
pub fn is_face_card(card: &Card, has_pareidolia: bool) -> (r: bool)
    ensures
        r == (has_pareidolia || card.rank == Rank::Jack || card.rank == Rank::Queen || card.rank
            == Rank::King),
{
    has_pareidolia || matches!(card.rank, Rank::Jack | Rank::Queen | Rank::King)
}

/// A human-readable name for a poker hand.
pub fn hand_display_name(hand: PokerHand) -> (r: &'static str)
    ensures
        hand == PokerHand::HighCard ==> r@ == "High Card"@,
        hand == PokerHand::Pair ==> r@ == "Pair"@,
        hand == PokerHand::TwoPair ==> r@ == "Two Pair"@,
        hand == PokerHand::ThreeOfAKind ==> r@ == "Three Of A Kind"@,
        hand == PokerHand::Straight ==> r@ == "Straight"@,
        hand == PokerHand::Flush ==> r@ == "Flush"@,
        hand == PokerHand::FullHouse ==> r@ == "Full House"@,
        hand == PokerHand::FourOfAKind ==> r@ == "Four Of A Kind"@,
        hand == PokerHand::StraightFlush ==> r@ == "Straight Flush"@,
        hand == PokerHand::FiveOfAKind ==> r@ == "Five Of A Kind"@,
        hand == PokerHand::FlushHouse ==> r@ == "Flush House"@,
        hand == PokerHand::FlushFive ==> r@ == "Flush Five"@,
{
    match hand {
        PokerHand::HighCard => "High Card",
        PokerHand::Pair => "Pair",
        PokerHand::TwoPair => "Two Pair",
        PokerHand::ThreeOfAKind => "Three Of A Kind",
        PokerHand::Straight => "Straight",
        PokerHand::Flush => "Flush",
        PokerHand::FullHouse => "Full House",
        PokerHand::FourOfAKind => "Four Of A Kind",
        PokerHand::StraightFlush => "Straight Flush",
        PokerHand::FiveOfAKind => "Five Of A Kind",
        PokerHand::FlushHouse => "Flush House",
        PokerHand::FlushFive => "Flush Five",
    }
}

} // verus!
