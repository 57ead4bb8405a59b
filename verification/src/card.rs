use rand::rngs::StdRng;
use rand::seq::SliceRandom;
use vstd::prelude::*;

verus! {

broadcast use vstd::seq_lib::group_to_multiset_ensures;

/// The four card colors. Wild cards carry no color until one is declared.
#[derive(Debug, Clone, Copy, PartialEq, Eq, Hash, Structural)]
pub enum Color {
    Red,
    Green,
    Blue,
    Yellow,
}

/// What a card does: a number from 0 to 9, or one of the action cards.
#[derive(Debug, Clone, Copy, PartialEq, Eq, Hash, Structural)]
pub enum CardKind {
    Number(u8),
    Skip,
    Reverse,
    DrawTwo,
    Wild,
    WildDrawFour,
}

/// A card: its color (`None` for an unplayed Wild or WildDrawFour) and kind.
#[derive(Debug, Clone, Copy, PartialEq, Eq, Hash, Structural)]
pub struct Card {
    pub color: Option<Color>,
    pub kind: CardKind,
}

impl CardKind {
    pub open spec fn is_wild_kind(self) -> bool {
        self is Wild || self is WildDrawFour
    }
}

impl Card {
    /// Whether the card is a Wild or a WildDrawFour.
    pub open spec fn spec_is_wild(self) -> bool {
        self.kind.is_wild_kind()
    }

    /// The number of cards the next player must draw because of this card.
    pub open spec fn spec_penalty(self) -> u8 {
        match self.kind {
            CardKind::DrawTwo => 2,
            CardKind::WildDrawFour => 4,
            _ => 0,
        }
    }

    /// A card may be played on `top` under the active color `active` when it is
    /// wild, when its color is the active color, or when it has the kind of `top`.
    pub open spec fn spec_can_play_on(self, top: Card, active: Color) -> bool {
        ||| self.spec_is_wild()
        ||| self.color == Some(active)
        ||| self.kind == top.kind
    }

    /// A colored card.
    pub fn new(color: Color, kind: CardKind) -> (card: Card)
        ensures
            card == (Card { color: Some(color), kind }),
    {
        Card { color: Some(color), kind }
    }

    /// A wild card, which has no color.
    pub fn wild(kind: CardKind) -> (card: Card)
        requires
            kind.is_wild_kind(),
        ensures
            card == (Card { color: None, kind }),
    {
        Card { color: None, kind }
    }

    pub fn is_wild(&self) -> (b: bool)
        ensures
            b == self.spec_is_wild(),
    {
        match self.kind {
            CardKind::Wild | CardKind::WildDrawFour => true,
            _ => false,
        }
    }

    /// How many cards the next player must draw because of this card (0 if none).
    pub fn penalty_draw_count(&self) -> (n: u8)
        ensures
            n == self.spec_penalty(),
    {
        match self.kind {
            CardKind::DrawTwo => 2,
            CardKind::WildDrawFour => 4,
            _ => 0,
        }
    }

    /// Whether this card may be played on top of `top` given the current active color.
    pub fn can_play_on(&self, top: &Card, active_color: &Color) -> (b: bool)
        ensures
            b == self.spec_can_play_on(*top, *active_color),
    {
        if self.is_wild() {
            return true;
        }
        let same_color = match self.color {
            Some(c) => c == *active_color,
            None => false,
        };
        same_color || self.kind == top.kind
    }
}

// ── Deck ────────────────────────────────────────────────────────────────────

/// The draw pile. Cards are drawn from the end.
#[derive(Debug, Clone)]
pub struct Deck {
    cards: Vec<Card>,
}

impl View for Deck {
    type V = Seq<Card>;

    closed spec fn view(&self) -> Seq<Card> {
        self.cards@
    }
}

/// The twelve cards that a color has twice: the numbers 1 to 9, Skip, Reverse and DrawTwo.
pub open spec fn color_round(color: Color) -> Seq<Card> {
    Seq::new(
        12,
        |i: int|
            if i < 9 {
                Card { color: Some(color), kind: CardKind::Number((i + 1) as u8) }
            } else if i == 9 {
                Card { color: Some(color), kind: CardKind::Skip }
            } else if i == 10 {
                Card { color: Some(color), kind: CardKind::Reverse }
            } else {
                Card { color: Some(color), kind: CardKind::DrawTwo }
            },
    )
}

/// All cards of one color in a standard deck: one 0, then two rounds.
pub open spec fn color_block(color: Color) -> Seq<Card> {
    seq![Card { color: Some(color), kind: CardKind::Number(0) }] + color_round(color)
        + color_round(color)
}

/// `n` pairs of a Wild followed by a WildDrawFour.
pub open spec fn wild_pairs(n: nat) -> Seq<Card> {
    Seq::new(
        2 * n,
        |i: int|
            if i % 2 == 0 {
                Card { color: None, kind: CardKind::Wild }
            } else {
                Card { color: None, kind: CardKind::WildDrawFour }
            },
    )
}

/// The color of the `i`-th block of a standard deck.
pub open spec fn color_at(i: int) -> Color {
    if i == 0 {
        Color::Red
    } else if i == 1 {
        Color::Green
    } else if i == 2 {
        Color::Blue
    } else {
        Color::Yellow
    }
}

/// The first `k` color blocks of a standard deck.
pub open spec fn colored_prefix(k: int) -> Seq<Card>
    decreases k,
{
    if k <= 0 {
        Seq::empty()
    } else {
        colored_prefix(k - 1) + color_block(color_at(k - 1))
    }
}

/// The standard 108-card deck, in the order in which it is laid out.
pub open spec fn standard_deck() -> Seq<Card> {
    color_block(Color::Red) + color_block(Color::Green) + color_block(Color::Blue)
        + color_block(Color::Yellow) + wild_pairs(4)
}

/// Shuffles `cards` with `rand`'s `SliceRandom::shuffle`.
/// Claimed: the result is a permutation of the input (same cards, same count of
/// each). Which permutation comes out is left open: it rests on the generator.
#[verifier::external_body]
fn shuffle_cards(cards: &mut Vec<Card>, rng: &mut StdRng)
    ensures
        final(cards)@.to_multiset() == old(cards)@.to_multiset(),
        final(cards)@.len() == old(cards)@.len(),
{
    cards.shuffle(rng);
}

/// `rand`'s standard generator, carried through the library opaquely.
#[verifier::external_type_specification]
#[verifier::external_body]
pub struct ExStdRng(StdRng);

impl Deck {
    /// A deck holding exactly `cards`, last card on top.
    pub fn from_cards(cards: Vec<Card>) -> (deck: Deck)
        ensures
            deck@ == cards@,
    {
        Deck { cards }
    }

    /// Standard 108-card UNO deck.
    pub fn standard() -> (deck: Deck)
        ensures
            deck@ == standard_deck(),
            deck@.len() == 108,
    {
        let mut cards: Vec<Card> = Vec::with_capacity(108);
        let colors = [Color::Red, Color::Green, Color::Blue, Color::Yellow];
        let mut ci: usize = 0;
        while ci < 4
            invariant
                0 <= ci <= 4,
                colors@ == seq![Color::Red, Color::Green, Color::Blue, Color::Yellow],
                cards@ == colored_prefix(ci as int),
            decreases 4 - ci,
        {
            let color = colors[ci];
            assert(color == color_at(ci as int));
            let ghost before = cards@;
            // One 0 per color
            cards.push(Card::new(color, CardKind::Number(0)));
            let ghost zero = cards@;
            // Two of everything else per color
            let mut round: usize = 0;
            while round < 2
                invariant
                    0 <= round <= 2,
                    cards@ == zero + (if round == 0 {
                        Seq::<Card>::empty()
                    } else if round == 1 {
                        color_round(color)
                    } else {
                        color_round(color) + color_round(color)
                    }),
                decreases 2 - round,
            {
                let ghost mid = cards@;
                let mut n: u8 = 1;
                while n <= 9
                    invariant
                        1 <= n <= 10,
                        cards@ == mid + color_round(color).take(n - 1),
                    decreases 10 - n,
                {
                    cards.push(Card::new(color, CardKind::Number(n)));
                    assert(color_round(color).take(n as int) =~= color_round(color).take(
                        n - 1,
                    ).push(Card { color: Some(color), kind: CardKind::Number(n) }));
                    n = n + 1;
                }
                cards.push(Card::new(color, CardKind::Skip));
                cards.push(Card::new(color, CardKind::Reverse));
                cards.push(Card::new(color, CardKind::DrawTwo));
                assert(cards@ =~= mid + color_round(color));
                round = round + 1;
            }
            assert(cards@ =~= before + color_block(color));
            ci = ci + 1;
        }
        let ghost colored = cards@;
        // Four of each wild
        let mut w: usize = 0;
        while w < 4
            invariant
                0 <= w <= 4,
                cards@ == colored + wild_pairs(w as nat),
            decreases 4 - w,
        {
            cards.push(Card::wild(CardKind::Wild));
            cards.push(Card::wild(CardKind::WildDrawFour));
            assert(wild_pairs((w + 1) as nat) =~= wild_pairs(w as nat).push(
                Card { color: None, kind: CardKind::Wild },
            ).push(Card { color: None, kind: CardKind::WildDrawFour }));
            w = w + 1;
        }
        assert(cards@ =~= standard_deck()) by {
            reveal_with_fuel(colored_prefix, 5);
        }
        Deck { cards }
    }

    /// Shuffles the deck: the same cards come out in an order chosen by `rng`.
    pub fn shuffle(&mut self, rng: &mut StdRng)
        ensures
            final(self)@.to_multiset() == old(self)@.to_multiset(),
            final(self)@.len() == old(self)@.len(),
    {
        shuffle_cards(&mut self.cards, rng);
    }

    /// Takes the top (last) card, or `None` when the deck is empty.
    pub fn draw(&mut self) -> (card: Option<Card>)
        ensures
            old(self)@.len() == 0 ==> card is None && final(self)@ == old(self)@,
            old(self)@.len() > 0 ==> card == Some(old(self)@.last()) && final(self)@
                == old(self)@.drop_last(),
    {
        self.cards.pop()
    }

    pub fn len(&self) -> (n: usize)
        ensures
            n == self@.len(),
    {
        self.cards.len()
    }

    pub fn is_empty(&self) -> (b: bool)
        ensures
            b == (self@.len() == 0),
    {
        self.cards.is_empty()
    }

    /// Move all discard cards (except the top one) back into the draw pile and shuffle.
    pub fn refill_from_discard(&mut self, discard: &mut Vec<Card>, rng: &mut StdRng)
        ensures
            old(discard)@.len() == 0 ==> final(self)@ == old(self)@ && final(discard)@
                == old(discard)@ && *final(rng) == *old(rng),
            old(discard)@.len() > 0 ==> {
                &&& final(discard)@ == seq![old(discard)@.last()]
                &&& final(self)@.to_multiset() == old(self)@.to_multiset().add(
                    old(discard)@.drop_last().to_multiset(),
                )
                &&& final(self)@.len() == old(self)@.len() + old(discard)@.len() - 1
            },
    {
        if let Some(top) = discard.pop() {
            let ghost before = self.cards@;
            let ghost rest = discard@;
            self.cards.append(discard);
            proof {
                vstd::seq_lib::lemma_multiset_commutative(before, rest);
            }
            self.shuffle(rng);
            discard.push(top);
            proof {
                assert(discard@ =~= seq![top]);
            }
        }
    }
}

} // verus!
