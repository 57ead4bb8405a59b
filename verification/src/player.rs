use crate::card::Card;
use crate::event::PlayerId;
use vstd::prelude::*;

verus! {

broadcast use vstd::seq_lib::group_to_multiset_ensures;

/// The cards a player holds, in the order in which they were received.
#[derive(Debug, Clone)]
pub struct Hand {
    cards: Vec<Card>,
}

impl View for Hand {
    type V = Seq<Card>;

    closed spec fn view(&self) -> Seq<Card> {
        self.cards@
    }
}

/// `i` is the position of the first occurrence of `c` in `s`.
pub open spec fn is_first_index_of(s: Seq<Card>, c: Card, i: int) -> bool {
    &&& 0 <= i < s.len()
    &&& s[i] == c
    &&& forall|j: int| 0 <= j < i ==> s[j] != c
}

/// The position of the first occurrence of `c` in `s` (meaningful when `s` contains `c`).
pub open spec fn first_index_of(s: Seq<Card>, c: Card) -> int {
    choose|i: int| is_first_index_of(s, c, i)
}

/// The first occurrence is unique, so `first_index_of` names it.
pub proof fn lemma_first_index_unique(s: Seq<Card>, c: Card, i: int)
    requires
        is_first_index_of(s, c, i),
    ensures
        first_index_of(s, c) == i,
{
    let k = first_index_of(s, c);
    assert(is_first_index_of(s, c, k));
    if k < i {
        assert(s[k] != c);
    } else if i < k {
        assert(s[i] != c);
    }
}

impl Default for Hand {
    fn default() -> (hand: Hand)
        ensures
            hand@ == Seq::<Card>::empty(),
    {
        Hand { cards: Vec::new() }
    }
}

impl Hand {
    /// A hand holding exactly `cards`.
    pub fn from_cards(cards: Vec<Card>) -> (hand: Hand)
        ensures
            hand@ == cards@,
    {
        Hand { cards }
    }

    pub fn add(&mut self, card: Card)
        ensures
            final(self)@ == old(self)@.push(card),
    {
        self.cards.push(card);
    }

    /// Remove a specific card. Returns `false` if the card was not in the hand.
    /// Of several equal cards, the first one goes.
    pub fn remove(&mut self, card: &Card) -> (removed: bool)
        ensures
            removed == old(self)@.contains(*card),
            !removed ==> *final(self) == *old(self),
            removed ==> is_first_index_of(old(self)@, *card, first_index_of(old(self)@, *card)),
            removed ==> final(self)@ == old(self)@.remove(first_index_of(old(self)@, *card)),
    {
        let mut i: usize = 0;
        while i < self.cards.len()
            invariant
                0 <= i <= self.cards@.len(),
                *self == *old(self),
                forall|j: int| 0 <= j < i ==> self.cards@[j] != *card,
            decreases self.cards@.len() - i,
        {
            if self.cards[i] == *card {
                proof {
                    lemma_first_index_unique(old(self)@, *card, i as int);
                }
                self.cards.remove(i);
                return true;
            }
            i = i + 1;
        }
        assert(!old(self)@.contains(*card));
        false
    }

    pub fn cards(&self) -> (cards: &[Card])
        ensures
            cards@ == self@,
    {
        self.cards.as_slice()
    }

    pub fn len(&self) -> (n: usize)
        ensures
            n == self@.len(),
    {
        self.cards.len()
    }

    pub fn is_empty(&self) -> (b: bool)
        ensures
            b == (self@.len() == 0),
    {
        self.cards.is_empty()
    }
}

/// A seat at the table.
#[derive(Debug, Clone)]
pub struct Player {
    pub id: PlayerId,
    pub name: String,
    pub hand: Hand,
    /// Whether the player has called UNO this round.
    pub called_uno: bool,
}

impl Player {
    pub fn new(id: PlayerId, name: String) -> (player: Player)
        ensures
            player.id == id,
            player.name@ == name@,
            player.hand@ == Seq::<Card>::empty(),
            !player.called_uno,
    {
        Player { id, name, hand: Hand::default(), called_uno: false }
    }
}

} // verus!
