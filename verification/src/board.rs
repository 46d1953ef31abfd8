//! The in-memory data model: cards and boards.
//!
//! A `Card` is a single unit of work-tracking content owned by exactly one
//! board; a `Board` is a named, ordered sequence of cards. The order of the
//! cards within a board, and of the boards within a snapshot, is meaningful.

use vstd::prelude::*;

verus! {

/// Mathematical model of a card: the card's text content.
#[verifier::ext_equal]
pub struct CardModel {
    pub name: Seq<char>,
}

/// Mathematical model of a board: its title and its cards, in order.
#[verifier::ext_equal]
pub struct BoardModel {
    pub name: Seq<char>,
    pub cards: Seq<CardModel>,
}

/// A single unit of work-tracking content, owned by exactly one board.
#[derive(Debug)]
pub struct Card {
    pub name: String,
}

/// One kanban board: a title and an ordered sequence of cards.
#[derive(Debug)]
pub struct Board {
    pub name: String,
    pub cards: Vec<Card>,
}

impl View for Card {
    type V = CardModel;

    open spec fn view(&self) -> CardModel {
        CardModel { name: self.name@ }
    }
}

impl DeepView for Card {
    type V = CardModel;

    open spec fn deep_view(&self) -> CardModel {
        self@
    }
}

impl View for Board {
    type V = BoardModel;

    open spec fn view(&self) -> BoardModel {
        BoardModel { name: self.name@, cards: self.cards.deep_view() }
    }
}

impl DeepView for Board {
    type V = BoardModel;

    open spec fn deep_view(&self) -> BoardModel {
        self@
    }
}

impl Clone for Card {
    fn clone(&self) -> (r: Self)
        ensures
            r@ == self@,
    {
        Card { name: self.name.clone() }
    }
}

impl Clone for Board {
    fn clone(&self) -> (r: Self)
        ensures
            r@ == self@,
    {
        let mut cards: Vec<Card> = Vec::new();
        let mut i: usize = 0;
        while i < self.cards.len()
            invariant
                i <= self.cards.len(),
                cards@.len() == i,
                forall|k: int| 0 <= k < i ==> (#[trigger] cards@[k])@ == self.cards@[k]@,
            decreases self.cards.len() - i,
        {
            cards.push(self.cards[i].clone());
            i = i + 1;
        }
        proof {
            assert(cards.deep_view() =~= self.cards.deep_view());
        }
        Board { name: self.name.clone(), cards }
    }
}

impl Default for Board {
    /// A fresh board: empty title, no cards.
    fn default() -> (r: Self)
        ensures
            r@.name == Seq::<char>::empty(),
            r@.cards == Seq::<CardModel>::empty(),
    {
        let r = Board { name: String::new(), cards: Vec::new() };
        proof {
            assert(r@.cards =~= Seq::<CardModel>::empty());
        }
        r
    }
}

} // verus!
