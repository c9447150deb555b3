//! Programs: cards, instructions and the directions the head can move in.
//!
//! A program is a flat list of cards. A card is referred to by its index in
//! that list, so cards can point at each other, and at themselves, freely.

use vstd::prelude::*;

verus! {

broadcast use vstd::string::group_string_axioms;

/// A direction in which the head moves by one position.
#[derive(Copy, Clone, Debug)]
pub enum Direction {
    Left,
    Right,
}

/// What happens when a card is active and a given symbol is under the head.
///
/// Each part is optional: no `write_symbol` leaves the tape alone, no
/// `move_direction` leaves the head in place, and no `next_card` halts the
/// machine once the write and the move have been made.
#[derive(Copy, Clone, Debug)]
pub struct Instruction {
    pub write_symbol: Option<bool>,
    pub move_direction: Option<Direction>,
    pub next_card: Option<usize>,
}

/// A named pair of instructions, one for each symbol that can be read.
#[derive(Debug)]
pub struct Card {
    pub name: String,
    pub tape_on: Instruction,
    pub tape_off: Instruction,
}

/// A named list of cards and the index of the card that is active first.
#[derive(Debug)]
pub struct Program {
    pub name: String,
    pub description: String,
    pub initial_card: usize,
    pub cards: Vec<Card>,
}

/// A card as a mathematical value.
pub struct CardView {
    pub name: Seq<char>,
    pub tape_on: Instruction,
    pub tape_off: Instruction,
}

/// A program as a mathematical value.
pub struct ProgramView {
    pub name: Seq<char>,
    pub description: Seq<char>,
    pub initial_card: usize,
    pub cards: Seq<CardView>,
}

impl Instruction {
    /// Whether the instruction continues at a card among the first `count`,
    /// or halts.
    pub open spec fn stays_within(self, count: nat) -> bool {
        self.next_card matches Some(next) ==> next < count
    }

    /// The instruction that does nothing and halts.
    pub open spec fn halting() -> Instruction {
        Instruction { write_symbol: None, move_direction: None, next_card: None }
    }
}

impl CardView {
    /// The instruction selected by the symbol under the head.
    pub open spec fn select(self, on: bool) -> Instruction {
        if on {
            self.tape_on
        } else {
            self.tape_off
        }
    }

    /// Whether both instructions continue at a card among the first `count`,
    /// or halt.
    pub open spec fn stays_within(self, count: nat) -> bool {
        self.tape_on.stays_within(count) && self.tape_off.stays_within(count)
    }
}

/// Whether every instruction of the cards continues at one of the cards, or
/// halts.
pub open spec fn closed(cards: Seq<CardView>) -> bool {
    forall|i: int| 0 <= i < cards.len() ==> (#[trigger] cards[i]).stays_within(cards.len())
}

impl ProgramView {
    /// Whether every card reference of the program points at one of its cards.
    pub open spec fn valid(self) -> bool {
        self.initial_card < self.cards.len() && closed(self.cards)
    }
}

impl View for Card {
    type V = CardView;

    open spec fn view(&self) -> CardView {
        CardView { name: self.name@, tape_on: self.tape_on, tape_off: self.tape_off }
    }
}

impl View for Program {
    type V = ProgramView;

    open spec fn view(&self) -> ProgramView {
        ProgramView {
            name: self.name@,
            description: self.description@,
            initial_card: self.initial_card,
            cards: self.cards@.map_values(|card: Card| card@),
        }
    }
}

impl Clone for Card {
    fn clone(&self) -> (copy: Card)
        ensures
            copy == *self,
    {
        Card { name: self.name.clone(), tape_on: self.tape_on, tape_off: self.tape_off }
    }
}

impl Clone for Program {
    fn clone(&self) -> (copy: Program)
        ensures
            copy@ == self@,
    {
        let cards = self.cards.clone();
        Program {
            name: self.name.clone(),
            description: self.description.clone(),
            initial_card: self.initial_card,
            cards,
        }
    }
}

impl Instruction {
    /// Whether the instruction continues at a card among the first `count`,
    /// or halts.
    pub fn points_within(&self, count: usize) -> (within: bool)
        ensures
            within == self.stays_within(count as nat),
    {
        match self.next_card {
            Some(next) => next < count,
            None => true,
        }
    }
}

impl Program {
    /// Whether every card reference of the program points at one of its cards.
    ///
    /// Only a valid program can be executed.
    pub fn is_valid(&self) -> (valid: bool)
        ensures
            valid == self@.valid(),
    {
        let count = self.cards.len();
        if self.initial_card >= count {
            return false;
        }
        let mut i: usize = 0;
        while i < count
            invariant
                count == self.cards.len(),
                i <= count,
                forall|j: int| 0 <= j < i ==> (#[trigger] self@.cards[j]).stays_within(count as nat),
            decreases count - i,
        {
            let card = &self.cards[i];
            if !card.tape_on.points_within(count) || !card.tape_off.points_within(count) {
                assert(!self@.cards[i as int].stays_within(count as nat));
                return false;
            }
            i += 1;
        }
        true
    }
}

impl Card {
    /// The card whose two instructions do nothing and halt.
    pub fn terminate() -> (card: Card)
        ensures
            card@ == (CardView {
                name: "Terminate"@,
                tape_on: Instruction::halting(),
                tape_off: Instruction::halting(),
            }),
    {
        Card {
            name: "Terminate".to_string(),
            tape_on: Instruction { write_symbol: None, move_direction: None, next_card: None },
            tape_off: Instruction { write_symbol: None, move_direction: None, next_card: None },
        }
    }

    /// The card that turns an off bit on and steps right, steps left off an
    /// on bit, and continues at the first card either way.
    pub fn light_right() -> (card: Card)
        ensures
            card@ == (CardView {
                name: "Light right"@,
                tape_on: Instruction {
                    write_symbol: None,
                    move_direction: Some(Direction::Left),
                    next_card: Some(0),
                },
                tape_off: Instruction {
                    write_symbol: Some(true),
                    move_direction: Some(Direction::Right),
                    next_card: Some(0),
                },
            }),
    {
        Card {
            name: "Light right".to_string(),
            tape_on: Instruction {
                write_symbol: None,
                move_direction: Some(Direction::Left),
                next_card: Some(0),
            },
            tape_off: Instruction {
                write_symbol: Some(true),
                move_direction: Some(Direction::Right),
                next_card: Some(0),
            },
        }
    }

    /// The card that steps left on either symbol, turning an off bit on
    /// first, and continues at the first card.
    pub fn light_left() -> (card: Card)
        ensures
            card@ == (CardView {
                name: "Light left"@,
                tape_on: Instruction {
                    write_symbol: None,
                    move_direction: Some(Direction::Left),
                    next_card: Some(0),
                },
                tape_off: Instruction {
                    write_symbol: Some(true),
                    move_direction: Some(Direction::Left),
                    next_card: Some(0),
                },
            }),
    {
        Card {
            name: "Light left".to_string(),
            tape_on: Instruction {
                write_symbol: None,
                move_direction: Some(Direction::Left),
                next_card: Some(0),
            },
            tape_off: Instruction {
                write_symbol: Some(true),
                move_direction: Some(Direction::Left),
                next_card: Some(0),
            },
        }
    }

    /// The card that steps right on either symbol, writes nothing, and
    /// continues at the first card.
    pub fn go_right() -> (card: Card)
        ensures
            card@ == (CardView {
                name: "Go right"@,
                tape_on: Instruction {
                    write_symbol: None,
                    move_direction: Some(Direction::Right),
                    next_card: Some(0),
                },
                tape_off: Instruction {
                    write_symbol: None,
                    move_direction: Some(Direction::Right),
                    next_card: Some(0),
                },
            }),
    {
        Card {
            name: "Go right".to_string(),
            tape_on: Instruction {
                write_symbol: None,
                move_direction: Some(Direction::Right),
                next_card: Some(0),
            },
            tape_off: Instruction {
                write_symbol: None,
                move_direction: Some(Direction::Right),
                next_card: Some(0),
            },
        }
    }

    /// The card that steps left on either symbol, writes nothing, and
    /// continues at the first card.
    pub fn go_left() -> (card: Card)
        ensures
            card@ == (CardView {
                name: "Go left"@,
                tape_on: Instruction {
                    write_symbol: None,
                    move_direction: Some(Direction::Left),
                    next_card: Some(0),
                },
                tape_off: Instruction {
                    write_symbol: None,
                    move_direction: Some(Direction::Left),
                    next_card: Some(0),
                },
            }),
    {
        Card {
            name: "Go left".to_string(),
            tape_on: Instruction {
                write_symbol: None,
                move_direction: Some(Direction::Left),
                next_card: Some(0),
            },
            tape_off: Instruction {
                write_symbol: None,
                move_direction: Some(Direction::Left),
                next_card: Some(0),
            },
        }
    }
}

} // verus!
