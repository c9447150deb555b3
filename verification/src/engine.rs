//! The step engine: a program at work on one tape, with no target to meet.

use crate::level::{Level, LevelView};
use crate::machine::{lemma_step_within, Machine};
use crate::program::{Direction, Program};
use crate::tape;
use crate::tape::positions;
use std::collections::HashSet;
use vstd::prelude::*;

verus! {

broadcast use vstd::std_specs::hash::group_hash_axioms;

/// A program at work on one tape.
pub struct Engine {
    pub positions_on: HashSet<i64>,
    pub current_card_index: Option<usize>,
    pub current_position: i64,
    pub program: Program,
    pub steps: u64,
}

/// The tape that an engine starts on: that of the level's first case, or the
/// empty tape where the level has no case.
pub open spec fn first_tape(level: LevelView) -> Set<int> {
    if level.cases.len() > 0 {
        level.cases[0].initial_tape
    } else {
        Set::empty()
    }
}

impl View for Engine {
    type V = Machine;

    open spec fn view(&self) -> Machine {
        Machine {
            tape: positions(self.positions_on@),
            position: self.current_position as int,
            card: self.current_card_index,
            steps: self.steps as nat,
        }
    }
}

impl Engine {
    /// Whether the program is valid and the active card is one of its cards.
    pub open spec fn wf(&self) -> bool {
        self.program@.valid() && self@.within(self.program@.cards)
    }

    /// The engine of `program` on the tape of the level's first case, before
    /// its first step: the head at 0, the program's initial card active, no
    /// step taken. The level keeps its tape.
    pub fn new(level: &Level, program: Program) -> (engine: Engine)
        requires
            program@.valid(),
        ensures
            engine@ == Machine::start(first_tape(level@), program@.initial_card),
            engine.program == program,
            engine.wf(),
    {
        let current_card = Some(program.initial_card);
        let positions_on = if level.cases.len() > 0 {
            tape::copy(&level.cases[0].initial_tape)
        } else {
            proof {
                tape::lemma_positions_empty();
            }
            HashSet::new()
        };
        Engine {
            current_card_index: current_card,
            positions_on,
            current_position: 0,
            program,
            steps: 0,
        }
    }

    /// Whether the engine can take a step: whether the head position and the
    /// step count after it can be stored. A halted engine always can.
    pub fn can_step(&self) -> (ok: bool)
        requires
            self.wf(),
        ensures
            ok == self@.step(self.program@.cards).fits(),
    {
        match self.current_card_index {
            None => true,
            Some(index) => {
                let card = &self.program.cards[index];
                let instruction = if tape::read(&self.positions_on, self.current_position) {
                    card.tape_on
                } else {
                    card.tape_off
                };
                let room = match instruction.move_direction {
                    None => true,
                    Some(Direction::Left) => self.current_position > i64::MIN,
                    Some(Direction::Right) => self.current_position < i64::MAX,
                };
                room && self.steps < u64::MAX
            },
        }
    }

    /// Takes one step: reads the bit under the head, carries out the active
    /// card's instruction for it (write, then move), makes the instruction's
    /// next card the active one and counts the step. On a halted engine
    /// nothing changes.
    pub fn step(&mut self)
        requires
            old(self).wf(),
            old(self)@.step(old(self).program@.cards).fits(),
        ensures
            final(self)@ == old(self)@.step(old(self).program@.cards),
            final(self).program == old(self).program,
            final(self).wf(),
    {
        if let Some(index) = self.current_card_index {
            proof {
                lemma_step_within(self@, self.program@.cards);
            }
            let card = &self.program.cards[index];
            let on = tape::read(&self.positions_on, self.current_position);
            let instruction = if on {
                card.tape_on
            } else {
                card.tape_off
            };
            if let Some(symbol) = instruction.write_symbol {
                tape::write(&mut self.positions_on, self.current_position, symbol);
            }
            if let Some(move_direction) = instruction.move_direction {
                match move_direction {
                    Direction::Left => self.current_position -= 1,
                    Direction::Right => self.current_position += 1,
                }
            }
            self.current_card_index = instruction.next_card;
            self.steps += 1;
        }
    }

    /// Whether the engine has halted.
    pub fn is_terminated(&self) -> (halted: bool)
        ensures
            halted == self@.halted(),
    {
        self.current_card_index.is_none()
    }

    /// Where the head is.
    pub fn get_current_position(&self) -> (position: i64)
        ensures
            position == self@.position,
    {
        self.current_position
    }

    /// Whether the bit at `position` is on.
    pub fn get_tape_at(&self, position: i64) -> (on: bool)
        ensures
            on == self@.tape.contains(position as int),
    {
        tape::read(&self.positions_on, position)
    }
}

} // verus!
