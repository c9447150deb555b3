//! The machine as a mathematical object: a tape, a head, an active card and
//! a step count, with nothing bounded.
//!
//! Every executing type of this crate is a view onto a `Machine`, and what a
//! step does is defined here once.

use crate::program::{closed, CardView, Direction, Instruction};
use crate::tape::written;
use vstd::prelude::*;

verus! {

/// The state of a machine between two steps.
pub struct Machine {
    /// The positions that are on.
    pub tape: Set<int>,
    /// Where the head is.
    pub position: int,
    /// The index of the active card; `None` once the machine has halted.
    pub card: Option<usize>,
    /// How many steps have been taken.
    pub steps: nat,
}

/// The head position after a move.
pub open spec fn moved(position: int, direction: Option<Direction>) -> int {
    match direction {
        None => position,
        Some(Direction::Left) => position - 1,
        Some(Direction::Right) => position + 1,
    }
}

/// The tape after an instruction's write at `position`.
pub open spec fn marked(tape: Set<int>, position: int, symbol: Option<bool>) -> Set<int> {
    match symbol {
        None => tape,
        Some(value) => written(tape, position, value),
    }
}

/// Whether two lists of cards hold the same instructions, whatever the cards
/// are called.
pub open spec fn same_instructions(a: Seq<CardView>, b: Seq<CardView>) -> bool {
    &&& a.len() == b.len()
    &&& forall|i: int|
        0 <= i < a.len() ==> (#[trigger] a[i]).tape_on == b[i].tape_on && a[i].tape_off
            == b[i].tape_off
}

impl Machine {
    /// The machine before its first step: the head at 0, no step taken.
    pub open spec fn start(tape: Set<int>, card: usize) -> Machine {
        Machine { tape, position: 0, card: Some(card), steps: 0 }
    }

    /// Whether the machine has halted.
    pub open spec fn halted(self) -> bool {
        self.card is None
    }

    /// Whether the active card, if there is one, is one of `cards`.
    pub open spec fn within(self, cards: Seq<CardView>) -> bool {
        self.card matches Some(index) ==> index < cards.len()
    }

    /// The instruction that the next step carries out: that of the active
    /// card for the symbol under the head.
    pub open spec fn instruction(self, cards: Seq<CardView>) -> Instruction
        recommends
            !self.halted(),
            self.within(cards),
    {
        cards[self.card->0 as int].select(self.tape.contains(self.position))
    }

    /// The machine after one step. A halted machine stays as it is. A running
    /// one writes, then moves, then takes the instruction's next card as its
    /// active card, and counts the step.
    pub open spec fn step(self, cards: Seq<CardView>) -> Machine {
        if self.halted() {
            self
        } else {
            let instruction = self.instruction(cards);
            Machine {
                tape: marked(self.tape, self.position, instruction.write_symbol),
                position: moved(self.position, instruction.move_direction),
                card: instruction.next_card,
                steps: self.steps + 1,
            }
        }
    }

    /// The machine after `count` calls of `step`.
    pub open spec fn run(self, cards: Seq<CardView>, count: nat) -> Machine
        decreases count,
    {
        if count == 0 {
            self
        } else {
            self.run(cards, (count - 1) as nat).step(cards)
        }
    }

    /// Whether the head position and the step count can be stored.
    pub open spec fn fits(self) -> bool {
        i64::MIN <= self.position <= i64::MAX && self.steps <= u64::MAX
    }

    /// Whether the machine can be stored after each of the first `count`
    /// steps.
    pub open spec fn run_fits(self, cards: Seq<CardView>, count: nat) -> bool {
        forall|k: nat| k <= count ==> (#[trigger] self.run(cards, k)).fits()
    }
}

/// A step of a machine whose active card is one of the cards leaves it at one
/// of the cards, or halted.
pub proof fn lemma_step_within(m: Machine, cards: Seq<CardView>)
    requires
        closed(cards),
        m.within(cards),
    ensures
        m.step(cards).within(cards),
{
}

/// So does any number of steps.
pub proof fn lemma_run_within(m: Machine, cards: Seq<CardView>, count: nat)
    requires
        closed(cards),
        m.within(cards),
    ensures
        m.run(cards, count).within(cards),
    decreases count,
{
    if count > 0 {
        lemma_run_within(m, cards, (count - 1) as nat);
        lemma_step_within(m.run(cards, (count - 1) as nat), cards);
    }
}

/// Running `first + second` steps is running `first` steps and then `second`.
pub proof fn lemma_run_split(m: Machine, cards: Seq<CardView>, first: nat, second: nat)
    ensures
        m.run(cards, first + second) == m.run(cards, first).run(cards, second),
    decreases second,
{
    if second > 0 {
        lemma_run_split(m, cards, first, (second - 1) as nat);
    }
}

/// The same cards and the same start give the same machine after any number
/// of steps: tape, head position, active card and step count. The names of
/// the cards have no part in it.
pub proof fn lemma_run_deterministic(
    a: Machine,
    cards_a: Seq<CardView>,
    b: Machine,
    cards_b: Seq<CardView>,
    count: nat,
)
    requires
        a == b,
        same_instructions(cards_a, cards_b),
        closed(cards_a),
        a.within(cards_a),
    ensures
        a.run(cards_a, count) == b.run(cards_b, count),
    decreases count,
{
    if count > 0 {
        let before = (count - 1) as nat;
        lemma_run_deterministic(a, cards_a, b, cards_b, before);
        lemma_run_within(a, cards_a, before);
        let m = a.run(cards_a, before);
    }
}

/// Once a machine has halted, no number of further steps changes its tape,
/// head position, active card or step count.
pub proof fn lemma_halted_stays(m: Machine, cards: Seq<CardView>, count: nat)
    requires
        m.halted(),
    ensures
        m.step(cards) == m,
        m.run(cards, count) == m,
    decreases count,
{
    if count > 0 {
        lemma_halted_stays(m, cards, (count - 1) as nat);
    }
}

/// A machine that has halted after `early` steps is the same after any
/// larger number of steps.
pub proof fn lemma_halt_is_final(m: Machine, cards: Seq<CardView>, early: nat, late: nat)
    requires
        early <= late,
        m.run(cards, early).halted(),
    ensures
        m.run(cards, late) == m.run(cards, early),
{
    lemma_run_split(m, cards, early, (late - early) as nat);
    lemma_halted_stays(m.run(cards, early), cards, (late - early) as nat);
}

/// A step of a running machine adds exactly one to the step count, and a
/// step of a halted machine adds nothing.
pub proof fn lemma_step_counts(m: Machine, cards: Seq<CardView>)
    ensures
        m.step(cards).steps == m.steps + if m.halted() {
            0int
        } else {
            1int
        },
{
}

/// The step count never decreases: after more steps it is at least what it
/// was after fewer, and it has grown by no more than the steps between.
pub proof fn lemma_steps_monotonic(m: Machine, cards: Seq<CardView>, early: nat, late: nat)
    requires
        early <= late,
    ensures
        m.run(cards, early).steps <= m.run(cards, late).steps <= m.run(cards, early).steps + (late
            - early),
    decreases late - early,
{
    if early < late {
        lemma_steps_monotonic(m, cards, early, (late - 1) as nat);
    }
}

/// While the machine has not halted, its step count is the number of steps
/// taken.
pub proof fn lemma_steps_while_running(m: Machine, cards: Seq<CardView>, count: nat)
    requires
        count > 0 ==> !m.run(cards, (count - 1) as nat).halted(),
    ensures
        m.run(cards, count).steps == m.steps + count,
    decreases count,
{
    if count > 0 {
        let before = (count - 1) as nat;
        lemma_steps_while_running(m, cards, before);
    }
}

/// The head moves by at most one position per step.
pub proof fn lemma_reach(m: Machine, cards: Seq<CardView>, count: nat)
    ensures
        m.position - count <= m.run(cards, count).position <= m.position + count,
    decreases count,
{
    if count > 0 {
        lemma_reach(m, cards, (count - 1) as nat);
    }
}

/// A machine with `count` positions of room on either side of the head, and
/// room for `count` more steps in its step count, can be stored after each of
/// its next `count` steps.
pub proof fn lemma_room_to_run(m: Machine, cards: Seq<CardView>, count: nat)
    requires
        i64::MIN + count <= m.position <= i64::MAX - count,
        m.steps + count <= u64::MAX,
    ensures
        m.run_fits(cards, count),
{
    assert forall|k: nat| k <= count implies (#[trigger] m.run(cards, k)).fits() by {
        lemma_reach(m, cards, k);
        lemma_steps_monotonic(m, cards, 0, k);
    }
}

} // verus!
