//! Executions: a program run against one test case, and against the cases of
//! a level one after the other.

use crate::level::{target_view, Level, Target, TargetView, TestCase, TestCaseView};
use crate::machine::{lemma_halt_is_final, lemma_step_within, Machine};
use crate::program::{CardView, Direction, Program, ProgramView};
use crate::tape;
use crate::tape::positions;
use crate::text::{decimal, decimal_i64};
use std::collections::HashSet;
use vstd::prelude::*;
use vstd::string::StringExecFns;

verus! {

broadcast use vstd::std_specs::hash::group_hash_axioms;

/// How a test case stands.
#[derive(Debug)]
pub enum TestCaseExecutionState {
    /// No step has been taken.
    Pending,
    /// At least one step has been taken and the machine has not halted.
    Running,
    /// The machine has halted and the target, if there is one, is met.
    Success,
    /// The machine has halted and the target is not met.
    Failure { errors: Vec<String> },
}

impl Clone for TestCaseExecutionState {
    fn clone(&self) -> (copy: TestCaseExecutionState)
        ensures
            copy@ == self@,
    {
        match self {
            TestCaseExecutionState::Pending => TestCaseExecutionState::Pending,
            TestCaseExecutionState::Running => TestCaseExecutionState::Running,
            TestCaseExecutionState::Success => TestCaseExecutionState::Success,
            TestCaseExecutionState::Failure { errors } => {
                let copy = errors.clone();
                TestCaseExecutionState::Failure { errors: copy }
            },
        }
    }
}

/// The state of a test case as a mathematical value.
pub enum StateView {
    Pending,
    Running,
    Success,
    Failure { errors: Seq<Seq<char>> },
}

impl View for TestCaseExecutionState {
    type V = StateView;

    open spec fn view(&self) -> StateView {
        match self {
            TestCaseExecutionState::Pending => StateView::Pending,
            TestCaseExecutionState::Running => StateView::Running,
            TestCaseExecutionState::Success => StateView::Success,
            TestCaseExecutionState::Failure { errors } => StateView::Failure {
                errors: errors.deep_view(),
            },
        }
    }
}

/// What is said of a tape that is not the wanted one.
pub open spec fn wrong_tape_message() -> Seq<char> {
    "Wrong final tape"@
}

/// What is said of a head that is not where it is wanted.
pub open spec fn wrong_position_message(wanted: int, actual: int) -> Seq<char> {
    "Wrong final position: wanted "@ + decimal(wanted) + " but was "@ + decimal(actual)
}

/// What a halted machine has failed to meet of its target: nothing, or one
/// message.
pub open spec fn errors_of(m: Machine, target: Option<TargetView>) -> Seq<Seq<char>> {
    match target {
        None => Seq::empty(),
        Some(TargetView::TapeExact { tape }) => if m.tape == tape {
            Seq::empty()
        } else {
            seq![wrong_tape_message()]
        },
        Some(TargetView::Position { position }) => if m.position == position {
            Seq::empty()
        } else {
            seq![wrong_position_message(position, m.position)]
        },
    }
}

/// How a test case stands, from its machine and its target. It is pending
/// exactly as long as no step has been taken, whether or not the machine
/// would halt at once; then running until the machine halts; then a success
/// or a failure by the target.
pub open spec fn state_of(m: Machine, target: Option<TargetView>) -> StateView {
    if m.steps == 0 {
        StateView::Pending
    } else if !m.halted() {
        StateView::Running
    } else if errors_of(m, target).len() == 0 {
        StateView::Success
    } else {
        StateView::Failure { errors: errors_of(m, target) }
    }
}

/// How the state follows the machine: pending exactly as long as no step has
/// been taken; running exactly if steps have been taken and the machine has
/// not halted; and once it has halted with steps behind it, a success
/// exactly if there is no target or the target is met, a failure otherwise.
pub proof fn lemma_state_derivation(m: Machine, target: Option<TargetView>)
    ensures
        state_of(m, target) is Pending <==> m.steps == 0,
        state_of(m, target) is Running <==> m.steps > 0 && !m.halted(),
        state_of(m, target) is Success <==> m.steps > 0 && m.halted() && (target matches Some(t)
            ==> t.met(m.tape, m.position)),
        state_of(m, target) is Failure <==> m.steps > 0 && m.halted() && !(target matches Some(t)
            ==> t.met(m.tape, m.position)),
{
}

/// A program run against one test case.
pub struct TestCaseExecution {
    pub positions_on: HashSet<i64>,
    pub current_card_index: Option<usize>,
    pub current_position: i64,
    pub steps: u64,
    pub program: Program,
    pub target: Option<Target>,
}

impl View for TestCaseExecution {
    type V = Machine;

    open spec fn view(&self) -> Machine {
        Machine {
            tape: positions(self.positions_on@),
            position: self.current_position as int,
            card: self.current_card_index,
            steps: self.steps as nat,
        }
    }
}

impl TestCaseExecution {
    /// The program that is run.
    pub open spec fn program(&self) -> ProgramView {
        self.program@
    }

    /// What is expected of the machine once it has halted.
    pub open spec fn target(&self) -> Option<TargetView> {
        target_view(self.target)
    }

    /// Whether the program is valid and the active card is one of its cards.
    pub open spec fn wf(&self) -> bool {
        self.program().valid() && self@.within(self.program().cards)
    }

    /// Whether `other` runs the same program against the same target.
    pub open spec fn same_case(&self, other: &TestCaseExecution) -> bool {
        self.program() == other.program() && self.target() == other.target()
    }

    /// The execution of `program` on the tape of `tc`, before its first step:
    /// the head at 0, the program's initial card active, no step taken.
    pub fn new(tc: TestCase, program: Program) -> (execution: TestCaseExecution)
        requires
            program@.valid(),
        ensures
            execution@ == Machine::start(tc@.initial_tape, program@.initial_card),
            execution.program() == program@,
            execution.target() == tc@.target,
            execution.wf(),
    {
        let initial_card = program.initial_card;
        TestCaseExecution {
            positions_on: tc.initial_tape,
            current_card_index: Some(initial_card),
            current_position: 0,
            steps: 0,
            program,
            target: tc.target,
        }
    }

    /// Whether the execution can take a step: whether the head position and
    /// the step count after it can be stored. A halted execution always can.
    pub fn can_step(&self) -> (ok: bool)
        requires
            self.wf(),
        ensures
            ok == self@.step(self.program().cards).fits(),
    {
        match self.current_card_index {
            None => true,
            Some(index) => {
                let card = &self.program.cards[index];
                let instruction = if tape::read(&self.positions_on, self.current_position) {
                    card.tape_on
                } else {
                    card.tape_off
                };
                let room = match instruction.move_direction {
                    None => true,
                    Some(Direction::Left) => self.current_position > i64::MIN,
                    Some(Direction::Right) => self.current_position < i64::MAX,
                };
                room && self.steps < u64::MAX
            },
        }
    }

    /// Takes one step: reads the bit under the head, carries out the active
    /// card's instruction for it (write, then move), makes the instruction's
    /// next card the active one and counts the step. On a halted execution
    /// nothing changes.
    pub fn step(&mut self)
        requires
            old(self).wf(),
            old(self)@.step(old(self).program().cards).fits(),
        ensures
            final(self)@ == old(self)@.step(old(self).program().cards),
            final(self).same_case(old(self)),
            final(self).wf(),
    {
        if let Some(index) = self.current_card_index {
            proof {
                lemma_step_within(self@, self.program().cards);
            }
            let card = &self.program.cards[index];
            let on = tape::read(&self.positions_on, self.current_position);
            let instruction = if on {
                card.tape_on
            } else {
                card.tape_off
            };
            if let Some(symbol) = instruction.write_symbol {
                tape::write(&mut self.positions_on, self.current_position, symbol);
            }
            if let Some(move_direction) = instruction.move_direction {
                match move_direction {
                    Direction::Left => self.current_position -= 1,
                    Direction::Right => self.current_position += 1,
                }
            }
            self.current_card_index = instruction.next_card;
            self.steps += 1;
        }
    }

    /// Steps until the execution has halted, at most `max_steps` times, and
    /// says whether it halted. With `max_steps` 0 nothing is done and the
    /// answer is `false`.
    pub fn run(&mut self, max_steps: u64) -> (halted: bool)
        requires
            old(self).wf(),
            old(self)@.run_fits(old(self).program().cards, max_steps as nat),
        ensures
            final(self)@ == old(self)@.run(old(self).program().cards, max_steps as nat),
            halted == (max_steps > 0 && final(self)@.halted()),
            final(self).same_case(old(self)),
            final(self).wf(),
    {
        let ghost start = self@;
        let ghost cards = self.program().cards;
        let mut taken: u64 = 0;
        while taken < max_steps
            invariant
                taken <= max_steps,
                self.wf(),
                self.same_case(old(self)),
                cards == old(self).program().cards,
                start == old(self)@,
                self@ == start.run(cards, taken as nat),
                start.run_fits(cards, max_steps as nat),
                taken > 0 ==> !self@.halted(),
            decreases max_steps - taken,
        {
            assert(start.run(cards, (taken + 1) as nat).fits());
            self.step();
            taken += 1;
            if self.is_terminated() {
                proof {
                    lemma_halt_is_final(start, cards, taken as nat, max_steps as nat);
                }
                return true;
            }
        }
        false
    }

    /// Whether the execution has halted.
    pub fn is_terminated(&self) -> (halted: bool)
        ensures
            halted == self@.halted(),
    {
        self.current_card_index.is_none()
    }

    /// Where the head is.
    pub fn get_current_position(&self) -> (position: i64)
        ensures
            position == self@.position,
    {
        self.current_position
    }

    /// Whether the bit at `position` is on.
    pub fn get_tape_at(&self, position: i64) -> (on: bool)
        ensures
            on == self@.tape.contains(position as int),
    {
        tape::read(&self.positions_on, position)
    }

    /// How the test case stands.
    pub fn get_state(&self) -> (state: TestCaseExecutionState)
        ensures
            state@ == state_of(self@, self.target()),
    {
        if self.steps == 0 {
            TestCaseExecutionState::Pending
        } else if !self.is_terminated() {
            TestCaseExecutionState::Running
        } else {
            let errors = self.get_errors();
            if errors.len() == 0 {
                TestCaseExecutionState::Success
            } else {
                TestCaseExecutionState::Failure { errors }
            }
        }
    }

    /// What the execution, taken as halted, has failed to meet of its target.
    pub fn get_errors(&self) -> (errors: Vec<String>)
        ensures
            errors.deep_view() == errors_of(self@, self.target()),
    {
        let mut errors: Vec<String> = Vec::new();
        match &self.target {
            None => {},
            Some(Target::TapeExact { tape }) => {
                if !tape::same(&self.positions_on, tape) {
                    errors.push("Wrong final tape".to_string());
                }
            },
            Some(Target::Position { position }) => {
                if self.current_position != *position {
                    let message = String::from_str("Wrong final position: wanted ").concat(
                        decimal_i64(*position).as_str(),
                    ).concat(" but was ").concat(decimal_i64(self.current_position).as_str());
                    errors.push(message);
                }
            },
        }
        errors
    }
}

/// The machines of a list of executions, in order.
pub open spec fn machines(executions: Seq<TestCaseExecution>) -> Seq<Machine> {
    executions.map_values(|execution: TestCaseExecution| execution@)
}

/// The index of the first machine, from `from` on, that has not halted; the
/// number of machines if there is none.
pub open spec fn first_running(ms: Seq<Machine>, from: int) -> int
    decreases ms.len() - from,
{
    if from < 0 || from >= ms.len() {
        ms.len() as int
    } else if !ms[from].halted() {
        from
    } else {
        first_running(ms, from + 1)
    }
}

/// Whether the cases count as done: there is none, or the last has halted.
pub open spec fn finished(ms: Seq<Machine>) -> bool {
    ms.len() == 0 || ms.last().halted()
}

/// Whether the machines that have halted come before all that have not.
pub open spec fn in_order(ms: Seq<Machine>) -> bool {
    forall|i: int, j: int| 0 <= i <= j < ms.len() && ms[j].halted() ==> ms[i].halted()
}

/// The sum of the step counts.
pub open spec fn total_steps(ms: Seq<Machine>) -> nat
    decreases ms.len(),
{
    if ms.len() == 0 {
        0
    } else {
        total_steps(ms.drop_last()) + ms.last().steps
    }
}

/// What `first_running` finds: every machine between `from` and the result
/// has halted, and the result, if it is a machine, has not.
pub proof fn lemma_first_running(ms: Seq<Machine>, from: int)
    requires
        0 <= from <= ms.len(),
    ensures
        from <= first_running(ms, from) <= ms.len(),
        forall|j: int| from <= j < first_running(ms, from) ==> ms[j].halted(),
        first_running(ms, from) < ms.len() ==> !ms[first_running(ms, from)].halted(),
    decreases ms.len() - from,
{
    if from < ms.len() && ms[from].halted() {
        lemma_first_running(ms, from + 1);
    }
}

/// For machines in order, the last has halted exactly if all have.
pub proof fn lemma_finished_means_all(ms: Seq<Machine>)
    requires
        in_order(ms),
    ensures
        finished(ms) <==> forall|i: int| 0 <= i < ms.len() ==> ms[i].halted(),
{
}

/// What a step of the level makes of the machines: nothing new once the
/// cases are finished; else one step of the first machine that has not
/// halted, and every other machine as it was.
pub open spec fn advance(ms: Seq<Machine>, cards: Seq<CardView>) -> Seq<Machine> {
    if finished(ms) {
        ms
    } else {
        let current = first_running(ms, 0);
        ms.update(current, ms[current].step(cards))
    }
}

/// As long as a case has not halted, a step of the level changes no case
/// behind it.
pub proof fn lemma_cases_in_order(
    ms: Seq<Machine>,
    cards: Seq<CardView>,
    earlier: int,
    later: int,
)
    requires
        0 <= earlier < later < ms.len(),
        !ms[earlier].halted(),
    ensures
        advance(ms, cards)[later] == ms[later],
{
    lemma_first_running(ms, 0);
}

/// A case that has halted is not changed by a step of the level.
pub proof fn lemma_halted_case_stays(ms: Seq<Machine>, cards: Seq<CardView>, index: int)
    requires
        0 <= index < ms.len(),
        ms[index].halted(),
    ensures
        advance(ms, cards)[index] == ms[index],
{
    lemma_first_running(ms, 0);
}

/// A step of the level keeps the cases in order: those that have halted come
/// before all that have not.
pub proof fn lemma_advance_keeps_order(ms: Seq<Machine>, cards: Seq<CardView>)
    requires
        in_order(ms),
    ensures
        in_order(advance(ms, cards)),
{
    lemma_first_running(ms, 0);
    let after = advance(ms, cards);
    let current = first_running(ms, 0);
}

/// The steps of the first `count` machines are no more than the steps of all.
pub proof fn lemma_total_steps_grows(ms: Seq<Machine>, count: int)
    requires
        0 <= count <= ms.len(),
    ensures
        total_steps(ms.take(count)) <= total_steps(ms),
    decreases ms.len() - count,
{
    if count < ms.len() {
        lemma_total_steps_grows(ms, count + 1);
        assert(ms.take(count + 1).drop_last() =~= ms.take(count));
    } else {
        assert(ms.take(count) =~= ms);
    }
}

/// A program run against the cases of a level, one case after the other.
pub struct LevelExecution {
    pub level: Level,
    pub program: Program,
    pub executions: Vec<TestCaseExecution>,
}

impl LevelExecution {
    /// The machines of the cases, in order.
    pub open spec fn machines(&self) -> Seq<Machine> {
        machines(self.executions@)
    }

    /// Whether every case is well formed and runs this execution's program.
    pub open spec fn wf(&self) -> bool {
        &&& self.program@.valid()
        &&& forall|i: int|
            0 <= i < self.executions.len() ==> (#[trigger] self.executions[i]).wf()
                && self.executions[i].program() == self.program@
    }

    /// What a call of `step` makes of the machines.
    pub open spec fn advanced(&self) -> Seq<Machine> {
        advance(self.machines(), self.program@.cards)
    }

    /// Whether the machine that `step` would advance can be stored after its
    /// step.
    pub open spec fn step_fits(&self) -> bool {
        forall|i: int| 0 <= i < self.machines().len() ==> (#[trigger] self.advanced()[i]).fits()
    }

    /// Whether `other` has the same cases, case by case, whatever their
    /// machines have come to.
    pub open spec fn same_cases(&self, other: &LevelExecution) -> bool {
        &&& self.level == other.level
        &&& self.program == other.program
        &&& self.executions.len() == other.executions.len()
        &&& forall|i: int|
            0 <= i < self.executions.len() ==> (#[trigger] self.executions[i]).same_case(
                &other.executions[i],
            )
    }

    /// The execution of `program` on every case of `level`, none of them
    /// begun.
    pub fn new(level: Level, program: Program) -> (execution: LevelExecution)
        requires
            program@.valid(),
        ensures
            execution.level == level,
            execution.program == program,
            execution.executions.len() == level.cases.len(),
            forall|i: int|
                0 <= i < level.cases.len() ==> {
                    &&& (#[trigger] execution.executions[i])@ == Machine::start(
                        level@.cases[i].initial_tape,
                        program@.initial_card,
                    )
                    &&& execution.executions[i].target() == level@.cases[i].target
                },
            execution.machines() == level@.cases.map_values(
                |case: TestCaseView| Machine::start(case.initial_tape, program@.initial_card),
            ),
            execution.wf(),
            in_order(execution.machines()),
    {
        let mut executions: Vec<TestCaseExecution> = Vec::new();
        let mut i: usize = 0;
        while i < level.cases.len()
            invariant
                i <= level.cases.len(),
                executions.len() == i,
                program@.valid(),
                forall|j: int|
                    0 <= j < i ==> {
                        &&& (#[trigger] executions[j])@ == Machine::start(
                            level@.cases[j].initial_tape,
                            program@.initial_card,
                        )
                        &&& executions[j].target() == level@.cases[j].target
                        &&& executions[j].program() == program@
                        &&& executions[j].wf()
                    },
            decreases level.cases.len() - i,
        {
            let case = level.cases[i].clone();
            let execution = TestCaseExecution::new(case, program.clone());
            executions.push(execution);
            i += 1;
        }
        LevelExecution { level, program, executions }
    }

    /// The index of the first case that has not halted, if there is one.
    pub fn current_index(&self) -> (index: Option<usize>)
        ensures
            match index {
                Some(i) => i == first_running(self.machines(), 0) && i < self.executions.len(),
                None => first_running(self.machines(), 0) == self.executions.len(),
            },
    {
        let mut i: usize = 0;
        while i < self.executions.len()
            invariant
                i <= self.executions.len(),
                first_running(self.machines(), 0) == first_running(self.machines(), i as int),
            decreases self.executions.len() - i,
        {
            if !self.executions[i].is_terminated() {
                return Some(i);
            }
            i += 1;
        }
        None
    }

    /// The first case that has not halted, if there is one.
    pub fn current_execution(&self) -> (current: Option<&TestCaseExecution>)
        ensures
            match current {
                Some(execution) => {
                    &&& first_running(self.machines(), 0) < self.executions.len()
                    &&& *execution == self.executions[first_running(self.machines(), 0)]
                },
                None => first_running(self.machines(), 0) == self.executions.len(),
            },
    {
        match self.current_index() {
            Some(i) => Some(&self.executions[i]),
            None => None,
        }
    }

    /// The first case that has not halted, if there is one, to be changed in
    /// place.
    pub fn current_execution_mut(&mut self) -> (current: Option<&mut TestCaseExecution>)
        ensures
            match current {
                Some(execution) => {
                    let index = first_running(old(self).machines(), 0);
                    &&& index < old(self).executions.len()
                    &&& *execution == old(self).executions[index]
                    &&& final(self).executions@ == old(self).executions@.update(
                        index,
                        *final(execution),
                    )
                    &&& final(self).level == old(self).level
                    &&& final(self).program == old(self).program
                },
                None => {
                    &&& first_running(old(self).machines(), 0) == old(self).executions.len()
                    &&& *final(self) == *old(self)
                },
            },
    {
        match self.current_index() {
            Some(i) => Some(&mut self.executions[i]),
            None => None,
        }
    }

    /// Whether the level can take a step: whether the case that the step
    /// would advance can be stored after it.
    pub fn can_step(&self) -> (ok: bool)
        requires
            self.wf(),
        ensures
            ok == self.step_fits(),
    {
        proof {
            lemma_first_running(self.machines(), 0);
        }
        if self.is_terminated() {
            return true;
        }
        match self.current_index() {
            Some(i) => {
                let ok = self.executions[i].can_step();
                assert(self.advanced()[i as int] == self.executions[i as int]@.step(
                    self.program@.cards,
                ));
                ok
            },
            None => true,
        }
    }

    /// Advances the level by one step: a step of the first case that has not
    /// halted. Once the cases are finished nothing changes. A case is not
    /// begun before every case in front of it has halted, and a halted case
    /// is not taken up again.
    pub fn step(&mut self)
        requires
            old(self).wf(),
            old(self).step_fits(),
        ensures
            final(self).machines() == old(self).advanced(),
            final(self).same_cases(old(self)),
            final(self).wf(),
            in_order(old(self).machines()) ==> in_order(final(self).machines()),
    {
        proof {
            lemma_first_running(self.machines(), 0);
            if in_order(self.machines()) {
                lemma_advance_keeps_order(self.machines(), self.program@.cards);
            }
        }
        if self.is_terminated() {
            return ;
        }
        if let Some(i) = self.current_index() {
            assert(self.advanced()[i as int].fits());
            self.executions[i].step();
            assert(self.machines() =~= old(self).advanced());
        }
    }

    /// The steps taken in all cases together.
    pub fn get_steps(&self) -> (steps: u64)
        requires
            total_steps(self.machines()) <= u64::MAX,
        ensures
            steps == total_steps(self.machines()),
    {
        let ghost ms = self.machines();
        let mut steps: u64 = 0;
        let mut i: usize = 0;
        while i < self.executions.len()
            invariant
                i <= self.executions.len(),
                ms == self.machines(),
                steps == total_steps(ms.take(i as int)),
                total_steps(ms) <= u64::MAX,
            decreases self.executions.len() - i,
        {
            proof {
                assert(ms.take(i + 1).drop_last() =~= ms.take(i as int));
                lemma_total_steps_grows(ms, i + 1);
            }
            steps += self.executions[i].steps;
            i += 1;
        }
        assert(ms.take(ms.len() as int) =~= ms);
        steps
    }

    /// Whether the cases are finished: there is none, or the last has halted.
    /// As long as the cases are taken in order that is when all have halted.
    pub fn is_terminated(&self) -> (done: bool)
        ensures
            done == finished(self.machines()),
            in_order(self.machines()) ==> (done <==> forall|i: int|
                0 <= i < self.executions.len() ==> self.machines()[i].halted()),
    {
        proof {
            if in_order(self.machines()) {
                lemma_finished_means_all(self.machines());
            }
        }
        let count = self.executions.len();
        if count == 0 {
            true
        } else {
            self.executions[count - 1].is_terminated()
        }
    }
}

} // verus!
