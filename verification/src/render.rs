//! What is shown of an execution: the lines of text, ready to be written out.

use crate::execution::{
    finished, first_running, lemma_first_running, lemma_total_steps_grows, state_of, total_steps,
    LevelExecution, StateView, TestCaseExecution, TestCaseExecutionState,
};
use crate::machine::Machine;
use crate::text;
use crate::text::{decimal, left_aligned, right_aligned, spaces};
use vstd::prelude::*;
use vstd::string::StringExecFns;

verus! {

/// How many positions lie between the starts of two neighbouring windows.
pub const WINDOW_SIZE: i64 = 64;

/// How far a window starts to the left of a multiple of `WINDOW_SIZE`.
pub const WINDOW_OFFSET: i64 = 32;

/// The start of the window that `pos` lies in. The windows are 64 wide and
/// one of them starts at -32.
pub open spec fn window_start(pos: int) -> int {
    (pos + 32) / 64 * 64 - 32
}

/// The start of the window that `pos` lies in.
pub fn from(pos: i64) -> (start: i64)
    requires
        i64::MIN + 32 <= pos <= i64::MAX - 32,
    ensures
        start == window_start(pos as int),
        start <= pos < start + 64,
        (start + 32) % 64 == 0,
{
    let effective_position = pos + WINDOW_OFFSET;
    if effective_position < 0 && effective_position % WINDOW_SIZE != 0 {
        (effective_position / WINDOW_SIZE - 1) * WINDOW_SIZE - WINDOW_OFFSET
    } else {
        effective_position / WINDOW_SIZE * WINDOW_SIZE - WINDOW_OFFSET
    }
}

/// The character that stands for a bit.
pub open spec fn cell(on: bool) -> char {
    if on {
        '\u{25A0}'
    } else {
        '\u{25A1}'
    }
}

/// The line that marks the head: a `v` above the head's cell.
pub open spec fn marker_line(position: int) -> Seq<char> {
    spaces((position - window_start(position)) as nat) + seq!['v']
}

/// The line of the 65 cells from `start` on.
pub open spec fn tape_line(tape: Set<int>, start: int) -> Seq<char> {
    Seq::new(65, |i: int| cell(tape.contains(start + i)))
}

/// `count` ticks, one every 16 cells.
pub open spec fn ticks(count: nat) -> Seq<char>
    decreases count,
{
    if count == 0 {
        Seq::empty()
    } else {
        ticks((count - 1) as nat) + left_aligned(seq!['|'], 16)
    }
}

/// The positions of the first `count` ticks, each at its tick.
pub open spec fn numbers(start: int, count: nat) -> Seq<char>
    decreases count,
{
    if count == 0 {
        Seq::empty()
    } else {
        numbers(start, (count - 1) as nat) + left_aligned(decimal(start + (count - 1) * 16), 16)
    }
}

/// The four lines that show the window of the tape that the head is in: the
/// head's marker, the cells, the ticks and their positions.
pub open spec fn window_lines(m: Machine) -> Seq<Seq<char>> {
    let start = window_start(m.position);
    seq![marker_line(m.position), tape_line(m.tape, start), ticks(5), numbers(start, 5)]
}

/// The line that gives the step count of a case.
pub open spec fn steps_line(steps: nat) -> Seq<char> {
    "      Steps: "@ + decimal(steps as int)
}

/// The lines that say how the case at `index` stands: its state, then its
/// step count if it is running or has succeeded, or what it failed in.
pub open spec fn case_lines(index: int, execution: TestCaseExecution) -> Seq<Seq<char>> {
    let number = right_aligned(decimal(index), 4);
    match state_of(execution@, execution.target()) {
        StateView::Pending => seq![number + ": Pending"@],
        StateView::Running => seq![number + ": Running"@, steps_line(execution@.steps)],
        StateView::Success => seq![number + ": Success"@, steps_line(execution@.steps)],
        StateView::Failure { errors } => seq![number + ": Failure"@] + errors.map_values(
            |error: Seq<char>| "       - "@ + error,
        ),
    }
}

/// The lines of all the cases, in order.
pub open spec fn cases_lines(executions: Seq<TestCaseExecution>) -> Seq<Seq<char>>
    decreases executions.len(),
{
    if executions.len() == 0 {
        Seq::empty()
    } else {
        cases_lines(executions.drop_last()) + case_lines(
            executions.len() - 1,
            executions.last(),
        )
    }
}

/// The window of the first case that has not halted, if there is one.
pub open spec fn current_lines(le: LevelExecution) -> Seq<Seq<char>> {
    let current = first_running(le.machines(), 0);
    if current < le.executions.len() {
        window_lines(le.machines()[current])
    } else {
        Seq::empty()
    }
}

/// The line that gives the steps of all cases together, once the cases are
/// finished.
pub open spec fn total_lines(le: LevelExecution) -> Seq<Seq<char>> {
    if finished(le.machines()) {
        seq!["Total steps: "@ + decimal(total_steps(le.machines()) as int)]
    } else {
        Seq::empty()
    }
}

/// Everything that is shown of a level execution.
pub open spec fn level_lines(le: LevelExecution) -> Seq<Seq<char>> {
    seq!["Level: "@ + le.level.name@, "Program: "@ + le.program.name@, "Test cases:"@]
        + cases_lines(le.executions@) + current_lines(le) + total_lines(le)
}

/// Whether the head is far enough from both ends of the positions that can
/// be stored for its window to be shown.
pub open spec fn window_fits(m: Machine) -> bool {
    i64::MIN + 32 <= m.position <= i64::MAX - 32
}

/// Whether the level execution can be shown: the window of the case at work,
/// and the steps of all cases together once they are finished.
pub open spec fn renderable(le: LevelExecution) -> bool {
    let current = first_running(le.machines(), 0);
    &&& current < le.executions.len() ==> window_fits(le.machines()[current])
    &&& finished(le.machines()) ==> total_steps(le.machines()) <= u64::MAX
}

fn cell_text(on: bool) -> (text: &'static str)
    ensures
        text@ == seq![cell(on)],
{
    proof {
        reveal_strlit("\u{25A0}");
        reveal_strlit("\u{25A1}");
    }
    let text = if on {
        "\u{25A0}"
    } else {
        "\u{25A1}"
    };
    text
}

/// The four lines that show the window of the tape that the head is in.
pub fn render_tce(tce: &TestCaseExecution) -> (lines: Vec<String>)
    requires
        window_fits(tce@),
    ensures
        lines.deep_view() == window_lines(tce@),
{
    let pos = tce.get_current_position();
    let from = self::from(pos);
    let to = from + WINDOW_SIZE + 1;
    proof {
        reveal_strlit("v");
        reveal_strlit("|");
    }

    let position_line = text::blank((pos - from) as usize).concat("v");
    assert(position_line@ =~= marker_line(pos as int));

    let mut tape_line = String::new();
    let mut i: i64 = from;
    while i < to
        invariant
            from <= i <= to,
            to == from + 65,
            tape_line@ == self::tape_line(tce@.tape, from as int).take(i - from),
        decreases to - i,
    {
        tape_line.append(cell_text(tce.get_tape_at(i)));
        i += 1;
    }
    assert(tape_line@ =~= self::tape_line(tce@.tape, from as int));

    let mut tick_line = String::new();
    let mut number_line = String::new();
    let mut n: i64 = 0;
    while n <= WINDOW_SIZE / 16
        invariant
            0 <= n <= 5,
            from == window_start(pos as int),
            i64::MIN + 32 <= pos <= i64::MAX - 32,
            from <= pos,
            tick_line@ == ticks(n as nat),
            number_line@ == numbers(from as int, n as nat),
            "|"@ == seq!['|'],
        decreases 5 - n,
    {
        tick_line.append(text::align_left("|", 16).as_str());
        number_line.append(text::align_left(text::decimal_i64(from + n * 16).as_str(), 16).as_str());
        n += 1;
    }

    let mut lines: Vec<String> = Vec::new();
    lines.push(position_line);
    lines.push(tape_line);
    lines.push(tick_line);
    lines.push(number_line);
    lines
}

fn case_number(index: usize) -> (text: String)
    ensures
        text@ == right_aligned(decimal(index as int), 4),
{
    text::align_right(text::decimal_usize(index).as_str(), 4)
}

fn steps_text(steps: u64) -> (text: String)
    ensures
        text@ == steps_line(steps as nat),
{
    String::from_str("      Steps: ").concat(text::decimal_u64(steps).as_str())
}

/// The lines that say how the case at `index` stands.
pub fn render_case(index: usize, tce: &TestCaseExecution) -> (lines: Vec<String>)
    ensures
        lines.deep_view() == case_lines(index as int, *tce),
{
    let mut lines: Vec<String> = Vec::new();
    match tce.get_state() {
        TestCaseExecutionState::Pending => {
            lines.push(case_number(index).concat(": Pending"));
        },
        TestCaseExecutionState::Running => {
            lines.push(case_number(index).concat(": Running"));
            lines.push(steps_text(tce.steps));
        },
        TestCaseExecutionState::Success => {
            lines.push(case_number(index).concat(": Success"));
            lines.push(steps_text(tce.steps));
        },
        TestCaseExecutionState::Failure { errors } => {
            lines.push(case_number(index).concat(": Failure"));
            let ghost head = lines.deep_view();
            let ghost listed = errors.deep_view().map_values(
                |error: Seq<char>| "       - "@ + error,
            );
            let mut i: usize = 0;
            while i < errors.len()
                invariant
                    i <= errors.len(),
                    lines.deep_view() == head + listed.take(i as int),
                    listed == errors.deep_view().map_values(
                        |error: Seq<char>| "       - "@ + error,
                    ),
                decreases errors.len() - i,
            {
                let ghost before = lines.deep_view();
                lines.push(String::from_str("       - ").concat(errors[i].as_str()));
                assert(lines.deep_view() =~= before.push("       - "@ + errors[i as int]@));
                i += 1;
            }
        },
    }
    lines
}

/// Whether the level execution can be shown.
pub fn can_render(le: &LevelExecution) -> (ok: bool)
    ensures
        ok == renderable(*le),
{
    let ghost ms = le.machines();
    let ghost at = first_running(ms, 0);
    proof {
        lemma_first_running(ms, 0);
    }
    if let Some(current) = le.current_execution() {
        let position = current.get_current_position();
        if position < i64::MIN + WINDOW_OFFSET || position > i64::MAX - WINDOW_OFFSET {
            return false;
        }
    }
    if le.is_terminated() {
        let mut steps: u64 = 0;
        let mut i: usize = 0;
        while i < le.executions.len()
            invariant
                i <= le.executions.len(),
                ms == le.machines(),
                at == first_running(ms, 0),
                0 <= at,
                at < le.executions.len() ==> window_fits(ms[at]),
                finished(ms),
                steps == total_steps(ms.take(i as int)),
            decreases le.executions.len() - i,
        {
            proof {
                assert(ms.take(i + 1).drop_last() =~= ms.take(i as int));
                lemma_total_steps_grows(ms, i + 1);
            }
            match steps.checked_add(le.executions[i].steps) {
                Some(sum) => {
                    steps = sum;
                },
                None => {
                    return false;
                },
            }
            i += 1;
        }
        assert(ms.take(ms.len() as int) =~= ms);
    }
    true
}

/// Everything that is shown of a level execution: the names of the level
/// and the program, how each case stands, the window of the case at work,
/// and, once the cases are finished, the steps of all cases together.
pub fn render(le: &LevelExecution) -> (lines: Vec<String>)
    requires
        renderable(*le),
    ensures
        lines.deep_view() == level_lines(*le),
{
    let mut lines: Vec<String> = Vec::new();
    lines.push(String::from_str("Level: ").concat(le.level.name.as_str()));
    lines.push(String::from_str("Program: ").concat(le.program.name.as_str()));
    lines.push(String::from_str("Test cases:"));
    let ghost head = lines.deep_view();
    let mut index: usize = 0;
    while index < le.executions.len()
        invariant
            index <= le.executions.len(),
            lines.deep_view() == head + cases_lines(le.executions@.take(index as int)),
        decreases le.executions.len() - index,
    {
        let ghost before = lines.deep_view();
        let mut more = render_case(index, &le.executions[index]);
        let ghost added = more.deep_view();
        lines.append(&mut more);
        proof {
            assert(le.executions@.take(index + 1).drop_last() =~= le.executions@.take(
                index as int,
            ));
            assert(before + added =~= head + cases_lines(le.executions@.take(index + 1)));
        }
        index += 1;
    }
    assert(le.executions@.take(le.executions.len() as int) =~= le.executions@);
    let ghost cases = lines.deep_view();
    proof {
        lemma_first_running(le.machines(), 0);
    }
    if let Some(tce) = le.current_execution() {
        let mut window = render_tce(tce);
        lines.append(&mut window);
    }
    assert(lines.deep_view() =~= cases + current_lines(*le));
    let ghost shown = lines.deep_view();
    if le.is_terminated() {
        lines.push(String::from_str("Total steps: ").concat(
            text::decimal_u64(le.get_steps()).as_str(),
        ));
    }
    assert(lines.deep_view() =~= shown + total_lines(*le));
    lines
}

} // verus!
