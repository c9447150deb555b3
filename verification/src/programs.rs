//! The programs that come with the interpreter.

use crate::program::{Card, CardView, Direction, Instruction, Program, ProgramView};
use vstd::prelude::*;
use vstd::string::StringExecFns;

verus! {

broadcast use vstd::string::group_string_axioms;

/// The instruction that writes `write_symbol`, if any, moves in
/// `move_direction` and continues at card `next_card`.
pub open spec fn onward(
    write_symbol: Option<bool>,
    move_direction: Direction,
    next_card: usize,
) -> Instruction {
    Instruction { write_symbol, move_direction: Some(move_direction), next_card: Some(next_card) }
}

/// A program of one card, with no description.
pub open spec fn single(name: Seq<char>, card: CardView) -> ProgramView {
    ProgramView { name, description: Seq::empty(), initial_card: 0, cards: seq![card] }
}

/// The program that halts at its first step and changes nothing.
pub open spec fn just_stop_view() -> ProgramView {
    single(
        "just_stop"@,
        CardView {
            name: "Terminate"@,
            tape_on: Instruction::halting(),
            tape_off: Instruction::halting(),
        },
    )
}

/// The program that turns bits on to the right, and steps back left off a
/// bit that is on already.
pub open spec fn light_right_view() -> ProgramView {
    single(
        "light_right"@,
        CardView {
            name: "Light right"@,
            tape_on: onward(None, Direction::Left, 0),
            tape_off: onward(Some(true), Direction::Right, 0),
        },
    )
}

/// The program that walks left for ever and turns every off bit on.
pub open spec fn light_left_view() -> ProgramView {
    single(
        "light_left"@,
        CardView {
            name: "Light left"@,
            tape_on: onward(None, Direction::Left, 0),
            tape_off: onward(Some(true), Direction::Left, 0),
        },
    )
}

/// The program that walks right for ever and writes nothing.
pub open spec fn go_right_view() -> ProgramView {
    single(
        "go_right"@,
        CardView {
            name: "Go right"@,
            tape_on: onward(None, Direction::Right, 0),
            tape_off: onward(None, Direction::Right, 0),
        },
    )
}

/// The program of two cards that walks to and fro over the bits that are on
/// and turns on the first off bit at either end in turn.
pub open spec fn light_the_world_view() -> ProgramView {
    ProgramView {
        name: "light_the_world"@,
        description: Seq::empty(),
        initial_card: 0,
        cards: seq![
            CardView {
                name: "LEFT"@,
                tape_on: onward(None, Direction::Left, 0),
                tape_off: onward(Some(true), Direction::Right, 1),
            },
            CardView {
                name: "RIGHT"@,
                tape_on: onward(None, Direction::Right, 1),
                tape_off: onward(Some(true), Direction::Left, 0),
            },
        ],
    }
}

/// The programs of the catalogue, in order.
pub open spec fn catalogue() -> Seq<ProgramView> {
    seq![
        just_stop_view(),
        light_right_view(),
        light_left_view(),
        go_right_view(),
        light_the_world_view(),
    ]
}

/// The programs of a list as mathematical values.
pub open spec fn program_views(programs: Seq<Program>) -> Seq<ProgramView> {
    programs.map_values(|program: Program| program@)
}

/// The index of the first program, from `from` on, that has this name; the
/// number of programs if none has.
pub open spec fn named_from(programs: Seq<ProgramView>, name: Seq<char>, from: int) -> int
    decreases programs.len() - from,
{
    if from < 0 || from >= programs.len() {
        programs.len() as int
    } else if programs[from].name == name {
        from
    } else {
        named_from(programs, name, from + 1)
    }
}

/// Every program of the catalogue is valid.
pub proof fn lemma_catalogue_valid()
    ensures
        forall|i: int| 0 <= i < catalogue().len() ==> (#[trigger] catalogue()[i]).valid(),
{
}

fn single_card(name: &str, card: Card) -> (program: Program)
    ensures
        program@ == single(name@, card@),
{
    let mut cards: Vec<Card> = Vec::new();
    cards.push(card);
    let program = Program {
        name: String::from_str(name),
        description: String::new(),
        initial_card: 0,
        cards,
    };
    assert(program@.cards =~= seq![card@]);
    program
}

/// The program that halts at its first step and changes nothing.
pub fn just_stop() -> (program: Program)
    ensures
        program@ == just_stop_view(),
{
    single_card("just_stop", Card::terminate())
}

/// The program that turns bits on to the right, and steps back left off a
/// bit that is on already.
pub fn light_right() -> (program: Program)
    ensures
        program@ == light_right_view(),
{
    single_card("light_right", Card::light_right())
}

/// The program that walks left for ever and turns every off bit on.
pub fn light_left() -> (program: Program)
    ensures
        program@ == light_left_view(),
{
    single_card("light_left", Card::light_left())
}

/// The program that walks right for ever and writes nothing.
pub fn go_right() -> (program: Program)
    ensures
        program@ == go_right_view(),
{
    single_card("go_right", Card::go_right())
}

/// The program of two cards that walks to and fro over the bits that are on
/// and turns on the first off bit at either end in turn.
pub fn light_the_world() -> (program: Program)
    ensures
        program@ == light_the_world_view(),
{
    let left = Card {
        name: "LEFT".to_string(),
        tape_on: Instruction {
            write_symbol: None,
            move_direction: Some(Direction::Left),
            next_card: Some(0),
        },
        tape_off: Instruction {
            write_symbol: Some(true),
            move_direction: Some(Direction::Right),
            next_card: Some(1),
        },
    };
    let right = Card {
        name: "RIGHT".to_string(),
        tape_on: Instruction {
            write_symbol: None,
            move_direction: Some(Direction::Right),
            next_card: Some(1),
        },
        tape_off: Instruction {
            write_symbol: Some(true),
            move_direction: Some(Direction::Left),
            next_card: Some(0),
        },
    };
    let ghost views = seq![left@, right@];
    let mut cards: Vec<Card> = Vec::new();
    cards.push(left);
    cards.push(right);
    let program = Program {
        name: "light_the_world".to_string(),
        description: String::new(),
        initial_card: 0,
        cards,
    };
    assert(program@.cards =~= views);
    program
}

/// The programs that come with the interpreter, in order.
pub fn builtins() -> (programs: Vec<Program>)
    ensures
        program_views(programs@) == catalogue(),
{
    let mut programs: Vec<Program> = Vec::new();
    programs.push(just_stop());
    programs.push(light_right());
    programs.push(light_left());
    programs.push(go_right());
    programs.push(light_the_world());
    programs
}

/// The first program of the catalogue that has this name, if there is one.
pub fn find_builtin(name: &str) -> (found: Option<Program>)
    ensures
        match found {
            Some(program) => {
                let index = named_from(catalogue(), name@, 0);
                index < catalogue().len() && program@ == catalogue()[index]
            },
            None => named_from(catalogue(), name@, 0) == catalogue().len(),
        },
{
    let wanted = String::from_str(name);
    let programs = builtins();
    let ghost all = programs@;
    for program in it: programs
        invariant
            it.seq() == all,
            program_views(all) == catalogue(),
            named_from(catalogue(), name@, 0) == named_from(catalogue(), name@, it.index()),
            wanted@ == name@,
    {
        if program.name == wanted {
            return Some(program);
        }
    }
    None
}

/// The name of the file that holds the program of this name.
pub fn file_name(name: &str) -> (file: String)
    ensures
        file@ == name@ + ".yaml"@,
{
    String::from_str(name).concat(".yaml")
}

} // verus!
