use tur::program::{Card, Direction, Instruction, Program};
use tur::program_dto::{
    find, retain_duplicates, CardDto, DirectionDto, InstructionDto, Problem, ProgramDto,
};
use tur::programs;

fn halt() -> InstructionDto {
    InstructionDto { write_symbol: None, move_direction: None, next_card: None }
}

fn go(direction: DirectionDto, next: &str) -> InstructionDto {
    InstructionDto {
        write_symbol: Some(true),
        move_direction: Some(direction),
        next_card: Some(next.to_string()),
    }
}

fn card(name: &str, on: InstructionDto, off: InstructionDto) -> CardDto {
    CardDto { name: name.to_string(), instruction_on: on, instruction_off: off }
}

fn written(name: &str, initial: &str, cards: Vec<CardDto>) -> ProgramDto {
    ProgramDto {
        name: name.to_string(),
        description: "a test".to_string(),
        initial_card: initial.to_string(),
        cards,
    }
}

fn names(list: &[&str]) -> Vec<String> {
    list.iter().map(|name| name.to_string()).collect()
}

fn same_instruction(a: &Instruction, b: &Instruction) -> bool {
    let same_move = match (a.move_direction, b.move_direction) {
        (None, None) => true,
        (Some(Direction::Left), Some(Direction::Left)) => true,
        (Some(Direction::Right), Some(Direction::Right)) => true,
        _ => false,
    };
    a.write_symbol == b.write_symbol && same_move && a.next_card == b.next_card
}

fn same_program(a: &Program, b: &Program) -> bool {
    a.name == b.name
        && a.description == b.description
        && a.initial_card == b.initial_card
        && a.cards.len() == b.cards.len()
        && a.cards.iter().zip(b.cards.iter()).all(|(x, y)| {
            x.name == y.name
                && same_instruction(&x.tape_on, &y.tape_on)
                && same_instruction(&x.tape_off, &y.tape_off)
        })
}

#[test]
fn names_are_resolved_to_indices() {
    let dto = written(
        "ping pong",
        "pong",
        vec![
            card("ping", go(DirectionDto::Left, "pong"), halt()),
            card("pong", go(DirectionDto::Right, "ping"), go(DirectionDto::Right, "pong")),
        ],
    );
    let program = Program::try_from(dto).unwrap();
    assert_eq!(program.name, "ping pong");
    assert_eq!(program.description, "a test");
    assert_eq!(program.initial_card, 1);
    assert_eq!(program.cards.len(), 2);
    assert_eq!(program.cards[0].name, "ping");
    assert_eq!(program.cards[0].tape_on.next_card, Some(1));
    assert_eq!(program.cards[0].tape_on.write_symbol, Some(true));
    assert!(matches!(program.cards[0].tape_on.move_direction, Some(Direction::Left)));
    assert_eq!(program.cards[0].tape_off.next_card, None);
    assert_eq!(program.cards[0].tape_off.write_symbol, None);
    assert!(program.cards[0].tape_off.move_direction.is_none());
    assert_eq!(program.cards[1].tape_on.next_card, Some(0));
    assert_eq!(program.cards[1].tape_off.next_card, Some(1));
    assert!(matches!(program.cards[1].tape_off.move_direction, Some(Direction::Right)));
    assert!(program.is_valid());
}

#[test]
fn a_next_card_that_does_not_exist_is_refused() {
    let dto = written(
        "broken",
        "only",
        vec![card("only", go(DirectionDto::Left, "nowhere"), halt())],
    );
    let error = Program::try_from(dto).unwrap_err();
    assert_eq!(error.problems, vec![Problem::CardNotFound { name: "nowhere".to_string() }]);
    assert_eq!(error.message(), "Card does not exist: nowhere");
}

#[test]
fn an_empty_name_is_refused() {
    let error = Program::try_from(written("", "a", vec![card("a", halt(), halt())])).unwrap_err();
    assert_eq!(error.problems, vec![Problem::EmptyName]);
    assert_eq!(error.message(), "Name cannot be empty");
}

#[test]
fn shared_card_names_are_refused() {
    let dto = written(
        "twins",
        "a",
        vec![
            card("a", halt(), halt()),
            card("b", halt(), halt()),
            card("a", halt(), halt()),
            card("b", halt(), halt()),
            card("a", halt(), halt()),
        ],
    );
    let error = Program::try_from(dto).unwrap_err();
    assert_eq!(error.problems, vec![Problem::DuplicateCardNames { names: names(&["a", "b"]) }]);
    assert_eq!(error.message(), "Duplicate card names: a, b");
}

#[test]
fn an_initial_card_that_does_not_exist_is_refused() {
    let error =
        Program::try_from(written("lost", "start", vec![card("a", halt(), halt())])).unwrap_err();
    assert_eq!(error.problems, vec![Problem::InitialCardNotFound { name: "start".to_string() }]);
    assert_eq!(error.message(), "Initial card not found: start");
}

#[test]
fn a_program_without_cards_has_no_initial_card() {
    let error = Program::try_from(written("bare", "", vec![])).unwrap_err();
    assert_eq!(error.problems, vec![Problem::InitialCardNotFound { name: String::new() }]);
}

#[test]
fn every_problem_is_named() {
    let dto = written(
        "",
        "start",
        vec![
            card("a", go(DirectionDto::Left, "x"), go(DirectionDto::Left, "a")),
            card("a", go(DirectionDto::Left, "y"), go(DirectionDto::Right, "z")),
        ],
    );
    let error = Program::try_from(dto).unwrap_err();
    assert_eq!(
        error.problems,
        vec![
            Problem::EmptyName,
            Problem::DuplicateCardNames { names: names(&["a"]) },
            Problem::InitialCardNotFound { name: "start".to_string() },
            Problem::CardNotFound { name: "x".to_string() },
            Problem::CardNotFound { name: "y".to_string() },
            Problem::CardNotFound { name: "z".to_string() },
        ]
    );
    assert_eq!(
        error.message(),
        "Name cannot be empty; Duplicate card names: a; Initial card not found: start; \
         Card does not exist: x; Card does not exist: y; Card does not exist: z"
    );
}

#[test]
fn problems_in_words() {
    assert_eq!(Problem::EmptyName.message(), "Name cannot be empty");
    assert_eq!(
        Problem::DuplicateCardNames { names: names(&["x", "y", "z"]) }.message(),
        "Duplicate card names: x, y, z"
    );
    assert_eq!(
        Problem::InitialCardNotFound { name: "go".to_string() }.message(),
        "Initial card not found: go"
    );
    assert_eq!(Problem::CardNotFound { name: "go".to_string() }.message(), "Card does not exist: go");
}

#[test]
fn instruction_is_resolved_among_the_names() {
    let known = names(&["a", "b", "c"]);
    let instruction = go(DirectionDto::Right, "c").try_into_with_map(&known).unwrap();
    assert_eq!(instruction.next_card, Some(2));
    assert_eq!(instruction.write_symbol, Some(true));
    assert!(matches!(instruction.move_direction, Some(Direction::Right)));
    let stop = halt().try_into_with_map(&known).unwrap();
    assert_eq!(stop.next_card, None);
    assert_eq!(
        go(DirectionDto::Right, "d").try_into_with_map(&known).unwrap_err(),
        Problem::CardNotFound { name: "d".to_string() }
    );
}

#[test]
fn card_names_both_of_its_lost_references() {
    let known = names(&["a"]);
    let both = card("a", go(DirectionDto::Left, "p"), go(DirectionDto::Left, "q"));
    assert_eq!(
        CardDto::try_into(&both, &known).unwrap_err(),
        vec![
            Problem::CardNotFound { name: "p".to_string() },
            Problem::CardNotFound { name: "q".to_string() },
        ]
    );
    let second = card("a", halt(), go(DirectionDto::Left, "q"));
    assert_eq!(
        CardDto::try_into(&second, &known).unwrap_err(),
        vec![Problem::CardNotFound { name: "q".to_string() }]
    );
    let fine = card("a", go(DirectionDto::Left, "a"), halt());
    let resolved: Card = CardDto::try_into(&fine, &known).unwrap();
    assert_eq!(resolved.name, "a");
    assert_eq!(resolved.tape_on.next_card, Some(0));
}

#[test]
fn find_gives_the_first_index() {
    let known = names(&["a", "b", "a", "c"]);
    assert_eq!(find(&known, &"a".to_string()), Some(0));
    assert_eq!(find(&known, &"c".to_string()), Some(3));
    assert_eq!(find(&known, &"d".to_string()), None);
    assert_eq!(find(&vec![], &"a".to_string()), None);
}

#[test]
fn retain_duplicates_keeps_each_repeated_name_once() {
    assert_eq!(retain_duplicates(names(&["a", "b", "c"])), names(&[]));
    assert_eq!(retain_duplicates(names(&["a", "b", "a"])), names(&["a"]));
    assert_eq!(retain_duplicates(names(&["b", "a", "a", "b", "a", "b"])), names(&["a", "b"]));
    assert_eq!(retain_duplicates(vec![]), names(&[]));
}

#[test]
fn directions_convert_both_ways() {
    assert!(matches!(Direction::from(DirectionDto::Left), Direction::Left));
    assert!(matches!(Direction::from(DirectionDto::Right), Direction::Right));
    assert_eq!(DirectionDto::from(Direction::Left), DirectionDto::Left);
    assert_eq!(DirectionDto::from(Direction::Right), DirectionDto::Right);
}

#[test]
fn program_is_written_with_names_for_indices() {
    let dto = ProgramDto::from(programs::light_the_world());
    let expected = ProgramDto {
        name: "light_the_world".to_string(),
        description: String::new(),
        initial_card: "LEFT".to_string(),
        cards: vec![
            CardDto {
                name: "LEFT".to_string(),
                instruction_on: InstructionDto {
                    write_symbol: None,
                    move_direction: Some(DirectionDto::Left),
                    next_card: Some("LEFT".to_string()),
                },
                instruction_off: InstructionDto {
                    write_symbol: Some(true),
                    move_direction: Some(DirectionDto::Right),
                    next_card: Some("RIGHT".to_string()),
                },
            },
            CardDto {
                name: "RIGHT".to_string(),
                instruction_on: InstructionDto {
                    write_symbol: None,
                    move_direction: Some(DirectionDto::Right),
                    next_card: Some("RIGHT".to_string()),
                },
                instruction_off: InstructionDto {
                    write_symbol: Some(true),
                    move_direction: Some(DirectionDto::Left),
                    next_card: Some("LEFT".to_string()),
                },
            },
        ],
    };
    assert_eq!(dto, expected);
}

#[test]
fn written_programs_read_back() {
    for program in programs::builtins() {
        let copy = program.clone();
        let back = Program::try_from(ProgramDto::from(program)).unwrap();
        assert!(same_program(&back, &copy));
    }
}

#[test]
fn card_is_written_among_names() {
    let known = names(&["first", "second"]);
    let written = CardDto::from_card(programs::light_the_world().cards.remove(1), &known);
    assert_eq!(written.name, "RIGHT");
    assert_eq!(written.instruction_on.next_card, Some("second".to_string()));
    assert_eq!(written.instruction_off.next_card, Some("first".to_string()));
    let stop = InstructionDto::from_instruction(
        Instruction { write_symbol: Some(false), move_direction: None, next_card: None },
        &known,
    );
    assert_eq!(
        stop,
        InstructionDto { write_symbol: Some(false), move_direction: None, next_card: None }
    );
}
