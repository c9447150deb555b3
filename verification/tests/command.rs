use std::collections::HashSet;
use tur::command::{
    is_plain, is_plain_row, level_rows, level_table, program_row, program_rows, program_table,
    starting_at, step_delay, table, ProgramFile, MIN_SLEEP,
};
use tur::level::{Level, Target, TestCase};
use tur::level_dto::LevelDto;
use tur::program_dto::{CardDto, InstructionDto, ProgramDto};
use tur::text::trim_end;

fn strings(list: &[&str]) -> Vec<String> {
    list.iter().map(|text| text.to_string()).collect()
}

fn halting(name: &str, card: &str, next: Option<&str>) -> ProgramDto {
    let halt = InstructionDto { write_symbol: None, move_direction: None, next_card: None };
    let on = InstructionDto {
        write_symbol: None,
        move_direction: None,
        next_card: next.map(|name| name.to_string()),
    };
    ProgramDto {
        name: name.to_string(),
        description: String::new(),
        initial_card: card.to_string(),
        cards: vec![CardDto { name: card.to_string(), instruction_on: on, instruction_off: halt }],
    }
}

fn stored(file_name: &str, content: Result<ProgramDto, String>) -> ProgramFile {
    ProgramFile { file_name: file_name.to_string(), content }
}

#[test]
fn table_is_laid_out_in_a_box() {
    let text = table(&strings(&["Name", "Status"]), &vec![strings(&["walker", "ok"]), strings(&["x", "builtin"])]);
    let expected = "\
+--------+---------+
| Name   | Status  |
+========+=========+
| walker | ok      |
+--------+---------+
| x      | builtin |
+--------+---------+
";
    assert_eq!(text, Some(expected.to_string()));
}

#[test]
fn table_differs_with_its_cells() {
    let titles = strings(&["Name"]);
    let one = table(&titles, &vec![strings(&["a"])]).unwrap();
    let other = table(&titles, &vec![strings(&["b"])]).unwrap();
    assert_ne!(one, other);
    assert!(one.contains("| a    |"));
    assert_ne!(one, "a");
}

#[test]
fn cells_with_an_escape_are_not_laid_out() {
    assert_eq!(table(&strings(&["Na\u{1b}me"]), &vec![strings(&["a"])]), None);
    assert_eq!(table(&strings(&["Name"]), &vec![strings(&["a"]), strings(&["b", "\u{1b}[31m"])]), None);
    assert!(is_plain("plain [31m text"));
    assert!(is_plain(""));
    assert!(!is_plain("\u{1b}"));
    assert!(!is_plain("abc\u{1b}"));
    assert!(is_plain_row(&strings(&["a", "b"])));
    assert!(!is_plain_row(&strings(&["a", "\u{1b}b"])));
    assert!(is_plain_row(&strings(&[])));
}

#[test]
fn row_of_a_program_that_reads() {
    let row = program_row(stored("walker.yaml", Ok(halting("Walker", "go", Some("go")))));
    assert_eq!(row, strings(&["Walker", "ok"]));
}

#[test]
fn row_of_a_program_that_is_wrong() {
    let row = program_row(stored("walker.yaml", Ok(halting("Walker", "go", Some("gone")))));
    assert_eq!(row, strings(&["walker", "Card does not exist: gone"]));
    let row = program_row(stored("a.yaml.yaml", Ok(halting("", "go", None))));
    assert_eq!(row, strings(&["a", "Name cannot be empty"]));
}

#[test]
fn row_of_a_file_that_could_not_be_read() {
    let row = program_row(stored("notes.txt", Err("missing field `name`".to_string())));
    assert_eq!(row, strings(&["notes.txt", "missing field `name`"]));
}

#[test]
fn program_rows_end_with_the_catalogue() {
    let rows = program_rows(vec![
        stored("b.yaml", Ok(halting("B", "go", None))),
        stored("a.yaml", Err("broken".to_string())),
    ]);
    let expected = vec![
        strings(&["B", "ok"]),
        strings(&["a", "broken"]),
        strings(&["just_stop", "builtin"]),
        strings(&["light_right", "builtin"]),
        strings(&["light_left", "builtin"]),
        strings(&["go_right", "builtin"]),
        strings(&["light_the_world", "builtin"]),
    ];
    assert_eq!(rows, expected);
    assert_eq!(program_rows(vec![]).len(), 5);
}

#[test]
fn level_rows_begin_with_the_catalogue() {
    let custom = LevelDto {
        name: "mine".to_string(),
        description: String::new(),
        cases: vec![],
        target: None,
    };
    let expected = vec![
        strings(&["sandbox", "false", "builtin"]),
        strings(&["move8", "false", "builtin"]),
        strings(&["night_time", "false", "builtin"]),
        strings(&["moth", "false", "builtin"]),
        strings(&["mine", "false", "custom"]),
    ];
    assert_eq!(level_rows(vec![custom]), expected);
}

#[test]
fn table_of_programs() {
    let expected = "\
+-----------------+---------+
| Name            | Status  |
+=================+=========+
| just_stop       | builtin |
+-----------------+---------+
| light_right     | builtin |
+-----------------+---------+
| light_left      | builtin |
+-----------------+---------+
| go_right        | builtin |
+-----------------+---------+
| light_the_world | builtin |
+-----------------+---------+
";
    assert_eq!(program_table(vec![]), Some(expected.to_string()));
    assert_eq!(program_table(vec![stored("\u{1b}.yaml", Err("x".to_string()))]), None);
}

#[test]
fn table_of_levels() {
    let expected = "\
+------------+--------+---------+
| Name       | Solved | Type    |
+============+========+=========+
| sandbox    | false  | builtin |
+------------+--------+---------+
| move8      | false  | builtin |
+------------+--------+---------+
| night_time | false  | builtin |
+------------+--------+---------+
| moth       | false  | builtin |
+------------+--------+---------+
";
    assert_eq!(level_table(vec![]), Some(expected.to_string()));
}

#[test]
fn trailing_suffixes_are_trimmed() {
    assert_eq!(trim_end("walker.yaml", ".yaml"), "walker");
    assert_eq!(trim_end("walker.yaml.yaml", ".yaml"), "walker");
    assert_eq!(trim_end("walker.yaml.txt", ".yaml"), "walker.yaml.txt");
    assert_eq!(trim_end(".yaml", ".yaml"), "");
    assert_eq!(trim_end("yaml", ".yaml"), "yaml");
    assert_eq!(trim_end("", ".yaml"), "");
    assert_eq!(trim_end("abc", ""), "abc");
    assert_eq!(trim_end("\u{25A0}.yaml", ".yaml"), "\u{25A0}");
    for name in ["a.yaml", "yaml.yaml.yamlx", "x.yam", ".yaml.yaml"] {
        assert_eq!(trim_end(name, ".yaml"), name.trim_end_matches(".yaml"));
    }
}

#[test]
fn delay_is_at_least_the_minimum() {
    assert_eq!(MIN_SLEEP, 10);
    assert_eq!(step_delay(0), 10);
    assert_eq!(step_delay(9), 10);
    assert_eq!(step_delay(10), 10);
    assert_eq!(step_delay(500), 500);
    assert_eq!(step_delay(u64::MAX), u64::MAX);
}

#[test]
fn run_can_start_at_a_later_case() {
    let level = Level {
        name: "three".to_string(),
        description: "cases".to_string(),
        cases: vec![
            TestCase { initial_tape: HashSet::from([1]), target: None },
            TestCase { initial_tape: HashSet::from([2]), target: Some(Target::position(2)) },
            TestCase { initial_tape: HashSet::from([3]), target: None },
        ],
    };
    let rest = starting_at(level.clone(), 1);
    assert_eq!(rest.name, "three");
    assert_eq!(rest.description, "cases");
    assert_eq!(rest.cases.len(), 2);
    assert_eq!(rest.cases[0].initial_tape, HashSet::from([2]));
    assert_eq!(rest.cases[0].target, Some(Target::Position { position: 2 }));
    assert_eq!(rest.cases[1].initial_tape, HashSet::from([3]));
    assert_eq!(starting_at(level.clone(), 0).cases.len(), 3);
    assert_eq!(starting_at(level, 3).cases.len(), 0);
}
