use std::collections::HashSet;
use tur::execution::{LevelExecution, TestCaseExecution};
use tur::level::{Level, Target, TestCase};
use tur::programs;
use tur::render::{can_render, render, render_case, render_tce};

const TICKS: &str =
    "|               |               |               |               |               ";

fn cells(on: &[usize]) -> String {
    (0..65).map(|i| if on.contains(&i) { '\u{25A0}' } else { '\u{25A1}' }).collect()
}

#[test]
fn window_of_a_fresh_execution() {
    let execution = TestCaseExecution::new(
        TestCase { initial_tape: HashSet::from([0, -32, 32, 33, -33]), target: None },
        programs::go_right(),
    );
    let lines = render_tce(&execution);
    assert_eq!(lines.len(), 4);
    assert_eq!(lines[0], format!("{}v", " ".repeat(32)));
    assert_eq!(lines[1], cells(&[0, 32, 64]));
    assert_eq!(lines[2], TICKS);
    assert_eq!(
        lines[3],
        "-32             -16             0               16              32              "
    );
}

#[test]
fn window_moves_with_the_head() {
    let mut execution = TestCaseExecution::new(TestCase::default(), programs::light_left());
    execution.run(33);
    assert_eq!(execution.get_current_position(), -33);
    let lines = render_tce(&execution);
    assert_eq!(lines[0], format!("{}v", " ".repeat(63)));
    assert_eq!(lines[1], cells(&[64]));
    assert_eq!(
        lines[3],
        "-96             -80             -64             -48             -32             "
    );
}

#[test]
fn case_lines_by_state() {
    let case = TestCase { initial_tape: HashSet::new(), target: Some(Target::position(2)) };
    let mut execution = TestCaseExecution::new(case, programs::go_right());
    assert_eq!(render_case(0, &execution), vec!["   0: Pending"]);
    execution.run(3);
    assert_eq!(render_case(12, &execution), vec!["  12: Running", "      Steps: 3"]);
    execution.current_card_index = None;
    assert_eq!(
        render_case(12345, &execution),
        vec!["12345: Failure", "       - Wrong final position: wanted 2 but was 3"]
    );
    execution.current_position = 2;
    assert_eq!(render_case(7, &execution), vec!["   7: Success", "      Steps: 3"]);
}

fn two_cases() -> Level {
    Level {
        name: "pair".to_string(),
        description: String::new(),
        cases: vec![
            TestCase { initial_tape: HashSet::from([1]), target: Some(Target::tape(&[1])) },
            TestCase { initial_tape: HashSet::new(), target: Some(Target::position(5)) },
        ],
    }
}

#[test]
fn level_lines_while_at_work() {
    let mut execution = LevelExecution::new(two_cases(), programs::just_stop());
    assert!(can_render(&execution));
    execution.step();
    let lines = render(&execution);
    let expected = vec![
        "Level: pair".to_string(),
        "Program: just_stop".to_string(),
        "Test cases:".to_string(),
        "   0: Success".to_string(),
        "      Steps: 1".to_string(),
        "   1: Pending".to_string(),
        format!("{}v", " ".repeat(32)),
        cells(&[]),
        TICKS.to_string(),
        "-32             -16             0               16              32              "
            .to_string(),
    ];
    assert_eq!(lines, expected);
}

#[test]
fn level_lines_once_finished() {
    let mut execution = LevelExecution::new(two_cases(), programs::just_stop());
    execution.step();
    execution.step();
    assert!(execution.is_terminated());
    assert!(can_render(&execution));
    let lines = render(&execution);
    let expected = vec![
        "Level: pair",
        "Program: just_stop",
        "Test cases:",
        "   0: Success",
        "      Steps: 1",
        "   1: Failure",
        "       - Wrong final position: wanted 5 but was 0",
        "Total steps: 2",
    ];
    assert_eq!(lines, expected);
}

#[test]
fn what_cannot_be_shown_is_told() {
    let mut execution = LevelExecution::new(two_cases(), programs::go_right());
    execution.executions[0].current_position = i64::MAX - 31;
    assert!(!can_render(&execution));
    execution.executions[0].current_position = i64::MAX - 32;
    assert!(can_render(&execution));
    execution.executions[0].current_position = i64::MIN + 31;
    assert!(!can_render(&execution));
    execution.executions[0].current_position = 0;
    execution.executions[0].current_card_index = None;
    execution.executions[1].current_card_index = None;
    execution.executions[0].steps = u64::MAX;
    execution.executions[1].steps = 1;
    assert!(!can_render(&execution));
    execution.executions[1].steps = 0;
    assert!(can_render(&execution));
}
