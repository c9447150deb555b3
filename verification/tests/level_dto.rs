use std::collections::HashSet;
use tur::level::{Level, Target, TestCase};
use tur::level_dto::{LevelDto, TargetDto, TestCaseDto};
use tur::levels;

#[test]
fn level_written_without_cases_has_one_blank_case() {
    let dto = LevelDto {
        name: "sandbox".to_string(),
        description: "".to_string(),
        cases: Vec::new(),
        target: None,
    };
    let level = Level::from(dto);
    assert_eq!(level.name, "sandbox");
    assert_eq!(level.description, "");
    assert_eq!(level.cases.len(), 1);
    assert!(level.cases[0].initial_tape.is_empty());
    assert!(level.cases[0].target.is_none());
}

#[test]
fn blank_case_ignores_the_level_target() {
    let dto = LevelDto {
        name: "bare".to_string(),
        description: String::new(),
        cases: Vec::new(),
        target: Some(TargetDto::Position { position: 4 }),
    };
    let level = Level::from(dto);
    assert_eq!(level.cases.len(), 1);
    assert!(level.cases[0].target.is_none());
}

#[test]
fn level_target_stands_in_where_a_case_has_none() {
    let dto = LevelDto {
        name: "mixed".to_string(),
        description: "two".to_string(),
        cases: vec![
            TestCaseDto { initial_tape: vec![3, 3, -1], target: None },
            TestCaseDto {
                initial_tape: vec![],
                target: Some(TargetDto::Position { position: -7 }),
            },
        ],
        target: Some(TargetDto::TapeExact { tape: vec![1, 2, 2] }),
    };
    let level = Level::from(dto);
    assert_eq!(level.description, "two");
    assert_eq!(level.cases.len(), 2);
    assert_eq!(level.cases[0].initial_tape, HashSet::from([-1, 3]));
    assert_eq!(level.cases[0].target, Some(Target::TapeExact { tape: HashSet::from([1, 2]) }));
    assert!(level.cases[1].initial_tape.is_empty());
    assert_eq!(level.cases[1].target, Some(Target::Position { position: -7 }));
}

#[test]
fn targets_convert_both_ways() {
    assert_eq!(
        Target::from(&TargetDto::Position { position: 5 }),
        Target::Position { position: 5 }
    );
    assert_eq!(
        Target::from(&TargetDto::TapeExact { tape: vec![2, 1, 2] }),
        Target::TapeExact { tape: HashSet::from([1, 2]) }
    );
    assert_eq!(
        TargetDto::from(Target::Position { position: -5 }),
        TargetDto::Position { position: -5 }
    );
    match TargetDto::from(Target::TapeExact { tape: HashSet::from([4, 6, 5]) }) {
        TargetDto::TapeExact { mut tape } => {
            tape.sort();
            assert_eq!(tape, vec![4, 5, 6]);
        }
        other => panic!("expected a tape, got {:?}", other),
    }
}

#[test]
fn level_is_written_case_by_case() {
    let level = Level {
        name: "walks".to_string(),
        description: "to and fro".to_string(),
        cases: vec![
            TestCase { initial_tape: HashSet::from([7]), target: Some(Target::position(7)) },
            TestCase { initial_tape: HashSet::new(), target: None },
        ],
    };
    let dto = LevelDto::from(level);
    let expected = LevelDto {
        name: "walks".to_string(),
        description: "to and fro".to_string(),
        cases: vec![
            TestCaseDto { initial_tape: vec![7], target: Some(TargetDto::Position { position: 7 }) },
            TestCaseDto { initial_tape: vec![], target: None },
        ],
        target: None,
    };
    assert_eq!(dto, expected);
}

#[test]
fn written_levels_read_back() {
    for level in levels::builtins() {
        let copy = level.clone();
        let back = Level::from(LevelDto::from(level));
        assert_eq!(back.name, copy.name);
        assert_eq!(back.description, copy.description);
        assert_eq!(back.cases.len(), copy.cases.len());
        for (a, b) in back.cases.iter().zip(copy.cases.iter()) {
            assert_eq!(a.initial_tape, b.initial_tape);
            assert_eq!(a.target, b.target);
        }
    }
}

#[test]
fn default_case_is_blank() {
    let case = TestCase::default();
    assert!(case.initial_tape.is_empty());
    assert!(case.target.is_none());
}

#[test]
fn target_builders() {
    assert_eq!(Target::position(8), Target::Position { position: 8 });
    assert_eq!(Target::tape(&[3, 1, 3]), Target::TapeExact { tape: HashSet::from([1, 3]) });
    assert_eq!(Target::tape(&[]), Target::TapeExact { tape: HashSet::new() });
}
