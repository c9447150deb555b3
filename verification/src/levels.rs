//! The levels that come with the interpreter.

use crate::level::{Level, LevelView, Target, TargetView, TestCase, TestCaseView};
use crate::level_dto::{LevelDto, TargetDto, TestCaseDto};
use crate::tape;
use crate::tape::positions;
use std::collections::HashSet;
use vstd::prelude::*;
use vstd::string::StringExecFns;

verus! {

broadcast use vstd::string::group_string_axioms;

/// The case that starts with one bit on and wants nothing.
pub open spec fn lit(position: int) -> TestCaseView {
    TestCaseView { initial_tape: set![position], target: None }
}

/// The case that starts with these bits on and wants the head at `wanted`.
pub open spec fn walk(on: Set<int>, wanted: int) -> TestCaseView {
    TestCaseView { initial_tape: on, target: Some(TargetView::Position { position: wanted }) }
}

/// The case that starts with one bit on and wants every bit off.
pub open spec fn dark(position: int) -> TestCaseView {
    TestCaseView {
        initial_tape: set![position],
        target: Some(TargetView::TapeExact { tape: Set::empty() }),
    }
}

/// The level with one case that wants nothing: any halt is a success.
pub open spec fn sandbox_view() -> LevelView {
    LevelView {
        name: "sandbox"@,
        description: Seq::empty(),
        cases: seq![TestCaseView::blank()],
    }
}

/// The level that wants the head at 8 on three different tapes.
pub open spec fn move_eight_right_view() -> LevelView {
    LevelView {
        name: "move8"@,
        description: "Move eight steps to the right, and terminate the program"@,
        cases: seq![
            walk(set![8], 8),
            walk(Set::empty(), 8),
            walk(set![2, 3, 5, 7, 11, 13], 8),
        ],
    }
}

/// The level that wants the one bit that is on, at 3, 8 or 0, turned off.
pub open spec fn night_time_view() -> LevelView {
    LevelView {
        name: "night_time"@,
        description: "At some point >= 0, there's a light on. Turn it off."@,
        cases: seq![dark(3), dark(8), dark(0)],
    }
}

/// The level that wants the head on the one bit that is on: at 18, -13 or 0.
pub open spec fn moth_view() -> LevelView {
    LevelView {
        name: "moth"@,
        description: "At some position there is a light on. Halt the program on that position."@,
        cases: seq![walk(set![18], 18), walk(set![-13], -13), walk(set![0], 0)],
    }
}

/// The levels of the catalogue, in order.
pub open spec fn catalogue() -> Seq<LevelView> {
    seq![sandbox_view(), move_eight_right_view(), night_time_view(), moth_view()]
}

/// The levels of a list as mathematical values.
pub open spec fn level_views(levels: Seq<Level>) -> Seq<LevelView> {
    levels.map_values(|level: Level| level@)
}

/// The index of the first level, from `from` on, that has this name; the
/// number of levels if none has.
pub open spec fn named_from(levels: Seq<LevelView>, name: Seq<char>, from: int) -> int
    decreases levels.len() - from,
{
    if from < 0 || from >= levels.len() {
        levels.len() as int
    } else if levels[from].name == name {
        from
    } else {
        named_from(levels, name, from + 1)
    }
}

/// The integers of the tape on which only `position` is on.
proof fn lemma_one(position: i64)
    ensures
        positions(seq![position].to_set()) == set![position as int],
{
    assert(seq![position][0] == position);
}

/// The integers of the tape on which nothing is on.
proof fn lemma_none()
    ensures
        positions(Seq::<i64>::empty().to_set()) == Set::<int>::empty(),
{
}

fn one(position: i64) -> (list: Vec<i64>)
    ensures
        list@ == seq![position],
{
    let mut list: Vec<i64> = Vec::new();
    list.push(position);
    list
}

/// The sandbox level as it is written down: no case at all.
pub fn sandbox_dto() -> (dto: LevelDto)
    ensures
        dto@ == sandbox_view(),
{
    LevelDto {
        name: "sandbox".to_string(),
        description: String::new(),
        cases: Vec::new(),
        target: None,
    }
}

/// The level with one case that wants nothing: any halt is a success.
pub fn sandbox() -> (level: Level)
    ensures
        level@ == sandbox_view(),
{
    Level::from(sandbox_dto())
}

/// The level that wants the head at 8 on three different tapes.
pub fn move_eight_right() -> (level: Level)
    ensures
        level@ == move_eight_right_view(),
{
    let mut primes: Vec<i64> = Vec::new();
    primes.push(2);
    primes.push(3);
    primes.push(5);
    primes.push(7);
    primes.push(11);
    primes.push(13);
    let mut cases: Vec<TestCase> = Vec::new();
    cases.push(
        TestCase {
            initial_tape: tape::from_slice(one(8).as_slice()),
            target: Some(Target::position(8)),
        },
    );
    cases.push(TestCase { initial_tape: HashSet::new(), target: Some(Target::position(8)) });
    cases.push(
        TestCase {
            initial_tape: tape::from_slice(primes.as_slice()),
            target: Some(Target::position(8)),
        },
    );
    let level = Level {
        name: "move8".to_string(),
        description: "Move eight steps to the right, and terminate the program".to_string(),
        cases,
    };
    proof {
        lemma_one(8);
        tape::lemma_positions_empty();
        assert(primes@ =~= seq![2i64, 3, 5, 7, 11, 13]);
        let listed = seq![2i64, 3, 5, 7, 11, 13];
        assert(positions(listed.to_set()) =~= set![2int, 3, 5, 7, 11, 13]);
        assert(level@.cases =~= move_eight_right_view().cases);
    }
    level
}

/// The night time level as it is written down: the target stands once, for
/// the whole level.
pub fn night_time_dto() -> (dto: LevelDto)
    ensures
        dto@ == night_time_view(),
{
    let mut cases: Vec<TestCaseDto> = Vec::new();
    cases.push(TestCaseDto { initial_tape: one(3), target: None });
    cases.push(TestCaseDto { initial_tape: one(8), target: None });
    cases.push(TestCaseDto { initial_tape: one(0), target: None });
    let dto = LevelDto {
        name: "night_time".to_string(),
        description: "At some point >= 0, there's a light on. Turn it off.".to_string(),
        cases,
        target: Some(TargetDto::TapeExact { tape: Vec::new() }),
    };
    proof {
        lemma_one(3);
        lemma_one(8);
        lemma_one(0);
        lemma_none();
        assert(dto@.cases =~= night_time_view().cases);
    }
    dto
}

/// The level that wants the one bit that is on, at 3, 8 or 0, turned off.
pub fn night_time() -> (level: Level)
    ensures
        level@ == night_time_view(),
{
    Level::from(night_time_dto())
}

/// The moth level as it is written down: every case has its own target.
pub fn moth_dto() -> (dto: LevelDto)
    ensures
        dto@ == moth_view(),
{
    let mut cases: Vec<TestCaseDto> = Vec::new();
    cases.push(
        TestCaseDto { initial_tape: one(18), target: Some(TargetDto::Position { position: 18 }) },
    );
    cases.push(
        TestCaseDto {
            initial_tape: one(-13),
            target: Some(TargetDto::Position { position: -13 }),
        },
    );
    cases.push(
        TestCaseDto { initial_tape: one(0), target: Some(TargetDto::Position { position: 0 }) },
    );
    let dto = LevelDto {
        name: "moth".to_string(),
        description: "At some position there is a light on. Halt the program on that position.".to_string(),
        cases,
        target: None,
    };
    proof {
        lemma_one(18);
        lemma_one(-13i64);
        lemma_one(0);
        assert(dto@.cases =~= moth_view().cases);
    }
    dto
}

/// The level that wants the head on the one bit that is on: at 18, -13 or 0.
pub fn moth() -> (level: Level)
    ensures
        level@ == moth_view(),
{
    Level::from(moth_dto())
}

/// The levels that come with the interpreter, in order.
pub fn builtins() -> (levels: Vec<Level>)
    ensures
        level_views(levels@) == catalogue(),
{
    let mut levels: Vec<Level> = Vec::new();
    levels.push(sandbox());
    levels.push(move_eight_right());
    levels.push(night_time());
    levels.push(moth());
    levels
}

/// The first level of the catalogue that has this name, if there is one.
pub fn find_level(level_name: &str) -> (found: Option<Level>)
    ensures
        match found {
            Some(level) => {
                let index = named_from(catalogue(), level_name@, 0);
                index < catalogue().len() && level@ == catalogue()[index]
            },
            None => named_from(catalogue(), level_name@, 0) == catalogue().len(),
        },
{
    let wanted = String::from_str(level_name);
    let levels = builtins();
    let ghost all = levels@;
    for level in it: levels
        invariant
            it.seq() == all,
            level_views(all) == catalogue(),
            named_from(catalogue(), level_name@, 0) == named_from(
                catalogue(),
                level_name@,
                it.index(),
            ),
            wanted@ == level_name@,
    {
        if level.name == wanted {
            return Some(level);
        }
    }
    None
}

} // verus!
