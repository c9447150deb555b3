//! Levels as they are written down: positions as lists, and a target for the
//! whole level that stands in for the target of every case that has none.

use crate::level::{Level, LevelView, Target, TargetView, TestCase, TestCaseView};
use crate::tape;
use crate::tape::positions;
use vstd::prelude::*;
use vstd::std_specs::convert::FromSpecImpl;

verus! {

/// A target as it is written down.
#[derive(PartialEq, Eq, Debug)]
pub enum TargetDto {
    TapeExact { tape: Vec<i64> },
    Position { position: i64 },
}

/// A test case as it is written down.
#[derive(PartialEq, Eq, Debug)]
pub struct TestCaseDto {
    pub initial_tape: Vec<i64>,
    pub target: Option<TargetDto>,
}

/// A level as it is written down.
#[derive(PartialEq, Eq, Debug)]
pub struct LevelDto {
    pub name: String,
    pub description: String,
    pub cases: Vec<TestCaseDto>,
    pub target: Option<TargetDto>,
}

impl View for TargetDto {
    type V = TargetView;

    /// The target that is meant: a listed position is on, every other is off.
    open spec fn view(&self) -> TargetView {
        match self {
            TargetDto::TapeExact { tape } => TargetView::TapeExact {
                tape: positions(tape@.to_set()),
            },
            TargetDto::Position { position } => TargetView::Position { position: *position as int },
        }
    }
}

/// An optional written target as a mathematical value.
pub open spec fn target_dto_view(target: Option<TargetDto>) -> Option<TargetView> {
    match target {
        Some(target) => Some(target@),
        None => None,
    }
}

impl TestCaseDto {
    /// The case that is meant, in a level whose own target is `fallback`: the
    /// case's target where it has one, else the level's.
    pub open spec fn case_view(&self, fallback: Option<TargetView>) -> TestCaseView {
        TestCaseView {
            initial_tape: positions(self.initial_tape@.to_set()),
            target: match self.target {
                Some(target) => Some(target@),
                None => fallback,
            },
        }
    }
}

impl View for LevelDto {
    type V = LevelView;

    /// The level that is meant. A level written without cases has one case,
    /// with an empty tape and no target.
    open spec fn view(&self) -> LevelView {
        LevelView {
            name: self.name@,
            description: self.description@,
            cases: if self.cases.len() == 0 {
                seq![TestCaseView::blank()]
            } else {
                self.cases@.map_values(
                    |case: TestCaseDto| case.case_view(target_dto_view(self.target)),
                )
            },
        }
    }
}

impl LevelDto {
    /// Whether this is `level` written down: the same name and description,
    /// no target of its own, and case by case the same tape, each position
    /// listed once, and the same target.
    pub open spec fn writes(&self, level: Level) -> bool {
        &&& self.name@ == level.name@
        &&& self.description@ == level.description@
        &&& self.target is None
        &&& self.cases.len() == level.cases.len()
        &&& forall|i: int|
            0 <= i < level.cases.len() ==> {
                &&& (#[trigger] self.cases[i]).initial_tape@.no_duplicates()
                &&& self.cases[i].case_view(None) == level.cases[i]@
            }
    }
}

/// A level with at least one case, written down, means that level again.
pub proof fn lemma_level_round_trip(dto: LevelDto, level: Level)
    requires
        dto.writes(level),
        level.cases.len() > 0,
    ensures
        dto@ == level@,
{
    assert(dto@.cases =~= level@.cases);
}

impl<'a> FromSpecImpl<&'a TargetDto> for Target {
    open spec fn obeys_from_spec() -> bool {
        false
    }

    open spec fn from_spec(dto: &'a TargetDto) -> Target {
        choose|target: Target| target@ == dto@
    }
}

impl<'a> From<&'a TargetDto> for Target {
    /// The target that `dto` means.
    fn from(dto: &'a TargetDto) -> (target: Target)
        ensures
            target@ == dto@,
    {
        match dto {
            TargetDto::TapeExact { tape } => Target::TapeExact {
                tape: tape::from_slice(tape.as_slice()),
            },
            TargetDto::Position { position } => Target::Position { position: *position },
        }
    }
}

impl FromSpecImpl<Target> for TargetDto {
    open spec fn obeys_from_spec() -> bool {
        false
    }

    open spec fn from_spec(target: Target) -> TargetDto {
        choose|dto: TargetDto| dto@ == target@
    }
}

impl From<Target> for TargetDto {
    /// `target` written down, with each position of a tape listed once.
    fn from(target: Target) -> (dto: TargetDto)
        ensures
            dto@ == target@,
            dto matches TargetDto::TapeExact { tape } ==> tape@.no_duplicates(),
    {
        match target {
            Target::TapeExact { tape } => TargetDto::TapeExact { tape: tape::to_vec(&tape) },
            Target::Position { position } => TargetDto::Position { position },
        }
    }
}

impl FromSpecImpl<LevelDto> for Level {
    open spec fn obeys_from_spec() -> bool {
        false
    }

    open spec fn from_spec(dto: LevelDto) -> Level {
        choose|level: Level| level@ == dto@
    }
}

impl From<LevelDto> for Level {
    /// The level that `dto` means.
    fn from(dto: LevelDto) -> (level: Level)
        ensures
            level@ == dto@,
    {
        let mut cases: Vec<TestCase> = Vec::new();
        if dto.cases.len() == 0 {
            cases.push(TestCase::default());
            assert(cases@.map_values(|case: TestCase| case@) =~= dto@.cases);
        } else {
            let mut i: usize = 0;
            while i < dto.cases.len()
                invariant
                    i <= dto.cases.len(),
                    cases.len() == i,
                    forall|j: int|
                        0 <= j < i ==> (#[trigger] cases[j])@ == dto.cases[j].case_view(
                            target_dto_view(dto.target),
                        ),
                decreases dto.cases.len() - i,
            {
                let written = &dto.cases[i];
                let target = match &written.target {
                    Some(target) => Some(Target::from(target)),
                    None => match &dto.target {
                        Some(target) => Some(Target::from(target)),
                        None => None,
                    },
                };
                cases.push(
                    TestCase {
                        initial_tape: tape::from_slice(written.initial_tape.as_slice()),
                        target,
                    },
                );
                i += 1;
            }
            assert(cases@.map_values(|case: TestCase| case@) =~= dto@.cases);
        }
        Level { name: dto.name, description: dto.description, cases }
    }
}

impl FromSpecImpl<Level> for LevelDto {
    open spec fn obeys_from_spec() -> bool {
        false
    }

    open spec fn from_spec(level: Level) -> LevelDto {
        choose|dto: LevelDto| dto.writes(level)
    }
}

impl From<Level> for LevelDto {
    /// `level` written down, with no target for the level as a whole.
    fn from(level: Level) -> (dto: LevelDto)
        ensures
            dto.writes(level),
    {
        let Level { name, description, cases: level_cases } = level;
        let ghost all = level_cases@;
        let mut cases: Vec<TestCaseDto> = Vec::new();
        for case in it: level_cases
            invariant
                it.seq() == all,
                cases.len() == it.index(),
                forall|j: int|
                    0 <= j < it.index() ==> {
                        &&& (#[trigger] cases[j]).initial_tape@.no_duplicates()
                        &&& cases[j].case_view(None) == all[j]@
                    },
        {
            let target = match case.target {
                Some(target) => Some(TargetDto::from(target)),
                None => None,
            };
            cases.push(TestCaseDto { initial_tape: tape::to_vec(&case.initial_tape), target });
        }
        LevelDto { name, description, cases, target: None }
    }
}

} // verus!
