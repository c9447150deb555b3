//! Levels: named lists of test cases, each an initial tape and what is
//! expected of the machine once it has halted.

use crate::tape;
use crate::tape::positions;
use std::collections::HashSet;
use vstd::prelude::*;

verus! {

broadcast use vstd::std_specs::hash::group_hash_axioms;

/// What a test case expects of a halted machine.
#[derive(Debug, PartialEq, Eq)]
pub enum Target {
    /// Exactly these positions are on.
    TapeExact { tape: HashSet<i64> },
    /// The head is at this position.
    Position { position: i64 },
}

/// An initial tape and, optionally, a target. Without a target every halt is
/// a success.
#[derive(Debug)]
pub struct TestCase {
    pub initial_tape: HashSet<i64>,
    pub target: Option<Target>,
}

/// A named, ordered list of test cases.
#[derive(Debug)]
pub struct Level {
    pub name: String,
    pub description: String,
    pub cases: Vec<TestCase>,
}

/// A target as a mathematical value.
pub enum TargetView {
    TapeExact { tape: Set<int> },
    Position { position: int },
}

/// A test case as a mathematical value.
pub struct TestCaseView {
    pub initial_tape: Set<int>,
    pub target: Option<TargetView>,
}

/// A level as a mathematical value.
pub struct LevelView {
    pub name: Seq<char>,
    pub description: Seq<char>,
    pub cases: Seq<TestCaseView>,
}

impl TargetView {
    /// Whether a machine that halted with this tape and head position has
    /// met the target.
    pub open spec fn met(self, tape: Set<int>, position: int) -> bool {
        match self {
            TargetView::TapeExact { tape: wanted } => tape == wanted,
            TargetView::Position { position: wanted } => position == wanted,
        }
    }
}

impl TestCaseView {
    /// The case with nothing on the tape and no target.
    pub open spec fn blank() -> TestCaseView {
        TestCaseView { initial_tape: Set::empty(), target: None }
    }
}

impl View for Target {
    type V = TargetView;

    open spec fn view(&self) -> TargetView {
        match self {
            Target::TapeExact { tape } => TargetView::TapeExact { tape: positions(tape@) },
            Target::Position { position } => TargetView::Position { position: *position as int },
        }
    }
}

/// An optional target as a mathematical value.
pub open spec fn target_view(target: Option<Target>) -> Option<TargetView> {
    match target {
        Some(target) => Some(target@),
        None => None,
    }
}

impl View for TestCase {
    type V = TestCaseView;

    open spec fn view(&self) -> TestCaseView {
        TestCaseView {
            initial_tape: positions(self.initial_tape@),
            target: target_view(self.target),
        }
    }
}

impl View for Level {
    type V = LevelView;

    open spec fn view(&self) -> LevelView {
        LevelView {
            name: self.name@,
            description: self.description@,
            cases: self.cases@.map_values(|case: TestCase| case@),
        }
    }
}

impl Clone for Target {
    fn clone(&self) -> (copy: Target)
        ensures
            copy@ == self@,
    {
        match self {
            Target::TapeExact { tape } => Target::TapeExact { tape: tape::copy(tape) },
            Target::Position { position } => Target::Position { position: *position },
        }
    }
}

impl Clone for TestCase {
    fn clone(&self) -> (copy: TestCase)
        ensures
            copy@ == self@,
    {
        let target = match &self.target {
            Some(target) => Some(target.clone()),
            None => None,
        };
        TestCase { initial_tape: tape::copy(&self.initial_tape), target }
    }
}

impl Default for TestCase {
    fn default() -> (case: TestCase)
        ensures
            case@ == TestCaseView::blank(),
    {
        proof {
            tape::lemma_positions_empty();
        }
        TestCase { initial_tape: HashSet::new(), target: None }
    }
}

impl Clone for Level {
    fn clone(&self) -> (copy: Level)
        ensures
            copy@ == self@,
    {
        let cases = self.cases.clone();
        assert(cases@.map_values(|case: TestCase| case@) =~= self.cases@.map_values(
            |case: TestCase| case@,
        ));
        Level { name: self.name.clone(), description: self.description.clone(), cases }
    }
}

impl Target {
    /// The target met by a head that halts at `position`.
    pub fn position(position: i64) -> (target: Target)
        ensures
            target@ == (TargetView::Position { position: position as int }),
    {
        Target::Position { position }
    }

    /// The target met by a tape on which exactly the listed positions are on.
    pub fn tape(tape: &[i64]) -> (target: Target)
        ensures
            target@ == (TargetView::TapeExact { tape: positions(tape@.to_set()) }),
    {
        Target::TapeExact { tape: tape::from_slice(tape) }
    }
}

} // verus!
