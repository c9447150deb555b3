//! Outcomes: what is kept of a level execution for reporting.

use crate::execution::{LevelExecution, TestCaseExecution};
use crate::level::Level;
use crate::program::Program;
use crate::tape;
use std::collections::HashSet;
use vstd::prelude::*;
use vstd::std_specs::convert::FromSpecImpl;

verus! {

broadcast use vstd::std_specs::hash::group_hash_axioms;

/// What is kept of one case: the steps taken and where the head came to
/// rest. The tape is not recorded.
pub struct TestCaseResult {
    pub steps: u64,
    pub position: i64,
    pub tape: HashSet<i64>,
}

/// What is kept of a level execution: the level, the program, and a result
/// for each case, in order.
pub struct Outcome {
    pub level: Level,
    pub program: Program,
    pub results: Vec<TestCaseResult>,
}

impl TestCaseResult {
    /// Whether this is what is kept of `execution`.
    pub open spec fn records(&self, execution: TestCaseExecution) -> bool {
        &&& self.steps == execution.steps
        &&& self.position == execution.current_position
        &&& self.tape@ == Set::<i64>::empty()
    }
}

impl Outcome {
    /// Whether this is what is kept of `execution`: its level, its program,
    /// and the result of each case, in order.
    pub open spec fn records(&self, execution: LevelExecution) -> bool {
        &&& self.level == execution.level
        &&& self.program == execution.program
        &&& self.results.len() == execution.executions.len()
        &&& forall|i: int|
            0 <= i < execution.executions.len() ==> (#[trigger] self.results[i]).records(
                execution.executions[i],
            )
    }
}

impl FromSpecImpl<TestCaseExecution> for TestCaseResult {
    open spec fn obeys_from_spec() -> bool {
        false
    }

    open spec fn from_spec(tce: TestCaseExecution) -> TestCaseResult {
        choose|result: TestCaseResult| result.records(tce)
    }
}

impl From<TestCaseExecution> for TestCaseResult {
    fn from(tce: TestCaseExecution) -> (result: TestCaseResult)
        ensures
            result.records(tce),
    {
        TestCaseResult { steps: tce.steps, position: tce.current_position, tape: HashSet::new() }
    }
}

impl FromSpecImpl<LevelExecution> for Outcome {
    open spec fn obeys_from_spec() -> bool {
        false
    }

    open spec fn from_spec(le: LevelExecution) -> Outcome {
        choose|outcome: Outcome| outcome.records(le)
    }
}

impl From<LevelExecution> for Outcome {
    fn from(le: LevelExecution) -> (outcome: Outcome)
        ensures
            outcome.records(le),
    {
        let LevelExecution { level, program, executions } = le;
        let ghost all = executions@;
        let mut results: Vec<TestCaseResult> = Vec::new();
        for execution in it: executions
            invariant
                it.seq() == all,
                results.len() == it.index(),
                forall|i: int| 0 <= i < it.index() ==> (#[trigger] results[i]).records(all[i]),
        {
            results.push(TestCaseResult::from(execution));
        }
        Outcome { level, program, results }
    }
}

} // verus!
