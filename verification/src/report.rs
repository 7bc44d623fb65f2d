//! The outcome of one test and the report of a whole run.

use vstd::prelude::*;

verus! {

/// The version of the report's shape.
pub const SCHEMA_VERSION: u32 = 1;

/// Whether a test, or a whole run, passed.
#[derive(Clone, Copy, Debug, PartialEq, Eq, Structural)]
pub enum Status {
    Passed,
    Failed,
}

/// The word that stands for a status in a written report.
pub open spec fn label_of(status: Status) -> Seq<char> {
    match status {
        Status::Passed => "pass"@,
        Status::Failed => "fail"@,
    }
}

/// The score of one test: 1 if it passed, 0 if not.
pub open spec fn unit_score_of(status: Status) -> u32 {
    match status {
        Status::Passed => 1,
        Status::Failed => 0,
    }
}

impl Status {
    /// The word that stands for this status in a written report.
    pub fn label(&self) -> (word: &'static str)
        ensures
            word@ == label_of(*self),
    {
        match self {
            Status::Passed => "pass",
            Status::Failed => "fail",
        }
    }

    /// Whether this is `Passed`.
    pub fn is_passed(&self) -> (passed: bool)
        ensures
            passed == (*self == Status::Passed),
    {
        match self {
            Status::Passed => true,
            Status::Failed => false,
        }
    }
}

/// What a `TestOutcome` holds.
pub struct OutcomeView {
    pub name: Seq<char>,
    pub status: Status,
    pub message: Option<Seq<char>>,
    pub line_number: Option<u32>,
    pub execution_time: Seq<char>,
    pub unit_score: u32,
}

/// The outcome with the given name, status and duration: no message, no
/// line number, and the unit score that goes with the status.
pub open spec fn outcome(name: Seq<char>, status: Status, execution_time: Seq<char>)
    -> OutcomeView {
    OutcomeView {
        name,
        status,
        message: None,
        line_number: None,
        execution_time,
        unit_score: unit_score_of(status),
    }
}

impl OutcomeView {
    /// Every outcome is one that `outcome` makes.
    pub open spec fn valid(self) -> bool {
        self == outcome(self.name, self.status, self.execution_time)
    }
}

/// The outcome of one test: one row of a report.
#[derive(Debug)]
pub struct TestOutcome {
    name: String,
    status: Status,
    message: Option<String>,
    line_number: Option<u32>,
    execution_time: String,
    unit_score: u32,
}

impl View for TestOutcome {
    type V = OutcomeView;

    closed spec fn view(&self) -> OutcomeView {
        OutcomeView {
            name: self.name@,
            status: self.status,
            message: match self.message {
                Some(m) => Some(m@),
                None => None,
            },
            line_number: self.line_number,
            execution_time: self.execution_time@,
            unit_score: self.unit_score,
        }
    }
}

impl TestOutcome {
    #[verifier::type_invariant]
    spec fn well_formed(self) -> bool {
        self@.valid()
    }

    /// The outcome of the test `name` that ended with `status` after
    /// `execution_time`.
    pub fn new(name: String, status: Status, execution_time: String) -> (made: TestOutcome)
        ensures
            made@ == outcome(name@, status, execution_time@),
    {
        let unit_score: u32 = match status {
            Status::Passed => 1,
            Status::Failed => 0,
        };
        TestOutcome { name, status, message: None, line_number: None, execution_time, unit_score }
    }

    /// The test's name.
    pub fn name(&self) -> (name: &str)
        ensures
            name@ == self@.name,
    {
        self.name.as_str()
    }

    /// Whether the test passed.
    pub fn status(&self) -> (status: Status)
        ensures
            status == self@.status,
    {
        self.status
    }

    /// The detail of a failure. No runner reports one yet.
    pub fn message(&self) -> (message: Option<&str>)
        ensures
            message is None,
            self@.message is None,
    {
        proof {
            use_type_invariant(self);
        }
        None
    }

    /// The line of the test in its source. No runner reports one yet.
    pub fn line_number(&self) -> (line: Option<u32>)
        ensures
            line is None,
            self@.line_number is None,
    {
        proof {
            use_type_invariant(self);
        }
        None
    }

    /// The test's duration, as the runner wrote it.
    pub fn execution_time(&self) -> (time: &str)
        ensures
            time@ == self@.execution_time,
    {
        self.execution_time.as_str()
    }

    /// 1 if the test passed, 0 if not.
    pub fn unit_score(&self) -> (score: u32)
        ensures
            score == self@.unit_score,
            score == unit_score_of(self@.status),
    {
        proof {
            use_type_invariant(self);
        }
        self.unit_score
    }

    /// A second outcome with the same contents.
    pub fn duplicate(&self) -> (copy: TestOutcome)
        ensures
            copy@ == self@,
            self@.valid(),
    {
        proof {
            use_type_invariant(self);
        }
        TestOutcome {
            name: self.name.clone(),
            status: self.status,
            message: None,
            line_number: None,
            execution_time: self.execution_time.clone(),
            unit_score: self.unit_score,
        }
    }
}

/// The views of a list of outcomes, in the same order.
pub open spec fn outcome_views(tests: Seq<TestOutcome>) -> Seq<OutcomeView> {
    tests.map_values(|t: TestOutcome| t@)
}

/// How many of the outcomes passed.
pub open spec fn passed_count(tests: Seq<OutcomeView>) -> nat
    decreases tests.len(),
{
    if tests.len() == 0 {
        0
    } else {
        passed_count(tests.drop_last()) + if tests.last().status == Status::Passed {
            1nat
        } else {
            0nat
        }
    }
}

/// What a `Report` holds.
pub struct ReportView {
    pub schema_version: u32,
    pub overall_status: Status,
    pub tests: Seq<OutcomeView>,
    pub max_score: Option<u32>,
    pub computed_score: Option<u32>,
}

impl ReportView {
    /// What holds of every report: the version is the current one, every
    /// row is an outcome, and there is a score exactly when there is a
    /// ceiling, which it does not exceed.
    pub open spec fn valid(self) -> bool {
        &&& self.schema_version == SCHEMA_VERSION
        &&& forall|i: int| 0 <= i < self.tests.len() ==> (#[trigger] self.tests[i]).valid()
        &&& self.computed_score is Some <==> self.max_score is Some
        &&& self.max_score matches Some(ceiling) ==> self.computed_score matches Some(score)
            && score <= ceiling
    }
}

/// The summary of one run.
#[derive(Debug)]
pub struct Report {
    schema_version: u32,
    overall_status: Status,
    tests: Vec<TestOutcome>,
    max_score: Option<u32>,
    computed_score: Option<u32>,
}

impl View for Report {
    type V = ReportView;

    closed spec fn view(&self) -> ReportView {
        ReportView {
            schema_version: self.schema_version,
            overall_status: self.overall_status,
            tests: outcome_views(self.tests@),
            max_score: self.max_score,
            computed_score: self.computed_score,
        }
    }
}

impl Report {
    #[verifier::type_invariant]
    spec fn well_formed(self) -> bool {
        self@.valid()
    }

    /// The report of a run with the given rows and verdict. With a ceiling
    /// it carries `score`, without one no score at all.
    pub(crate) fn assemble(
        overall_status: Status,
        tests: Vec<TestOutcome>,
        max_score: Option<u32>,
        score: u32,
    ) -> (made: Report)
        requires
            max_score matches Some(ceiling) ==> score <= ceiling,
            forall|i: int| 0 <= i < tests@.len() ==> (#[trigger] tests@[i])@.valid(),
        ensures
            made@ == (ReportView {
                schema_version: SCHEMA_VERSION,
                overall_status,
                tests: outcome_views(tests@),
                max_score,
                computed_score: if max_score is Some {
                    Some(score)
                } else {
                    None
                },
            }),
            made@.valid(),
    {
        let computed_score = match max_score {
            Some(_) => Some(score),
            None => None,
        };
        Report { schema_version: SCHEMA_VERSION, overall_status, tests, max_score, computed_score }
    }

    /// The version of the report's shape.
    pub fn schema_version(&self) -> (version: u32)
        ensures
            version == self@.schema_version,
            version == SCHEMA_VERSION,
    {
        proof {
            use_type_invariant(self);
        }
        self.schema_version
    }

    /// Whether the run passed.
    pub fn overall_status(&self) -> (status: Status)
        ensures
            status == self@.overall_status,
    {
        self.overall_status
    }

    /// The outcomes, in the order in which the runner reported them.
    pub fn tests(&self) -> (tests: &Vec<TestOutcome>)
        ensures
            outcome_views(tests@) == self@.tests,
    {
        &self.tests
    }

    /// The ceiling of the score, where the caller gave one.
    pub fn max_score(&self) -> (ceiling: Option<u32>)
        ensures
            ceiling == self@.max_score,
    {
        self.max_score
    }

    /// The score, where the caller gave a ceiling: never above it.
    pub fn computed_score(&self) -> (score: Option<u32>)
        ensures
            score == self@.computed_score,
            score is Some <==> self@.max_score is Some,
            score matches Some(s) ==> self@.max_score matches Some(ceiling) && s <= ceiling,
    {
        proof {
            use_type_invariant(self);
        }
        self.computed_score
    }
}

} // verus!
