//! The fold of a run's events into its report.
//!
//! A run passes when as many tests passed as the run holds. How many it
//! holds is read in one of two ways: as the number of tests that ended, or
//! as the number that the suites declared when they began. Either way a
//! run of no tests passes, if none passed.

use crate::event::event_views;
use crate::event::Event;
use crate::event::EventView;
use crate::report::outcome_views;
use crate::report::passed_count;
use crate::report::OutcomeView;
use crate::report::Report;
use crate::report::ReportView;
use crate::report::Status;
use crate::report::TestOutcome;
use crate::report::SCHEMA_VERSION;
use crate::score::compute_score;
use crate::score::lemma_score_in_range;
use crate::score::rounded_share;
use vstd::prelude::*;

verus! {

/// Where the number of a run's tests is taken from.
#[derive(Clone, Copy, Debug, PartialEq, Eq, Structural)]
pub enum TotalSource {
    /// The tests that ended are counted.
    Observed,
    /// The counts that the suites declared when they began are added up.
    Declared,
}

/// The outcomes of the tests that ended, in the order of the events.
pub open spec fn outcomes_of(events: Seq<EventView>) -> Seq<OutcomeView>
    decreases events.len(),
{
    if events.len() == 0 {
        Seq::empty()
    } else {
        match events.last() {
            EventView::TestFinished(o) => outcomes_of(events.drop_last()).push(o),
            _ => outcomes_of(events.drop_last()),
        }
    }
}

/// The sum of the counts that the suites declared.
pub open spec fn declared_total(events: Seq<EventView>) -> nat
    decreases events.len(),
{
    if events.len() == 0 {
        0
    } else {
        match events.last() {
            EventView::SuiteStarted { test_count } => declared_total(events.drop_last())
                + test_count as nat,
            _ => declared_total(events.drop_last()),
        }
    }
}

/// The number of tests that the run holds.
pub open spec fn total_of(events: Seq<EventView>, source: TotalSource) -> nat {
    match source {
        TotalSource::Observed => outcomes_of(events).len(),
        TotalSource::Declared => declared_total(events),
    }
}

/// The verdict on a run of `total` tests of which `passed` passed.
pub open spec fn verdict(passed: nat, total: nat) -> Status {
    if passed == total {
        Status::Passed
    } else {
        Status::Failed
    }
}

/// The report of a run with these events.
pub open spec fn summary_of(events: Seq<EventView>, source: TotalSource, max_score: Option<u32>)
    -> ReportView {
    let tests = outcomes_of(events);
    let passed = passed_count(tests);
    let total = total_of(events, source);
    ReportView {
        schema_version: SCHEMA_VERSION,
        overall_status: verdict(passed, total),
        tests,
        max_score,
        computed_score: match max_score {
            Some(ceiling) => Some(rounded_share(passed, total, ceiling as nat) as u32),
            None => None,
        },
    }
}

/// Whether an event is the end of a test.
pub open spec fn is_finished(event: EventView) -> bool {
    event is TestFinished
}

/// No more outcomes pass than there are.
pub proof fn lemma_passed_count_bound(tests: Seq<OutcomeView>)
    ensures
        passed_count(tests) <= tests.len(),
    decreases tests.len(),
{
    if tests.len() > 0 {
        lemma_passed_count_bound(tests.drop_last());
    }
}

/// All outcomes are counted as passed exactly when each of them passed.
pub proof fn lemma_all_passed(tests: Seq<OutcomeView>)
    ensures
        passed_count(tests) == tests.len() <==> forall|i: int|
            0 <= i < tests.len() ==> (#[trigger] tests[i]).status == Status::Passed,
    decreases tests.len(),
{
    if tests.len() > 0 {
        let before = tests.drop_last();
        lemma_all_passed(before);
        lemma_passed_count_bound(before);
        if passed_count(tests) == tests.len() {
            assert forall|i: int| 0 <= i < tests.len() implies (#[trigger] tests[i]).status
                == Status::Passed by {
                if i < before.len() {
                    assert(tests[i] == before[i]);
                }
            }
        } else if tests.last().status == Status::Passed {
            let i = choose|i: int|
                0 <= i < before.len() && (#[trigger] before[i]).status != Status::Passed;
            assert(tests[i] == before[i]);
        }
    }
}

/// The outcomes of two runs of events in a row are the outcomes of the
/// first and then those of the second: every test that ended has its row,
/// in the order of arrival, and no other event has one.
pub proof fn lemma_outcomes_of_concat(a: Seq<EventView>, b: Seq<EventView>)
    ensures
        outcomes_of(a + b) == outcomes_of(a) + outcomes_of(b),
    decreases b.len(),
{
    if b.len() == 0 {
        assert(a + b =~= a);
        assert(outcomes_of(a) + outcomes_of(b) =~= outcomes_of(a));
    } else {
        assert((a + b).drop_last() =~= a + b.drop_last());
        assert((a + b).last() == b.last());
        lemma_outcomes_of_concat(a, b.drop_last());
        assert(outcomes_of(a + b) =~= outcomes_of(a) + outcomes_of(b));
    }
}

/// A report has one row for each event that is the end of a test, whatever
/// the other events are.
pub proof fn lemma_one_row_per_finished_test(
    events: Seq<EventView>,
    source: TotalSource,
    max_score: Option<u32>,
)
    ensures
        summary_of(events, source, max_score).tests.len() == events.filter(
            |e: EventView| is_finished(e),
        ).len(),
    decreases events.len(),
{
    reveal(Seq::filter);
    if events.len() > 0 {
        lemma_one_row_per_finished_test(events.drop_last(), source, max_score);
    }
}

/// An event that is not the end of a test adds no row to the report,
/// wherever it stands among the others.
pub proof fn lemma_other_events_add_no_row(a: Seq<EventView>, e: EventView, b: Seq<EventView>)
    requires
        !is_finished(e),
    ensures
        outcomes_of(a + seq![e] + b) == outcomes_of(a + b),
{
    lemma_outcomes_of_concat(a + seq![e], b);
    lemma_outcomes_of_concat(a, seq![e]);
    lemma_outcomes_of_concat(a, b);
    assert(seq![e].drop_last() =~= Seq::<EventView>::empty());
    assert(outcomes_of(Seq::<EventView>::empty()) =~= Seq::<OutcomeView>::empty());
    assert(outcomes_of(seq![e]) =~= Seq::<OutcomeView>::empty());
    assert(outcomes_of(a) + Seq::<OutcomeView>::empty() =~= outcomes_of(a));
}

/// The end of a test adds its outcome as one row, at its place among the
/// rows of the others. Two tests of one name have two rows.
pub proof fn lemma_finished_test_adds_its_row(
    a: Seq<EventView>,
    o: OutcomeView,
    b: Seq<EventView>,
)
    ensures
        outcomes_of(a + seq![EventView::TestFinished(o)] + b) == outcomes_of(a) + seq![o]
            + outcomes_of(b),
{
    let e = EventView::TestFinished(o);
    lemma_outcomes_of_concat(a + seq![e], b);
    lemma_outcomes_of_concat(a, seq![e]);
    assert(seq![e].drop_last() =~= Seq::<EventView>::empty());
    assert(outcomes_of(Seq::<EventView>::empty()) =~= Seq::<OutcomeView>::empty());
    assert(outcomes_of(seq![e]) =~= seq![o]);
}

/// Where the tests that ended are counted, a run passes exactly when every
/// row of its report passed. A run without rows passes.
pub proof fn lemma_observed_verdict(events: Seq<EventView>, max_score: Option<u32>)
    ensures
        ({
            let report = summary_of(events, TotalSource::Observed, max_score);
            report.overall_status == Status::Passed <==> forall|i: int|
                0 <= i < report.tests.len() ==> (#[trigger] report.tests[i]).status
                    == Status::Passed
        }),
{
    lemma_all_passed(outcomes_of(events));
}

/// Where the suites' counts are added up, a run passes exactly when as
/// many tests passed as were declared. A run in which nothing was declared
/// passes if no test passed, and fails if one did.
pub proof fn lemma_declared_verdict(events: Seq<EventView>, max_score: Option<u32>)
    ensures
        summary_of(events, TotalSource::Declared, max_score).overall_status == Status::Passed
            <==> passed_count(outcomes_of(events)) == declared_total(events),
{
}

/// Whether an event that is the end of a test holds an outcome.
pub open spec fn holds_outcome(event: EventView) -> bool {
    event matches EventView::TestFinished(o) ==> o.valid()
}

/// The rows of a report are outcomes, where the events hold outcomes.
pub proof fn lemma_rows_are_outcomes(events: Seq<EventView>)
    requires
        forall|i: int| 0 <= i < events.len() ==> holds_outcome(#[trigger] events[i]),
    ensures
        forall|i: int|
            0 <= i < outcomes_of(events).len() ==> (#[trigger] outcomes_of(events)[i]).valid(),
    decreases events.len(),
{
    if events.len() > 0 {
        let before = events.drop_last();
        assert forall|i: int| 0 <= i < before.len() implies holds_outcome(
            #[trigger] before[i],
        ) by {
            assert(before[i] == events[i]);
        }
        lemma_rows_are_outcomes(before);
        let rows = outcomes_of(events);
        assert forall|i: int| 0 <= i < rows.len() implies (#[trigger] rows[i]).valid() by {
            if i < outcomes_of(before).len() {
                assert(rows[i] == outcomes_of(before)[i]);
            } else {
                assert(holds_outcome(events[events.len() - 1]));
            }
        }
    }
}

/// The score of a report lies between 0 and the ceiling, and there is one
/// exactly when there is a ceiling.
pub proof fn lemma_score_within_ceiling(
    events: Seq<EventView>,
    source: TotalSource,
    max_score: Option<u32>,
)
    ensures
        ({
            let report = summary_of(events, source, max_score);
            &&& report.computed_score is Some <==> max_score is Some
            &&& max_score matches Some(ceiling) ==> report.computed_score matches Some(score)
                && 0 <= score <= ceiling && score == rounded_share(
                passed_count(outcomes_of(events)),
                total_of(events, source),
                ceiling as nat,
            )
        }),
{
    if let Some(ceiling) = max_score {
        lemma_score_in_range(
            passed_count(outcomes_of(events)),
            total_of(events, source),
            ceiling as nat,
        );
    }
}

/// Folds the events of a run into its report.
pub fn aggregate(events: &Vec<Event>, source: TotalSource, max_score: Option<u32>) -> (report:
    Report)
    ensures
        report@ == summary_of(event_views(events@), source, max_score),
        report@.valid(),
{
    let ghost views = event_views(events@);
    let mut tests: Vec<TestOutcome> = Vec::new();
    let mut passed: u64 = 0;
    let mut declared: u128 = 0;
    let mut i: usize = 0;
    assert(views.take(0) =~= Seq::<EventView>::empty());
    while i < events.len()
        invariant
            i <= events.len(),
            views == event_views(events@),
            outcome_views(tests@) == outcomes_of(views.take(i as int)),
            forall|k: int| 0 <= k < tests@.len() ==> (#[trigger] tests@[k])@.valid(),
            passed == passed_count(outcome_views(tests@)),
            passed <= tests@.len() <= i,
            declared == declared_total(views.take(i as int)),
            declared <= i * 0xffff_ffff_ffff_ffff,
        decreases events.len() - i,
    {
        let ghost seen = views.take(i as int);
        let ghost rows = outcome_views(tests@);
        proof {
            assert(views.take(i + 1).drop_last() =~= seen);
            assert(views.take(i + 1).last() == events@[i as int]@);
        }
        match &events[i] {
            Event::TestFinished(o) => {
                let copy = o.duplicate();
                if copy.status().is_passed() {
                    passed = passed + 1;
                }
                tests.push(copy);
                proof {
                    assert(outcome_views(tests@) =~= rows.push(o@));
                    assert(outcome_views(tests@).drop_last() =~= rows);
                }
            },
            Event::SuiteStarted { test_count } => {
                assert(i * 0xffff_ffff_ffff_ffff + 0xffff_ffff_ffff_ffff
                    <= 0xffff_ffff_ffff_ffff * 0xffff_ffff_ffff_ffff) by (nonlinear_arith)
                    requires
                        i < 0xffff_ffff_ffff_ffff,
                ;
                declared = declared + *test_count as u128;
            },
            _ => {},
        }
        i = i + 1;
    }
    assert(views.take(i as int) =~= views);
    let total: u128 = match source {
        TotalSource::Observed => tests.len() as u128,
        TotalSource::Declared => declared,
    };
    let overall = if passed as u128 == total {
        Status::Passed
    } else {
        Status::Failed
    };
    let score: u32 = match max_score {
        Some(ceiling) => compute_score(passed, total, ceiling),
        None => 0,
    };
    Report::assemble(overall, tests, max_score, score)
}

} // verus!
