use test_report::aggregate;
use test_report::summarize;
use test_report::summarize_with;
use test_report::Event;
use test_report::ParseError;
use test_report::Report;
use test_report::Status;
use test_report::StreamShape;
use test_report::TestOutcome;
use test_report::TotalSource;
use test_report::SCHEMA_VERSION;

fn ended(name: &str, status: Status, time: &str) -> Event {
    Event::TestFinished(TestOutcome::new(name.to_string(), status, time.to_string()))
}

fn names(report: &Report) -> Vec<String> {
    report.tests().iter().map(|t| t.name().to_string()).collect()
}

fn statuses(report: &Report) -> Vec<Status> {
    report.tests().iter().map(|t| t.status()).collect()
}

#[test]
fn a_run_of_passed_tests_passes() {
    let events = vec![
        Event::SuiteStarted { test_count: 2 },
        Event::TestStarted,
        ended("a", Status::Passed, "1ms"),
        Event::TestStarted,
        ended("b", Status::Passed, "2ms"),
        Event::Unrecognized,
    ];
    let report = aggregate(&events, TotalSource::Observed, Some(10));
    assert_eq!(report.schema_version(), 1);
    assert_eq!(report.schema_version(), SCHEMA_VERSION);
    assert_eq!(report.overall_status(), Status::Passed);
    assert_eq!(names(&report), vec!["a", "b"]);
    assert_eq!(statuses(&report), vec![Status::Passed, Status::Passed]);
    assert_eq!(report.tests()[0].execution_time(), "1ms");
    assert_eq!(report.tests()[1].execution_time(), "2ms");
    assert_eq!(report.tests()[0].unit_score(), 1);
    assert_eq!(report.max_score(), Some(10));
    assert_eq!(report.computed_score(), Some(10));
}

#[test]
fn one_failure_fails_the_run() {
    let events = vec![
        ended("a", Status::Passed, "1ms"),
        ended("b", Status::Failed, "2ms"),
        ended("c", Status::Passed, "3ms"),
    ];
    let report = aggregate(&events, TotalSource::Observed, Some(10));
    assert_eq!(report.overall_status(), Status::Failed);
    assert_eq!(statuses(&report), vec![Status::Passed, Status::Failed, Status::Passed]);
    assert_eq!(report.tests()[1].unit_score(), 0);
    assert_eq!(report.computed_score(), Some(7));
}

#[test]
fn seven_of_ten_score_fourteen_of_twenty() {
    let mut events = Vec::new();
    for i in 0..10 {
        let status = if i < 7 { Status::Passed } else { Status::Failed };
        events.push(ended(&format!("t{}", i), status, "0ms"));
    }
    let report = aggregate(&events, TotalSource::Observed, Some(20));
    assert_eq!(report.computed_score(), Some(14));
    assert_eq!(report.overall_status(), Status::Failed);
    assert_eq!(report.tests().len(), 10);
}

#[test]
fn one_of_three_scores_three_of_ten() {
    let events = vec![
        ended("a", Status::Failed, "0ms"),
        ended("b", Status::Passed, "0ms"),
        ended("c", Status::Failed, "0ms"),
    ];
    let report = aggregate(&events, TotalSource::Observed, Some(10));
    assert_eq!(report.computed_score(), Some(3));
}

#[test]
fn without_a_ceiling_there_is_no_score() {
    let events = vec![ended("a", Status::Passed, "0ms")];
    let report = aggregate(&events, TotalSource::Observed, None);
    assert_eq!(report.max_score(), None);
    assert_eq!(report.computed_score(), None);
    assert_eq!(report.overall_status(), Status::Passed);
}

#[test]
fn an_observed_run_of_no_tests_passes_and_scores_zero() {
    let report = aggregate(&Vec::new(), TotalSource::Observed, Some(50));
    assert_eq!(report.overall_status(), Status::Passed);
    assert_eq!(report.tests().len(), 0);
    assert_eq!(report.max_score(), Some(50));
    assert_eq!(report.computed_score(), Some(0));
    let report = aggregate(
        &vec![Event::TestStarted, Event::Unrecognized, Event::SuiteStarted { test_count: 4 }],
        TotalSource::Observed,
        Some(50),
    );
    assert_eq!(report.overall_status(), Status::Passed);
    assert_eq!(report.computed_score(), Some(0));
}

#[test]
fn a_declared_run_of_no_tests_passes_if_none_passed() {
    let report = aggregate(&Vec::new(), TotalSource::Declared, Some(50));
    assert_eq!(report.overall_status(), Status::Passed);
    assert_eq!(report.computed_score(), Some(0));
    let report = aggregate(
        &vec![Event::SuiteStarted { test_count: 0 }, ended("a", Status::Failed, "0ms")],
        TotalSource::Declared,
        Some(50),
    );
    assert_eq!(report.overall_status(), Status::Passed);
    assert_eq!(report.tests().len(), 1);
    assert_eq!(report.computed_score(), Some(0));
}

#[test]
fn a_declared_run_of_no_tests_fails_if_one_passed() {
    let report =
        aggregate(&vec![ended("a", Status::Passed, "0ms")], TotalSource::Declared, Some(50));
    assert_eq!(report.overall_status(), Status::Failed);
    assert_eq!(report.computed_score(), Some(0));
}

#[test]
fn a_declared_total_counts_tests_that_never_ended() {
    let events = vec![
        Event::SuiteStarted { test_count: 4 },
        ended("a", Status::Passed, "0ms"),
        ended("b", Status::Passed, "0ms"),
    ];
    let declared = aggregate(&events, TotalSource::Declared, Some(10));
    assert_eq!(declared.overall_status(), Status::Failed);
    assert_eq!(declared.computed_score(), Some(5));
    assert_eq!(declared.tests().len(), 2);
    let observed = aggregate(&events, TotalSource::Observed, Some(10));
    assert_eq!(observed.overall_status(), Status::Passed);
    assert_eq!(observed.computed_score(), Some(10));
}

#[test]
fn declared_totals_add_up() {
    let events = vec![
        Event::SuiteStarted { test_count: 1 },
        ended("a", Status::Passed, "0ms"),
        Event::SuiteStarted { test_count: 2 },
        ended("b", Status::Passed, "0ms"),
        ended("c", Status::Passed, "0ms"),
        Event::SuiteStarted { test_count: 0 },
    ];
    let report = aggregate(&events, TotalSource::Declared, Some(9));
    assert_eq!(report.overall_status(), Status::Passed);
    assert_eq!(report.computed_score(), Some(9));
}

#[test]
fn more_passed_than_declared_fails_at_the_ceiling() {
    let events = vec![
        Event::SuiteStarted { test_count: 1 },
        ended("a", Status::Passed, "0ms"),
        ended("b", Status::Passed, "0ms"),
    ];
    let report = aggregate(&events, TotalSource::Declared, Some(10));
    assert_eq!(report.overall_status(), Status::Failed);
    assert_eq!(report.computed_score(), Some(10));
}

#[test]
fn huge_declared_totals_do_not_overflow() {
    let events = vec![
        Event::SuiteStarted { test_count: u64::MAX },
        Event::SuiteStarted { test_count: u64::MAX },
        ended("a", Status::Passed, "0ms"),
    ];
    let report = aggregate(&events, TotalSource::Declared, Some(u32::MAX));
    assert_eq!(report.overall_status(), Status::Failed);
    assert_eq!(report.computed_score(), Some(0));
}

#[test]
fn two_tests_of_one_name_have_two_rows() {
    let events = vec![
        ended("same", Status::Failed, "1ms"),
        ended("other", Status::Passed, "2ms"),
        ended("same", Status::Passed, "3ms"),
    ];
    let report = aggregate(&events, TotalSource::Observed, None);
    assert_eq!(names(&report), vec!["same", "other", "same"]);
    assert_eq!(statuses(&report), vec![Status::Failed, Status::Passed, Status::Passed]);
    assert_eq!(report.tests()[0].execution_time(), "1ms");
    assert_eq!(report.tests()[2].execution_time(), "3ms");
}

#[test]
fn a_test_that_only_started_has_no_row() {
    let events = vec![Event::TestStarted, ended("a", Status::Passed, "0ms"), Event::TestStarted];
    let report = aggregate(&events, TotalSource::Observed, Some(3));
    assert_eq!(names(&report), vec!["a"]);
    assert_eq!(report.overall_status(), Status::Passed);
    assert_eq!(report.computed_score(), Some(3));
}

#[test]
fn an_end_before_its_start_is_counted() {
    let events = vec![ended("a", Status::Passed, "0ms"), Event::TestStarted];
    let report = aggregate(&events, TotalSource::Observed, None);
    assert_eq!(names(&report), vec!["a"]);
}

const RUN: &str = r#"
running 3 tests
{ "type": "suite", "event": "started", "test_count": 3 }
{ "type": "test", "event": "started", "name": "tests::adds" }
{ "type": "test", "event": "started", "name": "tests::divides" }
{ "type": "test", "name": "tests::adds", "event": "ok", "exec_time": "0.000s" }
thread 'tests::divides' panicked at src/lib.rs:9:5
{ "type": "test", "name": "tests::divides", "event": "failed", "exec_time": 0.004 }
{ "type": "test", "event": "started", "name": "tests::hangs" }
{ "type": "test", "name": "tests::multiplies", "event": "ok" }
{ "type": "suite", "event": "failed", "passed": 2, "failed": 1, "exec_time": 0.005 }
"#;

#[test]
fn a_run_is_summarized_from_its_lines() {
    let report = summarize(RUN.as_bytes(), Some(10));
    assert_eq!(report.schema_version(), 1);
    assert_eq!(report.overall_status(), Status::Failed);
    assert_eq!(names(&report), vec!["tests::adds", "tests::divides", "tests::multiplies"]);
    assert_eq!(statuses(&report), vec![Status::Passed, Status::Failed, Status::Passed]);
    assert_eq!(report.tests()[0].execution_time(), "0.000s");
    assert_eq!(report.tests()[1].execution_time(), "0ms");
    assert_eq!(report.tests()[2].execution_time(), "0ms");
    for test in report.tests().iter() {
        assert_eq!(test.message(), None);
        assert_eq!(test.line_number(), None);
        assert_eq!(test.unit_score(), if test.status() == Status::Passed { 1 } else { 0 });
    }
    assert_eq!(report.max_score(), Some(10));
    assert_eq!(report.computed_score(), Some(7));
}

#[test]
fn noise_between_the_lines_changes_nothing() {
    let clean = "{\"type\":\"test\",\"event\":\"ok\",\"name\":\"a\"}\n{\"type\":\"test\",\"event\":\"failed\",\"name\":\"b\"}\n";
    let noisy = "warning: something\n{\"type\":\"test\",\"event\":\"ok\",\"name\":\"a\"}\n\n{broken\r\n{\"type\":\"test\",\"event\":\"failed\",\"name\":\"b\"}\nerror: test failed\n";
    let a = summarize(clean.as_bytes(), Some(4));
    let b = summarize(noisy.as_bytes(), Some(4));
    assert_eq!(names(&a), names(&b));
    assert_eq!(statuses(&a), statuses(&b));
    assert_eq!(a.overall_status(), b.overall_status());
    assert_eq!(a.computed_score(), b.computed_score());
    assert_eq!(b.computed_score(), Some(2));
    assert_eq!(names(&b), vec!["a", "b"]);
}

#[test]
fn a_stream_of_noise_is_an_empty_run() {
    let report = summarize(b"Compiling...\nerror[E0425]: cannot find value\n", Some(50));
    assert_eq!(report.tests().len(), 0);
    assert_eq!(report.overall_status(), Status::Passed);
    assert_eq!(report.computed_score(), Some(0));
    let report = summarize(b"", None);
    assert_eq!(report.tests().len(), 0);
    assert_eq!(report.overall_status(), Status::Passed);
    assert_eq!(report.max_score(), None);
    assert_eq!(report.computed_score(), None);
}

#[test]
fn a_started_test_that_never_ends_is_not_counted() {
    let stream = b"{\"type\":\"test\",\"event\":\"started\",\"name\":\"a\"}\n";
    let report = summarize(stream, Some(5));
    assert_eq!(report.tests().len(), 0);
    assert_eq!(report.overall_status(), Status::Passed);
}

#[test]
fn duplicates_in_a_stream_are_kept_in_order() {
    let stream = b"{\"type\":\"test\",\"event\":\"failed\",\"name\":\"t\",\"exec_time\":\"1\"}\n{\"type\":\"test\",\"event\":\"ok\",\"name\":\"t\",\"exec_time\":\"2\"}\n";
    let report = summarize(stream, None);
    assert_eq!(names(&report), vec!["t", "t"]);
    assert_eq!(statuses(&report), vec![Status::Failed, Status::Passed]);
    assert_eq!(report.tests()[0].execution_time(), "1");
    assert_eq!(report.tests()[1].execution_time(), "2");
}

#[test]
fn declared_totals_are_read_from_the_stream() {
    let report = summarize_with(
        RUN.as_bytes(),
        StreamShape::LineDelimited,
        TotalSource::Declared,
        Some(9),
    )
    .unwrap();
    assert_eq!(report.overall_status(), Status::Failed);
    assert_eq!(report.computed_score(), Some(6));
    let stream = b"{\"type\":\"suite\",\"event\":\"started\",\"test_count\":2}\n{\"type\":\"test\",\"event\":\"ok\"}\n";
    let report =
        summarize_with(stream, StreamShape::LineDelimited, TotalSource::Declared, Some(9))
            .unwrap();
    assert_eq!(report.overall_status(), Status::Failed);
    assert_eq!(report.computed_score(), Some(5));
    let report =
        summarize_with(stream, StreamShape::LineDelimited, TotalSource::Observed, Some(9))
            .unwrap();
    assert_eq!(report.overall_status(), Status::Passed);
    assert_eq!(report.computed_score(), Some(9));
}

#[test]
fn a_document_is_summarized() {
    let stream = br#"[
        {"type": "suite", "event": "started", "test_count": 2},
        {"type": "test", "event": "ok", "name": "a", "exec_time": "2ms"},
        {"type": "test", "event": "failed", "name": "b"}
    ]"#;
    let report =
        summarize_with(stream, StreamShape::Document, TotalSource::Observed, Some(3)).unwrap();
    assert_eq!(names(&report), vec!["a", "b"]);
    assert_eq!(report.overall_status(), Status::Failed);
    assert_eq!(report.computed_score(), Some(2));
    let report =
        summarize_with(stream, StreamShape::Document, TotalSource::Declared, None).unwrap();
    assert_eq!(report.overall_status(), Status::Failed);
    assert_eq!(report.computed_score(), None);
}

#[test]
fn a_malformed_document_is_an_error() {
    let result = summarize_with(b"[{", StreamShape::Document, TotalSource::Observed, Some(3));
    assert_eq!(result.unwrap_err(), ParseError::MalformedDocument);
    let result = summarize_with(b"{}", StreamShape::Document, TotalSource::Observed, Some(3));
    assert_eq!(result.unwrap_err(), ParseError::NotAnEventList);
    let result = summarize_with(RUN.as_bytes(), StreamShape::Document, TotalSource::Declared, None);
    assert_eq!(result.unwrap_err(), ParseError::MalformedDocument);
}

#[test]
fn malformed_lines_are_no_error() {
    let result = summarize_with(b"[{", StreamShape::LineDelimited, TotalSource::Observed, None);
    assert_eq!(result.unwrap().tests().len(), 0);
}

fn written(report: &Report) -> String {
    let mut tests = Vec::new();
    for test in report.tests().iter() {
        let mut row = serde_json::Map::new();
        row.insert("name".to_string(), serde_json::Value::from(test.name()));
        row.insert("status".to_string(), serde_json::Value::from(test.status().label()));
        row.insert("message".to_string(), serde_json::Value::from(test.message()));
        row.insert("line_no".to_string(), serde_json::Value::from(test.line_number()));
        row.insert("execution_time".to_string(), serde_json::Value::from(test.execution_time()));
        row.insert("score".to_string(), serde_json::Value::from(test.unit_score()));
        tests.push(serde_json::Value::Object(row));
    }
    let mut root = serde_json::Map::new();
    root.insert("version".to_string(), serde_json::Value::from(report.schema_version()));
    root.insert("status".to_string(), serde_json::Value::from(report.overall_status().label()));
    root.insert("tests".to_string(), serde_json::Value::Array(tests));
    if let Some(ceiling) = report.max_score() {
        root.insert("max_score".to_string(), serde_json::Value::from(ceiling));
    }
    serde_json::to_string_pretty(&serde_json::Value::Object(root)).unwrap()
}

#[test]
fn a_written_report_reads_back_field_for_field() {
    for ceiling in [Some(10u32), None] {
        let report = summarize(RUN.as_bytes(), ceiling);
        let read: serde_json::Value = serde_json::from_str(&written(&report)).unwrap();
        assert_eq!(read["version"].as_u64(), Some(report.schema_version() as u64));
        assert_eq!(read["status"].as_str(), Some(report.overall_status().label()));
        assert_eq!(read.get("max_score").and_then(|m| m.as_u64()), ceiling.map(u64::from));
        assert_eq!(read.as_object().unwrap().len(), if ceiling.is_some() { 4 } else { 3 });
        let rows = read["tests"].as_array().unwrap();
        assert_eq!(rows.len(), report.tests().len());
        for (row, test) in rows.iter().zip(report.tests().iter()) {
            assert_eq!(row.as_object().unwrap().len(), 6);
            assert_eq!(row["name"].as_str(), Some(test.name()));
            assert_eq!(row["status"].as_str(), Some(test.status().label()));
            assert!(row["message"].is_null());
            assert!(row["line_no"].is_null());
            assert_eq!(row["execution_time"].as_str(), Some(test.execution_time()));
            assert_eq!(row["score"].as_u64(), Some(test.unit_score() as u64));
        }
    }
}
