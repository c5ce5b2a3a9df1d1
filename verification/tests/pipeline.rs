use embargo::identity::{DuplicateKeyError, NameAndVersion, ResultMap};
use embargo::pipeline::{
    check_bootstrap, collect, conclude, diff_arguments, gather, generator_arguments, pool_size,
    step, worker_count, Action, Event, LaunchError, Outcome, PipelineError, Report, Stage,
    MIN_WORKERS,
};

fn identity(name: &str, version: &str) -> NameAndVersion {
    NameAndVersion::new(name.to_string(), version.to_string())
}

fn outcome(code: i32, stdout: &str) -> Outcome {
    Outcome { code: Some(code), stdout: stdout.as_bytes().to_vec(), stderr: Vec::new() }
}

fn report(name: &str, version: &str, text: &str) -> Report {
    Report { identity: identity(name, version), result: Ok((outcome(0, text), outcome(1, text))) }
}

fn failure(program: &str) -> LaunchError {
    LaunchError { program: program.to_string(), reason: "not found".to_string() }
}

#[test]
fn never_fewer_workers_than_the_least() {
    assert_eq!(MIN_WORKERS, 32);
    assert_eq!(worker_count(0), 32);
    assert_eq!(worker_count(1), 32);
    assert_eq!(worker_count(31), 32);
    assert_eq!(worker_count(32), 32);
    assert_eq!(worker_count(33), 33);
    assert_eq!(worker_count(256), 256);
    assert!(pool_size() >= 32);
}

#[test]
fn identities_are_ordered_by_name_then_version() {
    assert!(identity("a", "2.0.0").comes_before(&identity("b", "1.0.0")));
    assert!(identity("a", "1.0.0").comes_before(&identity("a", "1.0.1")));
    assert!(!identity("a", "1.0.0").comes_before(&identity("a", "1.0.0")));
    assert!(!identity("b", "1.0.0").comes_before(&identity("a", "9.0.0")));
    assert!(identity("a", "1.0.0") < identity("a", "1.0.1"));
    assert!(identity("a", "1.0.0").same_as(&identity("a", "1.0.0")));
    assert!(!identity("a", "1.0.0").same_as(&identity("a", "1.0.1")));
    assert_eq!(identity("a", "1").duplicate(), identity("a", "1"));
}

#[test]
fn a_map_refuses_a_second_binding() {
    let mut map: ResultMap<String> = ResultMap::new();
    assert!(map.is_empty());
    assert_eq!(map.insert_or_fail(identity("b", "1"), "first".to_string()), Ok(()));
    assert_eq!(map.insert_or_fail(identity("a", "2"), "second".to_string()), Ok(()));
    assert_eq!(map.insert_or_fail(identity("a", "1"), "third".to_string()), Ok(()));
    assert_eq!(
        map.insert_or_fail(identity("b", "1"), "fourth".to_string()),
        Err(DuplicateKeyError { key: identity("b", "1"), value: "fourth".to_string() })
    );
    assert_eq!(map.len(), 3);
    assert_eq!(map.get(&identity("b", "1")), Some(&"first".to_string()));
    assert_eq!(map.get(&identity("b", "2")), None);
    assert!(map.contains_key(&identity("a", "2")));
    assert_eq!(map.key_at(0), &identity("a", "1"));
    assert_eq!(map.key_at(1), &identity("a", "2"));
    assert_eq!(map.key_at(2), &identity("b", "1"));
    assert_eq!(map.value_at(0), "third");
}

#[test]
fn a_generator_that_fails_is_still_compared() {
    let (stage, action) = step(Stage::Generating, Event::Ended(outcome(1, "out")));
    assert_eq!(stage, Stage::Comparing { generated: outcome(1, "out") });
    assert_eq!(action, Action::Compare { announce: true });
    let (stage, action) = step(stage, Event::Ended(outcome(0, "")));
    assert_eq!(stage, Stage::Done { generated: outcome(1, "out"), compared: outcome(0, "") });
    assert_eq!(action, Action::Report);
    assert_eq!(conclude(stage), Some(Ok((outcome(1, "out"), outcome(0, "")))));
}

#[test]
fn a_generator_that_succeeds_is_compared_without_announcement() {
    let (stage, action) = step(Stage::Generating, Event::Ended(outcome(0, "out")));
    assert_eq!(stage, Stage::Comparing { generated: outcome(0, "out") });
    assert_eq!(action, Action::Compare { announce: false });
    assert_eq!(conclude(stage), None);
    assert_eq!(conclude(Stage::Generating), None);
}

#[test]
fn a_process_that_ends_without_a_code_has_failed() {
    let killed = Outcome { code: None, stdout: Vec::new(), stderr: Vec::new() };
    assert!(!killed.success());
    assert!(outcome(0, "").success());
    assert!(!outcome(2, "").success());
    let (_, action) = step(Stage::Generating, Event::Ended(killed));
    assert_eq!(action, Action::Compare { announce: true });
}

#[test]
fn a_process_that_does_not_start_ends_the_work() {
    let (stage, action) = step(Stage::Generating, Event::NotStarted(failure("cargo_embargo")));
    assert_eq!(stage, Stage::Failed { error: failure("cargo_embargo") });
    assert_eq!(action, Action::GiveUp);
    assert_eq!(conclude(stage), Some(Err(failure("cargo_embargo"))));
    let comparing = Stage::Comparing { generated: outcome(0, "") };
    let (stage, action) = step(comparing, Event::NotStarted(failure("diff")));
    assert_eq!(stage, Stage::Failed { error: failure("diff") });
    assert_eq!(action, Action::GiveUp);
    let (stage, action) = step(stage, Event::Ended(outcome(0, "")));
    assert_eq!(stage, Stage::Failed { error: failure("diff") });
    assert_eq!(action, Action::Rest);
    let done = Stage::Done { generated: outcome(0, ""), compared: outcome(0, "") };
    assert_eq!(step(done.clone(), Event::Ended(outcome(3, ""))), (done, Action::Rest));
}

#[test]
fn arguments_of_the_processes() {
    assert_eq!(generator_arguments(), vec!["generate", "cargo_embargo.json"]);
    assert_eq!(
        diff_arguments("a/Android.bp", "staging/Android.bp"),
        vec![
            "-u",
            "-w",
            "-B",
            "-I",
            "// has rustc warnings",
            "-I",
            "This file is generated by",
            "-I",
            "cargo_pkg_version:",
            "a/Android.bp",
            "staging/Android.bp",
        ]
    );
}

#[test]
fn a_run_without_reports_is_empty() {
    let map = collect(Vec::new()).unwrap();
    assert!(map.is_empty());
}

#[test]
fn every_report_of_a_run_is_in_its_result() {
    let map = collect(vec![report("b", "1", "x"), report("a", "2", "y"), report("a", "1", "z")])
        .unwrap();
    assert_eq!(map.len(), 3);
    assert_eq!(map.get(&identity("b", "1")), Some(&(outcome(0, "x"), outcome(1, "x"))));
    assert_eq!(map.get(&identity("a", "2")), Some(&(outcome(0, "y"), outcome(1, "y"))));
    assert_eq!(map.get(&identity("a", "1")), Some(&(outcome(0, "z"), outcome(1, "z"))));
    assert_eq!(map.key_at(0), &identity("a", "1"));
    assert_eq!(map.key_at(2), &identity("b", "1"));
}

#[test]
fn the_order_of_the_reports_does_not_matter() {
    let first = collect(vec![report("b", "1", "x"), report("a", "2", "y"), report("a", "1", "z")]);
    let second = collect(vec![report("a", "1", "z"), report("b", "1", "x"), report("a", "2", "y")]);
    let third = collect(vec![report("a", "2", "y"), report("a", "1", "z"), report("b", "1", "x")]);
    assert!(first.is_ok());
    assert_eq!(first, second);
    assert_eq!(second, third);
}

#[test]
fn two_reports_of_one_identity_fail_the_run() {
    let result = collect(vec![report("a", "1", "x"), report("b", "1", "y"), report("a", "1", "z")]);
    assert_eq!(result, Err(PipelineError::Duplicate { identity: identity("a", "1") }));
    let result = collect(vec![report("a", "1", "x"), report("a", "1", "x")]);
    assert_eq!(result, Err(PipelineError::Duplicate { identity: identity("a", "1") }));
}

#[test]
fn a_process_that_did_not_start_fails_the_run() {
    let failed = Report { identity: identity("b", "1"), result: Err(failure("diff")) };
    let result = collect(vec![report("a", "1", "x"), failed, report("a", "1", "z")]);
    assert_eq!(
        result,
        Err(PipelineError::Launch { identity: identity("b", "1"), error: failure("diff") })
    );
}

#[test]
fn one_report_is_gathered() {
    let map = gather(ResultMap::new(), report("a", "1", "x")).unwrap();
    assert_eq!(map.len(), 1);
    assert_eq!(
        gather(map, report("a", "1", "y")),
        Err(PipelineError::Duplicate { identity: identity("a", "1") })
    );
}

#[test]
fn the_build_of_the_tools_must_succeed() {
    assert_eq!(check_bootstrap(outcome(0, "done")), Ok(()));
    let failed = Outcome { code: Some(2), stdout: b"out".to_vec(), stderr: b"err".to_vec() };
    assert_eq!(
        check_bootstrap(failed),
        Err(PipelineError::Bootstrap { stdout: b"out".to_vec(), stderr: b"err".to_vec() })
    );
}
