use mdbook_typst_doc::error::Error;
use mdbook_typst_doc::jobs::{engine_arguments, Action, JobState, Orchestrator};

#[test]
fn engine_is_called_with_compile_and_the_output() {
    assert_eq!(engine_arguments("cache/d41d8.svg", &None), vec!["compile", "-", "cache/d41d8.svg"]);
    assert_eq!(
        engine_arguments("cache/d41d8.svg", &Some("/project".to_string())),
        vec!["compile", "-", "cache/d41d8.svg", "--root", "/project"]
    );
}

#[test]
fn nothing_to_wait_for_without_jobs() {
    let record = Orchestrator::new(0);
    assert_eq!(record.next(), Action::Publish);
    assert_eq!(record.state(0), None);
}

#[test]
fn every_job_starts_pending() {
    let record = Orchestrator::new(3);
    assert_eq!(record.state(0), Some(JobState::Pending));
    assert_eq!(record.state(2), Some(JobState::Pending));
    assert_eq!(record.state(3), None);
    assert_eq!(record.next(), Action::Spawn(0));
}

#[test]
fn all_jobs_are_started_before_any_is_waited_for() {
    let mut record = Orchestrator::new(2);
    assert_eq!(record.next(), Action::Spawn(0));
    record.spawned(0);
    assert_eq!(record.state(0), Some(JobState::Spawned));
    assert_eq!(record.next(), Action::Spawn(1));
    record.input_written(0);
    assert_eq!(record.state(0), Some(JobState::Running));
    assert_eq!(record.next(), Action::Spawn(1));
    record.spawned(1);
    record.input_written(1);
    assert_eq!(record.next(), Action::Wait(0));
}

#[test]
fn images_are_published_after_every_job_succeeded() {
    let mut record = Orchestrator::new(2);
    record.spawned(0);
    record.spawned(1);
    record.input_written(0);
    record.input_written(1);
    record.exited(1, true, String::new());
    assert_eq!(record.state(1), Some(JobState::Succeeded));
    assert_eq!(record.next(), Action::Wait(0));
    record.exited(0, true, "warning: unused".to_string());
    assert_eq!(record.next(), Action::Publish);
}

#[test]
fn failed_job_reports_what_the_engine_wrote() {
    let mut record = Orchestrator::new(1);
    record.spawned(0);
    record.input_written(0);
    record.exited(0, false, "error: unknown variable: x\n".to_string());
    assert_eq!(record.state(0), Some(JobState::Failed));
    let action = record.next();
    assert_eq!(
        action,
        Action::Abort(Error::SubprocessFailure("error: unknown variable: x\n".to_string()))
    );
    match action {
        Action::Abort(error) => assert!(error.message().contains("error: unknown variable: x")),
        _ => unreachable!(),
    }
}

#[test]
fn failure_waits_for_the_jobs_under_way() {
    let mut record = Orchestrator::new(3);
    record.spawned(0);
    record.spawned(1);
    record.spawned(2);
    record.input_written(0);
    record.input_written(1);
    record.exited(0, false, "first".to_string());
    assert_eq!(record.next(), Action::Wait(1));
    record.exited(1, false, "second".to_string());
    assert_eq!(record.next(), Action::Wait(2));
    record.exited(2, true, String::new());
    assert_eq!(record.next(), Action::Abort(Error::SubprocessFailure("first".to_string())));
}

#[test]
fn spawn_failure_starts_no_further_job() {
    let mut record = Orchestrator::new(3);
    record.spawned(0);
    record.input_written(0);
    assert_eq!(record.next(), Action::Spawn(1));
    record.spawn_failed(1, "No such file or directory".to_string());
    assert_eq!(record.state(1), Some(JobState::Failed));
    assert_eq!(record.next(), Action::Wait(0));
    record.exited(0, true, String::new());
    assert_eq!(record.state(2), Some(JobState::Pending));
    assert_eq!(
        record.next(),
        Action::Abort(Error::SubprocessSpawn("No such file or directory".to_string()))
    );
}

#[test]
fn events_out_of_turn_change_nothing() {
    let mut record = Orchestrator::new(2);
    record.input_written(0);
    record.exited(0, false, "early".to_string());
    record.exited(7, false, "stray".to_string());
    record.spawned(7);
    record.spawn_failed(7, "stray".to_string());
    assert_eq!(record.state(0), Some(JobState::Pending));
    record.spawned(0);
    record.spawned(0);
    record.exited(0, true, String::new());
    record.exited(0, false, "late".to_string());
    record.input_written(0);
    record.spawn_failed(0, "late".to_string());
    assert_eq!(record.state(0), Some(JobState::Succeeded));
    assert_eq!(record.next(), Action::Spawn(1));
}

#[test]
fn run_ends_within_three_steps_for_each_job() {
    let jobs = 4;
    let mut record = Orchestrator::new(jobs);
    let mut steps = 0;
    loop {
        match record.next() {
            Action::Spawn(job) => {
                record.spawned(job);
                record.input_written(job);
            }
            Action::Wait(job) => record.exited(job, true, String::new()),
            Action::Publish => break,
            Action::Abort(error) => panic!("{}", error.message()),
        }
        steps += 1;
        assert!(steps <= 3 * jobs);
    }
    assert_eq!(steps, 2 * jobs);
}

#[test]
fn engine_without_input_fails_the_run_once_it_is_over() {
    let mut record = Orchestrator::new(2);
    record.spawned(0);
    record.input_failed(0, "Broken pipe".to_string());
    assert_eq!(record.state(0), Some(JobState::Spawned));
    assert_eq!(record.next(), Action::Wait(0));
    record.exited(0, true, String::new());
    assert_eq!(record.state(1), Some(JobState::Pending));
    assert_eq!(record.next(), Action::Abort(Error::SubprocessSpawn("Broken pipe".to_string())));
}

#[test]
fn input_failure_out_of_turn_changes_nothing() {
    let mut record = Orchestrator::new(1);
    record.input_failed(0, "early".to_string());
    record.input_failed(3, "stray".to_string());
    record.spawned(0);
    record.input_written(0);
    record.input_failed(0, "late".to_string());
    record.exited(0, true, String::new());
    assert_eq!(record.next(), Action::Publish);
}
