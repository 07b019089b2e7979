use apipe::APipeError;
use apipe::CommandPipe;
use apipe::OutputAction;
use apipe::StageOutcome;

#[test]
fn test_output_before_spawn() {
    let mut pipe = CommandPipe::new();
    pipe.add_command("echo");

    assert_eq!(pipe.output_action(), OutputAction::NoProcess);
}

#[test]
fn test_output_memoized() {
    let mut pipe = CommandPipe::new();
    pipe.add_command("echo");

    pipe.begin_spawn();
    pipe.record_stage(0, StageOutcome::Started).unwrap();
    assert_eq!(pipe.output_action(), OutputAction::Drain);

    pipe.finish_drain(Some(0), b"is a test\n".to_vec(), Vec::new());

    assert_eq!(pipe.output_action(), OutputAction::UseCached);
    let first = pipe.cached_output().clone();

    assert_eq!(pipe.output_action(), OutputAction::UseCached);
    let second = pipe.cached_output().clone();

    assert_eq!(first, second);
    assert_eq!(first.stdout(), "is a test\n".as_bytes());
    assert!(first.success());
    assert_eq!(first.exit_code(), Some(0));
}

#[test]
fn test_failed_start_identifies_stage() {
    let mut pipe = CommandPipe::new();
    pipe.add_command("definitely-not-a-real-program");
    pipe.add_command("grep");

    pipe.begin_spawn();
    let err = pipe
        .record_stage(0, StageOutcome::StartFailed("No such file or directory".to_string()))
        .unwrap_err();

    match err {
        APipeError::ProcessStart { stage, program, source } => {
            assert_eq!(stage, 0);
            assert_eq!(program, "definitely-not-a-real-program");
            assert_eq!(source, "No such file or directory");
        }
        other => panic!("expected a process-start error, got {:?}", other),
    }

    assert_eq!(pipe.output_action(), OutputAction::NoProcess);
}

#[test]
fn test_wait_failure_is_classified() {
    let mut pipe = CommandPipe::new();
    pipe.add_command("echo");

    pipe.begin_spawn();
    let err = pipe
        .record_stage(0, StageOutcome::WaitFailed("interrupted".to_string()))
        .unwrap_err();

    assert!(matches!(err, APipeError::ProcessWait { .. }));
    assert_eq!(pipe.output_action(), OutputAction::NoProcess);
}

#[test]
fn test_drain_failure_consumes_handle() {
    let mut pipe = CommandPipe::new();
    pipe.add_command("echo");

    pipe.begin_spawn();
    pipe.record_stage(0, StageOutcome::Started).unwrap();
    assert_eq!(pipe.output_action(), OutputAction::Drain);

    let err = pipe.drain_failed("interrupted".to_string());

    match err {
        APipeError::ProcessWait { source } => assert_eq!(source, "interrupted"),
        other => panic!("expected a process-wait error, got {:?}", other),
    }

    assert_eq!(pipe.output_action(), OutputAction::NoProcess);
}

#[test]
fn test_output_without_exit_code() {
    let mut pipe = CommandPipe::new();
    pipe.add_command("echo");

    pipe.begin_spawn();
    pipe.record_stage(0, StageOutcome::Started).unwrap();
    pipe.finish_drain(None, Vec::new(), b"killed\n".to_vec());

    let out = pipe.cached_output();
    assert!(!out.success());
    assert_eq!(out.exit_code(), None);
    assert_eq!(out.stdout(), b"");
    assert_eq!(out.stderr(), "killed\n".as_bytes());
}

#[test]
fn test_nonzero_exit_is_not_an_error() {
    let mut pipe = CommandPipe::new();
    pipe.add_command("grep");

    pipe.begin_spawn();
    pipe.record_stage(0, StageOutcome::Started).unwrap();
    pipe.finish_drain(Some(1), Vec::new(), Vec::new());

    assert_eq!(pipe.output_action(), OutputAction::UseCached);
    let out = pipe.cached_output();
    assert!(!out.success());
    assert_eq!(out.exit_code(), Some(1));
}
