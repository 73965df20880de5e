use pebble_shell::errors::{failure, ShellError};
use pebble_shell::runner::{
    after_probe, candidate_path, classify, conclude, elapsed, execute_command, full_arguments,
    tail_of, AfterProbe, ExitClassification, InvocationRequest, Launch, RunEvent,
};

fn strings(items: &[&str]) -> Vec<String> {
    items.iter().map(|s| s.to_string()).collect()
}

#[test]
fn candidate_lies_beside_the_shell() {
    assert_eq!(candidate_path("/usr/local/bin", "greet"), "/usr/local/bin/greet");
    assert_eq!(candidate_path("/usr/local/bin/", "greet"), "/usr/local/bin/greet");
    assert_eq!(candidate_path("/", "greet"), "/greet");
    assert_eq!(candidate_path("", "greet"), "greet");
    assert_eq!(candidate_path("rel/dir", "set_object"), "rel/dir/set_object");
}

#[test]
fn no_arguments_name_no_command() {
    assert_eq!(execute_command(&Vec::new(), "/bin"), None);
}

#[test]
fn arguments_are_forwarded_without_the_name() {
    let launch = execute_command(&strings(&["set_object", "1", "k", "a", "b"]), "/bin");
    assert_eq!(
        launch,
        Some(Launch { path: "/bin/set_object".to_string(), arguments: strings(&["1", "k", "a", "b"]) })
    );
    let alone = execute_command(&strings(&["greet"]), "/bin");
    assert_eq!(alone, Some(Launch { path: "/bin/greet".to_string(), arguments: Vec::new() }));
}

#[test]
fn tail_copies_the_rest() {
    let items = strings(&["a", "b", "c"]);
    assert_eq!(tail_of(&items, 0), items);
    assert_eq!(tail_of(&items, 2), strings(&["c"]));
    assert!(tail_of(&items, 3).is_empty());
}

#[test]
fn full_arguments_start_with_the_name() {
    let request =
        InvocationRequest { command: "create_db".to_string(), arguments: strings(&["x", "y"]) };
    assert_eq!(full_arguments(&request), strings(&["create_db", "x", "y"]));
}

#[test]
fn absent_executable_is_not_found_and_not_spawned() {
    let launch = Launch { path: "/bin/greet".to_string(), arguments: Vec::new() };
    assert_eq!(after_probe(launch, false), AfterProbe::Done(ExitClassification::NotFound));
    assert_eq!(
        failure(&ExitClassification::NotFound, "greet"),
        Some(ShellError::CommandNotFound("greet".to_string()))
    );
}

#[test]
fn present_executable_is_spawned() {
    let launch = Launch { path: "/bin/greet".to_string(), arguments: strings(&["you"]) };
    assert_eq!(after_probe(launch.clone(), true), AfterProbe::Spawn(launch));
}

#[test]
fn exit_code_zero_is_success() {
    assert_eq!(classify(RunEvent::Exited(0)), ExitClassification::Success);
    assert_eq!(failure(&ExitClassification::Success, "greet"), None);
}

#[test]
fn exit_code_seven_is_non_zero_exit() {
    assert_eq!(classify(RunEvent::Exited(7)), ExitClassification::NonZeroExit(7));
    assert_eq!(classify(RunEvent::Exited(-1)), ExitClassification::NonZeroExit(-1));
    assert_eq!(
        failure(&ExitClassification::NonZeroExit(7), "greet"),
        Some(ShellError::NonZeroExit(7))
    );
}

#[test]
fn launch_failure_is_classified_with_its_reason() {
    assert_eq!(
        classify(RunEvent::LaunchFailed("permission denied".to_string())),
        ExitClassification::LaunchFailed("permission denied".to_string())
    );
    assert_eq!(
        failure(&ExitClassification::LaunchFailed("permission denied".to_string()), "greet"),
        Some(ShellError::LaunchFailure("permission denied".to_string()))
    );
}

#[test]
fn elapsed_time_is_the_difference_and_never_negative() {
    assert_eq!(elapsed(10, 25), 15);
    assert_eq!(elapsed(10, 10), 0);
    assert_eq!(elapsed(25, 10), 0);
    assert_eq!(elapsed(0, u128::MAX), u128::MAX);
}

#[test]
fn duration_is_reported_whatever_the_outcome() {
    for classification in [
        ExitClassification::Success,
        ExitClassification::NonZeroExit(3),
        ExitClassification::NotFound,
        ExitClassification::LaunchFailed("no".to_string()),
    ] {
        let result = conclude(classification.clone(), 100, 350);
        assert_eq!(result.classification, classification);
        assert_eq!(result.elapsed_nanos, 250);
    }
}

#[test]
fn only_a_broken_input_stream_is_fatal() {
    assert!(ShellError::FatalIoError("x".to_string()).is_fatal());
    for error in [
        ShellError::UserInputError,
        ShellError::UnknownCommand("x".to_string()),
        ShellError::CommandNotFound("x".to_string()),
        ShellError::LaunchFailure("x".to_string()),
        ShellError::NonZeroExit(1),
        ShellError::PersistenceError("x".to_string()),
    ] {
        assert!(!error.is_fatal());
    }
}
