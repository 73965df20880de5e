use pebble_shell::errors::ShellError;
use pebble_shell::history::History;
use pebble_shell::registry::Registry;
use pebble_shell::runner::{
    after_probe, classify, conclude, execute_command, full_arguments, AfterProbe,
    ExitClassification, InvocationRequest, RunEvent,
};
use pebble_shell::session::{Action, LineEvent, LoopState, Session};

fn fresh() -> Session {
    Session::new("alice".to_string(), "/work".to_string(), History::new())
}

fn line(text: &str) -> LineEvent {
    LineEvent::Line(text.to_string())
}

#[test]
fn new_session_runs_on_the_default_database() {
    let session = fresh();
    assert_eq!(session.current_db, "default");
    assert_eq!(session.username, "alice");
    assert_eq!(session.working_dir, "/work");
    assert_eq!(session.state, LoopState::Running);
    assert!(session.is_running());
    assert_eq!(session.history.len(), 0);
}

#[test]
fn use_db_without_argument_keeps_the_label() {
    let registry = Registry::new();
    let mut session = fresh();
    let action = session.step(&registry, &line("use_db"));
    assert_eq!(action, Action::Report(ShellError::UserInputError));
    assert_eq!(session.current_db, "default");
    assert!(session.is_running());
}

#[test]
fn use_db_with_one_argument_sets_the_label() {
    let registry = Registry::new();
    let mut session = fresh();
    let action = session.step(&registry, &line("use_db mydb"));
    assert_eq!(action, Action::Switched("mydb".to_string()));
    assert_eq!(session.current_db, "mydb");
    assert!(session.is_running());
}

#[test]
fn use_db_with_two_arguments_keeps_the_label() {
    let registry = Registry::new();
    let mut session = fresh();
    let action = session.step(&registry, &line("use_db a b"));
    assert_eq!(action, Action::Report(ShellError::UserInputError));
    assert_eq!(session.current_db, "default");
}

#[test]
fn unknown_command_changes_nothing_but_the_history() {
    let registry = Registry::new();
    let mut session = fresh();
    let action = session.step(&registry, &line("frobnicate 1 2"));
    assert_eq!(action, Action::Report(ShellError::UnknownCommand("frobnicate".to_string())));
    assert_eq!(session.current_db, "default");
    assert_eq!(session.username, "alice");
    assert_eq!(session.working_dir, "/work");
    assert_eq!(session.state, LoopState::Running);
    assert_eq!(session.history.entries(), vec!["frobnicate 1 2".to_string()]);
}

#[test]
fn empty_line_changes_nothing() {
    let registry = Registry::new();
    let mut session = fresh();
    session.step(&registry, &line("greet"));
    let action = session.step(&registry, &line(""));
    assert_eq!(action, Action::Nothing);
    assert_eq!(session.history.entries(), vec!["greet".to_string()]);
    assert_eq!(session.current_db, "default");
    assert!(session.is_running());
}

#[test]
fn blank_line_is_recorded_but_not_dispatched() {
    let registry = Registry::new();
    let mut session = fresh();
    let action = session.step(&registry, &line("   "));
    assert_eq!(action, Action::Nothing);
    assert_eq!(session.history.entries(), vec!["   ".to_string()]);
}

#[test]
fn help_shows_help() {
    let registry = Registry::new();
    let mut session = fresh();
    assert_eq!(session.step(&registry, &line("help")), Action::ShowHelp);
    assert!(session.is_running());
}

#[test]
fn exit_stops_the_loop() {
    let registry = Registry::new();
    let mut session = fresh();
    assert_eq!(session.step(&registry, &line("exit")), Action::Stop(LoopState::ExitedByUser));
    assert_eq!(session.state, LoopState::ExitedByUser);
    assert!(!session.is_running());
    assert_eq!(session.history.entries(), vec!["exit".to_string()]);
}

#[test]
fn interrupt_and_end_of_input_stop_the_loop() {
    let registry = Registry::new();
    let mut session = fresh();
    assert_eq!(
        session.step(&registry, &LineEvent::Interrupted),
        Action::Stop(LoopState::ExitedByInterrupt)
    );
    assert_eq!(session.state, LoopState::ExitedByInterrupt);
    let mut session = fresh();
    assert_eq!(
        session.step(&registry, &LineEvent::EndOfInput),
        Action::Stop(LoopState::ExitedByEndOfInput)
    );
    assert_eq!(session.state, LoopState::ExitedByEndOfInput);
}

#[test]
fn broken_input_aborts_the_loop() {
    let registry = Registry::new();
    let mut session = fresh();
    let action = session.step(&registry, &LineEvent::IoError("bad fd".to_string()));
    assert_eq!(action, Action::Abort(ShellError::FatalIoError("bad fd".to_string())));
    assert_eq!(session.state, LoopState::ExitedByFatalIoError);
    assert!(ShellError::FatalIoError("bad fd".to_string()).is_fatal());
}

#[test]
fn a_session_that_left_the_loop_stays_as_it_is() {
    let registry = Registry::new();
    let mut session = fresh();
    session.step(&registry, &line("exit"));
    let action = session.step(&registry, &line("use_db other"));
    assert_eq!(action, Action::Stop(LoopState::ExitedByUser));
    assert_eq!(session.current_db, "default");
    assert_eq!(session.history.entries(), vec!["exit".to_string()]);
    assert_eq!(session.step(&registry, &LineEvent::Interrupted), Action::Stop(LoopState::ExitedByUser));
    assert_eq!(session.state, LoopState::ExitedByUser);
}

#[test]
fn history_keeps_order_and_repetitions() {
    let registry = Registry::new();
    let mut session = fresh();
    for text in ["greet", "greet", "help", "", "greet"] {
        session.step(&registry, &line(text));
    }
    assert_eq!(
        session.history.entries(),
        vec!["greet".to_string(), "greet".to_string(), "help".to_string(), "greet".to_string()]
    );
}

#[test]
fn switch_database_then_get_object() {
    let registry = Registry::new();
    let mut session = fresh();
    assert_eq!(session.step(&registry, &line("use_db mydb")), Action::Switched("mydb".to_string()));
    assert_eq!(session.current_db, "mydb");
    let action = session.step(&registry, &line("get_object mydb k1"));
    let request = match action {
        Action::Run(request) => request,
        other => panic!("expected a run, got {:?}", other),
    };
    assert_eq!(
        request,
        InvocationRequest {
            command: "get_object".to_string(),
            arguments: vec!["mydb".to_string(), "k1".to_string()],
        }
    );
    assert_eq!(session.current_db, "mydb");
    let args = full_arguments(&request);
    assert_eq!(args, vec!["get_object".to_string(), "mydb".to_string(), "k1".to_string()]);
    let launch = execute_command(&args, "/opt/shell/bin").unwrap();
    assert_eq!(launch.path, "/opt/shell/bin/get_object");
    assert_eq!(launch.arguments, vec!["mydb".to_string(), "k1".to_string()]);
    let start: u128 = 1_000;
    let spawned = match after_probe(launch.clone(), true) {
        AfterProbe::Spawn(spawned) => spawned,
        other => panic!("expected a spawn, got {:?}", other),
    };
    assert_eq!(spawned, launch);
    let end: u128 = 4_500;
    let result = conclude(classify(RunEvent::Exited(0)), start, end);
    assert_eq!(result.classification, ExitClassification::Success);
    assert_eq!(result.elapsed_nanos, 3_500);
}

#[test]
fn script_runs_until_the_session_ends() {
    let registry = Registry::new();
    let mut session = fresh();
    let events = vec![
        line("use_db mydb"),
        line(""),
        line("greet you"),
        line("nope"),
        line("exit"),
        line("use_db late"),
        LineEvent::Interrupted,
    ];
    let actions = session.run_script(&registry, &events);
    assert_eq!(
        actions,
        vec![
            Action::Switched("mydb".to_string()),
            Action::Nothing,
            Action::Run(InvocationRequest {
                command: "greet".to_string(),
                arguments: vec!["you".to_string()],
            }),
            Action::Report(ShellError::UnknownCommand("nope".to_string())),
            Action::Stop(LoopState::ExitedByUser),
        ]
    );
    assert_eq!(session.current_db, "mydb");
    assert_eq!(session.state, LoopState::ExitedByUser);
    assert_eq!(
        session.history.render(),
        "use_db mydb\ngreet you\nnope\nexit\n"
    );
}

#[test]
fn script_without_an_end_leaves_the_loop_running() {
    let registry = Registry::new();
    let mut session = fresh();
    let actions = session.run_script(&registry, &vec![line("help"), line("help")]);
    assert_eq!(actions, vec![Action::ShowHelp, Action::ShowHelp]);
    assert!(session.is_running());
    assert!(session.run_script(&registry, &Vec::new()).is_empty());
    assert_eq!(session.history.entries(), vec!["help".to_string(), "help".to_string()]);
}

#[test]
fn script_on_an_ended_session_does_nothing() {
    let registry = Registry::new();
    let mut session = fresh();
    session.step(&registry, &LineEvent::EndOfInput);
    let actions = session.run_script(&registry, &vec![line("use_db x")]);
    assert!(actions.is_empty());
    assert_eq!(session.current_db, "default");
    assert_eq!(session.state, LoopState::ExitedByEndOfInput);
}
