use pebble_shell::errors::ShellError;
use pebble_shell::registry::{InvocationKind, Registry};
use pebble_shell::runner::InvocationRequest;
use pebble_shell::session::{dispatch, dispatch_tokens, tokenize, Dispatch};
use pebble_shell::split::{join_from, split_runs, Separator};

fn strings(items: &[&str]) -> Vec<String> {
    items.iter().map(|s| s.to_string()).collect()
}

#[test]
fn tokens_split_on_ascii_whitespace() {
    let tokens = tokenize("  set_object db1\tkey  hello world \n");
    assert_eq!(tokens, strings(&["set_object", "db1", "key", "hello", "world"]));
}

#[test]
fn tokens_split_on_every_ascii_whitespace_character() {
    assert_eq!(tokenize("a b\tc\nd\x0Ce\rf"), strings(&["a", "b", "c", "d", "e", "f"]));
}

#[test]
fn tokens_keep_other_whitespace_and_quotes() {
    assert_eq!(tokenize("a\u{a0}b \"c d\""), strings(&["a\u{a0}b", "\"c", "d\""]));
    assert_eq!(tokenize("a\x0Bb"), strings(&["a\x0Bb"]));
}

#[test]
fn tokens_of_blank_text_are_none() {
    assert!(tokenize("").is_empty());
    assert!(tokenize(" \t\r\n").is_empty());
}

#[test]
fn tokens_keep_multibyte_characters() {
    assert_eq!(tokenize("grüße 🗿 ok"), strings(&["grüße", "🗿", "ok"]));
}

#[test]
fn lines_split_on_line_feed_only() {
    assert_eq!(
        split_runs("one two\n\nthree\r\nfour", Separator::LineFeed),
        strings(&["one two", "three\r", "four"])
    );
}

#[test]
fn joining_tokens_and_splitting_gives_them_back() {
    let words = strings(&["set_object", "1", "key", "hello", "world"]);
    let text = join_from(&words, 0);
    assert_eq!(text, "set_object 1 key hello world");
    assert_eq!(tokenize(&text), words);
    assert_eq!(join_from(&words, 3), "hello world");
    assert_eq!(join_from(&words, 4), "world");
    assert_eq!(join_from(&words, 5), "");
}

#[test]
fn blank_line_dispatches_nothing() {
    let registry = Registry::new();
    assert_eq!(dispatch(&registry, ""), Dispatch::Nothing);
    assert_eq!(dispatch(&registry, " \t  "), Dispatch::Nothing);
    assert_eq!(dispatch_tokens(&registry, &Vec::new()), Dispatch::Nothing);
}

#[test]
fn registry_resolves_its_names() {
    let registry = Registry::new();
    for name in ["create_db", "close_db", "set_object", "get_object", "greet"] {
        assert_eq!(registry.resolve(name), Some(InvocationKind::ExternalDispatch));
    }
    assert_eq!(registry.resolve("use_db"), Some(InvocationKind::BuiltinUseDb));
}

#[test]
fn registry_does_not_hold_other_names() {
    let registry = Registry::new();
    for name in ["exit", "help", "nope", "", "Greet", "greet ", "use_db2", "create"] {
        assert_eq!(registry.resolve(name), None);
    }
}

#[test]
fn registry_lists_its_names_in_order() {
    let registry = Registry::new();
    assert_eq!(
        registry.names(),
        strings(&["create_db", "close_db", "set_object", "get_object", "greet", "use_db"])
    );
}

#[test]
fn every_registry_name_is_dispatched_and_never_unknown() {
    let registry = Registry::new();
    for name in registry.names() {
        let line = format!("{} x", name);
        match dispatch(&registry, &line) {
            Dispatch::Error(ShellError::UnknownCommand(_)) => panic!("{} was unknown", name),
            Dispatch::Run(request) => {
                assert_eq!(request.command, name);
                assert_eq!(request.arguments, strings(&["x"]));
            }
            Dispatch::UseDb(label) => {
                assert_eq!(name, "use_db");
                assert_eq!(label, "x");
            }
            other => panic!("{} gave {:?}", name, other),
        }
    }
}

#[test]
fn unknown_name_is_reported() {
    let registry = Registry::new();
    assert_eq!(
        dispatch(&registry, "frobnicate now"),
        Dispatch::Error(ShellError::UnknownCommand("frobnicate".to_string()))
    );
    assert_eq!(
        dispatch(&registry, "EXIT"),
        Dispatch::Error(ShellError::UnknownCommand("EXIT".to_string()))
    );
}

#[test]
fn registry_hit_forwards_all_tokens() {
    let registry = Registry::new();
    assert_eq!(
        dispatch(&registry, "get_object mydb k1"),
        Dispatch::Run(InvocationRequest {
            command: "get_object".to_string(),
            arguments: strings(&["mydb", "k1"]),
        })
    );
    assert_eq!(
        dispatch(&registry, "greet"),
        Dispatch::Run(InvocationRequest { command: "greet".to_string(), arguments: Vec::new() })
    );
}

#[test]
fn exit_and_help_come_before_the_registry() {
    let registry = Registry::new();
    assert_eq!(dispatch(&registry, "exit"), Dispatch::Exit);
    assert_eq!(dispatch(&registry, "  exit now "), Dispatch::Exit);
    assert_eq!(dispatch(&registry, "help"), Dispatch::Help);
    assert_eq!(dispatch(&registry, "help me"), Dispatch::Help);
}

#[test]
fn use_db_takes_exactly_one_argument() {
    let registry = Registry::new();
    assert_eq!(dispatch(&registry, "use_db"), Dispatch::Error(ShellError::UserInputError));
    assert_eq!(dispatch(&registry, "use_db mydb"), Dispatch::UseDb("mydb".to_string()));
    assert_eq!(dispatch(&registry, "use_db a b"), Dispatch::Error(ShellError::UserInputError));
}
