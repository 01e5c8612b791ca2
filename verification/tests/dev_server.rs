use trillium_cli::dev_server::{
    binary_path, first_word, signal_event, DevPlan, DevServer, SIGHUP, SIGTERM,
};
use trillium_cli::event::Event;

fn server() -> DevServer {
    DevServer::default()
}

#[test]
fn the_default_configuration() {
    assert_eq!(
        DevServer::default(),
        DevServer { watch: None, bin: None, cwd: None, release: false, example: None, signal: 15 }
    );
}

const METADATA: &[u8] = br#"{"packages":[],"resolve":{"nodes":[],"root":"myapp 0.1.0 (path+file:///proj)"},"target_directory":"/proj/target","version":1}"#;

#[test]
fn the_signal_numbers_are_those_of_the_system() {
    assert_eq!(SIGHUP, signal_hook::consts::SIGHUP);
    assert_eq!(SIGTERM, signal_hook::consts::SIGTERM);
    assert_eq!(SIGTERM, nix::sys::signal::Signal::SIGTERM as i32);
}

#[test]
fn hangup_means_the_binary_changed() {
    assert_eq!(signal_event(signal_hook::consts::SIGHUP), Some(Event::BinaryChanged));
}

#[test]
fn other_signals_mean_nothing() {
    assert_eq!(signal_event(signal_hook::consts::SIGUSR1), None);
    assert_eq!(signal_event(signal_hook::consts::SIGTERM), None);
    assert_eq!(signal_event(0), None);
    assert_eq!(signal_event(-1), None);
    assert_eq!(signal_event(i32::MAX), None);
}

#[test]
fn the_first_word_ends_at_the_first_space() {
    assert_eq!(first_word("myapp 0.1.0 (path+file:///proj)"), "myapp");
    assert_eq!(first_word("myapp"), "myapp");
    assert_eq!(first_word(" myapp"), "");
    assert_eq!(first_word(""), "");
    assert_eq!(first_word("a  b"), "a");
    assert_eq!(first_word("caf\u{e9} 1"), "caf\u{e9}");
}

#[test]
fn the_binary_lies_below_the_target_directory() {
    assert_eq!(binary_path("/t", "app 1.0", false, None), "/t/debug/app");
    assert_eq!(binary_path("/t", "app 1.0", true, None), "/t/release/app");
    assert_eq!(binary_path("/t/", "app", false, None), "/t/debug/app");
    assert_eq!(binary_path("/t", "app 1.0", false, Some("demo")), "/t/debug/examples/demo");
    assert_eq!(binary_path("/t", "app 1.0", true, Some("demo")), "/t/release/examples/demo");
}

#[test]
fn a_configured_binary_is_taken_as_it_is() {
    let mut config = server();
    config.bin = Some("./my/app".to_string());
    assert_eq!(config.determine_bin(b""), Some("./my/app".to_string()));
    assert_eq!(config.determine_bin(METADATA), Some("./my/app".to_string()));
}

#[test]
fn the_binary_is_found_through_the_metadata() {
    let mut config = server();
    assert_eq!(config.determine_bin(METADATA), Some("/proj/target/debug/myapp".to_string()));
    config.release = true;
    assert_eq!(config.determine_bin(METADATA), Some("/proj/target/release/myapp".to_string()));
    config.example = Some("chat".to_string());
    assert_eq!(
        config.determine_bin(METADATA),
        Some("/proj/target/release/examples/chat".to_string())
    );
}

#[test]
fn metadata_without_the_fields_give_no_binary() {
    let config = server();
    assert_eq!(config.determine_bin(b""), None);
    assert_eq!(config.determine_bin(b"not json"), None);
    assert_eq!(config.determine_bin(b"{}"), None);
    assert_eq!(config.determine_bin(br#"{"target_directory":"/t"}"#), None);
    assert_eq!(config.determine_bin(br#"{"target_directory":"/t","resolve":{"root":null}}"#), None);
    assert_eq!(config.determine_bin(br#"{"target_directory":7,"resolve":{"root":"a"}}"#), None);
    assert_eq!(config.determine_bin(br#"{"resolve":{"root":"a 1"}}"#), None);
    assert_eq!(config.determine_bin(br#"["target_directory","resolve"]"#), None);
}

#[test]
fn the_default_plan() {
    let plan = server().run("/home/me/proj".to_string());
    assert_eq!(
        plan,
        DevPlan {
            cwd: "/home/me/proj".to_string(),
            build: vec!["build".to_string(), "--color=always".to_string()],
            watch: vec!["/home/me/proj/src".to_string()],
            signal: 15,
        }
    );
}

#[test]
fn the_working_directory_can_be_configured() {
    let mut config = server();
    config.cwd = Some("/srv/app".to_string());
    assert_eq!(config.working_directory("/home/me"), "/srv/app");
    assert_eq!(server().working_directory("/home/me"), "/home/me");
    let plan = config.run("/home/me".to_string());
    assert_eq!(plan.cwd, "/srv/app");
    assert_eq!(plan.watch, vec!["/srv/app/src"]);
}

#[test]
fn watch_paths_are_taken_from_the_working_directory() {
    let mut config = server();
    config.watch = Some(vec!["src".to_string(), "/abs/templates".to_string(), "a/b".to_string()]);
    config.signal = 2;
    let plan = config.run("/w".to_string());
    assert_eq!(plan.watch, vec!["/w/src", "/abs/templates", "/w/a/b"]);
    assert_eq!(plan.signal, 2);
}

#[test]
fn an_example_adds_the_examples_directory() {
    let mut config = server();
    config.example = Some("demo".to_string());
    config.release = true;
    let plan = config.run("/w".to_string());
    assert_eq!(plan.watch, vec!["/w/src", "/w/examples"]);
    assert_eq!(plan.build, vec!["build", "--color=always", "--release", "--example", "demo"]);
}

#[test]
fn an_empty_watch_list_watches_no_sources() {
    let mut config = server();
    config.watch = Some(Vec::new());
    assert_eq!(config.run("/w".to_string()).watch, Vec::<String>::new());
    let mut config = server();
    config.watch = Some(Vec::new());
    config.example = Some("demo".to_string());
    assert_eq!(config.run("/w".to_string()).watch, vec!["/w/examples"]);
}
