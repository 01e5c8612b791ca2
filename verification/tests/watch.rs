use trillium_cli::event::Event;
use trillium_cli::watch::{
    classify_change, classify_notification, resolve, PathError, Resolution, WatchTarget,
};

fn found(configured: &str, canonical: &str) -> Resolution {
    Resolution { configured: configured.to_string(), canonical: Some(canonical.to_string()) }
}

fn missing(configured: &str) -> Resolution {
    Resolution { configured: configured.to_string(), canonical: None }
}

#[test]
fn a_change_at_the_binary_is_binary_changed() {
    assert_eq!(classify_change("/p/target/debug/app", "/p/target/debug/app"), Event::BinaryChanged);
}

#[test]
fn a_change_elsewhere_is_a_rebuild() {
    assert_eq!(classify_change("/p/src/main.rs", "/p/target/debug/app"), Event::Rebuild);
    assert_eq!(classify_change("/p/target/debug/app2", "/p/target/debug/app"), Event::Rebuild);
    assert_eq!(classify_change("/p/target/debug/ap", "/p/target/debug/app"), Event::Rebuild);
    assert_eq!(classify_change("/p/target/debug/App", "/p/target/debug/app"), Event::Rebuild);
    assert_eq!(classify_change("", "/p/target/debug/app"), Event::Rebuild);
}

#[test]
fn notifications_are_not_deduplicated() {
    let paths = vec![
        Some("/p/src/a.rs".to_string()),
        Some("/p/src/a.rs".to_string()),
        None,
        Some("/p/bin".to_string()),
        Some("/p/src/b.rs".to_string()),
        Some("/p/bin".to_string()),
    ];
    assert_eq!(
        classify_notification(&paths, "/p/bin"),
        vec![
            Event::Rebuild,
            Event::Rebuild,
            Event::BinaryChanged,
            Event::Rebuild,
            Event::BinaryChanged
        ]
    );
}

#[test]
fn a_notification_without_paths_is_no_event() {
    assert_eq!(classify_notification(&Vec::new(), "/p/bin"), Vec::<Event>::new());
    assert_eq!(classify_notification(&vec![None, None], "/p/bin"), Vec::<Event>::new());
}

#[test]
fn sources_are_recursive_and_the_binary_is_not() {
    let targets = resolve(
        &found("target/debug/app", "/p/target/debug/app"),
        &vec![found("src", "/p/src"), found("../lib", "/lib")],
    );
    assert_eq!(
        targets,
        Ok(vec![
            WatchTarget { path: "/p/src".to_string(), recursive: true },
            WatchTarget { path: "/lib".to_string(), recursive: true },
            WatchTarget { path: "/p/target/debug/app".to_string(), recursive: false },
        ])
    );
}

#[test]
fn no_sources_leave_the_binary() {
    assert_eq!(
        resolve(&found("app", "/p/app"), &Vec::new()),
        Ok(vec![WatchTarget { path: "/p/app".to_string(), recursive: false }])
    );
}

#[test]
fn a_missing_binary_is_the_error() {
    assert_eq!(
        resolve(&missing("target/debug/app"), &vec![missing("src")]),
        Err(PathError { path: "target/debug/app".to_string() })
    );
}

#[test]
fn the_first_missing_source_is_the_error() {
    assert_eq!(
        resolve(
            &found("app", "/p/app"),
            &vec![found("src", "/p/src"), missing("nope"), missing("neither")]
        ),
        Err(PathError { path: "nope".to_string() })
    );
    assert_eq!(
        resolve(&found("app", "/p/app"), &vec![found("src", "/p/src"), missing("last")]),
        Err(PathError { path: "last".to_string() })
    );
}
