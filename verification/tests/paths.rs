use std::path::Path;
use trillium_cli::root_path::{absolute, join, RootPath};

#[test]
fn join_agrees_with_the_file_system_rules() {
    let bases = ["", "/", "/a", "/a/", "a", "a/b", "a/b/", ".", "..", "/a//"];
    let paths = ["", "x", "x/y", "/x", "/", "./x", "../x", "x/"];
    for base in bases {
        for path in paths {
            let expected = Path::new(base).join(path);
            assert_eq!(join(base, path), expected.to_str().unwrap());
        }
    }
}

#[test]
fn join_by_example() {
    assert_eq!(join("/home/me", "src"), "/home/me/src");
    assert_eq!(join("/home/me/", "src"), "/home/me/src");
    assert_eq!(join("/home/me", "/etc"), "/etc");
    assert_eq!(join("", "src"), "src");
    assert_eq!(join("/home/me", ""), "/home/me/");
}

#[test]
fn absolute_paths_start_with_a_slash() {
    assert!(absolute("/"));
    assert!(absolute("/a/b"));
    assert!(!absolute(""));
    assert!(!absolute("a/b"));
    assert!(!absolute("./a"));
    assert!(!absolute(" /a"));
    for path in ["/", "/a", "", "a", "./a", "../a"] {
        assert_eq!(absolute(path), Path::new(path).is_absolute());
    }
}

#[test]
fn a_root_is_absolute() {
    let root = RootPath::new("/srv/www".to_string()).unwrap();
    assert_eq!(root.as_str(), "/srv/www");
    assert_eq!(root.join("index.html"), "/srv/www/index.html");
    assert_eq!(root.clone(), root);
    assert_eq!(root.into_string(), "/srv/www");
}

#[test]
fn a_relative_root_is_refused() {
    assert_eq!(RootPath::new("srv/www".to_string()), None);
    assert_eq!(RootPath::new(String::new()), None);
    assert_eq!(RootPath::new(".".to_string()), None);
}
