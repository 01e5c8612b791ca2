use trillium_cli::build_runner::{
    build_arguments, classify, escape, markup, rebuild, BuildOutcome, BuildOutput,
};
use trillium_cli::event::Event;

fn output(status: Option<i32>, stdout: &[u8], stderr: &[u8]) -> BuildOutput {
    BuildOutput { status, stdout: stdout.to_vec(), stderr: stderr.to_vec() }
}

#[test]
fn arguments_of_a_debug_build() {
    assert_eq!(build_arguments(false, None), vec!["build", "--color=always"]);
}

#[test]
fn arguments_of_a_release_build() {
    assert_eq!(build_arguments(true, None), vec!["build", "--color=always", "--release"]);
}

#[test]
fn arguments_of_an_example_build() {
    assert_eq!(
        build_arguments(false, Some("hello")),
        vec!["build", "--color=always", "--example", "hello"]
    );
    assert_eq!(
        build_arguments(true, Some("hello")),
        vec!["build", "--color=always", "--release", "--example", "hello"]
    );
}

#[test]
fn exit_zero_is_success() {
    let outcome = rebuild(Ok(output(Some(0), b"Finished dev", b"warning: unused")));
    assert_eq!(outcome, BuildOutcome::Succeeded { log: "Finished dev".to_string() });
    assert_eq!(outcome.event(), Some(Event::BuildSuccess));
}

#[test]
fn exit_non_zero_is_a_compile_error() {
    for status in [Some(1), Some(101), Some(-1), Some(i32::MAX), None] {
        let outcome = rebuild(Ok(output(status, b"ignored", b"error[E0000]")));
        assert_eq!(
            outcome,
            BuildOutcome::Failed {
                console: b"error[E0000]".to_vec(),
                error: "error[E0000]".to_string(),
            }
        );
        assert_eq!(
            outcome.event(),
            Some(Event::CompileError { error: "error[E0000]".to_string() })
        );
    }
}

#[test]
fn the_exit_code_decides_the_event() {
    for status in [None, Some(-2), Some(-1), Some(0), Some(1), Some(2), Some(255)] {
        for stderr in [b"".as_slice(), b"error", b"\x1b[31mred\x1b[0m", b"\x1b[56mbad", b"\xff"] {
            let event = rebuild(Ok(output(status, b"out", stderr))).event();
            if status == Some(0) {
                assert_eq!(event, Some(Event::BuildSuccess));
            } else {
                assert!(matches!(event, Some(Event::CompileError { .. })));
            }
        }
    }
}

#[test]
fn output_that_cannot_be_rendered_is_shown_escaped() {
    let raw = b"\x1b[56m<oops> & \"more\" 'here'";
    let outcome = rebuild(Ok(output(Some(1), b"", raw)));
    assert_eq!(
        outcome,
        BuildOutcome::Failed {
            console: raw.to_vec(),
            error: "\u{1b}[56m&lt;oops&gt; &amp; &quot;more&quot; &#39;here&#39;".to_string(),
        }
    );
    assert_eq!(
        outcome.event(),
        Some(Event::CompileError {
            error: "\u{1b}[56m&lt;oops&gt; &amp; &quot;more&quot; &#39;here&#39;".to_string()
        })
    );
}

#[test]
fn escaping_by_example() {
    assert_eq!(escape(""), "");
    assert_eq!(escape("plain caf\u{e9}"), "plain caf\u{e9}");
    assert_eq!(escape("<a href=\"x\">&'</a>"), "&lt;a href=&quot;x&quot;&gt;&amp;&#39;&lt;/a&gt;");
    assert_eq!(escape("&amp;"), "&amp;amp;");
}

#[test]
fn markup_prefers_the_rendering() {
    assert_eq!(markup("<x>", Some("<b>x</b>".to_string())), "<b>x</b>");
    assert_eq!(markup("<x>", None), "&lt;x&gt;");
}

#[test]
fn colours_become_markup() {
    let outcome = rebuild(Ok(output(Some(1), b"", b"\x1b[1m\x1b[31merror\x1b[0m: <T> & more")));
    match outcome {
        BuildOutcome::Failed { console, error } => {
            assert_eq!(console, b"\x1b[1m\x1b[31merror\x1b[0m: <T> & more".to_vec());
            assert_eq!(
                error,
                "<b><span style='color:var(--red,#a00)'>error</span></b>: &lt;T&gt; &amp; more"
            );
        }
        other => panic!("unexpected outcome {:?}", other),
    }
}

#[test]
fn the_console_gets_the_raw_bytes() {
    let raw = b"\xff\xfe broken \x1b[32mok\x1b[0m";
    match rebuild(Ok(output(Some(2), b"", raw))) {
        BuildOutcome::Failed { console, error } => {
            assert_eq!(console, raw.to_vec());
            assert_eq!(
                error,
                "\u{fffd}\u{fffd} broken <span style='color:var(--green,#0a0)'>ok</span>"
            );
        }
        other => panic!("unexpected outcome {:?}", other),
    }
}

#[test]
fn the_log_is_decoded_leniently() {
    let outcome = rebuild(Ok(output(Some(0), b"caf\xc3\xa9 \xff", b"")));
    assert_eq!(outcome, BuildOutcome::Succeeded { log: "caf\u{e9} \u{fffd}".to_string() });
}

#[test]
fn a_tool_that_did_not_run_emits_nothing() {
    let outcome = rebuild(Err("No such file or directory".to_string()));
    assert_eq!(outcome, BuildOutcome::NotRun { report: "No such file or directory".to_string() });
    assert_eq!(outcome.event(), None);
}

#[test]
fn classify_goes_by_the_status_alone() {
    assert_eq!(
        classify(Some(0), "log".to_string(), b"err".to_vec(), "err", Some("html".to_string())),
        BuildOutcome::Succeeded { log: "log".to_string() }
    );
    assert_eq!(
        classify(Some(3), "log".to_string(), b"err".to_vec(), "err", Some("html".to_string())),
        BuildOutcome::Failed { console: b"err".to_vec(), error: "html".to_string() }
    );
    let unrendered = classify(None, "log".to_string(), b"<err>".to_vec(), "<err>", None);
    assert_eq!(
        unrendered,
        BuildOutcome::Failed { console: b"<err>".to_vec(), error: "&lt;err&gt;".to_string() }
    );
    assert_eq!(
        unrendered.event(),
        Some(Event::CompileError { error: "&lt;err&gt;".to_string() })
    );
}
