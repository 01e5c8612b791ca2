use trillium_cli::event::Event;

#[test]
fn unit_events_carry_only_their_type() {
    assert_eq!(Event::BinaryChanged.to_json(), "{\"type\":\"BinaryChanged\"}");
    assert_eq!(Event::Rebuild.to_json(), "{\"type\":\"Rebuild\"}");
    assert_eq!(Event::Restarted.to_json(), "{\"type\":\"Restarted\"}");
    assert_eq!(Event::BuildSuccess.to_json(), "{\"type\":\"BuildSuccess\"}");
}

#[test]
fn kind_names_the_case() {
    assert_eq!(Event::BinaryChanged.kind(), "BinaryChanged");
    assert_eq!(Event::Rebuild.kind(), "Rebuild");
    assert_eq!(Event::Restarted.kind(), "Restarted");
    assert_eq!(Event::BuildSuccess.kind(), "BuildSuccess");
    assert_eq!(Event::CompileError { error: String::new() }.kind(), "CompileError");
}

#[test]
fn compile_error_carries_its_text() {
    let event = Event::CompileError { error: "error[E0000]".to_string() };
    assert_eq!(event.to_json(), "{\"type\":\"CompileError\",\"error\":\"error[E0000]\"}");
}

#[test]
fn compile_error_text_is_escaped() {
    let event = Event::CompileError { error: "say \"hi\"\n\\ done".to_string() };
    assert_eq!(
        event.to_json(),
        "{\"type\":\"CompileError\",\"error\":\"say \\\"hi\\\"\\n\\\\ done\"}"
    );
}

#[test]
fn messages_parse_back_as_json() {
    let text = "<span style='color:var(--red,#a00)'>error</span>: \"x\" \u{1F600}\t!";
    let event = Event::CompileError { error: text.to_string() };
    let value: serde_json::Value = serde_json::from_str(&event.to_json()).unwrap();
    assert_eq!(value.get("type").and_then(|v| v.as_str()), Some("CompileError"));
    assert_eq!(value.get("error").and_then(|v| v.as_str()), Some(text));
    assert_eq!(value.as_object().map(|o| o.len()), Some(2));

    let value: serde_json::Value = serde_json::from_str(&Event::Restarted.to_json()).unwrap();
    assert_eq!(value.get("type").and_then(|v| v.as_str()), Some("Restarted"));
    assert_eq!(value.as_object().map(|o| o.len()), Some(1));
}

#[test]
fn a_clone_is_equal() {
    let event = Event::CompileError { error: "boom".to_string() };
    assert_eq!(event.clone(), event);
    assert_eq!(Event::Rebuild.clone(), Event::Rebuild);
    assert_ne!(Event::Rebuild, Event::BinaryChanged);
}

#[test]
fn frames_by_example() {
    assert_eq!(trillium_cli::event::frame("Rebuild", None), "{\"type\":\"Rebuild\"}");
    assert_eq!(
        trillium_cli::event::frame("CompileError", Some("\"x\"")),
        "{\"type\":\"CompileError\",\"error\":\"x\"}"
    );
    assert_eq!(trillium_cli::event::frame("", Some("")), "{\"type\":\"\",\"error\":}");
}
