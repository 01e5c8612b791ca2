use trillium_cli::client::{
    is_json_media, method_outcome, written_line, ClientCli, LogLevel, OutputPlan,
};
use trillium_cli::client_tls::ClientTls;
use trillium_cli::foreign::MediaType;
use trillium_cli::gateway::is_html_media;

fn media(kind: &str, subtype: &str, suffix: Option<&str>) -> MediaType {
    MediaType {
        kind: kind.to_string(),
        subtype: subtype.to_string(),
        suffix: suffix.map(|s| s.to_string()),
    }
}

#[test]
fn html_media_go_by_the_subtype() {
    assert!(is_html_media(&media("text", "html", None)));
    assert!(is_html_media(&media("application", "html", Some("xml"))));
    assert!(!is_html_media(&media("application", "xhtml", Some("xml"))));
    assert!(!is_html_media(&media("html", "plain", None)));
    assert!(!is_html_media(&media("text", "HTML", None)));
}

#[test]
fn json_media_go_by_suffix_then_subtype() {
    assert!(is_json_media(&media("application", "json", None)));
    assert!(is_json_media(&media("application", "vnd.api", Some("json"))));
    assert!(!is_json_media(&media("application", "json", Some("xml"))));
    assert!(!is_json_media(&media("json", "plain", None)));
    assert!(!is_json_media(&media("application", "", None)));
}

#[test]
fn a_found_method_is_the_outcome() {
    assert_eq!(method_outcome("get", Some("GET".to_string())), Ok("GET".to_string()));
    assert_eq!(method_outcome("get", None), Err("unrecognized method get".to_string()));
}

#[test]
fn the_written_line() {
    assert_eq!(written_line("1.50 MB", "a.bin"), "Wrote 1.50 MB to a.bin");
    assert_eq!(written_line("", ""), "Wrote  to ");
}

#[test]
fn the_output_plan_without_a_content_type() {
    let mut cli = ClientCli {
        method: "GET".to_string(),
        url: "http://localhost/".to_string(),
        file: None,
        output_file: None,
        body: None,
        headers: Vec::new(),
        tls: ClientTls::NoTls,
        verbose: Some(LogLevel::Trace),
    };
    assert_eq!(cli.output_plan(None, true, true), OutputPlan::Json { colored: true });
    assert_eq!(cli.output_plan(None, true, false), OutputPlan::Json { colored: false });
    assert_eq!(cli.output_plan(Some("x"), false, true), OutputPlan::Raw);
    cli.output_file = Some(None);
    assert_eq!(
        cli.output_plan(Some("x"), true, true),
        OutputPlan::ToFile { filename: "x".to_string(), announce: true }
    );
    assert_eq!(cli.output_plan(None, false, false), OutputPlan::MissingFilename);
}
