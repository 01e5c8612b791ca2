//! The http client's configuration and its decisions: what is sent, what is
//! reported of the response, and where the response body goes.

use crate::client_tls::ClientTls;
use crate::foreign::{
    format_size, media_type_parsed, method_parsed, parse_media_type, parse_method, size_text,
    to_uppercase, uppercase, MediaType,
};
use crate::text::{absent, chars_of, concat, find_char, first_at, same_text, slice_text_of, text_of};
use vstd::prelude::*;

verus! {

/// How much the client says about what it does, from least to most.
#[derive(Debug, Clone, Copy, PartialEq, Eq, Structural)]
pub enum LogLevel {
    Error,
    Warn,
    Info,
    Debug,
    Trace,
}

/// The configuration of the http client.
#[derive(Debug, PartialEq, Eq)]
pub struct ClientCli {
    /// The request method, in capitals.
    pub method: String,
    /// The URL, in its normal form.
    pub url: String,
    /// The path of a file to send as the request body.
    pub file: Option<String>,
    /// Write the response body to a file: to the named one, or to one named
    /// after the last part of the URL's path.
    pub output_file: Option<Option<String>>,
    /// A request body given on the command line.
    pub body: Option<String>,
    /// The request headers, as pairs of name and value.
    pub headers: Vec<(String, String)>,
    /// The TLS implementation.
    pub tls: ClientTls,
    /// The log level; `None` where the client is to be silent.
    pub verbose: Option<LogLevel>,
}

/// Where the body of the request comes from.
#[derive(Debug, PartialEq, Eq)]
pub enum BodySource {
    /// From the file at this path.
    File(String),
    /// From this text.
    Text(String),
    /// From standard input.
    Stdin,
    /// The request has no body.
    Empty,
}

/// The colour in which a status is printed.
#[derive(Debug, Clone, Copy, PartialEq, Eq, Structural)]
pub enum StatusStyle {
    /// For a client error.
    Yellow,
    /// For a server error.
    BrightRed,
    /// For every other status.
    Green,
}

/// A status and the colour in which it is printed.
#[derive(Debug, Clone, Copy, PartialEq, Eq, Structural)]
pub struct StatusLine {
    pub code: u16,
    pub style: StatusStyle,
}

/// What is printed of a response before its body.
#[derive(Debug, Clone, Copy, PartialEq, Eq, Structural)]
pub struct Report {
    /// The status to print, where it is printed.
    pub status: Option<StatusLine>,
    /// Print the URL, the method, the peer address and all headers.
    pub details: bool,
}

/// What becomes of the response body.
#[derive(Debug, PartialEq, Eq)]
pub enum OutputPlan {
    /// It is written to the file `filename`; `announce` says whether its
    /// size is reported afterwards.
    ToFile { filename: String, announce: bool },
    /// It was to be written to a file, and no name for the file is known.
    MissingFilename,
    /// It is JSON and is printed indented, in colours where `colored`.
    Json { colored: bool },
    /// It is copied to standard output as it is.
    Raw,
}

/// A [`BodySource`] as a mathematical value.
pub ghost enum BodySourceView {
    File(Seq<char>),
    Text(Seq<char>),
    Stdin,
    Empty,
}

/// An [`OutputPlan`] as a mathematical value.
pub ghost enum OutputPlanView {
    ToFile { filename: Seq<char>, announce: bool },
    MissingFilename,
    Json { colored: bool },
    Raw,
}

/// [`ClientCli`] as a mathematical value.
pub ghost struct ClientCliView {
    pub method: Seq<char>,
    pub url: Seq<char>,
    pub file: Option<Seq<char>>,
    pub output_file: Option<Option<Seq<char>>>,
    pub body: Option<Seq<char>>,
    pub headers: Seq<(Seq<char>, Seq<char>)>,
    pub tls: ClientTls,
    pub verbose: Option<LogLevel>,
}

/// What the client sends.
#[derive(Debug, PartialEq, Eq)]
pub struct RequestPlan {
    pub method: String,
    pub url: String,
    pub headers: Vec<(String, String)>,
    pub body: BodySource,
    pub tls: ClientTls,
}

/// A [`RequestPlan`] as a mathematical value.
pub ghost struct RequestPlanView {
    pub method: Seq<char>,
    pub url: Seq<char>,
    pub headers: Seq<(Seq<char>, Seq<char>)>,
    pub body: BodySourceView,
    pub tls: ClientTls,
}

/// The views of a list of headers, in order.
pub open spec fn header_views(headers: Seq<(String, String)>) -> Seq<(Seq<char>, Seq<char>)> {
    headers.map_values(|h: (String, String)| (h.0@, h.1@))
}

impl View for RequestPlan {
    type V = RequestPlanView;

    open spec fn view(&self) -> RequestPlanView {
        RequestPlanView {
            method: self.method@,
            url: self.url@,
            headers: header_views(self.headers@),
            body: self.body@,
            tls: self.tls,
        }
    }
}

/// The request of a configuration: its method, URL and headers as they are,
/// and the body from where the configuration says.
pub open spec fn request_spec(cli: ClientCliView, stdin_is_terminal: bool) -> RequestPlanView {
    RequestPlanView {
        method: cli.method,
        url: cli.url,
        headers: cli.headers,
        body: body_source_spec(cli, stdin_is_terminal),
        tls: cli.tls,
    }
}

impl View for BodySource {
    type V = BodySourceView;

    open spec fn view(&self) -> BodySourceView {
        match self {
            BodySource::File(path) => BodySourceView::File(path@),
            BodySource::Text(text) => BodySourceView::Text(text@),
            BodySource::Stdin => BodySourceView::Stdin,
            BodySource::Empty => BodySourceView::Empty,
        }
    }
}

impl View for OutputPlan {
    type V = OutputPlanView;

    open spec fn view(&self) -> OutputPlanView {
        match self {
            OutputPlan::ToFile { filename, announce } => OutputPlanView::ToFile {
                filename: filename@,
                announce: *announce,
            },
            OutputPlan::MissingFilename => OutputPlanView::MissingFilename,
            OutputPlan::Json { colored } => OutputPlanView::Json { colored: *colored },
            OutputPlan::Raw => OutputPlanView::Raw,
        }
    }
}

impl View for ClientCli {
    type V = ClientCliView;

    open spec fn view(&self) -> ClientCliView {
        ClientCliView {
            method: self.method@,
            url: self.url@,
            file: text_of(self.file),
            output_file: match self.output_file {
                Some(name) => Some(text_of(name)),
                None => None,
            },
            body: text_of(self.body),
            headers: header_views(self.headers@),
            tls: self.tls,
            verbose: self.verbose,
        }
    }
}

/// At the level `Warn` or a more talkative one.
pub open spec fn talkative(verbose: Option<LogLevel>) -> bool {
    verbose matches Some(level) && level != LogLevel::Error
}

/// The status that stands for a response without one: not found.
pub const NOT_FOUND: u16 = 404;

/// The status of a response that went well.
pub const OK: u16 = 200;

/// The colour of a status: yellow from 400 up to 499, bright red from 500
/// up to 599, green otherwise.
pub open spec fn status_style_spec(status: u16) -> StatusStyle {
    if 400 <= status < 500 {
        StatusStyle::Yellow
    } else if 500 <= status < 600 {
        StatusStyle::BrightRed
    } else {
        StatusStyle::Green
    }
}

/// What is printed of a response before its body. Nothing unless standard
/// output is a terminal. There, the status is printed where it is not 200
/// or the client is talkative, and the details where the client is
/// talkative. A response without a status counts as 404.
pub open spec fn report_spec(
    verbose: Option<LogLevel>,
    status: Option<u16>,
    stdout_is_terminal: bool,
) -> Report {
    let code = match status {
        Some(code) => code,
        None => NOT_FOUND,
    };
    Report {
        status: if stdout_is_terminal && (code != OK || talkative(verbose)) {
            Some(StatusLine { code, style: status_style_spec(code) })
        } else {
            None
        },
        details: stdout_is_terminal && talkative(verbose),
    }
}

/// Where the request body comes from: the file, where one is named; else
/// the text, where one is given; else standard input, unless that is a
/// terminal.
pub open spec fn body_source_spec(cli: ClientCliView, stdin_is_terminal: bool) -> BodySourceView {
    match cli.file {
        Some(path) => BodySourceView::File(path),
        None => match cli.body {
            Some(text) => BodySourceView::Text(text),
            None => if stdin_is_terminal {
                BodySourceView::Empty
            } else {
                BodySourceView::Stdin
            },
        },
    }
}

/// Whether a media type is JSON: its suffix, or else its subtype, is
/// `json`.
pub open spec fn media_is_json(subtype: Seq<char>, suffix: Option<Seq<char>>) -> bool {
    match suffix {
        Some(suffix) => suffix == "json"@,
        None => subtype == "json"@,
    }
}

/// Whether a content type names JSON: it parses as a media type that is
/// JSON.
pub open spec fn names_json(content_type: Option<Seq<char>>) -> bool {
    match content_type {
        Some(text) => match media_type_parsed(text) {
            Some((_, subtype, suffix)) => media_is_json(subtype, suffix),
            None => false,
        },
        None => false,
    }
}

/// What becomes of the response body, where `json` says whether it is JSON.
/// With an output file asked for, the body goes to the named file, or else
/// to one named like the last part of the URL's path; without a name, or
/// with an empty one, there is nowhere to write. Otherwise JSON is printed
/// indented and everything else copied.
pub open spec fn output_plan_spec(
    cli: ClientCliView,
    last_segment: Option<Seq<char>>,
    json: bool,
    stdout_is_terminal: bool,
) -> OutputPlanView {
    match cli.output_file {
        Some(given) => {
            let name = match given {
                Some(name) => Some(name),
                None => last_segment,
            };
            match name {
                Some(filename) => if filename.len() == 0 {
                    OutputPlanView::MissingFilename
                } else {
                    OutputPlanView::ToFile { filename, announce: talkative(cli.verbose) }
                },
                None => OutputPlanView::MissingFilename,
            }
        },
        None => if json {
            OutputPlanView::Json { colored: stdout_is_terminal }
        } else {
            OutputPlanView::Raw
        },
    }
}

/// What becomes of the body of a response with the content type
/// `content_type`.
pub open spec fn output_spec(
    cli: ClientCliView,
    last_segment: Option<Seq<char>>,
    content_type: Option<Seq<char>>,
    stdout_is_terminal: bool,
) -> OutputPlanView {
    output_plan_spec(cli, last_segment, names_json(content_type), stdout_is_terminal)
}

/// What reading a method comes to: the method's name where one was found,
/// and else a message that names what was read.
pub open spec fn method_outcome_spec(source: Seq<char>, found: Option<Seq<char>>) -> Result<
    Seq<char>,
    Seq<char>,
> {
    match found {
        Some(name) => Ok(name),
        None => Err(method_error(source)),
    }
}

/// The view of the outcome of reading a text.
pub open spec fn outcome_view(outcome: Result<String, String>) -> Result<Seq<char>, Seq<char>> {
    match outcome {
        Ok(text) => Ok(text@),
        Err(message) => Err(message@),
    }
}

/// The line that reports a written file, given its size in words.
pub open spec fn written_line_spec(size: Seq<char>, filename: Seq<char>) -> Seq<char> {
    "Wrote "@ + size + " to "@ + filename
}

/// The message for a header argument without an equals sign.
pub open spec fn header_error(source: Seq<char>) -> Seq<char> {
    "invalid KEY=value: no `=` found in `"@ + source + "`"@
}

/// The message for a method that is not known.
pub open spec fn method_error(source: Seq<char>) -> Seq<char> {
    "unrecognized method "@ + source
}

/// The line that reports a written file.
pub open spec fn written_spec(bytes: u64, filename: Seq<char>) -> Seq<char> {
    written_line_spec(size_text(bytes), filename)
}

/// Reads a header given as `KEY=value`: the name is what stands before the
/// first equals sign, the value what stands behind it.
pub fn parse_header(source: &str) -> (r: Result<(String, String), String>)
    ensures
        match r {
            Ok((name, value)) => {
                &&& first_at(source@, '=', name@.len() as int)
                &&& name@ == source@.take(name@.len() as int)
                &&& value@ == source@.skip(name@.len() as int + 1)
            },
            Err(message) => absent(source@, '=') && message@ == header_error(source@),
        },
{
    let chars = chars_of(source);
    match find_char(&chars, '=') {
        Some(at) => {
            let end = chars.len();
            let name = source.substring_char(0, at).to_owned();
            let value = source.substring_char(at + 1, end).to_owned();
            Ok((name, value))
        },
        None => {
            let mut message = "invalid KEY=value: no `=` found in `".to_owned();
            message.append(source);
            message.append("`");
            Err(message)
        },
    }
}

/// What reading the method `source` comes to, where `found` is the method
/// that its capitals name, if they name one.
pub fn method_outcome(source: &str, found: Option<String>) -> (r: Result<String, String>)
    ensures
        outcome_view(r) == method_outcome_spec(source@, text_of(found)),
{
    match found {
        Some(name) => Ok(name),
        None => Err(concat("unrecognized method ", source)),
    }
}

/// Reads a request method, in capitals or not. Returns the method's name
/// in capitals, or a message that names what was not recognised.
pub fn parse_method_case_insensitive(source: &str) -> (r: Result<String, String>)
    ensures
        outcome_view(r) == method_outcome_spec(source@, method_parsed(uppercase(source@))),
{
    let capitals = to_uppercase(source);
    let found = parse_method(capitals.as_str());
    method_outcome(source, found)
}

/// The line that reports that a file was written, given its size in words.
pub fn written_line(size: &str, filename: &str) -> (r: String)
    ensures
        r@ == written_line_spec(size@, filename@),
{
    let mut out = "Wrote ".to_owned();
    out.append(size);
    out.append(" to ");
    out.append(filename);
    out
}

/// The line that reports that `bytes` bytes were written to `filename`.
pub fn written_message(bytes: u64, filename: &str) -> (r: String)
    ensures
        r@ == written_spec(bytes, filename@),
{
    let size = format_size(bytes);
    written_line(size.as_str(), filename)
}

/// The colour of a status.
pub fn status_style(status: u16) -> (r: StatusStyle)
    ensures
        r == status_style_spec(status),
{
    if 400 <= status && status < 500 {
        StatusStyle::Yellow
    } else if 500 <= status && status < 600 {
        StatusStyle::BrightRed
    } else {
        StatusStyle::Green
    }
}

/// Whether a log level is `Warn` or a more talkative one.
pub fn is_talkative(verbose: Option<LogLevel>) -> (r: bool)
    ensures
        r == talkative(verbose),
{
    match verbose {
        Some(LogLevel::Error) => false,
        Some(_) => true,
        None => false,
    }
}

/// Whether a media type is JSON.
pub fn is_json_media(media: &MediaType) -> (r: bool)
    ensures
        r == media_is_json(media.subtype@, text_of(media.suffix)),
{
    match &media.suffix {
        Some(suffix) => same_text(suffix.as_str(), "json"),
        None => same_text(media.subtype.as_str(), "json"),
    }
}

/// Whether a content type names JSON.
pub fn is_json(content_type: Option<&str>) -> (r: bool)
    ensures
        r == names_json(slice_text_of(content_type)),
{
    match content_type {
        Some(text) => match parse_media_type(text) {
            Some(media) => is_json_media(&media),
            None => false,
        },
        None => false,
    }
}

impl ClientCli {
    /// Where the body of the request comes from. `stdin_is_terminal` says
    /// whether standard input is a terminal.
    pub fn build(&self, stdin_is_terminal: bool) -> (r: BodySource)
        ensures
            r@ == body_source_spec(self@, stdin_is_terminal),
    {
        match &self.file {
            Some(path) => BodySource::File(path.clone()),
            None => match &self.body {
                Some(text) => BodySource::Text(text.clone()),
                None => if stdin_is_terminal {
                    BodySource::Empty
                } else {
                    BodySource::Stdin
                },
            },
        }
    }

    /// What is printed of a response before its body. `status` is the
    /// status of the response, if it has one.
    pub fn report(&self, status: Option<u16>, stdout_is_terminal: bool) -> (r: Report)
        ensures
            r == report_spec(self@.verbose, status, stdout_is_terminal),
    {
        let code = match status {
            Some(code) => code,
            None => NOT_FOUND,
        };
        let talkative = is_talkative(self.verbose);
        Report {
            status: if stdout_is_terminal && (code != OK || talkative) {
                Some(StatusLine { code, style: status_style(code) })
            } else {
                None
            },
            details: stdout_is_terminal && talkative,
        }
    }

    /// What becomes of the response body, where `json` says whether it is
    /// JSON. `last_segment` is the last part of the path of the response's
    /// URL.
    pub fn output_plan(&self, last_segment: Option<&str>, json: bool, stdout_is_terminal: bool) -> (r:
        OutputPlan)
        ensures
            r@ == output_plan_spec(self@, slice_text_of(last_segment), json, stdout_is_terminal),
    {
        match &self.output_file {
            Some(given) => {
                let name: Option<&str> = match given {
                    Some(name) => Some(name.as_str()),
                    None => last_segment,
                };
                match name {
                    Some(filename) => {
                        if filename.unicode_len() == 0 {
                            OutputPlan::MissingFilename
                        } else {
                            OutputPlan::ToFile {
                                filename: filename.to_owned(),
                                announce: is_talkative(self.verbose),
                            }
                        }
                    },
                    None => OutputPlan::MissingFilename,
                }
            },
            None => if json {
                OutputPlan::Json { colored: stdout_is_terminal }
            } else {
                OutputPlan::Raw
            },
        }
    }

    /// What becomes of the response body. `last_segment` is the last part
    /// of the path of the response's URL, `content_type` the value of the
    /// response's content type header.
    pub fn output_body(
        &self,
        last_segment: Option<&str>,
        content_type: Option<&str>,
        stdout_is_terminal: bool,
    ) -> (r: OutputPlan)
        ensures
            r@ == output_spec(
                self@,
                slice_text_of(last_segment),
                slice_text_of(content_type),
                stdout_is_terminal,
            ),
    {
        let json = is_json(content_type);
        self.output_plan(last_segment, json, stdout_is_terminal)
    }

    /// What the client sends. `stdin_is_terminal` says whether standard
    /// input is a terminal.
    pub fn run(self, stdin_is_terminal: bool) -> (r: RequestPlan)
        ensures
            r@ == request_spec(self@, stdin_is_terminal),
    {
        let body = self.build(stdin_is_terminal);
        RequestPlan { method: self.method, url: self.url, headers: self.headers, body, tls: self.tls }
    }
}

} // verus!
