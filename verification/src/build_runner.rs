//! The build runner: how the build tool is invoked and what its exit means.
//! Running the tool is the program's part; this module prepares the
//! arguments and classifies what came back.

use crate::event::{Event, EventView};
use crate::foreign::{ansi_html, ansi_to_html, lossy_text, utf8_lossy};
use crate::text::{chars_of, text_of};
use vstd::prelude::*;

verus! {

/// What one run of the build tool left behind.
#[derive(Debug, PartialEq, Eq)]
pub struct BuildOutput {
    /// The exit code; `None` where the tool was ended by a signal.
    pub status: Option<i32>,
    /// Everything the tool wrote to standard output.
    pub stdout: Vec<u8>,
    /// Everything the tool wrote to standard error.
    pub stderr: Vec<u8>,
}

/// What a build attempt amounts to.
#[derive(Debug, PartialEq, Eq)]
pub enum BuildOutcome {
    /// The tool exited with zero. `log` is its standard output, for the log
    /// at low verbosity.
    Succeeded { log: String },
    /// The tool ran and did not exit with zero. `console` is its raw standard
    /// error, for the operator's console; `error` is the same output as
    /// markup, for display in a page.
    Failed { console: Vec<u8>, error: String },
    /// The tool could not be run at all. `report` goes to the console.
    NotRun { report: String },
}

/// A [`BuildOutcome`] as a mathematical value.
pub ghost enum BuildOutcomeView {
    Succeeded { log: Seq<char> },
    Failed { console: Seq<u8>, error: Seq<char> },
    NotRun { report: Seq<char> },
}

impl View for BuildOutcome {
    type V = BuildOutcomeView;

    open spec fn view(&self) -> BuildOutcomeView {
        match self {
            BuildOutcome::Succeeded { log } => BuildOutcomeView::Succeeded { log: log@ },
            BuildOutcome::Failed { console, error } => BuildOutcomeView::Failed {
                console: console@,
                error: error@,
            },
            BuildOutcome::NotRun { report } => BuildOutcomeView::NotRun { report: report@ },
        }
    }
}

/// The arguments of the build tool: a coloured build, in release mode where
/// `release` is set, of the example `example` where one is named.
pub open spec fn build_arguments_spec(release: bool, example: Option<Seq<char>>) -> Seq<Seq<char>> {
    seq!["build"@, "--color=always"@] + (if release {
        seq!["--release"@]
    } else {
        seq![]
    }) + (match example {
        Some(name) => seq!["--example"@, name],
        None => seq![],
    })
}

/// A character as markup: the five characters that markup gives a meaning
/// become entities, every other character stands for itself.
pub open spec fn escape_char(c: char) -> Seq<char> {
    if c == '&' {
        "&amp;"@
    } else if c == '<' {
        "&lt;"@
    } else if c == '>' {
        "&gt;"@
    } else if c == '"' {
        "&quot;"@
    } else if c == '\'' {
        "&#39;"@
    } else {
        seq![c]
    }
}

/// A text as markup that shows it as it is: each character escaped, in
/// order.
pub open spec fn escaped(text: Seq<char>) -> Seq<char>
    decreases text.len(),
{
    if text.len() == 0 {
        seq![]
    } else {
        escaped(text.drop_last()) + escape_char(text.last())
    }
}

/// The markup that shows the error output `text`: its rendering with
/// colours where it has one, and else the text itself, escaped.
pub open spec fn markup_spec(text: Seq<char>, rendered: Option<Seq<char>>) -> Seq<char> {
    match rendered {
        Some(markup) => markup,
        None => escaped(text),
    }
}

/// The outcome of a build that ran: success is an exit code of zero, and
/// nothing else. `errors` is the text of the error output and `rendered`
/// its rendering with colours, where it has one.
pub open spec fn classify_spec(
    status: Option<i32>,
    log: Seq<char>,
    console: Seq<u8>,
    errors: Seq<char>,
    rendered: Option<Seq<char>>,
) -> BuildOutcomeView {
    if status == Some(0i32) {
        BuildOutcomeView::Succeeded { log }
    } else {
        BuildOutcomeView::Failed { console, error: markup_spec(errors, rendered) }
    }
}

/// The lifecycle event that an outcome emits: `BuildSuccess` for a build that
/// succeeded, `CompileError` with the error output as markup for one that
/// failed, none for a tool that did not run.
pub open spec fn event_of(outcome: BuildOutcomeView) -> Option<EventView> {
    match outcome {
        BuildOutcomeView::Succeeded { .. } => Some(EventView::BuildSuccess),
        BuildOutcomeView::Failed { error, .. } => Some(EventView::CompileError { error }),
        BuildOutcomeView::NotRun { .. } => None,
    }
}

/// The outcome of a build that ran, from what it left behind.
pub open spec fn rebuild_spec(
    status: Option<i32>,
    stdout: Seq<u8>,
    stderr: Seq<u8>,
) -> BuildOutcomeView {
    classify_spec(
        status,
        utf8_lossy(stdout),
        stderr,
        utf8_lossy(stderr),
        ansi_html(utf8_lossy(stderr)),
    )
}

/// The arguments to invoke the build tool with.
pub fn build_arguments(release: bool, example: Option<&str>) -> (r: Vec<String>)
    ensures
        r.deep_view() == build_arguments_spec(
            release,
            match example {
                Some(name) => Some(name@),
                None => None,
            },
        ),
{
    let mut arguments: Vec<String> = Vec::new();
    arguments.push("build".to_owned());
    arguments.push("--color=always".to_owned());
    if release {
        arguments.push("--release".to_owned());
    }
    match example {
        Some(name) => {
            arguments.push("--example".to_owned());
            arguments.push(name.to_owned());
        },
        None => {},
    }
    assert(arguments.deep_view() =~= build_arguments_spec(
        release,
        match example {
            Some(name) => Some(name@),
            None => None,
        },
    ));
    arguments
}

/// A text as markup that shows it as it is.
pub fn escape(text: &str) -> (r: String)
    ensures
        r@ == escaped(text@),
{
    let chars = chars_of(text);
    let mut out = String::new();
    let mut i: usize = 0;
    while i < chars.len()
        invariant
            i <= chars.len(),
            chars@ == text@,
            out@ == escaped(text@.take(i as int)),
        decreases chars.len() - i,
    {
        proof {
            assert(text@.take(i + 1).drop_last() =~= text@.take(i as int));
            assert(text@.take(i + 1).last() == chars@[i as int]);
            assert(text@.subrange(i as int, i + 1) =~= seq![chars@[i as int]]);
        }
        let c = chars[i];
        if c == '&' {
            out.append("&amp;");
        } else if c == '<' {
            out.append("&lt;");
        } else if c == '>' {
            out.append("&gt;");
        } else if c == '"' {
            out.append("&quot;");
        } else if c == '\'' {
            out.append("&#39;");
        } else {
            out.append(text.substring_char(i, i + 1));
        }
        i += 1;
    }
    assert(text@.take(chars.len() as int) =~= text@);
    out
}

/// The markup that shows the error output `text`; `rendered` is its
/// rendering with colours, where it has one.
pub fn markup(text: &str, rendered: Option<String>) -> (r: String)
    ensures
        r@ == markup_spec(text@, text_of(rendered)),
{
    match rendered {
        Some(markup) => markup,
        None => escape(text),
    }
}

/// Classifies a build that ran. `log` is the text of its standard output,
/// `console` its raw standard error, `errors` the text of that error output
/// and `rendered` its rendering with colours, where it has one.
pub fn classify(
    status: Option<i32>,
    log: String,
    console: Vec<u8>,
    errors: &str,
    rendered: Option<String>,
) -> (r: BuildOutcome)
    ensures
        r@ == classify_spec(status, log@, console@, errors@, text_of(rendered)),
{
    let zero = match status {
        Some(code) => code == 0,
        None => false,
    };
    if zero {
        BuildOutcome::Succeeded { log }
    } else {
        BuildOutcome::Failed { console, error: markup(errors, rendered) }
    }
}

/// Classifies a build attempt. `result` is the tool's output, or the reason
/// why it could not be run.
///
/// The text of standard output is its lossy UTF-8 decoding. The markup of
/// the errors is the rendering of the decoded standard error with colours;
/// where the renderer cannot read the output, it is that text, escaped.
pub fn rebuild(result: Result<BuildOutput, String>) -> (r: BuildOutcome)
    ensures
        r@ == (match result {
            Ok(output) => rebuild_spec(output.status, output.stdout@, output.stderr@),
            Err(reason) => BuildOutcomeView::NotRun { report: reason@ },
        }),
{
    match result {
        Ok(output) => {
            let log = lossy_text(output.stdout.as_slice());
            let errors = lossy_text(output.stderr.as_slice());
            let rendered = ansi_to_html(errors.as_str());
            classify(output.status, log, output.stderr, errors.as_str(), rendered)
        },
        Err(reason) => BuildOutcome::NotRun { report: reason },
    }
}

impl BuildOutcome {
    /// The lifecycle event to publish for this outcome, if any.
    pub fn event(&self) -> (r: Option<Event>)
        ensures
            match r {
                Some(event) => event_of(self@) == Some(event@),
                None => event_of(self@) is None,
            },
    {
        match self {
            BuildOutcome::Succeeded { .. } => Some(Event::BuildSuccess),
            BuildOutcome::Failed { error, .. } => Some(
                Event::CompileError { error: error.clone() },
            ),
            BuildOutcome::NotRun { .. } => None,
        }
    }
}

/// The exit code decides the event: a build that exits with zero emits
/// `BuildSuccess` and never `CompileError`; a build that ran and did not
/// exit with zero emits `CompileError` and never `BuildSuccess`, whether or
/// not its output could be rendered.
pub proof fn exit_code_decides_event(status: Option<i32>, stdout: Seq<u8>, stderr: Seq<u8>)
    ensures
        status == Some(0i32) ==> event_of(rebuild_spec(status, stdout, stderr)) == Some(
            EventView::BuildSuccess,
        ),
        status != Some(0i32) ==> event_of(rebuild_spec(status, stdout, stderr)) == Some(
            EventView::CompileError {
                error: markup_spec(utf8_lossy(stderr), ansi_html(utf8_lossy(stderr))),
            },
        ),
{
}

} // verus!
