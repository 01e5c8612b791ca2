//! The development server's configuration and what follows from it before
//! anything is started: where the binary lies, what is watched, how the
//! build tool is called, and which signals mean what.

use crate::build_runner::{build_arguments, build_arguments_spec};
use crate::event::{Event, EventView};
use crate::foreign::{json_string_at, json_text_at};
use crate::root_path::{join, join_spec};
use crate::text::{chars_of, find_char, text_of};
use vstd::prelude::*;

verus! {

/// The signal that announces a binary rebuilt by other means: the hangup
/// signal, which has this number on every Unix.
pub const SIGHUP: i32 = 1;

/// The signal that asks the child to shut down unless another is configured:
/// the termination signal.
pub const SIGTERM: i32 = 15;

/// The directory that is watched when none is configured, below the working
/// directory.
pub open spec fn default_watch() -> Seq<char> {
    "src"@
}

/// The configuration of the development server.
#[derive(Debug, PartialEq, Eq)]
pub struct DevServer {
    /// The paths to watch for source changes; `None` for the default.
    pub watch: Option<Vec<String>>,
    /// The path of the application binary, where it is given.
    pub bin: Option<String>,
    /// The working directory of the application and of the build.
    pub cwd: Option<String>,
    /// Build and run in release mode.
    pub release: bool,
    /// Build and run this example instead of the package's binary.
    pub example: Option<String>,
    /// The number of the signal that asks the child to shut down.
    pub signal: i32,
}

/// What the development server starts from.
#[derive(Debug, PartialEq, Eq)]
pub struct DevPlan {
    /// The working directory of the application and of the build.
    pub cwd: String,
    /// The arguments of the build tool.
    pub build: Vec<String>,
    /// The source paths to watch, each yet to be made canonical.
    pub watch: Vec<String>,
    /// The number of the signal that asks the child to shut down.
    pub signal: i32,
}

/// A [`DevServer`] as a mathematical value.
pub ghost struct DevServerView {
    pub watch: Option<Seq<Seq<char>>>,
    pub bin: Option<Seq<char>>,
    pub cwd: Option<Seq<char>>,
    pub release: bool,
    pub example: Option<Seq<char>>,
    pub signal: i32,
}

/// A [`DevPlan`] as a mathematical value.
pub ghost struct DevPlanView {
    pub cwd: Seq<char>,
    pub build: Seq<Seq<char>>,
    pub watch: Seq<Seq<char>>,
    pub signal: i32,
}

impl View for DevServer {
    type V = DevServerView;

    open spec fn view(&self) -> DevServerView {
        DevServerView {
            watch: match self.watch {
                Some(paths) => Some(paths.deep_view()),
                None => None,
            },
            bin: text_of(self.bin),
            cwd: text_of(self.cwd),
            release: self.release,
            example: text_of(self.example),
            signal: self.signal,
        }
    }
}

impl View for DevPlan {
    type V = DevPlanView;

    open spec fn view(&self) -> DevPlanView {
        DevPlanView {
            cwd: self.cwd@,
            build: self.build.deep_view(),
            watch: self.watch.deep_view(),
            signal: self.signal,
        }
    }
}

/// The text before the first space of `text`; all of it where it holds no
/// space.
pub open spec fn first_word_of(text: Seq<char>) -> Seq<char>
    decreases text.len(),
{
    if text.len() == 0 || text[0] == ' ' {
        seq![]
    } else {
        seq![text[0]] + first_word_of(text.drop_first())
    }
}

/// The path of the binary that the build tool produces: below the target
/// directory, under `release` or `debug`, the example of that name under
/// `examples`, or else the binary named `package`.
pub open spec fn binary_path_spec(
    target_directory: Seq<char>,
    package: Seq<char>,
    release: bool,
    example: Option<Seq<char>>,
) -> Seq<char> {
    let mode = join_spec(
        target_directory,
        if release {
            "release"@
        } else {
            "debug"@
        },
    );
    match example {
        Some(name) => join_spec(join_spec(mode, "examples"@), name),
        None => join_spec(mode, package),
    }
}

/// The source paths to watch: the configured ones, or the default, each
/// taken from the working directory unless it is absolute; then, for an
/// example, the directory of the examples.
pub open spec fn watch_paths_spec(
    watch: Option<Seq<Seq<char>>>,
    cwd: Seq<char>,
    example: bool,
) -> Seq<Seq<char>> {
    let configured = match watch {
        Some(paths) => paths,
        None => seq![default_watch()],
    };
    Seq::new(configured.len(), |i: int| join_spec(cwd, configured[i])) + (if example {
        seq![join_spec(cwd, "examples"@)]
    } else {
        seq![]
    })
}

/// What the configuration `server` starts from, in the directory
/// `current_dir`: the working directory is the configured one, or else
/// `current_dir`.
pub open spec fn plan_spec(server: DevServerView, current_dir: Seq<char>) -> DevPlanView {
    let cwd = match server.cwd {
        Some(cwd) => cwd,
        None => current_dir,
    };
    DevPlanView {
        cwd,
        build: build_arguments_spec(server.release, server.example),
        watch: watch_paths_spec(server.watch, cwd, server.example is Some),
        signal: server.signal,
    }
}

/// The event that an operating system signal stands for: the hangup signal
/// says that the binary was rebuilt; any other signal says nothing.
pub fn signal_event(signal: i32) -> (r: Option<Event>)
    ensures
        signal == SIGHUP ==> r is Some && r->0@ == EventView::BinaryChanged,
        signal != SIGHUP ==> r is None,
{
    if signal == SIGHUP {
        Some(Event::BinaryChanged)
    } else {
        None
    }
}

/// The first word ends where the first space stands, or where the text
/// ends.
proof fn first_word_ends(text: Seq<char>, end: int)
    requires
        0 <= end <= text.len(),
        forall|j: int| 0 <= j < end ==> text[j] != ' ',
        end == text.len() || text[end] == ' ',
    ensures
        first_word_of(text) == text.take(end),
    decreases end,
{
    if end == 0 {
        assert(text.take(0) =~= Seq::<char>::empty());
    } else {
        let rest = text.drop_first();
        assert forall|j: int| 0 <= j < end - 1 implies rest[j] != ' ' by {
            assert(rest[j] == text[j + 1]);
        }
        first_word_ends(rest, end - 1);
        assert(text.take(end) =~= seq![text[0]] + rest.take(end - 1));
    }
}

/// The text before the first space of `text`.
pub fn first_word(text: &str) -> (r: String)
    ensures
        r@ == first_word_of(text@),
{
    let chars = chars_of(text);
    match find_char(&chars, ' ') {
        Some(at) => {
            proof {
                first_word_ends(text@, at as int);
            }
            text.substring_char(0, at).to_owned()
        },
        None => {
            proof {
                first_word_ends(text@, text@.len() as int);
                assert(text@.take(text@.len() as int) =~= text@);
            }
            text.to_owned()
        },
    }
}

/// The path of the binary that the build tool produces, not yet canonical.
/// `package` names the root package of the build; its first word is the
/// name of the binary.
pub fn binary_path(target_directory: &str, package: &str, release: bool, example: Option<&str>) -> (r:
    String)
    ensures
        r@ == binary_path_spec(
            target_directory@,
            first_word_of(package@),
            release,
            match example {
                Some(text) => Some(text@),
                None => None,
            },
        ),
{
    let mode = join(
        target_directory,
        if release {
            "release"
        } else {
            "debug"
        },
    );
    match example {
        Some(name) => {
            let examples = join(mode.as_str(), "examples");
            join(examples.as_str(), name)
        },
        None => {
            let name = first_word(package);
            join(mode.as_str(), name.as_str())
        },
    }
}

impl Default for DevServer {
    /// The configuration of a command line without options: the default
    /// watch path, the binary that the build tool names, the current
    /// directory, a debug build, and the termination signal.
    fn default() -> (r: DevServer)
        ensures
            r@ == (DevServerView {
                watch: None,
                bin: None,
                cwd: None,
                release: false,
                example: None,
                signal: SIGTERM,
            }),
    {
        DevServer {
            watch: None,
            bin: None,
            cwd: None,
            release: false,
            example: None,
            signal: SIGTERM,
        }
    }
}

impl DevServer {
    /// The working directory: the configured one, or else `current_dir`.
    pub fn working_directory(&self, current_dir: &str) -> (r: String)
        ensures
            r@ == plan_spec(self@, current_dir@).cwd,
    {
        match &self.cwd {
            Some(cwd) => cwd.clone(),
            None => current_dir.to_owned(),
        }
    }

    /// Where the application binary lies, not yet canonical: the configured
    /// path, or else the path that the build tool's metadata point to.
    /// `metadata` is what the metadata query printed; it is only read where
    /// no path is configured. `None` says that the metadata do not name a
    /// target directory and a root package.
    pub fn determine_bin(&self, metadata: &[u8]) -> (r: Option<String>)
        ensures
            self@.bin is Some ==> text_of(r) == self@.bin,
            self@.bin is None ==> text_of(r) == (match (
                json_string_at(metadata@, "/target_directory"@),
                json_string_at(metadata@, "/resolve/root"@),
            ) {
                (Some(target_directory), Some(package)) => Some(
                    binary_path_spec(
                        target_directory,
                        first_word_of(package),
                        self@.release,
                        self@.example,
                    ),
                ),
                _ => None,
            }),
    {
        match &self.bin {
            Some(bin) => Some(bin.clone()),
            None => {
                let target_directory = json_text_at(metadata, "/target_directory");
                let package = json_text_at(metadata, "/resolve/root");
                match (target_directory, package) {
                    (Some(target_directory), Some(package)) => {
                        let example: Option<&str> = match &self.example {
                            Some(name) => Some(name.as_str()),
                            None => None,
                        };
                        Some(
                            binary_path(
                                target_directory.as_str(),
                                package.as_str(),
                                self.release,
                                example,
                            ),
                        )
                    },
                    _ => None,
                }
            },
        }
    }

    /// What the development server starts from, in the directory
    /// `current_dir`.
    pub fn run(self, current_dir: String) -> (r: DevPlan)
        ensures
            r@ == plan_spec(self@, current_dir@),
    {
        let cwd = self.working_directory(current_dir.as_str());
        let example: Option<&str> = match &self.example {
            Some(name) => Some(name.as_str()),
            None => None,
        };
        let build = build_arguments(self.release, example);
        let mut watch: Vec<String> = Vec::new();
        let ghost configured = match self@.watch {
            Some(paths) => paths,
            None => seq![default_watch()],
        };
        match &self.watch {
            Some(paths) => {
                let mut i: usize = 0;
                while i < paths.len()
                    invariant
                        i <= paths.len(),
                        configured == paths.deep_view(),
                        watch.len() == i,
                        forall|k: int|
                            0 <= k < i ==> (#[trigger] watch[k])@ == join_spec(cwd@, configured[k]),
                    decreases paths.len() - i,
                {
                    assert(configured[i as int] == paths[i as int]@);
                    watch.push(join(cwd.as_str(), paths[i].as_str()));
                    i += 1;
                }
            },
            None => {
                watch.push(join(cwd.as_str(), "src"));
            },
        }
        if self.example.is_some() {
            watch.push(join(cwd.as_str(), "examples"));
        }
        assert(watch.deep_view() =~= watch_paths_spec(self@.watch, cwd@, self@.example is Some));
        DevPlan { cwd, build, watch, signal: self.signal }
    }
}

} // verus!
