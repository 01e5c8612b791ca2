//! The rules of a small command line for trillium applications: a
//! development-time process supervisor with its event bus and notification
//! gateway, and the planning half of a static file server, a reverse proxy
//! and an http client.
//!
//! Everything here computes on plain values. Spawning processes, watching the
//! file system, opening sockets and printing are left to the program that
//! links this library; it feeds what it observed into these functions and
//! carries out what they return.

pub mod text;

pub mod event;
pub mod foreign;
pub mod supervisor;
pub mod build_runner;
pub mod bus;
pub mod gateway;
pub mod html;
pub mod root_path;
pub mod watch;
pub mod dev_server;
pub mod client_tls;
pub mod coalesce;
pub mod server_tls;
pub mod serve;
pub mod proxy;
pub mod client;

use crate::client::{ClientCli, ClientCliView, RequestPlan, RequestPlanView};
use crate::dev_server::{DevPlan, DevPlanView, DevServer, DevServerView};
use crate::proxy::{ProxyCli, ProxyCliView, ProxyPlan, ProxyPlanView};
use crate::serve::{ServePlan, ServePlanView, StaticCli, StaticCliView};
use vstd::prelude::*;

verus! {

/// The command line: one of four tools.
#[derive(Debug, PartialEq, Eq)]
pub enum Cli {
    /// Static file server and reverse proxy.
    Serve(StaticCli),
    /// Development server for trillium applications.
    DevServer(DevServer),
    /// Make http requests.
    Client(ClientCli),
    /// Run a http proxy.
    Proxy(ProxyCli),
}

/// What a tool needs to know of the process it runs in.
#[derive(Debug, PartialEq, Eq)]
pub struct Environment {
    /// The current directory, canonical.
    pub current_dir: String,
    /// Whether standard input is a terminal.
    pub stdin_is_terminal: bool,
}

/// What is to be started.
#[derive(Debug, PartialEq, Eq)]
pub enum Launch {
    Serve(ServePlan),
    DevServer(DevPlan),
    Client(RequestPlan),
    Proxy(ProxyPlan),
}

/// A [`Cli`] as a mathematical value.
pub ghost enum CliView {
    Serve(StaticCliView),
    DevServer(DevServerView),
    Client(ClientCliView),
    Proxy(ProxyCliView),
}

/// A [`Launch`] as a mathematical value.
pub ghost enum LaunchView {
    Serve(ServePlanView),
    DevServer(DevPlanView),
    Client(RequestPlanView),
    Proxy(ProxyPlanView),
}

impl View for Cli {
    type V = CliView;

    open spec fn view(&self) -> CliView {
        match self {
            Cli::Serve(cli) => CliView::Serve(cli@),
            Cli::DevServer(cli) => CliView::DevServer(cli@),
            Cli::Client(cli) => CliView::Client(cli@),
            Cli::Proxy(cli) => CliView::Proxy(cli@),
        }
    }
}

impl View for Launch {
    type V = LaunchView;

    open spec fn view(&self) -> LaunchView {
        match self {
            Launch::Serve(plan) => LaunchView::Serve(plan@),
            Launch::DevServer(plan) => LaunchView::DevServer(plan@),
            Launch::Client(plan) => LaunchView::Client(plan@),
            Launch::Proxy(plan) => LaunchView::Proxy(plan@),
        }
    }
}

impl CliView {
    /// The configuration holds no contradiction: a proxy names upstreams
    /// exactly where its strategy uses them.
    pub open spec fn runnable(self) -> bool {
        match self {
            CliView::Proxy(cli) => cli.runnable(),
            _ => true,
        }
    }

    /// What the chosen tool is started with.
    pub open spec fn launch(self, current_dir: Seq<char>, stdin_is_terminal: bool) -> LaunchView {
        match self {
            CliView::Serve(cli) => LaunchView::Serve(crate::serve::serve_plan_spec(cli)),
            CliView::DevServer(cli) => LaunchView::DevServer(
                crate::dev_server::plan_spec(cli, current_dir),
            ),
            CliView::Client(cli) => LaunchView::Client(
                crate::client::request_spec(cli, stdin_is_terminal),
            ),
            CliView::Proxy(cli) => LaunchView::Proxy(cli.plan()),
        }
    }
}

impl Cli {
    /// Whether the configuration can be run.
    pub fn can_run(&self) -> (r: bool)
        ensures
            r == self@.runnable(),
    {
        match self {
            Cli::Proxy(cli) => cli.can_run(),
            _ => true,
        }
    }

    /// Hands the configuration to the tool that was chosen and returns what
    /// that tool is started with.
    pub fn run(self, environment: Environment) -> (r: Launch)
        requires
            self@.runnable(),
        ensures
            r@ == self@.launch(environment.current_dir@, environment.stdin_is_terminal),
    {
        match self {
            Cli::Serve(cli) => Launch::Serve(cli.run()),
            Cli::DevServer(cli) => Launch::DevServer(cli.run(environment.current_dir)),
            Cli::Client(cli) => Launch::Client(cli.run(environment.stdin_is_terminal)),
            Cli::Proxy(cli) => Launch::Proxy(cli.run()),
        }
    }
}

} // verus!
