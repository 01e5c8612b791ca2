//! The static file server's configuration and the plan that follows from it.

use crate::root_path::RootPath;
use crate::server_tls::{Listener, ListenerView, NativeTlsIdentity, RustlsFiles, ServerTls, ServerTlsView};
use crate::text::{as_text, slice_text_of, text_of};
use vstd::prelude::*;

verus! {

/// The configuration of the static file server.
#[derive(Debug, PartialEq, Eq)]
pub struct StaticCli {
    /// The directory to serve.
    pub root: RootPath,
    /// The local host or address to listen on.
    pub host: String,
    /// The local port to listen on.
    pub port: u16,
    /// The TLS options of the listener.
    pub server_tls: ServerTls,
    /// Where requests go that would otherwise not be found.
    pub forward: Option<String>,
    /// The file that is served for a directory.
    pub index: Option<String>,
}

/// What the static file server is started with.
#[derive(Debug, PartialEq, Eq)]
pub struct ServePlan {
    pub root: String,
    pub index: Option<String>,
    pub forward: Option<String>,
    pub host: String,
    pub port: u16,
    pub listener: Listener,
}

/// [`StaticCli`] as a mathematical value.
pub ghost struct StaticCliView {
    pub root: Seq<char>,
    pub host: Seq<char>,
    pub port: u16,
    pub server_tls: ServerTlsView,
    pub forward: Option<Seq<char>>,
    pub index: Option<Seq<char>>,
}

/// A [`ServePlan`] as a mathematical value.
pub ghost struct ServePlanView {
    pub root: Seq<char>,
    pub index: Option<Seq<char>>,
    pub forward: Option<Seq<char>>,
    pub host: Seq<char>,
    pub port: u16,
    pub listener: ListenerView,
}

impl View for StaticCli {
    type V = StaticCliView;

    open spec fn view(&self) -> StaticCliView {
        StaticCliView {
            root: self.root@,
            host: self.host@,
            port: self.port,
            server_tls: self.server_tls@,
            forward: text_of(self.forward),
            index: text_of(self.index),
        }
    }
}

impl View for ServePlan {
    type V = ServePlanView;

    open spec fn view(&self) -> ServePlanView {
        ServePlanView {
            root: self.root@,
            index: text_of(self.index),
            forward: text_of(self.forward),
            host: self.host@,
            port: self.port,
            listener: self.listener@,
        }
    }
}

/// The plan of a configuration: what it names, and the listener that its
/// TLS options ask for.
pub open spec fn serve_plan_spec(cli: StaticCliView) -> ServePlanView {
    ServePlanView {
        root: cli.root,
        index: cli.index,
        forward: cli.forward,
        host: cli.host,
        port: cli.port,
        listener: cli.server_tls.listener(),
    }
}

impl StaticCli {
    /// The directory to serve.
    pub fn root(&self) -> (r: &RootPath)
        ensures
            r@ == self@.root,
    {
        &self.root
    }

    /// Where requests go that would otherwise not be found.
    pub fn forward(&self) -> (r: Option<&str>)
        ensures
            slice_text_of(r) == self@.forward,
    {
        as_text(&self.forward)
    }

    /// The file that is served for a directory.
    pub fn index(&self) -> (r: Option<&str>)
        ensures
            slice_text_of(r) == self@.index,
    {
        as_text(&self.index)
    }

    /// The local host or address to listen on.
    pub fn host(&self) -> (r: &str)
        ensures
            r@ == self@.host,
    {
        self.host.as_str()
    }

    /// The local port to listen on.
    pub fn port(&self) -> (r: u16)
        ensures
            r == self@.port,
    {
        self.port
    }

    /// The files for a rustls acceptor. Options that contradict themselves
    /// are not accepted.
    pub fn rustls_acceptor(&self) -> (r: Option<RustlsFiles>)
        requires
            !self@.server_tls.rustls_conflict(),
        ensures
            match r {
                Some(files) => self@.server_tls.rustls() == Some(files@),
                None => self@.server_tls.rustls() is None,
            },
    {
        self.server_tls.rustls_acceptor()
    }

    /// The identity for a native TLS acceptor, where the identity and its
    /// password are given and no file for rustls is. Options that contradict
    /// themselves are not accepted.
    pub fn native_tls_acceptor(&self) -> (r: Option<NativeTlsIdentity>)
        requires
            !self@.server_tls.native_tls_conflict(),
        ensures
            match r {
                Some(identity) => self@.server_tls.native_tls_alone() == Some(identity@),
                None => self@.server_tls.native_tls_alone() is None,
            },
    {
        if self.server_tls.rustls_cert.is_none() && self.server_tls.rustls_key.is_none() {
            self.server_tls.native_tls_acceptor()
        } else {
            None
        }
    }

    /// What the server is started with.
    pub fn run(self) -> (r: ServePlan)
        ensures
            r@ == serve_plan_spec(self@),
    {
        let listener = self.server_tls.listener();
        ServePlan {
            root: self.root.into_string(),
            index: self.index,
            forward: self.forward,
            host: self.host,
            port: self.port,
            listener,
        }
    }
}

} // verus!
