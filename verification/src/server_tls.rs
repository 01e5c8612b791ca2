//! The TLS options of a listener and what they ask for. Reading the files
//! and building the acceptor is left to the program.

use crate::text::text_of;
use vstd::prelude::*;

verus! {

/// The TLS options of a listener.
#[derive(Debug, PartialEq, Eq)]
pub struct ServerTls {
    /// The path to a certificate for rustls.
    pub rustls_cert: Option<String>,
    /// The path to the key that belongs to the certificate.
    pub rustls_key: Option<String>,
    /// The path to a PKCS #12 identity for native TLS.
    pub native_tls_identity: Option<String>,
    /// The password of the identity.
    pub native_tls_password: Option<String>,
}

/// The files from which a rustls acceptor is made.
#[derive(Debug, PartialEq, Eq)]
pub struct RustlsFiles {
    pub cert: String,
    pub key: String,
}

/// The file and the password from which a native TLS acceptor is made.
#[derive(Debug, PartialEq, Eq)]
pub struct NativeTlsIdentity {
    pub identity: String,
    pub password: String,
}

/// How a listener accepts connections.
#[derive(Debug, PartialEq, Eq)]
pub enum Listener {
    Plain,
    Rustls(RustlsFiles),
    NativeTls(NativeTlsIdentity),
}

/// [`ServerTls`] as a mathematical value.
pub ghost struct ServerTlsView {
    pub rustls_cert: Option<Seq<char>>,
    pub rustls_key: Option<Seq<char>>,
    pub native_tls_identity: Option<Seq<char>>,
    pub native_tls_password: Option<Seq<char>>,
}

/// A [`Listener`] as a mathematical value.
pub ghost enum ListenerView {
    Plain,
    Rustls { cert: Seq<char>, key: Seq<char> },
    NativeTls { identity: Seq<char>, password: Seq<char> },
}

impl View for ServerTls {
    type V = ServerTlsView;

    open spec fn view(&self) -> ServerTlsView {
        ServerTlsView {
            rustls_cert: text_of(self.rustls_cert),
            rustls_key: text_of(self.rustls_key),
            native_tls_identity: text_of(self.native_tls_identity),
            native_tls_password: text_of(self.native_tls_password),
        }
    }
}

impl View for RustlsFiles {
    type V = (Seq<char>, Seq<char>);

    open spec fn view(&self) -> (Seq<char>, Seq<char>) {
        (self.cert@, self.key@)
    }
}

impl View for NativeTlsIdentity {
    type V = (Seq<char>, Seq<char>);

    open spec fn view(&self) -> (Seq<char>, Seq<char>) {
        (self.identity@, self.password@)
    }
}

impl View for Listener {
    type V = ListenerView;

    open spec fn view(&self) -> ListenerView {
        match self {
            Listener::Plain => ListenerView::Plain,
            Listener::Rustls(files) => ListenerView::Rustls { cert: files.cert@, key: files.key@ },
            Listener::NativeTls(identity) => ListenerView::NativeTls {
                identity: identity.identity@,
                password: identity.password@,
            },
        }
    }
}

impl ServerTlsView {
    /// The files for rustls: both or none.
    pub open spec fn rustls(self) -> Option<(Seq<char>, Seq<char>)> {
        match (self.rustls_cert, self.rustls_key) {
            (Some(cert), Some(key)) => Some((cert, key)),
            _ => None,
        }
    }

    /// The identity for native TLS: with its password or not at all.
    pub open spec fn native_tls(self) -> Option<(Seq<char>, Seq<char>)> {
        match (self.native_tls_identity, self.native_tls_password) {
            (Some(identity), Some(password)) => Some((identity, password)),
            _ => None,
        }
    }

    /// How the listener accepts connections: with rustls where its files are
    /// given, else with native TLS where an identity is given, else plainly.
    pub open spec fn listener(self) -> ListenerView {
        match self.rustls() {
            Some((cert, key)) => ListenerView::Rustls { cert, key },
            None => match self.native_tls() {
                Some((identity, password)) => ListenerView::NativeTls { identity, password },
                None => ListenerView::Plain,
            },
        }
    }

    /// The rustls options contradict themselves: one file without the
    /// other, or both beside an identity for native TLS.
    pub open spec fn rustls_conflict(self) -> bool {
        ||| self.rustls_cert is Some != self.rustls_key is Some
        ||| self.rustls_cert is Some && self.rustls_key is Some && self.native_tls_identity is Some
    }

    /// The native TLS options contradict themselves: an identity without
    /// its password or the reverse, or both beside both files for rustls.
    pub open spec fn native_tls_conflict(self) -> bool {
        ||| self.native_tls_identity is Some != self.native_tls_password is Some
        ||| self.rustls_cert is Some && self.rustls_key is Some && self.native_tls_identity is Some
    }

    /// The identity for native TLS where it stands alone: with its
    /// password, and without a file for rustls.
    pub open spec fn native_tls_alone(self) -> Option<(Seq<char>, Seq<char>)> {
        if self.rustls_cert is None && self.rustls_key is None {
            self.native_tls()
        } else {
            None
        }
    }
}

impl ServerTls {
    /// The files for a rustls acceptor, where a certificate and a key are
    /// both given.
    pub fn rustls_acceptor(&self) -> (r: Option<RustlsFiles>)
        ensures
            match r {
                Some(files) => self@.rustls() == Some(files@),
                None => self@.rustls() is None,
            },
    {
        match (&self.rustls_cert, &self.rustls_key) {
            (Some(cert), Some(key)) => Some(RustlsFiles { cert: cert.clone(), key: key.clone() }),
            _ => None,
        }
    }

    /// The identity for a native TLS acceptor, where an identity and its
    /// password are both given.
    pub fn native_tls_acceptor(&self) -> (r: Option<NativeTlsIdentity>)
        ensures
            match r {
                Some(identity) => self@.native_tls() == Some(identity@),
                None => self@.native_tls() is None,
            },
    {
        match (&self.native_tls_identity, &self.native_tls_password) {
            (Some(identity), Some(password)) => Some(
                NativeTlsIdentity { identity: identity.clone(), password: password.clone() },
            ),
            _ => None,
        }
    }

    /// How the listener accepts connections.
    pub fn listener(&self) -> (r: Listener)
        ensures
            r@ == self@.listener(),
    {
        match self.rustls_acceptor() {
            Some(files) => Listener::Rustls(files),
            None => match self.native_tls_acceptor() {
                Some(identity) => Listener::NativeTls(identity),
                None => Listener::Plain,
            },
        }
    }

    /// Whether the rustls options contradict themselves.
    pub fn has_rustls_conflict(&self) -> (r: bool)
        ensures
            r == self@.rustls_conflict(),
    {
        let cert = self.rustls_cert.is_some();
        let key = self.rustls_key.is_some();
        cert != key || (cert && key && self.native_tls_identity.is_some())
    }

    /// Whether the native TLS options contradict themselves.
    pub fn has_native_tls_conflict(&self) -> (r: bool)
        ensures
            r == self@.native_tls_conflict(),
    {
        let identity = self.native_tls_identity.is_some();
        let password = self.native_tls_password.is_some();
        identity != password || (self.rustls_cert.is_some() && self.rustls_key.is_some()
            && identity)
    }
}

} // verus!
