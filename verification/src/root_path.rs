//! Paths as text. A path is held as the string a user would type; the rules
//! here are those of a Unix file system, where `/` separates the parts and a
//! leading `/` makes a path absolute.

use crate::text::chars_of;
use vstd::prelude::*;

verus! {

/// `path` starts at the root of the file system.
pub open spec fn is_absolute(path: Seq<char>) -> bool {
    path.len() > 0 && path[0] == '/'
}

/// `path` appended to `base`: an absolute `path` replaces `base`; otherwise
/// the two are joined, with a separator between them unless `base` is empty
/// or already ends in one.
pub open spec fn join_spec(base: Seq<char>, path: Seq<char>) -> Seq<char> {
    if is_absolute(path) {
        path
    } else if base.len() > 0 && base.last() != '/' {
        base + seq!['/'] + path
    } else {
        base + path
    }
}

/// Whether `path` starts at the root of the file system.
pub fn absolute(path: &str) -> (r: bool)
    ensures
        r == is_absolute(path@),
{
    let chars = chars_of(path);
    chars.len() > 0 && chars[0] == '/'
}

/// `path` appended to `base`, as a file system reads paths.
pub fn join(base: &str, path: &str) -> (r: String)
    ensures
        r@ == join_spec(base@, path@),
{
    if absolute(path) {
        return path.to_owned();
    }
    let chars = chars_of(base);
    let mut out = base.to_owned();
    if chars.len() > 0 && chars[chars.len() - 1] != '/' {
        proof {
            reveal_strlit("/");
            assert("/"@ =~= seq!['/']);
        }
        out.append("/");
    }
    out.append(path);
    out
}

/// The directory that a file server serves: an absolute path, made canonical
/// by whoever read it from the file system.
#[derive(Debug, PartialEq, Eq)]
pub struct RootPath {
    path: String,
}

impl View for RootPath {
    type V = Seq<char>;

    closed spec fn view(&self) -> Seq<char> {
        self.path@
    }
}

impl Clone for RootPath {
    fn clone(&self) -> (r: RootPath)
        ensures
            r@ == self@,
    {
        proof {
            use_type_invariant(self);
        }
        RootPath { path: self.path.clone() }
    }
}

impl RootPath {
    #[verifier::type_invariant]
    spec fn inv(self) -> bool {
        is_absolute(self.path@)
    }

    /// Takes a canonical path as the root. A path that is not absolute is
    /// not canonical, and is refused.
    pub fn new(canonical: String) -> (r: Option<RootPath>)
        ensures
            match r {
                Some(root) => is_absolute(canonical@) && root@ == canonical@,
                None => !is_absolute(canonical@),
            },
    {
        if absolute(canonical.as_str()) {
            Some(RootPath { path: canonical })
        } else {
            None
        }
    }

    /// The path as text.
    pub fn as_str(&self) -> (r: &str)
        ensures
            r@ == self@,
            is_absolute(self@),
    {
        proof {
            use_type_invariant(self);
        }
        self.path.as_str()
    }

    /// Gives up the root for its path.
    pub fn into_string(self) -> (r: String)
        ensures
            r@ == self@,
            is_absolute(self@),
    {
        proof {
            use_type_invariant(&self);
        }
        self.path
    }

    /// The path below this root that `relative` names.
    pub fn join(&self, relative: &str) -> (r: String)
        ensures
            r@ == join_spec(self@, relative@),
    {
        join(self.path.as_str(), relative)
    }
}

} // verus!
