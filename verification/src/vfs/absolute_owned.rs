//! Absolute owned paths: owned paths that start with `/` and keep doing so
//! whatever is pushed or appended.
use vstd::prelude::*;
use vstd::std_specs::convert::TryFromSpecImpl;
use vstd::string::*;

use crate::vfs::absolute::AbsolutePath;
use crate::vfs::path::{
    is_absolute_bytes, last_name, parent_end, pushed, separator_str, OwnedPath, Path, PathNotAbsoluteError,
};

verus! {

/// An owned path that starts with `/`.
#[derive(Debug, PartialEq, Eq)]
pub struct AbsoluteOwnedPath {
    inner: OwnedPath,
}

impl AbsoluteOwnedPath {
    /// The path's bytes.
    pub closed spec fn bytes(&self) -> Seq<u8> {
        self.inner.bytes()
    }

    /// Every absolute path starts with `/`.
    #[verifier::type_invariant]
    closed spec fn starts_at_root(&self) -> bool {
        is_absolute_bytes(self.inner.bytes())
    }

    /// The root path `/`.
    pub fn new() -> (r: Self)
        ensures
            r.bytes() == seq![0x2Fu8],
    {
        let inner = OwnedPath::new(separator_str());
        AbsoluteOwnedPath { inner }
    }

    /// The absolute form of `value`; an error unless it starts with `/`.
    pub fn from_owned_path(value: OwnedPath) -> (r: Result<Self, PathNotAbsoluteError>)
        ensures
            r is Ok <==> is_absolute_bytes(value.bytes()),
            r is Ok ==> r.unwrap().bytes() == value.bytes(),
    {
        if value.is_absolute() {
            Ok(AbsoluteOwnedPath { inner: value })
        } else {
            Err(PathNotAbsoluteError)
        }
    }

    /// The absolute path with text `value`; an error unless it starts with `/`.
    pub fn from_str_path(value: &str) -> (r: Result<Self, PathNotAbsoluteError>)
        ensures
            r is Ok <==> is_absolute_bytes(value.spec_bytes()),
            r is Ok ==> r.unwrap().bytes() == value.spec_bytes(),
    {
        Self::from_owned_path(OwnedPath::new(value))
    }

    /// The path's text.
    pub fn as_str(&self) -> (r: &str)
        ensures
            r.spec_bytes() == self.bytes(),
    {
        self.inner.as_str()
    }

    /// The path as a plain owned path.
    pub fn as_owned_path(&self) -> (r: &OwnedPath)
        ensures
            r.bytes() == self.bytes(),
    {
        &self.inner
    }

    /// The path, borrowed.
    pub fn as_absolute_path(&self) -> (r: AbsolutePath<'_>)
        ensures
            r.bytes() == self.bytes(),
    {
        proof {
            use_type_invariant(self);
        }
        match AbsolutePath::try_new(self.inner.as_str()) {
            Ok(p) => p,
            Err(_) => {
                assert(false);
                AbsolutePath::try_new(separator_str()).unwrap()
            },
        }
    }

    /// Always true: the path starts with `/`.
    pub fn is_absolute(&self) -> (r: bool)
        ensures
            r,
            is_absolute_bytes(self.bytes()),
    {
        proof {
            use_type_invariant(self);
        }
        self.inner.is_absolute()
    }

    /// The path without its last file name and the separators around it;
    /// `None` when only the root would be left.
    pub fn parent(&self) -> (r: Option<Path<'_>>)
        ensures
            parent_end(self.bytes()) <= 0 ==> r is None,
            parent_end(self.bytes()) > 0 ==> r is Some && r.unwrap().bytes() == self.bytes().subrange(
                0,
                parent_end(self.bytes()),
            ),
    {
        self.inner.parent()
    }

    /// The last file name, if the path has one.
    pub fn file_name(&self) -> (r: Option<&str>)
        ensures
            match last_name(self.bytes()) {
                None => r is None,
                Some(n) => r is Some && r.unwrap().spec_bytes() == n,
            },
    {
        self.inner.file_name()
    }

    /// Append `name` as a new last component; the path stays absolute.
    pub fn push(&mut self, name: &str)
        ensures
            final(self).bytes() == pushed(old(self).bytes(), name.spec_bytes()),
    {
        proof {
            use_type_invariant(&*self);
        }
        let mut inner = OwnedPath::new(separator_str());
        std::mem::swap(&mut inner, &mut self.inner);
        inner.push(name);
        std::mem::swap(&mut inner, &mut self.inner);
    }

    /// Append `s` to the last component; the path stays absolute.
    pub fn append_str(&mut self, s: &str)
        ensures
            final(self).bytes() == old(self).bytes() + s.spec_bytes(),
    {
        proof {
            use_type_invariant(&*self);
        }
        let mut inner = OwnedPath::new(separator_str());
        std::mem::swap(&mut inner, &mut self.inner);
        inner.append_str(s);
        std::mem::swap(&mut inner, &mut self.inner);
    }
}

impl Default for AbsoluteOwnedPath {
    fn default() -> (r: Self)
        ensures
            r.bytes() == seq![0x2Fu8],
    {
        Self::new()
    }
}

impl Clone for AbsoluteOwnedPath {
    fn clone(&self) -> (r: Self)
        ensures
            r.bytes() == self.bytes(),
    {
        proof {
            use_type_invariant(self);
        }
        AbsoluteOwnedPath { inner: self.inner.clone() }
    }
}

impl<'a> TryFrom<&'a str> for AbsoluteOwnedPath {
    type Error = PathNotAbsoluteError;

    /// The absolute path with text `value`; an error unless it starts with `/`.
    fn try_from(value: &'a str) -> (r: Result<Self, PathNotAbsoluteError>)
        ensures
            r is Ok <==> is_absolute_bytes(value.spec_bytes()),
            r is Ok ==> r.unwrap().bytes() == value.spec_bytes(),
    {
        Self::from_str_path(value)
    }
}

impl<'a> TryFromSpecImpl<&'a str> for AbsoluteOwnedPath {
    open spec fn obeys_try_from_spec() -> bool {
        false
    }

    open spec fn try_from_spec(v: &'a str) -> Result<Self, PathNotAbsoluteError> {
        Err(PathNotAbsoluteError)
    }
}

impl TryFrom<OwnedPath> for AbsoluteOwnedPath {
    type Error = PathNotAbsoluteError;

    /// The absolute form of `value`; an error unless it starts with `/`.
    fn try_from(value: OwnedPath) -> (r: Result<Self, PathNotAbsoluteError>)
        ensures
            r is Ok <==> is_absolute_bytes(value.bytes()),
            r is Ok ==> r.unwrap().bytes() == value.bytes(),
    {
        Self::from_owned_path(value)
    }
}

impl TryFromSpecImpl<OwnedPath> for AbsoluteOwnedPath {
    open spec fn obeys_try_from_spec() -> bool {
        false
    }

    open spec fn try_from_spec(v: OwnedPath) -> Result<Self, PathNotAbsoluteError> {
        Err(PathNotAbsoluteError)
    }
}

} // verus!
