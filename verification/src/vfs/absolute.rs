//! Absolute borrowed paths: paths that start with `/`.
use vstd::prelude::*;
use vstd::std_specs::convert::TryFromSpecImpl;
use vstd::string::*;

use crate::vfs::absolute_owned::AbsoluteOwnedPath;
use crate::vfs::path::{
    is_absolute_bytes, lemma_parent_end_bounded, parent_end, OwnedPath, Path, PathNotAbsoluteError,
};

verus! {

/// A borrowed path that starts with `/`.
#[derive(Debug, Clone, Copy)]
pub struct AbsolutePath<'a> {
    inner: Path<'a>,
}

impl<'a> AbsolutePath<'a> {
    /// The path's bytes.
    pub closed spec fn bytes(&self) -> Seq<u8> {
        self.inner.bytes()
    }

    /// Every absolute path starts with `/`.
    #[verifier::type_invariant]
    closed spec fn starts_at_root(&self) -> bool {
        is_absolute_bytes(self.inner.bytes())
    }

    /// The absolute path with text `path`; an error unless it starts with `/`.
    pub fn try_new(path: &'a str) -> (r: Result<Self, PathNotAbsoluteError>)
        ensures
            r is Ok <==> is_absolute_bytes(path.spec_bytes()),
            r is Ok ==> r.unwrap().bytes() == path.spec_bytes(),
    {
        Self::from_path(Path::new(path))
    }

    /// The absolute form of `path`; an error unless it starts with `/`.
    pub fn from_path(path: Path<'a>) -> (r: Result<Self, PathNotAbsoluteError>)
        ensures
            r is Ok <==> is_absolute_bytes(path.bytes()),
            r is Ok ==> r.unwrap().bytes() == path.bytes(),
    {
        if path.is_absolute() {
            Ok(AbsolutePath { inner: path })
        } else {
            Err(PathNotAbsoluteError)
        }
    }

    /// Always true: the path starts with `/`.
    pub fn is_absolute(&self) -> (r: bool)
        ensures
            r,
            is_absolute_bytes(self.bytes()),
    {
        proof {
            use_type_invariant(self);
        }
        self.inner.is_absolute()
    }

    /// The path without its last file name and the separators around it;
    /// `None` when only the root would be left. The parent is absolute too.
    pub fn parent(&self) -> (r: Option<AbsolutePath<'a>>)
        ensures
            parent_end(self.bytes()) <= 0 ==> r is None,
            parent_end(self.bytes()) > 0 ==> r is Some && r.unwrap().bytes() == self.bytes().subrange(
                0,
                parent_end(self.bytes()),
            ),
    {
        proof {
            use_type_invariant(self);
            lemma_parent_end_bounded(self.bytes());
        }
        match self.inner.parent() {
            None => None,
            Some(p) => {
                assert(p.bytes()[0] == self.bytes()[0]);
                Some(AbsolutePath { inner: p })
            },
        }
    }

    /// The path as a plain path.
    pub fn as_path(&self) -> (r: Path<'a>)
        ensures
            r.bytes() == self.bytes(),
    {
        self.inner
    }

    /// The path's text.
    pub fn as_str(&self) -> (r: &'a str)
        ensures
            r.spec_bytes() == self.bytes(),
    {
        self.inner.as_str()
    }

    /// An owned copy.
    pub fn to_owned_path(&self) -> (r: AbsoluteOwnedPath)
        ensures
            r.bytes() == self.bytes(),
    {
        proof {
            use_type_invariant(self);
        }
        let owned = OwnedPath::new(self.inner.as_str());
        match AbsoluteOwnedPath::from_owned_path(owned) {
            Ok(p) => p,
            Err(_) => AbsoluteOwnedPath::new(),
        }
    }
}

impl<'a> TryFrom<&'a str> for AbsolutePath<'a> {
    type Error = PathNotAbsoluteError;

    /// The absolute path with text `value`; an error unless it starts with `/`.
    fn try_from(value: &'a str) -> (r: Result<Self, PathNotAbsoluteError>)
        ensures
            r is Ok <==> is_absolute_bytes(value.spec_bytes()),
            r is Ok ==> r.unwrap().bytes() == value.spec_bytes(),
    {
        Self::try_new(value)
    }
}

impl<'a> TryFromSpecImpl<&'a str> for AbsolutePath<'a> {
    open spec fn obeys_try_from_spec() -> bool {
        false
    }

    open spec fn try_from_spec(v: &'a str) -> Result<Self, PathNotAbsoluteError> {
        Err(PathNotAbsoluteError)
    }
}

impl<'a> TryFrom<Path<'a>> for AbsolutePath<'a> {
    type Error = PathNotAbsoluteError;

    /// The absolute form of `value`; an error unless it starts with `/`.
    fn try_from(value: Path<'a>) -> (r: Result<Self, PathNotAbsoluteError>)
        ensures
            r is Ok <==> is_absolute_bytes(value.bytes()),
            r is Ok ==> r.unwrap().bytes() == value.bytes(),
    {
        Self::from_path(value)
    }
}

impl<'a> TryFromSpecImpl<Path<'a>> for AbsolutePath<'a> {
    open spec fn obeys_try_from_spec() -> bool {
        false
    }

    open spec fn try_from_spec(v: Path<'a>) -> Result<Self, PathNotAbsoluteError> {
        Err(PathNotAbsoluteError)
    }
}

} // verus!
