//! Paths as UTF-8 text separated by `/`. The specifications speak of a
//! path's bytes; `/` is ASCII, so it never occurs inside the encoding of
//! another character.
use vstd::prelude::*;
use vstd::string::*;
use vstd::utf8::*;

use crate::vfs::filenames::Filenames;

verus! {

/// The byte that separates file names: `/`.
pub const SEPARATOR: u8 = 0x2F;

/// Whether the path with bytes `b` is absolute: it starts with `/`.
pub open spec fn is_absolute_bytes(b: Seq<u8>) -> bool {
    b.len() > 0 && b[0] == SEPARATOR
}

/// The first index from `i` on that does not hold a separator (or the end).
pub open spec fn skip_seps(b: Seq<u8>, i: int) -> int
    decreases b.len() - i,
{
    if 0 <= i < b.len() && b[i] == SEPARATOR {
        skip_seps(b, i + 1)
    } else {
        i
    }
}

/// The first index from `i` on that holds a separator (or the end).
pub open spec fn run_end(b: Seq<u8>, i: int) -> int
    decreases b.len() - i,
{
    if 0 <= i < b.len() && b[i] != SEPARATOR {
        run_end(b, i + 1)
    } else {
        i
    }
}

/// Going back from `j`, the first index whose preceding byte is not a
/// separator (or 0).
pub open spec fn skip_seps_back(b: Seq<u8>, j: int) -> int
    decreases j,
{
    if 0 < j <= b.len() && b[j - 1] == SEPARATOR {
        skip_seps_back(b, j - 1)
    } else {
        j
    }
}

/// Going back from `j`, the first index whose preceding byte is a separator
/// (or 0).
pub open spec fn run_start(b: Seq<u8>, j: int) -> int
    decreases j,
{
    if 0 < j <= b.len() && b[j - 1] != SEPARATOR {
        run_start(b, j - 1)
    } else {
        j
    }
}

/// The last file name of the path with bytes `b`, if it has one.
pub open spec fn last_name(b: Seq<u8>) -> Option<Seq<u8>> {
    let e = skip_seps_back(b, b.len() as int);
    if e <= 0 {
        None
    } else {
        Some(b.subrange(run_start(b, e), e))
    }
}

/// Scanning back from `j` stays within `0..=j`.
pub proof fn lemma_back_scans_bounded(b: Seq<u8>, j: int)
    requires
        0 <= j <= b.len(),
    ensures
        0 <= skip_seps_back(b, j) <= j,
        0 <= run_start(b, j) <= j,
    decreases j,
{
    if j > 0 {
        lemma_back_scans_bounded(b, j - 1);
    }
}

/// The parent of a path ends within it.
pub proof fn lemma_parent_end_bounded(b: Seq<u8>)
    ensures
        0 <= parent_end(b) <= b.len(),
{
    lemma_back_scans_bounded(b, b.len() as int);
    let e = skip_seps_back(b, b.len() as int);
    lemma_back_scans_bounded(b, e);
    lemma_back_scans_bounded(b, run_start(b, e));
}

/// Where the parent of the path with bytes `b` ends: the last file name and
/// the separators around it are dropped. The path has a parent when this is
/// positive.
pub open spec fn parent_end(b: Seq<u8>) -> int {
    skip_seps_back(b, run_start(b, skip_seps_back(b, b.len() as int)))
}

/// The bytes of a path after `name` is pushed onto `b`: joined by one
/// separator unless `b` is empty or already ends with one.
pub open spec fn pushed(b: Seq<u8>, name: Seq<u8>) -> Seq<u8> {
    if b.len() == 0 || b.last() == SEPARATOR {
        b + name
    } else {
        b + seq![SEPARATOR] + name
    }
}

/// The encoding of a concatenation is the concatenation of the encodings.
pub proof fn lemma_encode_concat(a: Seq<char>, b: Seq<char>)
    ensures
        encode_utf8(a + b) == encode_utf8(a) + encode_utf8(b),
    decreases a.len(),
{
    if a.len() == 0 {
        assert(a + b =~= b);
    } else {
        assert((a + b).drop_first() =~= a.drop_first() + b);
        lemma_encode_concat(a.drop_first(), b);
        assert((a + b)[0] == a[0]);
        assert(encode_scalar(a[0] as u32) + (encode_utf8(a.drop_first()) + encode_utf8(b))
            =~= (encode_scalar(a[0] as u32) + encode_utf8(a.drop_first())) + encode_utf8(b));
    }
}

/// The separator as text, with its bytes.
pub(crate) fn separator_str() -> (r: &'static str)
    ensures
        r.spec_bytes() == seq![SEPARATOR],
        r@ == seq!['/'],
{
    let s = "/";
    proof {
        reveal_strlit("/");
        assert(s@ == seq!['/']);
        assert(is_ascii_chars(seq!['/']));
        is_ascii_chars_encode_utf8(seq!['/']);
        assert(encode_utf8(seq!['/'])[0] == SEPARATOR);
    }
    s
}

/// The text after a leading separator.
pub(crate) fn after_separator<'a>(s: &'a str) -> (r: &'a str)
    requires
        s.spec_bytes().len() > 0,
        s.spec_bytes()[0] == SEPARATOR,
    ensures
        r.spec_bytes() == s.spec_bytes().subrange(1, s.spec_bytes().len() as int),
{
    proof {
        broadcast use group_utf8_lib;

        reveal_with_fuel(is_char_boundary, 2);
        assert(is_char_boundary(s.spec_bytes(), 1));
    }
    let (_, rest) = s.split_at(1);
    rest
}

/// Split `s` at byte `mid`, which is its end or the position of a separator.
pub(crate) fn split_at_separator<'a>(s: &'a str, mid: usize) -> (r: (&'a str, &'a str))
    requires
        mid <= s.spec_bytes().len(),
        mid == 0 || mid == s.spec_bytes().len() || s.spec_bytes()[mid as int] == SEPARATOR,
    ensures
        r.0.spec_bytes() == s.spec_bytes().subrange(0, mid as int),
        r.1.spec_bytes() == s.spec_bytes().subrange(mid as int, s.spec_bytes().len() as int),
{
    proof {
        broadcast use group_utf8_lib;

        if 0 < mid < s.spec_bytes().len() {
            assert(!is_continuation_byte(s.spec_bytes()[mid as int]));
        }
        assert(is_char_boundary(s.spec_bytes(), mid as int));
    }
    s.split_at(mid)
}

/// A path was expected to be absolute and is not.
#[derive(Debug, Clone, Copy, PartialEq, Eq, Structural)]
pub struct PathNotAbsoluteError;

/// A borrowed path.
#[derive(Debug, Clone, Copy, PartialEq, Eq)]
pub struct Path<'a> {
    inner: &'a str,
}

impl<'a> Path<'a> {
    /// The path's bytes.
    pub closed spec fn bytes(&self) -> Seq<u8> {
        self.inner.spec_bytes()
    }

    /// The path with text `s`.
    pub fn new(s: &'a str) -> (r: Self)
        ensures
            r.bytes() == s.spec_bytes(),
    {
        Path { inner: s }
    }

    /// The path's text.
    pub fn as_str(&self) -> (r: &'a str)
        ensures
            r.spec_bytes() == self.bytes(),
    {
        self.inner
    }

    /// Whether the path starts with `/`.
    pub fn is_absolute(&self) -> (r: bool)
        ensures
            r == is_absolute_bytes(self.bytes()),
    {
        let b = self.inner.as_bytes();
        b.len() > 0 && b[0] == SEPARATOR
    }

    /// The file names of the path, in order.
    pub fn filenames(&self) -> (r: Filenames<'a>)
        ensures
            r.remaining() == self.bytes(),
    {
        Filenames::new(*self)
    }

    /// The path without its last file name and the separators around it;
    /// `None` when nothing would be left.
    pub fn parent(&self) -> (r: Option<Path<'a>>)
        ensures
            parent_end(self.bytes()) <= 0 ==> r is None,
            parent_end(self.bytes()) > 0 ==> r is Some && r.unwrap().bytes() == self.bytes().subrange(
                0,
                parent_end(self.bytes()),
            ),
    {
        let b = self.inner.as_bytes();
        let n = b.len();
        let mut e: usize = n;
        while e > 0 && b[e - 1] == SEPARATOR
            invariant
                e <= n,
                n == b@.len(),
                skip_seps_back(b@, n as int) == skip_seps_back(b@, e as int),
            decreases e,
        {
            e = e - 1;
        }
        let mut s: usize = e;
        while s > 0 && b[s - 1] != SEPARATOR
            invariant
                s <= e <= n,
                n == b@.len(),
                e == skip_seps_back(b@, n as int),
                run_start(b@, e as int) == run_start(b@, s as int),
            decreases s,
        {
            s = s - 1;
        }
        let mut p: usize = s;
        while p > 0 && b[p - 1] == SEPARATOR
            invariant
                p <= s <= e <= n,
                n == b@.len(),
                e == skip_seps_back(b@, n as int),
                s == run_start(b@, e as int),
                skip_seps_back(b@, s as int) == skip_seps_back(b@, p as int),
                s > 0 ==> b@[s - 1] == SEPARATOR,
                p < s ==> b@[p as int] == SEPARATOR,
            decreases p,
        {
            p = p - 1;
        }
        if p == 0 {
            return None;
        }
        assert(b@[p as int] == SEPARATOR);
        let (left, _) = split_at_separator(self.inner, p);
        Some(Path { inner: left })
    }

    /// The last file name, if the path has one.
    pub fn file_name(&self) -> (r: Option<&'a str>)
        ensures
            match last_name(self.bytes()) {
                None => r is None,
                Some(n) => r is Some && r.unwrap().spec_bytes() == n,
            },
    {
        let mut names = Filenames::new(*self);
        names.next_back()
    }
}

/// An owned path.
#[derive(Debug, PartialEq, Eq)]
pub struct OwnedPath {
    inner: String,
}

impl OwnedPath {
    /// The path's bytes.
    pub closed spec fn bytes(&self) -> Seq<u8> {
        encode_utf8(self.inner@)
    }

    /// A path with the text `s`.
    pub fn new(s: &str) -> (r: Self)
        ensures
            r.bytes() == s.spec_bytes(),
    {
        OwnedPath { inner: String::from_str(s) }
    }

    /// The path's text.
    pub fn as_str(&self) -> (r: &str)
        ensures
            r.spec_bytes() == self.bytes(),
    {
        self.inner.as_str()
    }

    /// The path, borrowed.
    pub fn as_path(&self) -> (r: Path<'_>)
        ensures
            r.bytes() == self.bytes(),
    {
        Path::new(self.inner.as_str())
    }

    /// Whether the path starts with `/`.
    pub fn is_absolute(&self) -> (r: bool)
        ensures
            r == is_absolute_bytes(self.bytes()),
    {
        self.as_path().is_absolute()
    }

    /// The path without its last file name and the separators around it;
    /// `None` when nothing would be left.
    pub fn parent(&self) -> (r: Option<Path<'_>>)
        ensures
            parent_end(self.bytes()) <= 0 ==> r is None,
            parent_end(self.bytes()) > 0 ==> r is Some && r.unwrap().bytes() == self.bytes().subrange(
                0,
                parent_end(self.bytes()),
            ),
    {
        Path::new(self.inner.as_str()).parent()
    }

    /// The last file name, if the path has one.
    pub fn file_name(&self) -> (r: Option<&str>)
        ensures
            match last_name(self.bytes()) {
                None => r is None,
                Some(n) => r is Some && r.unwrap().spec_bytes() == n,
            },
    {
        Path::new(self.inner.as_str()).file_name()
    }

    /// Append `name` as a new last component.
    pub fn push(&mut self, name: &str)
        ensures
            final(self).bytes() == pushed(old(self).bytes(), name.spec_bytes()),
    {
        let needs_separator = {
            let b = self.inner.as_str().as_bytes();
            b.len() > 0 && b[b.len() - 1] != SEPARATOR
        };
        if needs_separator {
            let sep = separator_str();
            let ghost before = self.inner@;
            self.inner.append(sep);
            proof {
                lemma_encode_concat(before, sep@);
            }
        }
        let ghost middle = self.inner@;
        self.inner.append(name);
        proof {
            lemma_encode_concat(middle, name@);
        }
    }

    /// Append `s` to the last component.
    pub fn append_str(&mut self, s: &str)
        ensures
            final(self).bytes() == old(self).bytes() + s.spec_bytes(),
    {
        let ghost before = self.inner@;
        self.inner.append(s);
        proof {
            lemma_encode_concat(before, s@);
        }
    }
}

impl Clone for OwnedPath {
    fn clone(&self) -> (r: Self)
        ensures
            r.bytes() == self.bytes(),
    {
        OwnedPath { inner: self.inner.clone() }
    }
}

} // verus!
