//! File descriptor system calls: each forwards to the process's files and
//! turns a failure into the error number that the call documents.
use vstd::prelude::*;
use vstd::string::*;

use crate::abi::{iovec, Errno, EBADF, EFAULT, EINVAL, ENAMETOOLONG, ENOENT, ERANGE, ESPIPE, PATH_MAX, UIO_MAXIOV};
use crate::syscall::access::FileAccess;
use crate::syscall::ptr::{range_check, UserspaceMutPtr, UserspacePtr, LOWER_HALF_END};
use crate::vfs::path::{is_absolute_bytes, pushed};
use crate::vfs::{AbsoluteOwnedPath, AbsolutePath};

verus! {

/// `whence` for `lseek`: from the start of the file.
pub const SEEK_SET: i32 = 0;

/// `whence` for `lseek`: from the current offset.
pub const SEEK_CUR: i32 = 1;

/// `whence` for `lseek`: from the end of the file.
pub const SEEK_END: i32 = 2;

/// How a system call reports an outcome whose failures all map to `errno`:
/// a success is passed on, any failure becomes `errno`.
pub open spec fn reported<T, E>(raw: Result<T, E>, errno: Errno) -> Result<T, Errno> {
    match raw {
        Ok(v) => Ok(v),
        Err(_) => Err(errno),
    }
}

/// How a system call reports an outcome that carries no value: 0 on
/// success, `errno` for any failure.
pub open spec fn reported_zero<E>(raw: Result<(), E>, errno: Errno) -> Result<usize, Errno> {
    match raw {
        Ok(()) => Ok(0),
        Err(_) => Err(errno),
    }
}

/// The number that a descriptor converts to.
pub open spec fn fd_number<F: Into<i32>>(fd: F) -> i32 {
    <F as vstd::std_specs::convert::IntoSpec<i32>>::into_spec(fd)
}

/// How a system call reports a new descriptor: its number as an unsigned
/// word (where the descriptor type specifies its conversion), or `EBADF`.
pub open spec fn reported_fd<F: Into<i32>, E>(raw: Result<F, E>, r: Result<usize, Errno>) -> bool {
    match raw {
        Ok(fd) => r is Ok && (<F as vstd::std_specs::convert::IntoSpec<i32>>::obeys_into_spec() ==> r
            == Ok::<usize, Errno>(fd_number(fd) as usize)),
        Err(_) => r == Err::<usize, Errno>(EBADF),
    }
}

/// The outcome of a call whose failures all map to `errno`: a success is
/// passed on, any failure becomes `errno`.
pub fn errno_on_error<T, E>(r: Result<T, E>, errno: Errno) -> (out: Result<T, Errno>)
    ensures
        out == reported(r, errno),
{
    match r {
        Ok(v) => Ok(v),
        Err(_) => Err(errno),
    }
}

/// The outcome of a call that yields a descriptor number: the number as an
/// unsigned word, or `EBADF`.
pub fn fd_result<E>(r: Result<i32, E>) -> (out: Result<usize, Errno>)
    ensures
        match r {
            Ok(fd) => out == Ok::<usize, Errno>(fd as usize),
            Err(_) => out == Err::<usize, Errno>(EBADF),
        },
{
    match r {
        Ok(fd) => Ok(fd as usize),
        Err(_) => Err(EBADF),
    }
}

/// Read from a descriptor into `buf`; any failure is `EINVAL`.
pub fn sys_read<Cx: FileAccess>(cx: &Cx, fildes: Cx::Fd, buf: &mut [u8]) -> (r: Result<usize, Errno>)
    ensures
        exists|raw: Result<usize, Cx::Error>|
            #[trigger] cx.read_outcome(fildes, old(buf)@.len() as usize, raw) && r == reported(raw, EINVAL),
        final(buf)@.len() == old(buf)@.len(),
{
    let raw = cx.read(fildes, buf);
    proof {
        assert(cx.read_outcome(fildes, old(buf)@.len() as usize, raw));
    }
    errno_on_error(raw, EINVAL)
}

/// Write `buf` to a descriptor; any failure is `EINVAL`.
pub fn sys_write<Cx: FileAccess>(cx: &Cx, fildes: Cx::Fd, buf: &[u8]) -> (r: Result<usize, Errno>)
    ensures
        exists|raw: Result<usize, Cx::Error>| #[trigger] cx.write_outcome(fildes, buf, raw) && r == reported(raw, EINVAL),
{
    let raw = cx.write(fildes, buf);
    proof {
        assert(cx.write_outcome(fildes, buf, raw));
    }
    errno_on_error(raw, EINVAL)
}

/// Close a descriptor: 0 when the close succeeded, else `EBADF`.
pub fn sys_close<Cx: FileAccess>(cx: &Cx, fildes: Cx::Fd) -> (r: Result<usize, Errno>)
    ensures
        exists|raw: Result<(), Cx::Error>| #[trigger] cx.close_outcome(fildes, raw) && r == reported_zero(raw, EBADF),
{
    let raw = cx.close(fildes);
    proof {
        assert(cx.close_outcome(fildes, raw));
    }
    match errno_on_error(raw, EBADF) {
        Ok(()) => Ok(0),
        Err(e) => Err(e),
    }
}

/// Move a descriptor's file offset: the new offset, or `ESPIPE` for any
/// failure.
pub fn sys_lseek<Cx: FileAccess>(cx: &Cx, fildes: Cx::Fd, offset: i64, whence: i32) -> (r: Result<usize, Errno>)
    ensures
        exists|raw: Result<usize, Cx::Error>|
            #[trigger] cx.lseek_outcome(fildes, offset, whence, raw) && r == reported(raw, ESPIPE),
{
    let raw = cx.lseek(fildes, offset, whence);
    proof {
        assert(cx.lseek_outcome(fildes, offset, whence, raw));
    }
    errno_on_error(raw, ESPIPE)
}

/// Duplicate a descriptor: the new descriptor's number, or `EBADF`.
pub fn sys_dup<Cx: FileAccess>(cx: &Cx, oldfd: Cx::Fd) -> (r: Result<usize, Errno>)
    ensures
        exists|raw: Result<Cx::Fd, Cx::Error>| #[trigger] cx.dup_outcome(oldfd, raw) && reported_fd(raw, r),
{
    let out = cx.dup(oldfd);
    proof {
        assert(cx.dup_outcome(oldfd, out));
    }
    let raw: Result<i32, Cx::Error> = match out {
        Ok(fd) => Ok(fd.into()),
        Err(e) => Err(e),
    };
    fd_result(raw)
}

/// Duplicate a descriptor onto another: the resulting descriptor's number,
/// or `EBADF`.
pub fn sys_dup2<Cx: FileAccess>(cx: &Cx, oldfd: Cx::Fd, newfd: Cx::Fd) -> (r: Result<usize, Errno>)
    ensures
        exists|raw: Result<Cx::Fd, Cx::Error>| #[trigger] cx.dup2_outcome(oldfd, newfd, raw) && reported_fd(raw, r),
{
    let out = cx.dup2(oldfd, newfd);
    proof {
        assert(cx.dup2_outcome(oldfd, newfd, out));
    }
    let raw: Result<i32, Cx::Error> = match out {
        Ok(fd) => Ok(fd.into()),
        Err(e) => Err(e),
    };
    fd_result(raw)
}

/// Check the buffer of a path argument: at most `PATH_MAX` bytes
/// (`ENAMETOOLONG`), all in userspace (`EFAULT`).
pub fn check_path_buffer(path: &UserspacePtr<u8>, path_len: usize) -> (r: Result<(), Errno>)
    ensures
        path_len > PATH_MAX ==> r == Err::<(), Errno>(ENAMETOOLONG),
        path_len <= PATH_MAX && range_check(path.spec_addr(), path_len) is Err ==> r == Err::<(), Errno>(
            EFAULT,
        ),
        path_len <= PATH_MAX && range_check(path.spec_addr(), path_len) is Ok ==> r is Ok,
{
    if path_len > PATH_MAX {
        return Err(ENAMETOOLONG);
    }
    match path.validate_range(path_len) {
        Ok(()) => Ok(()),
        Err(_) => Err(EFAULT),
    }
}

/// The absolute path that `text` names from the working directory `cwd`:
/// `text` itself when it is absolute, else `text` pushed onto `cwd`.
pub fn resolve_against(cwd: &AbsoluteOwnedPath, text: &str) -> (r: AbsoluteOwnedPath)
    ensures
        is_absolute_bytes(text.spec_bytes()) ==> r.bytes() == text.spec_bytes(),
        !is_absolute_bytes(text.spec_bytes()) ==> r.bytes() == pushed(cwd.bytes(), text.spec_bytes()),
{
    match AbsolutePath::try_new(text) {
        Ok(p) => p.to_owned_path(),
        Err(_) => {
            let mut p = cwd.clone();
            p.push(text);
            p
        },
    }
}

/// `core::str::from_utf8`: the bytes as a string slice when they are valid
/// UTF-8, the slice holding exactly those bytes; an error otherwise.
#[verifier::external_body]
fn str_from_utf8(b: &[u8]) -> (r: Result<&str, ()>)
    ensures
        r is Ok <==> vstd::utf8::valid_utf8(b@),
        r matches Ok(s) ==> s.spec_bytes() == b@,
{
    match core::str::from_utf8(b) {
        Ok(s) => Ok(s),
        Err(_) => Err(()),
    }
}

/// The absolute path that the `bytes` of a path argument name from the
/// working directory `cwd`: `EINVAL` when they are not UTF-8, else the
/// bytes themselves when they are absolute, else the bytes pushed onto
/// `cwd`.
pub fn resolve_path_bytes(cwd: &AbsoluteOwnedPath, bytes: &[u8]) -> (r: Result<AbsoluteOwnedPath, Errno>)
    ensures
        !vstd::utf8::valid_utf8(bytes@) ==> r == Err::<AbsoluteOwnedPath, Errno>(EINVAL),
        vstd::utf8::valid_utf8(bytes@) ==> (r matches Ok(p) && p.bytes() == (if is_absolute_bytes(bytes@) {
            bytes@
        } else {
            pushed(cwd.bytes(), bytes@)
        })),
{
    match str_from_utf8(bytes) {
        Ok(text) => Ok(resolve_against(cwd, text)),
        Err(()) => Err(EINVAL),
    }
}

/// Create the directory `path`: 0 when the kernel created it, else
/// `ENOENT`.
pub fn make_directory<Cx: FileAccess>(cx: &Cx, path: &AbsoluteOwnedPath) -> (r: Result<usize, Errno>)
    ensures
        exists|raw: Result<(), Cx::Error>| #[trigger] cx.mkdir_outcome(path, raw) && r == reported_zero(raw, ENOENT),
{
    let raw = cx.mkdir(path);
    proof {
        assert(cx.mkdir_outcome(path, raw));
    }
    match errno_on_error(raw, ENOENT) {
        Ok(()) => Ok(0),
        Err(e) => Err(e),
    }
}

/// Remove the directory `path`: 0 when the kernel removed it, else
/// `ENOENT`.
pub fn remove_directory<Cx: FileAccess>(cx: &Cx, path: &AbsoluteOwnedPath) -> (r: Result<usize, Errno>)
    ensures
        exists|raw: Result<(), Cx::Error>| #[trigger] cx.rmdir_outcome(path, raw) && r == reported_zero(raw, ENOENT),
{
    let raw = cx.rmdir(path);
    proof {
        assert(cx.rmdir_outcome(path, raw));
    }
    match errno_on_error(raw, ENOENT) {
        Ok(()) => Ok(0),
        Err(e) => Err(e),
    }
}

/// What `getcwd` writes into a buffer of `size` bytes at `buf`: the
/// working directory's bytes and a terminating zero. `EINVAL` for a null or
/// empty buffer or one that leaves userspace, `ERANGE` when the path and its
/// terminator do not fit.
pub fn getcwd_reply(buf: &UserspaceMutPtr<u8>, size: usize, cwd: &AbsoluteOwnedPath) -> (r: Result<Vec<u8>, Errno>)
    ensures
        buf.spec_addr() == 0 || size == 0 ==> r == Err::<Vec<u8>, Errno>(EINVAL),
        buf.spec_addr() != 0 && size != 0 && range_check(buf.spec_addr(), size) is Err ==> r == Err::<
            Vec<u8>,
            Errno,
        >(EINVAL),
        buf.spec_addr() != 0 && size != 0 && range_check(buf.spec_addr(), size) is Ok && size <= cwd.bytes().len()
            ==> r == Err::<Vec<u8>, Errno>(ERANGE),
        r matches Ok(v) ==> v@ == cwd.bytes().push(0u8) && v@.len() <= size,
        buf.spec_addr() != 0 && size != 0 && range_check(buf.spec_addr(), size) is Ok && size > cwd.bytes().len()
            ==> r is Ok,
{
    if buf.addr() == 0 || size == 0 {
        return Err(EINVAL);
    }
    match buf.validate_range(size) {
        Ok(()) => {},
        Err(_) => return Err(EINVAL),
    }
    let bytes = cwd.as_str().as_bytes();
    if size <= bytes.len() {
        return Err(ERANGE);
    }
    let mut out: Vec<u8> = Vec::new();
    let mut i: usize = 0;
    while i < bytes.len()
        invariant
            i <= bytes@.len(),
            out@ == bytes@.subrange(0, i as int),
        decreases bytes@.len() - i,
    {
        out.push(bytes[i]);
        i = i + 1;
    }
    out.push(0);
    assert(out@ =~= cwd.bytes().push(0u8));
    Ok(out)
}

/// Bytes of one I/O vector entry in userspace.
pub const IOVEC_SIZE: usize = 16;

/// Check the I/O vector argument of a vectored write: at most `UIO_MAXIOV`
/// entries, all in userspace; either failure is `EINVAL`.
pub fn writev_check_vector(iov_ptr: &UserspacePtr<iovec>, iovcnt: usize) -> (r: Result<(), Errno>)
    ensures
        iovcnt > UIO_MAXIOV ==> r == Err::<(), Errno>(EINVAL),
        iovcnt <= UIO_MAXIOV ==> (r is Ok <==> range_check(iov_ptr.spec_addr(), (iovcnt * IOVEC_SIZE) as usize) is Ok),
        r is Err ==> r == Err::<(), Errno>(EINVAL),
{
    if iovcnt > UIO_MAXIOV {
        return Err(EINVAL);
    }
    match iov_ptr.validate_range(iovcnt * IOVEC_SIZE) {
        Ok(()) => Ok(()),
        Err(_) => Err(EINVAL),
    }
}

/// The first entry from `i` on with a non-zero length (or the end).
pub open spec fn first_nonempty(iovs: Seq<iovec>, i: int) -> int
    decreases iovs.len() - i,
{
    if 0 <= i < iovs.len() && iovs[i].iov_len == 0 {
        first_nonempty(iovs, i + 1)
    } else {
        i
    }
}

/// Whether the buffer of `iov` lies in userspace.
pub open spec fn buffer_in_userspace(iov: iovec) -> bool {
    iov.iov_base < LOWER_HALF_END && range_check(iov.iov_base, iov.iov_len) is Ok
}

/// The next entry of a vectored write from position `i`: empty entries are
/// skipped, `None` once none is left, `EINVAL` when the next buffer leaves
/// userspace.
pub fn writev_next(iovs: &[iovec], i: usize) -> (r: Result<Option<usize>, Errno>)
    ensures
        ({
            let j = first_nonempty(iovs@, i as int);
            &&& j >= iovs@.len() ==> r == Ok::<Option<usize>, Errno>(None)
            &&& j < iovs@.len() && !buffer_in_userspace(iovs@[j]) ==> r == Err::<Option<usize>, Errno>(EINVAL)
            &&& j < iovs@.len() && buffer_in_userspace(iovs@[j]) ==> r == Ok::<Option<usize>, Errno>(Some(j as usize))
        }),
{
    let mut j: usize = i;
    while j < iovs.len() && iovs[j].iov_len == 0
        invariant
            i <= j,
            first_nonempty(iovs@, i as int) == first_nonempty(iovs@, j as int),
        decreases iovs@.len() - j,
    {
        j = j + 1;
    }
    if j >= iovs.len() {
        return Ok(None);
    }
    let iov = iovs[j];
    let buf = match UserspacePtr::<u8>::try_from_usize(iov.iov_base) {
        Ok(p) => p,
        Err(_) => return Err(EINVAL),
    };
    match buf.validate_range(iov.iov_len) {
        Ok(()) => Ok(Some(j)),
        Err(_) => Err(EINVAL),
    }
}

/// After `written` of `len` bytes of an entry were written: the new total
/// (wrapping), and whether to go on, which a short write stops.
pub fn writev_after_write(total: usize, written: usize, len: usize) -> (r: (usize, bool))
    ensures
        r.0 == total.wrapping_add(written),
        r.1 == (written >= len),
{
    (total.wrapping_add(written), written >= len)
}

} // verus!
