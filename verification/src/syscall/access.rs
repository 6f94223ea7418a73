//! What the system calls need from the rest of the kernel.
use vstd::prelude::*;

use crate::vfs::AbsoluteOwnedPath;

verus! {

/// Access to open files, implemented by the kernel for the calling process.
///
/// What an operation returns is the kernel's business: each kernel names
/// the results it may give with one relation per operation, tied to the
/// arguments the operation was handed and to nothing else.
pub trait FileAccess {
    /// A file descriptor, convertible to its number.
    type Fd: Into<i32>;

    /// Why an operation failed.
    type Error;

    /// `r` is a result this kernel may give to a read of `len` bytes from `fd`.
    spec fn read_outcome(&self, fd: Self::Fd, len: usize, r: Result<usize, Self::Error>) -> bool;

    /// `r` is a result this kernel may give to a write of `data` to `fd`.
    spec fn write_outcome(&self, fd: Self::Fd, data: &[u8], r: Result<usize, Self::Error>) -> bool;

    /// `r` is a result this kernel may give to closing `fd`.
    spec fn close_outcome(&self, fd: Self::Fd, r: Result<(), Self::Error>) -> bool;

    /// `r` is a result this kernel may give to moving the offset of `fd`.
    spec fn lseek_outcome(&self, fd: Self::Fd, offset: i64, whence: i32, r: Result<usize, Self::Error>) -> bool;

    /// `r` is a result this kernel may give to duplicating `fd`.
    spec fn dup_outcome(&self, fd: Self::Fd, r: Result<Self::Fd, Self::Error>) -> bool;

    /// `r` is a result this kernel may give to duplicating `old` onto `new`.
    spec fn dup2_outcome(&self, old: Self::Fd, new: Self::Fd, r: Result<Self::Fd, Self::Error>) -> bool;

    /// `r` is a result this kernel may give to creating the directory `path`.
    spec fn mkdir_outcome(&self, path: &AbsoluteOwnedPath, r: Result<(), Self::Error>) -> bool;

    /// `r` is a result this kernel may give to removing the directory `path`.
    spec fn rmdir_outcome(&self, path: &AbsoluteOwnedPath, r: Result<(), Self::Error>) -> bool;

    /// Read into `buf`, returning the number of bytes read.
    fn read(&self, fd: Self::Fd, buf: &mut [u8]) -> (r: Result<usize, Self::Error>)
        ensures
            self.read_outcome(fd, old(buf)@.len() as usize, r),
            final(buf)@.len() == old(buf)@.len(),
    ;

    /// Write `buf`, returning the number of bytes written.
    fn write(&self, fd: Self::Fd, buf: &[u8]) -> (r: Result<usize, Self::Error>)
        ensures
            self.write_outcome(fd, buf, r),
    ;

    /// Close a descriptor.
    fn close(&self, fd: Self::Fd) -> (r: Result<(), Self::Error>)
        ensures
            self.close_outcome(fd, r),
    ;

    /// Move the file offset, returning the new offset.
    fn lseek(&self, fd: Self::Fd, offset: i64, whence: i32) -> (r: Result<usize, Self::Error>)
        ensures
            self.lseek_outcome(fd, offset, whence, r),
    ;

    /// Duplicate a descriptor onto the lowest free number.
    fn dup(&self, fd: Self::Fd) -> (r: Result<Self::Fd, Self::Error>)
        ensures
            self.dup_outcome(fd, r),
    ;

    /// Duplicate `old` onto `new`.
    fn dup2(&self, old: Self::Fd, new: Self::Fd) -> (r: Result<Self::Fd, Self::Error>)
        ensures
            self.dup2_outcome(old, new, r),
    ;

    /// Create the directory `path`.
    fn mkdir(&self, path: &AbsoluteOwnedPath) -> (r: Result<(), Self::Error>)
        ensures
            self.mkdir_outcome(path, r),
    ;

    /// Remove the directory `path`.
    fn rmdir(&self, path: &AbsoluteOwnedPath) -> (r: Result<(), Self::Error>)
        ensures
            self.rmdir_outcome(path, r),
    ;
}

} // verus!
