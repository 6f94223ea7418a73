use std::cell::Cell;

use axiom_kernel::abi::{iovec, Errno, EBADF, EFAULT, EINVAL, ENAMETOOLONG, ENOENT, ESPIPE, PATH_MAX};
use axiom_kernel::vfs::AbsoluteOwnedPath;
use axiom_kernel::syscall::access::FileAccess;
use axiom_kernel::syscall::ptr::{NotUserspace, UserspaceMutPtr, UserspacePtr};
use axiom_kernel::syscall::unistd::{
    check_path_buffer, errno_on_error, fd_result, make_directory, remove_directory, resolve_against, resolve_path_bytes, sys_close, sys_dup, sys_dup2, sys_lseek,
    sys_read, sys_write, writev_after_write, writev_check_vector, writev_next, SEEK_SET,
};

#[test]
fn test_validate_range_valid_small() {
    let ptr = UserspacePtr::<u8>::try_from_usize(0x1000).unwrap();
    assert!(ptr.validate_range(4096).is_ok());
}

#[test]
fn test_validate_range_valid_large() {
    let ptr = UserspacePtr::<u8>::try_from_usize(0x1000_0000).unwrap();
    assert!(ptr.validate_range(0x1000_0000).is_ok());
}

#[test]
fn test_validate_range_zero_size() {
    let ptr = UserspacePtr::<u8>::try_from_usize(0x1000).unwrap();
    assert!(ptr.validate_range(0).is_ok());
}

#[test]
fn test_validate_range_at_boundary() {
    let max_lower_half = (1_usize << 47) - 1;
    let ptr = UserspacePtr::<u8>::try_from_usize(max_lower_half).unwrap();
    assert!(ptr.validate_range(0).is_ok());
    assert!(ptr.validate_range(1).is_err());
}

#[test]
fn test_validate_range_overflow_into_upper_half() {
    let ptr = UserspacePtr::<u8>::try_from_usize(0x0000_7FFF_FFFF_F000).unwrap();
    assert!(ptr.validate_range(0x2000).is_err());
}

#[test]
fn test_validate_range_arithmetic_overflow() {
    let ptr = UserspacePtr::<u8>::try_from_usize(0x0000_7FFF_FFFF_FFFF).unwrap();
    assert!(ptr.validate_range(usize::MAX).is_err());
}

#[test]
fn test_validate_range_near_boundary() {
    let base = 0x0000_7FFF_FFFF_F000_usize;
    let ptr = UserspacePtr::<u8>::try_from_usize(base).unwrap();

    assert!(ptr.validate_range(0xFFF).is_ok());
    assert!(ptr.validate_range(0x1000).is_err());
    assert!(ptr.validate_range(0x2000).is_err());
}

#[test]
fn test_validate_range_from_zero() {
    let ptr = UserspacePtr::<u8>::try_from_usize(0).unwrap();
    let max_lower_half = (1_usize << 47) - 1;
    assert!(ptr.validate_range(max_lower_half).is_ok());
    assert!(ptr.validate_range(1_usize << 47).is_err());
}

#[test]
fn test_validate_range_max_size() {
    let ptr = UserspacePtr::<u8>::try_from_usize(1).unwrap();
    assert!(ptr.validate_range(usize::MAX - 1).is_err());
}

#[test]
fn test_canonical_address_lower_half_max() {
    let max_canonical_lower = 0x0000_7FFF_FFFF_FFFF_usize;
    let result = UserspacePtr::<u8>::try_from_usize(max_canonical_lower);
    assert!(result.is_ok());
}

#[test]
fn test_canonical_address_upper_half_start() {
    let min_canonical_upper = 0xFFFF_8000_0000_0000_usize;
    let result = UserspacePtr::<u8>::try_from_usize(min_canonical_upper);
    assert!(result.is_err());
}

#[test]
fn test_non_canonical_address_rejected() {
    let non_canonical = 0x0000_8000_0000_0000_usize;
    let result = UserspacePtr::<u8>::try_from_usize(non_canonical);
    assert!(result.is_err());
}

#[test]
fn test_address_just_below_boundary() {
    let just_below = 0x0000_7FFF_FFFF_FFFE_usize;
    let result = UserspacePtr::<u8>::try_from_usize(just_below);
    assert!(result.is_ok());

    let ptr = result.unwrap();
    assert!(ptr.validate_range(1).is_ok());
    assert!(ptr.validate_range(2).is_err());
}

#[test]
fn test_address_ranges_in_valid_userspace() {
    let valid_addrs = [
        0x0000_0000_0000_0000_usize,
        0x0000_0000_0000_1000_usize,
        0x0000_0000_1000_0000_usize,
        0x0000_0001_0000_0000_usize,
        0x0000_1000_0000_0000_usize,
        0x0000_7FFF_0000_0000_usize,
        0x0000_7FFF_FFFF_0000_usize,
    ];

    for &addr in &valid_addrs {
        let result = UserspacePtr::<u8>::try_from_usize(addr);
        assert!(result.is_ok(), "Address 0x{:016x} should be valid", addr);
    }
}

#[test]
fn failing_address_is_reported() {
    let ptr = UserspaceMutPtr::<u8>::try_from_usize(0x0000_7FFF_FFFF_F000).unwrap();
    assert_eq!(ptr.addr(), 0x0000_7FFF_FFFF_F000);
    match ptr.validate_range(0x1000) {
        Err(NotUserspace(a)) => assert_eq!(a, 0x0000_8000_0000_0000),
        Ok(()) => panic!("range leaves userspace"),
    }
    match ptr.validate_range(usize::MAX) {
        Err(NotUserspace(a)) => assert_eq!(a, 0x0000_7FFF_FFFF_F000),
        Ok(()) => panic!("range overflows"),
    }
    let errno: Errno = NotUserspace(5).into();
    assert_eq!(errno, EINVAL);
}

/// A file table stand-in: descriptor 3 is open, everything else is not.
struct Files {
    closed: Cell<bool>,
}

impl FileAccess for Files {
    type Fd = i32;
    type Error = ();

    fn read_outcome(&self, fd: i32, len: usize, r: Result<usize, ()>) -> bool {
        if fd == 3 { r == Ok(len) } else { r == Err(()) }
    }

    fn write_outcome(&self, fd: i32, data: &[u8], r: Result<usize, ()>) -> bool {
        if fd == 3 { r == Ok(data.len()) } else { r == Err(()) }
    }

    fn close_outcome(&self, fd: i32, r: Result<(), ()>) -> bool {
        fd == 3 || r == Err(())
    }

    fn lseek_outcome(&self, fd: i32, offset: i64, _whence: i32, r: Result<usize, ()>) -> bool {
        if fd == 3 && offset >= 0 { r == Ok(offset as usize) } else { r == Err(()) }
    }

    fn dup_outcome(&self, fd: i32, r: Result<i32, ()>) -> bool {
        if fd == 3 { r == Ok(4) } else { r == Err(()) }
    }

    fn dup2_outcome(&self, old: i32, new: i32, r: Result<i32, ()>) -> bool {
        if old == 3 { r == Ok(new) } else { r == Err(()) }
    }

    fn mkdir_outcome(&self, path: &AbsoluteOwnedPath, r: Result<(), ()>) -> bool {
        if path.as_str() == "/tmp" { r == Ok(()) } else { r == Err(()) }
    }

    fn rmdir_outcome(&self, path: &AbsoluteOwnedPath, r: Result<(), ()>) -> bool {
        if path.as_str() == "/tmp" { r == Ok(()) } else { r == Err(()) }
    }

    fn read(&self, fd: i32, buf: &mut [u8]) -> Result<usize, ()> {
        if fd != 3 {
            return Err(());
        }
        for b in buf.iter_mut() {
            *b = 0xAB;
        }
        Ok(buf.len())
    }

    fn write(&self, fd: i32, buf: &[u8]) -> Result<usize, ()> {
        if fd == 3 { Ok(buf.len()) } else { Err(()) }
    }

    fn close(&self, fd: i32) -> Result<(), ()> {
        if fd == 3 && !self.closed.get() {
            self.closed.set(true);
            Ok(())
        } else {
            Err(())
        }
    }

    fn lseek(&self, fd: i32, offset: i64, _whence: i32) -> Result<usize, ()> {
        if fd == 3 && offset >= 0 { Ok(offset as usize) } else { Err(()) }
    }

    fn dup(&self, fd: i32) -> Result<i32, ()> {
        if fd == 3 { Ok(4) } else { Err(()) }
    }

    fn dup2(&self, old: i32, new: i32) -> Result<i32, ()> {
        if old == 3 { Ok(new) } else { Err(()) }
    }

    fn mkdir(&self, path: &AbsoluteOwnedPath) -> Result<(), ()> {
        if path.as_str() == "/tmp" { Ok(()) } else { Err(()) }
    }

    fn rmdir(&self, path: &AbsoluteOwnedPath) -> Result<(), ()> {
        if path.as_str() == "/tmp" { Ok(()) } else { Err(()) }
    }
}

#[test]
fn directory_calls_map_failures_to_enoent() {
    let files = Files { closed: Cell::new(false) };
    let tmp = AbsoluteOwnedPath::try_from("/tmp").unwrap();
    let other = AbsoluteOwnedPath::try_from("/other").unwrap();
    assert_eq!(make_directory(&files, &tmp), Ok(0));
    assert_eq!(make_directory(&files, &other), Err(ENOENT));
    assert_eq!(remove_directory(&files, &tmp), Ok(0));
    assert_eq!(remove_directory(&files, &other), Err(ENOENT));
}

#[test]
fn path_bytes_resolve_or_are_rejected() {
    let cwd = AbsoluteOwnedPath::try_from("/home").unwrap();
    assert_eq!(resolve_path_bytes(&cwd, b"docs").unwrap().as_str(), "/home/docs");
    assert_eq!(resolve_path_bytes(&cwd, b"/etc").unwrap().as_str(), "/etc");
    assert_eq!(resolve_path_bytes(&cwd, &[0x66, 0xff, 0x6f]).err(), Some(EINVAL));
}

#[test]
fn file_calls_map_failures_to_errno() {
    let files = Files { closed: Cell::new(false) };
    let mut buf = [0u8; 4];
    assert_eq!(sys_read(&files, 3, &mut buf), Ok(4));
    assert_eq!(buf, [0xAB; 4]);
    assert_eq!(sys_read(&files, 9, &mut buf), Err(EINVAL));
    assert_eq!(sys_write(&files, 3, b"hi"), Ok(2));
    assert_eq!(sys_write(&files, 9, b"hi"), Err(EINVAL));
    assert_eq!(sys_lseek(&files, 3, 10, SEEK_SET), Ok(10));
    assert_eq!(sys_lseek(&files, 3, -1, SEEK_SET), Err(ESPIPE));
    assert_eq!(sys_dup(&files, 3), Ok(4));
    assert_eq!(sys_dup(&files, 5), Err(EBADF));
    assert_eq!(sys_dup2(&files, 3, 10), Ok(10));
    assert_eq!(sys_dup2(&files, 5, 10), Err(EBADF));
    assert_eq!(sys_close(&files, 3), Ok(0));
    assert_eq!(sys_close(&files, 3), Err(EBADF));
}

#[test]
fn errno_helpers() {
    assert_eq!(errno_on_error::<u8, ()>(Ok(7), EINVAL), Ok(7));
    assert_eq!(errno_on_error::<u8, ()>(Err(()), EINVAL), Err(EINVAL));
    assert_eq!(fd_result::<()>(Ok(-1)), Ok(usize::MAX));
    assert_eq!(fd_result::<()>(Err(())), Err(EBADF));
}

#[test]
fn path_arguments_are_checked_and_resolved() {

    let p = UserspacePtr::<u8>::try_from_usize(0x1000).unwrap();
    assert_eq!(check_path_buffer(&p, PATH_MAX + 1), Err(ENAMETOOLONG));
    assert_eq!(check_path_buffer(&p, 16), Ok(()));
    let edge = UserspacePtr::<u8>::try_from_usize(0x0000_7FFF_FFFF_FFF0).unwrap();
    assert_eq!(check_path_buffer(&edge, 0x100), Err(EFAULT));

    let cwd: AbsoluteOwnedPath = "/home/user".try_into().unwrap();
    assert_eq!(resolve_against(&cwd, "docs").as_str(), "/home/user/docs");
    assert_eq!(resolve_against(&cwd, "/etc").as_str(), "/etc");
}

#[test]
fn writev_steps() {

    let iovs = [
        iovec { iov_base: 0x1000, iov_len: 0 },
        iovec { iov_base: 0x2000, iov_len: 8 },
        iovec { iov_base: 0xFFFF_8000_0000_0000, iov_len: 4 },
    ];
    assert_eq!(writev_next(&iovs, 0), Ok(Some(1)));
    assert_eq!(writev_next(&iovs, 2), Err(EINVAL));
    assert_eq!(writev_next(&iovs, 3), Ok(None));
    assert_eq!(writev_after_write(10, 8, 8), (18, true));
    assert_eq!(writev_after_write(10, 3, 8), (13, false));

    let vec_ptr = UserspacePtr::<iovec>::try_from_usize(0x4000).unwrap();
    assert_eq!(writev_check_vector(&vec_ptr, 3), Ok(()));
    assert_eq!(writev_check_vector(&vec_ptr, 1025), Err(EINVAL));
}

#[test]
fn test_getcwd() {
    for ((path, size), expected) in [
        (("/test/path", 0usize), Err(axiom_kernel::abi::EINVAL)),
        (("/test/path", 10), Err(axiom_kernel::abi::ERANGE)),
        (("/test/path", 11), Ok(())),
    ] {
        let cwd = AbsoluteOwnedPath::try_from(path).unwrap();
        let buf = UserspaceMutPtr::<u8>::try_from_usize(0x1000).unwrap();
        let res = axiom_kernel::syscall::unistd::getcwd_reply(&buf, size, &cwd);
        match expected {
            Ok(()) => {
                let bytes = res.expect("reply");
                assert_eq!(&bytes[..path.len()], path.as_bytes());
                assert_eq!(0, bytes[path.len()]);
            }
            Err(e) => assert_eq!(res, Err(e)),
        }
    }
}
