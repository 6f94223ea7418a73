//! System call handling: checks on userspace addresses and the file
//! descriptor calls.
pub mod access;
pub mod ptr;
pub mod unistd;
