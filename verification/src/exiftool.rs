//! Talking to a long-running ExifTool process: the command protocol, the
//! restart policy, reading its JSON answers and reading its write reports.

pub mod extract;
pub mod protocol;
pub mod retry;
pub mod write;
