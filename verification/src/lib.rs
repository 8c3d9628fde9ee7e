//! Reading the Linux `/proc` file system.
//!
//! This library holds what is decided and computed about `/proc`: which file is opened and how,
//! what its contents mean, how a failed system call is reported, and how directories of processes,
//! threads and file descriptors are walked. The system calls are made elsewhere; what came of them
//! is handed to the functions here.
pub mod bytes;
pub mod convert;
pub mod encoding;
pub mod error;
pub mod kernel;
pub mod laws;
pub mod number;
pub mod open;
pub mod parse;
pub mod path;
pub mod process;
pub mod procfs;
pub mod runtime;
pub mod sys;
pub mod system_info;
pub mod text;
