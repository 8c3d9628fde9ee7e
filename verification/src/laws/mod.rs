//! What the operations do, in terms of their inputs and their results.
//!
//! Each law speaks of the results that a call of an operation can give, and says of them what the
//! operation is for, without the functions that its contract is written with.
use vstd::prelude::*;
use vstd::utf8::encode_utf8;

use crate::path::SLASH;

pub mod contents;
pub mod machine;
pub mod processes;
pub mod values;

verus! {

/// Tells whether a path is one of a directory that files can be put behind: it is not empty and
/// does not end in a slash.
pub open spec fn is_directory(path: Seq<u8>) -> bool {
    path.len() > 0 && path.last() != SLASH
}

/// The path of the file of that name in a directory.
pub open spec fn below(directory: Seq<u8>, name: Seq<char>) -> Seq<u8> {
    directory + seq![SLASH] + encode_utf8(name)
}

} // verus!
