// Finds a wildcard-capable hex byte pattern in a buffer and plans its replacement:
// `pattern` reads pattern strings, `engine` scans and patches buffers, `backup` names the
// backup file, and `session` sequences the read / backup / write steps of patching a file.
use vstd::prelude::*;

pub mod backup;
pub mod engine;
pub mod pattern;
pub mod session;

verus! {

} // verus!
