//! Verified core of a runtime that hot-patches functions of a running process.
//!
//! A patched function is reached through a patch site: a replaceable target
//! together with a counted handle on the library that holds the target's code.
//! When a newer build of the library appears on disk, the watcher loads it,
//! matches its function table against the running one by identity hash, and
//! rebinds every site that both builds know.
//!
//! The crate holds the rules of that protocol as sequential state machines
//! over plain values. Loading libraries, touching the file system and the
//! atomics that let several threads run the protocol belong to the code that
//! embeds this crate.

use vstd::prelude::*;

pub mod abi;
pub mod hotpatch;
pub mod identity;
pub mod lock;
pub mod macros;
pub mod merge;
pub mod os;
pub mod watcher;

pub use crate::hotpatch::LibraryHandle;
pub use crate::lock::{locked, HotpatchLock, LockDir};
pub use crate::macros::expand::hotpatch;
pub use crate::watcher::Watcher;

verus! {

/// Whether a patch is under way in the target directory: whether any process
/// keeps a lock file in the coordination directory `dir`.
pub fn is_hotpatched(dir: &LockDir) -> (patching: bool)
    ensures
        patching == locked(dir@),
{
    HotpatchLock::is_locked(dir)
}

} // verus!
