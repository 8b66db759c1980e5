//! Core of a per-application audio control subsystem.
//!
//! The library tracks and controls the volume and mute state of
//! per-application audio streams ("sessions") spread over several playback
//! devices, keeps a bounded cache of the last observed session state, and
//! detects default-device changes.  All blocking operating-system work
//! (walking the mixer, querying a process image, touching an endpoint)
//! happens outside the library; the library receives those observations as
//! plain values and makes every decision on them: normalising raw session
//! records, resolving process identity, refreshing and pruning the cache,
//! and fanning a volume or mute command out to every live session owned by
//! the same process.

use vstd::prelude::*;

pub mod cache;
pub mod hardware;
pub mod identity;
pub mod manager;
pub mod mixer;
pub mod session;
pub mod text;

verus! {

/// Entry hook kept for the desktop shell's build system; the shell drives
/// the library through `manager::AudioManager` directly.
pub fn run() {
}

} // verus!
