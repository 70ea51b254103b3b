//! Moves byte objects between named storage locations. A profile store
//! maps human-chosen names to backend configurations; a location
//! resolver splits `profile:path` strings and constructs the operator
//! description the profile declares; a transfer engine streams one
//! object from a source to a destination through a fixed-capacity
//! buffer and makes the destination visible only by an explicit
//! finalize step. The engine's decisions are a verified state machine
//! that any I/O driver can run; an in-memory backend runs it end to
//! end, with the copy proved byte-exact.

use vstd::prelude::*;

pub mod config;
pub mod location;
pub mod memstore;
pub mod order;
pub mod session;
pub mod view;

verus! {

/// Capacity of the staging buffer a transfer interposes between the
/// source reader and the destination writer: bounds peak memory for
/// arbitrarily large objects.
pub const BUFFER_CAPACITY: usize = 8 * 1024 * 1024;

} // verus!
