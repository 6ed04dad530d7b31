//! Device identity reconfiguration: locating the application's configuration
//! store, reading and regenerating the identity fields kept there, and
//! neutralising the hardware probe in the application's script bundle.
//!
//! - `paths`: the ordered candidate locations of the store and the choice
//!   among those that exist.
//! - `store`: the store's JSON document, the identity read from it and the
//!   document a reset writes.
//! - `identity`: the formats of the identity fields and their generation.
//! - `probe`: the rewrite of the hardware probe and its backup marker.
//! - `ops`: the inspect and reset operations.
//! - `install`, `process`: what is shown of an installation, and the
//!   decisions behind relaunching the application and detecting it.
//!
//! File, environment and process access stay with the caller, which hands
//! these functions what it read and carries out what they decide.

pub mod model;
pub mod paths;
pub mod store;
pub mod identity;
pub mod probe;
pub mod ops;
pub mod install;
pub mod process;
