//! Local service supervisor and data-migration engine for the Moondream
//! desktop launcher.
//!
//! The launcher's job is to resolve the persisted settings record, apply at
//! most one pending data-directory migration, choose the data directory and
//! an ephemeral port, build the environment for the server and worker child
//! processes, gate worker startup on a health probe, and tear both processes
//! down exactly once on shutdown.  Everything here is pure logic on plain
//! values; the thin shell that touches the real file system, network and
//! processes lives outside this crate and calls into it.

pub mod disk;
pub mod json;
pub mod launch;
pub mod migrate;
pub mod probe;
pub mod resolve;
pub mod settings;
pub mod state;
pub mod text;

use vstd::prelude::*;

verus! {

/// Port used when the operating system cannot supply an ephemeral one, so
/// startup never aborts solely because allocation failed.
pub const FALLBACK_PORT: u16 = 3210;

/// The port the server should listen on: the freshly bound ephemeral port
/// when one could be obtained, and the fixed fallback otherwise.
pub fn port_or_fallback(bound: Option<u16>) -> (r: u16)
    ensures
        bound is Some ==> r == bound->0,
        bound is None ==> r == FALLBACK_PORT,
{
    match bound {
        Some(p) => p,
        None => FALLBACK_PORT,
    }
}

} // verus!
