//! Top-level run states of the engine loop around the world core.

use vstd::prelude::*;

verus! {

/// Whether the engine has a live world and is stepping it.
#[derive(Clone, Copy, PartialEq, Eq, Structural, Debug)]
pub enum EngineState {
    Running,
    Paused,
}

/// Whether play is advancing or suspended.
#[derive(Clone, Copy, PartialEq, Eq, Structural, Debug)]
pub enum PlayState {
    Running,
    Paused,
}

} // verus!
