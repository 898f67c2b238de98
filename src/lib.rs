//! Grid and input arithmetic for a small match-3 sprite demo: where each gem
//! sprite of a board sits, which texture it takes, where the camera looks,
//! and which way the arrow keys push the controlled entity.
use vstd::prelude::*;

pub mod board;
pub mod movement;
pub mod visible;

verus! {

/// The two modes of the application: assets are still loading, or the
/// board is up and input is read.
#[derive(Clone, Copy, Debug, PartialEq, Eq, Structural, Hash)]
pub enum GameStates {
    AssetsLoading,
    Main,
}

} // verus!
