//! What can go wrong, by stage.

use vstd::prelude::*;

verus! {

/// Why a display tree could not be laid out.
#[derive(Clone, Copy, Debug, PartialEq, Eq, Structural)]
pub enum LayoutError {
    /// Some split of the tree has no children, so its region cannot be divided.
    InvalidTree,
}

/// Why one placement request could not be carried out. None of these ends the
/// run: each concerns a single request.
#[derive(Clone, Copy, Debug, PartialEq, Eq, Structural)]
pub enum PlacementError {
    /// The target rectangle lies outside every known output.
    NoSuchOutput,
    /// The content's application could not be started.
    SpawnFailed,
    /// No window, or more than one, carries the request's window class.
    DiscoveryFailed,
    /// The window's position could not be queried or read.
    MeasurementFailed,
    /// The window manager did not accept the move command.
    MoveCommandFailed,
}

} // verus!
