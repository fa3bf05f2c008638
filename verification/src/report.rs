//! Diagnostics: what is told about a failure, and about whom.

use vstd::prelude::*;
use vstd::string::StringExecFns;
use crate::error::{LayoutError, PlacementError};
use crate::layout::{Placement, PlacementRequest};
use crate::spawn::{window_class, window_class_of};
use crate::text::{digits, push_digits};

verus! {

/// What went wrong, in words.
pub open spec fn layout_message(e: LayoutError) -> Seq<char> {
    match e {
        LayoutError::InvalidTree => "invalid tree: a split has no children"@,
    }
}

/// What went wrong, in words.
pub open spec fn placement_message(e: PlacementError) -> Seq<char> {
    match e {
        PlacementError::NoSuchOutput => "no known output holds the target rectangle"@,
        PlacementError::SpawnFailed => "the application could not be started"@,
        PlacementError::DiscoveryFailed => "the window was not found, or not alone"@,
        PlacementError::MeasurementFailed => "the window's position could not be read"@,
        PlacementError::MoveCommandFailed => "the window manager refused the move"@,
    }
}

/// The diagnostic for a tree that could not be laid out: the monitor, then
/// the message.
pub open spec fn layout_diagnostic_text(monitor: u32, e: LayoutError) -> Seq<char> {
    "monitor "@ + digits(monitor as nat) + ": "@ + layout_message(e)
}

/// The diagnostic for a request that could not be carried out: the monitor,
/// the window class and the content, then the message.
pub open spec fn placement_diagnostic_text(p: Placement, e: PlacementError) -> Seq<char> {
    "monitor "@ + digits(p.identity.monitor as nat) + ", window "@ + window_class(p.identity)
        + ", content "@ + p.content + ": "@ + placement_message(e)
}

impl LayoutError {
    /// What went wrong, in words.
    pub fn message(&self) -> (text: &'static str)
        ensures
            text@ == layout_message(*self),
    {
        match self {
            LayoutError::InvalidTree => "invalid tree: a split has no children",
        }
    }
}

impl PlacementError {
    /// What went wrong, in words.
    pub fn message(&self) -> (text: &'static str)
        ensures
            text@ == placement_message(*self),
    {
        match self {
            PlacementError::NoSuchOutput => "no known output holds the target rectangle",
            PlacementError::SpawnFailed => "the application could not be started",
            PlacementError::DiscoveryFailed => "the window was not found, or not alone",
            PlacementError::MeasurementFailed => "the window's position could not be read",
            PlacementError::MoveCommandFailed => "the window manager refused the move",
        }
    }
}

/// Says which monitor's tree could not be laid out, and why.
pub fn layout_diagnostic(monitor: u32, e: LayoutError) -> (text: String)
    ensures
        text@ == layout_diagnostic_text(monitor, e),
{
    let mut text = String::from_str("monitor ");
    push_digits(&mut text, monitor as u64);
    text.append(": ");
    text.append(e.message());
    assert(text@ =~= layout_diagnostic_text(monitor, e));
    text
}

/// Says which request could not be carried out, and why.
pub fn placement_diagnostic(request: &PlacementRequest, e: PlacementError) -> (text: String)
    ensures
        text@ == placement_diagnostic_text(request@, e),
{
    let mut text = String::from_str("monitor ");
    push_digits(&mut text, request.identity.monitor as u64);
    text.append(", window ");
    let class = window_class_of(&request.identity);
    text.append(class.as_str());
    text.append(", content ");
    text.append(request.content.as_str());
    text.append(": ");
    text.append(e.message());
    assert(text@ =~= placement_diagnostic_text(request@, e));
    text
}

} // verus!
