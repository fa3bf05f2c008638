//! Placement inside a window manager that is not the library's own: the
//! application is started under a class of its own, its window is looked up
//! by that class and measured, and the window manager is told to move it by
//! the difference to the target.
//!
//! The library decides; its caller acts. `step` takes the phase that a
//! request is in and what has just happened, and answers with the next phase
//! and with what to do next. Nothing is kept between requests, and a failure
//! ends one request only.

use vstd::prelude::*;
use vstd::slice::slice_to_vec;
use vstd::string::StringExecFns;
use crate::discover::byte_texts;
use crate::error::PlacementError;
use crate::geometry::Rect;
use crate::layout::{Placement, PlacementRequest};
use crate::measure::{parse_position, position_in};
use crate::spawn::{spawn_arguments, spawn_command, texts, window_class, window_class_of, SpawnCommand};
use crate::text::{digits, push_digits};

verus! {

/// How long a started application is given to show its window, in
/// milliseconds. Nothing signals that the window is there, so this is a
/// plain wait.
pub const SETTLE_DELAY_MS: u64 = 3000;

/// How far the negotiation for one request has come.
#[derive(Clone, Copy, Debug, PartialEq, Eq, Structural)]
pub enum Phase {
    /// Nothing has been done.
    Ready,
    /// The application is being started.
    Spawning,
    /// The application runs; its window is given time to appear.
    Settling,
    /// The window is being looked up by its class.
    Discovering,
    /// The one window found is being measured.
    Measuring,
    /// The window manager is moving the window.
    Moving,
    /// The window was moved to its target.
    Placed,
    /// The negotiation has ended without the window in place.
    Failed(PlacementError),
}

/// What the caller reports back after it has done what it was told.
#[derive(Debug)]
pub enum Event {
    /// The negotiation is to begin.
    Start,
    /// The application was started, or could not be.
    Spawned { ok: bool },
    /// The settle delay is over.
    Settled,
    /// The identifiers of the windows that carry the class.
    Discovered { windows: Vec<Vec<u8>> },
    /// What the measurement tool printed, or nothing if it failed.
    Measured { output: Option<Vec<u8>> },
    /// The window manager accepted the move, or did not.
    Moved { ok: bool },
}

/// The mathematical value of an `Event`.
pub enum Signal {
    Start,
    Spawned { ok: bool },
    Settled,
    Discovered { windows: Seq<Seq<u8>> },
    Measured { output: Option<Seq<u8>> },
    Moved { ok: bool },
}

impl View for Event {
    type V = Signal;

    open spec fn view(&self) -> Signal {
        match self {
            Event::Start => Signal::Start,
            Event::Spawned { ok } => Signal::Spawned { ok: *ok },
            Event::Settled => Signal::Settled,
            Event::Discovered { windows } => Signal::Discovered { windows: byte_texts(windows@) },
            Event::Measured { output } => Signal::Measured {
                output: match output {
                    Some(bytes) => Some(bytes@),
                    None => None,
                },
            },
            Event::Moved { ok } => Signal::Moved { ok: *ok },
        }
    }
}

/// A direction in which the window manager moves a window.
#[derive(Clone, Copy, Debug, PartialEq, Eq, Structural)]
pub enum Direction {
    Left,
    Right,
    Up,
    Down,
}

/// A move by `pixels` in `direction`.
#[derive(Clone, Copy, Debug, PartialEq, Eq, Structural)]
pub struct Shift {
    pub direction: Direction,
    pub pixels: u64,
}

/// The move by `amount`: so many pixels `forward`, or, where the amount is
/// negative, as many `backward` as it lies below zero.
pub open spec fn shift_by(amount: int, forward: Direction, backward: Direction) -> Shift {
    if amount >= 0 {
        Shift { direction: forward, pixels: amount as u64 }
    } else {
        Shift { direction: backward, pixels: (-amount) as u64 }
    }
}

/// The window manager's word for a direction.
pub open spec fn direction_word(direction: Direction) -> Seq<char> {
    match direction {
        Direction::Left => "left"@,
        Direction::Right => "right"@,
        Direction::Up => "up"@,
        Direction::Down => "down"@,
    }
}

/// A move as the window manager reads it: `move right 12 px`.
pub open spec fn shift_text(shift: Shift) -> Seq<char> {
    "move "@ + direction_word(shift.direction) + " "@ + digits(shift.pixels as nat) + " px"@
}

/// A correction as the window manager reads it: the window is picked by its
/// class, made to float, and moved along each axis, as in
/// `[class="firefox_window_1"] floating enable, move left 3 px, move down 0 px`.
pub open spec fn command_text(c: Correction) -> Seq<char> {
    "[class=\""@ + c.class + "\"] floating enable, "@ + shift_text(
        shift_by(c.dx, Direction::Right, Direction::Left),
    ) + ", "@ + shift_text(shift_by(c.dy, Direction::Down, Direction::Up))
}

/// The mathematical value of a `MoveCommand`.
pub struct Correction {
    pub class: Seq<char>,
    pub dx: int,
    pub dy: int,
}

/// Tells the window manager to let the window of class `class` float, and
/// to move it by `dx` to the right and by `dy` down, where a negative amount
/// means the opposite direction.
#[derive(Debug)]
pub struct MoveCommand {
    pub class: String,
    pub dx: i64,
    pub dy: i64,
}

impl View for MoveCommand {
    type V = Correction;

    open spec fn view(&self) -> Correction {
        Correction { class: self.class@, dx: self.dx as int, dy: self.dy as int }
    }
}

/// The move by `amount`, `forward` or `backward`.
fn shift_of(amount: i64, forward: Direction, backward: Direction) -> (shift: Shift)
    ensures
        shift == shift_by(amount as int, forward, backward),
{
    if amount >= 0 {
        Shift { direction: forward, pixels: amount as u64 }
    } else if amount == i64::MIN {
        Shift { direction: backward, pixels: 0x8000_0000_0000_0000u64 }
    } else {
        Shift { direction: backward, pixels: (-amount) as u64 }
    }
}

/// Appends `shift` to `out` in the window manager's words.
fn push_shift(out: &mut String, shift: Shift)
    ensures
        final(out)@ == old(out)@ + shift_text(shift),
{
    out.append("move ");
    match shift.direction {
        Direction::Left => out.append("left"),
        Direction::Right => out.append("right"),
        Direction::Up => out.append("up"),
        Direction::Down => out.append("down"),
    }
    out.append(" ");
    push_digits(out, shift.pixels);
    out.append(" px");
    assert(out@ =~= old(out)@ + shift_text(shift));
}

impl MoveCommand {
    /// The move along the horizontal axis.
    pub fn horizontal(&self) -> (shift: Shift)
        ensures
            shift == shift_by(self.dx as int, Direction::Right, Direction::Left),
    {
        shift_of(self.dx, Direction::Right, Direction::Left)
    }

    /// The move along the vertical axis.
    pub fn vertical(&self) -> (shift: Shift)
        ensures
            shift == shift_by(self.dy as int, Direction::Down, Direction::Up),
    {
        shift_of(self.dy, Direction::Down, Direction::Up)
    }

    /// The command as the window manager reads it.
    pub fn render(&self) -> (text: String)
        ensures
            text@ == command_text(self@),
    {
        let mut text = String::from_str("[class=\"");
        text.append(self.class.as_str());
        text.append("\"] floating enable, ");
        push_shift(&mut text, self.horizontal());
        text.append(", ");
        push_shift(&mut text, self.vertical());
        assert(text@ =~= command_text(self@));
        text
    }
}

/// What the caller is to do next.
#[derive(Debug)]
pub enum Action {
    /// Start the application, without waiting for it.
    Spawn { command: SpawnCommand },
    /// Wait for so many milliseconds.
    Wait { millis: u64 },
    /// Ask which windows carry this class.
    Discover { class: String },
    /// Ask where this window is.
    Measure { window: Vec<u8> },
    /// Hand this command to the window manager.
    Move { correction: MoveCommand },
    /// Report how the request ended; nothing more is to be done for it.
    Finish { outcome: Result<(), PlacementError> },
    /// The event was not the one awaited: do nothing.
    Nothing,
}

/// The mathematical value of an `Action`.
pub enum Order {
    Spawn { program: Seq<char>, arguments: Seq<Seq<char>> },
    Wait { millis: u64 },
    Discover { class: Seq<char> },
    Measure { window: Seq<u8> },
    Move { correction: Correction },
    Finish { outcome: Result<(), PlacementError> },
    Nothing,
}

impl View for Action {
    type V = Order;

    open spec fn view(&self) -> Order {
        match self {
            Action::Spawn { command } => Order::Spawn {
                program: command.program@,
                arguments: texts(command.arguments@),
            },
            Action::Wait { millis } => Order::Wait { millis: *millis },
            Action::Discover { class } => Order::Discover { class: class@ },
            Action::Measure { window } => Order::Measure { window: window@ },
            Action::Move { correction } => Order::Move { correction: correction@ },
            Action::Finish { outcome } => Order::Finish { outcome: *outcome },
            Action::Nothing => Order::Nothing,
        }
    }
}

/// The move that brings a window measured at `(x, y)` to the origin of the
/// rectangle of `p`: the target less what was measured, on each axis.
pub open spec fn correction(p: Placement, x: int, y: int) -> Correction {
    Correction { class: window_class(p.identity), dx: p.rectangle.x - x, dy: p.rectangle.y - y }
}

/// The negotiation ends in failure, for the reason `e`.
pub open spec fn fail(e: PlacementError) -> (Phase, Order) {
    (Phase::Failed(e), Order::Finish { outcome: Err(e) })
}

/// The protocol: the phase that follows `phase` on `signal`, and what is to
/// be done then. A signal that the phase does not await changes nothing and
/// asks for nothing.
pub open spec fn next(p: Placement, phase: Phase, signal: Signal) -> (Phase, Order) {
    match (phase, signal) {
        (Phase::Ready, Signal::Start) => (
            Phase::Spawning,
            Order::Spawn { program: "firefox"@, arguments: spawn_arguments(p) },
        ),
        (Phase::Spawning, Signal::Spawned { ok }) => if ok {
            (Phase::Settling, Order::Wait { millis: SETTLE_DELAY_MS })
        } else {
            fail(PlacementError::SpawnFailed)
        },
        (Phase::Settling, Signal::Settled) => (
            Phase::Discovering,
            Order::Discover { class: window_class(p.identity) },
        ),
        (Phase::Discovering, Signal::Discovered { windows }) => if windows.len() == 1 {
            (Phase::Measuring, Order::Measure { window: windows[0] })
        } else {
            fail(PlacementError::DiscoveryFailed)
        },
        (Phase::Measuring, Signal::Measured { output }) => match output {
            Some(text) => match position_in(text) {
                Some((x, y)) => (Phase::Moving, Order::Move { correction: correction(p, x, y) }),
                None => fail(PlacementError::MeasurementFailed),
            },
            None => fail(PlacementError::MeasurementFailed),
        },
        (Phase::Moving, Signal::Moved { ok }) => if ok {
            (Phase::Placed, Order::Finish { outcome: Ok(()) })
        } else {
            fail(PlacementError::MoveCommandFailed)
        },
        _ => (phase, Order::Nothing),
    }
}

/// What is ordered, one after the other, when `signals` arrive in `phase`.
pub open spec fn orders(p: Placement, phase: Phase, signals: Seq<Signal>) -> Seq<Order>
    decreases signals.len(),
{
    if signals.len() == 0 {
        Seq::empty()
    } else {
        seq![next(p, phase, signals[0]).1] + orders(
            p,
            next(p, phase, signals[0]).0,
            signals.drop_first(),
        )
    }
}

/// How far a window measured at `(x, y)` is from the origin of `target`:
/// the target less what was measured.
pub fn delta(target: &Rect, x: i32, y: i32) -> (d: (i64, i64))
    ensures
        d.0 == target.x - x,
        d.1 == target.y - y,
{
    (target.x as i64 - x as i64, target.y as i64 - y as i64)
}

/// One step of the negotiation for `request`.
pub fn step(request: &PlacementRequest, phase: Phase, event: &Event) -> (then: (Phase, Action))
    ensures
        (then.0, then.1@) == next(request@, phase, event@),
{
    match (phase, event) {
        (Phase::Ready, Event::Start) => (
            Phase::Spawning,
            Action::Spawn { command: spawn_command(request) },
        ),
        (Phase::Spawning, Event::Spawned { ok }) => {
            if *ok {
                (Phase::Settling, Action::Wait { millis: SETTLE_DELAY_MS })
            } else {
                failure(PlacementError::SpawnFailed)
            }
        },
        (Phase::Settling, Event::Settled) => (
            Phase::Discovering,
            Action::Discover { class: window_class_of(&request.identity) },
        ),
        (Phase::Discovering, Event::Discovered { windows }) => {
            if windows.len() == 1 {
                (Phase::Measuring, Action::Measure { window: slice_to_vec(windows[0].as_slice()) })
            } else {
                failure(PlacementError::DiscoveryFailed)
            }
        },
        (Phase::Measuring, Event::Measured { output }) => {
            match output {
                Some(text) => match parse_position(text.as_slice()) {
                    Ok((x, y)) => {
                        let (dx, dy) = delta(&request.rectangle, x, y);
                        let correction = MoveCommand {
                            class: window_class_of(&request.identity),
                            dx,
                            dy,
                        };
                        (Phase::Moving, Action::Move { correction })
                    },
                    Err(e) => failure(e),
                },
                None => failure(PlacementError::MeasurementFailed),
            }
        },
        (Phase::Moving, Event::Moved { ok }) => {
            if *ok {
                (Phase::Placed, Action::Finish { outcome: Ok(()) })
            } else {
                failure(PlacementError::MoveCommandFailed)
            }
        },
        _ => (phase, Action::Nothing),
    }
}

/// The end of a negotiation that failed for the reason `e`.
fn failure(e: PlacementError) -> (then: (Phase, Action))
    ensures
        (then.0, then.1@) == fail(e),
{
    (Phase::Failed(e), Action::Finish { outcome: Err(e) })
}

/// Where exactly one window carries the class, it is measured; where the
/// measurement then holds a position, the window is moved by the target less
/// that position, on each axis.
pub proof fn lemma_single_match_is_corrected(
    p: Placement,
    window: Seq<u8>,
    text: Seq<u8>,
    x: int,
    y: int,
)
    requires
        position_in(text) == Some((x, y)),
    ensures
        next(p, Phase::Discovering, Signal::Discovered { windows: seq![window] }) == (
            Phase::Measuring,
            Order::Measure { window },
        ),
        next(p, Phase::Measuring, Signal::Measured { output: Some(text) }) == (
            Phase::Moving,
            Order::Move {
                correction: Correction {
                    class: window_class(p.identity),
                    dx: p.rectangle.x - x,
                    dy: p.rectangle.y - y,
                },
            },
        ),
{
    assert(seq![window].len() == 1);
    assert(seq![window][0] == window);
}

/// Where no window carries the class, or more than one does, the request
/// fails with `DiscoveryFailed`, and whatever is reported afterwards, no move
/// is ever ordered for it.
pub proof fn lemma_ambiguous_discovery_never_moves(
    p: Placement,
    windows: Seq<Seq<u8>>,
    later: Seq<Signal>,
)
    requires
        windows.len() != 1,
    ensures
        next(p, Phase::Discovering, Signal::Discovered { windows }) == fail(
            PlacementError::DiscoveryFailed,
        ),
        forall|i: int|
            0 <= i < orders(
                p,
                Phase::Discovering,
                seq![Signal::Discovered { windows }] + later,
            ).len() ==> !(#[trigger] orders(
                p,
                Phase::Discovering,
                seq![Signal::Discovered { windows }] + later,
            )[i] is Move),
{
    let signals = seq![Signal::Discovered { windows }] + later;
    let all = orders(p, Phase::Discovering, signals);
    assert(signals[0] == Signal::Discovered { windows });
    assert(signals.drop_first() =~= later);
    lemma_ended_stays_ended(p, Phase::Failed(PlacementError::DiscoveryFailed), later);
    let rest = orders(p, Phase::Failed(PlacementError::DiscoveryFailed), later);
    assert(all == seq![Order::Finish { outcome: Err(PlacementError::DiscoveryFailed) }] + rest);
    assert forall|i: int| 0 <= i < all.len() implies !(#[trigger] all[i] is Move) by {
        if i > 0 {
            assert(all[i] == rest[i - 1]);
        }
    }
}

/// A request that has ended, placed or failed, stays as it is: every later
/// signal is answered with `Nothing`.
pub proof fn lemma_ended_stays_ended(p: Placement, phase: Phase, signals: Seq<Signal>)
    requires
        phase is Placed || phase is Failed,
    ensures
        orders(p, phase, signals).len() == signals.len(),
        forall|i: int|
            0 <= i < signals.len() ==> (#[trigger] orders(p, phase, signals)[i]) == Order::Nothing,
    decreases signals.len(),
{
    if signals.len() > 0 {
        lemma_ended_stays_ended(p, phase, signals.drop_first());
        let rest = orders(p, phase, signals.drop_first());
        assert forall|i: int| 0 <= i < signals.len() implies (#[trigger] orders(
            p,
            phase,
            signals,
        )[i]) == Order::Nothing by {
            if i > 0 {
                assert(orders(p, phase, signals)[i] == rest[i - 1]);
            }
        }
    }
}

/// A move is ordered in one situation only: a single window was found, and
/// its measurement holds a position.
pub proof fn lemma_move_needs_measurement(p: Placement, phase: Phase, signal: Signal)
    requires
        next(p, phase, signal).1 is Move,
    ensures
        phase == Phase::Measuring,
        signal matches Signal::Measured { output: Some(text) } && position_in(text) is Some,
        next(p, phase, signal).0 == Phase::Moving,
{
}

} // verus!
