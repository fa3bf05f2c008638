//! How the content's application is started: the class that marks its window,
//! and the command line.

use vstd::prelude::*;
use vstd::string::StringExecFns;
use crate::geometry::Rect;
use crate::layout::{indices, Address, Identity, Placement, PlacementRequest};
use crate::text::{decimal, decimal_text, digits, push_decimal, push_digits};

verus! {

/// The mathematical value of a sequence of texts.
pub open spec fn texts(strings: Seq<String>) -> Seq<Seq<char>> {
    strings.map_values(|s: String| s@)
}

/// The child indices of `path`, each behind an underscore.
pub open spec fn path_suffix(path: Seq<nat>) -> Seq<char>
    decreases path.len(),
{
    if path.len() == 0 {
        Seq::empty()
    } else {
        path_suffix(path.drop_last()) + seq!['_'] + digits(path.last())
    }
}

/// The window class of the leaf at `a`: a fixed prefix, the monitor, and the
/// child indices of the path, as in `firefox_window_1_0_2`.
pub open spec fn window_class(a: Address) -> Seq<char> {
    "firefox_window_"@ + digits(a.monitor as nat) + path_suffix(a.path)
}

/// The geometry argument for `rect`: `WxH+X+Y`.
pub open spec fn geometry_text(rect: Rect) -> Seq<char> {
    decimal(rect.width as int) + seq!['x'] + decimal(rect.height as int) + seq!['+'] + decimal(
        rect.x as int,
    ) + seq!['+'] + decimal(rect.y as int)
}

/// The arguments with which the application is started for `p`: a new window
/// on the content, under the class of `p`, with the size and the geometry of
/// the rectangle.
pub open spec fn spawn_arguments(p: Placement) -> Seq<Seq<char>> {
    seq![
        "--new-window"@,
        p.content,
        "--class"@,
        window_class(p.identity),
        "--width"@,
        decimal(p.rectangle.width as int),
        "--height"@,
        decimal(p.rectangle.height as int),
        "--geometry"@,
        geometry_text(p.rectangle),
    ]
}

/// A program and the arguments to start it with.
#[derive(Debug)]
pub struct SpawnCommand {
    pub program: String,
    pub arguments: Vec<String>,
}

/// The class that tells the window of `identity` from every other window.
pub fn window_class_of(identity: &Identity) -> (class: String)
    ensures
        class@ == window_class(identity@),
{
    let mut class = String::from_str("firefox_window_");
    push_digits(&mut class, identity.monitor as u64);
    let ghost head = class@;
    let ghost path = indices(identity.path@);
    let mut i: usize = 0;
    assert(class@ =~= head + path_suffix(path.take(0)));
    while i < identity.path.len()
        invariant
            i <= identity.path.len(),
            path == indices(identity.path@),
            class@ == head + path_suffix(path.take(i as int)),
        decreases identity.path.len() - i,
    {
        proof {
            reveal_strlit("_");
        }
        class.append("_");
        push_digits(&mut class, identity.path[i] as u64);
        proof {
            let longer = path.take(i + 1);
            assert(longer.drop_last() =~= path.take(i as int));
            assert(longer.last() == identity.path@[i as int] as nat);
            assert(class@ =~= head + path_suffix(longer));
        }
        i += 1;
    }
    assert(path.take(identity.path.len() as int) =~= path);
    class
}

/// The geometry argument for `rect`.
pub fn geometry_argument(rect: &Rect) -> (text: String)
    ensures
        text@ == geometry_text(*rect),
{
    proof {
        reveal_strlit("x");
        reveal_strlit("+");
    }
    let mut text = String::new();
    push_decimal(&mut text, rect.width as i64);
    text.append("x");
    push_decimal(&mut text, rect.height as i64);
    text.append("+");
    push_decimal(&mut text, rect.x as i64);
    text.append("+");
    push_decimal(&mut text, rect.y as i64);
    assert(text@ =~= geometry_text(*rect));
    text
}

/// The command that starts the content's application for `request`.
pub fn spawn_command(request: &PlacementRequest) -> (command: SpawnCommand)
    ensures
        command.program@ == "firefox"@,
        texts(command.arguments@) == spawn_arguments(request@),
{
    let mut arguments: Vec<String> = Vec::new();
    arguments.push(String::from_str("--new-window"));
    arguments.push(request.content.clone());
    arguments.push(String::from_str("--class"));
    arguments.push(window_class_of(&request.identity));
    arguments.push(String::from_str("--width"));
    arguments.push(decimal_text(request.rectangle.width as i64));
    arguments.push(String::from_str("--height"));
    arguments.push(decimal_text(request.rectangle.height as i64));
    arguments.push(String::from_str("--geometry"));
    arguments.push(geometry_argument(&request.rectangle));
    assert(texts(arguments@) =~= spawn_arguments(request@));
    SpawnCommand { program: String::from_str("firefox"), arguments }
}

} // verus!
