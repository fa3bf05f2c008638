//! From the monitors that are connected and the trees configured for them to
//! the placement requests of a run.

use std::collections::HashMap;
use vstd::prelude::*;
use vstd::string::StringExecFns;
use crate::direct::Monitor;
use crate::error::LayoutError;
use crate::geometry::Rect;
use crate::layout::{arrange, layout, placements_of, Placement, PlacementRequest};
use crate::tiling::lemma_arrange_tiles;
use crate::tree::{DisplayNode, Tree};

verus! {

/// What is to happen on one monitor.
#[derive(Debug)]
pub enum MonitorPlan {
    /// No tree is configured for the monitor: it is left as it is.
    Untouched,
    /// The requests that lay the monitor's tree out over its rectangle.
    Requests(Vec<PlacementRequest>),
    /// The monitor's tree cannot be laid out. Other monitors are not affected.
    Rejected(LayoutError),
}

/// The mathematical value of a `MonitorPlan`.
pub enum Outcome {
    Untouched,
    Requests(Seq<Placement>),
    Rejected(LayoutError),
}

impl View for MonitorPlan {
    type V = Outcome;

    open spec fn view(&self) -> Outcome {
        match self {
            MonitorPlan::Untouched => Outcome::Untouched,
            MonitorPlan::Requests(requests) => Outcome::Requests(placements_of(requests@)),
            MonitorPlan::Rejected(e) => Outcome::Rejected(*e),
        }
    }
}

/// What `configuration` asks for on `monitor`: nothing where it names no
/// tree for the monitor's id; else the layout of that tree over the monitor's
/// rectangle, or the reason why it has none.
pub open spec fn outcome_for(monitor: Monitor, configuration: Map<u32, DisplayNode>) -> Outcome {
    if !configuration.contains_key(monitor.id) {
        Outcome::Untouched
    } else if configuration[monitor.id]@.valid() {
        Outcome::Requests(
            arrange(configuration[monitor.id]@, monitor.rectangle, monitor.id, Seq::empty()),
        )
    } else {
        Outcome::Rejected(LayoutError::InvalidTree)
    }
}

/// No two monitors of `monitors` share an id.
pub open spec fn distinct_ids(monitors: Seq<Monitor>) -> bool {
    forall|i: int, j: int|
        0 <= i < j < monitors.len() ==> (#[trigger] monitors[i]).id != (#[trigger] monitors[j]).id
}

/// Decides `distinct_ids`.
pub fn have_distinct_ids(monitors: &Vec<Monitor>) -> (distinct: bool)
    ensures
        distinct == distinct_ids(monitors@),
{
    let mut j: usize = 0;
    while j < monitors.len()
        invariant
            j <= monitors.len(),
            forall|a: int, b: int|
                0 <= a < b < j ==> (#[trigger] monitors[a]).id != (#[trigger] monitors[b]).id,
        decreases monitors.len() - j,
    {
        let mut i: usize = 0;
        while i < j
            invariant
                i <= j < monitors.len(),
                forall|a: int| 0 <= a < i ==> (#[trigger] monitors[a]).id != monitors[j as int].id,
            decreases j - i,
        {
            if monitors[i].id == monitors[j].id {
                return false;
            }
            i += 1;
        }
        j += 1;
    }
    true
}

/// The rectangle that stands for a screen where no output is known.
pub open spec fn fallback() -> Rect {
    Rect { x: 0, y: 0, width: 800, height: 600 }
}

/// The monitors to plan for: the known `outputs`; or, where none is known,
/// one assumed monitor for each of `configured`, the ids that the
/// configuration names, each with the fallback rectangle.
pub fn monitors_or_fallback(outputs: Vec<Monitor>, configured: &Vec<u32>) -> (monitors: Vec<
    Monitor,
>)
    ensures
        outputs.len() > 0 ==> monitors@ == outputs@,
        outputs.len() == 0 ==> monitors.len() == configured.len() && forall|i: int|
            0 <= i < configured.len() ==> (#[trigger] monitors[i]) == (Monitor {
                id: configured[i],
                rectangle: fallback(),
            }),
{
    if outputs.len() > 0 {
        return outputs;
    }
    let mut monitors: Vec<Monitor> = Vec::new();
    let mut i: usize = 0;
    while i < configured.len()
        invariant
            i <= configured.len(),
            monitors.len() == i,
            forall|j: int|
                0 <= j < i ==> (#[trigger] monitors[j]) == (Monitor {
                    id: configured[j],
                    rectangle: fallback(),
                }),
        decreases configured.len() - i,
    {
        monitors.push(Monitor { id: configured[i], rectangle: Rect::new(0, 0, 800, 600) });
        i += 1;
    }
    monitors
}

/// Plans every monitor of `monitors`, in their order, from the trees that
/// `configuration` holds under the monitors' ids. An invalid tree spoils the
/// plan of its own monitor only.
pub fn plan(monitors: &Vec<Monitor>, configuration: &HashMap<u32, DisplayNode>) -> (plans: Vec<
    MonitorPlan,
>)
    requires
        forall|i: int| 0 <= i < monitors.len() ==> (#[trigger] monitors[i]).rectangle.valid(),
    ensures
        plans.len() == monitors.len(),
        forall|i: int|
            0 <= i < monitors.len() ==> (#[trigger] plans[i])@ == outcome_for(
                monitors[i],
                configuration@,
            ),
{
    broadcast use vstd::std_specs::hash::group_hash_axioms;

    let mut plans: Vec<MonitorPlan> = Vec::new();
    let mut i: usize = 0;
    while i < monitors.len()
        invariant
            i <= monitors.len(),
            plans.len() == i,
            forall|j: int| 0 <= j < monitors.len() ==> (#[trigger] monitors[j]).rectangle.valid(),
            forall|j: int|
                0 <= j < i ==> (#[trigger] plans[j])@ == outcome_for(monitors[j], configuration@),
        decreases monitors.len() - i,
    {
        let monitor = monitors[i];
        let planned = match configuration.get(&monitor.id) {
            None => MonitorPlan::Untouched,
            Some(root) => match layout(root, monitor.rectangle, monitor.id) {
                Ok(requests) => MonitorPlan::Requests(requests),
                Err(e) => MonitorPlan::Rejected(e),
            },
        };
        assert(planned@ == outcome_for(monitor, configuration@));
        plans.push(planned);
        i += 1;
    }
    plans
}

/// The configuration that shows `reference`, undivided, on every monitor of
/// `monitors`.
pub fn default_configuration(monitors: &Vec<Monitor>, reference: &str) -> (configuration: HashMap<
    u32,
    DisplayNode,
>)
    ensures
        forall|id: u32|
            configuration@.contains_key(id) <==> exists|i: int|
                0 <= i < monitors.len() && (#[trigger] monitors[i]).id == id,
        forall|id: u32|
            configuration@.contains_key(id) ==> (#[trigger] configuration@[id])@ == (Tree::Content {
                reference: reference@,
            }),
{
    broadcast use vstd::std_specs::hash::group_hash_axioms;

    let mut configuration: HashMap<u32, DisplayNode> = HashMap::new();
    let mut i: usize = 0;
    while i < monitors.len()
        invariant
            i <= monitors.len(),
            forall|id: u32|
                configuration@.contains_key(id) <==> exists|j: int|
                    0 <= j < i && (#[trigger] monitors[j]).id == id,
            forall|id: u32|
                configuration@.contains_key(id) ==> (#[trigger] configuration@[id])@
                    == (Tree::Content { reference: reference@ }),
        decreases monitors.len() - i,
    {
        let ghost before = configuration@;
        let node = DisplayNode::content(String::from_str(reference));
        configuration.insert(monitors[i].id, node);
        proof {
            assert forall|id: u32| configuration@.contains_key(id) implies exists|j: int|
                0 <= j < i + 1 && (#[trigger] monitors[j]).id == id by {
                if id == monitors[i as int].id {
                    assert(monitors[i as int].id == id);
                } else {
                    assert(before.contains_key(id));
                    let j = choose|j: int| 0 <= j < i && (#[trigger] monitors[j]).id == id;
                    assert(monitors[j].id == id);
                }
            }
            assert forall|id: u32|
                (exists|j: int| 0 <= j < i + 1 && (#[trigger] monitors[j]).id == id)
                    implies configuration@.contains_key(id) by {
                let j = choose|j: int| 0 <= j < i + 1 && (#[trigger] monitors[j]).id == id;
                if j < i {
                    assert(monitors[j].id == id);
                    assert(before.contains_key(id));
                }
            }
        }
        i += 1;
    }
    configuration
}

/// Across a run no two requests share an identity: the requests planned for
/// monitors of different ids differ in their identities, whatever the trees.
pub proof fn lemma_monitors_apart(
    first: Monitor,
    second: Monitor,
    configuration: Map<u32, DisplayNode>,
    i: int,
    j: int,
)
    requires
        first.id != second.id,
        first.rectangle.valid(),
        second.rectangle.valid(),
        outcome_for(first, configuration) is Requests,
        outcome_for(second, configuration) is Requests,
        0 <= i < outcome_for(first, configuration)->Requests_0.len(),
        0 <= j < outcome_for(second, configuration)->Requests_0.len(),
    ensures
        outcome_for(first, configuration)->Requests_0[i].identity != outcome_for(
            second,
            configuration,
        )->Requests_0[j].identity,
{
    let ps = outcome_for(first, configuration)->Requests_0;
    let qs = outcome_for(second, configuration)->Requests_0;
    lemma_arrange_tiles(configuration[first.id]@, first.rectangle, first.id, Seq::empty());
    lemma_arrange_tiles(configuration[second.id]@, second.rectangle, second.id, Seq::empty());
    assert(ps[i].identity.monitor == first.id);
    assert(qs[j].identity.monitor == second.id);
}

} // verus!
