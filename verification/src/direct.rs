//! Placement where the window geometry is the library's own to set: the model
//! of outputs and windows, and the direct strategy that writes to it.

use vstd::prelude::*;
use crate::error::PlacementError;
use crate::geometry::Rect;
use crate::layout::{indices, placements_of, Address, Identity, Placement, PlacementRequest};

verus! {

/// One output: a stable identifier and the logical rectangle it shows.
#[derive(Clone, Copy, Debug, PartialEq, Eq, Structural)]
pub struct Monitor {
    pub id: u32,
    pub rectangle: Rect,
}

/// The geometry that a window was given.
struct Window {
    identity: Identity,
    rectangle: Rect,
}

/// The outputs that are known, and the geometry recorded for each window that
/// was placed. The outputs are fixed when the model is made; the geometry
/// changes only through `place_direct`.
pub struct OutputModel {
    outputs: Vec<Monitor>,
    windows: Vec<Window>,
}

/// Some output of `outputs` holds all of `rect`.
pub open spec fn on_some_output(outputs: Seq<Monitor>, rect: Rect) -> bool {
    exists|i: int| 0 <= i < outputs.len() && rect.within((#[trigger] outputs[i]).rectangle)
}

/// The recorded geometry after the direct strategy has dealt with `p`: the
/// rectangle of `p` stands under the identity of `p` if some output holds it,
/// and nothing has changed if none does.
pub open spec fn placed(outputs: Seq<Monitor>, geometry: Map<Address, Rect>, p: Placement) -> Map<
    Address,
    Rect,
> {
    if on_some_output(outputs, p.rectangle) {
        geometry.insert(p.identity, p.rectangle)
    } else {
        geometry
    }
}

/// Whether the two identities name the same leaf.
pub fn same_identity(a: &Identity, b: &Identity) -> (same: bool)
    ensures
        same == (a@ == b@),
{
    if a.monitor != b.monitor || a.path.len() != b.path.len() {
        assert(a@ != b@) by {
            assert(indices(a.path@).len() == a.path@.len());
            assert(indices(b.path@).len() == b.path@.len());
        }
        return false;
    }
    let mut i: usize = 0;
    while i < a.path.len()
        invariant
            i <= a.path.len(),
            a.path.len() == b.path.len(),
            a.monitor == b.monitor,
            forall|j: int| 0 <= j < i ==> a.path@[j] == b.path@[j],
        decreases a.path.len() - i,
    {
        if a.path[i] != b.path[i] {
            assert(indices(a.path@)[i as int] != indices(b.path@)[i as int]);
            return false;
        }
        i += 1;
    }
    assert(indices(a.path@) =~= indices(b.path@));
    true
}

impl OutputModel {
    #[verifier::type_invariant]
    spec fn distinct_windows(self) -> bool {
        forall|i: int, j: int|
            0 <= i < j < self.windows.len() ==> (#[trigger] self.windows[i]).identity@
                != (#[trigger] self.windows[j]).identity@
    }

    /// The known outputs, in the order in which they were given.
    pub closed spec fn outputs(&self) -> Seq<Monitor> {
        self.outputs@
    }

    /// The windows that were placed, each with the rectangle it was given last.
    pub closed spec fn geometry(&self) -> Map<Address, Rect> {
        Map::new(
            |a: Address| self.index_of(a) is Some,
            |a: Address| self.windows[self.index_of(a).unwrap()].rectangle,
        )
    }

    /// Where in `windows` the window named `a` is recorded.
    spec fn index_of(&self, a: Address) -> Option<int> {
        if exists|i: int| 0 <= i < self.windows.len() && (#[trigger] self.windows[i]).identity@ == a {
            Some(
                choose|i: int|
                    0 <= i < self.windows.len() && (#[trigger] self.windows[i]).identity@ == a,
            )
        } else {
            None
        }
    }

    /// A model of the given outputs in which no window has been placed.
    pub fn new(outputs: Vec<Monitor>) -> (model: OutputModel)
        ensures
            model.outputs() == outputs@,
            model.geometry() == Map::<Address, Rect>::empty(),
    {
        let model = OutputModel { outputs, windows: Vec::new() };
        assert(model.geometry() =~= Map::<Address, Rect>::empty());
        model
    }

    /// The known outputs.
    pub fn current_outputs(&self) -> (outputs: &Vec<Monitor>)
        ensures
            outputs@ == self.outputs(),
    {
        &self.outputs
    }

    /// Whether some known output holds all of `rect`.
    pub fn has_output_for(&self, rect: &Rect) -> (found: bool)
        ensures
            found == on_some_output(self.outputs(), *rect),
    {
        let mut i: usize = 0;
        while i < self.outputs.len()
            invariant
                i <= self.outputs.len(),
                forall|j: int| 0 <= j < i ==> !rect.within((#[trigger] self.outputs@[j]).rectangle),
            decreases self.outputs.len() - i,
        {
            if rect.is_within(&self.outputs[i].rectangle) {
                return true;
            }
            i += 1;
        }
        false
    }

    /// The position in `windows` of the window named by `identity`.
    fn find(&self, identity: &Identity) -> (at: Option<usize>)
        ensures
            match at {
                Some(i) => i < self.windows.len() && self.windows[i as int].identity@
                    == identity@ && self.index_of(identity@) == Some(i as int),
                None => self.index_of(identity@) is None,
            },
    {
        proof {
            use_type_invariant(self);
        }
        let mut i: usize = 0;
        while i < self.windows.len()
            invariant
                i <= self.windows.len(),
                self.distinct_windows(),
                forall|j: int| 0 <= j < i ==> (#[trigger] self.windows[j]).identity@ != identity@,
            decreases self.windows.len() - i,
        {
            if same_identity(&self.windows[i].identity, identity) {
                proof {
                    let found = self.index_of(identity@);
                    assert(self.windows[i as int].identity@ == identity@);
                    assert(found is Some);
                    assert(self.windows[found.unwrap()].identity@ == identity@);
                    assert(found.unwrap() == i);
                }
                return Some(i);
            }
            i += 1;
        }
        None
    }

    /// The rectangle recorded for the window named by `identity`, if it was
    /// placed.
    pub fn geometry_of(&self, identity: &Identity) -> (rect: Option<Rect>)
        ensures
            rect is Some <==> self.geometry().contains_key(identity@),
            rect matches Some(r) ==> r == self.geometry()[identity@],
    {
        match self.find(identity) {
            Some(i) => Some(self.windows[i].rectangle),
            None => None,
        }
    }

    /// In a model without repeated identities, a window is recorded where its
    /// identity is found.
    proof fn lemma_index_of(&self, at: int)
        requires
            self.distinct_windows(),
            0 <= at < self.windows.len(),
        ensures
            self.index_of(self.windows[at].identity@) == Some(at),
    {
        let found = self.index_of(self.windows[at].identity@);
        assert(found is Some);
        assert(self.windows[found.unwrap()].identity@ == self.windows[at].identity@);
    }

    /// Records `rectangle` as the geometry of the window named by `identity`.
    fn record(&mut self, identity: &Identity, rectangle: Rect)
        ensures
            final(self).outputs() == old(self).outputs(),
            final(self).geometry() == old(self).geometry().insert(identity@, rectangle),
    {
        proof {
            use_type_invariant(&*self);
        }
        let ghost before = *self;
        let at = self.find(identity);
        let window = Window { identity: identity.duplicate(), rectangle };
        let mut windows: Vec<Window> = Vec::new();
        core::mem::swap(&mut self.windows, &mut windows);
        match at {
            Some(i) => {
                windows.set(i, window);
            },
            None => {
                windows.push(window);
            },
        }
        core::mem::swap(&mut self.windows, &mut windows);
        proof {
            let after = *self;
            let n = before.windows.len() as int;
            let goal = before.geometry().insert(identity@, rectangle);
            assert(after.distinct_windows());
            assert forall|a: Address| #[trigger]
                after.geometry().contains_key(a) == goal.contains_key(a) && (goal.contains_key(a)
                    ==> after.geometry()[a] == goal[a]) by {
                let was = before.index_of(a);
                let is = after.index_of(a);
                if a == identity@ {
                    match at {
                        Some(i) => {
                            after.lemma_index_of(i as int);
                        },
                        None => {
                            after.lemma_index_of(n);
                        },
                    }
                } else {
                    if was is Some {
                        let j = was.unwrap();
                        assert(after.windows[j].identity@ == a);
                        after.lemma_index_of(j);
                    }
                    if is is Some {
                        let j = is.unwrap();
                        assert(j < n);
                        assert(before.windows[j].identity@ == a);
                        before.lemma_index_of(j);
                    }
                }
            }
            assert(after.geometry() =~= goal);
        }
    }
}

/// The direct strategy: makes `request.rectangle` the geometry of the
/// request's window in `model`, provided that some known output holds the
/// whole rectangle. Otherwise nothing is recorded and `NoSuchOutput` is
/// returned. No process is started and no outside command is issued.
pub fn place_direct(request: &PlacementRequest, model: &mut OutputModel) -> (result: Result<
    (),
    PlacementError,
>)
    ensures
        final(model).outputs() == old(model).outputs(),
        final(model).geometry() == placed(old(model).outputs(), old(model).geometry(), request@),
        result is Ok <==> on_some_output(old(model).outputs(), request.rectangle),
        result matches Err(e) ==> e == PlacementError::NoSuchOutput,
{
    if !model.has_output_for(&request.rectangle) {
        return Err(PlacementError::NoSuchOutput);
    }
    model.record(&request.identity, request.rectangle);
    Ok(())
}

/// The recorded geometry after the direct strategy has dealt with the first
/// `k` of `ps`, one after the other.
pub open spec fn placed_all(
    outputs: Seq<Monitor>,
    geometry: Map<Address, Rect>,
    ps: Seq<Placement>,
    k: nat,
) -> Map<Address, Rect>
    decreases k,
{
    if k == 0 || k > ps.len() {
        geometry
    } else {
        placed(outputs, placed_all(outputs, geometry, ps, (k - 1) as nat), ps[k - 1])
    }
}

/// The direct strategy on every request of `requests`, in order. A request
/// that no output holds is reported in its place and changes nothing; those
/// behind it are placed all the same.
pub fn place_all_direct(requests: &Vec<PlacementRequest>, model: &mut OutputModel) -> (results: Vec<
    Result<(), PlacementError>,
>)
    ensures
        final(model).outputs() == old(model).outputs(),
        final(model).geometry() == placed_all(
            old(model).outputs(),
            old(model).geometry(),
            placements_of(requests@),
            requests.len() as nat,
        ),
        results.len() == requests.len(),
        forall|i: int|
            0 <= i < requests.len() ==> (#[trigger] results[i]) == (if on_some_output(
                old(model).outputs(),
                requests[i].rectangle,
            ) {
                Ok::<(), PlacementError>(())
            } else {
                Err::<(), PlacementError>(PlacementError::NoSuchOutput)
            }),
{
    let mut results: Vec<Result<(), PlacementError>> = Vec::new();
    let mut i: usize = 0;
    while i < requests.len()
        invariant
            i <= requests.len(),
            results.len() == i,
            model.outputs() == old(model).outputs(),
            model.geometry() == placed_all(
                old(model).outputs(),
                old(model).geometry(),
                placements_of(requests@),
                i as nat,
            ),
            forall|j: int|
                0 <= j < i ==> (#[trigger] results[j]) == (if on_some_output(
                    old(model).outputs(),
                    requests[j].rectangle,
                ) {
                    Ok::<(), PlacementError>(())
                } else {
                    Err::<(), PlacementError>(PlacementError::NoSuchOutput)
                }),
        decreases requests.len() - i,
    {
        assert(placements_of(requests@)[i as int] == requests[i as int]@);
        let result = place_direct(&requests[i], model);
        proof {
            match result {
                Ok(done) => {
                    assert(done == ());
                },
                Err(_) => {},
            }
        }
        results.push(result);
        i += 1;
    }
    results
}

/// Placing the same request a second time changes nothing: the geometry
/// after two placements is the geometry after one. Where an output holds the
/// rectangle, that geometry gives the request's window the request's
/// rectangle.
pub proof fn lemma_place_direct_idempotent(
    outputs: Seq<Monitor>,
    geometry: Map<Address, Rect>,
    p: Placement,
)
    ensures
        placed(outputs, placed(outputs, geometry, p), p) == placed(outputs, geometry, p),
        on_some_output(outputs, p.rectangle) ==> placed(outputs, geometry, p).contains_key(
            p.identity,
        ) && placed(outputs, geometry, p)[p.identity] == p.rectangle,
        forall|other: Address|
            other != p.identity ==> placed(outputs, geometry, p).contains_key(other)
                == geometry.contains_key(other) && (geometry.contains_key(other) ==> placed(
                outputs,
                geometry,
                p,
            )[other] == geometry[other]),
{
    assert(placed(outputs, placed(outputs, geometry, p), p) =~= placed(outputs, geometry, p));
}

} // verus!
