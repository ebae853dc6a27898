//! Nodes of the scene tree and the ids of their components.
use vstd::prelude::*;

use super::NodeId;
use crate::event_manager::str_eq;

verus! {

/// Identifies a component of a node: its position among the node's
/// components.
#[derive(Debug, Copy, Clone, PartialEq, Eq, Hash, Structural)]
pub struct ComponentId(pub u32);

impl ComponentId {
    /// Wraps an index without checking it against any node.
    pub fn new_unck(idx: u32) -> (res: Self)
        ensures
            res.0 == idx,
    {
        ComponentId(idx)
    }

    /// The index that the id wraps.
    pub fn inner(self) -> (res: u32)
        ensures
            res == self.0,
    {
        self.0
    }
}

/// What a script receives to reach its own component: the node that
/// holds the component, and the component's id on that node.
#[derive(Debug, Clone, Copy)]
pub struct NodeUserData(pub NodeId, pub ComponentId);

/// The ids of the components that `ready` records as not ready, in
/// order.
pub open spec fn unready_ids(ready: Seq<bool>) -> Seq<ComponentId>
    decreases ready.len(),
{
    if ready.len() == 0 {
        Seq::empty()
    } else if !ready.last() {
        unready_ids(ready.drop_last()).push(ComponentId((ready.len() - 1) as u32))
    } else {
        unready_ids(ready.drop_last())
    }
}

/// Readying twice: once every component is ready, there is none left to
/// ready, so a second `mark_components_ready` with nothing changed in
/// between returns no id.
pub proof fn all_ready_leaves_none(n: nat)
    ensures
        unready_ids(Seq::new(n, |i: int| true)) == Seq::<ComponentId>::empty(),
    decreases n,
{
    if n > 0 {
        all_ready_leaves_none((n - 1) as nat);
        assert(Seq::new(n, |i: int| true).drop_last() =~= Seq::new((n - 1) as nat, |i: int| true));
    }
}

/// The components, among those whose readiness `ready` records, that
/// were not ready yet, in order: each is marked ready, and its id is
/// returned so that it can be told.
pub fn mark_components_ready(ready: &mut Vec<bool>) -> (res: Vec<ComponentId>)
    requires
        forall|i: int| 0 <= i < old(ready)@.len() && !old(ready)@[i] ==> i <= u32::MAX,
    ensures
        final(ready)@ == Seq::new(old(ready)@.len(), |i: int| true),
        res@ == unready_ids(old(ready)@),
        forall|k: int| 0 <= k < res@.len() ==> !old(ready)@[#[trigger] res@[k].0 as int] && res@[k].0 < old(ready)@.len(),
        forall|i: int| 0 <= i < old(ready)@.len() && !old(ready)@[i] ==> res@.contains(ComponentId(i as u32)),
        forall|a: int, b: int| 0 <= a < b < res@.len() ==> res@[a].0 < res@[b].0,
        (forall|i: int| 0 <= i < old(ready)@.len() ==> old(ready)@[i]) ==> res@.len() == 0,
{
    let ghost before = ready@;
    let mut res: Vec<ComponentId> = Vec::new();
    let mut i: usize = 0;
    while i < ready.len()
        invariant
            forall|j: int| 0 <= j < before.len() && !before[j] ==> j <= u32::MAX,
            ready@.len() == before.len(),
            i <= ready@.len(),
            forall|j: int| 0 <= j < i ==> ready@[j],
            forall|j: int| i <= j < ready@.len() ==> ready@[j] == before[j],
            forall|k: int| 0 <= k < res@.len() ==> !before[#[trigger] res@[k].0 as int] && res@[k].0 < i,
            forall|j: int| 0 <= j < i && !before[j] ==> res@.contains(ComponentId(j as u32)),
            res@ == unready_ids(before.subrange(0, i as int)),
            forall|a: int, b: int| 0 <= a < b < res@.len() ==> res@[a].0 < res@[b].0,
        decreases ready@.len() - i,
    {
        if !ready[i] {
            assert(!before[i as int]);
            assert(i <= u32::MAX);
            ready.set(i, true);
            let ghost old_res = res@;
            res.push(ComponentId(i as u32));
            proof {
                assert forall|j: int| 0 <= j <= i && !before[j] implies res@.contains(ComponentId(j as u32)) by {
                    if j < i {
                        let k = choose|k: int| 0 <= k < old_res.len() && old_res[k] == ComponentId(j as u32);
                        assert(res@[k] == ComponentId(j as u32));
                    } else {
                        assert(res@[old_res.len() as int] == ComponentId(j as u32));
                    }
                }
            }
        }
        assert(before.subrange(0, i + 1).drop_last() =~= before.subrange(0, i as int));
        i = i + 1;
    }
    assert(before.subrange(0, before.len() as int) =~= before);
    assert(ready@ =~= Seq::new(before.len(), |i: int| true));
    proof {
        if res@.len() > 0 {
            assert(!before[res@[0].0 as int]);
        }
    }
    res
}

/// Looks a component up by the name of its script: `scripts[i]` names
/// the script of component `i`, and `ready[i]` records whether it was
/// readied.  The first component whose script is `name` is returned,
/// with whether it had not been ready yet; it is ready afterwards, and
/// nothing else changes.  `None`, and no change, when no script has that
/// name.
pub fn ready_component_named(scripts: &Vec<String>, ready: &mut Vec<bool>, name: &str) -> (res: Option<
    (ComponentId, bool),
>)
    requires
        old(ready)@.len() == scripts@.len(),
        scripts@.len() <= u32::MAX,
    ensures
        res is None <==> forall|i: int| 0 <= i < scripts@.len() ==> (#[trigger] scripts@[i])@ != name@,
        res is None ==> final(ready)@ == old(ready)@,
        res matches Some((c, was_unready)) ==> {
            &&& c.0 < scripts@.len()
            &&& scripts@[c.0 as int]@ == name@
            &&& forall|j: int| 0 <= j < c.0 ==> (#[trigger] scripts@[j])@ != name@
            &&& was_unready == !old(ready)@[c.0 as int]
            &&& final(ready)@ == old(ready)@.update(c.0 as int, true)
        },
{
    let mut i: usize = 0;
    while i < scripts.len()
        invariant
            ready@.len() == scripts@.len(),
            scripts@.len() <= u32::MAX,
            ready@ == old(ready)@,
            i <= scripts@.len(),
            forall|j: int| 0 <= j < i ==> (#[trigger] scripts@[j])@ != name@,
        decreases scripts@.len() - i,
    {
        if str_eq(scripts[i].as_str(), name) {
            let was_unready = !ready[i];
            ready.set(i, true);
            return Some((ComponentId(i as u32), was_unready));
        }
        i = i + 1;
    }
    None
}

/// A node of the scene tree.  Its place in the tree (`parent`,
/// `children`) is what the tree's own operations read and maintain;
/// `data` carries whatever else the engine keeps for the node (its
/// transform, colour, texture, scripts).
#[derive(Debug, Clone)]
pub struct Node<D> {
    pub node_id: NodeId,
    pub children: Vec<NodeId>,
    pub parent: Option<NodeId>,
    pub queued_free: bool,
    pub data: D,
}

impl<D> Node<D> {
    /// A node outside any tree: no parent, no children, not queued for
    /// freeing, and the placeholder id.
    pub fn new(data: D) -> (res: Self)
        ensures
            res.node_id == NodeId::spec_placeholder(),
            res.children@.len() == 0,
            res.parent is None,
            !res.queued_free,
            res.data == data,
    {
        Node { node_id: NodeId::placeholder(), children: Vec::new(), parent: None, queued_free: false, data }
    }
}

/// Walks the ids of a node's components in order, from the first to the
/// `max`-th.
pub struct ComponentIter {
    curr: u32,
    max: u32,
}

impl ComponentIter {
    /// Walks the components `0 .. max`.
    pub fn new(max: u32) -> (res: Self)
        ensures
            res.position() == 0,
            res.end() == max,
    {
        ComponentIter { curr: 0, max }
    }

    /// The index of the next id handed out.
    pub closed spec fn position(&self) -> u32 {
        self.curr
    }

    /// One past the last index handed out.
    pub closed spec fn end(&self) -> u32 {
        self.max
    }

    /// The next component id, or `None` once all have been handed out.
    pub fn next(&mut self) -> (res: Option<ComponentId>)
        ensures
            final(self).end() == old(self).end(),
            old(self).position() >= old(self).end() ==> res is None && final(self).position()
                == old(self).position(),
            old(self).position() < old(self).end() ==> res == Some(ComponentId(old(self).position()))
                && final(self).position() == old(self).position() + 1,
    {
        if self.curr >= self.max {
            return None;
        }
        self.curr = self.curr + 1;
        Some(ComponentId::new_unck(self.curr - 1))
    }
}

} // verus!
