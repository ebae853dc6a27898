//! The scene tree: nodes stored in a generational map and linked to their
//! parents and children by id.
use vstd::prelude::*;

use super::node::Node;
use super::NodeId;
use crate::genmap::{GenMap, Handle};

verus! {

/// The `k`-th ancestor of `x` in the nodes `t` (`x` itself for `k == 0`),
/// or `None` when the parent chain ends earlier or leaves `t`.
pub open spec fn ancestor<D>(t: Map<NodeId, Node<D>>, x: NodeId, k: nat) -> Option<NodeId>
    decreases k,
{
    if !t.contains_key(x) {
        None
    } else if k == 0 {
        Some(x)
    } else {
        match t[x].parent {
            Some(p) => ancestor(t, p, (k - 1) as nat),
            None => None,
        }
    }
}

/// `x` lies in the subtree of `a`: `a` is `x` or one of its ancestors.
pub open spec fn descends_from<D>(t: Map<NodeId, Node<D>>, x: NodeId, a: NodeId) -> bool {
    exists|k: nat| ancestor(t, x, k) == Some(a)
}

/// `n` with its `queued_free` mark set.
pub open spec fn queued<D>(n: Node<D>) -> Node<D> {
    Node { node_id: n.node_id, children: n.children, parent: n.parent, queued_free: true, data: n.data }
}

/// Every parent link is mirrored by a child link and back, every linked
/// node is present, and no node lists a child twice.
pub open spec fn links_consistent<D>(t: Map<NodeId, Node<D>>) -> bool {
    &&& forall|n: NodeId| #[trigger]
        t.contains_key(n) ==> match t[n].parent {
            Some(p) => t.contains_key(p) && t[p].children@.contains(n),
            None => true,
        }
    &&& forall|n: NodeId, i: int|
        t.contains_key(n) && 0 <= i < t[n].children@.len() ==> t.contains_key(
            #[trigger] t[n].children@[i],
        ) && t[t[n].children@[i]].parent == Some(n)
    &&& forall|n: NodeId| #[trigger] t.contains_key(n) ==> t[n].children@.no_duplicates()
}

/// `depth` numbers the nodes so that each node lies one below its parent,
/// which rules out a node being its own ancestor.
pub open spec fn depth_consistent<D>(t: Map<NodeId, Node<D>>, depth: Map<NodeId, nat>) -> bool {
    forall|n: NodeId| #[trigger]
        t.contains_key(n) ==> depth.contains_key(n) && match t[n].parent {
            Some(p) => depth.contains_key(p) && depth[n] == depth[p] + 1,
            None => true,
        }
}

/// Position of the first occurrence of `x` in `s`.
pub open spec fn first_index_of<A>(s: Seq<A>, x: A) -> int {
    choose|i: int| 0 <= i < s.len() && s[i] == x && forall|j: int| 0 <= j < i ==> s[j] != x
}

/// `s` without the first occurrence of `x` (`s` itself when `x` is absent).
pub open spec fn remove_first<A>(s: Seq<A>, x: A) -> Seq<A> {
    if s.contains(x) {
        s.remove(first_index_of(s, x))
    } else {
        s
    }
}

/// The children of `n` once `of` has been moved from its parent in `t`
/// to the end of the children of `to`.
pub open spec fn children_after_move<D>(
    t: Map<NodeId, Node<D>>,
    of: NodeId,
    to: Option<NodeId>,
    n: NodeId,
) -> Seq<NodeId> {
    let c = t[n].children@;
    let c1 = if t[of].parent == Some(n) {
        remove_first(c, of)
    } else {
        c
    };
    if to == Some(n) {
        c1.push(of)
    } else {
        c1
    }
}

/// `u` is `t` with `of` moved under `to`: the same nodes with the same
/// contents, except that `of` names `to` as its parent, its old parent
/// no longer lists it, and `to` lists it last among its children.
pub open spec fn moved_under<D>(
    t: Map<NodeId, Node<D>>,
    u: Map<NodeId, Node<D>>,
    of: NodeId,
    to: Option<NodeId>,
) -> bool {
    &&& u.dom() == t.dom()
    &&& forall|n: NodeId| #[trigger]
        u.contains_key(n) ==> {
            &&& u[n].node_id == t[n].node_id
            &&& u[n].queued_free == t[n].queued_free
            &&& u[n].data == t[n].data
            &&& u[n].parent == (if n == of {
                to
            } else {
                t[n].parent
            })
            &&& u[n].children@ == children_after_move(t, of, to, n)
        }
}

/// The new nodes, among the first `n` entries of a template, whose parent
/// is entry `i`, in template order; `ids` are the nodes made for the
/// entries.
pub open spec fn template_children(parents: Seq<Option<usize>>, ids: Seq<NodeId>, i: int, n: nat) -> Seq<
    NodeId,
>
    decreases n,
{
    if n == 0 {
        Seq::empty()
    } else {
        let c = template_children(parents, ids, i, (n - 1) as nat);
        if parents[n - 1] == Some(i as usize) {
            c.push(ids[n - 1])
        } else {
            c
        }
    }
}

/// `u` is `t` with one fresh node for each of the first `ids.len()`
/// entries of a template, whose entry `i` names the entry of its parent,
/// `parents[i]`, and carries `data[i]`: entry `i` became the node
/// `ids[i]`, which records its own id, hangs under the node of its parent
/// entry (or under none), lists the nodes of its child entries in
/// template order, and is not queued for freeing.  The nodes of `t` are
/// unchanged.
pub open spec fn holds_template<D>(
    t: Map<NodeId, Node<D>>,
    u: Map<NodeId, Node<D>>,
    parents: Seq<Option<usize>>,
    data: Seq<D>,
    ids: Seq<NodeId>,
) -> bool {
    &&& ids.no_duplicates()
    &&& forall|i: int| 0 <= i < ids.len() ==> !t.contains_key(#[trigger] ids[i])
    &&& u.dom() == t.dom() + ids.to_set()
    &&& forall|x: NodeId| #[trigger] t.contains_key(x) ==> u[x] == t[x]
    &&& forall|i: int|
        0 <= i < ids.len() ==> {
            &&& u[#[trigger] ids[i]].node_id == ids[i]
            &&& u[ids[i]].parent == (match parents[i] {
                Some(p) => Some(ids[p as int]),
                None => None,
            })
            &&& u[ids[i]].children@ == template_children(parents, ids, i, ids.len())
            &&& !u[ids[i]].queued_free
            &&& u[ids[i]].data == data[i]
        }
}

/// Which nodes become children depends only on the ids of the entries
/// considered.
proof fn lemma_template_children_prefix(
    parents: Seq<Option<usize>>,
    ids: Seq<NodeId>,
    x: NodeId,
    i: int,
    m: nat,
)
    requires
        m <= ids.len(),
    ensures
        template_children(parents, ids.push(x), i, m) == template_children(parents, ids, i, m),
    decreases m,
{
    if m > 0 {
        lemma_template_children_prefix(parents, ids, x, i, (m - 1) as nat);
        assert(ids.push(x)[m - 1] == ids[m - 1]);
    }
}

/// An entry that no earlier entry names as parent has no children yet.
proof fn lemma_template_children_none(parents: Seq<Option<usize>>, ids: Seq<NodeId>, i: int, m: nat)
    requires
        m <= parents.len(),
        forall|j: int| 0 <= j < m ==> parents[j] != Some(i as usize),
    ensures
        template_children(parents, ids, i, m) == Seq::<NodeId>::empty(),
    decreases m,
{
    if m > 0 {
        lemma_template_children_none(parents, ids, i, (m - 1) as nat);
    }
}

/// Adding the node of one more template entry, linked under the node of
/// its parent entry, extends the template in the tree by that entry.
proof fn lemma_template_step<D>(
    t: Map<NodeId, Node<D>>,
    before: Map<NodeId, Node<D>>,
    after: Map<NodeId, Node<D>>,
    parents: Seq<Option<usize>>,
    data: Seq<D>,
    ids: Seq<NodeId>,
    id: NodeId,
)
    requires
        holds_template(t, before, parents, data, ids),
        ids.len() < parents.len(),
        parents.len() <= usize::MAX,
        data.len() == parents.len(),
        forall|j: int| 0 <= j < parents.len() ==> (#[trigger] parents[j] matches Some(p) ==> p < j),
        !before.contains_key(id),
        after.dom() == before.dom().insert(id),
        forall|x: NodeId|
            #[trigger] before.contains_key(x) && !(parents[ids.len() as int] matches Some(p) && x == ids[p as int])
                ==> after[x] == before[x],
        parents[ids.len() as int] matches Some(p) ==> {
            let q = ids[p as int];
            &&& after[q].node_id == before[q].node_id
            &&& after[q].parent == before[q].parent
            &&& after[q].queued_free == before[q].queued_free
            &&& after[q].data == before[q].data
            &&& after[q].children@ == before[q].children@.push(id)
        },
        after[id].node_id == id,
        after[id].parent == (match parents[ids.len() as int] {
            Some(p) => Some(ids[p as int]),
            None => None,
        }),
        after[id].children@.len() == 0,
        !after[id].queued_free,
        after[id].data == data[ids.len() as int],
    ensures
        holds_template(t, after, parents, data, ids.push(id)),
{
    let k = ids.len() as int;
    let ids2 = ids.push(id);
    assert(ids2.no_duplicates()) by {
        assert forall|i: int, j: int| 0 <= i < ids2.len() && 0 <= j < ids2.len() && i != j implies ids2[i]
            != ids2[j] by {
            if i < k && j < k {
            } else if i < k {
                assert(before.contains_key(ids[i]));
            } else {
                assert(before.contains_key(ids[j]));
            }
        }
    }
    assert(after.dom() =~= t.dom() + ids2.to_set()) by {
        assert forall|x: NodeId| after.dom().contains(x) implies (t.dom() + ids2.to_set()).contains(x) by {
            if x != id {
                assert(before.dom().contains(x));
                if !t.contains_key(x) {
                    assert(ids.to_set().contains(x));
                    let i = choose|i: int| 0 <= i < ids.len() && ids[i] == x;
                    assert(ids2[i] == x);
                }
            } else {
                assert(ids2[k] == id);
            }
        }
        assert forall|x: NodeId| (t.dom() + ids2.to_set()).contains(x) implies after.dom().contains(x) by {
            if !t.contains_key(x) {
                let i = choose|i: int| 0 <= i < ids2.len() && ids2[i] == x;
                if i < k {
                    assert(ids[i] == x);
                    assert(ids.to_set().contains(x));
                }
            }
        }
    }
    assert forall|x: NodeId| #[trigger] t.contains_key(x) implies after[x] == t[x] by {
        assert(before.contains_key(x));
        if let Some(p) = parents[k] {
            assert(!t.contains_key(ids[p as int]));
        }
    }
    assert forall|j: int| 0 <= j < k implies parents[j] != Some(k as usize) by {
        if let Some(p) = parents[j] {
            assert(p < j);
        }
    }
    lemma_template_children_none(parents, ids2, k, k as nat);
    assert forall|i: int| 0 <= i < ids2.len() implies {
        &&& after[#[trigger] ids2[i]].node_id == ids2[i]
        &&& after[ids2[i]].parent == (match parents[i] {
            Some(p) => Some(ids2[p as int]),
            None => None,
        })
        &&& after[ids2[i]].children@ == template_children(parents, ids2, i, ids2.len())
        &&& !after[ids2[i]].queued_free
        &&& after[ids2[i]].data == data[i]
    } by {
        lemma_template_children_prefix(parents, ids, id, i, k as nat);
        if i == k {
            assert(after[id].children@ =~= Seq::<NodeId>::empty());
        } else {
            assert(ids2[i] == ids[i]);
            assert(before.contains_key(ids[i]));
            if let Some(p) = parents[i] {
                assert(p < i);
                assert(ids2[p as int] == ids[p as int]);
            }
            if parents[k] == Some(i as usize) {
                assert(template_children(parents, ids2, i, (k + 1) as nat) == template_children(
                    parents,
                    ids2,
                    i,
                    k as nat,
                ).push(id));
            } else {
                assert(template_children(parents, ids2, i, (k + 1) as nat) == template_children(
                    parents,
                    ids2,
                    i,
                    k as nat,
                ));
                if let Some(p) = parents[k] {
                    assert(ids[i] != ids[p as int]);
                }
            }
        }
    }
}

/// A node reached from `x` by going up `k >= 1` parent links has a child.
proof fn lemma_ancestor_has_child<D>(t: Map<NodeId, Node<D>>, x: NodeId, k: nat, a: NodeId)
    requires
        links_consistent(t),
        ancestor(t, x, k) == Some(a),
        k >= 1,
    ensures
        t.contains_key(a),
        t[a].children@.len() > 0,
    decreases k,
{
    let p = t[x].parent->0;
    if k == 1 {
        assert(t[p].children@.contains(x));
    } else {
        lemma_ancestor_has_child(t, p, (k - 1) as nat, a);
    }
}

/// A node without children has no descendant but itself.
proof fn lemma_leaf_descendants<D>(t: Map<NodeId, Node<D>>, leaf: NodeId, x: NodeId)
    requires
        links_consistent(t),
        t[leaf].children@.len() == 0,
        x != leaf,
    ensures
        !descends_from(t, x, leaf),
{
    if descends_from(t, x, leaf) {
        let k = choose|k: nat| ancestor(t, x, k) == Some(leaf);
        lemma_ancestor_has_child(t, x, k, leaf);
    }
}

/// The subtree of `n` in post-order: the subtrees of its children, in the
/// children's order, then `n`; no deeper than `fuel` levels.
pub open spec fn post_of<D>(t: Map<NodeId, Node<D>>, n: NodeId, fuel: nat) -> Seq<NodeId>
    decreases fuel, 0nat,
{
    if fuel == 0 {
        Seq::empty()
    } else {
        post_of_all(t, t[n].children@, (fuel - 1) as nat).push(n)
    }
}

/// The subtrees of the nodes `cs` in post-order, one after the other in
/// the order of `cs`.
pub open spec fn post_of_all<D>(t: Map<NodeId, Node<D>>, cs: Seq<NodeId>, fuel: nat) -> Seq<NodeId>
    decreases fuel, cs.len(),
{
    if cs.len() == 0 {
        Seq::empty()
    } else {
        post_of_all(t, cs.drop_last(), fuel) + post_of(t, cs.last(), fuel)
    }
}

/// The subtree of `root` in post-order: every node after the nodes below
/// it, and the subtrees of a node's children in the children's order.
/// (No chain of parents is longer than the number of nodes, so that many
/// levels reach every node.)
pub open spec fn subtree_post_order<D>(t: Map<NodeId, Node<D>>, root: NodeId) -> Seq<NodeId> {
    post_of(t, root, t.dom().len() + 1)
}

/// The subtree of `n` as a walk with a stack meets it: `n`, then the
/// subtrees of its children from the last child to the first.
spec fn walk_of<D>(t: Map<NodeId, Node<D>>, n: NodeId, fuel: nat) -> Seq<NodeId>
    decreases fuel, 0nat,
{
    if fuel == 0 {
        Seq::empty()
    } else {
        seq![n] + walk_of_all(t, t[n].children@, (fuel - 1) as nat)
    }
}

/// The walks of the subtrees of `cs`, from the last node of `cs` to the
/// first.
spec fn walk_of_all<D>(t: Map<NodeId, Node<D>>, cs: Seq<NodeId>, fuel: nat) -> Seq<NodeId>
    decreases fuel, cs.len(),
{
    if cs.len() == 0 {
        Seq::empty()
    } else {
        walk_of(t, cs.last(), fuel) + walk_of_all(t, cs.drop_last(), fuel)
    }
}

/// What a walk still has to meet when `stack` holds the nodes left to
/// expand (the top last), each with the levels left below it in `fuels`.
spec fn walk_pending<D>(t: Map<NodeId, Node<D>>, stack: Seq<NodeId>, fuels: Seq<nat>) -> Seq<NodeId>
    decreases stack.len(),
{
    if stack.len() == 0 {
        Seq::empty()
    } else {
        walk_of(t, stack.last(), fuels.last()) + walk_pending(t, stack.drop_last(), fuels.drop_last())
    }
}

/// Pushing more nodes on the stack puts their walks first.
proof fn lemma_walk_pending_append<D>(
    t: Map<NodeId, Node<D>>,
    a: Seq<NodeId>,
    fa: Seq<nat>,
    b: Seq<NodeId>,
    fb: Seq<nat>,
)
    requires
        a.len() == fa.len(),
        b.len() == fb.len(),
    ensures
        walk_pending(t, a + b, fa + fb) == walk_pending(t, b, fb) + walk_pending(t, a, fa),
    decreases b.len(),
{
    if b.len() == 0 {
        assert(a + b =~= a);
        assert(fa + fb =~= fa);
        assert(walk_pending(t, b, fb) =~= Seq::<NodeId>::empty());
        assert(Seq::<NodeId>::empty() + walk_pending(t, a, fa) =~= walk_pending(t, a, fa));
    } else {
        lemma_walk_pending_append(t, a, fa, b.drop_last(), fb.drop_last());
        assert((a + b).drop_last() =~= a + b.drop_last());
        assert((fa + fb).drop_last() =~= fa + fb.drop_last());
        assert((a + b).last() == b.last());
        assert((fa + fb).last() == fb.last());
        assert(walk_pending(t, a + b, fa + fb) =~= walk_pending(t, b, fb) + walk_pending(t, a, fa));
    }
}

/// Nodes pushed with the same fuel are walked from the last to the first.
proof fn lemma_walk_pending_children<D>(t: Map<NodeId, Node<D>>, cs: Seq<NodeId>, f: nat)
    ensures
        walk_pending(t, cs, Seq::new(cs.len(), |i: int| f)) == walk_of_all(t, cs, f),
    decreases cs.len(),
{
    if cs.len() > 0 {
        lemma_walk_pending_children(t, cs.drop_last(), f);
        assert(Seq::new(cs.len(), |i: int| f).drop_last() =~= Seq::new(cs.drop_last().len(), |i: int| f));
    }
}

/// A walk, read backwards, is the post-order.
proof fn lemma_walk_reversed<D>(t: Map<NodeId, Node<D>>, n: NodeId, fuel: nat)
    ensures
        walk_of(t, n, fuel).reverse() == post_of(t, n, fuel),
    decreases fuel, 0nat,
{
    if fuel > 0 {
        let f = (fuel - 1) as nat;
        lemma_walk_all_reversed(t, t[n].children@, f);
        let w = walk_of_all(t, t[n].children@, f);
        assert((seq![n] + w).reverse() =~= w.reverse().push(n));
    } else {
        assert(walk_of(t, n, fuel).reverse() =~= Seq::<NodeId>::empty());
    }
}

/// The walks of several subtrees, read backwards, are their post-orders in
/// order.
proof fn lemma_walk_all_reversed<D>(t: Map<NodeId, Node<D>>, cs: Seq<NodeId>, fuel: nat)
    ensures
        walk_of_all(t, cs, fuel).reverse() == post_of_all(t, cs, fuel),
    decreases fuel, cs.len(),
{
    if cs.len() > 0 {
        lemma_walk_reversed(t, cs.last(), fuel);
        lemma_walk_all_reversed(t, cs.drop_last(), fuel);
        let a = walk_of(t, cs.last(), fuel);
        let b = walk_of_all(t, cs.drop_last(), fuel);
        assert((a + b).reverse() =~= b.reverse() + a.reverse());
    } else {
        assert(walk_of_all(t, cs, fuel).reverse() =~= Seq::<NodeId>::empty());
    }
}

/// Going up from a node of the subtree of `c` reaches the parent of `c`
/// one step later.
proof fn lemma_ancestor_next<D>(t: Map<NodeId, Node<D>>, x: NodeId, k: nat, c: NodeId, p: NodeId)
    requires
        ancestor(t, x, k) == Some(c),
        t[c].parent == Some(p),
        t.contains_key(p),
    ensures
        ancestor(t, x, k + 1) == Some(p),
    decreases k,
{
    if k > 0 {
        let px = t[x].parent->0;
        lemma_ancestor_next(t, px, (k - 1) as nat, c, p);
    } else {
        assert(ancestor(t, p, 0) == Some(p));
    }
}

/// The fuels of the stack once its top is expanded: the top's children
/// get one level less than it had.
spec fn walk_next_fuels<D>(t: Map<NodeId, Node<D>>, stack: Seq<NodeId>, fuels: Seq<nat>) -> Seq<nat> {
    fuels.drop_last() + Seq::new(
        t[stack.last()].children@.len(),
        |j: int| (fuels.last() - 1) as nat,
    )
}

/// The fuel of every stack entry exceeds the number of levels below it.
spec fn fuels_suffice<D>(t: Map<NodeId, Node<D>>, stack: Seq<NodeId>, fuels: Seq<nat>) -> bool {
    forall|i: int, x: NodeId, k: nat|
        #![trigger ancestor(t, x, k), stack[i]]
        0 <= i < stack.len() && ancestor(t, x, k) == Some(stack[i]) ==> k < fuels[i]
}

/// Expanding the top of the stack moves it to the walk's output and keeps
/// what remains to be met.
proof fn lemma_walk_step<D>(
    t: Map<NodeId, Node<D>>,
    coll: Seq<NodeId>,
    stack: Seq<NodeId>,
    fuels: Seq<nat>,
    w: Seq<NodeId>,
)
    requires
        links_consistent(t),
        stack.len() > 0,
        fuels.len() == stack.len(),
        t.contains_key(stack.last()),
        coll + walk_pending(t, stack, fuels) == w,
        fuels_suffice(t, stack, fuels),
    ensures
        fuels.last() >= 1,
        walk_next_fuels(t, stack, fuels).len() == stack.drop_last().len() + t[stack.last()].children@.len(),
        coll.push(stack.last()) + walk_pending(
            t,
            stack.drop_last() + t[stack.last()].children@,
            walk_next_fuels(t, stack, fuels),
        ) == w,
        fuels_suffice(t, stack.drop_last() + t[stack.last()].children@, walk_next_fuels(t, stack, fuels)),
{
    let n = stack.last();
    let f = fuels.last();
    let top = stack.len() - 1;
    assert(ancestor(t, n, 0) == Some(n));
    assert(stack[top] == n);
    assert(f >= 1);
    let g = (f - 1) as nat;
    let c = t[n].children@;
    let s0 = stack.drop_last();
    let f0 = fuels.drop_last();
    let fc = Seq::new(c.len(), |j: int| g);
    assert(walk_next_fuels(t, stack, fuels) == f0 + fc);
    lemma_walk_pending_append(t, s0, f0, c, fc);
    lemma_walk_pending_children(t, c, g);
    assert(walk_pending(t, stack, fuels) == walk_of(t, n, f) + walk_pending(t, s0, f0));
    assert(walk_of(t, n, f) == seq![n] + walk_of_all(t, c, g));
    assert(coll.push(n) + walk_pending(t, s0 + c, f0 + fc) =~= coll + walk_pending(t, stack, fuels));
    let st = s0 + c;
    let fu = f0 + fc;
    assert forall|i: int, x: NodeId, k: nat|
        #![trigger ancestor(t, x, k), st[i]]
        0 <= i < st.len() && ancestor(t, x, k) == Some(st[i]) implies k < fu[i] by {
        if i < s0.len() {
            assert(st[i] == stack[i]);
            assert(fu[i] == fuels[i]);
        } else {
            let j = i - s0.len();
            assert(st[i] == c[j]);
            assert(fu[i] == g);
            assert(t.contains_key(c[j]) && t[c[j]].parent == Some(n));
            lemma_ancestor_next(t, x, k, c[j], n);
        }
    }
}

/// Going up `k` parent links passes through a node at each smaller step.
proof fn lemma_ancestor_prefix<D>(t: Map<NodeId, Node<D>>, x: NodeId, k: nat, i: nat)
    requires
        ancestor(t, x, k) is Some,
        i <= k,
    ensures
        ancestor(t, x, i) is Some,
    decreases k,
{
    if i > 0 {
        let px = t[x].parent->0;
        lemma_ancestor_prefix(t, px, (k - 1) as nat, (i - 1) as nat);
    }
}

/// A chain of `k` parent links from a node passes through `k + 1` distinct
/// nodes, so it is shorter than the number of nodes.
proof fn lemma_chain_bound<D>(t: Map<NodeId, Node<D>>, depth: Map<NodeId, nat>, x: NodeId, k: nat, a: NodeId)
    requires
        links_consistent(t),
        depth_consistent(t, depth),
        t.dom().finite(),
        ancestor(t, x, k) == Some(a),
    ensures
        k < t.dom().len(),
{
    let chain = Seq::new(k + 1, |i: int| ancestor(t, x, i as nat)->0);
    assert forall|i: int| 0 <= i < chain.len() implies t.contains_key(#[trigger] chain[i]) && depth[chain[i]] + i
        == depth[x] by {
        lemma_ancestor_prefix(t, x, k, i as nat);
        lemma_ancestor_depth(t, depth, x, i as nat, chain[i]);
    }
    assert(chain.no_duplicates()) by {
        assert forall|i: int, j: int| 0 <= i < chain.len() && 0 <= j < chain.len() && i != j implies chain[i]
            != chain[j] by {
            assert(depth[chain[i]] + i == depth[x]);
            assert(depth[chain[j]] + j == depth[x]);
        }
    }
    chain.unique_seq_to_set();
    assert(chain.to_set().subset_of(t.dom()));
    vstd::set_lib::lemma_len_subset(chain.to_set(), t.dom());
}

/// The nodes of a finite node storage form a finite set.
proof fn lemma_tree_view_finite<D>(m: Map<Handle, Node<D>>)
    requires
        m.dom().finite(),
    ensures
        tree_view(m).dom().finite(),
{
    let f = |h: Handle| NodeId(h);
    assert(tree_view(m).dom() =~= m.dom().map(f)) by {
        assert forall|n: NodeId| tree_view(m).dom().contains(n) implies m.dom().map(f).contains(n) by {
            assert(f(n.0) == n);
        }
    }
    m.dom().lemma_map_finite(f);
}

/// The nodes of a node storage, keyed by node id.
pub open spec fn tree_view<D>(m: Map<Handle, Node<D>>) -> Map<NodeId, Node<D>> {
    Map::new(|n: NodeId| m.contains_key(n.0), |n: NodeId| m[n.0])
}

proof fn lemma_tree_view_insert<D>(m: Map<Handle, Node<D>>, h: NodeId, n: Node<D>)
    ensures
        tree_view(m.insert(h.0, n)) == tree_view(m).insert(h, n),
{
    assert(tree_view(m.insert(h.0, n)) =~= tree_view(m).insert(h, n));
}

/// Replacing a node by one with the same links keeps the links and the
/// depth numbering consistent.
proof fn lemma_same_links_keep_wf<D>(
    m: Map<Handle, Node<D>>,
    depth: Map<NodeId, nat>,
    h: NodeId,
    n: Node<D>,
)
    requires
        m.contains_key(h.0),
    ensures
        links_consistent(tree_view(m)) && depth_consistent(tree_view(m), depth) && n.parent
            == tree_view(m)[h].parent && n.children@ == tree_view(m)[h].children@ ==> links_consistent(
            tree_view(m.insert(h.0, n)),
        ) && depth_consistent(tree_view(m.insert(h.0, n)), depth),
{
    let t = tree_view(m);
    lemma_tree_view_insert(m, h, n);
    if links_consistent(t) && depth_consistent(t, depth) && n.parent == t[h].parent
        && n.children@ == t[h].children@ {
        let u = t.insert(h, n);
        assert forall|x: NodeId| #[trigger] u.contains_key(x) implies match u[x].parent {
            Some(p) => u.contains_key(p) && u[p].children@.contains(x),
            None => true,
        } by {
            assert(t.contains_key(x));
            if let Some(p) = u[x].parent {
                assert(t[x].parent == Some(p));
                assert(t[p].children@.contains(x));
            }
        }
        assert forall|x: NodeId, i: int|
            u.contains_key(x) && 0 <= i < u[x].children@.len() implies u.contains_key(
            #[trigger] u[x].children@[i],
        ) && u[u[x].children@[i]].parent == Some(x) by {
            assert(t[x].children@ == u[x].children@);
            assert(t.contains_key(t[x].children@[i]));
        }
        assert forall|x: NodeId| #[trigger] u.contains_key(x) implies u[x].children@.no_duplicates() by {
            assert(t[x].children@ == u[x].children@);
        }
        assert forall|x: NodeId| #[trigger] u.contains_key(x) implies depth.contains_key(x) && match u[x].parent {
            Some(p) => depth.contains_key(p) && depth[x] == depth[p] + 1,
            None => true,
        } by {
            assert(t.contains_key(x));
            assert(u[x].parent == t[x].parent);
        }
        assert(links_consistent(u));
        assert(u == tree_view(m.insert(h.0, n)));
    }
}

proof fn lemma_first_index<A>(s: Seq<A>, x: A)
    requires
        s.contains(x),
    ensures
        0 <= first_index_of(s, x) < s.len(),
        s[first_index_of(s, x)] == x,
        forall|j: int| 0 <= j < first_index_of(s, x) ==> s[j] != x,
    decreases s.len(),
{
    if s[0] == x {
        assert(0 <= 0 < s.len() && s[0] == x && forall|j: int| 0 <= j < 0 ==> s[j] != x);
    } else {
        let k = choose|k: int| 0 <= k < s.len() && s[k] == x;
        let tail = s.drop_first();
        assert(tail[k - 1] == x);
        lemma_first_index(tail, x);
        let j = first_index_of(tail, x);
        assert(s[j + 1] == x);
        assert forall|m: int| 0 <= m < j + 1 implies s[m] != x by {
            if m > 0 {
                assert(s[m] == tail[m - 1]);
            }
        }
    }
}

proof fn lemma_remove_first<A>(s: Seq<A>, x: A)
    ensures
        forall|y: A| #[trigger] remove_first(s, x).contains(y) ==> s.contains(y),
        forall|y: A| y != x && s.contains(y) ==> #[trigger] remove_first(s, x).contains(y),
        s.no_duplicates() ==> remove_first(s, x).no_duplicates() && !remove_first(s, x).contains(x),
{
    if s.contains(x) {
        let i = first_index_of(s, x);
        let r = s.remove(i);
        lemma_first_index(s, x);
        assert forall|y: A| #[trigger] r.contains(y) implies s.contains(y) by {
            let k = choose|k: int| 0 <= k < r.len() && r[k] == y;
            if k < i {
                assert(s[k] == y);
            } else {
                assert(s[k + 1] == y);
            }
        }
        assert forall|y: A| y != x && s.contains(y) implies #[trigger] r.contains(y) by {
            let k = choose|k: int| 0 <= k < s.len() && s[k] == y;
            if k < i {
                assert(r[k] == y);
            } else {
                assert(k != i);
                assert(r[k - 1] == y);
            }
        }
        if s.no_duplicates() {
            assert forall|a: int, b: int| 0 <= a < r.len() && 0 <= b < r.len() && a != b implies r[a] != r[b] by {
                let sa = if a < i { a } else { a + 1 };
                let sb = if b < i { b } else { b + 1 };
                assert(r[a] == s[sa]);
                assert(r[b] == s[sb]);
            }
            if r.contains(x) {
                let k = choose|k: int| 0 <= k < r.len() && r[k] == x;
                let sk = if k < i { k } else { k + 1 };
                assert(s[sk] == x);
            }
        }
    }
}

proof fn lemma_ancestor_depth<D>(
    t: Map<NodeId, Node<D>>,
    depth: Map<NodeId, nat>,
    y: NodeId,
    k: nat,
    a: NodeId,
)
    requires
        links_consistent(t),
        depth_consistent(t, depth),
        ancestor(t, y, k) == Some(a),
    ensures
        t.contains_key(y),
        t.contains_key(a),
        depth.contains_key(a),
        depth.contains_key(y),
        depth[a] + k == depth[y],
    decreases k,
{
    if k > 0 {
        let p = t[y].parent->0;
        lemma_ancestor_depth(t, depth, p, (k - 1) as nat, a);
    }
}

proof fn lemma_descends_step<D>(t: Map<NodeId, Node<D>>, y: NodeId, p: NodeId, of: NodeId)
    requires
        t.contains_key(y),
        t[y].parent == Some(p),
        y != of,
    ensures
        descends_from(t, y, of) == descends_from(t, p, of),
{
    if descends_from(t, y, of) {
        let k = choose|k: nat| ancestor(t, y, k) == Some(of);
        assert(k > 0);
        assert(ancestor(t, p, (k - 1) as nat) == Some(of));
    }
    if descends_from(t, p, of) {
        let k = choose|k: nat| ancestor(t, p, k) == Some(of);
        assert(ancestor(t, y, k + 1) == Some(of));
    }
}

/// The depth numbering of the tree after a move that keeps it acyclic.
spec fn depth_after_move<D>(
    t: Map<NodeId, Node<D>>,
    depth: Map<NodeId, nat>,
    of: NodeId,
    to: Option<NodeId>,
) -> Map<NodeId, nat> {
    let base: int = match to {
        Some(q) => depth[q] + 1int,
        None => 0,
    };
    Map::new(
        |n: NodeId| depth.contains_key(n),
        |n: NodeId|
            if descends_from(t, n, of) {
                (depth[n] - depth[of] + base) as nat
            } else {
                depth[n]
            },
    )
}

proof fn lemma_move_keeps_wf<D>(
    t: Map<NodeId, Node<D>>,
    u: Map<NodeId, Node<D>>,
    depth: Map<NodeId, nat>,
    of: NodeId,
    to: Option<NodeId>,
)
    requires
        links_consistent(t),
        depth_consistent(t, depth),
        moved_under(t, u, of, to),
        t.contains_key(of),
        to matches Some(q) ==> t.contains_key(q) && !descends_from(t, q, of),
    ensures
        links_consistent(u),
        depth_consistent(u, depth_after_move(t, depth, of, to)),
{
    let nd = depth_after_move(t, depth, of, to);
    assert(ancestor(t, of, 0) == Some(of));
    assert(descends_from(t, of, of));
    assert forall|y: NodeId| #[trigger] u.contains_key(y) implies nd.contains_key(y) && match u[y].parent {
        Some(p) => nd.contains_key(p) && nd[y] == nd[p] + 1,
        None => true,
    } by {
        assert(t.contains_key(y));
        if let Some(p) = u[y].parent {
            if y == of {
                assert(to == Some(p));
            } else {
                assert(t[y].parent == Some(p));
                lemma_descends_step(t, y, p, of);
                if descends_from(t, y, of) {
                    let k = choose|k: nat| ancestor(t, y, k) == Some(of);
                    lemma_ancestor_depth(t, depth, y, k, of);
                    let k2 = choose|k: nat| ancestor(t, p, k) == Some(of);
                    lemma_ancestor_depth(t, depth, p, k2, of);
                }
            }
        }
    }
    lemma_move_keeps_links(t, u, of, to);
}

/// Moving a node under another keeps every parent link mirrored by a
/// child link and back, whether or not the move closes a cycle.
proof fn lemma_move_keeps_links<D>(
    t: Map<NodeId, Node<D>>,
    u: Map<NodeId, Node<D>>,
    of: NodeId,
    to: Option<NodeId>,
)
    requires
        links_consistent(t),
        moved_under(t, u, of, to),
        t.contains_key(of),
        to matches Some(q) ==> t.contains_key(q),
    ensures
        links_consistent(u),
{
    assert forall|y: NodeId| #[trigger] u.contains_key(y) implies match u[y].parent {
        Some(p) => u.contains_key(p) && u[p].children@.contains(y),
        None => true,
    } by {
        assert(t.contains_key(y));
        if let Some(p) = u[y].parent {
            assert(u.contains_key(p));
            let c = t[p].children@;
            let c1 = if t[of].parent == Some(p) { remove_first(c, of) } else { c };
            if y == of {
                assert(c1.push(of)[c1.len() as int] == of);
            } else {
                assert(t[y].parent == Some(p));
                assert(c.contains(y));
                lemma_remove_first(c, of);
                assert(c1.contains(y));
                if to == Some(p) {
                    let k = choose|k: int| 0 <= k < c1.len() && c1[k] == y;
                    assert(c1.push(of)[k] == y);
                }
            }
        }
    }
    assert forall|n: NodeId, i: int|
        u.contains_key(n) && 0 <= i < u[n].children@.len() implies u.contains_key(#[trigger] u[n].children@[i])
        && u[u[n].children@[i]].parent == Some(n) by {
        let c = t[n].children@;
        let c1 = if t[of].parent == Some(n) { remove_first(c, of) } else { c };
        let x = u[n].children@[i];
        lemma_remove_first(c, of);
        if to == Some(n) && i == c1.len() {
            assert(x == of);
        } else {
            assert(x == c1[i]);
            assert(c1.contains(x));
            assert(c.contains(x));
            let k = choose|k: int| 0 <= k < c.len() && c[k] == x;
            assert(t.contains_key(c[k]) && t[c[k]].parent == Some(n));
            if x == of {
                assert(t[of].parent == Some(n));
                assert(!c1.contains(of));
            }
        }
    }
    assert forall|n: NodeId| #[trigger] u.contains_key(n) implies u[n].children@.no_duplicates() by {
        let c = t[n].children@;
        let c1 = if t[of].parent == Some(n) { remove_first(c, of) } else { c };
        lemma_remove_first(c, of);
        assert(c1.no_duplicates());
        if to == Some(n) {
            if c1.contains(of) {
                assert(t[of].parent != Some(n));
                let k = choose|k: int| 0 <= k < c.len() && c[k] == of;
                assert(t[c[k]].parent == Some(n));
            }
            let d = c1.push(of);
            assert forall|a: int, b: int| 0 <= a < d.len() && 0 <= b < d.len() && a != b implies d[a] != d[b] by {
                if a < c1.len() && b < c1.len() {
                } else if a < c1.len() {
                    assert(c1.contains(d[a]));
                } else {
                    assert(c1.contains(d[b]));
                }
            }
        }
    }
}

proof fn lemma_distinct_live_bounded<D>(m: Map<Handle, Node<D>>, s: Seq<NodeId>)
    requires
        m.dom().finite(),
        s.no_duplicates(),
        forall|x: NodeId| #[trigger] s.contains(x) ==> m.contains_key(x.0),
    ensures
        s.len() <= m.dom().len(),
{
    s.unique_seq_to_set();
    let set = s.to_set();
    let f = |n: NodeId| n.0;
    assert(vstd::relations::injective_on(f, set));
    let img = set.map(f);
    vstd::set_lib::lemma_map_size(set, img, f);
    assert(img.subset_of(m.dom())) by {
        assert forall|h: Handle| #[trigger] img.contains(h) implies m.dom().contains(h) by {
            let x = choose|x: NodeId| set.contains(x) && f(x) == h;
            assert(s.contains(x));
        }
    }
    vstd::set_lib::lemma_len_subset(img, m.dom());
}

proof fn lemma_child_descends<D>(t: Map<NodeId, Node<D>>, x: NodeId, p: NodeId, root: NodeId)
    requires
        t.contains_key(x),
        t[x].parent == Some(p),
        descends_from(t, p, root),
    ensures
        descends_from(t, x, root),
{
    let k = choose|k: nat| ancestor(t, p, k) == Some(root);
    assert(ancestor(t, x, k + 1) == Some(root));
}

proof fn lemma_collected_all<D>(
    t: Map<NodeId, Node<D>>,
    coll: Seq<NodeId>,
    root: NodeId,
    x: NodeId,
    k: nat,
)
    requires
        links_consistent(t),
        coll.len() > 0,
        coll[0] == root,
        forall|i: int, c: NodeId|
            0 <= i < coll.len() && #[trigger] t[coll[i]].children@.contains(c) ==> coll.contains(c),
        ancestor(t, x, k) == Some(root),
    ensures
        coll.contains(x),
    decreases k,
{
    if k == 0 {
        assert(coll[0] == x);
    } else {
        let p = t[x].parent->0;
        lemma_collected_all(t, coll, root, p, (k - 1) as nat);
        let i = choose|i: int| 0 <= i < coll.len() && coll[i] == p;
        assert(t[coll[i]].children@.contains(x));
    }
}

/// Position of the first occurrence of `x` in `v`, which must hold it.
fn index_of(v: &Vec<NodeId>, x: NodeId) -> (res: usize)
    requires
        v@.contains(x),
    ensures
        res < v@.len(),
        res == first_index_of(v@, x),
{
    let mut i: usize = 0;
    while i < v.len()
        invariant
            i <= v@.len(),
            v@.contains(x),
            forall|j: int| 0 <= j < i ==> v@[j] != x,
        decreases v@.len() - i,
    {
        if v[i] == x {
            proof {
                lemma_first_index(v@, x);
                let k = first_index_of(v@, x);
                if k < i {
                } else if k > i {
                }
            }
            return i;
        }
        i = i + 1;
    }
    proof {
        let k = choose|k: int| 0 <= k < v@.len() && v@[k] == x;
    }
    0
}

/// The nodes of a scene, and the node that is the current scene's root.
#[derive(Clone)]
pub struct SceneTree<D> {
    pub map: GenMap<Node<D>>,
    root: Option<NodeId>,
    depth: Ghost<Map<NodeId, nat>>,
}

impl<D> View for SceneTree<D> {
    type V = Map<NodeId, Node<D>>;

    /// The live nodes, by id.
    closed spec fn view(&self) -> Map<NodeId, Node<D>> {
        tree_view(self.map@)
    }
}

impl<D> SceneTree<D> {
    /// The root of the current scene.
    pub closed spec fn spec_root(&self) -> Option<NodeId> {
        self.root
    }

    /// The node storage is consistent.
    pub closed spec fn storage_ok(&self) -> bool {
        self.map.wf()
    }

    /// Storing one more node overflows no counter.
    pub closed spec fn can_insert(&self) -> bool {
        self.map.can_insert()
    }

    /// Number of storage slots, live or freed.
    pub closed spec fn spec_slot_count(&self) -> nat {
        self.map.spec_slot_count()
    }

    /// The id that the next stored node gets.
    pub closed spec fn spec_next_id(&self) -> NodeId {
        NodeId(self.map.spec_next_handle())
    }

    /// The ids that the next `n` stored nodes get, in order.
    pub closed spec fn spec_next_ids(&self, n: nat) -> Seq<NodeId> {
        self.map.spec_next_handles(n).map_values(|h: Handle| NodeId(h))
    }

    /// Storing `n` more nodes overflows no counter.
    pub closed spec fn can_insert_many(&self, n: nat) -> bool {
        self.map.can_insert_many(n)
    }

    /// Whether storing `n` more nodes overflows no counter.
    pub fn has_room_for(&self, n: usize) -> (res: bool)
        requires
            self.storage_ok(),
        ensures
            res == self.can_insert_many(n as nat),
    {
        self.map.has_room_for(n)
    }

    /// The storage is consistent, the links agree with each other, and
    /// the parent links contain no cycle.
    pub closed spec fn wf(&self) -> bool {
        &&& self.map.wf()
        &&& links_consistent(self@)
        &&& depth_consistent(self@, self.depth@)
    }

    /// A well-formed tree has consistent node storage.
    pub proof fn lemma_wf_storage(&self)
        requires
            self.wf(),
        ensures
            self.storage_ok(),
    {
    }

    /// An empty tree without a root.
    pub fn new() -> (res: Self)
        ensures
            res.wf(),
            res.storage_ok(),
            res@ == Map::<NodeId, Node<D>>::empty(),
            res.spec_root() is None,
            res.can_insert(),
            forall|n: nat| n <= usize::MAX ==> #[trigger] res.can_insert_many(n),
    {
        let res = SceneTree { map: GenMap::with_capacity(0), root: None, depth: Ghost(Map::empty()) };
        assert(res@ =~= Map::<NodeId, Node<D>>::empty());
        res
    }

    /// Stores `node` under a fresh id.  A node that comes without links
    /// keeps a well-formed tree well-formed.
    pub fn insert(&mut self, node: Node<D>) -> (id: NodeId)
        requires
            old(self).storage_ok(),
            old(self).can_insert(),
        ensures
            final(self).storage_ok(),
            id == old(self).spec_next_id(),
            id == old(self).spec_next_ids(1)[0],
            forall|n: nat| #[trigger]
                final(self).spec_next_ids(n) == old(self).spec_next_ids(n + 1).drop_first(),
            !old(self)@.contains_key(id),
            final(self)@ == old(self)@.insert(id, node),
            final(self).spec_root() == old(self).spec_root(),
            old(self).wf() && node.parent is None && node.children@.len() == 0 ==> final(self).wf(),
            forall|n: nat| #[trigger]
                old(self).can_insert_many(n) && n >= 1 ==> final(self).can_insert_many((n - 1) as nat),
    {
        let ghost old_view = self@;
        let ghost n = node;
        let h = self.map.insert(node);
        let id = NodeId(h);
        proof {
            self.depth@ = self.depth@.insert(id, 0);
            old(self).map.lemma_next_handles_len(1);
            assert(old(self).spec_next_ids(1)[0] == NodeId(old(self).map.spec_next_handles(1)[0]));
            assert forall|n: nat| #[trigger]
                self.spec_next_ids(n) == old(self).spec_next_ids(n + 1).drop_first() by {
                old(self).map.lemma_next_handles_len(n + 1);
                self.map.lemma_next_handles_len(n);
                assert(self.map.spec_next_handles(n) == old(self).map.spec_next_handles(n + 1).drop_first());
                assert(self.spec_next_ids(n) =~= old(self).spec_next_ids(n + 1).drop_first());
            }
            assert(self@ =~= old_view.insert(id, n));
        }
        id
    }

    /// Number of slots of the node storage, live or freed.
    pub fn len(&self) -> (res: usize)
        requires
            self.storage_ok(),
        ensures
            res == self.spec_slot_count(),
    {
        self.map.inner_unck().len()
    }

    /// Whether `handle` names a live node.
    pub fn node_exists(&self, handle: NodeId) -> (res: bool)
        requires
            self.storage_ok(),
        ensures
            res == self@.contains_key(handle),
    {
        self.map.get(handle.0).is_some()
    }

    /// The node named by `handle`, which must be live.
    pub fn get(&self, handle: NodeId) -> (res: &Node<D>)
        requires
            self.storage_ok(),
            self@.contains_key(handle),
        ensures
            *res == self@[handle],
    {
        self.map.get(handle.0).unwrap()
    }

    /// The node named by `handle`, which must be live, for changing.
    /// A change that leaves the node's links as they were keeps a
    /// well-formed tree well-formed.
    pub fn get_mut(&mut self, handle: NodeId) -> (res: &mut Node<D>)
        requires
            old(self).storage_ok(),
            old(self)@.contains_key(handle),
        ensures
            *res == old(self)@[handle],
            final(self)@ == old(self)@.insert(handle, *final(res)),
            final(self).storage_ok(),
            final(self).spec_slot_count() == old(self).spec_slot_count(),
            final(self).can_insert() == old(self).can_insert(),
            forall|n: nat| #[trigger] final(self).can_insert_many(n) == old(self).can_insert_many(n),
            forall|n: nat| #[trigger] final(self).spec_next_ids(n) == old(self).spec_next_ids(n),
            final(self).spec_root() == old(self).spec_root(),
            old(self).wf() && final(res).parent == old(self)@[handle].parent && final(res).children@
                == old(self)@[handle].children@ ==> final(self).wf(),
    {
        self.node_mut(handle)
    }

    fn node_mut(&mut self, handle: NodeId) -> (res: &mut Node<D>)
        requires
            old(self).storage_ok(),
            old(self)@.contains_key(handle),
        ensures
            final(self).depth == old(self).depth,
            final(self)@ == old(self)@.insert(handle, *final(res)),
            old(self).wf() && final(res).parent == old(self)@[handle].parent && final(res).children@
                == old(self)@[handle].children@ ==> links_consistent(final(self)@),
            old(self).wf() && final(res).parent == old(self)@[handle].parent && final(res).children@
                == old(self)@[handle].children@ ==> depth_consistent(final(self)@, final(self).depth@),
            final(self).map.wf(),
            final(self).root == old(self).root,
            final(self).map.spec_slot_count() == old(self).map.spec_slot_count(),
            final(self).map.can_insert() == old(self).map.can_insert(),
            forall|n: nat| #[trigger] final(self).map.can_insert_many(n) == old(self).map.can_insert_many(n),
            forall|n: nat| #[trigger] final(self).map.spec_next_handles(n) == old(self).map.spec_next_handles(n),
            *res == old(self)@[handle],
    {
        let ghost old_map = self.map@;
        let ghost depth = self.depth@;
        let r = self.map.get_mut(handle.0).unwrap();
        proof {
            lemma_same_links_keep_wf(old_map, depth, handle, *final(r));
        }
        r
    }

    /// Makes `to` the parent of `of` (or makes `of` parentless): `of` is
    /// taken out of its old parent's children and appended to `to`'s.
    /// When `to` does not lie in the subtree of `of`, a well-formed tree
    /// stays well-formed.
    pub fn set_parent(&mut self, of: NodeId, to: Option<NodeId>)
        requires
            old(self).storage_ok(),
            old(self)@.contains_key(of),
            old(self)@[of].parent matches Some(p) ==> old(self)@.contains_key(p) && old(
                self,
            )@[p].children@.contains(of),
            to matches Some(q) ==> old(self)@.contains_key(q),
        ensures
            final(self).storage_ok(),
            moved_under(old(self)@, final(self)@, of, to),
            final(self).spec_root() == old(self).spec_root(),
            final(self).spec_slot_count() == old(self).spec_slot_count(),
            final(self).can_insert() == old(self).can_insert(),
            forall|n: nat| #[trigger] final(self).can_insert_many(n) == old(self).can_insert_many(n),
            forall|n: nat| #[trigger] final(self).spec_next_ids(n) == old(self).spec_next_ids(n),
            forall|n: NodeId|
                #[trigger] old(self)@.contains_key(n) && n != of && old(self)@[of].parent != Some(n) && to
                    != Some(n) ==> final(self)@[n] == old(self)@[n],
            old(self).wf() ==> links_consistent(final(self)@),
            old(self).wf() && !(to matches Some(q) && descends_from(old(self)@, q, of))
                ==> final(self).wf(),
    {
        let ghost t = self@;
        let ghost wf_before = self.wf();
        let ghost depth = self.depth@;
        let old_parent_id = self.get(of).parent;
        {
            let of_node = self.node_mut(of);
            of_node.parent = to;
        }
        let ghost t1 = self@;
        if let Some(p) = old_parent_id {
            let old_parent = self.node_mut(p);
            let index = index_of(&old_parent.children, of);
            old_parent.children.remove(index);
        }
        let ghost t2 = self@;
        if let Some(q) = to {
            let to_parent = self.node_mut(q);
            to_parent.children.push(of);
        }
        proof {
            let u = self@;
            assert forall|n: NodeId| #[trigger] u.contains_key(n) implies u[n].children@ == children_after_move(t, of, to, n) by {
                if t[of].parent == Some(n) {
                    assert(t2[n].children@ == remove_first(t[n].children@, of));
                } else {
                    assert(t2[n].children@ == t[n].children@);
                }
            }
            assert(u.dom() =~= t.dom());
            if wf_before {
                lemma_move_keeps_links(t, u, of, to);
            }
            if wf_before && !(to matches Some(q) && descends_from(t, q, of)) {
                lemma_move_keeps_wf(t, u, depth, of, to);
                self.depth@ = depth_after_move(t, depth, of, to);
            }
        }
    }

    /// The nodes of the subtree of `root` in post-order: the subtrees of
    /// the children in the children's order, then the node.  So each node
    /// comes once, before its parent, and `root` comes last.
    #[verifier::spinoff_prover]
    #[verifier::rlimit(60)]
    pub fn iter_vec(&self, root: NodeId) -> (res: Vec<NodeId>)
        requires
            self.wf(),
            self@.contains_key(root),
        ensures
            res@.no_duplicates(),
            forall|x: NodeId| res@.contains(x) <==> descends_from(self@, x, root),
            forall|i: int|
                0 <= i < res@.len() && res@[i] != root ==> exists|j: int|
                    i < j < res@.len() && Some(#[trigger] res@[j]) == self@[res@[i]].parent,
            res@.len() > 0,
            res@[res@.len() - 1] == root,
            res@ == subtree_post_order(self@, root),
    {
        let ghost t = self@;
        let ghost depth = self.depth@;
        proof {
            self.map.lemma_finite();
            assert(ancestor(t, root, 0) == Some(root));
            lemma_tree_view_finite(self.map@);
        }
        let ghost bound = self.map@.dom().len();
        let ghost fuel: nat = t.dom().len() + 1;
        let ghost mut fuels: Seq<nat> = seq![fuel];
        let mut stack: Vec<NodeId> = Vec::new();
        stack.push(root);
        let mut coll: Vec<NodeId> = Vec::new();
        proof {
            assert forall|i: int, x: NodeId, k: nat|
                #![trigger ancestor(t, x, k), stack@[i]]
                0 <= i < stack@.len() && ancestor(t, x, k) == Some(stack@[i]) implies k < fuels[i] by {
                lemma_chain_bound(t, depth, x, k, root);
            }
            assert(stack@.drop_last() =~= Seq::<NodeId>::empty());
            assert(fuels.drop_last() =~= Seq::<nat>::empty());
            assert(walk_pending(t, stack@, fuels) =~= walk_of(t, root, fuel) + walk_pending(
                t,
                Seq::<NodeId>::empty(),
                Seq::<nat>::empty(),
            ));
            assert(coll@ + walk_pending(t, stack@, fuels) =~= walk_of(t, root, fuel));
        }
        while stack.len() > 0
            invariant
                fuels.len() == stack@.len(),
                coll@ + walk_pending(t, stack@, fuels) == walk_of(t, root, fuel),
                fuels_suffice(t, stack@, fuels),
                t.dom().finite(),
                self.wf(),
                t == self@,
                depth == self.depth@,
                bound == self.map@.dom().len(),
                self.map@.dom().finite(),
                t.contains_key(root),
                stack@.no_duplicates(),
                coll@.no_duplicates(),
                forall|x: NodeId| #[trigger] stack@.contains(x) ==> !coll@.contains(x),
                forall|x: NodeId|
                    #[trigger] stack@.contains(x) ==> descends_from(t, x, root),
                forall|x: NodeId|
                    #[trigger] coll@.contains(x) ==> descends_from(t, x, root),
                forall|i: int|
                    0 <= i < coll@.len() && coll@[i] != root ==> exists|j: int|
                        0 <= j < i && Some(#[trigger] coll@[j]) == t[coll@[i]].parent,
                forall|x: NodeId|
                    #[trigger] stack@.contains(x) && x != root ==> exists|j: int|
                        0 <= j < coll@.len() && Some(#[trigger] coll@[j]) == t[x].parent,
                forall|i: int, c: NodeId|
                    0 <= i < coll@.len() && #[trigger] t[coll@[i]].children@.contains(c)
                        ==> stack@.contains(c) || coll@.contains(c),
                coll@.len() == 0 ==> stack@ == seq![root],
                coll@.len() > 0 ==> coll@[0] == root,
            decreases bound - coll@.len(),
        {
            let ghost stack_old = stack@;
            let ghost coll_old = coll@;
            let node = stack.pop().unwrap();
            let ghost s0 = stack@;
            proof {
                assert(stack_old.contains(node));
                assert(!coll_old.contains(node));
                assert forall|x: NodeId| #[trigger] coll_old.push(node).contains(x) implies self.map@.contains_key(x.0) by {
                    if x != node {
                        assert(coll_old.contains(x));
                    }
                }
                lemma_distinct_live_bounded(self.map@, coll_old.push(node));
            }
            coll.push(node);
            let n = self.get(node);
            let ghost c = n.children@;
            let mut k: usize = 0;
            while k < n.children.len()
                invariant
                    k <= c.len(),
                    c == n.children@,
                    stack@ == s0 + c.subrange(0, k as int),
                decreases c.len() - k,
            {
                stack.push(n.children[k]);
                k = k + 1;
                proof {
                    assert(stack@ =~= s0 + c.subrange(0, k as int));
                }
            }
            proof {
                assert(c.subrange(0, c.len() as int) =~= c);
                let coll1 = coll@;
                assert(coll1 == coll_old.push(node));
                assert(t.contains_key(node));
                // children of `node` are new
                assert forall|x: NodeId| #[trigger] c.contains(x) implies !s0.contains(x) && !coll1.contains(x) by {
                    let i = choose|i: int| 0 <= i < c.len() && c[i] == x;
                    assert(t.contains_key(c[i]) && t[c[i]].parent == Some(node));
                    if x == node {
                        assert(depth[x] == depth[node] + 1);
                    } else if x == root {
                        let kk = choose|kk: nat| ancestor(t, node, kk) == Some(root);
                        lemma_ancestor_depth(t, depth, node, kk, root);
                    } else {
                        if s0.contains(x) {
                            assert(stack_old.contains(x));
                            let j = choose|j: int| 0 <= j < coll_old.len() && Some(#[trigger] coll_old[j]) == t[x].parent;
                            assert(coll_old.contains(node));
                        }
                        if coll1.contains(x) {
                            let i2 = choose|i2: int| 0 <= i2 < coll1.len() && coll1[i2] == x;
                            assert(i2 < coll_old.len());
                            assert(coll_old[i2] == x);
                            let j = choose|j: int| 0 <= j < i2 && Some(#[trigger] coll_old[j]) == t[coll_old[i2]].parent;
                            assert(coll_old.contains(node));
                        }
                    }
                }
                assert forall|x: NodeId| #[trigger] s0.contains(x) implies stack_old.contains(x) by {
                    let i = choose|i: int| 0 <= i < s0.len() && s0[i] == x;
                    assert(stack_old[i] == x);
                }
                assert(stack_old == s0.push(node));
                let st = stack@;
                assert(st == s0 + c);
                assert forall|x: NodeId| #[trigger] st.contains(x) implies s0.contains(x) || c.contains(x) by {
                    let i = choose|i: int| 0 <= i < st.len() && st[i] == x;
                    if i < s0.len() {
                        assert(s0[i] == x);
                    } else {
                        assert(c[i - s0.len()] == x);
                    }
                }
                assert forall|x: NodeId| #[trigger] s0.contains(x) implies st.contains(x) by {
                    let i = choose|i: int| 0 <= i < s0.len() && s0[i] == x;
                    assert(st[i] == x);
                }
                assert forall|x: NodeId| #[trigger] c.contains(x) implies st.contains(x) by {
                    let i = choose|i: int| 0 <= i < c.len() && c[i] == x;
                    assert(st[s0.len() + i] == x);
                }
                // distinctness of the new stack
                assert forall|a: int, b: int| 0 <= a < st.len() && 0 <= b < st.len() && a != b implies st[a] != st[b] by {
                    if a < s0.len() && b < s0.len() {
                        assert(stack_old[a] == st[a] && stack_old[b] == st[b]);
                    } else if a >= s0.len() && b >= s0.len() {
                        assert(st[a] == c[a - s0.len()] && st[b] == c[b - s0.len()]);
                    } else if a < s0.len() {
                        assert(s0.contains(st[a]));
                        assert(c.contains(st[b]));
                    } else {
                        assert(s0.contains(st[b]));
                        assert(c.contains(st[a]));
                    }
                }
                assert forall|x: NodeId| #[trigger] st.contains(x) implies !coll1.contains(x) by {
                    if s0.contains(x) {
                        assert(stack_old.contains(x));
                        if coll1.contains(x) {
                            let i2 = choose|i2: int| 0 <= i2 < coll1.len() && coll1[i2] == x;
                            if i2 < coll_old.len() {
                                assert(coll_old.contains(x));
                            } else {
                                assert(x == node);
                                let ia = choose|ia: int| 0 <= ia < s0.len() && s0[ia] == x;
                                assert(stack_old[ia] == x);
                                assert(stack_old[s0.len() as int] == node);
                            }
                        }
                    }
                }
                assert forall|x: NodeId| #[trigger] coll1.contains(x) implies coll_old.contains(x) || x == node by {
                    let i2 = choose|i2: int| 0 <= i2 < coll1.len() && coll1[i2] == x;
                    if i2 < coll_old.len() {
                        assert(coll_old[i2] == x);
                    }
                }
                assert forall|x: NodeId| #[trigger] st.contains(x) implies descends_from(t, x, root) by {
                    if s0.contains(x) {
                        assert(stack_old.contains(x));
                    } else {
                        let i = choose|i: int| 0 <= i < c.len() && c[i] == x;
                        assert(t.contains_key(c[i]) && t[c[i]].parent == Some(node));
                        lemma_child_descends(t, x, node, root);
                    }
                }
                assert forall|x: NodeId| #[trigger] coll1.contains(x) implies descends_from(t, x, root) by {
                    if x != node {
                        assert(coll_old.contains(x));
                    }
                }
                assert forall|i: int|
                    0 <= i < coll1.len() && coll1[i] != root implies exists|j: int|
                        0 <= j < i && Some(#[trigger] coll1[j]) == t[coll1[i]].parent by {
                    if i < coll_old.len() {
                        assert(coll1[i] == coll_old[i]);
                        let j = choose|j: int| 0 <= j < i && Some(#[trigger] coll_old[j]) == t[coll_old[i]].parent;
                        assert(coll1[j] == coll_old[j]);
                    } else {
                        assert(coll1[i] == node);
                        let j = choose|j: int| 0 <= j < coll_old.len() && Some(#[trigger] coll_old[j]) == t[node].parent;
                        assert(coll1[j] == coll_old[j]);
                    }
                }
                assert forall|x: NodeId|
                    #[trigger] st.contains(x) && x != root implies exists|j: int|
                        0 <= j < coll1.len() && Some(#[trigger] coll1[j]) == t[x].parent by {
                    if s0.contains(x) {
                        assert(stack_old.contains(x));
                        let j = choose|j: int| 0 <= j < coll_old.len() && Some(#[trigger] coll_old[j]) == t[x].parent;
                        assert(coll1[j] == coll_old[j]);
                    } else {
                        let i = choose|i: int| 0 <= i < c.len() && c[i] == x;
                        assert(t[c[i]].parent == Some(node));
                        assert(coll1[coll_old.len() as int] == node);
                    }
                }
                assert forall|i: int, ch: NodeId|
                    0 <= i < coll1.len() && #[trigger] t[coll1[i]].children@.contains(ch)
                        implies st.contains(ch) || coll1.contains(ch) by {
                    if i < coll_old.len() {
                        assert(coll1[i] == coll_old[i]);
                        assert(t[coll_old[i]].children@.contains(ch));
                        assert(stack_old.contains(ch) || coll_old.contains(ch));
                        if stack_old.contains(ch) {
                            let ia = choose|ia: int| 0 <= ia < stack_old.len() && stack_old[ia] == ch;
                            if ia < s0.len() {
                                assert(s0[ia] == ch);
                                assert(s0.contains(ch));
                                assert(st.contains(ch));
                            } else {
                                assert(ia == s0.len());
                                assert(ch == node);
                                assert(coll1[coll_old.len() as int] == ch);
                                assert(coll1.contains(ch));
                            }
                        } else {
                            assert(coll_old.contains(ch));
                            let ib = choose|ib: int| 0 <= ib < coll_old.len() && coll_old[ib] == ch;
                            assert(coll1[ib] == ch);
                            assert(coll1.contains(ch));
                        }
                    } else {
                        assert(coll1[i] == node);
                        assert(c.contains(ch));
                        assert(st.contains(ch));
                    }
                }
                assert forall|a: int, b: int| 0 <= a < coll1.len() && 0 <= b < coll1.len() && a != b implies coll1[a] != coll1[b] by {
                    if a < coll_old.len() && b < coll_old.len() {
                    } else if a < coll_old.len() {
                        assert(coll_old.contains(coll1[a]));
                    } else {
                        assert(coll_old.contains(coll1[b]));
                    }
                }
                if coll_old.len() == 0 {
                    assert(node == root);
                }
                assert(s0 =~= stack_old.drop_last());
                lemma_walk_step(t, coll_old, stack_old, fuels, walk_of(t, root, fuel));
                fuels = walk_next_fuels(t, stack_old, fuels);
            }
        }
        proof {
            assert(walk_pending(t, stack@, fuels) =~= Seq::<NodeId>::empty());
            assert(coll@ =~= walk_of(t, root, fuel));
            assert forall|x: NodeId| descends_from(t, x, root) implies coll@.contains(x) by {
                let kk = choose|kk: nat| ancestor(t, x, kk) == Some(root);
                assert forall|i: int, ch: NodeId|
                    0 <= i < coll@.len() && #[trigger] t[coll@[i]].children@.contains(ch) implies coll@.contains(ch) by {
                    assert(!stack@.contains(ch));
                }
                lemma_collected_all(t, coll@, root, x, kk);
            }
        }
        let mut res: Vec<NodeId> = Vec::new();
        let mut i = coll.len();
        while i > 0
            invariant
                i <= coll@.len(),
                res@.len() == coll@.len() - i,
                forall|j: int| 0 <= j < res@.len() ==> res@[j] == coll@[coll@.len() - 1 - j],
            decreases i,
        {
            i = i - 1;
            res.push(coll[i]);
        }
        proof {
            let len = coll@.len() as int;
            assert forall|x: NodeId| res@.contains(x) <==> coll@.contains(x) by {
                if res@.contains(x) {
                    let j = choose|j: int| 0 <= j < res@.len() && res@[j] == x;
                    assert(coll@[len - 1 - j] == x);
                }
                if coll@.contains(x) {
                    let j = choose|j: int| 0 <= j < len && coll@[j] == x;
                    assert(res@[len - 1 - j] == x);
                }
            }
            assert forall|a: int, b: int| 0 <= a < res@.len() && 0 <= b < res@.len() && a != b implies res@[a] != res@[b] by {
                assert(res@[a] == coll@[len - 1 - a]);
                assert(res@[b] == coll@[len - 1 - b]);
            }
            assert forall|a: int|
                0 <= a < res@.len() && res@[a] != root implies exists|j: int|
                    a < j < res@.len() && Some(#[trigger] res@[j]) == self@[res@[a]].parent by {
                let ca = len - 1 - a;
                assert(res@[a] == coll@[ca]);
                let j = choose|j: int| 0 <= j < ca && Some(#[trigger] coll@[j]) == t[coll@[ca]].parent;
                assert(res@[len - 1 - j] == coll@[j]);
            }
            assert(res@[len - 1] == coll@[0]);
            assert(res@ =~= coll@.reverse());
            lemma_walk_reversed(t, root, fuel);
        }
        res
    }

    /// The nodes of the current scene, as `iter_vec` lists them from the
    /// scene's root; empty when there is no root.
    pub fn iter_vec_root(&self) -> (res: Vec<NodeId>)
        requires
            self.wf(),
            self.spec_root() matches Some(r) ==> self@.contains_key(r),
        ensures
            self.spec_root() is None ==> res@.len() == 0,
            self.spec_root() matches Some(r) ==> {
                &&& res@.no_duplicates()
                &&& forall|x: NodeId| res@.contains(x) <==> descends_from(self@, x, r)
                &&& forall|i: int|
                    0 <= i < res@.len() && res@[i] != r ==> exists|j: int|
                        i < j < res@.len() && Some(#[trigger] res@[j]) == self@[res@[i]].parent
                &&& res@.len() > 0
                &&& res@[res@.len() - 1] == r
                &&& res@ == subtree_post_order(self@, r)
            },
    {
        match self.root {
            Some(root) => self.iter_vec(root),
            None => Vec::new(),
        }
    }

    /// Adds the nodes of a scene template: for each entry, in order, a new
    /// node that carries the entry's data, records its own id and hangs
    /// under the node of the entry's parent entry, which comes earlier in
    /// the template.  Returns the new nodes' ids in template order.
    #[verifier::spinoff_prover]
    pub fn instantiate(&mut self, template: Vec<(Option<usize>, D)>) -> (ids: Vec<NodeId>)
        requires
            old(self).wf(),
            old(self).can_insert_many(template@.len() as nat),
            forall|i: int|
                0 <= i < template@.len() ==> ((#[trigger] template@[i]).0 matches Some(p) ==> p < i),
        ensures
            final(self).wf(),
            final(self).storage_ok(),
            ids@.len() == template@.len(),
            ids@ == old(self).spec_next_ids(template@.len() as nat),
            holds_template(
                old(self)@,
                final(self)@,
                template@.map_values(|e: (Option<usize>, D)| e.0),
                template@.map_values(|e: (Option<usize>, D)| e.1),
                ids@,
            ),
            final(self).spec_root() == old(self).spec_root(),
    {
        let ghost t = self@;
        let ghost parents = template@.map_values(|e: (Option<usize>, D)| e.0);
        let ghost data = template@.map_values(|e: (Option<usize>, D)| e.1);
        let ghost n = template@.len();
        let ghost root = self.root;
        let len = template.len();
        let ghost nexts = self.spec_next_ids(n);
        proof {
            self.map.lemma_next_handles_len(n);
            assert(nexts.subrange(0, 0) =~= Seq::<NodeId>::empty());
            assert(nexts.subrange(0, n as int) =~= nexts);
        }
        let mut ids: Vec<NodeId> = Vec::new();
        proof {
            assert(holds_template(t, self@, parents, data, ids@)) by {
                assert(self@.dom() =~= t.dom() + ids@.to_set());
            }
        }
        for entry in it: template.into_iter()
            invariant
                self.wf(),
                it.seq() == template@,
                n == template@.len(),
                n == len,
                parents == template@.map_values(|e: (Option<usize>, D)| e.0),
                data == template@.map_values(|e: (Option<usize>, D)| e.1),
                forall|i: int|
                    0 <= i < template@.len() ==> ((#[trigger] template@[i]).0 matches Some(p) ==> p < i),
                ids@.len() == it.index(),
                it.index() <= n,
                self.can_insert_many((n - it.index()) as nat),
                holds_template(t, self@, parents, data, ids@),
                self.root == root,
                nexts.len() == n,
                ids@ == nexts.subrange(0, it.index() as int),
                self.spec_next_ids((n - it.index()) as nat) == nexts.subrange(it.index() as int, n as int),
        {
            let ghost k = ids@.len() as int;
            let ghost before = self@;
            assert(entry == template@[k]);
            let (parent, item) = entry;
            proof {
                self.map.lemma_can_insert_many((n - k) as nat);
            }
            let ghost before_ids = self.spec_next_ids((n - k) as nat);
            proof {
                self.map.lemma_next_handles_len((n - k) as nat);
                self.map.lemma_next_handles_prefix(1, (n - k) as nat);
                assert(self.spec_next_ids(1)[0] == before_ids[0]);
                assert(before_ids[0] == nexts[k]);
            }
            let id = self.insert(Node::new(item));
            let ghost inserted = self@;
            proof {
                assert(self.spec_next_ids((n - k - 1) as nat) == before_ids.drop_first());
            }
            assert(!before.contains_key(id));
            if let Some(p) = parent {
                assert(p < k);
                let parent_id = ids[p];
                proof {
                    assert(before.contains_key(ids@[p as int]));
                    lemma_leaf_descendants(inserted, id, parent_id);
                }
                self.set_parent(id, Some(parent_id));
                proof {
                    assert(self@.contains_key(id));
                    assert(self@[id].parent == Some(parent_id));
                    assert(self@[id].children@ == children_after_move(inserted, id, Some(parent_id), id));
                    assert(self@[id].children@ == inserted[id].children@);
                    assert(inserted[parent_id].children@.push(id) == children_after_move(
                        inserted,
                        id,
                        Some(parent_id),
                        parent_id,
                    ));
                }
            }
            let ghost linked = self@;
            let node = self.get_mut(id);
            node.node_id = id;
            proof {
                assert(self@.dom() =~= before.dom().insert(id));
                assert(self@[id].parent == linked[id].parent);
                assert(self@[id].children@ == linked[id].children@);
                assert(linked[id].children@.len() == 0);
                if let Some(p) = parent {
                    assert(linked[id].parent == Some(ids@[p as int]));
                } else {
                    assert(linked[id].parent == inserted[id].parent);
                    assert(linked[id].parent is None);
                }
                if let Some(p) = parent {
                    let q = ids@[p as int];
                    assert(linked.contains_key(q));
                    assert(self@[q] == linked[q]);
                    assert(inserted[q] == before[q]);
                    assert(linked[q].children@ == before[q].children@.push(id));
                    assert(linked[q].node_id == before[q].node_id);
                }
                assert forall|x: NodeId|
                    #[trigger] before.contains_key(x) && !(parent matches Some(p) && x == ids@[p as int])
                    implies self@[x] == before[x] by {
                    assert(x != id);
                    assert(inserted.contains_key(x));
                    assert(inserted[x] == before[x]);
                    assert(linked[x] == inserted[x]);
                }
                assert(parents[k] == parent);
                assert(data[k] == inserted[id].data);
                lemma_template_step(t, before, self@, parents, data, ids@, id);
                assert(self.spec_next_ids((n - k - 1) as nat) =~= nexts.subrange(k + 1, n as int));
            }
            ids.push(id);
            assert(ids@ =~= nexts.subrange(0, k + 1));
        }
        ids
    }

    /// The nodes of the current scene in drawing order: the reverse of the
    /// post-order from the root, so each node comes after its parent and
    /// before its children, the children's subtrees from the last child to
    /// the first; empty when there is no root.
    pub fn render_order(&self) -> (res: Vec<NodeId>)
        requires
            self.wf(),
            self.spec_root() matches Some(r) ==> self@.contains_key(r),
        ensures
            self.spec_root() is None ==> res@.len() == 0,
            self.spec_root() matches Some(r) ==> {
                &&& res@ == subtree_post_order(self@, r).reverse()
                &&& res@.len() > 0
                &&& res@[0] == r
                &&& forall|i: int|
                    #![trigger res@[i]]
                    0 < i < res@.len() ==> exists|j: int|
                        0 <= j < i && Some(#[trigger] res@[j]) == self@[res@[i]].parent
            },
    {
        let post = self.iter_vec_root();
        let mut res: Vec<NodeId> = Vec::new();
        let mut i = post.len();
        while i > 0
            invariant
                i <= post@.len(),
                res@.len() == post@.len() - i,
                forall|j: int| 0 <= j < res@.len() ==> res@[j] == post@[post@.len() - 1 - j],
            decreases i,
        {
            i = i - 1;
            res.push(post[i]);
        }
        proof {
            assert(res@ =~= post@.reverse());
            if let Some(r) = self.root {
                let len = post@.len() as int;
                assert(res@[0] == post@[len - 1]);
                assert forall|a: int| #![trigger res@[a]] 0 < a < res@.len() implies exists|j: int|
                    0 <= j < a && Some(#[trigger] res@[j]) == self@[res@[a]].parent by {
                    let pa = len - 1 - a;
                    assert(res@[a] == post@[pa]);
                    assert(post@[pa] != r) by {
                        assert(post@[len - 1] == r);
                        assert(post@.no_duplicates());
                    }
                    let j = choose|j: int| pa < j < len && Some(#[trigger] post@[j]) == self@[post@[pa]].parent;
                    assert(res@[len - 1 - j] == post@[j]);
                }
            }
        }
        res
    }

    /// Queues the subtree of `node` for freeing: every node in it is
    /// marked `queued_free`, and the nodes are returned in the order in
    /// which their components are told, children before parents (that of
    /// `iter_vec`).  Nothing else changes.
    pub fn queue_free(&mut self, node: NodeId) -> (res: Vec<NodeId>)
        requires
            old(self).wf(),
            old(self)@.contains_key(node),
        ensures
            final(self).wf(),
            res@ == subtree_post_order(old(self)@, node),
            final(self)@.dom() == old(self)@.dom(),
            forall|k: NodeId| #[trigger]
                final(self)@.contains_key(k) ==> final(self)@[k] == (if descends_from(old(self)@, k, node) {
                    queued(old(self)@[k])
                } else {
                    old(self)@[k]
                }),
            final(self).spec_root() == old(self).spec_root(),
            final(self).spec_slot_count() == old(self).spec_slot_count(),
            final(self).can_insert() == old(self).can_insert(),
            forall|n: nat| #[trigger] final(self).can_insert_many(n) == old(self).can_insert_many(n),
            forall|n: nat| #[trigger] final(self).spec_next_ids(n) == old(self).spec_next_ids(n),
    {
        let nodes = self.iter_vec(node);
        let ghost t = self@;
        let mut i: usize = 0;
        while i < nodes.len()
            invariant
                self.wf(),
                self.storage_ok(),
                t == old(self)@,
                nodes@ == subtree_post_order(t, node),
                nodes@.no_duplicates(),
                forall|x: NodeId| nodes@.contains(x) <==> descends_from(t, x, node),
                i <= nodes@.len(),
                self@.dom() == t.dom(),
                forall|k: NodeId| #[trigger]
                    self@.contains_key(k) ==> self@[k] == (if nodes@.subrange(0, i as int).contains(k) {
                        queued(t[k])
                    } else {
                        t[k]
                    }),
                self.spec_root() == old(self).spec_root(),
                self.spec_slot_count() == old(self).spec_slot_count(),
                self.can_insert() == old(self).can_insert(),
                forall|n: nat| #[trigger] self.can_insert_many(n) == old(self).can_insert_many(n),
                forall|n: nat| #[trigger] self.spec_next_ids(n) == old(self).spec_next_ids(n),
            decreases nodes@.len() - i,
        {
            let n = nodes[i];
            proof {
                assert(nodes@.contains(n));
                assert(self@.contains_key(n));
            }
            let ghost before = self@;
            let r = self.get_mut(n);
            r.queued_free = true;
            proof {
                assert forall|k: NodeId| #[trigger]
                    self@.contains_key(k) implies self@[k] == (if nodes@.subrange(0, i + 1).contains(k) {
                        queued(t[k])
                    } else {
                        t[k]
                    }) by {
                    if k == n {
                        assert(nodes@.subrange(0, i + 1)[i as int] == n);
                        assert(!nodes@.subrange(0, i as int).contains(n)) by {
                            if nodes@.subrange(0, i as int).contains(n) {
                                let j = choose|j: int| 0 <= j < i && #[trigger] nodes@.subrange(0, i as int)[j] == n;
                                assert(nodes@[j] == nodes@[i as int]);
                            }
                        }
                    } else {
                        assert(nodes@.subrange(0, i + 1).contains(k) == nodes@.subrange(0, i as int).contains(k)) by {
                            if nodes@.subrange(0, i + 1).contains(k) {
                                let j = choose|j: int| 0 <= j < i + 1 && #[trigger] nodes@.subrange(0, i + 1)[j] == k;
                                assert(nodes@.subrange(0, i as int)[j] == k);
                            }
                            if nodes@.subrange(0, i as int).contains(k) {
                                let j = choose|j: int| 0 <= j < i && #[trigger] nodes@.subrange(0, i as int)[j] == k;
                                assert(nodes@.subrange(0, i + 1)[j] == k);
                            }
                        }
                    }
                }
            }
            i = i + 1;
        }
        proof {
            assert(nodes@.subrange(0, nodes@.len() as int) =~= nodes@);
        }
        nodes
    }

    /// The root of the current scene.
    pub fn root(&self) -> (res: Option<NodeId>)
        ensures
            res == self.spec_root(),
    {
        self.root
    }

    /// Makes `node` the root of the current scene.
    pub fn set_root_node(&mut self, node: NodeId)
        ensures
            final(self).spec_root() == Some(node),
            final(self)@ == old(self)@,
            final(self).spec_slot_count() == old(self).spec_slot_count(),
            final(self).storage_ok() == old(self).storage_ok(),
            final(self).can_insert() == old(self).can_insert(),
            forall|n: nat| #[trigger] final(self).can_insert_many(n) == old(self).can_insert_many(n),
            forall|n: nat| #[trigger] final(self).spec_next_ids(n) == old(self).spec_next_ids(n),
            old(self).wf() ==> final(self).wf(),
    {
        self.root = Some(node);
    }
}

} // verus!
