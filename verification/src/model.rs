use vstd::prelude::*;
use crate::erased_state::{ErasedState, NoState, StateType};
use crate::type_id::{StateTypeId, TypeTag};

verus! {

/// A node's identity: its index in the arena. Indices are never reused, so
/// the identity of a node that is gone can never come to stand for a
/// younger node.
pub type NodeId = usize;

/// How a node's state is borrowed at the moment.
#[derive(Clone, Copy, PartialEq, Eq, Structural, Debug)]
pub enum BorrowFlag {
    /// No accessor is alive.
    Unused,
    /// That many shared accessors are alive; never zero.
    Reading(usize),
    /// One exclusive accessor is alive.
    Writing,
}

impl BorrowFlag {
    /// The flag once one more shared accessor has been handed out.
    pub open spec fn share(self) -> BorrowFlag {
        match self {
            BorrowFlag::Reading(k) => BorrowFlag::Reading((k + 1) as usize),
            _ => BorrowFlag::Reading(1),
        }
    }

    /// The flag once one shared accessor has been given back.
    pub open spec fn unshare(self) -> BorrowFlag {
        match self {
            BorrowFlag::Reading(k) if k > 1 => BorrowFlag::Reading((k - 1) as usize),
            _ => BorrowFlag::Unused,
        }
    }

    /// Whether one more shared accessor may be handed out.
    pub open spec fn can_share(self) -> bool {
        match self {
            BorrowFlag::Unused => true,
            BorrowFlag::Reading(k) => k < usize::MAX,
            BorrowFlag::Writing => false,
        }
    }
}

/// What a tree node is, as a mathematical value.
#[verifier::ext_equal]
pub struct NodeModel {
    /// The node's erased state.
    pub state: ErasedState,
    /// The serial number that the state was given when it was created.
    pub state_id: u64,
    /// Whether the node has to be rebuilt.
    pub dirty: bool,
    /// The nodes that have registered as readers of this node's state.
    pub dependents: Set<NodeId>,
    /// The node above, if any.
    pub parent: Option<NodeId>,
    /// The key under which this node provides its state to descendants, if
    /// it is an inheritance provider.
    pub inherited_key: Option<TypeTag>,
    /// How the state is borrowed.
    pub borrow: BorrowFlag,
    /// Whether the widget is still in the tree. Once it has been unmounted,
    /// the node is gone for good: only its slot and its place stay.
    pub alive: bool,
}

/// What a tree is, as a mathematical value: its nodes in the order of their
/// creation, and whether access to state currently goes unnoticed.
#[verifier::ext_equal]
pub struct TreeModel {
    pub nodes: Seq<NodeModel>,
    /// While set, mutable access to state marks nothing dirty.
    pub suppressed: bool,
}

impl TreeModel {
    /// Whether `n` names a node that is in the tree.
    pub open spec fn contains(self, n: NodeId) -> bool {
        n < self.nodes.len() && self.nodes[n as int].alive
    }

    /// Whether `n` names a node that is in the tree and whose state is of
    /// type `T`.
    pub open spec fn holds<T: StateType>(self, n: NodeId) -> bool {
        self.contains(n) && self.state(n).type_tag() == T::type_tag()
    }

    /// Whether the node `n` has to be rebuilt.
    pub open spec fn dirty(self, n: NodeId) -> bool {
        self.nodes[n as int].dirty
    }

    /// The nodes that have registered as readers of the state of `n`.
    pub open spec fn dependents(self, n: NodeId) -> Set<NodeId> {
        self.nodes[n as int].dependents
    }

    /// How the state of `n` is borrowed.
    pub open spec fn borrow(self, n: NodeId) -> BorrowFlag {
        self.nodes[n as int].borrow
    }

    /// The erased state of `n`.
    pub open spec fn state(self, n: NodeId) -> ErasedState {
        self.nodes[n as int].state
    }

    /// The serial number of the state of `n`.
    pub open spec fn state_id(self, n: NodeId) -> u64 {
        self.nodes[n as int].state_id
    }

    /// The node above `n`, if any.
    pub open spec fn parent(self, n: NodeId) -> Option<NodeId> {
        self.nodes[n as int].parent
    }

    /// The key under which `n` provides its state, if it provides it.
    pub open spec fn inherited_key(self, n: NodeId) -> Option<TypeTag> {
        self.nodes[n as int].inherited_key
    }

    /// Whether `a` lies strictly above `d` on the way to the root. Nodes
    /// that are gone keep their place on that way.
    pub open spec fn is_ancestor(self, a: NodeId, d: NodeId) -> bool
        decreases d,
    {
        &&& d < self.nodes.len()
        &&& self.nodes[d as int].parent matches Some(p)
        &&& p < d
        &&& (p == a || self.is_ancestor(a, p))
    }

    /// The shape that every tree has: a parent is older than its child, so
    /// the parent links form no cycle; only living descendants depend on a
    /// node; a node that is gone provides nothing and has no dependents; a
    /// count of readers is never zero.
    pub open spec fn wf(self) -> bool {
        forall|i: int|
            0 <= i < self.nodes.len() ==> {
                &&& (#[trigger] self.nodes[i]).parent matches Some(p) ==> p < i
                &&& self.nodes[i].dependents.finite()
                &&& forall|d: NodeId| #[trigger]
                    self.nodes[i].dependents.contains(d) ==> self.is_ancestor(i as NodeId, d)
                        && self.contains(d)
                &&& !self.nodes[i].alive ==> self.nodes[i].inherited_key is None
                    && self.nodes[i].dependents == Set::<NodeId>::empty()
                &&& self.nodes[i].borrow != BorrowFlag::Reading(0)
            }
    }

    /// The tree with one node more, added as the youngest.
    pub open spec fn push(self, node: NodeModel) -> TreeModel {
        TreeModel { nodes: self.nodes.push(node), ..self }
    }

    /// The node that a tree of `self`'s size gets next: it owns `state`, is
    /// clean, unborrowed and without dependents, and its state bears the
    /// next serial number.
    pub open spec fn fresh_node(
        self,
        state: ErasedState,
        parent: Option<NodeId>,
        inherited_key: Option<TypeTag>,
    ) -> NodeModel {
        NodeModel {
            state,
            state_id: self.nodes.len() as u64,
            dirty: false,
            dependents: Set::empty(),
            parent,
            inherited_key,
            borrow: BorrowFlag::Unused,
            alive: true,
        }
    }

    /// The tree after a node with `state` was created under `parent`.
    pub open spec fn created(
        self,
        state: ErasedState,
        parent: Option<NodeId>,
        inherited_key: Option<TypeTag>,
    ) -> TreeModel {
        self.push(self.fresh_node(state, parent, inherited_key))
    }

    pub open spec fn with_dirty(self, n: NodeId, dirty: bool) -> TreeModel {
        TreeModel {
            nodes: self.nodes.update(n as int, NodeModel { dirty, ..self.nodes[n as int] }),
            ..self
        }
    }

    /// The tree after `n` has been marked as in need of a rebuild.
    pub open spec fn mark_dirty(self, n: NodeId) -> TreeModel {
        self.with_dirty(n, true)
    }

    /// The tree after every node of `targets` has been marked dirty. Nodes
    /// that were dirty stay so; no other node is touched.
    pub open spec fn mark_all_dirty(self, targets: Set<NodeId>) -> TreeModel {
        TreeModel {
            nodes: Seq::new(
                self.nodes.len(),
                |i: int|
                    NodeModel {
                        dirty: self.nodes[i].dirty || targets.contains(i as NodeId),
                        ..self.nodes[i]
                    },
            ),
            ..self
        }
    }

    /// Whether `n` is told when the state of `a` is about to change: `a`
    /// itself is, and so is each of its direct dependents.
    pub open spec fn hears_of(self, a: NodeId, n: NodeId) -> bool {
        n == a || self.dependents(a).contains(n)
    }

    /// The tree after the direct dependents of `a` have been marked dirty.
    /// Dependents of dependents are not looked at.
    pub open spec fn mark_dependents_dirty(self, a: NodeId) -> TreeModel {
        self.mark_all_dirty(self.nodes[a as int].dependents)
    }

    /// The tree after a change of `a`'s state has been announced: `a` and
    /// its direct dependents are dirty.
    pub open spec fn notify(self, a: NodeId) -> TreeModel {
        self.mark_dirty(a).mark_dependents_dirty(a)
    }

    /// The tree after `d` has registered as a reader of `a`'s state.
    pub open spec fn register(self, a: NodeId, d: NodeId) -> TreeModel {
        TreeModel {
            nodes: self.nodes.update(
                a as int,
                NodeModel {
                    dependents: self.nodes[a as int].dependents.insert(d),
                    ..self.nodes[a as int]
                },
            ),
            ..self
        }
    }

    /// The tree after `d` has left every set of dependents.
    pub open spec fn deregister(self, d: NodeId) -> TreeModel {
        TreeModel {
            nodes: Seq::new(
                self.nodes.len(),
                |i: int|
                    NodeModel {
                        dependents: self.nodes[i].dependents.remove(d),
                        ..self.nodes[i]
                    },
            ),
            ..self
        }
    }

    /// The node `n` as it is once it is gone: without state, key and
    /// dependents, clean and unborrowed, in the place where it was.
    pub open spec fn vacated(self, n: NodeId) -> NodeModel {
        NodeModel {
            state: ErasedState::NoState(NoState),
            dirty: false,
            dependents: Set::empty(),
            inherited_key: None,
            borrow: BorrowFlag::Unused,
            alive: false,
            ..self.nodes[n as int]
        }
    }

    /// The tree after `n` has gone: it has left every set of dependents, and
    /// its state is destroyed.
    pub open spec fn vacate(self, n: NodeId) -> TreeModel {
        TreeModel {
            nodes: self.deregister(n).nodes.update(n as int, self.vacated(n)),
            ..self
        }
    }

    /// The first provider of `key` that is met on the way from `start`
    /// upwards, `start` itself included.
    pub open spec fn provider_from(self, start: Option<NodeId>, key: TypeTag) -> Option<NodeId>
        decreases
            (match start {
                Some(p) => p + 1,
                None => 0,
            }),
    {
        match start {
            Some(p) if p < self.nodes.len() => {
                if self.nodes[p as int].inherited_key == Some(key) {
                    Some(p)
                } else {
                    match self.nodes[p as int].parent {
                        Some(q) if q < p => self.provider_from(Some(q), key),
                        _ => None,
                    }
                }
            },
            _ => None,
        }
    }

    /// The nearest node strictly above `n` that provides `key`.
    pub open spec fn nearest_provider(self, n: NodeId, key: TypeTag) -> Option<NodeId> {
        if self.contains(n) {
            match self.nodes[n as int].parent {
                Some(p) if p < n => self.provider_from(Some(p), key),
                _ => None,
            }
        } else {
            None
        }
    }

    /// The tree after `n` has asked for the nearest provider of `key`: where
    /// there is one, `n` is among its dependents; where there is none,
    /// nothing has changed.
    pub open spec fn depend_on(self, n: NodeId, key: TypeTag) -> TreeModel {
        match self.nearest_provider(n, key) {
            Some(a) => self.register(a, n),
            None => self,
        }
    }

    pub open spec fn with_borrow(self, n: NodeId, borrow: BorrowFlag) -> TreeModel {
        TreeModel {
            nodes: self.nodes.update(n as int, NodeModel { borrow, ..self.nodes[n as int] }),
            ..self
        }
    }

    /// The tree after one more shared accessor to `n`'s state was handed out.
    pub open spec fn borrow_shared(self, n: NodeId) -> TreeModel {
        self.with_borrow(n, self.nodes[n as int].borrow.share())
    }

    /// The tree after one shared accessor to `n`'s state was given back.
    pub open spec fn release_shared(self, n: NodeId) -> TreeModel {
        self.with_borrow(n, self.nodes[n as int].borrow.unshare())
    }

    /// The tree after the exclusive accessor to `n`'s state was handed out.
    pub open spec fn borrow_exclusive(self, n: NodeId) -> TreeModel {
        self.with_borrow(n, BorrowFlag::Writing)
    }

    /// The tree after the exclusive accessor to `n`'s state was given back.
    pub open spec fn release_exclusive(self, n: NodeId) -> TreeModel {
        self.with_borrow(n, BorrowFlag::Unused)
    }

    /// The tree in which `n`'s state holds `state`.
    pub open spec fn with_state(self, n: NodeId, state: ErasedState) -> TreeModel {
        TreeModel {
            nodes: self.nodes.update(n as int, NodeModel { state, ..self.nodes[n as int] }),
            ..self
        }
    }

    /// The tree as it was when it held its `n` oldest nodes only, but for
    /// what has happened to those since.
    pub open spec fn prefix(self, n: nat) -> TreeModel {
        TreeModel { nodes: self.nodes.take(n as int), ..self }
    }

    pub open spec fn with_suppressed(self, suppressed: bool) -> TreeModel {
        TreeModel { suppressed, ..self }
    }

    /// The tree after mutable access to `n`'s own state was taken: unless
    /// suppressed, `n` is dirty at once.
    pub open spec fn touch(self, n: NodeId) -> TreeModel {
        if self.suppressed {
            self
        } else {
            self.mark_dirty(n)
        }
    }

    /// The tree after mutable access to the inherited state of `a` was
    /// taken: unless suppressed, `a` and its direct dependents are dirty at
    /// once.
    pub open spec fn touch_inherited(self, a: NodeId) -> TreeModel {
        if self.suppressed {
            self
        } else {
            self.notify(a)
        }
    }
}

/// Whether the state of `n` is in `post` the one that it was in `pre`: the
/// node lives on, with a state of the same serial number and the same type.
pub open spec fn same_state_identity(pre: TreeModel, post: TreeModel, n: NodeId) -> bool {
    &&& post.contains(n)
    &&& post.nodes[n as int].state_id == pre.nodes[n as int].state_id
    &&& post.nodes[n as int].state.type_tag() == pre.nodes[n as int].state.type_tag()
}

/// What a lifecycle hook may do to a tree. It may change what states hold
/// and register dependents. It leaves alone the shape of the tree, every
/// dirty mark, the identity and the type of every state, every borrow and
/// the suppression flag; it takes no dependent away, and no node comes or
/// goes.
pub open spec fn lifecycle_step(pre: TreeModel, post: TreeModel) -> bool {
    &&& post.suppressed == pre.suppressed
    &&& post.nodes.len() == pre.nodes.len()
    &&& forall|i: int|
        0 <= i < pre.nodes.len() ==> {
            &&& (#[trigger] post.nodes[i]).parent == pre.nodes[i].parent
            &&& post.nodes[i].alive == pre.nodes[i].alive
            &&& post.nodes[i].inherited_key == pre.nodes[i].inherited_key
            &&& post.nodes[i].state_id == pre.nodes[i].state_id
            &&& post.nodes[i].state.type_tag() == pre.nodes[i].state.type_tag()
            &&& post.nodes[i].dirty == pre.nodes[i].dirty
            &&& post.nodes[i].borrow == pre.nodes[i].borrow
            &&& pre.nodes[i].dependents.subset_of(post.nodes[i].dependents)
        }
}

/// What mounting a widget does to a tree: one node is added as the youngest,
/// clean, unborrowed, with a state of the type that the widget declares; to
/// the nodes that were there, no more has happened than the mount hook may
/// do; the suppression flag is what it was.
pub open spec fn mount_step(
    pre: TreeModel,
    post: TreeModel,
    parent: Option<NodeId>,
    inherited_key: Option<TypeTag>,
    state_type: StateTypeId,
) -> bool {
    let n = pre.nodes.len() as int;
    &&& post.nodes.len() == n + 1
    &&& lifecycle_step(pre, post.prefix(pre.nodes.len()))
    &&& post.nodes[n].parent == parent
    &&& post.nodes[n].inherited_key == inherited_key
    &&& post.nodes[n].state_id == n
    &&& post.nodes[n].state.type_tag() == state_type
    &&& !post.nodes[n].dirty
    &&& post.nodes[n].borrow == BorrowFlag::Unused
    &&& post.nodes[n].alive
    &&& post.suppressed == pre.suppressed
}

/// What unmounting node `id` does to a tree: the node is gone, and it is
/// a dependent of no node any more; beyond that, no more has happened to the
/// other nodes than the unmount hook may do; the suppression flag is what it
/// was.
pub open spec fn unmount_step(pre: TreeModel, post: TreeModel, id: NodeId) -> bool {
    &&& post.nodes.len() == pre.nodes.len()
    &&& post.nodes[id as int] == pre.vacated(id)
    &&& forall|i: int|
        0 <= i < pre.nodes.len() && i != id ==> {
            &&& (#[trigger] post.nodes[i]).parent == pre.nodes[i].parent
            &&& post.nodes[i].alive == pre.nodes[i].alive
            &&& post.nodes[i].inherited_key == pre.nodes[i].inherited_key
            &&& post.nodes[i].state_id == pre.nodes[i].state_id
            &&& post.nodes[i].state.type_tag() == pre.nodes[i].state.type_tag()
            &&& post.nodes[i].dirty == pre.nodes[i].dirty
            &&& post.nodes[i].borrow == pre.nodes[i].borrow
            &&& pre.nodes[i].dependents.remove(id).subset_of(post.nodes[i].dependents)
            &&& !post.nodes[i].dependents.contains(id)
        }
    &&& post.suppressed == pre.suppressed
}

/// One lifecycle hook after another does no more than one hook may.
pub proof fn lemma_lifecycle_steps(first: TreeModel, second: TreeModel, third: TreeModel)
    requires
        lifecycle_step(first, second),
        lifecycle_step(second, third),
    ensures
        lifecycle_step(first, third),
{
    assert forall|i: int| 0 <= i < first.nodes.len() implies {
        &&& (#[trigger] third.nodes[i]).parent == first.nodes[i].parent
        &&& third.nodes[i].alive == first.nodes[i].alive
        &&& third.nodes[i].inherited_key == first.nodes[i].inherited_key
        &&& third.nodes[i].state_id == first.nodes[i].state_id
        &&& third.nodes[i].state.type_tag() == first.nodes[i].state.type_tag()
        &&& third.nodes[i].dirty == first.nodes[i].dirty
        &&& third.nodes[i].borrow == first.nodes[i].borrow
        &&& first.nodes[i].dependents.subset_of(third.nodes[i].dependents)
    } by {
        assert(second.nodes[i].parent == first.nodes[i].parent);
    }
}

/// Whether two trees have the same nodes hanging under the same parents,
/// `post` possibly holding younger nodes besides.
pub open spec fn same_shape(pre: TreeModel, post: TreeModel) -> bool {
    &&& pre.nodes.len() <= post.nodes.len()
    &&& forall|i: int|
        0 <= i < pre.nodes.len() ==> (#[trigger] post.nodes[i]).parent == pre.nodes[i].parent
}

/// Who is above whom depends on the parent links alone.
pub proof fn lemma_ancestor_by_shape(pre: TreeModel, post: TreeModel, a: NodeId, d: NodeId)
    requires
        same_shape(pre, post),
        pre.is_ancestor(a, d),
    ensures
        post.is_ancestor(a, d),
    decreases d,
{
    let p = pre.nodes[d as int].parent->Some_0;
    assert(post.nodes[d as int].parent == Some(p));
    if p != a {
        lemma_ancestor_by_shape(pre, post, a, p);
    }
}

/// A tree stays well formed under a change that keeps the parent links,
/// adds no dependent that is not a living descendant, gives a node that is
/// gone neither key nor dependents, and leaves no count of readers at zero.
pub proof fn lemma_wf_by_shape(pre: TreeModel, post: TreeModel)
    requires
        pre.wf(),
        same_shape(pre, post),
        forall|i: int|
            0 <= i < post.nodes.len() ==> (#[trigger] post.nodes[i]).dependents.finite()
                && post.nodes[i].borrow != BorrowFlag::Reading(0),
        forall|i: int|
            0 <= i < post.nodes.len() && !(#[trigger] post.nodes[i]).alive
                ==> post.nodes[i].inherited_key is None && post.nodes[i].dependents == Set::<
                NodeId,
            >::empty(),
        forall|i: int, d: NodeId|
            0 <= i < post.nodes.len() && (#[trigger] post.nodes[i].dependents.contains(d))
                ==> post.contains(d) && (post.is_ancestor(i as NodeId, d) || (i
                < pre.nodes.len() && pre.nodes[i].dependents.contains(d))),
        forall|i: int|
            pre.nodes.len() <= i < post.nodes.len() && (#[trigger] post.nodes[i]).parent is Some
                ==> post.nodes[i].parent->Some_0 < i,
    ensures
        post.wf(),
{
    assert forall|i: int| 0 <= i < post.nodes.len() implies {
        &&& (#[trigger] post.nodes[i]).parent matches Some(p) ==> p < i
        &&& post.nodes[i].dependents.finite()
        &&& forall|d: NodeId| #[trigger]
            post.nodes[i].dependents.contains(d) ==> post.is_ancestor(i as NodeId, d)
                && post.contains(d)
        &&& !post.nodes[i].alive ==> post.nodes[i].inherited_key is None
            && post.nodes[i].dependents == Set::<NodeId>::empty()
        &&& post.nodes[i].borrow != BorrowFlag::Reading(0)
    } by {
        if i < pre.nodes.len() {
            assert(pre.nodes[i].parent == post.nodes[i].parent);
        }
        assert forall|d: NodeId| post.nodes[i].dependents.contains(d) implies post.is_ancestor(
            i as NodeId,
            d,
        ) && post.contains(d) by {
            if !post.is_ancestor(i as NodeId, d) {
                lemma_ancestor_by_shape(pre, post, i as NodeId, d);
            }
        }
    }
}

/// Whether two trees have the same nodes in the same places, alive or gone
/// alike, with the same keys and the same dependents.
pub open spec fn same_skeleton(pre: TreeModel, post: TreeModel) -> bool {
    &&& post.nodes.len() == pre.nodes.len()
    &&& forall|i: int|
        0 <= i < pre.nodes.len() ==> {
            &&& (#[trigger] post.nodes[i]).parent == pre.nodes[i].parent
            &&& post.nodes[i].alive == pre.nodes[i].alive
            &&& post.nodes[i].inherited_key == pre.nodes[i].inherited_key
            &&& post.nodes[i].dependents == pre.nodes[i].dependents
        }
}

/// A tree stays well formed under a change that touches nothing but states,
/// dirty marks and borrows, and leaves no count of readers at zero.
pub proof fn lemma_wf_by_skeleton(pre: TreeModel, post: TreeModel)
    requires
        pre.wf(),
        same_skeleton(pre, post),
        forall|i: int|
            0 <= i < post.nodes.len() ==> (#[trigger] post.nodes[i]).borrow != BorrowFlag::Reading(
                0,
            ),
    ensures
        post.wf(),
{
    assert forall|i: int, d: NodeId|
        0 <= i < post.nodes.len() && (#[trigger] post.nodes[i].dependents.contains(
            d,
        )) implies post.contains(d) && pre.nodes[i].dependents.contains(d) by {
        assert(post.nodes[i].dependents == pre.nodes[i].dependents);
        assert(pre.contains(d));
        assert(post.nodes[d as int].alive == pre.nodes[d as int].alive);
    }
    assert forall|i: int| 0 <= i < post.nodes.len() && !(#[trigger] post.nodes[i]).alive implies {
        &&& post.nodes[i].inherited_key is None
        &&& post.nodes[i].dependents == Set::<NodeId>::empty()
    } by {
        assert(!pre.nodes[i].alive);
    }
    assert forall|i: int| 0 <= i < post.nodes.len() implies (
    #[trigger] post.nodes[i]).dependents.finite() by {
        assert(post.nodes[i].dependents == pre.nodes[i].dependents);
    }
    lemma_wf_by_shape(pre, post);
}

/// The nearest provider, where there is one, lies strictly above the node
/// that asked.
pub proof fn lemma_provider_from_is_above(tree: TreeModel, start: Option<NodeId>, key: TypeTag)
    requires
        tree.provider_from(start, key) is Some,
    ensures
        start is Some,
        tree.provider_from(start, key)->Some_0 < tree.nodes.len(),
        tree.nodes[tree.provider_from(start, key)->Some_0 as int].inherited_key == Some(key),
        tree.provider_from(start, key)->Some_0 == start->Some_0 || tree.is_ancestor(
            tree.provider_from(start, key)->Some_0,
            start->Some_0,
        ),
    decreases
        (match start {
            Some(p) => p + 1,
            None => 0,
        }),
{
    let p = start->Some_0;
    if tree.nodes[p as int].inherited_key != Some(key) {
        let q = tree.nodes[p as int].parent->Some_0;
        lemma_provider_from_is_above(tree, Some(q), key);
    }
}

/// What the ancestor lookup finds is a provider of the key and an ancestor
/// of the node that asked.
pub proof fn lemma_nearest_provider_is_ancestor(tree: TreeModel, n: NodeId, key: TypeTag)
    requires
        tree.nearest_provider(n, key) is Some,
    ensures
        tree.contains(n),
        tree.nearest_provider(n, key)->Some_0 < tree.nodes.len(),
        tree.nodes[tree.nearest_provider(n, key)->Some_0 as int].inherited_key == Some(key),
        tree.is_ancestor(tree.nearest_provider(n, key)->Some_0, n),
{
    let p = tree.nodes[n as int].parent->Some_0;
    lemma_provider_from_is_above(tree, Some(p), key);
}

/// A provider on the way up is never missed, and none is passed over: where
/// `a` is `start` or lies above it and provides `key`, the walk from `start`
/// finds a provider, and that one is `a` or lies below `a`.
pub proof fn lemma_provider_from_finds_the_nearest(
    tree: TreeModel,
    start: NodeId,
    key: TypeTag,
    a: NodeId,
)
    requires
        start < tree.nodes.len(),
        a == start || tree.is_ancestor(a, start),
        tree.inherited_key(a) == Some(key),
    ensures
        tree.provider_from(Some(start), key) is Some,
        tree.provider_from(Some(start), key)->Some_0 == a || tree.is_ancestor(
            a,
            tree.provider_from(Some(start), key)->Some_0,
        ),
    decreases start,
{
    if tree.inherited_key(start) != Some(key) {
        let q = tree.nodes[start as int].parent->Some_0;
        lemma_provider_from_finds_the_nearest(tree, q, key, a);
    }
}

/// The ancestor lookup finds a provider wherever one lies above the node
/// that asks, and it finds the nearest: every provider of the key above the
/// node is the one found or lies above it.
pub proof fn lemma_nearest_provider_is_nearest(tree: TreeModel, n: NodeId, key: TypeTag, a: NodeId)
    requires
        tree.contains(n),
        tree.is_ancestor(a, n),
        tree.inherited_key(a) == Some(key),
    ensures
        tree.nearest_provider(n, key) is Some,
        tree.nearest_provider(n, key)->Some_0 == a || tree.is_ancestor(
            a,
            tree.nearest_provider(n, key)->Some_0,
        ),
{
    let p = tree.nodes[n as int].parent->Some_0;
    lemma_provider_from_finds_the_nearest(tree, p, key, a);
}

/// A node is older than every node below it.
pub proof fn lemma_ancestor_is_older(tree: TreeModel, a: NodeId, d: NodeId)
    requires
        tree.is_ancestor(a, d),
    ensures
        a < d,
        d < tree.nodes.len(),
    decreases d,
{
    let p = tree.nodes[d as int].parent->Some_0;
    if p != a {
        lemma_ancestor_is_older(tree, a, p);
    }
}

/// The ancestors of a node lie on one line: of two of them, the older is an
/// ancestor of the younger.
pub proof fn lemma_ancestors_on_one_line(tree: TreeModel, a: NodeId, b: NodeId, d: NodeId)
    requires
        tree.is_ancestor(a, d),
        tree.is_ancestor(b, d),
        a < b,
    ensures
        tree.is_ancestor(a, b),
    decreases d,
{
    let p = tree.nodes[d as int].parent->Some_0;
    if p != b {
        lemma_ancestor_is_older(tree, b, p);
        lemma_ancestors_on_one_line(tree, a, b, p);
    }
}

/// Being above is transitive.
pub proof fn lemma_ancestor_below(tree: TreeModel, a: NodeId, b: NodeId, d: NodeId)
    requires
        tree.is_ancestor(a, b),
        tree.is_ancestor(b, d),
    ensures
        tree.is_ancestor(a, d),
    decreases d,
{
    let p = tree.nodes[d as int].parent->Some_0;
    if p != b {
        lemma_ancestor_below(tree, a, b, p);
    }
}

} // verus!
