use vstd::prelude::*;
use vstd::seq_lib::{lemma_seq_contains_after_push, seq_to_set_is_finite};
use crate::erased_state::{ErasedState, NoState, StateType};
use crate::model::{
    lemma_ancestor_below, lemma_ancestor_by_shape, lemma_ancestor_is_older,
    lemma_ancestors_on_one_line, lemma_nearest_provider_is_ancestor, lemma_wf_by_shape,
    lemma_wf_by_skeleton, same_shape,
    BorrowFlag, NodeId, NodeModel, TreeModel,
};
use crate::type_id::{StateTypeId, TypeTag};

verus! {

/// One node of the widget tree: the state of one mounted widget, its dirty
/// flag, its place in the tree and the readers of its state.
pub struct WidgetNode {
    state: ErasedState,
    state_id: u64,
    dirty: bool,
    dependents: Vec<NodeId>,
    parent: Option<NodeId>,
    inherited_key: Option<TypeTag>,
    borrow: BorrowFlag,
    alive: bool,
}

impl View for WidgetNode {
    type V = NodeModel;

    closed spec fn view(&self) -> NodeModel {
        NodeModel {
            state: self.state,
            state_id: self.state_id,
            dirty: self.dirty,
            dependents: self.dependents@.to_set(),
            parent: self.parent,
            inherited_key: self.inherited_key,
            borrow: self.borrow,
            alive: self.alive,
        }
    }
}

/// The arena that owns every node of one widget tree. Nodes refer to each
/// other by index only. A node that has gone leaves its slot behind, empty:
/// no index is given out twice.
///
/// The arena also holds the flag that suppresses the notice of mutable
/// access. Each tree has its own, so that two trees never interfere.
pub struct NodeArena {
    nodes: Vec<WidgetNode>,
    suppressed: bool,
}

impl View for NodeArena {
    type V = TreeModel;

    closed spec fn view(&self) -> TreeModel {
        TreeModel {
            nodes: Seq::new(self.nodes.len() as nat, |i: int| self.nodes[i]@),
            suppressed: self.suppressed,
        }
    }
}

impl NodeArena {
    /// What holds of the representation besides the shape of the model: no
    /// dependent is listed twice, and states are numbered in the order of
    /// their creation.
    pub closed spec fn inv(&self) -> bool {
        forall|i: int|
            0 <= i < self.nodes.len() ==> {
                &&& (#[trigger] self.nodes[i]).dependents@.no_duplicates()
                &&& self.nodes[i].state_id == i
            }
    }

    pub open spec fn wf(&self) -> bool {
        &&& self@.wf()
        &&& self.inv()
    }

    /// No two nodes share the serial number of their state.
    pub proof fn lemma_state_ids_are_distinct(&self, i: NodeId, j: NodeId)
        requires
            self.wf(),
            self@.contains(i),
            self@.contains(j),
            i != j,
        ensures
            self@.state_id(i) != self@.state_id(j),
    {
        assert(self.nodes[i as int].state_id == i);
        assert(self.nodes[j as int].state_id == j);
    }

    /// An empty tree, in which access to state is noticed.
    pub fn new() -> (arena: NodeArena)
        ensures
            arena.wf(),
            arena@.nodes.len() == 0,
            !arena@.suppressed,
    {
        NodeArena { nodes: Vec::new(), suppressed: false }
    }

    /// The number of nodes ever created, those that have gone included.
    pub fn len(&self) -> (n: usize)
        ensures
            n == self@.nodes.len(),
    {
        self.nodes.len()
    }

    /// Whether `id` names a node that is in this tree.
    pub fn contains(&self, id: NodeId) -> (r: bool)
        ensures
            r == self@.contains(id),
    {
        id < self.nodes.len() && self.nodes[id].alive
    }

    /// Adds a node under `parent`, or as a root where `parent` is `None`.
    /// The node owns `state` from now on, is clean, has no dependents yet and
    /// is not borrowed. Where `parent` names no node that is in the tree,
    /// nothing is added.
    pub fn insert(
        &mut self,
        parent: Option<NodeId>,
        state: ErasedState,
        inherited_key: Option<TypeTag>,
    ) -> (id: Option<NodeId>)
        requires
            old(self).wf(),
        ensures
            final(self).wf(),
            id is Some <==> (parent matches Some(p) ==> old(self)@.contains(p)),
            id is None ==> final(self)@ == old(self)@,
            id matches Some(n) ==> n == old(self)@.nodes.len(),
            id is Some ==> final(self)@ == old(self)@.created(state, parent, inherited_key),
    {
        let n: usize = self.nodes.len();
        match parent {
            Some(p) => {
                if !self.contains(p) {
                    return None;
                }
            },
            None => {},
        }
        let node = WidgetNode {
            state,
            state_id: n as u64,
            dirty: false,
            dependents: Vec::new(),
            parent,
            inherited_key,
            borrow: BorrowFlag::Unused,
            alive: true,
        };
        self.nodes.push(node);
        proof {
            let pre = old(self)@;
            let post = self@;
            assert(node.dependents@.to_set() =~= Set::<NodeId>::empty());
            assert(post.nodes =~= pre.nodes.push(node@));
            assert forall|i: int, d: NodeId|
                0 <= i < post.nodes.len() && #[trigger] post.nodes[i].dependents.contains(
                    d,
                ) implies post.contains(d) && i < pre.nodes.len()
                && pre.nodes[i].dependents.contains(d) by {
                assert(pre.contains(d));
            }
            lemma_wf_by_shape(pre, post);
        }
        Some(n)
    }

    /// Whether the node has to be rebuilt.
    pub fn is_dirty(&self, id: NodeId) -> (dirty: bool)
        requires
            self@.contains(id),
        ensures
            dirty == self@.dirty(id),
    {
        self.nodes[id].dirty
    }

    /// Marks the node as in need of a rebuild. Marking a dirty node changes
    /// nothing.
    pub fn mark_dirty(&mut self, id: NodeId)
        requires
            old(self).wf(),
            old(self)@.contains(id),
        ensures
            final(self).wf(),
            final(self)@ == old(self)@.mark_dirty(id),
    {
        self.nodes[id].dirty = true;
        proof {
            assert(self@.nodes =~= old(self)@.mark_dirty(id).nodes);
            lemma_wf_by_skeleton(old(self)@, self@);
        }
    }

    /// Takes the mark off the node, as the driver does once it has rebuilt
    /// it.
    pub fn clear_dirty(&mut self, id: NodeId)
        requires
            old(self).wf(),
            old(self)@.contains(id),
        ensures
            final(self).wf(),
            final(self)@ == old(self)@.with_dirty(id, false),
    {
        self.nodes[id].dirty = false;
        proof {
            assert(self@.nodes =~= old(self)@.with_dirty(id, false).nodes);
            lemma_wf_by_skeleton(old(self)@, self@);
        }
    }

    /// The node above `id`, if any.
    pub fn parent(&self, id: NodeId) -> (parent: Option<NodeId>)
        requires
            self@.contains(id),
        ensures
            parent == self@.parent(id),
    {
        self.nodes[id].parent
    }

    /// Whether the node provides its state to descendants under `key`.
    pub fn provides(&self, id: NodeId, key: TypeTag) -> (r: bool)
        requires
            self@.contains(id),
        ensures
            r == (self@.inherited_key(id) == Some(key)),
    {
        match self.nodes[id].inherited_key {
            Some(k) => k == key,
            None => false,
        }
    }

    /// The serial number of the node's state. It is given once, when the
    /// state is created, and tells that state from every other.
    pub fn state_id(&self, id: NodeId) -> (serial: u64)
        requires
            self@.contains(id),
        ensures
            serial == self@.state_id(id),
    {
        self.nodes[id].state_id
    }

    /// The identity of the type of the node's state.
    pub fn state_type_id(&self, id: NodeId) -> (tag: StateTypeId)
        requires
            self@.contains(id),
        ensures
            tag == self@.state(id).type_tag(),
    {
        self.nodes[id].state.state_type_id()
    }

    /// Whether `id` names a node that is in this tree and whose state is of
    /// type `T`.
    pub fn holds<T: StateType>(&self, id: NodeId) -> (r: bool)
        ensures
            r == self@.holds::<T>(id),
    {
        self.contains(id) && self.nodes[id].state.state_type_id() == T::state_type_id()
    }

    /// How the node's state is borrowed at the moment.
    pub fn borrow_flag(&self, id: NodeId) -> (flag: BorrowFlag)
        requires
            self@.contains(id),
        ensures
            flag == self@.borrow(id),
    {
        self.nodes[id].borrow
    }

    /// Records one more shared accessor to the node's state.
    pub fn borrow(&mut self, id: NodeId)
        requires
            old(self).wf(),
            old(self)@.contains(id),
            old(self)@.borrow(id).can_share(),
        ensures
            final(self).wf(),
            final(self)@ == old(self)@.borrow_shared(id),
    {
        let flag = match self.nodes[id].borrow {
            BorrowFlag::Reading(k) => BorrowFlag::Reading(k + 1),
            _ => BorrowFlag::Reading(1),
        };
        self.nodes[id].borrow = flag;
        proof {
            assert(self@.nodes =~= old(self)@.borrow_shared(id).nodes);
            lemma_wf_by_skeleton(old(self)@, self@);
        }
    }

    /// Records that one shared accessor to the node's state is gone.
    pub fn release(&mut self, id: NodeId)
        requires
            old(self).wf(),
            old(self)@.contains(id),
            old(self)@.borrow(id) is Reading,
        ensures
            final(self).wf(),
            final(self)@ == old(self)@.release_shared(id),
    {
        let flag = match self.nodes[id].borrow {
            BorrowFlag::Reading(k) => if k > 1 {
                BorrowFlag::Reading(k - 1)
            } else {
                BorrowFlag::Unused
            },
            _ => BorrowFlag::Unused,
        };
        self.nodes[id].borrow = flag;
        proof {
            assert(self@.nodes =~= old(self)@.release_shared(id).nodes);
            lemma_wf_by_skeleton(old(self)@, self@);
        }
    }

    /// Records the exclusive accessor to the node's state.
    pub fn borrow_mut(&mut self, id: NodeId)
        requires
            old(self).wf(),
            old(self)@.contains(id),
            old(self)@.borrow(id) == BorrowFlag::Unused,
        ensures
            final(self).wf(),
            final(self)@ == old(self)@.borrow_exclusive(id),
    {
        self.nodes[id].borrow = BorrowFlag::Writing;
        proof {
            assert(self@.nodes =~= old(self)@.borrow_exclusive(id).nodes);
            lemma_wf_by_skeleton(old(self)@, self@);
        }
    }

    /// Records that the exclusive accessor to the node's state is gone.
    pub fn release_mut(&mut self, id: NodeId)
        requires
            old(self).wf(),
            old(self)@.contains(id),
            old(self)@.borrow(id) == BorrowFlag::Writing,
        ensures
            final(self).wf(),
            final(self)@ == old(self)@.release_exclusive(id),
    {
        self.nodes[id].borrow = BorrowFlag::Unused;
        proof {
            assert(self@.nodes =~= old(self)@.release_exclusive(id).nodes);
            lemma_wf_by_skeleton(old(self)@, self@);
        }
    }

    /// Whether `d` has registered as a reader of `a`'s state.
    pub fn is_dependent(&self, a: NodeId, d: NodeId) -> (r: bool)
        requires
            self@.contains(a),
        ensures
            r == self@.dependents(a).contains(d),
    {
        let deps = &self.nodes[a].dependents;
        let mut i: usize = 0;
        while i < deps.len()
            invariant
                i <= deps.len(),
                self@.contains(a),
                deps@ == self.nodes[a as int].dependents@,
                forall|k: int| 0 <= k < i ==> deps@[k] != d,
            decreases deps.len() - i,
        {
            if deps[i] == d {
                assert(deps@.contains(d));
                return true;
            }
            i += 1;
        }
        false
    }

    /// How many nodes have registered as readers of `a`'s state.
    pub fn dependent_count(&self, a: NodeId) -> (n: usize)
        requires
            self.wf(),
            self@.contains(a),
        ensures
            n == self@.dependents(a).len(),
    {
        proof {
            self.nodes[a as int].dependents@.unique_seq_to_set();
        }
        self.nodes[a].dependents.len()
    }

    /// Puts `d` among the readers of `a`'s state. A node that is there
    /// already is not added again.
    fn register(&mut self, a: NodeId, d: NodeId)
        requires
            old(self).wf(),
            old(self)@.is_ancestor(a, d),
            old(self)@.contains(a),
            old(self)@.contains(d),
        ensures
            final(self).wf(),
            final(self)@ == old(self)@.register(a, d),
    {
        if !self.is_dependent(a, d) {
            self.nodes[a].dependents.push(d);
            proof {
                old(self).nodes[a as int].dependents@.lemma_push_to_set_commute(d);
            }
        }
        proof {
            let pre = old(self)@;
            let post = self@;
            assert(post.nodes[a as int].dependents =~= pre.nodes[a as int].dependents.insert(d));
            assert(post.nodes =~= pre.register(a, d).nodes);
            assert(same_shape(pre, post));
            lemma_ancestor_by_shape(pre, post, a, d);
            assert forall|i: int, e: NodeId|
                0 <= i < post.nodes.len() && #[trigger] post.nodes[i].dependents.contains(
                    e,
                ) implies post.contains(e) && (post.is_ancestor(i as NodeId, e)
                || pre.nodes[i].dependents.contains(e)) by {
                if !(i == a && e == d) {
                    assert(pre.nodes[i].dependents.contains(e));
                    assert(pre.contains(e));
                }
            }
            lemma_wf_by_shape(pre, post);
        }
    }

    /// Looks on the way from `node` to the root for the nearest node that
    /// provides `key`. Where there is one, `node` is registered as a reader
    /// of its state, and it is returned. Where there is none, nothing is
    /// registered.
    pub fn depend_on_inherited_widget_of_key(
        &mut self,
        node: NodeId,
        key: TypeTag,
    ) -> (found: Option<NodeId>)
        requires
            old(self).wf(),
        ensures
            final(self).wf(),
            found == old(self)@.nearest_provider(node, key),
            final(self)@ == old(self)@.depend_on(node, key),
            found matches Some(ancestor) ==> old(self)@.contains(ancestor),
            found matches Some(ancestor) ==> old(self)@.is_ancestor(ancestor, node),
            found matches Some(ancestor) ==> old(self)@.inherited_key(ancestor) == Some(key),
            found matches Some(ancestor) ==> final(self)@.dependents(ancestor).contains(
                node,
            ),
    {
        if !self.contains(node) {
            return None;
        }
        let mut cur = self.nodes[node].parent;
        loop
            invariant
                *self == *old(self),
                self.wf(),
                self@.contains(node),
                cur matches Some(p) ==> p < node,
                self@.nearest_provider(node, key) == self@.provider_from(cur, key),
            decreases
                (match cur {
                    Some(p) => p + 1,
                    None => 0,
                }),
        {
            match cur {
                None => {
                    return None;
                },
                Some(p) => {
                    let found = match self.nodes[p].inherited_key {
                        Some(k) => k == key,
                        None => false,
                    };
                    if found {
                        proof {
                            lemma_nearest_provider_is_ancestor(self@, node, key);
                        }
                        self.register(p, node);
                        return Some(p);
                    }
                    cur = self.nodes[p].parent;
                },
            }
        }
    }

    /// Marks every direct dependent of `a` dirty. Dependents of dependents
    /// are not visited, and a dependent that is dirty already stays as it is.
    pub fn mark_dependent_widgets_as_dirty(&mut self, a: NodeId)
        requires
            old(self).wf(),
            old(self)@.contains(a),
        ensures
            final(self).wf(),
            final(self)@ == old(self)@.mark_dependents_dirty(a),
    {
        let count: usize = self.nodes[a].dependents.len();
        let ghost deps = self.nodes[a as int].dependents@;
        let mut i: usize = 0;
        while i < count
            invariant
                i <= count,
                count == deps.len(),
                old(self).wf(),
                old(self)@.contains(a),
                deps == old(self).nodes[a as int].dependents@,
                self.nodes.len() == old(self).nodes.len(),
                self.suppressed == old(self).suppressed,
                forall|j: int|
                    0 <= j < self.nodes.len() ==> {
                        &&& (#[trigger] self.nodes[j]).state == old(self).nodes[j].state
                        &&& self.nodes[j].state_id == old(self).nodes[j].state_id
                        &&& self.nodes[j].dependents == old(self).nodes[j].dependents
                        &&& self.nodes[j].parent == old(self).nodes[j].parent
                        &&& self.nodes[j].inherited_key == old(self).nodes[j].inherited_key
                        &&& self.nodes[j].borrow == old(self).nodes[j].borrow
                        &&& self.nodes[j].alive == old(self).nodes[j].alive
                        &&& self.nodes[j].dirty == (old(self).nodes[j].dirty || deps.take(
                            i as int,
                        ).contains(j as NodeId))
                    },
            decreases count - i,
        {
            let d: NodeId = self.nodes[a].dependents[i];
            proof {
                assert(deps.contains(d));
                assert(old(self)@.dependents(a).contains(d));
                assert(old(self)@.is_ancestor(a, d));
                assert(deps.take(i as int + 1) =~= deps.take(i as int).push(d));
                assert forall|j: NodeId|
                    deps.take(i as int + 1).contains(j) == (deps.take(i as int).contains(j) || j
                        == d) by {
                    lemma_seq_contains_after_push(deps.take(i as int), d, j);
                }
            }
            self.nodes[d].dirty = true;
            i += 1;
        }
        proof {
            assert(deps.take(count as int) =~= deps);
            assert(self@.nodes =~= old(self)@.mark_dependents_dirty(a).nodes);
            lemma_wf_by_skeleton(old(self)@, self@);
        }
    }

    /// The node's state as a value of type `T`, which has to be the type
    /// that the state was created with.
    pub fn state_ref<T: StateType>(&self, id: NodeId) -> (state: &T)
        requires
            self@.holds::<T>(id),
        ensures
            state.erased() == self@.state(id),
    {
        T::downcast_ref(&self.nodes[id].state).unwrap()
    }

    /// The node's state as a value of type `T`, to be changed in place.
    /// Whatever is written is of type `T` again, so the state keeps its type.
    pub fn state_mut<T: StateType>(&mut self, id: NodeId) -> (state: &mut T)
        requires
            old(self).wf(),
            old(self)@.holds::<T>(id),
        ensures
            final(self).wf(),
            state.erased() == old(self)@.state(id),
            final(self)@ == old(self)@.with_state(id, (*final(state)).erased()),
    {
        let state = T::downcast_mut(&mut self.nodes[id].state).unwrap();
        proof {
            let after = old(self)@.with_state(id, (*final(state)).erased());
            assert(after_borrow(*self)@.nodes =~= after.nodes);
            lemma_wf_by_skeleton(old(self)@, after);
        }
        state
    }

    /// Takes the node `id` out of the tree: it leaves every set of
    /// dependents, and its state is destroyed. Its slot stays, empty, and the
    /// nodes below it keep their place.
    pub fn vacate(&mut self, id: NodeId)
        requires
            old(self).wf(),
            old(self)@.contains(id),
            old(self)@.borrow(id) == BorrowFlag::Unused,
        ensures
            final(self).wf(),
            final(self)@ == old(self)@.vacate(id),
    {
        self.deregister(id);
        let ghost deregistered = self@;
        proof {
            assert(self@.nodes.len() == self.nodes.len());
        }
        let node = &mut self.nodes[id];
        node.state = ErasedState::NoState(NoState);
        node.dirty = false;
        node.dependents = Vec::new();
        node.inherited_key = None;
        node.alive = false;
        proof {
            assert(self@.dependents(id) =~= Set::<NodeId>::empty());
            assert(deregistered.nodes[id as int].borrow == old(self)@.borrow(id));
            assert(self@.nodes[id as int] =~= old(self)@.vacated(id));
            assert forall|i: int| 0 <= i < self@.nodes.len() && i != id implies (
            #[trigger] self@.nodes[i]) == deregistered.nodes[i] by {}
            assert(self@.nodes =~= old(self)@.vacate(id).nodes);
            assert forall|i: int, d: NodeId|
                0 <= i < self@.nodes.len() && (#[trigger] self@.nodes[i].dependents.contains(
                    d,
                )) implies self@.contains(d) by {
                assert(deregistered.nodes[i].dependents.contains(d));
                assert(d != id);
            }
            lemma_wf_by_shape(deregistered, self@);
        }
    }

    /// Takes `d` out of every set of dependents. Only the nodes above `d`
    /// can hold it, so only they are visited.
    fn deregister(&mut self, d: NodeId)
        requires
            old(self).wf(),
            d < old(self)@.nodes.len(),
        ensures
            final(self).wf(),
            final(self)@ == old(self)@.deregister(d),
    {
        let mut cur = self.nodes[d].parent;
        proof {
            assert forall|j: NodeId| old(self)@.is_ancestor(j, d) implies !visited_above(
                cur,
                j,
            ) by {
                if cur->Some_0 != j {
                    lemma_ancestor_is_older(old(self)@, j, cur->Some_0);
                }
            }
        }
        loop
            invariant
                old(self).wf(),
                d < old(self)@.nodes.len(),
                self.nodes.len() == old(self).nodes.len(),
                self.suppressed == old(self).suppressed,
                cur matches Some(c) ==> old(self)@.is_ancestor(c, d),
                forall|j: int|
                    0 <= j < self.nodes.len() ==> {
                        &&& (#[trigger] self.nodes[j]).state == old(self).nodes[j].state
                        &&& self.nodes[j].state_id == old(self).nodes[j].state_id
                        &&& self.nodes[j].dirty == old(self).nodes[j].dirty
                        &&& self.nodes[j].parent == old(self).nodes[j].parent
                        &&& self.nodes[j].inherited_key == old(self).nodes[j].inherited_key
                        &&& self.nodes[j].borrow == old(self).nodes[j].borrow
                        &&& self.nodes[j].alive == old(self).nodes[j].alive
                        &&& self.nodes[j].dependents@.no_duplicates()
                        &&& self.nodes[j].dependents@.to_set() == if old(self)@.is_ancestor(
                            j as NodeId,
                            d,
                        ) && visited_above(cur, j as NodeId) {
                            old(self).nodes[j].dependents@.to_set().remove(d)
                        } else {
                            old(self).nodes[j].dependents@.to_set()
                        }
                    },
            ensures
                cur is None,
            decreases
                (match cur {
                    Some(c) => c + 1,
                    None => 0,
                }),
        {
            match cur {
                None => {
                    break ;
                },
                Some(c) => {
                    proof {
                        lemma_ancestor_is_older(old(self)@, c, d);
                    }
                    remove_id(&mut self.nodes[c].dependents, d);
                    let next = self.nodes[c].parent;
                    proof {
                        assert(old(self)@.parent(c) == next);
                        assert forall|j: NodeId| old(self)@.is_ancestor(j, d) implies (
                        visited_above(next, j) <==> visited_above(cur, j) || j == c) by {
                            if j < c {
                                lemma_ancestors_on_one_line(old(self)@, j, c, d);
                                if next->Some_0 != j {
                                    lemma_ancestor_is_older(old(self)@, j, next->Some_0);
                                }
                            }
                        }
                        if next is Some {
                            assert(old(self)@.is_ancestor(next->Some_0, c));
                            lemma_ancestor_below(old(self)@, next->Some_0, c, d);
                        }
                    }
                    cur = next;
                },
            }
        }
        proof {
            assert forall|j: int| 0 <= j < self.nodes.len() implies (#[trigger] self@.nodes[j])
                == old(self)@.deregister(d).nodes[j] by {
                if !old(self)@.is_ancestor(j as NodeId, d) {
                    assert(!old(self)@.nodes[j].dependents.contains(d));
                    assert(old(self)@.nodes[j].dependents.remove(d) =~= old(
                        self,
                    )@.nodes[j].dependents);
                }
            }
            assert(self@.nodes =~= old(self)@.deregister(d).nodes);
            assert forall|i: int, e: NodeId|
                0 <= i < self@.nodes.len() && (#[trigger] self@.nodes[i].dependents.contains(
                    e,
                )) implies self@.contains(e) && old(self)@.nodes[i].dependents.contains(e) by {
                assert(old(self)@.nodes[i].dependents.contains(e));
                assert(old(self)@.contains(e));
            }
            assert forall|i: int|
                0 <= i < self@.nodes.len() && !(#[trigger] self@.nodes[i]).alive implies
                self@.nodes[i].dependents == Set::<NodeId>::empty() by {
                assert(old(self)@.nodes[i].dependents == Set::<NodeId>::empty());
                assert(self@.nodes[i].dependents =~= Set::<NodeId>::empty());
            }
            lemma_wf_by_shape(old(self)@, self@);
        }
    }

    /// Whether `a` lies strictly above `d` on the way to the root, told at
    /// run time. It asks nothing of the arena, so it can serve to test it.
    pub fn is_ancestor(&self, a: NodeId, d: NodeId) -> (r: bool)
        ensures
            r == self@.is_ancestor(a, d),
    {
        let mut cur: NodeId = d;
        loop
            invariant
                self@.is_ancestor(a, d) == self@.is_ancestor(a, cur),
            decreases cur,
        {
            if cur >= self.nodes.len() {
                return false;
            }
            match self.nodes[cur].parent {
                None => {
                    return false;
                },
                Some(p) => {
                    if p >= cur {
                        return false;
                    }
                    if p == a {
                        return true;
                    }
                    cur = p;
                },
            }
        }
    }

    /// What `wf` asks of the node in slot `i`.
    pub closed spec fn node_ok(&self, i: int) -> bool {
        let node = self@.nodes[i];
        &&& node.parent matches Some(p) ==> p < i
        &&& node.borrow != BorrowFlag::Reading(0)
        &&& !node.alive ==> node.inherited_key is None && self.nodes[i].dependents@.len() == 0
        &&& self.nodes[i].state_id == i
        &&& self.nodes[i].dependents@.no_duplicates()
        &&& forall|k: int|
            0 <= k < self.nodes[i].dependents@.len() ==> self.dependent_ok(
                i,
                #[trigger] self.nodes[i].dependents@[k],
            )
    }

    /// What `wf` asks of a dependent `d` of the node in slot `i`.
    pub closed spec fn dependent_ok(&self, i: int, d: NodeId) -> bool {
        self@.is_ancestor(i as NodeId, d) && self@.contains(d)
    }

    /// The arena is well formed exactly when every slot is in order.
    proof fn lemma_wf_slot_by_slot(&self)
        ensures
            self.wf() <==> forall|i: int| 0 <= i < self.nodes.len() ==> #[trigger] self.node_ok(i),
    {
        if self.wf() {
            assert forall|i: int| 0 <= i < self.nodes.len() implies #[trigger] self.node_ok(i) by {
                let node = self@.nodes[i];
                let list = self.nodes[i].dependents@;
                if !node.alive {
                    assert(list.to_set() == Set::<NodeId>::empty());
                    if list.len() > 0 {
                        assert(list.to_set().contains(list[0]));
                    }
                }
                assert forall|k: int| 0 <= k < list.len() implies self.dependent_ok(
                    i,
                    #[trigger] list[k],
                ) by {
                    assert(node.dependents.contains(list[k]));
                }
            }
        }
        if forall|i: int| 0 <= i < self.nodes.len() ==> #[trigger] self.node_ok(i) {
            assert forall|i: int| 0 <= i < self.nodes.len() implies {
                &&& (#[trigger] self@.nodes[i]).parent matches Some(p) ==> p < i
                &&& self@.nodes[i].dependents.finite()
                &&& forall|d: NodeId| #[trigger]
                    self@.nodes[i].dependents.contains(d) ==> self@.is_ancestor(i as NodeId, d)
                        && self@.contains(d)
                &&& !self@.nodes[i].alive ==> self@.nodes[i].inherited_key is None
                    && self@.nodes[i].dependents == Set::<NodeId>::empty()
                &&& self@.nodes[i].borrow != BorrowFlag::Reading(0)
            } by {
                assert(self.node_ok(i));
                let list = self.nodes[i].dependents@;
                seq_to_set_is_finite(list);
                assert forall|d: NodeId| #[trigger]
                    self@.nodes[i].dependents.contains(d) implies self@.is_ancestor(
                    i as NodeId,
                    d,
                ) && self@.contains(d) by {
                    let k = choose|k: int| 0 <= k < list.len() && list[k] == d;
                    assert(self.dependent_ok(i, list[k]));
                }
                if !self@.nodes[i].alive {
                    assert(list.to_set() =~= Set::<NodeId>::empty());
                }
            }
            assert forall|i: int| 0 <= i < self.nodes.len() implies {
                &&& (#[trigger] self.nodes[i]).dependents@.no_duplicates()
                &&& self.nodes[i].state_id == i
            } by {
                assert(self.node_ok(i));
            }
        }
    }

    /// Tests at run time whether the slot `i` is in order.
    fn node_is_ok(&self, i: usize) -> (r: bool)
        requires
            i < self.nodes.len(),
        ensures
            r == self.node_ok(i as int),
    {
        let node = &self.nodes[i];
        match node.parent {
            Some(p) => {
                if p >= i {
                    return false;
                }
            },
            None => {},
        }
        match node.borrow {
            BorrowFlag::Reading(readers) => {
                if readers == 0 {
                    return false;
                }
            },
            _ => {},
        }
        if !node.alive {
            match node.inherited_key {
                Some(_) => {
                    return false;
                },
                None => {},
            }
            if node.dependents.len() != 0 {
                return false;
            }
        }
        if node.state_id != i as u64 {
            return false;
        }
        let mut k: usize = 0;
        while k < node.dependents.len()
            invariant
                k <= node.dependents.len(),
                i < self.nodes.len(),
                *node == self.nodes[i as int],
                forall|j: int|
                    0 <= j < k ==> self.dependent_ok(i as int, #[trigger] node.dependents@[j]),
                forall|j: int, m: int|
                    0 <= m < j < k ==> node.dependents@[m] != node.dependents@[j],
            decreases node.dependents.len() - k,
        {
            let d: NodeId = node.dependents[k];
            if !self.contains(d) || !self.is_ancestor(i, d) {
                assert(!self.dependent_ok(i as int, node.dependents@[k as int]));
                return false;
            }
            let mut m: usize = 0;
            while m < k
                invariant
                    m <= k,
                    k < node.dependents.len(),
                    i < self.nodes.len(),
                    *node == self.nodes[i as int],
                    d == node.dependents@[k as int],
                    forall|j: int| 0 <= j < m ==> node.dependents@[j] != d,
                decreases k - m,
            {
                if node.dependents[m] == d {
                    assert(node.dependents@[m as int] == node.dependents@[k as int]);
                    assert(!node.dependents@.no_duplicates());
                    return false;
                }
                m += 1;
            }
            k += 1;
        }
        true
    }

    /// Tests at run time whether the arena is well formed. Verified code
    /// never needs to ask; code that is not verified can.
    pub fn is_wf(&self) -> (r: bool)
        ensures
            r == self.wf(),
    {
        proof {
            self.lemma_wf_slot_by_slot();
        }
        let mut i: usize = 0;
        while i < self.nodes.len()
            invariant
                i <= self.nodes.len(),
                self.wf() <==> forall|j: int|
                    0 <= j < self.nodes.len() ==> #[trigger] self.node_ok(j),
                forall|j: int| 0 <= j < i ==> #[trigger] self.node_ok(j),
            decreases self.nodes.len() - i,
        {
            if !self.node_is_ok(i) {
                return false;
            }
            i += 1;
        }
        true
    }

    /// Whether mutable access to state currently marks nothing dirty.
    pub fn is_suppressed(&self) -> (r: bool)
        ensures
            r == self@.suppressed,
    {
        self.suppressed
    }

    /// Switches the notice of mutable access off and hands back what has to
    /// be given to `restore` to leave the suppressed region.
    pub fn suppress(&mut self) -> (scope: SuppressionScope)
        requires
            old(self).wf(),
        ensures
            final(self).wf(),
            final(self)@ == old(self)@.with_suppressed(true),
            scope.previous() == old(self)@.suppressed,
    {
        let previous = self.suppressed;
        self.suppressed = true;
        proof {
            assert(self@.nodes =~= old(self)@.nodes);
            lemma_wf_by_skeleton(old(self)@, self@);
        }
        SuppressionScope { previous }
    }

    /// Leaves a suppressed region: the flag is again what it was when the
    /// region was entered, whatever happened to it in between.
    pub fn restore(&mut self, scope: SuppressionScope)
        requires
            old(self).wf(),
        ensures
            final(self).wf(),
            final(self)@ == old(self)@.with_suppressed(scope.previous()),
    {
        self.suppressed = scope.previous;
        proof {
            assert(self@.nodes =~= old(self)@.nodes);
            lemma_wf_by_skeleton(old(self)@, self@);
        }
    }
}

/// Whether the walk from a node to the root, having come to `cur`, has
/// been at `j` already. The walk goes from younger to older nodes.
spec fn visited_above(cur: Option<NodeId>, j: NodeId) -> bool {
    match cur {
        Some(c) => j > c,
        None => true,
    }
}

/// Takes `d` out of a list that holds no identity twice.
fn remove_id(list: &mut Vec<NodeId>, d: NodeId)
    requires
        old(list)@.no_duplicates(),
    ensures
        final(list)@.no_duplicates(),
        final(list)@.to_set() == old(list)@.to_set().remove(d),
{
    let mut i: usize = 0;
    while i < list.len()
        invariant
            i <= list.len(),
            *list == *old(list),
            old(list)@.no_duplicates(),
            forall|k: int| 0 <= k < i ==> list@[k] != d,
        decreases list.len() - i,
    {
        if list[i] == d {
            list.remove(i);
            proof {
                let before = old(list)@;
                let after = list@;
                assert(after =~= before.remove(i as int));
                assert forall|x: NodeId| after.contains(x) == (before.contains(x) && x != d) by {
                    if after.contains(x) {
                        let k = choose|k: int| 0 <= k < after.len() && after[k] == x;
                        if k < i {
                            assert(before[k] == x);
                        } else {
                            assert(before[k + 1] == x);
                        }
                    }
                    if before.contains(x) && x != d {
                        let k = choose|k: int| 0 <= k < before.len() && before[k] == x;
                        if k < i {
                            assert(after[k] == x);
                        } else {
                            assert(after[k - 1] == x);
                        }
                    }
                }
                assert(after.to_set() =~= before.to_set().remove(d));
            }
            return ;
        }
        i += 1;
    }
    proof {
        assert(!list@.contains(d));
        assert(list@.to_set() =~= old(list)@.to_set().remove(d));
    }
}

/// Remembers what the suppression flag was before a suppressed region was
/// entered.
pub struct SuppressionScope {
    previous: bool,
}

impl SuppressionScope {
    pub closed spec fn previous(&self) -> bool {
        self.previous
    }
}

} // verus!
