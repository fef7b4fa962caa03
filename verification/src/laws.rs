use vstd::prelude::*;
use crate::erased_state::ErasedState;
use crate::model::{
    lemma_nearest_provider_is_ancestor, lifecycle_step, same_state_identity, unmount_step,
    BorrowFlag, NodeId, TreeModel,
};
use crate::type_id::TypeTag;

verus! {

/// Mutable access to a node's own state, taken while nothing is suppressed,
/// leaves the node dirty, whatever it was before, and changes the mark of no
/// other node.
pub proof fn law_mutable_access_marks_dirty(tree: TreeModel, n: NodeId)
    requires
        tree.contains(n),
        !tree.suppressed,
    ensures
        tree.touch(n).dirty(n),
        forall|m: NodeId|
            m < tree.nodes.len() && m != n ==> #[trigger] tree.touch(n).dirty(m) == tree.dirty(m),
{
}

/// While suppressed, mutable access marks nothing: neither access to a
/// node's own state nor access to inherited state changes the tree.
pub proof fn law_suppressed_access_marks_nothing(tree: TreeModel, n: NodeId)
    requires
        tree.suppressed,
    ensures
        tree.touch(n) == tree,
        tree.touch_inherited(n) == tree,
{
}

/// A suppressed region is left with the flag as it was on entry, set or
/// unset, whatever tree the work inside has left behind.
pub proof fn law_suppressed_region_restores_flag(before: TreeModel, inside: TreeModel)
    ensures
        before.with_suppressed(true).suppressed,
        inside.with_suppressed(before.suppressed).suppressed == before.suppressed,
{
}

/// A lifecycle hook that is run in a suppressed region, on any tree and
/// whether or not an outer region was suppressed already, leaves every dirty
/// mark and the identity of every state as they were; and once the region is
/// left, the whole invocation has done no more than a hook may.
pub proof fn law_hook_in_suppressed_region(before: TreeModel, inside: TreeModel, n: NodeId)
    requires
        lifecycle_step(before.with_suppressed(true), inside),
        before.contains(n),
    ensures
        lifecycle_step(before, inside.with_suppressed(before.suppressed)),
        inside.with_suppressed(before.suppressed).dirty(n) == before.dirty(n),
        same_state_identity(before, inside.with_suppressed(before.suppressed), n),
{
}

/// A lifecycle hook changes no dirty mark.
pub proof fn law_hook_marks_nothing(pre: TreeModel, post: TreeModel, i: NodeId)
    requires
        lifecycle_step(pre, post),
        pre.contains(i),
    ensures
        post.contains(i),
        post.dirty(i) == pre.dirty(i),
{
}

/// Mutable access to the inherited state of `a`, taken while nothing is
/// suppressed, marks `a` and each of its dependents dirty and changes the
/// mark of no other node.
pub proof fn law_notification_reaches_dependents_only(tree: TreeModel, a: NodeId, n: NodeId)
    requires
        tree.contains(a),
        tree.contains(n),
        !tree.suppressed,
    ensures
        tree.touch_inherited(a).dirty(a),
        tree.dependents(a).contains(n) ==> tree.touch_inherited(a).dirty(n),
        !tree.hears_of(a, n) ==> tree.touch_inherited(a).dirty(n) == tree.dirty(n),
{
}

/// Marking is idempotent: to announce a change twice is to announce it once.
pub proof fn law_notification_is_idempotent(tree: TreeModel, a: NodeId)
    requires
        tree.contains(a),
    ensures
        tree.notify(a).notify(a) == tree.notify(a),
{
    assert(tree.notify(a).notify(a).nodes =~= tree.notify(a).nodes);
}

/// Notification does not travel on: after mutable access to the inherited
/// state of `a`, a dependent of a dependent of `a` that is no dependent of
/// `a` itself has the mark it had.
pub proof fn law_notification_is_not_transitive(tree: TreeModel, a: NodeId, d: NodeId, e: NodeId)
    requires
        tree.contains(a),
        tree.contains(d),
        tree.contains(e),
        tree.dependents(a).contains(d),
        tree.dependents(d).contains(e),
        !tree.dependents(a).contains(e),
        e != a,
    ensures
        tree.touch_inherited(a).dirty(e) == tree.dirty(e),
{
}

/// The ancestor lookup registers the node that asked, with the ancestor that
/// was found, and nobody else anywhere.
pub proof fn law_lookup_registers_the_caller_only(
    tree: TreeModel,
    n: NodeId,
    key: TypeTag,
    a: NodeId,
    d: NodeId,
)
    requires
        tree.contains(a),
    ensures
        tree.depend_on(n, key).nodes.len() == tree.nodes.len(),
        tree.depend_on(n, key).dependents(a).contains(d) <==> tree.dependents(a).contains(d) || (d
            == n && tree.nearest_provider(n, key) == Some(a)),
{
    if tree.nearest_provider(n, key) is Some {
        lemma_nearest_provider_is_ancestor(tree, n, key);
    }
}

/// A node that is not registered with `a` stays unregistered through every
/// access to state, its own or inherited: only the lookup registers.
pub proof fn law_access_registers_nobody(tree: TreeModel, n: NodeId, a: NodeId)
    requires
        tree.contains(n),
        tree.contains(a),
    ensures
        tree.touch(n).dependents(a) == tree.dependents(a),
        tree.touch_inherited(n).dependents(a) == tree.dependents(a),
        tree.borrow_shared(n).dependents(a) == tree.dependents(a),
        tree.borrow_exclusive(n).dependents(a) == tree.dependents(a),
        tree.release_shared(n).dependents(a) == tree.dependents(a),
        tree.release_exclusive(n).dependents(a) == tree.dependents(a),
{
}

/// A registration ends when the dependent leaves the tree: from then on the
/// node is in no set of dependents, and mutable access to inherited state,
/// wherever it is taken, does not mark it.
pub proof fn law_unmount_ends_registrations(tree: TreeModel, n: NodeId, a: NodeId)
    requires
        tree.wf(),
        tree.contains(n),
        tree.contains(a),
        a != n,
    ensures
        !tree.vacate(n).contains(n),
        !tree.vacate(n).dependents(a).contains(n),
        !tree.vacate(n).touch_inherited(a).dirty(n),
{
}

/// A node that is gone provides nothing: no lookup finds it.
pub proof fn law_gone_node_is_never_found(tree: TreeModel, n: NodeId, key: TypeTag, gone: NodeId)
    requires
        tree.wf(),
        gone < tree.nodes.len(),
        !tree.nodes[gone as int].alive,
    ensures
        tree.nearest_provider(n, key) != Some(gone),
{
    if tree.nearest_provider(n, key) is Some {
        lemma_nearest_provider_is_ancestor(tree, n, key);
    }
}

/// A lookup that finds no provider leaves the tree as it was.
pub proof fn law_lookup_miss_changes_nothing(tree: TreeModel, n: NodeId, key: TypeTag)
    requires
        tree.nearest_provider(n, key) is None,
    ensures
        tree.depend_on(n, key) == tree,
{
}

/// The state of a node keeps its identity and its type through everything
/// that happens while the node is in the tree: access to state, lookups,
/// notification, lifecycle hooks, a new configuration, and the unmounting of
/// any other node.
pub proof fn law_state_identity_is_stable(
    tree: TreeModel,
    after_hook: TreeModel,
    n: NodeId,
    m: NodeId,
    key: TypeTag,
)
    requires
        tree.contains(n),
        tree.contains(m),
        lifecycle_step(tree, after_hook) || (unmount_step(tree, after_hook, m) && n != m),
    ensures
        same_state_identity(tree, tree.touch(m), n),
        same_state_identity(tree, tree.touch_inherited(m), n),
        same_state_identity(tree, tree.depend_on(m, key), n),
        same_state_identity(tree, tree.borrow_shared(m), n),
        same_state_identity(tree, tree.borrow_exclusive(m), n),
        same_state_identity(tree, tree.release_shared(m), n),
        same_state_identity(tree, tree.release_exclusive(m), n),
        same_state_identity(tree, tree.with_dirty(m, false), n),
        same_state_identity(tree, after_hook, n),
{
    if tree.nearest_provider(m, key) is Some {
        lemma_nearest_provider_is_ancestor(tree, m, key);
    }
}

/// Writing through a mutable guard changes what the state holds and nothing
/// else: the state's identity stays, and so does the whole tree around it.
pub proof fn law_write_keeps_identity(tree: TreeModel, n: NodeId, i: NodeId)
    requires
        tree.contains(n),
        tree.contains(i),
    ensures
        forall|state: ErasedState| #[trigger]
            tree.with_state(n, state).state_id(i) == tree.state_id(i),
        forall|state: ErasedState|
            i != n ==> (#[trigger] tree.with_state(n, state)).nodes[i as int]
                == tree.nodes[i as int],
{
}

/// Shared borrows are counted: giving back what was taken leaves the count
/// where it was.
pub proof fn law_shared_borrow_round_trip(tree: TreeModel, n: NodeId)
    requires
        tree.wf(),
        tree.contains(n),
        tree.borrow(n).can_share(),
    ensures
        tree.borrow_shared(n).release_shared(n) == tree,
        tree.borrow_shared(n).borrow(n) is Reading,
{
    assert(tree.borrow(n) != BorrowFlag::Reading(0));
    assert(tree.borrow_shared(n).release_shared(n).nodes =~= tree.nodes);
}

/// The exclusive borrow excludes: while it is out, the node's state can be
/// shared with nobody, and when it is back, the node is free again.
pub proof fn law_exclusive_borrow_excludes(tree: TreeModel, n: NodeId)
    requires
        tree.contains(n),
        tree.borrow(n) == BorrowFlag::Unused,
    ensures
        !tree.borrow_exclusive(n).borrow(n).can_share(),
        tree.borrow_exclusive(n).release_exclusive(n) == tree,
{
    assert(tree.borrow_exclusive(n).release_exclusive(n).nodes =~= tree.nodes);
}

} // verus!
