use vstd::prelude::*;
use crate::arena::NodeArena;
use crate::build_ctx::{Context, WidgetStateOS};
use crate::model::{
    lemma_lifecycle_steps, lifecycle_step, mount_step, same_state_identity, unmount_step,
    BorrowFlag, NodeId, TreeModel,
};
use crate::structural_eq::{verdict_of, EqVerdict, StructuralEqOS};
use crate::type_id::TypeTag;

verus! {

/// What became of a new configuration that was offered to a node.
pub enum Reconciliation<W> {
    /// The new configuration equals the one in place, which stays.
    Kept,
    /// The new configuration has taken the place of the old one. The node
    /// and its state are the same as before.
    Replaced,
    /// The new configuration is of another concrete type than the one in
    /// place, or declares state of another type. Nothing has changed, and the
    /// configuration is handed back: such a widget needs a node of its own.
    TypeMismatch(W),
}

/// What is due when `new` is offered in place of `old`.
pub open spec fn reconciled<W>(old: W, new: W) -> Reconciliation<W> where
    W: WidgetStateOS + StructuralEqOS,
 {
    match verdict_of(old.widget_type(), new.widget_type(), old.same_fields(&new)) {
        EqVerdict::Equal => Reconciliation::Kept,
        EqVerdict::Different => if old.state_type() == new.state_type() {
            Reconciliation::Replaced
        } else {
            Reconciliation::TypeMismatch(new)
        },
        EqVerdict::TypeMismatch => Reconciliation::TypeMismatch(new),
    }
}

/// Whether `post` is what the mount hook of `widget` leaves behind when it
/// is run for the node `id` on the tree `pre` with the notice of mutable
/// access switched off, the suppression flag being afterwards what it was.
pub open spec fn mounts<W: WidgetStateOS>(
    widget: W,
    id: NodeId,
    pre: TreeModel,
    post: TreeModel,
) -> bool {
    &&& lifecycle_step(pre, post)
    &&& widget.mount_effect(id, pre.with_suppressed(true), post.with_suppressed(true))
}

/// Whether `post` is what the unmount hook of `widget` leaves behind when it
/// is run for the node `id` on the tree `pre` with the notice of mutable
/// access switched off, the suppression flag being afterwards what it was.
pub open spec fn unmounts<W: WidgetStateOS>(
    widget: W,
    id: NodeId,
    pre: TreeModel,
    post: TreeModel,
) -> bool {
    &&& lifecycle_step(pre, post)
    &&& widget.unmount_effect(id, pre.with_suppressed(true), post.with_suppressed(true))
}

/// A widget tree: the arena of nodes, and for each node that is in the tree
/// the configuration of the widget mounted there. `W` is the type behind
/// which the concrete widget types are erased.
pub struct WidgetTree<W> {
    widgets: Vec<Option<W>>,
    arena: NodeArena,
}

impl<W> WidgetTree<W> {
    /// The arena that holds the nodes.
    pub closed spec fn nodes(&self) -> NodeArena {
        self.arena
    }

    /// The configurations, each at the index of its node; `None` where the
    /// node has gone.
    pub closed spec fn configurations(&self) -> Seq<Option<W>> {
        self.widgets@
    }
}

impl<W> View for WidgetTree<W> {
    type V = TreeModel;

    open spec fn view(&self) -> TreeModel {
        self.nodes()@
    }
}

impl<W: WidgetStateOS + StructuralEqOS> WidgetTree<W> {
    /// The nodes that are in the tree are those that have a configuration,
    /// and the state of each is of the type that its configuration declares.
    pub open spec fn wf(&self) -> bool {
        &&& self.nodes().wf()
        &&& self.configurations().len() == self@.nodes.len()
        &&& forall|i: int|
            0 <= i < self@.nodes.len() ==> ((#[trigger] self@.nodes[i]).alive
                <==> self.configurations()[i] is Some)
        &&& forall|i: int|
            0 <= i < self@.nodes.len() && (#[trigger] self@.nodes[i]).alive
                ==> self@.nodes[i].state.type_tag() == self.configurations()[i]->Some_0.state_type()
    }

    /// A tree without nodes.
    pub fn new() -> (tree: WidgetTree<W>)
        ensures
            tree.wf(),
            tree@.nodes.len() == 0,
            !tree@.suppressed,
    {
        WidgetTree { widgets: Vec::new(), arena: NodeArena::new() }
    }

    /// Tests at run time whether the tree is well formed. Verified code
    /// never needs to ask; code that is not verified can, after it has worked
    /// on the arena.
    pub fn is_wf(&self) -> (r: bool)
        ensures
            r == self.wf(),
    {
        if !self.arena.is_wf() || self.widgets.len() != self.arena.len() {
            return false;
        }
        let mut i: usize = 0;
        while i < self.widgets.len()
            invariant
                i <= self.widgets.len(),
                self.nodes().wf(),
                self.configurations().len() == self@.nodes.len(),
                forall|j: int|
                    0 <= j < i ==> ((#[trigger] self@.nodes[j]).alive
                        <==> self.configurations()[j] is Some),
                forall|j: int|
                    0 <= j < i && (#[trigger] self@.nodes[j]).alive
                        ==> self@.nodes[j].state.type_tag()
                        == self.configurations()[j]->Some_0.state_type(),
            decreases self.widgets.len() - i,
        {
            let in_tree = self.arena.contains(i);
            match &self.widgets[i] {
                Some(widget) => {
                    if !in_tree || self.arena.state_type_id(i) != widget.state_type_id() {
                        assert(!(self@.nodes[i as int].alive && self@.state(i).type_tag()
                            == self.configurations()[i as int]->Some_0.state_type()));
                        return false;
                    }
                },
                None => {
                    if in_tree {
                        assert(self@.nodes[i as int].alive);
                        return false;
                    }
                },
            }
            i += 1;
        }
        true
    }

    /// The arena, to look at.
    pub fn arena(&self) -> (arena: &NodeArena)
        ensures
            *arena == self.nodes(),
    {
        &self.arena
    }

    /// The arena, for a build context to work on.
    pub fn arena_mut(&mut self) -> (arena: &mut NodeArena)
        ensures
            *arena == old(self).nodes(),
            final(self).nodes() == *final(arena),
            final(self).configurations() == old(self).configurations(),
    {
        &mut self.arena
    }

    /// The configuration of the widget mounted at `id`, or `None` where no
    /// widget is mounted there.
    pub fn configuration(&self, id: NodeId) -> (widget: Option<&W>)
        ensures
            widget is Some <==> id < self.configurations().len()
                && self.configurations()[id as int] is Some,
            widget matches Some(found) ==> *found == self.configurations()[id as int]->Some_0,
    {
        if id < self.widgets.len() {
            self.widgets[id].as_ref()
        } else {
            None
        }
    }

    /// Runs the mount hook of the widget at `id` with the notice of mutable
    /// access switched off: the tree is what that hook leaves behind when it
    /// is run for `id` on the tree as it was, suppressed. Afterwards the
    /// suppression flag is what it was before, and no dirty mark has changed.
    pub fn invoke_mount(&mut self, id: NodeId)
        requires
            old(self).wf(),
            old(self)@.contains(id),
            old(self)@.borrow(id) == BorrowFlag::Unused,
        ensures
            final(self).wf(),
            final(self).configurations() == old(self).configurations(),
            lifecycle_step(old(self)@, final(self)@),
            final(self)@.suppressed == old(self)@.suppressed,
            mounts(old(self).configurations()[id as int]->Some_0, id, old(self)@, final(self)@),
    {
        let scope = self.arena.suppress();
        let ctx = Context::new(id);
        match &self.widgets[id] {
            Some(widget) => widget.mount(&ctx, &mut self.arena),
            None => {},
        }
        self.arena.restore(scope);
    }

    /// Runs the unmount hook of the widget at `id` with the notice of
    /// mutable access switched off: the tree is what that hook leaves behind
    /// when it is run for `id` on the tree as it was, suppressed. Afterwards
    /// the suppression flag is what it was before, and no dirty mark has
    /// changed.
    pub fn invoke_unmount(&mut self, id: NodeId)
        requires
            old(self).wf(),
            old(self)@.contains(id),
            old(self)@.borrow(id) == BorrowFlag::Unused,
        ensures
            final(self).wf(),
            final(self).configurations() == old(self).configurations(),
            lifecycle_step(old(self)@, final(self)@),
            final(self)@.suppressed == old(self)@.suppressed,
            unmounts(old(self).configurations()[id as int]->Some_0, id, old(self)@, final(self)@),
    {
        let scope = self.arena.suppress();
        let ctx = Context::new(id);
        match &self.widgets[id] {
            Some(widget) => widget.unmount(&ctx, &mut self.arena),
            None => {},
        }
        self.arena.restore(scope);
    }

    /// Mounts `widget` under `parent`, or as a root where `parent` is
    /// `None`: creates the node with the widget's initial state, then runs
    /// the widget's mount hook for it. `inherited_key` is the key under which
    /// the node provides its state to descendants, if it is to provide it.
    /// Where `parent` names no node that is in the tree, nothing happens.
    pub fn mount(
        &mut self,
        parent: Option<NodeId>,
        widget: W,
        inherited_key: Option<TypeTag>,
    ) -> (id: Option<NodeId>)
        requires
            old(self).wf(),
        ensures
            final(self).wf(),
            id is Some <==> (parent matches Some(p) ==> old(self)@.contains(p)),
            id is None ==> final(self)@ == old(self)@,
            id is None ==> final(self).configurations() == old(self).configurations(),
            id matches Some(n) ==> n == old(self)@.nodes.len(),
            id is Some ==> final(self).configurations() == old(self).configurations().push(
                Some(widget),
            ),
            id is Some ==> mount_step(
                old(self)@,
                final(self)@,
                parent,
                inherited_key,
                widget.state_type(),
            ),
            id matches Some(n) ==> mounts(
                widget,
                n,
                old(self)@.created(widget.initial(), parent, inherited_key),
                final(self)@,
            ),
    {
        match parent {
            Some(p) => {
                if !self.arena.contains(p) {
                    return None;
                }
            },
            None => {},
        }
        let state = widget.create_state();
        let inserted = self.arena.insert(parent, state, inherited_key);
        self.widgets.push(Some(widget));
        let id: NodeId = inserted.unwrap();
        let ghost created = self@;
        self.invoke_mount(id);
        proof {
            let before = old(self)@.nodes.len();
            assert(created.prefix(before).nodes =~= old(self)@.nodes);
            assert forall|i: int| 0 <= i < before implies (#[trigger] self@.prefix(before).nodes[i])
                == self@.nodes[i] by {}
            assert(lifecycle_step(old(self)@, self@.prefix(before)));
        }
        Some(id)
    }

    /// Unmounts the widget at `id`: runs its unmount hook, then takes the
    /// node out of the tree and destroys its state. The configuration is
    /// handed out, to be dropped or mounted again elsewhere.
    pub fn unmount(&mut self, id: NodeId) -> (widget: W)
        requires
            old(self).wf(),
            old(self)@.contains(id),
            old(self)@.borrow(id) == BorrowFlag::Unused,
        ensures
            final(self).wf(),
            Some(widget) == old(self).configurations()[id as int],
            final(self).configurations() == old(self).configurations().update(id as int, None),
            unmount_step(old(self)@, final(self)@, id),
            exists|hooked: TreeModel| #[trigger]
                unmounts(widget, id, old(self)@, hooked) && final(self)@ == hooked.vacate(id),
    {
        self.invoke_unmount(id);
        let ghost hooked = self@;
        proof {
            assert(unmounts(old(self).configurations()[id as int]->Some_0, id, old(self)@, hooked));
        }
        self.arena.vacate(id);
        let mut slot = None;
        std::mem::swap(&mut slot, &mut self.widgets[id]);
        slot.unwrap()
    }

    /// Offers `widget` as the new configuration of the node `id`.
    ///
    /// A configuration equal to the one in place is dropped. One of the same
    /// concrete type that differs takes its place: the unmount hook of the
    /// old configuration is run, then the mount hook of the new one, on the
    /// same node and with the same state. One of another type is handed
    /// back, and nothing changes.
    pub fn update(&mut self, id: NodeId, widget: W) -> (outcome: Reconciliation<W>)
        requires
            old(self).wf(),
            old(self)@.contains(id),
            old(self)@.borrow(id) == BorrowFlag::Unused,
        ensures
            final(self).wf(),
            outcome == reconciled(old(self).configurations()[id as int]->Some_0, widget),
            forall|i: NodeId|
                old(self)@.contains(i) ==> same_state_identity(old(self)@, final(self)@, i),
            outcome is Replaced ==> final(self).configurations() == old(
                self,
            ).configurations().update(id as int, Some(widget)),
            outcome is Replaced ==> lifecycle_step(old(self)@, final(self)@),
            outcome is Replaced ==> exists|unmounted: TreeModel| #[trigger]
                unmounts(
                    old(self).configurations()[id as int]->Some_0,
                    id,
                    old(self)@,
                    unmounted,
                ) && mounts(widget, id, unmounted, final(self)@),
            outcome is Replaced ==> final(self)@.suppressed == old(self)@.suppressed,
            !(outcome is Replaced) ==> final(self).configurations() == old(self).configurations(),
            !(outcome is Replaced) ==> final(self)@ == old(self)@,
    {
        let (verdict, same_state_type) = match &self.widgets[id] {
            Some(current) => (
                current.compare(&widget),
                current.state_type_id() == widget.state_type_id(),
            ),
            None => (EqVerdict::TypeMismatch, false),
        };
        match verdict {
            EqVerdict::Equal => Reconciliation::Kept,
            EqVerdict::TypeMismatch => Reconciliation::TypeMismatch(widget),
            EqVerdict::Different => {
                if !same_state_type {
                    return Reconciliation::TypeMismatch(widget);
                }
                self.invoke_unmount(id);
                let ghost unmounted = self@;
                self.widgets[id] = Some(widget);
                self.invoke_mount(id);
                proof {
                    lemma_lifecycle_steps(old(self)@, unmounted, self@);
                }
                Reconciliation::Replaced
            },
        }
    }
}

} // verus!
