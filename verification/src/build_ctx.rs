use vstd::prelude::*;
use std::marker::PhantomData;
use crate::arena::NodeArena;
use crate::erased_state::{ErasedState, NoState, StateType};
use crate::model::{lifecycle_step, BorrowFlag, NodeId, TreeModel};
use crate::type_id::{StateTypeId, TypeTag};

verus! {

/// A widget type whose nodes hold state, and the type of that state.
///
/// It stands apart from `WidgetState` so that the lifecycle hooks of a widget
/// can use the context of that same widget: the context's operations ask for
/// the state type alone.
pub trait Stateful {
    type State: StateType;
}

/// A widget with state of its own.
///
/// The tree creates the state once, when the widget is first mounted, and
/// keeps it for as long as the node lives, whatever happens to the widget's
/// configuration in between.
///
/// Each hook comes with a relation that says what it leaves behind. A widget
/// with no work to do on mount or unmount writes an empty hook and names
/// `post == pre`.
pub trait WidgetState: Stateful + Sized {
    /// The state that a node of this widget starts with.
    spec fn initial_state(&self) -> Self::State;

    /// Whether the mount hook, run for the node `node` on the tree `pre`,
    /// can leave the tree `post` behind.
    spec fn mount_spec(&self, node: NodeId, pre: TreeModel, post: TreeModel) -> bool;

    /// Whether the unmount hook, run for the node `node` on the tree `pre`,
    /// can leave the tree `post` behind.
    spec fn unmount_spec(&self, node: NodeId, pre: TreeModel, post: TreeModel) -> bool;

    /// Makes the state that a node of this widget starts with.
    fn create_state(&self) -> (state: Self::State)
        ensures
            state == self.initial_state(),
    ;

    /// Called when the widget is mounted into the tree (before build).
    ///
    /// Accessing `state_mut` of the provided `BuildContext` will not cause a
    /// rebuild of this widget to be scheduled.
    fn mount<'a>(&'a self, ctx: BuildContext<'a, Self>, tree: &mut NodeArena)
        requires
            old(tree).wf(),
            old(tree)@.holds::<Self::State>(ctx.node()),
            old(tree)@.suppressed,
            old(tree)@.borrow(ctx.node()) == BorrowFlag::Unused,
        ensures
            final(tree).wf(),
            lifecycle_step(old(tree)@, final(tree)@),
            self.mount_spec(ctx.node(), old(tree)@, final(tree)@),
    ;

    /// Called when the widget is unmounted from the tree. At this point given
    /// widget may be dropped or mounted again with its configuration updated.
    ///
    /// Accessing `state_mut` of the provided `BuildContext` will not cause a
    /// rebuild of this widget to be scheduled.
    fn unmount<'a>(&'a self, ctx: BuildContext<'a, Self>, tree: &mut NodeArena)
        requires
            old(tree).wf(),
            old(tree)@.holds::<Self::State>(ctx.node()),
            old(tree)@.suppressed,
            old(tree)@.borrow(ctx.node()) == BorrowFlag::Unused,
        ensures
            final(tree).wf(),
            lifecycle_step(old(tree)@, final(tree)@),
            self.unmount_spec(ctx.node(), old(tree)@, final(tree)@),
    ;
}

/// The empty widget: it holds no state worth the name and does nothing when
/// it is mounted or unmounted.
impl Stateful for () {
    type State = NoState;
}

impl WidgetState for () {
    open spec fn initial_state(&self) -> NoState {
        NoState
    }

    open spec fn mount_spec(&self, node: NodeId, pre: TreeModel, post: TreeModel) -> bool {
        post == pre
    }

    open spec fn unmount_spec(&self, node: NodeId, pre: TreeModel, post: TreeModel) -> bool {
        post == pre
    }

    fn create_state(&self) -> (state: NoState) {
        NoState
    }

    fn mount<'a>(&'a self, ctx: BuildContext<'a, Self>, tree: &mut NodeArena) {
    }

    fn unmount<'a>(&'a self, ctx: BuildContext<'a, Self>, tree: &mut NodeArena) {
    }
}

/// A widget whose state its descendants can ask for.
pub trait InheritedWidget {
    /// The key under which nodes of this widget provide their state.
    spec fn key() -> TypeTag;

    /// The key, at run time.
    fn unique_type_id() -> (key: TypeTag)
        ensures
            key == Self::key(),
    ;
}

/// A context that knows its node but not the type of the widget there.
pub struct Context {
    node: NodeId,
}

impl Context {
    /// The node that this names.
    pub closed spec fn node(&self) -> NodeId {
        self.node
    }

    /// The context of the node `node`.
    pub fn new(node: NodeId) -> (ctx: Context)
        ensures
            ctx.node() == node,
    {
        Context { node }
    }

    /// The node that this names.
    pub fn node_id(&self) -> (node: NodeId)
        ensures
            node == self.node(),
    {
        self.node
    }
}

// `BuildContext` is borrowed to make it so that closures don't take ownership
// of it, which would be inconvenient - user would have to clone `BuildContext`
// before every closure, since otherwise the context would move.
pub type BuildContext<'a, T> = &'a _BuildContext<'a, T>;

/// What a widget of type `T` is handed during its lifecycle callbacks and its
/// build: the one way from user code to the state of its node and to the
/// state that an ancestor provides. It names the node; the tree is passed to
/// each operation.
pub struct _BuildContext<'a, T> {
    node: NodeId,
    _p: PhantomData<&'a T>,
}

impl<'a, T> _BuildContext<'a, T> {
    /// The node that this names.
    pub closed spec fn node(&self) -> NodeId {
        self.node
    }

    /// The context of the same node for a widget of type `T`, made anew.
    pub fn new(ctx: &Context) -> (typed: _BuildContext<'a, T>)
        ensures
            typed.node() == ctx.node(),
    {
        _BuildContext { node: ctx.node_id(), _p: PhantomData }
    }

    /// The node that this names.
    pub fn node_id(&self) -> (node: NodeId)
        ensures
            node == self.node(),
    {
        self.node
    }

    /// This method registers the widget of this `BuildContext` as a dependency of
    /// the closest `InheritedWidget` ancestor of type `W` in the tree. It then
    /// returns the state of that inherited widget or `None` if inherited ancestor
    /// doesn't exist.
    pub fn depend_on_inherited_widget<W>(
        &self,
        tree: &mut NodeArena,
    ) -> (found: Option<InheritedState<'a, W::State>>) where W: InheritedWidget + Stateful
        requires
            old(tree).wf(),
        ensures
            final(tree).wf(),
            final(tree)@ == old(tree)@.depend_on(self.node(), W::key()),
            found is Some <==> old(tree)@.nearest_provider(self.node(), W::key()) is Some,
            found matches Some(inherited) ==> Some(inherited.node()) == old(
                tree,
            )@.nearest_provider(self.node(), W::key()),
            found matches Some(inherited) ==> old(tree)@.contains(inherited.node()),
            found matches Some(inherited) ==> old(tree)@.is_ancestor(inherited.node(), self.node()),
            found matches Some(inherited) ==> final(tree)@.dependents(inherited.node()).contains(
                self.node(),
            ),
            found is None ==> final(tree)@ == old(tree)@,
    {
        // Register and get inherited widget of specified key.
        let node: NodeId = tree.depend_on_inherited_widget_of_key(
            self.node,
            W::unique_type_id(),
        )?;

        Some(InheritedState { node, _p: PhantomData })
    }
}

impl<'a, T: Stateful> _BuildContext<'a, T> {
    /// Whether the context names a node of the tree whose state is of the
    /// type that `T` declares.
    pub open spec fn valid(&self, tree: TreeModel) -> bool {
        tree.holds::<T::State>(self.node())
    }

    /// Tests at run time what `valid` states.
    pub fn is_valid(&self, tree: &NodeArena) -> (r: bool)
        ensures
            r == self.valid(tree@),
    {
        tree.holds::<T::State>(self.node)
    }

    /// Shared access to the state of the node. Nothing is marked dirty.
    pub fn state(&self, tree: &mut NodeArena) -> (guard: StateGuard<'a, T::State>)
        requires
            old(tree).wf(),
            old(tree)@.contains(self.node()),
            old(tree)@.borrow(self.node()).can_share(),
        ensures
            final(tree).wf(),
            final(tree)@ == old(tree)@.borrow_shared(self.node()),
            guard.node() == self.node(),
    {
        tree.borrow(self.node);
        StateGuard { node: self.node, _p: PhantomData }
    }

    /// Exclusive access to the state of the node. Unless suppressed, the
    /// node is marked dirty at once: whoever holds the guard may change the
    /// state at any time.
    pub fn state_mut(&self, tree: &mut NodeArena) -> (guard: StateGuardMut<'a, T::State>)
        requires
            old(tree).wf(),
            old(tree)@.contains(self.node()),
            old(tree)@.borrow(self.node()) == BorrowFlag::Unused,
        ensures
            final(tree).wf(),
            final(tree)@ == old(tree)@.touch(self.node()).borrow_exclusive(self.node()),
            guard.node() == self.node(),
            forall|n: NodeId|
                n < old(tree)@.nodes.len() ==> #[trigger] final(tree)@.dirty(n) == (old(
                    tree,
                )@.dirty(n) || (!old(tree)@.suppressed && n == self.node())),
    {
        if !tree.is_suppressed() {
            tree.mark_dirty(self.node);
        }
        tree.borrow_mut(self.node);
        StateGuardMut { node: self.node, _p: PhantomData }
    }
}

/// Shared access to the state of one node, as a value of type `T`.
pub struct StateGuard<'a, T> {
    node: NodeId,
    _p: PhantomData<&'a T>,
}

impl<'a, T: StateType> StateGuard<'a, T> {
    /// The node that this names.
    pub closed spec fn node(&self) -> NodeId {
        self.node
    }

    /// Whether the guard still stands for one of the shared borrows that
    /// the tree has on record.
    pub open spec fn live(&self, tree: TreeModel) -> bool {
        &&& tree.holds::<T>(self.node())
        &&& tree.borrow(self.node()) is Reading
    }

    /// The node that this names.
    pub fn node_id(&self) -> (node: NodeId)
        ensures
            node == self.node(),
    {
        self.node
    }

    /// Tests at run time what `live` states.
    pub fn is_live(&self, tree: &NodeArena) -> (r: bool)
        ensures
            r == self.live(tree@),
    {
        tree.holds::<T>(self.node) && match tree.borrow_flag(self.node) {
            BorrowFlag::Reading(_) => true,
            _ => false,
        }
    }

    /// The state, to read.
    pub fn deref<'t>(&self, tree: &'t NodeArena) -> (state: &'t T)
        requires
            self.live(tree@),
        ensures
            state.erased() == tree@.state(self.node()),
    {
        tree.state_ref::<T>(self.node)
    }

    /// Ends the access. A guard that is dropped without this leaves its
    /// borrow on record.
    pub fn release(self, tree: &mut NodeArena)
        requires
            old(tree).wf(),
            old(tree)@.contains(self.node()),
            old(tree)@.borrow(self.node()) is Reading,
        ensures
            final(tree).wf(),
            final(tree)@ == old(tree)@.release_shared(self.node()),
    {
        tree.release(self.node);
    }
}

/// Exclusive access to the state of one node, as a value of type `T`.
pub struct StateGuardMut<'a, T> {
    node: NodeId,
    _p: PhantomData<&'a T>,
}

impl<'a, T: StateType> StateGuardMut<'a, T> {
    /// The node that this names.
    pub closed spec fn node(&self) -> NodeId {
        self.node
    }

    /// Whether the guard still stands for the exclusive borrow that the tree
    /// has on record.
    pub open spec fn live(&self, tree: TreeModel) -> bool {
        &&& tree.holds::<T>(self.node())
        &&& tree.borrow(self.node()) == BorrowFlag::Writing
    }

    /// The node that this names.
    pub fn node_id(&self) -> (node: NodeId)
        ensures
            node == self.node(),
    {
        self.node
    }

    /// Tests at run time what `live` states.
    pub fn is_live(&self, tree: &NodeArena) -> (r: bool)
        ensures
            r == self.live(tree@),
    {
        tree.holds::<T>(self.node) && match tree.borrow_flag(self.node) {
            BorrowFlag::Writing => true,
            _ => false,
        }
    }

    /// The state, to read.
    pub fn deref<'t>(&self, tree: &'t NodeArena) -> (state: &'t T)
        requires
            self.live(tree@),
        ensures
            state.erased() == tree@.state(self.node()),
    {
        tree.state_ref::<T>(self.node)
    }

    /// The state, to change in place. What is written is of type `T` again,
    /// so the state keeps its type.
    pub fn deref_mut<'t>(&mut self, tree: &'t mut NodeArena) -> (state: &'t mut T)
        requires
            old(tree).wf(),
            old(self).live(old(tree)@),
        ensures
            final(tree).wf(),
            *final(self) == *old(self),
            state.erased() == old(tree)@.state(old(self).node()),
            final(tree)@ == old(tree)@.with_state(old(self).node(), (*final(state)).erased()),
    {
        tree.state_mut::<T>(self.node)
    }

    /// Ends the access. A guard that is dropped without this leaves its
    /// borrow on record.
    pub fn release(self, tree: &mut NodeArena)
        requires
            old(tree).wf(),
            old(tree)@.contains(self.node()),
            old(tree)@.borrow(self.node()) == BorrowFlag::Writing,
        ensures
            final(tree).wf(),
            final(tree)@ == old(tree)@.release_exclusive(self.node()),
    {
        tree.release_mut(self.node);
    }
}

/// The state that an ancestor provides, as found by
/// `depend_on_inherited_widget`: it names the ancestor, and `T` is the type
/// that the state is expected to have.
pub struct InheritedState<'a, T> {
    pub(crate) node: NodeId,
    pub(crate) _p: PhantomData<&'a T>,
}

impl<'a, T: StateType> InheritedState<'a, T> {
    /// The node that this names.
    pub closed spec fn node(&self) -> NodeId {
        self.node
    }

    /// Whether the ancestor's state is of the expected type.
    pub open spec fn valid(&self, tree: TreeModel) -> bool {
        tree.holds::<T>(self.node())
    }

    /// The node that this names.
    pub fn node_id(&self) -> (node: NodeId)
        ensures
            node == self.node(),
    {
        self.node
    }

    /// Tests at run time what `valid` states.
    pub fn is_valid(&self, tree: &NodeArena) -> (r: bool)
        ensures
            r == self.valid(tree@),
    {
        tree.holds::<T>(self.node)
    }

    /// Shared access to the ancestor's state. Nothing is marked dirty.
    pub fn as_ref(&'a self, tree: &mut NodeArena) -> (guard: InheritedStateRef<'a, T>)
        requires
            old(tree).wf(),
            old(tree)@.contains(self.node()),
            old(tree)@.borrow(self.node()).can_share(),
        ensures
            final(tree).wf(),
            final(tree)@ == old(tree)@.borrow_shared(self.node()),
            guard.node() == self.node(),
    {
        tree.borrow(self.node);
        InheritedStateRef { node: self.node, _p: PhantomData }
    }

    /// Exclusive access to the ancestor's state. Unless suppressed, the
    /// ancestor and every node that has registered as its dependent are
    /// marked dirty at once; no other node is.
    pub fn as_mut(&'a mut self, tree: &mut NodeArena) -> (guard: InheritedStateRefMut<'a, T>)
        requires
            old(tree).wf(),
            old(tree)@.contains(old(self).node()),
            old(tree)@.borrow(old(self).node()) == BorrowFlag::Unused,
        ensures
            final(tree).wf(),
            *final(self) == *old(self),
            final(tree)@ == old(tree)@.touch_inherited(old(self).node()).borrow_exclusive(
                old(self).node(),
            ),
            guard.node() == old(self).node(),
            forall|n: NodeId|
                n < old(tree)@.nodes.len() ==> #[trigger] final(tree)@.dirty(n) == (old(
                    tree,
                )@.dirty(n) || (!old(tree)@.suppressed && old(tree)@.hears_of(
                    old(self).node(),
                    n,
                ))),
    {
        if !tree.is_suppressed() {
            tree.mark_dirty(self.node);
            tree.mark_dependent_widgets_as_dirty(self.node);
        }
        tree.borrow_mut(self.node);
        InheritedStateRefMut { node: self.node, _p: PhantomData }
    }
}

/// Shared access to the state of an ancestor, as a value of type `T`.
pub struct InheritedStateRef<'a, T> {
    node: NodeId,
    _p: PhantomData<&'a T>,
}

impl<'a, T: StateType> InheritedStateRef<'a, T> {
    /// The node that this names.
    pub closed spec fn node(&self) -> NodeId {
        self.node
    }

    /// Whether the guard still stands for one of the shared borrows that
    /// the tree has on record.
    pub open spec fn live(&self, tree: TreeModel) -> bool {
        &&& tree.holds::<T>(self.node())
        &&& tree.borrow(self.node()) is Reading
    }

    /// The node that this names.
    pub fn node_id(&self) -> (node: NodeId)
        ensures
            node == self.node(),
    {
        self.node
    }

    /// Tests at run time what `live` states.
    pub fn is_live(&self, tree: &NodeArena) -> (r: bool)
        ensures
            r == self.live(tree@),
    {
        tree.holds::<T>(self.node) && match tree.borrow_flag(self.node) {
            BorrowFlag::Reading(_) => true,
            _ => false,
        }
    }

    /// The state, to read.
    pub fn deref<'t>(&self, tree: &'t NodeArena) -> (state: &'t T)
        requires
            self.live(tree@),
        ensures
            state.erased() == tree@.state(self.node()),
    {
        tree.state_ref::<T>(self.node)
    }

    /// Ends the access. A guard that is dropped without this leaves its
    /// borrow on record.
    pub fn release(self, tree: &mut NodeArena)
        requires
            old(tree).wf(),
            old(tree)@.contains(self.node()),
            old(tree)@.borrow(self.node()) is Reading,
        ensures
            final(tree).wf(),
            final(tree)@ == old(tree)@.release_shared(self.node()),
    {
        tree.release(self.node);
    }
}

/// Exclusive access to the state of an ancestor, as a value of type `T`.
pub struct InheritedStateRefMut<'a, T> {
    node: NodeId,
    _p: PhantomData<&'a T>,
}

impl<'a, T: StateType> InheritedStateRefMut<'a, T> {
    /// The node that this names.
    pub closed spec fn node(&self) -> NodeId {
        self.node
    }

    /// Whether the guard still stands for the exclusive borrow that the tree
    /// has on record.
    pub open spec fn live(&self, tree: TreeModel) -> bool {
        &&& tree.holds::<T>(self.node())
        &&& tree.borrow(self.node()) == BorrowFlag::Writing
    }

    /// The node that this names.
    pub fn node_id(&self) -> (node: NodeId)
        ensures
            node == self.node(),
    {
        self.node
    }

    /// Tests at run time what `live` states.
    pub fn is_live(&self, tree: &NodeArena) -> (r: bool)
        ensures
            r == self.live(tree@),
    {
        tree.holds::<T>(self.node) && match tree.borrow_flag(self.node) {
            BorrowFlag::Writing => true,
            _ => false,
        }
    }

    /// The state, to read.
    pub fn deref<'t>(&self, tree: &'t NodeArena) -> (state: &'t T)
        requires
            self.live(tree@),
        ensures
            state.erased() == tree@.state(self.node()),
    {
        tree.state_ref::<T>(self.node)
    }

    /// The state, to change in place. What is written is of type `T` again,
    /// so the state keeps its type.
    pub fn deref_mut<'t>(&mut self, tree: &'t mut NodeArena) -> (state: &'t mut T)
        requires
            old(tree).wf(),
            old(self).live(old(tree)@),
        ensures
            final(tree).wf(),
            *final(self) == *old(self),
            state.erased() == old(tree)@.state(old(self).node()),
            final(tree)@ == old(tree)@.with_state(old(self).node(), (*final(state)).erased()),
    {
        tree.state_mut::<T>(self.node)
    }

    /// Ends the access. A guard that is dropped without this leaves its
    /// borrow on record.
    pub fn release(self, tree: &mut NodeArena)
        requires
            old(tree).wf(),
            old(tree)@.contains(self.node()),
            old(tree)@.borrow(self.node()) == BorrowFlag::Writing,
        ensures
            final(tree).wf(),
            final(tree)@ == old(tree)@.release_exclusive(self.node()),
    {
        tree.release_mut(self.node);
    }
}

/// What the tree needs of a widget to keep its state, whatever the widget's
/// concrete type. `OS` stands for "object safe".
pub trait WidgetStateOS {
    /// The identity of the type of the state that the widget declares.
    spec fn state_type(&self) -> StateTypeId;

    /// The state that a node of this widget starts with, erased.
    spec fn initial(&self) -> ErasedState;

    /// Whether the widget's mount hook, run for the node `node` on the tree
    /// `pre`, can leave the tree `post` behind.
    spec fn mount_effect(&self, node: NodeId, pre: TreeModel, post: TreeModel) -> bool;

    /// Whether the widget's unmount hook, run for the node `node` on the tree
    /// `pre`, can leave the tree `post` behind.
    spec fn unmount_effect(&self, node: NodeId, pre: TreeModel, post: TreeModel) -> bool;

    fn state_type_id(&self) -> (id: StateTypeId)
        ensures
            id == self.state_type(),
    ;

    fn create_state(&self) -> (state: ErasedState)
        ensures
            state == self.initial(),
            state.type_tag() == self.state_type(),
    ;

    fn mount(&self, build_ctx: &Context, tree: &mut NodeArena)
        requires
            old(tree).wf(),
            old(tree)@.contains(build_ctx.node()),
            old(tree)@.state(build_ctx.node()).type_tag() == self.state_type(),
            old(tree)@.suppressed,
            old(tree)@.borrow(build_ctx.node()) == BorrowFlag::Unused,
        ensures
            final(tree).wf(),
            lifecycle_step(old(tree)@, final(tree)@),
            self.mount_effect(build_ctx.node(), old(tree)@, final(tree)@),
    ;

    fn unmount(&self, build_ctx: &Context, tree: &mut NodeArena)
        requires
            old(tree).wf(),
            old(tree)@.contains(build_ctx.node()),
            old(tree)@.state(build_ctx.node()).type_tag() == self.state_type(),
            old(tree)@.suppressed,
            old(tree)@.borrow(build_ctx.node()) == BorrowFlag::Unused,
        ensures
            final(tree).wf(),
            lifecycle_step(old(tree)@, final(tree)@),
            self.unmount_effect(build_ctx.node(), old(tree)@, final(tree)@),
    ;
}

impl<T: WidgetState> WidgetStateOS for T {
    open spec fn state_type(&self) -> StateTypeId {
        T::State::type_tag()
    }

    open spec fn initial(&self) -> ErasedState {
        self.initial_state().erased()
    }

    open spec fn mount_effect(&self, node: NodeId, pre: TreeModel, post: TreeModel) -> bool {
        self.mount_spec(node, pre, post)
    }

    open spec fn unmount_effect(&self, node: NodeId, pre: TreeModel, post: TreeModel) -> bool {
        self.unmount_spec(node, pre, post)
    }

    fn state_type_id(&self) -> (id: StateTypeId) {
        T::State::state_type_id()
    }

    fn create_state(&self) -> (state: ErasedState) {
        let typed = T::create_state(self);
        proof {
            typed.erased_carries_tag();
        }
        typed.erase()
    }

    fn mount(&self, ctx: &Context, tree: &mut NodeArena) {
        let ctx = _BuildContext::<T>::new(ctx);

        T::mount(self, &ctx, tree)
    }

    fn unmount(&self, ctx: &Context, tree: &mut NodeArena) {
        let ctx = _BuildContext::<T>::new(ctx);

        T::unmount(self, &ctx, tree)
    }
}

} // verus!
