use vstd::prelude::*;
use crate::arena::NodeArena;
use crate::build_ctx::{Context, WidgetStateOS};
use crate::erased_state::{ErasedState, NoState};
use crate::model::{NodeId, TreeModel};
use crate::structural_eq::{StructuralEq, StructuralEqOS};
use crate::type_id::{StateTypeId, TypeTag};

verus! {

/// A widget that declares no state. The tree treats it like any other: its
/// node gets the one value of `NoState`, under the identity kept for that,
/// and its lifecycle hooks do nothing.
#[derive(Debug, PartialEq, Eq)]
pub struct Stateless<W>(pub W);

impl<W> WidgetStateOS for Stateless<W> {
    open spec fn state_type(&self) -> StateTypeId {
        StateTypeId::NoState
    }

    open spec fn initial(&self) -> ErasedState {
        ErasedState::NoState(NoState)
    }

    open spec fn mount_effect(&self, node: NodeId, pre: TreeModel, post: TreeModel) -> bool {
        post == pre
    }

    open spec fn unmount_effect(&self, node: NodeId, pre: TreeModel, post: TreeModel) -> bool {
        post == pre
    }

    fn state_type_id(&self) -> (id: StateTypeId) {
        StateTypeId::NoState
    }

    fn create_state(&self) -> (state: ErasedState) {
        ErasedState::NoState(NoState)
    }

    fn mount(&self, _ctx: &Context, tree: &mut NodeArena)
        ensures
            *final(tree) == *old(tree),
    {
    }

    fn unmount(&self, _ctx: &Context, tree: &mut NodeArena)
        ensures
            *final(tree) == *old(tree),
    {
    }
}

impl<W: StructuralEq> StructuralEq for Stateless<W> {
    open spec fn type_tag() -> TypeTag {
        W::type_tag()
    }

    open spec fn eq_spec(&self, other: &Self) -> bool {
        StructuralEq::eq_spec(&self.0, &other.0)
    }

    fn type_id() -> (tag: TypeTag) {
        W::type_id()
    }

    fn eq(&self, other: &Self) -> (r: bool) {
        StructuralEq::eq(&self.0, &other.0)
    }
}

/// One of two widget types, with which of the two forgotten by the type.
/// Nested, it erases any closed set of widget types, so that one tree can
/// hold them all.
#[derive(Debug, PartialEq, Eq)]
pub enum Either<L, R> {
    Left(L),
    Right(R),
}

impl<L: WidgetStateOS, R: WidgetStateOS> WidgetStateOS for Either<L, R> {
    open spec fn state_type(&self) -> StateTypeId {
        match self {
            Either::Left(widget) => widget.state_type(),
            Either::Right(widget) => widget.state_type(),
        }
    }

    open spec fn initial(&self) -> ErasedState {
        match self {
            Either::Left(widget) => widget.initial(),
            Either::Right(widget) => widget.initial(),
        }
    }

    open spec fn mount_effect(&self, node: NodeId, pre: TreeModel, post: TreeModel) -> bool {
        match self {
            Either::Left(widget) => widget.mount_effect(node, pre, post),
            Either::Right(widget) => widget.mount_effect(node, pre, post),
        }
    }

    open spec fn unmount_effect(&self, node: NodeId, pre: TreeModel, post: TreeModel) -> bool {
        match self {
            Either::Left(widget) => widget.unmount_effect(node, pre, post),
            Either::Right(widget) => widget.unmount_effect(node, pre, post),
        }
    }

    fn state_type_id(&self) -> (id: StateTypeId) {
        match self {
            Either::Left(widget) => widget.state_type_id(),
            Either::Right(widget) => widget.state_type_id(),
        }
    }

    fn create_state(&self) -> (state: ErasedState) {
        match self {
            Either::Left(widget) => widget.create_state(),
            Either::Right(widget) => widget.create_state(),
        }
    }

    fn mount(&self, ctx: &Context, tree: &mut NodeArena) {
        match self {
            Either::Left(widget) => widget.mount(ctx, tree),
            Either::Right(widget) => widget.mount(ctx, tree),
        }
    }

    fn unmount(&self, ctx: &Context, tree: &mut NodeArena) {
        match self {
            Either::Left(widget) => widget.unmount(ctx, tree),
            Either::Right(widget) => widget.unmount(ctx, tree),
        }
    }
}

impl<L: StructuralEqOS, R: StructuralEqOS> StructuralEqOS for Either<L, R> {
    open spec fn widget_type(&self) -> TypeTag {
        match self {
            Either::Left(widget) => widget.widget_type(),
            Either::Right(widget) => widget.widget_type(),
        }
    }

    /// A widget on the left and one on the right are never the same, even
    /// where their types should have been given one identity by mistake.
    open spec fn same_fields(&self, other: &Self) -> bool {
        match (self, other) {
            (Either::Left(a), Either::Left(b)) => a.widget_type() == b.widget_type()
                && a.same_fields(b),
            (Either::Right(a), Either::Right(b)) => a.widget_type() == b.widget_type()
                && a.same_fields(b),
            _ => false,
        }
    }

    fn widget_type_id(&self) -> (tag: TypeTag) {
        match self {
            Either::Left(widget) => widget.widget_type_id(),
            Either::Right(widget) => widget.widget_type_id(),
        }
    }

    fn eq_same_type(&self, other: &Self) -> (r: bool) {
        match (self, other) {
            (Either::Left(a), Either::Left(b)) => a.eq_same_type(b),
            (Either::Right(a), Either::Right(b)) => a.eq_same_type(b),
            _ => false,
        }
    }
}

} // verus!
