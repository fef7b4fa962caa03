use vstd::prelude::*;
use crate::arena::NodeArena;
use crate::build_ctx::{BuildContext, Stateful};
use crate::erased_state::ErasedState;
use crate::model::BorrowFlag;

verus! {

/// The key under which a listener table knows a registered callback.
pub type CallbackKey = u64;

/// What an event detector does on mount, once its callback is registered:
/// it keeps the key in its state, to give it back on unmount.
pub fn keep_callback_key<T>(ctx: BuildContext<T>, tree: &mut NodeArena, key: CallbackKey) where
    T: Stateful<State = Option<CallbackKey>>,
    requires
        old(tree).wf(),
        ctx.valid(old(tree)@),
        old(tree)@.borrow(ctx.node()) == BorrowFlag::Unused,
    ensures
        final(tree).wf(),
        final(tree)@ == old(tree)@.touch(ctx.node()).with_state(
            ctx.node(),
            ErasedState::Handle(Some(key)),
        ),
{
    let mut guard = ctx.state_mut(tree);
    *guard.deref_mut(tree) = Some(key);
    guard.release(tree);
    proof {
        assert(tree@.nodes =~= old(tree)@.touch(ctx.node()).with_state(
            ctx.node(),
            ErasedState::Handle(Some(key)),
        ).nodes);
    }
}

/// What an event detector does on unmount: it hands out the key that it
/// kept, for the callback to be unregistered, and keeps none. Where it kept
/// none, it hands out none.
pub fn take_callback_key<T>(
    ctx: BuildContext<T>,
    tree: &mut NodeArena,
) -> (key: Option<CallbackKey>) where T: Stateful<State = Option<CallbackKey>>
    requires
        old(tree).wf(),
        ctx.valid(old(tree)@),
        old(tree)@.borrow(ctx.node()) == BorrowFlag::Unused,
    ensures
        final(tree).wf(),
        old(tree)@.state(ctx.node()) == ErasedState::Handle(key),
        final(tree)@ == old(tree)@.touch(ctx.node()).with_state(
            ctx.node(),
            ErasedState::Handle(None),
        ),
{
    let mut guard = ctx.state_mut(tree);
    let slot = guard.deref_mut(tree);
    let key = *slot;
    *slot = None;
    guard.release(tree);
    proof {
        assert(tree@.nodes =~= old(tree)@.touch(ctx.node()).with_state(
            ctx.node(),
            ErasedState::Handle(None),
        ).nodes);
    }
    key
}

} // verus!
