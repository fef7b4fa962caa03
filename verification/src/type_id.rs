use vstd::prelude::*;

verus! {

/// Identity of a concrete widget type, or of the key under which an
/// inheritance provider publishes its state.
///
/// Two values stand for the same type exactly when their numbers are equal.
#[derive(Clone, Copy, PartialEq, Eq, Structural, Debug, Hash)]
pub struct TypeTag(pub u64);

/// Identity of a state type: which kind of value a node's erased state holds.
#[derive(Clone, Copy, PartialEq, Eq, Structural, Debug, Hash)]
pub enum StateTypeId {
    /// The distinguished identity of widgets that declare no state.
    NoState,
    /// `bool`.
    Flag,
    /// `u64`.
    Count,
    /// `Option<u64>`.
    Handle,
}

} // verus!
