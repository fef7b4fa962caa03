use vstd::prelude::*;
use crate::type_id::StateTypeId;

verus! {

/// The state of a widget that declares none.
#[derive(Clone, Copy, PartialEq, Eq, Structural, Debug)]
pub struct NoState;

/// A node's state with its concrete type erased: one value of one of the
/// state types, told apart by the variant.
#[derive(Debug, PartialEq, Eq)]
pub enum ErasedState {
    /// The state of a widget that declares none.
    NoState(NoState),
    /// A switch.
    Flag(bool),
    /// A number.
    Count(u64),
    /// The key of something registered elsewhere, while it is registered.
    Handle(Option<u64>),
}

impl ErasedState {
    /// The identity of the type of the value held.
    pub open spec fn type_tag(&self) -> StateTypeId {
        match self {
            ErasedState::NoState(_) => StateTypeId::NoState,
            ErasedState::Flag(_) => StateTypeId::Flag,
            ErasedState::Count(_) => StateTypeId::Count,
            ErasedState::Handle(_) => StateTypeId::Handle,
        }
    }

    /// The identity of the type of the value held, at run time.
    pub fn state_type_id(&self) -> (id: StateTypeId)
        ensures
            id == self.type_tag(),
    {
        match self {
            ErasedState::NoState(_) => StateTypeId::NoState,
            ErasedState::Flag(_) => StateTypeId::Flag,
            ErasedState::Count(_) => StateTypeId::Count,
            ErasedState::Handle(_) => StateTypeId::Handle,
        }
    }
}

/// A type that a node's state can have.
///
/// `erase` forgets the type; `downcast_ref` and `downcast_mut` recover it, and
/// answer `None` exactly when the erased value is of another type.
pub trait StateType: Sized {
    /// The identity of this state type.
    spec fn type_tag() -> StateTypeId;

    /// The value with its type erased.
    spec fn erased(self) -> ErasedState;

    /// Erasing a value of this type gives a value that carries this type's
    /// identity.
    proof fn erased_carries_tag(self)
        ensures
            self.erased().type_tag() == Self::type_tag(),
    ;

    /// Erasing forgets the type and nothing else: two values that are the
    /// same once erased are the same.
    proof fn erased_is_injective(self, other: Self)
        requires
            self.erased() == other.erased(),
        ensures
            self == other,
    ;

    fn state_type_id() -> (id: StateTypeId)
        ensures
            id == Self::type_tag(),
    ;

    fn erase(self) -> (e: ErasedState)
        ensures
            e == self.erased(),
    ;

    fn downcast_ref(e: &ErasedState) -> (r: Option<&Self>)
        ensures
            r is Some <==> e.type_tag() == Self::type_tag(),
            r matches Some(v) ==> v.erased() == *e,
    ;

    fn downcast_mut(e: &mut ErasedState) -> (r: Option<&mut Self>)
        ensures
            r is Some <==> old(e).type_tag() == Self::type_tag(),
            r matches Some(v) ==> (*v).erased() == *old(e) && *final(e) == (*final(v)).erased(),
            r is None ==> *final(e) == *old(e),
    ;
}

impl StateType for NoState {
    open spec fn type_tag() -> StateTypeId {
        StateTypeId::NoState
    }

    open spec fn erased(self) -> ErasedState {
        ErasedState::NoState(self)
    }

    proof fn erased_carries_tag(self) {
    }

    proof fn erased_is_injective(self, other: Self) {
    }

    fn state_type_id() -> (id: StateTypeId) {
        StateTypeId::NoState
    }

    fn erase(self) -> (e: ErasedState) {
        ErasedState::NoState(self)
    }

    fn downcast_ref(e: &ErasedState) -> (r: Option<&Self>) {
        match e {
            ErasedState::NoState(v) => Some(v),
            _ => None,
        }
    }

    fn downcast_mut(e: &mut ErasedState) -> (r: Option<&mut Self>) {
        match e {
            ErasedState::NoState(v) => Some(v),
            _ => None,
        }
    }
}

impl StateType for bool {
    open spec fn type_tag() -> StateTypeId {
        StateTypeId::Flag
    }

    open spec fn erased(self) -> ErasedState {
        ErasedState::Flag(self)
    }

    proof fn erased_carries_tag(self) {
    }

    proof fn erased_is_injective(self, other: Self) {
    }

    fn state_type_id() -> (id: StateTypeId) {
        StateTypeId::Flag
    }

    fn erase(self) -> (e: ErasedState) {
        ErasedState::Flag(self)
    }

    fn downcast_ref(e: &ErasedState) -> (r: Option<&Self>) {
        match e {
            ErasedState::Flag(v) => Some(v),
            _ => None,
        }
    }

    fn downcast_mut(e: &mut ErasedState) -> (r: Option<&mut Self>) {
        match e {
            ErasedState::Flag(v) => Some(v),
            _ => None,
        }
    }
}

impl StateType for u64 {
    open spec fn type_tag() -> StateTypeId {
        StateTypeId::Count
    }

    open spec fn erased(self) -> ErasedState {
        ErasedState::Count(self)
    }

    proof fn erased_carries_tag(self) {
    }

    proof fn erased_is_injective(self, other: Self) {
    }

    fn state_type_id() -> (id: StateTypeId) {
        StateTypeId::Count
    }

    fn erase(self) -> (e: ErasedState) {
        ErasedState::Count(self)
    }

    fn downcast_ref(e: &ErasedState) -> (r: Option<&Self>) {
        match e {
            ErasedState::Count(v) => Some(v),
            _ => None,
        }
    }

    fn downcast_mut(e: &mut ErasedState) -> (r: Option<&mut Self>) {
        match e {
            ErasedState::Count(v) => Some(v),
            _ => None,
        }
    }
}

impl StateType for Option<u64> {
    open spec fn type_tag() -> StateTypeId {
        StateTypeId::Handle
    }

    open spec fn erased(self) -> ErasedState {
        ErasedState::Handle(self)
    }

    proof fn erased_carries_tag(self) {
    }

    proof fn erased_is_injective(self, other: Self) {
    }

    fn state_type_id() -> (id: StateTypeId) {
        StateTypeId::Handle
    }

    fn erase(self) -> (e: ErasedState) {
        ErasedState::Handle(self)
    }

    fn downcast_ref(e: &ErasedState) -> (r: Option<&Self>) {
        match e {
            ErasedState::Handle(v) => Some(v),
            _ => None,
        }
    }

    fn downcast_mut(e: &mut ErasedState) -> (r: Option<&mut Self>) {
        match e {
            ErasedState::Handle(v) => Some(v),
            _ => None,
        }
    }
}

} // verus!
