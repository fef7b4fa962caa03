use frui_core::erased_state::{ErasedState, NoState, StateType};
use frui_core::type_id::StateTypeId;

#[test]
fn erased_value_carries_the_identity_of_its_type() {
    assert_eq!(NoState.erase().state_type_id(), StateTypeId::NoState);
    assert_eq!(true.erase().state_type_id(), StateTypeId::Flag);
    assert_eq!(5u64.erase().state_type_id(), StateTypeId::Count);
    assert_eq!(Some(9u64).erase().state_type_id(), StateTypeId::Handle);
    assert_eq!(<NoState as StateType>::state_type_id(), StateTypeId::NoState);
    assert_eq!(<bool as StateType>::state_type_id(), StateTypeId::Flag);
    assert_eq!(<u64 as StateType>::state_type_id(), StateTypeId::Count);
    assert_eq!(<Option<u64> as StateType>::state_type_id(), StateTypeId::Handle);
}

#[test]
fn erase_keeps_the_value() {
    assert_eq!(5u64.erase(), ErasedState::Count(5));
    assert_eq!(false.erase(), ErasedState::Flag(false));
    assert_eq!(Some(3u64).erase(), ErasedState::Handle(Some(3)));
    assert_eq!(None::<u64>.erase(), ErasedState::Handle(None));
    assert_eq!(NoState.erase(), ErasedState::NoState(NoState));
}

#[test]
fn downcast_to_the_right_type_gives_the_value() {
    let erased = 41u64.erase();
    assert_eq!(u64::downcast_ref(&erased), Some(&41));
    let erased = Some(8u64).erase();
    assert_eq!(<Option<u64>>::downcast_ref(&erased), Some(&Some(8)));
    let erased = true.erase();
    assert_eq!(bool::downcast_ref(&erased), Some(&true));
    let erased = NoState.erase();
    assert_eq!(NoState::downcast_ref(&erased), Some(&NoState));
}

#[test]
fn downcast_to_another_type_gives_none() {
    let erased = 41u64.erase();
    assert_eq!(bool::downcast_ref(&erased), None);
    assert_eq!(<Option<u64>>::downcast_ref(&erased), None);
    assert_eq!(NoState::downcast_ref(&erased), None);
    let erased = NoState.erase();
    assert_eq!(u64::downcast_ref(&erased), None);
    let mut erased = true.erase();
    assert!(u64::downcast_mut(&mut erased).is_none());
    assert_eq!(erased, ErasedState::Flag(true));
}

#[test]
fn write_through_downcast_mut_changes_the_erased_value() {
    let mut erased = 1u64.erase();
    match u64::downcast_mut(&mut erased) {
        Some(count) => *count = 2,
        None => panic!("a count was erased"),
    }
    assert_eq!(erased, ErasedState::Count(2));
    assert_eq!(erased.state_type_id(), StateTypeId::Count);
}
