use frui_core::arena::NodeArena;
use frui_core::build_ctx::{Context, WidgetStateOS};
use frui_core::erased_state::{ErasedState, StateType};
use frui_core::model::TreeModel;
use frui_core::structural_eq::StructuralEqOS;
use frui_core::tree::{Reconciliation, WidgetTree};
use frui_core::type_id::{StateTypeId, TypeTag};

/// A widget whose erased form claims one concrete type for every value, but
/// declares state of a type that depends on the value.
#[derive(Debug, PartialEq)]
struct Shifty {
    counts: bool,
    label: u32,
}

impl WidgetStateOS for Shifty {
    fn state_type(&self) -> StateTypeId {
        self.state_type_id()
    }

    fn initial(&self) -> ErasedState {
        WidgetStateOS::create_state(self)
    }

    fn mount_effect(&self, _: usize, _: TreeModel, _: TreeModel) -> bool {
        true
    }

    fn unmount_effect(&self, _: usize, _: TreeModel, _: TreeModel) -> bool {
        true
    }

    fn state_type_id(&self) -> StateTypeId {
        if self.counts {
            StateTypeId::Count
        } else {
            StateTypeId::Flag
        }
    }

    fn create_state(&self) -> ErasedState {
        if self.counts {
            0u64.erase()
        } else {
            false.erase()
        }
    }

    fn mount(&self, _: &Context, _: &mut NodeArena) {}

    fn unmount(&self, _: &Context, _: &mut NodeArena) {}
}

impl StructuralEqOS for Shifty {
    fn widget_type(&self) -> TypeTag {
        TypeTag(40)
    }

    fn same_fields(&self, other: &Self) -> bool {
        self == other
    }

    fn widget_type_id(&self) -> TypeTag {
        TypeTag(40)
    }

    fn eq_same_type(&self, other: &Self) -> bool {
        self == other
    }
}

#[test]
fn update_that_would_change_the_state_type_is_handed_back() {
    let mut tree = WidgetTree::new();
    let root = tree.mount(None, Shifty { counts: true, label: 1 }, None).unwrap();
    *tree.arena_mut().state_mut::<u64>(root) = 12;

    match tree.update(root, Shifty { counts: false, label: 1 }) {
        Reconciliation::TypeMismatch(widget) => {
            assert_eq!(widget, Shifty { counts: false, label: 1 })
        }
        _ => panic!("a configuration with state of another type is handed back"),
    }
    assert_eq!(tree.configuration(root), Some(&Shifty { counts: true, label: 1 }));
    assert_eq!(tree.arena().state_type_id(root), StateTypeId::Count);
    assert_eq!(*tree.arena().state_ref::<u64>(root), 12);
}

#[test]
fn update_that_keeps_the_state_type_replaces_the_configuration() {
    let mut tree = WidgetTree::new();
    let root = tree.mount(None, Shifty { counts: true, label: 1 }, None).unwrap();
    *tree.arena_mut().state_mut::<u64>(root) = 12;
    let serial = tree.arena().state_id(root);

    match tree.update(root, Shifty { counts: true, label: 2 }) {
        Reconciliation::Replaced => {}
        _ => panic!("a configuration of the same type takes the place"),
    }
    assert_eq!(tree.configuration(root), Some(&Shifty { counts: true, label: 2 }));
    assert_eq!(*tree.arena().state_ref::<u64>(root), 12);
    assert_eq!(tree.arena().state_id(root), serial);

    match tree.update(root, Shifty { counts: true, label: 2 }) {
        Reconciliation::Kept => {}
        _ => panic!("an equal configuration is kept"),
    }
    assert_eq!(*tree.arena().state_ref::<u64>(root), 12);
}
