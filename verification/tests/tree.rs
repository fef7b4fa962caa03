use frui_core::arena::NodeArena;
use frui_core::build_ctx::{
    BuildContext, Context, InheritedWidget, Stateful, WidgetState, WidgetStateOS, _BuildContext,
};
use frui_core::erased_state::{ErasedState, NoState, StateType};
use frui_core::erased_widget::{Either, Stateless};
use frui_core::event_detectors::{keep_callback_key, take_callback_key};
use frui_core::model::{BorrowFlag, TreeModel};
use frui_core::structural_eq::{EqVerdict, StructuralEq, StructuralEqOS};
use frui_core::tree::{Reconciliation, WidgetTree};
use frui_core::type_id::{StateTypeId, TypeTag};

/// A widget that keeps in its state, while mounted, the key that its
/// configuration asks for.
#[derive(Debug, Clone, PartialEq)]
struct Detector {
    key: u64,
}

impl Stateful for Detector {
    type State = Option<u64>;
}

impl WidgetState for Detector {
    fn initial_state(&self) -> Self::State {
        WidgetState::create_state(self)
    }

    fn mount_spec(&self, _: usize, _: TreeModel, _: TreeModel) -> bool {
        true
    }

    fn unmount_spec(&self, _: usize, _: TreeModel, _: TreeModel) -> bool {
        true
    }

    fn create_state(&self) -> Option<u64> {
        None
    }

    fn mount<'a>(&'a self, ctx: BuildContext<'a, Self>, tree: &mut NodeArena) {
        keep_callback_key(ctx, tree, self.key);
    }

    fn unmount<'a>(&'a self, ctx: BuildContext<'a, Self>, tree: &mut NodeArena) {
        take_callback_key(ctx, tree);
    }
}

impl InheritedWidget for Detector {
    fn key() -> TypeTag {
        TypeTag(21)
    }

    fn unique_type_id() -> TypeTag {
        TypeTag(21)
    }
}

impl StructuralEq for Detector {
    fn type_tag() -> TypeTag {
        TypeTag(20)
    }

    fn eq_spec(&self, other: &Self) -> bool {
        self == other
    }

    fn type_id() -> TypeTag {
        TypeTag(20)
    }

    fn eq(&self, other: &Self) -> bool {
        self.key == other.key
    }
}

/// A widget that tells on unmount which key it had kept.
struct Recorder {
    key: u64,
    seen: std::rc::Rc<std::cell::Cell<Option<u64>>>,
}

impl Stateful for Recorder {
    type State = Option<u64>;
}

impl WidgetState for Recorder {
    fn initial_state(&self) -> Self::State {
        WidgetState::create_state(self)
    }

    fn mount_spec(&self, _: usize, _: TreeModel, _: TreeModel) -> bool {
        true
    }

    fn unmount_spec(&self, _: usize, _: TreeModel, _: TreeModel) -> bool {
        true
    }

    fn create_state(&self) -> Option<u64> {
        None
    }

    fn mount<'a>(&'a self, ctx: BuildContext<'a, Self>, tree: &mut NodeArena) {
        keep_callback_key(ctx, tree, self.key);
    }

    fn unmount<'a>(&'a self, ctx: BuildContext<'a, Self>, tree: &mut NodeArena) {
        self.seen.set(take_callback_key(ctx, tree));
    }
}

impl StructuralEq for Recorder {
    fn type_tag() -> TypeTag {
        TypeTag(22)
    }

    fn eq_spec(&self, other: &Self) -> bool {
        self.key == other.key
    }

    fn type_id() -> TypeTag {
        TypeTag(22)
    }

    fn eq(&self, other: &Self) -> bool {
        self.key == other.key
    }
}

fn handle(tree: &WidgetTree<Detector>, id: usize) -> Option<u64> {
    *tree.arena().state_ref::<Option<u64>>(id)
}

#[test]
fn new_tree_has_no_nodes() {
    let tree = WidgetTree::<Detector>::new();
    assert_eq!(tree.arena().len(), 0);
    assert!(!tree.arena().is_suppressed());
}

#[test]
fn mount_creates_the_state_and_runs_the_hook_unnoticed() {
    let mut tree = WidgetTree::new();
    let root = tree.mount(None, Detector { key: 5 }, Some(Detector::unique_type_id())).unwrap();
    assert_eq!(root, 0);
    assert_eq!(tree.arena().len(), 1);
    assert_eq!(tree.arena().state_type_id(root), StateTypeId::Handle);
    assert_eq!(handle(&tree, root), Some(5));
    assert!(!tree.arena().is_dirty(root));
    assert!(!tree.arena().is_suppressed());
    assert_eq!(tree.arena().borrow_flag(root), BorrowFlag::Unused);
    assert!(tree.arena().provides(root, TypeTag(21)));
    assert_eq!(tree.configuration(root), Some(&Detector { key: 5 }));
}

#[test]
fn mount_under_unknown_parent_does_nothing() {
    let mut tree = WidgetTree::new();
    assert_eq!(tree.mount(Some(0), Detector { key: 5 }, None), None);
    assert_eq!(tree.arena().len(), 0);
}

#[test]
fn mount_inside_a_suppressed_region_leaves_it_suppressed() {
    let mut tree = WidgetTree::new();
    let scope = tree.arena_mut().suppress();
    let root = tree.mount(None, Detector { key: 5 }, None).unwrap();
    assert!(tree.arena().is_suppressed());
    tree.invoke_unmount(root);
    assert!(tree.arena().is_suppressed());
    tree.invoke_mount(root);
    assert!(tree.arena().is_suppressed());
    tree.arena_mut().restore(scope);
    assert!(!tree.arena().is_suppressed());
    assert!(!tree.arena().is_dirty(root));
}

#[test]
fn hooks_leave_dirty_marks_as_they_were() {
    let mut tree = WidgetTree::new();
    let root = tree.mount(None, Detector { key: 5 }, None).unwrap();
    let child = tree.mount(Some(root), Detector { key: 6 }, None).unwrap();
    tree.arena_mut().mark_dirty(root);
    tree.invoke_unmount(child);
    tree.invoke_mount(child);
    tree.invoke_unmount(root);
    tree.invoke_mount(root);
    assert!(tree.arena().is_dirty(root));
    assert!(!tree.arena().is_dirty(child));
    assert!(!tree.arena().is_suppressed());
}

#[test]
fn unmount_runs_the_hook_and_ends_the_registrations() {
    let mut tree = WidgetTree::new();
    let root = tree.mount(None, Detector { key: 5 }, Some(Detector::unique_type_id())).unwrap();
    let child = tree.mount(Some(root), Detector { key: 6 }, None).unwrap();
    let other = tree.mount(Some(root), Detector { key: 7 }, None).unwrap();
    let ctx = _BuildContext::<Detector>::new(&Context::new(child));
    ctx.depend_on_inherited_widget::<Detector>(tree.arena_mut()).unwrap();
    let ctx = _BuildContext::<Detector>::new(&Context::new(other));
    let mut inherited = ctx.depend_on_inherited_widget::<Detector>(tree.arena_mut()).unwrap();
    assert_eq!(tree.arena().dependent_count(root), 2);

    assert_eq!(tree.unmount(child), Detector { key: 6 });
    assert!(!tree.arena().contains(child));
    assert_eq!(tree.configuration(child), None);
    assert!(!tree.arena().is_dependent(root, child));
    assert!(tree.arena().is_dependent(root, other));
    assert_eq!(tree.arena().dependent_count(root), 1);
    assert!(!tree.arena().is_suppressed());
    assert_eq!(tree.arena().len(), 3);

    let guard = inherited.as_mut(tree.arena_mut());
    guard.release(tree.arena_mut());
    assert!(tree.arena().is_dirty(root));
    assert!(tree.arena().is_dirty(other));
}

#[test]
fn unmount_hook_runs_before_the_state_is_destroyed() {
    let seen = std::rc::Rc::new(std::cell::Cell::new(None));
    let mut tree = WidgetTree::new();
    let root = tree.mount(None, Recorder { key: 8, seen: seen.clone() }, None).unwrap();
    assert_eq!(seen.get(), None);
    tree.unmount(root);
    assert_eq!(seen.get(), Some(8));
    assert!(!tree.arena().contains(root));
}

#[test]
fn a_widget_mounted_after_an_unmount_gets_a_node_of_its_own() {
    let mut tree = WidgetTree::new();
    let root = tree.mount(None, Detector { key: 5 }, None).unwrap();
    let first = tree.mount(Some(root), Detector { key: 6 }, None).unwrap();
    let serial = tree.arena().state_id(first);
    let widget = tree.unmount(first);
    let second = tree.mount(Some(root), widget, None).unwrap();
    assert_ne!(second, first);
    assert_ne!(tree.arena().state_id(second), serial);
    assert_eq!(handle(&tree, second), Some(6));
    assert_eq!(tree.mount(Some(first), Detector { key: 7 }, None), None);
}

#[test]
fn update_with_an_equal_configuration_keeps_the_old_one() {
    let mut tree = WidgetTree::new();
    let root = tree.mount(None, Detector { key: 5 }, None).unwrap();
    let serial = tree.arena().state_id(root);
    match tree.update(root, Detector { key: 5 }) {
        Reconciliation::Kept => {},
        _ => panic!("an equal configuration is kept"),
    }
    assert_eq!(tree.configuration(root), Some(&Detector { key: 5 }));
    assert_eq!(handle(&tree, root), Some(5));
    assert_eq!(tree.arena().state_id(root), serial);
    assert!(!tree.arena().is_dirty(root));
}

#[test]
fn update_with_a_different_configuration_keeps_the_state() {
    let mut tree = WidgetTree::new();
    let root = tree.mount(None, Detector { key: 5 }, None).unwrap();
    let child = tree.mount(Some(root), Detector { key: 6 }, None).unwrap();
    let serial = tree.arena().state_id(child);
    for key in 7..12 {
        match tree.update(child, Detector { key }) {
            Reconciliation::Replaced => {},
            _ => panic!("a configuration of the same type takes the place"),
        }
        assert_eq!(tree.configuration(child), Some(&Detector { key }));
        assert_eq!(handle(&tree, child), Some(key));
        assert_eq!(tree.arena().state_id(child), serial);
        assert_eq!(tree.arena().state_type_id(child), StateTypeId::Handle);
    }
    assert_eq!(tree.arena().len(), 2);
    assert_eq!(tree.arena().parent(child), Some(root));
    assert!(!tree.arena().is_dirty(child));
    assert!(!tree.arena().is_suppressed());
    assert_eq!(handle(&tree, root), Some(5));
}

#[derive(Debug, PartialEq)]
struct Spacer {
    width: u32,
}

impl StructuralEq for Spacer {
    fn type_tag() -> TypeTag {
        TypeTag(30)
    }

    fn eq_spec(&self, other: &Self) -> bool {
        self == other
    }

    fn type_id() -> TypeTag {
        TypeTag(30)
    }

    fn eq(&self, other: &Self) -> bool {
        self.width == other.width
    }
}

type AnyWidget = Either<Detector, Stateless<Spacer>>;

fn spacer(width: u32) -> AnyWidget {
    Either::Right(Stateless(Spacer { width }))
}

fn detector(key: u64) -> AnyWidget {
    Either::Left(Detector { key })
}

#[test]
fn stateless_widget_gets_the_no_state_value() {
    let widget = Stateless(Spacer { width: 3 });
    assert_eq!(widget.state_type_id(), StateTypeId::NoState);
    assert_eq!(WidgetStateOS::create_state(&widget), ErasedState::NoState(NoState));
    let mut tree = WidgetTree::new();
    let root = tree.mount(None, widget, None).unwrap();
    assert_eq!(tree.arena().state_type_id(root), StateTypeId::NoState);
    assert!(!tree.arena().is_dirty(root));
    assert_eq!(tree.unmount(root), Stateless(Spacer { width: 3 }));
    assert!(!tree.arena().contains(root));
    assert!(!tree.arena().is_suppressed());
}

#[test]
fn erased_widgets_of_differing_types_are_not_equal() {
    assert!(!StructuralEqOS::eq(&detector(3), &spacer(3)));
    assert!(!StructuralEqOS::eq(&spacer(3), &detector(3)));
    assert_eq!(detector(3).compare(&spacer(3)), EqVerdict::TypeMismatch);
    assert_eq!(spacer(3).compare(&detector(3)), EqVerdict::TypeMismatch);
    assert_eq!(detector(3).widget_type_id(), TypeTag(20));
    assert_eq!(spacer(3).widget_type_id(), TypeTag(30));
}

#[test]
fn erased_widgets_of_one_type_are_compared_by_their_fields() {
    assert!(StructuralEqOS::eq(&spacer(3), &spacer(3)));
    assert!(!StructuralEqOS::eq(&spacer(3), &spacer(4)));
    assert_eq!(spacer(3).compare(&spacer(4)), EqVerdict::Different);
    assert!(StructuralEqOS::eq(&detector(3), &detector(3)));
    assert_eq!(detector(3).compare(&detector(4)), EqVerdict::Different);
}

#[test]
fn one_tree_holds_widgets_of_several_types() {
    let mut tree: WidgetTree<AnyWidget> = WidgetTree::new();
    let root = tree.mount(None, detector(1), None).unwrap();
    let child = tree.mount(Some(root), spacer(2), None).unwrap();
    assert_eq!(tree.arena().state_type_id(root), StateTypeId::Handle);
    assert_eq!(tree.arena().state_type_id(child), StateTypeId::NoState);
    assert_eq!(handle_of(&tree, root), Some(1));
}

fn handle_of(tree: &WidgetTree<AnyWidget>, id: usize) -> Option<u64> {
    *tree.arena().state_ref::<Option<u64>>(id)
}

#[test]
fn update_with_another_type_hands_the_configuration_back() {
    let mut tree: WidgetTree<AnyWidget> = WidgetTree::new();
    let root = tree.mount(None, detector(1), None).unwrap();
    let serial = tree.arena().state_id(root);
    match tree.update(root, spacer(9)) {
        Reconciliation::TypeMismatch(widget) => assert_eq!(widget, spacer(9)),
        _ => panic!("a configuration of another type is handed back"),
    }
    assert_eq!(tree.configuration(root), Some(&detector(1)));
    assert_eq!(handle_of(&tree, root), Some(1));
    assert_eq!(tree.arena().state_id(root), serial);
    assert_eq!(tree.arena().state_type_id(root), StateTypeId::Handle);
    assert!(!tree.arena().is_dirty(root));
}

#[test]
fn facade_mount_runs_the_hook_of_the_widget_for_the_same_node() {
    let mut arena = NodeArena::new();
    let state = WidgetStateOS::create_state(&Detector { key: 1 });
    let first = arena.insert(None, state, None).unwrap();
    let second = arena.insert(Some(first), ErasedState::Handle(None), None).unwrap();
    let scope = arena.suppress();
    WidgetStateOS::mount(&Detector { key: 31 }, &Context::new(second), &mut arena);
    arena.restore(scope);
    assert_eq!(*arena.state_ref::<Option<u64>>(second), Some(31));
    assert_eq!(*arena.state_ref::<Option<u64>>(first), None);
    assert!(!arena.is_dirty(second));
    assert_eq!(arena.borrow_flag(second), BorrowFlag::Unused);
}

#[test]
fn facade_unmount_runs_the_hook_of_the_widget_for_the_same_node() {
    let seen = std::rc::Rc::new(std::cell::Cell::new(None));
    let widget = Recorder { key: 0, seen: seen.clone() };
    let mut arena = NodeArena::new();
    let first = arena.insert(None, ErasedState::Handle(Some(4)), None).unwrap();
    let second = arena.insert(Some(first), ErasedState::Handle(Some(9)), None).unwrap();
    let scope = arena.suppress();
    WidgetStateOS::unmount(&widget, &Context::new(second), &mut arena);
    arena.restore(scope);
    assert_eq!(seen.get(), Some(9));
    assert_eq!(*arena.state_ref::<Option<u64>>(second), None);
    assert_eq!(*arena.state_ref::<Option<u64>>(first), Some(4));
    assert!(!arena.is_dirty(second));
}

#[test]
fn invocations_leave_what_the_hooks_wrote() {
    let mut tree = WidgetTree::new();
    let root = tree.mount(None, Detector { key: 5 }, None).unwrap();
    let serial = tree.arena().state_id(root);
    assert_eq!(handle(&tree, root), Some(5));
    tree.invoke_unmount(root);
    assert_eq!(handle(&tree, root), None);
    tree.invoke_mount(root);
    assert_eq!(handle(&tree, root), Some(5));
    tree.invoke_mount(root);
    assert_eq!(handle(&tree, root), Some(5));
    assert_eq!(tree.arena().state_id(root), serial);
    assert!(!tree.arena().is_dirty(root));
    assert!(!tree.arena().is_suppressed());
}

#[test]
fn facade_creates_what_the_widget_creates() {
    assert_eq!(WidgetStateOS::create_state(&Detector { key: 5 }), ErasedState::Handle(None));
    assert_eq!(
        WidgetStateOS::create_state(&Detector { key: 5 }),
        WidgetState::create_state(&Detector { key: 5 }).erase()
    );
}

#[test]
fn tree_stays_well_formed_through_its_operations() {
    let mut tree: WidgetTree<AnyWidget> = WidgetTree::new();
    assert!(tree.is_wf());
    let root = tree.mount(None, detector(1), Some(TypeTag(21))).unwrap();
    let child = tree.mount(Some(root), spacer(2), None).unwrap();
    assert!(tree.is_wf());
    let ctx = _BuildContext::<Detector>::new(&Context::new(child));
    ctx.depend_on_inherited_widget::<Detector>(tree.arena_mut()).unwrap();
    tree.update(root, detector(2));
    tree.update(root, spacer(9));
    assert!(tree.is_wf());
    tree.unmount(child);
    assert!(tree.is_wf());
    tree.unmount(root);
    assert!(tree.is_wf());
}

#[test]
fn a_node_made_behind_the_trees_back_is_found_out() {
    let mut tree: WidgetTree<AnyWidget> = WidgetTree::new();
    let root = tree.mount(None, detector(1), None).unwrap();
    tree.arena_mut().insert(Some(root), ErasedState::Handle(None), None);
    assert!(tree.arena().is_wf());
    assert!(!tree.is_wf());
}

#[test]
fn a_node_taken_out_behind_the_trees_back_is_found_out() {
    let mut tree: WidgetTree<AnyWidget> = WidgetTree::new();
    let root = tree.mount(None, detector(1), None).unwrap();
    tree.arena_mut().vacate(root);
    assert!(tree.arena().is_wf());
    assert!(!tree.is_wf());
}

#[test]
fn the_empty_widget_can_be_mounted_and_compared() {
    let mut tree: WidgetTree<()> = WidgetTree::new();
    let root = tree.mount(None, (), None).unwrap();
    assert_eq!(tree.arena().state_type_id(root), StateTypeId::NoState);
    assert!(StructuralEqOS::eq(&(), &()));
    match tree.update(root, ()) {
        Reconciliation::Kept => {}
        _ => panic!("the empty widget equals itself"),
    }
    tree.unmount(root);
    assert!(tree.is_wf());
}
