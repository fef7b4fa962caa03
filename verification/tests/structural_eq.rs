use frui_core::structural_eq::{EqVerdict, StructuralEq, StructuralEqOS};
use frui_core::type_id::TypeTag;

#[derive(Debug, Clone, PartialEq)]
enum Config {
    Label(u32),
    Button(u32, bool),
}

impl StructuralEqOS for Config {
    fn widget_type(&self) -> TypeTag {
        self.widget_type_id()
    }

    fn same_fields(&self, other: &Self) -> bool {
        self == other
    }

    fn widget_type_id(&self) -> TypeTag {
        match self {
            Config::Label(_) => TypeTag(1),
            Config::Button(_, _) => TypeTag(2),
        }
    }

    fn eq_same_type(&self, other: &Self) -> bool {
        self == other
    }
}

#[derive(Debug, Clone, PartialEq)]
struct Padding(u32);

impl StructuralEq for Padding {
    fn type_tag() -> TypeTag {
        TypeTag(3)
    }

    fn eq_spec(&self, other: &Self) -> bool {
        self == other
    }

    fn type_id() -> TypeTag {
        TypeTag(3)
    }

    fn eq(&self, other: &Self) -> bool {
        self.0 == other.0
    }
}

#[test]
fn differing_types_are_not_equal() {
    let a = Config::Label(7);
    let b = Config::Button(7, true);
    assert!(!StructuralEqOS::eq(&a, &b));
    assert!(!StructuralEqOS::eq(&b, &a));
    assert_eq!(a.compare(&b), EqVerdict::TypeMismatch);
    assert_eq!(b.compare(&a), EqVerdict::TypeMismatch);
}

#[test]
fn same_type_same_fields_are_equal() {
    let a = Config::Button(7, true);
    let b = Config::Button(7, true);
    assert!(StructuralEqOS::eq(&a, &b));
    assert_eq!(a.compare(&b), EqVerdict::Equal);
}

#[test]
fn same_type_other_fields_are_different() {
    let a = Config::Button(7, true);
    let b = Config::Button(7, false);
    assert!(!StructuralEqOS::eq(&a, &b));
    assert_eq!(a.compare(&b), EqVerdict::Different);
}

#[test]
fn verdict_tells_equal_and_defect_apart() {
    assert!(EqVerdict::Equal.is_equal());
    assert!(!EqVerdict::Different.is_equal());
    assert!(!EqVerdict::TypeMismatch.is_equal());
    assert!(EqVerdict::TypeMismatch.is_defect());
    assert!(!EqVerdict::Different.is_defect());
    assert!(!EqVerdict::Equal.is_defect());
}

#[test]
fn a_concrete_widget_type_is_compared_by_its_own_comparison() {
    assert_eq!(Padding(4).widget_type_id(), TypeTag(3));
    assert!(StructuralEqOS::eq(&Padding(4), &Padding(4)));
    assert!(!StructuralEqOS::eq(&Padding(4), &Padding(5)));
    assert_eq!(Padding(4).compare(&Padding(5)), EqVerdict::Different);
    assert_eq!(Padding(4).compare(&Padding(4)), EqVerdict::Equal);
}
