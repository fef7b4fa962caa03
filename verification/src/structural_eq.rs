use vstd::prelude::*;
use crate::type_id::TypeTag;

verus! {

/// What comparing two erased widget configurations found.
#[derive(Clone, Copy, PartialEq, Eq, Structural, Debug)]
pub enum EqVerdict {
    /// Same concrete type, and the type's own comparison found no difference.
    Equal,
    /// Same concrete type, but the type's own comparison found a difference.
    Different,
    /// The two configurations are of different concrete types. The tree only
    /// ever compares configurations that share a type slot, so this verdict
    /// points at a defect in the caller; it is still an ordinary value.
    TypeMismatch,
}

impl EqVerdict {
    /// Whether the old configuration may be kept in place of the new one.
    pub fn is_equal(&self) -> (r: bool)
        ensures
            r == (*self == EqVerdict::Equal),
    {
        match self {
            EqVerdict::Equal => true,
            _ => false,
        }
    }

    /// Whether the comparison itself was a defect of the caller.
    pub fn is_defect(&self) -> (r: bool)
        ensures
            r == (*self == EqVerdict::TypeMismatch),
    {
        match self {
            EqVerdict::TypeMismatch => true,
            _ => false,
        }
    }
}

/// The verdict for two configurations, given their type identities and what
/// the type's own comparison says of them.
pub open spec fn verdict_of(left: TypeTag, right: TypeTag, same_fields: bool) -> EqVerdict {
    if left != right {
        EqVerdict::TypeMismatch
    } else if same_fields {
        EqVerdict::Equal
    } else {
        EqVerdict::Different
    }
}

/// Field-by-field equality of two configurations of one widget type.
pub trait StructuralEq: Sized {
    /// The identity of this widget type.
    spec fn type_tag() -> TypeTag;

    /// Whether every field of `self` equals the same field of `other`.
    spec fn eq_spec(&self, other: &Self) -> bool;

    fn type_id() -> (tag: TypeTag)
        ensures
            tag == Self::type_tag(),
    ;

    fn eq(&self, other: &Self) -> (r: bool)
        ensures
            r == self.eq_spec(other),
    ;
}

/// Structural equality on erased configurations, where the two sides may
/// turn out to be of different concrete types.
///
/// An implementor supplies the type identity and the comparison for two
/// values of one type; `compare` and `eq` check the identities first.
pub trait StructuralEqOS {
    /// The identity of the concrete type behind `self`.
    spec fn widget_type(&self) -> TypeTag;

    /// Whether the two configurations, being of one concrete type, are equal
    /// field by field.
    spec fn same_fields(&self, other: &Self) -> bool;

    fn widget_type_id(&self) -> (tag: TypeTag)
        ensures
            tag == self.widget_type(),
    ;

    fn eq_same_type(&self, other: &Self) -> (r: bool)
        requires
            self.widget_type() == other.widget_type(),
        ensures
            r == self.same_fields(other),
    ;

    /// Compares two erased configurations. Differing concrete types give
    /// `TypeMismatch` without the type's own comparison being consulted.
    fn compare(&self, other: &Self) -> (verdict: EqVerdict)
        ensures
            verdict == verdict_of(
                self.widget_type(),
                other.widget_type(),
                self.same_fields(other),
            ),
    {
        let left = self.widget_type_id();
        let right = other.widget_type_id();
        if left != right {
            EqVerdict::TypeMismatch
        } else if self.eq_same_type(other) {
            EqVerdict::Equal
        } else {
            EqVerdict::Different
        }
    }

    /// Checks if two widget structural configurations are equal.
    ///
    /// Configurations of different concrete types are never equal: keeping
    /// a stale configuration costs more than one rebuild too many.
    fn eq(&self, other: &Self) -> (r: bool)
        ensures
            r == (self.widget_type() == other.widget_type() && self.same_fields(other)),
    {
        self.compare(other).is_equal()
    }
}

/// The empty widget: it has no field, so any two are equal.
impl StructuralEq for () {
    open spec fn type_tag() -> TypeTag {
        TypeTag(0)
    }

    open spec fn eq_spec(&self, other: &Self) -> bool {
        true
    }

    fn type_id() -> (tag: TypeTag) {
        TypeTag(0)
    }

    fn eq(&self, other: &Self) -> (r: bool) {
        true
    }
}

impl<T: StructuralEq> StructuralEqOS for T {
    open spec fn widget_type(&self) -> TypeTag {
        T::type_tag()
    }

    open spec fn same_fields(&self, other: &Self) -> bool {
        StructuralEq::eq_spec(self, other)
    }

    fn widget_type_id(&self) -> (tag: TypeTag) {
        T::type_id()
    }

    fn eq_same_type(&self, other: &Self) -> (r: bool) {
        StructuralEq::eq(self, other)
    }
}

} // verus!
