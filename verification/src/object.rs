//! References to namespaced objects.
use vstd::prelude::*;

verus! {

/// Two string slices are equal exactly when they hold the same characters.
pub assume_specification[ <str as PartialEq>::eq ](a: &str, b: &str) -> (same: bool)
    ensures
        same == (a@ == b@),
;

/// Identifies an object of a known kind by its name and, for namespaced
/// kinds, its namespace.
#[derive(Clone, Debug, PartialEq, Eq)]
pub struct ObjectRef {
    pub name: String,
    pub namespace: Option<String>,
}

/// The mathematical value of an [`ObjectRef`].
pub ghost struct ObjectRefView {
    pub name: Seq<char>,
    pub namespace: Option<Seq<char>>,
}

impl DeepView for ObjectRef {
    type V = ObjectRefView;

    open spec fn deep_view(&self) -> ObjectRefView {
        ObjectRefView { name: self.name@, namespace: self.namespace.deep_view() }
    }
}

impl View for ObjectRef {
    type V = ObjectRefView;

    open spec fn view(&self) -> ObjectRefView {
        self.deep_view()
    }
}

impl ObjectRef {
    /// A reference to the object called `name`, not yet placed in a namespace.
    pub fn new(name: &str) -> (r: ObjectRef)
        ensures
            r@ == (ObjectRefView { name: name@, namespace: None }),
    {
        ObjectRef { name: name.to_owned(), namespace: None }
    }

    /// The same reference, placed in `namespace`.
    pub fn within(self, namespace: &str) -> (r: ObjectRef)
        ensures
            r@ == (ObjectRefView { name: self@.name, namespace: Some(namespace@) }),
    {
        ObjectRef { name: self.name, namespace: Some(namespace.to_owned()) }
    }

    /// Whether `self` and `other` name the same object.
    pub fn same(&self, other: &ObjectRef) -> (b: bool)
        ensures
            b == (self@ == other@),
    {
        let names: bool = self.name == other.name;
        let spaces: bool = match (&self.namespace, &other.namespace) {
            (Some(a), Some(b)) => *a.as_str() == *b.as_str(),
            (None, None) => true,
            _ => false,
        };
        names && spaces
    }
}

} // verus!
