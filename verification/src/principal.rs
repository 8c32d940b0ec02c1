use vstd::prelude::*;

verus! {

/// An identity that can hold badges or act on the registry, named by its
/// canonical text key.
#[derive(Clone, Debug, PartialEq, Eq)]
pub struct Principal {
    pub key: String,
}

impl View for Principal {
    type V = Seq<char>;

    open spec fn view(&self) -> Seq<char> {
        self.key@
    }
}

impl Principal {
    /// The principal named by `key`.
    pub fn new(key: String) -> (p: Principal)
        ensures
            p@ == key@,
    {
        Principal { key }
    }

    /// Whether two principals are the same identity.
    pub fn same_as(&self, other: &Principal) -> (same: bool)
        ensures
            same == (self@ == other@),
    {
        self.key == other.key
    }

    /// A copy of this principal.
    pub fn copy(&self) -> (p: Principal)
        ensures
            p == *self,
            p@ == self@,
    {
        Principal { key: self.key.clone() }
    }
}

} // verus!
