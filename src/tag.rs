use vstd::prelude::*;

verus! {

/// The name of one noise source in a generator dictionary.
#[derive(Clone, Debug, PartialEq, Eq, Hash)]
pub struct NoiseTag(pub String);

impl NoiseTag {
    pub open spec fn view(&self) -> Seq<char> {
        self.0@
    }

    /// Whether two tags name the same source.
    pub fn same_as(&self, other: &NoiseTag) -> (r: bool)
        ensures
            r == (self@ == other@),
    {
        self.0 == other.0
    }
}

} // verus!
