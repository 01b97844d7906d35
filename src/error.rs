use vstd::prelude::*;

verus! {

/// Why a generation call produced no field.
#[derive(Clone, Debug, PartialEq, Eq)]
pub enum GenerationError {
    /// Two entries of the generator dictionary carry the same tag.
    DuplicateTag { tag: String },
    /// A leaf of the expression names a tag that no generator produced.
    UnresolvedTag { tag: String },
    /// Two arrays that should have the same length do not.
    ShapeMismatch { expected: usize, found: usize },
}

impl GenerationError {
    /// A short human-readable description of the failure.
    pub fn message(&self) -> String {
        match self {
            GenerationError::DuplicateTag { .. } => String::from_str("duplicate tag in the generator dictionary"),
            GenerationError::UnresolvedTag { .. } => String::from_str("expression refers to an unknown tag"),
            GenerationError::ShapeMismatch { .. } => String::from_str("arrays of different lengths"),
        }
    }
}

} // verus!
