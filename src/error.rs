use vstd::prelude::*;

verus! {

/// Why a descriptor tree or a layout descriptor cannot be turned into
/// generated modules.
#[derive(Debug)]
pub enum AbiError {
    /// A path segment, file stem, type name or lifetime name that cannot
    /// stand as an identifier in generated code.
    InvalidIdentifier { name: String },
}

impl AbiError {
    /// The name that could not be used as an identifier.
    pub fn name(&self) -> (r: &str)
        ensures
            r@ == self->name@,
    {
        match self {
            AbiError::InvalidIdentifier { name } => name.as_str(),
        }
    }
}

} // verus!
