use vstd::prelude::*;

verus! {

/// Failure kinds of the generation pipeline. A failure is always local to one
/// artifact (or, for `AggregationError`, to one package).
#[derive(Clone, Copy, Debug, PartialEq, Eq, Structural)]
pub enum GenError {
    /// The artifact bytes could not be opened as a valid object.
    OpenError,
    /// A map or program has no retrievable, valid-text name.
    NameError,
    /// Embedded type metadata is present but malformed.
    TypeResolutionError,
    /// Generated text could not be formatted or written out.
    EmissionError,
    /// The per-package index module could not be written.
    AggregationError,
}

impl GenError {
    /// A short human-readable description of the failure kind.
    pub fn message(&self) -> (r: &'static str)
        ensures
            r@ == spec_message(*self),
    {
        match self {
            GenError::OpenError => "failed to open object artifact",
            GenError::NameError => "map or program name unknown",
            GenError::TypeResolutionError => "malformed type metadata",
            GenError::EmissionError => "failed to emit generated module",
            GenError::AggregationError => "failed to emit package index module",
        }
    }
}

/// The view of a text-or-failure result.
pub open spec fn res_str_view(r: Result<String, GenError>) -> Result<Seq<char>, GenError> {
    match r {
        Ok(s) => Ok(s@),
        Err(e) => Err(e),
    }
}

pub open spec fn spec_message(e: GenError) -> Seq<char> {
    match e {
        GenError::OpenError => "failed to open object artifact"@,
        GenError::NameError => "map or program name unknown"@,
        GenError::TypeResolutionError => "malformed type metadata"@,
        GenError::EmissionError => "failed to emit generated module"@,
        GenError::AggregationError => "failed to emit package index module"@,
    }
}

} // verus!
