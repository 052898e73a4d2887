//! The self-contained mode: it derives the structured formatter, the
//! human-readable formatter, the process-exit reporter, the
//! error-capability marker, and one conversion constructor per declared
//! conversion. Every variant must resolve to a message.

use vstd::prelude::*;

use crate::code_generation::GeneratedCode;
use crate::generate::generate;
use crate::generate::spec_bundle_matches;
use crate::generate::spec_generate_error;
use crate::generate::spec_termination_full_config;
use crate::generate::termination_full_config;
use crate::model::DeriveError;
use crate::model::DeriveInput;

verus! {

/// Derives the full interface set for a tagged union: both formatters,
/// the exit reporter, the error marker and the conversion constructors.
pub fn derive_termination_full(input: &DeriveInput) -> (r: Result<GeneratedCode, DeriveError>)
    ensures
        r is Err <==> spec_generate_error(input@, spec_termination_full_config()) is Some,
        r is Err ==> Some(r->Err_0) == spec_generate_error(input@, spec_termination_full_config()),
        r is Ok ==> spec_bundle_matches(r->Ok_0@, input@, spec_termination_full_config()),
{
    let config = termination_full_config();
    generate(input, &config)
}

} // verus!
