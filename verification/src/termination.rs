//! The mode intended to run beside an existing human-readable formatter:
//! it derives the structured-diagnostic formatter and the process-exit
//! reporter. A variant without a resolved message delegates its
//! structured output to the human-readable formatter.

use vstd::prelude::*;

use crate::code_generation::GeneratedCode;
use crate::generate::generate;
use crate::generate::spec_bundle_matches;
use crate::generate::spec_generate_error;
use crate::generate::spec_termination_config;
use crate::generate::termination_config;
use crate::model::DeriveError;
use crate::model::DeriveInput;
use crate::model::SpecDeriveData;

verus! {

/// Derives the structured-diagnostic formatter and the process-exit
/// reporter for a tagged union. A type with no variants is emitted
/// as-is, with zero arms, before any annotation is read.
pub fn derive_termination(input: &DeriveInput) -> (r: Result<GeneratedCode, DeriveError>)
    ensures
        r is Err <==> spec_generate_error(input@, spec_termination_config()) is Some,
        r is Err ==> Some(r->Err_0) == spec_generate_error(input@, spec_termination_config()),
        r is Ok ==> spec_bundle_matches(r->Ok_0@, input@, spec_termination_config()),
        (input@.data matches SpecDeriveData::Enum(vs) && vs.len() == 0) ==> r is Ok,
{
    let config = termination_config();
    generate(input, &config)
}

} // verus!
