//! Derives standard process-termination interfaces for error enums.
//!
//! The crate's core is a small compiler pass over a closed, tagged-union
//! type description: per-type and per-variant annotation blocks are parsed
//! into attribute values, merged by override precedence, validated, and
//! lowered into one arm per variant for each generated interface (a
//! structured formatter, a human-readable formatter, a process-exit
//! reporter, an error marker and conversion constructors).
//!
//! The surrounding host-language front end (lexing raw attributes into the
//! generic attribute tree consumed here, and rendering the generated arms
//! back into surface syntax) is kept outside the core.

use vstd::prelude::*;

mod code_generation;
mod generate;
mod model;
mod parse;
mod resolve;
mod rewrite;
mod termination;
mod termination_full;
mod termination_no_debug;

pub use code_generation::ErrorImpl;
pub use code_generation::ExitArm;
pub use code_generation::FromImpl;
pub use code_generation::FromImpls;
pub use code_generation::GeneratedCode;
pub use code_generation::MessageArm;
pub use code_generation::MessageBody;
pub use code_generation::MessageImpl;
pub use code_generation::TerminationImpl;
pub use code_generation::generate_debug_trait;
pub use code_generation::generate_display_trait;
pub use code_generation::generate_error_trait;
pub use code_generation::generate_from_traits;
pub use code_generation::generate_termination_trait;
pub use generate::generate;
pub use model::AttrBlock;
pub use model::AttrEntry;
pub use model::AttrToken;
pub use model::AttrValue;
pub use model::DeriveData;
pub use model::DeriveError;
pub use model::DeriveInput;
pub use model::Mode;
pub use model::ModeConfig;
pub use model::NamedField;
pub use model::UnnamedField;
pub use model::Variant;
pub use model::VariantFields;
pub use generate::termination_config;
pub use generate::termination_full_config;
pub use generate::termination_no_debug_config;
pub use parse::Defaults;
pub use parse::ExitCodeAttribute;
pub use parse::FromAttribute;
pub use parse::MessageAttribute;
pub use parse::ParsedAttribute;
pub use parse::check_for_unique_types;
pub use parse::parse_attributes;
pub use parse::parse_from_attribute;
pub use parse::parse_helper_attributes;
pub use resolve::GENERIC_FAILURE;
pub use resolve::ResolvedAttribute;
pub use resolve::resolve;
pub use rewrite::get_formatted_string_with_fields;
pub use termination::derive_termination;
pub use termination_full::derive_termination_full;
pub use termination_no_debug::derive_termination_no_debug;

verus! {

/// Turns a list of individual results into one result: the values in
/// order if every entry succeeded, else the first error.
#[verifier::loop_isolation(false)]
pub fn pull_up_results<T, E>(results: Vec<Result<T, E>>) -> (r: Result<Vec<T>, E>)
    ensures
        r is Ok <==> (forall|i: int| 0 <= i < results@.len() ==> results@[i] is Ok),
        r is Ok ==> (r->Ok_0@.len() == results@.len() && forall|i: int|
            0 <= i < results@.len() ==> r->Ok_0@[i] == results@[i]->Ok_0),
        r is Err ==> exists|i: int|
            0 <= i < results@.len() && results@[i] == Result::<T, E>::Err(r->Err_0)
                && (forall|j: int| 0 <= j < i ==> (#[trigger] results@[j]) is Ok),
{
    let ghost all: Seq<Result<T, E>> = results@;
    let mut remaining = results;
    let mut items: Vec<T> = Vec::new();
    while remaining.len() > 0
        invariant
            items@.len() + remaining@.len() == all.len(),
            forall|i: int| 0 <= i < items@.len() ==> (#[trigger] all[i]) is Ok,
            forall|i: int| 0 <= i < items@.len() ==> (#[trigger] items@[i]) == all[i]->Ok_0,
            forall|i: int|
                0 <= i < remaining@.len() ==> (#[trigger] remaining@[i]) == all[items@.len() + i],
        decreases remaining@.len(),
    {
        let result = remaining.remove(0);
        match result {
            Ok(item) => items.push(item),
            Err(error) => {
                proof {
                    let k = items@.len() as int;
                    assert(all[k] == Result::<T, E>::Err(error));
                    assert(!(all[k] is Ok));
                    assert(forall|j: int| 0 <= j < k ==> (#[trigger] all[j]) is Ok);
                    assert(exists|i: int|
                        0 <= i < all.len() && #[trigger] all[i] == Result::<T, E>::Err(error) && (
                        forall|j: int| 0 <= j < i ==> (#[trigger] all[j]) is Ok));
                }
                return Err(error);
            },
        }
    }
    Ok(items)
}

} // verus!
