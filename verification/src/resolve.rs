//! The defaulting resolver.
//!
//! Each variant's parsed annotation settings are merged with the
//! type-level defaults by override precedence: the variant's own value
//! wins, else the type-level default, else the fixed generic-failure
//! exit status (for the exit code) or nothing (for the message).

use vstd::prelude::*;

use crate::model::opt_view;
use crate::parse::Defaults;
use crate::parse::MessageAttribute;
use crate::parse::ParsedAttribute;
use crate::parse::SpecDefaults;
use crate::parse::SpecMessageAttribute;
use crate::parse::SpecParsedAttribute;

verus! {

/// The process exit status standing for generic failure, used when
/// neither the variant nor the type sets an exit code.
pub const GENERIC_FAILURE: u8 = 1;

/// Mathematical view of [`ResolvedAttribute`].
#[verifier::ext_equal]
pub struct SpecResolvedAttribute {
    pub exit_code: u8,
    pub message: Option<SpecMessageAttribute>,
}

/// The settings actually used to generate one variant's arms, after
/// merging with the type-level defaults.
#[derive(Debug)]
pub struct ResolvedAttribute {
    pub exit_code: u8,
    pub message: Option<MessageAttribute>,
}

impl View for ResolvedAttribute {
    type V = SpecResolvedAttribute;

    open spec fn view(&self) -> SpecResolvedAttribute {
        SpecResolvedAttribute { exit_code: self.exit_code, message: opt_view(self.message) }
    }
}

/// The exit code resolution gives a variant: its own setting wins, else
/// the type-level default, else the generic-failure status.
pub open spec fn spec_resolved_exit(p: SpecParsedAttribute, d: SpecDefaults) -> u8 {
    if p.exit_code is Some {
        p.exit_code->0.exit_code
    } else if d.exit_code is Some {
        d.exit_code->0.exit_code
    } else {
        GENERIC_FAILURE
    }
}

/// The message resolution gives a variant: its own setting wins, else
/// the type-level default, else none.
pub open spec fn spec_resolved_message(p: SpecParsedAttribute, d: SpecDefaults) -> Option<
    SpecMessageAttribute,
> {
    if p.message is Some {
        p.message
    } else {
        d.message
    }
}

/// Merges the type-level defaults into one variant's parsed settings.
pub fn resolve(defaults: &Defaults, attribute: &ParsedAttribute) -> (r: ResolvedAttribute)
    ensures
        r@.exit_code == spec_resolved_exit(attribute@, defaults@),
        r@.message == spec_resolved_message(attribute@, defaults@),
{
    let exit_code = match &attribute.exit_code {
        Some(e) => e.exit_code,
        None => match &defaults.exit_code {
            Some(e) => e.exit_code,
            None => GENERIC_FAILURE,
        },
    };
    let message = match &attribute.message {
        Some(m) => Some(m.clone()),
        None => match &defaults.message {
            Some(m) => Some(m.clone()),
            None => None,
        },
    };
    ResolvedAttribute { exit_code, message }
}

} // verus!
