//! The shared generation engine.
//!
//! One entry point runs the whole pass for any mode: parse the
//! type-level annotation block, parse every variant's block, resolve
//! defaults, validate conversions where the mode emits them, and lower
//! everything into the generated-code bundle. A mode is a configuration
//! value: which keys it allows and which interfaces it emits.

use vstd::prelude::*;

use crate::code_generation::ErrorImpl;
use crate::code_generation::FromImpls;
use crate::code_generation::GeneratedCode;
use crate::code_generation::MessageImpl;
use crate::code_generation::SpecGeneratedCode;
use crate::code_generation::TerminationImpl;
use crate::code_generation::generate_debug_trait;
use crate::code_generation::generate_display_trait;
use crate::code_generation::generate_error_trait;
use crate::code_generation::generate_from_traits;
use crate::code_generation::generate_termination_trait;
use crate::code_generation::spec_exit_arm_ok;
use crate::code_generation::spec_from_entries;
use crate::code_generation::spec_from_impl_ok;
use crate::code_generation::spec_message_arm_ok;
use crate::code_generation::spec_missing_msg_error;
use crate::code_generation::views_of_parsed;
use crate::model::DeriveData;
use crate::model::DeriveError;
use crate::model::DeriveInput;
use crate::model::Mode;
use crate::model::ModeConfig;
use crate::model::SpecAttrBlock;
use crate::model::SpecDeriveData;
use crate::model::SpecDeriveInput;
use crate::model::SpecVariant;
use crate::model::SpecVariantFields;
use crate::model::Variant;
use crate::model::views_of_blocks;
use crate::model::views_of_variants;
use crate::parse::Defaults;
use crate::parse::SpecDefaults;
use crate::parse::SpecFromAttribute;
use crate::parse::SpecParsedAttribute;
use crate::parse::check_for_unique_types;
use crate::parse::parse_attributes;
use crate::parse::parse_from_attribute;
use crate::parse::parse_helper_attributes;
use crate::parse::spec_blocks_error;
use crate::parse::spec_blocks_exit;
use crate::parse::spec_blocks_msg;
use crate::parse::spec_conv_shape_error;
use crate::parse::spec_from_type_of;
use crate::parse::spec_marked_ty_named;
use crate::parse::spec_marked_ty_unnamed;
use crate::parse::spec_unique_error;
use crate::parse::spec_variants_error;
use crate::parse::views_of_from;
use crate::resolve::spec_resolved_exit;
use crate::resolve::spec_resolved_message;

verus! {

/// The configuration of the mode that derives the structured formatter
/// and the exit reporter beside an existing human-readable formatter.
pub open spec fn spec_termination_config() -> ModeConfig {
    ModeConfig {
        mode: Mode::Termination,
        allow_exit_code: true,
        allow_msg: true,
        emit_debug: true,
        emit_display: false,
        emit_error_marker: false,
        emit_conversions: false,
        skip_annotations_when_empty: true,
    }
}

/// The configuration of the mode that derives the exit reporter alone.
pub open spec fn spec_termination_no_debug_config() -> ModeConfig {
    ModeConfig {
        mode: Mode::TerminationNoDebug,
        allow_exit_code: true,
        allow_msg: false,
        emit_debug: false,
        emit_display: false,
        emit_error_marker: false,
        emit_conversions: false,
        skip_annotations_when_empty: true,
    }
}

/// The configuration of the mode that derives the full interface set.
pub open spec fn spec_termination_full_config() -> ModeConfig {
    ModeConfig {
        mode: Mode::TerminationFull,
        allow_exit_code: true,
        allow_msg: true,
        emit_debug: true,
        emit_display: true,
        emit_error_marker: true,
        emit_conversions: true,
        skip_annotations_when_empty: false,
    }
}

/// Builds the configuration of the structured-formatter mode.
pub fn termination_config() -> (c: ModeConfig)
    ensures
        c == spec_termination_config(),
{
    ModeConfig {
        mode: Mode::Termination,
        allow_exit_code: true,
        allow_msg: true,
        emit_debug: true,
        emit_display: false,
        emit_error_marker: false,
        emit_conversions: false,
        skip_annotations_when_empty: true,
    }
}

/// Builds the configuration of the exit-reporter-only mode.
pub fn termination_no_debug_config() -> (c: ModeConfig)
    ensures
        c == spec_termination_no_debug_config(),
{
    ModeConfig {
        mode: Mode::TerminationNoDebug,
        allow_exit_code: true,
        allow_msg: false,
        emit_debug: false,
        emit_display: false,
        emit_error_marker: false,
        emit_conversions: false,
        skip_annotations_when_empty: true,
    }
}

/// Builds the configuration of the full-interface mode.
pub fn termination_full_config() -> (c: ModeConfig)
    ensures
        c == spec_termination_full_config(),
{
    ModeConfig {
        mode: Mode::TerminationFull,
        allow_exit_code: true,
        allow_msg: true,
        emit_debug: true,
        emit_display: true,
        emit_error_marker: true,
        emit_conversions: true,
        skip_annotations_when_empty: false,
    }
}

/// The type-level defaults encoded by the type's annotation blocks.
pub open spec fn raw_defaults(tb: Seq<SpecAttrBlock>) -> SpecDefaults {
    SpecDefaults { exit_code: spec_blocks_exit(tb), message: spec_blocks_msg(tb) }
}

/// The parsed settings of one variant, straight from its blocks.
pub open spec fn raw_parsed(v: SpecVariant) -> SpecParsedAttribute {
    SpecParsedAttribute {
        variant: v,
        exit_code: spec_blocks_exit(v.blocks),
        message: spec_blocks_msg(v.blocks),
    }
}

/// The parsed settings of every variant, in declaration order.
pub open spec fn raw_parsed_list(vs: Seq<SpecVariant>) -> Seq<SpecParsedAttribute> {
    vs.map_values(|v: SpecVariant| raw_parsed(v))
}

/// The conversion entry of every variant, in declaration order.
pub open spec fn raw_from_list(vs: Seq<SpecVariant>) -> Seq<SpecFromAttribute> {
    vs.map_values(|v: SpecVariant| SpecFromAttribute { variant: v, from_type: spec_from_type_of(v) })
}

/// The first diagnostic of the whole pass, in the order the pass checks:
/// the input must be a tagged union; then (unless the mode emits an
/// empty variant set as-is) the type-level block, each variant's block
/// in order, the mandatory-message rule where the human-readable
/// formatter is emitted, and the conversion rules where conversions are
/// emitted.
pub open spec fn spec_generate_error(input: SpecDeriveInput, config: ModeConfig) -> Option<
    DeriveError,
> {
    match input.data {
        SpecDeriveData::Other => Some(DeriveError::NotAnEnum { span: input.span }),
        SpecDeriveData::Enum(vs) => {
            if vs.len() == 0 && config.skip_annotations_when_empty {
                None
            } else {
                match spec_blocks_error(input.blocks, config) {
                    Some(e) => Some(e),
                    None => {
                        match spec_variants_error(vs, config) {
                            Some(e) => Some(e),
                            None => {
                                let missing = if config.emit_display {
                                    spec_missing_msg_error(
                                        raw_parsed_list(vs),
                                        raw_defaults(input.blocks),
                                    )
                                } else {
                                    None
                                };
                                match missing {
                                    Some(e) => Some(e),
                                    None => {
                                        if config.emit_conversions {
                                            match spec_conv_shape_error(vs) {
                                                Some(e) => Some(e),
                                                None => spec_unique_error(raw_from_list(vs)),
                                            }
                                        } else {
                                            None
                                        }
                                    },
                                }
                            },
                        }
                    },
                }
            }
        },
    }
}

/// What a successfully generated bundle holds, interface by interface:
/// exactly the interfaces the mode emits, each with one arm per variant
/// in declaration order, every arm built from that variant's resolved
/// settings, and one conversion constructor per declared conversion.
pub open spec fn spec_bundle_matches(
    g: SpecGeneratedCode,
    input: SpecDeriveInput,
    config: ModeConfig,
) -> bool {
    &&& input.data matches SpecDeriveData::Enum(vs)
    &&& {
        let vs = input.data->Enum_0;
        let d = raw_defaults(input.blocks);
        &&& g.enum_ident == input.ident
        &&& g.termination_impl.enum_ident == input.ident
        &&& g.termination_impl.arms.len() == vs.len()
        &&& forall|i: int|
            0 <= i < vs.len() ==> spec_exit_arm_ok(
                #[trigger] g.termination_impl.arms[i],
                vs[i],
                spec_resolved_exit(raw_parsed(vs[i]), d),
            )
        &&& (g.debug_impl is Some <==> config.emit_debug)
        &&& (g.debug_impl is Some ==> g.debug_impl->0.enum_ident == input.ident
            && g.debug_impl->0.arms.len() == vs.len() && forall|i: int|
            0 <= i < vs.len() ==> spec_message_arm_ok(
                #[trigger] g.debug_impl->0.arms[i],
                vs[i],
                spec_resolved_message(raw_parsed(vs[i]), d),
            ))
        &&& (g.display_impl is Some <==> config.emit_display)
        &&& (g.display_impl is Some ==> g.display_impl->0.enum_ident == input.ident
            && g.display_impl->0.arms.len() == vs.len() && forall|i: int|
            0 <= i < vs.len() ==> spec_message_arm_ok(
                #[trigger] g.display_impl->0.arms[i],
                vs[i],
                spec_resolved_message(raw_parsed(vs[i]), d),
            ) && g.display_impl->0.arms[i].body is Template)
        &&& (g.error_impl is Some <==> config.emit_error_marker)
        &&& (g.error_impl is Some ==> g.error_impl->0.enum_ident == input.ident)
        &&& (g.from_impls is Some <==> config.emit_conversions)
        &&& (g.from_impls is Some ==> g.from_impls->0.enum_ident == input.ident
            && g.from_impls->0.impls.len() == spec_from_entries(raw_from_list(vs)).len()
            && forall|k: int|
            0 <= k < g.from_impls->0.impls.len() ==> spec_from_impl_ok(
                #[trigger] g.from_impls->0.impls[k],
                spec_from_entries(raw_from_list(vs))[k],
            ))
    }
}

/// Exhaustiveness of the generated dispatch: every emitted interface has
/// exactly one arm per variant, in the original declaration order.
pub proof fn lemma_generated_interfaces_exhaustive(
    g: SpecGeneratedCode,
    input: SpecDeriveInput,
    config: ModeConfig,
)
    requires
        spec_bundle_matches(g, input, config),
    ensures
        g.termination_impl.arms.len() == input.data->Enum_0.len(),
        forall|i: int|
            0 <= i < input.data->Enum_0.len() ==> (#[trigger] g.termination_impl.arms[i]).variant
                == input.data->Enum_0[i].ident,
        g.debug_impl is Some ==> g.debug_impl->0.arms.len() == input.data->Enum_0.len()
            && forall|i: int|
            0 <= i < input.data->Enum_0.len() ==> (#[trigger] g.debug_impl->0.arms[i]).variant
                == input.data->Enum_0[i].ident,
        g.display_impl is Some ==> g.display_impl->0.arms.len() == input.data->Enum_0.len()
            && forall|i: int|
            0 <= i < input.data->Enum_0.len() ==> (#[trigger] g.display_impl->0.arms[i]).variant
                == input.data->Enum_0[i].ident,
{
}

/// For the modes that emit a type with no variants without reading its
/// annotations, generation of the empty variant set always succeeds,
/// with zero arms in every emitted interface.
pub proof fn lemma_empty_variant_set_generates(input: SpecDeriveInput, config: ModeConfig)
    requires
        input.data matches SpecDeriveData::Enum(vs) && vs.len() == 0,
        config.skip_annotations_when_empty,
    ensures
        spec_generate_error(input, config) is None,
{
}

/// A variant that declares a conversion has at least one field.
proof fn lemma_from_type_needs_field(v: SpecVariant)
    requires
        spec_from_type_of(v) is Some,
    ensures
        crate::model::spec_fields_len(v.fields) >= 1,
{
    match v.fields {
        SpecVariantFields::Unit => {},
        SpecVariantFields::Unnamed(fs) => {
            if fs.len() == 0 {
                assert(spec_marked_ty_unnamed(fs) is None);
            }
        },
        SpecVariantFields::Named(fs) => {
            if fs.len() == 0 {
                assert(spec_marked_ty_named(fs) is None);
            }
        },
    }
}

/// Runs the whole pass for one mode: either the full requested interface
/// set is produced, or the first diagnostic is returned and nothing is
/// emitted.
pub fn generate(input: &DeriveInput, config: &ModeConfig) -> (r: Result<GeneratedCode, DeriveError>)
    ensures
        r is Err <==> spec_generate_error(input@, *config) is Some,
        r is Err ==> Some(r->Err_0) == spec_generate_error(input@, *config),
        r is Ok ==> spec_bundle_matches(r->Ok_0@, input@, *config),
{
    let variants: &Vec<Variant> = match &input.data {
        DeriveData::Enum(vs) => vs,
        DeriveData::Other => {
            return Err(DeriveError::NotAnEnum { span: input.span });
        },
    };
    let ghost vv = views_of_variants(variants@);
    proof {
        assert(input@.data == SpecDeriveData::Enum(vv));
    }
    if variants.len() == 0 && config.skip_annotations_when_empty {
        let g = GeneratedCode {
            enum_ident: input.ident.clone(),
            debug_impl: if config.emit_debug {
                Some(MessageImpl { enum_ident: input.ident.clone(), arms: Vec::new() })
            } else {
                None
            },
            termination_impl: TerminationImpl { enum_ident: input.ident.clone(), arms: Vec::new() },
            display_impl: if config.emit_display {
                Some(MessageImpl { enum_ident: input.ident.clone(), arms: Vec::new() })
            } else {
                None
            },
            error_impl: if config.emit_error_marker {
                Some(ErrorImpl { enum_ident: input.ident.clone() })
            } else {
                None
            },
            from_impls: if config.emit_conversions {
                Some(FromImpls { enum_ident: input.ident.clone(), impls: Vec::new() })
            } else {
                None
            },
        };
        proof {
            assert(spec_from_entries(raw_from_list(vv)) =~= Seq::<SpecFromAttribute>::empty());
            assert(raw_from_list(vv) =~= Seq::<SpecFromAttribute>::empty());
        }
        return Ok(g);
    }
    proof {
        assert(views_of_blocks(input.blocks@) == input@.blocks);
    }
    let (exit_d, msg_d) = match parse_attributes(&input.blocks, config) {
        Ok(p) => p,
        Err(e) => {
            return Err(e);
        },
    };
    let defaults = Defaults::from((exit_d, msg_d));
    proof {
        assert(defaults@ =~= raw_defaults(input@.blocks));
    }
    let parsed = match parse_helper_attributes(variants, config) {
        Ok(p) => p,
        Err(e) => {
            return Err(e);
        },
    };
    proof {
        assert forall|i: int| 0 <= i < parsed@.len() implies views_of_parsed(parsed@)[i]
            == raw_parsed_list(vv)[i] by {
            assert(crate::parse::spec_parsed_matches(parsed@[i]@, vv[i]));
            assert(parsed@[i]@ =~= raw_parsed(vv[i]));
        }
        assert(views_of_parsed(parsed@) =~= raw_parsed_list(vv));
    }
    let termination_impl = generate_termination_trait(input.ident.as_str(), &parsed, &defaults);
    let debug_impl = if config.emit_debug {
        Some(generate_debug_trait(input.ident.as_str(), &parsed, &defaults))
    } else {
        None
    };
    let display_impl = if config.emit_display {
        match generate_display_trait(input.ident.as_str(), &parsed, &defaults) {
            Ok(d) => Some(d),
            Err(e) => {
                return Err(e);
            },
        }
    } else {
        None
    };
    let error_impl = if config.emit_error_marker {
        Some(generate_error_trait(input.ident.as_str()))
    } else {
        None
    };
    let from_impls = if config.emit_conversions {
        let from_attributes = match parse_from_attribute(variants) {
            Ok(f) => f,
            Err(e) => {
                return Err(e);
            },
        };
        proof {
            assert forall|i: int| 0 <= i < from_attributes@.len() implies views_of_from(
                from_attributes@,
            )[i] == raw_from_list(vv)[i] by {
                assert(crate::parse::spec_from_matches(from_attributes@[i]@, vv[i]));
                assert(from_attributes@[i]@ =~= (SpecFromAttribute {
                    variant: vv[i],
                    from_type: spec_from_type_of(vv[i]),
                }));
            }
            assert(views_of_from(from_attributes@) =~= raw_from_list(vv));
        }
        match check_for_unique_types(&from_attributes) {
            Ok(_) => {},
            Err(e) => {
                return Err(e);
            },
        }
        proof {
            assert forall|i: int|
                0 <= i < from_attributes@.len() && (#[trigger] from_attributes@[i])@.from_type
                    is Some implies crate::model::spec_fields_len(
                from_attributes@[i]@.variant.fields,
            ) >= 1 by {
                lemma_from_type_needs_field(from_attributes@[i]@.variant);
            }
        }
        Some(generate_from_traits(input.ident.as_str(), &from_attributes))
    } else {
        None
    };
    Ok(
        GeneratedCode {
            enum_ident: input.ident.clone(),
            debug_impl,
            termination_impl,
            display_impl,
            error_impl,
            from_impls,
        },
    )
}

} // verus!
