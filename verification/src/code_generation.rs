//! The generator: lowers the variants and their resolved settings into
//! the abstract generated-code bundle.
//!
//! Every generated interface is a match-like exhaustive dispatch: one arm
//! per variant, in declaration order. An arm carries the variant's name,
//! its field layout (so that a rendering back end can bind the fields)
//! and a body: a formatted-string expression, a delegation to the
//! human-readable formatter, or a literal exit status. Conversion
//! constructors carry the source type and the single target field.

use vstd::prelude::*;

use crate::model::SpecVariant;
use crate::model::SpecVariantFields;
use crate::model::Variant;
use crate::model::VariantFields;
use crate::model::DeriveError;
use crate::model::opt_view;
use crate::model::spec_fields_len;
use crate::parse::Defaults;
use crate::parse::FromAttribute;
use crate::parse::MessageAttribute;
use crate::parse::ParsedAttribute;
use crate::parse::SpecDefaults;
use crate::parse::SpecFromAttribute;
use crate::parse::SpecMessageAttribute;
use crate::parse::SpecParsedAttribute;
use crate::resolve::resolve;
use crate::resolve::spec_resolved_exit;
use crate::resolve::spec_resolved_message;
use crate::rewrite::get_formatted_string_with_fields;
use crate::rewrite::rewrite_spec;

verus! {

/// Mathematical view of [`MessageBody`].
#[verifier::ext_equal]
pub enum SpecMessageBody {
    Template(SpecMessageAttribute),
    DelegateDisplay,
}

/// Mathematical view of [`MessageArm`].
#[verifier::ext_equal]
pub struct SpecMessageArm {
    pub variant: Seq<char>,
    pub fields: SpecVariantFields,
    pub body: SpecMessageBody,
}

/// Mathematical view of [`ExitArm`].
#[verifier::ext_equal]
pub struct SpecExitArm {
    pub variant: Seq<char>,
    pub fields: SpecVariantFields,
    pub exit_code: u8,
}

/// Mathematical view of [`MessageImpl`].
#[verifier::ext_equal]
pub struct SpecMessageImpl {
    pub enum_ident: Seq<char>,
    pub arms: Seq<SpecMessageArm>,
}

/// Mathematical view of [`TerminationImpl`].
#[verifier::ext_equal]
pub struct SpecTerminationImpl {
    pub enum_ident: Seq<char>,
    pub arms: Seq<SpecExitArm>,
}

/// Mathematical view of [`ErrorImpl`].
#[verifier::ext_equal]
pub struct SpecErrorImpl {
    pub enum_ident: Seq<char>,
}

/// Mathematical view of [`FromImpl`].
#[verifier::ext_equal]
pub struct SpecFromImpl {
    pub variant: Seq<char>,
    pub source_type: Seq<char>,
    pub field_name: Option<Seq<char>>,
}

/// Mathematical view of [`FromImpls`].
#[verifier::ext_equal]
pub struct SpecFromImpls {
    pub enum_ident: Seq<char>,
    pub impls: Seq<SpecFromImpl>,
}

/// Mathematical view of [`GeneratedCode`].
#[verifier::ext_equal]
pub struct SpecGeneratedCode {
    pub enum_ident: Seq<char>,
    pub debug_impl: Option<SpecMessageImpl>,
    pub termination_impl: SpecTerminationImpl,
    pub display_impl: Option<SpecMessageImpl>,
    pub error_impl: Option<SpecErrorImpl>,
    pub from_impls: Option<SpecFromImpls>,
}

/// The body of one formatter arm: a formatted-string expression built
/// from a template and its supplied arguments, or a delegation to the
/// human-readable formatter when no message resolves.
#[derive(Debug)]
pub enum MessageBody {
    Template(MessageAttribute),
    DelegateDisplay,
}

/// One arm of a generated formatter: the variant, the field layout to
/// bind, and the body to render.
#[derive(Debug)]
pub struct MessageArm {
    pub variant: String,
    pub fields: VariantFields,
    pub body: MessageBody,
}

/// One arm of the process-exit reporter: the variant, the field layout
/// to bind, and the literal exit status it maps to.
#[derive(Debug)]
pub struct ExitArm {
    pub variant: String,
    pub fields: VariantFields,
    pub exit_code: u8,
}

/// A generated formatter implementation: one arm per variant.
#[derive(Debug)]
pub struct MessageImpl {
    pub enum_ident: String,
    pub arms: Vec<MessageArm>,
}

/// The generated process-exit reporter: one arm per variant.
#[derive(Debug)]
pub struct TerminationImpl {
    pub enum_ident: String,
    pub arms: Vec<ExitArm>,
}

/// The generated error-capability marker. It carries no logic.
#[derive(Debug)]
pub struct ErrorImpl {
    pub enum_ident: String,
}

/// One generated conversion constructor: wraps a value of the source
/// type into the variant, as its sole ordered field or under the given
/// field name.
#[derive(Debug)]
pub struct FromImpl {
    pub variant: String,
    pub source_type: String,
    pub field_name: Option<String>,
}

/// The generated conversion constructors.
#[derive(Debug)]
pub struct FromImpls {
    pub enum_ident: String,
    pub impls: Vec<FromImpl>,
}

/// The whole generated bundle: per requested interface, the arms ready
/// for literal emission as an exhaustive dispatch. Interfaces the mode
/// does not emit are absent.
#[derive(Debug)]
pub struct GeneratedCode {
    pub enum_ident: String,
    pub debug_impl: Option<MessageImpl>,
    pub termination_impl: TerminationImpl,
    pub display_impl: Option<MessageImpl>,
    pub error_impl: Option<ErrorImpl>,
    pub from_impls: Option<FromImpls>,
}

impl View for MessageBody {
    type V = SpecMessageBody;

    open spec fn view(&self) -> SpecMessageBody {
        match self {
            MessageBody::Template(m) => SpecMessageBody::Template(m@),
            MessageBody::DelegateDisplay => SpecMessageBody::DelegateDisplay,
        }
    }
}

impl View for MessageArm {
    type V = SpecMessageArm;

    open spec fn view(&self) -> SpecMessageArm {
        SpecMessageArm { variant: self.variant@, fields: self.fields@, body: self.body@ }
    }
}

impl View for ExitArm {
    type V = SpecExitArm;

    open spec fn view(&self) -> SpecExitArm {
        SpecExitArm { variant: self.variant@, fields: self.fields@, exit_code: self.exit_code }
    }
}

impl View for MessageImpl {
    type V = SpecMessageImpl;

    open spec fn view(&self) -> SpecMessageImpl {
        SpecMessageImpl {
            enum_ident: self.enum_ident@,
            arms: self.arms@.map_values(|a: MessageArm| a@),
        }
    }
}

impl View for TerminationImpl {
    type V = SpecTerminationImpl;

    open spec fn view(&self) -> SpecTerminationImpl {
        SpecTerminationImpl {
            enum_ident: self.enum_ident@,
            arms: self.arms@.map_values(|a: ExitArm| a@),
        }
    }
}

impl View for ErrorImpl {
    type V = SpecErrorImpl;

    open spec fn view(&self) -> SpecErrorImpl {
        SpecErrorImpl { enum_ident: self.enum_ident@ }
    }
}

impl View for FromImpl {
    type V = SpecFromImpl;

    open spec fn view(&self) -> SpecFromImpl {
        SpecFromImpl {
            variant: self.variant@,
            source_type: self.source_type@,
            field_name: opt_view(self.field_name),
        }
    }
}

impl View for FromImpls {
    type V = SpecFromImpls;

    open spec fn view(&self) -> SpecFromImpls {
        SpecFromImpls {
            enum_ident: self.enum_ident@,
            impls: self.impls@.map_values(|f: FromImpl| f@),
        }
    }
}

impl View for GeneratedCode {
    type V = SpecGeneratedCode;

    open spec fn view(&self) -> SpecGeneratedCode {
        SpecGeneratedCode {
            enum_ident: self.enum_ident@,
            debug_impl: opt_view(self.debug_impl),
            termination_impl: self.termination_impl@,
            display_impl: opt_view(self.display_impl),
            error_impl: opt_view(self.error_impl),
            from_impls: opt_view(self.from_impls),
        }
    }
}

/// The prefix of the synthesized names that ordered fields are bound to.
/// It is reserved: user-chosen field names never collide with it because
/// only ordered (hence nameless) fields are bound this way.
pub open spec fn synth_prefix() -> Seq<char> {
    "__"@
}

/// The template a message arm renders: positional references rewritten
/// to synthesized names for ordered fields, the original text otherwise.
pub open spec fn spec_arm_template(m: SpecMessageAttribute, fields: SpecVariantFields) -> Seq<
    char,
> {
    if fields is Unnamed {
        rewrite_spec(m.format_string, synth_prefix())
    } else {
        m.format_string
    }
}

/// One formatter arm is correct for a variant and its resolved message:
/// it names the variant, binds its fields, and renders the resolved
/// template (rewritten where the fields are ordered) with the supplied
/// arguments, or delegates to the human-readable formatter when no
/// message resolves.
pub open spec fn spec_message_arm_ok(
    arm: SpecMessageArm,
    v: SpecVariant,
    rm: Option<SpecMessageAttribute>,
) -> bool {
    &&& arm.variant == v.ident
    &&& arm.fields == v.fields
    &&& match rm {
        Some(m) => arm.body == SpecMessageBody::Template(
            SpecMessageAttribute {
                format_string: spec_arm_template(m, v.fields),
                format_string_arguments: m.format_string_arguments,
            },
        ),
        None => arm.body is DelegateDisplay,
    }
}

/// One exit arm is correct for a variant and its resolved exit code.
pub open spec fn spec_exit_arm_ok(arm: SpecExitArm, v: SpecVariant, exit_code: u8) -> bool {
    &&& arm.variant == v.ident
    &&& arm.fields == v.fields
    &&& arm.exit_code == exit_code
}

/// The views of a parsed-attribute list.
pub open spec fn views_of_parsed(s: Seq<ParsedAttribute>) -> Seq<SpecParsedAttribute> {
    s.map_values(|p: ParsedAttribute| p@)
}

/// Builds the arm of a variant with named fields: the fields are bound
/// by their own names, so the template is used verbatim.
fn message_impl_named(variant: &Variant, message: &Option<MessageAttribute>) -> (arm: MessageArm)
    requires
        variant@.fields is Named,
    ensures
        spec_message_arm_ok(arm@, variant@, opt_view(*message)),
{
    let body = match message {
        Some(m) => MessageBody::Template(m.clone()),
        None => MessageBody::DelegateDisplay,
    };
    MessageArm { variant: variant.ident.clone(), fields: variant.fields.clone(), body }
}

/// Builds the arm of a variant with ordered fields: the fields are bound
/// to synthesized names and every positional reference of the template is
/// rewritten to address them.
fn message_impl_unnamed(variant: &Variant, message: &Option<MessageAttribute>) -> (arm: MessageArm)
    requires
        variant@.fields is Unnamed,
    ensures
        spec_message_arm_ok(arm@, variant@, opt_view(*message)),
{
    let body = match message {
        Some(m) => {
            let rewritten = get_formatted_string_with_fields(m.format_string.as_str(), "__");
            let mc = m.clone();
            proof {
                assert(rewritten@ == rewrite_spec(m@.format_string, synth_prefix()));
            }
            MessageBody::Template(
                MessageAttribute {
                    format_string: rewritten,
                    format_string_arguments: mc.format_string_arguments,
                },
            )
        },
        None => MessageBody::DelegateDisplay,
    };
    MessageArm { variant: variant.ident.clone(), fields: variant.fields.clone(), body }
}

/// Builds the arm of a variant without fields: the template is used
/// verbatim.
fn message_impl_unit(variant: &Variant, message: &Option<MessageAttribute>) -> (arm: MessageArm)
    requires
        variant@.fields is Unit,
    ensures
        spec_message_arm_ok(arm@, variant@, opt_view(*message)),
{
    let body = match message {
        Some(m) => MessageBody::Template(m.clone()),
        None => MessageBody::DelegateDisplay,
    };
    MessageArm { variant: variant.ident.clone(), fields: variant.fields.clone(), body }
}

/// Generates the structured-diagnostic formatter: one arm per variant in
/// declaration order, each rendering the variant's resolved message, or
/// delegating to the human-readable formatter where none resolves.
#[verifier::loop_isolation(false)]
pub fn generate_debug_trait(name: &str, attributes: &Vec<ParsedAttribute>, defaults: &Defaults) -> (r:
    MessageImpl)
    ensures
        r@.enum_ident == name@,
        r@.arms.len() == attributes@.len(),
        forall|i: int|
            0 <= i < attributes@.len() ==> spec_message_arm_ok(
                #[trigger] r@.arms[i],
                attributes@[i]@.variant,
                spec_resolved_message(attributes@[i]@, defaults@),
            ),
{
    let mut arms: Vec<MessageArm> = Vec::new();
    let mut i: usize = 0;
    while i < attributes.len()
        invariant
            i <= attributes@.len(),
            arms@.len() == i,
            forall|j: int|
                0 <= j < i ==> spec_message_arm_ok(
                    (#[trigger] arms@[j])@,
                    attributes@[j]@.variant,
                    spec_resolved_message(attributes@[j]@, defaults@),
                ),
        decreases attributes@.len() - i,
    {
        let attribute = &attributes[i];
        let resolved = resolve(defaults, attribute);
        let arm = match &attribute.variant.fields {
            VariantFields::Named(_) => message_impl_named(&attribute.variant, &resolved.message),
            VariantFields::Unnamed(_) => message_impl_unnamed(
                &attribute.variant,
                &resolved.message,
            ),
            VariantFields::Unit => message_impl_unit(&attribute.variant, &resolved.message),
        };
        arms.push(arm);
        i = i + 1;
    }
    MessageImpl { enum_ident: name.to_owned(), arms }
}

/// The first variant whose resolved message is missing, as a diagnostic.
pub open spec fn spec_missing_msg_error(ps: Seq<SpecParsedAttribute>, d: SpecDefaults) -> Option<
    DeriveError,
>
    decreases ps.len(),
{
    if ps.len() == 0 {
        None
    } else {
        match spec_missing_msg_error(ps.drop_last(), d) {
            Some(e) => Some(e),
            None => {
                if spec_resolved_message(ps.last(), d) is None {
                    Some(DeriveError::MissingMessage { span: ps.last().variant.span })
                } else {
                    None
                }
            },
        }
    }
}

proof fn lemma_missing_msg_error_persists(ps: Seq<SpecParsedAttribute>, d: SpecDefaults, j: int)
    requires
        0 <= j <= ps.len(),
        spec_missing_msg_error(ps.take(j), d) is Some,
    ensures
        spec_missing_msg_error(ps, d) == spec_missing_msg_error(ps.take(j), d),
    decreases ps.len() - j,
{
    if j < ps.len() {
        assert(ps.take(j + 1).drop_last() =~= ps.take(j));
        lemma_missing_msg_error_persists(ps, d, j + 1);
    } else {
        assert(ps.take(j) =~= ps);
    }
}

/// Generates the human-readable formatter: structurally the same as the
/// structured formatter, but every variant must have a resolved message;
/// the first variant without one is reported.
#[verifier::loop_isolation(false)]
pub fn generate_display_trait(
    name: &str,
    attributes: &Vec<ParsedAttribute>,
    defaults: &Defaults,
) -> (r: Result<MessageImpl, DeriveError>)
    ensures
        r is Err <==> spec_missing_msg_error(views_of_parsed(attributes@), defaults@) is Some,
        r is Err ==> Some(r->Err_0) == spec_missing_msg_error(views_of_parsed(attributes@), defaults@),
        r is Ok ==> r->Ok_0@.enum_ident == name@,
        r is Ok ==> r->Ok_0@.arms.len() == attributes@.len(),
        r is Ok ==> forall|i: int|
            0 <= i < attributes@.len() ==> spec_message_arm_ok(
                #[trigger] r->Ok_0@.arms[i],
                attributes@[i]@.variant,
                spec_resolved_message(attributes@[i]@, defaults@),
            ) && r->Ok_0@.arms[i].body is Template,
{
    let ghost pv = views_of_parsed(attributes@);
    let mut arms: Vec<MessageArm> = Vec::new();
    let mut i: usize = 0;
    while i < attributes.len()
        invariant
            i <= attributes@.len(),
            arms@.len() == i,
            spec_missing_msg_error(pv.take(i as int), defaults@) is None,
            forall|j: int|
                0 <= j < i ==> spec_message_arm_ok(
                    (#[trigger] arms@[j])@,
                    attributes@[j]@.variant,
                    spec_resolved_message(attributes@[j]@, defaults@),
                ) && arms@[j]@.body is Template,
        decreases attributes@.len() - i,
    {
        let attribute = &attributes[i];
        proof {
            assert(attribute@ == pv[i as int]);
            assert(pv.take(i + 1 as int).drop_last() =~= pv.take(i as int));
            assert(pv.take(i + 1 as int).last() == pv[i as int]);
        }
        let resolved = resolve(defaults, attribute);
        if resolved.message.is_none() {
            let err = DeriveError::MissingMessage { span: attribute.variant.span };
            proof {
                assert(spec_missing_msg_error(pv.take(i + 1 as int), defaults@) == Some(err));
                lemma_missing_msg_error_persists(pv, defaults@, i + 1);
            }
            return Err(err);
        }
        let arm = match &attribute.variant.fields {
            VariantFields::Named(_) => message_impl_named(&attribute.variant, &resolved.message),
            VariantFields::Unnamed(_) => message_impl_unnamed(
                &attribute.variant,
                &resolved.message,
            ),
            VariantFields::Unit => message_impl_unit(&attribute.variant, &resolved.message),
        };
        arms.push(arm);
        i = i + 1;
    }
    proof {
        assert(pv.take(pv.len() as int) =~= pv);
    }
    Ok(MessageImpl { enum_ident: name.to_owned(), arms })
}

/// Generates the process-exit reporter: one arm per variant in
/// declaration order, each mapping to the variant's resolved exit code.
#[verifier::loop_isolation(false)]
pub fn generate_termination_trait(
    name: &str,
    attributes: &Vec<ParsedAttribute>,
    defaults: &Defaults,
) -> (r: TerminationImpl)
    ensures
        r@.enum_ident == name@,
        r@.arms.len() == attributes@.len(),
        forall|i: int|
            0 <= i < attributes@.len() ==> spec_exit_arm_ok(
                #[trigger] r@.arms[i],
                attributes@[i]@.variant,
                spec_resolved_exit(attributes@[i]@, defaults@),
            ),
{
    let mut arms: Vec<ExitArm> = Vec::new();
    let mut i: usize = 0;
    while i < attributes.len()
        invariant
            i <= attributes@.len(),
            arms@.len() == i,
            forall|j: int|
                0 <= j < i ==> spec_exit_arm_ok(
                    (#[trigger] arms@[j])@,
                    attributes@[j]@.variant,
                    spec_resolved_exit(attributes@[j]@, defaults@),
                ),
        decreases attributes@.len() - i,
    {
        let attribute = &attributes[i];
        let resolved = resolve(defaults, attribute);
        let arm = ExitArm {
            variant: attribute.variant.ident.clone(),
            fields: attribute.variant.fields.clone(),
            exit_code: resolved.exit_code,
        };
        arms.push(arm);
        i = i + 1;
    }
    TerminationImpl { enum_ident: name.to_owned(), arms }
}

/// Generates the error-capability marker. It carries no logic.
pub fn generate_error_trait(name: &str) -> (r: ErrorImpl)
    ensures
        r@.enum_ident == name@,
{
    ErrorImpl { enum_ident: name.to_owned() }
}

/// The conversion entries that actually declare a source type, in order.
pub open spec fn spec_from_entries(s: Seq<SpecFromAttribute>) -> Seq<SpecFromAttribute>
    decreases s.len(),
{
    if s.len() == 0 {
        Seq::empty()
    } else {
        spec_from_entries(s.drop_last()) + if s.last().from_type is Some {
            seq![s.last()]
        } else {
            Seq::empty()
        }
    }
}

/// One conversion constructor is correct for one conversion entry: it
/// wraps the argument into the entry's variant, as its sole ordered
/// field or under the name of its single named field.
pub open spec fn spec_from_impl_ok(fi: SpecFromImpl, a: SpecFromAttribute) -> bool {
    &&& fi.variant == a.variant.ident
    &&& Some(fi.source_type) == a.from_type
    &&& match a.variant.fields {
        SpecVariantFields::Named(fs) => fs.len() >= 1 && fi.field_name == Some(fs[0].name),
        SpecVariantFields::Unnamed(_) => fi.field_name is None,
        SpecVariantFields::Unit => false,
    }
}

/// Generates one conversion constructor per variant that declares a
/// conversion, in declaration order.
#[verifier::loop_isolation(false)]
pub fn generate_from_traits(name: &str, attributes: &Vec<FromAttribute>) -> (r: FromImpls)
    requires
        forall|i: int|
            0 <= i < attributes@.len() ==> ((#[trigger] attributes@[i])@.from_type is Some
                ==> spec_fields_len(attributes@[i]@.variant.fields) >= 1),
    ensures
        r@.enum_ident == name@,
        r@.impls.len() == spec_from_entries(crate::parse::views_of_from(attributes@)).len(),
        forall|k: int|
            0 <= k < r@.impls.len() ==> spec_from_impl_ok(
                #[trigger] r@.impls[k],
                spec_from_entries(crate::parse::views_of_from(attributes@))[k],
            ),
{
    let ghost sv = crate::parse::views_of_from(attributes@);
    let mut impls: Vec<FromImpl> = Vec::new();
    let mut i: usize = 0;
    while i < attributes.len()
        invariant
            i <= attributes@.len(),
            impls@.len() == spec_from_entries(sv.take(i as int)).len(),
            forall|k: int|
                0 <= k < impls@.len() ==> spec_from_impl_ok(
                    (#[trigger] impls@[k])@,
                    spec_from_entries(sv.take(i as int))[k],
                ),
        decreases attributes@.len() - i,
    {
        let attribute = &attributes[i];
        proof {
            assert(attribute@ == sv[i as int]);
            assert(sv.take(i + 1 as int).drop_last() =~= sv.take(i as int));
            assert(sv.take(i + 1 as int).last() == sv[i as int]);
        }
        match &attribute.from_type {
            Some(source_type) => {
                let field_name: Option<String> = match &attribute.variant.fields {
                    VariantFields::Named(fs) => Some(fs[0].name.clone()),
                    VariantFields::Unnamed(_) => None,
                    VariantFields::Unit => {
                        proof {
                            assert(false);
                        }
                        None
                    },
                };
                let fi = FromImpl {
                    variant: attribute.variant.ident.clone(),
                    source_type: source_type.clone(),
                    field_name,
                };
                impls.push(fi);
                proof {
                    assert(spec_from_entries(sv.take(i + 1 as int)) =~= spec_from_entries(
                        sv.take(i as int),
                    ) + seq![sv[i as int]]);
                }
            },
            None => {
                proof {
                    assert(spec_from_entries(sv.take(i + 1 as int)) =~= spec_from_entries(
                        sv.take(i as int),
                    ));
                }
            },
        }
        i = i + 1;
    }
    proof {
        assert(sv.take(sv.len() as int) =~= sv);
    }
    FromImpls { enum_ident: name.to_owned(), impls }
}

} // verus!
