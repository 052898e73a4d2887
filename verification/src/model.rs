//! The semantic input model of the derive pass.
//!
//! A host-language front end supplies a type description in this shape:
//! for the type and for each variant an ordered list of annotation blocks,
//! each block a list of key/value entries whose values are token lists,
//! plus each variant's field layout. Every element carries an opaque
//! source-location tag (a `u32` span) so that diagnostics can be anchored.
//!
//! Each executable type has a mathematical view (`Spec*`), over which all
//! contracts of the pass are stated.

use vstd::prelude::*;

verus! {

/// Mathematical view of [`AttrValue`].
#[verifier::ext_equal]
pub enum SpecAttrValue {
    Str(Seq<char>),
    Int(Seq<char>),
    Expr(Seq<char>),
}

/// Mathematical view of [`AttrToken`].
#[verifier::ext_equal]
pub enum SpecAttrToken {
    Value(SpecAttrValue),
    Comma,
}

/// Mathematical view of [`AttrEntry`].
#[verifier::ext_equal]
pub struct SpecAttrEntry {
    pub key: Seq<char>,
    pub key_span: u32,
    pub value_span: u32,
    pub tokens: Seq<SpecAttrToken>,
}

/// Mathematical view of [`AttrBlock`].
#[verifier::ext_equal]
pub struct SpecAttrBlock {
    pub span: u32,
    pub entries: Seq<SpecAttrEntry>,
}

/// Mathematical view of [`NamedField`].
#[verifier::ext_equal]
pub struct SpecNamedField {
    pub name: Seq<char>,
    pub ty: Seq<char>,
    pub marked_from: bool,
}

/// Mathematical view of [`UnnamedField`].
#[verifier::ext_equal]
pub struct SpecUnnamedField {
    pub ty: Seq<char>,
    pub marked_from: bool,
}

/// Mathematical view of [`VariantFields`].
#[verifier::ext_equal]
pub enum SpecVariantFields {
    Unit,
    Unnamed(Seq<SpecUnnamedField>),
    Named(Seq<SpecNamedField>),
}

/// Mathematical view of [`Variant`].
#[verifier::ext_equal]
pub struct SpecVariant {
    pub ident: Seq<char>,
    pub span: u32,
    pub fields: SpecVariantFields,
    pub blocks: Seq<SpecAttrBlock>,
}

/// Mathematical view of [`DeriveData`].
#[verifier::ext_equal]
pub enum SpecDeriveData {
    Enum(Seq<SpecVariant>),
    Other,
}

/// Mathematical view of [`DeriveInput`].
#[verifier::ext_equal]
pub struct SpecDeriveInput {
    pub ident: Seq<char>,
    pub span: u32,
    pub blocks: Seq<SpecAttrBlock>,
    pub data: SpecDeriveData,
}

/// One value token inside an annotation entry: a quoted string literal
/// (payload: its content), an integer literal (payload: its digits), or
/// any other expression kept opaque (payload: its verbatim source text).
#[derive(Debug)]
pub enum AttrValue {
    Str(String),
    Int(String),
    Expr(String),
}

/// One token of an annotation entry's parenthesized value: either a value
/// or a separating comma.
#[derive(Debug)]
pub enum AttrToken {
    Value(AttrValue),
    Comma,
}

/// One `key(tokens...)` entry of an annotation block.
#[derive(Debug)]
pub struct AttrEntry {
    pub key: String,
    /// Source location of the key identifier.
    pub key_span: u32,
    /// Source location of the value tokens.
    pub value_span: u32,
    pub tokens: Vec<AttrToken>,
}

/// One annotation block attached to the type or to a variant.
#[derive(Debug)]
pub struct AttrBlock {
    pub span: u32,
    pub entries: Vec<AttrEntry>,
}

/// A field of a variant with named fields.
#[derive(Debug)]
pub struct NamedField {
    pub name: String,
    /// The field's declared type, as structural text.
    pub ty: String,
    /// Whether the field carries the conversion marker.
    pub marked_from: bool,
}

/// A field of a variant with ordered (positional) fields.
#[derive(Debug)]
pub struct UnnamedField {
    /// The field's declared type, as structural text.
    pub ty: String,
    /// Whether the field carries the conversion marker.
    pub marked_from: bool,
}

/// The field layout of one variant: no fields, ordered fields addressed
/// by index, or fields addressed by name.
#[derive(Debug)]
pub enum VariantFields {
    Unit,
    Unnamed(Vec<UnnamedField>),
    Named(Vec<NamedField>),
}

/// One variant of the tagged union, with its own annotation blocks.
#[derive(Debug)]
pub struct Variant {
    pub ident: String,
    pub span: u32,
    pub fields: VariantFields,
    pub blocks: Vec<AttrBlock>,
}

/// The body of the type the derive runs on: the ordered variant list of a
/// tagged union, or some other shape (which the pass rejects).
#[derive(Debug)]
pub enum DeriveData {
    Enum(Vec<Variant>),
    Other,
}

/// The whole input of one derive invocation.
#[derive(Debug)]
pub struct DeriveInput {
    pub ident: String,
    pub span: u32,
    /// Annotation blocks attached to the type itself (the defaults).
    pub blocks: Vec<AttrBlock>,
    pub data: DeriveData,
}

/// The generation mode, named in policy diagnostics.
#[derive(Clone, Copy, Debug, PartialEq, Eq, Structural)]
pub enum Mode {
    Termination,
    TerminationNoDebug,
    TerminationFull,
}

/// Everything that can go wrong in one derive invocation. Each variant
/// carries the source-location tag the diagnostic is anchored at.
#[derive(Clone, Copy, Debug, PartialEq, Eq, Structural)]
pub enum DeriveError {
    /// The input is not a tagged union at all.
    NotAnEnum { span: u32 },
    /// A second annotation block on the same variant or type.
    DuplicateBlock { span: u32 },
    /// A recognized key repeated inside one block.
    DuplicateKey { span: u32 },
    /// A key that is not part of the annotation grammar.
    UnknownKey { span: u32 },
    /// An exit-code value that is not an unsigned integer fitting a byte.
    InvalidExitCode { span: u32 },
    /// A message value that does not start with a quoted template or whose
    /// trailing arguments are not comma-separated.
    MalformedMessageArgs { span: u32 },
    /// A syntactically valid key that the active mode disallows.
    ForbiddenKey { span: u32, mode: Mode },
    /// The mode requires a human-readable message but none resolves.
    MissingMessage { span: u32 },
    /// A conversion marker on a variant that does not have exactly one field.
    InvalidConversionShape { span: u32 },
    /// Two variants declare conversions from the same source type.
    AmbiguousConversion { first_span: u32, second_span: u32 },
}

impl View for AttrValue {
    type V = SpecAttrValue;

    open spec fn view(&self) -> SpecAttrValue {
        match self {
            AttrValue::Str(s) => SpecAttrValue::Str(s@),
            AttrValue::Int(s) => SpecAttrValue::Int(s@),
            AttrValue::Expr(s) => SpecAttrValue::Expr(s@),
        }
    }
}

impl View for AttrToken {
    type V = SpecAttrToken;

    open spec fn view(&self) -> SpecAttrToken {
        match self {
            AttrToken::Value(v) => SpecAttrToken::Value(v@),
            AttrToken::Comma => SpecAttrToken::Comma,
        }
    }
}

impl View for AttrEntry {
    type V = SpecAttrEntry;

    open spec fn view(&self) -> SpecAttrEntry {
        SpecAttrEntry {
            key: self.key@,
            key_span: self.key_span,
            value_span: self.value_span,
            tokens: views_of_tokens(self.tokens@),
        }
    }
}

impl View for AttrBlock {
    type V = SpecAttrBlock;

    open spec fn view(&self) -> SpecAttrBlock {
        SpecAttrBlock { span: self.span, entries: views_of_entries(self.entries@) }
    }
}

impl View for NamedField {
    type V = SpecNamedField;

    open spec fn view(&self) -> SpecNamedField {
        SpecNamedField { name: self.name@, ty: self.ty@, marked_from: self.marked_from }
    }
}

impl View for UnnamedField {
    type V = SpecUnnamedField;

    open spec fn view(&self) -> SpecUnnamedField {
        SpecUnnamedField { ty: self.ty@, marked_from: self.marked_from }
    }
}

impl View for VariantFields {
    type V = SpecVariantFields;

    open spec fn view(&self) -> SpecVariantFields {
        match self {
            VariantFields::Unit => SpecVariantFields::Unit,
            VariantFields::Unnamed(fs) => SpecVariantFields::Unnamed(views_of_unnamed(fs@)),
            VariantFields::Named(fs) => SpecVariantFields::Named(views_of_named(fs@)),
        }
    }
}

impl View for Variant {
    type V = SpecVariant;

    open spec fn view(&self) -> SpecVariant {
        SpecVariant {
            ident: self.ident@,
            span: self.span,
            fields: self.fields@,
            blocks: views_of_blocks(self.blocks@),
        }
    }
}

impl View for DeriveData {
    type V = SpecDeriveData;

    open spec fn view(&self) -> SpecDeriveData {
        match self {
            DeriveData::Enum(vs) => SpecDeriveData::Enum(views_of_variants(vs@)),
            DeriveData::Other => SpecDeriveData::Other,
        }
    }
}

impl View for DeriveInput {
    type V = SpecDeriveInput;

    open spec fn view(&self) -> SpecDeriveInput {
        SpecDeriveInput {
            ident: self.ident@,
            span: self.span,
            blocks: views_of_blocks(self.blocks@),
            data: self.data@,
        }
    }
}

impl Clone for AttrValue {
    fn clone(&self) -> (res: Self)
        ensures
            res@ == self@,
    {
        match self {
            AttrValue::Str(s) => AttrValue::Str(s.clone()),
            AttrValue::Int(s) => AttrValue::Int(s.clone()),
            AttrValue::Expr(s) => AttrValue::Expr(s.clone()),
        }
    }
}

impl Clone for AttrToken {
    fn clone(&self) -> (res: Self)
        ensures
            res@ == self@,
    {
        match self {
            AttrToken::Value(v) => AttrToken::Value(v.clone()),
            AttrToken::Comma => AttrToken::Comma,
        }
    }
}

impl Clone for AttrEntry {
    fn clone(&self) -> (res: Self)
        ensures
            res@ == self@,
    {
        let tokens = self.tokens.clone();
        proof {
            assert forall|i: int| 0 <= i < tokens@.len() implies (#[trigger] tokens@[i])@
                == self.tokens@[i]@ by {
                assert(cloned::<AttrToken>(self.tokens@[i], tokens@[i]));
            }
            assert(views_of_tokens(tokens@) =~= views_of_tokens(self.tokens@));
        }
        AttrEntry {
            key: self.key.clone(),
            key_span: self.key_span,
            value_span: self.value_span,
            tokens,
        }
    }
}

impl Clone for AttrBlock {
    fn clone(&self) -> (res: Self)
        ensures
            res@ == self@,
    {
        let entries = self.entries.clone();
        proof {
            assert forall|i: int| 0 <= i < entries@.len() implies (#[trigger] entries@[i])@
                == self.entries@[i]@ by {
                assert(cloned::<AttrEntry>(self.entries@[i], entries@[i]));
            }
            assert(views_of_entries(entries@) =~= views_of_entries(self.entries@));
        }
        AttrBlock { span: self.span, entries }
    }
}

impl Clone for NamedField {
    fn clone(&self) -> (res: Self)
        ensures
            res@ == self@,
    {
        NamedField { name: self.name.clone(), ty: self.ty.clone(), marked_from: self.marked_from }
    }
}

impl Clone for UnnamedField {
    fn clone(&self) -> (res: Self)
        ensures
            res@ == self@,
    {
        UnnamedField { ty: self.ty.clone(), marked_from: self.marked_from }
    }
}

impl Clone for VariantFields {
    fn clone(&self) -> (res: Self)
        ensures
            res@ == self@,
    {
        match self {
            VariantFields::Unit => VariantFields::Unit,
            VariantFields::Unnamed(fields) => {
                let fs = fields.clone();
                proof {
                    assert forall|i: int| 0 <= i < fs@.len() implies (#[trigger] fs@[i])@
                        == fields@[i]@ by {
                        assert(cloned::<UnnamedField>(fields@[i], fs@[i]));
                    }
                    assert(views_of_unnamed(fs@) =~= views_of_unnamed(fields@));
                }
                VariantFields::Unnamed(fs)
            },
            VariantFields::Named(fields) => {
                let fs = fields.clone();
                proof {
                    assert forall|i: int| 0 <= i < fs@.len() implies (#[trigger] fs@[i])@
                        == fields@[i]@ by {
                        assert(cloned::<NamedField>(fields@[i], fs@[i]));
                    }
                    assert(views_of_named(fs@) =~= views_of_named(fields@));
                }
                VariantFields::Named(fs)
            },
        }
    }
}

impl Clone for Variant {
    fn clone(&self) -> (res: Self)
        ensures
            res@ == self@,
    {
        let blocks = self.blocks.clone();
        proof {
            assert forall|i: int| 0 <= i < blocks@.len() implies (#[trigger] blocks@[i])@
                == self.blocks@[i]@ by {
                assert(cloned::<AttrBlock>(self.blocks@[i], blocks@[i]));
            }
            assert(views_of_blocks(blocks@) =~= views_of_blocks(self.blocks@));
        }
        Variant {
            ident: self.ident.clone(),
            span: self.span,
            fields: self.fields.clone(),
            blocks,
        }
    }
}

/// The configuration one mode driver supplies to the shared engine: which
/// annotation keys the mode allows and which interfaces it emits.
#[derive(Clone, Copy, Debug, PartialEq, Eq, Structural)]
pub struct ModeConfig {
    /// The mode's name, used in policy diagnostics.
    pub mode: Mode,
    pub allow_exit_code: bool,
    pub allow_msg: bool,
    pub emit_debug: bool,
    pub emit_display: bool,
    pub emit_error_marker: bool,
    pub emit_conversions: bool,
    /// Whether a type with no variants is emitted as-is, before any
    /// annotation is even parsed.
    pub skip_annotations_when_empty: bool,
}

/// The view of an optional viewable value.
pub open spec fn opt_view<T: View>(o: Option<T>) -> Option<T::V> {
    match o {
        Some(t) => Some(t@),
        None => None,
    }
}

/// The views of an ordered-field list.
pub open spec fn views_of_unnamed(s: Seq<UnnamedField>) -> Seq<SpecUnnamedField> {
    s.map_values(|f: UnnamedField| f@)
}

/// The views of a named-field list.
pub open spec fn views_of_named(s: Seq<NamedField>) -> Seq<SpecNamedField> {
    s.map_values(|f: NamedField| f@)
}

/// The views of a token list.
pub open spec fn views_of_tokens(s: Seq<AttrToken>) -> Seq<SpecAttrToken> {
    s.map_values(|t: AttrToken| t@)
}

/// The views of an entry list.
pub open spec fn views_of_entries(s: Seq<AttrEntry>) -> Seq<SpecAttrEntry> {
    s.map_values(|e: AttrEntry| e@)
}

/// The views of a block list.
pub open spec fn views_of_blocks(s: Seq<AttrBlock>) -> Seq<SpecAttrBlock> {
    s.map_values(|b: AttrBlock| b@)
}

/// The views of a variant list.
pub open spec fn views_of_variants(s: Seq<Variant>) -> Seq<SpecVariant> {
    s.map_values(|v: Variant| v@)
}

/// The number of fields a variant has, over any layout.
pub open spec fn spec_fields_len(fields: SpecVariantFields) -> int {
    match fields {
        SpecVariantFields::Unit => 0,
        SpecVariantFields::Unnamed(fs) => fs.len() as int,
        SpecVariantFields::Named(fs) => fs.len() as int,
    }
}

} // verus!
