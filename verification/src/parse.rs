//! The annotation parser and the conversion validator.
//!
//! The parser turns the raw annotation blocks of the type or of one
//! variant into attribute values: at most one block is permitted, inside
//! it each recognized key (`exit_code`, `msg`) at most once, and each
//! value must fit its grammar. A mode may forbid a key outright. The
//! conversion validator collects per-variant conversion markers and
//! enforces that a marked variant has exactly one field and that no two
//! variants convert from the same source type.

use vstd::prelude::*;

use crate::model::AttrBlock;
use crate::model::AttrToken;
use crate::model::AttrValue;
use crate::model::DeriveError;
use crate::model::ModeConfig;
use crate::model::SpecAttrBlock;
use crate::model::SpecAttrEntry;
use crate::model::SpecAttrToken;
use crate::model::SpecAttrValue;
use crate::model::NamedField;
use crate::model::SpecNamedField;
use crate::model::SpecUnnamedField;
use crate::model::SpecVariant;
use crate::model::SpecVariantFields;
use crate::model::UnnamedField;
use crate::model::Variant;
use crate::model::VariantFields;
use crate::model::opt_view;
use crate::model::spec_fields_len;
use crate::model::views_of_blocks;
use crate::model::views_of_named;
use crate::model::views_of_tokens;
use crate::model::views_of_unnamed;
use crate::model::views_of_variants;
use crate::rewrite::is_ascii_digit;

verus! {

/// Mathematical view of [`MessageAttribute`].
#[verifier::ext_equal]
pub struct SpecMessageAttribute {
    pub format_string: Seq<char>,
    pub format_string_arguments: Seq<SpecAttrValue>,
}

/// Mathematical view of [`Defaults`].
#[verifier::ext_equal]
pub struct SpecDefaults {
    pub exit_code: Option<ExitCodeAttribute>,
    pub message: Option<SpecMessageAttribute>,
}

/// Mathematical view of [`ParsedAttribute`].
#[verifier::ext_equal]
pub struct SpecParsedAttribute {
    pub variant: SpecVariant,
    pub exit_code: Option<ExitCodeAttribute>,
    pub message: Option<SpecMessageAttribute>,
}

/// Mathematical view of [`FromAttribute`].
#[verifier::ext_equal]
pub struct SpecFromAttribute {
    pub variant: SpecVariant,
    pub from_type: Option<Seq<char>>,
}

/// A parsed `exit_code(n)` setting: a process exit status in one byte.
#[derive(Clone, Copy, Debug, PartialEq, Eq, Structural)]
pub struct ExitCodeAttribute {
    pub exit_code: u8,
}

/// A parsed `msg("template", args...)` setting: the format template and
/// the extra supplied arguments, kept opaque.
#[derive(Debug)]
pub struct MessageAttribute {
    pub format_string: String,
    pub format_string_arguments: Vec<AttrValue>,
}

/// The type-level annotation settings, used as per-variant defaults.
#[derive(Debug)]
pub struct Defaults {
    pub exit_code: Option<ExitCodeAttribute>,
    pub message: Option<MessageAttribute>,
}

/// One variant together with its parsed annotation settings.
#[derive(Debug)]
pub struct ParsedAttribute {
    pub variant: Variant,
    pub exit_code: Option<ExitCodeAttribute>,
    pub message: Option<MessageAttribute>,
}

/// One variant together with its conversion source type, if the variant's
/// single field carries the conversion marker.
#[derive(Debug)]
pub struct FromAttribute {
    pub variant: Variant,
    pub from_type: Option<String>,
}

impl View for MessageAttribute {
    type V = SpecMessageAttribute;

    open spec fn view(&self) -> SpecMessageAttribute {
        SpecMessageAttribute {
            format_string: self.format_string@,
            format_string_arguments: self.format_string_arguments@.map_values(
                |v: AttrValue| v@,
            ),
        }
    }
}

impl View for Defaults {
    type V = SpecDefaults;

    open spec fn view(&self) -> SpecDefaults {
        SpecDefaults { exit_code: self.exit_code, message: opt_view(self.message) }
    }
}

impl View for ParsedAttribute {
    type V = SpecParsedAttribute;

    open spec fn view(&self) -> SpecParsedAttribute {
        SpecParsedAttribute {
            variant: self.variant@,
            exit_code: self.exit_code,
            message: opt_view(self.message),
        }
    }
}

impl View for FromAttribute {
    type V = SpecFromAttribute;

    open spec fn view(&self) -> SpecFromAttribute {
        SpecFromAttribute {
            variant: self.variant@,
            from_type: match self.from_type {
                Some(t) => Some(t@),
                None => None,
            },
        }
    }
}

impl Clone for MessageAttribute {
    fn clone(&self) -> (res: Self)
        ensures
            res@ == self@,
    {
        let args = self.format_string_arguments.clone();
        proof {
            assert forall|i: int| 0 <= i < args@.len() implies (#[trigger] args@[i])@
                == self.format_string_arguments@[i]@ by {
                assert(cloned::<AttrValue>(self.format_string_arguments@[i], args@[i]));
            }
            assert(args@.map_values(|v: AttrValue| v@)
                =~= self.format_string_arguments@.map_values(|v: AttrValue| v@));
        }
        MessageAttribute { format_string: self.format_string.clone(), format_string_arguments: args }
    }
}

/// The numeric value of a decimal digit.
pub open spec fn digit_val(c: char) -> int {
    (c as u32) as int - ('0' as u32) as int
}

/// Whether every character of `s` is a decimal digit.
pub open spec fn all_digits(s: Seq<char>) -> bool {
    forall|i: int| 0 <= i < s.len() ==> is_ascii_digit(#[trigger] s[i])
}

/// The value of `s` read as a decimal numeral, most significant first.
pub open spec fn dec_val(s: Seq<char>) -> int
    decreases s.len(),
{
    if s.len() == 0 {
        0
    } else {
        10 * dec_val(s.drop_last()) + digit_val(s.last())
    }
}

proof fn lemma_dec_val_nonneg(s: Seq<char>)
    requires
        all_digits(s),
    ensures
        dec_val(s) >= 0,
    decreases s.len(),
{
    if s.len() > 0 {
        assert(all_digits(s.drop_last()));
        lemma_dec_val_nonneg(s.drop_last());
    }
}

/// Extending a digit string can only grow its value.
proof fn lemma_dec_val_monotone(s: Seq<char>, j: int)
    requires
        all_digits(s),
        0 <= j <= s.len(),
    ensures
        dec_val(s) >= dec_val(s.take(j)),
    decreases s.len() - j,
{
    if j < s.len() {
        lemma_dec_val_monotone(s, j + 1);
        assert(s.take(j + 1).drop_last() =~= s.take(j));
        assert(all_digits(s.take(j)));
        lemma_dec_val_nonneg(s.take(j));
        assert(dec_val(s.take(j + 1)) == 10 * dec_val(s.take(j)) + digit_val(s.take(j + 1).last()));
    } else {
        assert(s.take(j) =~= s);
    }
}

/// Compares two text values character by character.
#[verifier::loop_isolation(false)]
pub fn str_eq(a: &str, b: &str) -> (r: bool)
    ensures
        r == (a@ == b@),
{
    let n = a.unicode_len();
    let m = b.unicode_len();
    if n != m {
        return false;
    }
    let mut i: usize = 0;
    while i < n
        invariant
            i <= n,
            forall|j: int| 0 <= j < i ==> a@[j] == b@[j],
        decreases n - i,
    {
        let ca = a.get_char(i);
        let cb = b.get_char(i);
        if ca != cb {
            return false;
        }
        i = i + 1;
    }
    proof {
        assert(a@ =~= b@);
    }
    true
}

/// Reads a byte from a decimal numeral: every character must be a digit
/// and the value must fit in one byte.
#[verifier::loop_isolation(false)]
fn parse_u8_decimal(s: &str) -> (r: Option<u8>)
    ensures
        r is Some <==> (s@.len() > 0 && all_digits(s@) && dec_val(s@) <= 255),
        r is Some ==> r->0 == dec_val(s@),
{
    let n = s.unicode_len();
    if n == 0 {
        return None;
    }
    let mut acc: u32 = 0;
    let mut i: usize = 0;
    while i < n
        invariant
            i <= n,
            all_digits(s@.take(i as int)),
            acc == dec_val(s@.take(i as int)),
            acc <= 255,
        decreases n - i,
    {
        let c = s.get_char(i);
        let cu = c as u32;
        if cu < 48 || cu > 57 {
            assert(!is_ascii_digit(s@[i as int]));
            return None;
        }
        proof {
            assert(s@.take(i + 1 as int).drop_last() =~= s@.take(i as int));
            assert(s@.take(i + 1 as int).last() == s@[i as int]);
            assert(all_digits(s@.take(i + 1 as int)));
        }
        acc = acc * 10 + (cu - 48);
        assert(acc == dec_val(s@.take(i + 1 as int)));
        if acc > 255 {
            proof {
                if all_digits(s@) {
                    lemma_dec_val_monotone(s@, i + 1);
                }
            }
            return None;
        }
        i = i + 1;
    }
    proof {
        assert(s@.take(n as int) =~= s@);
    }
    Some(acc as u8)
}

/// The byte encoded by an `exit_code` value: exactly one integer token
/// whose digits fit in one byte.
pub open spec fn spec_exit_code_of(tokens: Seq<SpecAttrToken>) -> Option<u8> {
    if tokens.len() == 1 {
        match tokens[0] {
            SpecAttrToken::Value(SpecAttrValue::Int(t)) => {
                if t.len() > 0 && all_digits(t) && dec_val(t) <= 255 {
                    Some(dec_val(t) as u8)
                } else {
                    None
                }
            },
            _ => None,
        }
    } else {
        None
    }
}

/// Whether the tokens after the template follow the argument grammar:
/// a comma then one value, repeated.
pub open spec fn spec_msg_args_ok(tokens: Seq<SpecAttrToken>) -> bool
    decreases tokens.len(),
{
    if tokens.len() == 0 {
        true
    } else if tokens.len() >= 2 && tokens[0] is Comma && tokens[1] is Value {
        spec_msg_args_ok(tokens.skip(2))
    } else {
        false
    }
}

/// The supplied arguments among the tokens after the template.
pub open spec fn spec_msg_args(tokens: Seq<SpecAttrToken>) -> Seq<SpecAttrValue>
    decreases tokens.len(),
{
    if tokens.len() >= 2 {
        seq![tokens[1]->Value_0] + spec_msg_args(tokens.skip(2))
    } else {
        Seq::empty()
    }
}

/// The message encoded by a `msg` value: a quoted template first, then
/// comma-separated supplied arguments.
pub open spec fn spec_msg_of(tokens: Seq<SpecAttrToken>) -> Option<SpecMessageAttribute> {
    if tokens.len() >= 1 && (tokens[0] matches SpecAttrToken::Value(SpecAttrValue::Str(t))
        && spec_msg_args_ok(tokens.skip(1))) {
        Some(
            SpecMessageAttribute {
                format_string: tokens[0]->Value_0->Str_0,
                format_string_arguments: spec_msg_args(tokens.skip(1)),
            },
        )
    } else {
        None
    }
}

/// Reads an `exit_code` annotation value.
fn parse_exit_code(tokens: &Vec<AttrToken>, span: u32) -> (r: Result<ExitCodeAttribute, DeriveError>)
    ensures
        r is Ok <==> spec_exit_code_of(views_of_tokens(tokens@)) is Some,
        r is Ok ==> Some(r->Ok_0.exit_code) == spec_exit_code_of(views_of_tokens(tokens@)),
        r is Err ==> r->Err_0 == (DeriveError::InvalidExitCode { span }),
{
    let ghost tv = views_of_tokens(tokens@);
    if tokens.len() != 1 {
        return Err(DeriveError::InvalidExitCode { span });
    }
    match &tokens[0] {
        AttrToken::Value(AttrValue::Int(text)) => {
            assert(tv[0] == (SpecAttrToken::Value(SpecAttrValue::Int(text@))));
            match parse_u8_decimal(text.as_str()) {
                Some(v) => Ok(ExitCodeAttribute { exit_code: v }),
                None => Err(DeriveError::InvalidExitCode { span }),
            }
        },
        AttrToken::Value(AttrValue::Str(_)) => Err(DeriveError::InvalidExitCode { span }),
        AttrToken::Value(AttrValue::Expr(_)) => Err(DeriveError::InvalidExitCode { span }),
        AttrToken::Comma => Err(DeriveError::InvalidExitCode { span }),
    }
}

/// Reads a `msg` annotation value.
#[verifier::loop_isolation(false)]
fn parse_message(tokens: &Vec<AttrToken>, span: u32) -> (r: Result<MessageAttribute, DeriveError>)
    ensures
        r is Ok <==> spec_msg_of(views_of_tokens(tokens@)) is Some,
        r is Ok ==> Some(r->Ok_0@) == spec_msg_of(views_of_tokens(tokens@)),
        r is Err ==> r->Err_0 == (DeriveError::MalformedMessageArgs { span }),
{
    let ghost tv = views_of_tokens(tokens@);
    if tokens.len() == 0 {
        return Err(DeriveError::MalformedMessageArgs { span });
    }
    let format_string = match &tokens[0] {
        AttrToken::Value(AttrValue::Str(text)) => text.clone(),
        AttrToken::Value(AttrValue::Int(_)) => {
            return Err(DeriveError::MalformedMessageArgs { span });
        },
        AttrToken::Value(AttrValue::Expr(_)) => {
            return Err(DeriveError::MalformedMessageArgs { span });
        },
        AttrToken::Comma => {
            return Err(DeriveError::MalformedMessageArgs { span });
        },
    };
    let mut args: Vec<AttrValue> = Vec::new();
    let mut i: usize = 1;
    while i < tokens.len()
        invariant
            1 <= i <= tv.len(),
            spec_msg_args_ok(tv.skip(1)) <==> spec_msg_args_ok(tv.skip(i as int)),
            spec_msg_args_ok(tv.skip(1)) ==> spec_msg_args(tv.skip(1)) == args@.map_values(
                |v: AttrValue| v@,
            ) + spec_msg_args(tv.skip(i as int)),
        decreases tv.len() - i,
    {
        let ghost rest = tv.skip(i as int);
        match &tokens[i] {
            AttrToken::Comma => {},
            AttrToken::Value(_) => {
                assert(!spec_msg_args_ok(rest));
                return Err(DeriveError::MalformedMessageArgs { span });
            },
        }
        if i + 1 >= tokens.len() {
            assert(rest.len() == 1);
            assert(!spec_msg_args_ok(rest));
            return Err(DeriveError::MalformedMessageArgs { span });
        }
        match &tokens[i + 1] {
            AttrToken::Value(v) => {
                args.push(v.clone());
            },
            AttrToken::Comma => {
                assert(!spec_msg_args_ok(rest));
                return Err(DeriveError::MalformedMessageArgs { span });
            },
        }
        proof {
            assert(rest.skip(2) =~= tv.skip(i + 2));
            assert(spec_msg_args(rest) == seq![rest[1]->Value_0] + spec_msg_args(rest.skip(2)));
            assert(args@.map_values(|v: AttrValue| v@) =~= args@.take(args@.len() - 1).map_values(
                |v: AttrValue| v@,
            ) + seq![rest[1]->Value_0]);
        }
        i = i + 2;
    }
    proof {
        assert(tv.skip(i as int) =~= Seq::<SpecAttrToken>::empty());
        assert(spec_msg_args_ok(tv.skip(i as int)));
        assert(spec_msg_args(tv.skip(i as int)) =~= Seq::<SpecAttrValue>::empty());
        assert(spec_msg_args(tv.skip(1)) =~= args@.map_values(|v: AttrValue| v@));
    }
    Ok(MessageAttribute { format_string, format_string_arguments: args })
}

/// Whether an entry sets the message.
pub open spec fn spec_is_msg(e: SpecAttrEntry) -> bool {
    e.key == "msg"@
}

/// Whether an entry sets the exit code.
pub open spec fn spec_is_exit(e: SpecAttrEntry) -> bool {
    e.key == "exit_code"@
}

/// The diagnostic one entry produces, given whether an exit code or a
/// message was already seen in the same block: a key the mode forbids,
/// a repeated key, a malformed value, or an unrecognized key.
pub open spec fn spec_entry_error(
    e: SpecAttrEntry,
    seen_exit: bool,
    seen_msg: bool,
    config: ModeConfig,
) -> Option<DeriveError> {
    if spec_is_msg(e) {
        if !config.allow_msg {
            Some(DeriveError::ForbiddenKey { span: e.key_span, mode: config.mode })
        } else if seen_msg {
            Some(DeriveError::DuplicateKey { span: e.key_span })
        } else if spec_msg_of(e.tokens) is None {
            Some(DeriveError::MalformedMessageArgs { span: e.value_span })
        } else {
            None
        }
    } else if spec_is_exit(e) {
        if !config.allow_exit_code {
            Some(DeriveError::ForbiddenKey { span: e.key_span, mode: config.mode })
        } else if seen_exit {
            Some(DeriveError::DuplicateKey { span: e.key_span })
        } else if spec_exit_code_of(e.tokens) is None {
            Some(DeriveError::InvalidExitCode { span: e.value_span })
        } else {
            None
        }
    } else {
        Some(DeriveError::UnknownKey { span: e.key_span })
    }
}

/// The exit code set by the first `exit_code` entry of a list, if any.
pub open spec fn spec_exit_in(entries: Seq<SpecAttrEntry>) -> Option<ExitCodeAttribute>
    decreases entries.len(),
{
    if entries.len() == 0 {
        None
    } else {
        match spec_exit_in(entries.drop_last()) {
            Some(x) => Some(x),
            None => {
                if spec_is_exit(entries.last()) {
                    match spec_exit_code_of(entries.last().tokens) {
                        Some(v) => Some(ExitCodeAttribute { exit_code: v }),
                        None => None,
                    }
                } else {
                    None
                }
            },
        }
    }
}

/// The message set by the first `msg` entry of a list, if any.
pub open spec fn spec_msg_in(entries: Seq<SpecAttrEntry>) -> Option<SpecMessageAttribute>
    decreases entries.len(),
{
    if entries.len() == 0 {
        None
    } else {
        match spec_msg_in(entries.drop_last()) {
            Some(m) => Some(m),
            None => {
                if spec_is_msg(entries.last()) {
                    spec_msg_of(entries.last().tokens)
                } else {
                    None
                }
            },
        }
    }
}

/// The first diagnostic of an entry list, scanning in order.
pub open spec fn spec_entries_error(entries: Seq<SpecAttrEntry>, config: ModeConfig) -> Option<
    DeriveError,
>
    decreases entries.len(),
{
    if entries.len() == 0 {
        None
    } else {
        let prefix = entries.drop_last();
        match spec_entries_error(prefix, config) {
            Some(e) => Some(e),
            None => spec_entry_error(
                entries.last(),
                spec_exit_in(prefix) is Some,
                spec_msg_in(prefix) is Some,
                config,
            ),
        }
    }
}

/// The first diagnostic of a block list: the first block's entries in
/// order, then one more block is a duplicate.
pub open spec fn spec_blocks_error(blocks: Seq<SpecAttrBlock>, config: ModeConfig) -> Option<
    DeriveError,
> {
    if blocks.len() == 0 {
        None
    } else {
        match spec_entries_error(blocks[0].entries, config) {
            Some(e) => Some(e),
            None => {
                if blocks.len() > 1 {
                    Some(DeriveError::DuplicateBlock { span: blocks[1].span })
                } else {
                    None
                }
            },
        }
    }
}

/// The exit code a block list sets, if any.
pub open spec fn spec_blocks_exit(blocks: Seq<SpecAttrBlock>) -> Option<ExitCodeAttribute> {
    if blocks.len() > 0 {
        spec_exit_in(blocks[0].entries)
    } else {
        None
    }
}

/// The message a block list sets, if any.
pub open spec fn spec_blocks_msg(blocks: Seq<SpecAttrBlock>) -> Option<SpecMessageAttribute> {
    if blocks.len() > 0 {
        spec_msg_in(blocks[0].entries)
    } else {
        None
    }
}

/// Once an entry prefix carries a diagnostic, the whole list carries the
/// same one.
proof fn lemma_entries_error_persists(entries: Seq<SpecAttrEntry>, config: ModeConfig, j: int)
    requires
        0 <= j <= entries.len(),
        spec_entries_error(entries.take(j), config) is Some,
    ensures
        spec_entries_error(entries, config) == spec_entries_error(entries.take(j), config),
    decreases entries.len() - j,
{
    if j < entries.len() {
        assert(entries.take(j + 1).drop_last() =~= entries.take(j));
        assert(spec_entries_error(entries.take(j + 1), config) == spec_entries_error(
            entries.take(j),
            config,
        ));
        lemma_entries_error_persists(entries, config, j + 1);
    } else {
        assert(entries.take(j) =~= entries);
    }
}

/// Reads the annotation blocks of one variant or of the type: at most
/// one block, each recognized key at most once, each value well-formed,
/// and no key the mode forbids.
#[verifier::loop_isolation(false)]
pub fn parse_attributes(attributes: &Vec<AttrBlock>, config: &ModeConfig) -> (r: Result<
    (Option<ExitCodeAttribute>, Option<MessageAttribute>),
    DeriveError,
>)
    ensures
        r is Err <==> spec_blocks_error(views_of_blocks(attributes@), *config) is Some,
        r is Err ==> Some(r->Err_0) == spec_blocks_error(views_of_blocks(attributes@), *config),
        r is Ok ==> r->Ok_0.0 == spec_blocks_exit(views_of_blocks(attributes@)),
        r is Ok ==> opt_view(r->Ok_0.1) == spec_blocks_msg(views_of_blocks(attributes@)),
{
    let ghost bv = views_of_blocks(attributes@);
    proof {
        reveal_strlit("msg");
        reveal_strlit("exit_code");
        assert("msg"@.len() != "exit_code"@.len());
    }
    if attributes.len() == 0 {
        return Ok((None, None));
    }
    let block = &attributes[0];
    let ghost ev = block@.entries;
    proof {
        assert(bv[0] == block@);
    }
    let mut exit_code: Option<ExitCodeAttribute> = None;
    let mut message: Option<MessageAttribute> = None;
    let mut k: usize = 0;
    while k < block.entries.len()
        invariant
            k <= block.entries@.len(),
            spec_entries_error(ev.take(k as int), *config) is None,
            exit_code == spec_exit_in(ev.take(k as int)),
            opt_view(message) == spec_msg_in(ev.take(k as int)),
        decreases block.entries@.len() - k,
    {
        let entry = &block.entries[k];
        proof {
            assert(entry@ == ev[k as int]);
            assert(ev.take(k + 1 as int).drop_last() =~= ev.take(k as int));
            assert(ev.take(k + 1 as int).last() == ev[k as int]);
        }
        let ghost seen_exit = spec_exit_in(ev.take(k as int)) is Some;
        let ghost seen_msg = spec_msg_in(ev.take(k as int)) is Some;
        if str_eq(entry.key.as_str(), "msg") {
            if !config.allow_msg {
                let err = DeriveError::ForbiddenKey { span: entry.key_span, mode: config.mode };
                proof {
                    assert(spec_entries_error(ev.take(k + 1 as int), *config) == Some(err));
                    lemma_entries_error_persists(ev, *config, k + 1);
                }
                return Err(err);
            }
            if message.is_some() {
                let err = DeriveError::DuplicateKey { span: entry.key_span };
                proof {
                    assert(spec_entries_error(ev.take(k + 1 as int), *config) == Some(err));
                    lemma_entries_error_persists(ev, *config, k + 1);
                }
                return Err(err);
            }
            match parse_message(&entry.tokens, entry.value_span) {
                Ok(m) => {
                    proof {
                        assert(views_of_tokens(entry.tokens@) == entry@.tokens);
                    }
                    message = Some(m);
                },
                Err(e) => {
                    proof {
                        assert(views_of_tokens(entry.tokens@) == entry@.tokens);
                        assert(spec_entries_error(ev.take(k + 1 as int), *config) == Some(e));
                        lemma_entries_error_persists(ev, *config, k + 1);
                    }
                    return Err(e);
                },
            }
        } else if str_eq(entry.key.as_str(), "exit_code") {
            if !config.allow_exit_code {
                let err = DeriveError::ForbiddenKey { span: entry.key_span, mode: config.mode };
                proof {
                    assert(spec_entries_error(ev.take(k + 1 as int), *config) == Some(err));
                    lemma_entries_error_persists(ev, *config, k + 1);
                }
                return Err(err);
            }
            if exit_code.is_some() {
                let err = DeriveError::DuplicateKey { span: entry.key_span };
                proof {
                    assert(spec_entries_error(ev.take(k + 1 as int), *config) == Some(err));
                    lemma_entries_error_persists(ev, *config, k + 1);
                }
                return Err(err);
            }
            match parse_exit_code(&entry.tokens, entry.value_span) {
                Ok(x) => {
                    proof {
                        assert(views_of_tokens(entry.tokens@) == entry@.tokens);
                    }
                    exit_code = Some(x);
                },
                Err(e) => {
                    proof {
                        assert(views_of_tokens(entry.tokens@) == entry@.tokens);
                        assert(spec_entries_error(ev.take(k + 1 as int), *config) == Some(e));
                        lemma_entries_error_persists(ev, *config, k + 1);
                    }
                    return Err(e);
                },
            }
        } else {
            let err = DeriveError::UnknownKey { span: entry.key_span };
            proof {
                assert(spec_entries_error(ev.take(k + 1 as int), *config) == Some(err));
                lemma_entries_error_persists(ev, *config, k + 1);
            }
            return Err(err);
        }
        k = k + 1;
    }
    proof {
        assert(ev.take(ev.len() as int) =~= ev);
    }
    if attributes.len() > 1 {
        proof {
            assert(bv[1] == attributes@[1]@);
        }
        return Err(DeriveError::DuplicateBlock { span: attributes[1].span });
    }
    Ok((exit_code, message))
}

/// The first diagnostic among the variants' annotation blocks, in
/// declaration order.
pub open spec fn spec_variants_error(vs: Seq<SpecVariant>, config: ModeConfig) -> Option<
    DeriveError,
>
    decreases vs.len(),
{
    if vs.len() == 0 {
        None
    } else {
        match spec_variants_error(vs.drop_last(), config) {
            Some(e) => Some(e),
            None => spec_blocks_error(vs.last().blocks, config),
        }
    }
}

/// What the parsed attribute of one variant holds: the variant itself and
/// the settings its own annotation block carries.
pub open spec fn spec_parsed_matches(p: SpecParsedAttribute, v: SpecVariant) -> bool {
    &&& p.variant == v
    &&& p.exit_code == spec_blocks_exit(v.blocks)
    &&& p.message == spec_blocks_msg(v.blocks)
}

/// Once a variant prefix carries a diagnostic, the whole list carries the
/// same one.
proof fn lemma_variants_error_persists(vs: Seq<SpecVariant>, config: ModeConfig, j: int)
    requires
        0 <= j <= vs.len(),
        spec_variants_error(vs.take(j), config) is Some,
    ensures
        spec_variants_error(vs, config) == spec_variants_error(vs.take(j), config),
    decreases vs.len() - j,
{
    if j < vs.len() {
        assert(vs.take(j + 1).drop_last() =~= vs.take(j));
        lemma_variants_error_persists(vs, config, j + 1);
    } else {
        assert(vs.take(j) =~= vs);
    }
}

/// Parses the annotation block of every variant, in declaration order,
/// stopping at the first diagnostic.
#[verifier::loop_isolation(false)]
pub fn parse_helper_attributes(variants: &Vec<Variant>, config: &ModeConfig) -> (r: Result<
    Vec<ParsedAttribute>,
    DeriveError,
>)
    ensures
        r is Err <==> spec_variants_error(views_of_variants(variants@), *config) is Some,
        r is Err ==> Some(r->Err_0) == spec_variants_error(views_of_variants(variants@), *config),
        r is Ok ==> r->Ok_0@.len() == variants@.len(),
        r is Ok ==> forall|i: int|
            0 <= i < variants@.len() ==> spec_parsed_matches(
                (#[trigger] r->Ok_0@[i])@,
                variants@[i]@,
            ),
{
    let ghost vv = views_of_variants(variants@);
    let mut out: Vec<ParsedAttribute> = Vec::new();
    let mut i: usize = 0;
    while i < variants.len()
        invariant
            i <= variants@.len(),
            spec_variants_error(vv.take(i as int), *config) is None,
            out@.len() == i,
            forall|j: int| 0 <= j < i ==> spec_parsed_matches((#[trigger] out@[j])@, vv[j]),
        decreases variants@.len() - i,
    {
        let variant = &variants[i];
        proof {
            assert(variant@ == vv[i as int]);
            assert(vv.take(i + 1 as int).drop_last() =~= vv.take(i as int));
            assert(vv.take(i + 1 as int).last() == vv[i as int]);
        }
        match parse_attributes(&variant.blocks, config) {
            Ok((exit_code, message)) => {
                proof {
                    assert(views_of_blocks(variant.blocks@) == variant@.blocks);
                }
                out.push(ParsedAttribute { variant: variant.clone(), exit_code, message });
            },
            Err(e) => {
                proof {
                    assert(views_of_blocks(variant.blocks@) == variant@.blocks);
                    assert(spec_variants_error(vv.take(i + 1 as int), *config) == Some(e));
                    lemma_variants_error_persists(vv, *config, i + 1);
                }
                return Err(e);
            },
        }
        i = i + 1;
    }
    proof {
        assert(vv.take(vv.len() as int) =~= vv);
    }
    Ok(out)
}

/// The views of a conversion-entry list.
pub open spec fn views_of_from(s: Seq<FromAttribute>) -> Seq<SpecFromAttribute> {
    s.map_values(|a: FromAttribute| a@)
}

/// The type of the first conversion-marked ordered field, if any.
pub open spec fn spec_marked_ty_unnamed(fs: Seq<SpecUnnamedField>) -> Option<Seq<char>>
    decreases fs.len(),
{
    if fs.len() == 0 {
        None
    } else {
        match spec_marked_ty_unnamed(fs.drop_last()) {
            Some(t) => Some(t),
            None => {
                if fs.last().marked_from {
                    Some(fs.last().ty)
                } else {
                    None
                }
            },
        }
    }
}

/// The type of the first conversion-marked named field, if any.
pub open spec fn spec_marked_ty_named(fs: Seq<SpecNamedField>) -> Option<Seq<char>>
    decreases fs.len(),
{
    if fs.len() == 0 {
        None
    } else {
        match spec_marked_ty_named(fs.drop_last()) {
            Some(t) => Some(t),
            None => {
                if fs.last().marked_from {
                    Some(fs.last().ty)
                } else {
                    None
                }
            },
        }
    }
}

/// The conversion source type a variant declares: the type of its first
/// marked field.
pub open spec fn spec_from_type_of(v: SpecVariant) -> Option<Seq<char>> {
    match v.fields {
        SpecVariantFields::Unit => None,
        SpecVariantFields::Unnamed(fs) => spec_marked_ty_unnamed(fs),
        SpecVariantFields::Named(fs) => spec_marked_ty_named(fs),
    }
}

/// The diagnostic of one variant's conversion shape: a marker demands
/// exactly one field.
pub open spec fn spec_conv_shape_error_of(v: SpecVariant) -> Option<DeriveError> {
    if spec_from_type_of(v) is Some && spec_fields_len(v.fields) > 1 {
        Some(DeriveError::InvalidConversionShape { span: v.span })
    } else {
        None
    }
}

/// The first conversion-shape diagnostic among the variants.
pub open spec fn spec_conv_shape_error(vs: Seq<SpecVariant>) -> Option<DeriveError>
    decreases vs.len(),
{
    if vs.len() == 0 {
        None
    } else {
        match spec_conv_shape_error(vs.drop_last()) {
            Some(e) => Some(e),
            None => spec_conv_shape_error_of(vs.last()),
        }
    }
}

/// What the conversion entry of one variant holds.
pub open spec fn spec_from_matches(f: SpecFromAttribute, v: SpecVariant) -> bool {
    &&& f.variant == v
    &&& f.from_type == spec_from_type_of(v)
}

proof fn lemma_conv_shape_error_persists(vs: Seq<SpecVariant>, j: int)
    requires
        0 <= j <= vs.len(),
        spec_conv_shape_error(vs.take(j)) is Some,
    ensures
        spec_conv_shape_error(vs) == spec_conv_shape_error(vs.take(j)),
    decreases vs.len() - j,
{
    if j < vs.len() {
        assert(vs.take(j + 1).drop_last() =~= vs.take(j));
        lemma_conv_shape_error_persists(vs, j + 1);
    } else {
        assert(vs.take(j) =~= vs);
    }
}

proof fn lemma_marked_ty_unnamed_persists(fs: Seq<SpecUnnamedField>, j: int)
    requires
        0 <= j <= fs.len(),
        spec_marked_ty_unnamed(fs.take(j)) is Some,
    ensures
        spec_marked_ty_unnamed(fs) == spec_marked_ty_unnamed(fs.take(j)),
    decreases fs.len() - j,
{
    if j < fs.len() {
        assert(fs.take(j + 1).drop_last() =~= fs.take(j));
        lemma_marked_ty_unnamed_persists(fs, j + 1);
    } else {
        assert(fs.take(j) =~= fs);
    }
}

proof fn lemma_marked_ty_named_persists(fs: Seq<SpecNamedField>, j: int)
    requires
        0 <= j <= fs.len(),
        spec_marked_ty_named(fs.take(j)) is Some,
    ensures
        spec_marked_ty_named(fs) == spec_marked_ty_named(fs.take(j)),
    decreases fs.len() - j,
{
    if j < fs.len() {
        assert(fs.take(j + 1).drop_last() =~= fs.take(j));
        lemma_marked_ty_named_persists(fs, j + 1);
    } else {
        assert(fs.take(j) =~= fs);
    }
}

/// Finds the first conversion-marked ordered field's type.
#[verifier::loop_isolation(false)]
fn find_marked_unnamed(fs: &Vec<UnnamedField>) -> (r: Option<String>)
    ensures
        opt_view(r) == spec_marked_ty_unnamed(views_of_unnamed(fs@)),
{
    let ghost fv = views_of_unnamed(fs@);
    let mut j: usize = 0;
    while j < fs.len()
        invariant
            j <= fs@.len(),
            spec_marked_ty_unnamed(fv.take(j as int)) is None,
        decreases fs@.len() - j,
    {
        proof {
            assert(fs@[j as int]@ == fv[j as int]);
            assert(fv.take(j + 1 as int).drop_last() =~= fv.take(j as int));
            assert(fv.take(j + 1 as int).last() == fv[j as int]);
        }
        if fs[j].marked_from {
            let t = fs[j].ty.clone();
            proof {
                assert(spec_marked_ty_unnamed(fv.take(j + 1 as int)) == Some(fv[j as int].ty));
                lemma_marked_ty_unnamed_persists(fv, j + 1);
            }
            return Some(t);
        }
        j = j + 1;
    }
    proof {
        assert(fv.take(fv.len() as int) =~= fv);
    }
    None
}

/// Finds the first conversion-marked named field's type.
#[verifier::loop_isolation(false)]
fn find_marked_named(fs: &Vec<NamedField>) -> (r: Option<String>)
    ensures
        opt_view(r) == spec_marked_ty_named(views_of_named(fs@)),
{
    let ghost fv = views_of_named(fs@);
    let mut j: usize = 0;
    while j < fs.len()
        invariant
            j <= fs@.len(),
            spec_marked_ty_named(fv.take(j as int)) is None,
        decreases fs@.len() - j,
    {
        proof {
            assert(fs@[j as int]@ == fv[j as int]);
            assert(fv.take(j + 1 as int).drop_last() =~= fv.take(j as int));
            assert(fv.take(j + 1 as int).last() == fv[j as int]);
        }
        if fs[j].marked_from {
            let t = fs[j].ty.clone();
            proof {
                assert(spec_marked_ty_named(fv.take(j + 1 as int)) == Some(fv[j as int].ty));
                lemma_marked_ty_named_persists(fv, j + 1);
            }
            return Some(t);
        }
        j = j + 1;
    }
    proof {
        assert(fv.take(fv.len() as int) =~= fv);
    }
    None
}

/// Collects each variant's conversion entry: the type of its single
/// marked field, or nothing. A marker on a variant with more than one
/// field is rejected.
#[verifier::loop_isolation(false)]
pub fn parse_from_attribute(variants: &Vec<Variant>) -> (r: Result<Vec<FromAttribute>, DeriveError>)
    ensures
        r is Err <==> spec_conv_shape_error(views_of_variants(variants@)) is Some,
        r is Err ==> Some(r->Err_0) == spec_conv_shape_error(views_of_variants(variants@)),
        r is Ok ==> r->Ok_0@.len() == variants@.len(),
        r is Ok ==> forall|i: int|
            0 <= i < variants@.len() ==> spec_from_matches((#[trigger] r->Ok_0@[i])@, variants@[i]@),
{
    let ghost vv = views_of_variants(variants@);
    let mut out: Vec<FromAttribute> = Vec::new();
    let mut i: usize = 0;
    while i < variants.len()
        invariant
            i <= variants@.len(),
            spec_conv_shape_error(vv.take(i as int)) is None,
            out@.len() == i,
            forall|j: int| 0 <= j < i ==> spec_from_matches((#[trigger] out@[j])@, vv[j]),
        decreases variants@.len() - i,
    {
        let variant = &variants[i];
        proof {
            assert(variant@ == vv[i as int]);
            assert(vv.take(i + 1 as int).drop_last() =~= vv.take(i as int));
            assert(vv.take(i + 1 as int).last() == vv[i as int]);
        }
        let (from_type, n_fields): (Option<String>, usize) = match &variant.fields {
            VariantFields::Unit => (None, 0),
            VariantFields::Unnamed(fs) => (find_marked_unnamed(fs), fs.len()),
            VariantFields::Named(fs) => (find_marked_named(fs), fs.len()),
        };
        proof {
            assert(opt_view(from_type) == spec_from_type_of(vv[i as int]));
            assert(n_fields == spec_fields_len(vv[i as int].fields));
        }
        if from_type.is_some() && n_fields > 1 {
            let err = DeriveError::InvalidConversionShape { span: variant.span };
            proof {
                assert(spec_conv_shape_error(vv.take(i + 1 as int)) == Some(err));
                lemma_conv_shape_error_persists(vv, i + 1);
            }
            return Err(err);
        }
        out.push(FromAttribute { variant: variant.clone(), from_type });
        i = i + 1;
    }
    proof {
        assert(vv.take(vv.len() as int) =~= vv);
    }
    Ok(out)
}

/// Two conversion entries collide: both declare a source type and it is
/// the same.
pub open spec fn spec_conflict(s: Seq<SpecFromAttribute>, i: int, j: int) -> bool {
    0 <= i < j < s.len() && s[i].from_type is Some && s[i].from_type == s[j].from_type
}

/// The first index declaring a conversion from `ty`, or the list length.
pub open spec fn spec_first_ty_idx(s: Seq<SpecFromAttribute>, ty: Seq<char>) -> int
    decreases s.len(),
{
    if s.len() == 0 {
        0
    } else {
        let p = spec_first_ty_idx(s.drop_last(), ty);
        if p < s.len() - 1 {
            p
        } else if s.last().from_type == Some(ty) {
            s.len() - 1
        } else {
            s.len() as int
        }
    }
}

proof fn lemma_first_ty_idx(s: Seq<SpecFromAttribute>, ty: Seq<char>)
    ensures
        0 <= spec_first_ty_idx(s, ty) <= s.len(),
        spec_first_ty_idx(s, ty) < s.len() ==> s[spec_first_ty_idx(s, ty)].from_type == Some(ty),
        forall|i: int|
            0 <= i < spec_first_ty_idx(s, ty) ==> (#[trigger] s[i]).from_type != Some(ty),
    decreases s.len(),
{
    if s.len() > 0 {
        lemma_first_ty_idx(s.drop_last(), ty);
        assert forall|i: int|
            0 <= i < spec_first_ty_idx(s, ty) implies (#[trigger] s[i]).from_type != Some(ty) by {
            if i < s.len() - 1 {
                assert(s.drop_last()[i] == s[i]);
            }
        }
    }
}

/// The first collision among the conversion entries: the second entry of
/// the earliest colliding pair, paired with the first entry converting
/// from the same type.
pub open spec fn spec_unique_error(s: Seq<SpecFromAttribute>) -> Option<DeriveError>
    decreases s.len(),
{
    if s.len() == 0 {
        None
    } else {
        let prefix = s.drop_last();
        match spec_unique_error(prefix) {
            Some(e) => Some(e),
            None => {
                match s.last().from_type {
                    Some(ty) => {
                        let p = spec_first_ty_idx(prefix, ty);
                        if p < prefix.len() {
                            Some(
                                DeriveError::AmbiguousConversion {
                                    first_span: prefix[p].variant.span,
                                    second_span: s.last().variant.span,
                                },
                            )
                        } else {
                            None
                        }
                    },
                    None => None,
                }
            },
        }
    }
}

proof fn lemma_unique_error_persists(s: Seq<SpecFromAttribute>, j: int)
    requires
        0 <= j <= s.len(),
        spec_unique_error(s.take(j)) is Some,
    ensures
        spec_unique_error(s) == spec_unique_error(s.take(j)),
    decreases s.len() - j,
{
    if j < s.len() {
        assert(s.take(j + 1).drop_last() =~= s.take(j));
        lemma_unique_error_persists(s, j + 1);
    } else {
        assert(s.take(j) =~= s);
    }
}

/// Validation succeeds exactly when no two entries convert from the same
/// source type.
pub proof fn lemma_unique_error_iff(s: Seq<SpecFromAttribute>)
    ensures
        spec_unique_error(s) is None <==> (forall|i: int, j: int| !spec_conflict(s, i, j)),
    decreases s.len(),
{
    if s.len() > 0 {
        let prefix = s.drop_last();
        lemma_unique_error_iff(prefix);
        if spec_unique_error(prefix) is Some {
            let (i, j) = choose|i: int, j: int| spec_conflict(prefix, i, j);
            assert(spec_conflict(s, i, j));
        } else {
            assert(forall|i: int, j: int| !spec_conflict(prefix, i, j));
            match s.last().from_type {
                Some(ty) => {
                    lemma_first_ty_idx(prefix, ty);
                    let p = spec_first_ty_idx(prefix, ty);
                    if p < prefix.len() {
                        assert(spec_conflict(s, p, s.len() - 1));
                    } else {
                        assert forall|i: int, j: int| !spec_conflict(s, i, j) by {
                            if spec_conflict(s, i, j) {
                                if j < s.len() - 1 {
                                    assert(prefix[i] == s[i] && prefix[j] == s[j]);
                                    assert(spec_conflict(prefix, i, j));
                                } else {
                                    assert(s[i].from_type == Some(ty));
                                    assert(prefix[i] == s[i]);
                                }
                            }
                        }
                    }
                },
                None => {
                    assert forall|i: int, j: int| !spec_conflict(s, i, j) by {
                        if spec_conflict(s, i, j) {
                            if j < s.len() - 1 {
                                assert(prefix[i] == s[i] && prefix[j] == s[j]);
                                assert(spec_conflict(prefix, i, j));
                            }
                        }
                    }
                },
            }
        }
    }
}

/// Enforces that conversion source types are unique across all variants:
/// succeeds exactly when all declared source types are pairwise distinct,
/// else names the first colliding pair.
#[verifier::loop_isolation(false)]
pub fn check_for_unique_types(attributes: &Vec<FromAttribute>) -> (r: Result<(), DeriveError>)
    ensures
        r is Ok <==> spec_unique_error(views_of_from(attributes@)) is None,
        r is Ok <==> (forall|i: int, j: int| !spec_conflict(views_of_from(attributes@), i, j)),
        r is Err ==> Some(r->Err_0) == spec_unique_error(views_of_from(attributes@)),
{
    let ghost sv = views_of_from(attributes@);
    proof {
        lemma_unique_error_iff(sv);
    }
    let mut j: usize = 0;
    while j < attributes.len()
        invariant
            j <= attributes@.len(),
            spec_unique_error(sv.take(j as int)) is None,
        decreases attributes@.len() - j,
    {
        proof {
            assert(attributes@[j as int]@ == sv[j as int]);
            assert(sv.take(j + 1 as int).drop_last() =~= sv.take(j as int));
            assert(sv.take(j + 1 as int).last() == sv[j as int]);
        }
        match &attributes[j].from_type {
            None => {},
            Some(ty) => {
                let ghost tyv = ty@;
                let mut i: usize = 0;
                while i < j
                    invariant
                        i <= j,
                        forall|t: int|
                            0 <= t < i ==> (#[trigger] sv.take(j as int)[t]).from_type != Some(tyv),
                    decreases j - i,
                {
                    proof {
                        assert(attributes@[i as int]@ == sv[i as int]);
                    }
                    match &attributes[i].from_type {
                        Some(ti) => {
                            if str_eq(ti.as_str(), ty.as_str()) {
                                let err = DeriveError::AmbiguousConversion {
                                    first_span: attributes[i].variant.span,
                                    second_span: attributes[j].variant.span,
                                };
                                proof {
                                    lemma_first_ty_idx(sv.take(j as int), tyv);
                                    let p = spec_first_ty_idx(sv.take(j as int), tyv);
                                    assert(sv.take(j as int)[i as int].from_type == Some(tyv));
                                    assert(p == i as int);
                                    assert(spec_unique_error(sv.take(j + 1 as int)) == Some(err));
                                    lemma_unique_error_persists(sv, j + 1);
                                }
                                return Err(err);
                            }
                        },
                        None => {},
                    }
                    i = i + 1;
                }
                proof {
                    lemma_first_ty_idx(sv.take(j as int), tyv);
                    let p = spec_first_ty_idx(sv.take(j as int), tyv);
                    if p < j as int {
                        assert(sv.take(j as int)[p].from_type == Some(tyv));
                    }
                    assert(p == j as int);
                }
            },
        }
        j = j + 1;
    }
    proof {
        assert(sv.take(sv.len() as int) =~= sv);
    }
    Ok(())
}

impl From<(Option<ExitCodeAttribute>, Option<MessageAttribute>)> for Defaults {
    fn from(value: (Option<ExitCodeAttribute>, Option<MessageAttribute>)) -> Self {
        Self { exit_code: value.0, message: value.1 }
    }
}

impl vstd::std_specs::convert::FromSpecImpl<(Option<ExitCodeAttribute>, Option<MessageAttribute>)> for Defaults {
    open spec fn obeys_from_spec() -> bool {
        true
    }

    open spec fn from_spec(value: (Option<ExitCodeAttribute>, Option<MessageAttribute>)) -> Self {
        Defaults { exit_code: value.0, message: value.1 }
    }
}

} // verus!
