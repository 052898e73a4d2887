//! End-to-end behavior of the three derive modes on concrete type
//! descriptions, checked by rendering the generated arms with concrete
//! field values.

use thistermination::{
    derive_termination, derive_termination_full, derive_termination_no_debug, AttrBlock, AttrEntry,
    AttrToken, AttrValue, DeriveData, DeriveInput, GeneratedCode, MessageArm, MessageBody,
    NamedField, UnnamedField, Variant, VariantFields,
};

fn entry(key: &str, span: u32, tokens: Vec<AttrToken>) -> AttrEntry {
    AttrEntry { key: key.to_string(), key_span: span, value_span: span + 1, tokens }
}

fn exit_entry(span: u32, digits: &str) -> AttrEntry {
    entry(
        "exit_code",
        span,
        vec![AttrToken::Value(AttrValue::Int(digits.to_string()))],
    )
}

fn msg_entry(span: u32, template: &str, args: Vec<AttrValue>) -> AttrEntry {
    let mut tokens = vec![AttrToken::Value(AttrValue::Str(template.to_string()))];
    for a in args {
        tokens.push(AttrToken::Comma);
        tokens.push(AttrToken::Value(a));
    }
    entry("msg", span, tokens)
}

fn block(span: u32, entries: Vec<AttrEntry>) -> AttrBlock {
    AttrBlock { span, entries }
}

fn unit_variant(name: &str, span: u32, blocks: Vec<AttrBlock>) -> Variant {
    Variant { ident: name.to_string(), span, fields: VariantFields::Unit, blocks }
}

fn unnamed_variant(name: &str, span: u32, tys: &[&str], blocks: Vec<AttrBlock>) -> Variant {
    let fields = tys
        .iter()
        .map(|t| UnnamedField { ty: t.to_string(), marked_from: false })
        .collect();
    Variant { ident: name.to_string(), span, fields: VariantFields::Unnamed(fields), blocks }
}

fn from_unnamed_variant(name: &str, span: u32, ty: &str, blocks: Vec<AttrBlock>) -> Variant {
    let fields = vec![UnnamedField { ty: ty.to_string(), marked_from: true }];
    Variant { ident: name.to_string(), span, fields: VariantFields::Unnamed(fields), blocks }
}

fn named_variant(name: &str, span: u32, fields: &[(&str, &str)], blocks: Vec<AttrBlock>) -> Variant {
    let fields = fields
        .iter()
        .map(|(n, t)| NamedField { name: n.to_string(), ty: t.to_string(), marked_from: false })
        .collect();
    Variant { ident: name.to_string(), span, fields: VariantFields::Named(fields), blocks }
}

fn from_named_variant(name: &str, span: u32, field: &str, ty: &str, blocks: Vec<AttrBlock>) -> Variant {
    let fields = vec![NamedField { name: field.to_string(), ty: ty.to_string(), marked_from: true }];
    Variant { ident: name.to_string(), span, fields: VariantFields::Named(fields), blocks }
}

fn enum_input(name: &str, blocks: Vec<AttrBlock>, variants: Vec<Variant>) -> DeriveInput {
    DeriveInput { ident: name.to_string(), span: 0, blocks, data: DeriveData::Enum(variants) }
}

/// Renders a template the way the emitted formatter would: an empty
/// reference `{}` or `{:spec}` consumes the next supplied argument, a
/// named reference `{name}` or `{name:spec}` reads the bound field.
fn render(template: &str, env: &[(&str, &str)], args: &[String]) -> String {
    let mut out = String::new();
    let mut chars = template.chars();
    let mut next_arg: usize = 0;
    while let Some(c) = chars.next() {
        if c == '{' {
            let mut name = String::new();
            let mut in_spec = false;
            for d in chars.by_ref() {
                if d == '}' {
                    break;
                }
                if d == ':' {
                    in_spec = true;
                    continue;
                }
                if !in_spec {
                    name.push(d);
                }
            }
            if name.is_empty() {
                out.push_str(&args[next_arg]);
                next_arg += 1;
            } else {
                let val = env
                    .iter()
                    .find(|(k, _)| *k == name)
                    .map(|(_, v)| *v)
                    .unwrap();
                out.push_str(val);
            }
        } else {
            out.push(c);
        }
    }
    out
}

fn arg_texts(arm: &MessageArm) -> Vec<String> {
    let m = match &arm.body {
        MessageBody::Template(m) => m,
        MessageBody::DelegateDisplay => panic!("arm delegates to the human-readable formatter"),
    };
    m.format_string_arguments
        .iter()
        .map(|a| match a {
            AttrValue::Str(s) => s.clone(),
            AttrValue::Int(s) => s.clone(),
            AttrValue::Expr(s) => s.clone(),
        })
        .collect()
}

fn render_arm(arm: &MessageArm, env: &[(&str, &str)]) -> String {
    let m = match &arm.body {
        MessageBody::Template(m) => m,
        MessageBody::DelegateDisplay => panic!("arm delegates to the human-readable formatter"),
    };
    render(&m.format_string, env, &arg_texts(arm))
}

/// The type used by the default-behavior tests: type-level defaults
/// `exit_code(6), msg("test123 {}", 17)`, a unit variant overriding the
/// exit code, an ordered variant overriding the message, and a named
/// variant overriding nothing.
fn default_behavior_input() -> DeriveInput {
    enum_input(
        "Test",
        vec![block(1, vec![exit_entry(2, "6"), msg_entry(3, "test123 {}", vec![AttrValue::Int("17".to_string())])])],
        vec![
            unit_variant("UnitA", 10, vec![block(11, vec![exit_entry(12, "7")])]),
            unnamed_variant("UnnamedA", 20, &["u8"], vec![block(21, vec![msg_entry(22, "test", vec![])])]),
            named_variant("NamedA", 30, &[("x", "u32")], vec![]),
        ],
    )
}

fn full_ok(input: &DeriveInput) -> GeneratedCode {
    derive_termination_full(input).expect("generation should succeed")
}

#[test]
fn default_behavior_test_unit_default() {
    let g = full_ok(&default_behavior_input());
    let debug = g.debug_impl.as_ref().unwrap();
    let display = g.display_impl.as_ref().unwrap();
    assert_eq!(render_arm(&debug.arms[0], &[]), "test123 17");
    assert_eq!(render_arm(&display.arms[0], &[]), "test123 17");
    assert_eq!(g.termination_impl.arms[0].exit_code, 7);
}

#[test]
fn default_behavior_test_unnamed_default() {
    let g = full_ok(&default_behavior_input());
    let debug = g.debug_impl.as_ref().unwrap();
    let display = g.display_impl.as_ref().unwrap();
    assert_eq!(render_arm(&debug.arms[1], &[("__0", "42")]), "test");
    assert_eq!(render_arm(&display.arms[1], &[("__0", "42")]), "test");
    assert_eq!(g.termination_impl.arms[1].exit_code, 6);
}

#[test]
fn default_behavior_test_named_default() {
    let g = full_ok(&default_behavior_input());
    let debug = g.debug_impl.as_ref().unwrap();
    assert_eq!(render_arm(&debug.arms[2], &[("x", "1337")]), "test123 17");
    assert_eq!(g.termination_impl.arms[2].exit_code, 6);
}

/// The type used by the fields tests: per-variant messages referencing
/// the variant's own fields positionally or by name.
fn fields_input() -> DeriveInput {
    enum_input(
        "Test",
        vec![],
        vec![
            unnamed_variant("UnnamedA", 1, &["u8"], vec![block(2, vec![exit_entry(3, "3"), msg_entry(4, "unnamedA {0}", vec![])])]),
            unnamed_variant("UnnamedB", 5, &["u8", "i32"], vec![block(6, vec![exit_entry(7, "3"), msg_entry(8, "unnamedB {0} {1}", vec![])])]),
            named_variant("NamedA", 9, &[("x", "u32")], vec![block(10, vec![exit_entry(11, "4"), msg_entry(12, "namedA {x}", vec![])])]),
            named_variant("NamedB", 13, &[("x", "u32"), ("y", "u8")], vec![block(14, vec![exit_entry(15, "4"), msg_entry(16, "namedB {x} {y}", vec![])])]),
        ],
    )
}

#[test]
fn unnamed_field_args() {
    let g = derive_termination(&fields_input()).expect("generation should succeed");
    let debug = g.debug_impl.as_ref().unwrap();
    assert_eq!(render_arm(&debug.arms[0], &[("__0", "42")]), "unnamedA 42");
    assert_eq!(g.termination_impl.arms[0].exit_code, 3);
    assert_eq!(render_arm(&debug.arms[1], &[("__0", "42"), ("__1", "55")]), "unnamedB 42 55");
    assert_eq!(g.termination_impl.arms[1].exit_code, 3);
}

#[test]
fn named_field_args() {
    let g = derive_termination(&fields_input()).expect("generation should succeed");
    let debug = g.debug_impl.as_ref().unwrap();
    assert_eq!(render_arm(&debug.arms[2], &[("x", "1337")]), "namedA 1337");
    assert_eq!(g.termination_impl.arms[2].exit_code, 4);
    assert_eq!(render_arm(&debug.arms[3], &[("x", "1337"), ("y", "33")]), "namedB 1337 33");
    assert_eq!(g.termination_impl.arms[3].exit_code, 4);
}

/// Messages whose references are all empty, every value supplied.
fn format_args_input() -> DeriveInput {
    enum_input(
        "TestNoArgs",
        vec![],
        vec![
            unit_variant("UnitA", 1, vec![block(2, vec![exit_entry(3, "2"), msg_entry(4, "unit {}", vec![AttrValue::Str("test".to_string())])])]),
            unnamed_variant("UnnamedA", 5, &["u8"], vec![block(6, vec![exit_entry(7, "3"), msg_entry(8, "unnamed {}", vec![AttrValue::Int("69".to_string())])])]),
            named_variant("NamedA", 9, &[("x", "u32")], vec![block(10, vec![exit_entry(11, "4"), msg_entry(12, "named {} {}", vec![AttrValue::Str("asdf".to_string()), AttrValue::Int("5".to_string())])])]),
        ],
    )
}

#[test]
fn format_args_test_unit_no_args() {
    let g = derive_termination(&format_args_input()).expect("generation should succeed");
    let debug = g.debug_impl.as_ref().unwrap();
    assert_eq!(render_arm(&debug.arms[0], &[]), "unit test");
    assert_eq!(g.termination_impl.arms[0].exit_code, 2);
}

#[test]
fn format_args_test_unnamed_no_args() {
    let g = derive_termination(&format_args_input()).expect("generation should succeed");
    let debug = g.debug_impl.as_ref().unwrap();
    assert_eq!(render_arm(&debug.arms[1], &[("__0", "42")]), "unnamed 69");
    assert_eq!(g.termination_impl.arms[1].exit_code, 3);
}

#[test]
fn format_args_test_named_no_args() {
    let g = derive_termination(&format_args_input()).expect("generation should succeed");
    let debug = g.debug_impl.as_ref().unwrap();
    assert_eq!(render_arm(&debug.arms[2], &[("x", "1337")]), "named asdf 5");
    assert_eq!(g.termination_impl.arms[2].exit_code, 4);
}

/// The full-mode type with conversions from external error types.
fn full_input() -> DeriveInput {
    enum_input(
        "Test",
        vec![],
        vec![
            unit_variant("UnitA", 1, vec![block(2, vec![msg_entry(3, "unit a", vec![])])]),
            unnamed_variant("UnnamedA", 4, &["u8"], vec![block(5, vec![exit_entry(6, "3"), msg_entry(7, "unnamed {0:?} {}", vec![AttrValue::Int("69".to_string())])])]),
            from_unnamed_variant("UnnamedB", 8, "ParseIntError", vec![block(9, vec![exit_entry(10, "3"), msg_entry(11, "Error: {0}", vec![])])]),
            from_named_variant("NamedA", 12, "err", "ParseBoolError", vec![block(13, vec![exit_entry(14, "4"), msg_entry(15, "Error: {err}", vec![])])]),
            named_variant("NamedB", 16, &[("x", "u32"), ("y", "u8")], vec![block(17, vec![msg_entry(18, "named {} {y:?} {x}", vec![AttrValue::Str("asdf".to_string())])])]),
        ],
    )
}

#[test]
fn unit_full() {
    let g = full_ok(&full_input());
    let debug = g.debug_impl.as_ref().unwrap();
    let display = g.display_impl.as_ref().unwrap();
    assert_eq!(render_arm(&debug.arms[0], &[]), "unit a");
    assert_eq!(render_arm(&display.arms[0], &[]), "unit a");
    assert_eq!(g.termination_impl.arms[0].exit_code, 1);
    assert!(g.error_impl.is_some());
}

#[test]
fn unnamed_full() {
    let g = full_ok(&full_input());
    let debug = g.debug_impl.as_ref().unwrap();
    let display = g.display_impl.as_ref().unwrap();
    assert_eq!(render_arm(&debug.arms[1], &[("__0", "42")]), "unnamed 42 69");
    assert_eq!(render_arm(&display.arms[1], &[("__0", "42")]), "unnamed 42 69");
    assert_eq!(g.termination_impl.arms[1].exit_code, 3);
    let int_error = "abc".parse::<u32>().unwrap_err();
    let rendered = render_arm(&debug.arms[2], &[("__0", &format!("{}", int_error))]);
    assert_eq!(rendered, "Error: invalid digit found in string");
    assert_eq!(g.termination_impl.arms[2].exit_code, 3);
    let from = g.from_impls.as_ref().unwrap();
    assert_eq!(from.impls[0].variant, "UnnamedB");
    assert_eq!(from.impls[0].source_type, "ParseIntError");
    assert!(from.impls[0].field_name.is_none());
}

#[test]
fn named_full() {
    let g = full_ok(&full_input());
    let debug = g.debug_impl.as_ref().unwrap();
    let bool_error = "abc".parse::<bool>().unwrap_err();
    let rendered = render_arm(&debug.arms[3], &[("err", &format!("{}", bool_error))]);
    assert_eq!(rendered, "Error: provided string was not `true` or `false`");
    assert_eq!(g.termination_impl.arms[3].exit_code, 4);
    assert_eq!(render_arm(&debug.arms[4], &[("x", "2"), ("y", "99")]), "named asdf 99 2");
    assert_eq!(g.termination_impl.arms[4].exit_code, 1);
    let from = g.from_impls.as_ref().unwrap();
    assert_eq!(from.impls.len(), 2);
    assert_eq!(from.impls[1].variant, "NamedA");
    assert_eq!(from.impls[1].source_type, "ParseBoolError");
    assert_eq!(from.impls[1].field_name.as_deref(), Some("err"));
}

/// Messages mixing positional field references with supplied values.
fn mixed_args_input() -> DeriveInput {
    enum_input(
        "Test",
        vec![],
        vec![
            unnamed_variant("UnnamedA", 1, &["u8"], vec![block(2, vec![exit_entry(3, "3"), msg_entry(4, "unnamed {0:?} {}", vec![AttrValue::Int("69".to_string())])])]),
            unnamed_variant("UnnamedB", 5, &["u8", "i32"], vec![block(6, vec![exit_entry(7, "3"), msg_entry(8, "unnamed {0} {:?} {1}", vec![AttrValue::Int("69".to_string())])])]),
            named_variant("NamedA", 9, &[("x", "u32")], vec![block(10, vec![exit_entry(11, "4"), msg_entry(12, "named {} {x}", vec![AttrValue::Str("asdf".to_string())])])]),
            named_variant("NamedB", 13, &[("x", "u32"), ("y", "u8")], vec![block(14, vec![exit_entry(15, "4"), msg_entry(16, "named {} {y:?} {x}", vec![AttrValue::Str("asdf".to_string())])])]),
        ],
    )
}

#[test]
fn unnamed_mixed_args() {
    let g = derive_termination(&mixed_args_input()).expect("generation should succeed");
    let debug = g.debug_impl.as_ref().unwrap();
    assert_eq!(render_arm(&debug.arms[0], &[("__0", "42")]), "unnamed 42 69");
    assert_eq!(g.termination_impl.arms[0].exit_code, 3);
    assert_eq!(render_arm(&debug.arms[1], &[("__0", "42"), ("__1", "7")]), "unnamed 42 69 7");
    assert_eq!(g.termination_impl.arms[1].exit_code, 3);
}

#[test]
fn named_mixed_args() {
    let g = derive_termination(&mixed_args_input()).expect("generation should succeed");
    let debug = g.debug_impl.as_ref().unwrap();
    assert_eq!(render_arm(&debug.arms[2], &[("x", "1337")]), "named asdf 1337");
    assert_eq!(g.termination_impl.arms[2].exit_code, 4);
    assert_eq!(render_arm(&debug.arms[3], &[("x", "2"), ("y", "99")]), "named asdf 99 2");
    assert_eq!(g.termination_impl.arms[3].exit_code, 4);
}

/// Variants whose messages carry no references at all, including an
/// ordered variant with zero fields.
fn no_args_input() -> DeriveInput {
    enum_input(
        "Test",
        vec![],
        vec![
            unit_variant("UnitA", 1, vec![block(2, vec![exit_entry(3, "1"), msg_entry(4, "unit a", vec![])])]),
            unnamed_variant("UnitB", 5, &[], vec![block(6, vec![exit_entry(7, "2"), msg_entry(8, "unit b", vec![])])]),
            unnamed_variant("UnnamedA", 9, &["u8"], vec![block(10, vec![exit_entry(11, "3"), msg_entry(12, "unnamed a", vec![])])]),
            named_variant("NamedA", 13, &[("x", "u32")], vec![block(14, vec![exit_entry(15, "4"), msg_entry(16, "named a", vec![])])]),
        ],
    )
}

#[test]
fn no_args_test_unit_no_args() {
    let g = derive_termination(&no_args_input()).expect("generation should succeed");
    let debug = g.debug_impl.as_ref().unwrap();
    assert_eq!(render_arm(&debug.arms[0], &[]), "unit a");
    assert_eq!(render_arm(&debug.arms[1], &[]), "unit b");
    assert_eq!(g.termination_impl.arms[0].exit_code, 1);
    assert_eq!(g.termination_impl.arms[1].exit_code, 2);
}

#[test]
fn no_args_test_unnamed_no_args() {
    let g = derive_termination(&no_args_input()).expect("generation should succeed");
    let debug = g.debug_impl.as_ref().unwrap();
    assert_eq!(render_arm(&debug.arms[2], &[("__0", "42")]), "unnamed a");
    assert_eq!(g.termination_impl.arms[2].exit_code, 3);
}

#[test]
fn no_args_test_named_no_args() {
    let g = derive_termination(&no_args_input()).expect("generation should succeed");
    let debug = g.debug_impl.as_ref().unwrap();
    assert_eq!(render_arm(&debug.arms[3], &[("x", "1337")]), "named a");
    assert_eq!(g.termination_impl.arms[3].exit_code, 4);
}

/// The exit-reporter-only mode: no formatter is generated and variants
/// may carry no annotation at all.
fn no_debug_input() -> DeriveInput {
    enum_input(
        "Test",
        vec![],
        vec![
            unit_variant("UnitA", 1, vec![]),
            unit_variant("UnitB", 2, vec![block(3, vec![exit_entry(4, "7")])]),
            unnamed_variant("UnnamedA", 5, &["u8"], vec![]),
            named_variant("NamedA", 6, &[("x", "u32")], vec![block(7, vec![exit_entry(8, "5")])]),
        ],
    )
}

#[test]
fn no_debug_test_unit_default() {
    let g = derive_termination_no_debug(&no_debug_input()).expect("generation should succeed");
    assert!(g.debug_impl.is_none());
    assert!(g.display_impl.is_none());
    assert_eq!(g.termination_impl.arms[0].exit_code, 1);
    assert_eq!(g.termination_impl.arms[1].exit_code, 7);
}

#[test]
fn no_debug_test_unnamed_default() {
    let g = derive_termination_no_debug(&no_debug_input()).expect("generation should succeed");
    assert_eq!(g.termination_impl.arms[2].exit_code, 1);
}

#[test]
fn no_debug_test_named_default() {
    let g = derive_termination_no_debug(&no_debug_input()).expect("generation should succeed");
    assert_eq!(g.termination_impl.arms[3].exit_code, 5);
}

/// The structured-formatter mode beside an external human-readable
/// formatter: variants without a message delegate to it.
fn delegating_input() -> DeriveInput {
    enum_input(
        "Test",
        vec![],
        vec![
            unit_variant("UnitA", 1, vec![]),
            unnamed_variant("UnitB", 2, &[], vec![]),
            unit_variant("UnitC", 3, vec![block(4, vec![exit_entry(5, "7")])]),
            unit_variant("UnitD", 6, vec![block(7, vec![msg_entry(8, "test", vec![])])]),
            unnamed_variant("UnnamedA", 9, &["u8"], vec![]),
            named_variant("NamedA", 10, &[("x", "u32")], vec![]),
        ],
    )
}

#[test]
fn thiserror_test_unit_default() {
    let g = derive_termination(&delegating_input()).expect("generation should succeed");
    let debug = g.debug_impl.as_ref().unwrap();
    assert!(matches!(debug.arms[0].body, MessageBody::DelegateDisplay));
    assert!(matches!(debug.arms[1].body, MessageBody::DelegateDisplay));
    assert!(matches!(debug.arms[2].body, MessageBody::DelegateDisplay));
    assert_eq!(render_arm(&debug.arms[3], &[]), "test");
    assert_eq!(g.termination_impl.arms[0].exit_code, 1);
    assert_eq!(g.termination_impl.arms[1].exit_code, 1);
    assert_eq!(g.termination_impl.arms[2].exit_code, 7);
    assert_eq!(g.termination_impl.arms[3].exit_code, 1);
}

#[test]
fn thiserror_test_unnamed_default() {
    let g = derive_termination(&delegating_input()).expect("generation should succeed");
    let debug = g.debug_impl.as_ref().unwrap();
    assert!(matches!(debug.arms[4].body, MessageBody::DelegateDisplay));
    assert_eq!(g.termination_impl.arms[4].exit_code, 1);
}

#[test]
fn thiserror_test_named_default() {
    let g = derive_termination(&delegating_input()).expect("generation should succeed");
    let debug = g.debug_impl.as_ref().unwrap();
    assert!(matches!(debug.arms[5].body, MessageBody::DelegateDisplay));
    assert_eq!(g.termination_impl.arms[5].exit_code, 1);
}

#[test]
fn empty_enum_generates_in_every_mode() {
    let input = enum_input("Empty", vec![], vec![]);
    let g1 = derive_termination(&input).expect("generation should succeed");
    assert_eq!(g1.termination_impl.arms.len(), 0);
    assert_eq!(g1.debug_impl.as_ref().unwrap().arms.len(), 0);
    let g2 = derive_termination_no_debug(&input).expect("generation should succeed");
    assert_eq!(g2.termination_impl.arms.len(), 0);
    let g3 = derive_termination_full(&input).expect("generation should succeed");
    assert_eq!(g3.termination_impl.arms.len(), 0);
    assert_eq!(g3.display_impl.as_ref().unwrap().arms.len(), 0);
    assert_eq!(g3.from_impls.as_ref().unwrap().impls.len(), 0);
}

#[test]
fn ordered_two_field_template_renders_both_fields() {
    let input = enum_input(
        "Test",
        vec![],
        vec![unnamed_variant("UnnamedB", 1, &["u8", "i32"], vec![block(2, vec![msg_entry(3, "unnamed {0} {1}", vec![])])])],
    );
    let g = derive_termination(&input).expect("generation should succeed");
    let debug = g.debug_impl.as_ref().unwrap();
    let arm = &debug.arms[0];
    match &arm.body {
        MessageBody::Template(m) => assert_eq!(m.format_string, "unnamed {__0} {__1}"),
        MessageBody::DelegateDisplay => panic!("expected a template"),
    }
    assert_eq!(render_arm(arm, &[("__0", "42"), ("__1", "55")]), "unnamed 42 55");
}

#[test]
fn every_interface_has_one_arm_per_variant_in_order() {
    let g = full_ok(&full_input());
    let names = ["UnitA", "UnnamedA", "UnnamedB", "NamedA", "NamedB"];
    let debug = g.debug_impl.as_ref().unwrap();
    let display = g.display_impl.as_ref().unwrap();
    assert_eq!(debug.arms.len(), names.len());
    assert_eq!(display.arms.len(), names.len());
    assert_eq!(g.termination_impl.arms.len(), names.len());
    for (i, name) in names.iter().enumerate() {
        assert_eq!(debug.arms[i].variant, *name);
        assert_eq!(display.arms[i].variant, *name);
        assert_eq!(g.termination_impl.arms[i].variant, *name);
    }
}
