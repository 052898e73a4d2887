//! The format rewriter for ordered (positional) fields.
//!
//! A message template addresses ordered fields as `{0}` or `{1:spec}`.
//! The generated match arm binds those fields to synthesized names
//! (`__0`, `__1`, ...), so every positional reference in the template is
//! rewritten to `{<prefix>0}`, `{<prefix>1:spec}` and so on, preserving an
//! optional format-spec suffix verbatim. Named references (`{x}`), empty
//! references (`{}`) and plain text are left untouched.
//!
//! A positional placeholder is an occurrence of `{`, one or more decimal
//! digits, then either `}` or `:` followed by format-spec text (anything
//! but `}`) up to the next `}`. The scan is left to right and
//! non-overlapping.

use vstd::prelude::*;

verus! {

/// A decimal digit.
pub open spec fn is_ascii_digit(c: char) -> bool {
    ('0' as u32) <= (c as u32) && (c as u32) <= ('9' as u32)
}

/// The length of the run of decimal digits at the start of `s`.
pub open spec fn digit_run(s: Seq<char>) -> int
    decreases s.len(),
{
    if s.len() > 0 && is_ascii_digit(s[0]) {
        1 + digit_run(s.skip(1))
    } else {
        0
    }
}

/// The index of the first `}` in `s`, or `s.len()` if there is none.
pub open spec fn close_pos(s: Seq<char>) -> int
    decreases s.len(),
{
    if s.len() == 0 {
        0
    } else if s[0] == '}' {
        0
    } else {
        1 + close_pos(s.skip(1))
    }
}

/// The length of the positional placeholder at the start of `s`, or 0 if
/// `s` does not start with one.
pub open spec fn placeholder_len(s: Seq<char>) -> int {
    if s.len() > 0 && s[0] == '{' {
        let d = digit_run(s.skip(1));
        if d > 0 && 1 + d < s.len() {
            if s[1 + d] == '}' {
                d + 2
            } else if s[1 + d] == ':' {
                let c = close_pos(s.skip(1 + d));
                if 1 + d + c < s.len() {
                    1 + d + c + 1
                } else {
                    0
                }
            } else {
                0
            }
        } else {
            0
        }
    } else {
        0
    }
}

/// The rewritten template: every positional placeholder `{i}` or
/// `{i:spec}` becomes `{<prefix>i}` or `{<prefix>i:spec}`; all other text
/// is copied unchanged.
pub open spec fn rewrite_spec(s: Seq<char>, prefix: Seq<char>) -> Seq<char>
    decreases s.len(),
{
    if s.len() == 0 {
        Seq::empty()
    } else {
        let l = placeholder_len(s);
        if 0 < l <= s.len() {
            let d = digit_run(s.skip(1));
            seq!['{'] + prefix + s.subrange(1, 1 + d) + s.subrange(1 + d, l - 1) + seq!['}']
                + rewrite_spec(s.skip(l), prefix)
        } else {
            seq![s[0]] + rewrite_spec(s.skip(1), prefix)
        }
    }
}

/// Whether any position of `s` starts a positional placeholder.
pub open spec fn has_positional_ref(s: Seq<char>) -> bool {
    exists|i: int| 0 <= i < s.len() && placeholder_len(#[trigger] s.skip(i)) > 0
}

proof fn lemma_digit_run_bounds(s: Seq<char>)
    ensures
        0 <= digit_run(s) <= s.len(),
        forall|k: int| 0 <= k < digit_run(s) ==> is_ascii_digit(#[trigger] s[k]),
        digit_run(s) < s.len() ==> !is_ascii_digit(s[digit_run(s)]),
    decreases s.len(),
{
    if s.len() > 0 && is_ascii_digit(s[0]) {
        lemma_digit_run_bounds(s.skip(1));
        assert forall|k: int| 0 <= k < digit_run(s) implies is_ascii_digit(#[trigger] s[k]) by {
            if k > 0 {
                assert(is_ascii_digit(s.skip(1)[k - 1]));
            }
        }
    }
}

proof fn lemma_close_pos_bounds(s: Seq<char>)
    ensures
        0 <= close_pos(s) <= s.len(),
        close_pos(s) < s.len() ==> s[close_pos(s)] == '}',
        forall|k: int| 0 <= k < close_pos(s) ==> (#[trigger] s[k]) != '}',
    decreases s.len(),
{
    if s.len() > 0 && s[0] != '}' {
        lemma_close_pos_bounds(s.skip(1));
        assert forall|k: int| 0 <= k < close_pos(s) implies (#[trigger] s[k]) != '}' by {
            if k > 0 {
                assert(s.skip(1)[k - 1] != '}');
            }
        }
    }
}

/// A placeholder is at least `{d}` and never runs past the text.
proof fn lemma_placeholder_len_bounds(s: Seq<char>)
    ensures
        placeholder_len(s) == 0 || 3 <= placeholder_len(s) <= s.len(),
{
    lemma_digit_run_bounds(s.skip(1));
    if s.len() > 0 && s[0] == '{' {
        lemma_close_pos_bounds(s.skip(1 + digit_run(s.skip(1))));
    }
}

/// Everything a positive placeholder length implies about the text.
proof fn lemma_placeholder_structure(s: Seq<char>)
    requires
        placeholder_len(s) > 0,
    ensures
        s.len() > 0 && s[0] == '{',
        digit_run(s.skip(1)) > 0,
        1 + digit_run(s.skip(1)) <= placeholder_len(s) - 1 < s.len(),
        s[placeholder_len(s) - 1] == '}',
        3 <= placeholder_len(s) <= s.len(),
{
    lemma_digit_run_bounds(s.skip(1));
    lemma_close_pos_bounds(s.skip(1 + digit_run(s.skip(1))));
}

/// Rewriting a template without positional references is the identity:
/// templates of only literal text, named references or empty references
/// come back unchanged.
pub proof fn lemma_rewrite_no_positional_is_noop(s: Seq<char>, prefix: Seq<char>)
    requires
        !has_positional_ref(s),
    ensures
        rewrite_spec(s, prefix) == s,
    decreases s.len(),
{
    if s.len() > 0 {
        assert(s.skip(0) =~= s);
        if placeholder_len(s) > 0 {
            assert(placeholder_len(s.skip(0)) > 0);
            assert(has_positional_ref(s));
        }
        lemma_placeholder_len_bounds(s);
        if has_positional_ref(s.skip(1)) {
            let j = choose|j: int|
                0 <= j < s.skip(1).len() && placeholder_len(#[trigger] s.skip(1).skip(j)) > 0;
            assert(s.skip(1).skip(j) =~= s.skip(1 + j));
            assert(placeholder_len(s.skip(1 + j)) > 0);
            assert(has_positional_ref(s));
        }
        lemma_rewrite_no_positional_is_noop(s.skip(1), prefix);
        assert(rewrite_spec(s, prefix) =~= s);
    }
}

fn is_ascii_digit_exec(c: char) -> (b: bool)
    ensures
        b == is_ascii_digit(c),
{
    ('0' as u32) <= (c as u32) && (c as u32) <= ('9' as u32)
}

/// The length of the digit run of `msg` starting at `from`.
fn digit_run_at(msg: &str, from: usize) -> (d: usize)
    requires
        from <= msg@.len(),
    ensures
        d == digit_run(msg@.skip(from as int)),
        from + d <= msg@.len(),
    decreases msg@.len() - from,
{
    proof {
        lemma_digit_run_bounds(msg@.skip(from as int));
    }
    let n = msg.unicode_len();
    if from < n {
        let c = msg.get_char(from);
        if is_ascii_digit_exec(c) {
            let d = digit_run_at(msg, from + 1);
            proof {
                assert(msg@.skip(from as int).skip(1) =~= msg@.skip(from + 1));
            }
            1 + d
        } else {
            0
        }
    } else {
        assert(msg@.skip(from as int).len() == 0);
        0
    }
}

/// The position of the first `}` in `msg` at or after `from`, or the text
/// length if there is none.
fn close_pos_at(msg: &str, from: usize) -> (p: usize)
    requires
        from <= msg@.len(),
    ensures
        p == from + close_pos(msg@.skip(from as int)),
        from <= p <= msg@.len(),
    decreases msg@.len() - from,
{
    proof {
        lemma_close_pos_bounds(msg@.skip(from as int));
    }
    let n = msg.unicode_len();
    if from < n {
        let c = msg.get_char(from);
        if c == '}' {
            from
        } else {
            let p = close_pos_at(msg, from + 1);
            proof {
                assert(msg@.skip(from as int).skip(1) =~= msg@.skip(from + 1));
            }
            p
        }
    } else {
        assert(msg@.skip(from as int).len() == 0);
        from
    }
}

/// The length of the positional placeholder of `msg` starting at `at`, or
/// 0 if none starts there.
fn placeholder_len_at(msg: &str, at: usize) -> (l: usize)
    requires
        at < msg@.len(),
    ensures
        l == placeholder_len(msg@.skip(at as int)),
        at + l <= msg@.len(),
{
    proof {
        lemma_placeholder_len_bounds(msg@.skip(at as int));
    }
    let ghost s = msg@.skip(at as int);
    let n = msg.unicode_len();
    let c0 = msg.get_char(at);
    if c0 != '{' {
        return 0;
    }
    let d = digit_run_at(msg, at + 1);
    proof {
        assert(msg@.skip(at as int).skip(1) =~= msg@.skip(at + 1));
    }
    if d == 0 || at + 1 + d >= n {
        return 0;
    }
    let c1 = msg.get_char(at + 1 + d);
    assert(c1 == s[1 + d]);
    if c1 == '}' {
        d + 2
    } else if c1 == ':' {
        let e = close_pos_at(msg, at + 1 + d);
        proof {
            assert(msg@.skip(at as int).skip(1 + d) =~= msg@.skip(at + 1 + d));
        }
        if e < n {
            e - at + 1
        } else {
            0
        }
    } else {
        0
    }
}

/// Rewrites every positional field reference of `msg` to address the
/// synthesized name `<prefix><index>` instead, keeping an optional
/// format-spec suffix and all other text verbatim.
#[verifier::loop_isolation(false)]
#[verifier::rlimit(60)]
pub fn get_formatted_string_with_fields(msg: &str, prefix: &str) -> (r: String)
    ensures
        r@ == rewrite_spec(msg@, prefix@),
{
    let n = msg.unicode_len();
    let mut out = String::new();
    let mut i: usize = 0;
    proof {
        assert(msg@.skip(0) =~= msg@);
    }
    while i < n
        invariant
            i <= n,
            out@ + rewrite_spec(msg@.skip(i as int), prefix@) == rewrite_spec(msg@, prefix@),
        decreases n - i,
    {
        let ghost s = msg@.skip(i as int);
        let l = placeholder_len_at(msg, i);
        proof {
            lemma_placeholder_len_bounds(s);
        }
        if l > 0 {
            let d = digit_run_at(msg, i + 1);
            proof {
                assert(msg@.skip(i as int).skip(1) =~= msg@.skip(i + 1));
                lemma_digit_run_bounds(s.skip(1));
                lemma_placeholder_structure(s);
                assert(d == digit_run(s.skip(1)));
                assert(i + 1 + d <= i + l - 1 < n);
            }
            out.append("{");
            out.append(prefix);
            let digits = msg.substring_char(i + 1, i + 1 + d);
            out.append(digits);
            let suffix = msg.substring_char(i + 1 + d, i + l - 1);
            out.append(suffix);
            out.append("}");
            proof {
                reveal_strlit("{");
                reveal_strlit("}");
                assert("{"@ =~= seq!['{']);
                assert("}"@ =~= seq!['}']);
                assert(digits@ =~= s.subrange(1, 1 + d));
                assert(suffix@ =~= s.subrange(1 + d, l - 1));
                assert(s.skip(l as int) =~= msg@.skip(i + l));
                assert(rewrite_spec(s, prefix@) == seq!['{'] + prefix@ + s.subrange(1, 1 + d)
                    + s.subrange(1 + d, l - 1) + seq!['}'] + rewrite_spec(s.skip(l as int), prefix@));
                assert(out@ + rewrite_spec(msg@.skip(i + l), prefix@) == rewrite_spec(
                    msg@,
                    prefix@,
                ));
            }
            i = i + l;
        } else {
            let piece = msg.substring_char(i, i + 1);
            out.append(piece);
            proof {
                assert(piece@ =~= seq![s[0]]);
                assert(s.skip(1) =~= msg@.skip(i + 1));
                assert(rewrite_spec(s, prefix@) == seq![s[0]] + rewrite_spec(
                    s.skip(1),
                    prefix@,
                ));
                assert(out@ + rewrite_spec(msg@.skip(i + 1), prefix@) == rewrite_spec(
                    msg@,
                    prefix@,
                ));
            }
            i = i + 1;
        }
    }
    proof {
        assert(msg@.skip(n as int) =~= Seq::<char>::empty());
        assert(out@ =~= rewrite_spec(msg@, prefix@));
    }
    out
}

} // verus!
