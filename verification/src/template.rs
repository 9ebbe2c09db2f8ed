//! The text templating engine.
//!
//! Description text from the raw tables carries markup tags and `{key}`
//! placeholders. Rendering first strips every tag, then replaces each
//! placeholder with a value looked up in a per-instance blackboard,
//! formatted as the placeholder's trailing marker asks.
//!
//! A tag is `<` followed by one or more tag characters and `>`, or the
//! fixed closing token `</>`. A placeholder is `{` followed by one or more
//! placeholder characters and `}`; inside it, a leading `-` flags negation
//! and one of four trailing markers picks the numeric format.

use vstd::prelude::*;
use crate::chars::{chars_to_string, copy_range, lower_chars, lower_vec, string_to_chars, upper_chars, upper_vec};
use crate::dict::Dict;
use crate::fixed::{
    int_digits, plain_chars, push_int_digits, push_plain, push_trimmed_hundredths, round_div,
    round_to_hundredths, round_to_whole, trimmed_hundredths, FixedValue,
};

verus! {

/// Whether data gaps are tolerated or reported.
///
/// Lenient rendering echoes an unknown placeholder key upper-cased, as a
/// visible marker; strict rendering fails on it.
#[derive(Debug, Clone, Copy, PartialEq, Eq, Structural, Hash)]
pub enum StrictnessMode {
    Lenient,
    Strict,
}

/// Why strict rendering refused a text.
#[derive(Debug)]
pub enum TemplateError {
    /// A placeholder key was not on the blackboard.
    UnknownKey(String),
}

/// The numeric format a placeholder's trailing marker asks for.
#[derive(Debug, Clone, Copy, PartialEq, Eq, Structural, Hash)]
pub enum FormattingSuffix {
    /// `:0.0%`: value times one hundred, two decimal places, trimmed, `%`.
    DecimalPercent,
    /// `:0%`: value times one hundred, rounded to a whole, `%`.
    IntegerPercent,
    /// `:0.0`: two decimal places, trimmed.
    Decimal,
    /// `:0`: rounded to a whole.
    Integer,
    /// No marker: the exact value.
    Plain,
}

/// Whether `c` may stand inside a markup tag: letters, digits, `_`, `@`,
/// `$` and `.`.
pub open spec fn is_tag_char(c: char) -> bool {
    ||| 48 <= c as u32 <= 57
    ||| 65 <= c as u32 <= 90
    ||| 97 <= c as u32 <= 122
    ||| c == '_'
    ||| c == '@'
    ||| c == '$'
    ||| c == '.'
}

/// Whether `c` may stand inside a placeholder: tag characters except `$`,
/// plus `:`, `%`, `-`, `[` and `]`.
pub open spec fn is_placeholder_char(c: char) -> bool {
    ||| 48 <= c as u32 <= 57
    ||| 65 <= c as u32 <= 90
    ||| 97 <= c as u32 <= 122
    ||| c == '_'
    ||| c == '@'
    ||| c == ':'
    ||| c == '.'
    ||| c == '%'
    ||| c == '-'
    ||| c == '['
    ||| c == ']'
}

/// The first position at or after `j` that does not hold a tag character.
pub open spec fn tag_body_end(s: Seq<char>, j: int) -> int
    decreases s.len() - j,
{
    if 0 <= j < s.len() && is_tag_char(s[j]) {
        tag_body_end(s, j + 1)
    } else {
        j
    }
}

/// The length of the tag starting at `i`, or zero when none starts there.
/// A tag is `<`, one or more tag characters, `>`; or exactly `</>`.
pub open spec fn tag_match_len(s: Seq<char>, i: int) -> int {
    if 0 <= i < s.len() && s[i] == '<' {
        let e = tag_body_end(s, i + 1);
        if e > i + 1 && e < s.len() && s[e] == '>' {
            e - i + 1
        } else if i + 2 < s.len() && s[i + 1] == '/' && s[i + 2] == '>' {
            3
        } else {
            0
        }
    } else {
        0
    }
}

/// The body end never runs past the text and never moves backwards.
pub proof fn lemma_tag_body_end_bounds(s: Seq<char>, j: int)
    requires
        0 <= j <= s.len(),
    ensures
        j <= tag_body_end(s, j) <= s.len(),
    decreases s.len() - j,
{
    if j < s.len() && is_tag_char(s[j]) {
        lemma_tag_body_end_bounds(s, j + 1);
    }
}

/// A tag fits inside the text.
pub proof fn lemma_tag_match_len_bounds(s: Seq<char>, i: int)
    requires
        0 <= i <= s.len(),
    ensures
        0 <= tag_match_len(s, i),
        i + tag_match_len(s, i) <= s.len(),
        i < s.len() ==> tag_match_len(s, i) <= s.len() - i,
{
    if i < s.len() && s[i] == '<' {
        lemma_tag_body_end_bounds(s, i + 1);
    }
}

/// The text from `i` on, with every tag removed, scanning left to right.
pub open spec fn strip_from(s: Seq<char>, i: int) -> Seq<char>
    decreases s.len() - i when 0 <= i
{
    if i >= s.len() {
        Seq::empty()
    } else {
        let l = tag_match_len(s, i);
        if l > 0 {
            strip_from(s, i + l)
        } else {
            seq![s[i]] + strip_from(s, i + 1)
        }
    }
}

/// The whole text with every tag removed.
pub open spec fn strip_tags_spec(s: Seq<char>) -> Seq<char> {
    strip_from(s, 0)
}

/// Whether no tag starts anywhere in the text.
pub open spec fn tag_free(s: Seq<char>) -> bool {
    forall|i: int| 0 <= i < s.len() ==> tag_match_len(s, i) == 0
}

/// Stripping leaves a text without tags unchanged: on such a text the strip
/// is a no-op. In particular a second strip is idempotent wherever the
/// first already left a tag-free text.
pub proof fn lemma_strip_tag_free_noop(s: Seq<char>)
    requires
        tag_free(s),
    ensures
        strip_tags_spec(s) == s,
{
    lemma_strip_from_tag_free(s, 0);
    assert(strip_tags_spec(s) =~= s);
}

proof fn lemma_strip_from_tag_free(s: Seq<char>, i: int)
    requires
        0 <= i <= s.len(),
        tag_free(s),
    ensures
        strip_from(s, i) == s.skip(i),
    decreases s.len() - i,
{
    if i >= s.len() {
        assert(strip_from(s, i) =~= s.skip(i));
    } else {
        lemma_strip_from_tag_free(s, i + 1);
        assert(strip_from(s, i) =~= s.skip(i));
    }
}

/// The length of the tag starting at `i`, or zero when none starts there.
fn tag_match_len_exec(s: &Vec<char>, i: usize) -> (r: usize)
    requires
        i <= s@.len(),
    ensures
        r as int == tag_match_len(s@, i as int),
        i + r <= s@.len(),
{
    proof {
        lemma_tag_match_len_bounds(s@, i as int);
    }
    let n = s.len();
    if i >= n || s[i] != '<' {
        return 0;
    }
    let mut e: usize = i + 1;
    while e < n && is_tag_char_exec(s[e])
        invariant
            i + 1 <= e <= n,
            n == s@.len(),
            tag_body_end(s@, (i + 1) as int) == tag_body_end(s@, e as int),
        decreases n - e,
    {
        e = e + 1;
    }
    proof {
        lemma_tag_body_end_bounds(s@, e as int);
        assert(tag_body_end(s@, e as int) == e);
    }
    if e > i + 1 && e < n && s[e] == '>' {
        e - i + 1
    } else if n - i > 2 && s[i + 1] == '/' && s[i + 2] == '>' {
        3
    } else {
        0
    }
}

/// Whether `c` may stand inside a markup tag.
fn is_tag_char_exec(c: char) -> (r: bool)
    ensures
        r == is_tag_char(c),
{
    let u = c as u32;
    (48 <= u && u <= 57) || (65 <= u && u <= 90) || (97 <= u && u <= 122) || c == '_' || c == '@'
        || c == '$' || c == '.'
}

/// Whether `c` may stand inside a placeholder.
fn is_placeholder_char_exec(c: char) -> (r: bool)
    ensures
        r == is_placeholder_char(c),
{
    let u = c as u32;
    (48 <= u && u <= 57) || (65 <= u && u <= 90) || (97 <= u && u <= 122) || c == '_' || c == '@'
        || c == ':' || c == '.' || c == '%' || c == '-' || c == '[' || c == ']'
}

/// Removes every tag from a text, scanning once, left to right.
pub fn strip_tags(text: &str) -> (r: String)
    ensures
        r@ == strip_tags_spec(text@),
{
    let s = string_to_chars(text);
    let out = strip_tags_chars(&s);
    chars_to_string(&out)
}

/// Removes every tag from a character vector.
pub fn strip_tags_chars(s: &Vec<char>) -> (r: Vec<char>)
    ensures
        r@ == strip_tags_spec(s@),
{
    let n = s.len();
    let mut out: Vec<char> = Vec::new();
    let mut i: usize = 0;
    while i < n
        invariant
            i <= n,
            n == s@.len(),
            strip_tags_spec(s@) == out@ + strip_from(s@, i as int),
        decreases n - i,
    {
        let l = tag_match_len_exec(s, i);
        if l > 0 {
            i = i + l;
        } else {
            out.push(s[i]);
            i = i + 1;
        }
    }
    proof {
        assert(strip_tags_spec(s@) =~= out@);
    }
    out
}

/// The first position at or after `j` that does not hold a placeholder
/// character.
pub open spec fn placeholder_body_end(s: Seq<char>, j: int) -> int
    decreases s.len() - j,
{
    if 0 <= j < s.len() && is_placeholder_char(s[j]) {
        placeholder_body_end(s, j + 1)
    } else {
        j
    }
}

/// The length of the placeholder starting at `i`, or zero when none starts
/// there. A placeholder is `{`, one or more placeholder characters, `}`.
pub open spec fn placeholder_match_len(s: Seq<char>, i: int) -> int {
    if 0 <= i < s.len() && s[i] == '{' {
        let e = placeholder_body_end(s, i + 1);
        if e > i + 1 && e < s.len() && s[e] == '}' {
            e - i + 1
        } else {
            0
        }
    } else {
        0
    }
}

proof fn lemma_placeholder_body_end_bounds(s: Seq<char>, j: int)
    requires
        0 <= j <= s.len(),
    ensures
        j <= placeholder_body_end(s, j) <= s.len(),
    decreases s.len() - j,
{
    if j < s.len() && is_placeholder_char(s[j]) {
        lemma_placeholder_body_end_bounds(s, j + 1);
    }
}

/// A placeholder fits inside the text.
pub proof fn lemma_placeholder_match_len_bounds(s: Seq<char>, i: int)
    requires
        0 <= i <= s.len(),
    ensures
        placeholder_match_len(s, i) == 0 || 3 <= placeholder_match_len(s, i) <= s.len() - i,
{
    if i < s.len() && s[i] == '{' {
        lemma_placeholder_body_end_bounds(s, i + 1);
    }
}

/// The length of the placeholder starting at `i`, or zero.
fn placeholder_match_len_exec(s: &Vec<char>, i: usize) -> (r: usize)
    requires
        i <= s@.len(),
    ensures
        r as int == placeholder_match_len(s@, i as int),
        r == 0 || 3 <= r && i + r <= s@.len(),
{
    proof {
        lemma_placeholder_match_len_bounds(s@, i as int);
    }
    let n = s.len();
    if i >= n || s[i] != '{' {
        return 0;
    }
    let mut e: usize = i + 1;
    while e < n && is_placeholder_char_exec(s[e])
        invariant
            i + 1 <= e <= n,
            n == s@.len(),
            placeholder_body_end(s@, (i + 1) as int) == placeholder_body_end(s@, e as int),
        decreases n - e,
    {
        e = e + 1;
    }
    proof {
        lemma_placeholder_body_end_bounds(s@, e as int);
        assert(placeholder_body_end(s@, e as int) == e);
    }
    if e > i + 1 && e < n && s[e] == '}' {
        e - i + 1
    } else {
        0
    }
}

/// Whether `s` ends with `suffix`.
pub open spec fn seq_ends_with(s: Seq<char>, suffix: Seq<char>) -> bool {
    s.len() >= suffix.len() && s.skip(s.len() - suffix.len()) == suffix
}

/// A placeholder body taken apart: the look-up key, lower-cased, with the
/// negation flag and the format marker split off.
pub open spec fn strip_markers_spec(s: Seq<char>) -> (Seq<char>, bool, FormattingSuffix) {
    let neg = s.len() > 0 && s[0] == '-';
    let t = if neg {
        s.skip(1)
    } else {
        s
    };
    if seq_ends_with(t, seq![':', '0', '.', '0', '%']) {
        (lower_chars(t.take(t.len() - 5)), neg, FormattingSuffix::DecimalPercent)
    } else if seq_ends_with(t, seq![':', '0', '%']) {
        (lower_chars(t.take(t.len() - 3)), neg, FormattingSuffix::IntegerPercent)
    } else if seq_ends_with(t, seq![':', '0', '.', '0']) {
        (lower_chars(t.take(t.len() - 4)), neg, FormattingSuffix::Decimal)
    } else if seq_ends_with(t, seq![':', '0']) {
        (lower_chars(t.take(t.len() - 2)), neg, FormattingSuffix::Integer)
    } else {
        (lower_chars(t), neg, FormattingSuffix::Plain)
    }
}

/// Takes a placeholder body apart: strips a leading `-` into the negation
/// flag, recognises and strips one of the four trailing format markers, and
/// lower-cases what is left into the look-up key.
pub fn strip_formatting_markers(s: &Vec<char>) -> (r: (Vec<char>, bool, FormattingSuffix))
    ensures
        r.0@ == strip_markers_spec(s@).0,
        r.1 == strip_markers_spec(s@).1,
        r.2 == strip_markers_spec(s@).2,
{
    let len = s.len();
    let neg = len > 0 && s[0] == '-';
    let start: usize = if neg {
        1
    } else {
        0
    };
    let t = copy_range(s, start, len);
    proof {
        if neg {
            assert(t@ =~= s@.skip(1));
        } else {
            assert(t@ =~= s@);
        }
    }
    let tl = t.len();
    if tl >= 5 && t[tl - 5] == ':' && t[tl - 4] == '0' && t[tl - 3] == '.' && t[tl - 2] == '0'
        && t[tl - 1] == '%' {
        proof {
            assert(t@.skip(tl - 5) =~= seq![':', '0', '.', '0', '%']);
        }
        (lower_vec(&copy_range(&t, 0, tl - 5)), neg, FormattingSuffix::DecimalPercent)
    } else if tl >= 3 && t[tl - 3] == ':' && t[tl - 2] == '0' && t[tl - 1] == '%' {
        proof {
            assert(t@.skip(tl - 3) =~= seq![':', '0', '%']);
        }
        (lower_vec(&copy_range(&t, 0, tl - 3)), neg, FormattingSuffix::IntegerPercent)
    } else if tl >= 4 && t[tl - 4] == ':' && t[tl - 3] == '0' && t[tl - 2] == '.' && t[tl - 1]
        == '0' {
        proof {
            assert(t@.skip(tl - 4) =~= seq![':', '0', '.', '0']);
        }
        (lower_vec(&copy_range(&t, 0, tl - 4)), neg, FormattingSuffix::Decimal)
    } else if tl >= 2 && t[tl - 2] == ':' && t[tl - 1] == '0' {
        proof {
            assert(t@.skip(tl - 2) =~= seq![':', '0']);
        }
        (lower_vec(&copy_range(&t, 0, tl - 2)), neg, FormattingSuffix::Integer)
    } else {
        proof {
            assert(t@.take(tl as int) =~= t@);
        }
        (lower_vec(&t), neg, FormattingSuffix::Plain)
    }
}

/// The units of a value after the negation flag is applied.
pub open spec fn signed_units(units: int, negative: bool) -> int {
    if negative {
        -units
    } else {
        units
    }
}

/// How a value renders under a format marker.
pub open spec fn format_value_spec(units: int, suffix: FormattingSuffix) -> Seq<char> {
    match suffix {
        FormattingSuffix::DecimalPercent => trimmed_hundredths(units) + seq!['%'],
        FormattingSuffix::IntegerPercent => int_digits(round_div(units, 100)) + seq!['%'],
        FormattingSuffix::Decimal => trimmed_hundredths(round_div(units, 100)),
        FormattingSuffix::Integer => int_digits(round_div(units, 10000)),
        FormattingSuffix::Plain => plain_chars(units),
    }
}

/// Appends the rendering of `units` under a format marker.
fn push_format(units: i64, suffix: FormattingSuffix, out: &mut Vec<char>)
    requires
        units > i64::MIN,
    ensures
        final(out)@ == old(out)@ + format_value_spec(units as int, suffix),
{
    match suffix {
        FormattingSuffix::DecimalPercent => {
            push_trimmed_hundredths(units, out);
            out.push('%');
            assert(out@ =~= old(out)@ + format_value_spec(units as int, suffix));
        },
        FormattingSuffix::IntegerPercent => {
            let h = round_to_hundredths(units);
            push_int_digits(h, out);
            out.push('%');
            assert(out@ =~= old(out)@ + format_value_spec(units as int, suffix));
        },
        FormattingSuffix::Decimal => {
            let h = round_to_hundredths(units);
            push_trimmed_hundredths(h, out);
        },
        FormattingSuffix::Integer => {
            let n = round_to_whole(units);
            push_int_digits(n, out);
        },
        FormattingSuffix::Plain => {
            push_plain(units, out);
        },
    }
}

/// Renders a blackboard value under a negation flag and format marker.
pub fn apply_formatting(value: FixedValue, negative: bool, suffix: FormattingSuffix) -> (r: String)
    requires
        value.units > i64::MIN,
    ensures
        r@ == format_value_spec(signed_units(value.units as int, negative), suffix),
{
    let u: i64 = if negative {
        -value.units
    } else {
        value.units
    };
    let mut out: Vec<char> = Vec::new();
    push_format(u, suffix, &mut out);
    chars_to_string(&out)
}

/// What a placeholder's body is replaced with: the value under its key,
/// formatted, or the upper-cased key as a visible marker when the
/// blackboard does not hold the key.
pub open spec fn token_replacement(inner: Seq<char>, bb: Map<Seq<char>, FixedValue>) -> Seq<char> {
    let key = strip_markers_spec(inner).0;
    let neg = strip_markers_spec(inner).1;
    let suffix = strip_markers_spec(inner).2;
    if bb.contains_key(key) {
        format_value_spec(signed_units(bb[key].units as int, neg), suffix)
    } else {
        upper_chars(key)
    }
}

/// Whether the blackboard holds the key of a placeholder body.
pub open spec fn token_resolves(inner: Seq<char>, bb: Map<Seq<char>, FixedValue>) -> bool {
    bb.contains_key(strip_markers_spec(inner).0)
}

/// The text from `i` on with every placeholder replaced.
pub open spec fn subst_from(s: Seq<char>, bb: Map<Seq<char>, FixedValue>, i: int) -> Seq<char>
    decreases s.len() - i when 0 <= i
{
    if i >= s.len() {
        Seq::empty()
    } else {
        let l = placeholder_match_len(s, i);
        if l > 0 {
            token_replacement(s.subrange(i + 1, i + l - 1), bb) + subst_from(s, bb, i + l)
        } else {
            seq![s[i]] + subst_from(s, bb, i + 1)
        }
    }
}

/// Whether every placeholder from `i` on resolves on the blackboard.
pub open spec fn subst_ok(s: Seq<char>, bb: Map<Seq<char>, FixedValue>, i: int) -> bool
    decreases s.len() - i when 0 <= i
{
    if i >= s.len() {
        true
    } else {
        let l = placeholder_match_len(s, i);
        if l > 0 {
            token_resolves(s.subrange(i + 1, i + l - 1), bb) && subst_ok(s, bb, i + l)
        } else {
            subst_ok(s, bb, i + 1)
        }
    }
}

/// The rendering of a text against a blackboard: tags stripped, then every
/// placeholder replaced.
pub open spec fn apply_templates_spec(s: Seq<char>, bb: Map<Seq<char>, FixedValue>) -> Seq<char> {
    subst_from(strip_tags_spec(s), bb, 0)
}

/// Every value on a blackboard can be negated without leaving the machine
/// range.
pub open spec fn blackboard_ok(bb: Map<Seq<char>, FixedValue>) -> bool {
    forall|k: Seq<char>| #[trigger] bb.contains_key(k) ==> bb[k].units > i64::MIN
}

/// Renders a text against a blackboard: strips every tag, then replaces
/// each placeholder with its formatted value. In lenient mode an unknown
/// key is echoed upper-cased; in strict mode it fails, naming the key.
pub fn apply_templates(text: &str, blackboard: &Dict<FixedValue>, mode: StrictnessMode) -> (r:
    Result<String, TemplateError>)
    requires
        blackboard.wf(),
        blackboard_ok(blackboard@),
    ensures
        match r {
            Ok(out) => out@ == apply_templates_spec(text@, blackboard@) && (mode
                == StrictnessMode::Strict ==> subst_ok(strip_tags_spec(text@), blackboard@, 0)),
            Err(e) => mode == StrictnessMode::Strict && !subst_ok(
                strip_tags_spec(text@),
                blackboard@,
                0,
            ),
        },
        mode == StrictnessMode::Lenient ==> r is Ok,
{
    let s = string_to_chars(text);
    let t = strip_tags_chars(&s);
    let n = t.len();
    let mut out: Vec<char> = Vec::new();
    let mut i: usize = 0;
    let ghost mut all_ok: bool = true;
    while i < n
        invariant
            i <= n,
            n == t@.len(),
            t@ == strip_tags_spec(text@),
            blackboard.wf(),
            blackboard_ok(blackboard@),
            subst_from(t@, blackboard@, 0) == out@ + subst_from(t@, blackboard@, i as int),
            subst_ok(t@, blackboard@, 0) == (all_ok && subst_ok(t@, blackboard@, i as int)),
            mode == StrictnessMode::Strict ==> all_ok,
        decreases n - i,
    {
        let l = placeholder_match_len_exec(&t, i);
        if l > 0 {
            let inner = copy_range(&t, i + 1, i + l - 1);
            let parts = strip_formatting_markers(&inner);
            let key_string = chars_to_string(&parts.0);
            match blackboard.get(key_string.as_str()) {
                Some(v) => {
                    let units: i64 = if parts.1 {
                        -v.units
                    } else {
                        v.units
                    };
                    push_format(units, parts.2, &mut out);
                },
                None => {
                    match mode {
                        StrictnessMode::Lenient => {
                            let mut marker = upper_vec(&parts.0);
                            out.append(&mut marker);
                            proof {
                                all_ok = false;
                            }
                        },
                        StrictnessMode::Strict => {
                            return Err(TemplateError::UnknownKey(key_string));
                        },
                    }
                },
            }
            i = i + l;
        } else {
            out.push(t[i]);
            i = i + 1;
        }
    }
    proof {
        assert(subst_from(t@, blackboard@, 0) =~= out@);
    }
    Ok(chars_to_string(&out))
}

/// The blackboard that a list of key/value pairs builds: keys lower-cased,
/// later pairs overriding earlier ones.
pub open spec fn blackboard_map(pairs: Seq<(String, FixedValue)>) -> Map<Seq<char>, FixedValue>
    decreases pairs.len(),
{
    if pairs.len() == 0 {
        Map::empty()
    } else {
        blackboard_map(pairs.drop_last()).insert(
            lower_chars(pairs.last().0@),
            pairs.last().1,
        )
    }
}

/// Builds the blackboard of one text instance: the explicit key/value pairs
/// with lower-cased keys, and the instance's duration under the key
/// `duration`, which always wins.
pub fn build_blackboard(pairs: Vec<(String, FixedValue)>, duration: FixedValue) -> (r: Dict<
    FixedValue,
>)
    requires
        duration.units > i64::MIN,
        forall|i: int| 0 <= i < pairs@.len() ==> (#[trigger] pairs@[i].1).units > i64::MIN,
    ensures
        r.wf(),
        r@ == blackboard_map(pairs@).insert("duration"@, duration),
        blackboard_ok(r@),
{
    let mut d: Dict<FixedValue> = Dict::new();
    let n = pairs.len();
    let mut i: usize = 0;
    proof {
        assert(pairs@.take(0) =~= Seq::<(String, FixedValue)>::empty());
        assert(d@ =~= blackboard_map(pairs@.take(0)));
    }
    while i < n
        invariant
            i <= n,
            n == pairs@.len(),
            d.wf(),
            d@ == blackboard_map(pairs@.take(i as int)),
            blackboard_ok(d@),
            forall|j: int| 0 <= j < pairs@.len() ==> (#[trigger] pairs@[j].1).units > i64::MIN,
        decreases n - i,
    {
        let key_chars = string_to_chars(pairs[i].0.as_str());
        let lowered = chars_to_string(&lower_vec(&key_chars));
        d.insert(lowered, pairs[i].1);
        i = i + 1;
        proof {
            assert(pairs@.take(i as int).drop_last() =~= pairs@.take(i as int - 1));
            assert(pairs@.take(i as int).last() == pairs@[i as int - 1]);
        }
    }
    proof {
        assert(pairs@.take(n as int) =~= pairs@);
    }
    let duration_key: String = duration_key_string();
    d.insert(duration_key, duration);
    d
}

/// The spelled-out blackboard key every instance's duration is stored
/// under.
fn duration_key_string() -> (r: String)
    ensures
        r@ == "duration"@,
{
    let mut v: Vec<char> = Vec::new();
    v.push('d');
    v.push('u');
    v.push('r');
    v.push('a');
    v.push('t');
    v.push('i');
    v.push('o');
    v.push('n');
    proof {
        reveal_strlit("duration");
        assert(v@ =~= "duration"@);
    }
    chars_to_string(&v)
}

} // verus!

