//! Operator archive files: titled text entries behind unlock conditions.

use vstd::prelude::*;
use crate::chars::{chars_to_string, string_to_chars};
use crate::promotion::PromotionAndLevel;

verus! {

/// The unlock condition of an archive file entry.
#[derive(Debug)]
pub enum OperatorFileUnlock {
    /// The entry is always readable.
    AlwaysUnlocked,
    /// The entry unlocks at this trust value.
    Trust(u32),
    /// The entry unlocks at this promotion and level.
    PromotionLevel(PromotionAndLevel),
    /// The entry unlocks when the player owns another given operator.
    OperatorUnlocked(String),
}

impl OperatorFileUnlock {
    /// Which states pass this condition. Owning another operator is not
    /// part of the state, so that condition never passes here and is to be
    /// handled by the caller.
    pub open spec fn spec_test(self, promotion_and_level: PromotionAndLevel, trust: u32) -> bool {
        match self {
            OperatorFileUnlock::AlwaysUnlocked => true,
            OperatorFileUnlock::Trust(condition) => condition <= trust,
            OperatorFileUnlock::PromotionLevel(condition) => condition.spec_le(
                promotion_and_level,
            ),
            OperatorFileUnlock::OperatorUnlocked(_) => false,
        }
    }

    /// Tests this condition against a promotion, level and trust state.
    pub fn test(&self, promotion_and_level: PromotionAndLevel, trust: u32) -> (r: bool)
        ensures
            r == self.spec_test(promotion_and_level, trust),
    {
        match self {
            OperatorFileUnlock::AlwaysUnlocked => true,
            OperatorFileUnlock::Trust(condition) => *condition <= trust,
            OperatorFileUnlock::PromotionLevel(condition) => condition.le(&promotion_and_level),
            OperatorFileUnlock::OperatorUnlocked(_) => false,
        }
    }
}

/// Whether `c` counts as blank when a line is trimmed.
pub open spec fn is_blank(c: char) -> bool {
    c == ' ' || c == '\t' || c == '\r' || c == '\n'
}

/// The first position at or after `i` that is not blank.
pub open spec fn trim_start_idx(s: Seq<char>, i: int) -> int
    decreases s.len() - i,
{
    if 0 <= i < s.len() && is_blank(s[i]) {
        trim_start_idx(s, i + 1)
    } else {
        i
    }
}

/// The position after the last non-blank character before `j`.
pub open spec fn trim_end_idx(s: Seq<char>, j: int) -> int
    decreases j,
{
    if 0 < j <= s.len() && is_blank(s[j - 1]) {
        trim_end_idx(s, j - 1)
    } else {
        j
    }
}

/// The text with leading and trailing blanks removed.
pub open spec fn trim_spec(s: Seq<char>) -> Seq<char> {
    let a = trim_start_idx(s, 0);
    let b = trim_end_idx(s, s.len() as int);
    if a < b {
        s.subrange(a, b)
    } else {
        Seq::empty()
    }
}

/// The position of the first newline at or after `i`, or the text's length.
pub open spec fn next_newline(s: Seq<char>, i: int) -> int
    decreases s.len() - i,
{
    if 0 <= i < s.len() {
        if s[i] == '\n' {
            i
        } else {
            next_newline(s, i + 1)
        }
    } else {
        s.len() as int
    }
}

/// The position of the first `"] "` separator at or after `i` in a line, or
/// the line's length when there is none.
pub open spec fn next_separator(s: Seq<char>, i: int) -> int
    decreases s.len() - i,
{
    if 0 <= i && i + 1 < s.len() {
        if s[i] == ']' && s[i + 1] == ' ' {
            i
        } else {
            next_separator(s, i + 1)
        }
    } else {
        s.len() as int
    }
}

/// What a single line contributes to a header search: the text after the
/// separator when the line trims to `[name] text` with the searched name,
/// nothing otherwise.
pub open spec fn line_match(line: Seq<char>, name: Seq<char>) -> Option<Seq<char>> {
    let t = trim_spec(line);
    if t.len() > 0 && t[0] == '[' {
        let rest = t.skip(1);
        let k = next_separator(rest, 0);
        if k + 1 < rest.len() {
            if rest.take(k) == name {
                Some(rest.skip(k + 2))
            } else {
                None
            }
        } else {
            None
        }
    } else {
        None
    }
}

/// The newline scan never moves backwards nor past the end.
pub proof fn lemma_next_newline_bounds(s: Seq<char>, i: int)
    requires
        0 <= i <= s.len(),
    ensures
        i <= next_newline(s, i) <= s.len(),
    decreases s.len() - i,
{
    if i < s.len() && s[i] != '\n' {
        lemma_next_newline_bounds(s, i + 1);
    }
}

/// The first line at or after `i` that matches the searched header, walked
/// line by line.
pub open spec fn find_line_from(s: Seq<char>, name: Seq<char>, i: int) -> Option<Seq<char>>
    decreases s.len() - i when 0 <= i via find_line_from_decreases
{
    if i > s.len() {
        None
    } else {
        let j = next_newline(s, i);
        let m = line_match(s.subrange(i, j), name);
        if m is Some {
            m
        } else if j >= s.len() {
            None
        } else {
            find_line_from(s, name, j + 1)
        }
    }
}

#[via_fn]
proof fn find_line_from_decreases(s: Seq<char>, name: Seq<char>, i: int) {
    if 0 <= i <= s.len() {
        lemma_next_newline_bounds(s, i);
    }
}

/// The text of the first line of `s` that trims to `[name] text`.
pub open spec fn find_line_spec(s: Seq<char>, name: Seq<char>) -> Option<Seq<char>> {
    find_line_from(s, name, 0)
}

/// A single entry in an operator's archive file.
#[derive(Debug)]
pub struct OperatorFileEntry {
    pub title: String,
    pub text: String,
    pub unlock_condition: OperatorFileUnlock,
}

impl OperatorFileEntry {
    /// Searches the entry's text for a line headed by a bracketed name,
    /// `[name] text`, and hands the text after the header back.
    pub fn find_line(&self, name: &str) -> (r: Option<String>)
        ensures
            match r {
                Some(text) => find_line_spec(self.text@, name@) == Some(text@),
                None => find_line_spec(self.text@, name@) is None,
            },
    {
        let s = string_to_chars(self.text.as_str());
        let target = string_to_chars(name);
        let n = s.len();
        let mut i: usize = 0;
        loop
            invariant
                0 <= i <= n + 1,
                n == s@.len(),
                s@ == self.text@,
                target@ == name@,
                find_line_spec(self.text@, name@) == find_line_from(s@, name@, i as int),
            decreases n + 1 - i,
        {
            if i > n {
                return None;
            }
            let j = next_newline_exec(&s, i);
            let m = match_line_exec(&s, i, j, &target);
            match m {
                Some(text) => {
                    return Some(chars_to_string(&text));
                },
                None => {},
            }
            if j >= n {
                return None;
            }
            i = j + 1;
        }
    }

    /// Whether this entry's unlock condition passes at the given state;
    /// a condition on owning another operator never passes here.
    pub fn is_unlocked(&self, promotion_and_level: PromotionAndLevel, trust: u32) -> (r: bool)
        ensures
            r == self.unlock_condition.spec_test(promotion_and_level, trust),
    {
        self.unlock_condition.test(promotion_and_level, trust)
    }
}

/// The entries of an archive file that are unlocked at a state, in order.
pub open spec fn unlocked_entries(
    s: Seq<OperatorFileEntry>,
    promotion_and_level: PromotionAndLevel,
    trust: u32,
) -> Seq<OperatorFileEntry>
    decreases s.len(),
{
    if s.len() == 0 {
        Seq::empty()
    } else if s.last().unlock_condition.spec_test(promotion_and_level, trust) {
        unlocked_entries(s.drop_last(), promotion_and_level, trust).push(s.last())
    } else {
        unlocked_entries(s.drop_last(), promotion_and_level, trust)
    }
}

/// An operator's archive file: its text entries, in order.
#[derive(Debug)]
pub struct OperatorFile {
    /// The ID of the operator this file belongs to.
    pub operator_id: String,
    /// The artist credited for this operator in the raw data.
    pub illustrator_name: String,
    pub entries: Vec<OperatorFileEntry>,
}

impl OperatorFile {
    /// Borrows all entries, in order.
    pub fn iter(&self) -> (r: &Vec<OperatorFileEntry>)
        ensures
            r@ == self.entries@,
    {
        &self.entries
    }

    /// Borrows the entries whose unlock condition passes at the given
    /// state, in order.
    pub fn iter_unlocked(&self, promotion_and_level: PromotionAndLevel, trust: u32) -> (r: Vec<
        &OperatorFileEntry,
    >)
        ensures
            r@.len() == unlocked_entries(self.entries@, promotion_and_level, trust).len(),
            forall|k: int|
                0 <= k < r@.len() ==> *(#[trigger] r@[k]) == unlocked_entries(
                    self.entries@,
                    promotion_and_level,
                    trust,
                )[k],
    {
        let n = self.entries.len();
        let mut out: Vec<&OperatorFileEntry> = Vec::new();
        let mut i: usize = 0;
        proof {
            assert(self.entries@.take(0) =~= Seq::<OperatorFileEntry>::empty());
        }
        while i < n
            invariant
                i <= n,
                n == self.entries@.len(),
                out@.len() == unlocked_entries(
                    self.entries@.take(i as int),
                    promotion_and_level,
                    trust,
                ).len(),
                forall|k: int|
                    0 <= k < out@.len() ==> *(#[trigger] out@[k]) == unlocked_entries(
                        self.entries@.take(i as int),
                        promotion_and_level,
                        trust,
                    )[k],
            decreases n - i,
        {
            let unlocked = self.entries[i].is_unlocked(promotion_and_level, trust);
            proof {
                assert(self.entries@.take(i + 1).drop_last() =~= self.entries@.take(i as int));
                assert(self.entries@.take(i + 1).last() == self.entries@[i as int]);
            }
            if unlocked {
                out.push(&self.entries[i]);
            }
            i = i + 1;
        }
        proof {
            assert(self.entries@.take(n as int) =~= self.entries@);
        }
        out
    }
}

/// Finds the first newline at or after `i`.
fn next_newline_exec(s: &Vec<char>, i: usize) -> (r: usize)
    requires
        i <= s@.len(),
    ensures
        r as int == next_newline(s@, i as int),
        i <= r <= s@.len(),
{
    let n = s.len();
    let mut j: usize = i;
    while j < n && s[j] != '\n'
        invariant
            i <= j <= n,
            n == s@.len(),
            next_newline(s@, i as int) == next_newline(s@, j as int),
        decreases n - j,
    {
        j = j + 1;
    }
    j
}

/// The start scan never moves backwards nor past the end.
proof fn lemma_trim_start_bounds(s: Seq<char>, i: int)
    requires
        0 <= i <= s.len(),
    ensures
        i <= trim_start_idx(s, i) <= s.len(),
    decreases s.len() - i,
{
    if i < s.len() && is_blank(s[i]) {
        lemma_trim_start_bounds(s, i + 1);
    }
}

/// The end scan never moves forwards nor below zero.
proof fn lemma_trim_end_bounds(s: Seq<char>, j: int)
    requires
        0 <= j <= s.len(),
    ensures
        0 <= trim_end_idx(s, j) <= j,
    decreases j,
{
    if 0 < j && is_blank(s[j - 1]) {
        lemma_trim_end_bounds(s, j - 1);
    }
}

/// Extracts the line between `from` and `to` and tests it against the
/// searched header name.
fn match_line_exec(s: &Vec<char>, from: usize, to: usize, name: &Vec<char>) -> (r: Option<
    Vec<char>,
>)
    requires
        from <= to <= s@.len(),
    ensures
        match r {
            Some(text) => line_match(s@.subrange(from as int, to as int), name@) == Some(text@),
            None => line_match(s@.subrange(from as int, to as int), name@) is None,
        },
{
    let ghost line = s@.subrange(from as int, to as int);
    let mut a: usize = from;
    while a < to && is_blank_exec(s[a])
        invariant
            from <= a <= to <= s@.len(),
            line == s@.subrange(from as int, to as int),
            trim_start_idx(line, 0) == trim_start_idx(line, a - from),
        decreases to - a,
    {
        proof {
            assert(line[a - from] == s@[a as int]);
        }
        a = a + 1;
    }
    proof {
        assert(a < to ==> line[a - from] == s@[a as int]);
        assert(trim_start_idx(line, a - from) == a - from);
    }
    let mut b: usize = to;
    while b > a && is_blank_exec(s[b - 1])
        invariant
            from <= a <= b <= to <= s@.len(),
            line == s@.subrange(from as int, to as int),
            trim_end_idx(line, to - from) == trim_end_idx(line, b - from),
        decreases b,
    {
        proof {
            assert(line[b - from - 1] == s@[b - 1]);
        }
        b = b - 1;
    }
    if a >= b {
        proof {
            lemma_trim_end_bounds(line, (b - from) as int);
            assert(trim_end_idx(line, to - from) <= a - from);
            assert(trim_spec(line).len() == 0);
        }
        return None;
    }
    proof {
        assert(line[b - from - 1] == s@[b - 1]);
        assert(trim_end_idx(line, b - from) == b - from);
        assert(trim_spec(line) =~= s@.subrange(a as int, b as int));
    }
    let ghost t = trim_spec(line);
    if s[a] != '[' {
        proof {
            assert(t[0] == s@[a as int]);
        }
        return None;
    }
    let rest_start = a + 1;
    proof {
        assert(t[0] == s@[a as int]);
        assert(t.skip(1) =~= s@.subrange(rest_start as int, b as int));
    }
    let ghost rest = t.skip(1);
    let mut k: usize = rest_start;
    while k < b - 1 && !(s[k] == ']' && s[k + 1] == ' ')
        invariant
            1 <= rest_start <= k <= b,
            b <= s@.len(),
            rest == s@.subrange(rest_start as int, b as int),
            next_separator(rest, 0) == next_separator(rest, k - rest_start),
        decreases b - k,
    {
        proof {
            assert(rest[k - rest_start] == s@[k as int]);
            assert(rest[k - rest_start + 1] == s@[k + 1]);
        }
        k = k + 1;
    }
    if k >= b - 1 {
        proof {
            assert(next_separator(rest, k - rest_start) == rest.len());
        }
        return None;
    }
    proof {
        assert(rest[k - rest_start] == s@[k as int]);
        assert(rest[k - rest_start + 1] == s@[k + 1]);
        assert(next_separator(rest, k - rest_start) == k - rest_start);
    }
    let name_len = k - rest_start;
    if name_len != name.len() {
        proof {
            assert(rest.take(k - rest_start).len() != name@.len());
        }
        return None;
    }
    let mut p: usize = 0;
    while p < name_len
        invariant
            p <= name_len,
            name_len == name@.len(),
            rest_start + name_len + 1 < b <= s@.len(),
            rest == s@.subrange(rest_start as int, b as int),
            forall|q: int| 0 <= q < p ==> rest[q] == name@[q],
            line_match(s@.subrange(from as int, to as int), name@) == (if rest.take(
                name_len as int,
            ) == name@ {
                Some(rest.skip(name_len + 2))
            } else {
                Option::<Seq<char>>::None
            }),
        decreases name_len - p,
    {
        if s[rest_start + p] != name[p] {
            proof {
                assert(rest[p as int] == s@[rest_start + p]);
                assert(rest.take(name_len as int)[p as int] != name@[p as int]);
            }
            return None;
        }
        proof {
            assert(rest[p as int] == s@[rest_start + p]);
        }
        p = p + 1;
    }
    proof {
        assert(rest.take(name_len as int) =~= name@);
    }
    let text = crate::chars::copy_range(s, k + 2, b);
    proof {
        assert(text@ =~= rest.skip(k - rest_start + 2));
    }
    Some(text)
}

/// Whether `c` counts as blank.
fn is_blank_exec(c: char) -> (r: bool)
    ensures
        r == is_blank(c),
{
    c == ' ' || c == '\t' || c == '\r' || c == '\n'
}

} // verus!
