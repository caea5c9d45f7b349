//! The alias table as text.
//!
//! The table is read line by line. A line states a rule where it has the
//! shape
//!
//! ```text
//! Canonical Name <canonical@address> Raw Name <raw@address>
//! ```
//!
//! in which the raw name may be missing. Blanks around the names do not
//! count. A line whose first character that is no blank is `#` is a comment.
//! Comments, empty lines and lines of any other shape state no rule.

use crate::alias::{AliasResolver, AliasRule, AliasRuleView};
use vstd::prelude::*;
use vstd::string::*;

verus! {

/// Whether `c` is a blank: a space, a tab or a carriage return.
pub open spec fn is_blank(c: char) -> bool {
    c == ' ' || c == '\t' || c == '\r'
}

/// The first position in `from..end` at which `text` holds `c`, or `end`
/// where it holds none there.
pub open spec fn find_in(text: Seq<char>, c: char, from: int, end: int) -> int
    decreases end - from,
{
    if from >= end {
        end
    } else if text[from] == c {
        from
    } else {
        find_in(text, c, from + 1, end)
    }
}

/// The first position in `from..end` at which `text` holds no blank, or
/// `end` where it holds only blanks there.
pub open spec fn skip_blanks(text: Seq<char>, from: int, end: int) -> int
    decreases end - from,
{
    if from >= end {
        end
    } else if !is_blank(text[from]) {
        from
    } else {
        skip_blanks(text, from + 1, end)
    }
}

/// The position after the last character in `from..end` that is no blank, or
/// `from` where `text` holds only blanks there.
pub open spec fn drop_blanks(text: Seq<char>, from: int, end: int) -> int
    decreases end - from,
{
    if end <= from {
        from
    } else if !is_blank(text[end - 1]) {
        end
    } else {
        drop_blanks(text, from, end - 1)
    }
}

/// The part `from..end` of `text` without the blanks at its two ends.
pub open spec fn trimmed(text: Seq<char>, from: int, end: int) -> Seq<char> {
    let low = skip_blanks(text, from, end);
    text.subrange(low, drop_blanks(text, low, end))
}

/// The rule that the line `from..end` of `text` states, or `None` where it
/// states none.
///
/// The first `<` ends the canonical name, the next `>` ends the canonical
/// address, the next `<` ends the raw name and the next `>` ends the raw
/// address; after it only blanks may follow. The canonical name and the two
/// addresses may not be empty.
pub open spec fn rule_at(text: Seq<char>, from: int, end: int) -> Option<AliasRuleView> {
    let start = skip_blanks(text, from, end);
    let a = find_in(text, '<', from, end);
    let b = find_in(text, '>', a + 1, end);
    let c = find_in(text, '<', b + 1, end);
    let d = find_in(text, '>', c + 1, end);
    let canonical_name = trimmed(text, from, a);
    let raw_name = trimmed(text, b + 1, c);
    if start < end && text[start] == '#' {
        None
    } else if !(a < end && b < end && c < end && d < end) {
        None
    } else if canonical_name.len() == 0 || b == a + 1 || d == c + 1 {
        None
    } else if skip_blanks(text, d + 1, end) != end {
        None
    } else {
        Some(
            AliasRuleView {
                canonical_name,
                canonical_email: text.subrange(a + 1, b),
                raw_name: if raw_name.len() == 0 {
                    None
                } else {
                    Some(raw_name)
                },
                raw_email: text.subrange(c + 1, d),
            },
        )
    }
}

/// What `find_in` gives lies in `from..=end`.
pub proof fn lemma_find_in_bounds(text: Seq<char>, c: char, from: int, end: int)
    requires
        from <= end,
    ensures
        from <= find_in(text, c, from, end) <= end,
    decreases end - from,
{
    if from < end && text[from] != c {
        lemma_find_in_bounds(text, c, from + 1, end);
    }
}

/// The rules that the lines of `text` from position `from` on state, in
/// their order. Lines end at a line feed or at the end of the text.
pub open spec fn rules_from(text: Seq<char>, from: int) -> Seq<AliasRuleView>
    decreases text.len() + 1 - from,
    via rules_from_ends
{
    if from < 0 || from >= text.len() {
        Seq::empty()
    } else {
        let end = find_in(text, '\n', from, text.len() as int);
        let rest = rules_from(text, end + 1);
        match rule_at(text, from, end) {
            Some(rule) => seq![rule] + rest,
            None => rest,
        }
    }
}

/// A line ends at or after its first position, so the lines after it are
/// nearer to the end of the text.
#[via_fn]
proof fn rules_from_ends(text: Seq<char>, from: int) {
    if 0 <= from < text.len() {
        lemma_find_in_bounds(text, '\n', from, text.len() as int);
    }
}

/// The rules that `text` states.
pub open spec fn rules_in(text: Seq<char>) -> Seq<AliasRuleView> {
    rules_from(text, 0)
}

/// The characters of `text`, one by one.
pub fn chars_of(text: &str) -> (chars: Vec<char>)
    ensures
        chars@ == text@,
{
    let mut chars: Vec<char> = Vec::new();
    for c in it: text.chars()
        invariant
            chars@ == it.seq().take(it.index()),
    {
        chars.push(c);
    }
    chars
}

/// Whether `c` is a blank.
pub fn blank(c: char) -> (r: bool)
    ensures
        r == is_blank(c),
{
    c == ' ' || c == '\t' || c == '\r'
}

/// The first position in `from..end` at which `chars` holds `c`, or `end`.
pub fn find_char(chars: &Vec<char>, c: char, from: usize, end: usize) -> (at: usize)
    requires
        end <= chars.len(),
    ensures
        at == find_in(chars@, c, from as int, end as int),
        from <= end ==> from <= at <= end,
{
    if from >= end {
        return end;
    }
    let mut i: usize = from;
    while i < end
        invariant
            from <= i <= end <= chars.len(),
            find_in(chars@, c, from as int, end as int) == find_in(chars@, c, i as int, end as int),
        decreases end - i,
    {
        if chars[i] == c {
            return i;
        }
        i += 1;
    }
    end
}

/// The first position in `from..end` at which `chars` holds no blank, or
/// `end`.
pub fn skip_blank(chars: &Vec<char>, from: usize, end: usize) -> (at: usize)
    requires
        end <= chars.len(),
    ensures
        at == skip_blanks(chars@, from as int, end as int),
        from <= end ==> from <= at <= end,
{
    if from >= end {
        return end;
    }
    let mut i: usize = from;
    while i < end
        invariant
            from <= i <= end <= chars.len(),
            skip_blanks(chars@, from as int, end as int) == skip_blanks(
                chars@,
                i as int,
                end as int,
            ),
        decreases end - i,
    {
        if !blank(chars[i]) {
            return i;
        }
        i += 1;
    }
    end
}

/// The position after the last character in `from..end` that is no blank, or
/// `from`.
pub fn drop_blank(chars: &Vec<char>, from: usize, end: usize) -> (at: usize)
    requires
        end <= chars.len(),
    ensures
        at == drop_blanks(chars@, from as int, end as int),
        from <= end ==> from <= at <= end,
{
    if end <= from {
        return from;
    }
    let mut i: usize = end;
    while i > from
        invariant
            from <= i <= end <= chars.len(),
            drop_blanks(chars@, from as int, end as int) == drop_blanks(
                chars@,
                from as int,
                i as int,
            ),
        decreases i - from,
    {
        if !blank(chars[i - 1]) {
            return i;
        }
        i -= 1;
    }
    from
}

/// The part `from..end` of `text` without the blanks at its two ends.
/// `chars` holds the characters of `text`.
pub fn trim(text: &str, chars: &Vec<char>, from: usize, end: usize) -> (r: String)
    requires
        chars@ == text@,
        from <= end <= chars.len(),
    ensures
        r@ == trimmed(text@, from as int, end as int),
{
    let low = skip_blank(chars, from, end);
    let high = drop_blank(chars, low, end);
    text.substring_char(low, high).to_owned()
}

/// The rule that the line `from..end` of `text` states. `chars` holds the
/// characters of `text`.
pub fn parse_line(text: &str, chars: &Vec<char>, from: usize, end: usize) -> (r: Option<
    AliasRule,
>)
    requires
        chars@ == text@,
        from <= end <= chars.len(),
    ensures
        match r {
            Some(rule) => rule_at(text@, from as int, end as int) == Some(rule@),
            None => rule_at(text@, from as int, end as int) is None,
        },
{
    let start = skip_blank(chars, from, end);
    if start < end && chars[start] == '#' {
        return None;
    }
    let a = find_char(chars, '<', from, end);
    if a >= end {
        return None;
    }
    let b = find_char(chars, '>', a + 1, end);
    if b >= end {
        return None;
    }
    let c = find_char(chars, '<', b + 1, end);
    if c >= end {
        return None;
    }
    let d = find_char(chars, '>', c + 1, end);
    if d >= end {
        return None;
    }
    if b == a + 1 || d == c + 1 {
        return None;
    }
    if skip_blank(chars, d + 1, end) != end {
        return None;
    }
    let canonical_name = trim(text, chars, from, a);
    if canonical_name.as_str().unicode_len() == 0 {
        return None;
    }
    let raw_name = trim(text, chars, b + 1, c);
    let raw_name = if raw_name.as_str().unicode_len() == 0 {
        None
    } else {
        Some(raw_name)
    };
    Some(
        AliasRule {
            canonical_name,
            canonical_email: text.substring_char(a + 1, b).to_owned(),
            raw_name,
            raw_email: text.substring_char(c + 1, d).to_owned(),
        },
    )
}

/// The rules that `text` states, in the order of its lines.
pub fn parse_rules(text: &str) -> (rules: Vec<AliasRule>)
    ensures
        rules.deep_view() == rules_in(text@),
{
    let chars = chars_of(text);
    let n = chars.len();
    let mut rules: Vec<AliasRule> = Vec::new();
    let mut from: usize = 0;
    assert(rules.deep_view() + rules_from(text@, 0) =~= rules_in(text@));
    while from < n
        invariant
            chars@ == text@,
            n == chars.len(),
            from <= n,
            rules.deep_view() + rules_from(text@, from as int) == rules_in(text@),
        decreases n - from,
    {
        let end = find_char(&chars, '\n', from, n);
        let ghost before = rules.deep_view();
        let ghost rest = rules_from(text@, end + 1);
        match parse_line(text, &chars, from, end) {
            Some(rule) => {
                rules.push(rule);
                assert(rules.deep_view() =~= before.push(rule@));
                assert(before.push(rule@) + rest =~= before + (seq![rule@] + rest));
            },
            None => {},
        }
        if end < n {
            from = end + 1;
        } else {
            from = n;
        }
    }
    assert(rules.deep_view() + rules_from(text@, from as int) =~= rules.deep_view());
    rules
}

impl AliasResolver {
    /// The alias table that `text` states. An empty text, or one without a
    /// line that states a rule, gives the table without rules.
    pub fn new(text: &str) -> (r: AliasResolver)
        ensures
            r@ == rules_in(text@),
    {
        AliasResolver::from_rules(parse_rules(text))
    }
}

} // verus!
