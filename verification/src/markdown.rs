//! Markdown line handling for the requirement rule engine: headings, list
//! markers, check boxes, links and inline emphasis.
use vstd::prelude::*;
use crate::text::{
    chars_of, copy_chars, drop_leading, extend_chars, find_chars_from, find_from, leading_end,
    lemma_find_from_bounds, opt_view, slice_vec, starts_with, strip_chars,
    strip_class, strip_prefix, strip_prefix_str, string_of, trim, trim_chars, CharClass,
};

verus! {

/// `s` with every non-overlapping pair `cc` removed, scanning left to right
/// (`str::replace` of a doubled character by nothing).
pub open spec fn remove_doubled(s: Seq<char>, c: char) -> Seq<char>
    decreases s.len(),
{
    if s.len() == 0 {
        s
    } else if s.len() >= 2 && s[0] == c && s[1] == c {
        remove_doubled(s.skip(2), c)
    } else {
        seq![s[0]] + remove_doubled(s.skip(1), c)
    }
}

/// `s` without any `[` or `]`.
pub open spec fn remove_brackets(s: Seq<char>) -> Seq<char>
    decreases s.len(),
{
    if s.len() == 0 {
        s
    } else {
        let p = remove_brackets(s.drop_last());
        if s.last() == '[' || s.last() == ']' {
            p
        } else {
            p.push(s.last())
        }
    }
}

/// The text before a link: the text before `[` without one trailing `!`.
pub open spec fn link_prefix(s: Seq<char>) -> Seq<char> {
    if s.len() > 0 && s.last() == '!' {
        s.drop_last()
    } else {
        s
    }
}

/// `[text](url)` and `![alt](url)` replaced by their text; the URL is dropped.
pub open spec fn strip_links(s: Seq<char>) -> Seq<char>
    decreases s.len(),
{
    match find_from(s, seq!['['], 0) {
        None => s,
        Some(open) => match find_from(s, seq![']', '('], open) {
            None => s,
            Some(sep) => match find_from(s, seq![')'], sep + 2) {
                None => s,
                Some(close) => {
                    proof {
                        lemma_find_from_bounds(s, seq![')'], sep + 2);
                        lemma_find_from_bounds(s, seq![']', '('], open);
                        lemma_find_from_bounds(s, seq!['['], 0);
                    }
                    link_prefix(s.take(open)) + s.subrange(open + 1, sep) + strip_links(
                        s.skip(close + 1),
                    )
                },
            },
        },
    }
}

/// Inline markdown removed: links, surrounding backticks, `**`, `__`, and
/// square brackets, then surrounding white space.
pub open spec fn strip_inline(s: Seq<char>) -> Seq<char> {
    trim(
        remove_brackets(
            remove_doubled(
                remove_doubled(strip_class(strip_links(trim(s)), CharClass::Backtick), '*'),
                '_',
            ),
        ),
    )
}

/// A heading line: its level (number of leading `#`, 1 to 6) and its text.
pub open spec fn parse_heading_spec(line: Seq<char>) -> Option<(nat, Seq<char>)> {
    let rest = drop_leading(line, CharClass::Hash);
    let hashes = line.len() - rest.len();
    if hashes == 0 || hashes > 6 {
        None
    } else if trim(rest).len() == 0 {
        None
    } else {
        Some((hashes as nat, strip_inline(trim(rest))))
    }
}

/// A leading `[ ] `, `[x] ` or `[X] ` check box removed (after leading white space).
pub open spec fn strip_checkbox_spec(text: Seq<char>) -> Seq<char> {
    let t = drop_leading(text, CharClass::Whitespace);
    match strip_prefix(t, "[ ] "@) {
        Some(r) => r,
        None => match strip_prefix(t, "[x] "@) {
            Some(r) => r,
            None => match strip_prefix(t, "[X] "@) {
                Some(r) => r,
                None => t,
            },
        },
    }
}

/// The text of a list item (`- `, `* `, `+ `, `1. ` or `1) `), or `None`.
pub open spec fn strip_list_marker_spec(line: Seq<char>) -> Option<Seq<char>> {
    let l = drop_leading(line, CharClass::Whitespace);
    match strip_prefix(l, "- "@) {
        Some(r) => Some(strip_checkbox_spec(r)),
        None => match strip_prefix(l, "* "@) {
            Some(r) => Some(strip_checkbox_spec(r)),
            None => match strip_prefix(l, "+ "@) {
                Some(r) => Some(strip_checkbox_spec(r)),
                None => {
                    let rest = drop_leading(l, CharClass::AsciiDigit);
                    if rest.len() == l.len() {
                        None
                    } else {
                        match strip_prefix(rest, ". "@) {
                            Some(r) => Some(r),
                            None => strip_prefix(rest, ") "@),
                        }
                    }
                },
            },
        },
    }
}

pub fn remove_doubled_chars(v: &[char], c: char) -> (r: Vec<char>)
    ensures
        r@ == remove_doubled(v@, c),
{
    let mut out: Vec<char> = Vec::new();
    let mut i: usize = 0;
    assert(v@.skip(0) == v@);
    while i < v.len()
        invariant
            i <= v@.len(),
            remove_doubled(v@, c) == out@ + remove_doubled(v@.skip(i as int), c),
        decreases v.len() - i,
    {
        let ghost rest = v@.skip(i as int);
        if i + 1 < v.len() && v[i] == c && v[i + 1] == c {
            assert(rest.skip(2) == v@.skip(i + 2));
            i = i + 2;
        } else {
            assert(rest.skip(1) == v@.skip(i + 1));
            assert(rest[0] == v@[i as int]);
            out.push(v[i]);
            i = i + 1;
        }
    }
    assert(v@.skip(i as int).len() == 0);
    r_done(out, v, c)
}

fn r_done(out: Vec<char>, v: &[char], c: char) -> (r: Vec<char>)
    requires
        remove_doubled(v@, c) == out@ + remove_doubled(v@.skip(v@.len() as int), c),
    ensures
        r@ == remove_doubled(v@, c),
{
    assert(v@.skip(v@.len() as int) =~= Seq::<char>::empty());
    assert(out@ + Seq::<char>::empty() == out@);
    out
}

pub fn remove_bracket_chars(v: &[char]) -> (r: Vec<char>)
    ensures
        r@ == remove_brackets(v@),
{
    let mut out: Vec<char> = Vec::new();
    let mut i: usize = 0;
    assert(v@.take(0) == Seq::<char>::empty());
    while i < v.len()
        invariant
            i <= v@.len(),
            out@ == remove_brackets(v@.take(i as int)),
        decreases v.len() - i,
    {
        assert(v@.take(i + 1).drop_last() == v@.take(i as int));
        assert(v@.take(i + 1).last() == v@[i as int]);
        if v[i] != '[' && v[i] != ']' {
            out.push(v[i]);
        }
        i = i + 1;
    }
    assert(v@.take(v@.len() as int) == v@);
    out
}

/// Link markup replaced by the link text.
pub fn strip_markdown_links(text: &[char]) -> (r: Vec<char>)
    ensures
        r@ == strip_links(text@),
{
    let mut result: Vec<char> = Vec::new();
    let mut rest = copy_chars(text);
    let open_pat = ['['];
    let sep_pat = [']', '('];
    let close_pat = [')'];
    assert(open_pat@ == seq!['[']);
    assert(sep_pat@ == seq![']', '(']);
    assert(close_pat@ == seq![')']);
    loop
        invariant
            strip_links(text@) == result@ + strip_links(rest@),
            open_pat@ == seq!['['],
            sep_pat@ == seq![']', '('],
            close_pat@ == seq![')'],
        ensures
            strip_links(text@) == result@ + rest@,
        decreases rest@.len(),
    {
        let open = match find_chars_from(rest.as_slice(), &open_pat, 0) {
            Some(o) => o,
            None => break,
        };
        let sep = match find_chars_from(rest.as_slice(), &sep_pat, open) {
            Some(s) => s,
            None => break,
        };
        assert(rest@.subrange(open as int, open + 1)[0] == '[');
        assert(rest@.subrange(sep as int, sep + 2)[0] == ']');
        assert(rest@[open as int] == '[');
        assert(rest@[sep as int] == ']');
        assert(sep + 2 <= rest.len());
        let close = match find_chars_from(rest.as_slice(), &close_pat, sep + 2) {
            Some(c) => c,
            None => break,
        };
        let mut before = slice_vec(rest.as_slice(), 0, open);
        assert(rest@.subrange(0, open as int) == rest@.take(open as int));
        if before.len() > 0 && before[before.len() - 1] == '!' {
            before.pop();
        }
        extend_chars(&mut result, before.as_slice());
        let inner = slice_vec(rest.as_slice(), open + 1, sep);
        extend_chars(&mut result, inner.as_slice());
        let next = slice_vec(rest.as_slice(), close + 1, rest.len());
        assert(rest@.subrange(close + 1, rest@.len() as int) == rest@.skip(close + 1));
        rest = next;
    }
    extend_chars(&mut result, rest.as_slice());
    result
}

/// Inline markdown removed (links, code backticks at the ends, `**`, `__`,
/// brackets).
pub fn strip_inline_chars(text: &[char]) -> (r: Vec<char>)
    ensures
        r@ == strip_inline(text@),
{
    let t = trim_chars(text);
    let links = strip_markdown_links(t.as_slice());
    let ticks = strip_chars(links.as_slice(), CharClass::Backtick);
    let stars = remove_doubled_chars(ticks.as_slice(), '*');
    let unders = remove_doubled_chars(stars.as_slice(), '_');
    let brackets = remove_bracket_chars(unders.as_slice());
    trim_chars(brackets.as_slice())
}

/// Inline markdown removed from a string.
pub fn strip_inline_markdown(text: &str) -> (r: String)
    ensures
        r@ == strip_inline(text@),
{
    let v = chars_of(text);
    let r = strip_inline_chars(v.as_slice());
    string_of(r.as_slice())
}

pub open spec fn heading_view(r: Option<(usize, String)>) -> Option<(nat, Seq<char>)> {
    match r {
        Some((level, text)) => Some((level as nat, text@)),
        None => None,
    }
}

/// Parses a Markdown heading line into its level and text.
pub fn parse_heading(line: &str) -> (r: Option<(usize, String)>)
    ensures
        heading_view(r) == parse_heading_spec(line@),
{
    let v = chars_of(line);
    assert(v@.subrange(0, v@.len() as int) == v@);
    let hashes = leading_end(v.as_slice(), 0, v.len(), CharClass::Hash);
    if hashes == 0 || hashes > 6 {
        return None;
    }
    let rest = slice_vec(v.as_slice(), hashes, v.len());
    let trimmed = trim_chars(rest.as_slice());
    if trimmed.len() == 0 {
        return None;
    }
    let text = strip_inline_chars(trimmed.as_slice());
    Some((hashes, string_of(text.as_slice())))
}

/// Removes a leading check box.
pub fn strip_checkbox(text: &[char]) -> (r: Vec<char>)
    ensures
        r@ == strip_checkbox_spec(text@),
{
    assert(text@.subrange(0, text@.len() as int) == text@);
    let start = leading_end(text, 0, text.len(), CharClass::Whitespace);
    let t = slice_vec(text, start, text.len());
    if let Some(r) = strip_prefix_str(t.as_slice(), "[ ] ") {
        return r;
    }
    if let Some(r) = strip_prefix_str(t.as_slice(), "[x] ") {
        return r;
    }
    if let Some(r) = strip_prefix_str(t.as_slice(), "[X] ") {
        return r;
    }
    t
}

/// The text of a list item, or `None` for a line that is no list item.
pub fn strip_list_marker(line: &[char]) -> (r: Option<Vec<char>>)
    ensures
        opt_view(r) == strip_list_marker_spec(line@),
{
    assert(line@.subrange(0, line@.len() as int) == line@);
    let start = leading_end(line, 0, line.len(), CharClass::Whitespace);
    let l = slice_vec(line, start, line.len());
    if let Some(r) = strip_prefix_str(l.as_slice(), "- ") {
        return Some(strip_checkbox(r.as_slice()));
    }
    if let Some(r) = strip_prefix_str(l.as_slice(), "* ") {
        return Some(strip_checkbox(r.as_slice()));
    }
    if let Some(r) = strip_prefix_str(l.as_slice(), "+ ") {
        return Some(strip_checkbox(r.as_slice()));
    }
    assert(l@.subrange(0, l@.len() as int) == l@);
    let digits = leading_end(l.as_slice(), 0, l.len(), CharClass::AsciiDigit);
    if digits == 0 {
        return None;
    }
    let rest = slice_vec(l.as_slice(), digits, l.len());
    if let Some(r) = strip_prefix_str(rest.as_slice(), ". ") {
        return Some(r);
    }
    strip_prefix_str(rest.as_slice(), ") ")
}

/// A Markdown table row or separator line.
pub open spec fn is_table_line(line: Seq<char>) -> bool {
    starts_with(line, seq!['|']) || (crate::text::contains(line, seq!['|'])
        && crate::text::contains(line, "---"@))
}

pub fn is_markdown_table_line(line: &[char]) -> (r: bool)
    ensures
        r == is_table_line(line@),
{
    let bar = ['|'];
    assert(bar@ == seq!['|']);
    let starts = line.len() > 0 && line[0] == '|';
    assert(starts == starts_with(line@, seq!['|'])) by {
        if line@.len() > 0 {
            assert(line@.take(1) == seq![line@[0]]);
        }
    }
    starts || (crate::text::contains_chars(line, &bar) && crate::text::contains_str(line, "---"))
}

} // verus!
