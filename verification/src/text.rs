//! Character-level text utilities shared by the analysers.
//!
//! Strings are viewed as `Seq<char>`; every helper here is specified over that
//! view so the rule engines above can state exactly what they compute.
use vstd::prelude::*;
use vstd::std_specs::iter::IteratorSpec;

verus! {

/// Appends one character to a string (`String::push`).
#[verifier::external_body]
pub(crate) fn push_char(s: &mut String, c: char)
    ensures
        final(s)@ == old(s)@.push(c),
{
    s.push(c);
}

/// The characters of a string slice, in order.
pub fn chars_of(s: &str) -> (v: Vec<char>)
    ensures
        v@ == s@,
{
    broadcast use vstd::string::group_string_axioms;
    let mut v: Vec<char> = Vec::new();
    let mut it = s.chars();
    assert(it.remaining() == s@);
    loop
        invariant
            v@ + it.remaining() == s@,
            it.obeys_prophetic_iter_laws(),
            it.decrease() is Some,
        ensures
            v@ == s@,
        decreases it.decrease()->0,
    {
        let ghost before = it.remaining();
        match it.next() {
            Some(c) => {
                v.push(c);
                assert(v@ + it.remaining() == s@) by {
                    assert(before == seq![c] + before.drop_first());
                }
            },
            None => {
                assert(v@ == s@);
                break;
            },
        }
    }
    v
}

/// A string holding exactly the given characters.
pub fn string_of(v: &[char]) -> (s: String)
    ensures
        s@ == v@,
{
    let mut s = String::new();
    let mut i: usize = 0;
    while i < v.len()
        invariant
            i <= v.len(),
            s@ == v@.take(i as int),
        decreases v.len() - i,
    {
        push_char(&mut s, v[i]);
        assert(v@.take(i + 1) == v@.take(i as int).push(v@[i as int]));
        i = i + 1;
    }
    assert(v@.take(v.len() as int) == v@);
    s
}


/// Character classes that the trimming helpers strip.
#[derive(Clone, Copy, PartialEq, Eq, Structural, Debug)]
pub enum CharClass {
    /// Unicode `White_Space` (what `char::is_whitespace` accepts).
    Whitespace,
    /// The backtick used for inline code.
    Backtick,
    /// `-` and `_`.
    DashUnderscore,
    /// Anything that is not an ASCII letter, digit, `-` or `_`.
    NonTokenChar,
    /// Sentence terminators `。`, `.`, `;` and `；`.
    SentenceEnd,
    /// `/`.
    Slash,
    /// `\n` and `\r`.
    LineBreak,
    /// The byte-order mark U+FEFF.
    ByteOrderMark,
    /// `=` and `:`, the separators of a key and its value.
    KeyValueSeparator,
    /// `#`.
    Hash,
    /// ASCII digits.
    AsciiDigit,
    /// `.`.
    Dot,
}

/// Unicode white space, as `char::is_whitespace` documents it.
pub open spec fn is_ws(c: char) -> bool {
    c == '\t' || c == '\n' || c == '\u{0B}' || c == '\u{0C}' || c == '\r' || c == ' '
        || c == '\u{85}' || c == '\u{A0}' || c == '\u{1680}'
        || ('\u{2000}' <= c && c <= '\u{200A}')
        || c == '\u{2028}' || c == '\u{2029}' || c == '\u{202F}' || c == '\u{205F}'
        || c == '\u{3000}'
}

pub open spec fn is_ascii_digit(c: char) -> bool {
    '0' <= c && c <= '9'
}

pub open spec fn is_ascii_upper(c: char) -> bool {
    'A' <= c && c <= 'Z'
}

pub open spec fn is_ascii_lower(c: char) -> bool {
    'a' <= c && c <= 'z'
}

pub open spec fn is_ascii_alpha(c: char) -> bool {
    is_ascii_upper(c) || is_ascii_lower(c)
}

pub open spec fn is_ascii_alnum(c: char) -> bool {
    is_ascii_alpha(c) || is_ascii_digit(c)
}

pub open spec fn in_class(k: CharClass, c: char) -> bool {
    match k {
        CharClass::Whitespace => is_ws(c),
        CharClass::Backtick => c == '`',
        CharClass::DashUnderscore => c == '-' || c == '_',
        CharClass::NonTokenChar => !is_ascii_alnum(c) && c != '-' && c != '_',
        CharClass::SentenceEnd => c == '。' || c == '.' || c == ';' || c == '；',
        CharClass::Slash => c == '/',
        CharClass::LineBreak => c == '\n' || c == '\r',
        CharClass::ByteOrderMark => c == '\u{feff}',
        CharClass::KeyValueSeparator => c == '=' || c == ':',
        CharClass::Hash => c == '#',
        CharClass::AsciiDigit => is_ascii_digit(c),
        CharClass::Dot => c == '.',
    }
}

pub fn char_in_class(k: CharClass, c: char) -> (r: bool)
    ensures
        r == in_class(k, c),
{
    match k {
        CharClass::Whitespace => {
            c == '\t' || c == '\n' || c == '\u{0B}' || c == '\u{0C}' || c == '\r' || c == ' '
                || c == '\u{85}' || c == '\u{A0}' || c == '\u{1680}'
                || ('\u{2000}' <= c && c <= '\u{200A}')
                || c == '\u{2028}' || c == '\u{2029}' || c == '\u{202F}' || c == '\u{205F}'
                || c == '\u{3000}'
        },
        CharClass::Backtick => c == '`',
        CharClass::DashUnderscore => c == '-' || c == '_',
        CharClass::NonTokenChar => !(('A' <= c && c <= 'Z') || ('a' <= c && c <= 'z') || (
        '0' <= c && c <= '9')) && c != '-' && c != '_',
        CharClass::SentenceEnd => c == '。' || c == '.' || c == ';' || c == '；',
        CharClass::Slash => c == '/',
        CharClass::LineBreak => c == '\n' || c == '\r',
        CharClass::ByteOrderMark => c == '\u{feff}',
        CharClass::KeyValueSeparator => c == '=' || c == ':',
        CharClass::Hash => c == '#',
        CharClass::AsciiDigit => '0' <= c && c <= '9',
        CharClass::Dot => c == '.',
    }
}

/// `s` without its leading characters of class `k`.
pub open spec fn drop_leading(s: Seq<char>, k: CharClass) -> Seq<char>
    decreases s.len(),
{
    if s.len() > 0 && in_class(k, s[0]) {
        drop_leading(s.drop_first(), k)
    } else {
        s
    }
}

/// `s` without its trailing characters of class `k`.
pub open spec fn drop_trailing(s: Seq<char>, k: CharClass) -> Seq<char>
    decreases s.len(),
{
    if s.len() > 0 && in_class(k, s.last()) {
        drop_trailing(s.drop_last(), k)
    } else {
        s
    }
}

/// `s` without leading and trailing characters of class `k` (`trim_matches`).
pub open spec fn strip_class(s: Seq<char>, k: CharClass) -> Seq<char> {
    drop_trailing(drop_leading(s, k), k)
}

/// `str::trim`.
pub open spec fn trim(s: Seq<char>) -> Seq<char> {
    strip_class(s, CharClass::Whitespace)
}

/// Index where the leading run of class `k` in `v[lo..hi]` ends.
pub fn leading_end(v: &[char], lo: usize, hi: usize, k: CharClass) -> (i: usize)
    requires
        lo <= hi <= v@.len(),
    ensures
        lo <= i <= hi,
        drop_leading(v@.subrange(lo as int, hi as int), k) == v@.subrange(i as int, hi as int),
{
    let mut i = lo;
    while i < hi && char_in_class(k, v[i])
        invariant
            lo <= i <= hi <= v@.len(),
            drop_leading(v@.subrange(lo as int, hi as int), k) == drop_leading(
                v@.subrange(i as int, hi as int),
                k,
            ),
        decreases hi - i,
    {
        assert(v@.subrange(i as int, hi as int).drop_first() == v@.subrange(i + 1, hi as int));
        i = i + 1;
    }
    i
}

/// Index where the trailing run of class `k` in `v[lo..hi]` starts.
pub fn trailing_start(v: &[char], lo: usize, hi: usize, k: CharClass) -> (j: usize)
    requires
        lo <= hi <= v@.len(),
    ensures
        lo <= j <= hi,
        drop_trailing(v@.subrange(lo as int, hi as int), k) == v@.subrange(lo as int, j as int),
{
    let mut j = hi;
    while j > lo && char_in_class(k, v[j - 1])
        invariant
            lo <= j <= hi <= v@.len(),
            drop_trailing(v@.subrange(lo as int, hi as int), k) == drop_trailing(
                v@.subrange(lo as int, j as int),
                k,
            ),
        decreases j - lo,
    {
        assert(v@.subrange(lo as int, j as int).drop_last() == v@.subrange(lo as int, j - 1));
        j = j - 1;
    }
    j
}

/// The characters `v[lo..hi]` as a fresh vector.
pub fn slice_vec(v: &[char], lo: usize, hi: usize) -> (r: Vec<char>)
    requires
        lo <= hi <= v@.len(),
    ensures
        r@ == v@.subrange(lo as int, hi as int),
{
    let mut r: Vec<char> = Vec::new();
    let mut i = lo;
    while i < hi
        invariant
            lo <= i <= hi <= v@.len(),
            r@ == v@.subrange(lo as int, i as int),
        decreases hi - i,
    {
        r.push(v[i]);
        assert(v@.subrange(lo as int, i + 1) == v@.subrange(lo as int, i as int).push(v@[i as int]));
        i = i + 1;
    }
    r
}

/// `trim_matches` for class `k`.
pub fn strip_chars(v: &[char], k: CharClass) -> (r: Vec<char>)
    ensures
        r@ == strip_class(v@, k),
{
    assert(v@.subrange(0, v@.len() as int) == v@);
    let i = leading_end(v, 0, v.len(), k);
    let j = trailing_start(v, i, v.len(), k);
    slice_vec(v, i, j)
}

/// `trim_start_matches` for class `k`.
pub fn strip_leading(v: &[char], k: CharClass) -> (r: Vec<char>)
    ensures
        r@ == drop_leading(v@, k),
{
    assert(v@.subrange(0, v@.len() as int) == v@);
    let i = leading_end(v, 0, v.len(), k);
    slice_vec(v, i, v.len())
}

/// `trim_end_matches` for class `k`.
pub fn strip_trailing(v: &[char], k: CharClass) -> (r: Vec<char>)
    ensures
        r@ == drop_trailing(v@, k),
{
    assert(v@.subrange(0, v@.len() as int) == v@);
    let j = trailing_start(v, 0, v.len(), k);
    slice_vec(v, 0, j)
}

/// `str::trim`.
pub fn trim_chars(v: &[char]) -> (r: Vec<char>)
    ensures
        r@ == trim(v@),
{
    strip_chars(v, CharClass::Whitespace)
}

/// First index `>= i` where `n` occurs in `s`.
pub open spec fn find_from(s: Seq<char>, n: Seq<char>, i: int) -> Option<int>
    decreases s.len() - i,
{
    if i < 0 || i + n.len() > s.len() {
        None
    } else if n.len() == 0 || s.subrange(i, i + n.len()) == n {
        Some(i)
    } else {
        find_from(s, n, i + 1)
    }
}

pub proof fn lemma_find_from_bounds(s: Seq<char>, n: Seq<char>, i: int)
    ensures
        find_from(s, n, i) matches Some(j) ==> i <= j && j + n.len() <= s.len() && s.subrange(
            j,
            j + n.len(),
        ) == n,
    decreases s.len() - i,
{
    if !(i < 0 || i + n.len() > s.len()) {
        if n.len() == 0 {
            assert(s.subrange(i, i) == n);
        } else if s.subrange(i, i + n.len()) != n {
            lemma_find_from_bounds(s, n, i + 1);
        }
    }
}

/// `str::find` (as a character index).
pub open spec fn find(s: Seq<char>, n: Seq<char>) -> Option<int> {
    find_from(s, n, 0)
}

/// `str::contains`.
pub open spec fn contains(s: Seq<char>, n: Seq<char>) -> bool {
    find(s, n) is Some
}

pub open spec fn starts_with(s: Seq<char>, p: Seq<char>) -> bool {
    p.len() <= s.len() && s.take(p.len() as int) == p
}

pub open spec fn ends_with(s: Seq<char>, p: Seq<char>) -> bool {
    p.len() <= s.len() && s.skip(s.len() - p.len()) == p
}

pub open spec fn opt_index(r: Option<usize>) -> Option<int> {
    match r {
        Some(i) => Some(i as int),
        None => None,
    }
}

/// Whether `n` occurs in `h` at position `i`.
pub fn matches_at(h: &[char], n: &[char], i: usize) -> (r: bool)
    requires
        i + n@.len() <= h@.len(),
    ensures
        r == (h@.subrange(i as int, i + n@.len()) == n@),
{
    let mut k: usize = 0;
    while k < n.len()
        invariant
            k <= n@.len(),
            i + n@.len() <= h@.len(),
            h@.len() == h.len(),
            forall|j: int| 0 <= j < k ==> h@[i + j] == n@[j],
        decreases n.len() - k,
    {
        if h[i + k] != n[k] {
            assert(h@.subrange(i as int, i + n@.len())[k as int] != n@[k as int]);
            return false;
        }
        k = k + 1;
    }
    assert(h@.subrange(i as int, i + n@.len()) =~= n@);
    true
}

/// `find` starting at index `start`.
pub fn find_chars_from(h: &[char], n: &[char], start: usize) -> (r: Option<usize>)
    ensures
        opt_index(r) == find_from(h@, n@, start as int),
        r matches Some(j) ==> start <= j && j + n@.len() <= h@.len() && h@.subrange(
            j as int,
            j + n@.len(),
        ) == n@,
{
    proof {
        lemma_find_from_bounds(h@, n@, start as int);
    }
    let mut i = start;
    loop
        invariant
            start <= i,
            find_from(h@, n@, start as int) == find_from(h@, n@, i as int),
        decreases h@.len() - i,
    {
        if i > h.len() || n.len() > h.len() - i {
            return None;
        }
        if n.len() == 0 || matches_at(h, n, i) {
            return Some(i);
        }
        i = i + 1;
    }
}

/// `str::find`.
pub fn find_chars(h: &[char], n: &[char]) -> (r: Option<usize>)
    ensures
        opt_index(r) == find(h@, n@),
        r matches Some(j) ==> j + n@.len() <= h@.len(),
{
    find_chars_from(h, n, 0)
}

/// `str::contains`.
pub fn contains_chars(h: &[char], n: &[char]) -> (r: bool)
    ensures
        r == contains(h@, n@),
{
    find_chars(h, n).is_some()
}

/// `str::contains` with a string-slice needle.
pub fn contains_str(h: &[char], n: &str) -> (r: bool)
    ensures
        r == contains(h@, n@),
{
    let nv = chars_of(n);
    contains_chars(h, nv.as_slice())
}

/// `str::starts_with` with a string-slice prefix.
pub fn starts_with_str(h: &[char], p: &str) -> (r: bool)
    ensures
        r == starts_with(h@, p@),
{
    let pv = chars_of(p);
    if pv.len() > h.len() {
        return false;
    }
    let r = matches_at(h, pv.as_slice(), 0);
    assert(h@.subrange(0, pv@.len() as int) == h@.take(pv@.len() as int));
    r
}

/// `str::ends_with` with a string-slice suffix.
pub fn ends_with_str(h: &[char], p: &str) -> (r: bool)
    ensures
        r == ends_with(h@, p@),
{
    let pv = chars_of(p);
    if pv.len() > h.len() {
        return false;
    }
    let r = matches_at(h, pv.as_slice(), h.len() - pv.len());
    assert(h@.subrange(h@.len() - pv@.len(), h@.len() as int) == h@.skip(h@.len() - pv@.len()));
    r
}

/// Equality of two character sequences.
pub fn chars_eq(a: &[char], b: &[char]) -> (r: bool)
    ensures
        r == (a@ == b@),
{
    if a.len() != b.len() {
        return false;
    }
    let r = matches_at(a, b, 0);
    assert(a@.subrange(0, b@.len() as int) == a@);
    r
}

/// Equality of a character sequence and a string slice.
pub fn chars_eq_str(a: &[char], b: &str) -> (r: bool)
    ensures
        r == (a@ == b@),
{
    let bv = chars_of(b);
    chars_eq(a, bv.as_slice())
}

/// Equality of two string slices.
pub fn str_eq(a: &str, b: &str) -> (r: bool)
    ensures
        r == (a@ == b@),
{
    let av = chars_of(a);
    chars_eq_str(av.as_slice(), b)
}

pub open spec fn lower_char(c: char) -> char {
    if is_ascii_upper(c) {
        ((c as u8) + 32) as char
    } else {
        c
    }
}

pub open spec fn upper_char(c: char) -> char {
    if is_ascii_lower(c) {
        ((c as u8) - 32) as char
    } else {
        c
    }
}

/// `to_ascii_lowercase`.
pub open spec fn ascii_lower(s: Seq<char>) -> Seq<char> {
    s.map_values(|c: char| lower_char(c))
}

/// `to_ascii_uppercase`.
pub open spec fn ascii_upper(s: Seq<char>) -> Seq<char> {
    s.map_values(|c: char| upper_char(c))
}

pub fn lower_char_exec(c: char) -> (r: char)
    ensures
        r == lower_char(c),
{
    if 'A' <= c && c <= 'Z' {
        ((c as u8) + 32) as char
    } else {
        c
    }
}

pub fn upper_char_exec(c: char) -> (r: char)
    ensures
        r == upper_char(c),
{
    if 'a' <= c && c <= 'z' {
        ((c as u8) - 32) as char
    } else {
        c
    }
}

/// `to_ascii_lowercase` on characters.
pub fn ascii_lower_chars(v: &[char]) -> (r: Vec<char>)
    ensures
        r@ == ascii_lower(v@),
{
    let mut r: Vec<char> = Vec::new();
    let mut i: usize = 0;
    while i < v.len()
        invariant
            i <= v@.len(),
            r@ == ascii_lower(v@.take(i as int)),
        decreases v.len() - i,
    {
        r.push(lower_char_exec(v[i]));
        assert(ascii_lower(v@.take(i + 1)) == ascii_lower(v@.take(i as int)).push(
            lower_char(v@[i as int]),
        ));
        i = i + 1;
    }
    assert(v@.take(v@.len() as int) == v@);
    r
}

/// `to_ascii_uppercase` on characters.
pub fn ascii_upper_chars(v: &[char]) -> (r: Vec<char>)
    ensures
        r@ == ascii_upper(v@),
{
    let mut r: Vec<char> = Vec::new();
    let mut i: usize = 0;
    while i < v.len()
        invariant
            i <= v@.len(),
            r@ == ascii_upper(v@.take(i as int)),
        decreases v.len() - i,
    {
        r.push(upper_char_exec(v[i]));
        assert(ascii_upper(v@.take(i + 1)) == ascii_upper(v@.take(i as int)).push(
            upper_char(v@[i as int]),
        ));
        i = i + 1;
    }
    assert(v@.take(v@.len() as int) == v@);
    r
}


/// Pieces of `s` separated by `c` (`str::split` with a `char` pattern).
pub open spec fn split_char(s: Seq<char>, c: char) -> Seq<Seq<char>>
    decreases s.len(),
{
    if s.len() == 0 {
        seq![Seq::<char>::empty()]
    } else {
        let prev = split_char(s.drop_last(), c);
        if s.last() == c {
            prev.push(Seq::<char>::empty())
        } else {
            prev.update(prev.len() - 1, prev.last().push(s.last()))
        }
    }
}

pub proof fn lemma_split_char_nonempty(s: Seq<char>, c: char)
    ensures
        split_char(s, c).len() >= 1,
    decreases s.len(),
{
    if s.len() > 0 {
        lemma_split_char_nonempty(s.drop_last(), c);
    }
}

/// The views of a sequence of character vectors.
pub open spec fn views(v: Seq<Vec<char>>) -> Seq<Seq<char>> {
    v.map_values(|x: Vec<char>| x@)
}

/// The views of a sequence of strings.
pub open spec fn string_views(v: Seq<String>) -> Seq<Seq<char>> {
    v.map_values(|x: String| x@)
}

/// `str::split` with a `char` pattern.
pub fn split_chars(v: &[char], c: char) -> (r: Vec<Vec<char>>)
    ensures
        views(r@) == split_char(v@, c),
{
    let mut pieces: Vec<Vec<char>> = Vec::new();
    let mut cur: Vec<char> = Vec::new();
    let mut i: usize = 0;
    assert(v@.take(0) == Seq::<char>::empty());
    assert(views(pieces@).push(cur@) == split_char(v@.take(0), c));
    while i < v.len()
        invariant
            i <= v@.len(),
            views(pieces@).push(cur@) == split_char(v@.take(i as int), c),
        decreases v.len() - i,
    {
        let ch = v[i];
        let ghost prev = split_char(v@.take(i as int), c);
        assert(v@.take(i + 1).drop_last() == v@.take(i as int));
        assert(v@.take(i + 1).last() == ch);
        if ch == c {
            let done = cur;
            pieces.push(done);
            cur = Vec::new();
            assert(views(pieces@).push(cur@) == prev.push(Seq::<char>::empty()));
        } else {
            cur.push(ch);
            assert(views(pieces@).push(cur@) == prev.update(prev.len() - 1, prev.last().push(ch)));
        }
        i = i + 1;
    }
    assert(v@.take(v@.len() as int) == v@);
    pieces.push(cur);
    assert(views(pieces@) == split_char(v@, c));
    pieces
}

/// A line without a trailing carriage return.
pub open spec fn strip_cr(l: Seq<char>) -> Seq<char> {
    if l.len() > 0 && l.last() == '\r' {
        l.drop_last()
    } else {
        l
    }
}

/// `str::lines`: split at `\n`, drop a `\r` before each `\n`, and ignore a
/// final empty piece.
pub open spec fn lines(s: Seq<char>) -> Seq<Seq<char>> {
    let p = split_char(s, '\n');
    let body = p.drop_last().map_values(|l: Seq<char>| strip_cr(l));
    if p.last().len() == 0 {
        body
    } else {
        body.push(p.last())
    }
}

/// `str::lines`.
pub fn lines_of(v: &[char]) -> (r: Vec<Vec<char>>)
    ensures
        views(r@) == lines(v@),
{
    let pieces = split_chars(v, '\n');
    proof {
        lemma_split_char_nonempty(v@, '\n');
    }
    let ghost p = split_char(v@, '\n');
    let n = pieces.len();
    let mut r: Vec<Vec<char>> = Vec::new();
    let mut i: usize = 0;
    while i + 1 < n
        invariant
            n == pieces@.len(),
            n >= 1,
            views(pieces@) == p,
            i + 1 <= n,
            views(r@) == p.drop_last().take(i as int).map_values(|l: Seq<char>| strip_cr(l)),
        decreases n - i,
    {
        let piece = &pieces[i];
        let mut line = slice_vec(piece.as_slice(), 0, piece.len());
        assert(piece@.subrange(0, piece@.len() as int) == piece@);
        if line.len() > 0 && line[line.len() - 1] == '\r' {
            line.pop();
        }
        assert(line@ == strip_cr(p[i as int]));
        let ghost before = r@;
        r.push(line);
        assert(views(r@) == views(before).push(strip_cr(p[i as int])));
        assert(p.drop_last().take(i + 1) == p.drop_last().take(i as int).push(p[i as int]));
        i = i + 1;
    }
    assert(p.drop_last().take(i as int) == p.drop_last());
    let last = &pieces[n - 1];
    if last.len() > 0 {
        let copy = slice_vec(last.as_slice(), 0, last.len());
        assert(last@.subrange(0, last@.len() as int) == last@);
        r.push(copy);
    }
    r
}

/// Pieces joined with `sep` between consecutive pieces.
pub open spec fn join(p: Seq<Seq<char>>, sep: Seq<char>) -> Seq<char>
    decreases p.len(),
{
    if p.len() == 0 {
        Seq::<char>::empty()
    } else if p.len() == 1 {
        p[0]
    } else {
        join(p.drop_last(), sep) + sep + p.last()
    }
}

/// Appends the characters of `src` to `dst`.
pub fn extend_chars(dst: &mut Vec<char>, src: &[char])
    ensures
        final(dst)@ == old(dst)@ + src@,
{
    let mut i: usize = 0;
    while i < src.len()
        invariant
            i <= src@.len(),
            dst@ == old(dst)@ + src@.take(i as int),
        decreases src.len() - i,
    {
        dst.push(src[i]);
        assert(src@.take(i + 1) == src@.take(i as int).push(src@[i as int]));
        i = i + 1;
    }
    assert(src@.take(src@.len() as int) == src@);
}

/// `[..].join(sep)` on character vectors.
pub fn join_chars(p: &Vec<Vec<char>>, sep: &[char]) -> (r: Vec<char>)
    ensures
        r@ == join(views(p@), sep@),
{
    let mut r: Vec<char> = Vec::new();
    let mut i: usize = 0;
    while i < p.len()
        invariant
            i <= p@.len(),
            r@ == join(views(p@).take(i as int), sep@),
        decreases p.len() - i,
    {
        let ghost q = views(p@).take(i + 1);
        assert(q.drop_last() == views(p@).take(i as int));
        if i > 0 {
            extend_chars(&mut r, sep);
        }
        extend_chars(&mut r, p[i].as_slice());
        assert(q.last() == p@[i as int]@);
        assert(i == 0 ==> r@ == q[0]);
        i = i + 1;
    }
    assert(views(p@).take(p@.len() as int) == views(p@));
    r
}

/// `[..].join(sep)` on strings.
pub fn join_strings(p: &Vec<String>, sep: &str) -> (r: String)
    ensures
        r@ == join(string_views(p@), sep@),
{
    let mut r = String::new();
    let mut i: usize = 0;
    while i < p.len()
        invariant
            i <= p@.len(),
            r@ == join(string_views(p@).take(i as int), sep@),
        decreases p.len() - i,
    {
        let ghost q = string_views(p@).take(i + 1);
        assert(q.drop_last() == string_views(p@).take(i as int));
        if i > 0 {
            r.append(sep);
        }
        r.append(p[i].as_str());
        assert(q.last() == p@[i as int]@);
        assert(i == 0 ==> r@ == q[0]);
        i = i + 1;
    }
    assert(string_views(p@).take(p@.len() as int) == string_views(p@));
    r
}

pub open spec fn digit_char(d: nat) -> char {
    ((d + 48) as u8) as char
}

/// Decimal digits of `n`.
pub open spec fn decimal(n: nat) -> Seq<char>
    decreases n,
{
    if n < 10 {
        seq![digit_char(n)]
    } else {
        decimal(n / 10).push(digit_char(n % 10))
    }
}

/// `s` left-padded with `0` to at least `width` characters (`{:0width$}`).
pub open spec fn zero_pad(s: Seq<char>, width: nat) -> Seq<char> {
    if s.len() >= width {
        s
    } else {
        Seq::new((width - s.len()) as nat, |i: int| '0') + s
    }
}

/// `format!("{n:03}")`.
pub open spec fn pad3(n: nat) -> Seq<char> {
    zero_pad(decimal(n), 3)
}

/// Decimal digits of `n`.
pub fn decimal_chars(n: u128) -> (r: Vec<char>)
    ensures
        r@ == decimal(n as nat),
    decreases n,
{
    let d = (n % 10) as u8;
    let c = (d + 48) as char;
    if n < 10 {
        let mut r: Vec<char> = Vec::new();
        r.push(c);
        r
    } else {
        let mut r = decimal_chars(n / 10);
        r.push(c);
        r
    }
}

/// `n.to_string()`.
pub fn decimal_string(n: u128) -> (r: String)
    ensures
        r@ == decimal(n as nat),
{
    let v = decimal_chars(n);
    string_of(v.as_slice())
}

/// Signed decimal text (`i64::to_string`).
pub open spec fn signed_decimal(n: int) -> Seq<char> {
    if n < 0 {
        seq!['-'] + decimal((-n) as nat)
    } else {
        decimal(n as nat)
    }
}

/// `n.to_string()` for a signed value.
pub fn signed_decimal_string(n: i64) -> (r: String)
    ensures
        r@ == signed_decimal(n as int),
{
    if n < 0 {
        let m: u128 = (0 - (n as i128)) as u128;
        let mut v: Vec<char> = Vec::new();
        v.push('-');
        let d = decimal_chars(m);
        extend_chars(&mut v, d.as_slice());
        string_of(v.as_slice())
    } else {
        decimal_string(n as u128)
    }
}

/// `format!("{n:0width$}")`.
pub fn zero_padded_string(n: u128, width: usize) -> (r: String)
    ensures
        r@ == zero_pad(decimal(n as nat), width as nat),
{
    let d = decimal_chars(n);
    let mut v: Vec<char> = Vec::new();
    let mut k: usize = d.len();
    while k < width
        invariant
            d.len() <= k,
            k <= width || k == d.len(),
            v@ == Seq::new((k - d@.len()) as nat, |i: int| '0'),
        decreases width - k,
    {
        v.push('0');
        assert(v@ =~= Seq::new((k + 1 - d@.len()) as nat, |i: int| '0'));
        k = k + 1;
    }
    extend_chars(&mut v, d.as_slice());
    assert(d@.len() >= width ==> v@ =~= d@);
    assert(d@.len() < width ==> v@ =~= Seq::new((width - d@.len()) as nat, |i: int| '0') + d@);
    string_of(v.as_slice())
}

/// `format!("{n:03}")`.
pub fn pad3_string(n: u128) -> (r: String)
    ensures
        r@ == pad3(n as nat),
{
    zero_padded_string(n, 3)
}

/// `prefix` followed by the three-digit index `n` (`format!("{prefix}{n:03}")`).
pub open spec fn numbered(prefix: Seq<char>, n: nat) -> Seq<char> {
    prefix + pad3(n)
}

pub fn numbered_string(prefix: &str, n: u128) -> (r: String)
    ensures
        r@ == numbered(prefix@, n as nat),
{
    let mut r = String::new();
    r.append(prefix);
    let p = pad3_string(n);
    r.append(p.as_str());
    r
}

/// Bytes in the UTF-8 encoding of `c`.
pub open spec fn char_utf8_len(c: char) -> nat {
    if (c as u32) < 0x80 {
        1
    } else if (c as u32) < 0x800 {
        2
    } else if (c as u32) < 0x10000 {
        3
    } else {
        4
    }
}

/// Bytes in the UTF-8 encoding of `s` (`str::len`).
pub open spec fn utf8_len(s: Seq<char>) -> nat
    decreases s.len(),
{
    if s.len() == 0 {
        0
    } else {
        utf8_len(s.drop_last()) + char_utf8_len(s.last())
    }
}

pub proof fn lemma_utf8_len_prefix(s: Seq<char>, i: int)
    requires
        0 <= i <= s.len(),
    ensures
        utf8_len(s.take(i)) <= utf8_len(s),
    decreases s.len() - i,
{
    if i < s.len() {
        lemma_utf8_len_prefix(s, i + 1);
        assert(s.take(i + 1).drop_last() == s.take(i));
    } else {
        assert(s.take(i) == s);
    }
}

/// Whether the UTF-8 encoding of `v` has at least `n` bytes.
pub fn utf8_len_at_least(v: &[char], n: usize) -> (r: bool)
    ensures
        r == (utf8_len(v@) >= n),
{
    if n == 0 {
        return true;
    }
    let mut total: usize = 0;
    let mut i: usize = 0;
    assert(v@.take(0) == Seq::<char>::empty());
    while i < v.len()
        invariant
            i <= v@.len(),
            total == utf8_len(v@.take(i as int)),
            total < n,
        decreases v.len() - i,
    {
        let c = v[i];
        let w: usize = if (c as u32) < 0x80 {
            1
        } else if (c as u32) < 0x800 {
            2
        } else if (c as u32) < 0x10000 {
            3
        } else {
            4
        };
        assert(v@.take(i + 1).drop_last() == v@.take(i as int));
        assert(v@.take(i + 1).last() == c);
        if w >= n - total {
            proof {
                lemma_utf8_len_prefix(v@, i + 1);
            }
            return true;
        }
        total = total + w;
        i = i + 1;
    }
    assert(v@.take(v@.len() as int) == v@);
    false
}

/// At most `limit` characters of `s`, with `...` appended when `s` was longer.
pub open spec fn excerpt(s: Seq<char>, limit: nat) -> Seq<char> {
    if s.len() > limit {
        s.take(limit as int) + "..."@
    } else {
        s
    }
}

/// Leading `limit` characters of `text`, marked with `...` when cut.
pub fn excerpt_string(text: &[char], limit: usize) -> (r: String)
    ensures
        r@ == excerpt(text@, limit as nat),
{
    if text.len() > limit {
        let head = slice_vec(text, 0, limit);
        assert(text@.subrange(0, limit as int) == text@.take(limit as int));
        let mut r = string_of(head.as_slice());
        r.append("...");
        r
    } else {
        string_of(text)
    }
}

/// Index of the last character of class `k` in `s`.
pub open spec fn rfind_class(s: Seq<char>, k: CharClass) -> Option<int>
    decreases s.len(),
{
    if s.len() == 0 {
        None
    } else if in_class(k, s.last()) {
        Some(s.len() - 1)
    } else {
        rfind_class(s.drop_last(), k)
    }
}

/// Index of the last character of class `k`.
pub fn rfind_class_chars(v: &[char], k: CharClass) -> (r: Option<usize>)
    ensures
        opt_index(r) == rfind_class(v@, k),
        r matches Some(i) ==> i < v@.len(),
{
    let mut j: usize = v.len();
    assert(v@.take(v@.len() as int) == v@);
    while j > 0
        invariant
            j <= v@.len(),
            rfind_class(v@, k) == rfind_class(v@.take(j as int), k),
        decreases j,
    {
        assert(v@.take(j as int).last() == v@[j - 1]);
        assert(v@.take(j as int).drop_last() == v@.take(j - 1));
        if char_in_class(k, v[j - 1]) {
            return Some(j - 1);
        }
        j = j - 1;
    }
    None
}


/// The views of a sequence of string slices.
pub open spec fn str_views(v: Seq<&str>) -> Seq<Seq<char>> {
    v.map_values(|x: &str| x@)
}

/// Whether `s` contains at least one of `words`.
pub open spec fn contains_any(s: Seq<char>, words: Seq<Seq<char>>) -> bool {
    exists|i: int| 0 <= i < words.len() && contains(s, #[trigger] words[i])
}

/// Whether `s` starts with at least one of `words`.
pub open spec fn starts_with_any(s: Seq<char>, words: Seq<Seq<char>>) -> bool {
    exists|i: int| 0 <= i < words.len() && starts_with(s, #[trigger] words[i])
}

/// Whether `h` contains at least one of `words`.
pub fn contains_any_str(h: &[char], words: &[&str]) -> (r: bool)
    ensures
        r == contains_any(h@, str_views(words@)),
{
    let mut i: usize = 0;
    while i < words.len()
        invariant
            i <= words@.len(),
            forall|j: int| 0 <= j < i ==> !contains(h@, #[trigger] str_views(words@)[j]),
        decreases words.len() - i,
    {
        if contains_str(h, words[i]) {
            assert(contains(h@, str_views(words@)[i as int]));
            return true;
        }
        i = i + 1;
    }
    false
}

/// Whether `h` starts with at least one of `words`.
pub fn starts_with_any_str(h: &[char], words: &[&str]) -> (r: bool)
    ensures
        r == starts_with_any(h@, str_views(words@)),
{
    let mut i: usize = 0;
    while i < words.len()
        invariant
            i <= words@.len(),
            forall|j: int| 0 <= j < i ==> !starts_with(h@, #[trigger] str_views(words@)[j]),
        decreases words.len() - i,
    {
        if starts_with_str(h, words[i]) {
            assert(starts_with(h@, str_views(words@)[i as int]));
            return true;
        }
        i = i + 1;
    }
    false
}

/// What `str::to_lowercase` returns for a string (full Unicode case mapping).
pub uninterp spec fn unicode_lower(s: Seq<char>) -> Seq<char>;

/// `str::to_lowercase`: the contract names its result `unicode_lower` of the
/// input, which depends on the characters alone; the Unicode case tables
/// themselves are not restated here.
#[verifier::external_body]
pub(crate) fn to_lowercase(s: &str) -> (r: String)
    ensures
        r@ == unicode_lower(s@),
{
    s.to_lowercase()
}

/// Splitting at a character and joining with it again gives the text back.
pub proof fn lemma_split_join(s: Seq<char>, c: char)
    ensures
        join(split_char(s, c), seq![c]) == s,
    decreases s.len(),
{
    if s.len() > 0 {
        let prev = split_char(s.drop_last(), c);
        lemma_split_join(s.drop_last(), c);
        lemma_split_char_nonempty(s.drop_last(), c);
        if s.last() == c {
            let cur = prev.push(Seq::<char>::empty());
            assert(cur.drop_last() == prev);
            assert(join(cur, seq![c]) == join(prev, seq![c]) + seq![c] + Seq::<char>::empty());
            assert(s == s.drop_last().push(c));
        } else {
            let cur = prev.update(prev.len() - 1, prev.last().push(s.last()));
            if prev.len() == 1 {
                assert(join(prev, seq![c]) == prev[0]);
                assert(s == s.drop_last().push(s.last()));
            } else {
                assert(cur.drop_last() == prev.drop_last());
                assert(join(prev, seq![c]) == join(prev.drop_last(), seq![c]) + seq![c] + prev.last());
                assert(join(cur, seq![c]) == join(prev.drop_last(), seq![c]) + seq![c] + prev.last().push(s.last()));
                assert(s == s.drop_last().push(s.last()));
            }
        }
    }
}


/// `str::strip_prefix`.
pub open spec fn strip_prefix(s: Seq<char>, p: Seq<char>) -> Option<Seq<char>> {
    if starts_with(s, p) {
        Some(s.skip(p.len() as int))
    } else {
        None
    }
}

pub open spec fn opt_view(r: Option<Vec<char>>) -> Option<Seq<char>> {
    match r {
        Some(v) => Some(v@),
        None => None,
    }
}

pub open spec fn opt_string_view(r: Option<String>) -> Option<Seq<char>> {
    match r {
        Some(v) => Some(v@),
        None => None,
    }
}

/// `str::strip_prefix` with a string-slice prefix.
pub fn strip_prefix_str(v: &[char], p: &str) -> (r: Option<Vec<char>>)
    ensures
        opt_view(r) == strip_prefix(v@, p@),
{
    if starts_with_str(v, p) {
        let pv = chars_of(p);
        let rest = slice_vec(v, pv.len(), v.len());
        assert(v@.subrange(pv@.len() as int, v@.len() as int) == v@.skip(pv@.len() as int));
        Some(rest)
    } else {
        None
    }
}

/// A copy of a character slice.
pub fn copy_chars(v: &[char]) -> (r: Vec<char>)
    ensures
        r@ == v@,
{
    let r = slice_vec(v, 0, v.len());
    assert(v@.subrange(0, v@.len() as int) == v@);
    r
}

/// A copy of a string.
pub fn copy_string(s: &String) -> (r: String)
    ensures
        r@ == s@,
{
    s.clone()
}

/// A copy of a list of strings.
pub fn copy_strings(v: &Vec<String>) -> (r: Vec<String>)
    ensures
        string_views(r@) == string_views(v@),
        r@.len() == v@.len(),
{
    let mut r: Vec<String> = Vec::new();
    let mut i: usize = 0;
    while i < v.len()
        invariant
            i <= v@.len(),
            string_views(r@) == string_views(v@).take(i as int),
            r@.len() == i,
        decreases v.len() - i,
    {
        let ghost before = r@;
        r.push(v[i].clone());
        assert(string_views(r@) == string_views(before).push(v@[i as int]@));
        assert(string_views(v@).take(i + 1) == string_views(v@).take(i as int).push(v@[i as int]@));
        i = i + 1;
    }
    assert(string_views(v@).take(v@.len() as int) == string_views(v@));
    r
}

/// A string holding the characters of a string slice.
pub fn owned(s: &str) -> (r: String)
    ensures
        r@ == s@,
{
    let v = chars_of(s);
    string_of(v.as_slice())
}

/// `a` followed by `b`.
pub fn concat_string(a: &String, b: &str) -> (r: String)
    ensures
        r@ == a@ + b@,
{
    let mut out = copy_string(a);
    let v = chars_of(b);
    let mut i: usize = 0;
    while i < v.len()
        invariant
            i <= v@.len(),
            v@ == b@,
            out@ == a@ + v@.take(i as int),
        decreases v.len() - i,
    {
        push_char(&mut out, v[i]);
        assert(v@.take(i + 1) == v@.take(i as int).push(v@[i as int]));
        i = i + 1;
    }
    assert(v@.take(v@.len() as int) == v@);
    out
}

/// Lexicographic order of character sequences (by code point), as `str`'s
/// `<` orders strings.
pub open spec fn lex_lt(a: Seq<char>, b: Seq<char>) -> bool
    decreases a.len(),
{
    if a.len() == 0 {
        b.len() > 0
    } else if b.len() == 0 {
        false
    } else if a[0] < b[0] {
        true
    } else if a[0] == b[0] {
        lex_lt(a.drop_first(), b.drop_first())
    } else {
        false
    }
}

pub proof fn lemma_lex_irreflexive(a: Seq<char>)
    ensures
        !lex_lt(a, a),
    decreases a.len(),
{
    if a.len() > 0 {
        lemma_lex_irreflexive(a.drop_first());
    }
}

/// Two different sequences are ordered one way or the other, never both.
pub proof fn lemma_lex_total(a: Seq<char>, b: Seq<char>)
    ensures
        a != b ==> (lex_lt(a, b) || lex_lt(b, a)),
        !(lex_lt(a, b) && lex_lt(b, a)),
    decreases a.len(),
{
    if a.len() > 0 && b.len() > 0 {
        lemma_lex_total(a.drop_first(), b.drop_first());
        if a != b && a[0] == b[0] {
            assert(a.drop_first() != b.drop_first()) by {
                if a.drop_first() == b.drop_first() {
                    assert(a =~= seq![a[0]] + a.drop_first());
                    assert(b =~= seq![b[0]] + b.drop_first());
                }
            }
        }
    } else if a.len() == 0 && b.len() == 0 {
        assert(a =~= b);
    }
}

pub proof fn lemma_lex_transitive(a: Seq<char>, b: Seq<char>, c: Seq<char>)
    requires
        lex_lt(a, b),
        lex_lt(b, c),
    ensures
        lex_lt(a, c),
    decreases a.len(),
{
    if a.len() > 0 && b.len() > 0 && c.len() > 0 {
        if a[0] == b[0] && b[0] == c[0] {
            lemma_lex_transitive(a.drop_first(), b.drop_first(), c.drop_first());
        }
    }
}

/// Whether `a` comes before `b`.
pub fn str_lt(a: &str, b: &str) -> (r: bool)
    ensures
        r == lex_lt(a@, b@),
{
    let x = chars_of(a);
    let y = chars_of(b);
    let mut i: usize = 0;
    assert(x@.skip(0) == x@);
    assert(y@.skip(0) == y@);
    while i < x.len() && i < y.len()
        invariant
            i <= x@.len(),
            i <= y@.len(),
            x@ == a@,
            y@ == b@,
            lex_lt(x@, y@) == lex_lt(x@.skip(i as int), y@.skip(i as int)),
        decreases x.len() - i,
    {
        let cx = x[i];
        let cy = y[i];
        assert(x@.skip(i as int)[0] == cx);
        assert(y@.skip(i as int)[0] == cy);
        if cx < cy {
            return true;
        }
        if cx != cy {
            return false;
        }
        assert(x@.skip(i as int).drop_first() == x@.skip(i + 1));
        assert(y@.skip(i as int).drop_first() == y@.skip(i + 1));
        i = i + 1;
    }
    i == x.len() && i < y.len()
}

/// `s` padded on the left with spaces to `width` characters.
pub open spec fn space_pad(s: Seq<char>, width: nat) -> Seq<char> {
    if s.len() >= width {
        s
    } else {
        Seq::new((width - s.len()) as nat, |i: int| ' ') + s
    }
}

/// `format!("{n:>width$}")`.
pub fn right_aligned_string(n: u128, width: usize) -> (r: String)
    ensures
        r@ == space_pad(decimal(n as nat), width as nat),
{
    let d = decimal_chars(n);
    let mut v: Vec<char> = Vec::new();
    let mut k: usize = d.len();
    while k < width
        invariant
            d.len() <= k,
            k <= width || k == d.len(),
            v@ == Seq::new((k - d@.len()) as nat, |i: int| ' '),
        decreases width - k,
    {
        v.push(' ');
        assert(v@ =~= Seq::new((k + 1 - d@.len()) as nat, |i: int| ' '));
        k = k + 1;
    }
    extend_chars(&mut v, d.as_slice());
    assert(d@.len() >= width ==> v@ =~= d@);
    assert(d@.len() < width ==> v@ =~= Seq::new((width - d@.len()) as nat, |i: int| ' ') + d@);
    string_of(v.as_slice())
}

/// `s` without repetitions, each item at its first place.
pub open spec fn first_occurrences(s: Seq<Seq<char>>) -> Seq<Seq<char>>
    decreases s.len(),
{
    if s.len() == 0 {
        Seq::empty()
    } else {
        let prev = first_occurrences(s.drop_last());
        if prev.contains(s.last()) {
            prev
        } else {
            prev.push(s.last())
        }
    }
}

/// Dropping repetitions keeps every item once and adds none.
pub proof fn lemma_first_occurrences(s: Seq<Seq<char>>)
    ensures
        first_occurrences(s).no_duplicates(),
        forall|x: Seq<char>| #[trigger] first_occurrences(s).contains(x) <==> s.contains(x),
    decreases s.len(),
{
    if s.len() > 0 {
        let prev = first_occurrences(s.drop_last());
        lemma_first_occurrences(s.drop_last());
        assert forall|x: Seq<char>| #[trigger] first_occurrences(s).contains(x) <==> s.contains(x) by {
            if s.contains(x) && x != s.last() {
                let j = choose|j: int| 0 <= j < s.len() && s[j] == x;
                assert(s.drop_last()[j] == x);
            }
            if s.drop_last().contains(x) {
                let j = choose|j: int| 0 <= j < s.drop_last().len() && s.drop_last()[j] == x;
                assert(s[j] == x);
            }
            if first_occurrences(s).contains(x) && !prev.contains(x) {
                assert(first_occurrences(s) == prev.push(s.last()));
                let j = choose|j: int| 0 <= j < prev.len() + 1 && prev.push(s.last())[j] == x;
                if j < prev.len() {
                    assert(prev[j] == x);
                }
                assert(s[s.len() - 1] == x);
            }
            if x == s.last() {
                assert(s[s.len() - 1] == x);
                if !prev.contains(x) {
                    assert(prev.push(x)[prev.len() as int] == x);
                }
            }
            if prev.contains(x) && !prev.contains(s.last()) {
                let j = choose|j: int| 0 <= j < prev.len() && prev[j] == x;
                assert(prev.push(s.last())[j] == x);
            }
        }
    }
}

/// Whether `v` holds a string equal to `x`.
pub fn contains_string(v: &Vec<String>, x: &str) -> (r: bool)
    ensures
        r == string_views(v@).contains(x@),
{
    let ghost vv = string_views(v@);
    let mut i: usize = 0;
    while i < v.len()
        invariant
            i <= v@.len(),
            vv == string_views(v@),
            forall|j: int| 0 <= j < i ==> vv[j] != x@,
        decreases v.len() - i,
    {
        if str_eq(v[i].as_str(), x) {
            assert(vv[i as int] == x@);
            return true;
        }
        i = i + 1;
    }
    false
}

/// Appends `path` to `out` unless `out` already holds it: with `out` the
/// first occurrences of `seen`, it becomes those of `seen` and `path`.
pub fn add_first_occurrence(out: &mut Vec<String>, path: &String, Ghost(seen): Ghost<Seq<Seq<char>>>)
    requires
        string_views(old(out)@) == first_occurrences(seen),
    ensures
        string_views(final(out)@) == first_occurrences(seen.push(path@)),
{
    assert(seen.push(path@).drop_last() == seen);
    if !contains_string(out, path.as_str()) {
        let ghost before = out@;
        out.push(path.clone());
        assert(string_views(out@) =~= string_views(before).push(path@));
    }
}


/// Each piece of `split_char(s, c)` holds only characters of `s`, and never `c`.
pub proof fn lemma_split_pieces(s: Seq<char>, c: char)
    ensures
        split_char(s, c).len() >= 1,
        forall|k: int, ch: char|
            0 <= k < split_char(s, c).len() && #[trigger] split_char(s, c)[k].contains(ch) ==> s.contains(ch) && ch != c,
    decreases s.len(),
{
    lemma_split_char_nonempty(s, c);
    if s.len() > 0 {
        let prev = split_char(s.drop_last(), c);
        let cur = split_char(s, c);
        let d = s.drop_last();
        lemma_split_pieces(d, c);
        assert forall|k: int, ch: char| 0 <= k < cur.len() && #[trigger] cur[k].contains(ch) implies s.contains(ch)
            && ch != c by {
            let j = choose|j: int| 0 <= j < cur[k].len() && cur[k][j] == ch;
            if s.last() == c {
                if k < prev.len() {
                    assert(cur[k] == prev[k]);
                    assert(prev[k].contains(ch));
                    let i = choose|i: int| 0 <= i < d.len() && d[i] == ch;
                    assert(s[i] == ch);
                } else {
                    assert(cur[k] == Seq::<char>::empty());
                }
            } else {
                if k < prev.len() - 1 {
                    assert(cur[k] == prev[k]);
                    assert(prev[k].contains(ch));
                    let i = choose|i: int| 0 <= i < d.len() && d[i] == ch;
                    assert(s[i] == ch);
                } else {
                    assert(cur[k] == prev.last().push(s.last()));
                    if j < prev.last().len() {
                        assert(prev.last()[j] == ch);
                        assert(prev[prev.len() - 1].contains(ch));
                        let i = choose|i: int| 0 <= i < d.len() && d[i] == ch;
                        assert(s[i] == ch);
                    } else {
                        assert(ch == s.last());
                        assert(s[s.len() - 1] == ch);
                    }
                }
            }
        }
    }
}

/// Joining pieces that lack a character with a separator that lacks it
/// gives a text that lacks it.
pub proof fn lemma_join_without(p: Seq<Seq<char>>, sep: Seq<char>, ch: char)
    requires
        !sep.contains(ch),
        forall|k: int| 0 <= k < p.len() ==> !(#[trigger] p[k]).contains(ch),
    ensures
        !join(p, sep).contains(ch),
    decreases p.len(),
{
    if p.len() == 1 {
        assert(!p[0].contains(ch));
    } else if p.len() > 1 {
        let d = p.drop_last();
        assert forall|k: int| 0 <= k < d.len() implies !(#[trigger] d[k]).contains(ch) by {
            assert(d[k] == p[k]);
        }
        lemma_join_without(d, sep, ch);
        let j = join(d, sep);
        let t = j + sep + p.last();
        assert(!p[p.len() - 1].contains(ch));
        if t.contains(ch) {
            let i = choose|i: int| 0 <= i < t.len() && t[i] == ch;
            if i < j.len() {
                assert(j[i] == ch);
            } else if i < j.len() + sep.len() {
                assert(sep[i - j.len()] == ch);
            } else {
                assert(p.last()[i - j.len() - sep.len()] == ch);
            }
        }
    }
}

proof fn lemma_split_append_plain(x: Seq<char>, b: Seq<char>, c: char)
    requires
        !b.contains(c),
    ensures
        split_char(x + b, c) == split_char(x, c).update(
            split_char(x, c).len() - 1,
            split_char(x, c).last() + b,
        ),
    decreases b.len(),
{
    lemma_split_char_nonempty(x, c);
    let p = split_char(x, c);
    if b.len() == 0 {
        assert(x + b =~= x);
        assert(p.last() + b =~= p.last());
        assert(p.update(p.len() - 1, p.last()) =~= p);
    } else {
        let bd = b.drop_last();
        assert(!bd.contains(c)) by {
            if bd.contains(c) {
                let i = choose|i: int| 0 <= i < bd.len() && bd[i] == c;
                assert(b[i] == c);
            }
        }
        lemma_split_append_plain(x, bd, c);
        assert((x + b).drop_last() =~= x + bd);
        assert((x + b).last() == b.last());
        assert(b.last() != c) by {
            assert(b[b.len() - 1] == b.last());
        }
        let prev = split_char(x + bd, c);
        assert(split_char(x + b, c) == prev.update(prev.len() - 1, prev.last().push(b.last())));
        assert(prev.len() == p.len());
        assert(prev.last() == p.last() + bd);
        assert((p.last() + bd).push(b.last()) =~= p.last() + b);
        assert(split_char(x + b, c) =~= p.update(p.len() - 1, p.last() + b));
    }
}

/// Splitting pieces joined by `c` gives the pieces back, when none holds `c`.
pub proof fn lemma_split_of_join(p: Seq<Seq<char>>, c: char)
    requires
        p.len() >= 1,
        forall|k: int| 0 <= k < p.len() ==> !(#[trigger] p[k]).contains(c),
    ensures
        split_char(join(p, seq![c]), c) == p,
    decreases p.len(),
{
    if p.len() == 1 {
        assert(!p[0].contains(c));
        lemma_split_append_plain(Seq::<char>::empty(), p[0], c);
        assert(Seq::<char>::empty() + p[0] =~= p[0]);
        assert(split_char(Seq::<char>::empty(), c) == seq![Seq::<char>::empty()]);
        assert(Seq::<char>::empty() + p[0] =~= p[0]);
        assert(split_char(p[0], c) =~= p);
    } else {
        let d = p.drop_last();
        assert forall|k: int| 0 <= k < d.len() implies !(#[trigger] d[k]).contains(c) by {
            assert(d[k] == p[k]);
        }
        lemma_split_of_join(d, c);
        let j = join(d, seq![c]);
        let x = j + seq![c];
        assert(x.drop_last() =~= j);
        assert(x.last() == c);
        assert(split_char(x, c) == d.push(Seq::<char>::empty()));
        assert(!p[p.len() - 1].contains(c));
        lemma_split_append_plain(x, p.last(), c);
        assert(join(p, seq![c]) == x + p.last());
        assert(Seq::<char>::empty() + p.last() =~= p.last());
        assert(d.push(Seq::<char>::empty()).update(d.len() as int, p.last()) =~= p);
    }
}

/// `str::lines` gives the pieces between newlines when the text is not empty,
/// has no carriage return and does not end with a newline.
pub proof fn lemma_lines_are_pieces(text: Seq<char>)
    requires
        text.len() > 0,
        !text.contains('\r'),
        text.last() != '\n',
    ensures
        lines(text) == split_char(text, '\n'),
{
    let p = split_char(text, '\n');
    lemma_split_pieces(text, '\n');
    lemma_split_char_nonempty(text.drop_last(), '\n');
    let prev = split_char(text.drop_last(), '\n');
    assert(p == prev.update(prev.len() - 1, prev.last().push(text.last())));
    assert(p.last().len() > 0);
    assert forall|k: int| 0 <= k < p.len() - 1 implies strip_cr(#[trigger] p[k]) == p[k] by {
        if p[k].len() > 0 && p[k].last() == '\r' {
            assert(p[k][p[k].len() - 1] == '\r');
            assert(p[k].contains('\r'));
        }
    }
    assert(lines(text) =~= p);
}

} // verus!
