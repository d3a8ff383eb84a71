//! Defect diagnosis: the identifiers of failed findings that are looked up
//! in the sources, the source snippets around them, and the checks on a
//! model's diagnoses. Reading sources and asking the model is left to the
//! caller.
use vstd::prelude::*;

use crate::ai::Confidence;
use crate::scanner::{extension_of, insert_sorted, sorted_strict};
use crate::text::{
    contains_string,
    lines_of, ascii_lower, ascii_lower_chars, chars_eq_str, chars_of, in_class, is_ascii_alpha, lex_lt,
    owned, slice_vec, strip_chars, strip_class, string_of,
    string_views, CharClass,
};

verus! {

/// A failed finding handed to diagnosis.
#[derive(Debug)]
pub struct FailedFinding {
    pub issue_id: String,
    pub title: String,
    pub expected: String,
    pub actual: String,
}

/// Where a diagnosis locates a defect.
#[derive(Debug)]
pub struct DiagnosedLocation {
    pub file: String,
    pub line: Option<usize>,
    pub snippet: String,
}

/// A diagnosed root cause.
#[derive(Debug)]
pub struct Diagnosis {
    pub title: String,
    pub related_issue_ids: Vec<String>,
    pub root_cause: String,
    pub source_locations: Vec<DiagnosedLocation>,
    pub confidence: Confidence,
    pub suggested_fix: String,
}

/// Snippets kept at most.
pub const MAX_SNIPPETS: usize = 12;

/// Lines of context around a hit.
pub const SNIPPET_CONTEXT_LINES: usize = 3;

/// Source files larger than this many bytes are not read.
pub const MAX_SOURCE_FILE_BYTES: u64 = 262144;

/// Keywords kept at most.
pub const MAX_KEYWORDS: usize = 16;

// ---------------------------------------------------------------------------
// Keywords
// ---------------------------------------------------------------------------

/// A character of an identifier: ASCII letter or digit, `-` or `_`.
pub open spec fn is_ident(c: char) -> bool {
    !in_class(CharClass::NonTokenChar, c)
}

/// Where the identifier starting at `j` ends.
pub open spec fn ident_end(c: Seq<char>, j: int) -> int
    decreases c.len() - j,
{
    if 0 <= j < c.len() && is_ident(c[j]) {
        ident_end(c, j + 1)
    } else {
        j
    }
}

pub proof fn lemma_ident_end_bounds(c: Seq<char>, j: int)
    requires
        0 <= j <= c.len(),
    ensures
        j <= ident_end(c, j) <= c.len(),
    decreases c.len() - j,
{
    if j < c.len() && is_ident(c[j]) {
        lemma_ident_end_bounds(c, j + 1);
    }
}

/// The identifiers of `c` from `i` on that follow a `#`, `.` or `/`.
pub open spec fn tokens_from(c: Seq<char>, i: int) -> Seq<Seq<char>>
    decreases c.len() - i,
{
    if i < 0 || i >= c.len() {
        Seq::empty()
    } else if c[i] == '#' || c[i] == '.' || c[i] == '/' {
        proof {
            lemma_ident_end_bounds(c, i + 1);
        }
        let e = ident_end(c, i + 1);
        if e <= i {
            Seq::empty()
        } else {
            let rest = tokens_from(c, e);
            if e > i + 1 {
                seq![c.subrange(i + 1, e)] + rest
            } else {
                rest
            }
        }
    } else {
        tokens_from(c, i + 1)
    }
}

/// The words that never count as keywords.
pub open spec fn noise_words() -> Seq<Seq<char>> {
    seq!["http"@, "https"@, "www"@, "com"@]
}

/// A token as a keyword: without leading and trailing `-`/`_`, at least three
/// characters, with a letter, and not a noise word.
pub open spec fn keyword_of(token: Seq<char>) -> Option<Seq<char>> {
    let t = strip_class(token, CharClass::DashUnderscore);
    if t.len() >= 3 && (exists|i: int| 0 <= i < t.len() && is_ascii_alpha(#[trigger] t[i]))
        && !noise_words().contains(ascii_lower(t)) {
        Some(t)
    } else {
        None
    }
}

/// The keywords of the tokens `ts`.
pub open spec fn keywords_of_tokens(ts: Seq<Seq<char>>) -> Set<Seq<char>> {
    Set::new(|k: Seq<char>| exists|i: int| 0 <= i < ts.len() && keyword_of(#[trigger] ts[i]) == Some(k))
}

/// The keywords of a text.
pub open spec fn text_keywords(text: Seq<char>) -> Set<Seq<char>> {
    keywords_of_tokens(tokens_from(text, 0))
}

/// Adds `token` as a keyword, if it is one.
pub fn add_keyword(token: &[char], out: &mut Vec<String>)
    requires
        sorted_strict(string_views(old(out)@)),
    ensures
        sorted_strict(string_views(final(out)@)),
        string_views(final(out)@).to_set() == match keyword_of(token@) {
            Some(k) => string_views(old(out)@).to_set().insert(k),
            None => string_views(old(out)@).to_set(),
        },
{
    let t = strip_chars(token, CharClass::DashUnderscore);
    let mut has_alpha = false;
    let mut i: usize = 0;
    while i < t.len()
        invariant
            i <= t@.len(),
            has_alpha == exists|q: int| 0 <= q < i && is_ascii_alpha(#[trigger] t@[q]),
        decreases t.len() - i,
    {
        let c = t[i];
        if ('a' <= c && c <= 'z') || ('A' <= c && c <= 'Z') {
            has_alpha = true;
        }
        i = i + 1;
    }
    let lower = ascii_lower_chars(t.as_slice());
    let noise = chars_eq_str(lower.as_slice(), "http") || chars_eq_str(lower.as_slice(), "https")
        || chars_eq_str(lower.as_slice(), "www") || chars_eq_str(lower.as_slice(), "com");
    proof {
        let n = noise_words();
        if n.contains(lower@) {
            let k = choose|k: int| 0 <= k < n.len() && n[k] == lower@;
        }
        if noise {
            if lower@ == "http"@ { assert(n[0] == lower@); }
            if lower@ == "https"@ { assert(n[1] == lower@); }
            if lower@ == "www"@ { assert(n[2] == lower@); }
            if lower@ == "com"@ { assert(n[3] == lower@); }
        }
    }
    if t.len() >= 3 && has_alpha && !noise {
        insert_sorted(out, string_of(t.as_slice()));
    }
}

/// Adds the keywords of `text` to the sorted set `out`.
pub fn extract_identifiers(text: &str, out: &mut Vec<String>)
    requires
        sorted_strict(string_views(old(out)@)),
    ensures
        sorted_strict(string_views(final(out)@)),
        string_views(final(out)@).to_set() == string_views(old(out)@).to_set().union(text_keywords(text@)),
{
    let c = chars_of(text);
    let ghost cs = c@;
    let ghost base = string_views(out@).to_set();
    let mut index: usize = 0;
    while index < c.len()
        invariant
            index <= c@.len(),
            cs == c@,
            cs == text@,
            sorted_strict(string_views(out@)),
            base.union(text_keywords(text@)) == string_views(out@).to_set().union(keywords_of_tokens(tokens_from(cs, index as int))),
        decreases c.len() - index,
    {
        let ch = c[index];
        if ch == '#' || ch == '.' || ch == '/' {
            let start = index + 1;
            let mut end = start;
            proof {
                lemma_ident_end_bounds(cs, start as int);
            }
            while end < c.len() && !crate::text::char_in_class(CharClass::NonTokenChar, c[end])
                invariant
                    start <= end <= c@.len(),
                    cs == c@,
                    ident_end(cs, start as int) == ident_end(cs, end as int),
                decreases c.len() - end,
            {
                end = end + 1;
            }
            let ghost rest = tokens_from(cs, end as int);
            let ghost before = string_views(out@).to_set();
            if end > start {
                let token = slice_vec(c.as_slice(), start, end);
                add_keyword(token.as_slice(), out);
                proof {
                    let tok = cs.subrange(start as int, end as int);
                    assert(tokens_from(cs, index as int) == seq![tok] + rest);
                    assert(keywords_of_tokens(seq![tok] + rest) =~= keywords_of_tokens(rest).union(
                        match keyword_of(tok) {
                            Some(k) => Set::<Seq<char>>::empty().insert(k),
                            None => Set::<Seq<char>>::empty(),
                        },
                    )) by {
                        let all = seq![tok] + rest;
                        assert forall|k: Seq<char>| keywords_of_tokens(all).contains(k) <==> (keywords_of_tokens(rest).contains(k) || keyword_of(tok) == Some(k)) by {
                            if keywords_of_tokens(all).contains(k) {
                                let q = choose|q: int| 0 <= q < all.len() && keyword_of(#[trigger] all[q]) == Some(k);
                                if q > 0 {
                                    assert(all[q] == rest[q - 1]);
                                }
                            }
                            if keywords_of_tokens(rest).contains(k) {
                                let q = choose|q: int| 0 <= q < rest.len() && keyword_of(#[trigger] rest[q]) == Some(k);
                                assert(all[q + 1] == rest[q]);
                            }
                            if keyword_of(tok) == Some(k) {
                                assert(all[0] == tok);
                            }
                        }
                    }
                    assert(string_views(out@).to_set().union(keywords_of_tokens(rest)) =~= before.union(
                        keywords_of_tokens(tokens_from(cs, index as int)),
                    ));
                }
            } else {
                assert(tokens_from(cs, index as int) == rest);
            }
            index = end;
        } else {
            assert(tokens_from(cs, index as int) == tokens_from(cs, index + 1));
            index = index + 1;
        }
    }
    assert(tokens_from(cs, index as int) == Seq::<Seq<char>>::empty());
    assert(keywords_of_tokens(Seq::<Seq<char>>::empty()) =~= Set::<Seq<char>>::empty());
    assert(string_views(out@).to_set() =~= base.union(text_keywords(text@)));
}

/// All keywords of the findings: of each one's actual result, title and
/// expected result.
pub open spec fn findings_keywords(fs: Seq<FailedFinding>) -> Set<Seq<char>> {
    Set::new(
        |k: Seq<char>| exists|i: int|
            0 <= i < fs.len() && (text_keywords((#[trigger] fs[i]).actual@).contains(k) || text_keywords(
                fs[i].title@,
            ).contains(k) || text_keywords(fs[i].expected@).contains(k)),
    )
}

/// The first keywords in order: sorted, drawn from `all`, at most
/// `MAX_KEYWORDS`, all of `all` when fewer, and every keyword left out comes
/// after every one kept.
pub open spec fn first_keywords(all: Set<Seq<char>>, r: Seq<Seq<char>>) -> bool {
    &&& sorted_strict(r)
    &&& r.len() <= MAX_KEYWORDS
    &&& forall|k: Seq<char>| r.contains(k) ==> all.contains(k)
    &&& r.len() < MAX_KEYWORDS ==> forall|k: Seq<char>| all.contains(k) ==> r.contains(k)
    &&& forall|k: Seq<char>, i: int| all.contains(k) && !r.contains(k) && 0 <= i < r.len() ==> #[trigger] lex_lt(r[i], k)
}

/// The keywords searched for in the sources.
pub fn keywords_from_findings(findings: &Vec<FailedFinding>) -> (r: Vec<String>)
    ensures
        first_keywords(findings_keywords(findings@), string_views(r@)),
{
    let mut set: Vec<String> = Vec::new();
    let mut i: usize = 0;
    while i < findings.len()
        invariant
            i <= findings@.len(),
            sorted_strict(string_views(set@)),
            string_views(set@).to_set() == findings_keywords(findings@.take(i as int)),
        decreases findings.len() - i,
    {
        let f = &findings[i];
        let ghost before = string_views(set@).to_set();
        extract_identifiers(f.actual.as_str(), &mut set);
        extract_identifiers(f.title.as_str(), &mut set);
        extract_identifiers(f.expected.as_str(), &mut set);
        assert(string_views(set@).to_set() =~= findings_keywords(findings@.take(i + 1))) by {
            let t = findings@.take(i + 1);
            assert forall|k: Seq<char>| findings_keywords(t).contains(k) <==> (before.contains(k) || text_keywords(f.actual@).contains(k) || text_keywords(f.title@).contains(k) || text_keywords(f.expected@).contains(k)) by {
                if findings_keywords(t).contains(k) {
                    let q = choose|q: int| 0 <= q < t.len() && (text_keywords((#[trigger] t[q]).actual@).contains(k) || text_keywords(t[q].title@).contains(k) || text_keywords(t[q].expected@).contains(k));
                    if q < i {
                        assert(findings@.take(i as int)[q] == t[q]);
                    }
                }
                if before.contains(k) {
                    let s = findings@.take(i as int);
                    let q = choose|q: int| 0 <= q < s.len() && (text_keywords((#[trigger] s[q]).actual@).contains(k) || text_keywords(s[q].title@).contains(k) || text_keywords(s[q].expected@).contains(k));
                    assert(t[q] == s[q]);
                }
                if text_keywords(f.actual@).contains(k) || text_keywords(f.title@).contains(k) || text_keywords(f.expected@).contains(k) {
                    assert(t[i as int] == *f);
                }
            }
        }
        i = i + 1;
    }
    assert(findings@.take(findings@.len() as int) == findings@);
    let ghost full = string_views(set@);
    let n = if set.len() < MAX_KEYWORDS {
        set.len()
    } else {
        MAX_KEYWORDS
    };
    let mut r: Vec<String> = Vec::new();
    let mut j: usize = 0;
    while j < n
        invariant
            j <= n,
            n <= set@.len(),
            full == string_views(set@),
            string_views(r@) == full.take(j as int),
        decreases n - j,
    {
        let ghost before = string_views(r@);
        r.push(set[j].clone());
        assert(string_views(r@) =~= before.push(full[j as int]));
        assert(full.take(j + 1) =~= full.take(j as int).push(full[j as int]));
        j = j + 1;
    }
    proof {
        let rv = string_views(r@);
        let all = findings_keywords(findings@);
        assert(rv == full.take(n as int));
        assert forall|k: Seq<char>| rv.contains(k) implies all.contains(k) by {
            let q = choose|q: int| 0 <= q < rv.len() && rv[q] == k;
            assert(full[q] == k);
            assert(full.to_set().contains(k));
        }
        if rv.len() < MAX_KEYWORDS {
            assert(rv =~= full);
            assert forall|k: Seq<char>| all.contains(k) implies rv.contains(k) by {
                assert(full.to_set().contains(k));
            }
        }
        assert forall|k: Seq<char>, q: int| all.contains(k) && !rv.contains(k) && 0 <= q < rv.len() implies #[trigger] lex_lt(rv[q], k) by {
            assert(full.to_set().contains(k));
            let p = choose|p: int| 0 <= p < full.len() && full[p] == k;
            if p < n {
                assert(rv[p] == k);
            }
            assert(rv[q] == full[q]);
        }
    }
    r
}

// ---------------------------------------------------------------------------
// Source files
// ---------------------------------------------------------------------------

/// Extensions of source files searched for keywords.
pub open spec fn source_extensions() -> Seq<Seq<char>> {
    seq![
        "js"@, "mjs"@, "cjs"@, "ts"@, "tsx"@, "jsx"@, "vue"@, "svelte"@, "html"@, "css"@, "py"@,
        "rs"@, "go"@, "java"@, "rb"@, "php"@,
    ]
}

/// Directories never searched for sources.
pub open spec fn source_skipped_directories() -> Seq<Seq<char>> {
    seq![
        ".git"@, ".next"@, ".venv"@, ".specprobe"@, "build"@, "coverage"@, "dist"@,
        "node_modules"@, "target"@, "vendor"@,
    ]
}

/// Whether `name` is a directory that is not searched.
pub fn is_skipped_source_directory(name: &str) -> (r: bool)
    ensures
        r == source_skipped_directories().contains(name@),
{
    let list: [&str; 10] = [
        ".git", ".next", ".venv", ".specprobe", "build", "coverage", "dist", "node_modules",
        "target", "vendor",
    ];
    let ghost l = source_skipped_directories();
    assert(list@.map_values(|s: &str| s@) =~= l);
    let mut i: usize = 0;
    while i < 10
        invariant
            i <= 10,
            l == source_skipped_directories(),
            list@.map_values(|s: &str| s@) == l,
            forall|q: int| 0 <= q < i ==> l[q] != name@,
        decreases 10 - i,
    {
        assert(l[i as int] == list@[i as int]@);
        if crate::text::str_eq(list[i], name) {
            assert(l[i as int] == name@);
            return true;
        }
        i = i + 1;
    }
    false
}

/// A source file by its extension, ignoring ASCII case.
pub open spec fn is_source_file_spec(file_name: Seq<char>) -> bool {
    match extension_of(file_name) {
        Some(e) => source_extensions().contains(ascii_lower(e)),
        None => false,
    }
}

pub fn is_source_file(file_name: &str) -> (r: bool)
    ensures
        r == is_source_file_spec(file_name@),
{
    let list: [&str; 16] = [
        "js", "mjs", "cjs", "ts", "tsx", "jsx", "vue", "svelte", "html", "css", "py", "rs", "go",
        "java", "rb", "php",
    ];
    let ghost l = source_extensions();
    assert(list@.map_values(|s: &str| s@) =~= l);
    match crate::scanner::file_extension(file_name) {
        Some(e) => {
            let lower = ascii_lower_chars(chars_of(e.as_str()).as_slice());
            let mut i: usize = 0;
            while i < 16
                invariant
                    i <= 16,
                    l == source_extensions(),
                    extension_of(file_name@) == Some(e@),
                    lower@ == ascii_lower(e@),
                    list@.map_values(|s: &str| s@) == l,
                    forall|q: int| 0 <= q < i ==> l[q] != lower@,
                decreases 16 - i,
            {
                assert(l[i as int] == list@[i as int]@);
                if chars_eq_str(lower.as_slice(), list[i]) {
                    assert(l[i as int] == lower@);
                    return true;
                }
                i = i + 1;
            }
            false
        },
        None => false,
    }
}

// ---------------------------------------------------------------------------
// Checking a model's diagnoses
// ---------------------------------------------------------------------------

/// A location as the model wrote it.
#[derive(Debug)]
pub struct LocationWire {
    pub file: String,
    pub line: Option<usize>,
    pub snippet: String,
}

/// A diagnosis as the model wrote it.
#[derive(Debug)]
pub struct DiagnosisWire {
    pub title: String,
    pub related_issue_ids: Vec<String>,
    pub root_cause: String,
    pub source_locations: Vec<LocationWire>,
    pub confidence: Confidence,
    pub suggested_fix: String,
}

/// A cited file is acceptable when no files were provided or it is one of them.
pub open spec fn file_known(known: Seq<Seq<char>>, file: Seq<char>) -> bool {
    known.len() == 0 || known.contains(file)
}

/// The cited locations that are acceptable, as (file, line, snippet).
pub open spec fn kept_locations(locs: Seq<LocationWire>, known: Seq<Seq<char>>) -> Seq<(Seq<char>, Option<usize>, Seq<char>)>
    decreases locs.len(),
{
    if locs.len() == 0 {
        Seq::empty()
    } else {
        let prev = kept_locations(locs.drop_last(), known);
        let l = locs.last();
        if file_known(known, l.file@) {
            prev.push((l.file@, l.line, l.snippet@))
        } else {
            prev
        }
    }
}

/// The complaint about a diagnosis citing an unknown file.
pub open spec fn unknown_file_problem(index: nat, file: Seq<char>) -> Seq<char> {
    "diagnosis "@ + crate::text::decimal(index) + " cites file '"@ + file + "' outside the provided source context"@
}

pub open spec fn location_problems(index: nat, locs: Seq<LocationWire>, known: Seq<Seq<char>>) -> Seq<Seq<char>>
    decreases locs.len(),
{
    if locs.len() == 0 {
        Seq::empty()
    } else {
        let prev = location_problems(index, locs.drop_last(), known);
        if file_known(known, locs.last().file@) {
            prev
        } else {
            prev.push(unknown_file_problem(index, locs.last().file@))
        }
    }
}

/// Every complaint about the diagnoses, diagnosis by diagnosis.
pub open spec fn all_problems(ws: Seq<DiagnosisWire>, known: Seq<Seq<char>>) -> Seq<Seq<char>>
    decreases ws.len(),
{
    if ws.len() == 0 {
        Seq::empty()
    } else {
        all_problems(ws.drop_last(), known) + location_problems(
            (ws.len() - 1) as nat,
            ws.last().source_locations@,
            known,
        )
    }
}

/// The issue ids of `ids` that are known, in order.
pub open spec fn known_ids(ids: Seq<Seq<char>>, known: Seq<Seq<char>>) -> Seq<Seq<char>>
    decreases ids.len(),
{
    if ids.len() == 0 {
        Seq::empty()
    } else {
        let prev = known_ids(ids.drop_last(), known);
        if known.contains(ids.last()) {
            prev.push(ids.last())
        } else {
            prev
        }
    }
}

/// A diagnosis kept from the model's: its known issue ids and acceptable
/// locations, the rest unchanged.
pub open spec fn diagnosis_ok(w: DiagnosisWire, ids: Seq<Seq<char>>, files: Seq<Seq<char>>, d: Diagnosis) -> bool {
    &&& d.title@ == w.title@
    &&& string_views(d.related_issue_ids@) == known_ids(string_views(w.related_issue_ids@), ids)
    &&& d.root_cause@ == w.root_cause@
    &&& d.source_locations@.map_values(|l: DiagnosedLocation| (l.file@, l.line, l.snippet@)) == kept_locations(
        w.source_locations@,
        files,
    )
    &&& d.confidence == w.confidence
    &&& d.suggested_fix@ == w.suggested_fix@
}

/// Checks the model's diagnoses against the findings' issue ids and the files
/// that were shown: unknown issue ids are dropped; a location in an unknown
/// file is a problem, which fails the check unless `lenient`, where the
/// location is dropped.
pub fn validate_diagnoses(
    wire: Vec<DiagnosisWire>,
    known_issue_ids: &Vec<String>,
    known_files: &Vec<String>,
    lenient: bool,
) -> (r: Result<Vec<Diagnosis>, String>)
    ensures
        match r {
            Ok(ds) => {
                &&& (lenient || all_problems(wire@, string_views(known_files@)).len() == 0)
                &&& ds@.len() == wire@.len()
                &&& forall|k: int| 0 <= k < ds@.len() ==> diagnosis_ok(wire@[k], string_views(known_issue_ids@), string_views(known_files@), #[trigger] ds@[k])
            },
            Err(m) => !lenient && all_problems(wire@, string_views(known_files@)).len() > 0
                && m@ == crate::text::join(all_problems(wire@, string_views(known_files@)), "; "@),
        },
{
    let ghost ws = wire@;
    let ghost ids = string_views(known_issue_ids@);
    let ghost files = string_views(known_files@);
    let mut problems: Vec<String> = Vec::new();
    let mut out: Vec<Diagnosis> = Vec::new();
    let no_files = known_files.len() == 0;
    let mut rest = wire;
    let mut idx: usize = 0;
    let ghost n = ws.len();
    while idx < rest.len()
        invariant
            rest@ == ws,
            idx <= ws.len(),
            out@.len() == idx,
            no_files == (files.len() == 0),
            ids == string_views(known_issue_ids@),
            files == string_views(known_files@),
            string_views(problems@) == all_problems(ws.take(idx as int), files),
            forall|k: int| 0 <= k < idx ==> diagnosis_ok(ws[k], ids, files, #[trigger] out@[k]),
        decreases ws.len() - idx,
    {
        let w = &rest[idx];
        let ghost p0 = string_views(problems@);
        let mut locations: Vec<DiagnosedLocation> = Vec::new();
        let mut j: usize = 0;
        while j < w.source_locations.len()
            invariant
                j <= w.source_locations@.len(),
                no_files == (files.len() == 0),
                files == string_views(known_files@),
                locations@.map_values(|l: DiagnosedLocation| (l.file@, l.line, l.snippet@)) == kept_locations(w.source_locations@.take(j as int), files),
                string_views(problems@) == p0 + location_problems(idx as nat, w.source_locations@.take(j as int), files),
            decreases w.source_locations.len() - j,
        {
            let loc = &w.source_locations[j];
            assert(w.source_locations@.take(j + 1).drop_last() == w.source_locations@.take(j as int));
            assert(w.source_locations@.take(j + 1).last() == *loc);
            if no_files || contains_string(known_files, loc.file.as_str()) {
                let ghost before = locations@.map_values(|l: DiagnosedLocation| (l.file@, l.line, l.snippet@));
                locations.push(DiagnosedLocation { file: loc.file.clone(), line: loc.line, snippet: loc.snippet.clone() });
                assert(locations@.map_values(|l: DiagnosedLocation| (l.file@, l.line, l.snippet@)) =~= before.push((loc.file@, loc.line, loc.snippet@)));
            } else {
                let mut m = owned("diagnosis ");
                let t = crate::text::decimal_string(idx as u128);
                m.append(t.as_str());
                m.append(" cites file '");
                m.append(loc.file.as_str());
                m.append("' outside the provided source context");
                let ghost before = string_views(problems@);
                problems.push(m);
                assert(string_views(problems@) =~= before.push(unknown_file_problem(idx as nat, loc.file@)));
            }
            j = j + 1;
        }
        assert(w.source_locations@.take(w.source_locations@.len() as int) == w.source_locations@);
        let mut related: Vec<String> = Vec::new();
        let mut q: usize = 0;
        let ghost wid = string_views(w.related_issue_ids@);
        while q < w.related_issue_ids.len()
            invariant
                q <= w.related_issue_ids@.len(),
                wid == string_views(w.related_issue_ids@),
                ids == string_views(known_issue_ids@),
                string_views(related@) == known_ids(wid.take(q as int), ids),
            decreases w.related_issue_ids.len() - q,
        {
            let id = &w.related_issue_ids[q];
            assert(wid.take(q + 1).drop_last() == wid.take(q as int));
            assert(wid.take(q + 1).last() == id@);
            if contains_string(known_issue_ids, id.as_str()) {
                let ghost before = string_views(related@);
                related.push(id.clone());
                assert(string_views(related@) =~= before.push(id@));
            }
            q = q + 1;
        }
        assert(wid.take(wid.len() as int) == wid);
        let d = Diagnosis {
            title: w.title.clone(),
            related_issue_ids: related,
            root_cause: w.root_cause.clone(),
            source_locations: locations,
            confidence: w.confidence,
            suggested_fix: w.suggested_fix.clone(),
        };
        out.push(d);
        assert(ws.take(idx + 1).drop_last() == ws.take(idx as int));
        assert(ws.take(idx + 1).last() == *w);
        assert(string_views(problems@) =~= all_problems(ws.take(idx + 1), files));
        idx = idx + 1;
    }
    assert(ws.take(ws.len() as int) == ws);
    if problems.len() > 0 && !lenient {
        return Err(crate::text::join_strings(&problems, "; "));
    }
    Ok(out)
}

// ---------------------------------------------------------------------------
// Source snippets
// ---------------------------------------------------------------------------

/// A source file found for diagnosis: its path relative to the project, and
/// its text when it could be read.
#[derive(Debug)]
pub struct SourceFile {
    pub display: String,
    pub contents: Option<String>,
}

/// Lines of a source file around a keyword's first hit.
#[derive(Debug)]
pub struct SourceSnippet {
    pub file: String,
    /// First line of the snippet, counting from one.
    pub start_line: usize,
    pub text: String,
}

pub struct SnippetView {
    pub file: Seq<char>,
    pub start_line: int,
    pub text: Seq<char>,
}

pub open spec fn snippet_views(v: Seq<SourceSnippet>) -> Seq<SnippetView> {
    v.map_values(|s: SourceSnippet| SnippetView { file: s.file@, start_line: s.start_line as int, text: s.text@ })
}

/// The first line, from `i` on, that contains `keyword` (ignoring ASCII case).
pub open spec fn first_hit(ls: Seq<Seq<char>>, keyword: Seq<char>, i: int) -> Option<int>
    decreases ls.len() - i,
{
    if i < 0 || i >= ls.len() {
        None
    } else if crate::text::contains(ascii_lower(ls[i]), ascii_lower(keyword)) {
        Some(i)
    } else {
        first_hit(ls, keyword, i + 1)
    }
}

/// Lines `start..end` numbered from `start + 1`, right-aligned in four columns.
pub open spec fn numbered_lines(ls: Seq<Seq<char>>, start: int, end: int) -> Seq<Seq<char>> {
    Seq::new(
        (end - start) as nat,
        |k: int| crate::text::space_pad(crate::text::decimal((start + k + 1) as nat), 4) + "| "@ + ls[start + k],
    )
}

/// What searching one keyword in one file adds: the snippet around its first
/// hit, unless the same file and start line were already taken or the limit
/// is reached.
pub open spec fn keyword_step(acc: Seq<SnippetView>, file: Seq<char>, ls: Seq<Seq<char>>, keyword: Seq<char>, max: nat) -> Seq<SnippetView> {
    if acc.len() >= max {
        acc
    } else {
        match first_hit(ls, keyword, 0) {
            Some(hit) => {
                let start = if hit >= 3 { hit - 3 } else { 0 };
                let end = if hit + 4 < ls.len() { hit + 4 } else { ls.len() as int };
                if exists|q: int| 0 <= q < acc.len() && (#[trigger] acc[q]).file == file && acc[q].start_line == start + 1 {
                    acc
                } else {
                    acc.push(SnippetView { file, start_line: start + 1, text: crate::text::join(numbered_lines(ls, start, end), "\n"@) })
                }
            },
            None => acc,
        }
    }
}

pub open spec fn keywords_step(acc: Seq<SnippetView>, file: Seq<char>, ls: Seq<Seq<char>>, kws: Seq<Seq<char>>, max: nat) -> Seq<SnippetView>
    decreases kws.len(),
{
    if kws.len() == 0 {
        acc
    } else {
        keyword_step(keywords_step(acc, file, ls, kws.drop_last(), max), file, ls, kws.last(), max)
    }
}

/// The snippets of the files in order, keyword by keyword, at most `max`.
pub open spec fn snippets_spec(files: Seq<SourceFile>, kws: Seq<Seq<char>>, max: nat) -> Seq<SnippetView>
    decreases files.len(),
{
    if files.len() == 0 {
        Seq::empty()
    } else {
        let acc = snippets_spec(files.drop_last(), kws, max);
        let f = files.last();
        match f.contents {
            Some(c) => keywords_step(acc, f.display@, crate::text::lines(c@), kws, max),
            None => acc,
        }
    }
}

fn snippet_text(ls: &Vec<Vec<char>>, start: usize, end: usize) -> (r: String)
    requires
        start <= end <= ls@.len(),
    ensures
        r@ == crate::text::join(numbered_lines(crate::text::views(ls@), start as int, end as int), "\n"@),
{
    let ghost lv = crate::text::views(ls@);
    let mut parts: Vec<String> = Vec::new();
    let mut k: usize = start;
    while k < end
        invariant
            start <= k <= end,
            end <= ls@.len(),
            lv == crate::text::views(ls@),
            string_views(parts@) == numbered_lines(lv, start as int, k as int),
        decreases end - k,
    {
        let mut line = crate::text::right_aligned_string(k as u128 + 1, 4);
        line.append("| ");
        let body = string_of(ls[k].as_slice());
        line.append(body.as_str());
        let ghost before = string_views(parts@);
        let ghost raw = parts@;
        let ghost line_v = line@;
        parts.push(line);
        assert(parts@.len() == raw.len() + 1);
        assert(before.len() == raw.len());
        assert(before.len() == k - start);
        assert(lv[k as int] == ls@[k as int]@);
        let ghost expect = numbered_lines(lv, start as int, k + 1);
        assert(expect.len() == k + 1 - start);
        assert forall|q: int| 0 <= q < expect.len() implies string_views(parts@)[q] == expect[q] by {
            assert(string_views(parts@)[q] == parts@[q]@);
            if q < k - start {
                assert(parts@[q] == raw[q]);
                assert(before[q] == raw[q]@);
                assert(before[q] == numbered_lines(lv, start as int, k as int)[q]);
            } else {
                assert(parts@[q]@ == line_v);
            }
        }
        assert(string_views(parts@) =~= expect);
        k = k + 1;
    }
    crate::text::join_strings(&parts, "\n")
}

fn first_hit_exec(ls: &Vec<Vec<char>>, keyword: &[char]) -> (r: Option<usize>)
    ensures
        match r {
            Some(i) => i < ls@.len() && first_hit(crate::text::views(ls@), keyword@, 0) == Some(i as int),
            None => first_hit(crate::text::views(ls@), keyword@, 0) is None,
        },
{
    let kw = ascii_lower_chars(keyword);
    let ghost lv = crate::text::views(ls@);
    let mut i: usize = 0;
    while i < ls.len()
        invariant
            i <= ls@.len(),
            lv == crate::text::views(ls@),
            kw@ == ascii_lower(keyword@),
            first_hit(lv, keyword@, 0) == first_hit(lv, keyword@, i as int),
        decreases ls.len() - i,
    {
        assert(lv[i as int] == ls@[i as int]@);
        let lower = ascii_lower_chars(ls[i].as_slice());
        if crate::text::contains_chars(lower.as_slice(), kw.as_slice()) {
            return Some(i);
        }
        i = i + 1;
    }
    None
}

fn already_taken(acc: &Vec<SourceSnippet>, file: &str, start_line: usize) -> (r: bool)
    ensures
        r == exists|q: int| 0 <= q < snippet_views(acc@).len() && (#[trigger] snippet_views(acc@)[q]).file == file@
            && snippet_views(acc@)[q].start_line == start_line,
{
    let mut i: usize = 0;
    while i < acc.len()
        invariant
            i <= acc@.len(),
            forall|q: int| 0 <= q < i ==> !((#[trigger] snippet_views(acc@)[q]).file == file@ && snippet_views(acc@)[q].start_line == start_line),
        decreases acc.len() - i,
    {
        if acc[i].start_line == start_line && crate::text::str_eq(acc[i].file.as_str(), file) {
            assert(snippet_views(acc@)[i as int].file == file@);
            return true;
        }
        i = i + 1;
    }
    false
}

/// The snippets around the first hit of each keyword in each file, in order,
/// at most `max_snippets`, without two of the same file and start line.
pub fn collect_source_context(files: &Vec<SourceFile>, keywords: &Vec<String>, max_snippets: usize) -> (r: Vec<SourceSnippet>)
    ensures
        snippet_views(r@) == if keywords@.len() == 0 {
            Seq::<SnippetView>::empty()
        } else {
            snippets_spec(files@, string_views(keywords@), max_snippets as nat)
        },
{
    let mut snippets: Vec<SourceSnippet> = Vec::new();
    if keywords.len() == 0 {
        return snippets;
    }
    let ghost kws = string_views(keywords@);
    let mut fi: usize = 0;
    while fi < files.len()
        invariant
            fi <= files@.len(),
            kws == string_views(keywords@),
            snippet_views(snippets@) == snippets_spec(files@.take(fi as int), kws, max_snippets as nat),
        decreases files.len() - fi,
    {
        let f = &files[fi];
        assert(files@.take(fi + 1).drop_last() == files@.take(fi as int));
        assert(files@.take(fi + 1).last() == *f);
        match &f.contents {
            Some(c) => {
                let ls = lines_of(chars_of(c.as_str()).as_slice());
                let ghost lv = crate::text::views(ls@);
                let ghost acc0 = snippet_views(snippets@);
                let mut ki: usize = 0;
                while ki < keywords.len()
                    invariant
                        ki <= keywords@.len(),
                        kws == string_views(keywords@),
                        lv == crate::text::views(ls@),
                        lv == crate::text::lines(c@),
                        snippet_views(snippets@) == keywords_step(acc0, f.display@, lv, kws.take(ki as int), max_snippets as nat),
                    decreases keywords.len() - ki,
                {
                    assert(kws.take(ki + 1).drop_last() == kws.take(ki as int));
                    assert(kws.take(ki + 1).last() == keywords@[ki as int]@);
                    if snippets.len() < max_snippets {
                        let kw = chars_of(keywords[ki].as_str());
                        match first_hit_exec(&ls, kw.as_slice()) {
                            Some(hit) => {
                                let start = if hit >= 3 { hit - 3 } else { 0 };
                                let end = if ls.len() - hit > 4 { hit + 4 } else { ls.len() };
                                if !already_taken(&snippets, f.display.as_str(), start + 1) {
                                    let text = snippet_text(&ls, start, end);
                                    let ghost before = snippet_views(snippets@);
                                    snippets.push(SourceSnippet { file: f.display.clone(), start_line: start + 1, text });
                                    assert(snippet_views(snippets@) =~= before.push(SnippetView {
                                        file: f.display@,
                                        start_line: start + 1,
                                        text: crate::text::join(numbered_lines(lv, start as int, end as int), "\n"@),
                                    }));
                                }
                            },
                            None => {},
                        }
                    }
                    ki = ki + 1;
                }
                assert(kws.take(kws.len() as int) == kws);
            },
            None => {},
        }
        fi = fi + 1;
    }
    assert(files@.take(files@.len() as int) == files@);
    snippets
}


/// The instructions given to the model that diagnoses failed findings.
pub const DIAGNOSIS_SYSTEM_PROMPT: &'static str = "You are a defect diagnosis expert inside an evidence-driven testing tool.\nGiven failed test findings and relevant source code snippets, locate the root cause of each defect.\n\nRespond with a single JSON object and nothing else, matching this schema exactly:\n{\n  \"diagnoses\": [\n    {\n      \"title\": string,\n      \"related_issue_ids\": [string],           // issue ids from the findings this explains\n      \"root_cause\": string,\n      \"source_locations\": [\n        { \"file\": string, \"line\": number, \"snippet\": string }\n      ],\n      \"confidence\": \"low\" | \"medium\" | \"high\",\n      \"suggested_fix\": string\n    }\n  ]\n}\n\nRules:\n- Ground every source_locations.file in the provided snippets; never invent file paths. If the snippets do not contain the cause, return an empty source_locations and lower confidence.\n- Produce ONE diagnosis per distinct root cause. Only group findings that genuinely share the SAME underlying defect. Do NOT merge unrelated failures (e.g. a backend 500, a missing validation message, and a localStorage bug are three separate root causes → three diagnoses). related_issue_ids must list only the issues explained by that one cause.\n- root_cause and suggested_fix must be concrete and reference the observed evidence and the cited source location.\n- Write title, root_cause and suggested_fix in the findings' language.\n- Do not wrap the JSON in markdown fences.";

pub open spec fn finding_block(f: FailedFinding) -> Seq<char> {
    "- "@ + f.issue_id@ + " | "@ + f.title@ + "\n  expected: "@ + f.expected@ + "\n  actual: "@ + f.actual@ + "\n"@
}

pub open spec fn finding_blocks(fs: Seq<FailedFinding>) -> Seq<char>
    decreases fs.len(),
{
    if fs.len() == 0 {
        Seq::empty()
    } else {
        finding_blocks(fs.drop_last()) + finding_block(fs.last())
    }
}

pub open spec fn snippet_block(s: SourceSnippet) -> Seq<char> {
    "--- "@ + s.file@ + " (from line "@ + crate::text::decimal(s.start_line as nat) + ") ---\n"@ + s.text@ + "\n"@
}

pub open spec fn snippet_blocks(ss: Seq<SourceSnippet>) -> Seq<char>
    decreases ss.len(),
{
    if ss.len() == 0 {
        Seq::empty()
    } else {
        snippet_blocks(ss.drop_last()) + snippet_block(ss.last())
    }
}

/// The request for a diagnosis: every failed finding, then every snippet of
/// source, or a note that none was found.
pub open spec fn diagnosis_prompt(findings: Seq<FailedFinding>, snippets: Seq<SourceSnippet>) -> Seq<char> {
    "Failed findings:\n"@ + finding_blocks(findings) + "\nRelevant source snippets:\n"@ + if snippets.len() == 0 {
        "(no matching source files were found)\n"@
    } else {
        Seq::empty()
    } + snippet_blocks(snippets)
}

pub fn user_prompt(findings: &Vec<FailedFinding>, snippets: &Vec<SourceSnippet>) -> (r: String)
    ensures
        r@ == diagnosis_prompt(findings@, snippets@),
{
    let mut p = owned("Failed findings:\n");
    let ghost head = p@;
    let mut i: usize = 0;
    while i < findings.len()
        invariant
            i <= findings@.len(),
            p@ == head + finding_blocks(findings@.take(i as int)),
        decreases findings.len() - i,
    {
        let f = &findings[i];
        p.append("- ");
        p.append(f.issue_id.as_str());
        p.append(" | ");
        p.append(f.title.as_str());
        p.append("\n  expected: ");
        p.append(f.expected.as_str());
        p.append("\n  actual: ");
        p.append(f.actual.as_str());
        p.append("\n");
        assert(findings@.take(i + 1).drop_last() == findings@.take(i as int));
        assert(findings@.take(i + 1).last() == *f);
        i = i + 1;
    }
    assert(findings@.take(findings@.len() as int) == findings@);
    p.append("\nRelevant source snippets:\n");
    if snippets.len() == 0 {
        p.append("(no matching source files were found)\n");
    }
    let ghost mid = p@;
    let mut k: usize = 0;
    while k < snippets.len()
        invariant
            k <= snippets@.len(),
            p@ == mid + snippet_blocks(snippets@.take(k as int)),
        decreases snippets.len() - k,
    {
        let sn = &snippets[k];
        p.append("--- ");
        p.append(sn.file.as_str());
        p.append(" (from line ");
        let d = crate::text::decimal_string(sn.start_line as u128);
        p.append(d.as_str());
        p.append(") ---\n");
        p.append(sn.text.as_str());
        p.append("\n");
        assert(snippets@.take(k + 1).drop_last() == snippets@.take(k as int));
        assert(snippets@.take(k + 1).last() == *sn);
        k = k + 1;
    }
    assert(snippets@.take(snippets@.len() as int) == snippets@);
    p
}

} // verus!
