//! Fix patches written by a model: the request, and the checks a patch must
//! pass (a unified diff that modifies only the provided files). Asking the
//! model and running `git apply --check` is left to the caller.
use vstd::prelude::*;

use crate::ai::{strip_code_fence, strip_code_fence_spec, AiError};
use crate::text::{
    add_first_occurrence, chars_of, contains_string, first_occurrences, str_eq, contains, contains_str, drop_leading, drop_trailing, lines, lines_of,
    owned, split_char, split_chars, starts_with, starts_with_str, strip_leading, strip_prefix,
    strip_prefix_str, strip_trailing, string_of, string_views, trim, trim_chars, views, CharClass,
};

verus! {

/// What the fix is for, and the candidate source files (relative paths).
#[derive(Debug)]
pub struct PatchInput {
    pub issue_id: String,
    pub title: String,
    pub expected: String,
    pub actual: String,
    pub source_files: Vec<String>,
}

/// A checked patch.
#[derive(Debug)]
pub struct GeneratedPatch {
    pub issue_id: String,
    pub target_files: Vec<String>,
    pub diff: String,
}

#[derive(Debug)]
pub enum PatchError {
    Ai(AiError),
    /// The offline provider cannot write patches.
    NoProvider,
    /// None of the source files could be read.
    NoSourceFiles,
}

pub const NOT_A_DIFF: &'static str = "output is not a unified diff (missing '---' / '+++' headers)";

pub const NO_FILE_MODIFIED: &'static str = "the diff does not modify any file";

/// The file named by a `+++ ` header line: its path before any tab, trimmed,
/// without a `b/` prefix; `/dev/null` names no file.
pub open spec fn header_path(line: Seq<char>) -> Option<Seq<char>> {
    if starts_with(line, "+++ "@) {
        let head = trim(split_char(line.skip(4), '\t')[0]);
        let path = match strip_prefix(head, "b/"@) {
            Some(p) => p,
            None => head,
        };
        if path == "/dev/null"@ {
            None
        } else {
            Some(path)
        }
    } else {
        None
    }
}

/// The files a diff modifies, each once, in order of their headers.
pub open spec fn diff_files(ls: Seq<Seq<char>>) -> Seq<Seq<char>>
    decreases ls.len(),
{
    if ls.len() == 0 {
        Seq::empty()
    } else {
        let prev = diff_files(ls.drop_last());
        match header_path(ls.last()) {
            Some(p) => if prev.contains(p) {
                prev
            } else {
                prev.push(p)
            },
            None => prev,
        }
    }
}

/// The first of `files`, from `i` on, that is not one of `known`.
pub open spec fn first_unknown(files: Seq<Seq<char>>, known: Seq<Seq<char>>, i: int) -> Option<Seq<char>>
    decreases files.len() - i,
{
    if i < 0 || i >= files.len() {
        None
    } else if !known.contains(files[i]) {
        Some(files[i])
    } else {
        first_unknown(files, known, i + 1)
    }
}

/// The check of a diff's shape: it has `---` and `+++` headers, modifies a
/// file, and only files among `known`.
pub open spec fn diff_shape(diff: Seq<char>, known: Seq<Seq<char>>) -> Result<Seq<Seq<char>>, Seq<char>> {
    if !contains(diff, "--- "@) || !contains(diff, "+++ "@) {
        Err(NOT_A_DIFF@)
    } else {
        let fs = diff_files(lines(diff));
        if fs.len() == 0 {
            Err(NO_FILE_MODIFIED@)
        } else {
            match first_unknown(fs, known, 0) {
                Some(f) => Err("the diff modifies '"@ + f + "', which is not one of the provided source files"@),
                None => Ok(fs),
            }
        }
    }
}

fn header_path_exec(line: &[char]) -> (r: Option<String>)
    ensures
        crate::text::opt_string_view(r) == header_path(line@),
{
    if !starts_with_str(line, "+++ ") {
        return None;
    }
    proof {
        reveal_strlit("+++ ");
    }
    let rest = crate::text::slice_vec(line, 4, line.len());
    assert(rest@ == line@.skip(4));
    let pieces = split_chars(rest.as_slice(), '\t');
    proof {
        crate::text::lemma_split_char_nonempty(rest@, '\t');
    }
    assert(views(pieces@)[0] == pieces@[0]@);
    let head = trim_chars(pieces[0].as_slice());
    let path = match strip_prefix_str(head.as_slice(), "b/") {
        Some(p) => p,
        None => head,
    };
    if crate::text::chars_eq_str(path.as_slice(), "/dev/null") {
        None
    } else {
        Some(string_of(path.as_slice()))
    }
}

fn contains_path(v: &Vec<String>, p: &str) -> (r: bool)
    ensures
        r == string_views(v@).contains(p@),
{
    let mut i: usize = 0;
    while i < v.len()
        invariant
            i <= v@.len(),
            forall|q: int| 0 <= q < i ==> string_views(v@)[q] != p@,
        decreases v.len() - i,
    {
        if crate::text::str_eq(v[i].as_str(), p) {
            assert(string_views(v@)[i as int] == p@);
            return true;
        }
        i = i + 1;
    }
    false
}

/// Checks the shape of a diff and returns the files it modifies, or the
/// feedback for the model.
pub fn validate_diff_shape(diff: &str, known: &Vec<String>) -> (r: Result<Vec<String>, String>)
    ensures
        match r {
            Ok(fs) => diff_shape(diff@, string_views(known@)) == Ok::<Seq<Seq<char>>, Seq<char>>(string_views(fs@)),
            Err(m) => diff_shape(diff@, string_views(known@)) == Err::<Seq<Seq<char>>, Seq<char>>(m@),
        },
{
    let d = chars_of(diff);
    if !contains_str(d.as_slice(), "--- ") || !contains_str(d.as_slice(), "+++ ") {
        return Err(owned(NOT_A_DIFF));
    }
    let ls = lines_of(d.as_slice());
    let ghost lv = views(ls@);
    let mut files: Vec<String> = Vec::new();
    let mut i: usize = 0;
    while i < ls.len()
        invariant
            i <= ls@.len(),
            lv == views(ls@),
            string_views(files@) == diff_files(lv.take(i as int)),
        decreases ls.len() - i,
    {
        assert(lv.take(i + 1).drop_last() == lv.take(i as int));
        assert(lv.take(i + 1).last() == ls@[i as int]@);
        match header_path_exec(ls[i].as_slice()) {
            Some(p) => {
                if !contains_path(&files, p.as_str()) {
                    let ghost before = string_views(files@);
                    files.push(p);
                    assert(string_views(files@) =~= before.push(p@));
                }
            },
            None => {},
        }
        i = i + 1;
    }
    assert(lv.take(lv.len() as int) == lv);
    assert(lv == lines(diff@));
    if files.len() == 0 {
        return Err(owned(NO_FILE_MODIFIED));
    }
    let ghost fv = string_views(files@);
    let mut k: usize = 0;
    while k < files.len()
        invariant
            k <= files@.len(),
            fv == string_views(files@),
            fv == diff_files(lines(diff@)),
            fv.len() > 0,
            contains(diff@, "--- "@) && contains(diff@, "+++ "@),
            first_unknown(fv, string_views(known@), 0) == first_unknown(fv, string_views(known@), k as int),
        decreases files.len() - k,
    {
        assert(fv[k as int] == files@[k as int]@);
        if !contains_path(known, files[k].as_str()) {
            let mut m = owned("the diff modifies '");
            m.append(files[k].as_str());
            m.append("', which is not one of the provided source files");
            return Err(m);
        }
        k = k + 1;
    }
    Ok(files)
}

/// A model's answer as a patch: without a code fence or leading white space,
/// ending in exactly one newline (git refuses a patch without one).
pub open spec fn cleaned_patch(content: Seq<char>) -> Seq<char> {
    drop_trailing(drop_leading(strip_code_fence_spec(content), CharClass::Whitespace), CharClass::LineBreak)
        + "\n"@
}

pub fn clean_patch(content: &str) -> (r: String)
    ensures
        r@ == cleaned_patch(content@),
{
    let s = strip_code_fence(content);
    let a = strip_leading(chars_of(s.as_str()).as_slice(), CharClass::Whitespace);
    let b = strip_trailing(a.as_slice(), CharClass::LineBreak);
    let mut r = string_of(b.as_slice());
    r.append("\n");
    r
}

/// A model's patch, cleaned and checked for shape: the diff and the files
/// it modifies. Whether it applies is checked by the caller.
pub fn prepare_patch(content: &str, known: &Vec<String>) -> (r: Result<(String, Vec<String>), String>)
    ensures
        match r {
            Ok((d, fs)) => d@ == cleaned_patch(content@) && diff_shape(d@, string_views(known@)) == Ok::<
                Seq<Seq<char>>,
                Seq<char>,
            >(string_views(fs@)),
            Err(m) => diff_shape(cleaned_patch(content@), string_views(known@)) == Err::<Seq<Seq<char>>, Seq<char>>(m@),
        },
{
    let diff = clean_patch(content);
    match validate_diff_shape(diff.as_str(), known) {
        Ok(files) => Ok((diff, files)),
        Err(m) => Err(m),
    }
}

/// The instructions given to the model.
pub const PATCH_SYSTEM_PROMPT: &'static str = "You are a code-fixing engine. Given a defect and the current source files, output a single\nunified diff that fixes the defect.\n\nRules:\n- Output ONLY the unified diff, applicable with `git apply`. Use `a/<path>` and `b/<path>` headers\n  where <path> is exactly one of the provided relative file paths.\n- Modify only the provided files. Do not create or rename files.\n- Keep the change minimal — fix the described defect and nothing else.\n- Include enough surrounding context lines for the hunks to apply.\n- Do not add explanations or markdown fences; emit the diff text only.";

/// A source file shown to the model.
#[derive(Debug)]
pub struct PatchSourceFile {
    pub path: String,
    pub contents: String,
}

pub open spec fn file_block(path: Seq<char>, contents: Seq<char>) -> Seq<char> {
    "\n--- FILE: "@ + path + " ---\n"@ + contents + "\n"@
}

pub open spec fn file_blocks(files: Seq<PatchSourceFile>) -> Seq<char>
    decreases files.len(),
{
    if files.len() == 0 {
        Seq::empty()
    } else {
        file_blocks(files.drop_last()) + file_block(files.last().path@, files.last().contents@)
    }
}

/// The request for a fix: the defect, then every source file in full.
pub open spec fn patch_prompt(input: PatchInput, files: Seq<PatchSourceFile>) -> Seq<char> {
    "Defect "@ + input.issue_id@ + ": "@ + input.title@ + "\nExpected: "@ + input.expected@
        + "\nActual: "@ + input.actual@ + "\n\nSource files:\n"@ + file_blocks(files)
}

pub fn user_prompt(input: &PatchInput, files: &Vec<PatchSourceFile>) -> (r: String)
    ensures
        r@ == patch_prompt(*input, files@),
{
    let mut p = owned("Defect ");
    p.append(input.issue_id.as_str());
    p.append(": ");
    p.append(input.title.as_str());
    p.append("\nExpected: ");
    p.append(input.expected.as_str());
    p.append("\nActual: ");
    p.append(input.actual.as_str());
    p.append("\n\nSource files:\n");
    let ghost head = p@;
    let mut i: usize = 0;
    while i < files.len()
        invariant
            i <= files@.len(),
            p@ == head + file_blocks(files@.take(i as int)),
        decreases files.len() - i,
    {
        let f = &files[i];
        p.append("\n--- FILE: ");
        p.append(f.path.as_str());
        p.append(" ---\n");
        p.append(f.contents.as_str());
        p.append("\n");
        assert(files@.take(i + 1).drop_last() == files@.take(i as int));
        assert(files@.take(i + 1).last() == *f);
        i = i + 1;
    }
    assert(files@.take(files@.len() as int) == files@);
    p
}


/// An issue as an archived report records it; a field the report lacks is
/// empty, and an issue without a textual id is `None`.
#[derive(Debug)]
pub struct ArchivedIssue {
    pub id: Option<String>,
    pub title: String,
    pub expected: String,
    pub actual: String,
}

/// A diagnosis as an archived report records it: the issues it refers to and
/// the files of its source locations, in the report's order.
#[derive(Debug)]
pub struct ArchivedDiagnosis {
    pub related_issue_ids: Vec<String>,
    pub source_files: Vec<String>,
}

/// Why no patch input could be built for an issue.
#[derive(Debug)]
pub enum PatchInputError {
    /// The report has no issue with this id.
    IssueNotFound(String),
    /// No diagnosis of the report located source files for the issue.
    NoSourceLocations(String),
}

pub open spec fn patch_input_error_message(e: PatchInputError) -> Seq<char> {
    match e {
        PatchInputError::IssueNotFound(id) => "issue "@ + id@ + " was not found in the run report"@,
        PatchInputError::NoSourceLocations(id) => "issue "@ + id@
            + " has no diagnosed source locations; re-run `check`/`review` with a real --provider so diagnosis can locate the source"@,
    }
}

impl PatchInputError {
    /// The error's message.
    pub fn message(&self) -> (r: String)
        ensures
            r@ == patch_input_error_message(*self),
    {
        match self {
            PatchInputError::IssueNotFound(id) => {
                let mut r = owned("issue ");
                r.append(id.as_str());
                r.append(" was not found in the run report");
                r
            },
            PatchInputError::NoSourceLocations(id) => {
                let mut r = owned("issue ");
                r.append(id.as_str());
                r.append(
                    " has no diagnosed source locations; re-run `check`/`review` with a real --provider so diagnosis can locate the source",
                );
                r
            },
        }
    }
}

pub open spec fn issue_has_id(i: ArchivedIssue, id: Seq<char>) -> bool {
    match i.id {
        Some(x) => x@ == id,
        None => false,
    }
}

/// The files located by the diagnoses that refer to `id`, diagnosis by
/// diagnosis, repetitions kept.
pub open spec fn located_files(d: Seq<ArchivedDiagnosis>, id: Seq<char>) -> Seq<Seq<char>>
    decreases d.len(),
{
    if d.len() == 0 {
        Seq::empty()
    } else {
        let prev = located_files(d.drop_last(), id);
        if string_views(d.last().related_issue_ids@).contains(id) {
            prev + string_views(d.last().source_files@)
        } else {
            prev
        }
    }
}

/// Whether `p` is the input for issue `id`: the fields of the first issue with
/// that id, and each located file once, in the order first located.
pub open spec fn is_patch_input_for(
    p: PatchInput,
    issues: Seq<ArchivedIssue>,
    diagnoses: Seq<ArchivedDiagnosis>,
    id: Seq<char>,
) -> bool {
    exists|k: int|
        0 <= k < issues.len() && #[trigger] issue_has_id(issues[k], id) && (forall|j: int|
            0 <= j < k ==> !issue_has_id(#[trigger] issues[j], id)) && p.issue_id@ == id
            && p.title@ == issues[k].title@ && p.expected@ == issues[k].expected@ && p.actual@
            == issues[k].actual@ && string_views(p.source_files@) == first_occurrences(
            located_files(diagnoses, id),
        )
}

fn issue_position(issues: &Vec<ArchivedIssue>, id: &str) -> (r: Option<usize>)
    ensures
        match r {
            Some(k) => k < issues@.len() && issue_has_id(issues@[k as int], id@) && forall|j: int|
                0 <= j < k ==> !issue_has_id(#[trigger] issues@[j], id@),
            None => forall|j: int| 0 <= j < issues@.len() ==> !issue_has_id(#[trigger] issues@[j], id@),
        },
{
    let mut k: usize = 0;
    while k < issues.len()
        invariant
            k <= issues@.len(),
            forall|j: int| 0 <= j < k ==> !issue_has_id(#[trigger] issues@[j], id@),
        decreases issues.len() - k,
    {
        match &issues[k].id {
            Some(x) => {
                if str_eq(x.as_str(), id) {
                    return Some(k);
                }
            },
            None => {},
        }
        k = k + 1;
    }
    None
}

/// The input for a fix of issue `issue_id` of an archived report: the issue's
/// texts, and the files that the diagnoses referring to it located, each once.
pub fn build_patch_input(
    issues: &Vec<ArchivedIssue>,
    diagnoses: &Vec<ArchivedDiagnosis>,
    issue_id: &str,
) -> (r: Result<PatchInput, PatchInputError>)
    ensures
        match r {
            Ok(p) => is_patch_input_for(p, issues@, diagnoses@, issue_id@),
            Err(PatchInputError::IssueNotFound(id)) => id@ == issue_id@ && forall|j: int|
                0 <= j < issues@.len() ==> !issue_has_id(#[trigger] issues@[j], issue_id@),
            Err(PatchInputError::NoSourceLocations(id)) => id@ == issue_id@ && (exists|k: int|
                0 <= k < issues@.len() && #[trigger] issue_has_id(issues@[k], issue_id@))
                && first_occurrences(located_files(diagnoses@, issue_id@)).len() == 0,
        },
        r is Err <==> (forall|j: int|
            0 <= j < issues@.len() ==> !issue_has_id(#[trigger] issues@[j], issue_id@))
            || first_occurrences(located_files(diagnoses@, issue_id@)).len() == 0,
{
    let k = match issue_position(issues, issue_id) {
        Some(k) => k,
        None => {
            return Err(PatchInputError::IssueNotFound(owned(issue_id)));
        },
    };
    let mut files: Vec<String> = Vec::new();
    let ghost mut seen: Seq<Seq<char>> = Seq::empty();
    assert(string_views(files@) =~= first_occurrences(seen));
    let mut i: usize = 0;
    while i < diagnoses.len()
        invariant
            i <= diagnoses@.len(),
            seen == located_files(diagnoses@.take(i as int), issue_id@),
            string_views(files@) == first_occurrences(seen),
        decreases diagnoses.len() - i,
    {
        assert(diagnoses@.take(i + 1).drop_last() == diagnoses@.take(i as int));
        let d = &diagnoses[i];
        if contains_string(&d.related_issue_ids, issue_id) {
            let ghost head = seen;
            let mut q: usize = 0;
            while q < d.source_files.len()
                invariant
                    q <= d.source_files@.len(),
                    seen == head + string_views(d.source_files@).take(q as int),
                    string_views(files@) == first_occurrences(seen),
                decreases d.source_files.len() - q,
            {
                add_first_occurrence(&mut files, &d.source_files[q], Ghost(seen));
                proof {
                    assert(string_views(d.source_files@).take(q + 1) == string_views(
                        d.source_files@,
                    ).take(q as int).push(d.source_files@[q as int]@));
                    seen = seen.push(d.source_files@[q as int]@);
                }
                q = q + 1;
            }
            assert(string_views(d.source_files@).take(d.source_files@.len() as int) == string_views(
                d.source_files@,
            ));
        }
        i = i + 1;
    }
    assert(diagnoses@.take(diagnoses@.len() as int) == diagnoses@);
    if files.len() == 0 {
        return Err(PatchInputError::NoSourceLocations(owned(issue_id)));
    }
    let issue = &issues[k];
    let p = PatchInput {
        issue_id: owned(issue_id),
        title: issue.title.clone(),
        expected: issue.expected.clone(),
        actual: issue.actual.clone(),
        source_files: files,
    };
    assert(issue_has_id(issues@[k as int], issue_id@));
    Ok(p)
}

proof fn lemma_first_unknown_none(files: Seq<Seq<char>>, known: Seq<Seq<char>>, i: int)
    requires
        0 <= i,
        first_unknown(files, known, i) is None,
    ensures
        forall|k: int| i <= k < files.len() ==> known.contains(#[trigger] files[k]),
    decreases files.len() - i,
{
    if i < files.len() {
        lemma_first_unknown_none(files, known, i + 1);
    }
}

proof fn lemma_headers_listed(ls: Seq<Seq<char>>)
    ensures
        forall|k: int|
            0 <= k < ls.len() && (#[trigger] header_path(ls[k])) is Some ==> diff_files(ls).contains(
                header_path(ls[k])->0,
            ),
    decreases ls.len(),
{
    if ls.len() > 0 {
        let prev = ls.drop_last();
        lemma_headers_listed(prev);
        assert forall|k: int|
            0 <= k < ls.len() && (#[trigger] header_path(ls[k])) is Some implies diff_files(ls).contains(
                header_path(ls[k])->0,
            ) by {
            let p = header_path(ls[k])->0;
            if k < ls.len() - 1 {
                assert(ls[k] == prev[k]);
                assert(diff_files(prev).contains(p));
                let j = choose|j: int| 0 <= j < diff_files(prev).len() && diff_files(prev)[j] == p;
                match header_path(ls.last()) {
                    Some(q) => if !diff_files(prev).contains(q) {
                        assert(diff_files(ls)[j] == p);
                    },
                    None => {},
                }
            } else {
                assert(ls[k] == ls.last());
                if !diff_files(prev).contains(p) {
                    assert(diff_files(ls)[diff_files(prev).len() as int] == p);
                }
            }
        }
    }
}

/// A diff passes the check only if it modifies at least one file and every
/// file it modifies is one of the known source files: each file in the
/// returned list is known, and every path named by a `+++ ` header of the
/// diff is in that list.
pub proof fn lemma_accepted_diff_stays_in_scope(diff: Seq<char>, known: Seq<Seq<char>>)
    ensures
        diff_shape(diff, known) matches Ok(fs) ==> {
            &&& fs.len() > 0
            &&& forall|k: int| 0 <= k < fs.len() ==> known.contains(#[trigger] fs[k])
            &&& forall|k: int|
                0 <= k < lines(diff).len() && (#[trigger] header_path(lines(diff)[k])) is Some ==> fs.contains(
                    header_path(lines(diff)[k])->0,
                ) && known.contains(header_path(lines(diff)[k])->0)
        },
{
    if diff_shape(diff, known) is Ok {
        let fs = diff_files(lines(diff));
        lemma_first_unknown_none(fs, known, 0);
        lemma_headers_listed(lines(diff));
        assert forall|k: int|
            0 <= k < lines(diff).len() && (#[trigger] header_path(lines(diff)[k])) is Some implies known.contains(
                header_path(lines(diff)[k])->0,
            ) by {
            let p = header_path(lines(diff)[k])->0;
            assert(fs.contains(p));
            let j = choose|j: int| 0 <= j < fs.len() && fs[j] == p;
            assert(known.contains(fs[j]));
        }
    }
}

} // verus!
