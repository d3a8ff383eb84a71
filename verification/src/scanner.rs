//! Project profile: manifests, requirement documents, technologies, source
//! languages and test files. Walking the directory tree and reading files is
//! left to the caller, which hands each file's path here.
use vstd::prelude::*;

use crate::json::{json_object_keys, json_section_keys};
use crate::paths::{forward_slashes, normalize_path};
use crate::text::{
    ascii_lower, ascii_lower_chars, ascii_upper, ascii_upper_chars, chars_eq_str, chars_of,
    contains, contains_str, ends_with, ends_with_str, find, find_chars, lemma_lex_irreflexive,
    lemma_lex_total, lemma_lex_transitive, lex_lt, lines, lines_of, owned, rfind_class,
    rfind_class_chars, slice_vec, split_char, split_chars, starts_with, starts_with_str, str_eq,
    str_lt, string_of, string_views, trim, trim_chars, views, CharClass,
};

verus! {

/// Directories that are never scanned.
pub open spec fn skipped_directories() -> Seq<Seq<char>> {
    seq![
        ".git"@, ".idea"@, ".next"@, ".venv"@, ".vscode"@, "build"@, "coverage"@, "dist"@,
        "node_modules"@, "target"@, "vendor"@,
    ]
}

/// The names of the directories that are never scanned.
pub fn skipped_directory_names() -> (r: Vec<String>)
    ensures
        string_views(r@) == skipped_directories(),
{
    let mut v: Vec<String> = Vec::new();
    v.push(owned(".git"));
    v.push(owned(".idea"));
    v.push(owned(".next"));
    v.push(owned(".venv"));
    v.push(owned(".vscode"));
    v.push(owned("build"));
    v.push(owned("coverage"));
    v.push(owned("dist"));
    v.push(owned("node_modules"));
    v.push(owned("target"));
    v.push(owned("vendor"));
    assert(string_views(v@) =~= skipped_directories());
    v
}

/// Whether the directory `name` is skipped.
pub fn is_skipped_directory(name: &str) -> (r: bool)
    ensures
        r == skipped_directories().contains(name@),
{
    let names = skipped_directory_names();
    let mut i: usize = 0;
    while i < names.len()
        invariant
            i <= names@.len(),
            string_views(names@) == skipped_directories(),
            forall|k: int| 0 <= k < i ==> skipped_directories()[k] != name@,
        decreases names.len() - i,
    {
        if str_eq(names[i].as_str(), name) {
            assert(skipped_directories()[i as int] == name@);
            return true;
        }
        i = i + 1;
    }
    false
}

#[derive(Debug)]
pub enum ScanError {
    NotFound(String),
    NotDirectory(String),
    Io { path: String, message: String },
}

pub open spec fn scan_error_message(e: ScanError) -> Seq<char> {
    match e {
        ScanError::NotFound(p) => "project path does not exist: "@ + p@,
        ScanError::NotDirectory(p) => "project path is not a directory: "@ + p@,
        ScanError::Io { path, message } => "failed to inspect "@ + path@ + ": "@ + message@,
    }
}

impl ScanError {
    pub fn message(&self) -> (r: String)
        ensures
            r@ == scan_error_message(*self),
    {
        match self {
            ScanError::NotFound(p) => {
                let mut r = owned("project path does not exist: ");
                r.append(p.as_str());
                r
            },
            ScanError::NotDirectory(p) => {
                let mut r = owned("project path is not a directory: ");
                r.append(p.as_str());
                r
            },
            ScanError::Io { path, message } => {
                let mut r = owned("failed to inspect ");
                r.append(path.as_str());
                r.append(": ");
                r.append(message.as_str());
                r
            },
        }
    }
}

#[derive(Debug)]
pub struct LanguageStat {
    pub language: String,
    pub files: usize,
}

#[derive(Debug)]
pub struct ProjectProfile {
    pub root: String,
    pub git_repository: bool,
    pub manifests: Vec<String>,
    pub requirement_documents: Vec<String>,
    pub technologies: Vec<String>,
    pub languages: Vec<LanguageStat>,
    pub source_file_count: usize,
    pub test_file_count: usize,
    pub skipped_directories: Vec<String>,
}

// ---------------------------------------------------------------------------
// Sorted sets of strings
// ---------------------------------------------------------------------------

/// Strictly increasing: sorted and without repeats.
pub open spec fn sorted_strict(s: Seq<Seq<char>>) -> bool {
    forall|i: int, j: int| 0 <= i < j < s.len() ==> lex_lt(#[trigger] s[i], #[trigger] s[j])
}

/// Adds `x` to the sorted set `v`, keeping it sorted.
pub fn insert_sorted(v: &mut Vec<String>, x: String)
    requires
        sorted_strict(string_views(old(v)@)),
    ensures
        sorted_strict(string_views(final(v)@)),
        string_views(final(v)@).to_set() == string_views(old(v)@).to_set().insert(x@),
{
    let ghost s = string_views(v@);
    let mut i: usize = 0;
    while i < v.len() && str_lt(v[i].as_str(), x.as_str())
        invariant
            i <= v@.len(),
            s == string_views(v@),
            forall|k: int| 0 <= k < i ==> lex_lt(#[trigger] s[k], x@),
        decreases v.len() - i,
    {
        i = i + 1;
    }
    if i < v.len() && str_eq(v[i].as_str(), x.as_str()) {
        assert(s[i as int] == x@);
        assert(s.to_set().insert(x@) =~= s.to_set());
        return;
    }
    proof {
        if i < s.len() {
            lemma_lex_total(s[i as int], x@);
            assert(lex_lt(x@, s[i as int]));
        }
    }
    let ghost xv = x@;
    v.insert(i, x);
    let ghost t = string_views(v@);
    assert(t =~= s.insert(i as int, xv));
    assert forall|a: int, b: int| 0 <= a < b < t.len() implies lex_lt(#[trigger] t[a], #[trigger] t[b]) by {
        if b < i {
        } else if b == i {
            assert(t[a] == s[a]);
        } else if a == i {
            assert(t[b] == s[b - 1]);
            if b - 1 > i {
                lemma_lex_transitive(xv, s[i as int], s[b - 1]);
            }
        } else if a < i {
            assert(t[a] == s[a]);
            assert(t[b] == s[b - 1]);
        } else {
            assert(t[a] == s[a - 1]);
            assert(t[b] == s[b - 1]);
        }
    }
    assert(t.to_set() =~= s.to_set().insert(xv)) by {
        assert forall|y: Seq<char>| t.to_set().contains(y) <==> s.to_set().insert(xv).contains(y) by {
            if t.contains(y) {
                let k = choose|k: int| 0 <= k < t.len() && t[k] == y;
                if k < i {
                    assert(s[k] == y);
                } else if k > i {
                    assert(s[k - 1] == y);
                }
            }
            if s.contains(y) {
                let k = choose|k: int| 0 <= k < s.len() && s[k] == y;
                if k < i {
                    assert(t[k] == y);
                } else {
                    assert(t[k + 1] == y);
                }
            }
            if y == xv {
                assert(t[i as int] == y);
            }
        }
    }
}

/// Languages with their file counts, sorted by language without repeats.
pub open spec fn languages_sorted(v: Seq<LanguageStat>) -> bool {
    forall|i: int, j: int| 0 <= i < j < v.len() ==> lex_lt(#[trigger] v[i].language@, #[trigger] v[j].language@)
}

/// Whether some entry counts files in `language`.
pub open spec fn has_language(v: Seq<LanguageStat>, language: Seq<char>) -> bool {
    exists|i: int| 0 <= i < v.len() && (#[trigger] v[i]).language@ == language
}

/// The count of files in `language`, 0 when none was seen.
pub open spec fn language_count(v: Seq<LanguageStat>, language: Seq<char>) -> nat {
    if exists|i: int| 0 <= i < v.len() && (#[trigger] v[i]).language@ == language {
        v[choose|i: int| 0 <= i < v.len() && (#[trigger] v[i]).language@ == language].files as nat
    } else {
        0
    }
}

/// Counts one more file in `language`.
pub fn add_language(v: &mut Vec<LanguageStat>, language: &str)
    requires
        languages_sorted(old(v)@),
        forall|i: int| 0 <= i < old(v)@.len() ==> (#[trigger] old(v)@[i]).files < usize::MAX,
    ensures
        languages_sorted(final(v)@),
        forall|l: Seq<char>|
            #[trigger] language_count(final(v)@, l) == language_count(old(v)@, l) + if l == language@ {
                1nat
            } else {
                0nat
            },
        forall|l: Seq<char>|
            #[trigger] has_language(final(v)@, l) <==> (l == language@ || has_language(old(v)@, l)),
{
    let ghost s = v@;
    let mut i: usize = 0;
    while i < v.len() && str_lt(v[i].language.as_str(), language)
        invariant
            i <= v@.len(),
            s == v@,
            forall|k: int| 0 <= k < i ==> lex_lt(#[trigger] s[k].language@, language@),
        decreases v.len() - i,
    {
        i = i + 1;
    }
    proof {
        assert forall|a: int, b: int| 0 <= a < s.len() && 0 <= b < s.len() && s[a].language@ == s[b].language@ implies a == b by {
            if a < b {
                lemma_lex_irreflexive(s[a].language@);
            } else if b < a {
                lemma_lex_irreflexive(s[a].language@);
            }
        }
    }
    if i < v.len() && str_eq(v[i].language.as_str(), language) {
        let old_files = v[i].files;
        let name = v[i].language.clone();
        v.set(i, LanguageStat { language: name, files: old_files + 1 });
        proof {
            assert forall|a: int, b: int| 0 <= a < b < v@.len() implies lex_lt(#[trigger] v@[a].language@, #[trigger] v@[b].language@) by {
                assert(v@[a].language@ == s[a].language@);
                assert(v@[b].language@ == s[b].language@);
            }
            assert forall|l: Seq<char>| #[trigger] language_count(v@, l) == language_count(s, l) + if l == language@ {
                1nat
            } else {
                0nat
            } by {
                if exists|k: int| 0 <= k < s.len() && (#[trigger] s[k]).language@ == l {
                    let k = choose|k: int| 0 <= k < s.len() && (#[trigger] s[k]).language@ == l;
                    assert(v@[k].language@ == l);
                    let k2 = choose|k2: int| 0 <= k2 < v@.len() && (#[trigger] v@[k2]).language@ == l;
                    assert(s[k2].language@ == l);
                } else {
                    if exists|k: int| 0 <= k < v@.len() && (#[trigger] v@[k]).language@ == l {
                        let k = choose|k: int| 0 <= k < v@.len() && (#[trigger] v@[k]).language@ == l;
                        assert(s[k].language@ == l);
                    }
                }
            }
            assert forall|l: Seq<char>| #[trigger] has_language(v@, l) <==> (l == language@ || has_language(s, l)) by {
                if exists|k: int| 0 <= k < v@.len() && (#[trigger] v@[k]).language@ == l {
                    let k = choose|k: int| 0 <= k < v@.len() && (#[trigger] v@[k]).language@ == l;
                    assert(s[k].language@ == l);
                }
                if exists|k: int| 0 <= k < s.len() && (#[trigger] s[k]).language@ == l {
                    let k = choose|k: int| 0 <= k < s.len() && (#[trigger] s[k]).language@ == l;
                    assert(v@[k].language@ == l);
                }
                if l == language@ {
                    assert(v@[i as int].language@ == l);
                }
            }
        }
        return;
    }
    proof {
        if i < s.len() {
            lemma_lex_total(s[i as int].language@, language@);
        }
    }
    let item = LanguageStat { language: owned(language), files: 1 };
    let ghost it = item;
    v.insert(i, item);
    proof {
        assert(v@ =~= s.insert(i as int, it));
        assert forall|a: int, b: int| 0 <= a < b < v@.len() implies lex_lt(#[trigger] v@[a].language@, #[trigger] v@[b].language@) by {
            if b < i {
            } else if b == i {
                assert(v@[a] == s[a]);
            } else if a == i {
                assert(v@[b] == s[b - 1]);
                if b - 1 > i {
                    lemma_lex_transitive(language@, s[i as int].language@, s[b - 1].language@);
                }
            } else if a < i {
                assert(v@[a] == s[a]);
                assert(v@[b] == s[b - 1]);
            } else {
                assert(v@[a] == s[a - 1]);
                assert(v@[b] == s[b - 1]);
            }
        }
        assert forall|l: Seq<char>| #[trigger] has_language(v@, l) <==> (l == language@ || has_language(s, l)) by {
            if exists|k: int| 0 <= k < v@.len() && (#[trigger] v@[k]).language@ == l {
                let k = choose|k: int| 0 <= k < v@.len() && (#[trigger] v@[k]).language@ == l;
                if k < i {
                    assert(s[k].language@ == l);
                } else if k > i {
                    assert(s[k - 1].language@ == l);
                }
            }
            if exists|k: int| 0 <= k < s.len() && (#[trigger] s[k]).language@ == l {
                let k = choose|k: int| 0 <= k < s.len() && (#[trigger] s[k]).language@ == l;
                if k < i {
                    assert(v@[k].language@ == l);
                } else {
                    assert(v@[k + 1].language@ == l);
                }
            }
            if l == language@ {
                assert(v@[i as int].language@ == l);
            }
        }
        assert forall|l: Seq<char>| #[trigger] language_count(v@, l) == language_count(s, l) + if l == language@ {
            1nat
        } else {
            0nat
        } by {
            assert forall|a: int, b: int| 0 <= a < v@.len() && 0 <= b < v@.len() && v@[a].language@ == v@[b].language@ implies a == b by {
                if a < b || b < a {
                    lemma_lex_irreflexive(v@[a].language@);
                }
            }
            if l == language@ {
                assert(v@[i as int].language@ == l);
                let k2 = choose|k2: int| 0 <= k2 < v@.len() && (#[trigger] v@[k2]).language@ == l;
                assert(k2 == i);
                if exists|k: int| 0 <= k < s.len() && (#[trigger] s[k]).language@ == l {
                    let k = choose|k: int| 0 <= k < s.len() && (#[trigger] s[k]).language@ == l;
                    if k < i {
                        lemma_lex_irreflexive(l);
                    } else {
                        assert(v@[k + 1].language@ == l);
                    }
                }
            } else {
                if exists|k: int| 0 <= k < s.len() && (#[trigger] s[k]).language@ == l {
                    let k = choose|k: int| 0 <= k < s.len() && (#[trigger] s[k]).language@ == l;
                    let kv = if k < i { k } else { k + 1 };
                    assert(v@[kv].language@ == l);
                    let k2 = choose|k2: int| 0 <= k2 < v@.len() && (#[trigger] v@[k2]).language@ == l;
                    assert(k2 == kv);
                } else {
                    if exists|k: int| 0 <= k < v@.len() && (#[trigger] v@[k]).language@ == l {
                        let k = choose|k: int| 0 <= k < v@.len() && (#[trigger] v@[k]).language@ == l;
                        if k < i {
                            assert(s[k].language@ == l);
                        } else if k > i {
                            assert(s[k - 1].language@ == l);
                        }
                    }
                }
            }
        }
    }
}

// ---------------------------------------------------------------------------
// Classifying files
// ---------------------------------------------------------------------------

pub open spec fn manifest_names() -> Seq<Seq<char>> {
    seq![
        "Cargo.toml"@, "package.json"@, "pyproject.toml"@, "requirements.txt"@, "go.mod"@,
        "pom.xml"@, "build.gradle"@, "build.gradle.kts"@, "Dockerfile"@,
    ]
}

/// Whether `file_name` is a project manifest.
pub fn is_manifest(file_name: &str) -> (r: bool)
    ensures
        r == manifest_names().contains(file_name@),
{
    let r = str_eq(file_name, "Cargo.toml") || str_eq(file_name, "package.json") || str_eq(
        file_name,
        "pyproject.toml",
    ) || str_eq(file_name, "requirements.txt") || str_eq(file_name, "go.mod") || str_eq(
        file_name,
        "pom.xml",
    ) || str_eq(file_name, "build.gradle") || str_eq(file_name, "build.gradle.kts") || str_eq(
        file_name,
        "Dockerfile",
    );
    proof {
        let m = manifest_names();
        if m.contains(file_name@) {
            let k = choose|k: int| 0 <= k < m.len() && m[k] == file_name@;
        }
        if r {
            if file_name@ == "Cargo.toml"@ { assert(m[0] == file_name@); }
            if file_name@ == "package.json"@ { assert(m[1] == file_name@); }
            if file_name@ == "pyproject.toml"@ { assert(m[2] == file_name@); }
            if file_name@ == "requirements.txt"@ { assert(m[3] == file_name@); }
            if file_name@ == "go.mod"@ { assert(m[4] == file_name@); }
            if file_name@ == "pom.xml"@ { assert(m[5] == file_name@); }
            if file_name@ == "build.gradle"@ { assert(m[6] == file_name@); }
            if file_name@ == "build.gradle.kts"@ { assert(m[7] == file_name@); }
            if file_name@ == "Dockerfile"@ { assert(m[8] == file_name@); }
        }
    }
    r
}

/// The technology a manifest shows.
pub open spec fn manifest_technology(file_name: Seq<char>) -> Option<Seq<char>> {
    if file_name == "Cargo.toml"@ {
        Some("Rust"@)
    } else if file_name == "package.json"@ {
        Some("Node.js"@)
    } else if file_name == "pyproject.toml"@ || file_name == "requirements.txt"@ {
        Some("Python"@)
    } else if file_name == "go.mod"@ {
        Some("Go"@)
    } else if file_name == "pom.xml"@ || file_name == "build.gradle"@ || file_name == "build.gradle.kts"@ {
        Some("Java"@)
    } else if file_name == "Dockerfile"@ {
        Some("Docker"@)
    } else {
        None
    }
}

pub fn manifest_technology_of(file_name: &str) -> (r: Option<&'static str>)
    ensures
        match r {
            Some(t) => manifest_technology(file_name@) == Some(t@),
            None => manifest_technology(file_name@) is None,
        },
{
    if str_eq(file_name, "Cargo.toml") {
        Some("Rust")
    } else if str_eq(file_name, "package.json") {
        Some("Node.js")
    } else if str_eq(file_name, "pyproject.toml") || str_eq(file_name, "requirements.txt") {
        Some("Python")
    } else if str_eq(file_name, "go.mod") {
        Some("Go")
    } else if str_eq(file_name, "pom.xml") || str_eq(file_name, "build.gradle") || str_eq(file_name, "build.gradle.kts") {
        Some("Java")
    } else if str_eq(file_name, "Dockerfile") {
        Some("Docker")
    } else {
        None
    }
}

/// Records the technology a manifest shows.
pub fn add_manifest_technology(file_name: &str, technologies: &mut Vec<String>)
    requires
        sorted_strict(string_views(old(technologies)@)),
    ensures
        sorted_strict(string_views(final(technologies)@)),
        string_views(final(technologies)@).to_set() == match manifest_technology(file_name@) {
            Some(t) => string_views(old(technologies)@).to_set().insert(t),
            None => string_views(old(technologies)@).to_set(),
        },
{
    match manifest_technology_of(file_name) {
        Some(t) => insert_sorted(technologies, owned(t)),
        None => {},
    }
}

/// The technology a Node.js dependency shows.
pub open spec fn node_dependency_technology(d: Seq<char>) -> Option<Seq<char>> {
    if d == "react"@ {
        Some("React"@)
    } else if d == "next"@ {
        Some("Next.js"@)
    } else if d == "vue"@ {
        Some("Vue"@)
    } else if d == "nuxt"@ {
        Some("Nuxt"@)
    } else if d == "svelte"@ {
        Some("Svelte"@)
    } else if d == "@angular/core"@ {
        Some("Angular"@)
    } else if d == "vite"@ {
        Some("Vite"@)
    } else if d == "express"@ {
        Some("Express"@)
    } else if d == "fastify"@ {
        Some("Fastify"@)
    } else if d == "@playwright/test"@ || d == "playwright"@ {
        Some("Playwright"@)
    } else if d == "vitest"@ {
        Some("Vitest"@)
    } else if d == "jest"@ {
        Some("Jest"@)
    } else if d == "typescript"@ {
        Some("TypeScript"@)
    } else if d == "tailwindcss"@ {
        Some("Tailwind CSS"@)
    } else {
        None
    }
}

pub fn technology_for_node_dependency(d: &str) -> (r: Option<&'static str>)
    ensures
        match r {
            Some(t) => node_dependency_technology(d@) == Some(t@),
            None => node_dependency_technology(d@) is None,
        },
{
    if str_eq(d, "react") {
        Some("React")
    } else if str_eq(d, "next") {
        Some("Next.js")
    } else if str_eq(d, "vue") {
        Some("Vue")
    } else if str_eq(d, "nuxt") {
        Some("Nuxt")
    } else if str_eq(d, "svelte") {
        Some("Svelte")
    } else if str_eq(d, "@angular/core") {
        Some("Angular")
    } else if str_eq(d, "vite") {
        Some("Vite")
    } else if str_eq(d, "express") {
        Some("Express")
    } else if str_eq(d, "fastify") {
        Some("Fastify")
    } else if str_eq(d, "@playwright/test") || str_eq(d, "playwright") {
        Some("Playwright")
    } else if str_eq(d, "vitest") {
        Some("Vitest")
    } else if str_eq(d, "jest") {
        Some("Jest")
    } else if str_eq(d, "typescript") {
        Some("TypeScript")
    } else if str_eq(d, "tailwindcss") {
        Some("Tailwind CSS")
    } else {
        None
    }
}

/// The source language of a file extension, ignoring ASCII case.
pub open spec fn language_of_extension(ext: Seq<char>) -> Option<Seq<char>> {
    let e = ascii_lower(ext);
    if e == "rs"@ {
        Some("Rust"@)
    } else if e == "ts"@ || e == "tsx"@ {
        Some("TypeScript"@)
    } else if e == "js"@ || e == "jsx"@ || e == "mjs"@ || e == "cjs"@ {
        Some("JavaScript"@)
    } else if e == "py"@ {
        Some("Python"@)
    } else if e == "go"@ {
        Some("Go"@)
    } else if e == "java"@ {
        Some("Java"@)
    } else if e == "kt"@ || e == "kts"@ {
        Some("Kotlin"@)
    } else if e == "c"@ || e == "h"@ {
        Some("C"@)
    } else if e == "cc"@ || e == "cpp"@ || e == "cxx"@ || e == "hpp"@ {
        Some("C++"@)
    } else if e == "cs"@ {
        Some("C#"@)
    } else if e == "html"@ || e == "htm"@ {
        Some("HTML"@)
    } else if e == "css"@ || e == "scss"@ || e == "sass"@ || e == "less"@ {
        Some("CSS"@)
    } else if e == "sql"@ {
        Some("SQL"@)
    } else if e == "sh"@ || e == "bash"@ || e == "ps1"@ {
        Some("Shell"@)
    } else {
        None
    }
}

pub fn language_for_extension(ext: &str) -> (r: Option<&'static str>)
    ensures
        match r {
            Some(t) => language_of_extension(ext@) == Some(t@),
            None => language_of_extension(ext@) is None,
        },
{
    let lower = string_of(ascii_lower_chars(chars_of(ext).as_slice()).as_slice());
    let e = lower.as_str();
    if str_eq(e, "rs") {
        Some("Rust")
    } else if str_eq(e, "ts") || str_eq(e, "tsx") {
        Some("TypeScript")
    } else if str_eq(e, "js") || str_eq(e, "jsx") || str_eq(e, "mjs") || str_eq(e, "cjs") {
        Some("JavaScript")
    } else if str_eq(e, "py") {
        Some("Python")
    } else if str_eq(e, "go") {
        Some("Go")
    } else if str_eq(e, "java") {
        Some("Java")
    } else if str_eq(e, "kt") || str_eq(e, "kts") {
        Some("Kotlin")
    } else if str_eq(e, "c") || str_eq(e, "h") {
        Some("C")
    } else if str_eq(e, "cc") || str_eq(e, "cpp") || str_eq(e, "cxx") || str_eq(e, "hpp") {
        Some("C++")
    } else if str_eq(e, "cs") {
        Some("C#")
    } else if str_eq(e, "html") || str_eq(e, "htm") {
        Some("HTML")
    } else if str_eq(e, "css") || str_eq(e, "scss") || str_eq(e, "sass") || str_eq(e, "less") {
        Some("CSS")
    } else if str_eq(e, "sql") {
        Some("SQL")
    } else if str_eq(e, "sh") || str_eq(e, "bash") || str_eq(e, "ps1") {
        Some("Shell")
    } else {
        None
    }
}

/// The extension of a file name: what follows its last `.`, unless that dot
/// starts the name.
pub open spec fn extension_of(name: Seq<char>) -> Option<Seq<char>> {
    match rfind_class(name, CharClass::Dot) {
        Some(k) => if k == 0 {
            None
        } else {
            Some(name.skip(k + 1))
        },
        None => None,
    }
}

pub fn file_extension(name: &str) -> (r: Option<String>)
    ensures
        crate::text::opt_string_view(r) == extension_of(name@),
{
    let v = chars_of(name);
    let n = v.len();
    match rfind_class_chars(v.as_slice(), CharClass::Dot) {
        Some(k) => if k == 0 {
            None
        } else {
            Some(string_of(slice_vec(v.as_slice(), k + 1, v.len()).as_slice()))
        },
        None => None,
    }
}

/// The components of a relative path written with `/`.
pub open spec fn components(rel: Seq<char>) -> Seq<Seq<char>> {
    split_char(rel, '/')
}

/// A Markdown or text file that is a README/REQUIREMENT/SPEC/PRD document,
/// `PROJECT.md`, or lies under a top-level `docs` directory.
pub open spec fn is_requirement_document_spec(rel: Seq<char>, file_name: Seq<char>) -> bool {
    let upper = ascii_upper(file_name);
    let named = starts_with(upper, "README"@) || starts_with(upper, "REQUIREMENT"@) || starts_with(upper, "SPEC"@)
        || starts_with(upper, "PRD"@) || upper == "PROJECT.MD"@;
    let in_docs = ascii_lower(components(rel)[0]) == "docs"@;
    let markdown = match extension_of(file_name) {
        Some(e) => ascii_lower(e) == "md"@ || ascii_lower(e) == "txt"@,
        None => false,
    };
    markdown && (named || in_docs)
}

pub fn is_requirement_document(rel: &str, file_name: &str) -> (r: bool)
    ensures
        r == is_requirement_document_spec(rel@, file_name@),
{
    let upper = ascii_upper_chars(chars_of(file_name).as_slice());
    let named = starts_with_str(upper.as_slice(), "README") || starts_with_str(upper.as_slice(), "REQUIREMENT")
        || starts_with_str(upper.as_slice(), "SPEC") || starts_with_str(upper.as_slice(), "PRD")
        || chars_eq_str(upper.as_slice(), "PROJECT.MD");
    let parts = split_chars(chars_of(rel).as_slice(), '/');
    proof {
        crate::text::lemma_split_char_nonempty(rel@, '/');
    }
    assert(views(parts@)[0] == parts@[0]@);
    let first = ascii_lower_chars(parts[0].as_slice());
    let in_docs = chars_eq_str(first.as_slice(), "docs");
    let markdown = match file_extension(file_name) {
        Some(e) => {
            let le = ascii_lower_chars(chars_of(e.as_str()).as_slice());
            chars_eq_str(le.as_slice(), "md") || chars_eq_str(le.as_slice(), "txt")
        },
        None => false,
    };
    markdown && (named || in_docs)
}

/// A test file by its name (`test_*`, `*.test.*`, `*.spec.*`, a stem ending
/// in `_test`) or by a `test`, `tests` or `__tests__` component of its path.
pub open spec fn is_test_file_spec(rel: Seq<char>, file_name: Seq<char>) -> bool {
    let lower = ascii_lower(file_name);
    let named = starts_with(lower, "test_"@) || contains(lower, ".test."@) || contains(lower, ".spec."@)
        || match find(lower, "."@) {
        Some(k) => ends_with(lower.take(k), "_test"@),
        None => false,
    };
    let in_dir = exists|i: int|
        0 <= i < components(rel).len() && {
            let c = ascii_lower(#[trigger] components(rel)[i]);
            c == "test"@ || c == "tests"@ || c == "__tests__"@
        };
    named || in_dir
}

pub open spec fn is_test_dir_name(c: Seq<char>) -> bool {
    let l = ascii_lower(c);
    l == "test"@ || l == "tests"@ || l == "__tests__"@
}

pub fn is_test_file(rel: &str, file_name: &str) -> (r: bool)
    ensures
        r == is_test_file_spec(rel@, file_name@),
{
    let lower = ascii_lower_chars(chars_of(file_name).as_slice());
    let stem_test = match find_chars(lower.as_slice(), chars_of(".").as_slice()) {
        Some(k) => {
            let stem = slice_vec(lower.as_slice(), 0, k);
            assert(stem@ == lower@.take(k as int));
            ends_with_str(stem.as_slice(), "_test")
        },
        None => false,
    };
    let named = starts_with_str(lower.as_slice(), "test_") || contains_str(lower.as_slice(), ".test.")
        || contains_str(lower.as_slice(), ".spec.") || stem_test;
    let parts = split_chars(chars_of(rel).as_slice(), '/');
    let ghost comps = components(rel@);
    let mut in_dir = false;
    let mut i: usize = 0;
    while i < parts.len()
        invariant
            i <= parts@.len(),
            views(parts@) == comps,
            in_dir == exists|q: int| 0 <= q < i && is_test_dir_name(#[trigger] comps[q]),
        decreases parts.len() - i,
    {
        assert(views(parts@)[i as int] == parts@[i as int]@);
        let c = ascii_lower_chars(parts[i].as_slice());
        if chars_eq_str(c.as_slice(), "test") || chars_eq_str(c.as_slice(), "tests") || chars_eq_str(c.as_slice(), "__tests__") {
            in_dir = true;
            assert(is_test_dir_name(comps[i as int]));
        }
        i = i + 1;
    }
    proof {
        if in_dir {
            let q = choose|q: int| 0 <= q < i && is_test_dir_name(#[trigger] comps[q]);
            assert(0 <= q < components(rel@).len());
        }
        if exists|q: int| 0 <= q < components(rel@).len() && {
            let c = ascii_lower(#[trigger] components(rel@)[q]);
            c == "test"@ || c == "tests"@ || c == "__tests__"@
        } {
            let q = choose|q: int| 0 <= q < components(rel@).len() && {
                let c = ascii_lower(#[trigger] components(rel@)[q]);
                c == "test"@ || c == "tests"@ || c == "__tests__"@
            };
            assert(is_test_dir_name(comps[q]));
        }
    }
    named || in_dir
}

// ---------------------------------------------------------------------------
// Scan state
// ---------------------------------------------------------------------------

/// What a scan has found so far.
#[derive(Debug)]
pub struct ScanState {
    pub manifests: Vec<String>,
    pub requirement_documents: Vec<String>,
    pub technologies: Vec<String>,
    pub language_files: Vec<LanguageStat>,
    pub source_file_count: usize,
    pub test_file_count: usize,
}

impl ScanState {
    /// The lists are sorted sets, and no count exceeds the source files.
    pub open spec fn wf(&self) -> bool {
        &&& sorted_strict(string_views(self.manifests@))
        &&& sorted_strict(string_views(self.requirement_documents@))
        &&& sorted_strict(string_views(self.technologies@))
        &&& languages_sorted(self.language_files@)
        &&& forall|i: int| 0 <= i < self.language_files@.len() ==> (#[trigger] self.language_files@[i]).files <= self.source_file_count
        &&& self.test_file_count <= self.source_file_count
    }

    pub open spec fn manifest_set(&self) -> Set<Seq<char>> {
        string_views(self.manifests@).to_set()
    }

    pub open spec fn document_set(&self) -> Set<Seq<char>> {
        string_views(self.requirement_documents@).to_set()
    }

    pub open spec fn technology_set(&self) -> Set<Seq<char>> {
        string_views(self.technologies@).to_set()
    }

    pub fn new() -> (r: ScanState)
        ensures
            r.wf(),
            r.manifest_set() == Set::<Seq<char>>::empty(),
            r.document_set() == Set::<Seq<char>>::empty(),
            r.technology_set() == Set::<Seq<char>>::empty(),
            r.language_files@.len() == 0,
            r.source_file_count == 0,
            r.test_file_count == 0,
    {
        let r = ScanState {
            manifests: Vec::new(),
            requirement_documents: Vec::new(),
            technologies: Vec::new(),
            language_files: Vec::new(),
            source_file_count: 0,
            test_file_count: 0,
        };
        assert(r.manifest_set() =~= Set::<Seq<char>>::empty());
        assert(r.document_set() =~= Set::<Seq<char>>::empty());
        assert(r.technology_set() =~= Set::<Seq<char>>::empty());
        r
    }
}

/// The source language of a file, by its extension.
pub open spec fn file_language(file_name: Seq<char>) -> Option<Seq<char>> {
    match extension_of(file_name) {
        Some(e) => language_of_extension(e),
        None => None,
    }
}

/// Records one file, given by its path relative to the root and its name.
pub fn inspect_file(state: &mut ScanState, relative: &str, file_name: &str)
    requires
        old(state).wf(),
        old(state).source_file_count < usize::MAX,
    ensures
        final(state).wf(),
        final(state).manifest_set() == if manifest_names().contains(file_name@) {
            old(state).manifest_set().insert(forward_slashes(relative@))
        } else {
            old(state).manifest_set()
        },
        final(state).technology_set() == match manifest_technology(file_name@) {
            Some(t) => old(state).technology_set().insert(t),
            None => old(state).technology_set(),
        },
        final(state).document_set() == if is_requirement_document_spec(forward_slashes(relative@), file_name@) {
            old(state).document_set().insert(forward_slashes(relative@))
        } else {
            old(state).document_set()
        },
        match file_language(file_name@) {
            Some(lang) => {
                &&& final(state).source_file_count == old(state).source_file_count + 1
                &&& final(state).test_file_count == old(state).test_file_count + if is_test_file_spec(
                    forward_slashes(relative@),
                    file_name@,
                ) {
                    1nat
                } else {
                    0nat
                }
                &&& forall|l: Seq<char>|
                    #[trigger] language_count(final(state).language_files@, l) == language_count(
                        old(state).language_files@,
                        l,
                    ) + if l == lang {
                        1nat
                    } else {
                        0nat
                    }
            },
            None => {
                &&& final(state).source_file_count == old(state).source_file_count
                &&& final(state).test_file_count == old(state).test_file_count
                &&& final(state).language_files@ == old(state).language_files@
            },
        },
{
    let normalized = normalize_path(relative);
    if is_manifest(file_name) {
        insert_sorted(&mut state.manifests, normalized.clone());
        add_manifest_technology(file_name, &mut state.technologies);
    } else {
        proof {
            let m = manifest_names();
            if manifest_technology(file_name@) is Some {
                if file_name@ == "Cargo.toml"@ { assert(m[0] == file_name@); }
                if file_name@ == "package.json"@ { assert(m[1] == file_name@); }
                if file_name@ == "pyproject.toml"@ { assert(m[2] == file_name@); }
                if file_name@ == "requirements.txt"@ { assert(m[3] == file_name@); }
                if file_name@ == "go.mod"@ { assert(m[4] == file_name@); }
                if file_name@ == "pom.xml"@ { assert(m[5] == file_name@); }
                if file_name@ == "build.gradle"@ { assert(m[6] == file_name@); }
                if file_name@ == "build.gradle.kts"@ { assert(m[7] == file_name@); }
                if file_name@ == "Dockerfile"@ { assert(m[8] == file_name@); }
            }
        }
    }
    if is_requirement_document(normalized.as_str(), file_name) {
        insert_sorted(&mut state.requirement_documents, normalized.clone());
    }
    let ext = match file_extension(file_name) {
        Some(e) => e,
        None => {
            return;
        },
    };
    let lang = match language_for_extension(ext.as_str()) {
        Some(l) => l,
        None => {
            return;
        },
    };
    add_language(&mut state.language_files, lang);
    state.source_file_count = state.source_file_count + 1;
    if is_test_file(normalized.as_str(), file_name) {
        state.test_file_count = state.test_file_count + 1;
    }
    proof {
        assert forall|i: int| 0 <= i < state.language_files@.len() implies (#[trigger] state.language_files@[i]).files
            <= state.source_file_count by {
            let l = state.language_files@[i].language@;
            assert(has_language(state.language_files@, l));
            let oldv = old(state).language_files@;
            let newv = state.language_files@;
            assert forall|a: int, b: int| 0 <= a < newv.len() && 0 <= b < newv.len() && newv[a].language@ == newv[b].language@ implies a == b by {
                if a < b || b < a {
                    lemma_lex_irreflexive(newv[a].language@);
                }
            }
            let k2 = choose|k2: int| 0 <= k2 < newv.len() && (#[trigger] newv[k2]).language@ == l;
            assert(k2 == i);
            assert(language_count(newv, l) == newv[i].files);
            if has_language(oldv, l) {
                let k = choose|k: int| 0 <= k < oldv.len() && (#[trigger] oldv[k]).language@ == l;
                assert(oldv[k].files <= old(state).source_file_count);
            }
        }
    }
}

/// The technologies shown by Node.js dependency names.
pub open spec fn node_techs(keys: Option<Seq<Seq<char>>>) -> Set<Seq<char>> {
    match keys {
        Some(ks) => Set::new(
            |t: Seq<char>| exists|i: int| 0 <= i < ks.len() && node_dependency_technology(#[trigger] ks[i]) == Some(t),
        ),
        None => Set::empty(),
    }
}

/// Rust crates that show a technology.
pub open spec fn cargo_dependency_table() -> Seq<(Seq<char>, Seq<char>)> {
    seq![
        ("axum"@, "Axum"@),
        ("actix-web"@, "Actix Web"@),
        ("tokio"@, "Tokio"@),
        ("tauri"@, "Tauri"@),
        ("rocket"@, "Rocket"@),
    ]
}

/// Whether some line of a `Cargo.toml`, trimmed, starts with `dep` and a space.
pub open spec fn declares_dependency(contents: Seq<char>, dep: Seq<char>) -> bool {
    exists|i: int| 0 <= i < lines(contents).len() && starts_with(trim(#[trigger] lines(contents)[i]), dep + " "@)
}

pub open spec fn cargo_techs(contents: Option<Seq<char>>) -> Set<Seq<char>> {
    match contents {
        Some(c) => Set::new(
            |t: Seq<char>| exists|k: int| 0 <= k < 5 && (#[trigger] cargo_dependency_table()[k]).1 == t && declares_dependency(c, cargo_dependency_table()[k].0),
        ),
        None => Set::empty(),
    }
}

/// Files at the project root that show a technology.
pub open spec fn root_file_table() -> Seq<(Seq<char>, Seq<char>)> {
    seq![
        ("pnpm-lock.yaml"@, "pnpm"@),
        ("yarn.lock"@, "Yarn"@),
        ("bun.lock"@, "Bun"@),
        ("package-lock.json"@, "npm"@),
        ("playwright.config.ts"@, "Playwright"@),
        ("playwright.config.js"@, "Playwright"@),
        ("Dockerfile"@, "Docker"@),
        ("docker-compose.yml"@, "Docker Compose"@),
        ("compose.yml"@, "Docker Compose"@),
    ]
}

pub open spec fn root_file_techs(present: Seq<Seq<char>>) -> Set<Seq<char>> {
    Set::new(
        |t: Seq<char>| exists|k: int| 0 <= k < 9 && (#[trigger] root_file_table()[k]).1 == t && present.contains(root_file_table()[k].0),
    )
}

/// Adds to a sorted list of technologies those shown by the dependency names
/// of a `package.json` section (`None` when the section is missing); the list
/// stays sorted and free of repetitions.
pub fn add_node_techs(technologies: &mut Vec<String>, keys: &Option<Vec<String>>)
    requires
        sorted_strict(string_views(old(technologies)@)),
    ensures
        sorted_strict(string_views(final(technologies)@)),
        string_views(final(technologies)@).to_set() == string_views(old(technologies)@).to_set().union(
            node_techs(match keys { Some(k) => Some(string_views(k@)), None => None }),
        ),
{
    match keys {
        Some(ks) => {
            let ghost base = string_views(technologies@).to_set();
            let ghost kv = string_views(ks@);
            let mut i: usize = 0;
            while i < ks.len()
                invariant
                    i <= ks@.len(),
                    kv == string_views(ks@),
                    sorted_strict(string_views(technologies@)),
                    string_views(technologies@).to_set() == base.union(node_techs(Some(kv.take(i as int)))),
                decreases ks.len() - i,
            {
                let ghost before = string_views(technologies@).to_set();
                assert(kv[i as int] == ks@[i as int]@);
                let ghost extra = match node_dependency_technology(kv[i as int]) {
                    Some(t) => Set::<Seq<char>>::empty().insert(t),
                    None => Set::<Seq<char>>::empty(),
                };
                match technology_for_node_dependency(ks[i].as_str()) {
                    Some(t) => insert_sorted(technologies, owned(t)),
                    None => {},
                }
                assert(string_views(technologies@).to_set() =~= before.union(extra));
                assert(node_techs(Some(kv.take(i + 1))) =~= node_techs(Some(kv.take(i as int))).union(extra)) by {
                    assert forall|t: Seq<char>| node_techs(Some(kv.take(i + 1))).contains(t) <==> (node_techs(Some(kv.take(i as int))).contains(t) || extra.contains(t)) by {
                        if node_techs(Some(kv.take(i + 1))).contains(t) {
                            let j = choose|j: int| 0 <= j < kv.take(i + 1).len() && node_dependency_technology(#[trigger] kv.take(i + 1)[j]) == Some(t);
                            if j < i {
                                assert(kv.take(i as int)[j] == kv.take(i + 1)[j]);
                            }
                        }
                        if node_techs(Some(kv.take(i as int))).contains(t) {
                            let j = choose|j: int| 0 <= j < kv.take(i as int).len() && node_dependency_technology(#[trigger] kv.take(i as int)[j]) == Some(t);
                            assert(kv.take(i + 1)[j] == kv.take(i as int)[j]);
                        }
                        if extra.contains(t) {
                            assert(kv.take(i + 1)[i as int] == kv[i as int]);
                        }
                    }
                }
                assert(string_views(technologies@).to_set() =~= base.union(node_techs(Some(kv.take(i + 1)))));
                i = i + 1;
            }
            assert(kv.take(kv.len() as int) == kv);
        },
        None => {
            assert(string_views(technologies@).to_set() =~= string_views(technologies@).to_set().union(Set::empty()));
        },
    }
}

fn declares_dependency_exec(contents: &str, dep: &str) -> (r: bool)
    ensures
        r == declares_dependency(contents@, dep@),
{
    let ls = lines_of(chars_of(contents).as_slice());
    let mut prefix = owned(dep);
    prefix.append(" ");
    let mut i: usize = 0;
    while i < ls.len()
        invariant
            i <= ls@.len(),
            views(ls@) == lines(contents@),
            prefix@ == dep@ + " "@,
            forall|q: int| 0 <= q < i ==> !starts_with(trim(#[trigger] lines(contents@)[q]), dep@ + " "@),
        decreases ls.len() - i,
    {
        assert(views(ls@)[i as int] == ls@[i as int]@);
        let t = trim_chars(ls[i].as_slice());
        if starts_with_str(t.as_slice(), prefix.as_str()) {
            assert(starts_with(trim(lines(contents@)[i as int]), dep@ + " "@));
            return true;
        }
        i = i + 1;
    }
    false
}

/// Records the technologies shown by `package.json` dependencies, by crates
/// in `Cargo.toml`, and by files present at the project root.
pub fn inspect_manifest_contents(
    state: &mut ScanState,
    package_json: Option<&str>,
    cargo_toml: Option<&str>,
    root_files: &Vec<String>,
)
    requires
        old(state).wf(),
    ensures
        final(state).wf(),
        final(state).manifest_set() == old(state).manifest_set(),
        final(state).document_set() == old(state).document_set(),
        final(state).language_files@ == old(state).language_files@,
        final(state).source_file_count == old(state).source_file_count,
        final(state).test_file_count == old(state).test_file_count,
        final(state).technology_set() == old(state).technology_set().union(
            match package_json {
                Some(text) => node_techs(json_section_keys(text@, "dependencies"@)).union(
                    node_techs(json_section_keys(text@, "devDependencies"@)),
                ),
                None => Set::empty(),
            },
        ).union(cargo_techs(match cargo_toml { Some(c) => Some(c@), None => None })).union(
            root_file_techs(string_views(root_files@)),
        ),
{
    let ghost t0 = state.technology_set();
    let ghost pj = match package_json {
        Some(text) => node_techs(json_section_keys(text@, "dependencies"@)).union(
            node_techs(json_section_keys(text@, "devDependencies"@)),
        ),
        None => Set::empty(),
    };
    match package_json {
        Some(text) => {
            let deps = json_object_keys(text, "dependencies");
            add_node_techs(&mut state.technologies, &deps);
            let dev = json_object_keys(text, "devDependencies");
            add_node_techs(&mut state.technologies, &dev);
        },
        None => {},
    }
    assert(state.technology_set() =~= t0.union(pj));
    let ghost t1 = state.technology_set();
    let ghost ct = cargo_techs(match cargo_toml { Some(c) => Some(c@), None => None });
    match cargo_toml {
        Some(c) => {
            let mut k: usize = 0;
            while k < 5
                invariant
                    k <= 5,
                    sorted_strict(string_views(state.technologies@)),
                    state.manifests@ == old(state).manifests@,
                    state.requirement_documents@ == old(state).requirement_documents@,
                    state.language_files@ == old(state).language_files@,
                    state.source_file_count == old(state).source_file_count,
                    state.test_file_count == old(state).test_file_count,
                    state.technology_set() == t1.union(Set::new(
                        |t: Seq<char>| exists|j: int| 0 <= j < k && (#[trigger] cargo_dependency_table()[j]).1 == t && declares_dependency(c@, cargo_dependency_table()[j].0),
                    )),
                decreases 5 - k,
            {
                let (dep, tech) = if k == 0 {
                    ("axum", "Axum")
                } else if k == 1 {
                    ("actix-web", "Actix Web")
                } else if k == 2 {
                    ("tokio", "Tokio")
                } else if k == 3 {
                    ("tauri", "Tauri")
                } else {
                    ("rocket", "Rocket")
                };
                assert(dep@ == cargo_dependency_table()[k as int].0 && tech@ == cargo_dependency_table()[k as int].1);
                let ghost before = state.technology_set();
                if declares_dependency_exec(c, dep) {
                    insert_sorted(&mut state.technologies, owned(tech));
                }
                assert(state.technology_set() =~= t1.union(Set::new(
                    |t: Seq<char>| exists|j: int| 0 <= j < k + 1 && (#[trigger] cargo_dependency_table()[j]).1 == t && declares_dependency(c@, cargo_dependency_table()[j].0),
                )));
                k = k + 1;
            }
            assert(state.technology_set() =~= t1.union(ct));
        },
        None => {
            assert(state.technology_set() =~= t1.union(ct));
        },
    }
    let ghost t2 = state.technology_set();
    let ghost present = string_views(root_files@);
    let mut k: usize = 0;
    while k < 9
        invariant
            k <= 9,
            present == string_views(root_files@),
            sorted_strict(string_views(state.technologies@)),
            state.manifests@ == old(state).manifests@,
            state.requirement_documents@ == old(state).requirement_documents@,
            state.language_files@ == old(state).language_files@,
            state.source_file_count == old(state).source_file_count,
            state.test_file_count == old(state).test_file_count,
            state.technology_set() == t2.union(Set::new(
                |t: Seq<char>| exists|j: int| 0 <= j < k && (#[trigger] root_file_table()[j]).1 == t && present.contains(root_file_table()[j].0),
            )),
        decreases 9 - k,
    {
        let (file, tech) = if k == 0 {
            ("pnpm-lock.yaml", "pnpm")
        } else if k == 1 {
            ("yarn.lock", "Yarn")
        } else if k == 2 {
            ("bun.lock", "Bun")
        } else if k == 3 {
            ("package-lock.json", "npm")
        } else if k == 4 {
            ("playwright.config.ts", "Playwright")
        } else if k == 5 {
            ("playwright.config.js", "Playwright")
        } else if k == 6 {
            ("Dockerfile", "Docker")
        } else if k == 7 {
            ("docker-compose.yml", "Docker Compose")
        } else {
            ("compose.yml", "Docker Compose")
        };
        assert(file@ == root_file_table()[k as int].0 && tech@ == root_file_table()[k as int].1);
        let mut found = false;
        let mut i: usize = 0;
        while i < root_files.len()
            invariant
                i <= root_files@.len(),
                present == string_views(root_files@),
                found == exists|q: int| 0 <= q < i && present[q] == file@,
            decreases root_files.len() - i,
        {
            assert(present[i as int] == root_files@[i as int]@);
            if str_eq(root_files[i].as_str(), file) {
                found = true;
            }
            i = i + 1;
        }
        if found {
            insert_sorted(&mut state.technologies, owned(tech));
        }
        assert(state.technology_set() =~= t2.union(Set::new(
            |t: Seq<char>| exists|j: int| 0 <= j < k + 1 && (#[trigger] root_file_table()[j]).1 == t && present.contains(root_file_table()[j].0),
        )));
        k = k + 1;
    }
    assert(state.technology_set() =~= t2.union(root_file_techs(present)));
}

/// The profile of a scanned project.
pub fn scan_project(root: &str, git_repository: bool, state: ScanState) -> (r: ProjectProfile)
    requires
        state.wf(),
    ensures
        r.root@ == crate::paths::display_path_spec(root@),
        r.git_repository == git_repository,
        string_views(r.manifests@) == string_views(state.manifests@),
        string_views(r.requirement_documents@) == string_views(state.requirement_documents@),
        string_views(r.technologies@) == string_views(state.technologies@),
        r.languages@ == state.language_files@,
        r.source_file_count == state.source_file_count,
        r.test_file_count == state.test_file_count,
        string_views(r.skipped_directories@) == skipped_directories(),
{
    ProjectProfile {
        root: crate::paths::display_path(root),
        git_repository,
        manifests: state.manifests,
        requirement_documents: state.requirement_documents,
        technologies: state.technologies,
        languages: state.language_files,
        source_file_count: state.source_file_count,
        test_file_count: state.test_file_count,
        skipped_directories: skipped_directory_names(),
    }
}

} // verus!
