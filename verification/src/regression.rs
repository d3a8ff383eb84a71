//! Fix verification by issue fingerprints: a fix is verified when the target
//! fingerprint is gone after the fix and no fingerprint appears that the
//! baseline did not have.
use vstd::prelude::*;

use crate::text::{str_eq, string_views, copy_string, chars_of, string_of};
use crate::text::{strip_prefix, CharClass, drop_leading, drop_trailing};

verus! {

/// Outcome of comparing the issues before and after a fix.
#[derive(Debug)]
pub struct RegressionVerdict {
    pub verified: bool,
    pub target_resolved: bool,
    /// Baseline fingerprints that are gone after the fix (the target among them).
    pub resolved: Vec<String>,
    /// Baseline fingerprints still present after the fix.
    pub remaining: Vec<String>,
    /// Fingerprints present after the fix that the baseline did not have.
    pub new_issues: Vec<String>,
}

/// Fingerprints of `s`, in order, whose presence in `other` is `present`.
pub open spec fn selected(s: Seq<Seq<char>>, other: Seq<Seq<char>>, present: bool) -> Seq<
    Seq<char>,
> {
    s.filter(|f: Seq<char>| other.contains(f) == present)
}

/// Fingerprints of `s` that do not occur in `other`.
pub open spec fn missing_from(s: Seq<Seq<char>>, other: Seq<Seq<char>>) -> Seq<Seq<char>> {
    selected(s, other, false)
}

/// Fingerprints of `s` that also occur in `other`.
pub open spec fn kept_in(s: Seq<Seq<char>>, other: Seq<Seq<char>>) -> Seq<Seq<char>> {
    selected(s, other, true)
}

/// One step of `selected`: the last fingerprint is kept exactly when its
/// presence matches.
pub proof fn lemma_selected_step(s: Seq<Seq<char>>, other: Seq<Seq<char>>, present: bool)
    requires
        s.len() > 0,
    ensures
        selected(s, other, present) == (if other.contains(s.last()) == present {
            selected(s.drop_last(), other, present).push(s.last())
        } else {
            selected(s.drop_last(), other, present)
        }),
{
    let p = |f: Seq<char>| other.contains(f) == present;
    reveal(Seq::filter);
    assert(s.filter(p) == (if p(s.last()) {
        s.drop_last().filter(p).push(s.last())
    } else {
        s.drop_last().filter(p)
    }));
}

/// Whether `needle` is one of `items`.
fn contains_fingerprint(items: &[String], needle: &str) -> (r: bool)
    ensures
        r == string_views(items@).contains(needle@),
{
    let mut i: usize = 0;
    while i < items.len()
        invariant
            i <= items@.len(),
            forall|j: int| 0 <= j < i ==> items@[j]@ != needle@,
        decreases items.len() - i,
    {
        if str_eq(items[i].as_str(), needle) {
            assert(string_views(items@)[i as int] == needle@);
            return true;
        }
        i = i + 1;
    }
    proof {
        if string_views(items@).contains(needle@) {
            let k = choose|k: int|
                0 <= k < string_views(items@).len() && string_views(items@)[k] == needle@;
            assert(items@[k]@ == needle@);
        }
    }
    false
}

/// The items of `items` whose presence in `other` is `present`.
fn select_fingerprints(items: &[String], other: &[String], present: bool) -> (r: Vec<String>)
    ensures
        string_views(r@) == selected(string_views(items@), string_views(other@), present),
{
    let ghost s = string_views(items@);
    let ghost o = string_views(other@);
    let mut out: Vec<String> = Vec::new();
    let mut i: usize = 0;
    while i < items.len()
        invariant
            i <= items@.len(),
            s == string_views(items@),
            o == string_views(other@),
            string_views(out@) == selected(s.take(i as int), o, present),
        decreases items.len() - i,
    {
        let found = contains_fingerprint(other, items[i].as_str());
        assert(s.take(i + 1).drop_last() == s.take(i as int));
        assert(s.take(i + 1).last() == s[i as int]);
        proof {
            lemma_selected_step(s.take(i + 1), o, present);
        }
        if found == present {
            let ghost before = out@;
            out.push(copy_string(&items[i]));
            assert(string_views(out@) == string_views(before).push(s[i as int]));
        }
        i = i + 1;
    }
    assert(s.take(items@.len() as int) == s);
    out
}

/// Compares the fingerprints before (`baseline`) and after (`post_fix`) a fix
/// for the `target` fingerprint.
pub fn evaluate(baseline: &[String], post_fix: &[String], target: &str) -> (r: RegressionVerdict)
    ensures
        string_views(r.resolved@) == missing_from(string_views(baseline@), string_views(post_fix@)),
        string_views(r.remaining@) == kept_in(string_views(baseline@), string_views(post_fix@)),
        string_views(r.new_issues@) == missing_from(string_views(post_fix@), string_views(baseline@)),
        r.target_resolved == !string_views(post_fix@).contains(target@),
        r.verified == (r.target_resolved && r.new_issues@.len() == 0),
{
    let resolved = select_fingerprints(baseline, post_fix, false);
    let remaining = select_fingerprints(baseline, post_fix, true);
    let new_issues = select_fingerprints(post_fix, baseline, false);
    let target_resolved = !contains_fingerprint(post_fix, target);
    let verified = target_resolved && new_issues.len() == 0;
    RegressionVerdict { verified, target_resolved, resolved, remaining, new_issues }
}

/// Every baseline fingerprint is either resolved or remaining, never both: the
/// two lists split the baseline.
pub proof fn lemma_resolved_and_remaining_split_baseline(
    baseline: Seq<Seq<char>>,
    post_fix: Seq<Seq<char>>,
)
    ensures
        missing_from(baseline, post_fix).len() + kept_in(baseline, post_fix).len()
            == baseline.len(),
        forall|f: Seq<char>|
            baseline.contains(f) ==> (missing_from(baseline, post_fix).contains(f) <==> !post_fix.contains(f)),
        forall|f: Seq<char>|
            baseline.contains(f) ==> (kept_in(baseline, post_fix).contains(f) <==> post_fix.contains(f)),
    decreases baseline.len(),
{
    if baseline.len() > 0 {
        let rest = baseline.drop_last();
        lemma_resolved_and_remaining_split_baseline(rest, post_fix);
        lemma_selected_step(baseline, post_fix, false);
        lemma_selected_step(baseline, post_fix, true);
        assert forall|f: Seq<char>| baseline.contains(f) implies (missing_from(baseline, post_fix).contains(f) <==> !post_fix.contains(f)) && (kept_in(baseline, post_fix).contains(f) <==> post_fix.contains(f)) by {
            let k = choose|k: int| 0 <= k < baseline.len() && baseline[k] == f;
            if k < baseline.len() - 1 {
                assert(rest[k] == f);
                assert(rest.contains(f));
            }
            let m = missing_from(rest, post_fix);
            let kk = kept_in(rest, post_fix);
            if f != baseline.last() {
                assert(rest.contains(f));
                if m.push(baseline.last()).contains(f) {
                    let j = choose|j: int| 0 <= j < m.push(baseline.last()).len() && m.push(baseline.last())[j] == f;
                    assert(m[j] == f);
                }
                if kk.push(baseline.last()).contains(f) {
                    let j = choose|j: int| 0 <= j < kk.push(baseline.last()).len() && kk.push(baseline.last())[j] == f;
                    assert(kk[j] == f);
                }
                if m.contains(f) {
                    let j = choose|j: int| 0 <= j < m.len() && m[j] == f;
                    assert(m.push(baseline.last())[j] == f);
                }
                if kk.contains(f) {
                    let j = choose|j: int| 0 <= j < kk.len() && kk[j] == f;
                    assert(kk.push(baseline.last())[j] == f);
                }
            } else {
                assert(m.push(f)[m.len() as int] == f);
                assert(kk.push(f)[kk.len() as int] == f);
                if !post_fix.contains(f) && kk.contains(f) {
                    baseline.drop_last().lemma_filter_contains_rev(|g: Seq<char>| post_fix.contains(g) == true, f);
                }
                if post_fix.contains(f) && m.contains(f) {
                    baseline.drop_last().lemma_filter_contains_rev(|g: Seq<char>| post_fix.contains(g) == false, f);
                }
            }
        }
    }
}

/// When every fingerprint after the fix was already in the baseline there are
/// no new issues, and a target still present is never resolved: the fix then
/// is verified exactly when the target is gone.
pub proof fn lemma_no_new_issues_without_new_fingerprints(
    baseline: Seq<Seq<char>>,
    post_fix: Seq<Seq<char>>,
)
    requires
        forall|f: Seq<char>| post_fix.contains(f) ==> baseline.contains(f),
    ensures
        missing_from(post_fix, baseline).len() == 0,
    decreases post_fix.len(),
{
    if post_fix.len() > 0 {
        assert forall|f: Seq<char>| post_fix.drop_last().contains(f) implies baseline.contains(f) by {
            let k = choose|k: int| 0 <= k < post_fix.len() - 1 && post_fix.drop_last()[k] == f;
            assert(post_fix[k] == f);
        }
        lemma_no_new_issues_without_new_fingerprints(baseline, post_fix.drop_last());
        assert(post_fix[post_fix.len() - 1] == post_fix.last());
        assert(post_fix.contains(post_fix.last()));
        lemma_selected_step(post_fix, baseline, false);
    }
}

/// Path `child` relative to `base` when it lies within it; separators are
/// unified to `/` first, so mixed `\` and `/` are tolerated.
pub open spec fn relative_within_spec(base: Seq<char>, child: Seq<char>) -> Option<Seq<char>> {
    let b = drop_trailing(slashes_unified(base), CharClass::Slash);
    match strip_prefix(slashes_unified(child), b) {
        Some(rest) => Some(drop_leading(rest, CharClass::Slash)),
        None => None,
    }
}

/// `s` with every `\` replaced by `/`.
pub open spec fn slashes_unified(s: Seq<char>) -> Seq<char> {
    s.map_values(|c: char| if c == '\\' { '/' } else { c })
}

fn unify_slashes(v: &[char]) -> (r: Vec<char>)
    ensures
        r@ == slashes_unified(v@),
{
    let mut out: Vec<char> = Vec::new();
    let mut i: usize = 0;
    while i < v.len()
        invariant
            i <= v@.len(),
            out@ == v@.take(i as int).map_values(|c: char| if c == '\\' { '/' } else { c }),
        decreases v.len() - i,
    {
        let c = v[i];
        out.push(if c == '\\' { '/' } else { c });
        assert(v@.take(i + 1) == v@.take(i as int).push(c));
        i = i + 1;
    }
    assert(v@.take(v@.len() as int) == v@);
    out
}

/// The part of `child` below `base`, or `None` when `child` is not within it.
pub fn relative_within(base: &str, child: &str) -> (r: Option<String>)
    ensures
        match r {
            Some(s) => relative_within_spec(base@, child@) == Some(s@),
            None => relative_within_spec(base@, child@) is None,
        },
{
    let b = unify_slashes(chars_of(base).as_slice());
    let c = unify_slashes(chars_of(child).as_slice());
    let b = crate::text::strip_trailing(b.as_slice(), CharClass::Slash);
    let b_str = string_of(b.as_slice());
    match crate::text::strip_prefix_str(c.as_slice(), b_str.as_str()) {
        Some(rest) => {
            let rest = crate::text::strip_leading(rest.as_slice(), CharClass::Slash);
            Some(string_of(rest.as_slice()))
        },
        None => None,
    }
}

} // verus!
