//! Display forms of file-system paths.
use vstd::prelude::*;

use crate::text::{chars_of, strip_prefix, strip_prefix_str, string_of};

verus! {

/// The prefix Windows puts before verbatim paths.
pub const VERBATIM_PREFIX: &'static str = "\\\\?\\";

/// `p` without a leading verbatim prefix.
pub open spec fn display_path_spec(p: Seq<char>) -> Seq<char> {
    match strip_prefix(p, VERBATIM_PREFIX@) {
        Some(rest) => rest,
        None => p,
    }
}

/// A path as shown to users: without the verbatim prefix Windows may add.
pub fn display_path(path: &str) -> (r: String)
    ensures
        r@ == display_path_spec(path@),
{
    let v = chars_of(path);
    match strip_prefix_str(v.as_slice(), VERBATIM_PREFIX) {
        Some(rest) => string_of(rest.as_slice()),
        None => string_of(v.as_slice()),
    }
}

/// `p` with every `\` turned into `/`.
pub open spec fn forward_slashes(p: Seq<char>) -> Seq<char> {
    p.map_values(|c: char| if c == '\\' { '/' } else { c })
}

/// A path with forward slashes only.
pub fn normalize_path(path: &str) -> (r: String)
    ensures
        r@ == forward_slashes(path@),
{
    let v = chars_of(path);
    let mut out: Vec<char> = Vec::new();
    let mut i: usize = 0;
    while i < v.len()
        invariant
            i <= v@.len(),
            out@ == v@.take(i as int).map_values(|c: char| if c == '\\' { '/' } else { c }),
        decreases v.len() - i,
    {
        let c = v[i];
        out.push(if c == '\\' { '/' } else { c });
        assert(v@.take(i + 1) == v@.take(i as int).push(c));
        i = i + 1;
    }
    assert(v@.take(v@.len() as int) == v@);
    string_of(out.as_slice())
}

/// A sidecar evidence path: verbatim prefix removed, forward slashes only.
pub fn normalize_evidence_path(path: &str) -> (r: String)
    ensures
        r@ == forward_slashes(display_path_spec(path@)),
{
    let d = display_path(path);
    normalize_path(d.as_str())
}

} // verus!
