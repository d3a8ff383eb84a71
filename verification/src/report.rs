//! What the HTML report embeds besides the review itself: the screenshots,
//! found once each, as data URLs. Reading the files and rendering the page
//! are left to the caller.
use vstd::prelude::*;
use crate::browser::{BrowserRunReport, ScenarioResult};
use crate::playwright::ActionOutcome;
use crate::review::ReviewReport;
use crate::text::{add_first_occurrence, first_occurrences, owned, string_views};

verus! {

/// The screenshots a browser run refers to, in order: each scenario's
/// screenshot, then each sidecar action's.
pub open spec fn scenario_shots(v: Seq<ScenarioResult>) -> Seq<Seq<char>>
    decreases v.len(),
{
    if v.len() == 0 {
        Seq::empty()
    } else {
        let prev = scenario_shots(v.drop_last());
        match v.last().screenshot {
            Some(p) => prev.push(p@),
            None => prev,
        }
    }
}

pub open spec fn action_shots(v: Seq<ActionOutcome>) -> Seq<Seq<char>>
    decreases v.len(),
{
    if v.len() == 0 {
        Seq::empty()
    } else {
        let prev = action_shots(v.drop_last());
        match v.last().screenshot_path {
            Some(p) => prev.push(p@),
            None => prev,
        }
    }
}

pub open spec fn browser_shots(b: BrowserRunReport) -> Seq<Seq<char>> {
    scenario_shots(b.scenarios@) + match b.playwright {
        Some(p) => action_shots(p.outcome.actions@),
        None => Seq::<Seq<char>>::empty(),
    }
}

/// The screenshots the report embeds, each once.
pub open spec fn report_shots(r: ReviewReport) -> Seq<Seq<char>> {
    match r.browser_report {
        Some(b) => first_occurrences(browser_shots(b)),
        None => Seq::empty(),
    }
}

/// The screenshots of a review's browser run, each once, in the order the
/// run refers to them.
pub fn screenshot_paths(report: &ReviewReport) -> (r: Vec<String>)
    ensures
        string_views(r@) == report_shots(*report),
{
    let mut out: Vec<String> = Vec::new();
    match &report.browser_report {
        None => {
            assert(string_views(out@) =~= Seq::<Seq<char>>::empty());
            out
        },
        Some(b) => {
            let ghost mut seen: Seq<Seq<char>> = Seq::empty();
            assert(string_views(out@) =~= first_occurrences(seen));
            let mut i: usize = 0;
            while i < b.scenarios.len()
                invariant
                    i <= b.scenarios@.len(),
                    seen == scenario_shots(b.scenarios@.take(i as int)),
                    string_views(out@) == first_occurrences(seen),
                decreases b.scenarios.len() - i,
            {
                assert(b.scenarios@.take(i + 1).drop_last() == b.scenarios@.take(i as int));
                match &b.scenarios[i].screenshot {
                    Some(p) => {
                        add_first_occurrence(&mut out, p, Ghost(seen));
                        proof {
                            seen = seen.push(p@);
                        }
                    },
                    None => {},
                }
                i = i + 1;
            }
            assert(b.scenarios@.take(b.scenarios@.len() as int) == b.scenarios@);
            let ghost head = seen;
            match &b.playwright {
                Some(p) => {
                    let acts = &p.outcome.actions;
                    let mut k: usize = 0;
                    while k < acts.len()
                        invariant
                            k <= acts@.len(),
                            seen == head + action_shots(acts@.take(k as int)),
                            string_views(out@) == first_occurrences(seen),
                        decreases acts.len() - k,
                    {
                        assert(acts@.take(k + 1).drop_last() == acts@.take(k as int));
                        match &acts[k].screenshot_path {
                            Some(path) => {
                                add_first_occurrence(&mut out, path, Ghost(seen));
                                proof {
                                    seen = seen.push(path@);
                                }
                            },
                            None => {},
                        }
                        k = k + 1;
                    }
                    assert(acts@.take(acts@.len() as int) == acts@);
                },
                None => {
                    assert(head + Seq::<Seq<char>>::empty() == head);
                },
            }
            out
        },
    }
}

/// The standard base64 encoding (with padding) of some bytes.
pub uninterp spec fn base64_standard(bytes: Seq<u8>) -> Seq<char>;

/// `base64::engine::general_purpose::STANDARD.encode`. Trusted: the result is
/// the encoding named by `base64_standard`, four characters for every three
/// bytes begun, as the padded encoding is; the encoding itself is not
/// restated. The call panics when that length overflows, so the input is
/// bounded.
#[verifier::external_body]
fn base64_encode(bytes: &[u8]) -> (r: String)
    requires
        bytes@.len() / 3 * 4 + 4 <= usize::MAX,
    ensures
        r@ == base64_standard(bytes@),
        r@.len() == 4 * ((bytes@.len() + 2) / 3),
{
    base64::Engine::encode(&base64::engine::general_purpose::STANDARD, bytes)
}

/// A PNG screenshot as a data URL the page can show by itself.
pub fn screenshot_data_url(bytes: &[u8]) -> (r: String)
    requires
        bytes@.len() / 3 * 4 + 4 <= usize::MAX,
    ensures
        r@ == "data:image/png;base64,"@ + base64_standard(bytes@),
{
    let mut r = owned("data:image/png;base64,");
    let encoded = base64_encode(bytes);
    r.append(encoded.as_str());
    r
}

} // verus!
