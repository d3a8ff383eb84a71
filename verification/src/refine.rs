//! The second stage of requirement analysis: checking what a model extracted
//! from each document, turning it into numbered requirements, and assembling
//! the refined report. Reading documents and asking the model are left to
//! the caller.
use vstd::prelude::*;
use crate::ai::{ai_error_message, AiError, AiProviderKind, AiTransportInfo};
use crate::requirements::{
    build_test_plan, criteria_views, evidence_for_category, evidence_for_category_spec, flag_diagnostic,
    flag_diagnostic_exec, flag_views, requirement_views, test_plan_spec, AcceptanceCriterion,
    AcceptanceCriterionView, AnalysisEngine, DiagnosticSeverity, EvidenceKind, QualityFlagKind,
    QualityFlagView, Requirement, RequirementCategory, RequirementDiagnostic,
    RequirementDiagnosticView, RequirementDocument, RequirementDocumentView, RequirementPriority,
    RequirementQualityFlag, RequirementReport, RequirementView, SourceLocation, SourceLocationView,
};
use crate::text::{
    chars_of, decimal, decimal_string, join, join_strings, lines, lines_of, numbered,
    numbered_string, owned, right_aligned_string, space_pad, string_views, trim, trim_chars, views,
    zero_pad, zero_padded_string,
};

verus! {

/// Options of the two-stage requirement analysis.
#[derive(Debug)]
pub struct RefineOptions {
    pub provider: AiProviderKind,
    pub cache_dir: Option<String>,
}

/// An acceptance criterion as the model writes it.
#[derive(Debug)]
pub struct RefinedCriterionWire {
    pub statement: String,
    pub evidence: Vec<EvidenceKind>,
}

/// A quality flag as the model writes it.
#[derive(Debug)]
pub struct RefinedFlagWire {
    pub kind: QualityFlagKind,
    pub message: String,
}

/// A requirement as the model writes it.
#[derive(Debug)]
pub struct RefinedRequirementWire {
    pub title: String,
    pub description: String,
    pub category: RequirementCategory,
    pub priority: RequirementPriority,
    pub source_line: usize,
    pub acceptance_criteria: Vec<RefinedCriterionWire>,
    pub quality_flags: Vec<RefinedFlagWire>,
}

/// The model's answer for one document.
#[derive(Debug)]
pub struct RefinedDocumentWire {
    pub requirements: Vec<RefinedRequirementWire>,
    pub notes: Vec<String>,
}

// ---------------------------------------------------------------------------
// Checking the model's answer
// ---------------------------------------------------------------------------

pub open spec fn blank(s: Seq<char>) -> bool {
    trim(s).len() == 0
}

pub open spec fn has_blank_statement(cs: Seq<RefinedCriterionWire>) -> bool {
    exists|i: int| 0 <= i < cs.len() && blank(#[trigger] cs[i].statement@)
}

/// A requirement the document can hold: a description, a line of the
/// document, and at least one acceptance criterion, none of them blank.
pub open spec fn refined_item_valid(item: RefinedRequirementWire, line_count: usize) -> bool {
    &&& !blank(item.description@)
    &&& 1 <= item.source_line <= line_count
    &&& item.acceptance_criteria@.len() > 0
    &&& !has_blank_statement(item.acceptance_criteria@)
}

pub open spec fn item_prefix(i: nat) -> Seq<char> {
    "requirements["@ + decimal(i) + "]"@
}

/// What is wrong with requirement `i` of the answer, in order.
pub open spec fn item_problems(item: RefinedRequirementWire, i: nat, line_count: usize) -> Seq<
    Seq<char>,
> {
    (if blank(item.description@) {
        seq![item_prefix(i) + " has an empty description"@]
    } else {
        Seq::<Seq<char>>::empty()
    }) + (if item.source_line == 0 || item.source_line > line_count {
        seq![
            item_prefix(i) + " cites source_line "@ + decimal(item.source_line as nat)
                + " outside the document (1..="@ + decimal(line_count as nat) + ")"@,
        ]
    } else {
        Seq::<Seq<char>>::empty()
    }) + (if item.acceptance_criteria@.len() == 0 {
        seq![item_prefix(i) + " has no acceptance criteria"@]
    } else if has_blank_statement(item.acceptance_criteria@) {
        seq![item_prefix(i) + " contains an empty acceptance criterion statement"@]
    } else {
        Seq::<Seq<char>>::empty()
    })
}

pub open spec fn refined_problems(items: Seq<RefinedRequirementWire>, line_count: usize) -> Seq<
    Seq<char>,
>
    decreases items.len(),
{
    if items.len() == 0 {
        Seq::empty()
    } else {
        refined_problems(items.drop_last(), line_count) + item_problems(
            items.last(),
            (items.len() - 1) as nat,
            line_count,
        )
    }
}

/// The valid requirements, in order.
pub open spec fn valid_items(items: Seq<RefinedRequirementWire>, line_count: usize) -> Seq<
    RefinedRequirementWire,
>
    decreases items.len(),
{
    if items.len() == 0 {
        Seq::empty()
    } else {
        let prev = valid_items(items.drop_last(), line_count);
        if refined_item_valid(items.last(), line_count) {
            prev.push(items.last())
        } else {
            prev
        }
    }
}

fn is_blank(s: &String) -> (r: bool)
    ensures
        r == blank(s@),
{
    let v = chars_of(s.as_str());
    let t = trim_chars(v.as_slice());
    t.len() == 0
}

fn any_blank_statement(cs: &Vec<RefinedCriterionWire>) -> (r: bool)
    ensures
        r == has_blank_statement(cs@),
{
    let mut i: usize = 0;
    while i < cs.len()
        invariant
            i <= cs@.len(),
            forall|j: int| 0 <= j < i ==> !blank(#[trigger] cs@[j].statement@),
        decreases cs.len() - i,
    {
        if is_blank(&cs[i].statement) {
            return true;
        }
        i = i + 1;
    }
    false
}

fn push_string(v: &mut Vec<String>, s: String)
    ensures
        string_views(final(v)@) == string_views(old(v)@).push(s@),
{
    let ghost before = v@;
    v.push(s);
    assert(string_views(v@) =~= string_views(before).push(s@));
}

fn item_prefix_string(i: usize) -> (r: String)
    ensures
        r@ == item_prefix(i as nat),
{
    let mut r = owned("requirements[");
    let d = decimal_string(i as u128);
    r.append(d.as_str());
    r.append("]");
    r
}

fn push_item_problems(
    problems: &mut Vec<String>,
    item: &RefinedRequirementWire,
    i: usize,
    line_count: usize,
) -> (valid: bool)
    ensures
        string_views(final(problems)@) == string_views(old(problems)@) + item_problems(
            *item,
            i as nat,
            line_count,
        ),
        valid == refined_item_valid(*item, line_count),
{
    let ghost start = string_views(problems@);
    let empty_description = is_blank(&item.description);
    if empty_description {
        let mut m = item_prefix_string(i);
        m.append(" has an empty description");
        push_string(problems, m);
    }
    let bad_line = item.source_line == 0 || item.source_line > line_count;
    if bad_line {
        let mut m = item_prefix_string(i);
        m.append(" cites source_line ");
        let a = decimal_string(item.source_line as u128);
        m.append(a.as_str());
        m.append(" outside the document (1..=");
        let b = decimal_string(line_count as u128);
        m.append(b.as_str());
        m.append(")");
        push_string(problems, m);
    }
    let no_criteria = item.acceptance_criteria.len() == 0;
    let blank_statement = any_blank_statement(&item.acceptance_criteria);
    if no_criteria {
        let mut m = item_prefix_string(i);
        m.append(" has no acceptance criteria");
        push_string(problems, m);
    } else if blank_statement {
        let mut m = item_prefix_string(i);
        m.append(" contains an empty acceptance criterion statement");
        push_string(problems, m);
    }
    assert(string_views(problems@) =~= start + item_problems(*item, i as nat, line_count));
    !empty_description && !bad_line && !no_criteria && !blank_statement
}

/// Checks the model's answer for one document of `line_count` lines. A
/// requirement needs a description, a line of the document and acceptance
/// criteria with statements. Without problems the answer is kept as it is; in
/// lenient mode (the last round) the invalid requirements are dropped; else
/// every problem is returned, joined by "; ", as feedback for the model.
pub fn validate_refined_document(wire: RefinedDocumentWire, line_count: usize, lenient: bool) -> (r:
    Result<RefinedDocumentWire, String>)
    ensures
        match r {
            Ok(w) => {
                &&& refined_problems(wire.requirements@, line_count).len() == 0 || lenient
                &&& w.requirements@ == valid_items(wire.requirements@, line_count)
                &&& w.notes@ == wire.notes@
            },
            Err(e) => {
                &&& refined_problems(wire.requirements@, line_count).len() > 0
                &&& !lenient
                &&& e@ == join(refined_problems(wire.requirements@, line_count), "; "@)
            },
        },
{
    let RefinedDocumentWire { requirements, notes } = wire;
    let ghost items = requirements@;
    let mut problems: Vec<String> = Vec::new();
    let mut rest = requirements;
    let mut kept: Vec<RefinedRequirementWire> = Vec::new();
    let n = rest.len();
    let mut i: usize = 0;
    assert(string_views(problems@) =~= Seq::<Seq<char>>::empty());
    while rest.len() > 0
        invariant
            i <= items.len(),
            n == items.len(),
            rest@ == items.skip(i as int),
            string_views(problems@) == refined_problems(items.take(i as int), line_count),
            kept@ == valid_items(items.take(i as int), line_count),
        decreases rest.len(),
    {
        assert(items.take(i + 1).drop_last() == items.take(i as int));
        assert(items.take(i + 1).last() == items[i as int]);
        let item = rest.remove(0);
        assert(items.skip(i + 1) == items.skip(i as int).remove(0));
        let valid = push_item_problems(&mut problems, &item, i, line_count);
        if valid {
            kept.push(item);
        }
        i = i + 1;
    }
    assert(items.take(items.len() as int) == items);
    if problems.len() > 0 && !lenient {
        return Err(join_strings(&problems, "; "));
    }
    proof {
        if problems.len() == 0 {
            lemma_no_problems_all_valid(items, line_count);
        }
    }
    Ok(RefinedDocumentWire { requirements: kept, notes })
}

/// An answer without problems is kept whole.
pub proof fn lemma_no_problems_all_valid(items: Seq<RefinedRequirementWire>, line_count: usize)
    requires
        refined_problems(items, line_count).len() == 0,
    ensures
        valid_items(items, line_count) == items,
    decreases items.len(),
{
    if items.len() > 0 {
        let last = items.last();
        let p = item_problems(last, (items.len() - 1) as nat, line_count);
        assert(p.len() == 0);
        assert(refined_item_valid(last, line_count));
        lemma_no_problems_all_valid(items.drop_last(), line_count);
        assert(items.drop_last().push(last) == items);
    }
}

// ---------------------------------------------------------------------------
// Numbered requirements
// ---------------------------------------------------------------------------

/// Criterion `index` of requirement `req_id`: numbered `<id>-AC-nn`, with the
/// category's default evidence when the model named none.
pub open spec fn refined_criterion(
    c: RefinedCriterionWire,
    req_id: Seq<char>,
    index: nat,
    category: RequirementCategory,
) -> AcceptanceCriterionView {
    AcceptanceCriterionView {
        id: req_id + "-AC-"@ + zero_pad(decimal(index + 1), 2),
        statement: c.statement@,
        evidence: if c.evidence@.len() == 0 {
            evidence_for_category_spec(category)
        } else {
            c.evidence@
        },
    }
}

pub open spec fn refined_flag(f: RefinedFlagWire) -> QualityFlagView {
    QualityFlagView { kind: f.kind, message: f.message@ }
}

/// The requirement that follows `existing` others: numbered `REQ-nnn` from
/// its position, located in `path` at the line the model cited.
pub open spec fn refined_requirement(item: RefinedRequirementWire, path: Seq<char>, existing: nat) -> RequirementView {
    let id = numbered("REQ-"@, existing + 1);
    let cs = item.acceptance_criteria@;
    RequirementView {
        id,
        title: item.title@,
        description: item.description@,
        category: item.category,
        priority: item.priority,
        source: SourceLocationView { path, line: item.source_line },
        acceptance_criteria: Seq::new(
            cs.len(),
            |j: int| refined_criterion(cs[j], id, j as nat, item.category),
        ),
        quality_flags: item.quality_flags@.map_values(|f: RefinedFlagWire| refined_flag(f)),
    }
}

/// Turns the model's requirement into the requirement that follows
/// `existing` others.
pub fn build_refined_requirement(item: RefinedRequirementWire, document_path: &str, existing: usize) -> (r:
    Requirement)
    ensures
        r@ == refined_requirement(item, document_path@, existing as nat),
{
    let id = numbered_string("REQ-", existing as u128 + 1);
    let ghost cs = item.acceptance_criteria@;
    let ghost fs = item.quality_flags@;
    let RefinedRequirementWire {
        title,
        description,
        category,
        priority,
        source_line,
        acceptance_criteria,
        quality_flags,
    } = item;
    let mut rest = acceptance_criteria;
    let n = rest.len();
    let mut criteria: Vec<AcceptanceCriterion> = Vec::new();
    let mut i: usize = 0;
    while rest.len() > 0
        invariant
            i <= cs.len(),
            n == cs.len(),
            rest@ == cs.skip(i as int),
            criteria@.len() == i,
            criteria_views(criteria@) == Seq::new(
                i as nat,
                |j: int| refined_criterion(cs[j], id@, j as nat, category),
            ),
        decreases rest.len(),
    {
        let c = rest.remove(0);
        assert(c == cs[i as int]);
        assert(cs.skip(i + 1) == cs.skip(i as int).remove(0));
        let RefinedCriterionWire { statement, evidence } = c;
        let mut cid = id.clone();
        cid.append("-AC-");
        let d = zero_padded_string(i as u128 + 1, 2);
        cid.append(d.as_str());
        let ev = if evidence.len() == 0 {
            evidence_for_category(category)
        } else {
            evidence
        };
        let ghost before = criteria@;
        let ac = AcceptanceCriterion { id: cid, statement, evidence: ev };
        assert(ac@ == refined_criterion(cs[i as int], id@, i as nat, category));
        criteria.push(ac);
        assert forall|j: int| 0 <= j < i + 1 implies #[trigger] criteria_views(criteria@)[j]
            == refined_criterion(cs[j], id@, j as nat, category) by {
            if j < i {
                assert(criteria@[j] == before[j]);
                assert(criteria_views(before)[j] == refined_criterion(cs[j], id@, j as nat, category));
            }
        }
        assert(criteria_views(criteria@) =~= Seq::new(
            (i + 1) as nat,
            |j: int| refined_criterion(cs[j], id@, j as nat, category),
        ));
        i = i + 1;
    }
    let mut frest = quality_flags;
    let m = frest.len();
    let mut flags: Vec<RequirementQualityFlag> = Vec::new();
    let mut k: usize = 0;
    while frest.len() > 0
        invariant
            k <= fs.len(),
            m == fs.len(),
            frest@ == fs.skip(k as int),
            flags@.len() == k,
            flag_views(flags@) == fs.take(k as int).map_values(|f: RefinedFlagWire| refined_flag(f)),
        decreases frest.len(),
    {
        let f = frest.remove(0);
        assert(f == fs[k as int]);
        assert(fs.skip(k + 1) == fs.skip(k as int).remove(0));
        let RefinedFlagWire { kind, message } = f;
        let ghost fbefore = flags@;
        let qf = RequirementQualityFlag { kind, message };
        assert(qf@ == refined_flag(fs[k as int]));
        flags.push(qf);
        assert forall|j: int| 0 <= j < k + 1 implies #[trigger] flag_views(flags@)[j] == refined_flag(
            fs[j],
        ) by {
            if j < k {
                assert(flags@[j] == fbefore[j]);
                assert(flag_views(fbefore)[j] == fs.take(k as int).map_values(
                    |f: RefinedFlagWire| refined_flag(f),
                )[j]);
            }
        }
        assert(flag_views(flags@) =~= fs.take(k + 1).map_values(|f: RefinedFlagWire| refined_flag(f)));
        k = k + 1;
    }
    assert(fs.take(fs.len() as int) == fs);
    Requirement {
        id,
        title,
        description,
        category,
        priority,
        source: SourceLocation { path: owned(document_path), line: source_line },
        acceptance_criteria: criteria,
        quality_flags: flags,
    }
}

// ---------------------------------------------------------------------------
// Collecting the refined requirements of all documents
// ---------------------------------------------------------------------------

/// How many requirements one document yielded.
#[derive(Debug)]
pub struct DocumentCount {
    pub path: String,
    pub count: usize,
}

pub struct DocumentCountView {
    pub path: Seq<char>,
    pub count: usize,
}

impl View for DocumentCount {
    type V = DocumentCountView;

    open spec fn view(&self) -> DocumentCountView {
        DocumentCountView { path: self.path@, count: self.count }
    }
}

pub open spec fn count_views(v: Seq<DocumentCount>) -> Seq<DocumentCountView> {
    v.map_values(|c: DocumentCount| c@)
}

/// The refined requirements so far, numbered across documents, with the
/// count of each document and the model's notes.
#[derive(Debug)]
pub struct RefineState {
    pub requirements: Vec<Requirement>,
    pub counts: Vec<DocumentCount>,
    pub notes: Vec<String>,
}

impl RefineState {
    /// Nothing refined yet.
    pub fn new() -> (r: RefineState)
        ensures
            r.requirements@.len() == 0,
            sequentially_numbered(requirement_views(r.requirements@)),
            r.counts@.len() == 0,
            r.notes@.len() == 0,
    {
        RefineState { requirements: Vec::new(), counts: Vec::new(), notes: Vec::new() }
    }
}

/// Requirement `k` is numbered `REQ-<k+1>`, with three digits at least.
pub open spec fn sequentially_numbered(rs: Seq<RequirementView>) -> bool {
    forall|k: int| 0 <= k < rs.len() ==> (#[trigger] rs[k]).id == numbered("REQ-"@, (k + 1) as nat)
}

/// The requirements a document's answer adds after `existing` others.
pub open spec fn added_requirements(
    items: Seq<RefinedRequirementWire>,
    path: Seq<char>,
    existing: nat,
) -> Seq<RequirementView> {
    Seq::new(items.len(), |j: int| refined_requirement(items[j], path, existing + j as nat))
}

/// Adds the checked answer for one document: its requirements, numbered
/// after those already collected, the document's count and the notes.
pub fn add_refined_document(state: &mut RefineState, document_path: &str, wire: RefinedDocumentWire)
    requires
        old(state).requirements@.len() + wire.requirements@.len() <= usize::MAX,
    ensures
        requirement_views(final(state).requirements@) == requirement_views(old(state).requirements@)
            + added_requirements(
            wire.requirements@,
            document_path@,
            old(state).requirements@.len(),
        ),
        count_views(final(state).counts@) == count_views(old(state).counts@).push(
            DocumentCountView { path: document_path@, count: wire.requirements@.len() as usize },
        ),
        string_views(final(state).notes@) == string_views(old(state).notes@) + string_views(
            wire.notes@,
        ),
        sequentially_numbered(requirement_views(old(state).requirements@)) ==> sequentially_numbered(
            requirement_views(final(state).requirements@),
        ),
{
    let RefinedDocumentWire { requirements, notes } = wire;
    let ghost items = requirements@;
    let ghost start = requirement_views(state.requirements@);
    let ghost base = state.requirements@.len();
    let ghost counts0 = state.counts@;
    let ghost notes0 = state.notes@;
    let before = state.requirements.len();
    let mut rest = requirements;
    let n = rest.len();
    let mut i: usize = 0;
    while rest.len() > 0
        invariant
            i <= items.len(),
            n == items.len(),
            base == before,
            base + items.len() <= usize::MAX,
            rest@ == items.skip(i as int),
            state.counts@ == counts0,
            state.notes@ == notes0,
            state.requirements@.len() == base + i,
            requirement_views(state.requirements@) == start + added_requirements(
                items.take(i as int),
                document_path@,
                base as nat,
            ),
        decreases rest.len(),
    {
        let item = rest.remove(0);
        assert(item == items[i as int]);
        assert(items.skip(i + 1) == items.skip(i as int).remove(0));
        let existing = state.requirements.len();
        let r = build_refined_requirement(item, document_path, existing);
        let ghost prev = state.requirements@;
        state.requirements.push(r);
        assert(requirement_views(state.requirements@) =~= requirement_views(prev).push(r@));
        assert(added_requirements(items.take(i + 1), document_path@, base as nat) =~= added_requirements(
            items.take(i as int),
            document_path@,
            base as nat,
        ).push(refined_requirement(items[i as int], document_path@, (base + i) as nat)));
        i = i + 1;
    }
    assert(items.take(items.len() as int) == items);
    assert(sequentially_numbered(start) ==> sequentially_numbered(requirement_views(state.requirements@)))
        by {
        if sequentially_numbered(start) {
            let all = requirement_views(state.requirements@);
            assert forall|k: int| 0 <= k < all.len() implies (#[trigger] all[k]).id == numbered(
                "REQ-"@,
                (k + 1) as nat,
            ) by {
                if k < start.len() {
                    assert(all[k] == start[k]);
                } else {
                    assert(all[k] == added_requirements(items, document_path@, base as nat)[k - start.len()]);
                }
            }
        }
    }
    let ghost cprev = state.counts@;
    let c = DocumentCount { path: owned(document_path), count: n };
    state.counts.push(c);
    assert(count_views(state.counts@) =~= count_views(cprev).push(c@));
    let ghost nprev = state.notes@;
    let ghost reqs_after = state.requirements@;
    let ghost counts_after = state.counts@;
    let mut nrest = notes;
    let ghost ns = nrest@;
    let m = nrest.len();
    let mut k: usize = 0;
    while nrest.len() > 0
        invariant
            k <= ns.len(),
            m == ns.len(),
            nrest@ == ns.skip(k as int),
            state.requirements@ == reqs_after,
            state.counts@ == counts_after,
            string_views(state.notes@) == string_views(nprev) + string_views(ns.take(k as int)),
        decreases nrest.len(),
    {
        let note = nrest.remove(0);
        assert(note == ns[k as int]);
        assert(ns.skip(k + 1) == ns.skip(k as int).remove(0));
        let ghost p = state.notes@;
        state.notes.push(note);
        assert(string_views(state.notes@) =~= string_views(p).push(note@));
        assert(string_views(ns.take(k + 1)) =~= string_views(ns.take(k as int)).push(note@));
        k = k + 1;
    }
    assert(ns.take(ns.len() as int) == ns);
}

/// What the refinement cost: the model, the requests sent, the answers
/// taken from the cache and the tokens used.
#[derive(Debug)]
pub struct RefineRunStats {
    pub model: String,
    pub attempts: u32,
    pub cache_hits: u32,
    pub total_tokens: u64,
}

/// Counts one exchange with the model.
pub fn record_transport(stats: &mut RefineRunStats, transport: &AiTransportInfo)
    requires
        old(stats).attempts + transport.attempts <= u32::MAX,
        old(stats).cache_hits < u32::MAX,
        transport.usage matches Some(u) ==> old(stats).total_tokens + u.total_tokens <= u64::MAX,
    ensures
        final(stats).model == old(stats).model,
        final(stats).attempts == old(stats).attempts + transport.attempts,
        final(stats).cache_hits == old(stats).cache_hits + (if transport.cache_hit {
            1int
        } else {
            0int
        }),
        final(stats).total_tokens == old(stats).total_tokens + match transport.usage {
            Some(u) => u.total_tokens as int,
            None => 0int,
        },
{
    stats.attempts = stats.attempts + transport.attempts;
    if transport.cache_hit {
        stats.cache_hits = stats.cache_hits + 1;
    }
    match &transport.usage {
        Some(u) => {
            stats.total_tokens = stats.total_tokens + u.total_tokens;
        },
        None => {},
    }
}

// ---------------------------------------------------------------------------
// The refined report
// ---------------------------------------------------------------------------

/// The count of the first document entry with this path, or 0.
pub open spec fn count_for(counts: Seq<DocumentCountView>, path: Seq<char>) -> usize
    decreases counts.len(),
{
    if counts.len() == 0 {
        0
    } else if counts[0].path == path {
        counts[0].count
    } else {
        count_for(counts.drop_first(), path)
    }
}

pub open spec fn refined_summary(stats: RefineRunStats) -> Seq<char> {
    "Requirements refined by LLM ("@ + stats.model@ + "): requests="@ + decimal(stats.attempts as nat)
        + ", cache_hits="@ + decimal(stats.cache_hits as nat) + ", total_tokens="@ + decimal(
        stats.total_tokens as nat,
    ) + "."@
}

pub open spec fn note_diagnostic(note: Seq<char>) -> RequirementDiagnosticView {
    RequirementDiagnosticView { severity: DiagnosticSeverity::Info, message: "LLM note: "@ + note }
}

/// The quality-flag diagnostics of all requirements, in order.
pub open spec fn flag_diagnostics_of(rs: Seq<RequirementView>) -> Seq<RequirementDiagnosticView>
    decreases rs.len(),
{
    if rs.len() == 0 {
        Seq::empty()
    } else {
        flag_diagnostics_of(rs.drop_last()) + rs.last().quality_flags.map_values(
            |f: QualityFlagView| flag_diagnostic(rs.last(), f),
        )
    }
}

pub open spec fn no_requirements_warning() -> RequirementDiagnosticView {
    RequirementDiagnosticView {
        severity: DiagnosticSeverity::Warning,
        message: "LLM refinement returned no requirements."@,
    }
}

/// The refined report: the rule report's source and documents (with the
/// refined counts), the refined requirements and a test plan built from
/// them, and diagnostics (the run summary, the notes, the quality flags and,
/// when nothing came back, a warning).
pub open spec fn assembled_report(
    rule: crate::requirements::RequirementReportView,
    rs: Seq<RequirementView>,
    counts: Seq<DocumentCountView>,
    notes: Seq<Seq<char>>,
    stats: RefineRunStats,
) -> crate::requirements::RequirementReportView {
    crate::requirements::RequirementReportView {
        source: rule.source,
        engine: AnalysisEngine::LlmRefined,
        documents: rule.documents.map_values(
            |d: RequirementDocumentView|
                RequirementDocumentView {
                    path: d.path,
                    title: d.title,
                    requirement_count: count_for(counts, d.path),
                },
        ),
        requirements: rs,
        test_plan: test_plan_spec(rs),
        diagnostics: seq![
            RequirementDiagnosticView {
                severity: DiagnosticSeverity::Info,
                message: refined_summary(stats),
            },
        ] + notes.map_values(|n: Seq<char>| note_diagnostic(n)) + flag_diagnostics_of(rs) + (if rs.len()
            == 0 {
            seq![no_requirements_warning()]
        } else {
            Seq::<RequirementDiagnosticView>::empty()
        }),
    }
}

fn count_of(counts: &Vec<DocumentCount>, path: &String) -> (r: usize)
    ensures
        r == count_for(count_views(counts@), path@),
{
    let ghost cv = count_views(counts@);
    assert(cv.skip(0) == cv);
    let mut i: usize = 0;
    while i < counts.len()
        invariant
            i <= counts@.len(),
            cv == count_views(counts@),
            count_for(cv.skip(i as int), path@) == count_for(cv, path@),
        decreases counts.len() - i,
    {
        assert(cv.skip(i as int)[0] == cv[i as int]);
        assert(cv.skip(i as int).drop_first() == cv.skip(i + 1));
        if str_eq_string(&counts[i].path, path) {
            return counts[i].count;
        }
        i = i + 1;
    }
    assert(cv.skip(i as int).len() == 0);
    0
}

fn str_eq_string(a: &String, b: &String) -> (r: bool)
    ensures
        r == (a@ == b@),
{
    crate::text::str_eq(a.as_str(), b.as_str())
}

fn push_diagnostic(v: &mut Vec<RequirementDiagnostic>, d: RequirementDiagnostic)
    ensures
        crate::requirements::diagnostic_views(final(v)@) == crate::requirements::diagnostic_views(
            old(v)@,
        ).push(d@),
{
    let ghost before = v@;
    v.push(d);
    assert(crate::requirements::diagnostic_views(v@) =~= crate::requirements::diagnostic_views(
        before,
    ).push(d@));
}

/// Builds the refined report from the rule report and what the model
/// answered for its documents.
pub fn assemble_report(rule_report: &RequirementReport, state: RefineState, stats: &RefineRunStats) -> (r:
    RequirementReport)
    ensures
        r@ == assembled_report(
            rule_report@,
            requirement_views(state.requirements@),
            count_views(state.counts@),
            string_views(state.notes@),
            *stats,
        ),
{
    let RefineState { requirements, counts, notes } = state;
    let ghost rs = requirement_views(requirements@);
    let ghost rule = rule_report@;
    let mut documents: Vec<RequirementDocument> = Vec::new();
    let mut i: usize = 0;
    while i < rule_report.documents.len()
        invariant
            i <= rule_report.documents@.len(),
            rule == rule_report@,
            documents@.len() == i,
            crate::requirements::document_views(documents@) == rule.documents.take(i as int).map_values(
                |d: RequirementDocumentView|
                    RequirementDocumentView {
                        path: d.path,
                        title: d.title,
                        requirement_count: count_for(count_views(counts@), d.path),
                    },
            ),
        decreases rule_report.documents.len() - i,
    {
        let d = &rule_report.documents[i];
        let title = match &d.title {
            Some(t) => Some(t.clone()),
            None => None,
        };
        let count = count_of(&counts, &d.path);
        let doc = RequirementDocument { path: d.path.clone(), title, requirement_count: count };
        let ghost prev = documents@;
        assert(doc@ == RequirementDocumentView {
            path: rule.documents[i as int].path,
            title: rule.documents[i as int].title,
            requirement_count: count_for(count_views(counts@), rule.documents[i as int].path),
        });
        documents.push(doc);
        assert forall|j: int| 0 <= j < i + 1 implies #[trigger] crate::requirements::document_views(
            documents@,
        )[j] == rule.documents.take(i + 1).map_values(
            |d: RequirementDocumentView|
                RequirementDocumentView {
                    path: d.path,
                    title: d.title,
                    requirement_count: count_for(count_views(counts@), d.path),
                },
        )[j] by {
            if j < i {
                assert(documents@[j] == prev[j]);
                assert(crate::requirements::document_views(prev)[j] == rule.documents.take(
                    i as int,
                ).map_values(
                    |d: RequirementDocumentView|
                        RequirementDocumentView {
                            path: d.path,
                            title: d.title,
                            requirement_count: count_for(count_views(counts@), d.path),
                        },
                )[j]);
            }
        }
        assert(crate::requirements::document_views(documents@) =~= rule.documents.take(
            i + 1,
        ).map_values(
            |d: RequirementDocumentView|
                RequirementDocumentView {
                    path: d.path,
                    title: d.title,
                    requirement_count: count_for(count_views(counts@), d.path),
                },
        ));
        i = i + 1;
    }
    assert(rule.documents.take(rule.documents.len() as int) == rule.documents);
    let mut diagnostics: Vec<RequirementDiagnostic> = Vec::new();
    let mut summary = owned("Requirements refined by LLM (");
    summary.append(stats.model.as_str());
    summary.append("): requests=");
    let a = decimal_string(stats.attempts as u128);
    summary.append(a.as_str());
    summary.append(", cache_hits=");
    let h = decimal_string(stats.cache_hits as u128);
    summary.append(h.as_str());
    summary.append(", total_tokens=");
    let t = decimal_string(stats.total_tokens as u128);
    summary.append(t.as_str());
    summary.append(".");
    push_diagnostic(
        &mut diagnostics,
        RequirementDiagnostic { severity: DiagnosticSeverity::Info, message: summary },
    );
    let ghost head = crate::requirements::diagnostic_views(diagnostics@);
    let ghost ns = string_views(notes@);
    let mut k: usize = 0;
    while k < notes.len()
        invariant
            k <= notes@.len(),
            ns == string_views(notes@),
            crate::requirements::diagnostic_views(diagnostics@) == head + ns.take(k as int).map_values(
                |n: Seq<char>| note_diagnostic(n),
            ),
        decreases notes.len() - k,
    {
        let mut m = owned("LLM note: ");
        m.append(notes[k].as_str());
        push_diagnostic(
            &mut diagnostics,
            RequirementDiagnostic { severity: DiagnosticSeverity::Info, message: m },
        );
        assert(ns.take(k + 1).map_values(|n: Seq<char>| note_diagnostic(n)) =~= ns.take(
            k as int,
        ).map_values(|n: Seq<char>| note_diagnostic(n)).push(note_diagnostic(ns[k as int])));
        k = k + 1;
    }
    assert(ns.take(ns.len() as int) == ns);
    let ghost head2 = crate::requirements::diagnostic_views(diagnostics@);
    let mut j: usize = 0;
    while j < requirements.len()
        invariant
            j <= requirements@.len(),
            rs == requirement_views(requirements@),
            crate::requirements::diagnostic_views(diagnostics@) == head2 + flag_diagnostics_of(
                rs.take(j as int),
            ),
        decreases requirements.len() - j,
    {
        let req = &requirements[j];
        assert(rs.take(j + 1).drop_last() == rs.take(j as int));
        assert(rs.take(j + 1).last() == req@);
        let ghost mid = crate::requirements::diagnostic_views(diagnostics@);
        let ghost fl = req@.quality_flags;
        let mut f: usize = 0;
        while f < req.quality_flags.len()
            invariant
                f <= req.quality_flags@.len(),
                fl == req@.quality_flags,
                crate::requirements::diagnostic_views(diagnostics@) == mid + fl.take(f as int).map_values(
                    |q: QualityFlagView| flag_diagnostic(req@, q),
                ),
            decreases req.quality_flags.len() - f,
        {
            let d = flag_diagnostic_exec(req, &req.quality_flags[f]);
            push_diagnostic(&mut diagnostics, d);
            assert(fl.take(f + 1).map_values(|q: QualityFlagView| flag_diagnostic(req@, q)) =~= fl.take(
                f as int,
            ).map_values(|q: QualityFlagView| flag_diagnostic(req@, q)).push(
                flag_diagnostic(req@, fl[f as int]),
            ));
            f = f + 1;
        }
        assert(fl.take(fl.len() as int) == fl);
        j = j + 1;
    }
    assert(rs.take(rs.len() as int) == rs);
    if requirements.len() == 0 {
        push_diagnostic(
            &mut diagnostics,
            RequirementDiagnostic {
                severity: DiagnosticSeverity::Warning,
                message: owned("LLM refinement returned no requirements."),
            },
        );
    }
    let test_plan = build_test_plan(&requirements);
    let r = RequirementReport {
        source: rule_report.source.clone(),
        engine: AnalysisEngine::LlmRefined,
        documents,
        requirements,
        test_plan,
        diagnostics,
    };
    let ghost goal = assembled_report(rule_report@, rs, count_views(counts@), ns, *stats);
    assert(r@.source == goal.source);
    assert(r@.documents == goal.documents);
    assert(r@.requirements == goal.requirements);
    assert(r@.test_plan == goal.test_plan);
    assert(r@.diagnostics == goal.diagnostics);
    r
}

/// The refined report plans one test case per refined requirement, and
/// counts for each document what its answer yielded.
pub proof fn lemma_refined_report_plans_every_requirement(
    rule: crate::requirements::RequirementReportView,
    rs: Seq<RequirementView>,
    counts: Seq<DocumentCountView>,
    notes: Seq<Seq<char>>,
    stats: RefineRunStats,
)
    ensures
        assembled_report(rule, rs, counts, notes, stats).test_plan.cases.len() == rs.len(),
        assembled_report(rule, rs, counts, notes, stats).documents.len() == rule.documents.len(),
        forall|i: int|
            0 <= i < rule.documents.len() ==> (#[trigger] assembled_report(
                rule,
                rs,
                counts,
                notes,
                stats,
            ).documents[i]).requirement_count == count_for(counts, rule.documents[i].path),
{
}

/// Keeps the rule report when refinement fails, with a warning that says
/// why.
pub fn fall_back_to_rules(report: &mut RequirementReport, error: &AiError)
    ensures
        final(report)@ == (crate::requirements::RequirementReportView {
            diagnostics: old(report)@.diagnostics.push(
                RequirementDiagnosticView {
                    severity: DiagnosticSeverity::Warning,
                    message: "LLM refinement failed, falling back to rule-based extraction: "@
                        + ai_error_message(*error),
                },
            ),
            ..old(report)@
        }),
{
    let mut m = owned("LLM refinement failed, falling back to rule-based extraction: ");
    let e = error.message();
    m.append(e.as_str());
    push_diagnostic(
        &mut report.diagnostics,
        RequirementDiagnostic { severity: DiagnosticSeverity::Warning, message: m },
    );
}

// ---------------------------------------------------------------------------
// Prompt
// ---------------------------------------------------------------------------

/// The system prompt for extracting requirements.
pub const REFINE_SYSTEM_PROMPT: &'static str = "You are the requirement extraction engine of an evidence-driven software testing tool.\nRead the product/requirements document and extract individually testable software requirements.\n\nRespond with a single JSON object and nothing else, matching this schema exactly:\n{\n  \"requirements\": [\n    {\n      \"title\": string,\n      \"description\": string,\n      \"category\": \"functional\" | \"ui\" | \"api\" | \"data\" | \"security\" | \"performance\" | \"compatibility\" | \"non_functional\" | \"unknown\",\n      \"priority\": \"must\" | \"should\" | \"could\" | \"unknown\",\n      \"source_line\": number,\n      \"acceptance_criteria\": [\n        {\n          \"statement\": string,\n          \"evidence\": [\"runtime_result\" | \"log\" | \"screenshot\" | \"network_trace\" | \"source_location\" | \"manual_observation\"]\n        }\n      ],\n      \"quality_flags\": [\n        { \"kind\": \"vague_language\" | \"missing_observable_result\" | \"too_broad\", \"message\": string }\n      ]\n    }\n  ],\n  \"notes\": [string]\n}\n\nRules:\n- Extract real product requirements only. Skip installation guides, run instructions, changelogs, roadmaps, milestones and development journals.\n- Each requirement is exactly one verifiable behavior. Split compound sentences into separate requirements.\n- title is a short summary (max 60 characters). description must be self-contained and testable.\n- acceptance_criteria: 1 to 3 per requirement. Each statement must name a concrete observable outcome (a specific page, element, API response, state change or error message), never a generic phrase like \"the system behaves correctly\".\n- source_line is the line number shown in the numbered document where the requirement is stated.\n- Add quality_flags when the original wording is vague, lacks an observable result, or bundles too many behaviors.\n- Use notes for parser observations (e.g. sections skipped), not for requirements.\n- Keep title, description, statements, flag messages and notes in the document's language (Chinese document gets Chinese text).\n- Do not wrap the JSON in markdown fences.";

/// The lines of the rule engine's candidates in one document, in order.
pub open spec fn candidate_lines_spec(rs: Seq<RequirementView>, path: Seq<char>) -> Seq<usize>
    decreases rs.len(),
{
    if rs.len() == 0 {
        Seq::empty()
    } else {
        let prev = candidate_lines_spec(rs.drop_last(), path);
        if rs.last().source.path == path {
            prev.push(rs.last().source.line)
        } else {
            prev
        }
    }
}

/// The lines where the rule engine found candidates in one document: hints
/// for the model.
pub fn candidate_lines(report: &RequirementReport, path: &String) -> (r: Vec<usize>)
    ensures
        r@ == candidate_lines_spec(requirement_views(report.requirements@), path@),
{
    let ghost rs = requirement_views(report.requirements@);
    let mut out: Vec<usize> = Vec::new();
    let mut i: usize = 0;
    while i < report.requirements.len()
        invariant
            i <= report.requirements@.len(),
            rs == requirement_views(report.requirements@),
            out@ == candidate_lines_spec(rs.take(i as int), path@),
        decreases report.requirements.len() - i,
    {
        assert(rs.take(i + 1).drop_last() == rs.take(i as int));
        assert(rs.take(i + 1).last() == report.requirements@[i as int]@);
        let r = &report.requirements[i];
        if str_eq_string(&r.source.path, path) {
            out.push(r.source.line);
        }
        i = i + 1;
    }
    assert(rs.take(rs.len() as int) == rs);
    out
}

/// The project's technologies as a hint, when there are any.
pub fn technology_hint(technologies: &Vec<String>) -> (r: Option<String>)
    ensures
        match r {
            Some(h) => technologies@.len() > 0 && h@ == join(string_views(technologies@), ", "@),
            None => technologies@.len() == 0,
        },
{
    if technologies.len() == 0 {
        None
    } else {
        Some(join_strings(technologies, ", "))
    }
}

pub open spec fn line_numbers(v: Seq<usize>) -> Seq<Seq<char>> {
    v.map_values(|n: usize| decimal(n as nat))
}

/// Line `i` of the document, numbered from 1 and right-aligned to four
/// places.
pub open spec fn numbered_line(i: nat, line: Seq<char>) -> Seq<char> {
    space_pad(decimal(i + 1), 4) + "| "@ + line + "\n"@
}

pub open spec fn numbered_lines(ls: Seq<Seq<char>>) -> Seq<char>
    decreases ls.len(),
{
    if ls.len() == 0 {
        Seq::empty()
    } else {
        numbered_lines(ls.drop_last()) + numbered_line((ls.len() - 1) as nat, ls.last())
    }
}

/// The user prompt for one document: its path, the technology hint, the
/// candidate lines, and the document with numbered lines.
pub open spec fn refine_prompt(
    path: Seq<char>,
    text: Seq<char>,
    tech_hint: Option<Seq<char>>,
    candidates: Seq<usize>,
) -> Seq<char> {
    "Document: "@ + path + "\n"@ + (match tech_hint {
        Some(h) => "Project technologies detected: "@ + h + "\n"@,
        None => Seq::<char>::empty(),
    }) + (if candidates.len() > 0 {
        "Rule-engine candidate lines (hints only, may be incomplete or wrong): "@ + join(
            line_numbers(candidates),
            ", "@,
        ) + "\n"@
    } else {
        Seq::<char>::empty()
    }) + "\nNumbered document content:\n"@ + numbered_lines(lines(text))
}

/// The user prompt for one document.
pub fn refine_user_prompt(
    document_path: &str,
    text: &str,
    tech_hint: Option<&str>,
    candidate_lines: &Vec<usize>,
) -> (r: String)
    ensures
        r@ == refine_prompt(
            document_path@,
            text@,
            match tech_hint {
                Some(h) => Some(h@),
                None => None,
            },
            candidate_lines@,
        ),
{
    let mut prompt = owned("Document: ");
    prompt.append(document_path);
    prompt.append("\n");
    match tech_hint {
        Some(h) => {
            prompt.append("Project technologies detected: ");
            prompt.append(h);
            prompt.append("\n");
        },
        None => {},
    }
    if candidate_lines.len() > 0 {
        let mut numbers: Vec<String> = Vec::new();
        let mut i: usize = 0;
        while i < candidate_lines.len()
            invariant
                i <= candidate_lines@.len(),
                numbers@.len() == i,
                string_views(numbers@) == line_numbers(candidate_lines@.take(i as int)),
            decreases candidate_lines.len() - i,
        {
            let d = decimal_string(candidate_lines[i] as u128);
            let ghost prev = numbers@;
            numbers.push(d);
            assert forall|j: int| 0 <= j < i + 1 implies #[trigger] string_views(numbers@)[j]
                == line_numbers(candidate_lines@.take(i + 1))[j] by {
                if j < i {
                    assert(numbers@[j] == prev[j]);
                    assert(string_views(prev)[j] == line_numbers(candidate_lines@.take(i as int))[j]);
                }
            }
            assert(string_views(numbers@) =~= line_numbers(candidate_lines@.take(i + 1)));
            i = i + 1;
        }
        assert(candidate_lines@.take(candidate_lines@.len() as int) == candidate_lines@);
        prompt.append("Rule-engine candidate lines (hints only, may be incomplete or wrong): ");
        let joined = join_strings(&numbers, ", ");
        prompt.append(joined.as_str());
        prompt.append("\n");
    }
    prompt.append("\nNumbered document content:\n");
    let chars = chars_of(text);
    let ls = lines_of(chars.as_slice());
    let ghost lv = views(ls@);
    let ghost head = prompt@;
    let mut k: usize = 0;
    while k < ls.len()
        invariant
            k <= ls@.len(),
            lv == views(ls@),
            prompt@ == head + numbered_lines(lv.take(k as int)),
        decreases ls.len() - k,
    {
        assert(lv.take(k + 1).drop_last() == lv.take(k as int));
        assert(lv.take(k + 1).last() == ls@[k as int]@);
        let n = right_aligned_string(k as u128 + 1, 4);
        prompt.append(n.as_str());
        prompt.append("| ");
        let line = crate::text::string_of(ls[k].as_slice());
        prompt.append(line.as_str());
        prompt.append("\n");
        k = k + 1;
    }
    assert(lv.take(lv.len() as int) == lv);
    prompt
}

} // verus!
