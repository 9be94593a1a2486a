//! The decisions of a profile evaluation: hard assertions on generated
//! output, the capability revision a run pins, which playbooks were added or
//! removed, and the verdict drawn from everything a run observed.
//!
//! Semantic scores are real numbers and are judged by the application
//! layer; the verdict takes what it found as plain facts.
use vstd::prelude::*;

use crate::canonical;
use crate::text;
use crate::text::{push_str, str_contains, str_is_blank, str_starts_with, string_from};

use super::hashing;
use super::hashing::{hash_profile_version, HashError};
use super::models::{
    EffectiveCapabilityRevision, EvalCase, EvalPlan, ExpertProfileVersion, HardAssertion,
    MeetingPlaybook,
};
use super::rendering;
use super::rendering::{parse_profile_markdown, ParsedProfileMarkdown, ProfileRenderError};
use super::validation;
use super::validation::{Validate, ValidationErrors};

use super::safety_gate::SAFETY_GATE_VERSION;

verus! {


pub const MAX_CONSECUTIVE_GENERATION_ERRORS: usize = 3;

#[derive(Debug, Clone, Copy, PartialEq, Eq, Hash, Structural)]
pub enum EvalTarget {
    Candidate,
    Baseline,
}

#[derive(Debug, Clone, Copy, PartialEq, Eq, Structural)]
pub enum EvalRunOutcome {
    Pass,
    Fail,
    Rejected,
    Inconclusive,
    BaselineMissing,
}

impl EvalRunOutcome {
    pub open spec fn spec_db_name(self) -> Seq<char> {
        match self {
            EvalRunOutcome::Pass => "pass"@,
            EvalRunOutcome::Fail => "fail"@,
            EvalRunOutcome::Rejected => "rejected"@,
            EvalRunOutcome::Inconclusive => "inconclusive"@,
            EvalRunOutcome::BaselineMissing => "baseline_missing"@,
        }
    }

    pub fn as_db_str(self) -> (r: &'static str)
        ensures
            r@ == self.spec_db_name(),
    {
        match self {
            EvalRunOutcome::Pass => "pass",
            EvalRunOutcome::Fail => "fail",
            EvalRunOutcome::Rejected => "rejected",
            EvalRunOutcome::Inconclusive => "inconclusive",
            EvalRunOutcome::BaselineMissing => "baseline_missing",
        }
    }

    /// Only a passing run, or a first run without a baseline, may activate.
    pub fn qualifies_for_activation(self) -> (r: bool)
        ensures
            r == (self == EvalRunOutcome::Pass || self == EvalRunOutcome::BaselineMissing),
    {
        match self {
            EvalRunOutcome::Pass | EvalRunOutcome::BaselineMissing => true,
            _ => false,
        }
    }
}

#[derive(Debug, Clone, PartialEq, Eq)]
pub struct HardAssertionResult {
    pub assertion: String,
    pub passed: bool,
    pub detail: String,
}

#[derive(Debug, Clone, PartialEq, Eq)]
pub struct EvaluationProgress {
    pub completed_calls: usize,
    pub total_calls: usize,
    pub case_id: Option<String>,
    pub target: Option<EvalTarget>,
    pub repetition: Option<u32>,
}

/// Why a run stopped early, if it did.
#[derive(Debug, Clone, Copy, PartialEq, Eq, Structural)]
pub enum RunStatus {
    Continue,
    Cancelled,
    ProviderCircuitOpen,
}

impl ProfileRenderError {
    pub open spec fn spec_message(self) -> Seq<char> {
        match self {
            ProfileRenderError::Validation(_) => "expert profile validation failed"@,
            ProfileRenderError::PlaybookNotFound(id) => "playbook "@ + canonical::uuid_text(id)
                + " is not embedded in this profile version"@,
            ProfileRenderError::Canonicalization(_) => "failed to render canonical profile configuration"@,
            ProfileRenderError::InvalidCanonicalUtf8 => "profile configuration is not UTF-8"@,
        }
    }

    /// The message shown for the error.
    pub fn message(&self) -> (r: String)
        ensures
            r@ == self.spec_message(),
    {
        match self {
            ProfileRenderError::Validation(_) => string_from("expert profile validation failed"),
            ProfileRenderError::PlaybookNotFound(id) => {
                let mut m = string_from("playbook ");
                canonical::write_uuid_text(&mut m, *id);
                push_str(&mut m, " is not embedded in this profile version");
                m
            },
            ProfileRenderError::Canonicalization(_) => string_from(
                "failed to render canonical profile configuration",
            ),
            ProfileRenderError::InvalidCanonicalUtf8 => string_from(
                "profile configuration is not UTF-8",
            ),
        }
    }
}

// ----------------------------------------------------------------------------
// Hard assertions
// ----------------------------------------------------------------------------
pub open spec fn join_with(items: Seq<Seq<char>>, sep: Seq<char>) -> Seq<char>
    decreases items.len(),
{
    if items.len() == 0 {
        Seq::empty()
    } else if items.len() == 1 {
        items[0]
    } else {
        join_with(items.drop_last(), sep) + sep + items.last()
    }
}

/// The result of one hard assertion on generated Markdown, given what
/// parsing that Markdown returned.
pub open spec fn hard_result(
    a: HardAssertion,
    md: Seq<char>,
    parsed: Result<ParsedProfileMarkdown, ProfileRenderError>,
) -> (Seq<char>, bool, Seq<char>) {
    match a {
        HardAssertion::SchemaCompliance => match parsed {
            Ok(p) => (
                "schema_compliance"@,
                p.errors@.len() == 0,
                join_with(canonical::string_views(p.errors@), "; "@),
            ),
            Err(e) => ("schema_compliance"@, false, e.spec_message()),
        },
        HardAssertion::SectionPresent { section_id } => {
            let passed = match parsed {
                Ok(p) => match rendering::lookup(rendering::pairs_view(p.sections@), section_id@) {
                    Some(body) => !text::is_blank(body),
                    None => false,
                },
                Err(_) => false,
            };
            (
                "section_present:"@ + section_id@,
                passed,
                if passed {
                    Seq::empty()
                } else {
                    "section '"@ + section_id@ + "' is missing or empty"@
                },
            )
        },
        HardAssertion::LiteralPresent { value } => (
            "literal_present:"@ + value@,
            text::contains(md, value@),
            "expected literal '"@ + value@ + "' to be present"@,
        ),
        HardAssertion::LiteralAbsent { value } => (
            "literal_absent:"@ + value@,
            !text::contains(md, value@),
            "expected literal '"@ + value@ + "' to be absent"@,
        ),
    }
}

pub open spec fn hard_result_view(r: HardAssertionResult) -> (Seq<char>, bool, Seq<char>) {
    (r.assertion@, r.passed, r.detail@)
}

fn join_errors(items: &Vec<String>) -> (r: String)
    ensures
        r@ == join_with(canonical::string_views(items@), "; "@),
{
    let ghost iv = canonical::string_views(items@);
    let mut out = String::new();
    proof {
        assert(iv.len() == items@.len());
        assert(iv.subrange(0, 0) =~= Seq::<Seq<char>>::empty());
    }
    let mut i: usize = 0;
    while i < items.len()
        invariant
            iv == canonical::string_views(items@),
            iv.len() == items@.len(),
            0 <= i <= items@.len(),
            out@ == join_with(iv.subrange(0, i as int), "; "@),
        decreases items.len() - i,
    {
        if i > 0 {
            push_str(&mut out, "; ");
        }
        push_str(&mut out, items[i].as_str());
        proof {
            let next = iv.subrange(0, i + 1);
            assert(next.drop_last() =~= iv.subrange(0, i as int));
            assert(next.last() == items@[i as int]@);
            assert(out@ =~= join_with(next, "; "@));
        }
        i += 1;
    }
    proof {
        assert(iv.subrange(0, iv.len() as int) =~= iv);
    }
    out
}

fn lookup_section(parsed: &ParsedProfileMarkdown, id: &String) -> (r: Option<String>)
    ensures
        canonical::opt_view(r) == rendering::lookup(rendering::pairs_view(parsed.sections@), id@),
{
    let ghost ev = rendering::pairs_view(parsed.sections@);
    let mut k: usize = 0;
    while k < parsed.sections.len()
        invariant
            ev == rendering::pairs_view(parsed.sections@),
            0 <= k <= parsed.sections@.len(),
            rendering::entry_index(ev, id@, k as int) is None,
        decreases parsed.sections.len() - k,
    {
        if parsed.sections[k].0 == *id {
            proof {
                lemma_entry_found(ev, id@, k + 1, parsed.sections@.len() as int);
            }
            return Some(parsed.sections[k].1.clone());
        }
        k += 1;
    }
    None
}

proof fn lemma_entry_found(entries: Seq<(Seq<char>, Seq<char>)>, id: Seq<char>, n: int, m: int)
    requires
        0 <= n <= m,
        rendering::entry_index(entries, id, n) is Some,
    ensures
        rendering::entry_index(entries, id, m) == rendering::entry_index(entries, id, n),
    decreases m - n,
{
    if n < m {
        lemma_entry_found(entries, id, n, m - 1);
    }
}

fn prefixed(prefix: &str, value: &str) -> (r: String)
    ensures
        r@ == prefix@ + value@,
{
    let mut out = string_from(prefix);
    push_str(&mut out, value);
    out
}

fn labelled(prefix: &str, value: &str, suffix: &str) -> (r: String)
    ensures
        r@ == prefix@ + value@ + suffix@,
{
    let mut out = string_from(prefix);
    push_str(&mut out, value);
    push_str(&mut out, suffix);
    out
}

/// Evaluates one hard assertion against output and its parse.
pub fn hard_assertion_result(
    a: &HardAssertion,
    markdown: &str,
    parsed: &Result<ParsedProfileMarkdown, ProfileRenderError>,
) -> (r: HardAssertionResult)
    ensures
        hard_result_view(r) == hard_result(*a, markdown@, *parsed),
{
    match a {
        HardAssertion::SchemaCompliance => match parsed {
            Ok(p) => HardAssertionResult {
                assertion: string_from("schema_compliance"),
                passed: p.errors.len() == 0,
                detail: join_errors(&p.errors),
            },
            Err(e) => HardAssertionResult {
                assertion: string_from("schema_compliance"),
                passed: false,
                detail: e.message(),
            },
        },
        HardAssertion::SectionPresent { section_id } => {
            let passed = match parsed {
                Ok(p) => match lookup_section(p, section_id) {
                    Some(body) => !str_is_blank(body.as_str()),
                    None => false,
                },
                Err(_) => false,
            };
            HardAssertionResult {
                assertion: prefixed("section_present:", section_id.as_str()),
                passed,
                detail: if passed {
                    String::new()
                } else {
                    labelled("section '", section_id.as_str(), "' is missing or empty")
                },
            }
        },
        HardAssertion::LiteralPresent { value } => HardAssertionResult {
            assertion: prefixed("literal_present:", value.as_str()),
            passed: str_contains(markdown, value.as_str()),
            detail: labelled("expected literal '", value.as_str(), "' to be present"),
        },
        HardAssertion::LiteralAbsent { value } => HardAssertionResult {
            assertion: prefixed("literal_absent:", value.as_str()),
            passed: !str_contains(markdown, value.as_str()),
            detail: labelled("expected literal '", value.as_str(), "' to be absent"),
        },
    }
}

/// Parses the generated output for the case's playbook and evaluates every
/// hard assertion of the case, in order.
pub fn evaluate_hard(profile: &ExpertProfileVersion, case: &EvalCase, markdown: &str) -> (r: Vec<
    HardAssertionResult,
>)
    ensures
        exists|parsed: Result<ParsedProfileMarkdown, ProfileRenderError>|
            {
                &&& rendering::parse_outcome(*profile, case.playbook_id, markdown@, parsed)
                &&& r@.len() == case.assertions.hard@.len()
                &&& forall|k: int|
                    0 <= k < r@.len() ==> hard_result_view(#[trigger] r@[k]) == hard_result(
                        case.assertions.hard@[k],
                        markdown@,
                        parsed,
                    )
            },
{
    let parsed = parse_profile_markdown(profile, case.playbook_id, markdown);
    let mut out: Vec<HardAssertionResult> = Vec::new();
    let mut k: usize = 0;
    while k < case.assertions.hard.len()
        invariant
            0 <= k <= case.assertions.hard@.len(),
            out@.len() == k,
            forall|q: int|
                0 <= q < k ==> hard_result_view(#[trigger] out@[q]) == hard_result(
                    case.assertions.hard@[q],
                    markdown@,
                    parsed,
                ),
        decreases case.assertions.hard.len() - k,
    {
        let res = hard_assertion_result(&case.assertions.hard[k], markdown, &parsed);
        out.push(res);
        k += 1;
    }
    out
}

// ----------------------------------------------------------------------------
// Capability revision and playbook changes
// ----------------------------------------------------------------------------
pub open spec fn is_sorted_ids(v: Seq<u128>) -> bool {
    forall|i: int, j: int| 0 <= i <= j < v.len() ==> v[i] <= v[j]
}

/// Calls `slice::sort`: the same values, in ascending order.
#[verifier::external_body]
fn sort_ids(v: &mut Vec<u128>)
    ensures
        is_sorted_ids(final(v)@),
        final(v)@.to_multiset() == old(v)@.to_multiset(),
{
    v.sort();
}

pub open spec fn playbook_ids(v: Seq<MeetingPlaybook>) -> Seq<u128> {
    v.map_values(|p: MeetingPlaybook| p.id)
}

/// The capability revision of a profile version: its playbook ids sorted,
/// pinned to a model binding, an evaluation plan and the safety gate.
pub fn capability_revision(
    profile_id: u128,
    profile_version_hash: &str,
    profile: &ExpertProfileVersion,
    model_binding_hash: &str,
    eval_plan_hash: &str,
) -> (r: EffectiveCapabilityRevision)
    ensures
        r.profile_id == profile_id,
        r.profile_version_hash@ == profile_version_hash@,
        is_sorted_ids(r.playbook_ids@),
        r.playbook_ids@.to_multiset() == playbook_ids(profile.playbooks@).to_multiset(),
        r.model_binding_hash@ == model_binding_hash@,
        r.eval_plan_hash@ == eval_plan_hash@,
        r.safety_gate_version@ == SAFETY_GATE_VERSION@,
        r.safety_suite_hash is None,
{
    let mut ids: Vec<u128> = Vec::new();
    let mut i: usize = 0;
    while i < profile.playbooks.len()
        invariant
            0 <= i <= profile.playbooks@.len(),
            ids@ == playbook_ids(profile.playbooks@.subrange(0, i as int)),
        decreases profile.playbooks.len() - i,
    {
        ids.push(profile.playbooks[i].id);
        proof {
            assert(ids@ =~= playbook_ids(profile.playbooks@.subrange(0, i + 1)));
        }
        i += 1;
    }
    proof {
        assert(profile.playbooks@.subrange(0, profile.playbooks@.len() as int) =~= profile.playbooks@);
    }
    sort_ids(&mut ids);
    EffectiveCapabilityRevision {
        profile_id,
        profile_version_hash: string_from(profile_version_hash),
        playbook_ids: ids,
        model_binding_hash: string_from(model_binding_hash),
        eval_plan_hash: string_from(eval_plan_hash),
        safety_gate_version: string_from(SAFETY_GATE_VERSION),
        safety_suite_hash: None,
    }
}

/// The ids of `a` that `b` lacks, each once, in ascending order.
pub open spec fn sorted_difference(a: Seq<u128>, b: Seq<u128>, r: Seq<u128>) -> bool {
    &&& forall|i: int, j: int| 0 <= i < j < r.len() ==> r[i] < r[j]
    &&& forall|x: u128| r.contains(x) <==> (a.contains(x) && !b.contains(x))
}

fn contains_id(v: &Vec<u128>, x: u128) -> (r: bool)
    ensures
        r == v@.contains(x),
{
    let mut j: usize = 0;
    while j < v.len()
        invariant
            0 <= j <= v@.len(),
            forall|q: int| 0 <= q < j ==> v@[q] != x,
        decreases v.len() - j,
    {
        if v[j] == x {
            assert(v@[j as int] == x);
            return true;
        }
        j += 1;
    }
    false
}

fn difference_sorted(a: &Vec<u128>, b: &Vec<u128>) -> (r: Vec<u128>)
    ensures
        sorted_difference(a@, b@, r@),
{
    let mut s: Vec<u128> = Vec::new();
    let mut i: usize = 0;
    while i < a.len()
        invariant
            0 <= i <= a@.len(),
            s@ == a@.subrange(0, i as int),
        decreases a.len() - i,
    {
        s.push(a[i]);
        proof {
            assert(s@ =~= a@.subrange(0, i + 1));
        }
        i += 1;
    }
    proof {
        assert(s@ =~= a@);
    }
    let ghost unsorted = s@;
    sort_ids(&mut s);
    proof {
        s@.to_multiset_ensures();
        unsorted.to_multiset_ensures();
        assert forall|x: u128| s@.contains(x) <==> a@.contains(x) by {
            assert(s@.to_multiset().count(x) == unsorted.to_multiset().count(x));
        }
    }
    let mut out: Vec<u128> = Vec::new();
    let mut k: usize = 0;
    while k < s.len()
        invariant
            0 <= k <= s@.len(),
            is_sorted_ids(s@),
            forall|x: u128| s@.contains(x) <==> a@.contains(x),
            forall|p: int, q: int| 0 <= p < q < out@.len() ==> out@[p] < out@[q],
            k > 0 ==> forall|p: int| 0 <= p < out@.len() ==> out@[p] <= s@[k - 1],
            k == 0 ==> out@.len() == 0,
            forall|x: u128|
                out@.contains(x) <==> ((exists|p: int| 0 <= p < k && s@[p] == x) && !b@.contains(x)),
        decreases s.len() - k,
    {
        let x = s[k];
        let in_b = contains_id(b, x);
        let repeated = out.len() > 0 && out[out.len() - 1] == x;
        let ghost prev = out@;
        if !in_b && !repeated {
            out.push(x);
        }
        proof {
            assert forall|y: u128|
                out@.contains(y) <==> ((exists|p: int| 0 <= p < k + 1 && s@[p] == y) && !b@.contains(
                    y,
                )) by {
                if out@.contains(y) {
                    let w = choose|w: int| 0 <= w < out@.len() && out@[w] == y;
                    if w < prev.len() {
                        assert(prev[w] == y);
                        assert(prev.contains(y));
                    } else {
                        assert(y == x);
                        assert(s@[k as int] == y);
                    }
                }
                if (exists|p: int| 0 <= p < k + 1 && s@[p] == y) && !b@.contains(y) {
                    let p = choose|p: int| 0 <= p < k + 1 && s@[p] == y;
                    if p < k {
                        assert(prev.contains(y));
                        let w = choose|w: int| 0 <= w < prev.len() && prev[w] == y;
                        assert(out@[w] == y);
                    } else {
                        assert(y == x);
                        assert(out@[out@.len() - 1] == y);
                    }
                }
            }
            assert forall|p: int| 0 <= p < out@.len() implies out@[p] <= s@[k as int] by {
                if p < prev.len() {
                    assert(prev[p] <= s@[k - 1]);
                    assert(s@[k - 1] <= s@[k as int]);
                }
            }
        }
        k += 1;
    }
    proof {
        assert forall|x: u128| out@.contains(x) <==> (a@.contains(x) && !b@.contains(x)) by {
            if s@.contains(x) {
                let p = choose|p: int| 0 <= p < s@.len() && s@[p] == x;
                assert(exists|q: int| 0 <= q < k && s@[q] == x);
            }
            if exists|q: int| 0 <= q < k && s@[q] == x {
                let q = choose|q: int| 0 <= q < k && s@[q] == x;
                assert(s@.contains(x));
            }
        }
    }
    out
}

/// Playbooks new in the candidate (absent from the baseline) and playbooks
/// the candidate removed, each sorted.
pub fn playbook_changes(candidate: &ExpertProfileVersion, baseline: Option<&ExpertProfileVersion>) -> (r:
    (Vec<u128>, Vec<u128>))
    ensures
        sorted_difference(
            playbook_ids(candidate.playbooks@),
            match baseline {
                Some(b) => playbook_ids(b.playbooks@),
                None => Seq::empty(),
            },
            r.0@,
        ),
        sorted_difference(
            match baseline {
                Some(b) => playbook_ids(b.playbooks@),
                None => Seq::empty(),
            },
            playbook_ids(candidate.playbooks@),
            r.1@,
        ),
{
    let mut cand: Vec<u128> = Vec::new();
    let mut i: usize = 0;
    while i < candidate.playbooks.len()
        invariant
            0 <= i <= candidate.playbooks@.len(),
            cand@ == playbook_ids(candidate.playbooks@.subrange(0, i as int)),
        decreases candidate.playbooks.len() - i,
    {
        cand.push(candidate.playbooks[i].id);
        proof {
            assert(cand@ =~= playbook_ids(candidate.playbooks@.subrange(0, i + 1)));
        }
        i += 1;
    }
    proof {
        assert(candidate.playbooks@.subrange(0, candidate.playbooks@.len() as int)
            =~= candidate.playbooks@);
    }
    let mut base: Vec<u128> = Vec::new();
    match baseline {
        Some(b) => {
            let mut j: usize = 0;
            while j < b.playbooks.len()
                invariant
                    0 <= j <= b.playbooks@.len(),
                    base@ == playbook_ids(b.playbooks@.subrange(0, j as int)),
                decreases b.playbooks.len() - j,
            {
                base.push(b.playbooks[j].id);
                proof {
                    assert(base@ =~= playbook_ids(b.playbooks@.subrange(0, j + 1)));
                }
                j += 1;
            }
            proof {
                assert(b.playbooks@.subrange(0, b.playbooks@.len() as int) =~= b.playbooks@);
            }
        },
        None => {
            proof {
                assert(base@ =~= Seq::<u128>::empty());
            }
        },
    }
    let added = difference_sorted(&cand, &base);
    let removed = difference_sorted(&base, &cand);
    (added, removed)
}

/// The pass or fail verdict of one semantic assertion in one repetition,
/// when it was adjudicated.
#[derive(Debug, Clone, PartialEq, Eq)]
pub struct SemanticOutcome {
    pub target: EvalTarget,
    pub case_id: String,
    pub assertion_index: usize,
    pub passed: Option<bool>,
}

/// Two adjudicated verdicts on the same assertion of the same case and
/// target that differ.
pub open spec fn outcomes_disagree(a: SemanticOutcome, b: SemanticOutcome) -> bool {
    &&& a.target == b.target
    &&& a.case_id@ == b.case_id@
    &&& a.assertion_index == b.assertion_index
    &&& a.passed is Some
    &&& b.passed is Some
    &&& a.passed != b.passed
}

/// Repetitions are inconsistent when some assertion passed in one
/// repetition and failed in another, for the same case and target.
pub fn semantic_repetitions_are_inconsistent(outcomes: &Vec<SemanticOutcome>) -> (b: bool)
    ensures
        b == exists|i: int, j: int|
            0 <= i < outcomes@.len() && 0 <= j < outcomes@.len() && #[trigger] outcomes_disagree(
                outcomes@[i],
                outcomes@[j],
            ),
{
    let mut i: usize = 0;
    while i < outcomes.len()
        invariant
            0 <= i <= outcomes@.len(),
            forall|a: int, c: int|
                0 <= a < i && 0 <= c < i ==> !#[trigger] outcomes_disagree(outcomes@[a], outcomes@[c]),
        decreases outcomes.len() - i,
    {
        let x = &outcomes[i];
        let mut j: usize = 0;
        while j < i
            invariant
                0 <= j <= i < outcomes@.len(),
                *x == outcomes@[i as int],
                forall|a: int, c: int|
                    0 <= a < i && 0 <= c < i ==> !#[trigger] outcomes_disagree(outcomes@[a], outcomes@[c]),
                forall|c: int| 0 <= c < j ==> !#[trigger] outcomes_disagree(outcomes@[c], *x),
            decreases i - j,
        {
            let y = &outcomes[j];
            let differ = match (x.passed, y.passed) {
                (Some(p), Some(q)) => p != q,
                _ => false,
            };
            if differ && x.target == y.target && x.assertion_index == y.assertion_index && text::str_eq(
                x.case_id.as_str(),
                y.case_id.as_str(),
            ) {
                proof {
                    assert(outcomes_disagree(outcomes@[j as int], outcomes@[i as int]));
                }
                return true;
            }
            j += 1;
        }
        proof {
            assert forall|a: int, c: int|
                0 <= a < i + 1 && 0 <= c < i + 1 implies !#[trigger] outcomes_disagree(
                outcomes@[a],
                outcomes@[c],
            ) by {
                if a == i && c < i {
                    assert(!outcomes_disagree(outcomes@[c], outcomes@[a]));
                } else if c == i && a < i {
                    assert(!outcomes_disagree(outcomes@[a], outcomes@[c]));
                }
            }
        }
        i += 1;
    }
    false
}


// ----------------------------------------------------------------------------
// Verdicts
// ----------------------------------------------------------------------------
/// What a run observed, as plain facts.
#[derive(Debug, Clone, PartialEq, Eq)]
pub struct RunObservations {
    pub unconfirmed_removals: Vec<u128>,
    pub stopped: RunStatus,
    pub any_generation_error: bool,
    pub any_hard_failure: bool,
    pub any_semantic_unresolved: bool,
    pub inconsistent_semantics: bool,
    pub any_semantic_failure: bool,
    pub semantic_regression: bool,
    pub has_baseline: bool,
}

/// The outcome of a run: removals not confirmed reject it; a stopped run,
/// a provider failure or unresolved or inconsistent semantics leave it
/// inconclusive; any failure or regression fails it; otherwise it passes,
/// or has no baseline to pass against.
pub open spec fn run_outcome(o: RunObservations) -> EvalRunOutcome {
    if o.unconfirmed_removals@.len() > 0 {
        EvalRunOutcome::Rejected
    } else if o.stopped != RunStatus::Continue || o.any_generation_error || o.any_semantic_unresolved
        || o.inconsistent_semantics {
        EvalRunOutcome::Inconclusive
    } else if o.any_hard_failure || o.any_semantic_failure || o.semantic_regression {
        EvalRunOutcome::Fail
    } else if !o.has_baseline {
        EvalRunOutcome::BaselineMissing
    } else {
        EvalRunOutcome::Pass
    }
}

pub open spec fn reason_if(b: bool, reason: Seq<char>) -> Seq<Seq<char>> {
    if b {
        seq![reason]
    } else {
        Seq::empty()
    }
}

pub open spec fn uuid_texts(v: Seq<u128>) -> Seq<Seq<char>> {
    v.map_values(|id: u128| canonical::uuid_text(id))
}

/// The reasons reported with a run's outcome, in order.
pub open spec fn run_reasons(o: RunObservations) -> Seq<Seq<char>> {
    reason_if(
        o.unconfirmed_removals@.len() > 0,
        "CAPABILITY_REMOVAL_UNCONFIRMED: "@ + join_with(uuid_texts(o.unconfirmed_removals@), ", "@),
    ) + reason_if(
        o.any_generation_error,
        "PROVIDER_UNAVAILABLE: one or more generation calls failed"@,
    ) + reason_if(
        o.stopped == RunStatus::Cancelled,
        "EVAL_CANCELLED: evaluation was cancelled; partial results were saved"@,
    ) + reason_if(
        o.stopped == RunStatus::ProviderCircuitOpen,
        "PROVIDER_UNAVAILABLE: stopped after "@ + canonical::decimal(
            MAX_CONSECUTIVE_GENERATION_ERRORS as nat,
        ) + " consecutive generation failures; partial results were saved"@,
    ) + reason_if(o.any_hard_failure, "EVAL_FAILED: at least one hard assertion failed"@) + reason_if(
        o.any_semantic_unresolved,
        "EVAL_INCONCLUSIVE: semantic adjudication is unresolved"@,
    ) + reason_if(o.inconsistent_semantics, "EVAL_INCONCLUSIVE: semantic repetitions disagree"@)
        + reason_if(o.any_semantic_failure, "EVAL_FAILED: at least one semantic assertion failed"@)
        + reason_if(
        o.semantic_regression,
        "REGRESSION_DETECTED: semantic score fell below the allowed delta"@,
    )
}

fn push_reason(reasons: &mut Vec<String>, reason: String)
    ensures
        canonical::string_views(final(reasons)@) == canonical::string_views(old(reasons)@).push(
            reason@,
        ),
{
    let ghost prev = reasons@;
    let ghost rv = reason@;
    reasons.push(reason);
    proof {
        assert(canonical::string_views(reasons@) =~= canonical::string_views(prev).push(rv));
    }
}

fn uuid_list_text(v: &Vec<u128>) -> (r: String)
    ensures
        r@ == join_with(uuid_texts(v@), ", "@),
{
    let ghost tv = uuid_texts(v@);
    let mut out = String::new();
    proof {
        assert(tv.subrange(0, 0) =~= Seq::<Seq<char>>::empty());
    }
    let mut i: usize = 0;
    while i < v.len()
        invariant
            tv == uuid_texts(v@),
            tv.len() == v@.len(),
            0 <= i <= v@.len(),
            out@ == join_with(tv.subrange(0, i as int), ", "@),
        decreases v.len() - i,
    {
        if i > 0 {
            push_str(&mut out, ", ");
        }
        canonical::write_uuid_text(&mut out, v[i]);
        proof {
            let next = tv.subrange(0, i + 1);
            assert(next.drop_last() =~= tv.subrange(0, i as int));
            assert(out@ =~= join_with(next, ", "@));
        }
        i += 1;
    }
    proof {
        assert(tv.subrange(0, tv.len() as int) =~= tv);
    }
    out
}

fn push_reason_if(reasons: &mut Vec<String>, cond: bool, reason: String)
    ensures
        canonical::string_views(final(reasons)@) == canonical::string_views(old(reasons)@)
            + reason_if(cond, reason@),
{
    let ghost prev = canonical::string_views(reasons@);
    if cond {
        push_reason(reasons, reason);
    }
    proof {
        assert(canonical::string_views(reasons@) =~= prev + reason_if(cond, reason@));
    }
}

fn run_outcome_of(o: &RunObservations) -> (r: EvalRunOutcome)
    ensures
        r == run_outcome(*o),
{
    if o.unconfirmed_removals.len() > 0 {
        EvalRunOutcome::Rejected
    } else if o.stopped != RunStatus::Continue || o.any_generation_error || o.any_semantic_unresolved
        || o.inconsistent_semantics {
        EvalRunOutcome::Inconclusive
    } else if o.any_hard_failure || o.any_semantic_failure || o.semantic_regression {
        EvalRunOutcome::Fail
    } else if !o.has_baseline {
        EvalRunOutcome::BaselineMissing
    } else {
        EvalRunOutcome::Pass
    }
}

/// The outcome of a run and the reasons given for it.
pub fn run_verdict(o: &RunObservations) -> (r: (EvalRunOutcome, Vec<String>))
    ensures
        r.0 == run_outcome(*o),
        canonical::string_views(r.1@) == run_reasons(*o),
{
    let mut reasons: Vec<String> = Vec::new();
    let mut removal = string_from("CAPABILITY_REMOVAL_UNCONFIRMED: ");
    let list = uuid_list_text(&o.unconfirmed_removals);
    push_str(&mut removal, list.as_str());
    push_reason_if(&mut reasons, o.unconfirmed_removals.len() > 0, removal);
    proof {
        assert(canonical::string_views(reasons@) =~= reason_if(
            o.unconfirmed_removals@.len() > 0,
            "CAPABILITY_REMOVAL_UNCONFIRMED: "@ + join_with(uuid_texts(o.unconfirmed_removals@), ", "@),
        ));
    }
    push_reason_if(
        &mut reasons,
        o.any_generation_error,
        string_from("PROVIDER_UNAVAILABLE: one or more generation calls failed"),
    );
    push_reason_if(
        &mut reasons,
        o.stopped == RunStatus::Cancelled,
        string_from("EVAL_CANCELLED: evaluation was cancelled; partial results were saved"),
    );
    let mut circuit = string_from("PROVIDER_UNAVAILABLE: stopped after ");
    canonical::write_decimal(&mut circuit, MAX_CONSECUTIVE_GENERATION_ERRORS as u64);
    push_str(&mut circuit, " consecutive generation failures; partial results were saved");
    push_reason_if(&mut reasons, o.stopped == RunStatus::ProviderCircuitOpen, circuit);
    push_reason_if(
        &mut reasons,
        o.any_hard_failure,
        string_from("EVAL_FAILED: at least one hard assertion failed"),
    );
    push_reason_if(
        &mut reasons,
        o.any_semantic_unresolved,
        string_from("EVAL_INCONCLUSIVE: semantic adjudication is unresolved"),
    );
    push_reason_if(
        &mut reasons,
        o.inconsistent_semantics,
        string_from("EVAL_INCONCLUSIVE: semantic repetitions disagree"),
    );
    push_reason_if(
        &mut reasons,
        o.any_semantic_failure,
        string_from("EVAL_FAILED: at least one semantic assertion failed"),
    );
    push_reason_if(
        &mut reasons,
        o.semantic_regression,
        string_from("REGRESSION_DETECTED: semantic score fell below the allowed delta"),
    );
    (run_outcome_of(o), reasons)
}

/// What re-adjudicating a stored report observed.
#[derive(Debug, Clone, Copy, PartialEq, Eq, Structural)]
pub struct AdjudicationObservations {
    pub qualifying: bool,
    pub unconfirmed_removal: bool,
    pub generation_error: bool,
    pub hard_failure: bool,
    pub semantic_unresolved: bool,
    pub inconsistent: bool,
    pub semantic_failure: bool,
    pub regression: bool,
    pub has_baseline: bool,
}

/// The outcome of re-adjudication: a preview run or an unconfirmed removal
/// is rejected; the rest as for a run.
pub open spec fn adjudicated_outcome(o: AdjudicationObservations) -> EvalRunOutcome {
    if !o.qualifying || o.unconfirmed_removal {
        EvalRunOutcome::Rejected
    } else if o.generation_error || o.semantic_unresolved || o.inconsistent {
        EvalRunOutcome::Inconclusive
    } else if o.hard_failure || o.semantic_failure || o.regression {
        EvalRunOutcome::Fail
    } else if !o.has_baseline {
        EvalRunOutcome::BaselineMissing
    } else {
        EvalRunOutcome::Pass
    }
}

pub open spec fn adjudicated_reasons(o: AdjudicationObservations) -> Seq<Seq<char>> {
    reason_if(!o.qualifying, "EVAL_FAILED: preview runs cannot qualify for activation"@) + reason_if(
        o.unconfirmed_removal,
        "CAPABILITY_REMOVAL_UNCONFIRMED"@,
    ) + reason_if(
        o.generation_error,
        "PROVIDER_UNAVAILABLE: one or more generation calls failed"@,
    ) + reason_if(o.hard_failure, "EVAL_FAILED: at least one hard assertion failed"@) + reason_if(
        o.semantic_unresolved,
        "EVAL_INCONCLUSIVE: semantic adjudication is unresolved"@,
    ) + reason_if(o.inconsistent, "EVAL_INCONCLUSIVE: semantic repetitions disagree"@) + reason_if(
        o.semantic_failure,
        "EVAL_FAILED: at least one semantic assertion failed"@,
    ) + reason_if(
        o.regression,
        "REGRESSION_DETECTED: semantic score fell below the allowed delta"@,
    )
}

pub fn adjudication_verdict(o: AdjudicationObservations) -> (r: (EvalRunOutcome, Vec<String>))
    ensures
        r.0 == adjudicated_outcome(o),
        canonical::string_views(r.1@) == adjudicated_reasons(o),
{
    let mut reasons: Vec<String> = Vec::new();
    push_reason_if(
        &mut reasons,
        !o.qualifying,
        string_from("EVAL_FAILED: preview runs cannot qualify for activation"),
    );
    proof {
        assert(canonical::string_views(reasons@) =~= reason_if(
            !o.qualifying,
            "EVAL_FAILED: preview runs cannot qualify for activation"@,
        ));
    }
    push_reason_if(&mut reasons, o.unconfirmed_removal, string_from("CAPABILITY_REMOVAL_UNCONFIRMED"));
    push_reason_if(
        &mut reasons,
        o.generation_error,
        string_from("PROVIDER_UNAVAILABLE: one or more generation calls failed"),
    );
    push_reason_if(
        &mut reasons,
        o.hard_failure,
        string_from("EVAL_FAILED: at least one hard assertion failed"),
    );
    push_reason_if(
        &mut reasons,
        o.semantic_unresolved,
        string_from("EVAL_INCONCLUSIVE: semantic adjudication is unresolved"),
    );
    push_reason_if(
        &mut reasons,
        o.inconsistent,
        string_from("EVAL_INCONCLUSIVE: semantic repetitions disagree"),
    );
    push_reason_if(
        &mut reasons,
        o.semantic_failure,
        string_from("EVAL_FAILED: at least one semantic assertion failed"),
    );
    push_reason_if(
        &mut reasons,
        o.regression,
        string_from("REGRESSION_DETECTED: semantic score fell below the allowed delta"),
    );
    let outcome = if !o.qualifying || o.unconfirmed_removal {
        EvalRunOutcome::Rejected
    } else if o.generation_error || o.semantic_unresolved || o.inconsistent {
        EvalRunOutcome::Inconclusive
    } else if o.hard_failure || o.semantic_failure || o.regression {
        EvalRunOutcome::Fail
    } else if !o.has_baseline {
        EvalRunOutcome::BaselineMissing
    } else {
        EvalRunOutcome::Pass
    };
    (outcome, reasons)
}

/// A stored report carries an unconfirmed capability removal when one of
/// its reasons says so.
pub fn has_unconfirmed_removal(reasons: &Vec<String>) -> (r: bool)
    ensures
        r == exists|k: int|
            0 <= k < reasons@.len() && text::starts_with(
                #[trigger] reasons@[k]@,
                "CAPABILITY_REMOVAL_UNCONFIRMED"@,
            ),
{
    let mut k: usize = 0;
    while k < reasons.len()
        invariant
            0 <= k <= reasons@.len(),
            forall|q: int|
                0 <= q < k ==> !text::starts_with(
                    #[trigger] reasons@[q]@,
                    "CAPABILITY_REMOVAL_UNCONFIRMED"@,
                ),
        decreases reasons.len() - k,
    {
        if str_starts_with(reasons[k].as_str(), "CAPABILITY_REMOVAL_UNCONFIRMED") {
            return true;
        }
        k += 1;
    }
    false
}

/// The removed playbooks that the request did not confirm, in order.
pub open spec fn unconfirmed_of(removed: Seq<u128>, confirmed: Seq<u128>) -> Seq<u128> {
    removed.filter(|id: u128| !confirmed.contains(id))
}

/// Removing a playbook from an active profile must be confirmed: these are
/// the removals that were not.
pub fn unconfirmed_removals(removed: &Vec<u128>, confirmed: &Vec<u128>) -> (r: Vec<u128>)
    ensures
        r@ == unconfirmed_of(removed@, confirmed@),
{
    let ghost pred = |id: u128| !confirmed@.contains(id);
    let mut out: Vec<u128> = Vec::new();
    let mut i: usize = 0;
    while i < removed.len()
        invariant
            0 <= i <= removed@.len(),
            pred == (|id: u128| !confirmed@.contains(id)),
            out@ == removed@.subrange(0, i as int).filter(pred),
        decreases removed.len() - i,
    {
        let id = removed[i];
        let mut found = false;
        let mut j: usize = 0;
        while j < confirmed.len()
            invariant
                0 <= j <= confirmed@.len(),
                found == (exists|k: int| 0 <= k < j && confirmed@[k] == id),
            decreases confirmed.len() - j,
        {
            if confirmed[j] == id {
                found = true;
            }
            j += 1;
        }
        proof {
            reveal(Seq::filter);
            assert(removed@.subrange(0, i + 1).drop_last() =~= removed@.subrange(0, i as int));
            assert(removed@.subrange(0, i + 1).last() == id);
            assert(found == confirmed@.contains(id));
        }
        if !found {
            out.push(id);
        }
        i += 1;
    }
    proof {
        assert(removed@.subrange(0, removed@.len() as int) =~= removed@);
    }
    out
}

/// How many generation calls a run makes: every case runs its repetitions
/// for the candidate, and again for the baseline when the baseline has the
/// case's playbook.
pub open spec fn call_count(cases: Seq<EvalCase>, baseline_ids: Seq<u128>, repetitions: nat, n: int) -> nat
    decreases n,
{
    if n <= 0 {
        0
    } else {
        let targets: nat = if baseline_ids.contains(cases[n - 1].playbook_id) {
            2
        } else {
            1
        };
        call_count(cases, baseline_ids, repetitions, n - 1) + targets * repetitions
    }
}

proof fn lemma_call_count_grows(cases: Seq<EvalCase>, baseline_ids: Seq<u128>, repetitions: nat, n: int, m: int)
    requires
        0 <= n <= m,
    ensures
        call_count(cases, baseline_ids, repetitions, n) <= call_count(cases, baseline_ids, repetitions, m),
    decreases m - n,
{
    if n < m {
        lemma_call_count_grows(cases, baseline_ids, repetitions, n, m - 1);
    }
}

/// The number of generation calls a run makes, for progress reports.
pub fn planned_call_count(cases: &Vec<EvalCase>, baseline_ids: &Vec<u128>, repetitions: u32) -> (r: usize)
    requires
        call_count(cases@, baseline_ids@, repetitions as nat, cases@.len() as int) <= usize::MAX,
    ensures
        r == call_count(cases@, baseline_ids@, repetitions as nat, cases@.len() as int),
{
    let mut total: usize = 0;
    let mut i: usize = 0;
    while i < cases.len()
        invariant
            0 <= i <= cases@.len(),
            total == call_count(cases@, baseline_ids@, repetitions as nat, i as int),
            call_count(cases@, baseline_ids@, repetitions as nat, cases@.len() as int) <= usize::MAX,
        decreases cases.len() - i,
    {
        let pid = cases[i].playbook_id;
        let mut in_baseline = false;
        let mut j: usize = 0;
        while j < baseline_ids.len()
            invariant
                0 <= j <= baseline_ids@.len(),
                in_baseline == (exists|k: int| 0 <= k < j && baseline_ids@[k] == pid),
            decreases baseline_ids.len() - j,
        {
            if baseline_ids[j] == pid {
                in_baseline = true;
            }
            j += 1;
        }
        proof {
            assert(in_baseline == baseline_ids@.contains(pid));
            lemma_call_count_grows(cases@, baseline_ids@, repetitions as nat, i + 1, cases@.len() as int);
        }
        let targets: usize = if in_baseline {
            2
        } else {
            1
        };
        assert(targets * repetitions <= usize::MAX) by (nonlinear_arith)
            requires
                total + targets * repetitions <= usize::MAX,
                total >= 0,
        ;
        total = total + targets * (repetitions as usize);
        i += 1;
    }
    total
}

/// How many times each case runs for each target: the plan's activation
/// runs when the run qualifies a profile, once otherwise.
pub fn run_repetitions(plan: &EvalPlan, qualifying: bool) -> (r: u32)
    ensures
        r == if qualifying {
            plan.policy.activation_runs_per_case
        } else {
            1
        },
{
    if qualifying {
        plan.policy.activation_runs_per_case
    } else {
        1
    }
}

/// One generation call of a run: which case, for which target, and which
/// repetition of it.
#[derive(Debug, Clone, Copy, PartialEq, Eq, Structural)]
pub struct PlannedCall {
    pub case_index: usize,
    pub target: EvalTarget,
    pub repetition: u32,
}

/// The repetitions of one case for one target, in order.
pub open spec fn target_calls(case_index: int, target: EvalTarget, repetitions: nat) -> Seq<PlannedCall> {
    Seq::new(
        repetitions,
        |r: int| PlannedCall { case_index: case_index as usize, target, repetition: r as u32 },
    )
}

/// The calls of one case: the candidate's repetitions, then the baseline's
/// when the baseline has the case's playbook.
pub open spec fn case_calls(case_index: int, with_baseline: bool, repetitions: nat) -> Seq<PlannedCall> {
    target_calls(case_index, EvalTarget::Candidate, repetitions) + if with_baseline {
        target_calls(case_index, EvalTarget::Baseline, repetitions)
    } else {
        Seq::empty()
    }
}

/// The calls a run makes for the first `n` cases, in the order it makes them.
pub open spec fn call_order(cases: Seq<EvalCase>, baseline_ids: Seq<u128>, repetitions: nat, n: int) -> Seq<
    PlannedCall,
>
    decreases n,
{
    if n <= 0 {
        Seq::empty()
    } else {
        call_order(cases, baseline_ids, repetitions, n - 1) + case_calls(
            n - 1,
            baseline_ids.contains(cases[n - 1].playbook_id),
            repetitions,
        )
    }
}

/// A run makes exactly as many generation calls as `planned_call_count`
/// reports: every case runs its repetitions for the candidate, and again for
/// the baseline when the baseline has the case's playbook.
pub proof fn lemma_call_order_len(cases: Seq<EvalCase>, baseline_ids: Seq<u128>, repetitions: nat, n: int)
    requires
        0 <= n <= cases.len(),
    ensures
        call_order(cases, baseline_ids, repetitions, n).len() == call_count(cases, baseline_ids, repetitions, n),
    decreases n,
{
    if n > 0 {
        lemma_call_order_len(cases, baseline_ids, repetitions, n - 1);
        let with_baseline = baseline_ids.contains(cases[n - 1].playbook_id);
        assert(case_calls(n - 1, with_baseline, repetitions).len() == (if with_baseline {
            2nat
        } else {
            1nat
        }) * repetitions) by (nonlinear_arith)
            requires
                case_calls(n - 1, with_baseline, repetitions).len() == repetitions + if with_baseline {
                    repetitions
                } else {
                    0
                },
        ;
    }
}

/// Appends the repetitions of one case for one target.
fn push_target_calls(out: &mut Vec<PlannedCall>, case_index: usize, target: EvalTarget, repetitions: u32)
    ensures
        final(out)@ == old(out)@ + target_calls(case_index as int, target, repetitions as nat),
{
    let ghost start = out@;
    let mut r: u32 = 0;
    while r < repetitions
        invariant
            r <= repetitions,
            out@ == start + target_calls(case_index as int, target, r as nat),
        decreases repetitions - r,
    {
        out.push(PlannedCall { case_index, target, repetition: r });
        proof {
            assert(target_calls(case_index as int, target, (r + 1) as nat) =~= target_calls(
                case_index as int,
                target,
                r as nat,
            ).push(PlannedCall { case_index, target, repetition: r }));
        }
        r += 1;
    }
}

/// Every generation call of a run, in the order the run makes them.
pub fn call_schedule(cases: &Vec<EvalCase>, baseline_ids: &Vec<u128>, repetitions: u32) -> (r: Vec<
    PlannedCall,
>)
    ensures
        r@ == call_order(cases@, baseline_ids@, repetitions as nat, cases@.len() as int),
{
    let mut out: Vec<PlannedCall> = Vec::new();
    let mut i: usize = 0;
    while i < cases.len()
        invariant
            0 <= i <= cases@.len(),
            out@ == call_order(cases@, baseline_ids@, repetitions as nat, i as int),
        decreases cases.len() - i,
    {
        let pid = cases[i].playbook_id;
        let mut in_baseline = false;
        let mut j: usize = 0;
        while j < baseline_ids.len()
            invariant
                0 <= j <= baseline_ids@.len(),
                in_baseline == (exists|k: int| 0 <= k < j && baseline_ids@[k] == pid),
            decreases baseline_ids.len() - j,
        {
            if baseline_ids[j] == pid {
                in_baseline = true;
            }
            j += 1;
        }
        proof {
            assert(in_baseline == baseline_ids@.contains(pid));
        }
        let ghost before = out@;
        push_target_calls(&mut out, i, EvalTarget::Candidate, repetitions);
        if in_baseline {
            push_target_calls(&mut out, i, EvalTarget::Baseline, repetitions);
        }
        proof {
            assert(out@ =~= before + case_calls(i as int, in_baseline, repetitions as nat));
        }
        i += 1;
    }
    out
}

/// After one generation call: the count of consecutive failures, and
/// whether the provider circuit opens.
pub fn record_generation(consecutive_errors: usize, failed: bool) -> (r: (usize, bool))
    ensures
        r.0 == if failed {
            if consecutive_errors < usize::MAX {
                (consecutive_errors + 1) as usize
            } else {
                consecutive_errors
            }
        } else {
            0usize
        },
        r.1 == (r.0 >= MAX_CONSECUTIVE_GENERATION_ERRORS),
{
    let next = if failed {
        consecutive_errors.saturating_add(1)
    } else {
        0
    };
    (next, next >= MAX_CONSECUTIVE_GENERATION_ERRORS)
}


/// Where a running evaluation stands between generation calls.
#[derive(Debug, Clone, Copy, PartialEq, Eq, Structural)]
pub struct RunProgress {
    pub completed_calls: usize,
    pub consecutive_errors: usize,
}

/// What happened to the generation call a run was waiting on.
#[derive(Debug, Clone, Copy, PartialEq, Eq, Structural)]
pub enum GenerationEvent {
    /// The call finished, with a generated output or with an error.
    Generated { failed: bool },
    /// The run was cancelled before or during the call.
    Cancelled,
}

/// One step of the run loop: a cancellation stops the run; a finished call
/// is counted, and a third failure in a row opens the provider circuit;
/// otherwise the run continues.
pub fn run_step(progress: RunProgress, event: GenerationEvent) -> (r: (RunProgress, RunStatus))
    requires
        progress.completed_calls < usize::MAX,
    ensures
        match event {
            GenerationEvent::Cancelled => r == (progress, RunStatus::Cancelled),
            GenerationEvent::Generated { failed } => {
                let errors = if failed {
                    if progress.consecutive_errors < usize::MAX {
                        (progress.consecutive_errors + 1) as usize
                    } else {
                        progress.consecutive_errors
                    }
                } else {
                    0usize
                };
                &&& r.0 == RunProgress {
                    completed_calls: (progress.completed_calls + 1) as usize,
                    consecutive_errors: errors,
                }
                &&& r.1 == if errors >= MAX_CONSECUTIVE_GENERATION_ERRORS {
                    RunStatus::ProviderCircuitOpen
                } else {
                    RunStatus::Continue
                }
            },
        },
{
    match event {
        GenerationEvent::Cancelled => (progress, RunStatus::Cancelled),
        GenerationEvent::Generated { failed } => {
            let (errors, open) = record_generation(progress.consecutive_errors, failed);
            let next = RunProgress { completed_calls: progress.completed_calls + 1, consecutive_errors: errors };
            if open {
                (next, RunStatus::ProviderCircuitOpen)
            } else {
                (next, RunStatus::Continue)
            }
        },
    }
}

// ----------------------------------------------------------------------------
// Checking a request before any generation
// ----------------------------------------------------------------------------
/// Why an evaluation could not start.
#[derive(Debug, Clone, PartialEq, Eq)]
pub enum EvaluationError {
    Validation(ValidationErrors),
    Hash(HashError),
    CandidateDigestMismatch,
    BaselineDigestMismatch,
    EvalPlanDigestMismatch,
}

impl EvaluationError {
    pub open spec fn spec_message(&self) -> Seq<char> {
        match self {
            EvaluationError::Validation(_) => "expert profile validation failed"@,
            EvaluationError::Hash(e) => e.spec_message(),
            EvaluationError::CandidateDigestMismatch =>
                "candidate version hash does not match the supplied profile content"@,
            EvaluationError::BaselineDigestMismatch =>
                "baseline version hash does not match the supplied profile content"@,
            EvaluationError::EvalPlanDigestMismatch =>
                "evaluation plan hash does not match the source evaluation run"@,
        }
    }

    /// The message shown for the error.
    pub fn message(&self) -> (r: String)
        ensures
            r@ == self.spec_message(),
    {
        match self {
            EvaluationError::Validation(e) => string_from(e.message()),
            EvaluationError::Hash(e) => e.message(),
            EvaluationError::CandidateDigestMismatch => string_from(
                "candidate version hash does not match the supplied profile content",
            ),
            EvaluationError::BaselineDigestMismatch => string_from(
                "baseline version hash does not match the supplied profile content",
            ),
            EvaluationError::EvalPlanDigestMismatch => string_from(
                "evaluation plan hash does not match the source evaluation run",
            ),
        }
    }
}

/// A validation failure carrying exactly the given problems.
pub open spec fn fails_with(r: Result<(), EvaluationError>, issues: Seq<validation::Issue>) -> bool {
    r matches Err(EvaluationError::Validation(e)) && validation::issues_view(e.0@) == issues
}

/// What checking an evaluation request returns: the candidate must be a
/// valid profile, the plan valid for it, and the candidate's content must
/// have the claimed digest; a baseline, when given, must be valid and have
/// its claimed digest too.
pub open spec fn request_outcome(
    candidate: ExpertProfileVersion,
    plan: EvalPlan,
    candidate_hash: Seq<char>,
    baseline: Option<(ExpertProfileVersion, Seq<char>)>,
    r: Result<(), EvaluationError>,
) -> bool {
    if validation::profile_issues(candidate).len() > 0 {
        fails_with(r, validation::profile_issues(candidate))
    } else if validation::plan_for_profile_issues(plan, candidate).len() > 0 {
        fails_with(r, validation::plan_for_profile_issues(plan, candidate))
    } else if hashing::profile_digest(candidate) != candidate_hash {
        r == Err::<(), EvaluationError>(EvaluationError::CandidateDigestMismatch)
    } else {
        match baseline {
            None => r is Ok,
            Some((b, h)) => if validation::profile_issues(b).len() > 0 {
                fails_with(r, validation::profile_issues(b))
            } else if hashing::profile_digest(b) != h {
                r == Err::<(), EvaluationError>(EvaluationError::BaselineDigestMismatch)
            } else {
                r is Ok
            },
        }
    }
}

/// Checks an evaluation request before any generation call is made.
#[verifier::spinoff_prover]
#[verifier::rlimit(40)]
pub fn check_evaluation_request(
    candidate: &ExpertProfileVersion,
    plan: &EvalPlan,
    candidate_hash: &str,
    baseline: Option<(&ExpertProfileVersion, &str)>,
) -> (r: Result<(), EvaluationError>)
    ensures
        request_outcome(
            *candidate,
            *plan,
            candidate_hash@,
            match baseline {
                Some((b, h)) => Some((*b, h@)),
                None => None,
            },
            r,
        ),
{
    match candidate.validate() {
        Ok(()) => {},
        Err(e) => {
            return Err(EvaluationError::Validation(e));
        },
    }
    match plan.validate_for_profile(candidate) {
        Ok(()) => {},
        Err(e) => {
            return Err(EvaluationError::Validation(e));
        },
    }
    let digest = match hash_profile_version(candidate) {
        Ok(d) => d,
        Err(e) => {
            return Err(EvaluationError::Hash(e));
        },
    };
    if !text::str_eq(digest.as_str(), candidate_hash) {
        return Err(EvaluationError::CandidateDigestMismatch);
    }
    match baseline {
        None => Ok(()),
        Some((b, h)) => {
            match b.validate() {
                Ok(()) => {},
                Err(e) => {
                    return Err(EvaluationError::Validation(e));
                },
            }
            let bd = match hash_profile_version(b) {
                Ok(d) => d,
                Err(e) => {
                    return Err(EvaluationError::Hash(e));
                },
            };
            if !text::str_eq(bd.as_str(), h) {
                return Err(EvaluationError::BaselineDigestMismatch);
            }
            Ok(())
        },
    }
}

/// The first case of a plan with the given id: the case whose semantic
/// assertions a stored repetition is judged against again.  A repetition
/// whose case the plan no longer holds is left as it was stored.
pub fn case_for_repetition(cases: &Vec<EvalCase>, case_id: &str) -> (r: Option<usize>)
    ensures
        r matches Some(i) ==> i < cases@.len() && cases@[i as int].id@ == case_id@ && forall|k: int|
            0 <= k < i ==> #[trigger] cases@[k].id@ != case_id@,
        r is None ==> forall|k: int| 0 <= k < cases@.len() ==> #[trigger] cases@[k].id@ != case_id@,
{
    let mut i: usize = 0;
    while i < cases.len()
        invariant
            0 <= i <= cases@.len(),
            forall|k: int| 0 <= k < i ==> #[trigger] cases@[k].id@ != case_id@,
        decreases cases.len() - i,
    {
        if text::str_eq(cases[i].id.as_str(), case_id) {
            return Some(i);
        }
        i += 1;
    }
    None
}

/// Re-adjudication needs a valid plan whose digest is the one the source run
/// was evaluated with; `computed_plan_hash` is the digest of the plan.
pub fn check_adjudication_plan(plan: &EvalPlan, computed_plan_hash: &str, source_plan_hash: &str) -> (r:
    Result<(), EvaluationError>)
    ensures
        validation::plan_issues(*plan).len() > 0 ==> fails_with(r, validation::plan_issues(*plan)),
        validation::plan_issues(*plan).len() == 0 ==> (if computed_plan_hash@ == source_plan_hash@ {
            r is Ok
        } else {
            r == Err::<(), EvaluationError>(EvaluationError::EvalPlanDigestMismatch)
        }),
{
    match plan.validate() {
        Ok(()) => {},
        Err(e) => {
            return Err(EvaluationError::Validation(e));
        },
    }
    if !text::str_eq(computed_plan_hash, source_plan_hash) {
        return Err(EvaluationError::EvalPlanDigestMismatch);
    }
    Ok(())
}


// ----------------------------------------------------------------------------
// Aggregating a run's results
// ----------------------------------------------------------------------------
/// What a repetition's result says, as plain facts: its target, whether its
/// generation failed, whether each hard assertion passed, and the verdict of
/// each semantic assertion where one was reached.
#[derive(Debug, Clone, PartialEq, Eq)]
pub struct RepetitionFacts {
    pub target: EvalTarget,
    pub generation_failed: bool,
    pub hard_passed: Vec<bool>,
    pub semantic_passed: Vec<Option<bool>>,
}

pub open spec fn any_generation_failed(v: Seq<RepetitionFacts>) -> bool {
    exists|i: int| 0 <= i < v.len() && (#[trigger] v[i]).generation_failed
}

/// A hard assertion of a candidate repetition failed.
pub open spec fn any_candidate_hard_failure(v: Seq<RepetitionFacts>) -> bool {
    exists|i: int, k: int|
        #![trigger v[i].hard_passed@[k]]
        0 <= i < v.len() && v[i].target == EvalTarget::Candidate && 0 <= k
            < v[i].hard_passed@.len() && !v[i].hard_passed@[k]
}

/// A semantic assertion of any repetition has no verdict.
pub open spec fn any_semantic_unresolved(v: Seq<RepetitionFacts>) -> bool {
    exists|i: int, k: int|
        #![trigger v[i].semantic_passed@[k]]
        0 <= i < v.len() && 0 <= k < v[i].semantic_passed@.len()
            && v[i].semantic_passed@[k] is None
}

/// A semantic assertion of a candidate repetition failed.
pub open spec fn any_candidate_semantic_failure(v: Seq<RepetitionFacts>) -> bool {
    exists|i: int, k: int|
        #![trigger v[i].semantic_passed@[k]]
        0 <= i < v.len() && v[i].target == EvalTarget::Candidate && 0 <= k
            < v[i].semantic_passed@.len() && v[i].semantic_passed@[k] == Some(false)
}

fn has_false(v: &Vec<bool>) -> (b: bool)
    ensures
        b == exists|k: int| 0 <= k < v@.len() && !v@[k],
{
    let mut k: usize = 0;
    while k < v.len()
        invariant
            0 <= k <= v@.len(),
            forall|j: int| 0 <= j < k ==> v@[j],
        decreases v.len() - k,
    {
        if !v[k] {
            return true;
        }
        k += 1;
    }
    false
}

fn has_verdict(v: &Vec<Option<bool>>, target: Option<bool>) -> (b: bool)
    ensures
        b == exists|k: int| 0 <= k < v@.len() && v@[k] == target,
{
    let mut k: usize = 0;
    while k < v.len()
        invariant
            0 <= k <= v@.len(),
            forall|j: int| 0 <= j < k ==> v@[j] != target,
        decreases v.len() - k,
    {
        if v[k] == target {
            return true;
        }
        k += 1;
    }
    false
}

/// The four flags a run and a re-adjudication read from their results:
/// a failed generation, a failed candidate hard assertion, an unresolved
/// semantic assertion, a failed candidate semantic assertion.
fn result_flags(results: &Vec<RepetitionFacts>) -> (r: (bool, bool, bool, bool))
    ensures
        r.0 == any_generation_failed(results@),
        r.1 == any_candidate_hard_failure(results@),
        r.2 == any_semantic_unresolved(results@),
        r.3 == any_candidate_semantic_failure(results@),
{
    let mut generation = false;
    let mut hard = false;
    let mut unresolved = false;
    let mut semantic = false;
    let mut i: usize = 0;
    while i < results.len()
        invariant
            0 <= i <= results@.len(),
            generation == any_generation_failed(results@.subrange(0, i as int)),
            hard == any_candidate_hard_failure(results@.subrange(0, i as int)),
            unresolved == any_semantic_unresolved(results@.subrange(0, i as int)),
            semantic == any_candidate_semantic_failure(results@.subrange(0, i as int)),
        decreases results.len() - i,
    {
        let x = &results[i];
        let g = x.generation_failed;
        let candidate = x.target == EvalTarget::Candidate;
        let h = candidate && has_false(&x.hard_passed);
        let u = has_verdict(&x.semantic_passed, None);
        let f = candidate && has_verdict(&x.semantic_passed, Some(false));
        proof {
            let prev = results@.subrange(0, i as int);
            let next = results@.subrange(0, i + 1);
            assert(next =~= prev.push(*x));
            assert(next[i as int] == *x);
            assert(forall|j: int| 0 <= j < i ==> next[j] == prev[j]);
            if g {
                assert(next[i as int].generation_failed);
            }
            if any_generation_failed(next) && !g {
                let j = choose|j: int| 0 <= j < next.len() && (#[trigger] next[j]).generation_failed;
                assert(prev[j].generation_failed);
            }
            if h {
                let k = choose|k: int| 0 <= k < x.hard_passed@.len() && !x.hard_passed@[k];
                assert(next[i as int].target == EvalTarget::Candidate && 0 <= k
                    < next[i as int].hard_passed@.len() && !next[i as int].hard_passed@[k]);
            }
            if any_candidate_hard_failure(next) && !h {
                let (j, k) = choose|j: int, k: int|
                    #![trigger next[j].hard_passed@[k]]
                    0 <= j < next.len() && next[j].target == EvalTarget::Candidate
                        && 0 <= k < next[j].hard_passed@.len() && !next[j].hard_passed@[k];
                if j == i {
                    assert(!x.hard_passed@[k]);
                } else {
                    assert(prev[j] == next[j]);
                }
            }
            if u {
                let k = choose|k: int| 0 <= k < x.semantic_passed@.len() && x.semantic_passed@[k]
                    == None::<bool>;
                assert(0 <= k < next[i as int].semantic_passed@.len()
                    && next[i as int].semantic_passed@[k] is None);
            }
            if any_semantic_unresolved(next) && !u {
                let (j, k) = choose|j: int, k: int|
                    #![trigger next[j].semantic_passed@[k]]
                    0 <= j < next.len() && 0 <= k < next[j].semantic_passed@.len()
                        && next[j].semantic_passed@[k] is None;
                if j == i {
                    assert(x.semantic_passed@[k] == None::<bool>);
                } else {
                    assert(prev[j] == next[j]);
                }
            }
            if f {
                let k = choose|k: int| 0 <= k < x.semantic_passed@.len() && x.semantic_passed@[k]
                    == Some(false);
                assert(next[i as int].target == EvalTarget::Candidate && 0 <= k
                    < next[i as int].semantic_passed@.len() && next[i as int].semantic_passed@[k]
                    == Some(false));
            }
            if any_candidate_semantic_failure(next) && !f {
                let (j, k) = choose|j: int, k: int|
                    #![trigger next[j].semantic_passed@[k]]
                    0 <= j < next.len() && next[j].target == EvalTarget::Candidate
                        && 0 <= k < next[j].semantic_passed@.len() && next[j].semantic_passed@[k]
                        == Some(false);
                if j == i {
                    assert(x.semantic_passed@[k] == Some(false));
                } else {
                    assert(prev[j] == next[j]);
                }
            }
            if any_generation_failed(prev) {
                let j = choose|j: int| 0 <= j < prev.len() && (#[trigger] prev[j]).generation_failed;
                assert(next[j].generation_failed);
            }
            if any_candidate_hard_failure(prev) {
                let (j, k) = choose|j: int, k: int|
                    #![trigger prev[j].hard_passed@[k]]
                    0 <= j < prev.len() && prev[j].target == EvalTarget::Candidate
                        && 0 <= k < prev[j].hard_passed@.len() && !prev[j].hard_passed@[k];
                assert(next[j] == prev[j]);
            }
            if any_semantic_unresolved(prev) {
                let (j, k) = choose|j: int, k: int|
                    #![trigger prev[j].semantic_passed@[k]]
                    0 <= j < prev.len() && 0 <= k < prev[j].semantic_passed@.len()
                        && prev[j].semantic_passed@[k] is None;
                assert(next[j] == prev[j]);
            }
            if any_candidate_semantic_failure(prev) {
                let (j, k) = choose|j: int, k: int|
                    #![trigger prev[j].semantic_passed@[k]]
                    0 <= j < prev.len() && prev[j].target == EvalTarget::Candidate
                        && 0 <= k < prev[j].semantic_passed@.len() && prev[j].semantic_passed@[k]
                        == Some(false);
                assert(next[j] == prev[j]);
            }
        }
        generation = generation || g;
        hard = hard || h;
        unresolved = unresolved || u;
        semantic = semantic || f;
        i += 1;
    }
    proof {
        assert(results@.subrange(0, results@.len() as int) =~= results@);
    }
    (generation, hard, unresolved, semantic)
}

/// What a run observed: its results read as flags, beside the removals not
/// confirmed, how the run stopped, whether repetitions disagree, whether
/// scores regressed, and whether there is a baseline.
pub fn observe(
    results: &Vec<RepetitionFacts>,
    unconfirmed_removals: Vec<u128>,
    stopped: RunStatus,
    inconsistent_semantics: bool,
    semantic_regression: bool,
    has_baseline: bool,
) -> (r: RunObservations)
    ensures
        r == (RunObservations {
            unconfirmed_removals,
            stopped,
            any_generation_error: any_generation_failed(results@),
            any_hard_failure: any_candidate_hard_failure(results@),
            any_semantic_unresolved: any_semantic_unresolved(results@),
            inconsistent_semantics,
            any_semantic_failure: any_candidate_semantic_failure(results@),
            semantic_regression,
            has_baseline,
        }),
{
    let (g, h, u, f) = result_flags(results);
    RunObservations {
        unconfirmed_removals,
        stopped,
        any_generation_error: g,
        any_hard_failure: h,
        any_semantic_unresolved: u,
        inconsistent_semantics,
        any_semantic_failure: f,
        semantic_regression,
        has_baseline,
    }
}

/// What re-adjudicating a stored report observed, from its re-scored results.
pub fn observe_adjudication(
    results: &Vec<RepetitionFacts>,
    qualifying: bool,
    reasons: &Vec<String>,
    inconsistent: bool,
    regression: bool,
    has_baseline: bool,
) -> (r: AdjudicationObservations)
    ensures
        r == (AdjudicationObservations {
            qualifying,
            unconfirmed_removal: exists|k: int|
                0 <= k < reasons@.len() && text::starts_with(
                    #[trigger] reasons@[k]@,
                    "CAPABILITY_REMOVAL_UNCONFIRMED"@,
                ),
            generation_error: any_generation_failed(results@),
            hard_failure: any_candidate_hard_failure(results@),
            semantic_unresolved: any_semantic_unresolved(results@),
            inconsistent,
            semantic_failure: any_candidate_semantic_failure(results@),
            regression,
            has_baseline,
        }),
{
    let (g, h, u, f) = result_flags(results);
    let removal = has_unconfirmed_removal(reasons);
    AdjudicationObservations {
        qualifying,
        unconfirmed_removal: removal,
        generation_error: g,
        hard_failure: h,
        semantic_unresolved: u,
        inconsistent,
        semantic_failure: f,
        regression,
        has_baseline,
    }
}

/// A run passes only when nothing went wrong: no unconfirmed removal, no
/// stop, no generation error, no unresolved or inconsistent semantics, no
/// hard or semantic failure and no regression, and a baseline to pass
/// against.  A run that ran to completion cleanly but saw a hard failure, a
/// semantic failure or a regression fails.  And a run passes exactly when
/// it gives no reason and has a baseline.
#[verifier::spinoff_prover]
pub proof fn lemma_run_outcome_laws(o: RunObservations)
    ensures
        run_outcome(o) == EvalRunOutcome::Pass ==> {
            &&& o.unconfirmed_removals@.len() == 0
            &&& o.stopped == RunStatus::Continue
            &&& !o.any_generation_error
            &&& !o.any_semantic_unresolved
            &&& !o.inconsistent_semantics
            &&& !o.any_hard_failure
            &&& !o.any_semantic_failure
            &&& !o.semantic_regression
            &&& o.has_baseline
        },
        (o.unconfirmed_removals@.len() == 0 && o.stopped == RunStatus::Continue && !o.any_generation_error
            && !o.any_semantic_unresolved && !o.inconsistent_semantics && (o.any_hard_failure
            || o.any_semantic_failure || o.semantic_regression)) ==> run_outcome(o) == EvalRunOutcome::Fail,
        o.unconfirmed_removals@.len() > 0 ==> run_outcome(o) == EvalRunOutcome::Rejected,
        (run_outcome(o) == EvalRunOutcome::Pass) == (run_reasons(o).len() == 0 && o.has_baseline),
{
    let n = |b: bool| -> int { if b { 1int } else { 0int } };
    assert(run_reasons(o).len() == n(o.unconfirmed_removals@.len() > 0) + n(o.any_generation_error) + n(
        o.stopped == RunStatus::Cancelled,
    ) + n(o.stopped == RunStatus::ProviderCircuitOpen) + n(o.any_hard_failure) + n(
        o.any_semantic_unresolved,
    ) + n(o.inconsistent_semantics) + n(o.any_semantic_failure) + n(o.semantic_regression));
}

/// The same for a re-adjudicated report: it passes only when it qualifies,
/// nothing went wrong and it has a baseline; a clean report with a hard
/// failure, a semantic failure or a regression fails; and it passes exactly
/// when it gives no reason and has a baseline.
#[verifier::spinoff_prover]
pub proof fn lemma_adjudicated_outcome_laws(o: AdjudicationObservations)
    ensures
        adjudicated_outcome(o) == EvalRunOutcome::Pass ==> {
            &&& o.qualifying
            &&& !o.unconfirmed_removal
            &&& !o.generation_error
            &&& !o.semantic_unresolved
            &&& !o.inconsistent
            &&& !o.hard_failure
            &&& !o.semantic_failure
            &&& !o.regression
            &&& o.has_baseline
        },
        (o.qualifying && !o.unconfirmed_removal && !o.generation_error && !o.semantic_unresolved
            && !o.inconsistent && (o.hard_failure || o.semantic_failure || o.regression))
            ==> adjudicated_outcome(o) == EvalRunOutcome::Fail,
        (adjudicated_outcome(o) == EvalRunOutcome::Pass) == (adjudicated_reasons(o).len() == 0
            && o.has_baseline),
{
    let n = |b: bool| -> int { if b { 1int } else { 0int } };
    assert(adjudicated_reasons(o).len() == n(!o.qualifying) + n(o.unconfirmed_removal) + n(o.generation_error)
        + n(o.hard_failure) + n(o.semantic_unresolved) + n(o.inconsistent) + n(o.semantic_failure) + n(
        o.regression,
    ));
}


/// A literal assertion holds exactly as its literal is found in the output:
/// `LiteralPresent` passes when the value occurs at some position of the
/// Markdown, `LiteralAbsent` when it occurs at none, so the two disagree on
/// every value and output.
pub proof fn lemma_literal_assertions(
    value: String,
    md: Seq<char>,
    parsed: Result<ParsedProfileMarkdown, ProfileRenderError>,
)
    ensures
        hard_result(HardAssertion::LiteralPresent { value }, md, parsed).1 == (exists|i: int|
            0 <= i && i + value@.len() <= md.len() && #[trigger] md.subrange(i, i + value@.len())
                == value@),
        hard_result(HardAssertion::LiteralAbsent { value }, md, parsed).1 == !(exists|i: int|
            0 <= i && i + value@.len() <= md.len() && #[trigger] md.subrange(i, i + value@.len())
                == value@),
        hard_result(HardAssertion::LiteralPresent { value }, md, parsed).1 != hard_result(
            HardAssertion::LiteralAbsent { value },
            md,
            parsed,
        ).1,
{
    assert((exists|i: int|
        0 <= i && i + value@.len() <= md.len() && #[trigger] md.subrange(i, i + value@.len()) == value@)
        == text::contains(md, value@)) by {
        if text::contains(md, value@) {
            let i = choose|i: int| #[trigger] text::occurs_at(md, value@, i);
            assert(md.subrange(i, i + value@.len()) == value@);
        }
        if exists|i: int|
            0 <= i && i + value@.len() <= md.len() && #[trigger] md.subrange(i, i + value@.len()) == value@ {
            let i = choose|i: int|
                0 <= i && i + value@.len() <= md.len() && #[trigger] md.subrange(i, i + value@.len()) == value@;
            assert(text::occurs_at(md, value@, i));
        }
    }
}

} // verus!
