//! The offline checks of the live-assist answer harness: answers that turn
//! an unspoken draft into history, the audit of autobiographical claims in a
//! generated answer and of the evidence records they cite, and the tally of
//! authority-scope trials against human adjudication.
use vstd::prelude::*;

use crate::canonical;

use crate::text;
use crate::text::{chars_of, str_contains, str_eq, str_starts_with, string_from_chars, to_lowercase, trim_string};

verus! {

pub const AUTHORITY_TRIAL_SCHEMA_VERSION: u32 = 1;

pub const MIN_AUTHORITY_TRIAL_CASES: usize = 5;

// ----------------------------------------------------------------------------
// False history
// ----------------------------------------------------------------------------
/// Phrases by which an answer claims a commitment that was never spoken.
pub open spec fn false_commitments() -> Seq<Seq<char>> {
    seq![
        "i committed to friday"@,
        "i've committed to friday"@,
        "i have committed to friday"@,
        "we committed to friday"@,
        "i promised friday"@,
        "we promised friday"@,
    ]
}

/// The first phrase of `phrases` that the text contains, among the first `n`.
pub open spec fn first_contained(text: Seq<char>, phrases: Seq<Seq<char>>, n: int) -> Option<int>
    decreases n,
{
    if n <= 0 {
        None
    } else {
        match first_contained(text, phrases, n - 1) {
            Some(i) => Some(i),
            None => if text::contains(text, phrases[n - 1]) {
                Some(n - 1)
            } else {
                None
            },
        }
    }
}

proof fn lemma_first_contained_settles(t: Seq<char>, p: Seq<Seq<char>>, n: int, m: int)
    requires
        0 <= n <= m,
        first_contained(t, p, n) is Some,
    ensures
        first_contained(t, p, m) == first_contained(t, p, n),
    decreases m - n,
{
    if n < m {
        lemma_first_contained_settles(t, p, n, m - 1);
    }
}

fn false_commitment_list() -> (r: Vec<&'static str>)
    ensures
        r@.len() == false_commitments().len(),
        forall|i: int| 0 <= i < r@.len() ==> #[trigger] r@[i]@ == false_commitments()[i],
{
    let mut v: Vec<&'static str> = Vec::new();
    v.push("i committed to friday");
    v.push("i've committed to friday");
    v.push("i have committed to friday");
    v.push("we committed to friday");
    v.push("i promised friday");
    v.push("we promised friday");
    v
}

/// Rejects an answer that states, in any letter case, a commitment to
/// Friday that the speaker never made; the error names the phrase found.
pub fn validate_false_history_fixture(output: &str) -> (r: Result<(), String>)
    ensures
        match first_contained(
            text::unicode_lowercase(output@),
            false_commitments(),
            false_commitments().len() as int,
        ) {
            Some(i) => r matches Err(m) && m@ == "response converted an unspoken draft into history: "@
                + false_commitments()[i],
            None => r is Ok,
        },
{
    let normalized = to_lowercase(output);
    let phrases = false_commitment_list();
    let mut i: usize = 0;
    while i < phrases.len()
        invariant
            0 <= i <= phrases@.len(),
            phrases@.len() == false_commitments().len(),
            forall|j: int| 0 <= j < phrases@.len() ==> #[trigger] phrases@[j]@ == false_commitments()[j],
            normalized@ == text::unicode_lowercase(output@),
            first_contained(normalized@, false_commitments(), i as int) is None,
        decreases phrases.len() - i,
    {
        let phrase = phrases[i];
        if str_contains(normalized.as_str(), phrase) {
            proof {
                lemma_first_contained_settles(
                    normalized@,
                    false_commitments(),
                    i + 1,
                    false_commitments().len() as int,
                );
            }
            let mut message = text::string_from("response converted an unspoken draft into history: ");
            text::push_str(&mut message, phrase);
            return Err(message);
        }
        i += 1;
    }
    Ok(())
}

// ----------------------------------------------------------------------------
// Claim audit
// ----------------------------------------------------------------------------
#[derive(Debug, Clone, PartialEq, Eq)]
pub struct SupportedClaimAttribution {
    pub claim: String,
    pub record_ids: Vec<u128>,
}

/// The evaluator's classification of the claims in one generated answer.
#[derive(Debug, Clone, PartialEq, Eq)]
pub struct ClaimAudit {
    pub unsupported_material_facts: Vec<String>,
    pub unsupported_characterisations: Vec<String>,
    pub supported_autobiographical_claims: Vec<String>,
    pub prospective_statements: Vec<String>,
    pub identity_header_supported_claims: Vec<String>,
    pub supported_claim_attributions: Vec<SupportedClaimAttribution>,
    pub single_story_source_record_id: Option<u128>,
    pub cross_story_contamination: Vec<String>,
    pub used_required_evidence: bool,
}

#[derive(Debug, Clone, PartialEq, Eq)]
pub enum ClaimAuditError {
    CompoundProspective(String),
    UnsupportedMaterialFacts(Vec<String>),
    RequiredEvidenceUnused,
    AbsentEvidenceMarkedUsed,
    MergedStories(Vec<String>),
    DuplicateSupportedClaims,
    UnsourcedClaims,
    ClaimWithoutRecord(String),
    UnsuppliedRecord(u128),
    UnsuppliedSingleSource(u128),
    MissingSingleSource,
    SingleExampleUnsupported,
    SingleSourceMismatch { record_id: u128, claim: String },
}

/// The quotation marks that may wrap a claim.
pub open spec fn is_quote(c: char) -> bool {
    c == '"' || c == '\'' || c == '\u{2018}' || c == '\u{2019}' || c == '\u{201C}' || c == '\u{201D}'
}

pub open spec fn strip_quotes_start(s: Seq<char>) -> Seq<char>
    decreases s.len(),
{
    if s.len() > 0 && is_quote(s[0]) {
        strip_quotes_start(s.drop_first())
    } else {
        s
    }
}

pub open spec fn strip_quotes_end(s: Seq<char>) -> Seq<char>
    decreases s.len(),
{
    if s.len() > 0 && is_quote(s.last()) {
        strip_quotes_end(s.drop_last())
    } else {
        s
    }
}

/// `str::trim_matches` with the quotation marks.
pub open spec fn strip_quotes(s: Seq<char>) -> Seq<char> {
    strip_quotes_end(strip_quotes_start(s))
}

/// A claim as compared: trimmed, unquoted and lower-cased.
pub open spec fn claim_key(claim: Seq<char>) -> Seq<char> {
    text::unicode_lowercase(strip_quotes(text::trim(claim)))
}

/// A claim that only says what the speaker would do, with no clause that
/// could assert what already happened.
pub open spec fn prospective_key(n: Seq<char>) -> bool {
    &&& !text::contains_char(n, ';')
    &&& !text::contains(n, " \u{2014} "@)
    &&& {
        ||| text::starts_with(n, "i would "@)
        ||| text::starts_with(n, "we would "@)
        ||| text::starts_with(n, "i'd "@)
        ||| text::starts_with(n, "we'd "@)
        ||| text::starts_with(n, "my approach would "@)
        ||| text::starts_with(n, "our approach would "@)
        ||| (text::starts_with(n, "if "@) && (text::contains(n, ", i would "@) || text::contains(
            n,
            ", we would "@,
        )))
    }
}

pub open spec fn explicitly_prospective(claim: Seq<char>) -> bool {
    prospective_key(claim_key(claim))
}

fn char_is_quote(c: char) -> (b: bool)
    ensures
        b == is_quote(c),
{
    c == '"' || c == '\'' || c == '\u{2018}' || c == '\u{2019}' || c == '\u{201C}' || c == '\u{201D}'
}

proof fn lemma_strip_start_drop(s: Seq<char>, k: int)
    requires
        0 <= k <= s.len(),
        forall|j: int| 0 <= j < k ==> #[trigger] is_quote(s[j]),
    ensures
        strip_quotes_start(s) == strip_quotes_start(s.subrange(k, s.len() as int)),
    decreases k,
{
    if k > 0 {
        assert(s.drop_first() =~= s.subrange(1, s.len() as int));
        lemma_strip_start_drop(s.drop_first(), k - 1);
        assert(s.drop_first().subrange(k - 1, s.drop_first().len() as int) =~= s.subrange(
            k,
            s.len() as int,
        ));
    } else {
        assert(s.subrange(0, s.len() as int) =~= s);
    }
}

proof fn lemma_strip_end_drop(s: Seq<char>, e: int)
    requires
        0 <= e <= s.len(),
        forall|j: int| e <= j < s.len() ==> #[trigger] is_quote(s[j]),
    ensures
        strip_quotes_end(s) == strip_quotes_end(s.subrange(0, e)),
    decreases s.len() - e,
{
    if e < s.len() {
        assert(s.drop_last() =~= s.subrange(0, s.len() - 1));
        lemma_strip_end_drop(s.drop_last(), e);
        assert(s.drop_last().subrange(0, e) =~= s.subrange(0, e));
    } else {
        assert(s.subrange(0, e) =~= s);
    }
}

/// `str::trim_matches` with the quotation marks.
fn strip_quote_marks(s: &str) -> (r: String)
    ensures
        r@ == strip_quotes(s@),
{
    let v = chars_of(s);
    let n = v.len();
    let mut start: usize = 0;
    while start < n && char_is_quote(v[start])
        invariant
            v@ == s@,
            n == v@.len(),
            0 <= start <= n,
            forall|j: int| 0 <= j < start ==> #[trigger] is_quote(v@[j]),
        decreases n - start,
    {
        start += 1;
    }
    proof {
        lemma_strip_start_drop(v@, start as int);
        let rest = v@.subrange(start as int, n as int);
        if rest.len() > 0 {
            assert(rest[0] == v@[start as int]);
        }
        assert(strip_quotes_start(rest) == rest);
    }
    let mut end: usize = n;
    while end > start && char_is_quote(v[end - 1])
        invariant
            v@ == s@,
            n == v@.len(),
            0 <= start <= end <= n,
            forall|j: int| end <= j < n ==> #[trigger] is_quote(v@[j]),
        decreases end - start,
    {
        end -= 1;
    }
    proof {
        let rest = v@.subrange(start as int, n as int);
        lemma_strip_end_drop(rest, end - start);
        let mid = rest.subrange(0, end - start);
        assert(mid =~= v@.subrange(start as int, end as int));
        if mid.len() > 0 {
            assert(mid.last() == v@[end - 1]);
        }
        assert(strip_quotes_end(mid) == mid);
    }
    string_from_chars(v.as_slice(), start, end)
}

/// Whether a claim is explicitly prospective: after trimming whitespace and
/// quotation marks and lower-casing, it starts as a statement of what the
/// speaker would do and holds no semicolon or spaced em dash.
pub fn is_explicitly_prospective(claim: &str) -> (b: bool)
    ensures
        b == explicitly_prospective(claim@),
{
    let trimmed = trim_string(claim);
    let unquoted = strip_quote_marks(trimmed.as_str());
    let normalized = to_lowercase(unquoted.as_str());
    let n = normalized.as_str();
    if text::str_contains_char(n, ';') || str_contains(n, " \u{2014} ") {
        return false;
    }
    str_starts_with(n, "i would ") || str_starts_with(n, "we would ") || str_starts_with(n, "i'd ")
        || str_starts_with(n, "we'd ") || str_starts_with(n, "my approach would ")
        || str_starts_with(n, "our approach would ") || (str_starts_with(n, "if ") && (str_contains(
        n,
        ", i would ",
    ) || str_contains(n, ", we would ")))
}

pub open spec fn separation_phrases() -> Seq<Seq<char>> {
    seq![
        "explicitly separate"@,
        "clearly separate"@,
        "distinct examples"@,
        "not merged"@,
        "does not merge"@,
        "did not merge"@,
    ]
}

/// A contamination note that itself says the examples were kept apart.
pub open spec fn separated_examples(description: Seq<char>) -> bool {
    exists|i: int|
        0 <= i < separation_phrases().len() && text::contains(
            text::unicode_lowercase(description),
            #[trigger] separation_phrases()[i],
        )
}

fn separation_phrase_list() -> (r: Vec<&'static str>)
    ensures
        r@.len() == separation_phrases().len(),
        forall|i: int| 0 <= i < r@.len() ==> #[trigger] r@[i]@ == separation_phrases()[i],
{
    let mut v: Vec<&'static str> = Vec::new();
    v.push("explicitly separate");
    v.push("clearly separate");
    v.push("distinct examples");
    v.push("not merged");
    v.push("does not merge");
    v.push("did not merge");
    v
}

/// Whether a description of merged stories says, in any letter case, that
/// the examples were kept separate.
pub fn describes_separated_examples(description: &str) -> (b: bool)
    ensures
        b == separated_examples(description@),
{
    let normalized = to_lowercase(description);
    let phrases = separation_phrase_list();
    let mut i: usize = 0;
    while i < phrases.len()
        invariant
            0 <= i <= phrases@.len(),
            phrases@.len() == separation_phrases().len(),
            forall|j: int| 0 <= j < phrases@.len() ==> #[trigger] phrases@[j]@ == separation_phrases()[j],
            normalized@ == text::unicode_lowercase(description@),
            forall|j: int| 0 <= j < i ==> !text::contains(normalized@, #[trigger] separation_phrases()[j]),
        decreases phrases.len() - i,
    {
        if str_contains(normalized.as_str(), phrases[i]) {
            return true;
        }
        i += 1;
    }
    false
}


// ----------------------------------------------------------------------------
// Normalising an audit
// ----------------------------------------------------------------------------
/// The claims that are not explicitly prospective, in order.
pub open spec fn non_prospective(s: Seq<String>) -> Seq<String>
    decreases s.len(),
{
    if s.len() == 0 {
        s
    } else if explicitly_prospective(s.last()@) {
        non_prospective(s.drop_last())
    } else {
        non_prospective(s.drop_last()).push(s.last())
    }
}

/// The claims that are explicitly prospective, in order.
pub open spec fn prospective_only(s: Seq<String>) -> Seq<String>
    decreases s.len(),
{
    if s.len() == 0 {
        s
    } else if explicitly_prospective(s.last()@) {
        prospective_only(s.drop_last()).push(s.last())
    } else {
        prospective_only(s.drop_last())
    }
}

/// The contamination notes that do not describe separated examples.
pub open spec fn not_separated(s: Seq<String>) -> Seq<String>
    decreases s.len(),
{
    if s.len() == 0 {
        s
    } else if separated_examples(s.last()@) {
        not_separated(s.drop_last())
    } else {
        not_separated(s.drop_last()).push(s.last())
    }
}

/// The contamination notes that describe separated examples.
pub open spec fn separated_only(s: Seq<String>) -> Seq<String>
    decreases s.len(),
{
    if s.len() == 0 {
        s
    } else if separated_examples(s.last()@) {
        separated_only(s.drop_last()).push(s.last())
    } else {
        separated_only(s.drop_last())
    }
}

fn split_prospective(v: &Vec<String>) -> (r: (Vec<String>, Vec<String>))
    ensures
        r.0@ == non_prospective(v@),
        r.1@ == prospective_only(v@),
{
    let mut keep: Vec<String> = Vec::new();
    let mut moved: Vec<String> = Vec::new();
    let mut i: usize = 0;
    while i < v.len()
        invariant
            0 <= i <= v@.len(),
            keep@ == non_prospective(v@.subrange(0, i as int)),
            moved@ == prospective_only(v@.subrange(0, i as int)),
        decreases v.len() - i,
    {
        let ghost prefix = v@.subrange(0, i + 1);
        proof {
            assert(prefix.drop_last() =~= v@.subrange(0, i as int));
            assert(prefix.last() == v@[i as int]);
        }
        let c = v[i].clone();
        if is_explicitly_prospective(v[i].as_str()) {
            moved.push(c);
        } else {
            keep.push(c);
        }
        i += 1;
    }
    proof {
        assert(v@.subrange(0, v@.len() as int) =~= v@);
    }
    (keep, moved)
}

fn split_separated(v: &Vec<String>) -> (r: (Vec<String>, Vec<String>))
    ensures
        r.0@ == not_separated(v@),
        r.1@ == separated_only(v@),
{
    let mut keep: Vec<String> = Vec::new();
    let mut moved: Vec<String> = Vec::new();
    let mut i: usize = 0;
    while i < v.len()
        invariant
            0 <= i <= v@.len(),
            keep@ == not_separated(v@.subrange(0, i as int)),
            moved@ == separated_only(v@.subrange(0, i as int)),
        decreases v.len() - i,
    {
        let ghost prefix = v@.subrange(0, i + 1);
        proof {
            assert(prefix.drop_last() =~= v@.subrange(0, i as int));
            assert(prefix.last() == v@[i as int]);
        }
        let c = v[i].clone();
        if describes_separated_examples(v[i].as_str()) {
            moved.push(c);
        } else {
            keep.push(c);
        }
        i += 1;
    }
    proof {
        assert(v@.subrange(0, v@.len() as int) =~= v@);
    }
    (keep, moved)
}

fn copy_strings(v: &Vec<String>) -> (r: Vec<String>)
    ensures
        r@ == v@,
{
    let mut out: Vec<String> = Vec::new();
    let mut i: usize = 0;
    while i < v.len()
        invariant
            0 <= i <= v@.len(),
            out@ == v@.subrange(0, i as int),
        decreases v.len() - i,
    {
        out.push(v[i].clone());
        proof {
            assert(out@ =~= v@.subrange(0, i + 1));
        }
        i += 1;
    }
    proof {
        assert(out@ =~= v@);
    }
    out
}

/// Corrects two known evaluator slips: explicitly prospective claims filed
/// as unsupported move to the prospective statements, and contamination
/// notes that describe separated examples are dropped.  Returns the audit,
/// the claims moved, and the notes dropped.
pub fn normalize_claim_audit(audit: ClaimAudit) -> (r: (ClaimAudit, Vec<String>, Vec<String>))
    ensures
        r.0.unsupported_material_facts@ == non_prospective(audit.unsupported_material_facts@),
        r.0.unsupported_characterisations@ == non_prospective(audit.unsupported_characterisations@),
        r.1@ == prospective_only(audit.unsupported_material_facts@) + prospective_only(
            audit.unsupported_characterisations@,
        ),
        r.0.prospective_statements@ == audit.prospective_statements@ + r.1@,
        r.0.cross_story_contamination@ == not_separated(audit.cross_story_contamination@),
        r.2@ == separated_only(audit.cross_story_contamination@),
        r.0.supported_autobiographical_claims == audit.supported_autobiographical_claims,
        r.0.identity_header_supported_claims == audit.identity_header_supported_claims,
        r.0.supported_claim_attributions == audit.supported_claim_attributions,
        r.0.single_story_source_record_id == audit.single_story_source_record_id,
        r.0.used_required_evidence == audit.used_required_evidence,
{
    let (facts, mut reclassified) = split_prospective(&audit.unsupported_material_facts);
    let (characterisations, mut more) = split_prospective(&audit.unsupported_characterisations);
    reclassified.append(&mut more);
    let mut prospective = audit.prospective_statements;
    let mut extra = copy_strings(&reclassified);
    prospective.append(&mut extra);
    let (contamination, separated) = split_separated(&audit.cross_story_contamination);
    let normalized = ClaimAudit {
        unsupported_material_facts: facts,
        unsupported_characterisations: characterisations,
        supported_autobiographical_claims: audit.supported_autobiographical_claims,
        prospective_statements: prospective,
        identity_header_supported_claims: audit.identity_header_supported_claims,
        supported_claim_attributions: audit.supported_claim_attributions,
        single_story_source_record_id: audit.single_story_source_record_id,
        cross_story_contamination: contamination,
        used_required_evidence: audit.used_required_evidence,
    };
    (normalized, reclassified, separated)
}

// ----------------------------------------------------------------------------
// Checking an audit
// ----------------------------------------------------------------------------
/// A prospective statement that still joins clauses.
pub open spec fn is_compound(c: Seq<char>) -> bool {
    text::contains_char(c, ';') || text::contains(c, " \u{2014} "@)
}

/// The first of the first `n` statements that is compound.
pub open spec fn first_compound(s: Seq<String>, n: int) -> Option<int>
    decreases n,
{
    if n <= 0 {
        None
    } else {
        match first_compound(s, n - 1) {
            Some(i) => Some(i),
            None => if is_compound(s[n - 1]@) {
                Some(n - 1)
            } else {
                None
            },
        }
    }
}

proof fn lemma_first_compound_settles(s: Seq<String>, n: int, m: int)
    requires
        0 <= n <= m,
        first_compound(s, n) is Some,
    ensures
        first_compound(s, m) == first_compound(s, n),
    decreases m - n,
{
    if n < m {
        lemma_first_compound_settles(s, n, m - 1);
    }
}

/// Checks an audit's classification: prospective statements must be atomic,
/// no unsupported material fact may remain, and the use of required evidence
/// must match whether any was required.  On success returns the unsupported
/// characterisations, which are only warnings.
pub fn validate_claim_audit(audit: &ClaimAudit, required_positive_fact: Option<&str>) -> (r: Result<
    Vec<String>,
    ClaimAuditError,
>)
    ensures
        match first_compound(
            audit.prospective_statements@,
            audit.prospective_statements@.len() as int,
        ) {
            Some(i) => r == Err::<Vec<String>, ClaimAuditError>(
                ClaimAuditError::CompoundProspective(audit.prospective_statements@[i]),
            ),
            None => if audit.unsupported_material_facts@.len() > 0 {
                r matches Err(ClaimAuditError::UnsupportedMaterialFacts(v)) && v@
                    == audit.unsupported_material_facts@
            } else if required_positive_fact is Some && (!audit.used_required_evidence
                || audit.supported_autobiographical_claims@.len() == 0) {
                r == Err::<Vec<String>, ClaimAuditError>(ClaimAuditError::RequiredEvidenceUnused)
            } else if required_positive_fact is None && audit.used_required_evidence {
                r == Err::<Vec<String>, ClaimAuditError>(ClaimAuditError::AbsentEvidenceMarkedUsed)
            } else {
                r matches Ok(v) && v@ == audit.unsupported_characterisations@
            },
        },
{
    let mut i: usize = 0;
    while i < audit.prospective_statements.len()
        invariant
            0 <= i <= audit.prospective_statements@.len(),
            first_compound(audit.prospective_statements@, i as int) is None,
        decreases audit.prospective_statements.len() - i,
    {
        let claim = audit.prospective_statements[i].as_str();
        if text::str_contains_char(claim, ';') || str_contains(claim, " \u{2014} ") {
            proof {
                lemma_first_compound_settles(
                    audit.prospective_statements@,
                    i + 1,
                    audit.prospective_statements@.len() as int,
                );
            }
            return Err(ClaimAuditError::CompoundProspective(audit.prospective_statements[i].clone()));
        }
        i += 1;
    }
    if audit.unsupported_material_facts.len() > 0 {
        return Err(
            ClaimAuditError::UnsupportedMaterialFacts(copy_strings(&audit.unsupported_material_facts)),
        );
    }
    match required_positive_fact {
        Some(_) => if !audit.used_required_evidence || audit.supported_autobiographical_claims.len()
            == 0 {
            return Err(ClaimAuditError::RequiredEvidenceUnused);
        },
        None => if audit.used_required_evidence {
            return Err(ClaimAuditError::AbsentEvidenceMarkedUsed);
        },
    }
    Ok(copy_strings(&audit.unsupported_characterisations))
}

// ----------------------------------------------------------------------------
// Checking the sources of an audit
// ----------------------------------------------------------------------------
pub open spec fn claims_of(s: Seq<SupportedClaimAttribution>) -> Seq<Seq<char>> {
    s.map_values(|a: SupportedClaimAttribution| a.claim@)
}

/// Every supported claim is sourced exactly once: either by a record
/// attribution or by the identity header, never both, never twice.
pub open spec fn sourced_exactly_once(audit: ClaimAudit) -> bool {
    let attributed = claims_of(audit.supported_claim_attributions@);
    let header = canonical::string_views(audit.identity_header_supported_claims@);
    let supported = canonical::string_views(audit.supported_autobiographical_claims@);
    &&& attributed.no_duplicates()
    &&& header.no_duplicates()
    &&& forall|i: int, j: int|
        0 <= i < attributed.len() && 0 <= j < header.len() ==> #[trigger] attributed[i]
            != #[trigger] header[j]
    &&& forall|x: Seq<char>| #[trigger]
        supported.contains(x) <==> (attributed.contains(x) || header.contains(x))
}

/// The first of the first `n` record ids that is not among those supplied.
pub open spec fn first_unsupplied(ids: Seq<u128>, available: Seq<u128>, n: int) -> Option<int>
    decreases n,
{
    if n <= 0 {
        None
    } else {
        match first_unsupplied(ids, available, n - 1) {
            Some(i) => Some(i),
            None => if !available.contains(ids[n - 1]) {
                Some(n - 1)
            } else {
                None
            },
        }
    }
}

/// An attribution that cites no record, or a record not supplied.
pub open spec fn bad_attribution(a: SupportedClaimAttribution, available: Seq<u128>) -> bool {
    a.record_ids@.len() == 0 || first_unsupplied(
        a.record_ids@,
        available,
        a.record_ids@.len() as int,
    ) is Some
}

pub open spec fn first_bad_attribution(s: Seq<SupportedClaimAttribution>, available: Seq<u128>, n: int) -> Option<
    int,
>
    decreases n,
{
    if n <= 0 {
        None
    } else {
        match first_bad_attribution(s, available, n - 1) {
            Some(i) => Some(i),
            None => if bad_attribution(s[n - 1], available) {
                Some(n - 1)
            } else {
                None
            },
        }
    }
}

/// The first of the first `n` attributions that does not cite `record`.
pub open spec fn first_without(s: Seq<SupportedClaimAttribution>, record: u128, n: int) -> Option<int>
    decreases n,
{
    if n <= 0 {
        None
    } else {
        match first_without(s, record, n - 1) {
            Some(i) => Some(i),
            None => if !s[n - 1].record_ids@.contains(record) {
                Some(n - 1)
            } else {
                None
            },
        }
    }
}

/// The verdict on an audit's sources, as far as it needs no copy of a list.
pub open spec fn sources_rule(audit: ClaimAudit, available: Seq<u128>, requires_single: bool) -> Result<
    (),
    ClaimAuditError,
> {
    let atts = audit.supported_claim_attributions@;
    if audit.cross_story_contamination@.len() > 0 {
        Err(ClaimAuditError::MergedStories(audit.cross_story_contamination))
    } else if !canonical::string_views(audit.supported_autobiographical_claims@).no_duplicates() {
        Err(ClaimAuditError::DuplicateSupportedClaims)
    } else if !sourced_exactly_once(audit) {
        Err(ClaimAuditError::UnsourcedClaims)
    } else if let Some(i) = first_bad_attribution(atts, available, atts.len() as int) {
        if atts[i].record_ids@.len() == 0 {
            Err(ClaimAuditError::ClaimWithoutRecord(atts[i].claim))
        } else {
            let ids = atts[i].record_ids@;
            Err(
                ClaimAuditError::UnsuppliedRecord(
                    ids[first_unsupplied(ids, available, ids.len() as int)->Some_0],
                ),
            )
        }
    } else if audit.single_story_source_record_id matches Some(id) && !available.contains(id) {
        Err(ClaimAuditError::UnsuppliedSingleSource(audit.single_story_source_record_id->Some_0))
    } else if !requires_single {
        Ok(())
    } else if audit.single_story_source_record_id is None {
        Err(ClaimAuditError::MissingSingleSource)
    } else if atts.len() == 0 {
        Err(ClaimAuditError::SingleExampleUnsupported)
    } else {
        let id = audit.single_story_source_record_id->Some_0;
        match first_without(atts, id, atts.len() as int) {
            Some(i) => Err(ClaimAuditError::SingleSourceMismatch { record_id: id, claim: atts[i].claim }),
            None => Ok(()),
        }
    }
}

fn contains_view(v: &Vec<String>, t: &str) -> (b: bool)
    ensures
        b == canonical::string_views(v@).contains(t@),
{
    let mut i: usize = 0;
    while i < v.len()
        invariant
            0 <= i <= v@.len(),
            forall|j: int| 0 <= j < i ==> v@[j]@ != t@,
        decreases v.len() - i,
    {
        if str_eq(v[i].as_str(), t) {
            proof {
                assert(canonical::string_views(v@)[i as int] == t@);
            }
            return true;
        }
        i += 1;
    }
    proof {
        if canonical::string_views(v@).contains(t@) {
            let k = choose|k: int| 0 <= k < canonical::string_views(v@).len() && canonical::string_views(v@)[k] == t@;
            assert(v@[k]@ == t@);
        }
    }
    false
}

fn no_duplicate_views(v: &Vec<String>) -> (b: bool)
    ensures
        b == canonical::string_views(v@).no_duplicates(),
{
    let mut i: usize = 0;
    while i < v.len()
        invariant
            0 <= i <= v@.len(),
            forall|a: int, c: int| 0 <= a < c < i ==> v@[a]@ != v@[c]@,
        decreases v.len() - i,
    {
        let mut j: usize = 0;
        while j < i
            invariant
                0 <= j <= i < v@.len(),
                forall|a: int| 0 <= a < j ==> v@[a]@ != v@[i as int]@,
            decreases i - j,
        {
            if str_eq(v[j].as_str(), v[i].as_str()) {
                proof {
                    assert(canonical::string_views(v@)[j as int] == canonical::string_views(v@)[i as int]);
                }
                return false;
            }
            j += 1;
        }
        i += 1;
    }
    proof {
        assert forall|a: int, c: int|
            0 <= a < canonical::string_views(v@).len() && 0 <= c < canonical::string_views(v@).len() && a != c implies canonical::string_views(v@)[a]
            != canonical::string_views(v@)[c] by {
            if a < c {
                assert(v@[a]@ != v@[c]@);
            } else {
                assert(v@[c]@ != v@[a]@);
            }
        }
    }
    true
}

fn all_contained(a: &Vec<String>, b: &Vec<String>) -> (r: bool)
    ensures
        r == forall|i: int| 0 <= i < a@.len() ==> canonical::string_views(b@).contains(#[trigger] canonical::string_views(a@)[i]),
{
    let mut i: usize = 0;
    while i < a.len()
        invariant
            0 <= i <= a@.len(),
            forall|k: int| 0 <= k < i ==> canonical::string_views(b@).contains(#[trigger] canonical::string_views(a@)[k]),
        decreases a.len() - i,
    {
        if !contains_view(b, a[i].as_str()) {
            proof {
                assert(canonical::string_views(a@)[i as int] == a@[i as int]@);
            }
            return false;
        }
        proof {
            assert(canonical::string_views(a@)[i as int] == a@[i as int]@);
        }
        i += 1;
    }
    true
}

fn all_in_either(s: &Vec<String>, a: &Vec<String>, b: &Vec<String>) -> (r: bool)
    ensures
        r == forall|i: int|
            0 <= i < s@.len() ==> canonical::string_views(a@).contains(#[trigger] canonical::string_views(s@)[i]) || canonical::string_views(b@).contains(
                canonical::string_views(s@)[i],
            ),
{
    let mut i: usize = 0;
    while i < s.len()
        invariant
            0 <= i <= s@.len(),
            forall|k: int|
                0 <= k < i ==> canonical::string_views(a@).contains(#[trigger] canonical::string_views(s@)[k]) || canonical::string_views(b@).contains(
                    canonical::string_views(s@)[k],
                ),
        decreases s.len() - i,
    {
        proof {
            assert(canonical::string_views(s@)[i as int] == s@[i as int]@);
        }
        if !contains_view(a, s[i].as_str()) && !contains_view(b, s[i].as_str()) {
            return false;
        }
        i += 1;
    }
    true
}

fn disjoint_views(a: &Vec<String>, b: &Vec<String>) -> (r: bool)
    ensures
        r == forall|i: int, j: int|
            0 <= i < a@.len() && 0 <= j < b@.len() ==> #[trigger] canonical::string_views(a@)[i] != #[trigger] canonical::string_views(
                b@,
            )[j],
{
    let mut i: usize = 0;
    while i < a.len()
        invariant
            0 <= i <= a@.len(),
            forall|k: int, j: int|
                0 <= k < i && 0 <= j < b@.len() ==> #[trigger] canonical::string_views(a@)[k] != #[trigger] canonical::string_views(
                    b@,
                )[j],
        decreases a.len() - i,
    {
        if contains_view(b, a[i].as_str()) {
            proof {
                let j = choose|j: int| 0 <= j < canonical::string_views(b@).len() && canonical::string_views(b@)[j] == a@[i as int]@;
                assert(canonical::string_views(a@)[i as int] == canonical::string_views(b@)[j]);
            }
            return false;
        }
        proof {
            assert forall|j: int| 0 <= j < b@.len() implies canonical::string_views(a@)[i as int] != canonical::string_views(b@)[j] by {
                if canonical::string_views(a@)[i as int] == canonical::string_views(b@)[j] {
                    assert(canonical::string_views(b@).contains(a@[i as int]@));
                }
            }
        }
        i += 1;
    }
    true
}

fn attribution_claims(atts: &Vec<SupportedClaimAttribution>) -> (r: Vec<String>)
    ensures
        canonical::string_views(r@) == claims_of(atts@),
        r@.len() == atts@.len(),
{
    let mut out: Vec<String> = Vec::new();
    let mut i: usize = 0;
    while i < atts.len()
        invariant
            0 <= i <= atts@.len(),
            canonical::string_views(out@) == claims_of(atts@.subrange(0, i as int)),
            out@.len() == i,
        decreases atts.len() - i,
    {
        let c = atts[i].claim.clone();
        let ghost before = out@;
        out.push(c);
        proof {
            assert(out@ == before.push(c));
            assert(c == atts@[i as int].claim);
            assert forall|k: int| 0 <= k < i + 1 implies #[trigger] canonical::string_views(out@)[k] == claims_of(
                atts@.subrange(0, i + 1),
            )[k] by {
                if k < i {
                    assert(canonical::string_views(before)[k] == claims_of(atts@.subrange(0, i as int))[k]);
                }
            }
            assert(canonical::string_views(out@) =~= claims_of(atts@.subrange(0, i + 1)));
        }
        i += 1;
    }
    proof {
        assert(atts@.subrange(0, atts@.len() as int) =~= atts@);
    }
    out
}

fn check_sourced_exactly_once(audit: &ClaimAudit) -> (b: bool)
    ensures
        b == sourced_exactly_once(*audit),
{
    let claims = attribution_claims(&audit.supported_claim_attributions);
    let header = &audit.identity_header_supported_claims;
    let supported = &audit.supported_autobiographical_claims;
    let b1 = no_duplicate_views(&claims);
    let b2 = no_duplicate_views(header);
    let b3 = disjoint_views(&claims, header);
    let b4 = all_contained(&claims, supported);
    let b5 = all_contained(header, supported);
    let b6 = all_in_either(supported, &claims, header);
    proof {
        let attributed = claims_of(audit.supported_claim_attributions@);
        let hv = canonical::string_views(header@);
        let sv = canonical::string_views(supported@);
        if b4 && b5 && b6 {
            assert forall|x: Seq<char>| #[trigger]
                sv.contains(x) <==> (attributed.contains(x) || hv.contains(x)) by {
                if sv.contains(x) {
                    let k = choose|k: int| 0 <= k < sv.len() && sv[k] == x;
                    assert(canonical::string_views(supported@)[k] == x);
                }
                if attributed.contains(x) {
                    let k = choose|k: int| 0 <= k < attributed.len() && attributed[k] == x;
                    assert(canonical::string_views(claims@)[k] == x);
                }
                if hv.contains(x) {
                    let k = choose|k: int| 0 <= k < hv.len() && hv[k] == x;
                    assert(canonical::string_views(header@)[k] == x);
                }
            }
        }
        if sourced_exactly_once(*audit) {
            assert forall|i: int| 0 <= i < claims@.len() implies canonical::string_views(supported@).contains(
                #[trigger] canonical::string_views(claims@)[i],
            ) by {
                assert(attributed.contains(attributed[i]));
            }
            assert forall|i: int| 0 <= i < header@.len() implies canonical::string_views(supported@).contains(
                #[trigger] canonical::string_views(header@)[i],
            ) by {
                assert(hv.contains(hv[i]));
            }
            assert forall|i: int| 0 <= i < supported@.len() implies canonical::string_views(claims@).contains(
                #[trigger] canonical::string_views(supported@)[i],
            ) || canonical::string_views(header@).contains(canonical::string_views(supported@)[i]) by {
                assert(sv.contains(sv[i]));
            }
        }
    }
    b1 && b2 && b3 && b4 && b5 && b6
}

proof fn lemma_first_unsupplied_settles(ids: Seq<u128>, av: Seq<u128>, n: int, m: int)
    requires
        0 <= n <= m,
        first_unsupplied(ids, av, n) is Some,
    ensures
        first_unsupplied(ids, av, m) == first_unsupplied(ids, av, n),
    decreases m - n,
{
    if n < m {
        lemma_first_unsupplied_settles(ids, av, n, m - 1);
    }
}

proof fn lemma_first_bad_settles(s: Seq<SupportedClaimAttribution>, av: Seq<u128>, n: int, m: int)
    requires
        0 <= n <= m,
        first_bad_attribution(s, av, n) is Some,
    ensures
        first_bad_attribution(s, av, m) == first_bad_attribution(s, av, n),
    decreases m - n,
{
    if n < m {
        lemma_first_bad_settles(s, av, n, m - 1);
    }
}

proof fn lemma_first_without_settles(s: Seq<SupportedClaimAttribution>, id: u128, n: int, m: int)
    requires
        0 <= n <= m,
        first_without(s, id, n) is Some,
    ensures
        first_without(s, id, m) == first_without(s, id, n),
    decreases m - n,
{
    if n < m {
        lemma_first_without_settles(s, id, n, m - 1);
    }
}

proof fn lemma_first_bad_bounds(s: Seq<SupportedClaimAttribution>, av: Seq<u128>, n: int)
    ensures
        first_bad_attribution(s, av, n) matches Some(i) ==> 0 <= i < n && bad_attribution(
            s[i],
            av,
        ),
    decreases n,
{
    if n > 0 {
        lemma_first_bad_bounds(s, av, n - 1);
    }
}

proof fn lemma_first_unsupplied_bounds(ids: Seq<u128>, av: Seq<u128>, n: int)
    ensures
        first_unsupplied(ids, av, n) matches Some(i) ==> 0 <= i < n,
    decreases n,
{
    if n > 0 {
        lemma_first_unsupplied_bounds(ids, av, n - 1);
    }
}

proof fn lemma_first_without_bounds(s: Seq<SupportedClaimAttribution>, id: u128, n: int)
    ensures
        first_without(s, id, n) matches Some(i) ==> 0 <= i < n,
    decreases n,
{
    if n > 0 {
        lemma_first_without_bounds(s, id, n - 1);
    }
}

fn contains_id(v: &Vec<u128>, id: u128) -> (b: bool)
    ensures
        b == v@.contains(id),
{
    let mut i: usize = 0;
    while i < v.len()
        invariant
            0 <= i <= v@.len(),
            forall|j: int| 0 <= j < i ==> v@[j] != id,
        decreases v.len() - i,
    {
        if v[i] == id {
            return true;
        }
        i += 1;
    }
    false
}

fn find_unsupplied(ids: &Vec<u128>, available: &Vec<u128>) -> (r: Option<usize>)
    ensures
        match first_unsupplied(ids@, available@, ids@.len() as int) {
            Some(i) => r == Some(i as usize),
            None => r is None,
        },
{
    let mut i: usize = 0;
    while i < ids.len()
        invariant
            0 <= i <= ids@.len(),
            first_unsupplied(ids@, available@, i as int) is None,
        decreases ids.len() - i,
    {
        if !contains_id(available, ids[i]) {
            proof {
                lemma_first_unsupplied_settles(ids@, available@, i + 1, ids@.len() as int);
            }
            return Some(i);
        }
        i += 1;
    }
    None
}

fn find_bad_attribution(atts: &Vec<SupportedClaimAttribution>, available: &Vec<u128>) -> (r: Option<
    usize,
>)
    ensures
        match first_bad_attribution(atts@, available@, atts@.len() as int) {
            Some(i) => r == Some(i as usize),
            None => r is None,
        },
{
    let mut i: usize = 0;
    while i < atts.len()
        invariant
            0 <= i <= atts@.len(),
            first_bad_attribution(atts@, available@, i as int) is None,
        decreases atts.len() - i,
    {
        let bad = atts[i].record_ids.len() == 0 || find_unsupplied(&atts[i].record_ids, available).is_some();
        if bad {
            proof {
                lemma_first_bad_settles(atts@, available@, i + 1, atts@.len() as int);
            }
            return Some(i);
        }
        i += 1;
    }
    None
}

fn find_without(atts: &Vec<SupportedClaimAttribution>, record: u128) -> (r: Option<usize>)
    ensures
        match first_without(atts@, record, atts@.len() as int) {
            Some(i) => r == Some(i as usize),
            None => r is None,
        },
{
    let mut i: usize = 0;
    while i < atts.len()
        invariant
            0 <= i <= atts@.len(),
            first_without(atts@, record, i as int) is None,
        decreases atts.len() - i,
    {
        if !contains_id(&atts[i].record_ids, record) {
            proof {
                lemma_first_without_settles(atts@, record, i + 1, atts@.len() as int);
            }
            return Some(i);
        }
        i += 1;
    }
    None
}

/// Checks the evidence behind an audit: no stories merged into one, every
/// supported claim sourced exactly once, every cited record one that was
/// supplied, and, when one example was asked for, one record behind every
/// supported claim.
pub fn validate_claim_sources(
    audit: &ClaimAudit,
    available_record_ids: &Vec<u128>,
    requires_single_story_source: bool,
) -> (r: Result<(), ClaimAuditError>)
    ensures
        match sources_rule(*audit, available_record_ids@, requires_single_story_source) {
            Err(ClaimAuditError::MergedStories(_)) => r matches Err(ClaimAuditError::MergedStories(v))
                && v@ == audit.cross_story_contamination@,
            other => r == other,
        },
{
    if audit.cross_story_contamination.len() > 0 {
        return Err(ClaimAuditError::MergedStories(copy_strings(&audit.cross_story_contamination)));
    }
    if !no_duplicate_views(&audit.supported_autobiographical_claims) {
        return Err(ClaimAuditError::DuplicateSupportedClaims);
    }
    if !check_sourced_exactly_once(audit) {
        return Err(ClaimAuditError::UnsourcedClaims);
    }
    let atts = &audit.supported_claim_attributions;
    // Reading the lengths bounds them by `usize` for the indexing below.
    let _count: usize = atts.len();
    proof {
        lemma_first_bad_bounds(atts@, available_record_ids@, atts@.len() as int);
    }
    match find_bad_attribution(atts, available_record_ids) {
        Some(i) => {
            proof {
                lemma_first_unsupplied_bounds(
                    atts@[i as int].record_ids@,
                    available_record_ids@,
                    atts@[i as int].record_ids@.len() as int,
                );
            }
            let _ids: usize = atts[i].record_ids.len();
            if atts[i].record_ids.len() == 0 {
                return Err(ClaimAuditError::ClaimWithoutRecord(atts[i].claim.clone()));
            }
            match find_unsupplied(&atts[i].record_ids, available_record_ids) {
                Some(k) => {
                    return Err(ClaimAuditError::UnsuppliedRecord(atts[i].record_ids[k]));
                },
                None => {
                    return Err(ClaimAuditError::UnsourcedClaims);
                },
            }
        },
        None => {},
    }
    if let Some(id) = audit.single_story_source_record_id {
        if !contains_id(available_record_ids, id) {
            return Err(ClaimAuditError::UnsuppliedSingleSource(id));
        }
    }
    if !requires_single_story_source {
        return Ok(());
    }
    let id = match audit.single_story_source_record_id {
        Some(id) => id,
        None => {
            return Err(ClaimAuditError::MissingSingleSource);
        },
    };
    if atts.len() == 0 {
        return Err(ClaimAuditError::SingleExampleUnsupported);
    }
    proof {
        lemma_first_without_bounds(atts@, id, atts@.len() as int);
    }
    match find_without(atts, id) {
        Some(i) => Err(
            ClaimAuditError::SingleSourceMismatch { record_id: id, claim: atts[i].claim.clone() },
        ),
        None => Ok(()),
    }
}

// ----------------------------------------------------------------------------
// Authority-scope trials
// ----------------------------------------------------------------------------
#[derive(Debug, Clone, Copy, PartialEq, Eq, Structural)]
pub enum HumanAuthorityAdjudication {
    WarningExpected,
    NoWarningExpected,
}

#[derive(Debug, Clone, Copy, PartialEq, Eq, Structural)]
pub enum AuthorityTrialOutcome {
    TruePositive,
    TrueNegative,
    FalsePositive,
    FalseNegative,
}

/// One recorded trial: which answer was checked under which identity, and
/// how the warning compared with the human verdict.
#[derive(Debug, Clone, PartialEq, Eq)]
pub struct AuthorityTrialLedgerEntry {
    pub case_id: String,
    pub answer_hash: String,
    pub identity_version_hash: String,
    pub matched_rule_ids: Vec<String>,
    pub warning_codes: Vec<String>,
    pub outcome: AuthorityTrialOutcome,
    pub evaluated_at: String,
}

/// The tally of distinct trials for one identity version and rule set.
#[derive(Debug, Clone, PartialEq, Eq)]
pub struct AuthorityTrialReport {
    pub identity_version_hash: String,
    pub rule_set_hash: String,
    pub distinct_trial_count: usize,
    pub true_positives: usize,
    pub true_negatives: usize,
    pub false_positives: usize,
    pub false_negatives: usize,
    pub offline_evidence_gate_satisfied: bool,
    pub runtime_activation_allowed: bool,
}

/// Compares the warning raised with the human verdict.
pub fn classify_authority_trial(adjudication: HumanAuthorityAdjudication, warning_emitted: bool) -> (r:
    AuthorityTrialOutcome)
    ensures
        r == match (adjudication, warning_emitted) {
            (HumanAuthorityAdjudication::WarningExpected, true) => AuthorityTrialOutcome::TruePositive,
            (HumanAuthorityAdjudication::NoWarningExpected, false) =>
                AuthorityTrialOutcome::TrueNegative,
            (HumanAuthorityAdjudication::NoWarningExpected, true) =>
                AuthorityTrialOutcome::FalsePositive,
            (HumanAuthorityAdjudication::WarningExpected, false) =>
                AuthorityTrialOutcome::FalseNegative,
        },
{
    match (adjudication, warning_emitted) {
        (HumanAuthorityAdjudication::WarningExpected, true) => AuthorityTrialOutcome::TruePositive,
        (HumanAuthorityAdjudication::NoWarningExpected, false) => AuthorityTrialOutcome::TrueNegative,
        (HumanAuthorityAdjudication::NoWarningExpected, true) => AuthorityTrialOutcome::FalsePositive,
        (HumanAuthorityAdjudication::WarningExpected, false) => AuthorityTrialOutcome::FalseNegative,
    }
}

/// The outcomes of the distinct trials among the first `n` entries: those of
/// the given identity, each answer counted at its first entry only.
pub open spec fn distinct_trials(
    entries: Seq<AuthorityTrialLedgerEntry>,
    identity: Seq<char>,
    n: int,
) -> Seq<AuthorityTrialOutcome>
    decreases n,
{
    if n <= 0 {
        Seq::empty()
    } else {
        let e = entries[n - 1];
        let earlier = distinct_trials(entries, identity, n - 1);
        if e.identity_version_hash@ == identity && !answer_seen(entries, identity, e.answer_hash@, n - 1) {
            earlier.push(e.outcome)
        } else {
            earlier
        }
    }
}

/// Some entry among the first `n` of the identity has this answer digest.
pub open spec fn answer_seen(
    entries: Seq<AuthorityTrialLedgerEntry>,
    identity: Seq<char>,
    answer: Seq<char>,
    n: int,
) -> bool {
    exists|k: int|
        0 <= k < n && #[trigger] entries[k].identity_version_hash@ == identity
            && entries[k].answer_hash@ == answer
}

pub open spec fn count_outcome(s: Seq<AuthorityTrialOutcome>, o: AuthorityTrialOutcome) -> nat
    decreases s.len(),
{
    if s.len() == 0 {
        0
    } else {
        count_outcome(s.drop_last(), o) + if s.last() == o {
            1nat
        } else {
            0nat
        }
    }
}

proof fn lemma_distinct_len(entries: Seq<AuthorityTrialLedgerEntry>, identity: Seq<char>, n: int)
    requires
        n >= 0,
    ensures
        distinct_trials(entries, identity, n).len() <= n,
    decreases n,
{
    if n > 0 {
        lemma_distinct_len(entries, identity, n - 1);
    }
}

fn answer_seen_before(entries: &Vec<AuthorityTrialLedgerEntry>, identity: &str, answer: &str, n: usize) -> (b:
    bool)
    requires
        n <= entries@.len(),
    ensures
        b == answer_seen(entries@, identity@, answer@, n as int),
{
    let mut k: usize = 0;
    while k < n
        invariant
            0 <= k <= n <= entries@.len(),
            forall|j: int|
                0 <= j < k ==> !(entries@[j].identity_version_hash@ == identity@
                    && entries@[j].answer_hash@ == answer@),
        decreases n - k,
    {
        if str_eq(entries[k].identity_version_hash.as_str(), identity) && str_eq(
            entries[k].answer_hash.as_str(),
            answer,
        ) {
            return true;
        }
        k += 1;
    }
    false
}

/// Tallies the trials of one identity version: replays of an answer already
/// tallied do not count again.  The offline evidence gate needs at least
/// five distinct trials and no false positive; runtime activation is never
/// allowed from offline evidence alone.
pub fn summarize_authority_trials(
    entries: &Vec<AuthorityTrialLedgerEntry>,
    identity_version_hash: &str,
    rule_set_hash: &str,
) -> (r: AuthorityTrialReport)
    ensures
        ({
            let d = distinct_trials(entries@, identity_version_hash@, entries@.len() as int);
            &&& r.identity_version_hash@ == identity_version_hash@
            &&& r.rule_set_hash@ == rule_set_hash@
            &&& r.distinct_trial_count == d.len()
            &&& r.true_positives == count_outcome(d, AuthorityTrialOutcome::TruePositive)
            &&& r.true_negatives == count_outcome(d, AuthorityTrialOutcome::TrueNegative)
            &&& r.false_positives == count_outcome(d, AuthorityTrialOutcome::FalsePositive)
            &&& r.false_negatives == count_outcome(d, AuthorityTrialOutcome::FalseNegative)
            &&& r.offline_evidence_gate_satisfied == (d.len() >= MIN_AUTHORITY_TRIAL_CASES
                && count_outcome(d, AuthorityTrialOutcome::FalsePositive) == 0)
            &&& !r.runtime_activation_allowed
        }),
{
    let ghost id = identity_version_hash@;
    let mut distinct: usize = 0;
    let mut tp: usize = 0;
    let mut tn: usize = 0;
    let mut fp: usize = 0;
    let mut fneg: usize = 0;
    let mut i: usize = 0;
    while i < entries.len()
        invariant
            0 <= i <= entries@.len(),
            distinct == distinct_trials(entries@, id, i as int).len(),
            tp == count_outcome(
                distinct_trials(entries@, id, i as int),
                AuthorityTrialOutcome::TruePositive,
            ),
            tn == count_outcome(
                distinct_trials(entries@, id, i as int),
                AuthorityTrialOutcome::TrueNegative,
            ),
            fp == count_outcome(
                distinct_trials(entries@, id, i as int),
                AuthorityTrialOutcome::FalsePositive,
            ),
            fneg == count_outcome(
                distinct_trials(entries@, id, i as int),
                AuthorityTrialOutcome::FalseNegative,
            ),
            tp <= distinct,
            tn <= distinct,
            fp <= distinct,
            fneg <= distinct,
            id == identity_version_hash@,
        decreases entries.len() - i,
    {
        proof {
            lemma_distinct_len(entries@, id, i as int);
        }
        let e = &entries[i];
        if str_eq(e.identity_version_hash.as_str(), identity_version_hash) && !answer_seen_before(
            entries,
            identity_version_hash,
            e.answer_hash.as_str(),
            i,
        ) {
            let ghost before = distinct_trials(entries@, id, i as int);
            proof {
                assert(before.push(e.outcome).drop_last() =~= before);
            }
            distinct += 1;
            match e.outcome {
                AuthorityTrialOutcome::TruePositive => {
                    tp += 1;
                },
                AuthorityTrialOutcome::TrueNegative => {
                    tn += 1;
                },
                AuthorityTrialOutcome::FalsePositive => {
                    fp += 1;
                },
                AuthorityTrialOutcome::FalseNegative => {
                    fneg += 1;
                },
            }
        }
        i += 1;
    }
    AuthorityTrialReport {
        identity_version_hash: text::string_from(identity_version_hash),
        rule_set_hash: text::string_from(rule_set_hash),
        distinct_trial_count: distinct,
        true_positives: tp,
        true_negatives: tn,
        false_positives: fp,
        false_negatives: fneg,
        offline_evidence_gate_satisfied: distinct >= MIN_AUTHORITY_TRIAL_CASES && fp == 0,
        runtime_activation_allowed: false,
    }
}

proof fn lemma_distinct_prefix(
    entries: Seq<AuthorityTrialLedgerEntry>,
    e: AuthorityTrialLedgerEntry,
    identity: Seq<char>,
    n: int,
)
    requires
        0 <= n <= entries.len(),
    ensures
        distinct_trials(entries.push(e), identity, n) == distinct_trials(entries, identity, n),
    decreases n,
{
    if n > 0 {
        lemma_distinct_prefix(entries, e, identity, n - 1);
        let s = entries.push(e);
        assert(s[n - 1] == entries[n - 1]);
        assert(answer_seen(s, identity, entries[n - 1].answer_hash@, n - 1) == answer_seen(
            entries,
            identity,
            entries[n - 1].answer_hash@,
            n - 1,
        )) by {
            if answer_seen(s, identity, entries[n - 1].answer_hash@, n - 1) {
                let k = choose|k: int|
                    0 <= k < n - 1 && #[trigger] s[k].identity_version_hash@ == identity
                        && s[k].answer_hash@ == entries[n - 1].answer_hash@;
                assert(entries[k] == s[k]);
            }
            if answer_seen(entries, identity, entries[n - 1].answer_hash@, n - 1) {
                let k = choose|k: int|
                    0 <= k < n - 1 && #[trigger] entries[k].identity_version_hash@ == identity
                        && entries[k].answer_hash@ == entries[n - 1].answer_hash@;
                assert(entries[k] == s[k]);
            }
        }
    }
}

/// Replaying an answer already tallied for an identity adds no trial, and
/// an entry of another identity adds none either: the tally of the ledger
/// with the new entry is the tally without it.
pub proof fn lemma_replayed_answer_does_not_count(
    entries: Seq<AuthorityTrialLedgerEntry>,
    e: AuthorityTrialLedgerEntry,
    identity: Seq<char>,
)
    requires
        e.identity_version_hash@ != identity || answer_seen(
            entries,
            identity,
            e.answer_hash@,
            entries.len() as int,
        ),
    ensures
        distinct_trials(entries.push(e), identity, entries.len() + 1int) == distinct_trials(
            entries,
            identity,
            entries.len() as int,
        ),
{
    lemma_distinct_prefix(entries, e, identity, entries.len() as int);
    let s = entries.push(e);
    let n = entries.len() as int;
    if e.identity_version_hash@ == identity {
        let k = choose|k: int|
            0 <= k < n && #[trigger] entries[k].identity_version_hash@ == identity
                && entries[k].answer_hash@ == e.answer_hash@;
        assert(s[k] == entries[k]);
        assert(answer_seen(s, identity, s[n].answer_hash@, n));
    }
}

} // verus!
