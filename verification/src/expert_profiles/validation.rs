//! Strict validation of expert profiles and evaluation plans.
//!
//! Validation never stops at the first problem: it reports every issue, in
//! the order the record's fields are visited, each with a JSON path.
use vstd::prelude::*;

use crate::canonical;
use crate::canonical::{write_decimal, write_raw};
use crate::text;
use crate::text::{
    chars_of, push_str, str_is_blank, str_starts_with, string_from, to_lowercase, trim_string,
};
use crate::digest;
use vstd::utf8;

use super::hashing;
use super::hashing::hash_fixture_text;
use super::models::{
    EvalCase, EvalFixture, EvalPlan, ExpertProfileVersion, HardAssertion, MeetingPlaybook, OutputSection,
    SemanticAssertion, EVAL_PLAN_SCHEMA_VERSION, EXPERT_PROFILE_SCHEMA_VERSION,
};

verus! {

pub const MAX_JSON_BYTES: usize = 1048576;

pub const MAX_JSON_DEPTH: usize = 32;

pub const MAX_STRING_BYTES: usize = 16384;

pub const MAX_FIXTURE_BYTES: usize = 204800;

pub const MAX_OBJECTIVES: usize = 32;

pub const MAX_PLAYBOOKS: usize = 32;

pub const MAX_SECTIONS: usize = 32;

pub const MAX_CASES: usize = 64;

#[derive(Debug, Clone, Copy, PartialEq, Eq, Structural)]
pub enum ValidationErrorCode {
    EmptyEvalPlan,
    UnknownField,
    InvalidPlaybook,
    SchemaMismatch,
    LimitExceeded,
    InvalidReference,
    DuplicateValue,
    DigestMismatch,
}

impl ValidationErrorCode {
    /// The code as it is serialised (`SCREAMING_SNAKE_CASE`).
    pub fn as_str(self) -> (r: &'static str)
        ensures
            r@ == self.spec_name(),
    {
        match self {
            ValidationErrorCode::EmptyEvalPlan => "EMPTY_EVAL_PLAN",
            ValidationErrorCode::UnknownField => "UNKNOWN_FIELD",
            ValidationErrorCode::InvalidPlaybook => "INVALID_PLAYBOOK",
            ValidationErrorCode::SchemaMismatch => "SCHEMA_MISMATCH",
            ValidationErrorCode::LimitExceeded => "LIMIT_EXCEEDED",
            ValidationErrorCode::InvalidReference => "INVALID_REFERENCE",
            ValidationErrorCode::DuplicateValue => "DUPLICATE_VALUE",
            ValidationErrorCode::DigestMismatch => "DIGEST_MISMATCH",
        }
    }

    pub open spec fn spec_name(self) -> Seq<char> {
        match self {
            ValidationErrorCode::EmptyEvalPlan => "EMPTY_EVAL_PLAN"@,
            ValidationErrorCode::UnknownField => "UNKNOWN_FIELD"@,
            ValidationErrorCode::InvalidPlaybook => "INVALID_PLAYBOOK"@,
            ValidationErrorCode::SchemaMismatch => "SCHEMA_MISMATCH"@,
            ValidationErrorCode::LimitExceeded => "LIMIT_EXCEEDED"@,
            ValidationErrorCode::InvalidReference => "INVALID_REFERENCE"@,
            ValidationErrorCode::DuplicateValue => "DUPLICATE_VALUE"@,
            ValidationErrorCode::DigestMismatch => "DIGEST_MISMATCH"@,
        }
    }
}

/// One validation problem, located by a JSON path.
#[derive(Debug, Clone, PartialEq, Eq)]
pub struct ValidationError {
    pub code: ValidationErrorCode,
    pub path: String,
    pub message: String,
}

/// Every problem found in one record, in the order they were found.
#[derive(Debug, Clone, PartialEq, Eq)]
pub struct ValidationErrors(pub Vec<ValidationError>);

impl ValidationErrors {
    pub fn message(&self) -> (r: &'static str)
        ensures
            r@ == "expert profile validation failed"@,
    {
        "expert profile validation failed"
    }
}

/// A problem as a plain value: code, path and message.
pub type Issue = (ValidationErrorCode, Seq<char>, Seq<char>);

pub open spec fn issue_view(e: ValidationError) -> Issue {
    (e.code, e.path@, e.message@)
}

pub open spec fn issues_view(v: Seq<ValidationError>) -> Seq<Issue> {
    v.map_values(|e: ValidationError| issue_view(e))
}

/// The one-problem list when `b` holds, else no problem.
pub open spec fn issue_if(b: bool, code: ValidationErrorCode, path: Seq<char>, msg: Seq<char>) -> Seq<
    Issue,
> {
    if b {
        seq![(code, path, msg)]
    } else {
        Seq::empty()
    }
}

/// What validating a record returns for its list of problems.
pub open spec fn finish_rule(issues: Seq<Issue>, r: Result<(), ValidationErrors>) -> bool {
    match r {
        Ok(_) => issues.len() == 0,
        Err(e) => issues.len() > 0 && issues_view(e.0@) == issues,
    }
}

pub open spec fn byte_len(s: Seq<char>) -> nat {
    utf8::encode_utf8(s).len()
}

pub open spec fn limit_message(max: nat) -> Seq<char> {
    "value exceeds the phase-1 limit of "@ + canonical::decimal(max)
}

pub open spec fn indexed(path: Seq<char>, i: nat) -> Seq<char> {
    path + "["@ + canonical::decimal(i) + "]"@
}

pub open spec fn text_issues(path: Seq<char>, value: Seq<char>) -> Seq<Issue> {
    issue_if(text::is_blank(value), ValidationErrorCode::SchemaMismatch, path, "value cannot be empty"@)
        + issue_if(
        byte_len(value) > MAX_STRING_BYTES,
        ValidationErrorCode::LimitExceeded,
        path,
        limit_message(MAX_STRING_BYTES as nat),
    )
}

pub open spec fn identifier_char(c: char) -> bool {
    text::is_ascii_alnum(c) || c == '-' || c == '_'
}

pub open spec fn is_identifier_text(s: Seq<char>) -> bool {
    forall|i: int| 0 <= i < s.len() ==> #[trigger] identifier_char(s[i])
}

pub open spec fn identifier_issues(path: Seq<char>, value: Seq<char>) -> Seq<Issue> {
    text_issues(path, value) + issue_if(
        value.len() > 0 && !is_identifier_text(value),
        ValidationErrorCode::SchemaMismatch,
        path,
        "identifier may contain only ASCII letters, digits, '-' and '_'"@,
    )
}

pub open spec fn is_language_code(s: Seq<char>) -> bool {
    s.len() == 2 && forall|i: int| 0 <= i < s.len() ==> #[trigger] text::is_ascii_lower_letter(s[i])
}

pub open spec fn language_issues(path: Seq<char>, value: Seq<char>) -> Seq<Issue> {
    issue_if(
        !is_language_code(value),
        ValidationErrorCode::SchemaMismatch,
        path,
        "language must be a lowercase ISO 639-1 code"@,
    )
}

pub open spec fn text_item_issues(path: Seq<char>, values: Seq<String>, n: int) -> Seq<Issue>
    decreases n,
{
    if n <= 0 {
        Seq::empty()
    } else {
        text_item_issues(path, values, n - 1) + text_issues(
            indexed(path, (n - 1) as nat),
            values[n - 1]@,
        )
    }
}

pub open spec fn text_list_issues(path: Seq<char>, values: Seq<String>, max: nat) -> Seq<Issue> {
    issue_if(values.len() > max, ValidationErrorCode::LimitExceeded, path, limit_message(max))
        + text_item_issues(path, values, values.len() as int)
}

pub open spec fn non_empty_text_list_issues(path: Seq<char>, values: Seq<String>, max: nat) -> Seq<
    Issue,
> {
    issue_if(
        values.len() == 0,
        ValidationErrorCode::SchemaMismatch,
        path,
        "at least one value is required"@,
    ) + text_list_issues(path, values, max)
}

// ----------------------------------------------------------------------------
// Building the problem list
// ----------------------------------------------------------------------------
fn push_issue(
    errors: &mut Vec<ValidationError>,
    code: ValidationErrorCode,
    path: String,
    message: String,
)
    ensures
        issues_view(final(errors)@) == issues_view(old(errors)@) + seq![(code, path@, message@)],
{
    let ghost p = path@;
    let ghost m = message@;
    errors.push(ValidationError { code, path, message });
    proof {
        assert(issues_view(errors@) =~= issues_view(old(errors)@) + seq![(code, p, m)]);
    }
}

fn push_issue_str(
    errors: &mut Vec<ValidationError>,
    code: ValidationErrorCode,
    path: &str,
    message: &str,
)
    ensures
        issues_view(final(errors)@) == issues_view(old(errors)@) + seq![(code, path@, message@)],
{
    push_issue(errors, code, string_from(path), string_from(message));
}

fn limit_message_text(max: usize) -> (r: String)
    ensures
        r@ == limit_message(max as nat),
{
    let mut out = String::new();
    write_raw(&mut out, "value exceeds the phase-1 limit of ");
    write_decimal(&mut out, max as u64);
    out
}

fn push_limit_issue(errors: &mut Vec<ValidationError>, path: &str, max: usize)
    ensures
        issues_view(final(errors)@) == issues_view(old(errors)@) + seq![
            (ValidationErrorCode::LimitExceeded, path@, limit_message(max as nat)),
        ],
{
    push_issue(errors, ValidationErrorCode::LimitExceeded, string_from(path), limit_message_text(max));
}

pub fn indexed_path(path: &str, i: usize) -> (r: String)
    ensures
        r@ == indexed(path@, i as nat),
{
    let mut out = string_from(path);
    write_raw(&mut out, "[");
    write_decimal(&mut out, i as u64);
    write_raw(&mut out, "]");
    out
}

pub fn joined_path(path: &str, field: &str) -> (r: String)
    ensures
        r@ == path@ + field@,
{
    let mut out = string_from(path);
    push_str(&mut out, field);
    out
}

fn validate_text(errors: &mut Vec<ValidationError>, path: &str, value: &str)
    ensures
        issues_view(final(errors)@) == issues_view(old(errors)@) + text_issues(path@, value@),
{
    let ghost start = issues_view(errors@);
    if str_is_blank(value) {
        push_issue_str(errors, ValidationErrorCode::SchemaMismatch, path, "value cannot be empty");
    }
    if value.as_bytes().len() > MAX_STRING_BYTES {
        push_limit_issue(errors, path, MAX_STRING_BYTES);
    }
    proof {
        assert(issues_view(errors@) =~= start + text_issues(path@, value@));
    }
}

fn is_identifier_chars(v: &Vec<char>) -> (b: bool)
    ensures
        b == is_identifier_text(v@),
{
    let mut i: usize = 0;
    while i < v.len()
        invariant
            0 <= i <= v@.len(),
            forall|k: int| 0 <= k < i ==> #[trigger] identifier_char(v@[k]),
        decreases v.len() - i,
    {
        let c = v[i];
        let ok = ('a' <= c && c <= 'z') || ('A' <= c && c <= 'Z') || ('0' <= c && c <= '9') || c
            == '-' || c == '_';
        if !ok {
            assert(!identifier_char(v@[i as int]));
            return false;
        }
        i += 1;
    }
    true
}

fn validate_identifier(errors: &mut Vec<ValidationError>, path: &str, value: &str)
    ensures
        issues_view(final(errors)@) == issues_view(old(errors)@) + identifier_issues(path@, value@),
{
    let ghost start = issues_view(errors@);
    validate_text(errors, path, value);
    let chars = chars_of(value);
    if chars.len() > 0 && !is_identifier_chars(&chars) {
        push_issue_str(
            errors,
            ValidationErrorCode::SchemaMismatch,
            path,
            "identifier may contain only ASCII letters, digits, '-' and '_'",
        );
    }
    proof {
        assert(issues_view(errors@) =~= start + identifier_issues(path@, value@));
    }
}

fn validate_language(errors: &mut Vec<ValidationError>, path: &str, value: &str)
    ensures
        issues_view(final(errors)@) == issues_view(old(errors)@) + language_issues(path@, value@),
{
    let ghost start = issues_view(errors@);
    let chars = chars_of(value);
    let mut ok = chars.len() == 2;
    let mut i: usize = 0;
    while ok && i < chars.len()
        invariant
            0 <= i <= chars@.len(),
            chars@ == value@,
            ok ==> chars@.len() == 2,
            ok ==> forall|k: int| 0 <= k < i ==> #[trigger] text::is_ascii_lower_letter(chars@[k]),
            !ok ==> !is_language_code(value@),
        decreases chars.len() - i,
    {
        let c = chars[i];
        if !('a' <= c && c <= 'z') {
            assert(!text::is_ascii_lower_letter(value@[i as int]));
            ok = false;
        }
        i += 1;
    }
    if !ok {
        push_issue_str(
            errors,
            ValidationErrorCode::SchemaMismatch,
            path,
            "language must be a lowercase ISO 639-1 code",
        );
    }
    proof {
        assert(issues_view(errors@) =~= start + language_issues(path@, value@));
    }
}

fn validate_text_list(errors: &mut Vec<ValidationError>, path: &str, values: &Vec<String>, max: usize)
    ensures
        issues_view(final(errors)@) == issues_view(old(errors)@) + text_list_issues(
            path@,
            values@,
            max as nat,
        ),
{
    let ghost start = issues_view(errors@);
    if values.len() > max {
        push_limit_issue(errors, path, max);
    }
    let ghost head = issues_view(errors@);
    let mut i: usize = 0;
    while i < values.len()
        invariant
            0 <= i <= values@.len(),
            issues_view(errors@) == head + text_item_issues(path@, values@, i as int),
        decreases values.len() - i,
    {
        let item_path = indexed_path(path, i);
        validate_text(errors, item_path.as_str(), values[i].as_str());
        proof {
            assert(issues_view(errors@) =~= head + text_item_issues(path@, values@, i + 1));
        }
        i += 1;
    }
    proof {
        assert(issues_view(errors@) =~= start + text_list_issues(path@, values@, max as nat));
    }
}

fn validate_non_empty_text_list(
    errors: &mut Vec<ValidationError>,
    path: &str,
    values: &Vec<String>,
    max: usize,
)
    ensures
        issues_view(final(errors)@) == issues_view(old(errors)@) + non_empty_text_list_issues(
            path@,
            values@,
            max as nat,
        ),
{
    let ghost start = issues_view(errors@);
    if values.len() == 0 {
        push_issue_str(
            errors,
            ValidationErrorCode::SchemaMismatch,
            path,
            "at least one value is required",
        );
    }
    validate_text_list(errors, path, values, max);
    proof {
        assert(issues_view(errors@) =~= start + non_empty_text_list_issues(
            path@,
            values@,
            max as nat,
        ));
    }
}

fn finish(errors: Vec<ValidationError>) -> (r: Result<(), ValidationErrors>)
    ensures
        finish_rule(issues_view(errors@), r),
{
    if errors.len() == 0 {
        Ok(())
    } else {
        Err(ValidationErrors(errors))
    }
}

// ----------------------------------------------------------------------------
// Sections
// ----------------------------------------------------------------------------
/// Titles are compared trimmed and lower-cased.
pub open spec fn normalized_title(t: Seq<char>) -> Seq<char> {
    text::unicode_lowercase(text::trim(t))
}

/// The `i`-th value equals an earlier one.
pub open spec fn repeats_earlier(v: Seq<Seq<char>>, i: int) -> bool {
    exists|j: int| 0 <= j < i && #[trigger] v[j] == v[i]
}

pub open spec fn section_ids(s: Seq<OutputSection>) -> Seq<Seq<char>> {
    s.map_values(|x: OutputSection| x.id@)
}

pub open spec fn section_titles(s: Seq<OutputSection>) -> Seq<Seq<char>> {
    s.map_values(|x: OutputSection| normalized_title(x.title@))
}

pub open spec fn section_issue(path: Seq<char>, secs: Seq<OutputSection>, i: int) -> Seq<Issue> {
    let sp = indexed(path, i as nat);
    identifier_issues(sp + ".id"@, secs[i].id@) + text_issues(sp + ".title"@, secs[i].title@)
        + text_issues(sp + ".instruction"@, secs[i].instruction@) + issue_if(
        repeats_earlier(section_ids(secs), i),
        ValidationErrorCode::DuplicateValue,
        sp + ".id"@,
        "section IDs must be unique"@,
    ) + issue_if(
        repeats_earlier(section_titles(secs), i),
        ValidationErrorCode::DuplicateValue,
        sp + ".title"@,
        "section titles must be unique"@,
    )
}

pub open spec fn section_item_issues(path: Seq<char>, secs: Seq<OutputSection>, n: int) -> Seq<
    Issue,
>
    decreases n,
{
    if n <= 0 {
        Seq::empty()
    } else {
        section_item_issues(path, secs, n - 1) + section_issue(path, secs, n - 1)
    }
}

pub open spec fn sections_issues(path: Seq<char>, secs: Seq<OutputSection>, require_non_empty: bool) -> Seq<
    Issue,
> {
    issue_if(
        require_non_empty && secs.len() == 0,
        ValidationErrorCode::SchemaMismatch,
        path,
        "at least one output section is required"@,
    ) + issue_if(
        secs.len() > MAX_SECTIONS,
        ValidationErrorCode::LimitExceeded,
        path,
        limit_message(MAX_SECTIONS as nat),
    ) + section_item_issues(path, secs, secs.len() as int)
}

fn push_section_ids(out: &mut Vec<String>, secs: &Vec<OutputSection>)
    ensures
        canonical::string_views(final(out)@) == canonical::string_views(old(out)@) + section_ids(
            secs@,
        ),
{
    let ghost start = canonical::string_views(out@);
    let mut i: usize = 0;
    while i < secs.len()
        invariant
            0 <= i <= secs@.len(),
            canonical::string_views(out@) == start + section_ids(secs@.subrange(0, i as int)),
        decreases secs.len() - i,
    {
        let ghost prev = out@;
        out.push(secs[i].id.clone());
        proof {
            assert(canonical::string_views(out@) =~= canonical::string_views(prev).push(
                secs@[i as int].id@,
            ));
            assert(section_ids(secs@.subrange(0, i + 1)) =~= section_ids(secs@.subrange(0, i as int)).push(
                secs@[i as int].id@,
            ));
            assert(canonical::string_views(out@) =~= start + section_ids(secs@.subrange(0, i + 1)));
        }
        i += 1;
    }
    proof {
        assert(secs@.subrange(0, secs@.len() as int) =~= secs@);
    }
}

fn push_section_titles(out: &mut Vec<String>, secs: &Vec<OutputSection>)
    ensures
        canonical::string_views(final(out)@) == canonical::string_views(old(out)@)
            + section_titles(secs@),
{
    let ghost start = canonical::string_views(out@);
    let mut i: usize = 0;
    while i < secs.len()
        invariant
            0 <= i <= secs@.len(),
            canonical::string_views(out@) == start + section_titles(secs@.subrange(0, i as int)),
        decreases secs.len() - i,
    {
        let trimmed = trim_string(secs[i].title.as_str());
        let ghost prev = out@;
        let lowered = to_lowercase(trimmed.as_str());
        out.push(lowered);
        proof {
            assert(canonical::string_views(out@) =~= canonical::string_views(prev).push(
                normalized_title(secs@[i as int].title@),
            ));
            assert(section_titles(secs@.subrange(0, i + 1)) =~= section_titles(
                secs@.subrange(0, i as int),
            ).push(normalized_title(secs@[i as int].title@)));
            assert(canonical::string_views(out@) =~= start + section_titles(
                secs@.subrange(0, i + 1),
            ));
        }
        i += 1;
    }
    proof {
        assert(secs@.subrange(0, secs@.len() as int) =~= secs@);
    }
}

fn repeats_before(v: &Vec<String>, i: usize) -> (r: bool)
    requires
        i < v@.len(),
    ensures
        r == repeats_earlier(canonical::string_views(v@), i as int),
{
    let ghost vs = canonical::string_views(v@);
    let mut j: usize = 0;
    while j < i
        invariant
            i < v@.len(),
            vs == canonical::string_views(v@),
            0 <= j <= i,
            forall|k: int| 0 <= k < j ==> #[trigger] vs[k] != vs[i as int],
        decreases i - j,
    {
        if v[j] == v[i] {
            assert(vs[j as int] == vs[i as int]);
            return true;
        }
        j += 1;
    }
    false
}

#[verifier::spinoff_prover]
#[verifier::rlimit(50)]
fn validate_section_at(
    errors: &mut Vec<ValidationError>,
    path: &str,
    sections: &Vec<OutputSection>,
    ids: &Vec<String>,
    titles: &Vec<String>,
    i: usize,
)
    requires
        i < sections@.len(),
        canonical::string_views(ids@) == section_ids(sections@),
        canonical::string_views(titles@) == section_titles(sections@),
    ensures
        issues_view(final(errors)@) == issues_view(old(errors)@) + section_issue(
            path@,
            sections@,
            i as int,
        ),
{
    let ghost before = issues_view(errors@);
    let ghost sp = indexed(path@, i as nat);
    let ghost sec = sections@[i as int];
    let section_path = indexed_path(path, i);
    let id_path = joined_path(section_path.as_str(), ".id");
    validate_identifier(errors, id_path.as_str(), sections[i].id.as_str());
    let title_path = joined_path(section_path.as_str(), ".title");
    validate_text(errors, title_path.as_str(), sections[i].title.as_str());
    let instruction_path = joined_path(section_path.as_str(), ".instruction");
    validate_text(errors, instruction_path.as_str(), sections[i].instruction.as_str());
    let ghost mid = issues_view(errors@);
    assert(mid == before + identifier_issues(sp + ".id"@, sec.id@) + text_issues(
        sp + ".title"@,
        sec.title@,
    ) + text_issues(sp + ".instruction"@, sec.instruction@));
    proof {
        assert(canonical::string_views(ids@).len() == ids@.len());
        assert(canonical::string_views(titles@).len() == titles@.len());
    }
    let dup_id = repeats_before(ids, i);
    if dup_id {
        push_issue_str(
            errors,
            ValidationErrorCode::DuplicateValue,
            id_path.as_str(),
            "section IDs must be unique",
        );
    }
    let ghost mid2 = issues_view(errors@);
    assert(mid2 == mid + issue_if(
        dup_id,
        ValidationErrorCode::DuplicateValue,
        sp + ".id"@,
        "section IDs must be unique"@,
    ));
    let dup_title = repeats_before(titles, i);
    if dup_title {
        push_issue_str(
            errors,
            ValidationErrorCode::DuplicateValue,
            title_path.as_str(),
            "section titles must be unique",
        );
    }
    assert(issues_view(errors@) == mid2 + issue_if(
        dup_title,
        ValidationErrorCode::DuplicateValue,
        sp + ".title"@,
        "section titles must be unique"@,
    ));
    proof {
        assert(issues_view(errors@) =~= before + section_issue(path@, sections@, i as int));
    }
}

#[verifier::spinoff_prover]
#[verifier::rlimit(50)]
fn validate_sections(
    errors: &mut Vec<ValidationError>,
    path: &str,
    sections: &Vec<OutputSection>,
    require_non_empty: bool,
)
    ensures
        issues_view(final(errors)@) == issues_view(old(errors)@) + sections_issues(
            path@,
            sections@,
            require_non_empty,
        ),
{
    let ghost start = issues_view(errors@);
    if require_non_empty && sections.len() == 0 {
        push_issue_str(
            errors,
            ValidationErrorCode::SchemaMismatch,
            path,
            "at least one output section is required",
        );
    }
    if sections.len() > MAX_SECTIONS {
        push_limit_issue(errors, path, MAX_SECTIONS);
    }
    let mut ids: Vec<String> = Vec::new();
    push_section_ids(&mut ids, sections);
    let mut titles: Vec<String> = Vec::new();
    push_section_titles(&mut titles, sections);
    proof {
        assert(canonical::string_views(ids@) =~= section_ids(sections@));
        assert(canonical::string_views(titles@) =~= section_titles(sections@));
    }
    let ghost head = issues_view(errors@);
    let mut i: usize = 0;
    while i < sections.len()
        invariant
            0 <= i <= sections@.len(),
            canonical::string_views(ids@) == section_ids(sections@),
            canonical::string_views(titles@) == section_titles(sections@),
            issues_view(errors@) == head + section_item_issues(path@, sections@, i as int),
        decreases sections.len() - i,
    {
        validate_section_at(errors, path, sections, &ids, &titles, i);
        proof {
            assert(issues_view(errors@) =~= head + section_item_issues(path@, sections@, i + 1));
        }
        i += 1;
    }
    proof {
        assert(issues_view(errors@) =~= start + sections_issues(path@, sections@, require_non_empty));
    }
}

// ----------------------------------------------------------------------------
// Profiles
// ----------------------------------------------------------------------------
/// The sections a playbook renders: the profile's own, then the playbook's.
pub open spec fn combined_sections(p: ExpertProfileVersion, pb: MeetingPlaybook) -> Seq<OutputSection> {
    p.output_contract.sections@ + pb.sections@
}

pub open spec fn rendered_issue(pp: Seq<char>, comb: Seq<OutputSection>, k: int) -> Seq<Issue> {
    issue_if(
        repeats_earlier(section_ids(comb), k),
        ValidationErrorCode::DuplicateValue,
        pp + ".sections"@,
        "section ID '"@ + comb[k].id@ + "' is duplicated in the rendered output"@,
    ) + issue_if(
        repeats_earlier(section_titles(comb), k),
        ValidationErrorCode::DuplicateValue,
        pp + ".sections"@,
        "section title '"@ + comb[k].title@ + "' is duplicated in the rendered output"@,
    )
}

pub open spec fn rendered_item_issues(pp: Seq<char>, comb: Seq<OutputSection>, n: int) -> Seq<Issue>
    decreases n,
{
    if n <= 0 {
        Seq::empty()
    } else {
        rendered_item_issues(pp, comb, n - 1) + rendered_issue(pp, comb, n - 1)
    }
}

pub open spec fn playbook_id_repeats(pbs: Seq<MeetingPlaybook>, i: int) -> bool {
    exists|j: int| 0 <= j < i && #[trigger] pbs[j].id == pbs[i].id
}

pub open spec fn playbook_issue(p: ExpertProfileVersion, i: int) -> Seq<Issue> {
    let pb = p.playbooks@[i];
    let pp = indexed("$.playbooks"@, i as nat);
    let comb = combined_sections(p, pb);
    issue_if(
        playbook_id_repeats(p.playbooks@, i),
        ValidationErrorCode::DuplicateValue,
        pp + ".id"@,
        "playbook IDs must be unique within a profile"@,
    ) + text_issues(pp + ".name"@, pb.name@) + text_issues(pp + ".description"@, pb.description@)
        + text_issues(pp + ".objective"@, pb.objective@) + sections_issues(
        pp + ".sections"@,
        pb.sections@,
        false,
    ) + rendered_item_issues(pp, comb, comb.len() as int)
}

pub open spec fn playbook_item_issues(p: ExpertProfileVersion, n: int) -> Seq<Issue>
    decreases n,
{
    if n <= 0 {
        Seq::empty()
    } else {
        playbook_item_issues(p, n - 1) + playbook_issue(p, n - 1)
    }
}

/// Every problem of a profile, in the order validation reports them.
pub closed spec fn profile_issues(p: ExpertProfileVersion) -> Seq<Issue> {
    profile_head_issues(p) + profile_boundary_issues(p) + profile_playbooks_issues(p)
}

/// The problems of a profile are those of its head fields, then of its
/// boundaries and output contract, then of its playbooks.
pub proof fn lemma_profile_issues_parts(p: ExpertProfileVersion)
    ensures
        profile_issues(p) == profile_head_issues(p) + profile_boundary_issues(p)
            + profile_playbooks_issues(p),
{
}

fn quoted_message(prefix: &str, value: &str, suffix: &str) -> (r: String)
    ensures
        r@ == prefix@ + value@ + suffix@,
{
    let mut out = string_from(prefix);
    push_str(&mut out, value);
    push_str(&mut out, suffix);
    out
}

#[verifier::spinoff_prover]
#[verifier::rlimit(50)]
fn validate_rendered_at(
    errors: &mut Vec<ValidationError>,
    pp: &str,
    profile: &ExpertProfileVersion,
    pb: &MeetingPlaybook,
    ids: &Vec<String>,
    titles: &Vec<String>,
    k: usize,
)
    requires
        k < combined_sections(*profile, *pb).len(),
        canonical::string_views(ids@) == section_ids(combined_sections(*profile, *pb)),
        canonical::string_views(titles@) == section_titles(combined_sections(*profile, *pb)),
    ensures
        issues_view(final(errors)@) == issues_view(old(errors)@) + rendered_issue(
            pp@,
            combined_sections(*profile, *pb),
            k as int,
        ),
{
    let ghost before = issues_view(errors@);
    let ghost comb = combined_sections(*profile, *pb);
    let n1 = profile.output_contract.sections.len();
    let section = if k < n1 {
        &profile.output_contract.sections[k]
    } else {
        &pb.sections[k - n1]
    };
    assert(*section == comb[k as int]);
    proof {
        assert(canonical::string_views(ids@).len() == ids@.len());
        assert(canonical::string_views(titles@).len() == titles@.len());
    }
    let sections_path = joined_path(pp, ".sections");
    let dup_id = repeats_before(ids, k);
    if dup_id {
        let message = quoted_message(
            "section ID '",
            section.id.as_str(),
            "' is duplicated in the rendered output",
        );
        push_issue(errors, ValidationErrorCode::DuplicateValue, string_from(sections_path.as_str()), message);
    }
    let ghost mid = issues_view(errors@);
    assert(mid == before + issue_if(
        dup_id,
        ValidationErrorCode::DuplicateValue,
        pp@ + ".sections"@,
        "section ID '"@ + comb[k as int].id@ + "' is duplicated in the rendered output"@,
    ));
    let dup_title = repeats_before(titles, k);
    if dup_title {
        let message = quoted_message(
            "section title '",
            section.title.as_str(),
            "' is duplicated in the rendered output",
        );
        push_issue(errors, ValidationErrorCode::DuplicateValue, sections_path, message);
    }
    proof {
        assert(issues_view(errors@) =~= before + rendered_issue(pp@, comb, k as int));
    }
}

pub open spec fn playbook_field_issues(p: ExpertProfileVersion, i: int) -> Seq<Issue> {
    let pb = p.playbooks@[i];
    let pp = indexed("$.playbooks"@, i as nat);
    issue_if(
        playbook_id_repeats(p.playbooks@, i),
        ValidationErrorCode::DuplicateValue,
        pp + ".id"@,
        "playbook IDs must be unique within a profile"@,
    ) + text_issues(pp + ".name"@, pb.name@) + text_issues(pp + ".description"@, pb.description@)
        + text_issues(pp + ".objective"@, pb.objective@) + sections_issues(
        pp + ".sections"@,
        pb.sections@,
        false,
    )
}

#[verifier::spinoff_prover]
#[verifier::rlimit(50)]
fn validate_playbook_fields(
    errors: &mut Vec<ValidationError>,
    profile: &ExpertProfileVersion,
    i: usize,
    pp: &str,
)
    requires
        i < profile.playbooks@.len(),
        pp@ == indexed("$.playbooks"@, i as nat),
    ensures
        issues_view(final(errors)@) == issues_view(old(errors)@) + playbook_field_issues(
            *profile,
            i as int,
        ),
{
    let ghost before = issues_view(errors@);
    let pb = &profile.playbooks[i];
    let mut repeated = false;
    let mut j: usize = 0;
    while j < i
        invariant
            i < profile.playbooks@.len(),
            *pb == profile.playbooks@[i as int],
            0 <= j <= i,
            repeated == exists|q: int| 0 <= q < j && #[trigger] profile.playbooks@[q].id == pb.id,
        decreases i - j,
    {
        if profile.playbooks[j].id == pb.id {
            repeated = true;
        }
        j += 1;
    }
    if repeated {
        let id_path = joined_path(pp, ".id");
        push_issue_str(
            errors,
            ValidationErrorCode::DuplicateValue,
            id_path.as_str(),
            "playbook IDs must be unique within a profile",
        );
    }
    let name_path = joined_path(pp, ".name");
    validate_text(errors, name_path.as_str(), pb.name.as_str());
    let description_path = joined_path(pp, ".description");
    validate_text(errors, description_path.as_str(), pb.description.as_str());
    let objective_path = joined_path(pp, ".objective");
    validate_text(errors, objective_path.as_str(), pb.objective.as_str());
    let sections_path = joined_path(pp, ".sections");
    validate_sections(errors, sections_path.as_str(), &pb.sections, false);
    proof {
        assert(issues_view(errors@) =~= before + playbook_field_issues(*profile, i as int));
    }
}

#[verifier::spinoff_prover]
#[verifier::rlimit(50)]
fn validate_rendered(
    errors: &mut Vec<ValidationError>,
    pp: &str,
    profile: &ExpertProfileVersion,
    pb: &MeetingPlaybook,
)
    ensures
        issues_view(final(errors)@) == issues_view(old(errors)@) + rendered_item_issues(
            pp@,
            combined_sections(*profile, *pb),
            combined_sections(*profile, *pb).len() as int,
        ),
{
    let ghost before = issues_view(errors@);
    let ghost comb = combined_sections(*profile, *pb);
    let mut ids: Vec<String> = Vec::new();
    push_section_ids(&mut ids, &profile.output_contract.sections);
    push_section_ids(&mut ids, &pb.sections);
    let mut titles: Vec<String> = Vec::new();
    push_section_titles(&mut titles, &profile.output_contract.sections);
    push_section_titles(&mut titles, &pb.sections);
    proof {
        assert(canonical::string_views(Seq::<String>::empty()) =~= Seq::<Seq<char>>::empty());
        assert(section_ids(comb) =~= section_ids(profile.output_contract.sections@) + section_ids(
            pb.sections@,
        ));
        assert(section_titles(comb) =~= section_titles(profile.output_contract.sections@)
            + section_titles(pb.sections@));
        assert(canonical::string_views(ids@) =~= section_ids(comb));
        assert(canonical::string_views(titles@) =~= section_titles(comb));
        assert(canonical::string_views(ids@).len() == ids@.len());
    }
    let total = ids.len();
    let mut k: usize = 0;
    while k < total
        invariant
            total == comb.len(),
            comb == combined_sections(*profile, *pb),
            0 <= k <= total,
            canonical::string_views(ids@) == section_ids(comb),
            canonical::string_views(titles@) == section_titles(comb),
            issues_view(errors@) == before + rendered_item_issues(pp@, comb, k as int),
        decreases total - k,
    {
        validate_rendered_at(errors, pp, profile, pb, &ids, &titles, k);
        proof {
            assert(issues_view(errors@) =~= before + rendered_item_issues(pp@, comb, k + 1));
        }
        k += 1;
    }
}

fn validate_playbook_at(errors: &mut Vec<ValidationError>, profile: &ExpertProfileVersion, i: usize)
    requires
        i < profile.playbooks@.len(),
    ensures
        issues_view(final(errors)@) == issues_view(old(errors)@) + playbook_issue(*profile, i as int),
{
    let ghost before = issues_view(errors@);
    let pp = indexed_path("$.playbooks", i);
    validate_playbook_fields(errors, profile, i, pp.as_str());
    validate_rendered(errors, pp.as_str(), profile, &profile.playbooks[i]);
    proof {
        assert(issues_view(errors@) =~= before + playbook_issue(*profile, i as int));
    }
}

pub open spec fn profile_head_issues(p: ExpertProfileVersion) -> Seq<Issue> {
    issue_if(
        p.schema_version != EXPERT_PROFILE_SCHEMA_VERSION,
        ValidationErrorCode::SchemaMismatch,
        "$.schema_version"@,
        "expected schema version "@ + canonical::decimal(EXPERT_PROFILE_SCHEMA_VERSION as nat)
            + ", got "@ + canonical::decimal(p.schema_version as nat),
    ) + text_issues("$.identity.name"@, p.identity.name@) + text_issues(
        "$.identity.description"@,
        p.identity.description@,
    ) + non_empty_text_list_issues(
        "$.identity.expertise"@,
        p.identity.expertise@,
        MAX_OBJECTIVES as nat,
    ) + non_empty_text_list_issues("$.objectives"@, p.objectives@, MAX_OBJECTIVES as nat)
        + text_issues("$.perspective"@, p.perspective@) + text_issues("$.style.tone"@, p.style.tone@)
        + text_issues("$.style.verbosity"@, p.style.verbosity@) + language_issues(
        "$.style.language"@,
        p.style.language@,
    )
}

pub open spec fn profile_boundary_issues(p: ExpertProfileVersion) -> Seq<Issue> {
    text_list_issues("$.boundaries.in_scope"@, p.boundaries.in_scope@, MAX_OBJECTIVES as nat)
        + text_list_issues(
        "$.boundaries.out_of_scope"@,
        p.boundaries.out_of_scope@,
        MAX_OBJECTIVES as nat,
    ) + text_list_issues(
        "$.boundaries.abstain_when"@,
        p.boundaries.abstain_when@,
        MAX_OBJECTIVES as nat,
    ) + text_issues("$.boundaries.escalation_policy"@, p.boundaries.escalation_policy@)
        + sections_issues("$.output_contract.sections"@, p.output_contract.sections@, true)
}

pub open spec fn profile_playbooks_issues(p: ExpertProfileVersion) -> Seq<Issue> {
    issue_if(
        p.playbooks@.len() == 0,
        ValidationErrorCode::InvalidPlaybook,
        "$.playbooks"@,
        "at least one embedded playbook is required"@,
    ) + issue_if(
        p.playbooks@.len() > MAX_PLAYBOOKS,
        ValidationErrorCode::LimitExceeded,
        "$.playbooks"@,
        limit_message(MAX_PLAYBOOKS as nat),
    ) + playbook_item_issues(p, p.playbooks@.len() as int)
}

fn schema_message(actual: u32) -> (r: String)
    ensures
        r@ == "expected schema version "@ + canonical::decimal(EXPERT_PROFILE_SCHEMA_VERSION as nat)
            + ", got "@ + canonical::decimal(actual as nat),
{
    let mut out = String::new();
    write_raw(&mut out, "expected schema version ");
    write_decimal(&mut out, EXPERT_PROFILE_SCHEMA_VERSION as u64);
    write_raw(&mut out, ", got ");
    write_decimal(&mut out, actual as u64);
    out
}

fn plan_schema_message_string(actual: u32) -> (r: String)
    ensures
        r@ == plan_schema_message(actual),
{
    let mut out = String::new();
    write_raw(&mut out, "expected schema version ");
    write_decimal(&mut out, EXPERT_PROFILE_SCHEMA_VERSION as u64);
    write_raw(&mut out, " or ");
    write_decimal(&mut out, EVAL_PLAN_SCHEMA_VERSION as u64);
    write_raw(&mut out, ", got ");
    write_decimal(&mut out, actual as u64);
    out
}

#[verifier::spinoff_prover]
#[verifier::rlimit(100)]
fn validate_profile_head(errors: &mut Vec<ValidationError>, p: &ExpertProfileVersion)
    ensures
        issues_view(final(errors)@) == issues_view(old(errors)@) + profile_head_issues(*p),
{
    let ghost before = issues_view(errors@);
    if p.schema_version != EXPERT_PROFILE_SCHEMA_VERSION {
        push_issue(
            errors,
            ValidationErrorCode::SchemaMismatch,
            string_from("$.schema_version"),
            schema_message(p.schema_version),
        );
    }
    validate_text(errors, "$.identity.name", p.identity.name.as_str());
    validate_text(errors, "$.identity.description", p.identity.description.as_str());
    validate_non_empty_text_list(errors, "$.identity.expertise", &p.identity.expertise, MAX_OBJECTIVES);
    validate_non_empty_text_list(errors, "$.objectives", &p.objectives, MAX_OBJECTIVES);
    validate_text(errors, "$.perspective", p.perspective.as_str());
    validate_text(errors, "$.style.tone", p.style.tone.as_str());
    validate_text(errors, "$.style.verbosity", p.style.verbosity.as_str());
    validate_language(errors, "$.style.language", p.style.language.as_str());
    proof {
        assert(issues_view(errors@) =~= before + profile_head_issues(*p));
    }
}

#[verifier::spinoff_prover]
fn validate_profile_boundaries(errors: &mut Vec<ValidationError>, p: &ExpertProfileVersion)
    ensures
        issues_view(final(errors)@) == issues_view(old(errors)@) + profile_boundary_issues(*p),
{
    let ghost before = issues_view(errors@);
    validate_text_list(errors, "$.boundaries.in_scope", &p.boundaries.in_scope, MAX_OBJECTIVES);
    validate_text_list(errors, "$.boundaries.out_of_scope", &p.boundaries.out_of_scope, MAX_OBJECTIVES);
    validate_text_list(errors, "$.boundaries.abstain_when", &p.boundaries.abstain_when, MAX_OBJECTIVES);
    validate_text(errors, "$.boundaries.escalation_policy", p.boundaries.escalation_policy.as_str());
    validate_sections(errors, "$.output_contract.sections", &p.output_contract.sections, true);
    proof {
        assert(issues_view(errors@) =~= before + profile_boundary_issues(*p));
    }
}

#[verifier::spinoff_prover]
fn validate_profile_playbooks(errors: &mut Vec<ValidationError>, p: &ExpertProfileVersion)
    ensures
        issues_view(final(errors)@) == issues_view(old(errors)@) + profile_playbooks_issues(*p),
{
    let ghost before = issues_view(errors@);
    if p.playbooks.len() == 0 {
        push_issue_str(
            errors,
            ValidationErrorCode::InvalidPlaybook,
            "$.playbooks",
            "at least one embedded playbook is required",
        );
    }
    if p.playbooks.len() > MAX_PLAYBOOKS {
        push_limit_issue(errors, "$.playbooks", MAX_PLAYBOOKS);
    }
    let ghost head = issues_view(errors@);
    let mut i: usize = 0;
    while i < p.playbooks.len()
        invariant
            0 <= i <= p.playbooks@.len(),
            issues_view(errors@) == head + playbook_item_issues(*p, i as int),
        decreases p.playbooks.len() - i,
    {
        validate_playbook_at(errors, p, i);
        proof {
            assert(issues_view(errors@) =~= head + playbook_item_issues(*p, i + 1));
        }
        i += 1;
    }
    proof {
        assert(issues_view(errors@) =~= before + profile_playbooks_issues(*p));
    }
}

/// Records that check themselves and report every problem they find.
pub trait Validate {
    fn validate(&self) -> (r: Result<(), ValidationErrors>);
}

impl Validate for ExpertProfileVersion {
    /// Every problem of the profile, in field order; `Ok` exactly when there
    /// is none.
    fn validate(&self) -> (r: Result<(), ValidationErrors>)
        ensures
            finish_rule(profile_issues(*self), r),
    {
        let mut errors: Vec<ValidationError> = Vec::new();
        validate_profile_head(&mut errors, self);
        validate_profile_boundaries(&mut errors, self);
        validate_profile_playbooks(&mut errors, self);
        proof {
            assert(issues_view(Seq::<ValidationError>::empty()) =~= Seq::<Issue>::empty());
            assert(issues_view(errors@) =~= profile_issues(*self));
        }
        finish(errors)
    }
}

// ----------------------------------------------------------------------------
// Evaluation plans
// ----------------------------------------------------------------------------
pub open spec fn fixture_digest(text: Seq<char>) -> Seq<char> {
    digest::domain_digest(utf8::encode_utf8(hashing::FIXTURE_HASH_DOMAIN@), utf8::encode_utf8(text))
}

pub open spec fn fixture_ids(v: Seq<EvalFixture>) -> Seq<Seq<char>> {
    v.map_values(|f: EvalFixture| f.id@)
}

pub open spec fn case_ids(v: Seq<EvalCase>) -> Seq<Seq<char>> {
    v.map_values(|c: EvalCase| c.id@)
}

pub open spec fn fixture_source_issues(fp: Seq<char>, f: EvalFixture) -> Seq<Issue> {
    identifier_issues(fp + ".id"@, f.id@) + text_issues(fp + ".source"@, f.source@) + issue_if(
        !text::starts_with(f.source@, "synthetic:"@),
        ValidationErrorCode::SchemaMismatch,
        fp + ".source"@,
        "phase-1 evaluation fixtures must declare a synthetic: source"@,
    )
}

pub open spec fn fixture_content_issues(fixtures: Seq<EvalFixture>, i: int) -> Seq<Issue> {
    let f = fixtures[i];
    let fp = indexed("$.fixtures"@, i as nat);
    issue_if(
        text::is_blank(f.transcript_text@),
        ValidationErrorCode::EmptyEvalPlan,
        fp + ".transcript_text"@,
        "fixture transcript cannot be empty"@,
    ) + issue_if(
        byte_len(f.transcript_text@) > MAX_FIXTURE_BYTES,
        ValidationErrorCode::LimitExceeded,
        fp + ".transcript_text"@,
        limit_message(MAX_FIXTURE_BYTES as nat),
    ) + issue_if(
        repeats_earlier(fixture_ids(fixtures), i),
        ValidationErrorCode::DuplicateValue,
        fp + ".id"@,
        "fixture IDs must be unique"@,
    ) + issue_if(
        f.content_hash@ != fixture_digest(f.transcript_text@),
        ValidationErrorCode::DigestMismatch,
        fp + ".content_hash"@,
        "fixture content hash does not match transcript_text"@,
    )
}

pub open spec fn fixture_issue(fixtures: Seq<EvalFixture>, i: int) -> Seq<Issue> {
    fixture_source_issues(indexed("$.fixtures"@, i as nat), fixtures[i]) + fixture_content_issues(
        fixtures,
        i,
    )
}

pub open spec fn fixture_item_issues(fixtures: Seq<EvalFixture>, n: int) -> Seq<Issue>
    decreases n,
{
    if n <= 0 {
        Seq::empty()
    } else {
        fixture_item_issues(fixtures, n - 1) + fixture_issue(fixtures, n - 1)
    }
}

pub open spec fn hard_issue(cp: Seq<char>, a: HardAssertion, k: int) -> Seq<Issue> {
    let ap = indexed(cp + ".assertions.hard"@, k as nat);
    match a {
        HardAssertion::SchemaCompliance => Seq::empty(),
        HardAssertion::SectionPresent { section_id } => identifier_issues(
            ap + ".section_id"@,
            section_id@,
        ),
        HardAssertion::LiteralPresent { value } => text_issues(ap + ".value"@, value@),
        HardAssertion::LiteralAbsent { value } => text_issues(ap + ".value"@, value@),
    }
}

pub open spec fn hard_item_issues(cp: Seq<char>, v: Seq<HardAssertion>, n: int) -> Seq<Issue>
    decreases n,
{
    if n <= 0 {
        Seq::empty()
    } else {
        hard_item_issues(cp, v, n - 1) + hard_issue(cp, v[n - 1], n - 1)
    }
}

pub open spec fn score_message() -> Seq<char> {
    "score must be a finite number between 0.0 and 1.0"@
}

pub open spec fn semantic_issue(cp: Seq<char>, a: SemanticAssertion, k: int) -> Seq<Issue> {
    let ap = indexed(cp + ".assertions.semantic"@, k as nat);
    match a {
        SemanticAssertion::Rubric { question, threshold_in_range, .. } => text_issues(
            ap + ".question"@,
            question@,
        ) + issue_if(
            !threshold_in_range,
            ValidationErrorCode::LimitExceeded,
            ap + ".threshold"@,
            score_message(),
        ),
        SemanticAssertion::DimensionRubric { question, threshold_in_range, .. } => text_issues(
            ap + ".question"@,
            question@,
        ) + issue_if(
            !threshold_in_range,
            ValidationErrorCode::LimitExceeded,
            ap + ".threshold"@,
            score_message(),
        ),
    }
}

pub open spec fn semantic_item_issues(cp: Seq<char>, v: Seq<SemanticAssertion>, n: int) -> Seq<
    Issue,
>
    decreases n,
{
    if n <= 0 {
        Seq::empty()
    } else {
        semantic_item_issues(cp, v, n - 1) + semantic_issue(cp, v[n - 1], n - 1)
    }
}

pub open spec fn case_issue(plan: EvalPlan, i: int) -> Seq<Issue> {
    let c = plan.cases@[i];
    let cp = indexed("$.cases"@, i as nat);
    identifier_issues(cp + ".id"@, c.id@) + issue_if(
        repeats_earlier(case_ids(plan.cases@), i),
        ValidationErrorCode::DuplicateValue,
        cp + ".id"@,
        "case IDs must be unique"@,
    ) + issue_if(
        !fixture_ids(plan.fixtures@).contains(c.fixture_id@),
        ValidationErrorCode::InvalidReference,
        cp + ".fixture_id"@,
        "evaluation case references an unknown fixture"@,
    ) + issue_if(
        c.assertions.hard@.len() == 0,
        ValidationErrorCode::EmptyEvalPlan,
        cp + ".assertions.hard"@,
        "each evaluation case requires at least one hard assertion"@,
    ) + hard_item_issues(cp, c.assertions.hard@, c.assertions.hard@.len() as int)
        + semantic_item_issues(cp, c.assertions.semantic@, c.assertions.semantic@.len() as int)
}

pub open spec fn case_item_issues(plan: EvalPlan, n: int) -> Seq<Issue>
    decreases n,
{
    if n <= 0 {
        Seq::empty()
    } else {
        case_item_issues(plan, n - 1) + case_issue(plan, n - 1)
    }
}

/// A plan may be written in the profile schema or in the evaluation-plan
/// schema that adds answer shapes and rubrics.
pub open spec fn plan_schema_supported(version: u32) -> bool {
    version == EXPERT_PROFILE_SCHEMA_VERSION || version == EVAL_PLAN_SCHEMA_VERSION
}

pub open spec fn plan_schema_message(actual: u32) -> Seq<char> {
    "expected schema version "@ + canonical::decimal(EXPERT_PROFILE_SCHEMA_VERSION as nat) + " or "@
        + canonical::decimal(EVAL_PLAN_SCHEMA_VERSION as nat) + ", got "@ + canonical::decimal(
        actual as nat,
    )
}

pub open spec fn plan_head_issues(plan: EvalPlan) -> Seq<Issue> {
    issue_if(
        !plan_schema_supported(plan.schema_version),
        ValidationErrorCode::SchemaMismatch,
        "$.schema_version"@,
        plan_schema_message(plan.schema_version),
    ) + issue_if(
        plan.fixtures@.len() == 0,
        ValidationErrorCode::EmptyEvalPlan,
        "$.fixtures"@,
        "at least one synthetic fixture is required"@,
    ) + issue_if(
        plan.cases@.len() == 0,
        ValidationErrorCode::EmptyEvalPlan,
        "$.cases"@,
        "at least one evaluation case is required"@,
    ) + issue_if(
        plan.cases@.len() > MAX_CASES,
        ValidationErrorCode::LimitExceeded,
        "$.cases"@,
        limit_message(MAX_CASES as nat),
    )
}

pub open spec fn plan_policy_issues(plan: EvalPlan) -> Seq<Issue> {
    issue_if(
        !(2 <= plan.policy.activation_runs_per_case <= 10),
        ValidationErrorCode::LimitExceeded,
        "$.policy.activation_runs_per_case"@,
        "activation_runs_per_case must be between 2 and 10"@,
    ) + issue_if(
        !plan.policy.all_hard_runs_must_pass,
        ValidationErrorCode::SchemaMismatch,
        "$.policy.all_hard_runs_must_pass"@,
        "phase 1 requires every hard assertion to pass on every run"@,
    ) + issue_if(
        !plan.policy.semantic_min_score_in_range,
        ValidationErrorCode::LimitExceeded,
        "$.policy.semantic_min_score"@,
        score_message(),
    ) + issue_if(
        plan.policy.timeout_seconds == 0 || plan.policy.timeout_seconds > 3600,
        ValidationErrorCode::LimitExceeded,
        "$.policy.timeout_seconds"@,
        "timeout_seconds must be between 1 and 3600"@,
    ) + issue_if(
        !plan.regression_policy.semantic_delta_floor_in_range,
        ValidationErrorCode::LimitExceeded,
        "$.regression_policy.semantic_delta_floor"@,
        "semantic_delta_floor must be between -1.0 and 0.0"@,
    )
}

/// Every problem of an evaluation plan on its own, in the order validation
/// reports them.
pub open spec fn plan_issues(plan: EvalPlan) -> Seq<Issue> {
    plan_head_issues(plan) + fixture_item_issues(plan.fixtures@, plan.fixtures@.len() as int)
        + case_item_issues(plan, plan.cases@.len() as int) + plan_policy_issues(plan)
}

fn push_fixture_ids(out: &mut Vec<String>, v: &Vec<EvalFixture>)
    ensures
        canonical::string_views(final(out)@) == canonical::string_views(old(out)@) + fixture_ids(v@),
{
    let ghost start = canonical::string_views(out@);
    let mut i: usize = 0;
    while i < v.len()
        invariant
            0 <= i <= v@.len(),
            canonical::string_views(out@) == start + fixture_ids(v@.subrange(0, i as int)),
        decreases v.len() - i,
    {
        let ghost prev = out@;
        out.push(v[i].id.clone());
        proof {
            assert(canonical::string_views(out@) =~= canonical::string_views(prev).push(v@[i as int].id@));
            assert(fixture_ids(v@.subrange(0, i + 1)) =~= fixture_ids(v@.subrange(0, i as int)).push(
                v@[i as int].id@,
            ));
        }
        i += 1;
    }
    proof {
        assert(v@.subrange(0, v@.len() as int) =~= v@);
    }
}

fn push_case_ids(out: &mut Vec<String>, v: &Vec<EvalCase>)
    ensures
        canonical::string_views(final(out)@) == canonical::string_views(old(out)@) + case_ids(v@),
{
    let ghost start = canonical::string_views(out@);
    let mut i: usize = 0;
    while i < v.len()
        invariant
            0 <= i <= v@.len(),
            canonical::string_views(out@) == start + case_ids(v@.subrange(0, i as int)),
        decreases v.len() - i,
    {
        let ghost prev = out@;
        out.push(v[i].id.clone());
        proof {
            assert(canonical::string_views(out@) =~= canonical::string_views(prev).push(v@[i as int].id@));
            assert(case_ids(v@.subrange(0, i + 1)) =~= case_ids(v@.subrange(0, i as int)).push(
                v@[i as int].id@,
            ));
        }
        i += 1;
    }
    proof {
        assert(v@.subrange(0, v@.len() as int) =~= v@);
    }
}

fn contains_string(v: &Vec<String>, s: &String) -> (r: bool)
    ensures
        r == canonical::string_views(v@).contains(s@),
{
    let ghost vs = canonical::string_views(v@);
    let mut i: usize = 0;
    while i < v.len()
        invariant
            vs == canonical::string_views(v@),
            0 <= i <= v@.len(),
            forall|k: int| 0 <= k < i ==> #[trigger] vs[k] != s@,
        decreases v.len() - i,
    {
        if v[i] == *s {
            assert(vs[i as int] == s@);
            return true;
        }
        i += 1;
    }
    false
}

#[verifier::spinoff_prover]
fn validate_fixture_source(errors: &mut Vec<ValidationError>, fp: &str, f: &EvalFixture)
    ensures
        issues_view(final(errors)@) == issues_view(old(errors)@) + fixture_source_issues(fp@, *f),
{
    let ghost before = issues_view(errors@);
    let id_path = joined_path(fp, ".id");
    validate_identifier(errors, id_path.as_str(), f.id.as_str());
    let source_path = joined_path(fp, ".source");
    validate_text(errors, source_path.as_str(), f.source.as_str());
    if !str_starts_with(f.source.as_str(), "synthetic:") {
        push_issue_str(
            errors,
            ValidationErrorCode::SchemaMismatch,
            source_path.as_str(),
            "phase-1 evaluation fixtures must declare a synthetic: source",
        );
    }
    proof {
        assert(issues_view(errors@) =~= before + fixture_source_issues(fp@, *f));
    }
}

#[verifier::spinoff_prover]
#[verifier::rlimit(50)]
fn validate_fixture_content(
    errors: &mut Vec<ValidationError>,
    fixtures: &Vec<EvalFixture>,
    ids: &Vec<String>,
    i: usize,
    fp: &str,
)
    requires
        i < fixtures@.len(),
        canonical::string_views(ids@) == fixture_ids(fixtures@),
        fp@ == indexed("$.fixtures"@, i as nat),
    ensures
        issues_view(final(errors)@) == issues_view(old(errors)@) + fixture_content_issues(
            fixtures@,
            i as int,
        ),
{
    let ghost before = issues_view(errors@);
    let f = &fixtures[i];
    let text_path = joined_path(fp, ".transcript_text");
    if str_is_blank(f.transcript_text.as_str()) {
        push_issue_str(
            errors,
            ValidationErrorCode::EmptyEvalPlan,
            text_path.as_str(),
            "fixture transcript cannot be empty",
        );
    }
    if f.transcript_text.as_str().as_bytes().len() > MAX_FIXTURE_BYTES {
        push_limit_issue(errors, text_path.as_str(), MAX_FIXTURE_BYTES);
    }
    let ghost mid = issues_view(errors@);
    proof {
        assert(canonical::string_views(ids@).len() == ids@.len());
    }
    let id_path = joined_path(fp, ".id");
    if repeats_before(ids, i) {
        push_issue_str(errors, ValidationErrorCode::DuplicateValue, id_path.as_str(), "fixture IDs must be unique");
    }
    let expected = hash_fixture_text(f.transcript_text.as_str());
    if f.content_hash != expected {
        let hash_path = joined_path(fp, ".content_hash");
        push_issue_str(
            errors,
            ValidationErrorCode::DigestMismatch,
            hash_path.as_str(),
            "fixture content hash does not match transcript_text",
        );
    }
    proof {
        assert(issues_view(errors@) =~= before + fixture_content_issues(fixtures@, i as int));
    }
}

fn validate_fixture_at(
    errors: &mut Vec<ValidationError>,
    fixtures: &Vec<EvalFixture>,
    ids: &Vec<String>,
    i: usize,
)
    requires
        i < fixtures@.len(),
        canonical::string_views(ids@) == fixture_ids(fixtures@),
    ensures
        issues_view(final(errors)@) == issues_view(old(errors)@) + fixture_issue(fixtures@, i as int),
{
    let ghost before = issues_view(errors@);
    let fp = indexed_path("$.fixtures", i);
    validate_fixture_source(errors, fp.as_str(), &fixtures[i]);
    validate_fixture_content(errors, fixtures, ids, i, fp.as_str());
    proof {
        assert(issues_view(errors@) =~= before + fixture_issue(fixtures@, i as int));
    }
}

#[verifier::spinoff_prover]
fn validate_hard_assertions(errors: &mut Vec<ValidationError>, cp: &str, v: &Vec<HardAssertion>)
    ensures
        issues_view(final(errors)@) == issues_view(old(errors)@) + hard_item_issues(
            cp@,
            v@,
            v@.len() as int,
        ),
{
    let ghost start = issues_view(errors@);
    let base = joined_path(cp, ".assertions.hard");
    let mut k: usize = 0;
    while k < v.len()
        invariant
            0 <= k <= v@.len(),
            base@ == cp@ + ".assertions.hard"@,
            issues_view(errors@) == start + hard_item_issues(cp@, v@, k as int),
        decreases v.len() - k,
    {
        let ap = indexed_path(base.as_str(), k);
        match &v[k] {
            HardAssertion::SchemaCompliance => {},
            HardAssertion::SectionPresent { section_id } => {
                let p = joined_path(ap.as_str(), ".section_id");
                validate_identifier(errors, p.as_str(), section_id.as_str());
            },
            HardAssertion::LiteralPresent { value } => {
                let p = joined_path(ap.as_str(), ".value");
                validate_text(errors, p.as_str(), value.as_str());
            },
            HardAssertion::LiteralAbsent { value } => {
                let p = joined_path(ap.as_str(), ".value");
                validate_text(errors, p.as_str(), value.as_str());
            },
        }
        proof {
            assert(issues_view(errors@) =~= start + hard_item_issues(cp@, v@, k + 1));
        }
        k += 1;
    }
}

#[verifier::spinoff_prover]
fn validate_semantic_assertions(errors: &mut Vec<ValidationError>, cp: &str, v: &Vec<SemanticAssertion>)
    ensures
        issues_view(final(errors)@) == issues_view(old(errors)@) + semantic_item_issues(
            cp@,
            v@,
            v@.len() as int,
        ),
{
    let ghost start = issues_view(errors@);
    let base = joined_path(cp, ".assertions.semantic");
    let mut k: usize = 0;
    while k < v.len()
        invariant
            0 <= k <= v@.len(),
            base@ == cp@ + ".assertions.semantic"@,
            issues_view(errors@) == start + semantic_item_issues(cp@, v@, k as int),
        decreases v.len() - k,
    {
        let ap = indexed_path(base.as_str(), k);
        let (question, in_range) = match &v[k] {
            SemanticAssertion::Rubric { question, threshold_in_range, .. } => (
                question,
                *threshold_in_range,
            ),
            SemanticAssertion::DimensionRubric { question, threshold_in_range, .. } => (
                question,
                *threshold_in_range,
            ),
        };
        let qp = joined_path(ap.as_str(), ".question");
        validate_text(errors, qp.as_str(), question.as_str());
        if !in_range {
            let tp = joined_path(ap.as_str(), ".threshold");
            push_issue_str(
                errors,
                ValidationErrorCode::LimitExceeded,
                tp.as_str(),
                "score must be a finite number between 0.0 and 1.0",
            );
        }
        proof {
            assert(issues_view(errors@) =~= start + semantic_item_issues(cp@, v@, k + 1));
        }
        k += 1;
    }
}

#[verifier::spinoff_prover]
#[verifier::rlimit(50)]
fn validate_case_at(
    errors: &mut Vec<ValidationError>,
    plan: &EvalPlan,
    fixture_id_list: &Vec<String>,
    case_id_list: &Vec<String>,
    i: usize,
)
    requires
        i < plan.cases@.len(),
        canonical::string_views(fixture_id_list@) == fixture_ids(plan.fixtures@),
        canonical::string_views(case_id_list@) == case_ids(plan.cases@),
    ensures
        issues_view(final(errors)@) == issues_view(old(errors)@) + case_issue(*plan, i as int),
{
    let ghost before = issues_view(errors@);
    let c = &plan.cases[i];
    let cp = indexed_path("$.cases", i);
    let id_path = joined_path(cp.as_str(), ".id");
    validate_identifier(errors, id_path.as_str(), c.id.as_str());
    proof {
        assert(canonical::string_views(case_id_list@).len() == case_id_list@.len());
    }
    if repeats_before(case_id_list, i) {
        push_issue_str(errors, ValidationErrorCode::DuplicateValue, id_path.as_str(), "case IDs must be unique");
    }
    if !contains_string(fixture_id_list, &c.fixture_id) {
        let p = joined_path(cp.as_str(), ".fixture_id");
        push_issue_str(
            errors,
            ValidationErrorCode::InvalidReference,
            p.as_str(),
            "evaluation case references an unknown fixture",
        );
    }
    if c.assertions.hard.len() == 0 {
        let p = joined_path(cp.as_str(), ".assertions.hard");
        push_issue_str(
            errors,
            ValidationErrorCode::EmptyEvalPlan,
            p.as_str(),
            "each evaluation case requires at least one hard assertion",
        );
    }
    validate_hard_assertions(errors, cp.as_str(), &c.assertions.hard);
    validate_semantic_assertions(errors, cp.as_str(), &c.assertions.semantic);
    proof {
        assert(issues_view(errors@) =~= before + case_issue(*plan, i as int));
    }
}

#[verifier::spinoff_prover]
fn validate_plan_head(errors: &mut Vec<ValidationError>, plan: &EvalPlan)
    ensures
        issues_view(final(errors)@) == issues_view(old(errors)@) + plan_head_issues(*plan),
{
    let ghost before = issues_view(errors@);
    if plan.schema_version != EXPERT_PROFILE_SCHEMA_VERSION && plan.schema_version
        != EVAL_PLAN_SCHEMA_VERSION {
        push_issue(
            errors,
            ValidationErrorCode::SchemaMismatch,
            string_from("$.schema_version"),
            plan_schema_message_string(plan.schema_version),
        );
    }
    if plan.fixtures.len() == 0 {
        push_issue_str(
            errors,
            ValidationErrorCode::EmptyEvalPlan,
            "$.fixtures",
            "at least one synthetic fixture is required",
        );
    }
    if plan.cases.len() == 0 {
        push_issue_str(
            errors,
            ValidationErrorCode::EmptyEvalPlan,
            "$.cases",
            "at least one evaluation case is required",
        );
    }
    if plan.cases.len() > MAX_CASES {
        push_limit_issue(errors, "$.cases", MAX_CASES);
    }
    proof {
        assert(issues_view(errors@) =~= before + plan_head_issues(*plan));
    }
}

#[verifier::spinoff_prover]
fn validate_plan_policy(errors: &mut Vec<ValidationError>, plan: &EvalPlan)
    ensures
        issues_view(final(errors)@) == issues_view(old(errors)@) + plan_policy_issues(*plan),
{
    let ghost before = issues_view(errors@);
    let runs = plan.policy.activation_runs_per_case;
    if !(2 <= runs && runs <= 10) {
        push_issue_str(
            errors,
            ValidationErrorCode::LimitExceeded,
            "$.policy.activation_runs_per_case",
            "activation_runs_per_case must be between 2 and 10",
        );
    }
    if !plan.policy.all_hard_runs_must_pass {
        push_issue_str(
            errors,
            ValidationErrorCode::SchemaMismatch,
            "$.policy.all_hard_runs_must_pass",
            "phase 1 requires every hard assertion to pass on every run",
        );
    }
    if !plan.policy.semantic_min_score_in_range {
        push_issue_str(
            errors,
            ValidationErrorCode::LimitExceeded,
            "$.policy.semantic_min_score",
            "score must be a finite number between 0.0 and 1.0",
        );
    }
    if plan.policy.timeout_seconds == 0 || plan.policy.timeout_seconds > 3600 {
        push_issue_str(
            errors,
            ValidationErrorCode::LimitExceeded,
            "$.policy.timeout_seconds",
            "timeout_seconds must be between 1 and 3600",
        );
    }
    if !plan.regression_policy.semantic_delta_floor_in_range {
        push_issue_str(
            errors,
            ValidationErrorCode::LimitExceeded,
            "$.regression_policy.semantic_delta_floor",
            "semantic_delta_floor must be between -1.0 and 0.0",
        );
    }
    proof {
        assert(issues_view(errors@) =~= before + plan_policy_issues(*plan));
    }
}

/// Checks an evaluation plan on its own: schema, fixtures and their
/// digests, cases and their assertions, and the activation policy.
#[verifier::spinoff_prover]
pub fn validate_eval_plan_base(plan: &EvalPlan, errors: &mut Vec<ValidationError>)
    ensures
        issues_view(final(errors)@) == issues_view(old(errors)@) + plan_issues(*plan),
{
    let ghost before = issues_view(errors@);
    validate_plan_head(errors, plan);
    let mut fixture_id_list: Vec<String> = Vec::new();
    push_fixture_ids(&mut fixture_id_list, &plan.fixtures);
    let mut case_id_list: Vec<String> = Vec::new();
    push_case_ids(&mut case_id_list, &plan.cases);
    proof {
        assert(canonical::string_views(Seq::<String>::empty()) =~= Seq::<Seq<char>>::empty());
        assert(canonical::string_views(fixture_id_list@) =~= fixture_ids(plan.fixtures@));
        assert(canonical::string_views(case_id_list@) =~= case_ids(plan.cases@));
    }
    let ghost head = issues_view(errors@);
    let mut i: usize = 0;
    while i < plan.fixtures.len()
        invariant
            0 <= i <= plan.fixtures@.len(),
            canonical::string_views(fixture_id_list@) == fixture_ids(plan.fixtures@),
            issues_view(errors@) == head + fixture_item_issues(plan.fixtures@, i as int),
        decreases plan.fixtures.len() - i,
    {
        validate_fixture_at(errors, &plan.fixtures, &fixture_id_list, i);
        proof {
            assert(issues_view(errors@) =~= head + fixture_item_issues(plan.fixtures@, i + 1));
        }
        i += 1;
    }
    let ghost head2 = issues_view(errors@);
    let mut j: usize = 0;
    while j < plan.cases.len()
        invariant
            0 <= j <= plan.cases@.len(),
            canonical::string_views(fixture_id_list@) == fixture_ids(plan.fixtures@),
            canonical::string_views(case_id_list@) == case_ids(plan.cases@),
            issues_view(errors@) == head2 + case_item_issues(*plan, j as int),
        decreases plan.cases.len() - j,
    {
        validate_case_at(errors, plan, &fixture_id_list, &case_id_list, j);
        proof {
            assert(issues_view(errors@) =~= head2 + case_item_issues(*plan, j + 1));
        }
        j += 1;
    }
    validate_plan_policy(errors, plan);
    proof {
        assert(issues_view(errors@) =~= before + plan_issues(*plan));
    }
}

impl Validate for EvalPlan {
    /// Every problem of the plan on its own; `Ok` exactly when there is none.
    fn validate(&self) -> (r: Result<(), ValidationErrors>)
        ensures
            finish_rule(plan_issues(*self), r),
    {
        let mut errors: Vec<ValidationError> = Vec::new();
        validate_eval_plan_base(self, &mut errors);
        proof {
            assert(issues_view(Seq::<ValidationError>::empty()) =~= Seq::<Issue>::empty());
            assert(issues_view(errors@) =~= plan_issues(*self));
        }
        finish(errors)
    }
}

// ----------------------------------------------------------------------------
// Evaluation plans against a profile
// ----------------------------------------------------------------------------
/// The index of the first of the first `n` playbooks with the given id.
pub open spec fn first_playbook(pbs: Seq<MeetingPlaybook>, id: u128, n: int) -> Option<int>
    decreases n,
{
    if n <= 0 {
        None
    } else {
        match first_playbook(pbs, id, n - 1) {
            Some(j) => Some(j),
            None => if pbs[n - 1].id == id {
                Some(n - 1)
            } else {
                None
            },
        }
    }
}

pub open spec fn section_ref_issue(cp: Seq<char>, a: HardAssertion, k: int, ids: Seq<Seq<char>>) -> Seq<
    Issue,
> {
    match a {
        HardAssertion::SectionPresent { section_id } => issue_if(
            !ids.contains(section_id@),
            ValidationErrorCode::InvalidReference,
            indexed(cp + ".assertions.hard"@, k as nat) + ".section_id"@,
            "section assertion references a section that is not rendered by the selected playbook"@,
        ),
        _ => Seq::empty(),
    }
}

pub open spec fn section_ref_items(
    cp: Seq<char>,
    v: Seq<HardAssertion>,
    ids: Seq<Seq<char>>,
    n: int,
) -> Seq<Issue>
    decreases n,
{
    if n <= 0 {
        Seq::empty()
    } else {
        section_ref_items(cp, v, ids, n - 1) + section_ref_issue(cp, v[n - 1], n - 1, ids)
    }
}

pub open spec fn case_reference_issue(p: ExpertProfileVersion, plan: EvalPlan, i: int) -> Seq<Issue> {
    let c = plan.cases@[i];
    let cp = indexed("$.cases"@, i as nat);
    match first_playbook(p.playbooks@, c.playbook_id, p.playbooks@.len() as int) {
        None => seq![
            (
                ValidationErrorCode::InvalidReference,
                cp + ".playbook_id"@,
                "evaluation case references a playbook that is not embedded in the profile"@,
            ),
        ],
        Some(j) => section_ref_items(
            cp,
            c.assertions.hard@,
            section_ids(combined_sections(p, p.playbooks@[j])),
            c.assertions.hard@.len() as int,
        ),
    }
}

pub open spec fn case_reference_items(p: ExpertProfileVersion, plan: EvalPlan, n: int) -> Seq<Issue>
    decreases n,
{
    if n <= 0 {
        Seq::empty()
    } else {
        case_reference_items(p, plan, n - 1) + case_reference_issue(p, plan, n - 1)
    }
}

pub open spec fn playbook_covered(plan: EvalPlan, id: u128) -> bool {
    exists|k: int| 0 <= k < plan.cases@.len() && #[trigger] plan.cases@[k].playbook_id == id
}

pub open spec fn coverage_issue(p: ExpertProfileVersion, plan: EvalPlan, j: int) -> Seq<Issue> {
    issue_if(
        !playbook_covered(plan, p.playbooks@[j].id),
        ValidationErrorCode::EmptyEvalPlan,
        "$.cases"@,
        "embedded playbook at "@ + indexed("$.playbooks"@, j as nat) + " has no evaluation case"@,
    )
}

pub open spec fn coverage_items(p: ExpertProfileVersion, plan: EvalPlan, n: int) -> Seq<Issue>
    decreases n,
{
    if n <= 0 {
        Seq::empty()
    } else {
        coverage_items(p, plan, n - 1) + coverage_issue(p, plan, n - 1)
    }
}

/// Every problem of an evaluation plan meant for a given profile.
pub open spec fn plan_for_profile_issues(plan: EvalPlan, p: ExpertProfileVersion) -> Seq<Issue> {
    plan_issues(plan) + case_reference_items(p, plan, plan.cases@.len() as int) + coverage_items(
        p,
        plan,
        p.playbooks@.len() as int,
    )
}

proof fn lemma_case_reference_items_clean(p: ExpertProfileVersion, plan: EvalPlan, n: int)
    requires
        0 <= n <= plan.cases@.len(),
        case_reference_items(p, plan, n).len() == 0,
    ensures
        forall|i: int|
            0 <= i < n ==> first_playbook(
                p.playbooks@,
                #[trigger] plan.cases@[i].playbook_id,
                p.playbooks@.len() as int,
            ) is Some,
    decreases n,
{
    if n > 0 {
        lemma_case_reference_items_clean(p, plan, n - 1);
        assert(case_reference_issue(p, plan, n - 1).len() == 0);
    }
}

/// A plan that validates for a profile names only the profile's playbooks.
pub proof fn lemma_valid_plan_references_playbooks(plan: EvalPlan, p: ExpertProfileVersion)
    requires
        plan_for_profile_issues(plan, p).len() == 0,
    ensures
        forall|i: int|
            0 <= i < plan.cases@.len() ==> first_playbook(
                p.playbooks@,
                #[trigger] plan.cases@[i].playbook_id,
                p.playbooks@.len() as int,
            ) is Some,
{
    assert(case_reference_items(p, plan, plan.cases@.len() as int).len() == 0);
    lemma_case_reference_items_clean(p, plan, plan.cases@.len() as int);
}

proof fn lemma_first_playbook_stable(pbs: Seq<MeetingPlaybook>, id: u128, n: int, m: int)
    requires
        0 <= n <= m,
        first_playbook(pbs, id, n) is Some,
    ensures
        first_playbook(pbs, id, m) == first_playbook(pbs, id, n),
    decreases m - n,
{
    if n < m {
        lemma_first_playbook_stable(pbs, id, n, m - 1);
    }
}

pub proof fn lemma_first_playbook_bounds(pbs: Seq<MeetingPlaybook>, id: u128, n: int)
    requires
        0 <= n <= pbs.len(),
    ensures
        first_playbook(pbs, id, n) matches Some(j) ==> 0 <= j < n && pbs[j].id == id,
    decreases n,
{
    if n > 0 {
        lemma_first_playbook_bounds(pbs, id, n - 1);
    }
}

fn find_playbook(pbs: &Vec<MeetingPlaybook>, id: u128) -> (r: Option<usize>)
    ensures
        r matches Some(j) ==> first_playbook(pbs@, id, pbs@.len() as int) == Some(j as int),
        r is None ==> first_playbook(pbs@, id, pbs@.len() as int) is None,
{
    let mut j: usize = 0;
    while j < pbs.len()
        invariant
            0 <= j <= pbs@.len(),
            first_playbook(pbs@, id, j as int) is None,
        decreases pbs.len() - j,
    {
        if pbs[j].id == id {
            proof {
                lemma_first_playbook_stable(pbs@, id, j + 1, pbs@.len() as int);
            }
            return Some(j);
        }
        j += 1;
    }
    None
}

#[verifier::spinoff_prover]
fn validate_section_refs(
    errors: &mut Vec<ValidationError>,
    cp: &str,
    v: &Vec<HardAssertion>,
    ids: &Vec<String>,
)
    ensures
        issues_view(final(errors)@) == issues_view(old(errors)@) + section_ref_items(
            cp@,
            v@,
            canonical::string_views(ids@),
            v@.len() as int,
        ),
{
    let ghost start = issues_view(errors@);
    let ghost idv = canonical::string_views(ids@);
    let base = joined_path(cp, ".assertions.hard");
    let mut k: usize = 0;
    while k < v.len()
        invariant
            0 <= k <= v@.len(),
            base@ == cp@ + ".assertions.hard"@,
            idv == canonical::string_views(ids@),
            issues_view(errors@) == start + section_ref_items(cp@, v@, idv, k as int),
        decreases v.len() - k,
    {
        match &v[k] {
            HardAssertion::SectionPresent { section_id } => {
                if !contains_string(ids, section_id) {
                    let ap = indexed_path(base.as_str(), k);
                    let p = joined_path(ap.as_str(), ".section_id");
                    push_issue_str(
                        errors,
                        ValidationErrorCode::InvalidReference,
                        p.as_str(),
                        "section assertion references a section that is not rendered by the selected playbook",
                    );
                }
            },
            _ => {},
        }
        proof {
            assert(issues_view(errors@) =~= start + section_ref_items(cp@, v@, idv, k + 1));
        }
        k += 1;
    }
}

#[verifier::spinoff_prover]
fn validate_case_reference(
    errors: &mut Vec<ValidationError>,
    profile: &ExpertProfileVersion,
    plan: &EvalPlan,
    i: usize,
)
    requires
        i < plan.cases@.len(),
    ensures
        issues_view(final(errors)@) == issues_view(old(errors)@) + case_reference_issue(
            *profile,
            *plan,
            i as int,
        ),
{
    let ghost before = issues_view(errors@);
    let c = &plan.cases[i];
    let cp = indexed_path("$.cases", i);
    proof {
        lemma_first_playbook_bounds(profile.playbooks@, c.playbook_id, profile.playbooks@.len() as int);
    }
    match find_playbook(&profile.playbooks, c.playbook_id) {
        None => {
            let p = joined_path(cp.as_str(), ".playbook_id");
            push_issue_str(
                errors,
                ValidationErrorCode::InvalidReference,
                p.as_str(),
                "evaluation case references a playbook that is not embedded in the profile",
            );
            assert(issues_view(errors@) =~= before + case_reference_issue(*profile, *plan, i as int));
        },
        Some(j) => {
            let pb = &profile.playbooks[j];
            let mut ids: Vec<String> = Vec::new();
            push_section_ids(&mut ids, &profile.output_contract.sections);
            push_section_ids(&mut ids, &pb.sections);
            proof {
                assert(canonical::string_views(Seq::<String>::empty()) =~= Seq::<Seq<char>>::empty());
                assert(section_ids(combined_sections(*profile, *pb)) =~= section_ids(
                    profile.output_contract.sections@,
                ) + section_ids(pb.sections@));
                assert(canonical::string_views(ids@) =~= section_ids(combined_sections(*profile, *pb)));
            }
            validate_section_refs(errors, cp.as_str(), &c.assertions.hard, &ids);
            assert(first_playbook(profile.playbooks@, c.playbook_id, profile.playbooks@.len() as int) == Some(j as int));
            assert(issues_view(errors@) =~= before + case_reference_issue(*profile, *plan, i as int));
        },
    }
    proof {
        assert(issues_view(errors@) =~= before + case_reference_issue(*profile, *plan, i as int));
    }
}

fn coverage_message(j: usize) -> (r: String)
    ensures
        r@ == "embedded playbook at "@ + indexed("$.playbooks"@, j as nat) + " has no evaluation case"@,
{
    let mut out = string_from("embedded playbook at ");
    let p = indexed_path("$.playbooks", j);
    push_str(&mut out, p.as_str());
    push_str(&mut out, " has no evaluation case");
    out
}

#[verifier::spinoff_prover]
fn validate_coverage_at(
    errors: &mut Vec<ValidationError>,
    profile: &ExpertProfileVersion,
    plan: &EvalPlan,
    j: usize,
)
    requires
        j < profile.playbooks@.len(),
    ensures
        issues_view(final(errors)@) == issues_view(old(errors)@) + coverage_issue(
            *profile,
            *plan,
            j as int,
        ),
{
    let ghost before = issues_view(errors@);
    let id = profile.playbooks[j].id;
    let mut covered = false;
    let mut k: usize = 0;
    while k < plan.cases.len()
        invariant
            0 <= k <= plan.cases@.len(),
            id == profile.playbooks@[j as int].id,
            covered == exists|q: int| 0 <= q < k && #[trigger] plan.cases@[q].playbook_id == id,
        decreases plan.cases.len() - k,
    {
        if plan.cases[k].playbook_id == id {
            covered = true;
        }
        k += 1;
    }
    if !covered {
        push_issue(errors, ValidationErrorCode::EmptyEvalPlan, string_from("$.cases"), coverage_message(j));
    }
    proof {
        assert(issues_view(errors@) =~= before + coverage_issue(*profile, *plan, j as int));
    }
}

impl EvalPlan {
    /// Checks the plan on its own and against the profile it evaluates: every
    /// case names an embedded playbook and only sections that playbook
    /// renders, and every embedded playbook has a case.
    #[verifier::spinoff_prover]
    pub fn validate_for_profile(&self, profile: &ExpertProfileVersion) -> (r: Result<
        (),
        ValidationErrors,
    >)
        ensures
            finish_rule(plan_for_profile_issues(*self, *profile), r),
    {
        let mut errors: Vec<ValidationError> = Vec::new();
        validate_eval_plan_base(self, &mut errors);
        proof {
            assert(issues_view(Seq::<ValidationError>::empty()) =~= Seq::<Issue>::empty());
        }
        let ghost head = issues_view(errors@);
        let mut i: usize = 0;
        while i < self.cases.len()
            invariant
                0 <= i <= self.cases@.len(),
                issues_view(errors@) == head + case_reference_items(*profile, *self, i as int),
            decreases self.cases.len() - i,
        {
            validate_case_reference(&mut errors, profile, self, i);
            proof {
                assert(issues_view(errors@) =~= head + case_reference_items(*profile, *self, i + 1));
            }
            i += 1;
        }
        let ghost head2 = issues_view(errors@);
        let mut j: usize = 0;
        while j < profile.playbooks.len()
            invariant
                0 <= j <= profile.playbooks@.len(),
                issues_view(errors@) == head2 + coverage_items(*profile, *self, j as int),
            decreases profile.playbooks.len() - j,
        {
            validate_coverage_at(&mut errors, profile, self, j);
            proof {
                assert(issues_view(errors@) =~= head2 + coverage_items(*profile, *self, j + 1));
            }
            j += 1;
        }
        proof {
            assert(issues_view(errors@) =~= plan_for_profile_issues(*self, *profile));
        }
        finish(errors)
    }
}

// ----------------------------------------------------------------------------
// Raw JSON input limits
// ----------------------------------------------------------------------------
/// The state of a scan of the first `n` characters of a JSON text:
/// nesting depth, inside a string, after a backslash inside a string, and
/// whether the depth limit was passed (the scan stops there).
pub open spec fn json_scan(s: Seq<char>, n: int) -> (nat, bool, bool, bool)
    decreases n,
{
    if n <= 0 {
        (0, false, false, false)
    } else {
        let prev = json_scan(s, n - 1);
        let d = prev.0;
        let c = s[n - 1];
        if prev.3 {
            prev
        } else if prev.1 {
            if prev.2 {
                (d, true, false, false)
            } else if c == '\\' {
                (d, true, true, false)
            } else if c == '"' {
                (d, false, false, false)
            } else {
                (d, true, false, false)
            }
        } else if c == '"' {
            (d, true, false, false)
        } else if c == '{' || c == '[' {
            ((d + 1) as nat, false, false, d + 1 > MAX_JSON_DEPTH)
        } else if c == '}' || c == ']' {
            (if d == 0 {
                0
            } else {
                (d - 1) as nat
            }, false, false, false)
        } else {
            (d, false, false, false)
        }
    }
}

/// Problems of a raw JSON text found before it is parsed: its size, and a
/// nesting deeper than the limit.
pub open spec fn json_input_issues(s: Seq<char>) -> Seq<Issue> {
    issue_if(
        byte_len(s) > MAX_JSON_BYTES,
        ValidationErrorCode::LimitExceeded,
        "$"@,
        limit_message(MAX_JSON_BYTES as nat),
    ) + issue_if(
        json_scan(s, s.len() as int).3,
        ValidationErrorCode::LimitExceeded,
        "$"@,
        limit_message(MAX_JSON_DEPTH as nat),
    )
}

proof fn lemma_json_scan_deep_stays(s: Seq<char>, n: int, m: int)
    requires
        0 <= n <= m,
        json_scan(s, n).3,
    ensures
        json_scan(s, m) == json_scan(s, n),
    decreases m - n,
{
    if n < m {
        lemma_json_scan_deep_stays(s, n, m - 1);
    }
}

proof fn lemma_json_scan_depth(s: Seq<char>, n: int)
    requires
        0 <= n,
    ensures
        !json_scan(s, n).3 ==> json_scan(s, n).0 <= MAX_JSON_DEPTH,
    decreases n,
{
    if n > 0 {
        lemma_json_scan_depth(s, n - 1);
    }
}

/// Rejects an oversized or too deeply nested JSON text before it is parsed.
pub fn check_json_input(input: &str) -> (r: Result<(), ValidationErrors>)
    ensures
        finish_rule(json_input_issues(input@), r),
{
    let mut errors: Vec<ValidationError> = Vec::new();
    if input.as_bytes().len() > MAX_JSON_BYTES {
        push_limit_issue(&mut errors, "$", MAX_JSON_BYTES);
    }
    let ghost head = issues_view(errors@);
    proof {
        assert(head =~= issue_if(
            byte_len(input@) > MAX_JSON_BYTES,
            ValidationErrorCode::LimitExceeded,
            "$"@,
            limit_message(MAX_JSON_BYTES as nat),
        ));
    }
    let chars = chars_of(input);
    let mut depth: usize = 0;
    let mut in_string = false;
    let mut escaped = false;
    let mut i: usize = 0;
    while i < chars.len()
        invariant
            chars@ == input@,
            0 <= i <= chars@.len(),
            json_scan(input@, i as int) == (depth as nat, in_string, escaped, false),
            depth <= MAX_JSON_DEPTH,
            issues_view(errors@) == head,
            head == issue_if(
                byte_len(input@) > MAX_JSON_BYTES,
                ValidationErrorCode::LimitExceeded,
                "$"@,
                limit_message(MAX_JSON_BYTES as nat),
            ),
        decreases chars.len() - i,
    {
        let c = chars[i];
        if in_string {
            if escaped {
                escaped = false;
            } else if c == '\\' {
                escaped = true;
            } else if c == '"' {
                in_string = false;
            }
        } else if c == '"' {
            in_string = true;
        } else if c == '{' || c == '[' {
            depth = depth + 1;
            if depth > MAX_JSON_DEPTH {
                proof {
                    lemma_json_scan_deep_stays(input@, i + 1, input@.len() as int);
                }
                push_limit_issue(&mut errors, "$", MAX_JSON_DEPTH);
                proof {
                    assert(issues_view(errors@) =~= issues_view(Seq::<ValidationError>::empty())
                        + json_input_issues(input@));
                }
                return finish(errors);
            }
        } else if c == '}' || c == ']' {
            if depth > 0 {
                depth = depth - 1;
            }
        }
        i += 1;
    }
    proof {
        assert(input@.len() == i);
        assert(issues_view(errors@) =~= issues_view(Seq::<ValidationError>::empty()) + json_input_issues(
            input@,
        ));
    }
    finish(errors)
}

} // verus!
