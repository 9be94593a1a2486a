//! The checks on the private workloads of the answer harness: the fixtures
//! that ask about unsupported experience, and the captured answers of the
//! authority-scope trials.  Reading the workload files and the identity they
//! name happens outside the library; these checks take what was read.
use vstd::prelude::*;

use crate::canonical;
use crate::text;
use crate::text::{push_str, str_eq, str_ends_with, str_is_blank, string_from};

use super::voice_harness::{HumanAuthorityAdjudication, AUTHORITY_TRIAL_SCHEMA_VERSION, MIN_AUTHORITY_TRIAL_CASES};

verus! {

pub const PRIVATE_HARNESS_SCHEMA_VERSION: u32 = 1;

/// A fixture of a private harness workload, as read from its file.
#[derive(Debug, Clone, PartialEq, Eq)]
pub struct PrivateHarnessFixture {
    pub id: String,
    pub question: String,
    pub required_positive_fact: Option<String>,
    pub requires_single_story_source: bool,
    pub required_retrieved_titles: Vec<String>,
}

/// A captured answer of an authority-scope trial, as read from its file.
#[derive(Debug, Clone, PartialEq, Eq)]
pub struct AuthorityTrialCase {
    pub id: String,
    pub answer: String,
    pub captured_from_live_assist: bool,
    pub human_adjudication: HumanAuthorityAdjudication,
}

fn decimal_string(n: u64) -> (r: String)
    ensures
        r@ == canonical::decimal(n as nat),
{
    let mut out = String::new();
    canonical::write_decimal(&mut out, n);
    proof {
        assert(out@ =~= canonical::decimal(n as nat));
    }
    out
}

// ----------------------------------------------------------------------------
// Private harness fixtures
// ----------------------------------------------------------------------------
pub open spec fn private_header_rule(schema_version: u32, fixture_count: nat) -> Result<(), Seq<char>> {
    if schema_version != PRIVATE_HARNESS_SCHEMA_VERSION {
        Err("unsupported private harness workload schema version "@ + canonical::decimal(
            schema_version as nat,
        ))
    } else if fixture_count == 0 {
        Err("private harness workload has no fixtures"@)
    } else {
        Ok(())
    }
}

/// A workload must have the known schema and at least one fixture.
pub fn check_private_harness_header(schema_version: u32, fixture_count: usize) -> (r: Result<(), String>)
    ensures
        match private_header_rule(schema_version, fixture_count as nat) {
            Ok(()) => r is Ok,
            Err(m) => r matches Err(e) && e@ == m,
        },
{
    if schema_version != PRIVATE_HARNESS_SCHEMA_VERSION {
        let mut m = string_from("unsupported private harness workload schema version ");
        let d = decimal_string(schema_version as u64);
        push_str(&mut m, d.as_str());
        return Err(m);
    }
    if fixture_count == 0 {
        return Err(string_from("private harness workload has no fixtures"));
    }
    Ok(())
}

/// A required source title is known when some record's title ends with it.
pub open spec fn title_known(record_titles: Seq<Seq<char>>, expected: Seq<char>) -> bool {
    exists|k: int| 0 <= k < record_titles.len() && text::ends_with(#[trigger] record_titles[k], expected)
}

/// What is wrong with a fixture, if anything: a blank id or question, or
/// the first required title that no record has.
pub open spec fn fixture_fault(f: PrivateHarnessFixture, record_titles: Seq<Seq<char>>) -> Option<Seq<char>> {
    if text::is_blank(f.id@) || text::is_blank(f.question@) {
        Some("private harness fixture id and question must be nonempty"@)
    } else if exists|k: int|
        0 <= k < f.required_retrieved_titles@.len() && !title_known(
            record_titles,
            #[trigger] f.required_retrieved_titles@[k]@,
        ) {
        let k = choose|k: int|
            0 <= k < f.required_retrieved_titles@.len() && !title_known(
                record_titles,
                #[trigger] f.required_retrieved_titles@[k]@,
            ) && forall|j: int| 0 <= j < k ==> title_known(record_titles, #[trigger] f.required_retrieved_titles@[j]@);
        Some(
            "private harness fixture '"@ + f.id@ + "' names an unknown source title '"@
                + f.required_retrieved_titles@[k]@ + "'"@,
        )
    } else {
        None
    }
}

fn is_title_known(record_titles: &Vec<String>, expected: &str) -> (b: bool)
    ensures
        b == title_known(canonical::string_views(record_titles@), expected@),
{
    let mut k: usize = 0;
    while k < record_titles.len()
        invariant
            0 <= k <= record_titles@.len(),
            forall|j: int| 0 <= j < k ==> !text::ends_with(#[trigger] record_titles@[j]@, expected@),
        decreases record_titles.len() - k,
    {
        if str_ends_with(record_titles[k].as_str(), expected) {
            proof {
                assert(canonical::string_views(record_titles@)[k as int] == record_titles@[k as int]@);
            }
            return true;
        }
        k += 1;
    }
    proof {
        assert forall|j: int| 0 <= j < canonical::string_views(record_titles@).len() implies !text::ends_with(
            #[trigger] canonical::string_views(record_titles@)[j],
            expected@,
        ) by {
            assert(canonical::string_views(record_titles@)[j] == record_titles@[j]@);
        }
    }
    false
}

fn check_fixture(f: &PrivateHarnessFixture, record_titles: &Vec<String>) -> (r: Option<String>)
    ensures
        match fixture_fault(*f, canonical::string_views(record_titles@)) {
            None => r is None,
            Some(m) => r matches Some(e) && e@ == m,
        },
{
    if str_is_blank(f.id.as_str()) || str_is_blank(f.question.as_str()) {
        return Some(string_from("private harness fixture id and question must be nonempty"));
    }
    let titles = &f.required_retrieved_titles;
    let ghost rt = canonical::string_views(record_titles@);
    let mut k: usize = 0;
    while k < titles.len()
        invariant
            0 <= k <= titles@.len(),
            titles@ == f.required_retrieved_titles@,
            !text::is_blank(f.id@) && !text::is_blank(f.question@),
            rt == canonical::string_views(record_titles@),
            forall|j: int| 0 <= j < k ==> title_known(rt, #[trigger] titles@[j]@),
        decreases titles.len() - k,
    {
        if !is_title_known(record_titles, titles[k].as_str()) {
            let mut m = string_from("private harness fixture '");
            push_str(&mut m, f.id.as_str());
            push_str(&mut m, "' names an unknown source title '");
            push_str(&mut m, titles[k].as_str());
            push_str(&mut m, "'");
            proof {
                let kk = k as int;
                assert(titles@ == f.required_retrieved_titles@);
                assert forall|j: int| 0 <= j < kk implies title_known(
                    rt,
                    #[trigger] f.required_retrieved_titles@[j]@,
                ) by {
                    assert(title_known(rt, titles@[j]@));
                }
                let c = choose|c: int|
                    0 <= c < f.required_retrieved_titles@.len() && !title_known(
                        rt,
                        #[trigger] f.required_retrieved_titles@[c]@,
                    ) && forall|j: int| 0 <= j < c ==> title_known(rt, #[trigger] f.required_retrieved_titles@[j]@);
                assert(0 <= kk < f.required_retrieved_titles@.len() && !title_known(
                    rt,
                    f.required_retrieved_titles@[kk]@,
                ) && forall|j: int| 0 <= j < kk ==> title_known(rt, #[trigger] f.required_retrieved_titles@[j]@));
                if c < kk {
                    assert(title_known(rt, f.required_retrieved_titles@[c]@));
                } else if kk < c {
                    assert(title_known(rt, f.required_retrieved_titles@[kk]@));
                }
                assert(c == kk);
                assert(m@ =~= "private harness fixture '"@ + f.id@ + "' names an unknown source title '"@
                    + f.required_retrieved_titles@[kk]@ + "'"@);
            }
            return Some(m);
        }
        k += 1;
    }
    None
}

/// The fixtures must have an id and a question, and every source title they
/// require must end the title of a record of the loaded identity; the first
/// fixture at fault gives the error.
pub fn check_private_harness_fixtures(fixtures: &Vec<PrivateHarnessFixture>, record_titles: &Vec<String>) -> (r:
    Result<(), String>)
    ensures
        match r {
            Ok(()) => forall|i: int|
                0 <= i < fixtures@.len() ==> #[trigger] fixture_fault(fixtures@[i], canonical::string_views(record_titles@))
                    is None,
            Err(e) => exists|i: int|
                0 <= i < fixtures@.len() && (forall|j: int|
                    0 <= j < i ==> #[trigger] fixture_fault(fixtures@[j], canonical::string_views(record_titles@)) is None)
                    && fixture_fault(fixtures@[i], canonical::string_views(record_titles@)) == Some(e@),
        },
{
    let mut i: usize = 0;
    while i < fixtures.len()
        invariant
            0 <= i <= fixtures@.len(),
            forall|j: int|
                0 <= j < i ==> #[trigger] fixture_fault(fixtures@[j], canonical::string_views(record_titles@)) is None,
        decreases fixtures.len() - i,
    {
        match check_fixture(&fixtures[i], record_titles) {
            Some(m) => {
                return Err(m);
            },
            None => {},
        }
        i += 1;
    }
    Ok(())
}

// ----------------------------------------------------------------------------
// Authority-scope trials
// ----------------------------------------------------------------------------
pub open spec fn authority_header_rule(schema_version: u32, case_count: nat) -> Result<(), Seq<char>> {
    if schema_version != AUTHORITY_TRIAL_SCHEMA_VERSION {
        Err("unsupported authority trial workload schema version "@ + canonical::decimal(
            schema_version as nat,
        ))
    } else if case_count < MIN_AUTHORITY_TRIAL_CASES {
        Err("authority trial workload needs at least 5 cases"@)
    } else {
        Ok(())
    }
}

/// A trial workload must have the known schema and enough cases.
pub fn check_authority_workload_header(schema_version: u32, case_count: usize) -> (r: Result<(), String>)
    ensures
        match authority_header_rule(schema_version, case_count as nat) {
            Ok(()) => r is Ok,
            Err(m) => r matches Err(e) && e@ == m,
        },
{
    if schema_version != AUTHORITY_TRIAL_SCHEMA_VERSION {
        let mut m = string_from("unsupported authority trial workload schema version ");
        let d = decimal_string(schema_version as u64);
        push_str(&mut m, d.as_str());
        return Err(m);
    }
    if case_count < MIN_AUTHORITY_TRIAL_CASES {
        return Err(string_from("authority trial workload needs at least 5 cases"));
    }
    Ok(())
}

pub open spec fn authority_identity_rule(constraint_count: nat, loaded_hash: Seq<char>, expected_hash: Seq<char>) -> Result<
    (),
    Seq<char>,
> {
    if constraint_count == 0 {
        Err("authority trial identity has no enrolled constraints"@)
    } else if loaded_hash != expected_hash {
        Err("authority trial identity hash mismatch: expected "@ + expected_hash + ", loaded "@
            + loaded_hash)
    } else {
        Ok(())
    }
}

/// The identity a trial workload names must have authority constraints, and
/// its digest must be the one the workload expects.
pub fn check_authority_identity(constraint_count: usize, loaded_hash: &str, expected_hash: &str) -> (r: Result<
    (),
    String,
>)
    ensures
        match authority_identity_rule(constraint_count as nat, loaded_hash@, expected_hash@) {
            Ok(()) => r is Ok,
            Err(m) => r matches Err(e) && e@ == m,
        },
{
    if constraint_count == 0 {
        return Err(string_from("authority trial identity has no enrolled constraints"));
    }
    if !str_eq(loaded_hash, expected_hash) {
        let mut m = string_from("authority trial identity hash mismatch: expected ");
        push_str(&mut m, expected_hash);
        push_str(&mut m, ", loaded ");
        push_str(&mut m, loaded_hash);
        proof {
            assert(m@ =~= "authority trial identity hash mismatch: expected "@ + expected_hash@
                + ", loaded "@ + loaded_hash@);
        }
        return Err(m);
    }
    Ok(())
}

/// What is wrong with the case at `i`, if anything: a blank id or answer,
/// an answer not captured from live assist, or an id used before.
pub open spec fn case_fault(cases: Seq<AuthorityTrialCase>, i: int) -> Option<Seq<char>> {
    let c = cases[i];
    if text::is_blank(c.id@) || text::is_blank(c.answer@) {
        Some("authority trial case id and answer must be nonempty"@)
    } else if !c.captured_from_live_assist {
        Some("authority trial case '"@ + c.id@ + "' was not marked as captured from Live Assist"@)
    } else if exists|j: int| 0 <= j < i && (#[trigger] cases[j]).id@ == c.id@ {
        Some("duplicate authority trial case id '"@ + c.id@ + "'"@)
    } else {
        None
    }
}

/// Every case must have an id and an answer captured from live assist, and
/// no id may repeat; the first case at fault gives the error.
pub fn check_authority_trial_cases(cases: &Vec<AuthorityTrialCase>) -> (r: Result<(), String>)
    ensures
        match r {
            Ok(()) => forall|i: int| 0 <= i < cases@.len() ==> #[trigger] case_fault(cases@, i) is None,
            Err(e) => exists|i: int|
                0 <= i < cases@.len() && (forall|j: int| 0 <= j < i ==> #[trigger] case_fault(cases@, j) is None)
                    && case_fault(cases@, i) == Some(e@),
        },
{
    let mut i: usize = 0;
    while i < cases.len()
        invariant
            0 <= i <= cases@.len(),
            forall|j: int| 0 <= j < i ==> #[trigger] case_fault(cases@, j) is None,
        decreases cases.len() - i,
    {
        let c = &cases[i];
        if str_is_blank(c.id.as_str()) || str_is_blank(c.answer.as_str()) {
            let m = string_from("authority trial case id and answer must be nonempty");
            proof {
                assert(case_fault(cases@, i as int) == Some(m@));
            }
            return Err(m);
        }
        if !c.captured_from_live_assist {
            let mut m = string_from("authority trial case '");
            push_str(&mut m, c.id.as_str());
            push_str(&mut m, "' was not marked as captured from Live Assist");
            proof {
                assert(m@ =~= "authority trial case '"@ + c.id@ + "' was not marked as captured from Live Assist"@);
                assert(case_fault(cases@, i as int) == Some(m@));
            }
            return Err(m);
        }
        let mut j: usize = 0;
        while j < i
            invariant
                0 <= j <= i < cases@.len(),
                c == cases@[i as int],
                !text::is_blank(c.id@) && !text::is_blank(c.answer@),
                c.captured_from_live_assist,
                forall|k: int| 0 <= k < i ==> #[trigger] case_fault(cases@, k) is None,
                forall|k: int| 0 <= k < j ==> cases@[k].id@ != c.id@,
            decreases i - j,
        {
            if str_eq(cases[j].id.as_str(), c.id.as_str()) {
                let mut m = string_from("duplicate authority trial case id '");
                push_str(&mut m, c.id.as_str());
                push_str(&mut m, "'");
                proof {
                    assert(cases@[j as int].id@ == c.id@);
                    assert(m@ =~= "duplicate authority trial case id '"@ + c.id@ + "'"@);
                    assert(case_fault(cases@, i as int) == Some(m@));
                }
                return Err(m);
            }
            j += 1;
        }
        proof {
            assert(!exists|k: int| 0 <= k < i && (#[trigger] cases@[k]).id@ == c.id@);
            assert(case_fault(cases@, i as int) is None);
        }
        i += 1;
    }
    Ok(())
}


// ----------------------------------------------------------------------------
// Replayed answers
// ----------------------------------------------------------------------------
/// One line of the harness output, as far as a replay reads it.
#[derive(Debug, Clone, PartialEq, Eq)]
pub struct ReplayRecord {
    pub harness_case: Option<String>,
    pub prompt_template_version: Option<String>,
    pub fixture_id: Option<String>,
    pub answer: Option<String>,
}

/// A record of the requested case and prompt version, with a fixture id and
/// an answer.
pub open spec fn replay_counts(r: ReplayRecord, case: Seq<char>, version: Seq<char>) -> bool {
    &&& r.harness_case matches Some(c) && c@ == case
    &&& r.prompt_template_version matches Some(v) && v@ == version
    &&& r.fixture_id is Some
    &&& r.answer is Some
}

/// The answer of the last counted record for a fixture among the first `n`.
pub open spec fn latest_answer(
    records: Seq<ReplayRecord>,
    case: Seq<char>,
    version: Seq<char>,
    fixture: Seq<char>,
    n: int,
) -> Option<Seq<char>>
    decreases n,
{
    if n <= 0 {
        None
    } else {
        let r = records[n - 1];
        if replay_counts(r, case, version) && r.fixture_id->Some_0@ == fixture {
            Some(r.answer->Some_0@)
        } else {
            latest_answer(records, case, version, fixture, n - 1)
        }
    }
}

fn opt_str_eq(o: &Option<String>, s: &str) -> (b: bool)
    ensures
        b == (o matches Some(x) && x@ == s@),
{
    match o {
        Some(x) => str_eq(x.as_str(), s),
        None => false,
    }
}

fn find_key(v: &Vec<(String, String)>, key: &str) -> (r: Option<usize>)
    ensures
        r matches Some(k) ==> k < v@.len() && v@[k as int].0@ == key@,
        r is None ==> forall|i: int| 0 <= i < v@.len() ==> (#[trigger] v@[i]).0@ != key@,
{
    let mut i: usize = 0;
    while i < v.len()
        invariant
            0 <= i <= v@.len(),
            forall|j: int| 0 <= j < i ==> (#[trigger] v@[j]).0@ != key@,
        decreases v.len() - i,
    {
        if str_eq(v[i].0.as_str(), key) {
            return Some(i);
        }
        i += 1;
    }
    None
}

/// The latest replayed answer of each fixture of a harness case, for one
/// prompt version: later lines replace earlier ones, and lines of other
/// cases or versions, or without a fixture id or answer, are skipped.
/// Each fixture appears once.
pub fn latest_replay_answers(records: &Vec<ReplayRecord>, harness_case: &str, prompt_version: &str) -> (r: Vec<
    (String, String),
>)
    ensures
        forall|i: int, j: int| 0 <= i < j < r@.len() ==> (#[trigger] r@[i]).0@ != (#[trigger] r@[j]).0@,
        forall|i: int|
            0 <= i < r@.len() ==> latest_answer(
                records@,
                harness_case@,
                prompt_version@,
                (#[trigger] r@[i]).0@,
                records@.len() as int,
            ) == Some(r@[i].1@),
        forall|f: Seq<char>|
            #[trigger] latest_answer(records@, harness_case@, prompt_version@, f, records@.len() as int)
                is Some ==> exists|i: int| 0 <= i < r@.len() && (#[trigger] r@[i]).0@ == f,
{
    let mut out: Vec<(String, String)> = Vec::new();
    let mut n: usize = 0;
    while n < records.len()
        invariant
            0 <= n <= records@.len(),
            forall|i: int, j: int|
                0 <= i < j < out@.len() ==> (#[trigger] out@[i]).0@ != (#[trigger] out@[j]).0@,
            forall|i: int|
                0 <= i < out@.len() ==> latest_answer(
                    records@,
                    harness_case@,
                    prompt_version@,
                    (#[trigger] out@[i]).0@,
                    n as int,
                ) == Some(out@[i].1@),
            forall|f: Seq<char>|
                #[trigger] latest_answer(records@, harness_case@, prompt_version@, f, n as int)
                    is Some ==> exists|i: int| 0 <= i < out@.len() && (#[trigger] out@[i]).0@ == f,
        decreases records.len() - n,
    {
        let rec = &records[n];
        let counted = opt_str_eq(&rec.harness_case, harness_case) && opt_str_eq(
            &rec.prompt_template_version,
            prompt_version,
        ) && rec.fixture_id.is_some() && rec.answer.is_some();
        let ghost before = out@;
        if counted {
            let fixture = match &rec.fixture_id {
                Some(f) => f.clone(),
                None => String::new(),
            };
            let answer = match &rec.answer {
                Some(a) => a.clone(),
                None => String::new(),
            };
            assert(replay_counts(records@[n as int], harness_case@, prompt_version@));
            match find_key(&out, fixture.as_str()) {
                Some(k) => {
                    out.remove(k);
                    out.insert(k, (fixture, answer));
                    proof {
                        assert(out@ =~= before.update(k as int, out@[k as int]));
                        assert forall|i: int|
                            0 <= i < out@.len() implies latest_answer(
                            records@,
                            harness_case@,
                            prompt_version@,
                            (#[trigger] out@[i]).0@,
                            n + 1,
                        ) == Some(out@[i].1@) by {
                            if i != k {
                                assert(out@[i] == before[i]);
                                assert(before[i].0@ != before[k as int].0@);
                            }
                        }
                        assert forall|f: Seq<char>|
                            #[trigger] latest_answer(
                                records@,
                                harness_case@,
                                prompt_version@,
                                f,
                                n + 1,
                            ) is Some implies exists|i: int|
                            0 <= i < out@.len() && (#[trigger] out@[i]).0@ == f by {
                            if f == fixture@ {
                                assert(out@[k as int].0@ == f);
                            } else {
                                assert(latest_answer(records@, harness_case@, prompt_version@, f, n + 1)
                                    == latest_answer(records@, harness_case@, prompt_version@, f, n as int));
                                let i = choose|i: int| 0 <= i < before.len() && (#[trigger] before[i]).0@ == f;
                                assert(out@[i].0@ == f);
                            }
                        }
                    }
                },
                None => {
                    out.push((fixture, answer));
                    proof {
                        assert(out@ =~= before.push(out@[before.len() as int]));
                        assert forall|i: int|
                            0 <= i < out@.len() implies latest_answer(
                            records@,
                            harness_case@,
                            prompt_version@,
                            (#[trigger] out@[i]).0@,
                            n + 1,
                        ) == Some(out@[i].1@) by {
                            if i < before.len() {
                                assert(out@[i] == before[i]);
                            }
                        }
                        assert forall|f: Seq<char>|
                            #[trigger] latest_answer(
                                records@,
                                harness_case@,
                                prompt_version@,
                                f,
                                n + 1,
                            ) is Some implies exists|i: int|
                            0 <= i < out@.len() && (#[trigger] out@[i]).0@ == f by {
                            if f == fixture@ {
                                assert(out@[before.len() as int].0@ == f);
                            } else {
                                assert(latest_answer(records@, harness_case@, prompt_version@, f, n + 1)
                                    == latest_answer(records@, harness_case@, prompt_version@, f, n as int));
                                let i = choose|i: int| 0 <= i < before.len() && (#[trigger] before[i]).0@ == f;
                                assert(out@[i].0@ == f);
                            }
                        }
                    }
                },
            }
        } else {
            proof {
                assert forall|f: Seq<char>|
                    #[trigger] latest_answer(records@, harness_case@, prompt_version@, f, n + 1)
                        == latest_answer(records@, harness_case@, prompt_version@, f, n as int) by {
                }
            }
        }
        n += 1;
    }
    out
}


// ----------------------------------------------------------------------------
// Private paths
// ----------------------------------------------------------------------------
/// The text has a `..` component: two dots between separators or ends.
pub open spec fn has_parent_component(s: Seq<char>) -> bool {
    exists|i: int|
        0 <= i && i + 2 <= s.len() && #[trigger] s[i] == '.' && s[i + 1] == '.' && (i == 0 || s[i
            - 1] == '/') && (i + 2 == s.len() || s[i + 2] == '/')
}

/// A workload may only name a nonempty relative path that never climbs out
/// of its directory.
pub open spec fn safe_relative_path(s: Seq<char>) -> bool {
    s.len() > 0 && s[0] != '/' && !has_parent_component(s)
}

fn unsafe_path_error() -> (r: Result<(), String>)
    ensures
        r matches Err(m) && m@ == "private harness paths must be safe, nonempty, and relative"@,
{
    Err(string_from("private harness paths must be safe, nonempty, and relative"))
}

/// Refuses a workload path that is empty, absolute or climbs with `..`.
pub fn check_relative_private_path(relative: &str) -> (r: Result<(), String>)
    ensures
        safe_relative_path(relative@) ==> r is Ok,
        !safe_relative_path(relative@) ==> (r matches Err(m) && m@
            == "private harness paths must be safe, nonempty, and relative"@),
{
    let v = text::chars_of(relative);
    let n = v.len();
    if n == 0 || v[0] == '/' {
        return unsafe_path_error();
    }
    let mut i: usize = 0;
    while i + 1 < n
        invariant
            n == v@.len(),
            v@ == relative@,
            0 <= i < n,
            forall|j: int|
                0 <= j < i && j + 2 <= v@.len() ==> !(#[trigger] v@[j] == '.' && v@[j + 1] == '.' && (
                j == 0 || v@[j - 1] == '/') && (j + 2 == v@.len() || v@[j + 2] == '/')),
        decreases n - i,
    {
        if v[i] == '.' && v[i + 1] == '.' && (i == 0 || v[i - 1] == '/') && (i + 2 == n || v[i + 2]
            == '/') {
            proof {
                assert(relative@[i as int] == '.');
                assert(has_parent_component(relative@));
            }
            return unsafe_path_error();
        }
        i += 1;
    }
    proof {
        assert(!has_parent_component(relative@)) by {
            assert forall|j: int|
                0 <= j && j + 2 <= relative@.len() implies !(#[trigger] relative@[j] == '.'
                && relative@[j + 1] == '.' && (j == 0 || relative@[j - 1] == '/') && (j + 2
                == relative@.len() || relative@[j + 2] == '/')) by {
                assert(j < i);
                assert(!(v@[j] == '.' && v@[j + 1] == '.' && (j == 0 || v@[j - 1] == '/') && (j + 2
                    == v@.len() || v@[j + 2] == '/')));
            }
        }
    }
    Ok(())
}

/// Whether the components of `root` begin those of `path`.
pub open spec fn components_within(path: Seq<Seq<char>>, root: Seq<Seq<char>>) -> bool {
    root.len() <= path.len() && forall|i: int| 0 <= i < root.len() ==> #[trigger] path[i] == root[i]
}

fn components_match(p: &Vec<String>, root: &Vec<String>) -> (b: bool)
    ensures
        b == components_within(canonical::string_views(p@), canonical::string_views(root@)),
{
    if root.len() > p.len() {
        return false;
    }
    let mut i: usize = 0;
    while i < root.len()
        invariant
            root@.len() <= p@.len(),
            0 <= i <= root@.len(),
            forall|j: int| 0 <= j < i ==> #[trigger] p@[j]@ == root@[j]@,
        decreases root.len() - i,
    {
        if !str_eq(p[i].as_str(), root[i].as_str()) {
            proof {
                assert(canonical::string_views(p@)[i as int] != canonical::string_views(root@)[i as int]);
            }
            return false;
        }
        i += 1;
    }
    proof {
        assert forall|j: int| 0 <= j < canonical::string_views(root@).len() implies #[trigger] canonical::string_views(
            p@,
        )[j] == canonical::string_views(root@)[j] by {
            assert(p@[j]@ == root@[j]@);
        }
    }
    true
}

/// A resolved workload path must exist and stay inside its corpus root;
/// both are given by their components, as canonicalised.
pub fn check_resolved_private_path(relative: &str, resolved: Option<&Vec<String>>, root: &Vec<String>) -> (r:
    Result<(), String>)
    ensures
        match resolved {
            None => r matches Err(m) && m@ == "private harness path '"@ + relative@ + "' does not exist"@,
            Some(p) => if components_within(canonical::string_views(p@), canonical::string_views(root@)) {
                r is Ok
            } else {
                r matches Err(m) && m@ == "private harness path '"@ + relative@
                    + "' escapes its corpus root"@
            },
        },
{
    let p = match resolved {
        None => {
            let mut m = string_from("private harness path '");
            push_str(&mut m, relative);
            push_str(&mut m, "' does not exist");
            proof {
                assert(m@ =~= "private harness path '"@ + relative@ + "' does not exist"@);
            }
            return Err(m);
        },
        Some(p) => p,
    };
    let within = components_match(p, root);
    if !within {
        let mut m = string_from("private harness path '");
        push_str(&mut m, relative);
        push_str(&mut m, "' escapes its corpus root");
        proof {
            assert(m@ =~= "private harness path '"@ + relative@ + "' escapes its corpus root"@);
        }
        return Err(m);
    }
    Ok(())
}

} // verus!
