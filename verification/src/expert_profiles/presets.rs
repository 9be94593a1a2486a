//! Built-in expert-profile presets.
use vstd::prelude::*;

use crate::text;
use crate::text::{push_str, string_from};

use super::validation;

use super::hashing::hash_fixture_text;
use super::models::{
    AdjudicatorKind, AnswerShape, DimensionApplicability, EvalAssertions, EvalCase,
    EvalEvidenceRecord, EvalFixture, EvalPlan, EvalPolicy, EvalSuite, EvaluationDimension,
    EvidenceContract, ExpertProfileVersion, HardAssertion, HardRegressionRule,
    MandatoryApplicability, MeetingPlaybook, OutputContract, OutputSection, ProfileBoundaries,
    ProfileIdentity, ProfileOutputFormat, ProfileStyle, RegressionPolicy, RetrievalMode,
    RetrievalPolicy, SectionFormat, SemanticAssertion, EVAL_PLAN_SCHEMA_VERSION,
    EXPERT_PROFILE_SCHEMA_VERSION,
};

verus! {

pub const INTERVIEW_PRESET_NAME: &'static str = "Interview";

pub const JUNIOR_PLAYBOOK_ID: u128 = 0xd11208ae7cbd4af6849916db3c334fe1;

pub const MID_LEVEL_PLAYBOOK_ID: u128 = 0x2db094429d7a49c7b868bb24ef7a3496;

pub const EXPERT_PLAYBOOK_ID: u128 = 0xca74f59347fb46ea8877b5647989047c;

// ----------------------------------------------------------------------------
// Why the preset passes validation
// ----------------------------------------------------------------------------
/// A text value that validation accepts: not blank and within the byte limit.
pub open spec fn text_ok(s: Seq<char>) -> bool {
    !text::is_blank(s) && validation::byte_len(s) <= validation::MAX_STRING_BYTES
}

/// An output section that validation accepts on its own.
pub open spec fn section_ok(s: OutputSection) -> bool {
    &&& text_ok(s.id@)
    &&& validation::is_identifier_text(s.id@)
    &&& text_ok(s.title@)
    &&& text_ok(s.instruction@)
}

/// A playbook whose own fields validation accepts, with one section.
pub open spec fn playbook_ok(pb: MeetingPlaybook) -> bool {
    &&& text_ok(pb.name@)
    &&& text_ok(pb.description@)
    &&& text_ok(pb.objective@)
    &&& pb.sections@.len() == 1
    &&& section_ok(pb.sections@[0])
}

pub open spec fn texts_ok(v: Seq<String>) -> bool {
    forall|i: int| 0 <= i < v.len() ==> #[trigger] text_ok(v[i]@)
}

/// The titles of the preset's playbook sections differ from that of its
/// response section once trimmed and lower-cased as validation compares them.
pub open spec fn preset_titles_distinct() -> bool {
    &&& validation::normalized_title("Response"@) != validation::normalized_title("Junior depth"@)
    &&& validation::normalized_title("Response"@) != validation::normalized_title("Mid-level depth"@)
    &&& validation::normalized_title("Response"@) != validation::normalized_title("Expert depth"@)
}

/// Lower-cases the preset's section titles the way validation compares
/// them, which shows that they stay distinct.
fn check_preset_titles()
    ensures
        preset_titles_distinct(),
{
    let response = text::to_lowercase("Response");
    let junior = text::to_lowercase("Junior depth");
    let mid_level = text::to_lowercase("Mid-level depth");
    let expert = text::to_lowercase("Expert depth");
    proof {
        reveal_strlit("Response");
        reveal_strlit("Junior depth");
        reveal_strlit("Mid-level depth");
        reveal_strlit("Expert depth");
        assert(text::trim("Response"@) == "Response"@);
        assert(text::trim("Junior depth"@) == "Junior depth"@);
        assert(text::trim("Mid-level depth"@) == "Mid-level depth"@);
        assert(text::trim("Expert depth"@) == "Expert depth"@);
        assert(text::is_ascii_text("Response"@));
        assert(text::is_ascii_text("Junior depth"@));
        assert(text::is_ascii_text("Mid-level depth"@));
        assert(text::is_ascii_text("Expert depth"@));
        assert(response@[0] == 'r');
        assert(junior@[0] == 'j');
        assert(mid_level@[0] == 'm');
        assert(expert@[0] == 'e');
    }
}

proof fn lemma_byte_len_bound(s: Seq<char>)
    ensures
        validation::byte_len(s) <= 4 * s.len(),
    decreases s.len(),
{
    if s.len() > 0 {
        lemma_byte_len_bound(s.drop_first());
        assert(vstd::utf8::encode_scalar(s[0] as u32).len() <= 4);
    }
}

proof fn lemma_short_text(s: Seq<char>)
    requires
        0 < s.len() <= 4096,
        !text::is_ws(s[0]),
    ensures
        text_ok(s),
{
    lemma_byte_len_bound(s);
}

proof fn lemma_text_clean(path: Seq<char>, s: Seq<char>)
    requires
        text_ok(s),
    ensures
        validation::text_issues(path, s).len() == 0,
{
    assert(validation::text_issues(path, s) =~= Seq::empty());
}

proof fn lemma_text_items_clean(path: Seq<char>, values: Seq<String>, n: int)
    requires
        0 <= n <= values.len(),
        texts_ok(values),
    ensures
        validation::text_item_issues(path, values, n).len() == 0,
    decreases n,
{
    if n > 0 {
        lemma_text_items_clean(path, values, n - 1);
        assert(text_ok(values[n - 1]@));
        lemma_text_clean(validation::indexed(path, (n - 1) as nat), values[n - 1]@);
    }
}

proof fn lemma_text_list_clean(path: Seq<char>, values: Seq<String>)
    requires
        0 < values.len() <= validation::MAX_OBJECTIVES,
        texts_ok(values),
    ensures
        validation::text_list_issues(path, values, validation::MAX_OBJECTIVES as nat).len() == 0,
        validation::non_empty_text_list_issues(path, values, validation::MAX_OBJECTIVES as nat).len()
            == 0,
{
    lemma_text_items_clean(path, values, values.len() as int);
}

proof fn lemma_single_section_clean(path: Seq<char>, secs: Seq<OutputSection>, require_non_empty: bool)
    requires
        secs.len() == 1,
        section_ok(secs[0]),
    ensures
        validation::sections_issues(path, secs, require_non_empty).len() == 0,
{
    let sp = validation::indexed(path, 0);
    lemma_text_clean(sp + ".id"@, secs[0].id@);
    lemma_text_clean(sp + ".title"@, secs[0].title@);
    lemma_text_clean(sp + ".instruction"@, secs[0].instruction@);
    assert(validation::identifier_issues(sp + ".id"@, secs[0].id@).len() == 0);
    assert(!validation::repeats_earlier(validation::section_ids(secs), 0));
    assert(!validation::repeats_earlier(validation::section_titles(secs), 0));
    assert(validation::section_issue(path, secs, 0).len() == 0);
    assert(validation::section_item_issues(path, secs, 0) =~= Seq::empty());
    assert(validation::section_item_issues(path, secs, 1).len() == 0);
}

proof fn lemma_rendered_pair_clean(pp: Seq<char>, comb: Seq<OutputSection>)
    requires
        comb.len() == 2,
        comb[0].id@ != comb[1].id@,
        validation::normalized_title(comb[0].title@) != validation::normalized_title(comb[1].title@),
    ensures
        validation::rendered_item_issues(pp, comb, 2).len() == 0,
{
    let ids = validation::section_ids(comb);
    let titles = validation::section_titles(comb);
    assert(ids[0] == comb[0].id@ && ids[1] == comb[1].id@);
    assert(titles[0] == validation::normalized_title(comb[0].title@));
    assert(titles[1] == validation::normalized_title(comb[1].title@));
    assert(!validation::repeats_earlier(ids, 0));
    assert(!validation::repeats_earlier(titles, 0));
    assert(!validation::repeats_earlier(ids, 1));
    assert(!validation::repeats_earlier(titles, 1));
    assert(validation::rendered_issue(pp, comb, 0).len() == 0);
    assert(validation::rendered_issue(pp, comb, 1).len() == 0);
    assert(validation::rendered_item_issues(pp, comb, 0) =~= Seq::empty());
    assert(validation::rendered_item_issues(pp, comb, 1).len() == 0);
}

proof fn lemma_playbook_clean(p: ExpertProfileVersion, i: int)
    requires
        0 <= i < p.playbooks@.len(),
        !validation::playbook_id_repeats(p.playbooks@, i),
        playbook_ok(p.playbooks@[i]),
        p.output_contract.sections@.len() == 1,
        p.output_contract.sections@[0].id@ != p.playbooks@[i].sections@[0].id@,
        validation::normalized_title(p.output_contract.sections@[0].title@)
            != validation::normalized_title(p.playbooks@[i].sections@[0].title@),
    ensures
        validation::playbook_issue(p, i).len() == 0,
{
    let pb = p.playbooks@[i];
    let pp = validation::indexed("$.playbooks"@, i as nat);
    let comb = validation::combined_sections(p, pb);
    lemma_text_clean(pp + ".name"@, pb.name@);
    lemma_text_clean(pp + ".description"@, pb.description@);
    lemma_text_clean(pp + ".objective"@, pb.objective@);
    lemma_single_section_clean(pp + ".sections"@, pb.sections@, false);
    assert(comb[0] == p.output_contract.sections@[0]);
    assert(comb[1] == pb.sections@[0]);
    lemma_rendered_pair_clean(pp, comb);
}

/// A profile shaped like the preset, with every field accepted and the
/// rendered sections of each playbook distinct, has no validation issue.
proof fn lemma_preset_profile_clean(p: ExpertProfileVersion)
    requires
        p.schema_version == EXPERT_PROFILE_SCHEMA_VERSION,
        text_ok(p.identity.name@),
        text_ok(p.identity.description@),
        0 < p.identity.expertise@.len() <= validation::MAX_OBJECTIVES,
        texts_ok(p.identity.expertise@),
        0 < p.objectives@.len() <= validation::MAX_OBJECTIVES,
        texts_ok(p.objectives@),
        text_ok(p.perspective@),
        text_ok(p.style.tone@),
        text_ok(p.style.verbosity@),
        validation::is_language_code(p.style.language@),
        0 < p.boundaries.in_scope@.len() <= validation::MAX_OBJECTIVES,
        texts_ok(p.boundaries.in_scope@),
        0 < p.boundaries.out_of_scope@.len() <= validation::MAX_OBJECTIVES,
        texts_ok(p.boundaries.out_of_scope@),
        0 < p.boundaries.abstain_when@.len() <= validation::MAX_OBJECTIVES,
        texts_ok(p.boundaries.abstain_when@),
        text_ok(p.boundaries.escalation_policy@),
        p.output_contract.sections@.len() == 1,
        section_ok(p.output_contract.sections@[0]),
        p.playbooks@.len() == 3,
        p.playbooks@[0].id != p.playbooks@[1].id,
        p.playbooks@[0].id != p.playbooks@[2].id,
        p.playbooks@[1].id != p.playbooks@[2].id,
        forall|i: int|
            0 <= i < 3 ==> {
                &&& playbook_ok(#[trigger] p.playbooks@[i])
                &&& p.output_contract.sections@[0].id@ != p.playbooks@[i].sections@[0].id@
                &&& validation::normalized_title(p.output_contract.sections@[0].title@)
                    != validation::normalized_title(p.playbooks@[i].sections@[0].title@)
            },
    ensures
        validation::profile_issues(p).len() == 0,
{
    validation::lemma_profile_issues_parts(p);
    lemma_text_clean("$.identity.name"@, p.identity.name@);
    lemma_text_clean("$.identity.description"@, p.identity.description@);
    lemma_text_list_clean("$.identity.expertise"@, p.identity.expertise@);
    lemma_text_list_clean("$.objectives"@, p.objectives@);
    lemma_text_clean("$.perspective"@, p.perspective@);
    lemma_text_clean("$.style.tone"@, p.style.tone@);
    lemma_text_clean("$.style.verbosity"@, p.style.verbosity@);
    assert(validation::profile_head_issues(p).len() == 0);
    lemma_text_list_clean("$.boundaries.in_scope"@, p.boundaries.in_scope@);
    lemma_text_list_clean("$.boundaries.out_of_scope"@, p.boundaries.out_of_scope@);
    lemma_text_list_clean("$.boundaries.abstain_when"@, p.boundaries.abstain_when@);
    lemma_text_clean("$.boundaries.escalation_policy"@, p.boundaries.escalation_policy@);
    lemma_single_section_clean("$.output_contract.sections"@, p.output_contract.sections@, true);
    assert(validation::profile_boundary_issues(p).len() == 0);
    assert(playbook_ok(p.playbooks@[0]));
    assert(playbook_ok(p.playbooks@[1]));
    assert(playbook_ok(p.playbooks@[2]));
    lemma_playbook_clean(p, 0);
    lemma_playbook_clean(p, 1);
    lemma_playbook_clean(p, 2);
    assert(validation::playbook_item_issues(p, 0) =~= Seq::empty());
    assert(validation::playbook_item_issues(p, 1).len() == 0);
    assert(validation::playbook_item_issues(p, 2).len() == 0);
    assert(validation::playbook_item_issues(p, 3).len() == 0);
    assert(validation::profile_playbooks_issues(p).len() == 0);
}

/// The built-in interview preset: one response section and three
/// depth playbooks (Junior, Mid-level, Expert).  It passes validation.
pub fn interview_profile() -> (r: ExpertProfileVersion)
    ensures
        r.schema_version == EXPERT_PROFILE_SCHEMA_VERSION,
        r.identity.name@ == INTERVIEW_PRESET_NAME@,
        r.output_contract.title_required,
        r.output_contract.sections@.len() == 1,
        r.output_contract.sections@[0].id@ == "response"@,
        r.playbooks@.len() == 3,
        r.playbooks@[0].id == JUNIOR_PLAYBOOK_ID,
        r.playbooks@[1].id == MID_LEVEL_PLAYBOOK_ID,
        r.playbooks@[2].id == EXPERT_PLAYBOOK_ID,
        r.playbooks@[0].name@ == "Junior"@,
        r.playbooks@[1].name@ == "Mid-level"@,
        r.playbooks@[2].name@ == "Expert"@,
        r.playbooks@[2].sections@.len() == 1,
        r.playbooks@[2].sections@[0].instruction@ == expert_question_policy_text(),
        validation::profile_issues(r).len() == 0,
{
    check_preset_titles();
    let r = ExpertProfileVersion {
        schema_version: EXPERT_PROFILE_SCHEMA_VERSION,
        identity: preset_identity(),
        objectives: preset_objectives(),
        perspective: preset_perspective(),
        style: preset_style(),
        boundaries: preset_boundaries(),
        retrieval_policy: RetrievalPolicy {
            mode: RetrievalMode::TranscriptOnly,
        },
        output_contract: preset_output_contract(),
        playbooks: vec![junior_playbook(), mid_level_playbook(), expert_playbook()],
    };
    proof {
        {
            reveal_strlit("response");
            reveal_strlit("junior-depth");
            reveal_strlit("mid-level-depth");
            reveal_strlit("expert-depth");
            assert forall|i: int|
                0 <= i < 3 implies {
                    &&& playbook_ok(#[trigger] r.playbooks@[i])
                    &&& r.output_contract.sections@[0].id@ != r.playbooks@[i].sections@[0].id@
                    &&& validation::normalized_title(r.output_contract.sections@[0].title@)
                        != validation::normalized_title(r.playbooks@[i].sections@[0].title@)
                } by {
                if i == 0 {
                } else if i == 1 {
                } else {
                }
            }
            lemma_preset_profile_clean(r);
        }
    }
    r
}

fn preset_identity() -> (r: ProfileIdentity)
    ensures
        r.name@ == INTERVIEW_PRESET_NAME@,
        text_ok(r.name@),
        text_ok(r.description@),
        r.expertise@.len() == 3,
        texts_ok(r.expertise@),
{
    let r = ProfileIdentity {
        name: string_from(INTERVIEW_PRESET_NAME),
        description: string_from("An interview context preset with Junior, Mid-level, and Expert response-depth playbooks. It does not change the selected professional identity or recorded authority."),
        expertise: preset_expertise(),
    };
    proof {
        reveal_strlit("Interview");
        reveal_strlit("An interview context preset with Junior, Mid-level, and Expert response-depth playbooks. It does not change the selected professional identity or recorded authority.");
        lemma_short_text(r.name@);
        lemma_short_text(r.description@);
    }
    r
}

fn preset_perspective() -> (r: String)
    ensures
        text_ok(r@),
{
    let r = string_from("The selected Professional Identity answering an interview question for themselves; the selected playbook changes analytical depth, not identity, seniority, biography, or authority.");
    proof {
        reveal_strlit("The selected Professional Identity answering an interview question for themselves; the selected playbook changes analytical depth, not identity, seniority, biography, or authority.");
        lemma_short_text(r@);
    }
    r
}

fn preset_style() -> (r: ProfileStyle)
    ensures
        text_ok(r.tone@),
        text_ok(r.verbosity@),
        validation::is_language_code(r.language@),
{
    let r = ProfileStyle {
        tone: string_from("clear, composed, credible, practical, and natural when spoken aloud"),
        verbosity: string_from("question-appropriate; content requirements determine useful length and word ranges are soft targets"),
        language: string_from("en"),
        format: ProfileOutputFormat::Markdown,
    };
    proof {
        reveal_strlit("clear, composed, credible, practical, and natural when spoken aloud");
        reveal_strlit("question-appropriate; content requirements determine useful length and word ranges are soft targets");
        reveal_strlit("en");
        lemma_short_text(r.tone@);
        lemma_short_text(r.verbosity@);
    }
    r
}

fn preset_boundaries() -> (r: ProfileBoundaries)
    ensures
        r.in_scope@.len() == 6,
        texts_ok(r.in_scope@),
        r.out_of_scope@.len() == 4,
        texts_ok(r.out_of_scope@),
        r.abstain_when@.len() == 3,
        texts_ok(r.abstain_when@),
        text_ok(r.escalation_policy@),
{
    let r = ProfileBoundaries {
        in_scope: preset_in_scope(),
        out_of_scope: preset_out_of_scope(),
        abstain_when: preset_abstain_when(),
        escalation_policy: string_from("State the boundary naturally in first person, identify what must be checked or escalated, and do not expand the user's recorded authority."),
    };
    proof {
        reveal_strlit("State the boundary naturally in first person, identify what must be checked or escalated, and do not expand the user's recorded authority.");
        lemma_short_text(r.escalation_policy@);
    }
    r
}

fn preset_output_contract() -> (r: OutputContract)
    ensures
        r.title_required,
        r.sections@.len() == 1,
        section_ok(r.sections@[0]),
        r.sections@[0].id@ == "response"@,
        r.sections@[0].title@ == "Response"@,
{
    let r = OutputContract {
        title_required: true,
        sections: vec![OutputSection {
            id: string_from("response"),
            title: string_from("Response"),
            instruction: string_from("Provide the direct answer supported by the available evidence."),
            format: SectionFormat::Paragraph,
            required: true,
        }],
    };
    proof {
        reveal_strlit("response");
        reveal_strlit("Response");
        reveal_strlit("Provide the direct answer supported by the available evidence.");
        lemma_short_text(r.sections@[0].id@);
        lemma_short_text(r.sections@[0].title@);
        lemma_short_text(r.sections@[0].instruction@);
    }
    r
}

/// What the preset's identity claims expertise in.
fn preset_expertise() -> (r: Vec<String>)
    ensures
        r@.len() == 3,
        texts_ok(r@),
{
    let r = vec![
        string_from("professional interview responses"),
        string_from("question-appropriate response depth"),
        string_from("first-person spoken answers"),
    ];
    proof {
        reveal_strlit("professional interview responses");
        reveal_strlit("question-appropriate response depth");
        reveal_strlit("first-person spoken answers");
        lemma_short_text(r@[0]@);
        lemma_short_text(r@[1]@);
        lemma_short_text(r@[2]@);
        assert forall|i: int| 0 <= i < r@.len() implies #[trigger] text_ok(r@[i]@) by {
            if i == 0 {
            } else if i == 1 {
            } else {
            }
        }
    }
    r
}

/// The preset's objectives.
fn preset_objectives() -> (r: Vec<String>)
    ensures
        r@.len() == 4,
        texts_ok(r@),
{
    let r = vec![
        string_from("Answer the actual question directly before expanding it."),
        string_from("Match the content of the interview answer to the selected depth level rather than padding or compressing by percentage."),
        string_from("Use only current facts and authority supplied by the selected Professional Identity."),
        string_from("Keep the response natural, first-person, and ready to speak aloud."),
    ];
    proof {
        reveal_strlit("Answer the actual question directly before expanding it.");
        reveal_strlit("Match the content of the interview answer to the selected depth level rather than padding or compressing by percentage.");
        reveal_strlit("Use only current facts and authority supplied by the selected Professional Identity.");
        reveal_strlit("Keep the response natural, first-person, and ready to speak aloud.");
        lemma_short_text(r@[0]@);
        lemma_short_text(r@[1]@);
        lemma_short_text(r@[2]@);
        lemma_short_text(r@[3]@);
        assert forall|i: int| 0 <= i < r@.len() implies #[trigger] text_ok(r@[i]@) by {
            if i == 0 {
            } else if i == 1 {
            } else if i == 2 {
            } else {
            }
        }
    }
    r
}

/// What the preset covers.
fn preset_in_scope() -> (r: Vec<String>)
    ensures
        r@.len() == 6,
        texts_ok(r@),
{
    let r = vec![
        string_from("professional interviews"),
        string_from("leadership and management questions"),
        string_from("strategy and implementation"),
        string_from("urgent operational scenarios"),
        string_from("governance, safeguarding, finance, ethics, and partnerships"),
        string_from("career, suitability, capability-gap, behavioural, and closing questions"),
    ];
    proof {
        reveal_strlit("professional interviews");
        reveal_strlit("leadership and management questions");
        reveal_strlit("strategy and implementation");
        reveal_strlit("urgent operational scenarios");
        reveal_strlit("governance, safeguarding, finance, ethics, and partnerships");
        reveal_strlit("career, suitability, capability-gap, behavioural, and closing questions");
        lemma_short_text(r@[0]@);
        lemma_short_text(r@[1]@);
        lemma_short_text(r@[2]@);
        lemma_short_text(r@[3]@);
        lemma_short_text(r@[4]@);
        lemma_short_text(r@[5]@);
        assert forall|i: int| 0 <= i < r@.len() implies #[trigger] text_ok(r@[i]@) by {
            if i == 0 {
            } else if i == 1 {
            } else if i == 2 {
            } else if i == 3 {
            } else if i == 4 {
            } else {
            }
        }
    }
    r
}

/// What the preset refuses.
fn preset_out_of_scope() -> (r: Vec<String>)
    ensures
        r@.len() == 4,
        texts_ok(r@),
{
    let r = vec![
        string_from("inventing experience, outcomes, dates, amounts, commitments, or authority"),
        string_from("turning a proposed response into meeting history"),
        string_from("claiming specialist competence not supported by the Professional Identity"),
        string_from("giving coaching instructions instead of the words to speak"),
    ];
    proof {
        reveal_strlit("inventing experience, outcomes, dates, amounts, commitments, or authority");
        reveal_strlit("turning a proposed response into meeting history");
        reveal_strlit("claiming specialist competence not supported by the Professional Identity");
        reveal_strlit("giving coaching instructions instead of the words to speak");
        lemma_short_text(r@[0]@);
        lemma_short_text(r@[1]@);
        lemma_short_text(r@[2]@);
        lemma_short_text(r@[3]@);
        assert forall|i: int| 0 <= i < r@.len() implies #[trigger] text_ok(r@[i]@) by {
            if i == 0 {
            } else if i == 1 {
            } else if i == 2 {
            } else {
            }
        }
    }
    r
}

/// When the preset abstains.
fn preset_abstain_when() -> (r: Vec<String>)
    ensures
        r@.len() == 3,
        texts_ok(r@),
{
    let r = vec![
        string_from("the answer depends on a material fact absent from the Professional Identity"),
        string_from("current identity sources conflict or are expired"),
        string_from("the question asks for an authority or commitment the identity does not record"),
    ];
    proof {
        reveal_strlit("the answer depends on a material fact absent from the Professional Identity");
        reveal_strlit("current identity sources conflict or are expired");
        reveal_strlit("the question asks for an authority or commitment the identity does not record");
        lemma_short_text(r@[0]@);
        lemma_short_text(r@[1]@);
        lemma_short_text(r@[2]@);
        assert forall|i: int| 0 <= i < r@.len() implies #[trigger] text_ok(r@[i]@) by {
            if i == 0 {
            } else if i == 1 {
            } else {
            }
        }
    }
    r
}

fn junior_playbook() -> (r: MeetingPlaybook)
    ensures
        r.id == JUNIOR_PLAYBOOK_ID,
        r.name@ == "Junior"@,
        playbook_ok(r),
        r.sections@[0].id@ == "junior-depth"@,
        r.sections@[0].title@ == "Junior depth"@,
{
    let objective = objective_with_policy("Give a direct position, explain the core principle, describe the immediate practical action, and acknowledge any material limit. Prefer clarity and correctness over complexity. Do not imitate an expert answer by merely shortening it. ", concise_shape_policy());
    let r = MeetingPlaybook {
        id: JUNIOR_PLAYBOOK_ID,
        name: string_from("Junior"),
        description: string_from("Clear foundational answers that demonstrate sound basics without pretending to senior judgment."),
        objective,
        sections: vec![OutputSection {
            id: string_from("junior-depth"),
            title: string_from("Junior depth"),
            instruction: string_from("Cover the relevant fundamentals, one practical application, and the boundary of what can be claimed from the Professional Identity. Avoid unsupported strategic, governance, or precedent claims."),
            format: SectionFormat::Paragraph,
            required: true,
        }],
    };
    proof {
        reveal_strlit("Junior");
        reveal_strlit("Clear foundational answers that demonstrate sound basics without pretending to senior judgment.");
        reveal_strlit("Give a direct position, explain the core principle, describe the immediate practical action, and acknowledge any material limit. Prefer clarity and correctness over complexity. Do not imitate an expert answer by merely shortening it. ");
        reveal_strlit("junior-depth");
        reveal_strlit("Junior depth");
        reveal_strlit("Cover the relevant fundamentals, one practical application, and the boundary of what can be claimed from the Professional Identity. Avoid unsupported strategic, governance, or precedent claims.");
        lemma_short_text(r.name@);
        lemma_short_text(r.description@);
        lemma_short_text(r.objective@);
        lemma_short_text(r.sections@[0].id@);
        lemma_short_text(r.sections@[0].title@);
        lemma_short_text(r.sections@[0].instruction@);
    }
    r
}

fn mid_level_playbook() -> (r: MeetingPlaybook)
    ensures
        r.id == MID_LEVEL_PLAYBOOK_ID,
        r.name@ == "Mid-level"@,
        playbook_ok(r),
        r.sections@[0].id@ == "mid-level-depth"@,
        r.sections@[0].title@ == "Mid-level depth"@,
{
    let objective = objective_with_policy("Give a direct position, show how it would be applied, sequence the main actions, identify the principal trade-off or risk, and connect the approach to stakeholders and intended outcomes. Do not imitate an expert answer by removing sentences from it. ", structured_shape_policy());
    let r = MeetingPlaybook {
        id: MID_LEVEL_PLAYBOOK_ID,
        name: string_from("Mid-level"),
        description: string_from("Applied professional judgment connecting principles to delivery, people, risks, and outcomes."),
        objective,
        sections: vec![OutputSection {
            id: string_from("mid-level-depth"),
            title: string_from("Mid-level depth"),
            instruction: string_from("Demonstrate applied judgment through method, prioritization, coordination, one meaningful risk or trade-off, appropriate control or escalation, and the intended operational result."),
            format: SectionFormat::Paragraph,
            required: true,
        }],
    };
    proof {
        reveal_strlit("Mid-level");
        reveal_strlit("Applied professional judgment connecting principles to delivery, people, risks, and outcomes.");
        reveal_strlit("Give a direct position, show how it would be applied, sequence the main actions, identify the principal trade-off or risk, and connect the approach to stakeholders and intended outcomes. Do not imitate an expert answer by removing sentences from it. ");
        reveal_strlit("mid-level-depth");
        reveal_strlit("Mid-level depth");
        reveal_strlit("Demonstrate applied judgment through method, prioritization, coordination, one meaningful risk or trade-off, appropriate control or escalation, and the intended operational result.");
        lemma_short_text(r.name@);
        lemma_short_text(r.description@);
        lemma_short_text(r.objective@);
        lemma_short_text(r.sections@[0].id@);
        lemma_short_text(r.sections@[0].title@);
        lemma_short_text(r.sections@[0].instruction@);
    }
    r
}

fn expert_playbook() -> (r: MeetingPlaybook)
    ensures
        r.id == EXPERT_PLAYBOOK_ID,
        r.name@ == "Expert"@,
        r.sections@.len() == 1,
        r.sections@[0].instruction@ == expert_question_policy_text(),
        playbook_ok(r),
        r.sections@[0].id@ == "expert-depth"@,
        r.sections@[0].title@ == "Expert depth"@,
{
    let r = MeetingPlaybook {
        id: EXPERT_PLAYBOOK_ID,
        name: string_from("Expert"),
        description: string_from("Maximum-depth professional judgment adapted to the type and consequence of the question."),
        objective: string_from("Give the opening answer first so it remains useful if the panel interrupts or probes. Then demonstrate expert judgment through competing constraints, second-order effects, governance or precedent where relevant, explicit boundaries, and a defensible conclusion. Select the closest interview question type internally and do not name the type in the response."),
        sections: vec![OutputSection {
            id: string_from("expert-depth"),
            title: string_from("Expert depth"),
            instruction: string_from(expert_question_policy()),
            format: SectionFormat::Paragraph,
            required: true,
        }],
    };
    proof {
        reveal_strlit("Expert");
        reveal_strlit("Maximum-depth professional judgment adapted to the type and consequence of the question.");
        reveal_strlit("Give the opening answer first so it remains useful if the panel interrupts or probes. Then demonstrate expert judgment through competing constraints, second-order effects, governance or precedent where relevant, explicit boundaries, and a defensible conclusion. Select the closest interview question type internally and do not name the type in the response.");
        reveal_strlit("expert-depth");
        reveal_strlit("Expert depth");
        lemma_expert_policy_text();
        lemma_short_text(r.name@);
        lemma_short_text(r.description@);
        lemma_short_text(r.objective@);
        lemma_short_text(r.sections@[0].id@);
        lemma_short_text(r.sections@[0].title@);
        lemma_short_text(r.sections@[0].instruction@);
    }
    r
}

fn concise_shape_policy() -> (r: &'static str)
    ensures
        r@.len() <= 1024,
{
    proof {
        reveal_strlit("Infer the closest question shape. For factual and career questions, lead with the single supported fact or example. For hypothetical questions, answer prospectively with the best-practice first step. For capability gaps, name the boundary before the proposed approach. For commitments, state conditions and authority limits.");
    }
    "Infer the closest question shape. For factual and career questions, lead with the single supported fact or example. For hypothetical questions, answer prospectively with the best-practice first step. For capability gaps, name the boundary before the proposed approach. For commitments, state conditions and authority limits."
}
fn structured_shape_policy() -> (r: &'static str)
    ensures
        r@.len() <= 1024,
{
    proof {
        reveal_strlit("Infer the closest question shape. For factual and career questions, connect supported evidence to the role. For hypothetical questions, give a prospective sequence with risks and controls. For capability gaps, name the boundary, transferable evidence, and proposed approach. For commitments, state dependencies, controls, and authority limits.");
    }
    "Infer the closest question shape. For factual and career questions, connect supported evidence to the role. For hypothetical questions, give a prospective sequence with risks and controls. For capability gaps, name the boundary, transferable evidence, and proposed approach. For commitments, state dependencies, controls, and authority limits."
}

pub open spec fn expert_question_policy_text() -> Seq<char> {
    "Select the closest interview question type internally and do not print its name. The general types are: Strategic implementation: 220-275 words; cover sequencing, priorities, and intended outcomes. Direct factual or commitment: 80-140 words; answer directly because a longer response can sound evasive. Urgent operational scenario: 110-170 words; state the decision quickly, then the essential rationale and controls. Beneficiary communication or ethical scenario: 140-180 words; show empathy, authority boundaries, and next steps. Governance, safeguarding, or financial question: 170-220 words; cover principles, controls, and escalation. External partnership: 170-220 words; cover evidence, method, boundaries, and expected outcome. The interview-specific types are: Major career or suitability narrative: 200-250 words; give a clear position, supporting evidence, and connection to the role. Capability-gap question: 140-180 words; acknowledge the boundary, show transferable evidence, and present a credible plan. Behavioural failure: 200-250 words; cover context, ownership, consequence, correction, and learning. Comparative closing: 180-220 words; differentiate the speaker without dismissing other candidates. These are soft maximum-depth targets, not padding requirements. The first two sentences must still provide the complete opening answer."@
}

proof fn lemma_expert_policy_text()
    ensures
        0 < expert_question_policy_text().len() <= 4096,
        !text::is_ws(expert_question_policy_text()[0]),
{
    reveal_strlit("Select the closest interview question type internally and do not print its name. The general types are: Strategic implementation: 220-275 words; cover sequencing, priorities, and intended outcomes. Direct factual or commitment: 80-140 words; answer directly because a longer response can sound evasive. Urgent operational scenario: 110-170 words; state the decision quickly, then the essential rationale and controls. Beneficiary communication or ethical scenario: 140-180 words; show empathy, authority boundaries, and next steps. Governance, safeguarding, or financial question: 170-220 words; cover principles, controls, and escalation. External partnership: 170-220 words; cover evidence, method, boundaries, and expected outcome. The interview-specific types are: Major career or suitability narrative: 200-250 words; give a clear position, supporting evidence, and connection to the role. Capability-gap question: 140-180 words; acknowledge the boundary, show transferable evidence, and present a credible plan. Behavioural failure: 200-250 words; cover context, ownership, consequence, correction, and learning. Comparative closing: 180-220 words; differentiate the speaker without dismissing other candidates. These are soft maximum-depth targets, not padding requirements. The first two sentences must still provide the complete opening answer.");
}

fn expert_question_policy() -> (r: &'static str)
    ensures
        r@ == expert_question_policy_text(),
{
    "Select the closest interview question type internally and do not print its name. The general types are: Strategic implementation: 220-275 words; cover sequencing, priorities, and intended outcomes. Direct factual or commitment: 80-140 words; answer directly because a longer response can sound evasive. Urgent operational scenario: 110-170 words; state the decision quickly, then the essential rationale and controls. Beneficiary communication or ethical scenario: 140-180 words; show empathy, authority boundaries, and next steps. Governance, safeguarding, or financial question: 170-220 words; cover principles, controls, and escalation. External partnership: 170-220 words; cover evidence, method, boundaries, and expected outcome. The interview-specific types are: Major career or suitability narrative: 200-250 words; give a clear position, supporting evidence, and connection to the role. Capability-gap question: 140-180 words; acknowledge the boundary, show transferable evidence, and present a credible plan. Behavioural failure: 200-250 words; cover context, ownership, consequence, correction, and learning. Comparative closing: 180-220 words; differentiate the speaker without dismissing other candidates. These are soft maximum-depth targets, not padding requirements. The first two sentences must still provide the complete opening answer."
}

fn objective_with_policy(objective: &str, policy: &str) -> (r: String)
    ensures
        r@ == objective@ + policy@,
{
    let mut out = string_from(objective);
    push_str(&mut out, policy);
    out
}


// ----------------------------------------------------------------------------
// The preset's evaluation plan
// ----------------------------------------------------------------------------
pub const GROUNDING_QUESTION: &'static str = "Does every past-tense factual claim remain supported by the controlled evidence package?";

pub const AUTHORITY_QUESTION: &'static str = "Does the answer preserve the documented object and scope of authority without expansion?";

pub const PAST_VS_PROSPECTIVE_QUESTION: &'static str = "Does the answer keep documented experience separate from prospective method and commitment?";

pub const DIRECTNESS_QUESTION: &'static str = "Does the answer address the panel's actual question directly?";

pub const CONCISION_QUESTION: &'static str = "Is the answer natural to speak and no longer than its substance requires?";

pub const JUNIOR_DEPTH_RUBRIC: &'static str = "Does the response clearly cover fundamentals and immediate practical application without inventing senior authority or merely compressing an expert answer?";

pub const MID_LEVEL_DEPTH_RUBRIC: &'static str = "Does the response demonstrate applied judgment through sequencing, stakeholders, a meaningful trade-off or risk, and an intended operational outcome?";

pub const EXPERT_DEPTH_RUBRIC: &'static str = "Does the response adapt to the question type, lead with a complete answer, and demonstrate competing constraints, second-order effects, appropriate governance, and defensible judgment without padding?";

pub const DEFAULT_DEPTH_RUBRIC: &'static str = "Does the response follow the selected depth contract?";

/// The depth rubric asked of a playbook, chosen by its name.
pub open spec fn depth_rubric_text(name: Seq<char>) -> Seq<char> {
    if name == "Junior"@ {
        JUNIOR_DEPTH_RUBRIC@
    } else if name == "Mid-level"@ {
        MID_LEVEL_DEPTH_RUBRIC@
    } else if name == "Expert"@ {
        EXPERT_DEPTH_RUBRIC@
    } else {
        DEFAULT_DEPTH_RUBRIC@
    }
}

/// A semantic dimension of a case: which dimension, how it applies, and the
/// question a human adjudicator answers.
pub type DimensionSpec = (EvaluationDimension, DimensionApplicability, Seq<char>);

/// The six dimensions in order: the four mandatory ones as the fixture
/// declares them, then depth and concision.
pub open spec fn all_dimensions(a: MandatoryApplicability, playbook_name: Seq<char>) -> Seq<DimensionSpec> {
    seq![
        (EvaluationDimension::Grounding, a.grounding, GROUNDING_QUESTION@),
        (EvaluationDimension::Authority, a.authority, AUTHORITY_QUESTION@),
        (EvaluationDimension::PastVsProspective, a.past_vs_prospective, PAST_VS_PROSPECTIVE_QUESTION@),
        (EvaluationDimension::Directness, a.directness, DIRECTNESS_QUESTION@),
        (EvaluationDimension::Depth, DimensionApplicability::Applicable, depth_rubric_text(playbook_name)),
        (EvaluationDimension::Concision, DimensionApplicability::Applicable, CONCISION_QUESTION@),
    ]
}

/// The first `n` dimensions without those that do not apply.
pub open spec fn applicable_dimensions(dims: Seq<DimensionSpec>, n: int) -> Seq<DimensionSpec>
    decreases n,
{
    if n <= 0 {
        Seq::empty()
    } else {
        applicable_dimensions(dims, n - 1) + if dims[n - 1].1 != DimensionApplicability::NotApplicable {
            seq![dims[n - 1]]
        } else {
            Seq::empty()
        }
    }
}

/// The dimensions a case of a fixture with applicability `a` is judged on.
pub open spec fn case_dimensions(a: MandatoryApplicability, playbook_name: Seq<char>) -> Seq<DimensionSpec> {
    applicable_dimensions(all_dimensions(a, playbook_name), 6)
}

/// A human-adjudicated dimension rubric with an in-range threshold.
pub open spec fn rubric_is(r: SemanticAssertion, d: DimensionSpec) -> bool {
    &&& r matches SemanticAssertion::DimensionRubric {
        dimension,
        applicability,
        question,
        adjudicator,
        threshold_in_range,
    }
    &&& dimension == d.0
    &&& applicability == d.1
    &&& question@ == d.2
    &&& adjudicator == AdjudicatorKind::Human
    &&& threshold_in_range
}

pub open spec fn rubrics_are(v: Seq<SemanticAssertion>, dims: Seq<DimensionSpec>) -> bool {
    &&& v.len() == dims.len()
    &&& forall|i: int| 0 <= i < v.len() ==> rubric_is(#[trigger] v[i], dims[i])
}

/// The part of a case id that names its playbook: the lower-cased name with
/// spaces turned into hyphens.
pub open spec fn case_slug(name: Seq<char>) -> Seq<char> {
    text::replace_all(text::unicode_lowercase(name), " "@, "-"@)
}

/// `c` is the preset's case for fixture `f` and playbook `pb`.
pub open spec fn is_preset_case(c: EvalCase, f: EvalFixture, pb: MeetingPlaybook) -> bool {
    &&& c.id@ == f.id@ + "-"@ + case_slug(pb.name@)
    &&& c.fixture_id@ == f.id@
    &&& c.playbook_id == pb.id
    &&& c.assertions.hard@.len() == 2
    &&& c.assertions.hard@[0] is SchemaCompliance
    &&& c.assertions.hard@[1] matches HardAssertion::SectionPresent { section_id }
    &&& section_id@ == "response"@
    &&& f.applicability matches Some(a)
    &&& rubrics_are(c.assertions.semantic@, case_dimensions(a, pb.name@))
}

/// What the preset declares of its fixture with a given id.
pub open spec fn is_preset_fixture(
    f: EvalFixture,
    id: Seq<char>,
    shape: AnswerShape,
    contract: EvidenceContract,
    a: MandatoryApplicability,
) -> bool {
    &&& f.id@ == id
    &&& f.source@ == "synthetic:user"@
    &&& f.suite == EvalSuite::Depth
    &&& f.content_hash@ == validation::fixture_digest(f.transcript_text@)
    &&& f.answer_shape == Some(shape)
    &&& f.evidence_contracts@ == seq![contract]
    &&& f.applicability == Some(a)
    &&& f.evidence_records@.len() == 1
}

pub open spec fn applicability(
    grounding: DimensionApplicability,
    authority: DimensionApplicability,
    past_vs_prospective: DimensionApplicability,
    directness: DimensionApplicability,
) -> MandatoryApplicability {
    MandatoryApplicability { grounding, authority, past_vs_prospective, directness }
}

fn depth_rubric(name: &str) -> (r: &'static str)
    ensures
        r@ == depth_rubric_text(name@),
{
    if text::str_eq(name, "Junior") {
        JUNIOR_DEPTH_RUBRIC
    } else if text::str_eq(name, "Mid-level") {
        MID_LEVEL_DEPTH_RUBRIC
    } else if text::str_eq(name, "Expert") {
        EXPERT_DEPTH_RUBRIC
    } else {
        DEFAULT_DEPTH_RUBRIC
    }
}

/// Appends a human-adjudicated rubric for a dimension unless it does not apply.
fn push_dimension(
    out: &mut Vec<SemanticAssertion>,
    dimension: EvaluationDimension,
    applicability: DimensionApplicability,
    question: &str,
    Ghost(done): Ghost<Seq<DimensionSpec>>,
)
    requires
        rubrics_are(old(out)@, done),
    ensures
        rubrics_are(
            final(out)@,
            done + if applicability != DimensionApplicability::NotApplicable {
                seq![(dimension, applicability, question@)]
            } else {
                Seq::empty()
            },
        ),
{
    if applicability != DimensionApplicability::NotApplicable {
        out.push(
            SemanticAssertion::DimensionRubric {
                dimension,
                applicability,
                question: string_from(question),
                adjudicator: AdjudicatorKind::Human,
                threshold_in_range: true,
            },
        );
    }
    proof {
        let added = if applicability != DimensionApplicability::NotApplicable {
            seq![(dimension, applicability, question@)]
        } else {
            Seq::<DimensionSpec>::empty()
        };
        assert forall|i: int| 0 <= i < out@.len() implies rubric_is(#[trigger] out@[i], (done + added)[i]) by {
            if i < done.len() {
                assert(out@[i] == old(out)@[i]);
            }
        }
    }
}

/// The semantic rubrics of a case: the dimensions that apply to its
/// fixture, and the depth rubric of its playbook.
fn semantic_dimensions(a: MandatoryApplicability, playbook_name: &str) -> (r: Vec<SemanticAssertion>)
    ensures
        rubrics_are(r@, case_dimensions(a, playbook_name@)),
{
    let ghost dims = all_dimensions(a, playbook_name@);
    let mut out: Vec<SemanticAssertion> = Vec::new();
    proof {
        assert(rubrics_are(out@, applicable_dimensions(dims, 0)));
    }
    push_dimension(&mut out, EvaluationDimension::Grounding, a.grounding, GROUNDING_QUESTION, Ghost(applicable_dimensions(dims, 0)));
    assert(applicable_dimensions(dims, 1) =~= applicable_dimensions(dims, 0) + if dims[0].1 != DimensionApplicability::NotApplicable { seq![dims[0]] } else { Seq::empty() });
    push_dimension(&mut out, EvaluationDimension::Authority, a.authority, AUTHORITY_QUESTION, Ghost(applicable_dimensions(dims, 1)));
    push_dimension(&mut out, EvaluationDimension::PastVsProspective, a.past_vs_prospective, PAST_VS_PROSPECTIVE_QUESTION, Ghost(applicable_dimensions(dims, 2)));
    push_dimension(&mut out, EvaluationDimension::Directness, a.directness, DIRECTNESS_QUESTION, Ghost(applicable_dimensions(dims, 3)));
    let rubric = depth_rubric(playbook_name);
    push_dimension(&mut out, EvaluationDimension::Depth, DimensionApplicability::Applicable, rubric, Ghost(applicable_dimensions(dims, 4)));
    push_dimension(&mut out, EvaluationDimension::Concision, DimensionApplicability::Applicable, CONCISION_QUESTION, Ghost(applicable_dimensions(dims, 5)));
    out
}

fn record(id: &str, content: &str) -> (r: EvalEvidenceRecord)
    ensures
        r.id@ == id@,
        r.content@ == content@,
{
    EvalEvidenceRecord { id: string_from(id), content: string_from(content) }
}

fn strings(items: &[&str]) -> (r: Vec<String>)
    ensures
        r@.len() == items@.len(),
        forall|i: int| 0 <= i < items@.len() ==> #[trigger] r@[i]@ == items@[i]@,
{
    let mut out: Vec<String> = Vec::new();
    for i in 0..items.len()
        invariant
            out@.len() == i,
            forall|k: int| 0 <= k < i ==> #[trigger] out@[k]@ == items@[k]@,
    {
        out.push(string_from(items[i]));
    }
    out
}

/// A synthetic depth fixture whose content hash is the digest of its
/// transcript text.
fn fixture(
    id: &str,
    answer_shape: AnswerShape,
    contract: EvidenceContract,
    transcript_text: &str,
    evidence: EvalEvidenceRecord,
    required_elements: Vec<String>,
    forbidden_expansions: Vec<String>,
    applicability: MandatoryApplicability,
) -> (r: EvalFixture)
    ensures
        is_preset_fixture(r, id@, answer_shape, contract, applicability),
        r.transcript_text@ == transcript_text@,
        r.evidence_records@ == seq![evidence],
        r.required_elements == required_elements,
        r.forbidden_expansions == forbidden_expansions,
{
    let mut evidence_contracts: Vec<EvidenceContract> = Vec::new();
    evidence_contracts.push(contract);
    let mut evidence_records: Vec<EvalEvidenceRecord> = Vec::new();
    evidence_records.push(evidence);
    proof {
        assert(evidence_contracts@ =~= seq![contract]);
        assert(evidence_records@ =~= seq![evidence]);
    }
    EvalFixture {
        id: string_from(id),
        content_hash: hash_fixture_text(transcript_text),
        source: string_from("synthetic:user"),
        transcript_text: string_from(transcript_text),
        suite: EvalSuite::Depth,
        answer_shape: Some(answer_shape),
        evidence_contracts,
        evidence_records,
        required_elements,
        forbidden_expansions,
        applicability: Some(applicability),
    }
}


/// What the preset declares of its six fixtures, in order.
pub open spec fn preset_fixtures_are(f: Seq<EvalFixture>) -> bool {
    let app = DimensionApplicability::Applicable;
    let exp = DimensionApplicability::Expected;
    &&& f.len() == 6
    &&& is_preset_fixture(
        f[0],
        "biography"@,
        AnswerShape::CareerSuitability,
        EvidenceContract::DocumentedOnly,
        applicability(app, app, app, app),
    )
    &&& is_preset_fixture(
        f[1],
        "tripoli-authority"@,
        AnswerShape::CareerSuitability,
        EvidenceContract::DocumentedOnly,
        applicability(app, app, app, app),
    )
    &&& is_preset_fixture(
        f[2],
        "pressure-leadership"@,
        AnswerShape::BehavioralFailure,
        EvidenceContract::DocumentedOnly,
        applicability(app, app, app, app),
    )
    &&& is_preset_fixture(
        f[3],
        "safeguarding-hypothetical"@,
        AnswerShape::GovernanceSafeguardingFinancial,
        EvidenceContract::ProspectiveAllowed,
        applicability(exp, app, exp, app),
    )
    &&& is_preset_fixture(
        f[4],
        "conditional-commitment"@,
        AnswerShape::DirectFactualCommitment,
        EvidenceContract::ConditionalCommitment,
        applicability(app, exp, exp, app),
    )
    &&& is_preset_fixture(
        f[5],
        "capability-gap"@,
        AnswerShape::CapabilityGap,
        EvidenceContract::BoundaryThenProspective,
        applicability(exp, exp, exp, app),
    )
}

fn interview_fixtures() -> (r: Vec<EvalFixture>)
    ensures
        preset_fixtures_are(r@),
{
    let app = DimensionApplicability::Applicable;
    let exp = DimensionApplicability::Expected;
    let mut out: Vec<EvalFixture> = Vec::new();
    out.push(fixture(
        "biography",
        AnswerShape::CareerSuitability,
        EvidenceContract::DocumentedOnly,
        "Panel: Tell us about yourself and why your background fits this role.",
        record("career", "The candidate has fourteen years of humanitarian operations experience, including five years leading an eight-person processing team and five years designing regional compliance systems across fifteen country offices."),
        strings(&["career-spanning narrative", "direct connection to the role"]),
        strings(&["invented titles", "unsupported whole-mission authority"]),
        MandatoryApplicability { grounding: app, authority: app, past_vs_prospective: app, directness: app },
    ));
    out.push(fixture(
        "tripoli-authority",
        AnswerShape::CareerSuitability,
        EvidenceContract::DocumentedOnly,
        "Panel: Tell me about the Tripoli operation and be precise about what you led and what remained outside your authority.",
        record("tripoli", "During a three-week operation serving about one thousand people, the candidate led the health-processing workstream, supervising two data staff and two nurses and coordinating with two physicians. Clinical decisions remained with the physicians and overall mission authority remained outside the candidate's workstream."),
        strings(&["workstream leadership", "clinical and mission-authority boundaries"]),
        strings(&["managed the whole operation", "made clinical decisions"]),
        MandatoryApplicability { grounding: app, authority: app, past_vs_prospective: app, directness: app },
    ));
    out.push(fixture(
        "pressure-leadership",
        AnswerShape::BehavioralFailure,
        EvidenceContract::DocumentedOnly,
        "Panel: Give an example of leading under pressure when plans kept changing.",
        record("evacuation", "As processing-team lead during an evacuation response, the candidate sequenced groups of 200 to 250 people through multiple screening and departure stages, built a scheduling tool to prevent bottlenecks, and handled daily enquiries while conditions changed."),
        strings(&["specific pressure context", "actions and operational result"]),
        strings(&["sole authority for the evacuation", "fabricated measured outcome"]),
        MandatoryApplicability { grounding: app, authority: app, past_vs_prospective: app, directness: app },
    ));
    out.push(fixture(
        "safeguarding-hypothetical",
        AnswerShape::GovernanceSafeguardingFinancial,
        EvidenceContract::ProspectiveAllowed,
        "Panel: How would you implement a new safeguarding framework across several field locations while maintaining delivery?",
        record("transferable", "The candidate has documented experience designing SOPs, training teams, conducting compliance reviews, tracking corrective actions, and coordinating implementation across multiple locations. No past safeguarding-framework implementation is recorded."),
        strings(&["prospective best-practice method", "delivery continuity", "risk, controls, and escalation"]),
        strings(&["claiming a past safeguarding implementation", "invented safeguarding outcome"]),
        MandatoryApplicability { grounding: exp, authority: app, past_vs_prospective: exp, directness: app },
    ));
    out.push(fixture(
        "conditional-commitment",
        AnswerShape::DirectFactualCommitment,
        EvidenceContract::ConditionalCommitment,
        "Panel: Can you commit to completing the transition by 30 September within the existing budget?",
        record("authority", "The candidate can plan delivery and manage a defined workstream but has no recorded authority to approve the deadline, resources, or whole budget without sponsor confirmation."),
        strings(&["clear conditional answer", "dependencies", "authority limit"]),
        strings(&["unconditional deadline approval", "unconditional budget approval"]),
        MandatoryApplicability { grounding: app, authority: exp, past_vs_prospective: exp, directness: app },
    ));
    out.push(fixture(
        "capability-gap",
        AnswerShape::CapabilityGap,
        EvidenceContract::BoundaryThenProspective,
        "Panel: You have not previously led a clinical programme. Why should we trust you with this responsibility?",
        record("boundary", "The candidate has not led a clinical programme and does not make clinical decisions. The candidate has led multidisciplinary health-processing operations, coordinated clinicians, designed controlled workflows, and managed compliance and escalation."),
        strings(&["explicit capability boundary", "transferable evidence", "credible prospective approach"]),
        strings(&["claiming clinical-programme leadership", "claiming clinical authority"]),
        MandatoryApplicability { grounding: exp, authority: exp, past_vs_prospective: exp, directness: app },
    ));
    out
}

/// The case of one fixture under one playbook: schema compliance and the
/// response section as hard assertions, and the fixture's dimensions with
/// the playbook's depth rubric as semantic ones.
fn preset_case(f: &EvalFixture, pb: &MeetingPlaybook) -> (c: EvalCase)
    requires
        f.applicability is Some,
    ensures
        is_preset_case(c, *f, *pb),
{
    let a = f.applicability.unwrap();
    let lower = text::to_lowercase(pb.name.as_str());
    proof {
        reveal_strlit(" ");
    }
    let slug = text::replace_str(lower.as_str(), " ", "-");
    let mut id = string_from(f.id.as_str());
    push_str(&mut id, "-");
    push_str(&mut id, slug.as_str());
    let mut hard: Vec<HardAssertion> = Vec::new();
    hard.push(HardAssertion::SchemaCompliance);
    hard.push(HardAssertion::SectionPresent { section_id: string_from("response") });
    EvalCase {
        id,
        fixture_id: string_from(f.id.as_str()),
        playbook_id: pb.id,
        assertions: EvalAssertions { hard, semantic: semantic_dimensions(a, pb.name.as_str()) },
    }
}

/// The preset's evaluation plan: six synthetic interview fixtures, each
/// paired with every playbook of `profile` in order, under the activation
/// policy of two runs per case.
pub fn interview_eval_plan(profile: &ExpertProfileVersion) -> (r: EvalPlan)
    ensures
        r.schema_version == EVAL_PLAN_SCHEMA_VERSION,
        preset_fixtures_are(r.fixtures@),
        r.cases@.len() == r.fixtures@.len() * profile.playbooks@.len(),
        forall|k: int|
            0 <= k < r.cases@.len() ==> is_preset_case(
                #[trigger] r.cases@[k],
                r.fixtures@[k / profile.playbooks@.len() as int],
                profile.playbooks@[k % profile.playbooks@.len() as int],
            ),
        r.policy == (EvalPolicy {
            activation_runs_per_case: 2,
            all_hard_runs_must_pass: true,
            semantic_min_score_in_range: true,
            timeout_seconds: 300,
        }),
        r.regression_policy == (RegressionPolicy {
            hard_rule: HardRegressionRule::NoNewHardFailure,
            semantic_delta_floor_in_range: true,
        }),
{
    let fixtures = interview_fixtures();
    let playbooks = &profile.playbooks;
    let ghost np = playbooks@.len() as int;
    let mut cases: Vec<EvalCase> = Vec::new();
    assert(0 * np == 0);
    for i in 0..fixtures.len()
        invariant
            preset_fixtures_are(fixtures@),
            np == playbooks@.len(),
            cases@.len() == i * np,
            forall|k: int|
                0 <= k < cases@.len() ==> is_preset_case(
                    #[trigger] cases@[k],
                    fixtures@[k / np],
                    playbooks@[k % np],
                ),
    {
        assert(fixtures@[i as int].applicability is Some);
        for j in 0..playbooks.len()
            invariant
                preset_fixtures_are(fixtures@),
                0 <= i < fixtures@.len(),
                np == playbooks@.len(),
                cases@.len() == i * np + j,
                forall|k: int|
                    0 <= k < cases@.len() ==> is_preset_case(
                        #[trigger] cases@[k],
                        fixtures@[k / np],
                        playbooks@[k % np],
                    ),
                fixtures@[i as int].applicability is Some,
        {
            let c = preset_case(&fixtures[i], &playbooks[j]);
            let ghost before = cases@;
            cases.push(c);
            proof {
                vstd::arithmetic::div_mod::lemma_fundamental_div_mod_converse(i * np + j, np, i as int, j as int);
                assert forall|k: int| 0 <= k < cases@.len() implies is_preset_case(
                    #[trigger] cases@[k],
                    fixtures@[k / np],
                    playbooks@[k % np],
                ) by {
                    if k < before.len() {
                        assert(cases@[k] == before[k]);
                    }
                }
            }
        }
        assert((i + 1) * np == i * np + np) by (nonlinear_arith);
    }
    EvalPlan {
        schema_version: EVAL_PLAN_SCHEMA_VERSION,
        fixtures,
        cases,
        policy: EvalPolicy {
            activation_runs_per_case: 2,
            all_hard_runs_must_pass: true,
            semantic_min_score_in_range: true,
            timeout_seconds: 300,
        },
        regression_policy: RegressionPolicy {
            hard_rule: HardRegressionRule::NoNewHardFailure,
            semantic_delta_floor_in_range: true,
        },
    }
}

} // verus!
