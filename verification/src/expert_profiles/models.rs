//! The expert-profile record, its evaluation plan, and the capability
//! revision that pins a profile to a model binding and a plan.
//!
//! Scores of the evaluation plan are carried by the application layer; the
//! library sees, for each of them, whether it lies in its allowed range.
use vstd::prelude::*;

verus! {

pub const EXPERT_PROFILE_SCHEMA_VERSION: u32 = 1;

pub const EVAL_PLAN_SCHEMA_VERSION: u32 = 2;

#[derive(Debug, Clone, PartialEq, Eq)]
pub struct ExpertProfileVersion {
    pub schema_version: u32,
    pub identity: ProfileIdentity,
    pub objectives: Vec<String>,
    pub perspective: String,
    pub style: ProfileStyle,
    pub boundaries: ProfileBoundaries,
    pub retrieval_policy: RetrievalPolicy,
    pub output_contract: OutputContract,
    pub playbooks: Vec<MeetingPlaybook>,
}

#[derive(Debug, Clone, PartialEq, Eq)]
pub struct ProfileIdentity {
    pub name: String,
    pub description: String,
    pub expertise: Vec<String>,
}

#[derive(Debug, Clone, PartialEq, Eq)]
pub struct ProfileStyle {
    pub tone: String,
    pub verbosity: String,
    pub language: String,
    pub format: ProfileOutputFormat,
}

#[derive(Debug, Clone, Copy, PartialEq, Eq, Structural)]
pub enum ProfileOutputFormat {
    Markdown,
}

#[derive(Debug, Clone, PartialEq, Eq)]
pub struct ProfileBoundaries {
    pub in_scope: Vec<String>,
    pub out_of_scope: Vec<String>,
    pub abstain_when: Vec<String>,
    pub escalation_policy: String,
}

#[derive(Debug, Clone, Copy, PartialEq, Eq, Structural)]
pub struct RetrievalPolicy {
    pub mode: RetrievalMode,
}

#[derive(Debug, Clone, Copy, PartialEq, Eq, Structural)]
pub enum RetrievalMode {
    TranscriptOnly,
}

#[derive(Debug, Clone, PartialEq, Eq)]
pub struct OutputContract {
    pub title_required: bool,
    pub sections: Vec<OutputSection>,
}

#[derive(Debug, Clone, PartialEq, Eq)]
pub struct OutputSection {
    pub id: String,
    pub title: String,
    pub instruction: String,
    pub format: SectionFormat,
    pub required: bool,
}

#[derive(Debug, Clone, Copy, PartialEq, Eq, Structural)]
pub enum SectionFormat {
    Paragraph,
    List,
    String,
}

#[derive(Debug, Clone, PartialEq, Eq)]
pub struct MeetingPlaybook {
    pub id: u128,
    pub name: String,
    pub description: String,
    pub objective: String,
    pub sections: Vec<OutputSection>,
}

#[derive(Debug, Clone, PartialEq, Eq)]
pub struct EvalPlan {
    pub schema_version: u32,
    pub fixtures: Vec<EvalFixture>,
    pub cases: Vec<EvalCase>,
    pub policy: EvalPolicy,
    pub regression_policy: RegressionPolicy,
}

#[derive(Debug, Clone, PartialEq, Eq)]
pub struct EvalFixture {
    pub id: String,
    pub content_hash: String,
    pub source: String,
    pub transcript_text: String,
    pub suite: EvalSuite,
    pub answer_shape: Option<AnswerShape>,
    pub evidence_contracts: Vec<EvidenceContract>,
    pub evidence_records: Vec<EvalEvidenceRecord>,
    pub required_elements: Vec<String>,
    pub forbidden_expansions: Vec<String>,
    pub applicability: Option<MandatoryApplicability>,
}

#[derive(Debug, Clone, Copy, PartialEq, Eq, Hash, Structural)]
pub enum EvalSuite {
    Safety,
    Depth,
}

/// Fixtures belong to the depth suite unless they say otherwise.
impl Default for EvalSuite {
    fn default() -> (r: EvalSuite)
        ensures
            r == EvalSuite::Depth,
    {
        EvalSuite::Depth
    }
}

#[derive(Debug, Clone, Copy, PartialEq, Eq, Hash, Structural)]
pub enum AnswerShape {
    StrategicImplementation,
    DirectFactualCommitment,
    UrgentOperational,
    EthicalScenario,
    GovernanceSafeguardingFinancial,
    ExternalPartnership,
    CareerSuitability,
    CapabilityGap,
    BehavioralFailure,
    ComparativeClosing,
}

#[derive(Debug, Clone, Copy, PartialEq, Eq, Hash, Structural)]
pub enum EvidenceContract {
    DocumentedOnly,
    ProspectiveAllowed,
    BoundaryThenProspective,
    ConditionalCommitment,
}

#[derive(Debug, Clone, PartialEq, Eq)]
pub struct EvalEvidenceRecord {
    pub id: String,
    pub content: String,
}

#[derive(Debug, Clone, Copy, PartialEq, Eq, Structural)]
pub enum DimensionApplicability {
    Applicable,
    NotApplicable,
    Expected,
}

#[derive(Debug, Clone, Copy, PartialEq, Eq, Structural)]
pub struct MandatoryApplicability {
    pub grounding: DimensionApplicability,
    pub authority: DimensionApplicability,
    pub past_vs_prospective: DimensionApplicability,
    pub directness: DimensionApplicability,
}

#[derive(Debug, Clone, PartialEq, Eq)]
pub struct EvalCase {
    pub id: String,
    pub fixture_id: String,
    pub playbook_id: u128,
    pub assertions: EvalAssertions,
}

#[derive(Debug, Clone, PartialEq, Eq)]
pub struct EvalAssertions {
    pub hard: Vec<HardAssertion>,
    pub semantic: Vec<SemanticAssertion>,
}

#[derive(Debug, Clone, PartialEq, Eq)]
pub enum HardAssertion {
    SchemaCompliance,
    SectionPresent { section_id: String },
    LiteralPresent { value: String },
    LiteralAbsent { value: String },
}

/// A semantic rubric; `threshold_in_range` says whether its threshold is a
/// finite number in `[0, 1]`.
#[derive(Debug, Clone, PartialEq, Eq)]
pub enum SemanticAssertion {
    Rubric { question: String, adjudicator: AdjudicatorKind, threshold_in_range: bool },
    DimensionRubric {
        dimension: EvaluationDimension,
        applicability: DimensionApplicability,
        question: String,
        adjudicator: AdjudicatorKind,
        threshold_in_range: bool,
    },
}

#[derive(Debug, Clone, Copy, PartialEq, Eq, Hash, Structural)]
pub enum EvaluationDimension {
    Grounding,
    Authority,
    PastVsProspective,
    Directness,
    Depth,
    Concision,
}

impl EvaluationDimension {
    pub open spec fn spec_is_mandatory(self) -> bool {
        match self {
            EvaluationDimension::Grounding | EvaluationDimension::Authority
            | EvaluationDimension::PastVsProspective | EvaluationDimension::Directness => true,
            _ => false,
        }
    }

    /// The four dimensions every answer is judged on; depth and concision
    /// are optional.
    pub fn is_mandatory(self) -> (r: bool)
        ensures
            r == self.spec_is_mandatory(),
    {
        match self {
            EvaluationDimension::Grounding | EvaluationDimension::Authority
            | EvaluationDimension::PastVsProspective | EvaluationDimension::Directness => true,
            _ => false,
        }
    }
}

#[derive(Debug, Clone, Copy, PartialEq, Eq, Structural)]
pub enum AdjudicatorKind {
    Human,
    Model,
}

/// The activation policy; `semantic_min_score_in_range` says whether the
/// minimum semantic score is a finite number in `[0, 1]`.
#[derive(Debug, Clone, Copy, PartialEq, Eq, Structural)]
pub struct EvalPolicy {
    pub activation_runs_per_case: u32,
    pub all_hard_runs_must_pass: bool,
    pub semantic_min_score_in_range: bool,
    pub timeout_seconds: u32,
}

/// The regression policy; `semantic_delta_floor_in_range` says whether the
/// floor lies in `[-1, 0]`.
#[derive(Debug, Clone, Copy, PartialEq, Eq, Structural)]
pub struct RegressionPolicy {
    pub hard_rule: HardRegressionRule,
    pub semantic_delta_floor_in_range: bool,
}

#[derive(Debug, Clone, Copy, PartialEq, Eq, Structural)]
pub enum HardRegressionRule {
    NoNewHardFailure,
}

#[derive(Debug, Clone, PartialEq, Eq)]
pub struct EffectiveCapabilityRevision {
    pub profile_id: u128,
    pub profile_version_hash: String,
    pub playbook_ids: Vec<u128>,
    pub model_binding_hash: String,
    pub eval_plan_hash: String,
    pub safety_gate_version: String,
    pub safety_suite_hash: Option<String>,
}

} // verus!
