//! Domain-separated content digests of expert-profile records.
use vstd::prelude::*;

use crate::canonical;
use crate::canonical::{
    write_bool, write_decimal, write_raw, write_string, write_string_array, write_uuid,
    write_uuid_array,
};
use crate::digest;
use crate::digest::hash_with_domain;
use vstd::utf8;

use super::models::{
    EffectiveCapabilityRevision, ExpertProfileVersion, MeetingPlaybook, OutputSection,
    ProfileBoundaries, ProfileIdentity, ProfileStyle, SectionFormat,
};

verus! {

pub const PROFILE_HASH_DOMAIN: &'static str = "meetily-profile-v1\0";

pub const EVAL_PLAN_HASH_DOMAIN: &'static str = "meetily-eval-plan-v1\0";

pub const FIXTURE_HASH_DOMAIN: &'static str = "meetily-eval-fixture-v1\0";

pub const MODEL_BINDING_HASH_DOMAIN: &'static str = "meetily-model-binding-v1\0";

pub const CAPABILITY_REVISION_HASH_DOMAIN: &'static str = "meetily-capability-revision-v1\0";

pub const PROMPT_RENDERER_HASH_DOMAIN: &'static str = "meetily-profile-prompt-renderer-v1\0";

pub const PROMPT_RENDERER_IDENTITY: &'static str =
    "summary::processor::generate_meeting_summary/profile-renderer-v1/output-parser-v1";

pub const MAX_JCS_SAFE_INTEGER: u64 = 9_007_199_254_740_992;

/// Why a record could not be hashed canonically.
#[derive(Debug, Clone, PartialEq, Eq)]
pub enum HashError {
    /// An integer beyond the RFC 8785 safe range, at the given JSON path.
    UnsafeInteger { path: String },
}

impl HashError {
    pub open spec fn spec_message(&self) -> Seq<char> {
        match self {
            HashError::UnsafeInteger { path } => "integer at "@ + path@
                + " exceeds the RFC 8785 safe range"@,
        }
    }

    /// The human-readable message of the error.
    pub fn message(&self) -> (r: String)
        ensures
            r@ == self.spec_message(),
    {
        let mut out = String::new();
        match self {
            HashError::UnsafeInteger { path } => {
                crate::text::push_str(&mut out, "integer at ");
                crate::text::push_str(&mut out, path.as_str());
                crate::text::push_str(&mut out, " exceeds the RFC 8785 safe range");
            },
        }
        proof {
            assert(out@ =~= self.spec_message());
        }
        out
    }
}

/// Digest of an evaluation fixture's transcript text.
pub fn hash_fixture_text(transcript_text: &str) -> (r: String)
    ensures
        r@ == digest::domain_digest(utf8::encode_utf8(FIXTURE_HASH_DOMAIN@), utf8::encode_utf8(transcript_text@)),
        digest::is_sha256_digest(r@),
{
    hash_with_domain(FIXTURE_HASH_DOMAIN, transcript_text.as_bytes())
}

/// The digest that names this build's prompt renderer and output parser.
pub open spec fn prompt_renderer_digest() -> Seq<char> {
    digest::domain_digest(
        utf8::encode_utf8(PROMPT_RENDERER_HASH_DOMAIN@),
        utf8::encode_utf8(PROMPT_RENDERER_IDENTITY@),
    )
}

pub fn prompt_renderer_hash() -> (r: String)
    ensures
        r@ == prompt_renderer_digest(),
        digest::is_sha256_digest(r@),
{
    hash_with_domain(PROMPT_RENDERER_HASH_DOMAIN, PROMPT_RENDERER_IDENTITY.as_bytes())
}

// ----------------------------------------------------------------------------
// Canonical JSON of a profile (keys in ascending order)
// ----------------------------------------------------------------------------
pub open spec fn section_format_name(f: SectionFormat) -> Seq<char> {
    match f {
        SectionFormat::Paragraph => "paragraph"@,
        SectionFormat::List => "list"@,
        SectionFormat::String => "string"@,
    }
}

pub open spec fn strings_json(v: Vec<String>) -> Seq<char> {
    canonical::json_string_array(canonical::string_views(v@))
}

pub open spec fn section_json(s: OutputSection) -> Seq<char> {
    "{\"format\":"@ + canonical::json_string(section_format_name(s.format)) + ",\"id\":"@
        + canonical::json_string(s.id@) + ",\"instruction\":"@ + canonical::json_string(
        s.instruction@,
    ) + ",\"required\":"@ + canonical::json_bool(s.required) + ",\"title\":"@
        + canonical::json_string(s.title@) + "}"@
}

pub open spec fn section_items(v: Seq<OutputSection>) -> Seq<char>
    decreases v.len(),
{
    if v.len() == 0 {
        Seq::empty()
    } else if v.len() == 1 {
        section_json(v[0])
    } else {
        section_items(v.drop_last()) + ","@ + section_json(v.last())
    }
}

pub open spec fn sections_json(v: Seq<OutputSection>) -> Seq<char> {
    "["@ + section_items(v) + "]"@
}

pub open spec fn playbook_json(p: MeetingPlaybook) -> Seq<char> {
    "{\"description\":"@ + canonical::json_string(p.description@) + ",\"id\":"@
        + canonical::json_uuid(p.id) + ",\"name\":"@ + canonical::json_string(p.name@)
        + ",\"objective\":"@ + canonical::json_string(p.objective@) + ",\"sections\":"@
        + sections_json(p.sections@) + "}"@
}

pub open spec fn playbook_items(v: Seq<MeetingPlaybook>) -> Seq<char>
    decreases v.len(),
{
    if v.len() == 0 {
        Seq::empty()
    } else if v.len() == 1 {
        playbook_json(v[0])
    } else {
        playbook_items(v.drop_last()) + ","@ + playbook_json(v.last())
    }
}

pub open spec fn boundaries_json(b: ProfileBoundaries) -> Seq<char> {
    "{\"abstain_when\":"@ + strings_json(b.abstain_when) + ",\"escalation_policy\":"@
        + canonical::json_string(b.escalation_policy@) + ",\"in_scope\":"@ + strings_json(b.in_scope)
        + ",\"out_of_scope\":"@ + strings_json(b.out_of_scope) + "}"@
}

pub open spec fn identity_json(i: ProfileIdentity) -> Seq<char> {
    "{\"description\":"@ + canonical::json_string(i.description@) + ",\"expertise\":"@
        + strings_json(i.expertise) + ",\"name\":"@ + canonical::json_string(i.name@) + "}"@
}

pub open spec fn style_json(s: ProfileStyle) -> Seq<char> {
    "{\"format\":\"markdown\""@ + ",\"language\":"@ + canonical::json_string(s.language@)
        + ",\"tone\":"@ + canonical::json_string(s.tone@) + ",\"verbosity\":"@
        + canonical::json_string(s.verbosity@) + "}"@
}

pub open spec fn profile_json(p: ExpertProfileVersion) -> Seq<char> {
    "{\"boundaries\":"@ + boundaries_json(p.boundaries) + ",\"identity\":"@ + identity_json(
        p.identity,
    ) + ",\"objectives\":"@ + strings_json(p.objectives) + ",\"output_contract\":"@
        + "{\"sections\":"@ + sections_json(p.output_contract.sections@) + ",\"title_required\":"@
        + canonical::json_bool(p.output_contract.title_required) + "}"@ + ",\"perspective\":"@
        + canonical::json_string(p.perspective@) + ",\"playbooks\":"@ + "["@ + playbook_items(
        p.playbooks@,
    ) + "]"@ + ",\"retrieval_policy\":"@ + "{\"mode\":\"transcript_only\"}"@
        + ",\"schema_version\":"@ + canonical::decimal(p.schema_version as nat) + ",\"style\":"@
        + style_json(p.style) + "}"@
}

pub open spec fn capability_revision_json(r: EffectiveCapabilityRevision) -> Seq<char> {
    "{\"eval_plan_hash\":"@ + canonical::json_string(r.eval_plan_hash@) + ",\"model_binding_hash\":"@
        + canonical::json_string(r.model_binding_hash@) + ",\"playbook_ids\":"@
        + canonical::json_uuid_array(r.playbook_ids@) + ",\"profile_id\":"@ + canonical::json_uuid(
        r.profile_id,
    ) + ",\"profile_version_hash\":"@ + canonical::json_string(r.profile_version_hash@)
        + ",\"safety_gate_version\":"@ + canonical::json_string(r.safety_gate_version@) + match r.safety_suite_hash {
        Some(h) => ",\"safety_suite_hash\":"@ + canonical::json_string(h@),
        None => Seq::empty(),
    } + "}"@
}

/// The content digest of a profile version.
pub open spec fn profile_digest(p: ExpertProfileVersion) -> Seq<char> {
    digest::domain_digest(utf8::encode_utf8(PROFILE_HASH_DOMAIN@), utf8::encode_utf8(profile_json(p)))
}

/// The content digest of a capability revision.
pub open spec fn capability_revision_digest(r: EffectiveCapabilityRevision) -> Seq<char> {
    digest::domain_digest(
        utf8::encode_utf8(CAPABILITY_REVISION_HASH_DOMAIN@),
        utf8::encode_utf8(capability_revision_json(r)),
    )
}

fn write_section(out: &mut String, s: &OutputSection)
    ensures
        final(out)@ == old(out)@ + section_json(*s),
{
    let ghost start = out@;
    write_raw(out, "{\"format\":");
    match s.format {
        SectionFormat::Paragraph => write_string(out, "paragraph"),
        SectionFormat::List => write_string(out, "list"),
        SectionFormat::String => write_string(out, "string"),
    }
    write_raw(out, ",\"id\":");
    write_string(out, s.id.as_str());
    write_raw(out, ",\"instruction\":");
    write_string(out, s.instruction.as_str());
    write_raw(out, ",\"required\":");
    write_bool(out, s.required);
    write_raw(out, ",\"title\":");
    write_string(out, s.title.as_str());
    write_raw(out, "}");
    proof {
        assert(out@ =~= start + section_json(*s));
    }
}

fn write_sections(out: &mut String, v: &Vec<OutputSection>)
    ensures
        final(out)@ == old(out)@ + sections_json(v@),
{
    let ghost start = out@;
    write_raw(out, "[");
    let ghost head = out@;
    let mut i: usize = 0;
    proof {
        assert(v@.subrange(0, 0) =~= Seq::<OutputSection>::empty());
        assert(out@ =~= head + section_items(v@.subrange(0, 0)));
    }
    while i < v.len()
        invariant
            0 <= i <= v@.len(),
            out@ == head + section_items(v@.subrange(0, i as int)),
        decreases v.len() - i,
    {
        if i > 0 {
            write_raw(out, ",");
        }
        write_section(out, &v[i]);
        proof {
            let next = v@.subrange(0, i + 1);
            assert(next.drop_last() =~= v@.subrange(0, i as int));
            assert(out@ =~= head + section_items(next));
        }
        i += 1;
    }
    write_raw(out, "]");
    proof {
        assert(v@.subrange(0, v@.len() as int) =~= v@);
        assert(out@ =~= start + sections_json(v@));
    }
}

pub fn write_playbook(out: &mut String, p: &MeetingPlaybook)
    ensures
        final(out)@ == old(out)@ + playbook_json(*p),
{
    let ghost start = out@;
    write_raw(out, "{\"description\":");
    write_string(out, p.description.as_str());
    write_raw(out, ",\"id\":");
    write_uuid(out, p.id);
    write_raw(out, ",\"name\":");
    write_string(out, p.name.as_str());
    write_raw(out, ",\"objective\":");
    write_string(out, p.objective.as_str());
    write_raw(out, ",\"sections\":");
    write_sections(out, &p.sections);
    write_raw(out, "}");
    proof {
        assert(out@ =~= start + playbook_json(*p));
    }
}

fn write_playbooks(out: &mut String, v: &Vec<MeetingPlaybook>)
    ensures
        final(out)@ == old(out)@ + "["@ + playbook_items(v@) + "]"@,
{
    let ghost start = out@;
    write_raw(out, "[");
    let ghost head = out@;
    let mut i: usize = 0;
    proof {
        assert(v@.subrange(0, 0) =~= Seq::<MeetingPlaybook>::empty());
        assert(out@ =~= head + playbook_items(v@.subrange(0, 0)));
    }
    while i < v.len()
        invariant
            0 <= i <= v@.len(),
            out@ == head + playbook_items(v@.subrange(0, i as int)),
        decreases v.len() - i,
    {
        if i > 0 {
            write_raw(out, ",");
        }
        write_playbook(out, &v[i]);
        proof {
            let next = v@.subrange(0, i + 1);
            assert(next.drop_last() =~= v@.subrange(0, i as int));
            assert(out@ =~= head + playbook_items(next));
        }
        i += 1;
    }
    write_raw(out, "]");
    proof {
        assert(v@.subrange(0, v@.len() as int) =~= v@);
        assert(out@ =~= start + "["@ + playbook_items(v@) + "]"@);
    }
}

pub fn write_boundaries(out: &mut String, b: &ProfileBoundaries)
    ensures
        final(out)@ == old(out)@ + boundaries_json(*b),
{
    let ghost start = out@;
    write_raw(out, "{\"abstain_when\":");
    write_string_array(out, &b.abstain_when);
    write_raw(out, ",\"escalation_policy\":");
    write_string(out, b.escalation_policy.as_str());
    write_raw(out, ",\"in_scope\":");
    write_string_array(out, &b.in_scope);
    write_raw(out, ",\"out_of_scope\":");
    write_string_array(out, &b.out_of_scope);
    write_raw(out, "}");
    proof {
        assert(out@ =~= start + boundaries_json(*b));
    }
}

pub fn write_identity(out: &mut String, i: &ProfileIdentity)
    ensures
        final(out)@ == old(out)@ + identity_json(*i),
{
    let ghost start = out@;
    write_raw(out, "{\"description\":");
    write_string(out, i.description.as_str());
    write_raw(out, ",\"expertise\":");
    write_string_array(out, &i.expertise);
    write_raw(out, ",\"name\":");
    write_string(out, i.name.as_str());
    write_raw(out, "}");
    proof {
        assert(out@ =~= start + identity_json(*i));
    }
}

pub fn write_style(out: &mut String, s: &ProfileStyle)
    ensures
        final(out)@ == old(out)@ + style_json(*s),
{
    let ghost start = out@;
    write_raw(out, "{\"format\":\"markdown\"");
    write_raw(out, ",\"language\":");
    write_string(out, s.language.as_str());
    write_raw(out, ",\"tone\":");
    write_string(out, s.tone.as_str());
    write_raw(out, ",\"verbosity\":");
    write_string(out, s.verbosity.as_str());
    write_raw(out, "}");
    proof {
        assert(out@ =~= start + style_json(*s));
    }
}

/// The canonical JSON text of a profile version.
pub fn profile_json_text(p: &ExpertProfileVersion) -> (r: String)
    ensures
        r@ == profile_json(*p),
{
    let mut out = String::new();
    write_raw(&mut out, "{\"boundaries\":");
    write_boundaries(&mut out, &p.boundaries);
    write_raw(&mut out, ",\"identity\":");
    write_identity(&mut out, &p.identity);
    write_raw(&mut out, ",\"objectives\":");
    write_string_array(&mut out, &p.objectives);
    write_raw(&mut out, ",\"output_contract\":");
    write_raw(&mut out, "{\"sections\":");
    write_sections(&mut out, &p.output_contract.sections);
    write_raw(&mut out, ",\"title_required\":");
    write_bool(&mut out, p.output_contract.title_required);
    write_raw(&mut out, "}");
    write_raw(&mut out, ",\"perspective\":");
    write_string(&mut out, p.perspective.as_str());
    write_raw(&mut out, ",\"playbooks\":");
    write_playbooks(&mut out, &p.playbooks);
    write_raw(&mut out, ",\"retrieval_policy\":");
    write_raw(&mut out, "{\"mode\":\"transcript_only\"}");
    write_raw(&mut out, ",\"schema_version\":");
    write_decimal(&mut out, p.schema_version as u64);
    write_raw(&mut out, ",\"style\":");
    write_style(&mut out, &p.style);
    write_raw(&mut out, "}");
    proof {
        assert(out@ =~= profile_json(*p));
    }
    out
}

/// The content digest of a profile version.  Every integer of a profile is
/// a `u32`, so hashing never meets an integer beyond the canonical range.
pub fn hash_profile_version(profile: &ExpertProfileVersion) -> (r: Result<String, HashError>)
    ensures
        r matches Ok(s) && s@ == profile_digest(*profile) && digest::is_sha256_digest(s@),
{
    let text = profile_json_text(profile);
    Ok(hash_with_domain(PROFILE_HASH_DOMAIN, text.as_str().as_bytes()))
}

/// The canonical JSON text of a capability revision.
pub fn capability_revision_json_text(r: &EffectiveCapabilityRevision) -> (out: String)
    ensures
        out@ == capability_revision_json(*r),
{
    let mut out = String::new();
    write_raw(&mut out, "{\"eval_plan_hash\":");
    write_string(&mut out, r.eval_plan_hash.as_str());
    write_raw(&mut out, ",\"model_binding_hash\":");
    write_string(&mut out, r.model_binding_hash.as_str());
    write_raw(&mut out, ",\"playbook_ids\":");
    write_uuid_array(&mut out, &r.playbook_ids);
    write_raw(&mut out, ",\"profile_id\":");
    write_uuid(&mut out, r.profile_id);
    write_raw(&mut out, ",\"profile_version_hash\":");
    write_string(&mut out, r.profile_version_hash.as_str());
    write_raw(&mut out, ",\"safety_gate_version\":");
    write_string(&mut out, r.safety_gate_version.as_str());
    let ghost before = out@;
    match &r.safety_suite_hash {
        Some(h) => {
            write_raw(&mut out, ",\"safety_suite_hash\":");
            write_string(&mut out, h.as_str());
        },
        None => {},
    }
    write_raw(&mut out, "}");
    proof {
        assert(out@ =~= capability_revision_json(*r));
    }
    out
}

/// The content digest of a capability revision; its only integers are
/// UUIDs, written as strings, so hashing cannot fail.
pub fn hash_capability_revision(revision: &EffectiveCapabilityRevision) -> (r: Result<
    String,
    HashError,
>)
    ensures
        r matches Ok(s) && s@ == capability_revision_digest(*revision) && digest::is_sha256_digest(s@),
{
    let text = capability_revision_json_text(revision);
    Ok(hash_with_domain(CAPABILITY_REVISION_HASH_DOMAIN, text.as_str().as_bytes()))
}

} // verus!
