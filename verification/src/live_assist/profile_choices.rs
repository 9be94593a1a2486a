//! Which expert profiles live assist offers: those not retired whose
//! activation is in force, each with the playbooks of its active version.
use vstd::prelude::*;

use crate::text::str_eq;

use crate::expert_profiles::models::{ExpertProfileVersion, MeetingPlaybook};
use crate::expert_profiles::repository::{ExpertProfileSummary, StoredProfileActivation};

use super::models::{AssistPlaybookChoice, AssistProfileChoice};

verus! {

pub open spec fn playbook_entries(v: Seq<MeetingPlaybook>) -> Seq<(u128, Seq<char>)> {
    v.map_values(|p: MeetingPlaybook| (p.id, p.name@))
}

pub open spec fn choice_entries(v: Seq<AssistPlaybookChoice>) -> Seq<(u128, Seq<char>)> {
    v.map_values(|c: AssistPlaybookChoice| (c.id, c.name@))
}

/// A profile is offered when it is not retired, its activation exists and
/// is in force, and the activated version exists.
pub open spec fn offered(
    summary: ExpertProfileSummary,
    activation: Option<StoredProfileActivation>,
    profile: Option<ExpertProfileVersion>,
) -> bool {
    &&& summary.retired_at is None
    &&& activation matches Some(a) && a.status@ == "active"@
    &&& profile is Some
}

fn playbook_choices(playbooks: &Vec<MeetingPlaybook>) -> (r: Vec<AssistPlaybookChoice>)
    ensures
        choice_entries(r@) == playbook_entries(playbooks@),
{
    let mut out: Vec<AssistPlaybookChoice> = Vec::new();
    let mut i: usize = 0;
    while i < playbooks.len()
        invariant
            0 <= i <= playbooks@.len(),
            out@.len() == i,
            forall|j: int|
                0 <= j < i ==> (#[trigger] out@[j]).id == playbooks@[j].id && out@[j].name@
                    == playbooks@[j].name@,
        decreases playbooks.len() - i,
    {
        let c = AssistPlaybookChoice { id: playbooks[i].id, name: playbooks[i].name.clone() };
        out.push(c);
        i += 1;
    }
    proof {
        assert(choice_entries(out@) =~= playbook_entries(playbooks@));
    }
    out
}

/// The choice offered for a profile, or none when it is not offered.
pub fn assist_profile_choice(
    profile_id: u128,
    summary: &ExpertProfileSummary,
    activation: Option<&StoredProfileActivation>,
    profile: Option<&ExpertProfileVersion>,
) -> (r: Option<AssistProfileChoice>)
    ensures
        r is Some <==> offered(
            *summary,
            match activation {
                Some(a) => Some(*a),
                None => None,
            },
            match profile {
                Some(p) => Some(*p),
                None => None,
            },
        ),
        r matches Some(c) ==> {
            &&& c.profile_id == profile_id
            &&& c.profile_version_hash == activation->Some_0.profile_version_hash
            &&& c.profile_name == summary.name
            &&& choice_entries(c.playbooks@) == playbook_entries(profile->Some_0.playbooks@)
        },
{
    if summary.retired_at.is_some() {
        return None;
    }
    let a = match activation {
        Some(a) => a,
        None => {
            return None;
        },
    };
    if !str_eq(a.status.as_str(), "active") {
        return None;
    }
    let p = match profile {
        Some(p) => p,
        None => {
            return None;
        },
    };
    Some(
        AssistProfileChoice {
            profile_id,
            profile_version_hash: a.profile_version_hash.clone(),
            profile_name: summary.name.clone(),
            playbooks: playbook_choices(&p.playbooks),
        },
    )
}

} // verus!
