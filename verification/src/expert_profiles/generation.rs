//! The profile-aware generation request: the rendered template and the
//! configuration context handed to the summary generator, with any extra
//! user context fenced off as inert text.
use vstd::prelude::*;

use crate::text;
use crate::text::{push_str, replace_str, str_is_blank};

use super::models::ExpertProfileVersion;
use super::rendering;
use super::rendering::{build_profile_render_spec, ProfileRenderError, ProfileRenderSpec};

verus! {

#[derive(Debug, Clone, PartialEq, Eq)]
pub struct ProfileGenerationResult {
    pub final_markdown: String,
    pub english_markdown: String,
    pub chunk_count: i64,
    pub playbook_id: u128,
}

#[derive(Debug, Clone, PartialEq, Eq)]
pub enum ProfileGenerationError {
    Render(ProfileRenderError),
    /// The summary provider failed, with its message.
    Provider(String),
}

/// Text made inert inside a delimited block: `&`, `<` and `>` escaped.
pub open spec fn escaped_delimiter_text(s: Seq<char>) -> Seq<char> {
    text::replace_all(
        text::replace_all(text::replace_all(s, "&"@, "&amp;"@), "<"@, "&lt;"@),
        ">"@,
        "&gt;"@,
    )
}

pub fn escape_delimiter_text(value: &str) -> (r: String)
    ensures
        r@ == escaped_delimiter_text(value@),
{
    proof {
        reveal_strlit("&");
        reveal_strlit("<");
        reveal_strlit(">");
    }
    let a = replace_str(value, "&", "&amp;");
    let b = replace_str(a.as_str(), "<", "&lt;");
    replace_str(b.as_str(), ">", "&gt;")
}

/// The user context sent with a profile summary: the configuration context,
/// followed by any non-blank additional context in its own delimited block.
pub open spec fn user_context(configuration_context: Seq<char>, additional: Option<Seq<char>>) -> Seq<
    char,
> {
    match additional {
        Some(a) => if !text::is_blank(a) {
            configuration_context + "\n\n<additional_user_context>\n"@ + escaped_delimiter_text(a)
                + "\n</additional_user_context>"@
        } else {
            configuration_context
        },
        None => configuration_context,
    }
}

/// Renders the profile for a playbook and assembles the user context for
/// the summary generator.
pub fn profile_generation_context(
    profile: &ExpertProfileVersion,
    playbook_id: u128,
    additional_user_context: Option<&str>,
) -> (r: Result<(ProfileRenderSpec, String), ProfileGenerationError>)
    ensures
        match r {
            Ok((spec, context)) => rendering::render_outcome(
                *profile,
                playbook_id,
                Ok::<ProfileRenderSpec, ProfileRenderError>(spec),
            ) && context@ == user_context(
                spec.configuration_context@,
                match additional_user_context {
                    Some(a) => Some(a@),
                    None => None,
                },
            ),
            Err(ProfileGenerationError::Render(e)) => rendering::render_outcome(
                *profile,
                playbook_id,
                Err::<ProfileRenderSpec, ProfileRenderError>(e),
            ),
            Err(ProfileGenerationError::Provider(_)) => false,
        },
{
    let spec = match build_profile_render_spec(profile, playbook_id) {
        Ok(spec) => spec,
        Err(e) => {
            return Err(ProfileGenerationError::Render(e));
        },
    };
    let mut context = spec.configuration_context.clone();
    match additional_user_context {
        Some(additional) => if !str_is_blank(additional) {
            push_str(&mut context, "\n\n<additional_user_context>\n");
            let escaped = escape_delimiter_text(additional);
            push_str(&mut context, escaped.as_str());
            push_str(&mut context, "\n</additional_user_context>");
        },
        None => {},
    }
    Ok((spec, context))
}

} // verus!
