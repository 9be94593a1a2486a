//! Deterministic rendering of a profile and one of its playbooks into a
//! summary template and a configuration block, and the strict parser of the
//! Markdown that a model returns for it.
use vstd::prelude::*;

use crate::canonical;
use crate::canonical::{write_decimal, write_raw, write_string_array, write_uuid_text};
use crate::text;
use crate::text::{
    chars_of, push_char, push_str, replace_str, str_eq, str_is_blank, str_starts_with, string_from,
    string_from_chars, trim_string,
};

use super::hashing;
use super::hashing::{write_boundaries, write_identity, write_playbook, write_style};
use super::models::{ExpertProfileVersion, MeetingPlaybook, OutputSection, SectionFormat};
use super::validation;
use super::validation::{Validate, ValidationErrors};

verus! {

pub const PROMPT_RENDERER_VERSION: u32 = 1;

pub const OUTPUT_PARSER_VERSION: u32 = 1;

/// One section of a summary template.
#[derive(Debug, Clone, PartialEq, Eq)]
pub struct TemplateSection {
    pub title: String,
    pub instruction: String,
    pub format: String,
    pub item_format: Option<String>,
    pub example_item_format: Option<String>,
}

/// A summary template: a name, a description and ordered sections.
#[derive(Debug, Clone, PartialEq, Eq)]
pub struct Template {
    pub name: String,
    pub description: String,
    pub sections: Vec<TemplateSection>,
}

#[derive(Debug, Clone, PartialEq, Eq)]
pub enum ProfileRenderError {
    Validation(ValidationErrors),
    PlaybookNotFound(u128),
    Canonicalization(super::hashing::HashError),
    InvalidCanonicalUtf8,
}

#[derive(Debug, Clone, PartialEq, Eq)]
pub struct ProfileRenderSpec {
    pub template_id: String,
    pub template: Template,
    pub configuration_context: String,
    pub playbook_id: u128,
}

// ----------------------------------------------------------------------------
// Render specification
// ----------------------------------------------------------------------------
/// The prompt configuration: the profile's free-form fields and the selected
/// playbook, as canonical JSON (keys in ascending order).
pub open spec fn prompt_configuration_json(p: ExpertProfileVersion, pb: MeetingPlaybook) -> Seq<char> {
    "{\"boundaries\":"@ + hashing::boundaries_json(p.boundaries) + ",\"identity\":"@
        + hashing::identity_json(p.identity) + ",\"objectives\":"@ + hashing::strings_json(
        p.objectives,
    ) + ",\"perspective\":"@ + canonical::json_string(p.perspective@) + ",\"renderer_version\":"@
        + canonical::decimal(PROMPT_RENDERER_VERSION as nat) + ",\"retrieval_policy\":"@
        + "{\"mode\":\"transcript_only\"}"@ + ",\"selected_playbook\":"@ + hashing::playbook_json(pb)
        + ",\"style\":"@ + hashing::style_json(p.style) + "}"@
}

/// Angle brackets of the configuration are written as JSON escapes, so that
/// no profile text can close the block it is embedded in.
pub open spec fn escape_angle_brackets(s: Seq<char>) -> Seq<char> {
    text::replace_all(text::replace_all(s, "<"@, "\\u003c"@), ">"@, "\\u003e"@)
}

pub open spec fn configuration_context(p: ExpertProfileVersion, pb: MeetingPlaybook) -> Seq<char> {
    "<expert_profile_configuration renderer_version=\""@ + canonical::decimal(
        PROMPT_RENDERER_VERSION as nat,
    ) + "\">\n"@ + escape_angle_brackets(prompt_configuration_json(p, pb))
        + "\n</expert_profile_configuration>"@
}

pub open spec fn template_section_matches(t: TemplateSection, s: OutputSection) -> bool {
    &&& t.title@ == s.title@
    &&& t.instruction@ == s.instruction@
    &&& t.format@ == hashing::section_format_name(s.format)
    &&& t.item_format is None
    &&& t.example_item_format is None
}

/// The render specification built for a profile and one of its playbooks.
pub open spec fn render_matches(
    r: ProfileRenderSpec,
    p: ExpertProfileVersion,
    pb: MeetingPlaybook,
) -> bool {
    let comb = validation::combined_sections(p, pb);
    &&& r.template_id@ == "expert-profile:"@ + canonical::uuid_text(pb.id)
    &&& r.playbook_id == pb.id
    &&& r.configuration_context@ == configuration_context(p, pb)
    &&& r.template.name@ == p.identity.name@ + " — "@ + pb.name@
    &&& r.template.description@ == pb.description@
    &&& r.template.sections@.len() == comb.len()
    &&& forall|k: int|
        0 <= k < comb.len() ==> template_section_matches(#[trigger] r.template.sections@[k], comb[k])
}

/// What building a render specification returns.
pub open spec fn render_outcome(
    p: ExpertProfileVersion,
    playbook_id: u128,
    r: Result<ProfileRenderSpec, ProfileRenderError>,
) -> bool {
    let issues = validation::profile_issues(p);
    if issues.len() > 0 {
        r matches Err(ProfileRenderError::Validation(e)) && validation::issues_view(e.0@) == issues
    } else {
        match validation::first_playbook(p.playbooks@, playbook_id, p.playbooks@.len() as int) {
            None => r == Err::<ProfileRenderSpec, ProfileRenderError>(
                ProfileRenderError::PlaybookNotFound(playbook_id),
            ),
            Some(j) => r matches Ok(spec) && render_matches(spec, p, p.playbooks@[j]),
        }
    }
}

fn prompt_configuration_text(p: &ExpertProfileVersion, pb: &MeetingPlaybook) -> (r: String)
    ensures
        r@ == prompt_configuration_json(*p, *pb),
{
    let mut out = String::new();
    write_raw(&mut out, "{\"boundaries\":");
    write_boundaries(&mut out, &p.boundaries);
    write_raw(&mut out, ",\"identity\":");
    write_identity(&mut out, &p.identity);
    write_raw(&mut out, ",\"objectives\":");
    write_string_array(&mut out, &p.objectives);
    write_raw(&mut out, ",\"perspective\":");
    canonical::write_string(&mut out, p.perspective.as_str());
    write_raw(&mut out, ",\"renderer_version\":");
    write_decimal(&mut out, PROMPT_RENDERER_VERSION as u64);
    write_raw(&mut out, ",\"retrieval_policy\":");
    write_raw(&mut out, "{\"mode\":\"transcript_only\"}");
    write_raw(&mut out, ",\"selected_playbook\":");
    write_playbook(&mut out, pb);
    write_raw(&mut out, ",\"style\":");
    write_style(&mut out, &p.style);
    write_raw(&mut out, "}");
    proof {
        assert(out@ =~= prompt_configuration_json(*p, *pb));
    }
    out
}

fn to_template_section(section: &OutputSection) -> (r: TemplateSection)
    ensures
        template_section_matches(r, *section),
{
    let format = match section.format {
        SectionFormat::Paragraph => string_from("paragraph"),
        SectionFormat::List => string_from("list"),
        SectionFormat::String => string_from("string"),
    };
    TemplateSection {
        title: section.title.clone(),
        instruction: section.instruction.clone(),
        format,
        item_format: None,
        example_item_format: None,
    }
}

fn push_template_sections(out: &mut Vec<TemplateSection>, sections: &Vec<OutputSection>)
    ensures
        final(out)@.len() == old(out)@.len() + sections@.len(),
        forall|k: int| 0 <= k < old(out)@.len() ==> #[trigger] final(out)@[k] == old(out)@[k],
        forall|k: int|
            0 <= k < sections@.len() ==> template_section_matches(
                #[trigger] final(out)@[old(out)@.len() + k],
                sections@[k],
            ),
{
    let ghost start = out@;
    let mut i: usize = 0;
    while i < sections.len()
        invariant
            0 <= i <= sections@.len(),
            out@.len() == start.len() + i,
            forall|k: int| 0 <= k < start.len() ==> #[trigger] out@[k] == start[k],
            forall|k: int|
                0 <= k < i ==> template_section_matches(#[trigger] out@[start.len() + k], sections@[k]),
        decreases sections.len() - i,
    {
        let t = to_template_section(&sections[i]);
        let ghost prev = out@;
        out.push(t);
        proof {
            assert forall|k: int| 0 <= k < i + 1 implies template_section_matches(
                #[trigger] out@[start.len() + k],
                sections@[k],
            ) by {
                if k < i {
                    assert(out@[start.len() + k] == prev[start.len() + k]);
                }
            }
        }
        i += 1;
    }
}

fn find_playbook_index(pbs: &Vec<MeetingPlaybook>, id: u128) -> (r: Option<usize>)
    ensures
        r matches Some(j) ==> j < pbs@.len() && validation::first_playbook(
            pbs@,
            id,
            pbs@.len() as int,
        ) == Some(j as int),
        r is None ==> validation::first_playbook(pbs@, id, pbs@.len() as int) is None,
{
    let mut j: usize = 0;
    while j < pbs.len()
        invariant
            0 <= j <= pbs@.len(),
            validation::first_playbook(pbs@, id, j as int) is None,
        decreases pbs.len() - j,
    {
        if pbs[j].id == id {
            proof {
                lemma_first_playbook_settles(pbs@, id, j + 1, pbs@.len() as int);
            }
            return Some(j);
        }
        j += 1;
    }
    None
}

proof fn lemma_first_playbook_settles(pbs: Seq<MeetingPlaybook>, id: u128, n: int, m: int)
    requires
        0 <= n <= m,
        validation::first_playbook(pbs, id, n) is Some,
    ensures
        validation::first_playbook(pbs, id, m) == validation::first_playbook(pbs, id, n),
    decreases m - n,
{
    if n < m {
        lemma_first_playbook_settles(pbs, id, n, m - 1);
    }
}

fn render_context(profile: &ExpertProfileVersion, playbook: &MeetingPlaybook) -> (r: String)
    ensures
        r@ == configuration_context(*profile, *playbook),
{
    let canonical_text = prompt_configuration_text(profile, playbook);
    proof {
        reveal_strlit("<");
        reveal_strlit(">");
    }
    let escaped_lt = replace_str(canonical_text.as_str(), "<", "\\u003c");
    let escaped = replace_str(escaped_lt.as_str(), ">", "\\u003e");
    let mut context = string_from("<expert_profile_configuration renderer_version=\"");
    write_decimal(&mut context, PROMPT_RENDERER_VERSION as u64);
    write_raw(&mut context, "\">\n");
    push_str(&mut context, escaped.as_str());
    write_raw(&mut context, "\n</expert_profile_configuration>");
    proof {
        assert(context@ =~= configuration_context(*profile, *playbook));
    }
    context
}

fn render_template(profile: &ExpertProfileVersion, playbook: &MeetingPlaybook) -> (t: Template)
    ensures
        t.name@ == profile.identity.name@ + " — "@ + playbook.name@,
        t.description@ == playbook.description@,
        t.sections@.len() == validation::combined_sections(*profile, *playbook).len(),
        forall|k: int|
            0 <= k < validation::combined_sections(*profile, *playbook).len() ==> template_section_matches(
                #[trigger] t.sections@[k],
                validation::combined_sections(*profile, *playbook)[k],
            ),
{
    let ghost comb = validation::combined_sections(*profile, *playbook);
    let ghost n1 = profile.output_contract.sections@.len();
    let mut sections: Vec<TemplateSection> = Vec::new();
    push_template_sections(&mut sections, &profile.output_contract.sections);
    let ghost mid = sections@;
    push_template_sections(&mut sections, &playbook.sections);
    proof {
        assert forall|k: int| 0 <= k < comb.len() implies template_section_matches(
            #[trigger] sections@[k],
            comb[k],
        ) by {
            if k < n1 {
                assert(sections@[k] == mid[k]);
                assert(mid[0 + k] == mid[k]);
            } else {
                let q = k - n1;
                assert(sections@[n1 + q] == sections@[k]);
            }
        }
    }
    let mut name = string_from(profile.identity.name.as_str());
    push_str(&mut name, " — ");
    push_str(&mut name, playbook.name.as_str());
    proof {
        assert(name@ =~= profile.identity.name@ + " — "@ + playbook.name@);
    }
    Template { name, description: playbook.description.clone(), sections }
}

/// Validates the profile, selects the playbook, and renders the summary
/// template (profile sections, then playbook sections) and the escaped
/// configuration block.
#[verifier::spinoff_prover]
pub fn build_profile_render_spec(profile: &ExpertProfileVersion, playbook_id: u128) -> (r: Result<
    ProfileRenderSpec,
    ProfileRenderError,
>)
    ensures
        render_outcome(*profile, playbook_id, r),
{
    match profile.validate() {
        Err(e) => {
            return Err(ProfileRenderError::Validation(e));
        },
        Ok(_) => {},
    }
    let j = match find_playbook_index(&profile.playbooks, playbook_id) {
        Some(j) => j,
        None => {
            return Err(ProfileRenderError::PlaybookNotFound(playbook_id));
        },
    };
    let playbook = &profile.playbooks[j];
    proof {
        validation::lemma_first_playbook_bounds(
            profile.playbooks@,
            playbook_id,
            profile.playbooks@.len() as int,
        );
    }
    let template = render_template(profile, playbook);
    let configuration_context = render_context(profile, playbook);
    let mut template_id = string_from("expert-profile:");
    write_uuid_text(&mut template_id, playbook_id);
    Ok(ProfileRenderSpec { template_id, template, configuration_context, playbook_id })
}

// ----------------------------------------------------------------------------
// Lines
// ----------------------------------------------------------------------------
pub open spec fn strip_cr(l: Seq<char>) -> Seq<char> {
    if l.len() > 0 && l.last() == '\r' {
        l.drop_last()
    } else {
        l
    }
}

/// `str::lines`: pieces ended by `\n` lose one trailing `\r`; a final empty
/// piece (after a last newline, or of an empty text) is no line.
pub open spec fn md_lines(s: Seq<char>) -> Seq<Seq<char>> {
    let p = text::split_lf(s);
    let body = p.drop_last().map_values(|l: Seq<char>| strip_cr(l));
    if p.last().len() == 0 {
        body
    } else {
        body.push(p.last())
    }
}

fn strip_cr_exec(line: &String) -> (r: String)
    ensures
        r@ == strip_cr(line@),
{
    let v = chars_of(line.as_str());
    if v.len() > 0 && v[v.len() - 1] == '\r' {
        let r = string_from_chars(v.as_slice(), 0, v.len() - 1);
        proof {
            assert(r@ =~= line@.drop_last());
        }
        r
    } else {
        line.clone()
    }
}

/// The lines of a text, as `str::lines` yields them.
pub fn split_lines(s: &str) -> (r: Vec<String>)
    ensures
        canonical::string_views(r@) == md_lines(s@),
{
    let v = chars_of(s);
    let mut done: Vec<String> = Vec::new();
    let mut cur = String::new();
    let mut i: usize = 0;
    proof {
        assert(v@.subrange(0, 0) =~= Seq::<char>::empty());
        assert(canonical::string_views(done@) =~= text::split_lf(v@.subrange(0, 0)).drop_last().map_values(
            |l: Seq<char>| strip_cr(l),
        ));
    }
    while i < v.len()
        invariant
            v@ == s@,
            0 <= i <= v@.len(),
            canonical::string_views(done@) == text::split_lf(v@.subrange(0, i as int)).drop_last().map_values(
                |l: Seq<char>| strip_cr(l),
            ),
            cur@ == text::split_lf(v@.subrange(0, i as int)).last(),
        decreases v.len() - i,
    {
        let ghost pre = v@.subrange(0, i as int);
        let ghost next = v@.subrange(0, i + 1);
        proof {
            assert(next.drop_last() =~= pre);
            assert(next.last() == v@[i as int]);
            text::lemma_split_lf_len(pre);
        }
        let c = v[i];
        if c == '\n' {
            let piece = strip_cr_exec(&cur);
            let ghost prev_done = done@;
            done.push(piece);
            cur = String::new();
            proof {
                assert(text::split_lf(next) == text::split_lf(pre).push(Seq::<char>::empty()));
                assert(text::split_lf(next).drop_last() =~= text::split_lf(pre));
                assert(text::split_lf(pre) =~= text::split_lf(pre).drop_last().push(text::split_lf(pre).last()));
                assert(canonical::string_views(done@) =~= canonical::string_views(prev_done).push(
                    strip_cr(text::split_lf(pre).last()),
                ));
                assert(canonical::string_views(done@) =~= text::split_lf(next).drop_last().map_values(
                    |l: Seq<char>| strip_cr(l),
                ));
                assert(cur@ =~= text::split_lf(next).last());
            }
        } else {
            push_char(&mut cur, c);
            proof {
                let sp = text::split_lf(pre);
                assert(text::split_lf(next) == sp.update(sp.len() - 1, sp.last().push(c)));
                assert(text::split_lf(next).drop_last() =~= sp.drop_last());
            }
        }
        i += 1;
    }
    proof {
        assert(v@.subrange(0, v@.len() as int) =~= v@);
        text::lemma_split_lf_len(v@);
    }
    if !cur.as_str().is_empty() {
        let ghost prev_done = done@;
        let ghost last = cur@;
        done.push(cur);
        proof {
            assert(canonical::string_views(done@) =~= canonical::string_views(prev_done).push(last));
        }
    }
    done
}

/// A Markdown list item: `- `, `* `, or digits followed by `. `.
pub open spec fn numbered_at(l: Seq<char>, i: int) -> bool {
    1 <= i && i + 1 < l.len() && l[i] == '.' && l[i + 1] == ' ' && forall|k: int|
        0 <= k < i ==> #[trigger] text::is_ascii_digit(l[k])
}

pub open spec fn numbered_item(l: Seq<char>) -> bool {
    exists|i: int| #[trigger] numbered_at(l, i)
}

pub open spec fn is_list_item(l: Seq<char>) -> bool {
    text::starts_with(l, "- "@) || text::starts_with(l, "* "@) || numbered_item(l)
}

fn is_markdown_list_item(line: &str) -> (b: bool)
    ensures
        b == is_list_item(line@),
{
    if str_starts_with(line, "- ") || str_starts_with(line, "* ") {
        return true;
    }
    let v = chars_of(line);
    let mut d: usize = 0;
    while d < v.len() && '0' <= v[d] && v[d] <= '9'
        invariant
            v@ == line@,
            0 <= d <= v@.len(),
            forall|k: int| 0 <= k < d ==> #[trigger] text::is_ascii_digit(v@[k]),
        decreases v.len() - d,
    {
        d += 1;
    }
    let found = d >= 1 && d < v.len() - 1 && v[d] == '.' && v[d + 1] == ' ';
    proof {
        if found {
            assert(numbered_at(line@, d as int));
        }
        if !found && numbered_item(line@) {
            let i = choose|i: int| #[trigger] numbered_at(line@, i);
            if i < d {
                assert(text::is_ascii_digit(v@[i]));
            } else if i > d {
                assert(text::is_ascii_digit(line@[d as int]));
            }
        }
    }
    found
}

// ----------------------------------------------------------------------------
// Scanning the Markdown
// ----------------------------------------------------------------------------
pub open spec fn is_heading_line(title: Seq<char>, t: Seq<char>) -> bool {
    t == "**"@ + title + "**"@ || t == "## "@ + title
}

/// The id of the first of the first `n` expected sections whose heading the
/// trimmed line is.
pub open spec fn heading_id(expected: Seq<OutputSection>, t: Seq<char>, n: int) -> Option<Seq<char>>
    decreases n,
{
    if n <= 0 {
        None
    } else {
        match heading_id(expected, t, n - 1) {
            Some(id) => Some(id),
            None => if is_heading_line(expected[n - 1].title@, t) {
                Some(expected[n - 1].id@)
            } else {
                None
            },
        }
    }
}

/// The scanner's state: title, finished sections, the open section, errors.
pub type ScanState = (
    Option<Seq<char>>,
    Seq<(Seq<char>, Seq<char>)>,
    Option<(Seq<char>, Seq<char>)>,
    Seq<Seq<char>>,
);

pub open spec fn append_line(body: Seq<char>, line: Seq<char>) -> Seq<char> {
    if body.len() == 0 {
        line
    } else {
        body.push('\n') + line
    }
}

pub open spec fn scan_step(expected: Seq<OutputSection>, st: ScanState, line: Seq<char>) -> ScanState {
    let t = text::trim(line);
    if text::starts_with(t, "# "@) {
        let errors = if st.0 is Some {
            st.3.push("the output contains more than one level-one title"@)
        } else {
            st.3
        };
        (Some(text::trim(t.subrange(2, t.len() as int))), st.1, st.2, errors)
    } else {
        match heading_id(expected, t, expected.len() as int) {
            Some(id) => (
                st.0,
                match st.2 {
                    Some(c) => st.1.push(c),
                    None => st.1,
                },
                Some((id, Seq::<char>::empty())),
                st.3,
            ),
            None => match st.2 {
                Some(c) => (st.0, st.1, Some((c.0, append_line(c.1, line))), st.3),
                None => st,
            },
        }
    }
}

pub open spec fn scan_lines(expected: Seq<OutputSection>, lines: Seq<Seq<char>>, n: int) -> ScanState
    decreases n,
{
    if n <= 0 {
        (None, Seq::empty(), None, Seq::empty())
    } else {
        scan_step(expected, scan_lines(expected, lines, n - 1), lines[n - 1])
    }
}

/// Title, sections in order of appearance, and errors of the scan.
pub open spec fn scan_markdown(expected: Seq<OutputSection>, md: Seq<char>) -> (
    Option<Seq<char>>,
    Seq<(Seq<char>, Seq<char>)>,
    Seq<Seq<char>>,
) {
    let lines = md_lines(md);
    let st = scan_lines(expected, lines, lines.len() as int);
    (
        st.0,
        match st.2 {
            Some(c) => st.1.push(c),
            None => st.1,
        },
        st.3,
    )
}

pub open spec fn pair_view(p: (String, String)) -> (Seq<char>, Seq<char>) {
    (p.0@, p.1@)
}

pub open spec fn pairs_view(v: Seq<(String, String)>) -> Seq<(Seq<char>, Seq<char>)> {
    v.map_values(|p: (String, String)| pair_view(p))
}

pub open spec fn opt_pair_view(o: Option<(String, String)>) -> Option<(Seq<char>, Seq<char>)> {
    match o {
        Some(p) => Some(pair_view(p)),
        None => None,
    }
}

fn heading_for(expected: &Vec<OutputSection>, t: &str) -> (r: Option<String>)
    ensures
        match heading_id(expected@, t@, expected@.len() as int) {
            Some(id) => r matches Some(s) && s@ == id,
            None => r is None,
        },
{
    let mut k: usize = 0;
    while k < expected.len()
        invariant
            0 <= k <= expected@.len(),
            heading_id(expected@, t@, k as int) is None,
        decreases expected.len() - k,
    {
        let title = expected[k].title.as_str();
        let mut bold = string_from("**");
        push_str(&mut bold, title);
        push_str(&mut bold, "**");
        let mut h2 = string_from("## ");
        push_str(&mut h2, title);
        if str_eq(t, bold.as_str()) || str_eq(t, h2.as_str()) {
            proof {
                lemma_heading_settles(expected@, t@, k + 1, expected@.len() as int);
            }
            return Some(expected[k].id.clone());
        }
        k += 1;
    }
    None
}

proof fn lemma_heading_settles(expected: Seq<OutputSection>, t: Seq<char>, n: int, m: int)
    requires
        0 <= n <= m,
        heading_id(expected, t, n) is Some,
    ensures
        heading_id(expected, t, m) == heading_id(expected, t, n),
    decreases m - n,
{
    if n < m {
        lemma_heading_settles(expected, t, n, m - 1);
    }
}

/// One step of the scan, on the scanner's state.
fn scan_line(
    expected: &Vec<OutputSection>,
    title: &mut Option<String>,
    found: &mut Vec<(String, String)>,
    current: &mut Option<(String, String)>,
    errors: &mut Vec<String>,
    line: &String,
)
    ensures
        (
            canonical::opt_view(*final(title)),
            pairs_view(final(found)@),
            opt_pair_view(*final(current)),
            canonical::string_views(final(errors)@),
        ) == scan_step(
            expected@,
            (
                canonical::opt_view(*old(title)),
                pairs_view(old(found)@),
                opt_pair_view(*old(current)),
                canonical::string_views(old(errors)@),
            ),
            line@,
        ),
{
    let trimmed = trim_string(line.as_str());
    if str_starts_with(trimmed.as_str(), "# ") {
        proof {
            reveal_strlit("# ");
        }
        let tv = chars_of(trimmed.as_str());
        let rest = string_from_chars(tv.as_slice(), 2, tv.len());
        let value = trim_string(rest.as_str());
        if title.is_some() {
            let ghost prev = errors@;
            errors.push(string_from("the output contains more than one level-one title"));
            proof {
                assert(canonical::string_views(errors@) =~= canonical::string_views(prev).push(
                    "the output contains more than one level-one title"@,
                ));
            }
        }
        *title = Some(value);
        return;
    }
    match heading_for(expected, trimmed.as_str()) {
        Some(id) => {
            let ghost prev = found@;
            let old_current = current.take();
            match old_current {
                Some(c) => {
                    let ghost cv = pair_view(c);
                    found.push(c);
                    proof {
                        assert(pairs_view(found@) =~= pairs_view(prev).push(cv));
                    }
                },
                None => {},
            }
            *current = Some((id, String::new()));
        },
        None => {
            match current {
                Some(c) => {
                    if !c.1.as_str().is_empty() {
                        push_char(&mut c.1, '\n');
                    }
                    push_str(&mut c.1, line.as_str());
                },
                None => {},
            }
        },
    }
}

// ----------------------------------------------------------------------------
// Assembling and checking the sections
// ----------------------------------------------------------------------------
/// The parsed Markdown: its title, the body of each section (one entry per
/// section id, in order of first appearance), every section heading in
/// order, and every problem found.
#[derive(Debug, Clone, PartialEq, Eq)]
pub struct ParsedProfileMarkdown {
    pub title: Option<String>,
    pub sections: Vec<(String, String)>,
    pub section_order: Vec<String>,
    pub errors: Vec<String>,
}

impl ParsedProfileMarkdown {
    pub fn is_schema_compliant(&self) -> (r: bool)
        ensures
            r == (self.errors@.len() == 0),
    {
        self.errors.len() == 0
    }
}

/// The first of the first `n` entries with the given id.
pub open spec fn entry_index(entries: Seq<(Seq<char>, Seq<char>)>, id: Seq<char>, n: int) -> Option<
    int,
>
    decreases n,
{
    if n <= 0 {
        None
    } else {
        match entry_index(entries, id, n - 1) {
            Some(k) => Some(k),
            None => if entries[n - 1].0 == id {
                Some(n - 1)
            } else {
                None
            },
        }
    }
}

pub open spec fn lookup(entries: Seq<(Seq<char>, Seq<char>)>, id: Seq<char>) -> Option<Seq<char>> {
    match entry_index(entries, id, entries.len() as int) {
        Some(k) => Some(entries[k].1),
        None => None,
    }
}

/// Entries (the last trimmed body of each id, at the place of its first
/// appearance), the order of all headings, and repeated-section errors.
pub open spec fn assemble(found: Seq<(Seq<char>, Seq<char>)>, n: int) -> (
    Seq<(Seq<char>, Seq<char>)>,
    Seq<Seq<char>>,
    Seq<Seq<char>>,
)
    decreases n,
{
    if n <= 0 {
        (Seq::empty(), Seq::empty(), Seq::empty())
    } else {
        let prev = assemble(found, n - 1);
        let id = found[n - 1].0;
        let body = text::trim(found[n - 1].1);
        match entry_index(prev.0, id, prev.0.len() as int) {
            Some(k) => (
                prev.0.update(k, (id, body)),
                prev.1.push(id),
                prev.2.push("section '"@ + id + "' appears more than once"@),
            ),
            None => (prev.0.push((id, body)), prev.1.push(id), prev.2),
        }
    }
}

pub open spec fn join_ids(ids: Seq<Seq<char>>) -> Seq<char>
    decreases ids.len(),
{
    if ids.len() == 0 {
        Seq::empty()
    } else if ids.len() == 1 {
        ids[0]
    } else {
        join_ids(ids.drop_last()) + ", "@ + ids.last()
    }
}

/// The trimmed non-empty lines among the first `n`.
pub open spec fn nonempty_trimmed(lines: Seq<Seq<char>>, n: int) -> Seq<Seq<char>>
    decreases n,
{
    if n <= 0 {
        Seq::empty()
    } else if text::trim(lines[n - 1]).len() == 0 {
        nonempty_trimmed(lines, n - 1)
    } else {
        nonempty_trimmed(lines, n - 1).push(text::trim(lines[n - 1]))
    }
}

pub open spec fn body_lines(body: Seq<char>) -> Seq<Seq<char>> {
    nonempty_trimmed(md_lines(body), md_lines(body).len() as int)
}

pub open spec fn section_check(s: OutputSection, body: Option<Seq<char>>) -> Seq<Seq<char>> {
    let id = s.id@;
    if s.required && (body is None || text::is_blank(body->0)) {
        seq!["required section '"@ + id + "' is missing or empty"@]
    } else {
        match body {
            None => Seq::empty(),
            Some(b) => {
                let lines = body_lines(b);
                match s.format {
                    SectionFormat::List => if !(exists|k: int|
                        0 <= k < lines.len() && #[trigger] is_list_item(lines[k])) {
                        seq!["section '"@ + id + "' must contain a Markdown list"@]
                    } else {
                        Seq::empty()
                    },
                    SectionFormat::String => if lines.len() != 1 {
                        seq!["section '"@ + id + "' must contain one non-empty line"@]
                    } else {
                        Seq::empty()
                    },
                    SectionFormat::Paragraph => Seq::empty(),
                }
            },
        }
    }
}

pub open spec fn section_checks(
    expected: Seq<OutputSection>,
    entries: Seq<(Seq<char>, Seq<char>)>,
    n: int,
) -> Seq<Seq<char>>
    decreases n,
{
    if n <= 0 {
        Seq::empty()
    } else {
        section_checks(expected, entries, n - 1) + section_check(
            expected[n - 1],
            lookup(entries, expected[n - 1].id@),
        )
    }
}

/// The result of parsing `md` against the expected sections.
pub open spec fn parsed_matches(
    r: ParsedProfileMarkdown,
    expected: Seq<OutputSection>,
    title_required: bool,
    md: Seq<char>,
) -> bool {
    let sc = scan_markdown(expected, md);
    let sorted = assemble(sc.1, sc.1.len() as int);
    let expected_ids = validation::section_ids(expected);
    &&& canonical::opt_view(r.title) == sc.0
    &&& pairs_view(r.sections@) == sorted.0
    &&& canonical::string_views(r.section_order@) == sorted.1
    &&& canonical::string_views(r.errors@) == sc.2 + sorted.2 + (if title_required && (sc.0 is None
        || text::is_blank(sc.0->0)) {
        seq!["the required level-one title is missing or empty"@]
    } else {
        Seq::empty()
    }) + (if sorted.1 != expected_ids {
        seq!["sections are missing, duplicated, or out of order; expected "@ + join_ids(expected_ids)]
    } else {
        Seq::empty()
    }) + section_checks(expected, sorted.0, expected.len() as int)
}

fn scan_all(expected: &Vec<OutputSection>, markdown: &str) -> (r: (
    Option<String>,
    Vec<(String, String)>,
    Vec<String>,
))
    ensures
        canonical::opt_view(r.0) == scan_markdown(expected@, markdown@).0,
        pairs_view(r.1@) == scan_markdown(expected@, markdown@).1,
        canonical::string_views(r.2@) == scan_markdown(expected@, markdown@).2,
{
    let lines = split_lines(markdown);
    let ghost lv = md_lines(markdown@);
    let mut title: Option<String> = None;
    let mut found: Vec<(String, String)> = Vec::new();
    let mut current: Option<(String, String)> = None;
    let mut errors: Vec<String> = Vec::new();
    proof {
        assert(pairs_view(found@) =~= Seq::<(Seq<char>, Seq<char>)>::empty());
        assert(canonical::string_views(errors@) =~= Seq::<Seq<char>>::empty());
        assert(canonical::string_views(lines@).len() == lines@.len());
    }
    let mut i: usize = 0;
    while i < lines.len()
        invariant
            canonical::string_views(lines@) == lv,
            lv.len() == lines@.len(),
            0 <= i <= lines@.len(),
            (
                canonical::opt_view(title),
                pairs_view(found@),
                opt_pair_view(current),
                canonical::string_views(errors@),
            ) == scan_lines(expected@, lv, i as int),
        decreases lines.len() - i,
    {
        proof {
            assert(lv[i as int] == lines@[i as int]@);
        }
        scan_line(expected, &mut title, &mut found, &mut current, &mut errors, &lines[i]);
        i += 1;
    }
    match current {
        Some(c) => {
            let ghost prev = found@;
            let ghost cv = pair_view(c);
            found.push(c);
            proof {
                assert(pairs_view(found@) =~= pairs_view(prev).push(cv));
            }
        },
        None => {},
    }
    (title, found, errors)
}

fn find_entry(entries: &Vec<(String, String)>, id: &String) -> (r: Option<usize>)
    ensures
        r matches Some(k) ==> k < entries@.len() && entry_index(
            pairs_view(entries@),
            id@,
            entries@.len() as int,
        ) == Some(k as int),
        r is None ==> entry_index(pairs_view(entries@), id@, entries@.len() as int) is None,
{
    let ghost ev = pairs_view(entries@);
    let mut k: usize = 0;
    while k < entries.len()
        invariant
            ev == pairs_view(entries@),
            0 <= k <= entries@.len(),
            entry_index(ev, id@, k as int) is None,
        decreases entries.len() - k,
    {
        if entries[k].0 == *id {
            proof {
                lemma_entry_settles(ev, id@, k + 1, entries@.len() as int);
            }
            return Some(k);
        }
        k += 1;
    }
    None
}

proof fn lemma_entry_settles(entries: Seq<(Seq<char>, Seq<char>)>, id: Seq<char>, n: int, m: int)
    requires
        0 <= n <= m,
        entry_index(entries, id, n) is Some,
    ensures
        entry_index(entries, id, m) == entry_index(entries, id, n),
    decreases m - n,
{
    if n < m {
        lemma_entry_settles(entries, id, n, m - 1);
    }
}

fn assemble_sections(found: &Vec<(String, String)>) -> (r: (
    Vec<(String, String)>,
    Vec<String>,
    Vec<String>,
))
    ensures
        pairs_view(r.0@) == assemble(pairs_view(found@), found@.len() as int).0,
        canonical::string_views(r.1@) == assemble(pairs_view(found@), found@.len() as int).1,
        canonical::string_views(r.2@) == assemble(pairs_view(found@), found@.len() as int).2,
{
    let ghost fv = pairs_view(found@);
    let mut entries: Vec<(String, String)> = Vec::new();
    let mut order: Vec<String> = Vec::new();
    let mut errors: Vec<String> = Vec::new();
    proof {
        assert(pairs_view(entries@) =~= Seq::<(Seq<char>, Seq<char>)>::empty());
        assert(canonical::string_views(order@) =~= Seq::<Seq<char>>::empty());
        assert(canonical::string_views(errors@) =~= Seq::<Seq<char>>::empty());
    }
    let mut i: usize = 0;
    while i < found.len()
        invariant
            fv == pairs_view(found@),
            0 <= i <= found@.len(),
            pairs_view(entries@) == assemble(fv, i as int).0,
            canonical::string_views(order@) == assemble(fv, i as int).1,
            canonical::string_views(errors@) == assemble(fv, i as int).2,
        decreases found.len() - i,
    {
        let id = found[i].0.clone();
        let body = trim_string(found[i].1.as_str());
        proof {
            assert(fv[i as int] == pair_view(found@[i as int]));
        }
        let ghost prev_entries = entries@;
        let ghost prev_order = order@;
        let ghost prev_errors = errors@;
        match find_entry(&entries, &id) {
            Some(k) => {
                let ghost pair = (id@, body@);
                let mut message = string_from("section '");
                push_str(&mut message, id.as_str());
                push_str(&mut message, "' appears more than once");
                errors.push(message);
                entries.set(k, (id.clone(), body));
                proof {
                    assert(pairs_view(entries@) =~= pairs_view(prev_entries).update(k as int, pair));
                    assert(canonical::string_views(errors@) =~= canonical::string_views(prev_errors).push(
                        "section '"@ + id@ + "' appears more than once"@,
                    ));
                }
            },
            None => {
                let ghost pair = (id@, body@);
                entries.push((id.clone(), body));
                proof {
                    assert(pairs_view(entries@) =~= pairs_view(prev_entries).push(pair));
                }
            },
        }
        let ghost idv = id@;
        order.push(id);
        proof {
            assert(canonical::string_views(order@) =~= canonical::string_views(prev_order).push(idv));
        }
        i += 1;
    }
    (entries, order, errors)
}

fn lookup_entry(entries: &Vec<(String, String)>, id: &String) -> (r: Option<String>)
    ensures
        canonical::opt_view(r) == lookup(pairs_view(entries@), id@),
{
    match find_entry(entries, id) {
        Some(k) => {
            proof {
                assert(pairs_view(entries@)[k as int] == pair_view(entries@[k as int]));
            }
            Some(entries[k].1.clone())
        },
        None => None,
    }
}

fn body_line_list(body: &str) -> (r: Vec<String>)
    ensures
        canonical::string_views(r@) == body_lines(body@),
{
    let lines = split_lines(body);
    let ghost lv = md_lines(body@);
    let mut out: Vec<String> = Vec::new();
    proof {
        assert(canonical::string_views(out@) =~= Seq::<Seq<char>>::empty());
        assert(canonical::string_views(lines@).len() == lines@.len());
    }
    let mut i: usize = 0;
    while i < lines.len()
        invariant
            canonical::string_views(lines@) == lv,
            lv.len() == lines@.len(),
            0 <= i <= lines@.len(),
            canonical::string_views(out@) == nonempty_trimmed(lv, i as int),
        decreases lines.len() - i,
    {
        proof {
            assert(lv[i as int] == lines@[i as int]@);
        }
        let t = trim_string(lines[i].as_str());
        if !t.as_str().is_empty() {
            let ghost prev = out@;
            let ghost tv = t@;
            out.push(t);
            proof {
                assert(canonical::string_views(out@) =~= canonical::string_views(prev).push(tv));
            }
        }
        i += 1;
    }
    out
}

fn check_section(s: &OutputSection, body: &Option<String>, errors: &mut Vec<String>)
    ensures
        canonical::string_views(final(errors)@) == canonical::string_views(old(errors)@) + section_check(
            *s,
            canonical::opt_view(*body),
        ),
{
    let ghost start = canonical::string_views(errors@);
    let blank = match body {
        Some(b) => str_is_blank(b.as_str()),
        None => true,
    };
    if s.required && blank {
        let mut message = string_from("required section '");
        push_str(&mut message, s.id.as_str());
        push_str(&mut message, "' is missing or empty");
        let ghost mv = message@;
        errors.push(message);
        proof {
            assert(canonical::string_views(errors@) =~= start.push(mv));
            assert(canonical::string_views(errors@) =~= start + section_check(
                *s,
                canonical::opt_view(*body),
            ));
        }
        return;
    }
    match body {
        None => {
            proof {
                assert(canonical::string_views(errors@) =~= start + section_check(
                    *s,
                    canonical::opt_view(*body),
                ));
            }
        },
        Some(b) => {
            let lines = body_line_list(b.as_str());
            let ghost lv = body_lines(b@);
            proof {
                assert(canonical::string_views(lines@).len() == lines@.len());
            }
            match s.format {
                SectionFormat::List => {
                    let mut any = false;
                    let mut k: usize = 0;
                    while k < lines.len()
                        invariant
                            canonical::string_views(lines@) == lv,
                            lv.len() == lines@.len(),
                            0 <= k <= lines@.len(),
                            any == exists|q: int| 0 <= q < k && #[trigger] is_list_item(lv[q]),
                        decreases lines.len() - k,
                    {
                        proof {
                            assert(lv[k as int] == lines@[k as int]@);
                        }
                        if is_markdown_list_item(lines[k].as_str()) {
                            any = true;
                        }
                        k += 1;
                    }
                    if !any {
                        let mut message = string_from("section '");
                        push_str(&mut message, s.id.as_str());
                        push_str(&mut message, "' must contain a Markdown list");
                        let ghost mv = message@;
                        errors.push(message);
                        proof {
                            assert(canonical::string_views(errors@) =~= start.push(mv));
                        }
                    }
                },
                SectionFormat::String => {
                    if lines.len() != 1 {
                        let mut message = string_from("section '");
                        push_str(&mut message, s.id.as_str());
                        push_str(&mut message, "' must contain one non-empty line");
                        let ghost mv = message@;
                        errors.push(message);
                        proof {
                            assert(canonical::string_views(errors@) =~= start.push(mv));
                        }
                    }
                },
                SectionFormat::Paragraph => {},
            }
            proof {
                assert(canonical::string_views(errors@) =~= start + section_check(
                    *s,
                    canonical::opt_view(*body),
                ));
            }
        },
    }
}

fn join_id_list(ids: &Vec<String>) -> (r: String)
    ensures
        r@ == join_ids(canonical::string_views(ids@)),
{
    let ghost iv = canonical::string_views(ids@);
    let mut out = String::new();
    proof {
        assert(iv.len() == ids@.len());
        assert(iv.subrange(0, 0) =~= Seq::<Seq<char>>::empty());
    }
    let mut i: usize = 0;
    while i < ids.len()
        invariant
            iv == canonical::string_views(ids@),
            iv.len() == ids@.len(),
            0 <= i <= ids@.len(),
            out@ == join_ids(iv.subrange(0, i as int)),
        decreases ids.len() - i,
    {
        if i > 0 {
            push_str(&mut out, ", ");
        }
        push_str(&mut out, ids[i].as_str());
        proof {
            let next = iv.subrange(0, i + 1);
            assert(next.drop_last() =~= iv.subrange(0, i as int));
            assert(next.last() == ids@[i as int]@);
            assert(out@ =~= join_ids(next));
        }
        i += 1;
    }
    proof {
        assert(iv.subrange(0, iv.len() as int) =~= iv);
    }
    out
}

fn string_lists_equal(a: &Vec<String>, b: &Vec<String>) -> (r: bool)
    ensures
        r == (canonical::string_views(a@) == canonical::string_views(b@)),
{
    let ghost av = canonical::string_views(a@);
    let ghost bv = canonical::string_views(b@);
    proof {
        assert(av.len() == a@.len());
        assert(bv.len() == b@.len());
    }
    if a.len() != b.len() {
        return false;
    }
    let mut i: usize = 0;
    while i < a.len()
        invariant
            av == canonical::string_views(a@),
            bv == canonical::string_views(b@),
            av.len() == a@.len(),
            bv.len() == b@.len(),
            a@.len() == b@.len(),
            0 <= i <= a@.len(),
            forall|k: int| 0 <= k < i ==> av[k] == bv[k],
        decreases a.len() - i,
    {
        if a[i] != b[i] {
            assert(av[i as int] != bv[i as int]);
            return false;
        }
        i += 1;
    }
    proof {
        assert(av =~= bv);
    }
    true
}

/// Parses model output against the expected sections of a rendered playbook.
#[verifier::spinoff_prover]
pub fn parse_sections(expected: &Vec<OutputSection>, title_required: bool, markdown: &str) -> (r:
    ParsedProfileMarkdown)
    ensures
        parsed_matches(r, expected@, title_required, markdown@),
{
    let (title, found, scan_errors) = scan_all(expected, markdown);
    let (entries, order, repeat_errors) = assemble_sections(&found);
    let ghost sc = scan_markdown(expected@, markdown@);
    let ghost sorted = assemble(sc.1, sc.1.len() as int);
    proof {
        assert(pairs_view(found@).len() == found@.len());
    }
    let mut errors = scan_errors;
    let ghost e0 = canonical::string_views(errors@);
    let mut j: usize = 0;
    while j < repeat_errors.len()
        invariant
            0 <= j <= repeat_errors@.len(),
            canonical::string_views(errors@) == e0 + canonical::string_views(
                repeat_errors@.subrange(0, j as int),
            ),
        decreases repeat_errors.len() - j,
    {
        let ghost prev = errors@;
        errors.push(repeat_errors[j].clone());
        proof {
            assert(canonical::string_views(repeat_errors@.subrange(0, j + 1)) =~= canonical::string_views(
                repeat_errors@.subrange(0, j as int),
            ).push(repeat_errors@[j as int]@));
            assert(canonical::string_views(errors@) =~= canonical::string_views(prev).push(
                repeat_errors@[j as int]@,
            ));
        }
        j += 1;
    }
    proof {
        assert(repeat_errors@.subrange(0, repeat_errors@.len() as int) =~= repeat_errors@);
    }
    let ghost e1 = canonical::string_views(errors@);
    let title_missing = match &title {
        Some(t) => str_is_blank(t.as_str()),
        None => true,
    };
    if title_required && title_missing {
        errors.push(string_from("the required level-one title is missing or empty"));
    }
    let ghost e2 = canonical::string_views(errors@);
    proof {
        assert(e2 =~= e1 + (if title_required && (sc.0 is None || text::is_blank(sc.0->0)) {
            seq!["the required level-one title is missing or empty"@]
        } else {
            Seq::empty()
        }));
    }
    let mut expected_ids: Vec<String> = Vec::new();
    let mut k: usize = 0;
    while k < expected.len()
        invariant
            0 <= k <= expected@.len(),
            canonical::string_views(expected_ids@) == validation::section_ids(
                expected@.subrange(0, k as int),
            ),
        decreases expected.len() - k,
    {
        let ghost prev = expected_ids@;
        expected_ids.push(expected[k].id.clone());
        proof {
            assert(validation::section_ids(expected@.subrange(0, k + 1)) =~= validation::section_ids(
                expected@.subrange(0, k as int),
            ).push(expected@[k as int].id@));
            assert(canonical::string_views(expected_ids@) =~= canonical::string_views(prev).push(
                expected@[k as int].id@,
            ));
        }
        k += 1;
    }
    proof {
        assert(expected@.subrange(0, expected@.len() as int) =~= expected@);
    }
    if !string_lists_equal(&order, &expected_ids) {
        let mut message = string_from("sections are missing, duplicated, or out of order; expected ");
        let joined = join_id_list(&expected_ids);
        push_str(&mut message, joined.as_str());
        errors.push(message);
    }
    let ghost e3 = canonical::string_views(errors@);
    proof {
        assert(e3 =~= e2 + (if sorted.1 != validation::section_ids(expected@) {
            seq![
                "sections are missing, duplicated, or out of order; expected "@ + join_ids(
                    validation::section_ids(expected@),
                ),
            ]
        } else {
            Seq::empty()
        }));
    }
    let mut q: usize = 0;
    while q < expected.len()
        invariant
            0 <= q <= expected@.len(),
            pairs_view(entries@) == sorted.0,
            canonical::string_views(errors@) == e3 + section_checks(expected@, sorted.0, q as int),
        decreases expected.len() - q,
    {
        let body = lookup_entry(&entries, &expected[q].id);
        check_section(&expected[q], &body, &mut errors);
        proof {
            assert(canonical::string_views(errors@) =~= e3 + section_checks(
                expected@,
                sorted.0,
                q + 1,
            ));
        }
        q += 1;
    }
    let r = ParsedProfileMarkdown { title, sections: entries, section_order: order, errors };
    proof {
        assert(canonical::string_views(r.errors@) =~= sc.2 + sorted.2 + (if title_required && (
        sc.0 is None || text::is_blank(sc.0->0)) {
            seq!["the required level-one title is missing or empty"@]
        } else {
            Seq::empty()
        }) + (if sorted.1 != validation::section_ids(expected@) {
            seq![
                "sections are missing, duplicated, or out of order; expected "@ + join_ids(
                    validation::section_ids(expected@),
                ),
            ]
        } else {
            Seq::empty()
        }) + section_checks(expected@, sorted.0, expected@.len() as int));
    }
    r
}

fn copy_section(s: &OutputSection) -> (r: OutputSection)
    ensures
        r == *s,
{
    OutputSection {
        id: s.id.clone(),
        title: s.title.clone(),
        instruction: s.instruction.clone(),
        format: s.format,
        required: s.required,
    }
}

/// What parsing model output for a profile's playbook returns.
pub open spec fn parse_outcome(
    p: ExpertProfileVersion,
    playbook_id: u128,
    md: Seq<char>,
    r: Result<ParsedProfileMarkdown, ProfileRenderError>,
) -> bool {
    let issues = validation::profile_issues(p);
    if issues.len() > 0 {
        r matches Err(ProfileRenderError::Validation(e)) && validation::issues_view(e.0@) == issues
    } else {
        match validation::first_playbook(p.playbooks@, playbook_id, p.playbooks@.len() as int) {
            None => r == Err::<ParsedProfileMarkdown, ProfileRenderError>(
                ProfileRenderError::PlaybookNotFound(playbook_id),
            ),
            Some(j) => r matches Ok(parsed) && parsed_matches(
                parsed,
                validation::combined_sections(p, p.playbooks@[j]),
                p.output_contract.title_required,
                md,
            ),
        }
    }
}

/// Parses Markdown returned for a profile's playbook: one level-one title,
/// then the profile's sections and the playbook's, each in order, under a
/// `**Title**` or `## Title` heading, non-empty where required, and in the
/// shape its format asks for.
pub fn parse_profile_markdown(profile: &ExpertProfileVersion, playbook_id: u128, markdown: &str) -> (r:
    Result<ParsedProfileMarkdown, ProfileRenderError>)
    ensures
        parse_outcome(*profile, playbook_id, markdown@, r),
{
    let _spec = build_profile_render_spec(profile, playbook_id)?;
    let j = match find_playbook_index(&profile.playbooks, playbook_id) {
        Some(j) => j,
        None => {
            return Err(ProfileRenderError::PlaybookNotFound(playbook_id));
        },
    };
    let playbook = &profile.playbooks[j];
    let mut expected: Vec<OutputSection> = Vec::new();
    let mut i: usize = 0;
    while i < profile.output_contract.sections.len()
        invariant
            0 <= i <= profile.output_contract.sections@.len(),
            expected@ == profile.output_contract.sections@.subrange(0, i as int),
        decreases profile.output_contract.sections.len() - i,
    {
        expected.push(copy_section(&profile.output_contract.sections[i]));
        proof {
            assert(expected@ =~= profile.output_contract.sections@.subrange(0, i + 1));
        }
        i += 1;
    }
    let mut k: usize = 0;
    while k < playbook.sections.len()
        invariant
            0 <= k <= playbook.sections@.len(),
            expected@ == profile.output_contract.sections@ + playbook.sections@.subrange(0, k as int),
        decreases playbook.sections.len() - k,
    {
        expected.push(copy_section(&playbook.sections[k]));
        proof {
            assert(expected@ =~= profile.output_contract.sections@ + playbook.sections@.subrange(
                0,
                k + 1,
            ));
        }
        k += 1;
    }
    proof {
        assert(expected@ =~= validation::combined_sections(*profile, *playbook));
    }
    Ok(parse_sections(&expected, profile.output_contract.title_required, markdown))
}

} // verus!
