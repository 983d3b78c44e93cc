//! Skills: which one is meant, and what kind of script runs it.

use crate::prompt::ActiveSkillContext;
use crate::sorting::holds_text;
use crate::text::{
    chars_equal, chars_of, contains, find_chars, opt_text, same_text, texts_view, trim, trim_chars,
};
use crate::value::{Json, JsonView};
use vstd::prelude::*;

verus! {

/// What a run of a skill is for.
#[derive(Clone, Copy, PartialEq, Eq, Structural)]
pub enum SkillRunMode {
    Chat,
    Test,
    Cron,
}

/// The script that runs a skill.
#[derive(Clone, Copy, PartialEq, Eq, Structural)]
pub enum SkillScriptKind {
    Rhai,
    Python,
    Markdown,
}

/// The kind of script that was found for a skill.
#[derive(Clone, Copy, PartialEq, Eq, Structural)]
pub enum ResolvedSkillScriptKind {
    Rhai,
    Python,
    Markdown,
}

pub open spec fn kind_name(kind: SkillScriptKind) -> Seq<char> {
    match kind {
        SkillScriptKind::Rhai => "rhai"@,
        SkillScriptKind::Python => "python"@,
        SkillScriptKind::Markdown => "markdown"@,
    }
}

impl SkillScriptKind {
    pub fn as_str(self) -> (r: &'static str)
        ensures
            r@ == kind_name(self),
    {
        match self {
            SkillScriptKind::Rhai => "rhai",
            SkillScriptKind::Python => "python",
            SkillScriptKind::Markdown => "markdown",
        }
    }
}

pub open spec fn runtime_kind(kind: ResolvedSkillScriptKind) -> SkillScriptKind {
    match kind {
        ResolvedSkillScriptKind::Rhai => SkillScriptKind::Rhai,
        ResolvedSkillScriptKind::Python => SkillScriptKind::Python,
        ResolvedSkillScriptKind::Markdown => SkillScriptKind::Markdown,
    }
}

impl ResolvedSkillScriptKind {
    pub fn as_metadata_kind(self) -> (r: &'static str)
        ensures
            r@ == kind_name(runtime_kind(self)),
    {
        match self {
            ResolvedSkillScriptKind::Rhai => "rhai",
            ResolvedSkillScriptKind::Python => "python",
            ResolvedSkillScriptKind::Markdown => "markdown",
        }
    }

    pub fn as_runtime_kind(self) -> (r: SkillScriptKind)
        ensures
            r == runtime_kind(self),
    {
        match self {
            ResolvedSkillScriptKind::Rhai => SkillScriptKind::Rhai,
            ResolvedSkillScriptKind::Python => SkillScriptKind::Python,
            ResolvedSkillScriptKind::Markdown => SkillScriptKind::Markdown,
        }
    }
}

/// What lies in the directory of a skill.
#[derive(Clone, Copy)]
pub struct SkillFiles {
    pub exists: bool,
    pub rhai: bool,
    pub python: bool,
    pub markdown: bool,
}

pub open spec fn kind_in(files: SkillFiles) -> Option<ResolvedSkillScriptKind> {
    if !files.exists {
        None
    } else if files.rhai {
        Some(ResolvedSkillScriptKind::Rhai)
    } else if files.python {
        Some(ResolvedSkillScriptKind::Python)
    } else if files.markdown {
        Some(ResolvedSkillScriptKind::Markdown)
    } else {
        None
    }
}

/// The kind of script of a skill: that in the user's directory, or else the built-in one.
pub open spec fn inferred_kind(user: SkillFiles, builtin: SkillFiles) -> Option<
    ResolvedSkillScriptKind,
> {
    match kind_in(user) {
        Some(kind) => Some(kind),
        None => kind_in(builtin),
    }
}

fn kind_in_of(files: SkillFiles) -> (r: Option<ResolvedSkillScriptKind>)
    ensures
        r == kind_in(files),
{
    if !files.exists {
        None
    } else if files.rhai {
        Some(ResolvedSkillScriptKind::Rhai)
    } else if files.python {
        Some(ResolvedSkillScriptKind::Python)
    } else if files.markdown {
        Some(ResolvedSkillScriptKind::Markdown)
    } else {
        None
    }
}

pub fn infer_skill_script_kind(user: SkillFiles, builtin: SkillFiles) -> (r: Option<
    ResolvedSkillScriptKind,
>)
    ensures
        r == inferred_kind(user, builtin),
{
    match kind_in_of(user) {
        Some(kind) => Some(kind),
        None => kind_in_of(builtin),
    }
}

pub open spec fn flag(metadata: JsonView, key: Seq<char>) -> bool {
    match metadata.get(key) {
        Some(JsonView::Bool(b)) => b,
        _ => false,
    }
}

/// The kind of script that a message's metadata ask for: by a flag of its own, or by
/// `skill_script` together with a kind or with what was found for the skill.
pub open spec fn asked_kind(metadata: JsonView, inferred: Option<ResolvedSkillScriptKind>) -> Option<
    SkillScriptKind,
> {
    if flag(metadata, "skill_rhai"@) {
        Some(SkillScriptKind::Rhai)
    } else if flag(metadata, "skill_python"@) {
        Some(SkillScriptKind::Python)
    } else if flag(metadata, "skill_markdown"@) {
        Some(SkillScriptKind::Markdown)
    } else if flag(metadata, "skill_script"@) {
        let named = metadata.str_at("skill_script_kind"@);
        if named == Some("rhai"@) {
            Some(SkillScriptKind::Rhai)
        } else if named == Some("python"@) {
            Some(SkillScriptKind::Python)
        } else if named == Some("markdown"@) {
            Some(SkillScriptKind::Markdown)
        } else {
            match inferred {
                Some(kind) => Some(runtime_kind(kind)),
                None => None,
            }
        }
    } else {
        None
    }
}

pub fn flag_of(metadata: &Json, key: &str) -> (r: bool)
    ensures
        r == flag(metadata@, key@),
{
    match metadata.get(key) {
        Some(v) => match v {
            Json::Bool(b) => *b,
            _ => false,
        },
        None => false,
    }
}

pub fn resolve_skill_script_kind_from_metadata(
    metadata: &Json,
    inferred: Option<ResolvedSkillScriptKind>,
) -> (r: Option<SkillScriptKind>)
    ensures
        r == asked_kind(metadata@, inferred),
{
    if flag_of(metadata, "skill_rhai") {
        return Some(SkillScriptKind::Rhai);
    }
    if flag_of(metadata, "skill_python") {
        return Some(SkillScriptKind::Python);
    }
    if flag_of(metadata, "skill_markdown") {
        return Some(SkillScriptKind::Markdown);
    }
    if flag_of(metadata, "skill_script") {
        if let Some(kind) = metadata.str_at("skill_script_kind") {
            if same_text(kind, "rhai") {
                return Some(SkillScriptKind::Rhai);
            }
            if same_text(kind, "python") {
                return Some(SkillScriptKind::Python);
            }
            if same_text(kind, "markdown") {
                return Some(SkillScriptKind::Markdown);
            }
        }
        return match inferred {
            Some(kind) => Some(kind.as_runtime_kind()),
            None => None,
        };
    }
    None
}

// ---------------------------------------------------------------------------
// Active skills
// ---------------------------------------------------------------------------

/// What is known of an installed skill.
pub struct SkillInfo {
    pub name: String,
    pub available: bool,
    pub prompt_bundle: Option<String>,
    pub has_python: bool,
    pub has_rhai: bool,
    pub tools: Vec<String>,
    pub fallback_message: Option<String>,
}

/// The context of a skill. Its prompt is injected where no script runs it.
pub open spec fn context_of(skill: SkillInfo) -> Option<ActiveSkillContext> {
    match skill.prompt_bundle {
        None => None,
        Some(prompt_md) => Some(
            ActiveSkillContext {
                name: skill.name,
                prompt_md,
                inject_prompt_md: !skill.has_python && !skill.has_rhai,
                tools: skill.tools,
                fallback_message: skill.fallback_message,
            },
        ),
    }
}

/// The context of the skill that matches what the user said.
pub fn resolve_active_skill(user_input: &str, matched: Option<SkillInfo>) -> (r: Option<
    ActiveSkillContext,
>)
    ensures
        r == (match matched {
            Some(skill) if user_input@.len() > 0 => context_of(skill),
            _ => None,
        }),
{
    if user_input.is_empty() {
        return None;
    }
    match matched {
        Some(skill) => match skill.prompt_bundle {
            None => None,
            Some(prompt_md) => Some(
                ActiveSkillContext {
                    name: skill.name,
                    prompt_md,
                    inject_prompt_md: !skill.has_python && !skill.has_rhai,
                    tools: skill.tools,
                    fallback_message: skill.fallback_message,
                },
            ),
        },
        None => None,
    }
}

/// The context of the skill of this name, where it is available and not disabled.
pub fn resolve_active_skill_by_name(
    skill_name: &str,
    disabled_skills: &Vec<String>,
    installed: Option<SkillInfo>,
) -> (r: Option<ActiveSkillContext>)
    ensures
        r == (match installed {
            Some(skill) if skill_name@.len() > 0 && !texts_view(disabled_skills@).contains(
                skill_name@,
            ) && skill.available => context_of(skill),
            _ => None,
        }),
{
    if skill_name.is_empty() || holds_text(disabled_skills, skill_name) {
        return None;
    }
    match installed {
        Some(skill) => if skill.available {
            resolve_active_skill(skill_name, Some(skill))
        } else {
            None
        },
        None => None,
    }
}

// ---------------------------------------------------------------------------
// Names
// ---------------------------------------------------------------------------

/// The first candidate for which one name is part of the other.
pub open spec fn similar_name(selected: Seq<char>, names: Seq<Seq<char>>) -> Option<Seq<char>>
    decreases names.len(),
{
    if names.len() == 0 {
        None
    } else if contains(selected, names[0]) || contains(names[0], selected) {
        Some(names[0])
    } else {
        similar_name(selected, names.skip(1))
    }
}

/// The candidate that a model's choice means: the one of that name, or else the first with a
/// similar one.
pub open spec fn selected_name(selected: Seq<char>, names: Seq<Seq<char>>) -> Option<Seq<char>> {
    let wanted = trim(selected);
    if wanted.len() == 0 {
        None
    } else if names.contains(wanted) {
        Some(wanted)
    } else {
        similar_name(wanted, names)
    }
}

pub open spec fn names_view(candidates: Seq<(String, String)>) -> Seq<Seq<char>> {
    candidates.map_values(|c: (String, String)| c.0@)
}

pub struct SkillDecisionEngine;

impl SkillDecisionEngine {
    /// The candidate that a model's choice means. A candidate is a name and a description.
    pub fn normalize_selected_skill_name(selected: &str, candidates: &[(String, String)]) -> (r:
        Option<String>)
        ensures
            opt_text(r) == selected_name(selected@, names_view(candidates@)),
    {
        let chars = chars_of(selected);
        let wanted = trim_chars(chars.as_slice());
        if wanted.len() == 0 {
            return None;
        }
        let ghost names = names_view(candidates@);
        let mut i: usize = 0;
        while i < candidates.len()
            invariant
                i <= candidates.len(),
                names == names_view(candidates@),
                wanted@ == trim(selected@),
                wanted@.len() > 0,
                forall|j: int| 0 <= j < i ==> names[j] != wanted@,
            decreases candidates.len() - i,
        {
            let name = chars_of(candidates[i].0.as_str());
            assert(names[i as int] == name@);
            if chars_equal(name.as_slice(), wanted) {
                assert(names.contains(wanted@));
                return Some(candidates[i].0.clone());
            }
            i += 1;
        }
        let mut i: usize = 0;
        assert(names.skip(0) =~= names);
        while i < candidates.len()
            invariant
                i <= candidates.len(),
                names == names_view(candidates@),
                wanted@ == trim(selected@),
                wanted@.len() > 0,
                !names.contains(wanted@),
                similar_name(wanted@, names) == similar_name(wanted@, names.skip(i as int)),
            decreases candidates.len() - i,
        {
            let name = chars_of(candidates[i].0.as_str());
            assert(names.skip(i as int)[0] == name@);
            if find_chars(wanted, name.as_slice()).is_some() || find_chars(
                name.as_slice(),
                wanted,
            ).is_some() {
                return Some(candidates[i].0.clone());
            }
            assert(names.skip(i as int).skip(1) =~= names.skip(i + 1));
            i += 1;
        }
        None
    }
}

} // verus!
