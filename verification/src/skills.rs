//! User-installed skills as the engine sees them: their metadata, the
//! guidance matching, and the validation a compiled skill must pass.

use vstd::prelude::*;

use crate::args::{str_field, ArgValue};
use crate::text::{contains_seq, contains_str, lower_seq, to_ascii_lowercase, trim, trim_seq};

verus! {

/// One tool a skill offers.
#[derive(Debug)]
pub struct SkillTool {
    pub description: String,
    /// The command line the tool runs.
    pub shell: String,
    pub parameters: ArgValue,
}

/// A discovered skill: its name, its tools by name, and its guidance text.
#[derive(Debug)]
pub struct SkillMetadata {
    pub name: String,
    pub tools: Vec<(String, SkillTool)>,
    pub guidance: String,
}

/// One tool of a compiled skill file.
#[derive(Debug)]
pub struct InstalledSkillTool {
    pub name: String,
    pub description: String,
    pub parameters: ArgValue,
    pub command: String,
}

/// A compiled skill file.
#[derive(Debug)]
pub struct InstalledSkill {
    pub name: String,
    pub description: String,
    pub guidance: Option<String>,
    pub tools: Vec<InstalledSkillTool>,
}

/// Builds runtime skill metadata from a compiled skill: each tool's command
/// becomes its shell line, and the guidance falls back to the description.
pub fn skill_from_installed(installed: InstalledSkill) -> (r: SkillMetadata)
    ensures
        r.name@ == installed.name@,
        r.guidance@ == (match installed.guidance {
            Some(g) => g@,
            None => installed.description@,
        }),
        r.tools@.len() == installed.tools@.len(),
        forall|i: int|
            0 <= i < installed.tools@.len() ==> {
                &&& (#[trigger] r.tools@[i]).0@ == installed.tools@[i].name@
                &&& r.tools@[i].1.description@ == installed.tools@[i].description@
                &&& r.tools@[i].1.shell@ == installed.tools@[i].command@
                &&& r.tools@[i].1.parameters == installed.tools@[i].parameters
            },
{
    let InstalledSkill { name, description, guidance, tools } = installed;
    let ghost tools0 = tools@;
    let mut out: Vec<(String, SkillTool)> = Vec::new();
    let mut rest = tools;
    while rest.len() > 0
        invariant
            out@.len() + rest@.len() == tools0.len(),
            rest@ == tools0.skip(out@.len() as int),
            forall|k: int|
                0 <= k < out@.len() ==> {
                    &&& (#[trigger] out@[k]).0@ == tools0[k].name@
                    &&& out@[k].1.description@ == tools0[k].description@
                    &&& out@[k].1.shell@ == tools0[k].command@
                    &&& out@[k].1.parameters == tools0[k].parameters
                },
        decreases rest@.len(),
    {
        let ghost done = out@.len() as int;
        let t = rest.remove(0);
        proof {
            assert(t == tools0[done]);
            assert(rest@ =~= tools0.skip(done + 1));
        }
        let InstalledSkillTool { name: tool_name, description: tool_desc, parameters, command } =
            t;
        out.push(
            (tool_name, SkillTool { description: tool_desc, shell: command, parameters }),
        );
    }
    let resolved_guidance = match guidance {
        Some(g) => g,
        None => description,
    };
    SkillMetadata { name, tools: out, guidance: resolved_guidance }
}

/// Whether a request's normalized text names this skill or one of its
/// tools.
pub open spec fn skill_matches(normalized: Seq<char>, skill: SkillMetadata) -> bool {
    ||| contains_seq(normalized, lower_seq(skill.name@))
    ||| exists|i: int|
        0 <= i < skill.tools@.len() && contains_seq(
            normalized,
            lower_seq((#[trigger] skill.tools@[i]).0@),
        )
}

/// The guidance block one matching skill contributes.
pub open spec fn guidance_block(skill: SkillMetadata) -> Seq<char> {
    "### Skill: "@ + skill.name@ + "\n"@ + skill.guidance@
}

/// The blocks of every matching skill with guidance, in order.
pub open spec fn guidance_blocks(skills: Seq<SkillMetadata>, normalized: Seq<char>) -> Seq<
    Seq<char>,
>
    decreases skills.len(),
{
    if skills.len() == 0 {
        Seq::empty()
    } else {
        let rest = guidance_blocks(skills.drop_first(), normalized);
        if skills.first().guidance@.len() > 0 && skill_matches(normalized, skills.first()) {
            seq![guidance_block(skills.first())] + rest
        } else {
            rest
        }
    }
}

/// Blocks joined by a separator.
pub open spec fn join_blocks(blocks: Seq<Seq<char>>, sep: Seq<char>) -> Seq<char>
    decreases blocks.len(),
{
    if blocks.len() == 0 {
        Seq::empty()
    } else if blocks.len() == 1 {
        blocks.first()
    } else {
        blocks.first() + sep + join_blocks(blocks.drop_first(), sep)
    }
}

fn skill_matches_exec(normalized: &str, skill: &SkillMetadata) -> (r: bool)
    ensures
        r == skill_matches(normalized@, *skill),
{
    let lowered_name = to_ascii_lowercase(skill.name.as_str());
    if contains_str(normalized, lowered_name.as_str()) {
        return true;
    }
    let n = skill.tools.len();
    let mut i: usize = 0;
    while i < n
        invariant
            n == skill.tools@.len(),
            0 <= i <= n,
            forall|k: int|
                0 <= k < i ==> !contains_seq(
                    normalized@,
                    lower_seq((#[trigger] skill.tools@[k]).0@),
                ),
        decreases n - i,
    {
        let lowered_tool = to_ascii_lowercase(skill.tools[i].0.as_str());
        if contains_str(normalized, lowered_tool.as_str()) {
            return true;
        }
        i = i + 1;
    }
    false
}

fn join_from(blocks: &Vec<String>, i: usize) -> (r: String)
    requires
        i <= blocks@.len(),
    ensures
        r@ == join_blocks(blocks@.map_values(|s: String| s@).skip(i as int), "\n\n"@),
    decreases blocks@.len() - i,
{
    let ghost views = blocks@.map_values(|s: String| s@);
    if i == blocks.len() {
        proof {
            assert(views.skip(i as int) =~= Seq::<Seq<char>>::empty());
        }
        String::new()
    } else if i + 1 == blocks.len() {
        proof {
            assert(views.skip(i as int) =~= seq![views[i as int]]);
        }
        blocks[i].clone()
    } else {
        let mut r = blocks[i].clone();
        r.append("\n\n");
        let tail = join_from(blocks, i + 1);
        r.append(tail.as_str());
        proof {
            assert(views.skip(i as int).first() == views[i as int]);
            assert(views.skip(i as int).drop_first() =~= views.skip(i + 1));
            assert(views.skip(i as int).len() >= 2);
        }
        r
    }
}

/// The guidance handed to the model for a request: the blocks of every
/// skill the request names, under one heading — or nothing when no skill
/// matches.
pub fn build_relevant_skill_guidance(skills: &Vec<SkillMetadata>, text: &str) -> (r: Option<
    String,
>)
    ensures
        ({
            let blocks = guidance_blocks(skills@, lower_seq(text@));
            match r {
                Some(g) => blocks.len() > 0 && g@ == "### Relevant Skill Guidance\n"@
                    + join_blocks(blocks, "\n\n"@)
                    + "\nOnly use this guidance for the matching skill(s) above."@,
                None => blocks.len() == 0,
            }
        }),
{
    let normalized = to_ascii_lowercase(text);
    let ghost norm = lower_seq(text@);
    let mut blocks: Vec<String> = Vec::new();
    let n = skills.len();
    let mut i: usize = 0;
    proof {
        assert(skills@.skip(0) =~= skills@);
        assert(blocks@.map_values(|s: String| s@) + guidance_blocks(skills@, norm)
            =~= guidance_blocks(skills@, norm));
    }
    while i < n
        invariant
            n == skills@.len(),
            0 <= i <= n,
            norm == lower_seq(text@),
            normalized@ == norm,
            blocks@.map_values(|s: String| s@) + guidance_blocks(skills@.skip(i as int), norm)
                == guidance_blocks(skills@, norm),
        decreases n - i,
    {
        proof {
            assert(skills@.skip(i as int).first() == skills@[i as int]);
            assert(skills@.skip(i as int).drop_first() =~= skills@.skip(i + 1));
        }
        let ghost prev = blocks@;
        if skills[i].guidance.as_str().unicode_len() > 0 && skill_matches_exec(
            normalized.as_str(),
            &skills[i],
        ) {
            let mut block = String::from_str("### Skill: ");
            block.append(skills[i].name.as_str());
            block.append("\n");
            block.append(skills[i].guidance.as_str());
            blocks.push(block);
            proof {
                assert(blocks@.map_values(|s: String| s@) =~= prev.map_values(
                    |s: String| s@,
                ).push(guidance_block(skills@[i as int])));
                assert(blocks@.map_values(|s: String| s@) + guidance_blocks(
                    skills@.skip(i + 1),
                    norm,
                ) =~= prev.map_values(|s: String| s@) + guidance_blocks(
                    skills@.skip(i as int),
                    norm,
                ));
            }
        }
        i = i + 1;
    }
    proof {
        assert(guidance_blocks(skills@.skip(n as int), norm) =~= Seq::<Seq<char>>::empty());
        assert(blocks@.map_values(|s: String| s@) + guidance_blocks(skills@.skip(n as int), norm)
            =~= blocks@.map_values(|s: String| s@));
    }
    if blocks.len() == 0 {
        return None;
    }
    let joined = join_from(&blocks, 0);
    proof {
        assert(blocks@.map_values(|s: String| s@).skip(0) =~= blocks@.map_values(
            |s: String| s@,
        ));
    }
    let mut out = String::from_str("### Relevant Skill Guidance\n");
    out.append(joined.as_str());
    out.append("\nOnly use this guidance for the matching skill(s) above.");
    Some(out)
}

/// A valid skill or tool name: at least one character, all of them
/// letters, digits, underscores or dashes.
pub open spec fn valid_name(s: Seq<char>) -> bool {
    s.len() > 0 && forall|i: int|
        0 <= i < s.len() ==> (('a' <= #[trigger] s[i] && s[i] <= 'z') || ('A' <= s[i] && s[i]
            <= 'Z') || ('0' <= s[i] && s[i] <= '9') || s[i] == '_' || s[i] == '-')
}

fn valid_name_exec(s: &str) -> (r: bool)
    ensures
        r == valid_name(s@),
{
    let n = s.unicode_len();
    if n == 0 {
        return false;
    }
    let mut i: usize = 0;
    while i < n
        invariant
            n == s@.len(),
            0 <= i <= n,
            forall|k: int|
                0 <= k < i ==> (('a' <= #[trigger] s@[k] && s@[k] <= 'z') || ('A' <= s@[k]
                    && s@[k] <= 'Z') || ('0' <= s@[k] && s@[k] <= '9') || s@[k] == '_' || s@[k]
                    == '-'),
        decreases n - i,
    {
        let c = s.get_char(i);
        if !(('a' <= c && c <= 'z') || ('A' <= c && c <= 'Z') || ('0' <= c && c <= '9') || c == '_'
            || c == '-') {
            return false;
        }
        i = i + 1;
    }
    true
}

/// Every rule a compiled skill must meet: a well-formed non-blank name and
/// description, at least one tool, and per tool a well-formed unique name,
/// a non-blank description and command, and object-typed parameters.
pub open spec fn installed_skill_valid(skill: InstalledSkill) -> bool {
    &&& trim_seq(skill.name@).len() > 0
    &&& valid_name(skill.name@)
    &&& trim_seq(skill.description@).len() > 0
    &&& skill.tools@.len() > 0
    &&& forall|i: int|
        0 <= i < skill.tools@.len() ==> {
            &&& trim_seq((#[trigger] skill.tools@[i]).name@).len() > 0
            &&& valid_name(skill.tools@[i].name@)
            &&& trim_seq(skill.tools@[i].description@).len() > 0
            &&& trim_seq(skill.tools@[i].command@).len() > 0
            &&& str_field(skill.tools@[i].parameters, "type"@) == Some("object"@)
        }
    &&& forall|i: int, j: int|
        0 <= i < j < skill.tools@.len() ==> (#[trigger] skill.tools@[i]).name@ != (
        #[trigger] skill.tools@[j]).name@
}

/// Validates a compiled skill; the result is `Ok` exactly when every rule
/// holds, and the message of an `Err` names the first broken one.
pub fn validate_installed_skill(skill: &InstalledSkill) -> (r: Result<(), String>)
    ensures
        r is Ok <==> installed_skill_valid(*skill),
{
    if trim(skill.name.as_str()).as_str().unicode_len() == 0 {
        return Err(String::from_str("skill name cannot be empty"));
    }
    if !valid_name_exec(skill.name.as_str()) {
        return Err(String::from_str("skill name must match ^[A-Za-z0-9_-]+$"));
    }
    if trim(skill.description.as_str()).as_str().unicode_len() == 0 {
        return Err(String::from_str("skill description cannot be empty"));
    }
    let n = skill.tools.len();
    if n == 0 {
        return Err(String::from_str("skill must declare at least one tool"));
    }
    let mut i: usize = 0;
    while i < n
        invariant
            n == skill.tools@.len(),
            0 <= i <= n,
            forall|k: int|
                0 <= k < i ==> {
                    &&& trim_seq((#[trigger] skill.tools@[k]).name@).len() > 0
                    &&& valid_name(skill.tools@[k].name@)
                    &&& trim_seq(skill.tools@[k].description@).len() > 0
                    &&& trim_seq(skill.tools@[k].command@).len() > 0
                    &&& str_field(skill.tools@[k].parameters, "type"@) == Some("object"@)
                },
            forall|a: int, b: int|
                0 <= a < b < i ==> (#[trigger] skill.tools@[a]).name@ != (
                #[trigger] skill.tools@[b]).name@,
        decreases n - i,
    {
        let tool = &skill.tools[i];
        if trim(tool.name.as_str()).as_str().unicode_len() == 0 {
            return Err(String::from_str("tool name cannot be empty"));
        }
        if !valid_name_exec(tool.name.as_str()) {
            let mut msg = String::from_str("tool name `");
            msg.append(tool.name.as_str());
            msg.append("` must match ^[A-Za-z0-9_-]+$");
            return Err(msg);
        }
        // Duplicate check against every earlier tool.
        let mut k: usize = 0;
        while k < i
            invariant
                n == skill.tools@.len(),
                0 <= k <= i < n,
                forall|a: int|
                    0 <= a < k ==> (#[trigger] skill.tools@[a]).name@ != skill.tools@[
                        i as int
                    ].name@,
            decreases i - k,
        {
            if crate::text::str_eq(skill.tools[k].name.as_str(), skill.tools[i].name.as_str()) {
                let mut msg = String::from_str("duplicate tool name `");
                msg.append(skill.tools[i].name.as_str());
                msg.append("`");
                return Err(msg);
            }
            k = k + 1;
        }
        if trim(tool.description.as_str()).as_str().unicode_len() == 0 {
            let mut msg = String::from_str("tool `");
            msg.append(tool.name.as_str());
            msg.append("` description cannot be empty");
            return Err(msg);
        }
        if trim(tool.command.as_str()).as_str().unicode_len() == 0 {
            let mut msg = String::from_str("tool `");
            msg.append(tool.name.as_str());
            msg.append("` command cannot be empty");
            return Err(msg);
        }
        let type_ok = match tool.parameters.get("type") {
            Some(v) => match v.as_str() {
                Some(s) => crate::text::str_eq(s.as_str(), "object"),
                None => false,
            },
            None => false,
        };
        if !type_ok {
            let mut msg = String::from_str("tool `");
            msg.append(tool.name.as_str());
            msg.append("` parameters.type must be `object`");
            return Err(msg);
        }
        i = i + 1;
    }
    Ok(())
}

} // verus!
