//! Installer and service-manager decisions: template rendering, command
//! formatting, and the extraction of a JSON object from model output.

use vstd::prelude::*;

use crate::skills::join_blocks;
use crate::text::{find_seq, find_str, lemma_find_seq_bounds, replace_seq, substring, trim,
    trim_seq};

verus! {

/// Fills the service template's placeholders with the real paths.
pub fn render_service_template(template: &str, guild_path: &str, binary_path: &str) -> (r: String)
    ensures
        r@ == replace_seq(
            replace_seq(template@, "{{GUILD_PATH}}"@, guild_path@),
            "{{BINARY_PATH}}"@,
            binary_path@,
        ),
{
    let pass = crate::text::replace_all(template, "{{GUILD_PATH}}", guild_path);
    crate::text::replace_all(pass.as_str(), "{{BINARY_PATH}}", binary_path)
}

/// Renders a command line for an error message: the command, then its
/// arguments separated by spaces.
pub fn format_command(cmd: &str, args: &Vec<String>) -> (r: String)
    ensures
        args@.len() == 0 ==> r@ == cmd@,
        args@.len() > 0 ==> r@ == cmd@ + " "@ + join_blocks(
            args@.map_values(|s: String| s@),
            " "@,
        ),
{
    if args.len() == 0 {
        return String::from_str(cmd);
    }
    let mut r = String::from_str(cmd);
    r.append(" ");
    let joined = join_strings_with_space(args, 0);
    r.append(joined.as_str());
    proof {
        assert(args@.map_values(|s: String| s@).skip(0) =~= args@.map_values(|s: String| s@));
    }
    r
}

fn join_strings_with_space(items: &Vec<String>, i: usize) -> (r: String)
    requires
        i <= items@.len(),
    ensures
        r@ == join_blocks(items@.map_values(|s: String| s@).skip(i as int), " "@),
    decreases items@.len() - i,
{
    let ghost views = items@.map_values(|s: String| s@);
    if i == items.len() {
        proof {
            assert(views.skip(i as int) =~= Seq::<Seq<char>>::empty());
        }
        String::new()
    } else if i + 1 == items.len() {
        proof {
            assert(views.skip(i as int) =~= seq![views[i as int]]);
        }
        items[i].clone()
    } else {
        let mut r = items[i].clone();
        r.append(" ");
        let tail = join_strings_with_space(items, i + 1);
        r.append(tail.as_str());
        proof {
            assert(views.skip(i as int).first() == views[i as int]);
            assert(views.skip(i as int).drop_first() =~= views.skip(i + 1));
            assert(views.skip(i as int).len() >= 2);
        }
        r
    }
}

/// Where the engine binary must sit: beside the controller, under the
/// fixed name.
pub fn sibling_engine_path(current_exe: &str) -> (r: Option<String>)
    ensures
        match r {
            Some(p) => match crate::session::rfind_seq(current_exe@, "/"@) {
                Some(i) => p@ == current_exe@.subrange(0, i + 1) + "tellar"@,
                None => false,
            },
            None => crate::session::rfind_seq(current_exe@, "/"@) is None,
        },
{
    proof {
        reveal_strlit("/");
    }
    let n = current_exe.unicode_len();
    match crate::session::rfind_str(current_exe, "/") {
        None => None,
        Some(i) => {
            proof {
                assert(i + 1 <= n);
            }
            let mut p = substring(current_exe, 0, i + 1);
            p.append("tellar");
            Some(p)
        },
    }
}

/// Resolves the engine binary's path from the controller's own: the
/// sibling named `tellar`, which must exist as a file; the caller passes
/// that check's result in.
pub fn resolve_tellar_binary_from_current_exe(current_exe: &str, sibling_is_file: bool) -> (r:
    Result<String, String>)
    ensures
        match r {
            Ok(p) => sibling_is_file && crate::session::rfind_seq(current_exe@, "/"@) is Some
                && Some(p@) == (match crate::session::rfind_seq(current_exe@, "/"@) {
                Some(i) => Some(current_exe@.subrange(0, i + 1) + "tellar"@),
                None => None,
            }),
            Err(e) => !sibling_is_file || crate::session::rfind_seq(current_exe@, "/"@) is None,
        },
{
    let sibling = match sibling_engine_path(current_exe) {
        None => {
            return Err(String::from_str("failed to resolve tellar binary directory"));
        },
        Some(p) => p,
    };
    if sibling_is_file {
        Ok(sibling)
    } else {
        let mut e = String::from_str("could not find the `tellar` binary next to `tellarctl` at ");
        e.append(sibling.as_str());
        Err(e)
    }
}

/// The compilation request for one skill: the schema to conform to, the
/// skill directory's tree, and the skill document itself.
pub fn build_skill_install_prompt(schema: &str, tree: &str, skill_md: &str) -> (r: String)
    ensures
        r@ == "Compile the following skill into a strict SKILL.json document.\n\nRequirements:\n- Output JSON only.\n- Conform to this schema exactly.\n- Do not invent files or commands that are not supported by the SKILL.md or directory tree.\n- `tools` must be a non-empty array.\n- Each tool requires `name`, `description`, `parameters`, and `command`.\n- `parameters.type` must be `object`.\n- Use concise but useful descriptions.\n\n### SKILL.json Schema\n"@
            + schema@ + "\n\n### Skill Directory Tree\n"@ + tree@ + "\n\n### SKILL.md\n"@
            + skill_md@,
{
    let mut r = String::from_str(
        "Compile the following skill into a strict SKILL.json document.\n\nRequirements:\n- Output JSON only.\n- Conform to this schema exactly.\n- Do not invent files or commands that are not supported by the SKILL.md or directory tree.\n- `tools` must be a non-empty array.\n- Each tool requires `name`, `description`, `parameters`, and `command`.\n- `parameters.type` must be `object`.\n- Use concise but useful descriptions.\n\n### SKILL.json Schema\n",
    );
    r.append(schema);
    r.append("\n\n### Skill Directory Tree\n");
    r.append(tree);
    r.append("\n\n### SKILL.md\n");
    r.append(skill_md);
    r
}

/// What stripping a markdown fence leaves: the text between the first
/// fence opening and the next fence, trimmed; an unfenced text is only
/// trimmed.
pub open spec fn strip_fence_spec(s: Seq<char>) -> Seq<char> {
    if crate::text::contains_seq(s, "```json"@) {
        let a = find_seq(s, "```json"@, 0)->0 + "```json"@.len();
        match find_seq(s, "```"@, a) {
            Some(b) => trim_seq(s.subrange(a, b)),
            None => trim_seq(s.skip(a)),
        }
    } else if crate::text::contains_seq(s, "```"@) {
        let a = find_seq(s, "```"@, 0)->0 + "```"@.len();
        match find_seq(s, "```"@, a) {
            Some(b) => trim_seq(s.subrange(a, b)),
            None => trim_seq(s.skip(a)),
        }
    } else {
        trim_seq(s)
    }
}

/// Strips a markdown code fence from model output, so the JSON inside can
/// be parsed.
pub fn strip_markdown_fence(result: &str) -> (r: String)
    ensures
        r@ == strip_fence_spec(result@),
{
    let n = result.unicode_len();
    if crate::text::contains_str(result, "```json") {
        let a0 = match find_str(result, "```json", 0) {
            Some(a) => a,
            None => {
                proof {
                    crate::text::lemma_find_seq_none_forall(result@, "```json"@, 0);
                    assert(false);
                }
                0
            },
        };
        proof {
            lemma_find_seq_bounds(result@, "```json"@, 0, a0 as int);
        }
        let jl: &str = "```json";
        let a = a0 + jl.unicode_len();
        match find_str(result, "```", a) {
            Some(b) => {
                proof {
                    lemma_find_seq_bounds(result@, "```"@, a as int, b as int);
                }
                trim(substring(result, a, b).as_str())
            },
            None => {
                let tail = substring(result, a, n);
                proof {
                    assert(result@.subrange(a as int, n as int) =~= result@.skip(a as int));
                }
                trim(tail.as_str())
            },
        }
    } else if crate::text::contains_str(result, "```") {
        let a0 = match find_str(result, "```", 0) {
            Some(a) => a,
            None => {
                proof {
                    crate::text::lemma_find_seq_none_forall(result@, "```"@, 0);
                    assert(false);
                }
                0
            },
        };
        proof {
            lemma_find_seq_bounds(result@, "```"@, 0, a0 as int);
        }
        let fl: &str = "```";
        let a = a0 + fl.unicode_len();
        match find_str(result, "```", a) {
            Some(b) => {
                proof {
                    lemma_find_seq_bounds(result@, "```"@, a as int, b as int);
                }
                trim(substring(result, a, b).as_str())
            },
            None => {
                let tail = substring(result, a, n);
                proof {
                    assert(result@.subrange(a as int, n as int) =~= result@.skip(a as int));
                }
                trim(tail.as_str())
            },
        }
    } else {
        trim(result)
    }
}

/// Extracts the JSON object from raw model output: the trimmed text when
/// it already begins with a brace, else the braced body of a markdown
/// fence.
pub fn extract_json_object(raw: &str) -> (r: Result<String, String>)
    ensures
        match r {
            Ok(s) => (s@ == trim_seq(raw@) && s@.len() > 0 && s@[0] == '{') || (s@
                == strip_fence_spec(raw@) && s@.len() > 0 && s@[0] == '{' && s@.last() == '}'),
            Err(e) => e@ == "model output did not contain a JSON object"@,
        },
{
    let trimmed = trim(raw);
    let tn = trimmed.as_str().unicode_len();
    if tn > 0 && trimmed.as_str().get_char(0) == '{' {
        return Ok(trimmed);
    }
    let body = strip_markdown_fence(raw);
    let bn = body.as_str().unicode_len();
    if bn > 0 && body.as_str().get_char(0) == '{' && body.as_str().get_char(bn - 1) == '}' {
        Ok(body)
    } else {
        Err(String::from_str("model output did not contain a JSON object"))
    }
}

} // verus!
