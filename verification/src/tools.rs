//! Tool-call bookkeeping: execution results, call and observation
//! signatures, read-only/write classification, result messages, and the
//! output-size guard.

use vstd::prelude::*;

use crate::config::Config;
use crate::messages::{is_response_part, is_text_message, Message, MessageRole, MultimodalPart,
    ToolCallRequest};
use crate::text::{contains_seq, contains_str, dec_seq, replace_seq, str_eq, substring,
    u64_to_string};

verus! {

/// What one tool invocation produced: output text and an error flag.
#[derive(Clone, Debug)]
pub struct ToolExecutionResult {
    pub output: String,
    pub is_error: bool,
}

impl ToolExecutionResult {
    /// A successful observation.
    pub fn success(output: String) -> (r: ToolExecutionResult)
        ensures
            r.output@ == output@,
            !r.is_error,
    {
        ToolExecutionResult { output, is_error: false }
    }

    /// An error observation.
    pub fn error(output: String) -> (r: ToolExecutionResult)
        ensures
            r.output@ == output@,
            r.is_error,
    {
        ToolExecutionResult { output, is_error: true }
    }
}

/// Stagnation tracking carried across the turns of one agent-loop run.
pub struct ToolBatchState {
    pub last_call_signature: Option<String>,
    pub last_observation_signature: Option<String>,
    pub no_new_info_streak: usize,
    pub repeated_error_streak: usize,
}

impl Default for ToolBatchState {
    /// The state at the start of an agent-loop run: no signatures seen,
    /// both streaks zero.
    fn default() -> (r: ToolBatchState)
        ensures
            r.last_call_signature is None,
            r.last_observation_signature is None,
            r.no_new_info_streak == 0,
            r.repeated_error_streak == 0,
    {
        ToolBatchState {
            last_call_signature: None,
            last_observation_signature: None,
            no_new_info_streak: 0,
            repeated_error_streak: 0,
        }
    }
}

/// The names of the read-only core tools.
pub open spec fn read_only_name(n: Seq<char>) -> bool {
    n == "ls"@ || n == "find"@ || n == "grep"@ || n == "read"@
}

/// The names of the state-mutating core tools.
pub open spec fn write_name(n: Seq<char>) -> bool {
    n == "write"@ || n == "edit"@
}

/// Whether `name` is one of the read-only core tools.
pub fn is_read_only_tool(name: &str) -> (r: bool)
    ensures
        r == read_only_name(name@),
{
    str_eq(name, "ls") || str_eq(name, "find") || str_eq(name, "grep") || str_eq(name, "read")
}

/// Whether `name` is one of the state-mutating core tools.
pub fn is_write_tool(name: &str) -> (r: bool)
    ensures
        r == write_name(name@),
{
    str_eq(name, "write") || str_eq(name, "edit")
}

/// The signature of a tool call: name and canonical arguments.
pub open spec fn call_signature_seq(name: Seq<char>, args: Seq<char>) -> Seq<char> {
    name + seq![':'] + args
}

/// Signature of one requested call, used to detect immediate repetition.
pub fn tool_call_signature(call: &ToolCallRequest) -> (r: String)
    ensures
        r@ == call_signature_seq(call.name@, call.args@),
{
    let mut sig = call.name.clone();
    crate::text::push_char(&mut sig, ':');
    sig.append(call.args.as_str());
    proof {
        assert(sig@ =~= call.name@ + seq![':'] + call.args@);
    }
    sig
}

/// The signature of an observation: error flag and output text.
pub open spec fn observation_signature_seq(is_error: bool, output: Seq<char>) -> Seq<char> {
    (if is_error {
        "true"@
    } else {
        "false"@
    }) + seq![':'] + output
}

/// Signature of one observation, used to detect stagnation.
pub fn tool_observation_signature(result: &ToolExecutionResult) -> (r: String)
    ensures
        r@ == observation_signature_seq(result.is_error, result.output@),
{
    let mut sig = if result.is_error {
        String::from_str("true")
    } else {
        String::from_str("false")
    };
    crate::text::push_char(&mut sig, ':');
    sig.append(result.output.as_str());
    proof {
        assert(sig@ =~= observation_signature_seq(result.is_error, result.output@));
    }
    sig
}

/// Whether an optional stored signature matches the given one.
pub fn opt_str_matches(o: &Option<String>, s: &str) -> (r: bool)
    ensures
        r == (o is Some && o->0@ == s@),
{
    match o {
        Some(v) => str_eq(v.as_str(), s),
        None => false,
    }
}

/// `true` iff `m` is the tool-result message recording `obs_output` (with
/// the given error flag) for `call`.
pub open spec fn is_tool_result_message(
    m: Message,
    call: ToolCallRequest,
    is_error: bool,
    output: Seq<char>,
) -> bool {
    &&& m.role == MessageRole::ToolResult
    &&& m.parts@.len() == 1
    &&& is_response_part(m.parts@[0], call.name@, Some(call.id@), is_error, output)
}

/// Appends the tool-result message for `call` carrying `observation`.
pub fn push_tool_result_message(
    messages: &mut Vec<Message>,
    call: &ToolCallRequest,
    observation: &ToolExecutionResult,
) -> (r: ())
    ensures
        final(messages)@.len() == old(messages)@.len() + 1,
        final(messages)@.drop_last() == old(messages)@,
        is_tool_result_message(
            final(messages)@.last(),
            *call,
            observation.is_error,
            observation.output@,
        ),
{
    let part = MultimodalPart::function_response(
        call.name.clone(),
        observation.is_error,
        observation.output.clone(),
        Some(call.id.clone()),
    );
    let m = Message { role: MessageRole::ToolResult, parts: vec![part] };
    messages.push(m);
    proof {
        assert(final(messages)@.drop_last() =~= old(messages)@);
    }
}

/// The text of an explanatory note: a fixed marker and the reason.
pub open spec fn system_note_seq(note: Seq<char>) -> Seq<char> {
    "[System Note] "@ + note
}

/// Appends a user-role note explaining an intervention to the session.
pub fn push_system_note(messages: &mut Vec<Message>, note: String) -> (r: ())
    ensures
        final(messages)@.len() == old(messages)@.len() + 1,
        final(messages)@.drop_last() == old(messages)@,
        is_text_message(final(messages)@.last(), MessageRole::User, system_note_seq(note@)),
{
    let mut body = String::from_str("[System Note] ");
    body.append(note.as_str());
    let m = Message { role: MessageRole::User, parts: vec![MultimodalPart::text(body)] };
    messages.push(m);
    proof {
        assert(final(messages)@.drop_last() =~= old(messages)@);
    }
}

/// Appends, for every call from `start_index` on, an error-flagged
/// observation carrying `reason`, so the model sees why it was not run.
pub fn skip_remaining_tool_calls(
    messages: &mut Vec<Message>,
    calls: &Vec<ToolCallRequest>,
    start_index: usize,
    reason: &str,
) -> (r: ())
    requires
        start_index <= calls@.len(),
    ensures
        final(messages)@.len() == old(messages)@.len() + calls@.len() - start_index,
        final(messages)@.subrange(0, old(messages)@.len() as int) == old(messages)@,
        forall|k: int|
            start_index <= k < calls@.len() ==> is_tool_result_message(
                #[trigger] final(messages)@[old(messages)@.len() + k - start_index],
                calls@[k],
                true,
                reason@,
            ),
{
    let ghost base = messages@.len() as int;
    let mut i: usize = start_index;
    while i < calls.len()
        invariant
            start_index <= i <= calls@.len(),
            messages@.len() == base + i - start_index,
            messages@.subrange(0, base) == old(messages)@,
            base == old(messages)@.len(),
            forall|k: int|
                start_index <= k < i ==> is_tool_result_message(
                    #[trigger] messages@[base + k - start_index],
                    calls@[k],
                    true,
                    reason@,
                ),
        decreases calls@.len() - i,
    {
        let obs = ToolExecutionResult::error(String::from_str(reason));
        push_tool_result_message(messages, &calls[i], &obs);
        proof {
            assert(forall|j: int|
                0 <= j < messages@.len() - 1 ==> #[trigger] messages@[j] == messages@.drop_last()[j]);
            assert(messages@.subrange(0, base) =~= old(messages)@);
        }
        i = i + 1;
    }
}

/// What masking does: each configured secret longer than ten characters is
/// replaced by a redaction marker.
pub open spec fn mask_spec(t: Seq<char>, key: Seq<char>, token: Seq<char>) -> Seq<char> {
    let t1 = if key.len() > 10 {
        replace_seq(t, key, "[REDACTED_GEMINI_KEY]"@)
    } else {
        t
    };
    if token.len() > 10 {
        replace_seq(t1, token, "[REDACTED_DISCORD_TOKEN]"@)
    } else {
        t1
    }
}

/// Masks the configured model key and bot token in `text` so they never
/// reach a thread file or an outgoing message.
pub fn mask_sensitive_data(text: &str, config: &Config) -> (r: String)
    ensures
        r@ == mask_spec(text@, config.gemini.api_key@, config.discord.token@),
{
    let mut masked = String::from_str(text);
    if config.gemini.api_key.as_str().unicode_len() > 10 {
        masked = crate::text::replace_all(
            masked.as_str(),
            config.gemini.api_key.as_str(),
            "[REDACTED_GEMINI_KEY]",
        );
    }
    if config.discord.token.as_str().unicode_len() > 10 {
        masked = crate::text::replace_all(
            masked.as_str(),
            config.discord.token.as_str(),
            "[REDACTED_DISCORD_TOKEN]",
        );
    }
    masked
}

/// What truncation does: texts within the limit pass through; longer ones
/// keep their head and tail around an elision marker and gain a hint.
pub open spec fn truncate_spec(s: Seq<char>, limit: int) -> Seq<char> {
    if limit == 0 || s.len() <= limit {
        s
    } else {
        s.take(limit / 2) + " ... [TRUNCATED "@ + dec_seq(s.len() - 2 * (limit / 2)) + " bytes] ... "@
            + s.skip(s.len() - limit / 2)
            + "\n\n\u{1f4a1} **Hint**: Data is too large for the session history. Narrow the path, reduce the line window, or search for a more specific pattern before reading again."@
    }
}

/// Bounds one observation so an oversized tool output cannot flood the
/// session; `limit == 0` disables the guard.
pub fn truncate_output(output: String, limit: usize) -> (r: String)
    ensures
        r@ == truncate_spec(output@, limit as int),
{
    if limit == 0 {
        return output;
    }
    let n = output.as_str().unicode_len();
    if n <= limit {
        return output;
    }
    let half = limit / 2;
    let mut res = substring(output.as_str(), 0, half);
    res.append(" ... [TRUNCATED ");
    let elided = u64_to_string((n - 2 * half) as u64);
    res.append(elided.as_str());
    res.append(" bytes] ... ");
    let tail = substring(output.as_str(), n - half, n);
    res.append(tail.as_str());
    res.append(
        "\n\n\u{1f4a1} **Hint**: Data is too large for the session history. Narrow the path, reduce the line window, or search for a more specific pattern before reading again.",
    );
    proof {
        assert(output@.take(half as int) =~= output@.subrange(0, half as int));
        assert(output@.skip(output@.len() - half) =~= output@.subrange(
            n - half,
            n as int,
        ));
    }
    res
}

/// Strips `prefix` from the front of `s` when present.
pub open spec fn strip_prefix_seq(s: Seq<char>, prefix: Seq<char>) -> Seq<char> {
    if prefix.len() <= s.len() && s.subrange(0, prefix.len() as int) == prefix {
        s.skip(prefix.len() as int)
    } else {
        s
    }
}

/// Strips `prefix` from the front of `s` when present.
pub fn strip_prefix<'a>(s: &'a str, prefix: &str) -> (r: &'a str)
    ensures
        r@ == strip_prefix_seq(s@, prefix@),
{
    if crate::text::starts_with(s, prefix) {
        let r = s.substring_char(prefix.unicode_len(), s.unicode_len());
        proof {
            assert(r@ =~= s@.skip(prefix@.len() as int));
        }
        r
    } else {
        s
    }
}

/// A tool path with the optional `guild/` and `./` prefixes removed.
pub open spec fn normalize_path_seq(p: Seq<char>) -> Seq<char> {
    strip_prefix_seq(strip_prefix_seq(p, "guild/"@), "./"@)
}

/// Normalizes a tool-supplied path: the workspace may be addressed as
/// `guild/...` or `./...`; both mean the workspace root.
pub fn normalize_path<'a>(path: &'a str) -> (r: &'a str)
    ensures
        r@ == normalize_path_seq(path@),
{
    let p = strip_prefix(path, "guild/");
    strip_prefix(p, "./")
}

/// What one core tool call must do, decided from its name and arguments
/// before any filesystem work: either a ready error observation, one of the
/// core operations with its validated arguments, or a lookup among the
/// discovered skills.
pub enum ToolPlan {
    Reject(ToolExecutionResult),
    Ls { path: String, recursive: bool, max_depth: u64 },
    Find {
        name: String,
        path: String,
        recursive: bool,
        case_sensitive: bool,
        max_matches: u64,
        max_depth: u64,
    },
    Grep { pattern: String, path: String, recursive: bool, case_sensitive: bool, max_matches: u64 },
    ReadFile { path: String, offset: u64, limit: u64 },
    WriteFile { path: String, content: String },
    EditFile { path: String, old_text: String, new_text: String },
    ExecCommand { command: String },
    Skill { name: String },
}

/// The path argument a listing tool works on: the given one, or the
/// workspace root.
pub open spec fn opt_path_spec(args: crate::args::ArgValue) -> Seq<char> {
    match crate::args::str_field(args, "path"@) {
        Some(v) => if v.len() > 0 {
            v
        } else {
            "."@
        },
        None => "."@,
    }
}

/// The denial every tool answers for a path that could leave the workspace.
pub open spec fn access_denied_text() -> Seq<char> {
    "Error: Access denied. Path must be within the guild directory."@
}

fn access_denied_result() -> (r: ToolExecutionResult)
    ensures
        r.is_error,
        r.output@ == access_denied_text(),
{
    ToolExecutionResult::error(
        String::from_str("Error: Access denied. Path must be within the guild directory."),
    )
}

/// Routes and validates one tool call: which core operation runs with which
/// arguments, which calls are rejected with which error, and which names
/// fall through to the skill registry. Path safety and the `exec` privilege
/// gate are decided here; only the filesystem work itself is left to the
/// caller.
pub fn plan_core_tool(name: &str, args: &crate::args::ArgValue, privileged: bool) -> (r: ToolPlan)
    ensures
        name@ == "ls"@ ==> match r {
            ToolPlan::Ls { path, recursive, max_depth } => {
                &&& path@ == normalize_path_seq(opt_path_spec(*args))
                &&& path_safe_seq(path@)
                &&& recursive == (match crate::args::bool_field(*args, "recursive"@) {
                    Some(b) => b,
                    None => false,
                })
                &&& max_depth == (match crate::args::num_field(*args, "maxDepth"@) {
                    Some(d) => d,
                    None => 2,
                })
            },
            ToolPlan::Reject(e) => !path_safe_seq(normalize_path_seq(opt_path_spec(*args)))
                && e.is_error && e.output@ == access_denied_text(),
            _ => false,
        },
        name@ == "find"@ ==> match r {
            ToolPlan::Find { name: needle, path, recursive, case_sensitive, max_matches, max_depth
            } => {
                &&& Some(needle@) == crate::args::str_field(*args, "name"@)
                &&& needle@.len() > 0
                &&& path@ == normalize_path_seq(opt_path_spec(*args))
                &&& path_safe_seq(path@)
                &&& recursive == (match crate::args::bool_field(*args, "recursive"@) {
                    Some(b) => b,
                    None => true,
                })
                &&& case_sensitive == (match crate::args::bool_field(*args, "caseSensitive"@) {
                    Some(b) => b,
                    None => false,
                })
                &&& max_matches == (match crate::args::num_field(*args, "maxMatches"@) {
                    Some(m) => m,
                    None => 50,
                })
                &&& max_depth == (match crate::args::num_field(*args, "maxDepth"@) {
                    Some(d) => d,
                    None => 8,
                })
            },
            ToolPlan::Reject(e) => e.is_error && if !crate::args::usable_str_field(
                *args,
                "name"@,
            ) {
                e.output@ == crate::args::missing_arg_error("name"@)
            } else {
                !path_safe_seq(normalize_path_seq(opt_path_spec(*args))) && e.output@
                    == access_denied_text()
            },
            _ => false,
        },
        name@ == "grep"@ ==> match r {
            ToolPlan::Grep { pattern, path, recursive, case_sensitive, max_matches } => {
                &&& Some(pattern@) == crate::args::str_field(*args, "pattern"@)
                &&& pattern@.len() > 0
                &&& path@ == normalize_path_seq(opt_path_spec(*args))
                &&& path_safe_seq(path@)
                &&& recursive == (match crate::args::bool_field(*args, "recursive"@) {
                    Some(b) => b,
                    None => true,
                })
                &&& case_sensitive == (match crate::args::bool_field(*args, "caseSensitive"@) {
                    Some(b) => b,
                    None => false,
                })
                &&& max_matches == (match crate::args::num_field(*args, "maxMatches"@) {
                    Some(m) => m,
                    None => 50,
                })
            },
            ToolPlan::Reject(e) => e.is_error && if !crate::args::usable_str_field(
                *args,
                "pattern"@,
            ) {
                e.output@ == crate::args::missing_arg_error("pattern"@)
            } else {
                !path_safe_seq(normalize_path_seq(opt_path_spec(*args))) && e.output@
                    == access_denied_text()
            },
            _ => false,
        },
        name@ == "read"@ ==> match r {
            ToolPlan::ReadFile { path, offset, limit } => {
                &&& crate::args::usable_str_field(*args, "path"@)
                &&& path@ == normalize_path_seq(crate::args::str_field(*args, "path"@)->0)
                &&& path_safe_seq(path@)
                &&& offset == (match crate::args::num_field(*args, "offset"@) {
                    Some(o) => o,
                    None => 1,
                })
                &&& offset >= 1
                &&& limit == (match crate::args::num_field(*args, "limit"@) {
                    Some(l) => l,
                    None => 800,
                })
            },
            ToolPlan::Reject(e) => e.is_error && ({
                if !crate::args::usable_str_field(*args, "path"@) {
                    e.output@ == crate::args::missing_arg_error("path"@)
                } else if !path_safe_seq(
                    normalize_path_seq(crate::args::str_field(*args, "path"@)->0),
                ) {
                    e.output@ == access_denied_text()
                } else {
                    crate::args::num_field(*args, "offset"@) == Some(0u64) && e.output@
                        == "Error: `offset` must be >= 1."@
                }
            }),
            _ => false,
        },
        name@ == "write"@ ==> match r {
            ToolPlan::WriteFile { path, content } => {
                &&& crate::args::usable_str_field(*args, "path"@)
                &&& path@ == normalize_path_seq(crate::args::str_field(*args, "path"@)->0)
                &&& path_safe_seq(path@)
                &&& Some(content@) == crate::args::str_field(*args, "content"@)
            },
            ToolPlan::Reject(e) => e.is_error && ({
                if !crate::args::usable_str_field(*args, "path"@) {
                    e.output@ == crate::args::missing_arg_error("path"@)
                } else if !path_safe_seq(
                    normalize_path_seq(crate::args::str_field(*args, "path"@)->0),
                ) {
                    e.output@ == access_denied_text()
                } else {
                    crate::args::str_field(*args, "content"@) is None && e.output@
                        == crate::args::missing_arg_error("content"@)
                }
            }),
            _ => false,
        },
        name@ == "edit"@ ==> match r {
            ToolPlan::EditFile { path, old_text, new_text } => {
                &&& crate::args::usable_str_field(*args, "path"@)
                &&& path@ == normalize_path_seq(crate::args::str_field(*args, "path"@)->0)
                &&& path_safe_seq(path@)
                &&& Some(old_text@) == crate::args::str_field(*args, "oldText"@)
                &&& old_text@.len() > 0
                &&& Some(new_text@) == crate::args::str_field(*args, "newText"@)
            },
            ToolPlan::Reject(e) => e.is_error && ({
                if !crate::args::usable_str_field(*args, "path"@) {
                    e.output@ == crate::args::missing_arg_error("path"@)
                } else if !path_safe_seq(
                    normalize_path_seq(crate::args::str_field(*args, "path"@)->0),
                ) {
                    e.output@ == access_denied_text()
                } else if !crate::args::usable_str_field(*args, "oldText"@) {
                    e.output@ == crate::args::missing_arg_error("oldText"@)
                } else {
                    crate::args::str_field(*args, "newText"@) is None && e.output@
                        == crate::args::missing_arg_error("newText"@)
                }
            }),
            _ => false,
        },
        name@ == "exec"@ ==> match r {
            ToolPlan::ExecCommand { command } => {
                &&& privileged
                &&& Some(command@) == crate::args::str_field(*args, "command"@)
                &&& command@.len() > 0
            },
            ToolPlan::Reject(e) => e.is_error && if !crate::args::usable_str_field(
                *args,
                "command"@,
            ) {
                e.output@ == crate::args::missing_arg_error("command"@)
            } else {
                !privileged && e.output@
                    == "Error: `exec` is disabled because runtime.privileged=false. Explain the limitation or enable privileged mode."@
            },
            _ => false,
        },
        !(name@ == "ls"@ || name@ == "find"@ || name@ == "grep"@ || name@ == "read"@ || name@
            == "write"@ || name@ == "edit"@ || name@ == "exec"@) ==> match r {
            ToolPlan::Skill { name: n } => n@ == name@,
            _ => false,
        },
{
    proof {
        reveal_strlit("ls");
        reveal_strlit("find");
        reveal_strlit("grep");
        reveal_strlit("read");
        reveal_strlit("write");
        reveal_strlit("edit");
        reveal_strlit("exec");
        assert("ls"@.len() == 2 && "find"@.len() == 4 && "grep"@.len() == 4 && "read"@.len() == 4
            && "write"@.len() == 5 && "edit"@.len() == 4 && "exec"@.len() == 4);
        assert("find"@[0] == 'f' && "grep"@[0] == 'g' && "read"@[0] == 'r' && "edit"@[0] == 'e'
            && "exec"@[0] == 'e');
        assert("edit"@[1] == 'd' && "exec"@[1] == 'x');
    }
    if str_eq(name, "ls") {
        let rel = String::from_str(normalize_path(crate::args::optional_path_arg(args, "path", ".")));
        if !is_path_safe(rel.as_str()) {
            return ToolPlan::Reject(access_denied_result());
        }
        let recursive = crate::args::optional_bool_arg(args, "recursive", false);
        let max_depth = crate::args::optional_num_arg(args, "maxDepth", 2);
        ToolPlan::Ls { path: rel, recursive, max_depth }
    } else if str_eq(name, "find") {
        let needle = match crate::args::require_string_arg(args, "name") {
            Ok(v) => v.clone(),
            Err(e) => {
                return ToolPlan::Reject(e);
            },
        };
        let rel = String::from_str(normalize_path(crate::args::optional_path_arg(args, "path", ".")));
        if !is_path_safe(rel.as_str()) {
            return ToolPlan::Reject(access_denied_result());
        }
        let recursive = crate::args::optional_bool_arg(args, "recursive", true);
        let case_sensitive = crate::args::optional_bool_arg(args, "caseSensitive", false);
        let max_matches = crate::args::optional_num_arg(args, "maxMatches", 50);
        let max_depth = crate::args::optional_num_arg(args, "maxDepth", 8);
        ToolPlan::Find { name: needle, path: rel, recursive, case_sensitive, max_matches, max_depth }
    } else if str_eq(name, "grep") {
        let pattern = match crate::args::require_string_arg(args, "pattern") {
            Ok(v) => v.clone(),
            Err(e) => {
                return ToolPlan::Reject(e);
            },
        };
        let rel = String::from_str(normalize_path(crate::args::optional_path_arg(args, "path", ".")));
        if !is_path_safe(rel.as_str()) {
            return ToolPlan::Reject(access_denied_result());
        }
        let recursive = crate::args::optional_bool_arg(args, "recursive", true);
        let case_sensitive = crate::args::optional_bool_arg(args, "caseSensitive", false);
        let max_matches = crate::args::optional_num_arg(args, "maxMatches", 50);
        ToolPlan::Grep { pattern, path: rel, recursive, case_sensitive, max_matches }
    } else if str_eq(name, "read") {
        let requested = match crate::args::require_path_arg(args, "path") {
            Ok(v) => v,
            Err(e) => {
                return ToolPlan::Reject(e);
            },
        };
        let rel = String::from_str(normalize_path(requested.as_str()));
        if !is_path_safe(rel.as_str()) {
            return ToolPlan::Reject(access_denied_result());
        }
        let offset = crate::args::optional_num_arg(args, "offset", 1);
        let limit = crate::args::optional_num_arg(args, "limit", 800);
        if offset == 0 {
            return ToolPlan::Reject(
                ToolExecutionResult::error(String::from_str("Error: `offset` must be >= 1.")),
            );
        }
        ToolPlan::ReadFile { path: rel, offset, limit }
    } else if str_eq(name, "write") {
        let requested = match crate::args::require_path_arg(args, "path") {
            Ok(v) => v,
            Err(e) => {
                return ToolPlan::Reject(e);
            },
        };
        let rel = String::from_str(normalize_path(requested.as_str()));
        if !is_path_safe(rel.as_str()) {
            return ToolPlan::Reject(access_denied_result());
        }
        let content = match args.get("content") {
            Some(v) => match v.as_str() {
                Some(s) => s.clone(),
                None => {
                    return ToolPlan::Reject(crate::args::missing_argument("content"));
                },
            },
            None => {
                return ToolPlan::Reject(crate::args::missing_argument("content"));
            },
        };
        ToolPlan::WriteFile { path: rel, content }
    } else if str_eq(name, "edit") {
        let requested = match crate::args::require_path_arg(args, "path") {
            Ok(v) => v,
            Err(e) => {
                return ToolPlan::Reject(e);
            },
        };
        let rel = String::from_str(normalize_path(requested.as_str()));
        if !is_path_safe(rel.as_str()) {
            return ToolPlan::Reject(access_denied_result());
        }
        let old_text = match crate::args::require_string_arg(args, "oldText") {
            Ok(v) => v.clone(),
            Err(e) => {
                return ToolPlan::Reject(e);
            },
        };
        let new_text = match args.get("newText") {
            Some(v) => match v.as_str() {
                Some(s) => s.clone(),
                None => {
                    return ToolPlan::Reject(crate::args::missing_argument("newText"));
                },
            },
            None => {
                return ToolPlan::Reject(crate::args::missing_argument("newText"));
            },
        };
        ToolPlan::EditFile { path: rel, old_text, new_text }
    } else if str_eq(name, "exec") {
        let command = match crate::args::require_string_arg(args, "command") {
            Ok(v) => v.clone(),
            Err(e) => {
                return ToolPlan::Reject(e);
            },
        };
        if !privileged {
            return ToolPlan::Reject(
                ToolExecutionResult::error(
                    String::from_str(
                        "Error: `exec` is disabled because runtime.privileged=false. Explain the limitation or enable privileged mode.",
                    ),
                ),
            );
        }
        ToolPlan::ExecCommand { command }
    } else {
        ToolPlan::Skill { name: String::from_str(name) }
    }
}

/// Whether one text line matches a search pattern; the caller lowercases
/// the pattern once for case-insensitive searches.
pub fn line_matches(line: &str, needle: &str, case_sensitive: bool) -> (r: bool)
    ensures
        case_sensitive ==> r == contains_seq(line@, needle@),
        !case_sensitive ==> r == contains_seq(crate::text::lower_seq(line@), needle@),
{
    if case_sensitive {
        contains_str(line, needle)
    } else {
        let lowered = crate::text::to_ascii_lowercase(line);
        contains_str(lowered.as_str(), needle)
    }
}

/// A relative tool path is safe when it cannot name anything outside the
/// workspace: no parent-directory steps and not absolute.
pub open spec fn path_safe_seq(rel: Seq<char>) -> bool {
    &&& !contains_seq(rel, ".."@)
    &&& !(rel.len() >= 1 && rel[0] == '/')
}

/// Whether a tool may touch `rel`: rejects parent-directory steps and
/// absolute paths.
pub fn is_path_safe(rel: &str) -> (r: bool)
    ensures
        r == path_safe_seq(rel@),
{
    if contains_str(rel, "..") {
        return false;
    }
    if rel.unicode_len() >= 1 && rel.get_char(0) == '/' {
        return false;
    }
    true
}

} // verus!
