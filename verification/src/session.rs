//! Session assembly: the prompts and guidance handed to the model, the
//! conversational trigger extraction, and the note that marks a request as
//! outside the engine's capabilities.

use vstd::prelude::*;

use crate::text::{contains_seq, contains_str, is_space, lower_seq, match_at, substring,
    to_ascii_lowercase, trim, trim_seq};

verus! {

/// Index of the last occurrence of `n` in `h` at or before `at`.
pub open spec fn rfind_from(h: Seq<char>, n: Seq<char>, at: int) -> Option<int>
    decreases at + 1,
{
    if at < 0 {
        None
    } else if match_at(h, n, at) {
        Some(at)
    } else {
        rfind_from(h, n, at - 1)
    }
}

/// Index of the last occurrence of `n` in `h`.
pub open spec fn rfind_seq(h: Seq<char>, n: Seq<char>) -> Option<int> {
    rfind_from(h, n, h.len() - n.len())
}

proof fn lemma_rfind_of_last(h: Seq<char>, n: Seq<char>, at: int, i: int)
    requires
        i <= at,
        match_at(h, n, i),
        forall|j: int| i < j <= at ==> !match_at(h, n, j),
    ensures
        rfind_from(h, n, at) == Some(i),
    decreases at - i,
{
    if at > i {
        assert(!match_at(h, n, at));
        lemma_rfind_of_last(h, n, at - 1, i);
    }
}

proof fn lemma_rfind_of_none(h: Seq<char>, n: Seq<char>, at: int)
    requires
        forall|j: int| j <= at ==> !match_at(h, n, j),
    ensures
        rfind_from(h, n, at) == None::<int>,
    decreases at + 1,
{
    if at >= 0 {
        assert(!match_at(h, n, at));
        lemma_rfind_of_none(h, n, at - 1);
    }
}

/// Last occurrence of `needle` in `hay`, agreeing with `rfind_seq`.
pub fn rfind_str(hay: &str, needle: &str) -> (r: Option<usize>)
    ensures
        match r {
            Some(i) => rfind_seq(hay@, needle@) == Some(i as int) && match_at(
                hay@,
                needle@,
                i as int,
            ),
            None => rfind_seq(hay@, needle@) is None,
        },
{
    let hn = hay.unicode_len();
    let nn = needle.unicode_len();
    if nn > hn {
        proof {
            assert(forall|j: int| !match_at(hay@, needle@, j));
            lemma_rfind_of_none(hay@, needle@, hay@.len() - needle@.len());
        }
        return None;
    }
    let mut at: usize = hn - nn;
    loop
        invariant
            hn == hay@.len(),
            nn == needle@.len(),
            nn <= hn,
            0 <= at <= hn - nn,
            forall|j: int| at < j <= hn - nn ==> !match_at(hay@, needle@, j),
        decreases at,
    {
        proof {
            assert(forall|j: int| hn - nn < j ==> !match_at(hay@, needle@, j));
        }
        let probe = crate::text::find_from(hay, needle, at);
        let is_here = match probe {
            Some(p) => p == at,
            None => false,
        };
        if is_here {
            proof {
                lemma_rfind_of_last(hay@, needle@, hay@.len() - needle@.len(), at as int);
            }
            return Some(at);
        }
        proof {
            assert(!match_at(hay@, needle@, at as int));
        }
        if at == 0 {
            proof {
                lemma_rfind_of_none(hay@, needle@, hay@.len() - needle@.len());
            }
            return None;
        }
        at = at - 1;
    }
}

/// The conversational guidance: everything from the engine's last recorded
/// answer on, narrowed to the author block that follows it; a blackboard
/// without a recorded answer is handed over whole.
pub open spec fn guidance_spec(s: Seq<char>) -> Seq<char> {
    match rfind_seq(s, "> [Tellar]"@) {
        None => s,
        Some(pos) => {
            let increment = s.skip(pos);
            match crate::text::find_seq(increment, "\n---\n**Author**"@, 0) {
                Some(ms) => trim_seq(increment.skip(ms)),
                None => "Check for follow-up or ritual steps."@,
            }
        },
    }
}

/// Extracts what the model should react to from a conversational
/// blackboard.
pub fn conversational_guidance(full_context: &str) -> (r: String)
    ensures
        r@ == guidance_spec(full_context@),
{
    let n = full_context.unicode_len();
    let pos = match rfind_str(full_context, "> [Tellar]") {
        None => {
            return String::from_str(full_context);
        },
        Some(p) => p,
    };
    let increment = full_context.substring_char(pos, n);
    proof {
        assert(increment@ =~= full_context@.skip(pos as int));
    }
    match crate::text::find_str(increment, "\n---\n**Author**", 0) {
        Some(ms) => {
            proof {
                crate::text::lemma_find_seq_bounds(increment@, "\n---\n**Author**"@, 0, ms as int);
            }
            let tail = increment.substring_char(ms, increment.unicode_len());
            proof {
                assert(tail@ =~= increment@.skip(ms as int));
            }
            trim(tail)
        },
        None => String::from_str("Check for follow-up or ritual steps."),
    }
}

/// The instruction the trigger produces: the guidance, plus the triggering
/// message id when the notification carried one.
pub fn trigger_instruction(guidance: String, trigger_id: Option<&str>) -> (r: String)
    ensures
        match trigger_id {
            Some(id) => r@ == guidance@ + "\nSpecifically, the trigger message has ID: "@ + id@
                + "."@,
            None => r@ == guidance@,
        },
{
    match trigger_id {
        Some(id) => {
            let mut r = guidance;
            r.append("\nSpecifically, the trigger message has ID: ");
            r.append(id);
            r.append(".");
            r
        },
        None => guidance,
    }
}

/// Whether the text names an absolute host path: a slash at the start or
/// after a boundary character, followed by a path character.
pub open spec fn boundary_char(c: char) -> bool {
    is_space(c) || c == '`' || c == '\'' || c == '"' || c == '('
}

pub open spec fn path_char(c: char) -> bool {
    c != '/' && !is_space(c)
}

pub open spec fn has_unix_abs_path(s: Seq<char>) -> bool {
    exists|i: int|
        0 <= i < s.len() - 1 && (#[trigger] s[i]) == '/' && (i == 0 || boundary_char(s[i - 1]))
            && path_char(s[i + 1])
}

fn is_boundary_char(c: char) -> (r: bool)
    ensures
        r == boundary_char(c),
{
    c == ' ' || c == '\n' || c == '\t' || c == '\r' || c == '`' || c == '\'' || c == '"' || c
        == '('
}

fn is_path_char(c: char) -> (r: bool)
    ensures
        r == path_char(c),
{
    c != '/' && c != ' ' && c != '\n' && c != '\t' && c != '\r'
}

/// Detects a host-path mention in a request.
pub fn detect_unix_abs_path(text: &str) -> (r: bool)
    ensures
        r == has_unix_abs_path(text@),
{
    let n = text.unicode_len();
    if n < 2 {
        return false;
    }
    let mut i: usize = 0;
    while i < n - 1
        invariant
            n == text@.len(),
            2 <= n,
            0 <= i <= n - 1,
            forall|k: int|
                0 <= k < i ==> !((#[trigger] text@[k]) == '/' && (k == 0 || boundary_char(
                    text@[k - 1],
                )) && path_char(text@[k + 1])),
        decreases n - i,
    {
        if text.get_char(i) == '/' && (i == 0 || is_boundary_char(text.get_char(i - 1)))
            && is_path_char(text.get_char(i + 1)) {
            return true;
        }
        i = i + 1;
    }
    false
}

/// Whether the text asks for a file attachment.
pub open spec fn wants_attachment_spec(s: Seq<char>) -> bool {
    contains_seq(s, "\u{9644}\u{4ef6}"@) || contains_seq(lower_seq(s), "attachment"@)
        || contains_seq(lower_seq(s), "attach "@)
}

/// Detects an attachment request.
pub fn detect_attachment_request(text: &str) -> (r: bool)
    ensures
        r == wants_attachment_spec(text@),
{
    if contains_str(text, "\u{9644}\u{4ef6}") {
        return true;
    }
    let lowered = to_ascii_lowercase(text);
    contains_str(lowered.as_str(), "attachment") || contains_str(lowered.as_str(), "attach ")
}

/// The guidance for a host-path request, by privilege.
pub open spec fn exec_guidance_spec(privileged: bool) -> Seq<char> {
    if privileged {
        "This request targets a host path. Use `exec` first instead of searching with guild file tools."@
    } else {
        "This request targets a host path. Call `exec` first; it will reject immediately because privileged mode is disabled, then explain the limitation instead of searching with guild file tools."@
    }
}

/// The guidance for an attachment request.
pub open spec fn attachment_guidance_spec() -> Seq<char> {
    "You cannot send file attachments directly. If the user needs a file, write it inside the guild workspace or explain that attachment delivery is unavailable."@
}

/// The full boundary note for the detected constraints, or nothing when
/// none was detected.
pub open spec fn unsupported_note_spec(s: Seq<char>, privileged: bool) -> Option<Seq<char>> {
    let abs = has_unix_abs_path(s);
    let att = wants_attachment_spec(s);
    if !abs && !att {
        None
    } else {
        let joined = if abs && att {
            exec_guidance_spec(privileged) + "\n"@ + attachment_guidance_spec()
        } else if abs {
            exec_guidance_spec(privileged)
        } else {
            attachment_guidance_spec()
        };
        Some(
            "### Execution Boundary\n"@ + joined
                + "\nIf this request depends on unsupported capabilities, say so directly and finish instead of continuing to search."@,
        )
    }
}

/// Marks a request whose fulfilment the engine cannot support — a host
/// path without `exec`, or attachment delivery — so the model states the
/// limitation instead of searching fruitlessly.
pub fn unsupported_request_note(text: &str, privileged: bool) -> (r: Option<String>)
    ensures
        match r {
            Some(note) => unsupported_note_spec(text@, privileged) == Some(note@),
            None => unsupported_note_spec(text@, privileged) is None,
        },
{
    let abs = detect_unix_abs_path(text);
    let att = detect_attachment_request(text);
    if !abs && !att {
        return None;
    }
    let mut joined = String::new();
    if abs {
        if privileged {
            joined.append(
                "This request targets a host path. Use `exec` first instead of searching with guild file tools.",
            );
        } else {
            joined.append(
                "This request targets a host path. Call `exec` first; it will reject immediately because privileged mode is disabled, then explain the limitation instead of searching with guild file tools.",
            );
        }
    }
    if att {
        if abs {
            joined.append("\n");
        }
        joined.append(
            "You cannot send file attachments directly. If the user needs a file, write it inside the guild workspace or explain that attachment delivery is unavailable.",
        );
    }
    let mut note = String::from_str("### Execution Boundary\n");
    note.append(joined.as_str());
    note.append(
        "\nIf this request depends on unsupported capabilities, say so directly and finish instead of continuing to search.",
    );
    Some(note)
}

/// The system prompt from its pieces: the base identity (or the stock one
/// when the workspace has none) and an optional channel-specific identity.
pub fn compose_unified_prompt(base_prompt: Option<String>, channel_prompt: Option<String>) -> (r:
    String)
    ensures
        r@ == (match base_prompt {
            Some(b) => b@,
            None => "You are Tellar, a cyber steward."@,
        }) + (match channel_prompt {
            Some(c) => "\n\n### Channel-Specific Identity:\n"@ + c@,
            None => Seq::<char>::empty(),
        }),
{
    let mut r = match base_prompt {
        Some(b) => b,
        None => String::from_str("You are Tellar, a cyber steward."),
    };
    match channel_prompt {
        Some(c) => {
            r.append("\n\n### Channel-Specific Identity:\n");
            r.append(c.as_str());
        },
        None => {},
    }
    r
}

/// The system prompt grown by the task framing's memory sections.
pub fn append_react_memory(system_prompt: String, channel_memory: &str, global_memory: &str) -> (r:
    String)
    ensures
        r@ == system_prompt@ + "\n\n### Semantic Memory (Channel):\n"@ + channel_memory@
            + "\n\n### Semantic Memory (Global):\n"@ + global_memory@,
{
    let mut r = system_prompt;
    r.append("\n\n### Semantic Memory (Channel):\n");
    r.append(channel_memory);
    r.append("\n\n### Semantic Memory (Global):\n");
    r.append(global_memory);
    r
}

/// The system prompt grown by the conversational framing's memory section.
pub fn append_conversational_memory(system_prompt: String, channel_memory: &str) -> (r: String)
    ensures
        r@ == system_prompt@ + "\n\n### Semantic Memory (Channel Knowledge):\n"@
            + channel_memory@,
{
    let mut r = system_prompt;
    r.append("\n\n### Semantic Memory (Channel Knowledge):\n");
    r.append(channel_memory);
    r
}

/// The opening user message of a task-framing run.
pub fn react_objective_message(full_context: &str, task: &str) -> (r: String)
    ensures
        r@ == "### Current Blackboard Context:\n"@ + full_context@
            + "\n\n### Your Objective:\nYou are currently processing the step: \""@ + task@
            + "\".\nUse native tool calling. Prefer `find` when the path is unknown, `ls` when the directory is known, then `grep` to narrow matches, then `read` before `write` or `edit`. Use a discovered skill only when the task needs domain-specific or external capabilities. Use `finish` when the step is complete."@,
{
    let mut r = String::from_str("### Current Blackboard Context:\n");
    r.append(full_context);
    r.append("\n\n### Your Objective:\nYou are currently processing the step: \"");
    r.append(task);
    r.append(
        "\".\nUse native tool calling. Prefer `find` when the path is unknown, `ls` when the directory is known, then `grep` to narrow matches, then `read` before `write` or `edit`. Use a discovered skill only when the task needs domain-specific or external capabilities. Use `finish` when the step is complete.",
    );
    r
}

/// The opening user message of a conversational run.
pub fn conversational_opening_message(instruction: &str) -> (r: String)
    ensures
        r@ == "### Current User Input (Specific Target):\n"@ + instruction@
            + "\n\nRespond naturally. Use Markdown. Prefer local cognition tools (`find`, `ls`, `grep`, `read`) before modifying files or invoking skills. Concise yet premium."@,
{
    let mut r = String::from_str("### Current User Input (Specific Target):\n");
    r.append(instruction);
    r.append(
        "\n\nRespond naturally. Use Markdown. Prefer local cognition tools (`find`, `ls`, `grep`, `read`) before modifying files or invoking skills. Concise yet premium.",
    );
    r
}

} // verus!
