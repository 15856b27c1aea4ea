//! Delivery tools: validation and resolution for everything the engine
//! sends out — messages, replies, embeds, attachments, code blocks, and
//! text-file artifacts. The sends themselves are I/O; every decision about
//! them is made here.

use vstd::prelude::*;

use crate::args::{list_field, missing_arg_error, require_string_arg, require_string_array_arg,
    str_field, str_items, num_field, usable_str_field, ArgValue};
use crate::text::{contains_seq, dec_seq, str_eq, substring, u64_to_string};
use crate::tools::{is_path_safe, normalize_path, normalize_path_seq, path_safe_seq,
    ToolExecutionResult};

verus! {

/// `true` iff `c` occurs in `s`.
pub open spec fn contains_char(s: Seq<char>, c: char) -> bool {
    exists|i: int| 0 <= i < s.len() && s[i] == c
}

/// `s` without trailing slashes.
pub open spec fn strip_trailing_slashes(s: Seq<char>) -> Seq<char>
    decreases s.len(),
{
    if s.len() > 0 && s.last() == '/' {
        strip_trailing_slashes(s.take(s.len() - 1))
    } else {
        s
    }
}

/// The suffix of `s` after its last slash.
pub open spec fn after_last_slash(s: Seq<char>) -> Seq<char>
    decreases s.len(),
{
    if s.len() == 0 {
        s
    } else if contains_char(s, '/') {
        after_last_slash(s.skip(1))
    } else {
        s
    }
}

proof fn lemma_after_no_slash(s: Seq<char>)
    requires
        !contains_char(s, '/'),
    ensures
        after_last_slash(s) == s,
{
}

proof fn lemma_after_last_slash(s: Seq<char>, j: int)
    requires
        0 <= j < s.len(),
        s[j] == '/',
        forall|k: int| j < k < s.len() ==> s[k] != '/',
    ensures
        after_last_slash(s) == s.skip(j + 1),
    decreases j,
{
    assert(contains_char(s, '/'));
    if j == 0 {
        let rest = s.skip(1);
        assert(forall|k: int| 0 <= k < rest.len() ==> rest[k] == s[k + 1]);
        assert(!contains_char(rest, '/'));
        lemma_after_no_slash(rest);
    } else {
        let rest = s.skip(1);
        assert(forall|k: int| 0 <= k < rest.len() ==> rest[k] == s[k + 1]);
        assert(rest[j - 1] == '/');
        lemma_after_last_slash(rest, j - 1);
        assert(rest.skip(j) =~= s.skip(j + 1));
    }
}

/// Characters a sanitized attachment filename keeps; everything else
/// becomes an underscore.
pub open spec fn keep_filename_char(c: char) -> bool {
    ('a' <= c && c <= 'z') || ('A' <= c && c <= 'Z') || ('0' <= c && c <= '9') || c == '.' || c
        == '_' || c == '-'
}

pub open spec fn sanitize_char(c: char) -> char {
    if keep_filename_char(c) {
        c
    } else {
        '_'
    }
}

/// What sanitizing does: take the base name, fall back to `artifact.txt`
/// for an empty or directory-like name, and replace unsafe characters.
pub open spec fn sanitize_filename_spec(name: Seq<char>) -> Seq<char> {
    let base = after_last_slash(strip_trailing_slashes(name));
    if base.len() == 0 || base == "."@ || base == ".."@ {
        "artifact.txt"@
    } else {
        base.map_values(|c: char| sanitize_char(c))
    }
}

fn keep_char(c: char) -> (r: bool)
    ensures
        r == keep_filename_char(c),
{
    ('a' <= c && c <= 'z') || ('A' <= c && c <= 'Z') || ('0' <= c && c <= '9') || c == '.' || c
        == '_' || c == '-'
}

/// Reduces an attachment filename to a safe base name: path components are
/// dropped and unsafe characters replaced by underscores.
pub fn sanitize_filename(name: &str) -> (r: String)
    ensures
        r@ == sanitize_filename_spec(name@),
{
    let n = name.unicode_len();
    // Strip trailing slashes.
    let mut b: usize = n;
    proof {
        assert(name@.take(n as int) =~= name@);
    }
    while b > 0 && name.get_char(b - 1) == '/'
        invariant
            n == name@.len(),
            0 <= b <= n,
            strip_trailing_slashes(name@) == strip_trailing_slashes(name@.take(b as int)),
        decreases b,
    {
        proof {
            assert(name@.take(b as int).last() == name@[b - 1]);
            assert(name@.take(b as int).take(b - 1) =~= name@.take(b - 1));
        }
        b = b - 1;
    }
    let ghost stripped = name@.take(b as int);
    proof {
        if b > 0 {
            assert(stripped.last() == name@[b - 1]);
        }
        assert(strip_trailing_slashes(stripped) == stripped);
    }
    // Find the last slash among what remains.
    let mut j: usize = b;
    while j > 0 && name.get_char(j - 1) != '/'
        invariant
            n == name@.len(),
            0 <= j <= b <= n,
            forall|k: int| j <= k < b ==> name@[k] != '/',
        decreases j,
    {
        j = j - 1;
    }
    let ghost base = stripped.skip(j as int);
    proof {
        assert(forall|k: int| 0 <= k < base.len() ==> base[k] == name@[k + j]);
        if j > 0 {
            assert(name@[j - 1] == '/');
            assert(stripped[j - 1] == '/');
            lemma_after_last_slash(stripped, j - 1);
            assert(stripped.skip(j as int) =~= base);
        } else {
            assert(!contains_char(stripped, '/'));
            lemma_after_no_slash(stripped);
            assert(stripped.skip(0) =~= stripped);
        }
        assert(after_last_slash(stripped) == base);
    }
    let is_dot = b >= 1 && b - 1 == j && name.get_char(j) == '.';
    let is_dotdot = b >= 2 && b - 2 == j && name.get_char(j) == '.' && name.get_char(j + 1)
        == '.';
    proof {
        reveal_strlit(".");
        reveal_strlit("..");
        if is_dot {
            assert(base =~= "."@);
        }
        if is_dotdot {
            assert(base =~= ".."@);
        }
        if base == "."@ {
            assert(base.len() == 1);
            assert(name@[j as int] == base[0]);
        }
        if base == ".."@ {
            assert(base.len() == 2);
            assert(name@[j as int] == base[0]);
            assert(name@[j + 1] == base[1]);
        }
    }
    if b == j || is_dot || is_dotdot {
        return String::from_str("artifact.txt");
    }
    let mut out = String::new();
    let mut k: usize = j;
    proof {
        assert(out@ =~= base.map_values(|c: char| sanitize_char(c)).take(0));
    }
    while k < b
        invariant
            n == name@.len(),
            0 <= j <= k <= b <= n,
            base == name@.take(b as int).skip(j as int),
            base.len() == b - j,
            forall|p: int| 0 <= p < base.len() ==> base[p] == name@[p + j],
            out@ == base.map_values(|c: char| sanitize_char(c)).take(k - j),
        decreases b - k,
    {
        let c = name.get_char(k);
        let kept = if keep_char(c) {
            c
        } else {
            '_'
        };
        crate::text::push_char(&mut out, kept);
        proof {
            assert(base.map_values(|c: char| sanitize_char(c)).take(k - j + 1) =~= base.map_values(
                |c: char| sanitize_char(c),
            ).take(k - j).push(sanitize_char(base[k - j])));
        }
        k = k + 1;
    }
    proof {
        assert(base.map_values(|c: char| sanitize_char(c)).take(b - j) =~= base.map_values(
            |c: char| sanitize_char(c),
        ));
    }
    out
}

/// Where an attachment is read from.
#[derive(Debug)]
pub enum AttachmentSource {
    /// An absolute host path; only privileged runs may use one.
    Host(String),
    /// A path inside the workspace, already normalized.
    Workspace(String),
}

/// The error shown when an absolute path is requested without privilege.
pub open spec fn privilege_error() -> Seq<char> {
    "Error: Absolute host paths for attachments require runtime.privileged=true."@
}

/// The error shown when a relative path could escape the workspace.
pub open spec fn access_denied_error() -> Seq<char> {
    "Error: Access denied. Path must be within the guild directory."@
}

/// Resolves one requested attachment path: an absolute host path passes
/// only under privilege and unchanged; a relative one is normalized and
/// must stay inside the workspace. Existence is the caller's check.
pub fn resolve_attachment_path(requested: &str, privileged: bool) -> (r: Result<
    AttachmentSource,
    ToolExecutionResult,
>)
    ensures
        match r {
            Ok(src) => match src {
                AttachmentSource::Host(p) => requested@.len() >= 1 && requested@[0] == '/'
                    && privileged && p@ == requested@,
                AttachmentSource::Workspace(p) => !(requested@.len() >= 1 && requested@[0] == '/')
                    && p@ == normalize_path_seq(requested@) && path_safe_seq(p@),
            },
            Err(e) => {
                &&& e.is_error
                &&& if requested@.len() >= 1 && requested@[0] == '/' {
                    !privileged && e.output@ == privilege_error()
                } else {
                    !path_safe_seq(normalize_path_seq(requested@)) && e.output@
                        == access_denied_error()
                }
            },
        },
{
    if requested.unicode_len() >= 1 && requested.get_char(0) == '/' {
        if privileged {
            Ok(AttachmentSource::Host(String::from_str(requested)))
        } else {
            Err(ToolExecutionResult::error(String::from_str(
                "Error: Absolute host paths for attachments require runtime.privileged=true.",
            )))
        }
    } else {
        let rel = normalize_path(requested);
        if is_path_safe(rel) {
            Ok(AttachmentSource::Workspace(String::from_str(rel)))
        } else {
            Err(ToolExecutionResult::error(String::from_str(
                "Error: Access denied. Path must be within the guild directory.",
            )))
        }
    }
}

/// `src` is the correct resolution of the requested path `req`.
pub open spec fn attachment_ok(req: Seq<char>, src: AttachmentSource, privileged: bool) -> bool {
    match src {
        AttachmentSource::Host(p) => req.len() >= 1 && req[0] == '/' && privileged && p@ == req,
        AttachmentSource::Workspace(p) => !(req.len() >= 1 && req[0] == '/') && p@
            == normalize_path_seq(req) && path_safe_seq(p@),
    }
}

/// The requested path cannot be resolved at all.
pub open spec fn attachment_fails(req: Seq<char>, privileged: bool) -> bool {
    if req.len() >= 1 && req[0] == '/' {
        !privileged
    } else {
        !path_safe_seq(normalize_path_seq(req))
    }
}

/// The error text a failing attachment path produces.
pub open spec fn attachment_error_text(req: Seq<char>) -> Seq<char> {
    if req.len() >= 1 && req[0] == '/' {
        privilege_error()
    } else {
        access_denied_error()
    }
}

/// What one delivery tool call must do, decided before any send: the
/// validated message, reply, embed, resolved attachment sources, fenced
/// code block, or outbox artifact.
#[derive(Debug)]
pub enum DeliveryPlan {
    Message { content: String },
    Reply { message_id: String, content: String },
    Embed { title: String, description: String, color: Option<u32> },
    Attachment { source: AttachmentSource },
    Attachments { sources: Vec<AttachmentSource> },
    Image { source: AttachmentSource },
    CodeBlock { content: String },
    TextFile { filename: String, content: String },
}

/// Routes and validates one delivery tool call: `None` for a name that is
/// no delivery tool; otherwise the validated plan, or the exact error
/// observation the model sees. Attachment paths are resolved here, in
/// order, failing on the first unusable one.
#[verifier::loop_isolation(false)]
pub fn plan_delivery_tool(name: &str, args: &ArgValue, privileged: bool) -> (r: Option<
    Result<DeliveryPlan, ToolExecutionResult>,
>)
    ensures
        name@ == "send_message"@ ==> match r {
            Some(Ok(DeliveryPlan::Message { content })) => Some(content@) == str_field(
                *args,
                "content"@,
            ) && content@.len() > 0,
            Some(Err(e)) => !usable_str_field(*args, "content"@) && e.is_error && e.output@
                == missing_arg_error("content"@),
            _ => false,
        },
        name@ == "send_reply"@ ==> match r {
            Some(Ok(DeliveryPlan::Reply { message_id, content })) => {
                &&& Some(message_id@) == str_field(*args, "messageId"@)
                &&& message_id@.len() > 0
                &&& Some(content@) == str_field(*args, "content"@)
                &&& content@.len() > 0
            },
            Some(Err(e)) => e.is_error && if !usable_str_field(*args, "messageId"@) {
                e.output@ == missing_arg_error("messageId"@)
            } else {
                !usable_str_field(*args, "content"@) && e.output@ == missing_arg_error(
                    "content"@,
                )
            },
            _ => false,
        },
        name@ == "send_embed"@ ==> match r {
            Some(Ok(DeliveryPlan::Embed { title, description, color })) => {
                &&& Some(title@) == str_field(*args, "title"@)
                &&& title@.len() > 0
                &&& Some(description@) == str_field(*args, "description"@)
                &&& description@.len() > 0
                &&& color == (match num_field(*args, "color"@) {
                    Some(c) => if c <= u32::MAX as u64 {
                        Some(c as u32)
                    } else {
                        None
                    },
                    None => None,
                })
            },
            Some(Err(e)) => e.is_error && if !usable_str_field(*args, "title"@) {
                e.output@ == missing_arg_error("title"@)
            } else {
                !usable_str_field(*args, "description"@) && e.output@ == missing_arg_error(
                    "description"@,
                )
            },
            _ => false,
        },
        name@ == "send_attachment"@ ==> match r {
            Some(Ok(DeliveryPlan::Attachment { source })) => usable_str_field(*args, "path"@)
                && attachment_ok(str_field(*args, "path"@)->0, source, privileged),
            Some(Err(e)) => e.is_error && ({
                if !usable_str_field(*args, "path"@) {
                    e.output@ == missing_arg_error("path"@)
                } else {
                    attachment_fails(str_field(*args, "path"@)->0, privileged) && e.output@
                        == attachment_error_text(str_field(*args, "path"@)->0)
                }
            }),
            _ => false,
        },
        name@ == "send_image"@ ==> match r {
            Some(Ok(DeliveryPlan::Image { source })) => usable_str_field(*args, "path"@)
                && attachment_ok(str_field(*args, "path"@)->0, source, privileged),
            Some(Err(e)) => e.is_error && ({
                if !usable_str_field(*args, "path"@) {
                    e.output@ == missing_arg_error("path"@)
                } else {
                    attachment_fails(str_field(*args, "path"@)->0, privileged) && e.output@
                        == attachment_error_text(str_field(*args, "path"@)->0)
                }
            }),
            _ => false,
        },
        name@ == "send_attachments"@ ==> match r {
            Some(Ok(DeliveryPlan::Attachments { sources })) => {
                &&& list_field(*args, "paths"@) is Some
                &&& ({
                    let items = str_items(list_field(*args, "paths"@)->0);
                    &&& items.len() > 0
                    &&& sources@.len() == items.len()
                    &&& forall|j: int|
                        0 <= j < items.len() ==> attachment_ok(
                            items[j],
                            #[trigger] sources@[j],
                            privileged,
                        )
                })
            },
            Some(Err(e)) => e.is_error,
            _ => false,
        },
        name@ == "send_code_block"@ ==> match r {
            Some(Ok(DeliveryPlan::CodeBlock { content })) => ({
                let raw = str_field(*args, "content"@)->0;
                let language = match str_field(*args, "language"@) {
                    Some(l) => l,
                    None => Seq::<char>::empty(),
                };
                &&& usable_str_field(*args, "content"@)
                &&& (language.len() == 0 ==> content@ == "```\n"@ + raw + "\n```"@)
                &&& (language.len() > 0 ==> content@ == "```"@ + language + "\n"@ + raw
                    + "\n```"@)
            }),
            Some(Err(e)) => !usable_str_field(*args, "content"@) && e.is_error && e.output@
                == missing_arg_error("content"@),
            _ => false,
        },
        name@ == "send_text_file"@ ==> match r {
            Some(Ok(DeliveryPlan::TextFile { filename, content })) => {
                &&& Some(content@) == str_field(*args, "content"@)
                &&& content@.len() > 0
                &&& filename@ == (match str_field(*args, "filename"@) {
                    Some(f) => if f.len() > 0 {
                        f
                    } else {
                        "artifact.txt"@
                    },
                    None => "artifact.txt"@,
                })
            },
            Some(Err(e)) => !usable_str_field(*args, "content"@) && e.is_error && e.output@
                == missing_arg_error("content"@),
            _ => false,
        },
        !(name@ == "send_message"@ || name@ == "send_reply"@ || name@ == "send_embed"@ || name@
            == "send_attachment"@ || name@ == "send_attachments"@ || name@ == "send_image"@
            || name@ == "send_code_block"@ || name@ == "send_text_file"@) ==> r is None,
{
    proof {
        reveal_strlit("send_message");
        reveal_strlit("send_reply");
        reveal_strlit("send_embed");
        reveal_strlit("send_attachment");
        reveal_strlit("send_attachments");
        reveal_strlit("send_image");
        reveal_strlit("send_code_block");
        reveal_strlit("send_text_file");
        assert("send_message"@.len() == 12 && "send_reply"@.len() == 10 && "send_embed"@.len()
            == 10 && "send_attachment"@.len() == 15 && "send_attachments"@.len() == 16
            && "send_image"@.len() == 10 && "send_code_block"@.len() == 15
            && "send_text_file"@.len() == 14);
        assert("send_message"@[5] == 'm' && "send_reply"@[5] == 'r' && "send_embed"@[5] == 'e'
            && "send_attachment"@[5] == 'a' && "send_attachments"@[5] == 'a' && "send_image"@[5]
            == 'i' && "send_code_block"@[5] == 'c' && "send_text_file"@[5] == 't');
    }
    if str_eq(name, "send_message") {
        let content = match require_string_arg(args, "content") {
            Ok(v) => v.clone(),
            Err(e) => {
                return Some(Err(e));
            },
        };
        Some(Ok(DeliveryPlan::Message { content }))
    } else if str_eq(name, "send_reply") {
        let message_id = match require_string_arg(args, "messageId") {
            Ok(v) => v.clone(),
            Err(e) => {
                return Some(Err(e));
            },
        };
        let content = match require_string_arg(args, "content") {
            Ok(v) => v.clone(),
            Err(e) => {
                return Some(Err(e));
            },
        };
        Some(Ok(DeliveryPlan::Reply { message_id, content }))
    } else if str_eq(name, "send_embed") {
        let title = match require_string_arg(args, "title") {
            Ok(v) => v.clone(),
            Err(e) => {
                return Some(Err(e));
            },
        };
        let description = match require_string_arg(args, "description") {
            Ok(v) => v.clone(),
            Err(e) => {
                return Some(Err(e));
            },
        };
        let color: Option<u32> = match args.get("color") {
            Some(v) => match v.as_u64() {
                Some(c) => {
                    if c <= u32::MAX as u64 {
                        Some(c as u32)
                    } else {
                        None
                    }
                },
                None => None,
            },
            None => None,
        };
        Some(Ok(DeliveryPlan::Embed { title, description, color }))
    } else if str_eq(name, "send_attachment") {
        let requested = match require_string_arg(args, "path") {
            Ok(v) => v,
            Err(e) => {
                return Some(Err(e));
            },
        };
        match resolve_attachment_path(requested.as_str(), privileged) {
            Ok(source) => Some(Ok(DeliveryPlan::Attachment { source })),
            Err(e) => Some(Err(e)),
        }
    } else if str_eq(name, "send_image") {
        let requested = match require_string_arg(args, "path") {
            Ok(v) => v,
            Err(e) => {
                return Some(Err(e));
            },
        };
        match resolve_attachment_path(requested.as_str(), privileged) {
            Ok(source) => Some(Ok(DeliveryPlan::Image { source })),
            Err(e) => Some(Err(e)),
        }
    } else if str_eq(name, "send_attachments") {
        let requested = match require_string_array_arg(args, "paths") {
            Ok(v) => v,
            Err(e) => {
                return Some(Err(e));
            },
        };
        let ghost items = str_items(list_field(*args, "paths"@)->0);
        let mut sources: Vec<AttachmentSource> = Vec::new();
        let n = requested.len();
        let mut k: usize = 0;
        while k < n
            invariant
                n == requested@.len(),
                0 <= k <= n,
                requested@.map_values(|s: String| s@) == items,
                items.len() == n,
                sources@.len() == k,
                forall|j: int|
                    0 <= j < k ==> attachment_ok(items[j], #[trigger] sources@[j], privileged),
            decreases n - k,
        {
            proof {
                assert(requested@.map_values(|s: String| s@)[k as int] == requested@[k as int]@);
            }
            match resolve_attachment_path(requested[k].as_str(), privileged) {
                Ok(source) => {
                    sources.push(source);
                },
                Err(e) => {
                    return Some(Err(e));
                },
            }
            k = k + 1;
        }
        Some(Ok(DeliveryPlan::Attachments { sources }))
    } else if str_eq(name, "send_code_block") {
        let content = match require_string_arg(args, "content") {
            Ok(v) => v,
            Err(e) => {
                return Some(Err(e));
            },
        };
        let language: &str = match args.get("language") {
            Some(v) => match v.as_str() {
                Some(l) => l.as_str(),
                None => "",
            },
            None => "",
        };
        let fenced = fenced_code_block(content.as_str(), language);
        proof {
            reveal_strlit("");
        }
        Some(Ok(DeliveryPlan::CodeBlock { content: fenced }))
    } else if str_eq(name, "send_text_file") {
        let content = match require_string_arg(args, "content") {
            Ok(v) => v.clone(),
            Err(e) => {
                return Some(Err(e));
            },
        };
        let filename = match args.get("filename") {
            Some(v) => match v.as_str() {
                Some(f) => {
                    if f.as_str().unicode_len() > 0 {
                        f.clone()
                    } else {
                        String::from_str("artifact.txt")
                    }
                },
                None => String::from_str("artifact.txt"),
            },
            None => String::from_str("artifact.txt"),
        };
        Some(Ok(DeliveryPlan::TextFile { filename, content }))
    } else {
        None
    }
}

/// A fenced code block, with an optional language tag.
pub fn fenced_code_block(content: &str, language: &str) -> (r: String)
    ensures
        language@.len() == 0 ==> r@ == "```\n"@ + content@ + "\n```"@,
        language@.len() > 0 ==> r@ == "```"@ + language@ + "\n"@ + content@ + "\n```"@,
{
    if language.unicode_len() == 0 {
        let mut r = String::from_str("```\n");
        r.append(content);
        r.append("\n```");
        r
    } else {
        let mut r = String::from_str("```");
        r.append(language);
        r.append("\n");
        r.append(content);
        r.append("\n```");
        r
    }
}

/// The name an outbox artifact is written under: the creation time in
/// milliseconds and the sanitized requested name.
pub fn outbox_file_name(timestamp_millis: u64, filename: &str) -> (r: String)
    ensures
        r@ == dec_seq(timestamp_millis as int) + "_"@ + sanitize_filename_spec(filename@),
{
    let mut r = u64_to_string(timestamp_millis);
    r.append("_");
    let sanitized = sanitize_filename(filename);
    r.append(sanitized.as_str());
    r
}

} // verus!
