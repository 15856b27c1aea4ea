//! Thread execution decisions: the dedup guard, the task-drain steps, the
//! persisted entry formats, and the auto-archival rule.

use vstd::prelude::*;

use crate::context::{conversational_log_name, header_field, is_conversational_log,
    parse_task_document, parsed_fields, TaskHeader};
use crate::text::{contains_seq, contains_str, find_seq, find_str, lemma_find_seq_bounds,
    match_at, replace_seq, substring, trim, trim_seq};

verus! {

/// `true` iff `s` begins with `p`.
pub open spec fn has_prefix(s: Seq<char>, p: Seq<char>) -> bool {
    p.len() <= s.len() && s.subrange(0, p.len() as int) == p
}

/// The set of thread paths currently executing, with at most one entry per
/// path. Membership is the dedup test: a path stays in the set for the whole
/// duration of its execution.
pub struct ExecutingSet {
    pub paths: Vec<String>,
}

impl ExecutingSet {
    /// `true` iff `p` is currently executing.
    pub open spec fn executing(self, p: Seq<char>) -> bool {
        exists|i: int| 0 <= i < self.paths@.len() && (#[trigger] self.paths@[i])@ == p
    }

    /// Each path occurs at most once.
    pub open spec fn wf(self) -> bool {
        forall|i: int, j: int|
            0 <= i < j < self.paths@.len() ==> (#[trigger] self.paths@[i])@ != (
            #[trigger] self.paths@[j])@
    }

    /// An empty guard: nothing executing.
    pub fn new() -> (r: ExecutingSet)
        ensures
            r.wf(),
            forall|q: Seq<char>| !r.executing(q),
    {
        ExecutingSet { paths: Vec::new() }
    }

    /// The atomic test-and-insert: admits `path` iff it is not already
    /// executing. A refused path leaves the guard unchanged — the caller
    /// returns immediately, which is no error.
    pub fn try_begin(&mut self, path: &str) -> (r: bool)
        requires
            old(self).wf(),
        ensures
            final(self).wf(),
            r == !old(self).executing(path@),
            forall|q: Seq<char>|
                final(self).executing(q) == (old(self).executing(q) || (r && q == path@)),
    {
        let n = self.paths.len();
        let mut i: usize = 0;
        while i < n
            invariant
                old(self).wf(),
                *self == *old(self),
                n == self.paths@.len(),
                0 <= i <= n,
                forall|k: int| 0 <= k < i ==> (#[trigger] self.paths@[k])@ != path@,
            decreases n - i,
        {
            if crate::text::str_eq(self.paths[i].as_str(), path) {
                proof {
                    assert(old(self).executing(path@)) by {
                        assert((self.paths@[i as int])@ == path@);
                    }
                }
                return false;
            }
            i = i + 1;
        }
        let ghost prev = self.paths@;
        self.paths.push(String::from_str(path));
        proof {
            assert(self.paths@[prev.len() as int]@ == path@);
            assert forall|q: Seq<char>|
                final(self).executing(q) == (old(self).executing(q) || q == path@) by {
                if old(self).executing(q) {
                    let k = choose|k: int|
                        0 <= k < prev.len() && (#[trigger] prev[k])@ == q;
                    assert(self.paths@[k]@ == q);
                }
                if final(self).executing(q) {
                    let k = choose|k: int|
                        0 <= k < self.paths@.len() && (#[trigger] self.paths@[k])@ == q;
                    if k < prev.len() {
                        assert(prev[k]@ == q);
                    }
                }
            }
        }
        true
    }

    /// Removes `path` on exit from an execution; every exit path of the
    /// caller runs this.
    pub fn end(&mut self, path: &str) -> (r: ())
        requires
            old(self).wf(),
        ensures
            final(self).wf(),
            forall|q: Seq<char>|
                final(self).executing(q) == (old(self).executing(q) && q != path@),
    {
        let n = self.paths.len();
        let mut i: usize = 0;
        while i < n
            invariant
                old(self).wf(),
                *self == *old(self),
                n == self.paths@.len(),
                0 <= i <= n,
                forall|k: int| 0 <= k < i ==> (#[trigger] self.paths@[k])@ != path@,
            decreases n - i,
        {
            if crate::text::str_eq(self.paths[i].as_str(), path) {
                let ghost prev = self.paths@;
                let ghost ig = i as int;
                self.paths.remove(i);
                proof {
                    assert(self.paths@ =~= prev.subrange(0, ig) + prev.subrange(
                        ig + 1,
                        prev.len() as int,
                    ));
                    assert forall|k: int| 0 <= k < self.paths@.len() implies (
                    #[trigger] self.paths@[k]) == (if k < ig {
                        prev[k]
                    } else {
                        prev[k + 1]
                    }) by {}
                    assert forall|q: Seq<char>|
                        final(self).executing(q) == (old(self).executing(q) && q != path@) by {
                        if final(self).executing(q) {
                            let k = choose|k: int|
                                0 <= k < self.paths@.len() && (#[trigger] self.paths@[k])@ == q;
                            if k < ig {
                                assert(prev[k]@ == q);
                            } else {
                                assert(prev[k + 1]@ == q);
                            }
                        }
                        if old(self).executing(q) && q != path@ {
                            let k = choose|k: int|
                                0 <= k < prev.len() && (#[trigger] prev[k])@ == q;
                            assert(prev[ig]@ == path@);
                            if k < ig {
                                assert(self.paths@[k]@ == q);
                            } else {
                                assert(k > ig);
                                assert(self.paths@[k - 1]@ == q);
                            }
                        }
                    }
                }
                return ;
            }
            i = i + 1;
        }
    }
}

/// After a successful test-and-insert the path is executing, so a second
/// test-and-insert of the same path is refused until the first execution
/// ends: at most one execution per thread path at any instant.
pub proof fn lemma_guard_dedup(before: ExecutingSet, after: ExecutingSet, p: Seq<char>)
    requires
        before.wf(),
        !before.executing(p),
        forall|q: Seq<char>| after.executing(q) == (before.executing(q) || q == p),
    ensures
        after.executing(p),
{
}

/// The marker of an open task line.
pub open spec fn open_task_marker() -> Seq<char> {
    "- [ ] "@
}

/// The first remaining open task of a document: the whole matched line and
/// the description after the marker, both running to the end of the line.
pub open spec fn first_open_task(s: Seq<char>) -> Option<(Seq<char>, Seq<char>)> {
    match find_seq(s, open_task_marker(), 0) {
        None => None,
        Some(i) => {
            let eol = match find_seq(s, "\n"@, i) {
                Some(e) => e,
                None => s.len() as int,
            };
            Some((s.subrange(i, eol), s.subrange(i + open_task_marker().len(), eol)))
        },
    }
}

/// Locates the first remaining open task line, rescanned from the current
/// content so tasks appended while draining are picked up.
pub fn next_open_task(content: &str) -> (r: Option<(String, String)>)
    ensures
        match r {
            Some(t) => {
                &&& first_open_task(content@) is Some
                &&& t.0@ == (first_open_task(content@)->0).0
                &&& t.1@ == (first_open_task(content@)->0).1
            },
            None => first_open_task(content@) is None,
        },
{
    let n = content.unicode_len();
    let i = match find_str(content, "- [ ] ", 0) {
        None => {
            return None;
        },
        Some(i) => i,
    };
    proof {
        lemma_find_seq_bounds(content@, "- [ ] "@, 0, i as int);
        reveal_strlit("- [ ] ");
        reveal_strlit("\n");
    }
    let marker: &str = "- [ ] ";
    let mlen = marker.unicode_len();
    let eol = match find_str(content, "\n", i) {
        None => n,
        Some(e) => {
            proof {
                lemma_find_seq_bounds(content@, "\n"@, i as int, e as int);
                if e < i + mlen {
                    assert(content@.subrange(e as int, e as int + 1)[0] == content@[e as int]);
                    assert(content@[e as int] == '\n');
                    assert(content@.subrange(i as int, i + 6)[e - i] == content@[e as int]);
                    assert(content@[e as int] == "- [ ] "@[e - i]);
                    assert(false);
                }
            }
            e
        },
    };
    let line = substring(content, i, eol);
    let desc = substring(content, i + mlen, eol);
    Some((line, desc))
}

/// A task step failed when its result carries one of the error prefixes.
pub open spec fn task_result_failed(result: Seq<char>) -> bool {
    has_prefix(result, "Error executing task:"@) || has_prefix(result, "Gemini API Error:"@)
}

/// The document after recording one task result: on success the matched
/// line is closed (every occurrence of the line has its first `[ ]` boxes
/// checked) and a result entry is appended; on failure the line stays open
/// and a failure entry is appended.
pub open spec fn task_log_spec(
    content: Seq<char>,
    task_line: Seq<char>,
    result: Seq<char>,
    timestamp: Seq<char>,
) -> (Seq<char>, bool) {
    if !task_result_failed(result) {
        (
            replace_seq(content, task_line, replace_seq(task_line, "[ ]"@, "[x]"@)) + "\n> ["@
                + timestamp + "] Execution result: "@ + result,
            true,
        )
    } else {
        (content + "\n> ["@ + timestamp + "] \u{274c} Task failed: "@ + result, false)
    }
}

/// Records one task result into the document: closes the line and appends a
/// result entry on success, appends a failure entry and keeps the line open
/// on failure. The flag says whether the task completed.
pub fn append_task_result_log(content: &str, task_line: &str, result: &str, timestamp: &str) -> (r:
    (String, bool))
    ensures
        r.0@ == task_log_spec(content@, task_line@, result@, timestamp@).0,
        r.1 == task_log_spec(content@, task_line@, result@, timestamp@).1,
        r.1 == !task_result_failed(result@),
{
    let failed = crate::text::starts_with(result, "Error executing task:") || crate::text::starts_with(
        result,
        "Gemini API Error:",
    );
    if !failed {
        let updated_line = crate::text::replace_all(task_line, "[ ]", "[x]");
        let mut next = crate::text::replace_all(content, task_line, updated_line.as_str());
        next.append("\n> [");
        next.append(timestamp);
        next.append("] Execution result: ");
        next.append(result);
        (next, true)
    } else {
        let mut next = String::from_str(content);
        next.append("\n> [");
        next.append(timestamp);
        next.append("] \u{274c} Task failed: ");
        next.append(result);
        (next, false)
    }
}

/// Auto-archival needs both: an empty or absent schedule, and no remaining
/// open task line anywhere in the document. A scheduled document never
/// archives, however fully drained.
pub open spec fn archive_decision(content: Seq<char>, schedule: Option<Seq<char>>) -> bool {
    &&& trim_seq(match schedule {
        Some(s) => s,
        None => Seq::<char>::empty(),
    }).len() == 0
    &&& !contains_seq(content, "- [ ]"@)
}

/// Whether a drained document is moved to history.
pub fn should_archive_thread(content: &str, schedule: Option<&str>) -> (r: bool)
    ensures
        r == archive_decision(
            content@,
            match schedule {
                Some(s) => Some(s@),
                None => None,
            },
        ),
{
    let schedule_value = match schedule {
        Some(s) => trim(s),
        None => {
            proof {
                assert(trim_seq(Seq::<char>::empty()).len() == 0);
            }
            String::new()
        },
    };
    if schedule_value.as_str().unicode_len() != 0 {
        return false;
    }
    !contains_str(content, "- [ ]")
}

/// Where an archived thread goes: a dated history folder beside the file.
pub open spec fn history_destination_spec(
    parent: Seq<char>,
    file_name: Seq<char>,
    date: Seq<char>,
) -> Seq<char> {
    parent + "/history/"@ + date + "/"@ + file_name
}

/// The archive destination `<parent>/history/<date>/<file-name>`.
pub fn history_destination(parent: &str, file_name: &str, date: &str) -> (r: String)
    ensures
        r@ == history_destination_spec(parent@, file_name@, date@),
{
    let mut r = String::from_str(parent);
    r.append("/history/");
    r.append(date);
    r.append("/");
    r.append(file_name);
    r
}

/// What kind of thread a file is; files that are neither kind are ignored.
#[derive(Debug)]
pub enum ThreadKind {
    ConversationalLog,
    TaskDocument(TaskHeader),
    Ignored,
}

/// Classifies a thread by its name and content: date-named files are
/// conversational logs; files with a valid header are task documents;
/// everything else is ignored by the engine.
pub fn classify_thread(file_name: &str, content: &str) -> (r: ThreadKind)
    ensures
        conversational_log_name(file_name@) ==> r == ThreadKind::ConversationalLog,
        !conversational_log_name(file_name@) ==> match r {
            ThreadKind::ConversationalLog => false,
            ThreadKind::TaskDocument(h) => {
                &&& parsed_fields(content@) is Some
                &&& header_field(content@, "status"@) is Some
                &&& h.status@ == header_field(content@, "status"@)->0
                &&& crate::context::opt_view(h.schedule) == header_field(content@, "schedule"@)
                &&& crate::context::opt_view(h.injection_template) == header_field(
                    content@,
                    "injection_template"@,
                )
                &&& crate::context::opt_view(h.origin_channel) == header_field(
                    content@,
                    "origin_channel"@,
                )
            },
            ThreadKind::Ignored => !(parsed_fields(content@) is Some && header_field(
                content@,
                "status"@,
            ) is Some),
        },
{
    if is_conversational_log(file_name) {
        return ThreadKind::ConversationalLog;
    }
    match parse_task_document(content) {
        Some((header, _)) => ThreadKind::TaskDocument(header),
        None => ThreadKind::Ignored,
    }
}

/// The entry persisted for a delivered conversational answer.
pub fn response_entry(
    bot_name: &str,
    bot_id: &str,
    timestamp: &str,
    msg_id: &str,
    result: &str,
) -> (r: String)
    ensures
        r@ == "\n---\n**Author**: "@ + bot_name@ + " (ID: "@ + bot_id@ + ") | **Time**: "@
            + timestamp@ + " | **Message ID**: "@ + msg_id@ + "\n\n"@ + result@ + "\n"@,
{
    let mut r = String::from_str("\n---\n**Author**: ");
    r.append(bot_name);
    r.append(" (ID: ");
    r.append(bot_id);
    r.append(") | **Time**: ");
    r.append(timestamp);
    r.append(" | **Message ID**: ");
    r.append(msg_id);
    r.append("\n\n");
    r.append(result);
    r.append("\n");
    r
}

/// The entry persisted when the answer could not be delivered.
pub fn fallback_entry(timestamp: &str, result: &str) -> (r: String)
    ensures
        r@ == "\n\n> [Tellar] ("@ + timestamp@ + "): "@ + result@ + "\n"@,
{
    let mut r = String::from_str("\n\n> [Tellar] (");
    r.append(timestamp);
    r.append("): ");
    r.append(result);
    r.append("\n");
    r
}

/// The entry persisted when a thread execution failed.
pub fn error_entry(timestamp: &str, error: &str) -> (r: String)
    ensures
        r@ == "\n\n> [Tellar] ("@ + timestamp@ + "): \u{274c} Error processing request: "@
            + error@,
{
    let mut r = String::from_str("\n\n> [Tellar] (");
    r.append(timestamp);
    r.append("): \u{274c} Error processing request: ");
    r.append(error);
    r
}

} // verus!
