//! The rhythm scheduler's decisions: which files take part, what job a
//! file's own metadata calls for, and the remove-then-recreate job table.

use vstd::prelude::*;

use crate::context::{header_field, parsed_fields};
use crate::text::{ends_with, str_eq, replace_seq, substring};

verus! {

/// Metadata format of an autonomous thread file.
#[derive(Clone, Debug)]
pub struct ThreadMetadata {
    /// Anchor to the external recurring event; a precondition for
    /// scheduling.
    pub discord_event_id: Option<String>,
    /// Cron expression.
    pub schedule: Option<String>,
    /// What the fired job appends.
    pub injection_template: Option<String>,
    /// Bound channel.
    pub origin_channel: Option<String>,
}

/// Parses a thread file's metadata header; none of its fields is required,
/// but the delimited header block itself must parse.
pub fn parse_thread_metadata(content: &str) -> (r: Option<ThreadMetadata>)
    ensures
        r is Some <==> parsed_fields(content@) is Some,
        r is Some ==> {
            &&& crate::context::opt_view(r->0.discord_event_id) == header_field(
                content@,
                "discord_event_id"@,
            )
            &&& crate::context::opt_view(r->0.schedule) == header_field(content@, "schedule"@)
            &&& crate::context::opt_view(r->0.injection_template) == header_field(
                content@,
                "injection_template"@,
            )
            &&& crate::context::opt_view(r->0.origin_channel) == header_field(content@, "origin_channel"@)
        },
{
    if !crate::text::starts_with(content, "---") {
        return None;
    }
    let n = content.unicode_len();
    let dlbl: &str = "---";
    let dl = dlbl.unicode_len();
    let j = match crate::text::find_str(content, "---", dl) {
        None => {
            return None;
        },
        Some(j) => j,
    };
    proof {
        crate::text::lemma_find_seq_bounds(content@, "---"@, dl as int, j as int);
    }
    let header_str = substring(content, dl, j);
    let fields = match crate::context::parse_header_fields(header_str.as_str()) {
        None => {
            return None;
        },
        Some(f) => f,
    };
    let discord_event_id = crate::context::get_field(&fields, "discord_event_id");
    let schedule = crate::context::get_field(&fields, "schedule");
    let injection_template = crate::context::get_field(&fields, "injection_template");
    let origin_channel = crate::context::get_field(&fields, "origin_channel");
    Some(ThreadMetadata { discord_event_id, schedule, injection_template, origin_channel })
}

/// A date-named stream log: the same exact date pattern that marks a
/// conversational log.
pub open spec fn stream_log_name(n: Seq<char>) -> bool {
    crate::context::conversational_log_name(n)
}

/// Whether a file name is a date-named stream log.
pub fn is_stream_log_name(file_name: &str) -> (r: bool)
    ensures
        r == stream_log_name(file_name@),
{
    crate::context::is_conversational_log(file_name)
}

/// The knowledge file and date-named stream logs never take part in
/// scheduling.
pub open spec fn rhythm_ignored_name(n: Seq<char>) -> bool {
    n == "KNOWLEDGE.md"@ || stream_log_name(n)
}

/// Whether the rhythm passes over a file entirely.
pub fn should_ignore_rhythm_file(file_name: &str) -> (r: bool)
    ensures
        r == rhythm_ignored_name(file_name@),
{
    str_eq(file_name, "KNOWLEDGE.md") || is_stream_log_name(file_name)
}

/// What one resynchronisation must do for a path.
pub enum RitualAction {
    /// The file takes no part in scheduling; leave the table alone.
    Ignore,
    /// Remove any existing job and install none.
    RemoveOnly,
    /// Remove any existing job, then install one with this cron expression
    /// and injection template.
    Replace { schedule: String, template: String },
}

/// A job exists iff the file declares all three: the external anchor, a
/// non-blank schedule, and an injection template.
pub open spec fn ritual_job_called_for(content: Seq<char>) -> Option<(Seq<char>, Seq<char>)> {
    if parsed_fields(content) is Some && header_field(content, "discord_event_id"@) is Some
        && header_field(content, "schedule"@) is Some && header_field(
        content,
        "injection_template"@,
    ) is Some {
        Some(
            (header_field(content, "schedule"@)->0, header_field(
                content,
                "injection_template"@,
            )->0),
        )
    } else {
        None
    }
}

/// Decides what resynchronising this file means for the job table.
pub fn plan_ritual_sync(file_name: &str, content: &str) -> (r: RitualAction)
    ensures
        rhythm_ignored_name(file_name@) ==> r is Ignore,
        !rhythm_ignored_name(file_name@) ==> match r {
            RitualAction::Ignore => false,
            RitualAction::RemoveOnly => ritual_job_called_for(content@) is None,
            RitualAction::Replace { schedule, template } => ritual_job_called_for(content@)
                == Some((schedule@, template@)),
        },
{
    if should_ignore_rhythm_file(file_name) {
        return RitualAction::Ignore;
    }
    let meta = match parse_thread_metadata(content) {
        None => {
            return RitualAction::RemoveOnly;
        },
        Some(m) => m,
    };
    if meta.discord_event_id.is_none() {
        return RitualAction::RemoveOnly;
    }
    match (meta.schedule, meta.injection_template) {
        (Some(schedule), Some(template)) => RitualAction::Replace { schedule, template },
        _ => RitualAction::RemoveOnly,
    }
}

/// One installed job: its scheduler handle and what it was installed with.
#[derive(Clone, Debug)]
pub struct JobEntry {
    pub id: u128,
    pub schedule: String,
    pub template: String,
}

/// The job table: one job per thread path. Identity is the path; jobs are
/// always removed before a new one is conditionally installed.
pub struct JobTable {
    pub entries: Vec<(String, JobEntry)>,
}

impl JobTable {
    /// Some entry binds `p` to exactly this schedule and template.
    pub open spec fn binds(self, p: Seq<char>, s: Seq<char>, t: Seq<char>) -> bool {
        exists|i: int|
            0 <= i < self.entries@.len() && (#[trigger] self.entries@[i]).0@ == p
                && self.entries@[i].1.schedule@ == s && self.entries@[i].1.template@ == t
    }

    /// Some job is installed for `p`.
    pub open spec fn has_job(self, p: Seq<char>) -> bool {
        exists|i: int| 0 <= i < self.entries@.len() && (#[trigger] self.entries@[i]).0@ == p
    }

    /// At most one job per path.
    pub open spec fn wf(self) -> bool {
        forall|i: int, j: int|
            0 <= i < j < self.entries@.len() ==> (#[trigger] self.entries@[i]).0@ != (
            #[trigger] self.entries@[j]).0@
    }

    /// An empty table.
    pub fn new() -> (r: JobTable)
        ensures
            r.wf(),
            forall|q: Seq<char>| !r.has_job(q),
    {
        JobTable { entries: Vec::new() }
    }

    /// Removes the job installed for `path`, handing back its scheduler id
    /// so the caller can cancel it; no other path's job is touched.
    pub fn remove(&mut self, path: &str) -> (r: Option<u128>)
        requires
            old(self).wf(),
        ensures
            final(self).wf(),
            r is Some <==> old(self).has_job(path@),
            forall|q: Seq<char>|
                final(self).has_job(q) == (old(self).has_job(q) && q != path@),
            forall|q: Seq<char>, s: Seq<char>, t: Seq<char>|
                final(self).binds(q, s, t) == (old(self).binds(q, s, t) && q != path@),
    {
        let n = self.entries.len();
        let mut i: usize = 0;
        while i < n
            invariant
                old(self).wf(),
                *self == *old(self),
                n == self.entries@.len(),
                0 <= i <= n,
                forall|k: int| 0 <= k < i ==> (#[trigger] self.entries@[k]).0@ != path@,
            decreases n - i,
        {
            if str_eq(self.entries[i].0.as_str(), path) {
                let id = self.entries[i].1.id;
                let ghost prev = self.entries@;
                let ghost ig = i as int;
                self.entries.remove(i);
                proof {
                    assert(prev[ig].0@ == path@);
                    assert(self.entries@ =~= prev.subrange(0, ig) + prev.subrange(
                        ig + 1,
                        prev.len() as int,
                    ));
                    assert forall|k: int| 0 <= k < self.entries@.len() implies (
                    #[trigger] self.entries@[k]) == (if k < ig {
                        prev[k]
                    } else {
                        prev[k + 1]
                    }) by {}
                    assert(old(self).has_job(path@)) by {
                        assert(prev[ig].0@ == path@);
                    }
                    assert forall|q: Seq<char>|
                        final(self).has_job(q) == (old(self).has_job(q) && q != path@) by {
                        if final(self).has_job(q) {
                            let k = choose|k: int|
                                0 <= k < self.entries@.len() && (#[trigger] self.entries@[k]).0@
                                    == q;
                            if k < ig {
                                assert(prev[k].0@ == q);
                            } else {
                                assert(prev[k + 1].0@ == q);
                            }
                        }
                        if old(self).has_job(q) && q != path@ {
                            let k = choose|k: int|
                                0 <= k < prev.len() && (#[trigger] prev[k]).0@ == q;
                            if k < ig {
                                assert(self.entries@[k].0@ == q);
                            } else {
                                assert(k > ig);
                                assert(self.entries@[k - 1].0@ == q);
                            }
                        }
                    }
                    assert forall|q: Seq<char>, s: Seq<char>, t: Seq<char>|
                        final(self).binds(q, s, t) == (old(self).binds(q, s, t) && q != path@) by {
                        if final(self).binds(q, s, t) {
                            let k = choose|k: int|
                                0 <= k < self.entries@.len() && (#[trigger] self.entries@[k]).0@
                                    == q && self.entries@[k].1.schedule@ == s
                                    && self.entries@[k].1.template@ == t;
                            if k < ig {
                                assert(prev[k].0@ == q && prev[k].1.schedule@ == s
                                    && prev[k].1.template@ == t);
                            } else {
                                assert(prev[k + 1].0@ == q && prev[k + 1].1.schedule@ == s
                                    && prev[k + 1].1.template@ == t);
                            }
                        }
                        if old(self).binds(q, s, t) && q != path@ {
                            let k = choose|k: int|
                                0 <= k < prev.len() && (#[trigger] prev[k]).0@ == q
                                    && prev[k].1.schedule@ == s && prev[k].1.template@ == t;
                            if k < ig {
                                assert(self.entries@[k].0@ == q && self.entries@[k].1.schedule@
                                    == s && self.entries@[k].1.template@ == t);
                            } else {
                                assert(k > ig);
                                assert(self.entries@[k - 1].0@ == q && self.entries@[k
                                    - 1].1.schedule@ == s && self.entries@[k - 1].1.template@
                                    == t);
                            }
                        }
                    }
                }
                return Some(id);
            }
            i = i + 1;
        }
        None
    }

    /// Installs the newly created job for `path`; the caller has removed
    /// any previous one first.
    pub fn install(&mut self, path: &str, id: u128, schedule: String, template: String) -> (r: ())
        requires
            old(self).wf(),
            !old(self).has_job(path@),
        ensures
            final(self).wf(),
            forall|q: Seq<char>|
                final(self).has_job(q) == (old(self).has_job(q) || q == path@),
            forall|q: Seq<char>, s: Seq<char>, t: Seq<char>|
                final(self).binds(q, s, t) == (old(self).binds(q, s, t) || (q == path@ && s
                    == schedule@ && t == template@)),
    {
        let ghost prev = self.entries@;
        let ghost sg = schedule@;
        let ghost tg = template@;
        self.entries.push((String::from_str(path), JobEntry { id, schedule, template }));
        proof {
            assert(self.entries@[prev.len() as int].0@ == path@);
            assert(self.entries@[prev.len() as int].1.schedule@ == sg);
            assert(self.entries@[prev.len() as int].1.template@ == tg);
            assert forall|q: Seq<char>|
                final(self).has_job(q) == (old(self).has_job(q) || q == path@) by {
                if old(self).has_job(q) {
                    let k = choose|k: int| 0 <= k < prev.len() && (#[trigger] prev[k]).0@ == q;
                    assert(self.entries@[k].0@ == q);
                }
                if final(self).has_job(q) {
                    let k = choose|k: int|
                        0 <= k < self.entries@.len() && (#[trigger] self.entries@[k]).0@ == q;
                    if k < prev.len() {
                        assert(prev[k].0@ == q);
                    }
                }
            }
            assert forall|q: Seq<char>, s: Seq<char>, t: Seq<char>|
                final(self).binds(q, s, t) == (old(self).binds(q, s, t) || (q == path@ && s == sg
                    && t == tg)) by {
                if old(self).binds(q, s, t) {
                    let k = choose|k: int|
                        0 <= k < prev.len() && (#[trigger] prev[k]).0@ == q && prev[k].1.schedule@
                            == s && prev[k].1.template@ == t;
                    assert(self.entries@[k].0@ == q && self.entries@[k].1.schedule@ == s
                        && self.entries@[k].1.template@ == t);
                }
                if final(self).binds(q, s, t) {
                    let k = choose|k: int|
                        0 <= k < self.entries@.len() && (#[trigger] self.entries@[k]).0@ == q
                            && self.entries@[k].1.schedule@ == s && self.entries@[k].1.template@
                            == t;
                    if k < prev.len() {
                        assert(prev[k].0@ == q && prev[k].1.schedule@ == s && prev[k].1.template@
                            == t);
                    }
                }
            }
        }
    }

    /// Remove-then-recreate for one path, as one resynchronisation does it:
    /// any existing job is unconditionally removed, and a new one installed
    /// only when the plan calls for it. The removed scheduler id, if any, is
    /// handed back so the caller can cancel the old cron job.
    pub fn resync(&mut self, path: &str, plan: &RitualAction, new_id: u128) -> (r: Option<u128>)
        requires
            old(self).wf(),
            !(plan is Ignore),
        ensures
            final(self).wf(),
            r is Some <==> old(self).has_job(path@),
            forall|q: Seq<char>|
                q != path@ ==> final(self).has_job(q) == old(self).has_job(q),
            forall|q: Seq<char>, s: Seq<char>, t: Seq<char>|
                q != path@ ==> final(self).binds(q, s, t) == old(self).binds(q, s, t),
            final(self).has_job(path@) <==> plan is Replace,
            match plan {
                RitualAction::Replace { schedule, template } => forall|s: Seq<char>, t: Seq<char>|
                    final(self).binds(path@, s, t) == (s == schedule@ && t == template@),
                _ => forall|s: Seq<char>, t: Seq<char>| !final(self).binds(path@, s, t),
            },
    {
        let removed = self.remove(path);
        match plan {
            RitualAction::Replace { schedule, template } => {
                self.install(path, new_id, schedule.clone(), template.clone());
            },
            _ => {},
        }
        removed
    }
}

/// Resynchronisation is idempotent under unchanged metadata: a second
/// resync of the same path with the same plan leaves every path bound — or
/// not bound — exactly as the first left it: one job per path, with the
/// same schedule, never two.
pub proof fn lemma_resync_idempotent(
    t1: JobTable,
    t2: JobTable,
    p: Seq<char>,
    plan: RitualAction,
)
    requires
        !(plan is Ignore),
        // `t2` is the outcome of resyncing `p` with `plan` starting from `t1`,
        // itself already the outcome of such a resync.
        forall|q: Seq<char>| q != p ==> t2.has_job(q) == t1.has_job(q),
        forall|q: Seq<char>, s: Seq<char>, t: Seq<char>|
            q != p ==> t2.binds(q, s, t) == t1.binds(q, s, t),
        t1.has_job(p) <==> plan is Replace,
        t2.has_job(p) <==> plan is Replace,
        match plan {
            RitualAction::Replace { schedule, template } => (forall|s: Seq<char>, t: Seq<char>|
                t1.binds(p, s, t) == (s == schedule@ && t == template@)) && (forall|
                s: Seq<char>,
                t: Seq<char>,
            |
                t2.binds(p, s, t) == (s == schedule@ && t == template@)),
            _ => (forall|s: Seq<char>, t: Seq<char>| !t1.binds(p, s, t)) && (forall|
                s: Seq<char>,
                t: Seq<char>,
            |
                !t2.binds(p, s, t)),
        },
    ensures
        forall|q: Seq<char>| t2.has_job(q) == t1.has_job(q),
        forall|q: Seq<char>, s: Seq<char>, t: Seq<char>| t2.binds(q, s, t) == t1.binds(q, s, t),
{
}

/// The block a fired job appends, and the status flip it performs: the
/// injection template under a timestamped marker, and any waiting marker
/// turned active.
pub open spec fn ghost_injection_spec(
    content: Seq<char>,
    timestamp: Seq<char>,
    template: Seq<char>,
) -> Seq<char> {
    replace_seq(
        content + "\n\n--- [Ghostly Injection: "@ + timestamp + "] ---\n"@ + template,
        "status: waiting_for_human"@,
        "status: active"@,
    )
}

/// What a fired job writes back: the file content with the injection block
/// appended and the waiting marker flipped to active.
pub fn apply_ghost_injection(content: &str, timestamp: &str, template: &str) -> (r: String)
    ensures
        r@ == ghost_injection_spec(content@, timestamp@, template@),
{
    let mut grown = String::from_str(content);
    grown.append("\n\n--- [Ghostly Injection: ");
    grown.append(timestamp);
    grown.append("] ---\n");
    grown.append(template);
    crate::text::replace_all(grown.as_str(), "status: waiting_for_human", "status: active")
}

/// Directories the startup scan does not descend into.
pub fn is_rhythm_scan_dir(dir_name: &str) -> (r: bool)
    ensures
        r == !(dir_name@ == "history"@ || dir_name@ == "brain"@),
{
    !(str_eq(dir_name, "history") || str_eq(dir_name, "brain"))
}

/// Files the startup scan takes as candidate ritual threads.
pub fn is_rhythm_thread_file(file_name: &str) -> (r: bool)
    ensures
        r == (file_name@.len() >= 3 && file_name@.subrange(
            file_name@.len() - 3,
            file_name@.len() as int,
        ) == ".md"@ && !rhythm_ignored_name(file_name@)),
{
    proof {
        reveal_strlit(".md");
    }
    ends_with(file_name, ".md") && !should_ignore_rhythm_file(file_name)
}

} // verus!
