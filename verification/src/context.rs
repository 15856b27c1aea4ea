//! Blackboard parsing and steering: extracting externally authored message
//! blocks from a thread file and injecting new ones into a running session.

use vstd::prelude::*;

use crate::messages::{is_text_message, Message, MessageRole, MultimodalPart};
use crate::text::{contains_seq, contains_str, find_seq, find_str, lemma_find_seq_bounds,
    match_at, substring, trim, trim_seq};

verus! {

/// The author blocks of a blackboard, scanned left to right: each block is
/// `**Author**: <author> | **Time** ...` followed by a blank line and one
/// body line; the scan resumes after each block's body line.
pub open spec fn author_blocks(s: Seq<char>, pos: int) -> Seq<(Seq<char>, Seq<char>)>
    decreases s.len() - pos,
    when 0 <= pos
    via author_blocks_decreases
{
    match find_seq(s, "**Author**: "@, pos) {
        None => seq![],
        Some(a) => {
            let astart = a + "**Author**: "@.len();
            match find_seq(s, " | **Time**"@, astart) {
                None => seq![],
                Some(t) => {
                    let tend = t + " | **Time**"@.len();
                    match find_seq(s, "\n\n"@, tend) {
                        None => seq![],
                        Some(b) => {
                            let bstart = b + "\n\n"@.len();
                            match find_seq(s, "\n"@, bstart) {
                                None => seq![],
                                Some(e) => seq![(s.subrange(astart, t), s.subrange(bstart, e))]
                                    + author_blocks(s, e + 1),
                            }
                        },
                    }
                },
            }
        },
    }
}

#[via_fn]
proof fn author_blocks_decreases(s: Seq<char>, pos: int) {
    reveal_strlit("**Author**: ");
    reveal_strlit(" | **Time**");
    reveal_strlit("\n\n");
    reveal_strlit("\n");
    match find_seq(s, "**Author**: "@, pos) {
        None => {},
        Some(a) => {
            lemma_find_seq_bounds(s, "**Author**: "@, pos, a);
            let astart = a + "**Author**: "@.len();
            match find_seq(s, " | **Time**"@, astart) {
                None => {},
                Some(t) => {
                    lemma_find_seq_bounds(s, " | **Time**"@, astart, t);
                    let tend = t + " | **Time**"@.len();
                    match find_seq(s, "\n\n"@, tend) {
                        None => {},
                        Some(b) => {
                            lemma_find_seq_bounds(s, "\n\n"@, tend, b);
                            let bstart = b + "\n\n"@.len();
                            match find_seq(s, "\n"@, bstart) {
                                None => {},
                                Some(e) => {
                                    lemma_find_seq_bounds(s, "\n"@, bstart, e);
                                },
                            }
                        },
                    }
                },
            }
        },
    }
}

/// The views of a vector of author blocks.
pub open spec fn block_views(v: Seq<(String, String)>) -> Seq<(Seq<char>, Seq<char>)> {
    v.map_values(|p: (String, String)| (p.0@, p.1@))
}

/// Extracts every author block of a blackboard, in order.
pub fn extract_author_blocks(s: &str) -> (r: Vec<(String, String)>)
    ensures
        block_views(r@) == author_blocks(s@, 0),
{
    let n = s.unicode_len();
    let mut res: Vec<(String, String)> = Vec::new();
    let mut pos: usize = 0;
    proof {
        assert(block_views(res@) + author_blocks(s@, 0) =~= author_blocks(s@, 0));
    }
    loop
        invariant
            n == s@.len(),
            0 <= pos <= n,
            block_views(res@) + author_blocks(s@, pos as int) == author_blocks(s@, 0),
        ensures
            block_views(res@) == author_blocks(s@, 0),
        decreases n - pos,
    {
        let a = match find_str(s, "**Author**: ", pos) {
            None => {
                proof {
                    assert(author_blocks(s@, pos as int) =~= Seq::<(Seq<char>, Seq<char>)>::empty());
                    assert(block_views(res@) + author_blocks(s@, pos as int) =~= block_views(res@));
                }
                break;
            },
            Some(a) => a,
        };
        proof {
            lemma_find_seq_bounds(s@, "**Author**: "@, pos as int, a as int);
        }
        let albl: &str = "**Author**: ";
        let astart = a + albl.unicode_len();
        let t = match find_str(s, " | **Time**", astart) {
            None => {
                proof {
                    assert(author_blocks(s@, pos as int) =~= Seq::<(Seq<char>, Seq<char>)>::empty());
                    assert(block_views(res@) + author_blocks(s@, pos as int) =~= block_views(res@));
                }
                break;
            },
            Some(t) => t,
        };
        proof {
            lemma_find_seq_bounds(s@, " | **Time**"@, astart as int, t as int);
        }
        let tlbl: &str = " | **Time**";
        let tend = t + tlbl.unicode_len();
        let b = match find_str(s, "\n\n", tend) {
            None => {
                proof {
                    assert(author_blocks(s@, pos as int) =~= Seq::<(Seq<char>, Seq<char>)>::empty());
                    assert(block_views(res@) + author_blocks(s@, pos as int) =~= block_views(res@));
                }
                break;
            },
            Some(b) => b,
        };
        proof {
            lemma_find_seq_bounds(s@, "\n\n"@, tend as int, b as int);
        }
        let blbl: &str = "\n\n";
        let bstart = b + blbl.unicode_len();
        let e = match find_str(s, "\n", bstart) {
            None => {
                proof {
                    assert(author_blocks(s@, pos as int) =~= Seq::<(Seq<char>, Seq<char>)>::empty());
                    assert(block_views(res@) + author_blocks(s@, pos as int) =~= block_views(res@));
                }
                break;
            },
            Some(e) => e,
        };
        proof {
            lemma_find_seq_bounds(s@, "\n"@, bstart as int, e as int);
            reveal_strlit("**Author**: ");
            reveal_strlit(" | **Time**");
            reveal_strlit("\n\n");
            reveal_strlit("\n");
        }
        let author = substring(s, astart, t);
        let body = substring(s, bstart, e);
        let ghost prev = res@;
        res.push((author, body));
        proof {
            assert(block_views(res@) =~= block_views(prev).push(
                (s@.subrange(astart as int, t as int), s@.subrange(bstart as int, e as int)),
            ));
            assert(author_blocks(s@, pos as int) == seq![
                (s@.subrange(astart as int, t as int), s@.subrange(bstart as int, e as int)),
            ] + author_blocks(s@, e + 1));
            assert(block_views(res@) + author_blocks(s@, e + 1) =~= block_views(prev)
                + author_blocks(s@, pos as int));
        }
        pos = e + 1;
    }
    res
}

/// The most recent externally authored body: the last block whose author is
/// not the engine itself, trimmed.
pub open spec fn last_external_body(blocks: Seq<(Seq<char>, Seq<char>)>) -> Option<Seq<char>>
    decreases blocks.len(),
{
    if blocks.len() == 0 {
        None
    } else if !contains_seq(blocks.last().0, "Tellar"@) {
        Some(trim_seq(blocks.last().1))
    } else {
        last_external_body(blocks.drop_last())
    }
}

/// The most recent externally authored message of a blackboard.
pub open spec fn steering_candidate(content: Seq<char>) -> Option<Seq<char>> {
    last_external_body(author_blocks(content, 0))
}

/// The text of the most recent user-role message of a session, when that
/// message's first part is plain text.
pub open spec fn last_user_text(ms: Seq<Message>) -> Option<Seq<char>>
    decreases ms.len(),
{
    if ms.len() == 0 {
        None
    } else if ms.last().role == MessageRole::User {
        if ms.last().parts@.len() >= 1 && ms.last().parts@[0].text is Some {
            Some(ms.last().parts@[0].text->0@)
        } else {
            None
        }
    } else {
        last_user_text(ms.drop_last())
    }
}

/// Steering appends at most one message: when the blackboard's most recent
/// externally authored body differs from the session's last user message,
/// exactly that body is appended as a new user message; otherwise the
/// session is unchanged.
pub open spec fn steering_post(
    old_ms: Seq<Message>,
    new_ms: Seq<Message>,
    content: Seq<char>,
) -> bool {
    match steering_candidate(content) {
        Some(b) => {
            if last_user_text(old_ms) != Some(b) {
                &&& new_ms.len() == old_ms.len() + 1
                &&& new_ms.drop_last() == old_ms
                &&& is_text_message(new_ms.last(), MessageRole::User, b)
            } else {
                new_ms == old_ms
            }
        },
        None => new_ms == old_ms,
    }
}

/// Rereads the blackboard content and injects a newly appended external
/// message into the session, so a running agent loop sees it.
pub fn update_history_with_steering(messages: &mut Vec<Message>, content: &str) -> (r: ())
    ensures
        steering_post(old(messages)@, final(messages)@, content@),
{
    let blocks = extract_author_blocks(content);

    // Last block not authored by the engine, scanned from the end.
    let mut cand: Option<String> = None;
    let mut i = blocks.len();
    proof {
        assert(block_views(blocks@).take(i as int) =~= block_views(blocks@));
    }
    while i > 0
        invariant_except_break
            cand is None,
        invariant
            0 <= i <= blocks@.len(),
            last_external_body(block_views(blocks@)) == last_external_body(
                block_views(blocks@).take(i as int),
            ),
        ensures
            match cand {
                Some(c) => last_external_body(block_views(blocks@)) == Some(c@),
                None => last_external_body(block_views(blocks@)) is None,
            },
        decreases i,
    {
        let ghost bv = block_views(blocks@);
        if !contains_str(blocks[i - 1].0.as_str(), "Tellar") {
            cand = Some(trim(blocks[i - 1].1.as_str()));
            proof {
                assert(bv.take(i as int).last() == bv[i - 1]);
                assert(last_external_body(bv.take(i as int)) == Some(trim_seq(bv[i - 1].1)));
            }
            break;
        }
        proof {
            assert(bv.take(i as int).last() == bv[i - 1]);
            assert(bv.take(i as int).drop_last() =~= bv.take(i - 1));
        }
        i = i - 1;
    }

    let new_msg = match cand {
        Some(b) => b,
        None => {
            return ;
        },
    };

    // Last user-role message of the session, scanned from the end.
    let mut last_user: Option<&String> = None;
    let mut j = messages.len();
    proof {
        assert(messages@.take(j as int) =~= messages@);
    }
    while j > 0
        invariant_except_break
            last_user is None,
        invariant
            0 <= j <= messages@.len(),
            last_user_text(messages@) == last_user_text(messages@.take(j as int)),
        ensures
            last_user_text(messages@) == (match last_user {
                Some(s) => Some(s@),
                None => None::<Seq<char>>,
            }),
        decreases j,
    {
        let m = &messages[j - 1];
        proof {
            assert(messages@.take(j as int).last() == messages@[j - 1]);
            assert(messages@.take(j as int).drop_last() =~= messages@.take(j - 1));
        }
        if matches!(m.role, MessageRole::User) {
            if m.parts.len() >= 1 {
                match &m.parts[0].text {
                    Some(t) => {
                        last_user = Some(t);
                    },
                    None => {},
                }
            }
            break;
        }
        j = j - 1;
    }

    let differs = match last_user {
        Some(t) => !crate::text::str_eq(new_msg.as_str(), t.as_str()),
        None => true,
    };

    if differs {
        let m = Message { role: MessageRole::User, parts: vec![MultimodalPart::text(new_msg)] };
        messages.push(m);
        proof {
            assert(final(messages)@.drop_last() =~= old(messages)@);
        }
    }
}

/// Splits a document into its delimited header block and its body: the
/// document must begin with the delimiter, and the header runs to the next
/// one; the body is what follows, trimmed.
pub open spec fn doc_parts(s: Seq<char>) -> Option<(Seq<char>, Seq<char>)> {
    if !(s.len() >= "---"@.len() && s.subrange(0, "---"@.len() as int) == "---"@) {
        None
    } else {
        match find_seq(s, "---"@, "---"@.len() as int) {
            None => None,
            Some(j) => Some(
                (s.subrange("---"@.len() as int, j), trim_seq(s.skip(j + "---"@.len()))),
            ),
        }
    }
}

/// A quoted header value with its quotes stripped.
pub open spec fn unquote(v: Seq<char>) -> Seq<char> {
    if v.len() >= 2 && ((v.first() == '"' && v.last() == '"') || (v.first() == '\'' && v.last()
        == '\'')) {
        v.subrange(1, v.len() - 1)
    } else {
        v
    }
}

/// The key–value pairs of a header block, line by line; `None` when a
/// non-blank line has no colon.
pub open spec fn header_fields(h: Seq<char>) -> Option<Seq<(Seq<char>, Seq<char>)>>
    decreases h.len(),
    via header_fields_decreases
{
    if h.len() == 0 {
        Some(seq![])
    } else {
        let line = match find_seq(h, "\n"@, 0) {
            Some(i) => h.subrange(0, i),
            None => h,
        };
        let rest = match find_seq(h, "\n"@, 0) {
            Some(i) => h.skip(i + "\n"@.len()),
            None => Seq::<char>::empty(),
        };
        let tail = header_fields(rest);
        if trim_seq(line).len() == 0 {
            tail
        } else {
            match find_seq(line, ":"@, 0) {
                None => None,
                Some(c) => match tail {
                    None => None,
                    Some(fs) => Some(
                        seq![
                            (trim_seq(line.subrange(0, c)), unquote(
                                trim_seq(line.skip(c + ":"@.len())),
                            )),
                        ] + fs,
                    ),
                },
            }
        }
    }
}

#[via_fn]
proof fn header_fields_decreases(h: Seq<char>) {
    reveal_strlit("\n");
    if h.len() > 0 {
        match find_seq(h, "\n"@, 0) {
            Some(i) => {
                lemma_find_seq_bounds(h, "\n"@, 0, i);
            },
            None => {},
        }
    }
}

/// The value bound to `key` in a header, by its first occurrence; a blank
/// value counts as absent.
pub open spec fn field_value(fs: Seq<(Seq<char>, Seq<char>)>, key: Seq<char>) -> Option<Seq<char>>
    decreases fs.len(),
{
    if fs.len() == 0 {
        None
    } else if fs.first().0 == key {
        if fs.first().1.len() == 0 {
            None
        } else {
            Some(fs.first().1)
        }
    } else {
        field_value(fs.drop_first(), key)
    }
}

/// The parsed header fields of a whole document.
pub open spec fn parsed_fields(content: Seq<char>) -> Option<Seq<(Seq<char>, Seq<char>)>> {
    match doc_parts(content) {
        None => None,
        Some(p) => header_fields(p.0),
    }
}

/// The value of one header field of a whole document.
pub open spec fn header_field(content: Seq<char>, key: Seq<char>) -> Option<Seq<char>> {
    match parsed_fields(content) {
        None => None,
        Some(fs) => field_value(fs, key),
    }
}

/// The view of an optional string.
pub open spec fn opt_view(o: Option<String>) -> Option<Seq<char>> {
    match o {
        Some(s) => Some(s@),
        None => None,
    }
}

fn unquote_string(v: String) -> (r: String)
    ensures
        r@ == unquote(v@),
{
    let n = v.as_str().unicode_len();
    if n >= 2 {
        let f = v.as_str().get_char(0);
        let l = v.as_str().get_char(n - 1);
        if (f == '"' && l == '"') || (f == '\'' && l == '\'') {
            return substring(v.as_str(), 1, n - 1);
        }
    }
    v
}

/// Parses a header block into its key–value pairs; `None` when a non-blank
/// line has no colon.
pub fn parse_header_fields(h: &str) -> (r: Option<Vec<(String, String)>>)
    ensures
        match r {
            Some(v) => header_fields(h@) == Some(block_views(v@)),
            None => header_fields(h@) is None,
        },
    decreases h@.len(),
{
    let n = h.unicode_len();
    if n == 0 {
        let out: Vec<(String, String)> = Vec::new();
        proof {
            assert(block_views(out@) =~= Seq::<(Seq<char>, Seq<char>)>::empty());
        }
        return Some(out);
    }
    let (line, rest): (String, String) = match find_str(h, "\n", 0) {
        Some(i) => {
            proof {
                lemma_find_seq_bounds(h@, "\n"@, 0, i as int);
                reveal_strlit("\n");
            }
            (substring(h, 0, i), substring(h, i + 1, n))
        },
        None => (String::from_str(h), String::new()),
    };
    proof {
        reveal_strlit("\n");
        match find_seq(h@, "\n"@, 0) {
            Some(i) => {
                assert(rest@ =~= h@.skip(i + 1));
            },
            None => {},
        }
    }
    let tail_opt = parse_header_fields(rest.as_str());
    let lt = trim(line.as_str());
    if lt.as_str().unicode_len() == 0 {
        return tail_opt;
    }
    let c = match find_str(line.as_str(), ":", 0) {
        None => {
            return None;
        },
        Some(c) => c,
    };
    let mut tail = match tail_opt {
        None => {
            return None;
        },
        Some(t) => t,
    };
    proof {
        lemma_find_seq_bounds(line@, ":"@, 0, c as int);
        reveal_strlit(":");
    }
    let ln = line.as_str().unicode_len();
    let key = trim(substring(line.as_str(), 0, c).as_str());
    let valraw = trim(substring(line.as_str(), c + 1, ln).as_str());
    let val = unquote_string(valraw);
    proof {
        assert(line@.subrange(c + 1, ln as int) =~= line@.skip(c + 1));
    }
    let mut out: Vec<(String, String)> = Vec::new();
    out.push((key, val));
    let ghost head = block_views(out@);
    let mut k: usize = 0;
    while k < tail.len()
        invariant
            0 <= k <= tail@.len(),
            block_views(out@) == head + block_views(tail@).take(k as int),
            head.len() == 1,
        decreases tail@.len() - k,
    {
        let pair = (tail[k].0.clone(), tail[k].1.clone());
        out.push(pair);
        proof {
            assert(block_views(out@) =~= (head + block_views(tail@).take(k as int)).push(
                block_views(tail@)[k as int],
            ));
            assert((head + block_views(tail@).take(k as int)).push(block_views(tail@)[k as int])
                =~= head + block_views(tail@).take(k + 1));
        }
        k = k + 1;
    }
    proof {
        assert(block_views(tail@).take(tail@.len() as int) =~= block_views(tail@));
        assert(block_views(out@) =~= head + block_views(tail@));
    }
    Some(out)
}

/// The value bound to `key` among parsed fields, by its first occurrence; a
/// blank value counts as absent.
pub fn get_field(fields: &Vec<(String, String)>, key: &str) -> (r: Option<String>)
    ensures
        opt_view(r) == field_value(block_views(fields@), key@),
{
    let ghost bv = block_views(fields@);
    let mut k: usize = 0;
    proof {
        assert(bv.skip(0) =~= bv);
    }
    while k < fields.len()
        invariant
            0 <= k <= fields@.len(),
            bv == block_views(fields@),
            field_value(bv, key@) == field_value(bv.skip(k as int), key@),
        ensures
            k <= fields@.len(),
            k < fields@.len() ==> {
                &&& fields@[k as int].0@ == key@
                &&& field_value(bv, key@) == (if fields@[k as int].1@.len() == 0 {
                    None
                } else {
                    Some(fields@[k as int].1@)
                })
            },
            k == fields@.len() ==> field_value(bv, key@) is None,
        decreases fields@.len() - k,
    {
        proof {
            assert(bv.skip(k as int).first() == bv[k as int]);
            assert(bv.skip(k as int).drop_first() =~= bv.skip(k + 1));
        }
        if crate::text::str_eq(fields[k].0.as_str(), key) {
            break;
        }
        k = k + 1;
    }
    if k < fields.len() {
        if fields[k].1.as_str().unicode_len() == 0 {
            None
        } else {
            Some(fields[k].1.clone())
        }
    } else {
        None
    }
}

/// The declared header of a task document.
#[derive(Clone, Debug)]
pub struct TaskHeader {
    pub status: String,
    pub schedule: Option<String>,
    pub injection_template: Option<String>,
    pub origin_channel: Option<String>,
}

/// Parses a thread file as a task document: it must begin with a delimited
/// header block whose `status` field is present; the result carries the
/// header and the trimmed body. Files without such a header are no task
/// documents.
pub fn parse_task_document(content: &str) -> (r: Option<(TaskHeader, String)>)
    ensures
        r is Some <==> (parsed_fields(content@) is Some && header_field(content@, "status"@)
            is Some),
        r is Some ==> {
            &&& (r->0).0.status@ == header_field(content@, "status"@)->0
            &&& opt_view((r->0).0.schedule) == header_field(content@, "schedule"@)
            &&& opt_view((r->0).0.injection_template) == header_field(
                content@,
                "injection_template"@,
            )
            &&& opt_view((r->0).0.origin_channel) == header_field(content@, "origin_channel"@)
            &&& (r->0).1@ == (doc_parts(content@)->0).1
        },
{
    if !crate::text::starts_with(content, "---") {
        return None;
    }
    let n = content.unicode_len();
    let dlbl: &str = "---";
    let dl = dlbl.unicode_len();
    let j = match find_str(content, "---", dl) {
        None => {
            return None;
        },
        Some(j) => j,
    };
    proof {
        lemma_find_seq_bounds(content@, "---"@, dl as int, j as int);
    }
    let header_str = substring(content, dl, j);
    let body = trim(substring(content, j + dl, n).as_str());
    proof {
        assert(content@.subrange(j + dl, n as int) =~= content@.skip(j + "---"@.len()));
    }
    let fields = match parse_header_fields(header_str.as_str()) {
        None => {
            return None;
        },
        Some(f) => f,
    };
    let status = match get_field(&fields, "status") {
        None => {
            return None;
        },
        Some(s) => s,
    };
    let schedule = get_field(&fields, "schedule");
    let injection_template = get_field(&fields, "injection_template");
    let origin_channel = get_field(&fields, "origin_channel");
    Some((TaskHeader { status, schedule, injection_template, origin_channel }, body))
}

/// A conversational log is named by its date, exactly: four digits, a
/// dash, two digits, a dash, two digits, and the markdown suffix.
pub open spec fn conversational_log_name(n: Seq<char>) -> bool {
    &&& n.len() == 13
    &&& crate::text::is_digit(n[0]) && crate::text::is_digit(n[1]) && crate::text::is_digit(n[2])
        && crate::text::is_digit(n[3])
    &&& n[4] == '-'
    &&& crate::text::is_digit(n[5]) && crate::text::is_digit(n[6])
    &&& n[7] == '-'
    &&& crate::text::is_digit(n[8]) && crate::text::is_digit(n[9])
    &&& n.subrange(10, 13) == ".md"@
}

/// Whether a file name marks a conversational log rather than a task
/// document.
pub fn is_conversational_log(file_name: &str) -> (r: bool)
    ensures
        r == conversational_log_name(file_name@),
{
    proof {
        reveal_strlit(".md");
    }
    if file_name.unicode_len() != 13 {
        return false;
    }
    if !crate::text::ends_with(file_name, ".md") {
        return false;
    }
    crate::text::digit_check(file_name.get_char(0)) && crate::text::digit_check(
        file_name.get_char(1),
    ) && crate::text::digit_check(file_name.get_char(2)) && crate::text::digit_check(
        file_name.get_char(3),
    ) && file_name.get_char(4) == '-' && crate::text::digit_check(file_name.get_char(5))
        && crate::text::digit_check(file_name.get_char(6)) && file_name.get_char(7) == '-'
        && crate::text::digit_check(file_name.get_char(8)) && crate::text::digit_check(
        file_name.get_char(9),
    )
}

} // verus!
