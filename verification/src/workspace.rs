//! Workspace naming: channel folders carry their external channel id as a
//! suffix, blackboards may embed local images, and inline images travel
//! base64-encoded.

use vstd::prelude::*;

use crate::context::{header_field, parsed_fields};
use crate::messages::MultimodalPart;
use crate::text::is_digit;
use crate::text::{find_seq, find_str, lemma_find_seq_bounds, substring};

verus! {

/// The folder name for a channel: the channel's name and the last six
/// characters of its id.
pub open spec fn folder_name_spec(name: Seq<char>, id: Seq<char>) -> Seq<char> {
    let suffix = if id.len() >= 6 {
        id.skip(id.len() - 6)
    } else {
        id
    };
    name + " ("@ + suffix + ")"@
}

/// Builds the folder name `<name> (<id-suffix>)`.
pub fn to_folder_name(name: &str, id: &str) -> (r: String)
    ensures
        r@ == folder_name_spec(name@, id@),
{
    let n = id.unicode_len();
    let suffix = if n >= 6 {
        substring(id, n - 6, n)
    } else {
        String::from_str(id)
    };
    proof {
        if n >= 6 {
            assert(id@.subrange(n - 6, n as int) =~= id@.skip(id@.len() - 6));
        }
    }
    let mut r = String::from_str(name);
    r.append(" (");
    r.append(suffix.as_str());
    r.append(")");
    r
}

/// `p` opens a digit-suffix anchor: an opening parenthesis, at least one
/// digit, and the closing parenthesis as the folder name's last character.
pub open spec fn id_suffix_at(n: Seq<char>, p: int) -> bool {
    &&& 0 <= p < n.len() - 2
    &&& n[p] == '('
    &&& n.last() == ')'
    &&& forall|k: int| p < k < n.len() - 1 ==> is_digit(#[trigger] n[k])
}

/// Reads the channel id out of a folder name ending in `(<digits>)`.
pub fn extract_id_from_folder(folder_name: &str) -> (r: Option<String>)
    ensures
        match r {
            Some(id) => exists|p: int|
                #[trigger] id_suffix_at(folder_name@, p) && id@ == folder_name@.subrange(
                    p + 1,
                    folder_name@.len() - 1,
                ),
            None => forall|p: int| !id_suffix_at(folder_name@, p),
        },
{
    let n = folder_name.unicode_len();
    if n < 3 {
        return None;
    }
    if folder_name.get_char(n - 1) != ')' {
        return None;
    }
    let mut k: usize = n - 1;
    while k > 0 && '0' <= folder_name.get_char(k - 1) && folder_name.get_char(k - 1) <= '9'
        invariant
            n == folder_name@.len(),
            3 <= n,
            0 <= k <= n - 1,
            forall|j: int| k <= j < n - 1 ==> is_digit(#[trigger] folder_name@[j]),
        decreases k,
    {
        k = k - 1;
    }
    // `k` is the first index of the digit run ending at the closing paren.
    if k == 0 || k == n - 1 || folder_name.get_char(k - 1) != '(' {
        proof {
            assert forall|p: int| !id_suffix_at(folder_name@, p) by {
                if 0 <= p < n - 2 && folder_name@[p] == '(' && forall|j: int|
                    p < j < n - 1 ==> is_digit(#[trigger] folder_name@[j]) {
                    // Any valid anchor would sit exactly before the digit run.
                    if p >= k {
                        assert(is_digit(folder_name@[p]));
                        assert(false);
                    } else {
                        if k == n - 1 {
                            assert(p < n - 2);
                            assert(is_digit(folder_name@[n - 2]));
                            assert(k > 0 ==> !is_digit(folder_name@[k - 1]));
                            assert(false);
                        } else if p < k - 1 {
                            assert(is_digit(folder_name@[k - 1]));
                            assert(false);
                        } else {
                            assert(p == k - 1);
                            assert(false);
                        }
                    }
                }
            }
        }
        return None;
    }
    let id = substring(folder_name, k, n - 1);
    proof {
        assert(id_suffix_at(folder_name@, k - 1)) by {
            assert(folder_name@[n - 1] == ')');
            assert(folder_name@.last() == ')');
        }
    }
    Some(id)
}

/// The channel id a thread belongs to: the header's bound channel when it
/// names one, else the id encoded in the parent folder's name, else the
/// null channel.
pub fn extract_channel_id(content: &str, parent_folder: &str) -> (r: String)
    ensures
        ({
            let origin = header_field(content@, "origin_channel"@);
            let bound = parsed_fields(content@) is Some && header_field(content@, "status"@)
                is Some && origin is Some && origin != Some("0"@);
            if bound {
                r@ == origin->0
            } else {
                (exists|p: int|
                    #[trigger] id_suffix_at(parent_folder@, p) && r@ == parent_folder@.subrange(
                        p + 1,
                        parent_folder@.len() - 1,
                    )) || ((forall|p: int| !id_suffix_at(parent_folder@, p)) && r@ == "0"@)
            }
        }),
{
    proof {
        reveal_strlit("0");
    }
    match crate::context::parse_task_document(content) {
        Some((header, _)) => {
            match header.origin_channel {
                Some(origin) => {
                    if !crate::text::str_eq(origin.as_str(), "0") {
                        return origin;
                    }
                },
                None => {},
            }
        },
        None => {},
    }
    match extract_id_from_folder(parent_folder) {
        Some(id) => id,
        None => String::from_str("0"),
    }
}

/// The embedded local-image references of a blackboard: each is written
/// `(local: [file://<path>])` with the path on one line; the scan resumes
/// after each reference.
pub open spec fn local_image_paths(s: Seq<char>, pos: int) -> Seq<Seq<char>>
    decreases s.len() - pos,
    when 0 <= pos
    via local_image_paths_decreases
{
    match find_seq(s, "(local: [file://"@, pos) {
        None => seq![],
        Some(m) => {
            let pstart = m + "(local: [file://"@.len();
            match find_seq(s, "])"@, pstart) {
                None => seq![],
                Some(e) => {
                    let captured = s.subrange(pstart, e);
                    if crate::delivery::contains_char(captured, '\n') {
                        local_image_paths(s, m + 1)
                    } else {
                        seq![captured] + local_image_paths(s, e + "])"@.len())
                    }
                },
            }
        },
    }
}

#[via_fn]
proof fn local_image_paths_decreases(s: Seq<char>, pos: int) {
    reveal_strlit("(local: [file://");
    reveal_strlit("])");
    match find_seq(s, "(local: [file://"@, pos) {
        None => {},
        Some(m) => {
            lemma_find_seq_bounds(s, "(local: [file://"@, pos, m);
            let pstart = m + "(local: [file://"@.len();
            match find_seq(s, "])"@, pstart) {
                None => {},
                Some(e) => {
                    lemma_find_seq_bounds(s, "])"@, pstart, e);
                },
            }
        },
    }
}

/// Collects the embedded local-image paths of a blackboard, in order.
pub fn extract_local_image_paths(text: &str) -> (r: Vec<String>)
    ensures
        r@.map_values(|s: String| s@) == local_image_paths(text@, 0),
{
    let n = text.unicode_len();
    let mut res: Vec<String> = Vec::new();
    let mut pos: usize = 0;
    proof {
        assert(res@.map_values(|s: String| s@) + local_image_paths(text@, 0) =~= local_image_paths(
            text@,
            0,
        ));
    }
    loop
        invariant
            n == text@.len(),
            0 <= pos <= n,
            res@.map_values(|s: String| s@) + local_image_paths(text@, pos as int)
                == local_image_paths(text@, 0),
        ensures
            res@.map_values(|s: String| s@) == local_image_paths(text@, 0),
        decreases n - pos,
    {
        let m = match find_str(text, "(local: [file://", pos) {
            None => {
                proof {
                    assert(local_image_paths(text@, pos as int) =~= Seq::<Seq<char>>::empty());
                    assert(res@.map_values(|s: String| s@) + local_image_paths(text@, pos as int)
                        =~= res@.map_values(|s: String| s@));
                }
                break;
            },
            Some(m) => m,
        };
        proof {
            lemma_find_seq_bounds(text@, "(local: [file://"@, pos as int, m as int);
            reveal_strlit("(local: [file://");
            reveal_strlit("])");
        }
        let mlbl: &str = "(local: [file://";
        let pstart = m + mlbl.unicode_len();
        let e = match find_str(text, "])", pstart) {
            None => {
                proof {
                    assert(local_image_paths(text@, pos as int) =~= Seq::<Seq<char>>::empty());
                    assert(res@.map_values(|s: String| s@) + local_image_paths(text@, pos as int)
                        =~= res@.map_values(|s: String| s@));
                }
                break;
            },
            Some(e) => e,
        };
        proof {
            lemma_find_seq_bounds(text@, "])"@, pstart as int, e as int);
        }
        let captured = substring(text, pstart, e);
        if crate::text::contains_str(captured.as_str(), "\n") {
            proof {
                reveal_strlit("\n");
                let cap = text@.subrange(pstart as int, e as int);
                let w = choose|i: int| crate::text::match_at(cap, "\n"@, i);
                assert(cap.subrange(w, w + 1)[0] == cap[w]);
                assert(crate::delivery::contains_char(cap, '\n'));
                assert(local_image_paths(text@, pos as int) == local_image_paths(text@, m + 1));
            }
            pos = m + 1;
        } else {
            let ghost prev = res@;
            res.push(captured);
            proof {
                reveal_strlit("\n");
                let cap = text@.subrange(pstart as int, e as int);
                assert forall|i: int| 0 <= i < cap.len() implies cap[i] != '\n' by {
                    reveal_strlit("\n");
                    if cap[i] == '\n' {
                        assert(cap.subrange(i, i + 1) =~= "\n"@);
                        assert(crate::text::match_at(cap, "\n"@, i));
                        assert(crate::text::contains_seq(cap, "\n"@));
                    }
                }
                assert(!crate::delivery::contains_char(cap, '\n'));
                assert(res@.map_values(|s: String| s@) =~= prev.map_values(|s: String| s@).push(
                    cap,
                ));
                assert(local_image_paths(text@, pos as int) == seq![cap] + local_image_paths(
                    text@,
                    e + 2,
                ));
                assert(res@.map_values(|s: String| s@) + local_image_paths(text@, e + 2)
                    =~= prev.map_values(|s: String| s@) + local_image_paths(text@, pos as int));
            }
            pos = e + 2;
        }
    }
    res
}

/// The suffix of `s` after its last dot, when a usable extension exists.
pub open spec fn extension_spec(base: Seq<char>) -> Option<Seq<char>> {
    match crate::session::rfind_seq(base, "."@) {
        None => None,
        Some(p) => if p == 0 {
            None
        } else {
            Some(base.skip(p + 1))
        },
    }
}

/// The extension of a file name: the part after its last dot, absent for a
/// dotless or dot-leading name.
pub fn extension_of(base_name: &str) -> (r: Option<String>)
    ensures
        match r {
            Some(e) => extension_spec(base_name@) == Some(e@),
            None => extension_spec(base_name@) is None,
        },
{
    proof {
        reveal_strlit(".");
    }
    let n = base_name.unicode_len();
    match crate::session::rfind_str(base_name, ".") {
        None => None,
        Some(p) => {
            if p == 0 {
                None
            } else {
                let e = substring(base_name, p + 1, n);
                proof {
                    assert(base_name@.subrange(p + 1, n as int) =~= base_name@.skip(p + 1));
                }
                Some(e)
            }
        },
    }
}

/// The mime type the engine sends for an image extension.
pub fn mime_for_extension(ext: &str) -> (r: &'static str)
    ensures
        ext@ == "png"@ ==> r@ == "image/png"@,
        ext@ == "jpg"@ || ext@ == "jpeg"@ ==> r@ == "image/jpeg"@,
        ext@ == "gif"@ ==> r@ == "image/gif"@,
        ext@ == "webp"@ ==> r@ == "image/webp"@,
        !(ext@ == "png"@ || ext@ == "jpg"@ || ext@ == "jpeg"@ || ext@ == "gif"@ || ext@
            == "webp"@) ==> r@ == "image/png"@,
{
    proof {
        reveal_strlit("png");
        reveal_strlit("jpg");
        reveal_strlit("jpeg");
        reveal_strlit("gif");
        reveal_strlit("webp");
        assert("png"@[0] == 'p' && "jpg"@[0] == 'j' && "jpeg"@[0] == 'j' && "gif"@[0] == 'g'
            && "webp"@[0] == 'w');
        assert("jpg"@.len() == 3 && "jpeg"@.len() == 4);
    }
    if crate::text::str_eq(ext, "png") {
        "image/png"
    } else if crate::text::str_eq(ext, "jpg") || crate::text::str_eq(ext, "jpeg") {
        "image/jpeg"
    } else if crate::text::str_eq(ext, "gif") {
        "image/gif"
    } else if crate::text::str_eq(ext, "webp") {
        "image/webp"
    } else {
        "image/png"
    }
}

/// What the base64 encoding of a byte string is; a function of the bytes
/// alone.
pub uninterp spec fn base64_of(bytes: Seq<u8>) -> Seq<char>;

/// Relies on the `base64` crate's standard engine: `encode` returns the
/// padded base64 rendering of the bytes, four characters per three bytes.
#[verifier::external_body]
fn base64_encode(data: &Vec<u8>) -> (r: String)
    ensures
        r@ == base64_of(data@),
        r@.len() == 4 * ((data@.len() + 2) / 3),
{
    base64::Engine::encode(&base64::engine::general_purpose::STANDARD, data)
}

/// Builds the inline image part for one loaded local image: the mime type
/// follows the file extension and the data travels base64-encoded.
pub fn image_part_from_bytes(base_name: &str, bytes: &Vec<u8>) -> (r: MultimodalPart)
    ensures
        r.inline_data is Some,
        r.inline_data->0.data@ == base64_of(bytes@),
        r.text is None,
        r.function_call is None,
        r.function_response is None,
{
    let ext = match extension_of(base_name) {
        Some(e) => e,
        None => String::from_str("png"),
    };
    let mime = mime_for_extension(ext.as_str());
    let data = base64_encode(bytes);
    MultimodalPart::image(String::from_str(mime), data)
}

} // verus!
