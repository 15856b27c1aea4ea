//! Verified text utilities: equality, search, slicing, replacement and
//! number formatting over `Seq<char>` views.

use vstd::prelude::*;

verus! {

/// `true` iff `needle` occurs in `hay` starting at index `i`.
pub open spec fn match_at(hay: Seq<char>, needle: Seq<char>, i: int) -> bool {
    &&& 0 <= i
    &&& i + needle.len() <= hay.len()
    &&& hay.subrange(i, i + needle.len() as int) == needle
}

/// `true` iff `needle` occurs somewhere in `hay`.
pub open spec fn contains_seq(hay: Seq<char>, needle: Seq<char>) -> bool {
    exists|i: int| match_at(hay, needle, i)
}

/// Character-wise string equality, proved from the views.
pub fn str_eq(a: &str, b: &str) -> (r: bool)
    ensures
        r == (a@ == b@),
{
    let an = a.unicode_len();
    let bn = b.unicode_len();
    if an != bn {
        assert(a@ != b@) by {
            assert(a@.len() != b@.len());
        }
        return false;
    }
    let mut i: usize = 0;
    while i < an
        invariant
            an == a@.len(),
            an == b@.len(),
            0 <= i <= an,
            forall|k: int| 0 <= k < i ==> a@[k] == b@[k],
        decreases an - i,
    {
        if a.get_char(i) != b.get_char(i) {
            return false;
        }
        i = i + 1;
    }
    proof {
        assert(a@ =~= b@);
    }
    true
}

/// Does `needle` occur in `hay` at index `at`?
fn matches_at(hay: &str, needle: &str, at: usize) -> (r: bool)
    requires
        at + needle@.len() <= hay@.len(),
    ensures
        r == match_at(hay@, needle@, at as int),
{
    let hn = hay.unicode_len();
    let n = needle.unicode_len();
    let mut k: usize = 0;
    while k < n
        invariant
            hn == hay@.len(),
            n == needle@.len(),
            at + n <= hn,
            0 <= k <= n,
            forall|j: int| 0 <= j < k ==> hay@[at + j] == needle@[j],
        decreases n - k,
    {
        if hay.get_char(at + k) != needle.get_char(k) {
            assert(hay@.subrange(at as int, at + n) != needle@) by {
                assert(hay@.subrange(at as int, at + n)[k as int] == hay@[at + k]);
            }
            return false;
        }
        k = k + 1;
    }
    proof {
        assert(hay@.subrange(at as int, at + n) =~= needle@);
    }
    true
}

/// Index of the first occurrence of `needle` in `hay` at or after `from`,
/// if any.
pub fn find_from(hay: &str, needle: &str, from: usize) -> (r: Option<usize>)
    requires
        from <= hay@.len(),
    ensures
        match r {
            Some(i) => {
                &&& from <= i
                &&& match_at(hay@, needle@, i as int)
                &&& forall|j: int| from <= j < i ==> !match_at(hay@, needle@, j)
            },
            None => forall|j: int| from <= j ==> !match_at(hay@, needle@, j),
        },
{
    let hn = hay.unicode_len();
    let nn = needle.unicode_len();
    if nn == 0 {
        assert(match_at(hay@, needle@, from as int)) by {
            assert(hay@.subrange(from as int, from as int) =~= needle@);
        }
        return Some(from);
    }
    if nn > hn || from > hn - nn {
        assert(forall|j: int| from <= j ==> !match_at(hay@, needle@, j));
        return None;
    }
    let last = hn - nn;
    let mut i: usize = from;
    while i <= last
        invariant
            hn == hay@.len(),
            nn == needle@.len(),
            1 <= nn <= hn,
            last == hn - nn,
            from <= i <= last + 1,
            forall|j: int| from <= j < i ==> !match_at(hay@, needle@, j),
        decreases last + 1 - i,
    {
        if matches_at(hay, needle, i) {
            return Some(i);
        }
        i = i + 1;
    }
    assert(forall|j: int| from <= j ==> !match_at(hay@, needle@, j));
    None
}

/// Index of the first occurrence of `needle` in `hay` at or after `from`,
/// as a computable spec.
pub open spec fn find_seq(h: Seq<char>, n: Seq<char>, from: int) -> Option<int>
    decreases h.len() - from,
{
    if from < 0 || from + n.len() > h.len() {
        None
    } else if n.len() == 0 || h.subrange(from, from + n.len() as int) == n {
        Some(from)
    } else {
        find_seq(h, n, from + 1)
    }
}

/// A found occurrence lies in range and matches.
pub proof fn lemma_find_seq_bounds(h: Seq<char>, n: Seq<char>, from: int, i: int)
    requires
        find_seq(h, n, from) == Some(i),
    ensures
        from <= i,
        match_at(h, n, i),
    decreases h.len() - from,
{
    if !(from < 0 || from + n.len() > h.len()) {
        if n.len() == 0 || h.subrange(from, from + n.len() as int) == n {
            assert(h.subrange(from, from + n.len() as int) =~= n);
        } else {
            lemma_find_seq_bounds(h, n, from + 1, i);
        }
    }
}

proof fn lemma_find_seq_of_first(h: Seq<char>, n: Seq<char>, from: int, i: int)
    requires
        0 <= from <= i,
        match_at(h, n, i),
        forall|j: int| from <= j < i ==> !match_at(h, n, j),
    ensures
        find_seq(h, n, from) == Some(i),
    decreases i - from,
{
    if from < i {
        assert(!match_at(h, n, from));
        if n.len() == 0 {
            assert(h.subrange(from, from) =~= n);
            assert(false);
        }
        lemma_find_seq_of_first(h, n, from + 1, i);
    } else {
        if n.len() == 0 {
            assert(h.subrange(i, i) =~= n);
        }
    }
}

proof fn lemma_find_seq_of_none(h: Seq<char>, n: Seq<char>, from: int)
    requires
        0 <= from,
        forall|j: int| from <= j ==> !match_at(h, n, j),
    ensures
        find_seq(h, n, from) == None::<int>,
    decreases h.len() - from,
{
    if !(from + n.len() > h.len()) {
        assert(!match_at(h, n, from));
        if n.len() == 0 {
            assert(h.subrange(from, from) =~= n);
            assert(false);
        }
        lemma_find_seq_of_none(h, n, from + 1);
    }
}

/// A search that came back empty leaves no occurrence at or after `from`.
pub proof fn lemma_find_seq_none_forall(h: Seq<char>, n: Seq<char>, from: int)
    requires
        0 <= from,
        find_seq(h, n, from) == None::<int>,
    ensures
        forall|j: int| from <= j ==> !match_at(h, n, j),
    decreases h.len() - from,
{
    if from + n.len() > h.len() {
        assert(forall|j: int| from <= j ==> !match_at(h, n, j));
    } else {
        assert(!(n.len() == 0 || h.subrange(from, from + n.len() as int) == n));
        lemma_find_seq_none_forall(h, n, from + 1);
        assert(!match_at(h, n, from));
    }
}

/// First occurrence of `needle` at or after `from`, agreeing with the
/// computable spec `find_seq`.
pub fn find_str(hay: &str, needle: &str, from: usize) -> (r: Option<usize>)
    requires
        from <= hay@.len(),
    ensures
        match r {
            Some(i) => find_seq(hay@, needle@, from as int) == Some(i as int),
            None => find_seq(hay@, needle@, from as int) == None::<int>,
        },
{
    let r = find_from(hay, needle, from);
    proof {
        match r {
            Some(i) => lemma_find_seq_of_first(hay@, needle@, from as int, i as int),
            None => lemma_find_seq_of_none(hay@, needle@, from as int),
        }
    }
    r
}

/// `true` iff `needle` occurs anywhere in `hay`.
pub fn contains_str(hay: &str, needle: &str) -> (r: bool)
    ensures
        r == contains_seq(hay@, needle@),
{
    match find_from(hay, needle, 0) {
        Some(i) => {
            assert(contains_seq(hay@, needle@));
            true
        },
        None => {
            assert(forall|j: int| !match_at(hay@, needle@, j) || j < 0);
            assert(!contains_seq(hay@, needle@));
            false
        },
    }
}

/// `true` iff `s` begins with `prefix`.
pub fn starts_with(s: &str, prefix: &str) -> (r: bool)
    ensures
        r == (prefix@.len() <= s@.len() && s@.subrange(0, prefix@.len() as int) == prefix@),
{
    if prefix.unicode_len() > s.unicode_len() {
        return false;
    }
    matches_at(s, prefix, 0)
}

/// `true` iff `s` ends with `suffix`.
pub fn ends_with(s: &str, suffix: &str) -> (r: bool)
    ensures
        r == (suffix@.len() <= s@.len() && s@.subrange(
            s@.len() - suffix@.len(),
            s@.len() as int,
        ) == suffix@),
{
    let sn = s.unicode_len();
    let xn = suffix.unicode_len();
    if xn > sn {
        return false;
    }
    matches_at(s, suffix, sn - xn)
}

/// Copy of the character range `[from, to)` of `s`.
pub fn substring(s: &str, from: usize, to: usize) -> (r: String)
    requires
        from <= to <= s@.len(),
    ensures
        r@ == s@.subrange(from as int, to as int),
{
    let sub = s.substring_char(from, to);
    String::from_str(sub)
}

/// Relies on std's `String::push`: appends exactly the given character.
#[verifier::external_body]
pub fn push_char(s: &mut String, c: char)
    ensures
        final(s)@ == old(s)@.push(c),
{
    s.push(c);
}

/// `s` with every non-overlapping occurrence of `from` (scanned left to
/// right) replaced by `to`; the identity when `from` is empty.
pub open spec fn replace_seq(h: Seq<char>, from: Seq<char>, to: Seq<char>) -> Seq<char>
    decreases h.len(),
{
    if from.len() == 0 || h.len() < from.len() {
        h
    } else if h.subrange(0, from.len() as int) == from {
        to + replace_seq(h.skip(from.len() as int), from, to)
    } else {
        seq![h[0]] + replace_seq(h.skip(1), from, to)
    }
}

proof fn lemma_replace_step(h: Seq<char>, from: Seq<char>, to: Seq<char>)
    requires
        from.len() >= 1,
        h.len() >= 1,
        !(h.len() >= from.len() && h.subrange(0, from.len() as int) == from),
    ensures
        replace_seq(h, from, to) == seq![h[0]] + replace_seq(h.skip(1), from, to),
{
    if h.len() < from.len() {
        assert(h.skip(1).len() < from.len());
        assert(replace_seq(h.skip(1), from, to) == h.skip(1));
        assert(h =~= seq![h[0]] + h.skip(1));
    }
}

/// String replacement as `str::replace` does it: non-overlapping matches,
/// left to right.
pub fn replace_all(s: &str, from: &str, to: &str) -> (r: String)
    ensures
        r@ == replace_seq(s@, from@, to@),
{
    let fl = from.unicode_len();
    if fl == 0 {
        return String::from_str(s);
    }
    let sl = s.unicode_len();
    let mut res = String::new();
    let mut i: usize = 0;
    proof {
        assert(s@.skip(0) =~= s@);
        assert(res@ + replace_seq(s@, from@, to@) =~= replace_seq(s@, from@, to@));
    }
    while i < sl
        invariant
            fl == from@.len(),
            sl == s@.len(),
            1 <= fl,
            0 <= i <= sl,
            res@ + replace_seq(s@.skip(i as int), from@, to@) == replace_seq(s@, from@, to@),
        decreases sl - i,
    {
        let ghost rest = s@.skip(i as int);
        if fl <= sl && i <= sl - fl && matches_at(s, from, i) {
            proof {
                assert(rest.subrange(0, fl as int) =~= s@.subrange(i as int, i + fl));
                assert(rest.skip(fl as int) =~= s@.skip(i + fl));
                assert(replace_seq(rest, from@, to@) == to@ + replace_seq(
                    s@.skip(i + fl),
                    from@,
                    to@,
                ));
            }
            res.append(to);
            i = i + fl;
        } else {
            proof {
                assert(rest.len() >= 1);
                if i + fl <= sl {
                    assert(rest.subrange(0, fl as int) =~= s@.subrange(i as int, i + fl));
                }
                lemma_replace_step(rest, from@, to@);
                assert(rest.skip(1) =~= s@.skip(i + 1));
                assert(rest[0] == s@[i as int]);
            }
            let c = s.get_char(i);
            push_char(&mut res, c);
            proof {
                assert(res@ =~= (res@.drop_last() + seq![c]));
                assert(res@.drop_last() + (seq![c] + replace_seq(s@.skip(i + 1), from@, to@))
                    =~= res@ + replace_seq(s@.skip(i + 1), from@, to@));
            }
            i = i + 1;
        }
    }
    proof {
        assert(s@.skip(sl as int) =~= Seq::<char>::empty());
        assert(replace_seq(Seq::<char>::empty(), from@, to@) == Seq::<char>::empty());
        assert(res@ + Seq::<char>::empty() =~= res@);
    }
    res
}

/// The whitespace characters the engine's text formats use.
pub open spec fn is_space(c: char) -> bool {
    c == ' ' || c == '\n' || c == '\t' || c == '\r'
}

/// A decimal digit character.
pub open spec fn is_digit(c: char) -> bool {
    '0' <= c && c <= '9'
}

/// Whether `c` is a decimal digit.
pub fn digit_check(c: char) -> (r: bool)
    ensures
        r == is_digit(c),
{
    '0' <= c && c <= '9'
}

/// `s` without leading whitespace.
pub open spec fn trim_front(s: Seq<char>) -> Seq<char>
    decreases s.len(),
{
    if s.len() > 0 && is_space(s[0]) {
        trim_front(s.skip(1))
    } else {
        s
    }
}

/// `s` without trailing whitespace.
pub open spec fn trim_back(s: Seq<char>) -> Seq<char>
    decreases s.len(),
{
    if s.len() > 0 && is_space(s.last()) {
        trim_back(s.take(s.len() - 1))
    } else {
        s
    }
}

/// `s` without leading or trailing whitespace.
pub open spec fn trim_seq(s: Seq<char>) -> Seq<char> {
    trim_back(trim_front(s))
}

fn is_space_char(c: char) -> (r: bool)
    ensures
        r == is_space(c),
{
    c == ' ' || c == '\n' || c == '\t' || c == '\r'
}

proof fn lemma_trim_front_skip(s: Seq<char>, a: int)
    requires
        0 <= a <= s.len(),
        forall|k: int| 0 <= k < a ==> is_space(s[k]),
    ensures
        trim_front(s) == trim_front(s.skip(a)),
    decreases a,
{
    if a > 0 {
        assert(s.len() > 0 && is_space(s[0]));
        assert(s.skip(1).skip(a - 1) =~= s.skip(a));
        lemma_trim_front_skip(s.skip(1), a - 1);
    } else {
        assert(s.skip(0) =~= s);
    }
}

proof fn lemma_trim_back_take(s: Seq<char>, b: int)
    requires
        0 <= b <= s.len(),
        forall|k: int| b <= k < s.len() ==> is_space(s[k]),
    ensures
        trim_back(s) == trim_back(s.take(b)),
    decreases s.len() - b,
{
    if b < s.len() {
        assert(s.len() > 0 && is_space(s.last()));
        assert(s.take(s.len() - 1).take(b) =~= s.take(b));
        lemma_trim_back_take(s.take(s.len() - 1), b);
    } else {
        assert(s.take(s.len() as int) =~= s);
    }
}

/// Copy of `s` without leading or trailing whitespace.
pub fn trim(s: &str) -> (r: String)
    ensures
        r@ == trim_seq(s@),
{
    let n = s.unicode_len();
    let mut a: usize = 0;
    while a < n && is_space_char(s.get_char(a))
        invariant
            n == s@.len(),
            0 <= a <= n,
            forall|k: int| 0 <= k < a ==> is_space(s@[k]),
        decreases n - a,
    {
        a = a + 1;
    }
    proof {
        lemma_trim_front_skip(s@, a as int);
    }
    if a == n {
        proof {
            assert(s@.skip(a as int) =~= Seq::<char>::empty());
            assert(trim_front(s@) == Seq::<char>::empty());
            assert(trim_back(Seq::<char>::empty()) == Seq::<char>::empty());
        }
        return String::new();
    }
    let ghost front = s@.skip(a as int);
    assert(!is_space(front[0]));
    assert(trim_front(s@) == front);
    let mut b: usize = n;
    while b > a + 1 && is_space_char(s.get_char(b - 1))
        invariant
            n == s@.len(),
            0 <= a < b <= n,
            forall|k: int| b <= k < n ==> is_space(s@[k]),
        decreases b,
    {
        b = b - 1;
    }
    if is_space_char(s.get_char(b - 1)) {
        // Only possible when b == a + 1 and even the first kept character is
        // whitespace, which the front scan rules out.
        proof {
            assert(front[0] == s@[a as int]);
            assert(false);
        }
    }
    proof {
        assert(front.len() == n - a);
        assert(forall|k: int| b - a <= k < front.len() ==> is_space(#[trigger] front[k]));
        lemma_trim_back_take(front, b - a);
        assert(front.take(b - a) =~= s@.subrange(a as int, b as int));
        assert(!is_space(front.take(b - a).last()));
        assert(trim_back(front.take(b - a)) == front.take(b - a));
    }
    substring(s, a, b)
}

/// ASCII lowercasing of one character, as `char::to_ascii_lowercase` does it.
pub open spec fn lower_char(c: char) -> char {
    if 'A' <= c && c <= 'Z' {
        ((c as u8) + 32) as char
    } else {
        c
    }
}

/// ASCII lowercasing of a text.
pub open spec fn lower_seq(s: Seq<char>) -> Seq<char> {
    s.map_values(|c: char| lower_char(c))
}

fn to_lower_char(c: char) -> (r: char)
    ensures
        r == lower_char(c),
{
    if 'A' <= c && c <= 'Z' {
        ((c as u8) + 32) as char
    } else {
        c
    }
}

/// Copy of `s` with ASCII letters lowercased, as `str::to_ascii_lowercase`.
pub fn to_ascii_lowercase(s: &str) -> (r: String)
    ensures
        r@ == lower_seq(s@),
{
    let n = s.unicode_len();
    let mut res = String::new();
    let mut i: usize = 0;
    while i < n
        invariant
            n == s@.len(),
            0 <= i <= n,
            res@ =~= lower_seq(s@).take(i as int),
        decreases n - i,
    {
        let c = to_lower_char(s.get_char(i));
        push_char(&mut res, c);
        proof {
            assert(lower_seq(s@).take(i + 1) =~= lower_seq(s@).take(i as int).push(
                lower_char(s@[i as int]),
            ));
        }
        i = i + 1;
    }
    proof {
        assert(lower_seq(s@).take(n as int) =~= lower_seq(s@));
    }
    res
}

/// The decimal digit character for `d`.
pub open spec fn digit_char(d: int) -> char {
    if d == 0 {
        '0'
    } else if d == 1 {
        '1'
    } else if d == 2 {
        '2'
    } else if d == 3 {
        '3'
    } else if d == 4 {
        '4'
    } else if d == 5 {
        '5'
    } else if d == 6 {
        '6'
    } else if d == 7 {
        '7'
    } else if d == 8 {
        '8'
    } else {
        '9'
    }
}

/// Decimal rendering of a non-negative number.
pub open spec fn dec_seq(n: int) -> Seq<char>
    decreases n,
{
    if n < 10 {
        seq![digit_char(n)]
    } else {
        dec_seq(n / 10) + seq![digit_char(n % 10)]
    }
}

fn digit_of(d: u64) -> (r: char)
    requires
        d < 10,
    ensures
        r == digit_char(d as int),
{
    if d == 0 {
        '0'
    } else if d == 1 {
        '1'
    } else if d == 2 {
        '2'
    } else if d == 3 {
        '3'
    } else if d == 4 {
        '4'
    } else if d == 5 {
        '5'
    } else if d == 6 {
        '6'
    } else if d == 7 {
        '7'
    } else if d == 8 {
        '8'
    } else {
        '9'
    }
}

/// Decimal rendering of `n`, as `format!` would print it.
pub fn u64_to_string(n: u64) -> (r: String)
    ensures
        r@ == dec_seq(n as int),
    decreases n,
{
    if n < 10 {
        let mut res = String::new();
        push_char(&mut res, digit_of(n));
        proof {
            assert(res@ =~= seq![digit_char(n as int)]);
        }
        res
    } else {
        let mut res = u64_to_string(n / 10);
        push_char(&mut res, digit_of(n % 10));
        proof {
            assert(dec_seq(n as int / 10).push(digit_char(n as int % 10)) =~= dec_seq(
                n as int / 10,
            ) + seq![digit_char(n as int % 10)]);
        }
        res
    }
}

} // verus!
