//! Character-level helpers shared by the parsers and the templating code.
//!
//! Strings are modelled by their sequence of characters, `Seq<char>`.

use vstd::prelude::*;

verus! {

/// `String::push` appends exactly one character to the end of the string.
pub assume_specification[ std::string::String::push ](s: &mut std::string::String, ch: char)
    ensures
        final(s)@ == old(s)@.push(ch),
;

/// The characters of `s`, in order.
pub fn chars_of(s: &str) -> (v: Vec<char>)
    ensures
        v@ == s@,
{
    let mut v: Vec<char> = Vec::new();
    for c in it: s.chars()
        invariant
            it.seq() == s@,
            v@ == it.seq().take(it.index() as int),
    {
        v.push(c);
    }
    v
}

/// The string made of the characters of `v`, in order.
pub fn string_of(v: &Vec<char>) -> (s: String)
    ensures
        s@ == v@,
{
    let mut s = String::new();
    let mut i: usize = 0;
    while i < v.len()
        invariant
            i <= v.len(),
            s@ == v@.take(i as int),
        decreases v.len() - i,
    {
        s.push(v[i]);
        i += 1;
    }
    s
}

/// `pat` occurs in `s` starting at index `i`.
pub open spec fn match_at(s: Seq<char>, pat: Seq<char>, i: int) -> bool {
    &&& 0 <= i
    &&& i + pat.len() <= s.len()
    &&& s.subrange(i, i + pat.len()) == pat
}

/// `pat` does not occur in `s` at any start index in `lo..hi`.
pub open spec fn no_match_in(s: Seq<char>, pat: Seq<char>, lo: int, hi: int) -> bool {
    forall|i: int| lo <= i < hi ==> !match_at(s, pat, i)
}

/// `pat` occurs somewhere in `s`.
pub open spec fn occurs(s: Seq<char>, pat: Seq<char>) -> bool {
    exists|i: int| match_at(s, pat, i)
}

/// `s` begins with `prefix`.
pub open spec fn has_prefix(s: Seq<char>, prefix: Seq<char>) -> bool {
    match_at(s, prefix, 0)
}

/// Start index of the leftmost occurrence of `pat` in `s` at or after
/// `from`, or `-1` when there is none.
pub open spec fn first_match(s: Seq<char>, pat: Seq<char>, from: int) -> int
    decreases s.len() + 1 - from,
{
    if from < 0 || from + pat.len() > s.len() {
        -1
    } else if match_at(s, pat, from) {
        from
    } else {
        first_match(s, pat, from + 1)
    }
}

/// What `first_match` returns is the leftmost occurrence at or after `from`.
pub proof fn lemma_first_match(s: Seq<char>, pat: Seq<char>, from: int)
    requires
        0 <= from,
    ensures
        first_match(s, pat, from) == -1 ==> no_match_in(s, pat, from, (s.len() + 1) as int),
        first_match(s, pat, from) != -1 ==> {
            &&& from <= first_match(s, pat, from)
            &&& match_at(s, pat, first_match(s, pat, from))
            &&& no_match_in(s, pat, from, first_match(s, pat, from))
        },
    decreases s.len() + 1 - from,
{
    if from + pat.len() > s.len() {
    } else if match_at(s, pat, from) {
    } else {
        lemma_first_match(s, pat, from + 1);
    }
}

/// Whether `pat` occurs in `s` at index `i`.
pub fn matches_at(s: &Vec<char>, pat: &Vec<char>, i: usize) -> (b: bool)
    ensures
        b == match_at(s@, pat@, i as int),
{
    if pat.len() > s.len() || i > s.len() - pat.len() {
        return false;
    }
    let mut k: usize = 0;
    while k < pat.len()
        invariant
            k <= pat.len(),
            i + pat.len() <= s.len(),
            forall|j: int| 0 <= j < k ==> s@[i + j] == pat@[j],
        decreases pat.len() - k,
    {
        if s[i + k] != pat[k] {
            proof {
                assert(s@.subrange(i as int, i + pat.len())[k as int] == s@[i + k]);
            }
            return false;
        }
        k += 1;
    }
    proof {
        assert(s@.subrange(i as int, i + pat.len()) =~= pat@);
    }
    true
}

/// Index of the leftmost occurrence of `pat` in `s` at or after `from`.
pub fn find_from(s: &Vec<char>, pat: &Vec<char>, from: usize) -> (r: Option<usize>)
    ensures
        match r {
            Some(i) => i as int == first_match(s@, pat@, from as int),
            None => first_match(s@, pat@, from as int) == -1,
        },
{
    if pat.len() > s.len() || from > s.len() - pat.len() {
        return None;
    }
    let last = s.len() - pat.len();
    let mut i: usize = from;
    loop
        invariant
            from <= i <= last,
            last == s.len() - pat.len(),
            first_match(s@, pat@, from as int) == first_match(s@, pat@, i as int),
        decreases last - i,
    {
        if matches_at(s, pat, i) {
            return Some(i);
        }
        if i == last {
            assert(first_match(s@, pat@, i + 1) == -1);
            return None;
        }
        i += 1;
    }
}

/// `s` with every occurrence of `pat` replaced by `to`, scanning from the
/// left and resuming after each replaced occurrence. An empty `pat`
/// replaces nothing.
pub open spec fn replace_all(s: Seq<char>, pat: Seq<char>, to: Seq<char>) -> Seq<char>
    decreases s.len(),
{
    if pat.len() == 0 || s.len() < pat.len() {
        s
    } else if match_at(s, pat, 0) {
        to + replace_all(s.skip(pat.len() as int), pat, to)
    } else {
        seq![s[0]] + replace_all(s.skip(1), pat, to)
    }
}

/// An occurrence in a suffix of `s` is an occurrence in `s`, shifted.
pub proof fn lemma_match_skip(s: Seq<char>, pat: Seq<char>, k: int, i: int)
    requires
        0 <= k <= s.len(),
        0 <= i,
    ensures
        match_at(s.skip(k), pat, i) == match_at(s, pat, k + i),
{
    if i + pat.len() <= s.len() - k {
        assert(s.skip(k).subrange(i, i + pat.len()) =~= s.subrange(k + i, k + i + pat.len()));
    }
}

/// Appends the elements of `tail` to `out`.
pub fn append_chars(out: &mut Vec<char>, tail: &Vec<char>)
    ensures
        final(out)@ == old(out)@ + tail@,
{
    let mut k: usize = 0;
    while k < tail.len()
        invariant
            k <= tail.len(),
            out@ == old(out)@ + tail@.take(k as int),
        decreases tail.len() - k,
    {
        out.push(tail[k]);
        k += 1;
    }
}

/// Replaces every occurrence of `pat` in `s` by `to`.
pub fn replace_chars(s: &Vec<char>, pat: &Vec<char>, to: &Vec<char>) -> (out: Vec<char>)
    ensures
        out@ == replace_all(s@, pat@, to@),
{
    let mut out: Vec<char> = Vec::new();
    if pat.len() == 0 {
        append_chars(&mut out, s);
        assert(out@ =~= s@);
        return out;
    }
    let mut i: usize = 0;
    proof {
        assert(s@.skip(0) =~= s@);
        assert(out@ + replace_all(s@, pat@, to@) =~= replace_all(s@, pat@, to@));
    }
    while i < s.len()
        invariant
            i <= s.len(),
            pat.len() > 0,
            replace_all(s@, pat@, to@) == out@ + replace_all(s@.skip(i as int), pat@, to@),
        decreases s.len() - i,
    {
        proof {
            lemma_match_skip(s@, pat@, i as int, 0);
        }
        let ghost rest = s@.skip(i as int);
        let ghost before = out@;
        if matches_at(s, pat, i) {
            append_chars(&mut out, to);
            proof {
                assert(rest.skip(pat.len() as int) =~= s@.skip(i + pat.len()));
                assert(out@ + replace_all(s@.skip(i + pat.len()), pat@, to@) =~= before
                    + replace_all(rest, pat@, to@)) by {
                    assert(replace_all(rest, pat@, to@) == to@ + replace_all(
                        rest.skip(pat.len() as int),
                        pat@,
                        to@,
                    ));
                }
            }
            i += pat.len();
        } else {
            out.push(s[i]);
            proof {
                assert(rest.skip(1) =~= s@.skip(i + 1));
                assert(rest[0] == s@[i as int]);
                if rest.len() < pat.len() {
                    lemma_replace_short(rest.skip(1), pat@, to@);
                    assert(rest =~= seq![rest[0]] + rest.skip(1));
                }
            }
            i += 1;
        }
    }
    proof {
        assert(s@.skip(i as int) =~= Seq::<char>::empty());
    }
    out
}

/// A string shorter than the pattern is left as it is.
pub proof fn lemma_replace_short(s: Seq<char>, pat: Seq<char>, to: Seq<char>)
    requires
        s.len() < pat.len(),
    ensures
        replace_all(s, pat, to) == s,
{
}

/// Up to its leftmost occurrence of `pat`, `s` is copied; the occurrence
/// becomes `to`; the replacement goes on behind it.
pub proof fn lemma_replace_at_first(s: Seq<char>, pat: Seq<char>, to: Seq<char>, p: int)
    requires
        pat.len() > 0,
        0 <= p,
        match_at(s, pat, p),
        no_match_in(s, pat, 0, p),
    ensures
        replace_all(s, pat, to) == s.take(p) + to + replace_all(
            s.skip(p + pat.len()),
            pat,
            to,
        ),
    decreases p,
{
    if p == 0 {
        assert(s.take(0) + to =~= to);
    } else {
        let t = s.skip(1);
        lemma_match_skip(s, pat, 1, p - 1);
        assert forall|i: int| 0 <= i < p - 1 implies !match_at(t, pat, i) by {
            lemma_match_skip(s, pat, 1, i);
        }
        lemma_replace_at_first(t, pat, to, p - 1);
        assert(t.skip(p - 1 + pat.len()) =~= s.skip(p + pat.len()));
        assert(seq![s[0]] + t.take(p - 1) =~= s.take(p));
        assert(seq![s[0]] + (t.take(p - 1) + to + replace_all(s.skip(p + pat.len()), pat, to))
            =~= s.take(p) + to + replace_all(s.skip(p + pat.len()), pat, to));
    }
}

/// A string in which `pat` does not occur is left as it is.
pub proof fn lemma_replace_absent(s: Seq<char>, pat: Seq<char>, to: Seq<char>)
    requires
        !occurs(s, pat),
    ensures
        replace_all(s, pat, to) == s,
    decreases s.len(),
{
    if pat.len() == 0 || s.len() < pat.len() {
    } else {
        assert(!match_at(s, pat, 0));
        let t = s.skip(1);
        assert forall|i: int| !match_at(t, pat, i) by {
            if 0 <= i {
                lemma_match_skip(s, pat, 1, i);
            }
        }
        lemma_replace_absent(t, pat, to);
        assert(seq![s[0]] + t =~= s);
    }
}

/// Where `pat` occurs in `s`, `to` occurs in the result of the replacement.
pub proof fn lemma_replace_inserts(s: Seq<char>, pat: Seq<char>, to: Seq<char>)
    requires
        pat.len() > 0,
        occurs(s, pat),
    ensures
        occurs(replace_all(s, pat, to), to),
{
    let p = first_match(s, pat, 0);
    lemma_first_match(s, pat, 0);
    let w = choose|i: int| match_at(s, pat, i);
    assert(match_at(s, pat, w));
    lemma_replace_at_first(s, pat, to, p);
    let r = replace_all(s, pat, to);
    assert(r.subrange(p, p + to.len()) =~= to);
    assert(match_at(r, to, p));
}

/// Where `to` is not empty and shares no character with `pat`, `pat` does
/// not occur in the result of the replacement.
pub proof fn lemma_replace_removes(s: Seq<char>, pat: Seq<char>, to: Seq<char>)
    requires
        pat.len() > 0,
        to.len() > 0,
        forall|k: int| 0 <= k < to.len() ==> !pat.contains(#[trigger] to[k]),
    ensures
        !occurs(replace_all(s, pat, to), pat),
    decreases s.len(),
{
    let p = first_match(s, pat, 0);
    lemma_first_match(s, pat, 0);
    let r = replace_all(s, pat, to);
    if p == -1 {
        assert(!occurs(s, pat));
        lemma_replace_absent(s, pat, to);
    } else {
        let rest = s.skip(p + pat.len());
        let tail = replace_all(rest, pat, to);
        lemma_replace_at_first(s, pat, to, p);
        lemma_replace_removes(rest, pat, to);
        assert forall|i: int| !match_at(r, pat, i) by {
            if match_at(r, pat, i) {
                if i + pat.len() <= p {
                    assert(s.subrange(i, i + pat.len()) =~= r.subrange(i, i + pat.len()));
                    assert(match_at(s, pat, i));
                } else if i >= p + to.len() {
                    let j = i - p - to.len();
                    assert(tail.subrange(j, j + pat.len()) =~= r.subrange(i, i + pat.len()));
                    assert(match_at(tail, pat, j));
                } else {
                    let j = if i < p { p } else { i };
                    assert(r[j] == to[j - p]);
                    assert(r.subrange(i, i + pat.len())[j - i] == r[j]);
                    assert(pat[j - i] == to[j - p]);
                    assert(pat.contains(to[j - p]));
                }
            }
        }
    }
}

/// The text that `String::from_utf8_lossy` makes of a sequence of bytes:
/// valid UTF-8 is decoded, and each invalid sequence becomes U+FFFD.
pub uninterp spec fn lossy_decoding(bytes: Seq<u8>) -> Seq<char>;

/// `String::from_utf8_lossy`, with the result as a `String`. The result is
/// a function of the bytes; nothing else is claimed of it.
#[verifier::external_body]
pub(crate) fn utf8_lossy(bytes: &[u8]) -> (text: String)
    ensures
        text@ == lossy_decoding(bytes@),
{
    String::from_utf8_lossy(bytes).to_string()
}

/// An occurrence of `pat` in `s` at `i` puts the characters of `pat` at
/// the indices from `i` on.
pub proof fn lemma_match_char(s: Seq<char>, pat: Seq<char>, i: int, k: int)
    requires
        match_at(s, pat, i),
        0 <= k < pat.len(),
    ensures
        s[i + k] == pat[k],
{
    assert(s.subrange(i, i + pat.len())[k] == s[i + k]);
}

/// Where the characters of `pat` stand in `s` from index `i` on, `pat`
/// occurs in `s` at `i`.
pub proof fn lemma_match_by_chars(s: Seq<char>, pat: Seq<char>, i: int)
    requires
        0 <= i,
        i + pat.len() <= s.len(),
        forall|k: int| 0 <= k < pat.len() ==> s[i + k] == pat[k],
    ensures
        match_at(s, pat, i),
{
    assert(s.subrange(i, i + pat.len()) =~= pat);
}

/// The characters of `v` from index `from` up to `to`, as a string.
pub(crate) fn substring(v: &Vec<char>, from: usize, to: usize) -> (s: String)
    requires
        from <= to <= v.len(),
    ensures
        s@ == v@.subrange(from as int, to as int),
{
    let mut part: Vec<char> = Vec::new();
    let mut i: usize = from;
    while i < to
        invariant
            from <= i <= to <= v.len(),
            part@ == v@.subrange(from as int, i as int),
        decreases to - i,
    {
        part.push(v[i]);
        assert(part@ =~= v@.subrange(from as int, i + 1));
        i += 1;
    }
    string_of(&part)
}

/// `c` is white space: one of the characters with the Unicode property
/// White_Space.
pub open spec fn is_white_space(c: char) -> bool {
    let u = c as u32;
    ||| 0x9 <= u <= 0xD
    ||| u == 0x20
    ||| u == 0x85
    ||| u == 0xA0
    ||| u == 0x1680
    ||| 0x2000 <= u <= 0x200A
    ||| u == 0x2028
    ||| u == 0x2029
    ||| u == 0x202F
    ||| u == 0x205F
    ||| u == 0x3000
}

/// The first index at or behind `from` at which `s` has a character that
/// is not white space; the length of `s` where there is none.
pub open spec fn next_black(s: Seq<char>, from: int) -> int
    decreases s.len() - from,
{
    if from < 0 || from >= s.len() {
        s.len() as int
    } else if !is_white_space(s[from]) {
        from
    } else {
        next_black(s, from + 1)
    }
}

/// The first index at or behind `from` at which `s` has white space; the
/// length of `s` where there is none.
pub open spec fn next_white(s: Seq<char>, from: int) -> int
    decreases s.len() - from,
{
    if from < 0 || from >= s.len() {
        s.len() as int
    } else if is_white_space(s[from]) {
        from
    } else {
        next_white(s, from + 1)
    }
}

/// The index behind the last character before `to` that is not white
/// space; `0` where there is none.
pub open spec fn black_end(s: Seq<char>, to: int) -> int
    decreases to,
{
    if to <= 0 || to > s.len() {
        0
    } else if !is_white_space(s[to - 1]) {
        to
    } else {
        black_end(s, to - 1)
    }
}

/// A string without the white space at its start and at its end.
pub open spec fn trimmed(s: Seq<char>) -> Seq<char> {
    let from = next_black(s, 0);
    let to = black_end(s, s.len() as int);
    if from < to {
        s.subrange(from, to)
    } else {
        Seq::empty()
    }
}

/// The maximal runs of characters that are not white space in the part of
/// `s` from index `from` on, in order.
pub open spec fn fields_from(s: Seq<char>, from: int) -> Seq<Seq<char>>
    decreases s.len() - from,
{
    let start = next_black(s, from);
    let end = next_white(s, start);
    if from < 0 || start >= s.len() || end <= from || end > s.len() {
        Seq::empty()
    } else {
        seq![s.subrange(start, end)] + fields_from(s, end)
    }
}

/// The maximal runs of characters of a string that are not white space, in
/// order: the fields that white space separates.
pub open spec fn whitespace_fields(s: Seq<char>) -> Seq<Seq<char>> {
    fields_from(s, 0)
}

/// The next white space is at or behind the index from which it is sought.
pub proof fn lemma_next_white_bounds(s: Seq<char>, from: int)
    requires
        0 <= from <= s.len(),
    ensures
        from <= next_white(s, from) <= s.len(),
    decreases s.len() - from,
{
    if from < s.len() && !is_white_space(s[from]) {
        lemma_next_white_bounds(s, from + 1);
    }
}

/// Where white space fills `s` from `from` up to `to`, the next character
/// that is not white space is sought from `to` on.
pub proof fn lemma_next_black_skips(s: Seq<char>, from: int, to: int)
    requires
        0 <= from <= to <= s.len(),
        forall|i: int| from <= i < to ==> is_white_space(s[i]),
    ensures
        next_black(s, from) == next_black(s, to),
    decreases to - from,
{
    if from < to {
        lemma_next_black_skips(s, from + 1, to);
    }
}

/// Where white space fills `s` from `from` up to `to`, the end of what is
/// not white space is sought before `from`.
pub proof fn lemma_black_end_skips(s: Seq<char>, from: int, to: int)
    requires
        0 <= from <= to <= s.len(),
        forall|i: int| from <= i < to ==> is_white_space(s[i]),
    ensures
        black_end(s, to) == black_end(s, from),
    decreases to - from,
{
    if from < to {
        lemma_black_end_skips(s, from, to - 1);
    }
}

/// A string that has white space before `from` and from `to` on, and at
/// `from` and before `to` a character that is not white space, is trimmed
/// to its part from `from` up to `to`.
pub proof fn lemma_trimmed_part(s: Seq<char>, from: int, to: int)
    requires
        0 <= from < to <= s.len(),
        forall|i: int| 0 <= i < from ==> is_white_space(s[i]),
        forall|i: int| to <= i < s.len() ==> is_white_space(s[i]),
        !is_white_space(s[from]),
        !is_white_space(s[to - 1]),
    ensures
        trimmed(s) == s.subrange(from, to),
{
    lemma_next_black_skips(s, 0, from);
    lemma_black_end_skips(s, to, s.len() as int);
}

/// A string of white space is trimmed to nothing.
pub proof fn lemma_trimmed_blank(s: Seq<char>)
    requires
        forall|i: int| 0 <= i < s.len() ==> is_white_space(s[i]),
    ensures
        trimmed(s) == Seq::<char>::empty(),
{
    lemma_next_black_skips(s, 0, s.len() as int);
    lemma_black_end_skips(s, 0, s.len() as int);
}

/// Whether `c` is white space.
pub fn white_space(c: char) -> (w: bool)
    ensures
        w == is_white_space(c),
{
    let u: u32 = c as u32;
    (0x9 <= u && u <= 0xD) || u == 0x20 || u == 0x85 || u == 0xA0 || u == 0x1680 || (0x2000 <= u
        && u <= 0x200A) || u == 0x2028 || u == 0x2029 || u == 0x202F || u == 0x205F || u
        == 0x3000
}

/// The index of the first character of `v` at or behind `from` that is
/// not white space.
fn skip_white(v: &Vec<char>, from: usize) -> (at: usize)
    requires
        from <= v.len(),
    ensures
        at == next_black(v@, from as int),
        from <= at <= v.len(),
        at < v.len() ==> !is_white_space(v@[at as int]),
{
    let mut at: usize = from;
    while at < v.len() && white_space(v[at])
        invariant
            from <= at <= v.len(),
            next_black(v@, from as int) == next_black(v@, at as int),
        decreases v.len() - at,
    {
        at += 1;
    }
    at
}

/// The index of the first white space of `v` at or behind `from`.
fn skip_black(v: &Vec<char>, from: usize) -> (at: usize)
    requires
        from <= v.len(),
    ensures
        at == next_white(v@, from as int),
        from <= at <= v.len(),
{
    let mut at: usize = from;
    while at < v.len() && !white_space(v[at])
        invariant
            from <= at <= v.len(),
            next_white(v@, from as int) == next_white(v@, at as int),
        decreases v.len() - at,
    {
        at += 1;
    }
    at
}

/// The string without the white space at its start and at its end.
pub fn trim(s: &str) -> (t: String)
    ensures
        t@ == trimmed(s@),
{
    let v = chars_of(s);
    let from = skip_white(&v, 0);
    let mut to: usize = v.len();
    while to > 0 && white_space(v[to - 1])
        invariant
            to <= v.len(),
            black_end(v@, v.len() as int) == black_end(v@, to as int),
        decreases to,
    {
        to -= 1;
    }
    if from < to {
        substring(&v, from, to)
    } else {
        String::new()
    }
}

/// The fields of a string that white space separates, in order.
pub fn split_fields(s: &str) -> (fields: Vec<String>)
    ensures
        fields.deep_view() == whitespace_fields(s@),
{
    let v = chars_of(s);
    let mut fields: Vec<String> = Vec::new();
    let mut at: usize = 0;
    proof {
        assert(fields.deep_view() + fields_from(v@, 0) =~= fields_from(v@, 0));
    }
    while at < v.len()
        invariant
            at <= v.len(),
            whitespace_fields(v@) == fields.deep_view() + fields_from(v@, at as int),
        decreases v.len() - at,
    {
        let start = skip_white(&v, at);
        if start == v.len() {
            proof {
                assert(fields_from(v@, at as int) =~= fields_from(v@, v.len() as int));
            }
            at = start;
        } else {
            let end = skip_black(&v, start);
            let ghost before = fields.deep_view();
            let ghost field = v@.subrange(start as int, end as int);
            proof {
                lemma_next_white_bounds(v@, start + 1);
                assert(next_white(v@, start as int) > start);
                assert(fields_from(v@, at as int) == seq![field] + fields_from(v@, end as int));
            }
            fields.push(substring(&v, start, end));
            proof {
                assert(fields.deep_view() =~= before.push(field));
                assert(before.push(field) + fields_from(v@, end as int) =~= before + (seq![field]
                    + fields_from(v@, end as int)));
            }
            at = end;
        }
    }
    proof {
        assert(fields.deep_view() + fields_from(v@, v.len() as int) =~= fields.deep_view());
    }
    fields
}

/// Whether two strings hold the same text.
pub fn same_text(a: &str, b: &str) -> (same: bool)
    ensures
        same == (a@ == b@),
{
    let x = a.to_owned();
    let y = b.to_owned();
    x == y
}

} // verus!
