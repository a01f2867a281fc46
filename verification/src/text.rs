//! Character-level helpers shared by the log reader and the roster.
//!
//! Text is modelled as `Seq<char>`, the view of `str` and `String`. The
//! executable functions work on a `Vec<char>` copy of the text so that every
//! position can be reached in constant time.

use vstd::prelude::*;

verus! {

/// What `str::to_lowercase` makes of a text: its lowercase form as the
/// Unicode tables define it.
pub uninterp spec fn lowercase(s: Seq<char>) -> Seq<char>;

/// Whether `char::is_whitespace` holds of a character: the Unicode property
/// `White_Space`.
pub uninterp spec fn is_white_space(c: char) -> bool;

/// `str::to_lowercase` returns the lowercase form of the text; the contract
/// only gives that form its name.
pub assume_specification[ str::to_lowercase ](s: &str) -> (r: String)
    ensures
        r@ == lowercase(s@),
;

/// `char::is_whitespace` tells whether the character has the `White_Space`
/// property; the contract only gives that property its name.
pub assume_specification[ char::is_whitespace ](c: char) -> (b: bool)
    ensures
        b == is_white_space(c),
;

/// `String::push` appends one character to the end of the string.
pub assume_specification[ String::push ](s: &mut String, c: char)
    ensures
        final(s)@ == old(s)@.push(c),
;

/// Two names are the same player when their lowercase forms agree.
pub open spec fn same_name(a: Seq<char>, b: Seq<char>) -> bool {
    lowercase(a) == lowercase(b)
}

/// `pat` stands in `s` at position `i`.
pub open spec fn occurs_at(s: Seq<char>, i: int, pat: Seq<char>) -> bool {
    &&& 0 <= i
    &&& i + pat.len() <= s.len()
    &&& s.subrange(i, i + pat.len()) == pat
}

/// The first position at or after `from` that holds `c`, or the length of `s`
/// when there is none.
pub open spec fn index_from(s: Seq<char>, c: char, from: int) -> int
    decreases s.len() - from,
{
    if from < 0 || from >= s.len() {
        s.len() as int
    } else if s[from] == c {
        from
    } else {
        index_from(s, c, from + 1)
    }
}

/// The first position at or after `from` where `pat` stands, if any.
pub open spec fn find_from(s: Seq<char>, pat: Seq<char>, from: int) -> Option<int>
    decreases s.len() + 1 - from,
{
    if from < 0 || from + pat.len() > s.len() {
        None
    } else if occurs_at(s, from, pat) {
        Some(from)
    } else {
        find_from(s, pat, from + 1)
    }
}

/// The pieces of `s` from position `from` on, cut at each occurrence of
/// `sep`, the occurrences taken from left to right without overlap. There
/// is always at least one piece; an empty separator cuts nothing.
pub open spec fn pieces_from(s: Seq<char>, sep: Seq<char>, from: int) -> Seq<Seq<char>>
    decreases s.len() - from,
{
    if sep.len() == 0 || from < 0 || from > s.len() {
        seq![s]
    } else {
        match find_from(s, sep, from) {
            None => seq![s.subrange(from, s.len() as int)],
            Some(i) => if from <= i && i + sep.len() <= s.len() {
                seq![s.subrange(from, i)] + pieces_from(s, sep, i + sep.len())
            } else {
                seq![s]
            },
        }
    }
}

/// The pieces of `s` between the occurrences of `sep`.
pub open spec fn pieces(s: Seq<char>, sep: Seq<char>) -> Seq<Seq<char>> {
    pieces_from(s, sep, 0)
}

/// A line without the carriage return that came before its line feed.
pub open spec fn without_return(line: Seq<char>, ended: bool) -> Seq<char> {
    if ended && line.len() > 0 && line.last() == '\r' {
        line.drop_last()
    } else {
        line
    }
}

/// The lines of `s` from position `from` on. A line ends at a line feed, or
/// at a carriage return directly followed by one; the ending is no part of
/// the line, and the last line needs none.
pub open spec fn lines_from(s: Seq<char>, from: int) -> Seq<Seq<char>>
    decreases s.len() + 1 - from,
{
    if from < 0 || from >= s.len() {
        seq![]
    } else {
        let end = index_from(s, '\n', from);
        if from <= end <= s.len() {
            seq![without_return(s.subrange(from, end), end < s.len())] + lines_from(s, end + 1)
        } else {
            seq![]
        }
    }
}

/// The lines of `s`.
pub open spec fn lines(s: Seq<char>) -> Seq<Seq<char>> {
    lines_from(s, 0)
}

/// The first position at or after `from` that holds no white space, or the
/// length of `s`.
pub open spec fn skip_space(s: Seq<char>, from: int) -> int
    decreases s.len() - from,
{
    if from < 0 || from >= s.len() {
        s.len() as int
    } else if !is_white_space(s[from]) {
        from
    } else {
        skip_space(s, from + 1)
    }
}

/// The end of the text that is left of `s[from..to]` once the white space at
/// its end is dropped.
pub open spec fn drop_space(s: Seq<char>, from: int, to: int) -> int
    decreases to - from,
{
    if to <= from || to > s.len() {
        from
    } else if !is_white_space(s[to - 1]) {
        to
    } else {
        drop_space(s, from, to - 1)
    }
}

/// `s` without the white space at its two ends.
pub open spec fn trimmed(s: Seq<char>) -> Seq<char> {
    let start = skip_space(s, 0);
    s.subrange(start, drop_space(s, start, s.len() as int))
}

/// The view of a text that may be missing.
pub open spec fn opt_text(s: Option<String>) -> Option<Seq<char>> {
    match s {
        Some(s) => Some(s@),
        None => None,
    }
}

/// The views of a list of strings.
pub open spec fn texts(v: Seq<String>) -> Seq<Seq<char>> {
    v.map_values(|s: String| s@)
}

/// The position that `index_from` gives lies between `from` and the length
/// of `s`, holds `c` unless it is the length, and nothing before it holds `c`.
pub proof fn lemma_index_from_bounds(s: Seq<char>, c: char, from: int)
    requires
        0 <= from <= s.len(),
    ensures
        from <= index_from(s, c, from) <= s.len(),
        index_from(s, c, from) < s.len() ==> s[index_from(s, c, from)] == c,
        forall|k: int| from <= k < index_from(s, c, from) ==> s[k] != c,
    decreases s.len() - from,
{
    if from < s.len() && s[from] != c {
        lemma_index_from_bounds(s, c, from + 1);
    }
}

/// The position that `find_from` gives is the first at or after `from` where
/// `pat` stands; where it gives none, `pat` stands nowhere from there on.
pub proof fn lemma_find_from_some(s: Seq<char>, pat: Seq<char>, from: int)
    requires
        0 <= from,
    ensures
        match find_from(s, pat, from) {
            Some(i) => from <= i && occurs_at(s, i, pat) && forall|k: int|
                from <= k < i ==> !occurs_at(s, k, pat),
            None => forall|k: int| from <= k ==> !occurs_at(s, k, pat),
        },
    decreases s.len() + 1 - from,
{
    if from + pat.len() <= s.len() && !occurs_at(s, from, pat) {
        lemma_find_from_some(s, pat, from + 1);
    }
}

/// The characters of `s`, in order.
pub fn chars_of(s: &str) -> (v: Vec<char>)
    ensures
        v@ == s@,
{
    let mut v: Vec<char> = Vec::new();
    for c in it: s.chars()
        invariant
            v@ == it.seq().take(it.index() as int),
    {
        v.push(c);
    }
    v
}

/// The text made of the characters `v[from..to]`.
pub fn string_of(v: &Vec<char>, from: usize, to: usize) -> (s: String)
    requires
        from <= to <= v.len(),
    ensures
        s@ == v@.subrange(from as int, to as int),
{
    let mut s = String::new();
    let mut i: usize = from;
    while i < to
        invariant
            from <= i <= to <= v.len(),
            s@ == v@.subrange(from as int, i as int),
        decreases to - i,
    {
        s.push(v[i]);
        i += 1;
    }
    s
}

/// Whether `pat` stands in `s` at position `i`.
pub fn has_at(s: &Vec<char>, i: usize, pat: &Vec<char>) -> (b: bool)
    ensures
        b == occurs_at(s@, i as int, pat@),
        b ==> i + pat.len() <= s.len(),
{
    if pat.len() > s.len() || i > s.len() - pat.len() {
        return false;
    }
    let mut k: usize = 0;
    while k < pat.len()
        invariant
            k <= pat.len(),
            i + pat.len() <= s.len(),
            forall|j: int| 0 <= j < k ==> s@[i + j] == pat@[j],
        decreases pat.len() - k,
    {
        if s[i + k] != pat[k] {
            assert(s@.subrange(i as int, i + pat.len())[k as int] == s@[i + k]);
            return false;
        }
        k += 1;
    }
    assert(s@.subrange(i as int, i + pat.len()) =~= pat@);
    true
}

/// The first position at or after `from` that holds `c`, or the length of `s`.
pub fn position_of(s: &Vec<char>, c: char, from: usize) -> (r: usize)
    requires
        from <= s.len(),
    ensures
        r == index_from(s@, c, from as int),
        from <= r <= s.len(),
{
    let mut i: usize = from;
    while i < s.len() && s[i] != c
        invariant
            from <= i <= s.len(),
            index_from(s@, c, from as int) == index_from(s@, c, i as int),
        decreases s.len() - i,
    {
        i += 1;
    }
    i
}

/// The first position at or after `from` where `pat` stands.
pub fn find_in(s: &Vec<char>, pat: &Vec<char>, from: usize) -> (r: Option<usize>)
    ensures
        r matches Some(i) ==> find_from(s@, pat@, from as int) == Some(i as int),
        r is None ==> find_from(s@, pat@, from as int) is None,
{
    if pat.len() > s.len() {
        return None;
    }
    let last: usize = s.len() - pat.len();
    let mut i: usize = from;
    while i <= last
        invariant
            from <= i,
            last == s.len() - pat.len(),
            find_from(s@, pat@, from as int) == find_from(s@, pat@, i as int),
        decreases last + 1 - i,
    {
        if has_at(s, i, pat) {
            return Some(i);
        }
        if i == last {
            assert(find_from(s@, pat@, i + 1) is None);
            return None;
        }
        i += 1;
    }
    None
}

/// Cuts `text` at each occurrence of `sep`. An empty separator cuts nothing.
pub fn split_text(text: &str, sep: &str) -> (out: Vec<String>)
    ensures
        texts(out@) == pieces(text@, sep@),
{
    let s = chars_of(text);
    let p = chars_of(sep);
    let mut out: Vec<String> = Vec::new();
    if p.len() == 0 {
        let whole = string_of(&s, 0, s.len());
        proof {
            assert(whole@ =~= s@);
            lemma_texts_push(out@, whole);
            assert(texts(out@).push(whole@) =~= seq![s@]);
        }
        out.push(whole);
        return out;
    }
    let mut from: usize = 0;
    loop
        invariant_except_break
            from <= s.len(),
            p@.len() > 0,
            texts(out@) + pieces_from(s@, p@, from as int) == pieces(s@, p@),
        ensures
            texts(out@) == pieces(s@, p@),
        decreases s.len() - from,
    {
        proof {
            lemma_find_from_some(s@, p@, from as int);
        }
        match find_in(&s, &p, from) {
            None => {
                let piece = string_of(&s, from, s.len());
                proof {
                    lemma_texts_push(out@, piece);
                }
                out.push(piece);
                break ;
            },
            Some(i) => {
                let piece = string_of(&s, from, i);
                proof {
                    lemma_texts_push(out@, piece);
                    assert(texts(out@.push(piece)) + pieces_from(s@, p@, i + p@.len())
                        =~= texts(out@) + (seq![piece@] + pieces_from(s@, p@, i + p@.len())));
                }
                out.push(piece);
                from = i + p.len();
            },
        }
    }
    out
}

/// The lines of `text`.
pub fn split_lines(text: &str) -> (out: Vec<String>)
    ensures
        texts(out@) == lines(text@),
{
    let s = chars_of(text);
    let mut out: Vec<String> = Vec::new();
    let mut from: usize = 0;
    while from < s.len()
        invariant
            texts(out@) + lines_from(s@, from as int) == lines(s@),
        decreases s.len() - from,
    {
        let end = position_of(&s, '\n', from);
        let stop: usize = if end < s.len() && from < end && s[end - 1] == '\r' {
            end - 1
        } else {
            end
        };
        let line = string_of(&s, from, stop);
        proof {
            let whole = s@.subrange(from as int, end as int);
            assert(line@ =~= without_return(whole, end < s.len()));
            lemma_texts_push(out@, line);
            assert(texts(out@.push(line)) + lines_from(s@, end + 1) =~= texts(out@) + (seq![
                line@,
            ] + lines_from(s@, end + 1)));
        }
        out.push(line);
        if end == s.len() {
            from = end;
        } else {
            from = end + 1;
        }
    }
    assert(lines_from(s@, from as int) =~= seq![]);
    assert(texts(out@) + Seq::<Seq<char>>::empty() =~= texts(out@));
    out
}

/// `text` without the white space at its two ends.
pub fn trim_text(text: &str) -> (r: String)
    ensures
        r@ == trimmed(text@),
{
    let s = chars_of(text);
    let mut start: usize = 0;
    while start < s.len() && s[start].is_whitespace()
        invariant
            start <= s.len(),
            skip_space(s@, 0) == skip_space(s@, start as int),
        decreases s.len() - start,
    {
        start += 1;
    }
    let mut end: usize = s.len();
    while end > start && s[end - 1].is_whitespace()
        invariant
            start <= end <= s.len(),
            drop_space(s@, start as int, s@.len() as int) == drop_space(
                s@,
                start as int,
                end as int,
            ),
        decreases end,
    {
        end -= 1;
    }
    string_of(&s, start, end)
}

/// The views of a list with one more string are the views of the list with
/// one more view.
pub proof fn lemma_texts_push(v: Seq<String>, s: String)
    ensures
        texts(v.push(s)) == texts(v).push(s@),
        texts(v.push(s)) == texts(v) + seq![s@],
{
    assert(texts(v.push(s)) =~= texts(v).push(s@));
    assert(texts(v).push(s@) =~= texts(v) + seq![s@]);
}

} // verus!
