//! Character-level helpers: whitespace, trimming, searching and the
//! splitting of a document into clean lines.

use vstd::prelude::*;

verus! {

/// The characters with the Unicode `White_Space` property, which is what
/// `char::is_whitespace` tests.
pub open spec fn is_space(c: char) -> bool {
    let u = c as u32;
    ||| 0x09 <= u <= 0x0d
    ||| u == 0x20
    ||| u == 0x85
    ||| u == 0xa0
    ||| u == 0x1680
    ||| 0x2000 <= u <= 0x200a
    ||| u == 0x2028
    ||| u == 0x2029
    ||| u == 0x202f
    ||| u == 0x205f
    ||| u == 0x3000
}

/// `s` without its leading whitespace.
pub open spec fn trim_start(s: Seq<char>) -> Seq<char>
    decreases s.len(),
{
    if s.len() > 0 && is_space(s[0]) {
        trim_start(s.drop_first())
    } else {
        s
    }
}

/// `s` without its trailing whitespace.
pub open spec fn trim_end(s: Seq<char>) -> Seq<char>
    decreases s.len(),
{
    if s.len() > 0 && is_space(s.last()) {
        trim_end(s.drop_last())
    } else {
        s
    }
}

/// `s` without leading and trailing whitespace, as `str::trim` gives it.
pub open spec fn trim(s: Seq<char>) -> Seq<char> {
    trim_end(trim_start(s))
}

/// The first index at or after `from` that holds `c`, or `s.len()` if none does.
pub open spec fn index_of(s: Seq<char>, c: char, from: int) -> int
    decreases s.len() - from,
{
    if from < 0 || from >= s.len() {
        s.len() as int
    } else if s[from] == c {
        from
    } else {
        index_of(s, c, from + 1)
    }
}

/// Whether `pat` occurs in `s` starting at index `i`.
pub open spec fn occurs_at(s: Seq<char>, pat: Seq<char>, i: int) -> bool {
    0 <= i && i + pat.len() <= s.len() && s.subrange(i, i + pat.len()) == pat
}

/// The first index at or after `from` where `pat` occurs in `s`.
pub open spec fn find_from(s: Seq<char>, pat: Seq<char>, from: int) -> Option<int>
    decreases s.len() - from,
{
    if from < 0 || from >= s.len() {
        None
    } else if occurs_at(s, pat, from) {
        Some(from)
    } else {
        find_from(s, pat, from + 1)
    }
}

/// The lines of `s` from index `start` on: each piece between line feeds,
/// trimmed, with the pieces that are then empty left out.
pub open spec fn lines_from(s: Seq<char>, start: int) -> Seq<Seq<char>>
    decreases s.len() - start,
{
    if start < 0 || start > s.len() {
        Seq::empty()
    } else {
        let e = index_of(s, '\n', start);
        let t = trim(s.subrange(start, e));
        let head = if t.len() > 0 {
            seq![t]
        } else {
            Seq::<Seq<char>>::empty()
        };
        if start <= e < s.len() {
            head + lines_from(s, e + 1)
        } else {
            head
        }
    }
}

/// The clean lines of a document: split at line feeds, trimmed, blank lines dropped.
pub open spec fn clean_lines(s: Seq<char>) -> Seq<Seq<char>> {
    lines_from(s, 0)
}

/// The views of a sequence of character vectors.
pub open spec fn views(v: Seq<Vec<char>>) -> Seq<Seq<char>> {
    v.map_values(|x: Vec<char>| x@)
}

pub fn is_space_char(c: char) -> (r: bool)
    ensures
        r == is_space(c),
{
    let u = c as u32;
    (0x09 <= u && u <= 0x0d) || u == 0x20 || u == 0x85 || u == 0xa0 || u == 0x1680 || (0x2000
        <= u && u <= 0x200a) || u == 0x2028 || u == 0x2029 || u == 0x202f || u == 0x205f || u
        == 0x3000
}

proof fn lemma_trim_start_skip(s: Seq<char>, k: int)
    requires
        0 <= k <= s.len(),
        forall|i: int| 0 <= i < k ==> is_space(#[trigger] s[i]),
    ensures
        trim_start(s) == trim_start(s.subrange(k, s.len() as int)),
    decreases k,
{
    if k == 0 {
        assert(s.subrange(0, s.len() as int) =~= s);
    } else {
        let t = s.drop_first();
        assert forall|i: int| 0 <= i < k - 1 implies is_space(#[trigger] t[i]) by {
            assert(t[i] == s[i + 1]);
        }
        lemma_trim_start_skip(t, k - 1);
        assert(t.subrange(k - 1, t.len() as int) =~= s.subrange(k, s.len() as int));
    }
}

proof fn lemma_trim_end_skip(s: Seq<char>, k: int)
    requires
        0 <= k <= s.len(),
        forall|i: int| k <= i < s.len() ==> is_space(#[trigger] s[i]),
    ensures
        trim_end(s) == trim_end(s.subrange(0, k)),
    decreases s.len() - k,
{
    if k == s.len() {
        assert(s.subrange(0, k) =~= s);
    } else {
        let t = s.drop_last();
        assert forall|i: int| k <= i < t.len() implies is_space(#[trigger] t[i]) by {
            assert(t[i] == s[i]);
        }
        lemma_trim_end_skip(t, k);
        assert(t.subrange(0, k) =~= s.subrange(0, k));
    }
}

/// The bounds of `s[from..to]` once trimmed.
pub fn trim_bounds(s: &Vec<char>, from: usize, to: usize) -> (r: (usize, usize))
    requires
        from <= to <= s.len(),
    ensures
        from <= r.0 <= r.1 <= to,
        s@.subrange(r.0 as int, r.1 as int) == trim(s@.subrange(from as int, to as int)),
{
    let mut a = from;
    while a < to && is_space_char(s[a])
        invariant
            from <= a <= to <= s.len(),
            forall|i: int| from <= i < a ==> is_space(#[trigger] s@[i]),
        decreases to - a,
    {
        a = a + 1;
    }
    let mut b = to;
    while b > a && is_space_char(s[b - 1])
        invariant
            from <= a <= b <= to <= s.len(),
            forall|i: int| b <= i < to ==> is_space(#[trigger] s@[i]),
        decreases b - a,
    {
        b = b - 1;
    }
    proof {
        let piece = s@.subrange(from as int, to as int);
        lemma_trim_start_skip(piece, a - from);
        let rest = piece.subrange(a - from, piece.len() as int);
        assert(rest =~= s@.subrange(a as int, to as int));
        assert(trim_start(rest) == rest);
        lemma_trim_end_skip(rest, b - a);
        assert(rest.subrange(0, b - a) =~= s@.subrange(a as int, b as int));
        let kept = s@.subrange(a as int, b as int);
        assert(trim_end(kept) == kept);
    }
    (a, b)
}

/// Relies on `String::push`: the character is appended at the end.
#[verifier::external_body]
pub(crate) fn push_char(s: &mut String, c: char)
    ensures
        final(s)@ == old(s)@.push(c),
{
    s.push(c);
}

/// The characters of `s`, in order.
pub fn chars_of(s: &str) -> (r: Vec<char>)
    ensures
        r@ == s@,
{
    let mut v: Vec<char> = Vec::new();
    for c in it: s.chars()
        invariant
            it.seq() == s@,
            v@ == s@.take(it.index() as int),
    {
        v.push(c);
        assert(v@ =~= s@.take(it.index() as int + 1));
    }
    assert(v@ =~= s@);
    v
}

/// A string holding `v[from..to]`.
pub fn string_of(v: &Vec<char>, from: usize, to: usize) -> (r: String)
    requires
        from <= to <= v.len(),
    ensures
        r@ == v@.subrange(from as int, to as int),
{
    let mut r = String::new();
    let mut i = from;
    while i < to
        invariant
            from <= i <= to <= v.len(),
            r@ == v@.subrange(from as int, i as int),
        decreases to - i,
    {
        push_char(&mut r, v[i]);
        i = i + 1;
        assert(r@ =~= v@.subrange(from as int, i as int));
    }
    r
}

/// Whether `pat` occurs in `s` at index `i`.
pub fn matches_at(s: &Vec<char>, pat: &Vec<char>, i: usize) -> (r: bool)
    ensures
        r == occurs_at(s@, pat@, i as int),
{
    if i > s.len() || pat.len() > s.len() - i {
        return false;
    }
    let mut k: usize = 0;
    while k < pat.len()
        invariant
            i + pat.len() <= s.len(),
            k <= pat.len(),
            forall|j: int| 0 <= j < k ==> s@[i + j] == pat@[j],
        decreases pat.len() - k,
    {
        if s[i + k] != pat[k] {
            assert(s@.subrange(i as int, i + pat.len())[k as int] != pat@[k as int]);
            return false;
        }
        k = k + 1;
    }
    assert(s@.subrange(i as int, i + pat.len()) =~= pat@);
    true
}

/// Whether `a` and `b` hold the same characters.
pub fn same_chars(a: &Vec<char>, b: &Vec<char>) -> (r: bool)
    ensures
        r == (a@ == b@),
{
    if a.len() != b.len() {
        return false;
    }
    let r = matches_at(a, b, 0);
    assert(a@.subrange(0, a@.len() as int) =~= a@);
    r
}

/// Whether the text `s` is exactly `w`.
pub fn str_is(s: &str, w: &str) -> (r: bool)
    ensures
        r == (s@ == w@),
{
    let a = chars_of(s);
    let b = chars_of(w);
    same_chars(&a, &b)
}

/// Whether `s` ends with `suffix`.
pub open spec fn ends_with(s: Seq<char>, suffix: Seq<char>) -> bool {
    suffix.len() <= s.len() && s.subrange(s.len() - suffix.len(), s.len() as int) == suffix
}

/// Whether `s` ends with `suffix`.
pub fn has_suffix(s: &Vec<char>, suffix: &Vec<char>) -> (r: bool)
    ensures
        r == ends_with(s@, suffix@),
{
    if suffix.len() > s.len() {
        return false;
    }
    let r = matches_at(s, suffix, s.len() - suffix.len());
    r
}

/// The first occurrence of `pat` in `s` at or after `from`.
pub fn find(s: &Vec<char>, pat: &Vec<char>, from: usize) -> (r: Option<usize>)
    ensures
        r matches Some(i) ==> find_from(s@, pat@, from as int) == Some(i as int) && occurs_at(
            s@,
            pat@,
            i as int,
        ),
        r is None ==> find_from(s@, pat@, from as int) is None,
{
    let mut i = from;
    while i < s.len()
        invariant
            from <= i,
            find_from(s@, pat@, from as int) == find_from(s@, pat@, i as int),
        decreases s.len() - i,
    {
        if matches_at(s, pat, i) {
            return Some(i);
        }
        i = i + 1;
    }
    None
}

/// The first index at or after `from` holding `c`, or `s.len()`.
pub fn index_of_char(s: &Vec<char>, c: char, from: usize) -> (r: usize)
    requires
        from <= s.len(),
    ensures
        r as int == index_of(s@, c, from as int),
        from <= r <= s.len(),
{
    let mut i = from;
    while i < s.len()
        invariant
            from <= i <= s.len(),
            index_of(s@, c, from as int) == index_of(s@, c, i as int),
        decreases s.len() - i,
    {
        if s[i] == c {
            return i;
        }
        i = i + 1;
    }
    i
}

/// Splits a document into its clean lines.
pub fn split_clean_lines(content: &Vec<char>) -> (r: Vec<Vec<char>>)
    ensures
        views(r@) == clean_lines(content@),
{
    let mut out: Vec<Vec<char>> = Vec::new();
    let mut start: usize = 0;
    loop
        invariant
            start <= content.len(),
            views(out@) + lines_from(content@, start as int) == clean_lines(content@),
        decreases content.len() - start,
    {
        let e = index_of_char(content, '\n', start);
        let (a, b) = trim_bounds(content, start, e);
        let ghost head = if b > a {
            seq![content@.subrange(a as int, b as int)]
        } else {
            Seq::<Seq<char>>::empty()
        };
        let ghost old_out = views(out@);
        if b > a {
            let mut piece: Vec<char> = Vec::new();
            let mut k = a;
            while k < b
                invariant
                    a <= k <= b <= content.len(),
                    piece@ == content@.subrange(a as int, k as int),
                decreases b - k,
            {
                piece.push(content[k]);
                k = k + 1;
                assert(piece@ =~= content@.subrange(a as int, k as int));
            }
            out.push(piece);
        }
        assert(views(out@) =~= old_out + head);
        if e == content.len() {
            assert(lines_from(content@, start as int) == head);
            assert(views(out@) =~= clean_lines(content@));
            return out;
        }
        assert(lines_from(content@, start as int) == head + lines_from(content@, e + 1));
        assert(views(out@) + lines_from(content@, e + 1) =~= old_out + lines_from(content@, start as int));
        start = e + 1;
    }
}

} // verus!
