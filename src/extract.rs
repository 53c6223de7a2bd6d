//! The entry extractor: which lines form a playlist entry, which line is its
//! media reference, and what its metadata line says.

use vstd::prelude::*;
use crate::language::{get_language_code, language_code_of};
use crate::bindings::{
    compile_pattern, country_long_name, country_name, is_valid_url, lower_of, lowercase,
    pattern_is_match, regex_compiles, regex_finds, url_parses, Pattern,
};
use crate::record::{bad, good, Country, Info, InfoView, Language, Tvg};
use crate::text::{
    chars_of, find, find_from, index_of, index_of_char, matches_at, occurs_at, string_of, trim,
    trim_bounds,
};

verus! {

/// The marker that opens a metadata line.
pub const EXTINF: &'static str = "#EXTINF";

/// The scheme of a streaming-protocol reference.
pub const STREAM_SCHEME: &'static str = "acestream://";

/// A local file path: a drive-letter path or an absolute POSIX path, ending
/// in an extension of three to five word characters.
pub const FILE_PATTERN: &'static str = r"^[a-zA-Z]:\\((?:.*?\\)*).*\.[\d\w]{3,5}$|^(/[^/]*)+/?.[\d\w]{3,5}$";

/// Whether `c` is an ASCII letter or digit.
pub open spec fn is_ascii_alnum(c: char) -> bool {
    ('a' <= c && c <= 'z') || ('A' <= c && c <= 'Z') || ('0' <= c && c <= '9')
}

/// Whether the text holds a streaming-protocol reference: the scheme
/// followed by at least one ASCII letter or digit.
pub open spec fn is_stream_ref(s: Seq<char>) -> bool {
    exists|p: int|
        occurs_at(s, STREAM_SCHEME@, p) && p + STREAM_SCHEME@.len() < s.len() && is_ascii_alnum(
            #[trigger] s[p + STREAM_SCHEME@.len()],
        )
}

/// Whether the text is a local file path.
pub open spec fn is_file_path(s: Seq<char>) -> bool {
    regex_compiles(FILE_PATTERN@) && regex_finds(FILE_PATTERN@, s)
}

/// How a candidate line classifies as a media reference: `Some(true)` for a
/// reference that is usable as it stands (a stream reference or a file path),
/// `Some(false)` for a URL that still has to be probed, `None` for no reference.
pub open spec fn classify(s: Seq<char>) -> Option<bool> {
    if s.len() > 0 && (is_stream_ref(s) || url_parses(s)) {
        Some(is_stream_ref(s))
    } else if s.len() > 0 && is_file_path(s) {
        Some(true)
    } else {
        None
    }
}

/// The media reference of the metadata line at `i`: the first of the next two
/// lines that classifies, with whether it is usable as it stands.
pub open spec fn reference_of(lines: Seq<Seq<char>>, i: int) -> Option<(Seq<char>, bool)> {
    if i + 1 < lines.len() && classify(lines[i + 1]) is Some {
        Some((lines[i + 1], classify(lines[i + 1])->0))
    } else if i + 2 < lines.len() && classify(lines[i + 2]) is Some {
        Some((lines[i + 2], classify(lines[i + 2])->0))
    } else {
        None
    }
}

/// The value of the attribute whose opening (`name="`) is `opener`: the text
/// from its first occurrence up to the next quote, trimmed; `None` where the
/// opening or the closing quote is missing.
pub open spec fn attribute_value(line: Seq<char>, opener: Seq<char>) -> Option<Seq<char>> {
    match find_from(line, opener, 0) {
        None => None,
        Some(p) => {
            let s = p + opener.len();
            let q = index_of(line, '"', s);
            if q < line.len() {
                Some(trim(line.subrange(s, q)))
            } else {
                None
            }
        },
    }
}

/// The value of an attribute, or the empty text where it is absent.
pub open spec fn attribute_or_empty(line: Seq<char>, opener: Seq<char>) -> Seq<char> {
    match attribute_value(line, opener) {
        Some(v) => v,
        None => Seq::empty(),
    }
}

/// The last index before `end` that holds `c`, or -1.
pub open spec fn last_index_before(s: Seq<char>, c: char, end: int) -> int
    decreases end,
{
    if end <= 0 || end > s.len() {
        -1
    } else if s[end - 1] == c {
        end - 1
    } else {
        last_index_before(s, c, end - 1)
    }
}

/// The title of a metadata line: the text after its last comma, trimmed,
/// where that text is not empty and holds no quote; otherwise empty.
pub open spec fn title_of(line: Seq<char>) -> Seq<char> {
    let c = last_index_before(line, ',', line.len() as int);
    if c >= 0 && c + 1 < line.len() && index_of(line, '"', c + 1) == line.len() {
        trim(line.subrange(c + 1, line.len() as int))
    } else {
        Seq::empty()
    }
}

/// The record that a metadata line and its media reference make.
pub open spec fn entry_view(meta: Seq<char>, reference: Seq<char>, usable: bool) -> InfoView {
    let country = attribute_value(meta, "tvg-country=\""@);
    let language = attribute_value(meta, "tvg-language=\""@);
    InfoView {
        title: title_of(meta),
        logo: attribute_or_empty(meta, "tvg-logo=\""@),
        url: reference,
        category: attribute_or_empty(meta, "group-title=\""@),
        tvg_id: attribute_or_empty(meta, "tvg-id=\""@),
        tvg_name: attribute_or_empty(meta, "tvg-name=\""@),
        tvg_url: attribute_or_empty(meta, "tvg-url=\""@),
        country_code: attribute_or_empty(meta, "tvg-country=\""@),
        country_name: match country {
            Some(c) => country_long_name(c),
            None => Seq::empty(),
        },
        language_code: match language {
            Some(l) => language_code_of(lower_of(l)),
            None => Seq::empty(),
        },
        language_name: attribute_or_empty(meta, "tvg-language=\""@),
        status: if usable {
            good()
        } else {
            bad()
        },
    }
}

/// The record that the metadata line at `i` yields, if any.
pub open spec fn entry_at(lines: Seq<Seq<char>>, i: int) -> Option<InfoView> {
    if lines[i].len() == 0 {
        None
    } else {
        match reference_of(lines, i) {
            None => None,
            Some((r, usable)) => Some(entry_view(lines[i], r, usable)),
        }
    }
}

/// Whether a line is a metadata line.
pub open spec fn is_meta(line: Seq<char>) -> bool {
    find_from(line, EXTINF@, 0) is Some
}

/// The records that the first `n` lines yield, in document order.
pub open spec fn entries_upto(lines: Seq<Seq<char>>, n: int) -> Seq<InfoView>
    decreases n,
{
    if n <= 0 || n > lines.len() {
        Seq::empty()
    } else {
        let prev = entries_upto(lines, n - 1);
        if is_meta(lines[n - 1]) {
            match entry_at(lines, n - 1) {
                Some(e) => prev.push(e),
                None => prev,
            }
        } else {
            prev
        }
    }
}

/// The records that a sequence of clean lines yields.
pub open spec fn entries(lines: Seq<Seq<char>>) -> Seq<InfoView> {
    entries_upto(lines, lines.len() as int)
}

/// How many of the first `n` lines are metadata lines.
pub open spec fn meta_count(lines: Seq<Seq<char>>, n: int) -> nat
    decreases n,
{
    if n <= 0 || n > lines.len() {
        0
    } else {
        meta_count(lines, n - 1) + if is_meta(lines[n - 1]) {
            1nat
        } else {
            0nat
        }
    }
}

/// Whether the text holds a streaming-protocol reference.
pub fn is_stream_reference(s: &Vec<char>) -> (r: bool)
    ensures
        r == is_stream_ref(s@),
{
    let scheme = chars_of(STREAM_SCHEME);
    let mut p: usize = 0;
    while p < s.len()
        invariant
            scheme@ == STREAM_SCHEME@,
            forall|j: int|
                0 <= j < p ==> !(occurs_at(s@, STREAM_SCHEME@, j) && j + STREAM_SCHEME@.len()
                    < s@.len() && is_ascii_alnum(#[trigger] s@[j + STREAM_SCHEME@.len()])),
        decreases s.len() - p,
    {
        if matches_at(s, &scheme, p) {
            let k = p + scheme.len();
            if k < s.len() {
                let c = s[k];
                if ('a' <= c && c <= 'z') || ('A' <= c && c <= 'Z') || ('0' <= c && c <= '9') {
                    return true;
                }
            }
        }
        p = p + 1;
    }
    proof {
        assert forall|j: int|
            occurs_at(s@, STREAM_SCHEME@, j) && j + STREAM_SCHEME@.len() < s@.len()
                implies !is_ascii_alnum(#[trigger] s@[j + STREAM_SCHEME@.len()]) by {
            assert(0 <= j < p);
        }
    }
    false
}

/// How a candidate line classifies as a media reference.
pub fn classify_line(line: &Vec<char>, file_re: &Option<Pattern>) -> (r: Option<bool>)
    requires
        file_pattern_ready(*file_re),
    ensures
        r == classify(line@),
{
    if line.len() == 0 {
        return None;
    }
    let text = string_of(line, 0, line.len());
    assert(line@.subrange(0, line@.len() as int) =~= line@);
    let stream = is_stream_reference(line);
    if stream || is_valid_url(text.as_str()) {
        return Some(stream);
    }
    match file_re {
        Some(p) => {
            if pattern_is_match(p, text.as_str()) {
                Some(true)
            } else {
                None
            }
        },
        None => None,
    }
}

/// Whether `file_re` is what compiling the file-path pattern gives.
pub open spec fn file_pattern_ready(file_re: Option<Pattern>) -> bool {
    match file_re {
        Some(p) => p@ == FILE_PATTERN@ && regex_compiles(FILE_PATTERN@),
        None => !regex_compiles(FILE_PATTERN@),
    }
}

/// Compiles the file-path pattern.
pub fn file_pattern() -> (r: Option<Pattern>)
    ensures
        file_pattern_ready(r),
{
    compile_pattern(FILE_PATTERN)
}

/// The value of the attribute whose opening is `opener`, as the metadata line gives it.
pub fn get_by_attribute(line: &Vec<char>, opener: &str) -> (r: Option<String>)
    ensures
        r is Some <==> attribute_value(line@, opener@) is Some,
        r matches Some(v) ==> attribute_value(line@, opener@) == Some(v@),
{
    let pat = chars_of(opener);
    match find(line, &pat, 0) {
        None => None,
        Some(p) => {
            assert(p + pat.len() <= line.len());
            let s = p + pat.len();
            let q = index_of_char(line, '"', s);
            if q < line.len() {
                let (a, b) = trim_bounds(line, s, q);
                Some(string_of(line, a, b))
            } else {
                None
            }
        },
    }
}

/// The value of an attribute, or the empty string.
fn attribute_text(line: &Vec<char>, opener: &str) -> (r: String)
    ensures
        r@ == attribute_or_empty(line@, opener@),
{
    match get_by_attribute(line, opener) {
        Some(v) => v,
        None => {
            let e = String::new();
            assert(e@ =~= Seq::<char>::empty());
            e
        },
    }
}

/// The title of a metadata line.
pub fn get_title(line: &Vec<char>) -> (r: String)
    ensures
        r@ == title_of(line@),
{
    let mut end = line.len();
    while end > 0 && line[end - 1] != ','
        invariant
            end <= line.len(),
            last_index_before(line@, ',', line@.len() as int) == last_index_before(
                line@,
                ',',
                end as int,
            ),
        decreases end,
    {
        end = end - 1;
    }
    if end > 0 && end < line.len() && index_of_char(line, '"', end) == line.len() {
        let (a, b) = trim_bounds(line, end, line.len());
        string_of(line, a, b)
    } else {
        String::new()
    }
}

/// Builds the record of a metadata line whose media reference has been found.
fn build_entry(meta: &Vec<char>, reference: &Vec<char>, usable: bool) -> (r: Info)
    ensures
        r@ == entry_view(meta@, reference@, usable),
{
    let country = get_by_attribute(meta, "tvg-country=\"");
    let country = match country {
        Some(code) => {
            let name = country_name(code.as_str());
            Country { code, name }
        },
        None => Country { code: String::new(), name: String::new() },
    };
    let language = get_by_attribute(meta, "tvg-language=\"");
    let language = match language {
        Some(name) => {
            let lower = lowercase(name.as_str());
            let code = get_language_code(lower.as_str()).to_owned();
            Language { code, name }
        },
        None => Language { code: String::new(), name: String::new() },
    };
    let status = if usable {
        "GOOD".to_owned()
    } else {
        "BAD".to_owned()
    };
    let r = Info {
        title: get_title(meta),
        logo: attribute_text(meta, "tvg-logo=\""),
        url: string_of(reference, 0, reference.len()),
        category: attribute_text(meta, "group-title=\""),
        tvg: Tvg {
            id: attribute_text(meta, "tvg-id=\""),
            name: attribute_text(meta, "tvg-name=\""),
            url: attribute_text(meta, "tvg-url=\""),
        },
        country,
        language,
        status,
    };
    assert(reference@.subrange(0, reference@.len() as int) =~= reference@);
    assert(r@.country_code =~= attribute_or_empty(meta@, "tvg-country=\""@));
    assert(r@.language_name =~= attribute_or_empty(meta@, "tvg-language=\""@));
    assert(r@ =~= entry_view(meta@, reference@, usable));
    r
}

/// The record that the metadata line at `i` yields, if any.
pub fn parse_line(lines: &Vec<Vec<char>>, i: usize, file_re: &Option<Pattern>) -> (r: Option<Info>)
    requires
        i < lines.len(),
        file_pattern_ready(*file_re),
    ensures
        r is Some <==> entry_at(crate::text::views(lines@), i as int) is Some,
        r matches Some(info) ==> entry_at(crate::text::views(lines@), i as int) == Some(info@),
{
    let ghost ls = crate::text::views(lines@);
    assert(forall|k: int| 0 <= k < lines.len() ==> ls[k] == (#[trigger] lines@[k])@);
    let meta = &lines[i];
    if meta.len() == 0 {
        return None;
    }
    let mut found: Option<(usize, bool)> = None;
    if i + 1 < lines.len() {
        match classify_line(&lines[i + 1], file_re) {
            Some(usable) => {
                found = Some((i + 1, usable));
            },
            None => {},
        }
    }
    if found.is_none() && lines.len() - i > 2 {
        match classify_line(&lines[i + 2], file_re) {
            Some(usable) => {
                found = Some((i + 2, usable));
            },
            None => {},
        }
    }
    match found {
        None => None,
        Some((k, usable)) => Some(build_entry(meta, &lines[k], usable)),
    }
}

} // verus!
