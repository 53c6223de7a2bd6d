//! Rendering a record set and extracting it again gives the records back.

use vstd::prelude::*;
use crate::extract::{attribute_value, classify, entries, entries_upto, entry_at, entry_view, is_meta, reference_of, title_of, last_index_before, EXTINF};
use crate::language::language_code_of;
use crate::bindings::{country_long_name, lower_of};
use crate::record::InfoView;
use crate::render::{attribute_text, attributes_text, entries_text, m3u_text, meta_line, title_text};
use crate::text::{clean_lines, find_from, index_of, is_space, lines_from, occurs_at, trim, trim_end, trim_start};

verus! {

/// Whether `x` holds no `c`.
pub open spec fn lacks(x: Seq<char>, c: char) -> bool {
    forall|i: int| 0 <= i < x.len() ==> x[i] != c
}

proof fn lemma_index_of_prefix(x: Seq<char>, y: Seq<char>, start: int)
    requires
        0 <= start <= x.len(),
    ensures
        index_of(x + "\n"@ + y, '\n', start) == index_of(x, '\n', start),
    decreases x.len() - start,
{
    reveal_strlit("\n");
    let z = x + "\n"@ + y;
    if start < x.len() {
        assert(z[start] == x[start]);
        lemma_index_of_prefix(x, y, start + 1);
    } else {
        assert(z[start] == '\n');
    }
}

proof fn lemma_index_of_shift(p: Seq<char>, y: Seq<char>, j: int)
    requires
        0 <= j <= y.len(),
    ensures
        index_of(p + y, '\n', p.len() + j) == p.len() + index_of(y, '\n', j),
    decreases y.len() - j,
{
    if j < y.len() {
        assert((p + y)[p.len() + j] == y[j]);
        lemma_index_of_shift(p, y, j + 1);
    }
}

proof fn lemma_index_of_bounds(s: Seq<char>, from: int)
    requires
        0 <= from <= s.len(),
    ensures
        from <= index_of(s, '\n', from) <= s.len(),
    decreases s.len() - from,
{
    if from < s.len() && s[from] != '\n' {
        lemma_index_of_bounds(s, from + 1);
    }
}

proof fn lemma_lines_from_shift(p: Seq<char>, y: Seq<char>, j: int)
    requires
        0 <= j <= y.len(),
    ensures
        lines_from(p + y, p.len() + j) == lines_from(y, j),
    decreases y.len() - j,
{
    let z = p + y;
    lemma_index_of_shift(p, y, j);
    lemma_index_of_bounds(y, j);
    let e = index_of(y, '\n', j);
    assert(z.subrange(p.len() + j, p.len() + e) =~= y.subrange(j, e));
    if e < y.len() {
        lemma_lines_from_shift(p, y, e + 1);
    }
}

proof fn lemma_lines_from_split(x: Seq<char>, y: Seq<char>, start: int)
    requires
        0 <= start <= x.len(),
    ensures
        lines_from(x + "\n"@ + y, start) == lines_from(x, start) + lines_from(y, 0),
    decreases x.len() - start,
{
    reveal_strlit("\n");
    let z = x + "\n"@ + y;
    lemma_index_of_prefix(x, y, start);
    lemma_index_of_bounds(x, start);
    let e = index_of(x, '\n', start);
    assert(z.subrange(start, e) =~= x.subrange(start, e));
    let t = trim(x.subrange(start, e));
    let head = if t.len() > 0 {
        seq![t]
    } else {
        Seq::<Seq<char>>::empty()
    };
    if e < x.len() {
        lemma_lines_from_split(x, y, e + 1);
        assert(lines_from(z, start) == head + lines_from(z, e + 1));
        assert(lines_from(x, start) == head + lines_from(x, e + 1));
        assert(head + (lines_from(x, e + 1) + lines_from(y, 0)) =~= head + lines_from(x, e + 1)
            + lines_from(y, 0));
    } else {
        assert(z =~= (x + "\n"@) + y);
        lemma_lines_from_shift(x + "\n"@, y, 0);
        assert(lines_from(z, start) == head + lines_from(z, e + 1));
        assert(lines_from(x, start) == head);
    }
}

/// Splitting a document at a line feed splits its clean lines there.
pub proof fn lemma_clean_lines_split(x: Seq<char>, y: Seq<char>)
    ensures
        clean_lines(x + "\n"@ + y) == clean_lines(x) + clean_lines(y),
{
    lemma_lines_from_split(x, y, 0);
}

proof fn lemma_index_of_none(s: Seq<char>, from: int)
    requires
        0 <= from <= s.len(),
        lacks(s, '\n'),
    ensures
        index_of(s, '\n', from) == s.len(),
    decreases s.len() - from,
{
    if from < s.len() {
        lemma_index_of_none(s, from + 1);
    }
}

/// A text with content, no line feed and no surrounding whitespace is one clean line.
pub proof fn lemma_clean_lines_single(x: Seq<char>)
    requires
        x.len() > 0,
        lacks(x, '\n'),
        trim(x) == x,
    ensures
        clean_lines(x) == seq![x],
{
    lemma_index_of_none(x, 0);
    assert(x.subrange(0, x.len() as int) =~= x);
}

/// Whether an attribute value is written out and read back unchanged: no
/// quote, no line feed, no surrounding whitespace, and no `=` at its end.
pub open spec fn writable_value(x: Seq<char>) -> bool {
    &&& lacks(x, '"')
    &&& lacks(x, '\n')
    &&& trim(x) == x
    &&& x.len() > 0 ==> x.last() != '='
}

/// Whether a record is written out and read back unchanged: writable
/// attribute values, a title that is writable and holds no comma, and a
/// media reference that classifies, sits on one trimmed line and holds no
/// metadata marker.
pub open spec fn writable_record(v: InfoView) -> bool {
    &&& writable_value(v.tvg_id)
    &&& writable_value(v.tvg_name)
    &&& writable_value(v.tvg_url)
    &&& writable_value(v.logo)
    &&& writable_value(v.country_code)
    &&& writable_value(v.language_name)
    &&& writable_value(v.category)
    &&& writable_value(v.title)
    &&& lacks(v.title, ',')
    &&& classify(v.url) is Some
    &&& lacks(v.url, '\n')
    &&& trim(v.url) == v.url
    &&& !is_meta(v.url)
}

/// The record that extraction makes of the rendered form of `v`.
pub open spec fn reparsed(v: InfoView) -> InfoView {
    entry_view(meta_line(v), v.url, classify(v.url)->0)
}

/// The lines of the rendered entries: a metadata line and a reference per record.
pub open spec fn body_lines(s: Seq<InfoView>) -> Seq<Seq<char>>
    decreases s.len(),
{
    if s.len() == 0 {
        Seq::empty()
    } else {
        body_lines(s.drop_last()) + seq![meta_line(s.last()), s.last().url]
    }
}

proof fn lemma_lacks_add(a: Seq<char>, b: Seq<char>, c: char)
    requires
        lacks(a, c),
        lacks(b, c),
    ensures
        lacks(a + b, c),
{
    assert forall|i: int| 0 <= i < (a + b).len() implies (a + b)[i] != c by {
        if i < a.len() {
            assert((a + b)[i] == a[i]);
        } else {
            assert((a + b)[i] == b[i - a.len()]);
        }
    }
}

proof fn lemma_last_not_space(a: Seq<char>, b: Seq<char>)
    requires
        a.len() > 0,
        !is_space(a.last()),
        b.len() == 0 || !is_space(b.last()),
    ensures
        (a + b).len() > 0,
        !is_space((a + b).last()),
{
    if b.len() == 0 {
        assert(a + b =~= a);
    } else {
        assert((a + b).last() == b.last());
    }
}

proof fn lemma_trimmed_ends(x: Seq<char>)
    requires
        trim(x) == x,
        x.len() > 0,
    ensures
        !is_space(x[0]),
        !is_space(x.last()),
{
    lemma_trim_end_prefix(trim_start(x));
    lemma_trim_start_suffix(x);
    lemma_trim_end_last(trim_start(x));
    let t = trim_start(x);
    let u = trim_end(t);
    assert(u == x);
    assert(u[0] == t[0]);
}

proof fn lemma_trim_end_prefix(x: Seq<char>)
    ensures
        trim_end(x).len() <= x.len(),
        trim_end(x) == x.subrange(0, trim_end(x).len() as int),
    decreases x.len(),
{
    if x.len() > 0 && is_space(x.last()) {
        lemma_trim_end_prefix(x.drop_last());
        assert(x.drop_last().subrange(0, trim_end(x).len() as int) =~= x.subrange(
            0,
            trim_end(x).len() as int,
        ));
    } else {
        assert(x.subrange(0, x.len() as int) =~= x);
    }
}

proof fn lemma_trim_end_last(x: Seq<char>)
    ensures
        trim_end(x).len() > 0 ==> !is_space(trim_end(x).last()),
    decreases x.len(),
{
    if x.len() > 0 && is_space(x.last()) {
        lemma_trim_end_last(x.drop_last());
    }
}

proof fn lemma_trim_start_suffix(x: Seq<char>)
    ensures
        trim_start(x).len() > 0 ==> !is_space(trim_start(x)[0]),
    decreases x.len(),
{
    if x.len() > 0 && is_space(x[0]) {
        lemma_trim_start_suffix(x.drop_first());
    }
}

proof fn lemma_trimmed_when_ends_solid(x: Seq<char>)
    requires
        x.len() > 0,
        !is_space(x[0]),
        !is_space(x.last()),
    ensures
        trim(x) == x,
{
}

proof fn lemma_attribute_text_shape(name: Seq<char>, value: Seq<char>)
    requires
        lacks(name, '\n'),
        lacks(value, '\n'),
    ensures
        lacks(attribute_text(name, value), '\n'),
        attribute_text(name, value).len() == 0 || !is_space(attribute_text(name, value).last()),
{
    reveal_strlit(" ");
    reveal_strlit("=\"");
    reveal_strlit("\"");
    if value.len() > 0 {
        lemma_lacks_add(" "@, name, '\n');
        lemma_lacks_add(" "@ + name, "=\""@, '\n');
        lemma_lacks_add(" "@ + name + "=\""@, value, '\n');
        lemma_lacks_add(" "@ + name + "=\""@ + value, "\""@, '\n');
    }
}

proof fn lemma_name_lacks_newline()
    ensures
        lacks("tvg-id"@, '\n'),
        lacks("tvg-name"@, '\n'),
        lacks("tvg-url"@, '\n'),
        lacks("tvg-logo"@, '\n'),
        lacks("tvg-country"@, '\n'),
        lacks("tvg-language"@, '\n'),
        lacks("group-title"@, '\n'),
{
    reveal_strlit("tvg-id");
    reveal_strlit("tvg-name");
    reveal_strlit("tvg-url");
    reveal_strlit("tvg-logo");
    reveal_strlit("tvg-country");
    reveal_strlit("tvg-language");
    reveal_strlit("group-title");
}

proof fn lemma_attributes_shape(v: InfoView)
    requires
        writable_record(v),
    ensures
        lacks(attributes_text(v), '\n'),
        attributes_text(v).len() == 0 || !is_space(attributes_text(v).last()),
{
    lemma_name_lacks_newline();
    let a1 = attribute_text("tvg-id"@, v.tvg_id);
    let a2 = attribute_text("tvg-name"@, v.tvg_name);
    let a3 = attribute_text("tvg-url"@, v.tvg_url);
    let a4 = attribute_text("tvg-logo"@, v.logo);
    let a5 = attribute_text("tvg-country"@, v.country_code);
    let a6 = attribute_text("tvg-language"@, v.language_name);
    let a7 = attribute_text("group-title"@, v.category);
    lemma_attribute_text_shape("tvg-id"@, v.tvg_id);
    lemma_attribute_text_shape("tvg-name"@, v.tvg_name);
    lemma_attribute_text_shape("tvg-url"@, v.tvg_url);
    lemma_attribute_text_shape("tvg-logo"@, v.logo);
    lemma_attribute_text_shape("tvg-country"@, v.country_code);
    lemma_attribute_text_shape("tvg-language"@, v.language_name);
    lemma_attribute_text_shape("group-title"@, v.category);
    lemma_lacks_add(a1, a2, '\n');
    lemma_lacks_add(a1 + a2, a3, '\n');
    lemma_lacks_add(a1 + a2 + a3, a4, '\n');
    lemma_lacks_add(a1 + a2 + a3 + a4, a5, '\n');
    lemma_lacks_add(a1 + a2 + a3 + a4 + a5, a6, '\n');
    lemma_lacks_add(a1 + a2 + a3 + a4 + a5 + a6, a7, '\n');
    lemma_last_solid(a1, a2);
    lemma_last_solid(a1 + a2, a3);
    lemma_last_solid(a1 + a2 + a3, a4);
    lemma_last_solid(a1 + a2 + a3 + a4, a5);
    lemma_last_solid(a1 + a2 + a3 + a4 + a5, a6);
    lemma_last_solid(a1 + a2 + a3 + a4 + a5 + a6, a7);
}

proof fn lemma_last_solid(a: Seq<char>, b: Seq<char>)
    requires
        a.len() == 0 || !is_space(a.last()),
        b.len() == 0 || !is_space(b.last()),
    ensures
        (a + b).len() == 0 || !is_space((a + b).last()),
{
    if b.len() == 0 {
        assert(a + b =~= a);
    } else {
        assert((a + b).last() == b.last());
    }
}

/// The rendered metadata line of a writable record is one clean line, and a
/// metadata line.
proof fn lemma_meta_line_shape(v: InfoView)
    requires
        writable_record(v),
    ensures
        meta_line(v).len() > 0,
        lacks(meta_line(v), '\n'),
        trim(meta_line(v)) == meta_line(v),
        is_meta(meta_line(v)),
{
    reveal_strlit("#EXTINF:-1");
    reveal_strlit("#EXTINF");
    reveal_strlit(",");
    let mark = "#EXTINF:-1"@;
    let x = attributes_text(v);
    let t = title_text(v.title);
    lemma_attributes_shape(v);
    if v.title.len() > 0 {
        lemma_trimmed_ends(v.title);
        lemma_lacks_add(","@, v.title, '\n');
        assert((","@ + v.title).last() == v.title.last());
    }
    lemma_lacks_add(x, t, '\n');
    lemma_last_solid(x, t);
    lemma_lacks_add(mark, x + t, '\n');
    lemma_last_not_space(mark, x + t);
    let m = meta_line(v);
    assert(m[0] == '#');
    lemma_trimmed_when_ends_solid(m);
    assert(m.subrange(0, 7) =~= "#EXTINF"@);
    assert(occurs_at(m, EXTINF@, 0));
}

proof fn lemma_header_line()
    ensures
        clean_lines("#EXTM3U"@) == seq!["#EXTM3U"@],
        !is_meta("#EXTM3U"@),
{
    reveal_strlit("#EXTM3U");
    reveal_strlit("#EXTINF");
    let h = "#EXTM3U"@;
    assert(lacks(h, '\n'));
    assert(trim_start(h) == h);
    assert(trim_end(h) == h);
    lemma_clean_lines_single(h);
    assert(h.subrange(0, 7) != EXTINF@) by {
        assert(h.subrange(0, 7)[4] != EXTINF@[4]);
    }
    lemma_find_from_short(h, EXTINF@, 1);
}

proof fn lemma_find_from_short(s: Seq<char>, pat: Seq<char>, from: int)
    requires
        0 <= from,
        s.len() < from + pat.len(),
    ensures
        find_from(s, pat, from) is None,
    decreases s.len() - from,
{
    if from < s.len() {
        lemma_find_from_short(s, pat, from + 1);
    }
}

proof fn lemma_rendered_text_step(s: Seq<InfoView>)
    requires
        s.len() > 0,
    ensures
        "#EXTM3U"@ + entries_text(s) == ("#EXTM3U"@ + entries_text(s.drop_last()) + "\n"@
            + meta_line(s.last())) + "\n"@ + s.last().url,
{
    let h = "#EXTM3U"@;
    let nl = "\n"@;
    let e0 = entries_text(s.drop_last());
    let e1 = e0 + nl;
    let e2 = e1 + meta_line(s.last());
    let e3 = e2 + nl;
    assert(entries_text(s) == e3 + s.last().url);
    assert(h + (e3 + s.last().url) =~= (h + e3) + s.last().url);
    assert(h + e3 =~= (h + e2) + nl);
    assert(h + e2 =~= (h + e1) + meta_line(s.last()));
    assert(h + e1 =~= (h + e0) + nl);
}

/// The clean lines of a rendered record set: the header, then a metadata
/// line and a reference line per record.
proof fn lemma_rendered_lines(s: Seq<InfoView>)
    requires
        forall|k: int| 0 <= k < s.len() ==> writable_record(#[trigger] s[k]),
    ensures
        clean_lines("#EXTM3U"@ + entries_text(s)) == seq!["#EXTM3U"@] + body_lines(s),
    decreases s.len(),
{
    reveal_strlit("\n");
    if s.len() == 0 {
        lemma_header_line();
        assert("#EXTM3U"@ + entries_text(s) =~= "#EXTM3U"@);
        assert(seq!["#EXTM3U"@] + body_lines(s) =~= seq!["#EXTM3U"@]);
    } else {
        let d = s.drop_last();
        let v = s.last();
        assert forall|k: int| 0 <= k < d.len() implies writable_record(#[trigger] d[k]) by {
            assert(d[k] == s[k]);
        }
        assert(writable_record(s[s.len() - 1]));
        lemma_rendered_lines(d);
        lemma_meta_line_shape(v);
        let b = "#EXTM3U"@ + entries_text(d);
        let m = meta_line(v);
        lemma_rendered_text_step(s);
        lemma_clean_lines_split(b + "\n"@ + m, v.url);
        lemma_clean_lines_split(b, m);
        lemma_clean_lines_single(m);
        lemma_clean_lines_single(v.url);
        assert(seq!["#EXTM3U"@] + body_lines(s) =~= seq!["#EXTM3U"@] + body_lines(d) + seq![m]
            + seq![v.url]);
    }
}

proof fn lemma_body_lines_index(s: Seq<InfoView>, k: int)
    requires
        0 <= k < s.len(),
    ensures
        body_lines(s).len() == 2 * s.len(),
        body_lines(s)[2 * k] == meta_line(s[k]),
        body_lines(s)[2 * k + 1] == s[k].url,
    decreases s.len(),
{
    let d = s.drop_last();
    lemma_body_lines_len(s);
    lemma_body_lines_len(d);
    if k < s.len() - 1 {
        lemma_body_lines_index(d, k);
        assert(d[k] == s[k]);
    } else if s.len() > 1 {
        lemma_body_lines_index(d, 0);
    }
}

proof fn lemma_body_lines_len(s: Seq<InfoView>)
    ensures
        body_lines(s).len() == 2 * s.len(),
    decreases s.len(),
{
    if s.len() > 0 {
        lemma_body_lines_len(s.drop_last());
    }
}

/// Extracting the lines of a rendered record set gives, record by record,
/// what extraction makes of each rendered record.
proof fn lemma_rendered_entries(s: Seq<InfoView>, k: int)
    requires
        forall|j: int| 0 <= j < s.len() ==> writable_record(#[trigger] s[j]),
        0 <= k <= s.len(),
    ensures
        entries_upto(seq!["#EXTM3U"@] + body_lines(s), 2 * k + 1) == s.take(k).map_values(
            |v: InfoView| reparsed(v),
        ),
    decreases k,
{
    let lines = seq!["#EXTM3U"@] + body_lines(s);
    lemma_body_lines_len(s);
    if k == 0 {
        lemma_header_line();
        assert(lines[0] == "#EXTM3U"@);
        assert(entries_upto(lines, 0) == Seq::<InfoView>::empty());
        assert(s.take(0).map_values(|v: InfoView| reparsed(v)) =~= Seq::<InfoView>::empty());
    } else {
        lemma_rendered_entries(s, k - 1);
        let v = s[k - 1];
        lemma_body_lines_index(s, k - 1);
        assert(lines[2 * k - 1] == body_lines(s)[2 * (k - 1)]);
        assert(lines[2 * k] == body_lines(s)[2 * (k - 1) + 1]);
        assert(writable_record(v));
        lemma_meta_line_shape(v);
        assert(lines[2 * k - 1] == meta_line(v));
        assert(lines[2 * k] == v.url);
        assert(classify(lines[2 * k]) is Some);
        assert(reference_of(lines, 2 * k - 1) == Some((v.url, classify(v.url)->0)));
        assert(entry_at(lines, 2 * k - 1) == Some(reparsed(v)));
        assert(entries_upto(lines, 2 * k) == entries_upto(lines, 2 * k - 1).push(reparsed(v)));
        assert(!is_meta(lines[2 * k]));
        assert(entries_upto(lines, 2 * k + 1) == entries_upto(lines, 2 * k));
        assert(s.take(k).map_values(|v: InfoView| reparsed(v)) =~= s.take(k - 1).map_values(
            |v: InfoView| reparsed(v),
        ).push(reparsed(v)));
    }
}

/// Extracting the rendered form of a record set of writable records gives
/// back one record per record, each what extraction makes of its rendered form.
proof fn lemma_render_then_extract(s: Seq<InfoView>)
    requires
        s.len() > 0,
        forall|j: int| 0 <= j < s.len() ==> writable_record(#[trigger] s[j]),
    ensures
        entries(clean_lines(m3u_text(s))) == s.map_values(|v: InfoView| reparsed(v)),
{
    lemma_rendered_lines(s);
    lemma_body_lines_len(s);
    let lines = seq!["#EXTM3U"@] + body_lines(s);
    assert(lines.len() == 2 * s.len() + 1);
    lemma_rendered_entries(s, s.len() as int);
    assert(s.take(s.len() as int) =~= s);
}

proof fn lemma_last_index_found(s: Seq<char>, c: char, end: int, q: int)
    requires
        0 <= q < end <= s.len(),
        s[q] == c,
        forall|j: int| q < j < end ==> s[j] != c,
    ensures
        last_index_before(s, c, end) == q,
    decreases end - q,
{
    if end - 1 > q {
        lemma_last_index_found(s, c, end - 1, q);
    }
}

proof fn lemma_last_index_none(s: Seq<char>, c: char, end: int)
    requires
        0 <= end <= s.len(),
        forall|j: int| 0 <= j < end ==> s[j] != c,
    ensures
        last_index_before(s, c, end) == -1,
    decreases end,
{
    if end > 0 {
        lemma_last_index_none(s, c, end - 1);
    }
}

proof fn lemma_last_index_props(s: Seq<char>, c: char, end: int)
    requires
        0 <= end <= s.len(),
    ensures
        -1 <= last_index_before(s, c, end) < end,
        last_index_before(s, c, end) >= 0 ==> s[last_index_before(s, c, end)] == c,
    decreases end,
{
    if end > 0 && s[end - 1] != c {
        lemma_last_index_props(s, c, end - 1);
    }
}

proof fn lemma_index_of_absent(s: Seq<char>, c: char, from: int)
    requires
        0 <= from <= s.len(),
        forall|j: int| from <= j < s.len() ==> s[j] != c,
    ensures
        index_of(s, c, from) == s.len(),
    decreases s.len() - from,
{
    if from < s.len() {
        lemma_index_of_absent(s, c, from + 1);
    }
}

proof fn lemma_index_of_at_most(s: Seq<char>, c: char, from: int, j: int)
    requires
        0 <= from <= j < s.len(),
        s[j] == c,
    ensures
        index_of(s, c, from) <= j,
    decreases j - from,
{
    if s[from] != c {
        lemma_index_of_at_most(s, c, from + 1, j);
    }
}

proof fn lemma_ends_quote(a: Seq<char>, b: Seq<char>)
    requires
        a.len() == 0 || a.last() == '"',
        b.len() == 0 || b.last() == '"',
    ensures
        (a + b).len() == 0 || (a + b).last() == '"',
{
    if b.len() == 0 {
        assert(a + b =~= a);
    } else {
        assert((a + b).last() == b.last());
    }
}

proof fn lemma_attributes_end_in_quote(v: InfoView)
    ensures
        attributes_text(v).len() == 0 || attributes_text(v).last() == '"',
{
    reveal_strlit("\"");
    let a1 = attribute_text("tvg-id"@, v.tvg_id);
    let a2 = attribute_text("tvg-name"@, v.tvg_name);
    let a3 = attribute_text("tvg-url"@, v.tvg_url);
    let a4 = attribute_text("tvg-logo"@, v.logo);
    let a5 = attribute_text("tvg-country"@, v.country_code);
    let a6 = attribute_text("tvg-language"@, v.language_name);
    let a7 = attribute_text("group-title"@, v.category);
    lemma_attribute_ends_in_quote("tvg-id"@, v.tvg_id);
    lemma_attribute_ends_in_quote("tvg-name"@, v.tvg_name);
    lemma_attribute_ends_in_quote("tvg-url"@, v.tvg_url);
    lemma_attribute_ends_in_quote("tvg-logo"@, v.logo);
    lemma_attribute_ends_in_quote("tvg-country"@, v.country_code);
    lemma_attribute_ends_in_quote("tvg-language"@, v.language_name);
    lemma_attribute_ends_in_quote("group-title"@, v.category);
    lemma_ends_quote(a1, a2);
    lemma_ends_quote(a1 + a2, a3);
    lemma_ends_quote(a1 + a2 + a3, a4);
    lemma_ends_quote(a1 + a2 + a3 + a4, a5);
    lemma_ends_quote(a1 + a2 + a3 + a4 + a5, a6);
    lemma_ends_quote(a1 + a2 + a3 + a4 + a5 + a6, a7);
}

proof fn lemma_attribute_ends_in_quote(name: Seq<char>, value: Seq<char>)
    ensures
        attribute_text(name, value).len() == 0 || attribute_text(name, value).last() == '"',
{
    reveal_strlit("\"");
    if value.len() > 0 {
        let a = attribute_text(name, value);
        assert(a.last() == "\""@[0]);
    }
}

/// The title read back from the metadata line of a writable record is its title.
proof fn lemma_title_round_trip(v: InfoView)
    requires
        writable_record(v),
    ensures
        title_of(meta_line(v)) == v.title,
{
    reveal_strlit("#EXTINF:-1");
    reveal_strlit(",");
    let m = meta_line(v);
    let mark = "#EXTINF:-1"@;
    let x = attributes_text(v);
    if v.title.len() > 0 {
        let c = m.len() - v.title.len() - 1;
        assert(m =~= (mark + x + ","@) + v.title);
        assert(m[c] == ',');
        assert forall|j: int| c < j < m.len() implies m[j] != ',' by {
            assert(m[j] == v.title[j - c - 1]);
        }
        lemma_last_index_found(m, ',', m.len() as int, c);
        assert forall|j: int| c + 1 <= j < m.len() implies m[j] != '"' by {
            assert(m[j] == v.title[j - c - 1]);
        }
        lemma_index_of_absent(m, '"', c + 1);
        assert(m.subrange(c + 1, m.len() as int) =~= v.title);
    } else {
        assert(title_text(v.title) =~= Seq::<char>::empty());
        assert(m =~= mark + x);
        lemma_attributes_end_in_quote(v);
        lemma_last_index_props(m, ',', m.len() as int);
        let c = last_index_before(m, ',', m.len() as int);
        if x.len() == 0 {
            assert(m =~= mark);
            assert forall|j: int| 0 <= j < m.len() implies m[j] != ',' by {}
            lemma_last_index_none(m, ',', m.len() as int);
        } else {
            assert(m.last() == '"');
            if c >= 0 && c + 1 < m.len() {
                lemma_index_of_at_most(m, '"', c + 1, m.len() - 1);
            }
        }
    }
}

/// The attribute names, in the order they are written.
pub open spec fn attr_names() -> Seq<Seq<char>> {
    seq![
        "tvg-id"@,
        "tvg-name"@,
        "tvg-url"@,
        "tvg-logo"@,
        "tvg-country"@,
        "tvg-language"@,
        "group-title"@,
    ]
}

/// The attribute values of a record, in the order they are written.
pub open spec fn attr_values(v: InfoView) -> Seq<Seq<char>> {
    seq![v.tvg_id, v.tvg_name, v.tvg_url, v.logo, v.country_code, v.language_name, v.category]
}

/// The first `n` attributes as written.
pub open spec fn pieces(ns: Seq<Seq<char>>, vs: Seq<Seq<char>>, n: int) -> Seq<char>
    decreases n,
{
    if n <= 0 {
        Seq::empty()
    } else {
        pieces(ns, vs, n - 1) + attribute_text(ns[n - 1], vs[n - 1])
    }
}

/// Whether an `=` directly followed by a quote stands at `q`.
pub open spec fn eq_quote_at(s: Seq<char>, q: int) -> bool {
    0 <= q && q + 1 < s.len() && s[q] == '=' && s[q + 1] == '"'
}

/// Whether an attribute name can be told apart where it is written.
pub open spec fn plain_name(x: Seq<char>) -> bool {
    x.len() >= 2 && lacks(x, ' ') && lacks(x, '=') && lacks(x, '"')
}

proof fn lemma_attributes_pieces(v: InfoView)
    ensures
        attributes_text(v) == pieces(attr_names(), attr_values(v), 7),
{
    let ns = attr_names();
    let vs = attr_values(v);
    assert(pieces(ns, vs, 0) == Seq::<char>::empty());
    assert(pieces(ns, vs, 1) =~= attribute_text("tvg-id"@, v.tvg_id));
    assert(pieces(ns, vs, 2) == pieces(ns, vs, 1) + attribute_text("tvg-name"@, v.tvg_name));
    assert(pieces(ns, vs, 3) == pieces(ns, vs, 2) + attribute_text("tvg-url"@, v.tvg_url));
    assert(pieces(ns, vs, 4) == pieces(ns, vs, 3) + attribute_text("tvg-logo"@, v.logo));
    assert(pieces(ns, vs, 5) == pieces(ns, vs, 4) + attribute_text("tvg-country"@, v.country_code));
    assert(pieces(ns, vs, 6) == pieces(ns, vs, 5) + attribute_text("tvg-language"@, v.language_name));
    assert(pieces(ns, vs, 7) == pieces(ns, vs, 6) + attribute_text("group-title"@, v.category));
}

proof fn lemma_piece_shape(name: Seq<char>, value: Seq<char>)
    requires
        value.len() > 0,
    ensures
        attribute_text(name, value) == seq![' '] + name + seq!['=', '"'] + value + seq!['"'],
{
    reveal_strlit(" ");
    reveal_strlit("=\"");
    reveal_strlit("\"");
    assert(" "@ =~= seq![' ']);
    assert("=\""@ =~= seq!['=', '"']);
    assert("\""@ =~= seq!['"']);
}

proof fn lemma_piece_eq_quote(name: Seq<char>, value: Seq<char>, r: int)
    requires
        plain_name(name),
        writable_value(value),
        eq_quote_at(attribute_text(name, value), r),
    ensures
        value.len() > 0,
        r == 1 + name.len(),
{
    if value.len() > 0 {
        lemma_piece_shape(name, value);
        let a = attribute_text(name, value);
        let nl = name.len() as int;
        let vl = value.len() as int;
        assert(a.len() == nl + vl + 4);
        if r == 0 {
            assert(a[0] == ' ');
        } else if r <= nl {
            assert(a[r] == name[r - 1]);
        } else if r == nl + 2 {
            assert(a[r] == '"');
        } else if r >= nl + 3 {
            assert(a[r] == value[r - nl - 3]);
            if r + 1 < nl + 3 + vl {
                assert(a[r + 1] == value[r + 1 - nl - 3]);
            } else {
                assert(r - nl - 3 == vl - 1);
                assert(value.last() == '=');
            }
        }
    } else {
        reveal_strlit("");
    }
}

proof fn lemma_eq_quote_add(a: Seq<char>, b: Seq<char>, q: int)
    requires
        eq_quote_at(a + b, q),
    ensures
        eq_quote_at(a, q) || (q >= a.len() && eq_quote_at(b, q - a.len())) || (q == a.len() - 1
            && a.last() == '=' && b[0] == '"'),
{
    if q + 1 < a.len() {
        assert((a + b)[q] == a[q]);
        assert((a + b)[q + 1] == a[q + 1]);
    } else if q >= a.len() {
        assert((a + b)[q] == b[q - a.len()]);
        assert((a + b)[q + 1] == b[q + 1 - a.len()]);
    } else {
        assert((a + b)[q] == a[q]);
        assert((a + b)[q + 1] == b[0]);
    }
}

/// Where an `=` and a quote stand together in written attributes: only at
/// the opening of an attribute with a value.
proof fn lemma_pieces_eq_quote(ns: Seq<Seq<char>>, vs: Seq<Seq<char>>, n: int)
    requires
        0 <= n <= ns.len(),
        ns.len() == vs.len(),
        forall|j: int| 0 <= j < ns.len() ==> plain_name(#[trigger] ns[j]),
        forall|j: int| 0 <= j < vs.len() ==> writable_value(#[trigger] vs[j]),
    ensures
        pieces(ns, vs, n).len() == 0 || pieces(ns, vs, n).last() == '"',
        forall|q: int|
            #[trigger] eq_quote_at(pieces(ns, vs, n), q) ==> exists|j: int|
                0 <= j < n && vs[j].len() > 0 && q == pieces(ns, vs, j).len() + 1 + ns[j].len(),
    decreases n,
{
    if n > 0 {
        lemma_pieces_eq_quote(ns, vs, n - 1);
        let w = pieces(ns, vs, n - 1);
        let a = attribute_text(ns[n - 1], vs[n - 1]);
        assert(plain_name(ns[n - 1]));
        assert(writable_value(vs[n - 1]));
        lemma_attribute_ends_in_quote(ns[n - 1], vs[n - 1]);
        lemma_ends_quote(w, a);
        assert forall|q: int| #[trigger] eq_quote_at(pieces(ns, vs, n), q) implies exists|j: int|
            0 <= j < n && vs[j].len() > 0 && q == pieces(ns, vs, j).len() + 1 + ns[j].len() by {
            lemma_eq_quote_add(w, a, q);
            if eq_quote_at(w, q) {
                let j = choose|j: int|
                    0 <= j < n - 1 && vs[j].len() > 0 && q == pieces(ns, vs, j).len() + 1
                        + ns[j].len();
                assert(0 <= j < n);
            } else if q >= w.len() && eq_quote_at(a, q - w.len()) {
                lemma_piece_eq_quote(ns[n - 1], vs[n - 1], q - w.len());
                assert(q == pieces(ns, vs, n - 1).len() + 1 + ns[n - 1].len());
            } else {
                assert(w.last() == '"');
            }
        }
    }
}

proof fn lemma_pieces_prefix(ns: Seq<Seq<char>>, vs: Seq<Seq<char>>, j: int, n: int)
    requires
        0 <= j <= n,
    ensures
        pieces(ns, vs, j).len() <= pieces(ns, vs, n).len(),
        pieces(ns, vs, n).subrange(0, pieces(ns, vs, j).len() as int) == pieces(ns, vs, j),
    decreases n - j,
{
    if j < n {
        lemma_pieces_prefix(ns, vs, j, n - 1);
        let w = pieces(ns, vs, n - 1);
        let a = attribute_text(ns[n - 1], vs[n - 1]);
        assert((w + a).subrange(0, pieces(ns, vs, j).len() as int) =~= w.subrange(
            0,
            pieces(ns, vs, j).len() as int,
        ));
    } else {
        assert(pieces(ns, vs, n).subrange(0, pieces(ns, vs, n).len() as int) =~= pieces(ns, vs, n));
    }
}

proof fn lemma_attr_names_plain()
    ensures
        attr_names().len() == 7,
        forall|j: int| 0 <= j < 7 ==> plain_name(#[trigger] attr_names()[j]),
{
    reveal_strlit("tvg-id");
    reveal_strlit("tvg-name");
    reveal_strlit("tvg-url");
    reveal_strlit("tvg-logo");
    reveal_strlit("tvg-country");
    reveal_strlit("tvg-language");
    reveal_strlit("group-title");
    let ns = attr_names();
    assert forall|j: int| 0 <= j < 7 implies plain_name(#[trigger] ns[j]) by {
        if j == 0 {
            assert(ns[j] == "tvg-id"@);
        } else if j == 1 {
            assert(ns[j] == "tvg-name"@);
        } else if j == 2 {
            assert(ns[j] == "tvg-url"@);
        } else if j == 3 {
            assert(ns[j] == "tvg-logo"@);
        } else if j == 4 {
            assert(ns[j] == "tvg-country"@);
        } else if j == 5 {
            assert(ns[j] == "tvg-language"@);
        } else {
            assert(ns[j] == "group-title"@);
        }
    }
}

/// The last two characters of a name.
pub open spec fn tail2(x: Seq<char>) -> (char, char) {
    (x[x.len() - 1], x[x.len() - 2])
}

proof fn lemma_attr_names_tails(i: int, j: int)
    requires
        0 <= i < 7,
        0 <= j < 7,
        i != j,
    ensures
        tail2(attr_names()[i]) != tail2(attr_names()[j]),
{
    reveal_strlit("tvg-id");
    reveal_strlit("tvg-name");
    reveal_strlit("tvg-url");
    reveal_strlit("tvg-logo");
    reveal_strlit("tvg-country");
    reveal_strlit("tvg-language");
    reveal_strlit("group-title");
    let ns = attr_names();
    assert(tail2(ns[0]) == ('d', 'i'));
    assert(tail2(ns[1]) == ('e', 'm'));
    assert(tail2(ns[2]) == ('l', 'r'));
    assert(tail2(ns[3]) == ('o', 'g'));
    assert(tail2(ns[4]) == ('y', 'r'));
    assert(tail2(ns[5]) == ('e', 'g'));
    assert(tail2(ns[6]) == ('e', 'l'));
}

proof fn lemma_attr_values_writable(v: InfoView)
    requires
        writable_record(v),
    ensures
        attr_values(v).len() == 7,
        forall|j: int| 0 <= j < 7 ==> writable_value(#[trigger] attr_values(v)[j]),
{
    let vs = attr_values(v);
    assert forall|j: int| 0 <= j < 7 implies writable_value(#[trigger] vs[j]) by {
        if j == 0 {
            assert(vs[j] == v.tvg_id);
        } else if j == 1 {
            assert(vs[j] == v.tvg_name);
        } else if j == 2 {
            assert(vs[j] == v.tvg_url);
        } else if j == 3 {
            assert(vs[j] == v.logo);
        } else if j == 4 {
            assert(vs[j] == v.country_code);
        } else if j == 5 {
            assert(vs[j] == v.language_name);
        } else {
            assert(vs[j] == v.category);
        }
    }
}

proof fn lemma_find_from_first(s: Seq<char>, pat: Seq<char>, from: int, p: int)
    requires
        0 <= from <= p,
        pat.len() > 0,
        occurs_at(s, pat, p),
        forall|k: int| from <= k < p ==> !occurs_at(s, pat, k),
    ensures
        find_from(s, pat, from) == Some(p),
    decreases p - from,
{
    if from < p {
        lemma_find_from_first(s, pat, from + 1, p);
    }
}

proof fn lemma_find_from_none(s: Seq<char>, pat: Seq<char>, from: int)
    requires
        0 <= from,
        forall|k: int| from <= k ==> !occurs_at(s, pat, k),
    ensures
        find_from(s, pat, from) is None,
    decreases s.len() - from,
{
    if from < s.len() {
        lemma_find_from_none(s, pat, from + 1);
    }
}

proof fn lemma_index_of_first(s: Seq<char>, c: char, from: int, j: int)
    requires
        0 <= from <= j < s.len(),
        s[j] == c,
        forall|k: int| from <= k < j ==> s[k] != c,
    ensures
        index_of(s, c, from) == j,
    decreases j - from,
{
    if from < j {
        lemma_index_of_first(s, c, from + 1, j);
    }
}

/// Where an `=` and a quote stand together in the metadata line of a writable record.
proof fn lemma_meta_eq_quote(v: InfoView, q: int)
    requires
        writable_record(v),
        eq_quote_at(meta_line(v), q),
    ensures
        exists|j: int|
            0 <= j < 7 && attr_values(v)[j].len() > 0 && q == "#EXTINF:-1"@.len() + pieces(
                attr_names(),
                attr_values(v),
                j,
            ).len() + 1 + attr_names()[j].len(),
{
    reveal_strlit("#EXTINF:-1");
    reveal_strlit(",");
    let ns = attr_names();
    let vs = attr_values(v);
    let mark = "#EXTINF:-1"@;
    let w = pieces(ns, vs, 7);
    let t = title_text(v.title);
    lemma_attributes_pieces(v);
    lemma_attr_names_plain();
    lemma_attr_values_writable(v);
    lemma_pieces_eq_quote(ns, vs, 7);
    lemma_eq_quote_add(mark, w + t, q);
    if eq_quote_at(mark, q) {
        assert(mark[q] == '=');
    } else if q == mark.len() - 1 {
        assert(mark.last() == '1');
    } else {
        let q1 = q - mark.len();
        lemma_eq_quote_add(w, t, q1);
        if eq_quote_at(w, q1) {
        } else if q1 >= w.len() && eq_quote_at(t, q1 - w.len()) {
            let r = q1 - w.len();
            assert(t =~= ","@ + v.title);
            assert(t[r + 1] == v.title[r]);
        } else {
            assert(w.last() == '"');
        }
    }
}

/// The characters of attribute `j` where the metadata line writes it.
proof fn lemma_meta_piece_char(v: InfoView, j: int, r: int)
    requires
        0 <= j < 7,
        0 <= r < attribute_text(attr_names()[j], attr_values(v)[j]).len(),
    ensures
        meta_line(v)["#EXTINF:-1"@.len() + pieces(attr_names(), attr_values(v), j).len() + r]
            == attribute_text(attr_names()[j], attr_values(v)[j])[r],
        "#EXTINF:-1"@.len() + pieces(attr_names(), attr_values(v), j).len() + r < meta_line(v).len(),
{
    let ns = attr_names();
    let vs = attr_values(v);
    let mark = "#EXTINF:-1"@;
    let w = pieces(ns, vs, 7);
    let t = title_text(v.title);
    lemma_attributes_pieces(v);
    lemma_pieces_prefix(ns, vs, j + 1, 7);
    let pj = pieces(ns, vs, j);
    let a = attribute_text(ns[j], vs[j]);
    assert(pieces(ns, vs, j + 1) == pj + a);
    let x = pj.len() + r;
    assert(w.subrange(0, (pj + a).len() as int)[x] == (pj + a)[x]);
    assert(w[x] == a[r]);
    assert((w + t)[x] == w[x]);
    assert(meta_line(v)[mark.len() + x] == (w + t)[x]);
}

/// An occurrence of the opening of attribute `i` in the metadata line of a
/// writable record stands where that attribute is written, and only where
/// it has a value.
proof fn lemma_opener_position(v: InfoView, i: int, p: int)
    requires
        writable_record(v),
        0 <= i < 7,
        occurs_at(meta_line(v), attr_names()[i] + "=\""@, p),
    ensures
        attr_values(v)[i].len() > 0,
        p == "#EXTINF:-1"@.len() + pieces(attr_names(), attr_values(v), i).len() + 1,
{
    reveal_strlit("=\"");
    let ns = attr_names();
    let vs = attr_values(v);
    let m = meta_line(v);
    let mark = "#EXTINF:-1"@;
    let ni = ns[i];
    let pat = ni + "=\""@;
    lemma_attr_names_plain();
    assert(plain_name(ni));
    let q: int = p + ni.len();
    assert(m.subrange(p, p + pat.len()) == pat);
    assert(m[q] == pat[ni.len() as int]);
    assert(m[q + 1] == pat[ni.len() as int + 1]);
    assert(eq_quote_at(m, q));
    lemma_meta_eq_quote(v, q);
    let j = choose|j: int|
        0 <= j < 7 && vs[j].len() > 0 && q == mark.len() + pieces(ns, vs, j).len() + 1
            + ns[j].len();
    let nj = ns[j];
    assert(plain_name(nj));
    let base: int = (mark.len() + pieces(ns, vs, j).len()) as int;
    lemma_piece_shape(nj, vs[j]);
    let a = attribute_text(nj, vs[j]);
    assert forall|k: int| 0 <= k < ni.len() implies m[p + k] == ni[k] by {
        assert(m[p + k] == m.subrange(p, p + pat.len())[k]);
        assert(pat[k] == ni[k]);
    }
    if ni.len() > nj.len() {
        let t = base;
        lemma_meta_piece_char(v, j, 0);
        assert(a[0] == ' ');
        assert(m[t] == ni[t - p]);
        assert(lacks(ni, ' '));
    } else {
        assert forall|k: int| 0 <= k < ni.len() implies ni[k] == nj[nj.len() - ni.len() + k] by {
            let r = 1 + nj.len() - ni.len() + k;
            lemma_meta_piece_char(v, j, r);
            assert(a[r] == nj[r - 1]);
            assert(base + r == p + k);
        }
        if i != j {
            lemma_attr_names_tails(i, j);
            assert(ni[ni.len() - 1] == nj[nj.len() - 1]);
            assert(ni[ni.len() - 2] == nj[nj.len() - 2]);
        }
    }
}

/// The value read back for attribute `i` from the metadata line of a
/// writable record is the value written, and nothing where none was.
proof fn lemma_attribute_round_trip(v: InfoView, i: int)
    requires
        writable_record(v),
        0 <= i < 7,
    ensures
        attribute_value(meta_line(v), attr_names()[i] + "=\""@) == if attr_values(v)[i].len() > 0 {
            Some(attr_values(v)[i])
        } else {
            None::<Seq<char>>
        },
{
    reveal_strlit("=\"");
    let ns = attr_names();
    let vs = attr_values(v);
    let m = meta_line(v);
    let mark = "#EXTINF:-1"@;
    let ni = ns[i];
    let vi = vs[i];
    let pat = ni + "=\""@;
    lemma_attr_values_writable(v);
    assert(writable_value(vi));
    if vi.len() == 0 {
        assert forall|k: int| 0 <= k implies !occurs_at(m, pat, k) by {
            if occurs_at(m, pat, k) {
                lemma_opener_position(v, i, k);
            }
        }
        lemma_find_from_none(m, pat, 0);
    } else {
        let start: int = (mark.len() + pieces(ns, vs, i).len() + 1) as int;
        let base: int = start - 1;
        lemma_piece_shape(ni, vi);
        let a = attribute_text(ni, vi);
        assert(a.len() == ni.len() + vi.len() + 4);
        assert forall|k: int| 0 <= k < pat.len() implies m[start + k] == pat[k] by {
            lemma_meta_piece_char(v, i, 1 + k);
            if k < ni.len() {
                assert(a[1 + k] == ni[k]);
            } else if k == ni.len() {
                assert(a[1 + k] == '=');
            } else {
                assert(a[1 + k] == '"');
            }
        }
        lemma_meta_piece_char(v, i, a.len() - 1);
        assert(m.subrange(start, start + pat.len()) =~= pat);
        assert(occurs_at(m, pat, start));
        assert forall|k: int| 0 <= k < start implies !occurs_at(m, pat, k) by {
            if occurs_at(m, pat, k) {
                lemma_opener_position(v, i, k);
            }
        }
        lemma_find_from_first(m, pat, 0, start);
        let s0: int = start + pat.len();
        let close: int = s0 + vi.len();
        assert forall|k: int| s0 <= k < close implies m[k] != '"' && m[k] == vi[k - s0] by {
            lemma_meta_piece_char(v, i, k - base);
            assert(a[k - base] == vi[k - s0]);
        }
        lemma_meta_piece_char(v, i, close - base);
        assert(a[close - base] == '"');
        lemma_index_of_first(m, '"', s0, close);
        assert(m.subrange(s0, close) =~= vi);
    }
}

/// The value of attribute `i` as extraction reads it, or nothing.
pub open spec fn written(x: Seq<char>) -> Option<Seq<char>> {
    if x.len() > 0 {
        Some(x)
    } else {
        None
    }
}

proof fn lemma_opener_literals()
    ensures
        "tvg-id=\""@ == attr_names()[0] + "=\""@,
        "tvg-name=\""@ == attr_names()[1] + "=\""@,
        "tvg-url=\""@ == attr_names()[2] + "=\""@,
        "tvg-logo=\""@ == attr_names()[3] + "=\""@,
        "tvg-country=\""@ == attr_names()[4] + "=\""@,
        "tvg-language=\""@ == attr_names()[5] + "=\""@,
        "group-title=\""@ == attr_names()[6] + "=\""@,
{
    reveal_strlit("=\"");
    reveal_strlit("tvg-id");
    reveal_strlit("tvg-name");
    reveal_strlit("tvg-url");
    reveal_strlit("tvg-logo");
    reveal_strlit("tvg-country");
    reveal_strlit("tvg-language");
    reveal_strlit("group-title");
    reveal_strlit("tvg-id=\"");
    reveal_strlit("tvg-name=\"");
    reveal_strlit("tvg-url=\"");
    reveal_strlit("tvg-logo=\"");
    reveal_strlit("tvg-country=\"");
    reveal_strlit("tvg-language=\"");
    reveal_strlit("group-title=\"");
    assert("tvg-id=\""@ =~= attr_names()[0] + "=\""@);
    assert("tvg-name=\""@ =~= attr_names()[1] + "=\""@);
    assert("tvg-url=\""@ =~= attr_names()[2] + "=\""@);
    assert("tvg-logo=\""@ =~= attr_names()[3] + "=\""@);
    assert("tvg-country=\""@ =~= attr_names()[4] + "=\""@);
    assert("tvg-language=\""@ =~= attr_names()[5] + "=\""@);
    assert("group-title=\""@ =~= attr_names()[6] + "=\""@);
}

/// Each attribute of a writable record is read back from its metadata line
/// as written.
proof fn lemma_attributes_read_back(v: InfoView)
    requires
        writable_record(v),
    ensures
        attribute_value(meta_line(v), "tvg-id=\""@) == written(v.tvg_id),
        attribute_value(meta_line(v), "tvg-name=\""@) == written(v.tvg_name),
        attribute_value(meta_line(v), "tvg-url=\""@) == written(v.tvg_url),
        attribute_value(meta_line(v), "tvg-logo=\""@) == written(v.logo),
        attribute_value(meta_line(v), "tvg-country=\""@) == written(v.country_code),
        attribute_value(meta_line(v), "tvg-language=\""@) == written(v.language_name),
        attribute_value(meta_line(v), "group-title=\""@) == written(v.category),
{
    lemma_opener_literals();
    lemma_attribute_round_trip(v, 0);
    lemma_attribute_round_trip(v, 1);
    lemma_attribute_round_trip(v, 2);
    lemma_attribute_round_trip(v, 3);
    lemma_attribute_round_trip(v, 4);
    lemma_attribute_round_trip(v, 5);
    lemma_attribute_round_trip(v, 6);
}

/// Whether a record read back agrees with the record written: the same
/// title, category, identifiers, logo, country code, language name and media
/// reference, with the country name and language code resolved anew from the
/// written tokens.
pub open spec fn read_back_as(e: InfoView, v: InfoView) -> bool {
    &&& e.title == v.title
    &&& e.category == v.category
    &&& e.tvg_id == v.tvg_id
    &&& e.tvg_name == v.tvg_name
    &&& e.tvg_url == v.tvg_url
    &&& e.logo == v.logo
    &&& e.country_code == v.country_code
    &&& e.language_name == v.language_name
    &&& e.url == v.url
    &&& e.country_name == if v.country_code.len() > 0 {
        country_long_name(v.country_code)
    } else {
        Seq::<char>::empty()
    }
    &&& e.language_code == if v.language_name.len() > 0 {
        language_code_of(lower_of(v.language_name))
    } else {
        Seq::<char>::empty()
    }
}

/// Rendering a non-empty set of writable records as a playlist and
/// extracting that text again gives one record per record, in order, each
/// agreeing with the record written.
pub proof fn lemma_round_trip(s: Seq<InfoView>)
    requires
        s.len() > 0,
        forall|k: int| 0 <= k < s.len() ==> writable_record(#[trigger] s[k]),
    ensures
        entries(clean_lines(m3u_text(s))).len() == s.len(),
        forall|k: int|
            0 <= k < s.len() ==> read_back_as(
                #[trigger] entries(clean_lines(m3u_text(s)))[k],
                s[k],
            ),
{
    lemma_render_then_extract(s);
    assert forall|k: int| 0 <= k < s.len() implies read_back_as(
        #[trigger] entries(clean_lines(m3u_text(s)))[k],
        s[k],
    ) by {
        let v = s[k];
        assert(entries(clean_lines(m3u_text(s)))[k] == reparsed(v));
        lemma_attributes_read_back(v);
        lemma_title_round_trip(v);
        let e = reparsed(v);
        assert(e.title == v.title);
        assert(e.url == v.url);
        assert(e.tvg_id == v.tvg_id);
        assert(e.tvg_name == v.tvg_name);
        assert(e.tvg_url == v.tvg_url);
        assert(e.logo == v.logo);
        assert(e.category == v.category);
        assert(e.country_code == v.country_code);
        assert(e.language_name == v.language_name);
        assert(e.country_name == if v.country_code.len() > 0 {
            country_long_name(v.country_code)
        } else {
            Seq::<char>::empty()
        });
        assert(e.language_code == if v.language_name.len() > 0 {
            language_code_of(lower_of(v.language_name))
        } else {
            Seq::<char>::empty()
        });
    }
}

} // verus!
