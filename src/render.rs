//! Rendering a record set back to playlist text.

use vstd::prelude::*;
use vstd::string::StringExecFns;
use crate::record::{infos_view, Info, InfoView};

verus! {

/// ` name="value"` where the value is not empty; nothing where it is.
pub open spec fn attribute_text(name: Seq<char>, value: Seq<char>) -> Seq<char> {
    if value.len() == 0 {
        Seq::empty()
    } else {
        " "@ + name + "=\""@ + value + "\""@
    }
}

/// The non-empty attributes of a record, in a fixed order.
pub open spec fn attributes_text(v: InfoView) -> Seq<char> {
    attribute_text("tvg-id"@, v.tvg_id) + attribute_text("tvg-name"@, v.tvg_name) + attribute_text(
        "tvg-url"@,
        v.tvg_url,
    ) + attribute_text("tvg-logo"@, v.logo) + attribute_text("tvg-country"@, v.country_code)
        + attribute_text("tvg-language"@, v.language_name) + attribute_text(
        "group-title"@,
        v.category,
    )
}

/// `,title` where the title is not empty; nothing where it is.
pub open spec fn title_text(title: Seq<char>) -> Seq<char> {
    if title.len() > 0 {
        ","@ + title
    } else {
        Seq::empty()
    }
}

/// The metadata line of a record: the marker, the non-empty attributes in a
/// fixed order, and `,title` where the title is not empty.
pub open spec fn meta_line(v: InfoView) -> Seq<char> {
    "#EXTINF:-1"@ + (attributes_text(v) + title_text(v.title))
}

/// Each record as a line feed, its metadata line, a line feed and its reference.
pub open spec fn entries_text(s: Seq<InfoView>) -> Seq<char>
    decreases s.len(),
{
    if s.len() == 0 {
        Seq::empty()
    } else {
        entries_text(s.drop_last()) + "\n"@ + meta_line(s.last()) + "\n"@ + s.last().url
    }
}

/// The playlist text of a record set: the header and the entries; nothing at
/// all for an empty set.
pub open spec fn m3u_text(s: Seq<InfoView>) -> Seq<char> {
    if s.len() == 0 {
        Seq::empty()
    } else {
        "#EXTM3U"@ + entries_text(s)
    }
}

fn push_attribute(line: &mut String, name: &str, value: &String)
    ensures
        final(line)@ == old(line)@ + attribute_text(name@, value@),
{
    if value.as_str().is_empty() {
        assert(old(line)@ + attribute_text(name@, value@) =~= old(line)@);
    } else {
        line.append(" ");
        line.append(name);
        line.append("=\"");
        line.append(value.as_str());
        line.append("\"");
        assert(final(line)@ =~= old(line)@ + attribute_text(name@, value@));
    }
}

/// The metadata line of a record.
fn meta_line_of(info: &Info) -> (r: String)
    ensures
        r@ == meta_line(info@),
{
    let mut attrs = String::new();
    assert(attrs@ =~= Seq::<char>::empty());
    push_attribute(&mut attrs, "tvg-id", &info.tvg.id);
    assert(attrs@ =~= attribute_text("tvg-id"@, info.tvg.id@));
    push_attribute(&mut attrs, "tvg-name", &info.tvg.name);
    push_attribute(&mut attrs, "tvg-url", &info.tvg.url);
    push_attribute(&mut attrs, "tvg-logo", &info.logo);
    push_attribute(&mut attrs, "tvg-country", &info.country.code);
    push_attribute(&mut attrs, "tvg-language", &info.language.name);
    push_attribute(&mut attrs, "group-title", &info.category);
    let mut line = String::new();
    line.append("#EXTINF:-1");
    line.append(attrs.as_str());
    let ghost base = line@;
    if !info.title.as_str().is_empty() {
        line.append(",");
        line.append(info.title.as_str());
        assert(line@ =~= "#EXTINF:-1"@ + (attrs@ + title_text(info.title@)));
    } else {
        assert(line@ =~= "#EXTINF:-1"@ + (attrs@ + title_text(info.title@)));
    }
    line
}

/// The playlist text of a record set.
pub fn m3u_content(records: &Vec<Info>) -> (r: String)
    ensures
        r@ == m3u_text(infos_view(records@)),
{
    let mut out = String::new();
    if records.len() == 0 {
        assert(out@ =~= m3u_text(infos_view(records@)));
        return out;
    }
    out.append("#EXTM3U");
    let ghost header = out@;
    let mut i: usize = 0;
    assert(infos_view(records@).take(0) =~= Seq::<InfoView>::empty());
    assert(header =~= header + entries_text(infos_view(records@).take(0)));
    while i < records.len()
        invariant
            i <= records.len(),
            header == "#EXTM3U"@,
            out@ == header + entries_text(infos_view(records@).take(i as int)),
        decreases records.len() - i,
    {
        let ghost before = out@;
        let ghost prefix = infos_view(records@).take(i as int + 1);
        assert(prefix.drop_last() =~= infos_view(records@).take(i as int));
        assert(prefix.last() == records@[i as int]@);
        out.append("\n");
        let line = meta_line_of(&records[i]);
        out.append(line.as_str());
        out.append("\n");
        out.append(records[i].url.as_str());
        i = i + 1;
        assert(out@ =~= header + entries_text(prefix));
    }
    assert(infos_view(records@).take(i as int) =~= infos_view(records@));
    out
}

} // verus!
