//! The query engine: fields named by a key path, filtering by patterns and
//! stable sorting.

use vstd::prelude::*;
use crate::bindings::{compile_pattern, pattern_is_match, regex_compiles, regex_finds, Pattern};
use crate::record::{infos_view, Info, InfoView};
use crate::text::{chars_of, find, find_from, same_chars};

verus! {

/// A field of a record that queries can read.
#[derive(PartialEq, Eq, Structural, Clone, Copy, Debug)]
pub enum Field {
    Title,
    Logo,
    Url,
    Category,
    Status,
    TvgId,
    TvgName,
    TvgUrl,
    CountryCode,
    CountryName,
    LanguageCode,
    LanguageName,
}

/// Why a query was refused; the record set is left as it was.
#[derive(PartialEq, Eq, Structural, Clone, Copy, Debug)]
pub enum QueryError {
    /// A nested key that is not `<key><splitter><subkey>`.
    KeyFormat,
    /// A key or subkey that names no field.
    UnknownKey,
    /// No pattern was given.
    NoPatterns,
    /// A pattern that does not compile.
    BadPattern,
}

/// The text of a field of a record.
pub open spec fn field_value(v: InfoView, f: Field) -> Seq<char> {
    match f {
        Field::Title => v.title,
        Field::Logo => v.logo,
        Field::Url => v.url,
        Field::Category => v.category,
        Field::Status => v.status,
        Field::TvgId => v.tvg_id,
        Field::TvgName => v.tvg_name,
        Field::TvgUrl => v.tvg_url,
        Field::CountryCode => v.country_code,
        Field::CountryName => v.country_name,
        Field::LanguageCode => v.language_code,
        Field::LanguageName => v.language_name,
    }
}

/// The field that a key and a subkey name, if the pair is valid.
pub open spec fn field_named(k0: Seq<char>, k1: Seq<char>) -> Option<Field> {
    if k1 == ""@ {
        if k0 == "title"@ {
            Some(Field::Title)
        } else if k0 == "logo"@ {
            Some(Field::Logo)
        } else if k0 == "url"@ {
            Some(Field::Url)
        } else if k0 == "category"@ {
            Some(Field::Category)
        } else if k0 == "status"@ {
            Some(Field::Status)
        } else {
            None
        }
    } else if k0 == "tvg"@ {
        if k1 == "id"@ {
            Some(Field::TvgId)
        } else if k1 == "name"@ {
            Some(Field::TvgName)
        } else if k1 == "url"@ {
            Some(Field::TvgUrl)
        } else {
            None
        }
    } else if k0 == "country"@ {
        if k1 == "code"@ {
            Some(Field::CountryCode)
        } else if k1 == "name"@ {
            Some(Field::CountryName)
        } else {
            None
        }
    } else if k0 == "language"@ {
        if k1 == "code"@ {
            Some(Field::LanguageCode)
        } else if k1 == "name"@ {
            Some(Field::LanguageName)
        } else {
            None
        }
    } else {
        None
    }
}

/// A nested key split at its one occurrence of the splitter; `None` where the
/// splitter is empty or does not cut the key in exactly two.
pub open spec fn split_key(key: Seq<char>, sep: Seq<char>) -> Option<(Seq<char>, Seq<char>)> {
    if sep.len() == 0 {
        None
    } else {
        match find_from(key, sep, 0) {
            None => None,
            Some(p) => if find_from(key, sep, p + sep.len()) is None {
                Some((key.subrange(0, p), key.subrange(p + sep.len(), key.len() as int)))
            } else {
                None
            },
        }
    }
}

/// The field that a key names, or why it names none.
pub open spec fn resolve_key(key: Seq<char>, sep: Seq<char>, nested: bool) -> Result<
    Field,
    QueryError,
> {
    if nested {
        match split_key(key, sep) {
            None => Err(QueryError::KeyFormat),
            Some((k0, k1)) => match field_named(k0, k1) {
                Some(f) => Ok(f),
                None => Err(QueryError::UnknownKey),
            },
        }
    } else {
        match field_named(key, ""@) {
            Some(f) => Ok(f),
            None => Err(QueryError::UnknownKey),
        }
    }
}

/// The text of a field of a record.
pub fn get_key_value(info: &Info, field: Field) -> (r: &String)
    ensures
        r@ == field_value(info@, field),
{
    match field {
        Field::Title => &info.title,
        Field::Logo => &info.logo,
        Field::Url => &info.url,
        Field::Category => &info.category,
        Field::Status => &info.status,
        Field::TvgId => &info.tvg.id,
        Field::TvgName => &info.tvg.name,
        Field::TvgUrl => &info.tvg.url,
        Field::CountryCode => &info.country.code,
        Field::CountryName => &info.country.name,
        Field::LanguageCode => &info.language.code,
        Field::LanguageName => &info.language.name,
    }
}

fn is_word(k: &Vec<char>, w: &str) -> (r: bool)
    ensures
        r == (k@ == w@),
{
    let wc = chars_of(w);
    same_chars(k, &wc)
}

fn field_from_parts(k0: &Vec<char>, k1: &Vec<char>) -> (r: Option<Field>)
    ensures
        r == field_named(k0@, k1@),
{
    if is_word(k1, "") {
        if is_word(k0, "title") {
            Some(Field::Title)
        } else if is_word(k0, "logo") {
            Some(Field::Logo)
        } else if is_word(k0, "url") {
            Some(Field::Url)
        } else if is_word(k0, "category") {
            Some(Field::Category)
        } else if is_word(k0, "status") {
            Some(Field::Status)
        } else {
            None
        }
    } else if is_word(k0, "tvg") {
        if is_word(k1, "id") {
            Some(Field::TvgId)
        } else if is_word(k1, "name") {
            Some(Field::TvgName)
        } else if is_word(k1, "url") {
            Some(Field::TvgUrl)
        } else {
            None
        }
    } else if is_word(k0, "country") {
        if is_word(k1, "code") {
            Some(Field::CountryCode)
        } else if is_word(k1, "name") {
            Some(Field::CountryName)
        } else {
            None
        }
    } else if is_word(k0, "language") {
        if is_word(k1, "code") {
            Some(Field::LanguageCode)
        } else if is_word(k1, "name") {
            Some(Field::LanguageName)
        } else {
            None
        }
    } else {
        None
    }
}

fn sub_chars(v: &Vec<char>, from: usize, to: usize) -> (r: Vec<char>)
    requires
        from <= to <= v.len(),
    ensures
        r@ == v@.subrange(from as int, to as int),
{
    let mut r: Vec<char> = Vec::new();
    let mut i = from;
    while i < to
        invariant
            from <= i <= to <= v.len(),
            r@ == v@.subrange(from as int, i as int),
        decreases to - i,
    {
        r.push(v[i]);
        i = i + 1;
        assert(r@ =~= v@.subrange(from as int, i as int));
    }
    r
}

/// Resolves a key, plain or nested, to the field it names.
pub fn resolve(key: &str, key_splitter: &str, nested_key: bool) -> (r: Result<Field, QueryError>)
    ensures
        r == resolve_key(key@, key_splitter@, nested_key),
{
    let k = chars_of(key);
    let empty: Vec<char> = Vec::new();
    assert(empty@ =~= ""@) by {
        reveal_strlit("");
    }
    if !nested_key {
        return match field_from_parts(&k, &empty) {
            Some(f) => Ok(f),
            None => Err(QueryError::UnknownKey),
        };
    }
    let sep = chars_of(key_splitter);
    if sep.len() == 0 {
        return Err(QueryError::KeyFormat);
    }
    match find(&k, &sep, 0) {
        None => Err(QueryError::KeyFormat),
        Some(p) => {
            assert(crate::text::occurs_at(k@, sep@, p as int));
            assert(p + sep@.len() <= k@.len());
            assert(p + sep.len() <= k.len());
            let rest = p + sep.len();
            match find(&k, &sep, rest) {
                Some(_) => Err(QueryError::KeyFormat),
                None => {
                    let k0 = sub_chars(&k, 0, p);
                    let k1 = sub_chars(&k, rest, k.len());
                    match field_from_parts(&k0, &k1) {
                        Some(f) => Ok(f),
                        None => Err(QueryError::UnknownKey),
                    }
                },
            }
        },
    }
}

/// Whether any of the patterns matches the text.
pub open spec fn any_match(pats: Seq<Seq<char>>, text: Seq<char>) -> bool {
    exists|j: int| 0 <= j < pats.len() && regex_finds(#[trigger] pats[j], text)
}

/// Whether every pattern compiles.
pub open spec fn all_compile(pats: Seq<Seq<char>>) -> bool {
    forall|j: int| 0 <= j < pats.len() ==> regex_compiles(#[trigger] pats[j])
}

/// Whether a filter keeps a record: one that some pattern matches when
/// retaining, one that no pattern matches when removing.
pub open spec fn kept(v: InfoView, f: Field, pats: Seq<Seq<char>>, retain: bool) -> bool {
    any_match(pats, field_value(v, f)) == retain
}

/// The records that a filter keeps, in their order.
pub open spec fn filtered(s: Seq<InfoView>, f: Field, pats: Seq<Seq<char>>, retain: bool) -> Seq<
    InfoView,
>
    decreases s.len(),
{
    if s.len() == 0 {
        s
    } else {
        let rest = filtered(s.drop_last(), f, pats, retain);
        if kept(s.last(), f, pats, retain) {
            rest.push(s.last())
        } else {
            rest
        }
    }
}

/// The views of a list of patterns.
pub open spec fn pattern_views(v: Seq<&str>) -> Seq<Seq<char>> {
    v.map_values(|p: &str| p@)
}

/// The views of a list of compiled patterns.
pub open spec fn compiled_views(v: Seq<Pattern>) -> Seq<Seq<char>> {
    v.map_values(|p: Pattern| p@)
}

/// Compiles every pattern; `None` if one of them does not compile.
pub fn compile_all(filters: &Vec<&str>) -> (r: Option<Vec<Pattern>>)
    ensures
        r is Some <==> all_compile(pattern_views(filters@)),
        r matches Some(ps) ==> compiled_views(ps@) == pattern_views(filters@),
{
    let mut out: Vec<Pattern> = Vec::new();
    let mut i: usize = 0;
    while i < filters.len()
        invariant
            i <= filters.len(),
            compiled_views(out@) == pattern_views(filters@).take(i as int),
            forall|j: int| 0 <= j < i ==> regex_compiles(#[trigger] pattern_views(filters@)[j]),
        decreases filters.len() - i,
    {
        match compile_pattern(filters[i]) {
            Some(p) => {
                let ghost before = out@;
                assert(p@ == pattern_views(filters@)[i as int]);
                out.push(p);
                assert(out@ == before.push(p));
                assert(compiled_views(out@) =~= compiled_views(before).push(p@));
            },
            None => {
                assert(!regex_compiles(pattern_views(filters@)[i as int]));
                return None;
            },
        }
        i = i + 1;
        assert(compiled_views(out@) =~= pattern_views(filters@).take(i as int));
    }
    assert(pattern_views(filters@).take(i as int) =~= pattern_views(filters@));
    Some(out)
}

/// Whether any of the compiled patterns matches the text.
pub fn matches_any(pats: &Vec<Pattern>, text: &str) -> (r: bool)
    ensures
        r == any_match(compiled_views(pats@), text@),
{
    let mut i: usize = 0;
    while i < pats.len()
        invariant
            i <= pats.len(),
            forall|j: int| 0 <= j < i ==> !regex_finds(#[trigger] compiled_views(pats@)[j], text@),
        decreases pats.len() - i,
    {
        if pattern_is_match(&pats[i], text) {
            assert(regex_finds(compiled_views(pats@)[i as int], text@));
            return true;
        }
        i = i + 1;
    }
    false
}

/// The records that a filter with compiled patterns keeps.
pub fn filter_records(records: &Vec<Info>, field: Field, pats: &Vec<Pattern>, retain: bool) -> (r:
    Vec<Info>)
    ensures
        infos_view(r@) == filtered(infos_view(records@), field, compiled_views(pats@), retain),
{
    let mut out: Vec<Info> = Vec::new();
    let mut i: usize = 0;
    while i < records.len()
        invariant
            i <= records.len(),
            infos_view(out@) == filtered(
                infos_view(records@).take(i as int),
                field,
                compiled_views(pats@),
                retain,
            ),
        decreases records.len() - i,
    {
        let ghost prefix = infos_view(records@).take(i as int + 1);
        assert(prefix.drop_last() =~= infos_view(records@).take(i as int));
        let text = get_key_value(&records[i], field);
        if matches_any(pats, text.as_str()) == retain {
            out.push(records[i].clone());
        }
        i = i + 1;
        assert(infos_view(out@) =~= filtered(prefix, field, compiled_views(pats@), retain));
    }
    assert(infos_view(records@).take(i as int) =~= infos_view(records@));
    out
}

} // verus!
