//! The stream record and its parts.

use vstd::prelude::*;

verus! {

/// The auxiliary identifiers of a stream.
pub struct Tvg {
    pub id: String,
    pub name: String,
    pub url: String,
}

/// A country: its code as written in the playlist and its resolved long name.
pub struct Country {
    pub code: String,
    pub name: String,
}

/// A language: its resolved two-letter code and its name as written in the playlist.
pub struct Language {
    pub code: String,
    pub name: String,
}

/// One playlist entry.
pub struct Info {
    pub title: String,
    pub logo: String,
    pub url: String,
    pub category: String,
    pub tvg: Tvg,
    pub country: Country,
    pub language: Language,
    pub status: String,
}

/// What a record holds, as character sequences.
pub ghost struct InfoView {
    pub title: Seq<char>,
    pub logo: Seq<char>,
    pub url: Seq<char>,
    pub category: Seq<char>,
    pub tvg_id: Seq<char>,
    pub tvg_name: Seq<char>,
    pub tvg_url: Seq<char>,
    pub country_code: Seq<char>,
    pub country_name: Seq<char>,
    pub language_code: Seq<char>,
    pub language_name: Seq<char>,
    pub status: Seq<char>,
}

impl View for Info {
    type V = InfoView;

    open spec fn view(&self) -> InfoView {
        InfoView {
            title: self.title@,
            logo: self.logo@,
            url: self.url@,
            category: self.category@,
            tvg_id: self.tvg.id@,
            tvg_name: self.tvg.name@,
            tvg_url: self.tvg.url@,
            country_code: self.country.code@,
            country_name: self.country.name@,
            language_code: self.language.code@,
            language_name: self.language.name@,
            status: self.status@,
        }
    }
}

/// The views of a sequence of records.
pub open spec fn infos_view(v: Seq<Info>) -> Seq<InfoView> {
    v.map_values(|i: Info| i@)
}

/// The status of a record whose reference is known to be usable.
pub open spec fn good() -> Seq<char> {
    "GOOD"@
}

/// The status of a record whose reference is not known to be usable.
pub open spec fn bad() -> Seq<char> {
    "BAD"@
}

impl Clone for Tvg {
    fn clone(&self) -> (r: Self)
        ensures
            r == *self,
    {
        Tvg { id: self.id.clone(), name: self.name.clone(), url: self.url.clone() }
    }
}

impl Clone for Country {
    fn clone(&self) -> (r: Self)
        ensures
            r == *self,
    {
        Country { code: self.code.clone(), name: self.name.clone() }
    }
}

impl Clone for Language {
    fn clone(&self) -> (r: Self)
        ensures
            r == *self,
    {
        Language { code: self.code.clone(), name: self.name.clone() }
    }
}

impl Clone for Info {
    fn clone(&self) -> (r: Self)
        ensures
            r == *self,
    {
        Info {
            title: self.title.clone(),
            logo: self.logo.clone(),
            url: self.url.clone(),
            category: self.category.clone(),
            tvg: self.tvg.clone(),
            country: self.country.clone(),
            language: self.language.clone(),
            status: self.status.clone(),
        }
    }
}

/// A copy of a sequence of records.
pub fn copy_infos(v: &Vec<Info>) -> (r: Vec<Info>)
    ensures
        r@ == v@,
{
    let r = v.clone();
    assert(r@ =~= v@);
    r
}

} // verus!
