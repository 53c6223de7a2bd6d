//! The calls into other crates that the library relies on, with what each
//! is taken to do.

use vstd::prelude::*;
use crate::record::Info;

verus! {

/// Whether `url::Url::parse` accepts the text as an absolute URL.
pub uninterp spec fn url_parses(s: Seq<char>) -> bool;

/// Relies on `url::Url::parse`: whether the text is a syntactically valid absolute URL.
#[verifier::external_body]
pub(crate) fn is_valid_url(url: &str) -> (r: bool)
    ensures
        r == url_parses(url@),
{
    url::Url::parse(url).is_ok()
}

/// The long name that `celes` gives the country with this alpha-2 code;
/// empty where it knows no such country.
pub uninterp spec fn country_long_name(code: Seq<char>) -> Seq<char>;

/// Relies on `celes::Country::from_alpha2`: the long name of the country whose
/// alpha-2 code this is, or the empty string where the code is unknown.
#[verifier::external_body]
pub(crate) fn country_name(code: &str) -> (r: String)
    ensures
        r@ == country_long_name(code@),
{
    match celes::Country::from_alpha2(code) {
        Ok(country) => country.long_name.to_string(),
        Err(_) => String::new(),
    }
}

/// The lower-case form of a text, as `str::to_lowercase` gives it.
pub uninterp spec fn lower_of(s: Seq<char>) -> Seq<char>;

/// Relies on `str::to_lowercase`: the result depends on the characters alone,
/// and an empty text stays empty.
#[verifier::external_body]
pub(crate) fn lowercase(s: &str) -> (r: String)
    ensures
        r@ == lower_of(s@),
        s@.len() == 0 ==> r@.len() == 0,
{
    s.to_lowercase()
}

#[verifier::external_type_specification]
#[verifier::external_body]
pub struct ExRegex(regex::Regex);

/// Whether `regex::Regex::new` accepts the pattern.
pub uninterp spec fn regex_compiles(pattern: Seq<char>) -> bool;

/// Whether the compiled pattern finds a match somewhere in the text.
pub uninterp spec fn regex_finds(pattern: Seq<char>, text: Seq<char>) -> bool;

/// A compiled regular expression together with the pattern it came from.
pub struct Pattern {
    source: String,
    re: regex::Regex,
}

impl View for Pattern {
    type V = Seq<char>;

    closed spec fn view(&self) -> Seq<char> {
        self.source@
    }
}

/// Relies on `regex::Regex::new`: the pattern compiles, or it is refused.
#[verifier::external_body]
pub(crate) fn compile_pattern(pattern: &str) -> (r: Option<Pattern>)
    ensures
        r is Some <==> regex_compiles(pattern@),
        r matches Some(p) ==> p@ == pattern@,
{
    match regex::Regex::new(pattern) {
        Ok(re) => Some(Pattern { source: pattern.to_string(), re }),
        Err(_) => None,
    }
}

/// Relies on `regex::Regex::is_match`: whether the pattern matches somewhere in the text.
#[verifier::external_body]
pub(crate) fn pattern_is_match(p: &Pattern, text: &str) -> (r: bool)
    ensures
        r == regex_finds(p@, text@),
{
    p.re.is_match(text)
}

/// Relies on `rand::Rng::gen_range` over the thread-local generator: some index below `n`.
#[verifier::external_body]
pub(crate) fn random_index(n: usize) -> (r: usize)
    requires
        n > 0,
    ensures
        r < n,
{
    rand::Rng::gen_range(&mut rand::thread_rng(), 0..n)
}

/// Relies on `rand::seq::SliceRandom::shuffle`: the records are put in some
/// order, none added or lost.
#[verifier::external_body]
pub(crate) fn shuffle_infos(v: &mut Vec<Info>)
    ensures
        final(v)@.to_multiset() == old(v)@.to_multiset(),
        final(v)@.len() == old(v)@.len(),
{
    rand::seq::SliceRandom::shuffle(v.as_mut_slice(), &mut rand::thread_rng());
}

/// Relies on `Duration::from_secs`: a duration of that many whole seconds;
/// nothing is claimed of it.
pub assume_specification[ core::time::Duration::from_secs ](secs: u64) -> core::time::Duration;

} // verus!
