//! Locales of the form `lang[_country][.encoding][@modifier]`, and how well a
//! locale that tags a stored value matches the locale that a caller asks for.

use crate::errors::{Error, ErrorView};
use crate::text::{chars_of, last_index_of, rfind, slice, text_of, trim, trimmed};
use vstd::prelude::*;

verus! {

/// A language with, optionally, a country, an encoding and a modifier.
///
/// The locale whose language is empty and which has none of the optional
/// parts is the default locale: it tags the values that carry no locale.
#[derive(Debug, Eq, PartialEq, Hash, Clone)]
pub struct Locale {
    pub lang: String,
    pub country: Option<String>,
    pub encoding: Option<String>,
    pub modifier: Option<String>,
}

/// The mathematical value of a `Locale`.
pub ghost struct LocaleView {
    pub lang: Seq<char>,
    pub country: Option<Seq<char>>,
    pub encoding: Option<Seq<char>>,
    pub modifier: Option<Seq<char>>,
}

impl View for Locale {
    type V = LocaleView;

    open spec fn view(&self) -> LocaleView {
        LocaleView {
            lang: self.lang@,
            country: self.country.deep_view(),
            encoding: self.encoding.deep_view(),
            modifier: self.modifier.deep_view(),
        }
    }
}

impl DeepView for Locale {
    type V = LocaleView;

    open spec fn deep_view(&self) -> LocaleView {
        self@
    }
}

/// How much of the wanted locale a candidate shares, from least to most.
#[derive(Debug, PartialEq, PartialOrd, Ord, Eq, Clone, Copy)]
pub enum MatchLevel {
    Lang,
    LangModifier,
    LangCountry,
    LangCountryModifier,
}

impl MatchLevel {
    /// The place of the level in the order, starting at 1.
    pub open spec fn spec_rank(self) -> int {
        match self {
            MatchLevel::Lang => 1,
            MatchLevel::LangModifier => 2,
            MatchLevel::LangCountry => 3,
            MatchLevel::LangCountryModifier => 4,
        }
    }

    /// The place of the level in the order, starting at 1.
    pub fn rank(&self) -> (r: u8)
        ensures
            r == self.spec_rank(),
    {
        match self {
            MatchLevel::Lang => 1,
            MatchLevel::LangModifier => 2,
            MatchLevel::LangCountry => 3,
            MatchLevel::LangCountryModifier => 4,
        }
    }
}

/// The place of an optional level in the order: 0 for no match.
pub open spec fn level_rank(level: Option<MatchLevel>) -> int {
    match level {
        None => 0,
        Some(l) => l.spec_rank(),
    }
}

/// The default locale.
pub open spec fn default_locale() -> LocaleView {
    LocaleView { lang: Seq::empty(), country: None, encoding: None, modifier: None }
}

/// `s` if it holds a character.
pub open spec fn non_empty(s: Seq<char>) -> Option<Seq<char>> {
    if s.len() == 0 {
        None
    } else {
        Some(s)
    }
}

/// What follows the last `pat` in `s`, trimmed, if that holds a character;
/// and the length of what stands before that `pat`, or of all of `s` where
/// there is none.
pub open spec fn spec_find_after(s: Seq<char>, pat: char) -> (Option<Seq<char>>, int) {
    let pos = last_index_of(s, pat);
    if pos < 0 {
        (None, s.len() as int)
    } else {
        (non_empty(trim(s.subrange(pos + 1, s.len() as int))), pos)
    }
}

/// The locale that `s` spells, if it names a language.
///
/// After trimming, the modifier is what follows the last `@`; in what stands
/// before it the encoding is what follows the last `.`; in what stands before
/// that the country is what follows the last `_`; the language is the rest.
/// Every part is trimmed, and an optional part that is then empty is absent.
pub open spec fn spec_parse_locale(s: Seq<char>) -> Option<LocaleView> {
    let t = trim(s);
    let (modifier, n1) = spec_find_after(t, '@');
    let (encoding, n2) = spec_find_after(t.take(n1), '.');
    let (country, n3) = spec_find_after(t.take(n1).take(n2), '_');
    let lang = trim(t.take(n1).take(n2).take(n3));
    if lang.len() == 0 {
        None
    } else {
        Some(LocaleView { lang, country, encoding, modifier })
    }
}

/// How well `candidate`, the tag of a stored value, matches `query`, the
/// locale that is wanted. Not symmetric: a candidate that names a country or
/// a modifier which the query lacks never matches.
pub open spec fn spec_match_level(query: LocaleView, candidate: LocaleView) -> Option<MatchLevel> {
    if (query.modifier is None && candidate.modifier is Some) || (query.country is None
        && candidate.country is Some) {
        None
    } else if query.lang == candidate.lang && query.country is Some && query.country
        == candidate.country && query.modifier is Some && query.modifier == candidate.modifier {
        Some(MatchLevel::LangCountryModifier)
    } else if query.lang == candidate.lang && query.country is Some && query.country
        == candidate.country && candidate.modifier is None {
        Some(MatchLevel::LangCountry)
    } else if query.lang == candidate.lang && query.modifier is Some && query.modifier
        == candidate.modifier && candidate.country is None {
        Some(MatchLevel::LangModifier)
    } else if query.lang == candidate.lang {
        Some(MatchLevel::Lang)
    } else {
        None
    }
}

/// The level at which a locale matches itself: the highest that its parts
/// allow.
pub open spec fn own_level(l: LocaleView) -> MatchLevel {
    if l.country is Some && l.modifier is Some {
        MatchLevel::LangCountryModifier
    } else if l.country is Some {
        MatchLevel::LangCountry
    } else if l.modifier is Some {
        MatchLevel::LangModifier
    } else {
        MatchLevel::Lang
    }
}

/// Every locale matches itself, at the level that its own parts allow: with
/// country and modifier at `LangCountryModifier`, with a country only at
/// `LangCountry`, with a modifier only at `LangModifier`, with neither at
/// `Lang`. The encoding plays no part.
pub proof fn lemma_match_self(l: LocaleView)
    ensures
        spec_match_level(l, l) == Some(own_level(l)),
{
}

/// A text that parses as a locale yields a locale that matches itself at the
/// level that its own parts allow.
pub proof fn lemma_parse_then_match_self(s: Seq<char>)
    requires
        spec_parse_locale(s) is Some,
    ensures
        spec_match_level(spec_parse_locale(s)->0, spec_parse_locale(s)->0) == Some(
            own_level(spec_parse_locale(s)->0),
        ),
{
}

/// A candidate that names a country or a modifier which the query lacks does
/// not match.
pub proof fn lemma_too_specific_never_matches(query: LocaleView, candidate: LocaleView)
    requires
        (candidate.country is Some && query.country is None) || (candidate.modifier is Some
            && query.modifier is None),
    ensures
        spec_match_level(query, candidate) is None,
{
}

/// No candidate matches a query better than the query matches itself, and one
/// that matches it as well has the same language, country and modifier.
pub proof fn lemma_own_level_is_best(query: LocaleView, candidate: LocaleView)
    ensures
        level_rank(spec_match_level(query, candidate)) <= own_level(query).spec_rank(),
        spec_match_level(query, candidate) == Some(own_level(query)) ==> candidate.lang
            == query.lang && candidate.country == query.country && candidate.modifier
            == query.modifier,
{
}

/// The character sequence of an optional list of characters.
pub open spec fn chars_view(v: Option<Vec<char>>) -> Option<Seq<char>> {
    match v {
        Some(chars) => Some(chars@),
        None => None,
    }
}

/// `s` if it holds a character.
pub fn filter_empty(s: Vec<char>) -> (r: Option<Vec<char>>)
    ensures
        chars_view(r) == non_empty(s@),
{
    if s.len() == 0 {
        None
    } else {
        Some(s)
    }
}

/// What follows the last `after_pat` in `s`, trimmed, if that holds a
/// character; and the length of what stands before that `after_pat`, or of
/// all of `s` where there is none.
pub fn find_after(s: &Vec<char>, after_pat: char) -> (r: (Option<Vec<char>>, usize))
    ensures
        chars_view(r.0) == spec_find_after(s@, after_pat).0,
        r.1 == spec_find_after(s@, after_pat).1,
        r.1 <= s.len(),
{
    match rfind(s, after_pat) {
        Some(pos) => {
            let tail = slice(s, pos + 1, s.len());
            (filter_empty(trimmed(&tail)), pos)
        },
        None => (None, s.len()),
    }
}

/// The string of an optional sequence of characters.
fn text_of_option(v: &Option<Vec<char>>) -> (r: Option<String>)
    ensures
        r.deep_view() == chars_view(*v),
{
    match v {
        Some(chars) => Some(text_of(chars)),
        None => None,
    }
}

/// Whether two optional strings are both absent or hold the same text.
fn same_option(a: &Option<String>, b: &Option<String>) -> (r: bool)
    ensures
        r == (a.deep_view() == b.deep_view()),
{
    match (a, b) {
        (Some(x), Some(y)) => *x == *y,
        (None, None) => true,
        _ => false,
    }
}

impl Locale {
    /// The locale that the characters `chars` spell, if they name a language.
    pub fn from_chars(chars: &Vec<char>) -> (r: Option<Locale>)
        ensures
            r.deep_view() == spec_parse_locale(chars@),
    {
        let t = trimmed(chars);
        let (modifier, n1) = find_after(&t, '@');
        let t1 = slice(&t, 0, n1);
        let (encoding, n2) = find_after(&t1, '.');
        let t2 = slice(&t1, 0, n2);
        let (country, n3) = find_after(&t2, '_');
        let lang = trimmed(&slice(&t2, 0, n3));
        if lang.len() == 0 {
            None
        } else {
            Some(
                Locale {
                    lang: text_of(&lang),
                    country: text_of_option(&country),
                    encoding: text_of_option(&encoding),
                    modifier: text_of_option(&modifier),
                },
            )
        }
    }

    /// Reads a locale of the form `lang[_country][.encoding][@modifier]`.
    ///
    /// Fails with `InvalidLocale`, which carries `s` trimmed, exactly when `s`
    /// names no language.
    pub fn parse(s: &str) -> (r: Result<Locale, Error>)
        ensures
            match r {
                Ok(l) => spec_parse_locale(s@) == Some(l@),
                Err(e) => spec_parse_locale(s@) is None && e@ == ErrorView::InvalidLocale(
                    trim(s@),
                ),
            },
    {
        let chars = chars_of(s);
        match Locale::from_chars(&chars) {
            Some(locale) => Ok(locale),
            None => Err(Error::InvalidLocale(text_of(&trimmed(&chars)))),
        }
    }

    /// The locale that the environment asks for: that of the first of
    /// `LC_ALL`, `LC_MESSAGES` and `LANG` that is set, and the default locale
    /// where none is. A variable that is set and spells no locale is an error,
    /// whatever the later ones hold.
    pub fn from_env(
        lc_all: Option<&str>,
        lc_messages: Option<&str>,
        lang: Option<&str>,
    ) -> (r: Result<Locale, Error>)
        ensures
            match spec_first_set(lc_all, lc_messages, lang) {
                Some(text) => match r {
                    Ok(l) => spec_parse_locale(text) == Some(l@),
                    Err(e) => spec_parse_locale(text) is None && e@ == ErrorView::InvalidLocale(
                        trim(text),
                    ),
                },
                None => r is Ok && r->Ok_0@ == default_locale(),
            },
    {
        if let Some(text) = lc_all {
            Locale::parse(text)
        } else if let Some(text) = lc_messages {
            Locale::parse(text)
        } else if let Some(text) = lang {
            Locale::parse(text)
        } else {
            Ok(Locale::default())
        }
    }

    /// How well `b`, the tag of a stored value, matches this locale, the one
    /// that is wanted.
    pub fn match_level(&self, b: &Self) -> (r: Option<MatchLevel>)
        ensures
            r == spec_match_level(self@, b@),
            (b@.country is Some && self@.country is None) || (b@.modifier is Some
                && self@.modifier is None) ==> r is None,
    {
        let same_lang = self.lang == b.lang;
        let same_country = same_option(&self.country, &b.country);
        let same_modifier = same_option(&self.modifier, &b.modifier);
        if (!self.modifier.is_some() && b.modifier.is_some()) || (!self.country.is_some()
            && b.country.is_some()) {
            None
        } else if same_lang && self.country.is_some() && same_country && self.modifier.is_some()
            && same_modifier {
            Some(MatchLevel::LangCountryModifier)
        } else if same_lang && self.country.is_some() && same_country && b.modifier.is_none() {
            Some(MatchLevel::LangCountry)
        } else if same_lang && self.modifier.is_some() && same_modifier && b.country.is_none() {
            Some(MatchLevel::LangModifier)
        } else if same_lang {
            Some(MatchLevel::Lang)
        } else {
            None
        }
    }
}

/// The text of the first of three optional texts that is present.
pub open spec fn spec_first_set(a: Option<&str>, b: Option<&str>, c: Option<&str>) -> Option<
    Seq<char>,
> {
    match a {
        Some(text) => Some(text@),
        None => match b {
            Some(text) => Some(text@),
            None => match c {
                Some(text) => Some(text@),
                None => None,
            },
        },
    }
}

impl Default for Locale {
    /// The default locale.
    fn default() -> (r: Locale)
        ensures
            r@ == default_locale(),
    {
        Locale { lang: String::new(), country: None, encoding: None, modifier: None }
    }
}

impl std::str::FromStr for Locale {
    type Err = Error;

    /// Reads a locale of the form `lang[_country][.encoding][@modifier]`, as
    /// `Locale::parse` does.
    fn from_str(s: &str) -> (r: Result<Locale, Error>)
        ensures
            match r {
                Ok(l) => spec_parse_locale(s@) == Some(l@),
                Err(e) => spec_parse_locale(s@) is None && e@ == ErrorView::InvalidLocale(
                    trim(s@),
                ),
            },
    {
        Locale::parse(s)
    }
}

} // verus!
