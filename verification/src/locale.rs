//! Locale identifiers: a language and, optionally, a region.

use vstd::prelude::*;
use crate::ordered::Key;
use crate::text::{
    first_of, hyphens_to_underscores, lemma_first_of_is, lemma_seq_lt_irreflexive,
    lemma_seq_lt_total, lemma_seq_lt_transitive, seq_lt, str_lt, underscored,
};

verus! {

/// What `str::to_lowercase` returns for a string: its lowercase equivalent
/// by the Unicode rules that the standard library follows.
pub uninterp spec fn unicode_lowercase(s: Seq<char>) -> Seq<char>;

/// What `str::to_uppercase` returns for a string: its uppercase equivalent
/// by the Unicode rules that the standard library follows.
pub uninterp spec fn unicode_uppercase(s: Seq<char>) -> Seq<char>;

/// `str::to_lowercase` of the standard library. The contract names its
/// result and claims nothing more of it.
pub assume_specification[ str::to_lowercase ](s: &str) -> (r: String)
    ensures
        r@ == unicode_lowercase(s@),
;

/// `str::to_uppercase` of the standard library. The contract names its
/// result and claims nothing more of it.
pub assume_specification[ str::to_uppercase ](s: &str) -> (r: String)
    ensures
        r@ == unicode_uppercase(s@),
;

/// What `isolang` finds for a locale string such as `de_DE`: the two-letter
/// ISO 639-1 code of the language that `Language::from_locale` reads from it,
/// where it reads one and that language has such a code.
pub uninterp spec fn iso639_1_of(locale: Seq<char>) -> Option<Seq<char>>;

/// What `isolang` finds for a locale string such as `de_DE`: the
/// three-letter ISO 639-3 code of the language that `Language::from_locale`
/// reads from it, where it reads one.
pub uninterp spec fn iso639_3_of(locale: Seq<char>) -> Option<Seq<char>>;

/// The view of an optional string slice.
pub open spec fn code_view(code: Option<&'static str>) -> Option<Seq<char>> {
    match code {
        Some(c) => Some(c@),
        None => None,
    }
}

/// Calls `isolang::Language::from_locale` and, on the language found,
/// `isolang::Language::to_639_1`. The contract names the outcome
/// `iso639_1_of` and claims nothing more of it.
#[verifier::external_body]
fn language_code_1(locale: &str) -> (r: Option<&'static str>)
    ensures
        code_view(r) == iso639_1_of(locale@),
{
    match isolang::Language::from_locale(locale) {
        Some(language) => language.to_639_1(),
        None => None,
    }
}

/// Calls `isolang::Language::from_locale` and, on the language found,
/// `isolang::Language::to_639_3`. The contract names the outcome
/// `iso639_3_of` and claims nothing more of it.
#[verifier::external_body]
fn language_code_3(locale: &str) -> (r: Option<&'static str>)
    ensures
        code_view(r) == iso639_3_of(locale@),
{
    match isolang::Language::from_locale(locale) {
        Some(language) => Some(language.to_639_3()),
        None => None,
    }
}

/// Errors of the locale container.
#[derive(Clone, Debug)]
pub enum LocaleError {
    /// Invalid template string
    InvalidTemplate,
    /// Invalid locale string
    InvalidLocale,
}

impl LocaleError {
    /// The message that describes this error.
    pub fn message(&self) -> (m: &'static str)
        ensures
            m@ == match self {
                LocaleError::InvalidTemplate => "Invalid template string"@,
                LocaleError::InvalidLocale => "Invalid locale string"@,
            },
    {
        match self {
            LocaleError::InvalidTemplate => "Invalid template string",
            LocaleError::InvalidLocale => "Invalid locale string",
        }
    }
}

/// The mathematical value of a [`Locale`].
pub struct LocaleView {
    /// The language part.
    pub lang: Seq<char>,
    /// The region part, if the identifier has one.
    pub region: Option<Seq<char>>,
}

/// Simple representation of a locale
#[derive(Clone, Debug, PartialEq, Eq, PartialOrd, Ord, Hash)]
pub struct Locale {
    lang: String,
    region: Option<String>,
}

/// The locale that an identifier denotes: hyphens count as underscores, the
/// first underscore parts language from region, the language is put in
/// lowercase and the region in uppercase. An identifier without a separator
/// is a language, taken as written.
pub open spec fn parse_locale(id: Seq<char>) -> LocaleView {
    let s = underscored(id);
    let at = first_of(s, '_');
    if at < s.len() {
        LocaleView {
            lang: unicode_lowercase(s.take(at)),
            region: Some(unicode_uppercase(s.skip(at + 1))),
        }
    } else {
        LocaleView { lang: s, region: None }
    }
}

/// The identifier of a locale written with `delimiter` between language and
/// region.
pub open spec fn locale_string(locale: LocaleView, delimiter: Seq<char>) -> Seq<char> {
    match locale.region {
        None => locale.lang,
        Some(region) => locale.lang + delimiter + region,
    }
}

/// Whether locale `a` comes before `b`: by language first, then by region,
/// a locale without region before one with.
pub open spec fn locale_lt(a: LocaleView, b: LocaleView) -> bool {
    seq_lt(a.lang, b.lang) || (a.lang == b.lang && match (a.region, b.region) {
        (None, Some(_)) => true,
        (Some(x), Some(y)) => seq_lt(x, y),
        _ => false,
    })
}

impl View for Locale {
    type V = LocaleView;

    closed spec fn view(&self) -> LocaleView {
        LocaleView {
            lang: self.lang@,
            region: match self.region {
                Some(r) => Some(r@),
                None => None,
            },
        }
    }
}

impl Locale {
    /// Created a new instance of `Locale`
    pub fn new(locale: &str) -> (r: Self)
        ensures
            r@ == parse_locale(locale@),
    {
        let s = hyphens_to_underscores(locale);
        let n = s.as_str().unicode_len();
        let mut at: usize = 0;
        while at < n && s.as_str().get_char(at) != '_'
            invariant
                n == s@.len(),
                at <= n,
                forall|j: int| 0 <= j < at ==> s@[j] != '_',
            decreases n - at,
        {
            at += 1;
        }
        proof {
            lemma_first_of_is(s@, '_', at as int);
        }
        if at < n {
            let lang = s.as_str().substring_char(0, at).to_lowercase();
            let region = s.as_str().substring_char(at + 1, n).to_uppercase();
            Locale { lang, region: Some(region) }
        } else {
            Locale { lang: s, region: None }
        }
    }

    /// Get the language part of the `Locale`
    pub fn get_lang(&self) -> (lang: &str)
        ensures
            lang@ == self@.lang,
    {
        self.lang.as_str()
    }

    /// Get the region part of the `Locale`
    pub fn get_region(&self) -> (region: Option<&str>)
        ensures
            match region {
                Some(r) => self@.region == Some(r@),
                None => self@.region is None,
            },
    {
        match &self.region {
            Some(r) => Some(r.as_str()),
            None => None,
        }
    }

    /// Get concatenated locale name
    pub fn get_locale(&self, delimiter: &str) -> (name: String)
        ensures
            name@ == locale_string(self@, delimiter@),
    {
        match &self.region {
            None => self.lang.clone(),
            Some(region) => {
                let mut name = self.lang.clone();
                name.append(delimiter);
                name.append(region.as_str());
                name
            },
        }
    }

    /// The locale written with `_` between language and region.
    pub fn to_string(&self) -> (name: String)
        ensures
            name@ == locale_string(self@, seq!['_']),
    {
        proof {
            reveal_strlit("_");
        }
        let name = self.get_locale("_");
        assert("_"@ =~= seq!['_']);
        name
    }

    /// The locale as an identifier, with `_` between language and region.
    pub fn to_locale(&self) -> (name: String)
        ensures
            name@ == locale_string(self@, seq!['_']),
    {
        self.to_string()
    }

    /// The two-letter ISO 639-1 code of the locale's language, where
    /// `isolang` knows one for the locale written with `_`.
    pub fn to_iso639_1(&self) -> (code: Option<&'static str>)
        ensures
            code_view(code) == iso639_1_of(locale_string(self@, seq!['_'])),
    {
        let name = self.to_string();
        language_code_1(name.as_str())
    }

    /// The three-letter ISO 639-3 code of the locale's language, where
    /// `isolang` knows the language of the locale written with `_`.
    pub fn to_iso639_3(&self) -> (code: Option<&'static str>)
        ensures
            code_view(code) == iso639_3_of(locale_string(self@, seq!['_'])),
    {
        let name = self.to_string();
        language_code_3(name.as_str())
    }

    /// Reads a locale from its identifier; every string is one.
    pub fn from_str(s: &str) -> (r: Result<Self, LocaleError>)
        ensures
            r matches Ok(locale) && locale@ == parse_locale(s@),
    {
        Ok(Self::new(s))
    }
}

impl Key for Locale {
    type Model = LocaleView;

    open spec fn model(&self) -> LocaleView {
        self@
    }

    open spec fn before(a: LocaleView, b: LocaleView) -> bool {
        locale_lt(a, b)
    }

    fn precedes(&self, other: &Self) -> (r: bool) {
        if str_lt(self.lang.as_str(), other.lang.as_str()) {
            true
        } else if self.lang == other.lang {
            match (&self.region, &other.region) {
                (None, Some(_)) => true,
                (Some(x), Some(y)) => str_lt(x.as_str(), y.as_str()),
                _ => false,
            }
        } else {
            false
        }
    }

    fn duplicate(&self) -> (r: Self) {
        let region = match &self.region {
            Some(region) => Some(region.clone()),
            None => None,
        };
        Locale { lang: self.lang.clone(), region }
    }

    proof fn lemma_strict_total_order(a: LocaleView, b: LocaleView, c: LocaleView) {
        lemma_seq_lt_irreflexive(a.lang);
        lemma_seq_lt_irreflexive(b.lang);
        lemma_seq_lt_total(a.lang, b.lang);
        if seq_lt(a.lang, b.lang) && seq_lt(b.lang, c.lang) {
            lemma_seq_lt_transitive(a.lang, b.lang, c.lang);
        }
        match (a.region, b.region, c.region) {
            (Some(x), Some(y), Some(z)) => {
                lemma_seq_lt_irreflexive(x);
                lemma_seq_lt_total(x, y);
                if seq_lt(x, y) && seq_lt(y, z) {
                    lemma_seq_lt_transitive(x, y, z);
                }
            },
            (Some(x), Some(y), _) => {
                lemma_seq_lt_irreflexive(x);
                lemma_seq_lt_total(x, y);
            },
            (Some(x), _, _) => {
                lemma_seq_lt_irreflexive(x);
            },
            _ => {},
        }
    }
}

} // verus!
