//! A container of per-locale values with a default to fall back on.

use vstd::prelude::*;
use crate::locale::{locale_string, parse_locale, unicode_lowercase, Locale, LocaleError, LocaleView};
use crate::ordered::SortedMap;
use crate::text::{reversed, str_eq};

verus! {

/// The map that arises when the pairs `(names[i], values[i])` are entered one
/// after the other: of two pairs with the same name the later one stays.
pub open spec fn collected<T>(names: Seq<Seq<char>>, values: Seq<T>) -> Map<Seq<char>, T>
    decreases names.len(),
{
    if names.len() == 0 {
        Map::empty()
    } else {
        collected(names.drop_last(), values.drop_last()).insert(names.last(), values.last())
    }
}

/// The views of a sequence of strings.
pub open spec fn views(names: Seq<String>) -> Seq<Seq<char>> {
    names.map_values(|s: String| s@)
}

/// References to the members of a sequence.
pub open spec fn borrowed<'a, T>(values: Seq<T>) -> Seq<&'a T> {
    values.map_values(|v: T| &v)
}

/// Whether a key of a document stands for the default value: whether it
/// reads `default` once put in lowercase.
pub open spec fn is_default_key(key: Seq<char>) -> bool {
    unicode_lowercase(key) == "default"@
}

/// The default value that a document with these entries declares: that of
/// the last entry whose key stands for the default.
pub open spec fn declared_default<T>(entries: Seq<(String, T)>) -> Option<T>
    decreases entries.len(),
{
    if entries.len() == 0 {
        None
    } else if is_default_key(entries.last().0@) {
        Some(entries.last().1)
    } else {
        declared_default(entries.drop_last())
    }
}

/// The values by locale that a document with these entries declares: each
/// entry whose key does not stand for the default is entered under the
/// locale that its key names, a later entry for a locale replacing an
/// earlier one.
pub open spec fn declared_content<T>(entries: Seq<(String, T)>) -> Map<LocaleView, T>
    decreases entries.len(),
{
    if entries.len() == 0 {
        Map::empty()
    } else if is_default_key(entries.last().0@) {
        declared_content(entries.drop_last())
    } else {
        declared_content(entries.drop_last()).insert(
            parse_locale(entries.last().0@),
            entries.last().1,
        )
    }
}

/// The names under which the values of `content` are written, in its order:
/// each locale with an underscore between language and region.
pub open spec fn written_keys(content: Seq<LocaleView>) -> Seq<Seq<char>> {
    content.map_values(|l: LocaleView| locale_string(l, seq!['_']))
}

/// Container for localized data
#[derive(Clone, Debug, PartialEq, Eq)]
pub struct Localized<T> {
    /// The value for locales that have none of their own.
    pub default: Option<T>,
    /// The values by locale.
    pub content: SortedMap<Locale, T>,
}

impl<T> Localized<T> {
    /// What a lookup of `locale` finds: the value held for it, or else the
    /// default, if there is one.
    pub open spec fn lookup_spec(&self, locale: LocaleView) -> Option<T> {
        if self.content@.contains_key(locale) {
            Some(self.content@[locale])
        } else {
            self.default
        }
    }

    /// The number of entries that stand before the locales in a document: one
    /// where there is a default.
    pub open spec fn offset(&self) -> int {
        if self.default is Some {
            1
        } else {
            0
        }
    }

    /// The number of values held, the default included.
    pub open spec fn len_spec(&self) -> nat {
        self.content.keys().len() + if self.default is Some {
            1nat
        } else {
            0nat
        }
    }

    /// Create a new instance of `Localized`
    pub fn new(default: Option<T>) -> (r: Self)
        ensures
            r.default == default,
            r.content@ == Map::<LocaleView, T>::empty(),
            r.content.keys() == Seq::<LocaleView>::empty(),
    {
        Self { default, content: SortedMap::new() }
    }

    /// Length of the container
    pub fn len(&self) -> (n: usize)
        requires
            self.len_spec() <= usize::MAX,
        ensures
            n == self.len_spec(),
    {
        let held = self.content.len();
        if self.default.is_some() {
            held + 1
        } else {
            held
        }
    }

    /// Check if the container is empty or not
    pub fn is_empty(&self) -> (r: bool)
        ensures
            r == (self.len_spec() == 0),
    {
        self.content.len() == 0 && self.default.is_none()
    }

    /// Set the data for a specific locale
    pub fn insert(&mut self, locale: Locale, content: T) -> (previous: Option<T>)
        ensures
            final(self).default == old(self).default,
            final(self).content@ == old(self).content@.insert(locale@, content),
            previous == if old(self).content@.contains_key(locale@) {
                Some(old(self).content@[locale@])
            } else {
                None::<T>
            },
    {
        self.content.insert(locale, content)
    }

    /// Set the data for a specific locale; another name of [`Self::insert`].
    pub fn set(&mut self, locale: Locale, content: T) -> (previous: Option<T>)
        ensures
            final(self).default == old(self).default,
            final(self).content@ == old(self).content@.insert(locale@, content),
            previous == if old(self).content@.contains_key(locale@) {
                Some(old(self).content@[locale@])
            } else {
                None::<T>
            },
    {
        self.insert(locale, content)
    }

    /// Update the default value
    pub fn default(&mut self, default: Option<T>)
        ensures
            final(self).default == default,
            final(self).content == old(self).content,
    {
        self.default = default;
    }

    /// Get the default value
    pub fn get_default(&self) -> (r: Option<&T>)
        ensures
            match r {
                Some(v) => self.default == Some(*v),
                None => self.default is None,
            },
    {
        self.default.as_ref()
    }

    /// The value for `locale`: its own where the container holds one, else
    /// the default, else nothing.
    pub fn lookup(&self, locale: &Locale) -> (r: Option<&T>)
        ensures
            match r {
                Some(v) => self.lookup_spec(locale@) == Some(*v),
                None => self.lookup_spec(locale@) is None,
            },
    {
        match self.content.get(locale) {
            Some(v) => Some(v),
            None => self.default.as_ref(),
        }
    }

    /// The value for `locale`, or the default where the locale has none.
    /// The container must hold one of the two.
    pub fn index_locale(&self, locale: &Locale) -> (r: &T)
        requires
            self.lookup_spec(locale@) is Some,
        ensures
            self.lookup_spec(locale@) == Some(*r),
    {
        match self.lookup(locale) {
            Some(v) => v,
            None => unreached(),
        }
    }

    /// The value for the locale that `index` names, or else the default, or
    /// `None` where the container holds neither.
    pub fn get(&self, index: &str) -> (r: Option<&T>)
        ensures
            match r {
                Some(v) => self.lookup_spec(parse_locale(index@)) == Some(*v),
                None => self.lookup_spec(parse_locale(index@)) is None,
            },
    {
        let locale = Locale::new(index);
        if self.content.contains_key(&locale) || self.default.is_some() {
            Some(self.index(index))
        } else {
            None
        }
    }

    /// The value for the locale that `index` names, or the default where
    /// that locale has none. The container must hold one of the two.
    pub fn index(&self, index: &str) -> (r: &T)
        requires
            self.lookup_spec(parse_locale(index@)) is Some,
        ensures
            self.lookup_spec(parse_locale(index@)) == Some(*r),
    {
        let locale = Locale::new(index);
        self.index_locale(&locale)
    }

    /// Builds the container that a document declares, from its entries in
    /// the order of the document: the entry with the key `default`, in any
    /// case, gives the default value, every other key names a locale.
    pub fn from_entries(entries: Vec<(String, T)>) -> (r: Self)
        ensures
            r.default == declared_default(entries@),
            r.content@ == declared_content(entries@),
    {
        let ghost given = entries@;
        let mut pending = reversed(entries);
        let mut r = Self::new(None);
        let ghost mut done: int = 0;
        proof {
            assert(given.take(0) =~= Seq::<(String, T)>::empty());
        }
        while pending.len() > 0
            invariant
                given == entries@,
                0 <= done <= given.len(),
                pending@.len() == given.len() - done,
                forall|j: int|
                    0 <= j < pending@.len() ==> #[trigger] pending@[j] == given[given.len() - 1 - j],
                r.default == declared_default(given.take(done)),
                r.content@ == declared_content(given.take(done)),
            decreases pending@.len(),
        {
            match pending.pop() {
                Some((key, value)) => {
                    proof {
                        assert(given.take(done + 1).drop_last() =~= given.take(done));
                        assert(given.take(done + 1).last() == given[done]);
                    }
                    let folded = key.as_str().to_lowercase();
                    if str_eq(folded.as_str(), "default") {
                        r.default(Some(value));
                    } else {
                        r.insert(Locale::new(key.as_str()), value);
                    }
                    proof {
                        done = done + 1;
                    }
                },
                None => {},
            }
        }
        proof {
            assert(given.take(given.len() as int) =~= given);
        }
        r
    }

    /// The entries of the document that declares this container: the default
    /// under `default` first, where there is one, then each locale's value
    /// under the name of the locale, in ascending order of the locales.
    pub fn entries(&self) -> (r: Vec<(String, &T)>)
        ensures
            r@.len() == self.len_spec(),
            self.default matches Some(d) ==> r@[0].0@ == "default"@ && *r@[0].1 == d,
            forall|i: int|
                0 <= i < self.content.keys().len() ==> {
                    &&& (#[trigger] r@[i + self.offset()]).0@ == written_keys(
                        self.content.keys(),
                    )[i]
                    &&& *r@[i + self.offset()].1 == self.content.values()[i]
                },
    {
        let mut r: Vec<(String, &T)> = Vec::new();
        match &self.default {
            Some(d) => {
                r.push(("default".to_owned(), d));
            },
            None => {},
        }
        let ghost skip = r@.len() as int;
        let n = self.content.len();
        let mut i: usize = 0;
        while i < n
            invariant
                n == self.content.keys().len(),
                i <= n,
                skip == self.offset(),
                r@.len() == skip + i,
                self.default matches Some(d) ==> r@[0].0@ == "default"@ && *r@[0].1 == d,
                forall|j: int|
                    0 <= j < i ==> {
                        &&& (#[trigger] r@[j + skip]).0@ == written_keys(self.content.keys())[j]
                        &&& *r@[j + skip].1 == self.content.values()[j]
                    },
            decreases n - i,
        {
            let (locale, value) = self.content.entry(i);
            r.push((locale.to_string(), value));
            i += 1;
        }
        r
    }

    /// Convert to a map from locale names, as `transform` writes them, to
    /// the values, in ascending order of the names.
    pub fn to_hashmap<'a, F>(&'a self, transform: F) -> (r: Result<
        SortedMap<String, &'a T>,
        LocaleError,
    >) where
        F: Fn(&Locale) -> String,

        requires
            forall|l: &Locale| #[trigger] transform.requires((l,)),
        ensures
            r matches Ok(m) && m.consistent() && exists|names: Seq<String>|
                {
                    &&& names.len() == self.content.keys().len()
                    &&& forall|i: int|
                        0 <= i < names.len() ==> transform.ensures(
                            (&self.content.held_keys()[i],),
                            #[trigger] names[i],
                        )
                    &&& m@ == collected(views(names), borrowed(self.content.values()))
                },
    {
        let n = self.content.len();
        let mut m: SortedMap<String, &'a T> = SortedMap::new();
        let ghost mut names: Seq<String> = Seq::empty();
        let mut i: usize = 0;
        while i < n
            invariant
                n == self.content.keys().len(),
                self.content.consistent(),
                i <= n,
                names.len() == i,
                forall|l: &Locale| #[trigger] transform.requires((l,)),
                forall|j: int|
                    0 <= j < i ==> transform.ensures(
                        (&self.content.held_keys()[j],),
                        #[trigger] names[j],
                    ),
                m.consistent(),
                m@ == collected(views(names), borrowed(self.content.values()).take(i as int)),
            decreases n - i,
        {
            let (locale, value) = self.content.entry(i);
            let name = transform(locale);
            proof {
                let before = names;
                names = names.push(name);
                let vals = borrowed(self.content.values());
                assert(views(names).drop_last() =~= views(before));
                assert(vals.take(i + 1).drop_last() =~= vals.take(i as int));
                assert(views(names).last() == name@);
                assert(vals.take(i + 1).last() == value);
            }
            m.insert(name, value);
            i += 1;
        }
        proof {
            let vals = borrowed(self.content.values());
            assert(vals.take(n as int) =~= vals);
        }
        Ok(m)
    }
}

} // verus!
