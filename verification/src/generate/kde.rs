//! KDE metadata generator.
//!
//! Describes a `metadata.json` compatible with KDE wallpaper plugins and
//! optionally a `contents/screenshot.jpg` preview. The document is described
//! by its data; the caller renders and writes it and runs the preview job.

use vstd::prelude::*;
use crate::error::{Error, ResolutionFailure};
use crate::generate::{
    largest, of_kind, preview_candidates, wallpaper_base, MetadataGenerator, PreviewJob,
    Resolution, Wallpaper, WallpaperKind,
};
use crate::input::Author;
use crate::locale::{locale_string, Locale, LocaleView};
use crate::localized::{borrowed, collected, views, Localized};
use crate::ordered::{ascending, zip_map};
use crate::text::{hyphens_to_underscores, join_path, path_join, underscored};

verus! {

/// A localized name as KDE writes it: `Name` for the default and
/// `Name[<locale>]` for each locale.
#[derive(Debug)]
pub struct KPluginName<'a> {
    /// The name in all its locales.
    pub inner: &'a Localized<String>,
}

/// An author as KDE writes it.
#[derive(Debug)]
pub struct KPluginAuthor<'a> {
    /// Contact email address.
    pub email: &'a str,
    /// Display name.
    pub name: KPluginName<'a>,
}

/// The `KPlugin` section of a `metadata.json`.
#[derive(Debug)]
pub struct KPluginMetadataInner<'a> {
    /// The authors of the wallpaper.
    pub authors: Vec<KPluginAuthor<'a>>,
    /// The wallpaper id.
    pub id: &'a str,
    /// The license of the wallpaper.
    pub license: &'a str,
    /// The title of the wallpaper.
    pub name: KPluginName<'a>,
}

/// The data of a `metadata.json`.
#[derive(Debug)]
pub struct KPluginMetadata<'a> {
    /// The one section of the document.
    pub k_plugin: KPluginMetadataInner<'a>,
}

/// Everything that KDE needs for one wallpaper.
#[derive(Debug)]
pub struct KDEDocuments<'a> {
    /// Where the manifest goes, relative to the staging root.
    pub manifest_path: String,
    /// What the manifest holds.
    pub metadata: KPluginMetadata<'a>,
    /// The preview to render, unless the wallpaper has both a normal and a
    /// dark image.
    pub preview: Option<PreviewJob>,
}

/// Generates KDE wallpaper `metadata.json` for a single wallpaper.
#[derive(Copy, Clone, Debug)]
pub struct KDEMetadataGenerator;

/// The key under which KDE writes the name for a locale: `Name[`, the locale
/// with underscores for hyphens, `]`.
pub open spec fn name_key(locale: Seq<char>) -> Seq<char> {
    "Name["@ + underscored(locale) + "]"@
}

/// The keys under which KDE writes the names for `locales`.
pub open spec fn name_keys(locales: Seq<Seq<char>>) -> Seq<Seq<char>> {
    locales.map_values(|l: Seq<char>| name_key(l))
}

/// The keys of a sequence of entries.
pub open spec fn entry_keys<'a>(entries: Seq<(String, &'a String)>) -> Seq<Seq<char>> {
    entries.map_values(|e: (String, &'a String)| e.0@)
}

/// The values of a sequence of entries.
pub open spec fn entry_values<'a>(entries: Seq<(String, &'a String)>) -> Seq<&'a String> {
    entries.map_values(|e: (String, &'a String)| e.1)
}

/// The names of the locales of `content`, in its order, written with an
/// underscore between language and region.
pub open spec fn written(content: Seq<LocaleView>) -> Seq<Seq<char>> {
    content.map_values(|l: LocaleView| locale_string(l, seq!['_']))
}

/// Whether `entries` are the fields that KDE writes for `name`: `Name` with
/// the default first, where there is one, then one field for each locale, in
/// ascending order of the locale names.
pub open spec fn fields_of<'a>(entries: Seq<(String, &'a String)>, name: &'a Localized<String>) -> bool {
    let skip = if name.default is Some {
        1int
    } else {
        0int
    };
    let keys = entry_keys(entries).skip(skip);
    let values = entry_values(entries).skip(skip);
    &&& entries.len() >= skip
    &&& name.default matches Some(d) ==> entries[0].0@ == "Name"@ && *entries[0].1 == d
    &&& exists|locales: Seq<Seq<char>>|
        {
            &&& #[trigger] ascending::<String>(locales)
            &&& locales.len() == keys.len()
            &&& zip_map(locales, values) == collected(
                written(name.content.keys()),
                borrowed(name.content.values()),
            )
            &&& keys == name_keys(locales)
        }
}

impl<'a> KPluginName<'a> {
    /// The name in all its locales, as KDE writes it.
    pub fn from(value: &'a Localized<String>) -> (r: Self)
        ensures
            r.inner == value,
    {
        Self { inner: value }
    }

    /// The fields that KDE writes for this name, in their order.
    pub fn entries(&self) -> (r: Vec<(String, &'a String)>)
        ensures
            fields_of(r@, self.inner),
    {
        let mut r: Vec<(String, &'a String)> = Vec::new();
        match self.inner.get_default() {
            Some(default) => {
                r.push(("Name".to_owned(), default));
            },
            None => {},
        }
        let ghost skip = r@.len() as int;
        let transform = |l: &Locale| -> (s: String)
            ensures
                s@ == locale_string(l@, seq!['_']),
            { l.to_string() };
        let m = match self.inner.to_hashmap(transform) {
            Ok(m) => m,
            Err(_) => unreached(),
        };
        proof {
            let names = choose|names: Seq<String>|
                {
                    &&& names.len() == self.inner.content.keys().len()
                    &&& forall|i: int|
                        0 <= i < names.len() ==> transform.ensures(
                            (&self.inner.content.held_keys()[i],),
                            #[trigger] names[i],
                        )
                    &&& m@ == collected(views(names), borrowed(self.inner.content.values()))
                };
            assert forall|i: int| 0 <= i < names.len() implies #[trigger] views(names)[i] == written(
                self.inner.content.keys(),
            )[i] by {
                assert(transform.ensures((&self.inner.content.held_keys()[i],), names[i]));
            }
            assert(views(names) =~= written(self.inner.content.keys()));
        }
        let n = m.len();
        let mut i: usize = 0;
        while i < n
            invariant
                n == m.keys().len(),
                m.consistent(),
                i <= n,
                r@.len() == skip + i,
                skip == if self.inner.default is Some {
                    1int
                } else {
                    0int
                },
                self.inner.default matches Some(d) ==> r@[0].0@ == "Name"@ && *r@[0].1 == d,
                entry_keys(r@).skip(skip) == name_keys(m.keys().take(i as int)),
                entry_values(r@).skip(skip) == m.values().take(i as int),
            decreases n - i,
        {
            let (locale, name) = m.entry(i);
            let mut key = "Name[".to_owned();
            let folded = hyphens_to_underscores(locale.as_str());
            key.append(folded.as_str());
            key.append("]");
            let ghost before = r@;
            assert(key@ == name_key(m.keys()[i as int]));
            r.push((key, *name));
            proof {
                let now = entry_keys(r@).skip(skip);
                let want = name_keys(m.keys().take(i + 1));
                assert(now.len() == want.len());
                assert forall|j: int| 0 <= j < now.len() implies now[j] == want[j] by {
                    if j < i {
                        assert(r@[skip + j] == before[skip + j]);
                        assert(entry_keys(before).skip(skip)[j] == name_keys(
                            m.keys().take(i as int),
                        )[j]);
                    } else {
                        assert(r@[skip + j].0@ == key@);
                    }
                }
                assert(now =~= want);
                let now_values = entry_values(r@).skip(skip);
                let want_values = m.values().take(i + 1);
                assert forall|j: int| 0 <= j < now_values.len() implies now_values[j]
                    == want_values[j] by {
                    if j < i {
                        assert(r@[skip + j] == before[skip + j]);
                        assert(entry_values(before).skip(skip)[j] == m.values().take(i as int)[j]);
                    }
                }
                assert(now_values =~= want_values);
            }
            i += 1;
        }
        proof {
            assert(m.keys().take(n as int) =~= m.keys());
            assert(m.values().take(n as int) =~= m.values());
            assert(ascending::<String>(m.keys()));
        }
        r
    }
}

impl<'a> KPluginAuthor<'a> {
    /// An author as KDE writes it.
    pub fn from(value: &'a Author) -> (r: Self)
        ensures
            r.email@ == value.email@,
            *r.name.inner == value.name,
    {
        Self { email: value.email(), name: KPluginName::from(value.name()) }
    }
}

impl<'a> KPluginMetadataInner<'a> {
    /// The `KPlugin` section with these fields.
    pub fn new(
        authors: Vec<KPluginAuthor<'a>>,
        id: &'a str,
        license: &'a str,
        name: KPluginName<'a>,
    ) -> (r: Self)
        ensures
            r.authors == authors,
            r.id == id,
            r.license == license,
            r.name == name,
    {
        Self { authors, id, license, name }
    }
}

/// Whether `metadata` is the `metadata.json` of `wallpaper`: its authors in
/// their order, its id, license and title.
pub open spec fn metadata_of<'a>(metadata: KPluginMetadata<'a>, wallpaper: Wallpaper<'a>) -> bool {
    let section = metadata.k_plugin;
    &&& section.id@ == wallpaper.id@
    &&& section.license@ == wallpaper.license@
    &&& *section.name.inner == *wallpaper.title
    &&& section.authors@.len() == wallpaper.authors@.len()
    &&& forall|i: int|
        0 <= i < section.authors@.len() ==> {
            &&& (#[trigger] section.authors@[i]).email@ == wallpaper.authors@[i].email@
            &&& *section.authors@[i].name.inner == wallpaper.authors@[i].name
        }
}

impl<'a> KPluginMetadata<'a> {
    /// The `metadata.json` of a wallpaper.
    pub fn new(src: &'a Wallpaper<'a>) -> (r: Self)
        ensures
            metadata_of(r, *src),
    {
        let mut authors: Vec<KPluginAuthor<'a>> = Vec::new();
        let n = src.authors.len();
        let mut i: usize = 0;
        while i < n
            invariant
                n == src.authors@.len(),
                i <= n,
                authors@.len() == i,
                forall|j: int|
                    0 <= j < i ==> {
                        &&& (#[trigger] authors@[j]).email@ == src.authors@[j].email@
                        &&& *authors@[j].name.inner == src.authors@[j].name
                    },
            decreases n - i,
        {
            authors.push(KPluginAuthor::from(src.authors[i]));
            i += 1;
        }
        Self {
            k_plugin: KPluginMetadataInner::new(
                authors,
                src.id,
                src.license.as_str(),
                KPluginName::from(src.title),
            ),
        }
    }
}

/// Where the `metadata.json` of the wallpaper `id` goes.
pub open spec fn metadata_path(id: Seq<char>) -> Seq<char> {
    path_join(wallpaper_base(id), "metadata.json"@)
}

/// Where the preview of the wallpaper `id` goes.
pub open spec fn preview_path(id: Seq<char>) -> Seq<char> {
    path_join(wallpaper_base(id), "contents/screenshot.jpg"@)
}

/// Whether a wallpaper with these files gets no preview: it has both a
/// normal and a dark image.
pub open spec fn preview_skipped(wallpaper: Wallpaper) -> bool {
    of_kind(wallpaper.files@, WallpaperKind::Normal).len() > 0 && of_kind(
        wallpaper.files@,
        WallpaperKind::Dark,
    ).len() > 0
}

impl MetadataGenerator for KDEMetadataGenerator {
    type Output<'a> = KDEDocuments<'a>;

    /// KDE gets a `metadata.json` and, unless the wallpaper has both a normal
    /// and a dark image, a preview of its largest image. A wallpaper without
    /// any file has nothing to preview: that is an error.
    open spec fn generated<'a>(
        wallpaper: Wallpaper<'a>,
        preview_resolution: Resolution,
        r: Result<KDEDocuments<'a>, Error>,
    ) -> bool {
        match r {
            Ok(documents) => {
                &&& documents.manifest_path@ == metadata_path(wallpaper.id@)
                &&& metadata_of(documents.metadata, wallpaper)
                &&& match documents.preview {
                    None => preview_skipped(wallpaper),
                    Some(job) => {
                        let candidates = preview_candidates(wallpaper.files@);
                        &&& !preview_skipped(wallpaper)
                        &&& wallpaper.files@.len() > 0
                        &&& 0 <= largest(candidates) < candidates.len()
                        &&& job.source@ == candidates[largest(candidates)].file_path@
                        &&& job.output@ == preview_path(wallpaper.id@)
                        &&& job.width == preview_resolution.width as u32
                        &&& job.height == preview_resolution.height as u32
                    },
                }
            },
            Err(e) => {
                &&& wallpaper.files@.len() == 0
                &&& e matches Error::WallpaperResolution { id, failure }
                &&& id@ == wallpaper.id@
                &&& failure == ResolutionFailure::NoFilesSpecified
            },
        }
    }

    fn generate_metadata<'a>(wallpaper: &'a Wallpaper<'a>, preview_resolution: Resolution) -> (r:
        Result<KDEDocuments<'a>, Error>) {
        let id = wallpaper.id;
        let target_path = Self::get_wallpaper_base(id);
        let manifest_path = join_path(target_path.as_str(), "metadata.json");
        let metadata = KPluginMetadata::new(wallpaper);
        let preview = if wallpaper.has_normal_wallpaper() && wallpaper.has_dark_wallpaper() {
            None
        } else {
            let preview_path = join_path(target_path.as_str(), "contents/screenshot.jpg");
            match wallpaper.generate_preview(preview_path.as_str(), preview_resolution) {
                Ok(job) => Some(job),
                Err(e) => {
                    return Err(e);
                },
            }
        };
        Ok(KDEDocuments { manifest_path, metadata, preview })
    }
}

} // verus!
