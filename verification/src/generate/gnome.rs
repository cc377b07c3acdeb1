//! GNOME metadata generator.
//!
//! Describes `gnome-background-properties/*.xml` and, when multiple
//! resolutions exist, a GNOME background list XML under the wallpaper's
//! `contents/` directory. The documents are described by their data; the
//! caller renders and writes them.

use vstd::prelude::*;
use crate::error::Error;
use crate::generate::{
    get_wallpaper_base, of_kind, wallpaper_base, MetadataGenerator, Resolution, Wallpaper,
    WallpaperFile, WallpaperKind,
};
use crate::input::{Color, ColorShadingType, PictureOptions};
use crate::locale::{locale_string, Locale, LocaleError, LocaleView};
use crate::localized::{borrowed, collected, views, Localized};
use crate::ordered::{ascending, zip_map};
use crate::text::{join_path, path_join};

verus! {

/// A title for one locale.
#[derive(Debug)]
pub struct Name<'a> {
    /// The locale, as the document writes it.
    pub locale: String,
    /// The title in that locale.
    pub name: &'a String,
}

/// The data of a `gnome-background-properties` document.
#[derive(Debug)]
pub struct GNOMEWallpaperMeta<'a> {
    /// The title for locales without one of their own.
    pub default_name: Option<&'a String>,
    /// The titles by locale, in ascending order of the locale names.
    pub names: Vec<Name<'a>>,
    /// The normal image or list of images, relative to the staging root.
    pub filename: Option<String>,
    /// The dark image or list of images, relative to the staging root.
    pub filename_dark: Option<String>,
    /// Desktop rendering option.
    pub options: PictureOptions,
    /// Background shading type.
    pub shade_type: ColorShadingType,
    /// Primary background color.
    pub pcolor: Color,
    /// Secondary background color.
    pub scolor: Color,
}

/// One entry of a background list: an image and its size.
#[derive(Debug)]
pub struct GNOMEWallpaperFile<'a> {
    /// Width in pixels.
    pub width: usize,
    /// Height in pixels.
    pub height: usize,
    /// The image, relative to the staging root.
    pub path: &'a str,
}

/// The data of a background list document.
#[derive(Debug)]
pub struct GNOMEWallpaperList<'a> {
    /// The images of one kind, in the order of the wallpaper.
    pub files: Vec<GNOMEWallpaperFile<'a>>,
}

/// What GNOME gets for one kind of image: nothing, the one image, or a list
/// document that names them all.
#[derive(Debug)]
pub enum GNOMEVariant<'a> {
    /// The wallpaper has no image of the kind.
    Absent,
    /// The wallpaper has one image of the kind, at this path.
    Single(String),
    /// The wallpaper has several: a list is written at `path`.
    Listed {
        /// Where the list document goes, relative to the staging root.
        path: String,
        /// What the list document holds.
        list: GNOMEWallpaperList<'a>,
    },
}

/// Everything that GNOME needs for one wallpaper.
#[derive(Debug)]
pub struct GNOMEDocuments<'a> {
    /// The normal images.
    pub normal: GNOMEVariant<'a>,
    /// The dark images.
    pub dark: GNOMEVariant<'a>,
    /// Where the manifest goes, relative to the staging root.
    pub manifest_path: String,
    /// What the manifest holds.
    pub manifest: GNOMEWallpaperMeta<'a>,
}

/// Generates GNOME wallpaper manifests for a single [`Wallpaper`].
#[derive(Copy, Clone, Debug)]
pub struct GNOMEMetadataGenerator;

/// The locales of a sequence of names.
pub open spec fn name_keys<'a>(names: Seq<Name<'a>>) -> Seq<Seq<char>> {
    names.map_values(|n: Name<'a>| n.locale@)
}

/// The titles of a sequence of names.
pub open spec fn name_values<'a>(names: Seq<Name<'a>>) -> Seq<&'a String> {
    names.map_values(|n: Name<'a>| n.name)
}

/// Whether `names` lists the map `m` in ascending order of its keys.
pub open spec fn lists_map<'a>(names: Seq<Name<'a>>, m: Map<Seq<char>, &'a String>) -> bool {
    &&& ascending::<String>(name_keys(names))
    &&& zip_map(name_keys(names), name_values(names)) == m
}

/// The names of the locales of `content`, in its order, each written with
/// `delimiter` between language and region.
pub open spec fn labels(content: Seq<LocaleView>, delimiter: Seq<char>) -> Seq<Seq<char>> {
    content.map_values(|l: LocaleView| locale_string(l, delimiter))
}

impl<'a> Name<'a> {
    /// Generate a vector of names from a [`Localized<String>`], in ascending
    /// order of the locale names that `transform` writes.
    pub fn flatten<F>(src: &'a Localized<String>, transform: F) -> (r: Result<
        Vec<Self>,
        LocaleError,
    >) where F: Fn(&Locale) -> String
        requires
            forall|l: &Locale| #[trigger] transform.requires((l,)),
        ensures
            r matches Ok(names) && exists|written: Seq<String>|
                {
                    &&& written.len() == src.content.keys().len()
                    &&& forall|i: int|
                        0 <= i < written.len() ==> transform.ensures(
                            (&src.content.held_keys()[i],),
                            #[trigger] written[i],
                        )
                    &&& lists_map(
                        names@,
                        collected(views(written), borrowed(src.content.values())),
                    )
                },
    {
        let m = match src.to_hashmap(transform) {
            Ok(m) => m,
            Err(e) => {
                return Err(e);
            },
        };
        let mut names: Vec<Name<'a>> = Vec::new();
        let n = m.len();
        let mut i: usize = 0;
        while i < n
            invariant
                n == m.keys().len(),
                m.consistent(),
                i <= n,
                names@.len() == i,
                name_keys(names@) == m.keys().take(i as int),
                name_values(names@) == m.values().take(i as int),
            decreases n - i,
        {
            let (locale, name) = m.entry(i);
            names.push(Name { locale: locale.clone(), name: *name });
            proof {
                assert(name_keys(names@) =~= m.keys().take(i + 1));
                assert(name_values(names@) =~= m.values().take(i + 1));
            }
            i += 1;
        }
        proof {
            assert(m.keys().take(n as int) =~= m.keys());
            assert(m.values().take(n as int) =~= m.values());
        }
        Ok(names)
    }
}

/// Where the list document for the images of `kind` of the wallpaper `id`
/// goes: `gnome-list.xml` beside the images.
pub open spec fn list_path(id: Seq<char>, kind: WallpaperKind) -> Seq<char> {
    path_join(
        path_join(path_join(wallpaper_base(id), "contents"@), kind.dir_name()),
        "gnome-list.xml"@,
    )
}

/// Where the manifest of the wallpaper `id` goes.
pub open spec fn manifest_path(id: Seq<char>) -> Seq<char> {
    path_join("usr/share/gnome-background-properties"@, id + ".xml"@)
}

/// What the manifest names for the images `files` of one kind: nothing where
/// there is none, the image itself where there is one, else the list
/// document.
pub open spec fn variant_filename(files: Seq<WallpaperFile>, id: Seq<char>, kind: WallpaperKind) -> Option<
    Seq<char>,
> {
    if files.len() == 0 {
        None
    } else if files.len() == 1 {
        Some(files[0].file_path@)
    } else {
        Some(list_path(id, kind))
    }
}

/// Whether `list` names the images `files`, one entry each, in their order.
pub open spec fn list_of<'a>(list: GNOMEWallpaperList<'a>, files: Seq<WallpaperFile>) -> bool {
    &&& list.files@.len() == files.len()
    &&& forall|i: int|
        0 <= i < files.len() ==> {
            &&& (#[trigger] list.files@[i]).width == files[i].resolution.width
            &&& list.files@[i].height == files[i].resolution.height
            &&& list.files@[i].path@ == files[i].file_path@
        }
}

/// Whether `variant` is what GNOME gets for the images `files` of `kind`.
pub open spec fn variant_of<'a>(
    variant: GNOMEVariant<'a>,
    files: Seq<WallpaperFile>,
    id: Seq<char>,
    kind: WallpaperKind,
) -> bool {
    match variant {
        GNOMEVariant::Absent => files.len() == 0,
        GNOMEVariant::Single(path) => files.len() == 1 && path@ == files[0].file_path@,
        GNOMEVariant::Listed { path, list } => files.len() > 1 && path@ == list_path(id, kind)
            && list_of(list, files),
    }
}

/// The view of an optional string.
pub open spec fn optional_view(s: Option<String>) -> Option<Seq<char>> {
    match s {
        Some(s) => Some(s@),
        None => None,
    }
}

/// Whether `meta` is the manifest of `wallpaper` with the given file names.
pub open spec fn manifest_of<'a>(
    meta: GNOMEWallpaperMeta<'a>,
    wallpaper: Wallpaper<'a>,
    filename: Option<Seq<char>>,
    filename_dark: Option<Seq<char>>,
) -> bool {
    &&& match meta.default_name {
        Some(name) => wallpaper.title.default == Some(*name),
        None => wallpaper.title.default is None,
    }
    &&& lists_map(
        meta.names@,
        collected(
            labels(wallpaper.title.content.keys(), "-"@),
            borrowed(wallpaper.title.content.values()),
        ),
    )
    &&& optional_view(meta.filename) == filename
    &&& optional_view(meta.filename_dark) == filename_dark
    &&& meta.options == wallpaper.options
    &&& meta.shade_type == wallpaper.color_shading_type
    &&& meta.pcolor == wallpaper.primary_color
    &&& meta.scolor == wallpaper.secondary_color
}

impl<'a> GNOMEWallpaperMeta<'a> {
    /// The manifest of `wallpaper`, naming `file` for the normal images and
    /// `file_dark` for the dark ones. The titles are listed by locale, the
    /// locale written with a hyphen as XML wants it.
    pub fn new(wallpaper: &'a Wallpaper<'a>, file: Option<String>, file_dark: Option<String>) -> (r:
        Result<Self, LocaleError>)
        ensures
            r matches Ok(meta) && manifest_of(
                meta,
                *wallpaper,
                optional_view(file),
                optional_view(file_dark),
            ),
    {
        let titles = wallpaper.title;
        let default_name = titles.get_default();
        // xml:lang tags uses "-" as the delimiter
        let transform = |l: &Locale| -> (s: String)
            ensures
                s@ == locale_string(l@, "-"@),
            { l.get_locale("-") };
        let names = match Name::flatten(titles, transform) {
            Ok(names) => names,
            Err(e) => {
                return Err(e);
            },
        };
        proof {
            let written = choose|written: Seq<String>|
                {
                    &&& written.len() == titles.content.keys().len()
                    &&& forall|i: int|
                        0 <= i < written.len() ==> transform.ensures(
                            (&titles.content.held_keys()[i],),
                            #[trigger] written[i],
                        )
                    &&& lists_map(
                        names@,
                        collected(views(written), borrowed(titles.content.values())),
                    )
                };
            assert forall|i: int| 0 <= i < written.len() implies #[trigger] views(written)[i]
                == labels(titles.content.keys(), "-"@)[i] by {
                assert(transform.ensures((&titles.content.held_keys()[i],), written[i]));
            }
            assert(views(written) =~= labels(titles.content.keys(), "-"@));
        }
        Ok(
            Self {
                default_name,
                names,
                filename: file,
                filename_dark: file_dark,
                options: wallpaper.options,
                shade_type: wallpaper.color_shading_type,
                pcolor: wallpaper.primary_color,
                scolor: wallpaper.secondary_color,
            },
        )
    }
}

impl<'a> GNOMEWallpaperFile<'a> {
    fn from_file(value: &'a WallpaperFile) -> (r: Self)
        ensures
            r.width == value.resolution.width,
            r.height == value.resolution.height,
            r.path@ == value.file_path@,
    {
        Self {
            width: value.resolution.width,
            height: value.resolution.height,
            path: value.file_path.as_str(),
        }
    }
}

impl<'a> GNOMEWallpaperList<'a> {
    fn from_files(value: Vec<&'a WallpaperFile>) -> (r: Self)
        ensures
            r.files@.len() == value@.len(),
            forall|i: int|
                0 <= i < value@.len() ==> {
                    &&& (#[trigger] r.files@[i]).width == value@[i].resolution.width
                    &&& r.files@[i].height == value@[i].resolution.height
                    &&& r.files@[i].path@ == value@[i].file_path@
                },
    {
        let mut files: Vec<GNOMEWallpaperFile<'a>> = Vec::new();
        let n = value.len();
        let mut i: usize = 0;
        while i < n
            invariant
                n == value@.len(),
                i <= n,
                files@.len() == i,
                forall|j: int|
                    0 <= j < i ==> {
                        &&& (#[trigger] files@[j]).width == value@[j].resolution.width
                        &&& files@[j].height == value@[j].resolution.height
                        &&& files@[j].path@ == value@[j].file_path@
                    },
            decreases n - i,
        {
            files.push(GNOMEWallpaperFile::from_file(value[i]));
            i += 1;
        }
        Self { files }
    }
}

impl GNOMEMetadataGenerator {
    /// What GNOME gets for the images `files`, those of `kind` of the
    /// wallpaper `id`.
    fn variant<'a>(id: &str, kind: WallpaperKind, files: Vec<&'a WallpaperFile>) -> (r: (
        GNOMEVariant<'a>,
        Option<String>,
    ))
        ensures
            r.0 matches GNOMEVariant::Absent ==> files@.len() == 0,
            r.0 matches GNOMEVariant::Single(path) ==> files@.len() == 1 && path@
                == files@[0].file_path@,
            r.0 matches GNOMEVariant::Listed { path, list } ==> {
                &&& files@.len() > 1
                &&& path@ == list_path(id@, kind)
                &&& list.files@.len() == files@.len()
                &&& forall|i: int|
                    0 <= i < files@.len() ==> {
                        &&& (#[trigger] list.files@[i]).width == files@[i].resolution.width
                        &&& list.files@[i].height == files@[i].resolution.height
                        &&& list.files@[i].path@ == files@[i].file_path@
                    }
            },
            optional_view(r.1) == if files@.len() == 0 {
                None
            } else if files@.len() == 1 {
                Some(files@[0].file_path@)
            } else {
                Some(list_path(id@, kind))
            },
    {
        let n = files.len();
        if n == 0 {
            (GNOMEVariant::Absent, None)
        } else if n == 1 {
            (GNOMEVariant::Single(files[0].file_path.clone()), Some(files[0].file_path.clone()))
        } else {
            let base = get_wallpaper_base(id);
            let contents = join_path(base.as_str(), "contents");
            let directory = join_path(contents.as_str(), kind.get_dir_name());
            let path = join_path(directory.as_str(), "gnome-list.xml");
            let named = path.clone();
            (GNOMEVariant::Listed { path, list: GNOMEWallpaperList::from_files(files) }, Some(named))
        }
    }
}

impl MetadataGenerator for GNOMEMetadataGenerator {
    type Output<'a> = GNOMEDocuments<'a>;

    /// GNOME gets, for each kind, the image or a list of the images, and a
    /// manifest that names them. Nothing here can fail.
    open spec fn generated<'a>(
        wallpaper: Wallpaper<'a>,
        preview_resolution: Resolution,
        r: Result<GNOMEDocuments<'a>, Error>,
    ) -> bool {
        let normal = of_kind(wallpaper.files@, WallpaperKind::Normal);
        let dark = of_kind(wallpaper.files@, WallpaperKind::Dark);
        &&& r matches Ok(documents)
        &&& variant_of(documents.normal, normal, wallpaper.id@, WallpaperKind::Normal)
        &&& variant_of(documents.dark, dark, wallpaper.id@, WallpaperKind::Dark)
        &&& documents.manifest_path@ == manifest_path(wallpaper.id@)
        &&& manifest_of(
            documents.manifest,
            wallpaper,
            variant_filename(normal, wallpaper.id@, WallpaperKind::Normal),
            variant_filename(dark, wallpaper.id@, WallpaperKind::Dark),
        )
    }

    fn generate_metadata<'a>(wallpaper: &'a Wallpaper<'a>, _preview_resolution: Resolution) -> (r:
        Result<GNOMEDocuments<'a>, Error>) {
        let id = wallpaper.id;
        let normal_wallpapers = wallpaper.get_normal_wallpapers();
        let (normal, normal_wallpaper_path) = Self::variant(
            id,
            WallpaperKind::Normal,
            normal_wallpapers,
        );
        let dark_wallpapers = wallpaper.get_dark_wallpapers();
        let (dark, dark_wallpaper_path) = Self::variant(id, WallpaperKind::Dark, dark_wallpapers);
        let mut file_name = id.to_owned();
        file_name.append(".xml");
        let manifest_path = join_path("usr/share/gnome-background-properties", file_name.as_str());
        let manifest = match GNOMEWallpaperMeta::new(
            wallpaper,
            normal_wallpaper_path,
            dark_wallpaper_path,
        ) {
            Ok(manifest) => manifest,
            Err(_) => unreached(),
        };
        Ok(GNOMEDocuments { normal, dark, manifest_path, manifest })
    }
}

} // verus!
