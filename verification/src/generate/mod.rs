//! Metadata generation for desktop environments.
//!
//! This module turns what a manifest declares into normalized wallpapers,
//! decides where each image is staged, and describes the documents that the
//! desktop environments (GNOME/KDE) expect beside them. Every path that it
//! computes is relative to the root of the staging tree.

pub mod gnome;
pub mod kde;

use vstd::prelude::*;
pub use gnome::GNOMEMetadataGenerator;
pub use kde::KDEMetadataGenerator;
use crate::error::{Error, ResolutionFailure};
use crate::format::ImageFormat;
use crate::input::{Author, Color, ColorShadingType, PictureOptions, Wallpaper as InputWallpaper};
use crate::license::{resolve_license, resolved_license, spdx_canonical};
use crate::localized::Localized;
use crate::walk::MetadataWrapper;
use crate::text::{
    ascii_lowercase, decimal, decimal_string, ends_with, ends_with_ignore_ascii_case, file_stem,
    join_path, path_join, reversed, stem_of_file_name, str_eq,
};

verus! {

/// Image size in pixels.
#[derive(Copy, Clone, Debug, PartialEq, Eq, Structural)]
pub struct Resolution {
    /// Image width in pixels.
    pub width: usize,
    /// Image height in pixels.
    pub height: usize,
}

/// Whether a wallpaper file is a normal or dark variant.
#[derive(Copy, Clone, Debug, PartialEq, Eq, Structural)]
pub enum WallpaperKind {
    /// Normal (light) variant.
    Normal,
    /// Dark variant.
    Dark,
}

impl WallpaperKind {
    /// Directory name used under `.../contents/` for this kind.
    pub open spec fn dir_name(self) -> Seq<char> {
        match self {
            WallpaperKind::Normal => "images"@,
            WallpaperKind::Dark => "images_dark"@,
        }
    }

    /// The kind of a file by the stem of its name: dark where the stem ends
    /// in `dark`, whatever the case of these four letters, else normal.
    pub open spec fn of_stem(stem: Seq<char>) -> WallpaperKind {
        if ends_with(ascii_lowercase(stem), "dark"@) {
            WallpaperKind::Dark
        } else {
            WallpaperKind::Normal
        }
    }

    /// Directory name used under `.../contents/` for this kind.
    pub fn get_dir_name(&self) -> (name: &'static str)
        ensures
            name@ == self.dir_name(),
    {
        match self {
            WallpaperKind::Normal => "images",
            WallpaperKind::Dark => "images_dark",
        }
    }

    /// Classifies a file by its name: by the stem that is left when the
    /// extension is stripped.
    pub fn from_file_name(name: &str) -> (kind: WallpaperKind)
        ensures
            kind == Self::of_stem(file_stem(name@)),
    {
        let stem = stem_of_file_name(name);
        Self::from_stem(stem.as_str())
    }

    /// Classifies a file by the stem of its name, the extension stripped.
    pub fn from_stem(stem: &str) -> (kind: WallpaperKind)
        ensures
            kind == Self::of_stem(stem@),
    {
        if ends_with_ignore_ascii_case(stem, "dark") {
            WallpaperKind::Dark
        } else {
            WallpaperKind::Normal
        }
    }
}

/// Two stems that differ in ASCII case only are of the same kind, and a stem
/// is of the kind of its lowercase form: the classification looks at the
/// folded stem and at nothing else.
pub proof fn lemma_kind_ignores_case(a: Seq<char>, b: Seq<char>)
    requires
        ascii_lowercase(a) == ascii_lowercase(b),
    ensures
        WallpaperKind::of_stem(a) == WallpaperKind::of_stem(b),
        WallpaperKind::of_stem(ascii_lowercase(a)) == WallpaperKind::of_stem(a),
{
    crate::text::lemma_ascii_lowercase_idempotent(a);
}

/// A stem is dark exactly when its last four characters are `d`, `a`, `r`,
/// `k`, each in either case; every other stem is normal.
pub proof fn lemma_kind_by_last_letters(stem: Seq<char>)
    ensures
        WallpaperKind::of_stem(stem) == WallpaperKind::Dark <==> {
            let n = stem.len() as int;
            &&& n >= 4
            &&& (stem[n - 4] == 'd' || stem[n - 4] == 'D')
            &&& (stem[n - 3] == 'a' || stem[n - 3] == 'A')
            &&& (stem[n - 2] == 'r' || stem[n - 2] == 'R')
            &&& (stem[n - 1] == 'k' || stem[n - 1] == 'K')
        },
        WallpaperKind::of_stem(stem) == WallpaperKind::Dark || WallpaperKind::of_stem(stem)
            == WallpaperKind::Normal,
{
    reveal_strlit("dark");
    let folded = ascii_lowercase(stem);
    let n = stem.len() as int;
    let suffix = "dark"@;
    assert(suffix.len() == 4);
    assert(suffix[0] == 'd' && suffix[1] == 'a' && suffix[2] == 'r' && suffix[3] == 'k');
    if n >= 4 {
        let tail = folded.subrange(n - 4, n);
        assert(tail[0] == folded[n - 4] && tail[1] == folded[n - 3] && tail[2] == folded[n - 2]
            && tail[3] == folded[n - 1]);
        if (stem[n - 4] == 'd' || stem[n - 4] == 'D') && (stem[n - 3] == 'a' || stem[n - 3] == 'A')
            && (stem[n - 2] == 'r' || stem[n - 2] == 'R') && (stem[n - 1] == 'k' || stem[n - 1]
            == 'K') {
            assert(tail =~= suffix);
        }
    }
}

/// What a caller learned of one listed image file.
#[derive(Clone, Debug, PartialEq, Eq)]
pub enum Probe {
    /// The file does not exist or cannot be opened.
    Missing,
    /// The file is no image that can be decoded, or its format is unknown.
    Undecodable,
    /// The file was decoded.
    Image {
        /// The name of the file, without the directories that lead to it.
        file_name: String,
        /// The width in pixels.
        width: u32,
        /// The height in pixels.
        height: u32,
        /// The container format.
        format: ImageFormat,
    },
}

/// A discovered (and usually copied) wallpaper file with derived metadata.
#[derive(Clone, Debug, PartialEq, Eq)]
pub struct WallpaperFile {
    /// File path: that of the source for a discovered file, that in the
    /// staging directory for a staged one.
    pub file_path: String,
    /// Image resolution.
    pub resolution: Resolution,
    /// Detected image format.
    pub format: ImageFormat,
    /// Variant type (normal/dark).
    pub kind: WallpaperKind,
}

/// The mathematical value of a [`WallpaperFile`].
pub struct WallpaperFileView {
    /// File path.
    pub file_path: Seq<char>,
    /// Image resolution.
    pub resolution: Resolution,
    /// The extension of the image format.
    pub format: Seq<char>,
    /// Variant type (normal/dark).
    pub kind: WallpaperKind,
}

impl View for WallpaperFile {
    type V = WallpaperFileView;

    open spec fn view(&self) -> WallpaperFileView {
        WallpaperFileView {
            file_path: self.file_path@,
            resolution: self.resolution,
            format: self.format@,
            kind: self.kind,
        }
    }
}

/// A request to render a preview image: decode `source`, fit it into
/// `width` by `height` pixels and save it as JPEG at `output`.
#[derive(Clone, Debug, PartialEq, Eq)]
pub struct PreviewJob {
    /// The image to read.
    pub source: String,
    /// Where the preview goes.
    pub output: String,
    /// The width of the box that the preview fits into.
    pub width: u32,
    /// The height of the box that the preview fits into.
    pub height: u32,
}

/// Whether a path is relative and has one component on every platform: it
/// is not empty and holds no separator (`/` or `\\`) and no colon, with which
/// a drive prefix would end.
pub open spec fn single_component(path: Seq<char>) -> bool {
    &&& path.len() > 0
    &&& forall|i: int|
        0 <= i < path.len() ==> #[trigger] path[i] != '/' && path[i] != '\\' && path[i] != ':'
}

/// `std::path::Path::parent` on the path that `file` spells, the result
/// turned back into a string. The contract says what the documentation of
/// `parent` says without leaning on how a platform splits a path: the empty
/// path has no parent, and the parent of a relative path with one component
/// is the empty path. Of every other path it says nothing.
#[verifier::external_body]
fn parent_of(file: &str) -> (r: Option<String>)
    ensures
        file@.len() == 0 ==> r is None,
        single_component(file@) ==> r is Some && r->Some_0@.len() == 0,
{
    match std::path::Path::new(file).parent() {
        Some(parent) => Some(parent.to_string_lossy().into_owned()),
        None => None,
    }
}

/// The directory that must exist before `file` is written, given the parent
/// that the path has, if it has one: a path without parent is invalid.
pub fn parent_or_invalid(file: &str, parent: Option<String>) -> (r: Result<String, Error>)
    ensures
        match (parent, r) {
            (Some(p), Ok(directory)) => directory@ == p@,
            (None, Err(Error::InvalidPath { path })) => path@ == file@,
            _ => false,
        },
{
    match parent {
        Some(directory) => Ok(directory),
        None => Err(Error::InvalidPath { path: file.to_owned() }),
    }
}

/// Ensure a file's parent directory exists: names the directory that the
/// caller has to create before it writes `file`. A path without a parent,
/// the empty path among them, is refused as invalid; a bare file name has
/// the empty path, the current directory, for its parent.
pub fn ensure_parent(file: &str) -> (r: Result<String, Error>)
    ensures
        file@.len() == 0 ==> r is Err,
        single_component(file@) ==> r is Ok && r->Ok_0@.len() == 0,
        r matches Err(e) ==> e matches Error::InvalidPath { path } && path@ == file@,
{
    parent_or_invalid(file, parent_of(file))
}

/// A desktop-environment specific metadata generator.
pub trait MetadataGenerator {
    /// What the generator hands back for one wallpaper: the documents to
    /// write and the jobs to run.
    type Output<'a>;

    /// Whether `r` is what the generator owes for `wallpaper`.
    spec fn generated<'a>(
        wallpaper: Wallpaper<'a>,
        preview_resolution: Resolution,
        r: Result<Self::Output<'a>, Error>,
    ) -> bool;

    /// Returns the base installation directory for a wallpaper id.
    fn get_wallpaper_base(id: &str) -> (base: String)
        ensures
            base@ == wallpaper_base(id@),
    {
        get_wallpaper_base(id)
    }

    /// Describes the metadata to write for a single wallpaper.
    fn generate_metadata<'a>(wallpaper: &'a Wallpaper<'a>, preview_resolution: Resolution) -> (r:
        Result<Self::Output<'a>, Error>)
        ensures
            Self::generated(*wallpaper, preview_resolution, r),
    ;
}

/// Counts the pixels of a file.
fn pixels(file: &WallpaperFile) -> (r: u128)
    ensures
        r == area(*file),
{
    let width = file.resolution.width as u128;
    let height = file.resolution.height as u128;
    assert(width * height <= u128::MAX) by (nonlinear_arith)
        requires
            width <= 0xffff_ffff_ffff_ffff,
            height <= 0xffff_ffff_ffff_ffff,
    ;
    width * height
}

/// The name of a staged file: width, `x`, height, a dot and the extension.
pub open spec fn staged_file_name(resolution: Resolution, extension: Seq<char>) -> Seq<char> {
    decimal(resolution.width as nat) + "x"@ + decimal(resolution.height as nat) + "."@ + extension
}

/// Where a file is staged below the directory of its wallpaper:
/// `contents`, the directory of its kind, and its staged name.
pub open spec fn staged_path(
    target_directory: Seq<char>,
    kind: WallpaperKind,
    resolution: Resolution,
    extension: Seq<char>,
) -> Seq<char> {
    path_join(
        path_join(path_join(target_directory, "contents"@), kind.dir_name()),
        staged_file_name(resolution, extension),
    )
}

/// The file as it stands once staged below `target_directory`.
pub open spec fn staged(file: WallpaperFileView, target_directory: Seq<char>) -> WallpaperFileView {
    WallpaperFileView {
        file_path: staged_path(target_directory, file.kind, file.resolution, file.format),
        resolution: file.resolution,
        format: file.format,
        kind: file.kind,
    }
}

/// The directory of a wallpaper in the staging tree.
pub open spec fn wallpaper_base(id: Seq<char>) -> Seq<char> {
    path_join("usr/share/wallpapers"@, id)
}

/// The directory of the wallpaper `id` in the staging tree.
pub fn get_wallpaper_base(id: &str) -> (base: String)
    ensures
        base@ == wallpaper_base(id@),
{
    join_path("usr/share/wallpapers", id)
}

/// Renders the name under which a file is staged.
pub fn staged_name(resolution: Resolution, extension: &str) -> (name: String)
    ensures
        name@ == staged_file_name(resolution, extension@),
{
    let mut name = decimal_string(resolution.width as u64);
    name.append("x");
    let height = decimal_string(resolution.height as u64);
    name.append(height.as_str());
    name.append(".");
    name.append(extension);
    name
}

impl WallpaperFile {
    /// The file at `source_path` that was decoded with the given name, size
    /// and format.
    pub open spec fn discovered(
        source_path: Seq<char>,
        file_name: Seq<char>,
        width: u32,
        height: u32,
        format: Seq<char>,
    ) -> WallpaperFileView {
        WallpaperFileView {
            file_path: source_path,
            resolution: Resolution { width: width as usize, height: height as usize },
            format,
            kind: WallpaperKind::of_stem(file_stem(file_name)),
        }
    }

    /// Describes a listed image file from what the caller learned of it.
    ///
    /// The file's kind is inferred from the stem of its name, the extension
    /// stripped (`*dark.<ext>` => [`WallpaperKind::Dark`]). A file that is missing or cannot be decoded
    /// gives the failure that says so, with the path.
    pub fn from_file(source_path: &str, probe: Probe) -> (r: Result<
        Self,
        ResolutionFailure,
    >)
        ensures
            match (probe, r) {
                (Probe::Missing, Err(ResolutionFailure::FileNotFound { path })) => path@
                    == source_path@,
                (
                    Probe::Undecodable,
                    Err(ResolutionFailure::UnsupportedOrCorruptImage { path }),
                ) => path@ == source_path@,
                (Probe::Image { file_name, width, height, format }, Ok(file)) => file@
                    == Self::discovered(source_path@, file_name@, width, height, format@),
                _ => false,
            },
    {
        match probe {
            Probe::Missing => Err(
                ResolutionFailure::FileNotFound { path: source_path.to_owned() },
            ),
            Probe::Undecodable => Err(
                ResolutionFailure::UnsupportedOrCorruptImage {
                    path: source_path.to_owned(),
                },
            ),
            Probe::Image { file_name, width, height, format } => Ok(
                Self {
                    file_path: source_path.to_owned(),
                    resolution: Resolution { width: width as usize, height: height as usize },
                    format,
                    kind: WallpaperKind::from_file_name(file_name.as_str()),
                },
            ),
        }
    }

    /// The file as it stands once copied below `target_directory`, the
    /// directory of its wallpaper: at
    /// `contents/<images|images_dark>/<width>x<height>.<ext>`. The copy itself
    /// is the caller's to make, from `self.file_path` to the path returned.
    pub fn copy_file(&self, target_directory: &str) -> (r: Self)
        ensures
            r@ == staged(self@, target_directory@),
    {
        let filename = staged_name(self.resolution, self.format.extension());
        let contents = join_path(target_directory, "contents");
        let directory = join_path(contents.as_str(), self.kind.get_dir_name());
        let target_path = join_path(directory.as_str(), filename.as_str());
        Self {
            file_path: target_path,
            resolution: self.resolution,
            format: self.format.duplicate(),
            kind: self.kind,
        }
    }

    /// The request for a preview image of this wallpaper file, fitted into
    /// `resolution` and written to `output`.
    pub fn generate_preview(&self, output: &str, resolution: Resolution) -> (job: PreviewJob)
        ensures
            job.source@ == self.file_path@,
            job.output@ == output@,
            job.width == resolution.width as u32,
            job.height == resolution.height as u32,
    {
        PreviewJob {
            source: self.file_path.clone(),
            output: output.to_owned(),
            width: #[verifier::truncate] (resolution.width as u32),
            height: #[verifier::truncate] (resolution.height as u32),
        }
    }
}

/// A normalized wallpaper ready for metadata generation.
#[derive(Clone, Debug, PartialEq, Eq)]
pub struct Wallpaper<'a> {
    /// Wallpaper id.
    pub id: &'a str,
    /// Canonicalized SPDX license expression when possible.
    pub license: String,
    /// Authors applicable to this wallpaper.
    pub authors: Vec<&'a Author>,
    /// Wallpaper title.
    pub title: &'a Localized<String>,
    /// Available files (normal/dark and/or multiple resolutions).
    pub files: Vec<WallpaperFile>,
    /// Primary background color.
    pub primary_color: Color,
    /// Secondary background color.
    pub secondary_color: Color,
    /// Background shading type.
    pub color_shading_type: ColorShadingType,
    /// Desktop rendering option.
    pub options: PictureOptions,
}

/// A set of wallpapers built from a metadata tree.
#[derive(Clone, Debug, PartialEq, Eq)]
pub struct WallpaperCollection<'a> {
    /// The normalized wallpapers.
    pub inner: Vec<Wallpaper<'a>>,
}

/// Whether no listed file of an entry failed.
pub open spec fn all_found(files: Seq<Result<WallpaperFile, ResolutionFailure>>) -> bool {
    forall|i: int| 0 <= i < files.len() ==> (#[trigger] files[i]) is Ok
}

/// Whether `at` is the place of the first listed file that failed.
pub open spec fn first_failure_at(
    files: Seq<Result<WallpaperFile, ResolutionFailure>>,
    at: int,
) -> bool {
    &&& 0 <= at < files.len()
    &&& files[at] is Err
    &&& forall|i: int| 0 <= i < at ==> (#[trigger] files[i]) is Ok
}

/// The authors that a list of references points to.
pub open spec fn pointees(authors: Seq<&Author>) -> Seq<Author> {
    authors.map_values(|a: &Author| *a)
}

/// Whether an entry with these listed files can be normalized: it lists at
/// least one file, and none failed.
pub open spec fn resolvable(files: Seq<Result<WallpaperFile, ResolutionFailure>>) -> bool {
    all_found(files) && files.len() > 0
}

/// Whether `e` is the error of an entry that cannot be normalized: it names
/// the entry's id and gives the reason of the first listed file that failed,
/// or says that no file is listed.
pub open spec fn entry_error(
    e: Error,
    wp: &InputWallpaper,
    files: Seq<Result<WallpaperFile, ResolutionFailure>>,
) -> bool {
    &&& e matches Error::WallpaperResolution { id, failure }
    &&& id@ == wp.id@
    &&& if files.len() == 0 {
        failure == ResolutionFailure::NoFilesSpecified
    } else {
        exists|at: int| first_failure_at(files, at) && failure == (#[trigger] files[at])->Err_0
    }
}

/// Whether the wallpaper `w` is what the entry `wp` normalizes to, given the
/// authors in scope and the listed files as they were found.
pub open spec fn normalized(
    w: Wallpaper,
    wp: &InputWallpaper,
    authors: Seq<Author>,
    files: Seq<Result<WallpaperFile, ResolutionFailure>>,
) -> bool {
    &&& w.id@ == wp.id@
    &&& w.license@ == resolved_license(wp.license@, spdx_canonical(wp.license@))
    &&& pointees(w.authors@) == authors
    &&& *w.title == wp.title
    &&& w.primary_color == wp.primary_color
    &&& w.secondary_color == wp.secondary_color
    &&& w.color_shading_type == wp.shade_type
    &&& w.options == wp.option
    &&& w.files@.len() == files.len()
    &&& forall|i: int|
        0 <= i < files.len() ==> (#[trigger] w.files@[i])@ == staged(
            files[i]->Ok_0@,
            wallpaper_base(wp.id@),
        )
}

/// The files of `kind` among `files`, in their order.
pub open spec fn of_kind(files: Seq<WallpaperFile>, kind: WallpaperKind) -> Seq<WallpaperFile>
    decreases files.len(),
{
    if files.len() == 0 {
        Seq::empty()
    } else if files.last().kind == kind {
        of_kind(files.drop_last(), kind).push(files.last())
    } else {
        of_kind(files.drop_last(), kind)
    }
}

/// The number of pixels of a file.
pub open spec fn area(file: WallpaperFile) -> int {
    file.resolution.width * file.resolution.height
}

/// The place of the largest file among `files`, the last of them where
/// several are equally large.
pub open spec fn largest(files: Seq<WallpaperFile>) -> int
    decreases files.len(),
{
    if files.len() <= 1 {
        0
    } else {
        let before = largest(files.drop_last());
        if area(files.last()) >= area(files[before]) {
            files.len() - 1
        } else {
            before
        }
    }
}

/// The files from which a preview is taken: the normal ones where there is
/// any, else the dark ones.
pub open spec fn preview_candidates(files: Seq<WallpaperFile>) -> Seq<WallpaperFile> {
    if of_kind(files, WallpaperKind::Normal).len() > 0 {
        of_kind(files, WallpaperKind::Normal)
    } else {
        of_kind(files, WallpaperKind::Dark)
    }
}

/// Every file is normal or dark, so where there are files there are
/// candidates for a preview; and the largest file is one of the sequence.
pub proof fn lemma_candidates_nonempty(files: Seq<WallpaperFile>)
    requires
        files.len() > 0,
    ensures
        preview_candidates(files).len() > 0,
        0 <= largest(preview_candidates(files)) < preview_candidates(files).len(),
    decreases files.len(),
{
    if files.len() > 1 {
        lemma_candidates_nonempty(files.drop_last());
    } else {
        assert(of_kind(files.drop_last(), WallpaperKind::Normal).len() == 0);
        assert(of_kind(files.drop_last(), WallpaperKind::Dark).len() == 0);
    }
    lemma_largest_in_range(preview_candidates(files));
}

/// The largest file of a sequence that is not empty stands in it, and no
/// file is larger; no later file is as large.
pub proof fn lemma_largest_in_range(files: Seq<WallpaperFile>)
    requires
        files.len() > 0,
    ensures
        0 <= largest(files) < files.len(),
        forall|i: int| 0 <= i < files.len() ==> area(#[trigger] files[i]) <= area(files[largest(files)]),
        forall|i: int|
            largest(files) < i < files.len() ==> area(#[trigger] files[i]) < area(
                files[largest(files)],
            ),
    decreases files.len(),
{
    if files.len() > 1 {
        let head = files.drop_last();
        lemma_largest_in_range(head);
        assert forall|i: int| 0 <= i < files.len() implies area(#[trigger] files[i]) <= area(
            files[largest(files)],
        ) by {
            if i < head.len() {
                assert(files[i] == head[i]);
            }
        }
        assert forall|i: int| largest(files) < i < files.len() implies area(#[trigger] files[i])
            < area(files[largest(files)]) by {
            if i < head.len() {
                assert(files[i] == head[i]);
            }
        }
    }
}

impl<'a> Wallpaper<'a> {
    /// The files of one kind, in their order.
    fn get_wallpapers(&self, kind: WallpaperKind) -> (r: Vec<&WallpaperFile>)
        ensures
            r@.len() == of_kind(self.files@, kind).len(),
            forall|i: int| 0 <= i < r@.len() ==> *#[trigger] r@[i] == of_kind(self.files@, kind)[i],
    {
        let mut r: Vec<&WallpaperFile> = Vec::new();
        let n = self.files.len();
        let mut i: usize = 0;
        while i < n
            invariant
                n == self.files@.len(),
                i <= n,
                r@.len() == of_kind(self.files@.take(i as int), kind).len(),
                forall|j: int|
                    0 <= j < r@.len() ==> *#[trigger] r@[j] == of_kind(
                        self.files@.take(i as int),
                        kind,
                    )[j],
            decreases n - i,
        {
            proof {
                assert(self.files@.take(i + 1).drop_last() =~= self.files@.take(i as int));
            }
            if self.files[i].kind == kind {
                r.push(&self.files[i]);
            }
            i += 1;
        }
        proof {
            assert(self.files@.take(n as int) =~= self.files@);
        }
        r
    }

    /// Returns normal-variant wallpaper files.
    pub fn get_normal_wallpapers(&self) -> (r: Vec<&WallpaperFile>)
        ensures
            r@.len() == of_kind(self.files@, WallpaperKind::Normal).len(),
            forall|i: int|
                0 <= i < r@.len() ==> *#[trigger] r@[i] == of_kind(
                    self.files@,
                    WallpaperKind::Normal,
                )[i],
    {
        self.get_wallpapers(WallpaperKind::Normal)
    }

    /// Returns dark-variant wallpaper files.
    pub fn get_dark_wallpapers(&self) -> (r: Vec<&WallpaperFile>)
        ensures
            r@.len() == of_kind(self.files@, WallpaperKind::Dark).len(),
            forall|i: int|
                0 <= i < r@.len() ==> *#[trigger] r@[i] == of_kind(
                    self.files@,
                    WallpaperKind::Dark,
                )[i],
    {
        self.get_wallpapers(WallpaperKind::Dark)
    }

    /// Returns `true` if any normal wallpaper file exists.
    pub fn has_normal_wallpaper(&self) -> (r: bool)
        ensures
            r == (of_kind(self.files@, WallpaperKind::Normal).len() > 0),
    {
        self.get_normal_wallpapers().len() > 0
    }

    /// Returns `true` if any dark wallpaper file exists.
    pub fn has_dark_wallpaper(&self) -> (r: bool)
        ensures
            r == (of_kind(self.files@, WallpaperKind::Dark).len() > 0),
    {
        self.get_dark_wallpapers().len() > 0
    }

    /// The request for a preview image of this wallpaper.
    ///
    /// Picks the largest available file from the normal variant if present,
    /// otherwise the dark variant; of several files that are equally large,
    /// the last. A wallpaper without files has no preview.
    pub fn generate_preview(&self, output: &str, resolution: Resolution) -> (r: Result<
        PreviewJob,
        Error,
    >)
        ensures
            match r {
                Ok(job) => {
                    let candidates = preview_candidates(self.files@);
                    &&& self.files@.len() > 0
                    &&& 0 <= largest(candidates) < candidates.len()
                    &&& job.source@ == candidates[largest(candidates)].file_path@
                    &&& job.output@ == output@
                    &&& job.width == resolution.width as u32
                    &&& job.height == resolution.height as u32
                },
                Err(e) => {
                    &&& self.files@.len() == 0
                    &&& e matches Error::WallpaperResolution { id, failure }
                    &&& id@ == self.id@
                    &&& failure == ResolutionFailure::NoFilesSpecified
                },
            },
    {
        if self.files.len() == 0 {
            return Err(
                Error::WallpaperResolution {
                    id: self.id.to_owned(),
                    failure: ResolutionFailure::NoFilesSpecified,
                },
            );
        }
        proof {
            lemma_candidates_nonempty(self.files@);
        }
        let candidates = if self.has_normal_wallpaper() {
            self.get_normal_wallpapers()
        } else {
            self.get_dark_wallpapers()
        };
        let ghost chosen = preview_candidates(self.files@);
        let n = candidates.len();
        let mut best: usize = 0;
        let mut i: usize = 1;
        while i < n
            invariant
                n == candidates@.len(),
                n == chosen.len(),
                n > 0,
                1 <= i <= n,
                forall|j: int| 0 <= j < n ==> *#[trigger] candidates@[j] == chosen[j],
                best == largest(chosen.take(i as int)),
                best < i,
            decreases n - i,
        {
            proof {
                assert(chosen.take(i + 1).drop_last() =~= chosen.take(i as int));
                assert(chosen.take(i + 1).last() == chosen[i as int]);
                assert(chosen.take(i as int)[best as int] == chosen[best as int]);
                assert(*candidates@[i as int] == chosen[i as int]);
                assert(*candidates@[best as int] == chosen[best as int]);
            }
            let here = pixels(candidates[i]);
            let there = pixels(candidates[best]);
            if here >= there {
                best = i;
            }
            i += 1;
        }
        proof {
            assert(chosen.take(n as int) =~= chosen);
            assert(chosen.take(1).drop_last() =~= Seq::<WallpaperFile>::empty());
        }
        Ok(candidates[best].generate_preview(output, resolution))
    }

    /// Normalizes the entry `wp` of a manifest, given the authors in scope at
    /// its declaration and, for each path that the entry lists, the file as
    /// it was found or the reason why it was not: one result for each listed
    /// path, in the order of the paths.
    ///
    /// The first listed file that failed fails the entry with its reason; an
    /// entry that lists no file fails too. Every error names the entry's id.
    /// Otherwise the wallpaper holds the resolved license, a copy of the
    /// author list and each file as staged below the wallpaper's directory.
    pub fn new(
        wp: &'a InputWallpaper,
        authors: &[&'a Author],
        files: Vec<Result<WallpaperFile, ResolutionFailure>>,
    ) -> (r: Result<Self, Error>)
        requires
            files@.len() == wp.path.paths().len(),
        ensures
            match r {
                Ok(w) => {
                    &&& resolvable(files@)
                    &&& normalized(w, wp, pointees(authors@), files@)
                    &&& w.files@.len() == wp.path.paths().len()
                    &&& w.files@.len() >= 1
                },
                Err(e) => !resolvable(files@) && entry_error(e, wp, files@),
            },
    {
        let license = resolve_license(wp.license.as_str());
        let ghost listed = files@;
        let mut pending = reversed(files);
        let mut found: Vec<WallpaperFile> = Vec::new();
        while pending.len() > 0
            invariant
                listed == files@,
                pending@.len() + found@.len() == listed.len(),
                forall|j: int|
                    0 <= j < pending@.len() ==> #[trigger] pending@[j] == listed[listed.len() - 1
                        - j],
                forall|j: int|
                    0 <= j < found@.len() ==> (#[trigger] listed[j]) is Ok && listed[j]->Ok_0
                        == found@[j],
            decreases pending@.len(),
        {
            let ghost at = found@.len() as int;
            match pending.pop() {
                Some(Ok(file)) => {
                    found.push(file);
                },
                Some(Err(failure)) => {
                    proof {
                        assert(first_failure_at(listed, at));
                        assert(failure == listed[at]->Err_0);
                    }
                    return Err(Error::WallpaperResolution { id: wp.id.clone(), failure });
                },
                None => {},
            }
        }
        if found.len() == 0 {
            return Err(
                Error::WallpaperResolution {
                    id: wp.id.clone(),
                    failure: ResolutionFailure::NoFilesSpecified,
                },
            );
        }
        // Plan the copies
        let target_directory = get_wallpaper_base(wp.id.as_str());
        let mut staged_files: Vec<WallpaperFile> = Vec::new();
        let n = found.len();
        let mut i: usize = 0;
        while i < n
            invariant
                n == found@.len(),
                i <= n,
                staged_files@.len() == i,
                target_directory@ == wallpaper_base(wp.id@),
                forall|j: int|
                    0 <= j < i ==> (#[trigger] staged_files@[j])@ == staged(
                        found@[j]@,
                        wallpaper_base(wp.id@),
                    ),
            decreases n - i,
        {
            staged_files.push(found[i].copy_file(target_directory.as_str()));
            i += 1;
        }
        let mut in_scope: Vec<&'a Author> = Vec::new();
        let m = authors.len();
        let mut k: usize = 0;
        while k < m
            invariant
                m == authors@.len(),
                k <= m,
                in_scope@ == authors@.take(k as int),
            decreases m - k,
        {
            in_scope.push(authors[k]);
            proof {
                assert(in_scope@ =~= authors@.take(k + 1));
            }
            k += 1;
        }
        proof {
            assert(authors@.take(m as int) =~= authors@);
            assert(pointees(in_scope@) =~= pointees(authors@));
        }
        Ok(
            Self {
                id: wp.id.as_str(),
                license,
                title: &wp.title,
                authors: in_scope,
                files: staged_files,
                primary_color: wp.primary_color,
                secondary_color: wp.secondary_color,
                color_shading_type: wp.shade_type,
                options: wp.option,
            },
        )
    }
}

/// The listed files of the entry at place `i`, as found.
pub open spec fn files_of(
    files: Seq<Vec<Result<WallpaperFile, ResolutionFailure>>>,
    i: int,
) -> Seq<Result<WallpaperFile, ResolutionFailure>> {
    files[i]@
}

/// Whether `files` holds, for each wallpaper that is declared, one result for
/// each path that the wallpaper lists.
pub open spec fn one_result_per_path(
    declared: Seq<InputWallpaper>,
    files: Seq<Vec<Result<WallpaperFile, ResolutionFailure>>>,
) -> bool {
    &&& files.len() == declared.len()
    &&& forall|i: int|
        0 <= i < declared.len() ==> (#[trigger] files[i])@.len() == declared[i].path.paths().len()
}

/// The wallpapers of several collections, in the order of the collections
/// and, within each, in its own order.
pub open spec fn concatenated<'a>(parts: Seq<WallpaperCollection<'a>>) -> Seq<Wallpaper<'a>>
    decreases parts.len(),
{
    if parts.len() == 0 {
        Seq::empty()
    } else {
        concatenated(parts.drop_last()) + parts.last().inner@
    }
}

impl<'a> WallpaperCollection<'a> {
    /// Build a [`WallpaperCollection`] from a resolved [`MetadataWrapper`]
    /// and, for each wallpaper that its manifest declares, the listed files
    /// as they were found: one list for each wallpaper, with one result for
    /// each path that the wallpaper lists.
    ///
    /// The wallpapers are normalized in the order of the manifest, each with
    /// the authors in scope of the directory. The first entry that cannot be
    /// normalized fails the whole collection with its error.
    pub fn new(
        value: &'a MetadataWrapper,
        files: Vec<Vec<Result<WallpaperFile, ResolutionFailure>>>,
    ) -> (r: Result<Self, Error>)
        requires
            one_result_per_path(value.metadata_spec().wallpapers@, files@),
        ensures
            match r {
                Ok(c) => {
                    &&& c.inner@.len() == value.metadata_spec().wallpapers@.len()
                    &&& forall|i: int|
                        0 <= i < c.inner@.len() ==> (#[trigger] c.inner@[i]).files@.len()
                            == value.metadata_spec().wallpapers@[i].path.paths().len()
                    &&& forall|i: int|
                        0 <= i < c.inner@.len() ==> resolvable(files_of(files@, i)) && normalized(
                            #[trigger] c.inner@[i],
                            &value.metadata_spec().wallpapers@[i],
                            value.authors_spec(),
                            files_of(files@, i),
                        )
                },
                Err(e) => exists|at: int|
                    {
                        &&& 0 <= at < value.metadata_spec().wallpapers@.len()
                        &&& forall|i: int| 0 <= i < at ==> resolvable(#[trigger] files_of(files@, i))
                        &&& !resolvable(files_of(files@, at))
                        &&& entry_error(
                            e,
                            &#[trigger] value.metadata_spec().wallpapers@[at],
                            files_of(files@, at),
                        )
                    },
            },
    {
        let authors = value.authors();
        let wallpapers = value.wallpapers();
        let ghost declared = value.metadata_spec().wallpapers@;
        let ghost listed = files@;
        let mut pending = reversed(files);
        let mut inner: Vec<Wallpaper<'a>> = Vec::new();
        let n = wallpapers.len();
        let mut i: usize = 0;
        proof {
            assert(pointees(authors@) =~= value.authors_spec());
        }
        while i < n
            invariant
                n == wallpapers@.len(),
                n == declared.len(),
                declared == value.metadata_spec().wallpapers@,
                listed == files@,
                i <= n,
                inner@.len() == i,
                pointees(authors@) == value.authors_spec(),
                forall|j: int| 0 <= j < n ==> *#[trigger] wallpapers@[j] == declared[j],
                one_result_per_path(declared, listed),
                pending@.len() == listed.len() - i,
                forall|j: int|
                    0 <= j < pending@.len() ==> #[trigger] pending@[j] == listed[listed.len() - 1
                        - j],
                forall|j: int| 0 <= j < i ==> resolvable(#[trigger] files_of(listed, j)),
                forall|j: int|
                    0 <= j < i ==> (#[trigger] inner@[j]).files@.len()
                        == declared[j].path.paths().len(),
                forall|j: int|
                    0 <= j < i ==> normalized(
                        #[trigger] inner@[j],
                        &declared[j],
                        value.authors_spec(),
                        files_of(listed, j),
                    ),
            decreases n - i,
        {
            let found = match pending.pop() {
                Some(found) => found,
                None => unreached(),
            };
            assert(found == listed[i as int]);
            assert(found@ == files_of(listed, i as int));
            let ghost before = inner@;
            let wp = wallpapers[i];
            assert(*wp == declared[i as int]);
            match Wallpaper::new(wp, authors.as_slice(), found) {
                Ok(w) => {
                    inner.push(w);
                    proof {
                        assert(normalized(
                            w,
                            &declared[i as int],
                            value.authors_spec(),
                            files_of(listed, i as int),
                        ));
                        assert(inner@[i as int] == w);
                        assert forall|j: int| 0 <= j < i + 1 implies normalized(
                            #[trigger] inner@[j],
                            &declared[j],
                            value.authors_spec(),
                            files_of(listed, j),
                        ) by {
                            if j < i {
                                assert(inner@[j] == before[j]);
                            }
                        }
                    }
                },
                Err(e) => {
                    proof {
                        let at = i as int;
                        assert(entry_error(e, &declared[at], files_of(listed, at)));
                        assert(!resolvable(files_of(listed, at)));
                        assert(forall|j: int|
                            0 <= j < at ==> resolvable(#[trigger] files_of(listed, j)));
                    }
                    return Err(e);
                },
            }
            i += 1;
        }
        Ok(Self { inner })
    }

    /// Whether no two wallpapers of the collection share an id.
    pub open spec fn ids_unique(&self) -> bool {
        forall|i: int, j: int|
            0 <= i < j < self.inner@.len() ==> (#[trigger] self.inner@[i]).id@ != (
            #[trigger] self.inner@[j]).id@
    }

    /// Looks for two wallpapers with the same id, whose staged files would
    /// overwrite each other: gives the place of the first wallpaper whose
    /// id an earlier one has too, or `None` where all ids differ.
    pub fn first_duplicate(&self) -> (r: Option<usize>)
        ensures
            match r {
                None => self.ids_unique(),
                Some(at) => {
                    &&& at < self.inner@.len()
                    &&& exists|i: int| 0 <= i < at && (#[trigger] self.inner@[i]).id@ == self.inner@[at as int].id@
                    &&& forall|i: int, j: int|
                        0 <= i < j < at ==> (#[trigger] self.inner@[i]).id@ != (
                        #[trigger] self.inner@[j]).id@
                },
            },
    {
        let n = self.inner.len();
        let mut j: usize = 0;
        while j < n
            invariant
                n == self.inner@.len(),
                j <= n,
                forall|a: int, b: int|
                    0 <= a < b < j ==> (#[trigger] self.inner@[a]).id@ != (
                    #[trigger] self.inner@[b]).id@,
            decreases n - j,
        {
            let mut i: usize = 0;
            while i < j
                invariant
                    n == self.inner@.len(),
                    j < n,
                    i <= j,
                    forall|a: int, b: int|
                        0 <= a < b < j ==> (#[trigger] self.inner@[a]).id@ != (
                        #[trigger] self.inner@[b]).id@,
                    forall|a: int|
                        0 <= a < i ==> (#[trigger] self.inner@[a]).id@ != self.inner@[j as int].id@,
                decreases j - i,
            {
                if str_eq(self.inner[i].id, self.inner[j].id) {
                    return Some(j);
                }
                i += 1;
            }
            j += 1;
        }
        None
    }

    /// Gathers the collections of all directories into one, in the order in
    /// which the directories were discovered. Nothing is dropped, merged or
    /// reordered.
    pub fn assemble(parts: Vec<WallpaperCollection<'a>>) -> (r: Self)
        ensures
            r.inner@ == concatenated(parts@),
    {
        let ghost given = parts@;
        let mut pending = reversed(parts);
        let mut inner: Vec<Wallpaper<'a>> = Vec::new();
        let ghost mut done: int = 0;
        while pending.len() > 0
            invariant
                given == parts@,
                0 <= done <= given.len(),
                pending@.len() == given.len() - done,
                forall|j: int|
                    0 <= j < pending@.len() ==> #[trigger] pending@[j] == given[given.len() - 1 - j],
                inner@ == concatenated(given.take(done)),
            decreases pending@.len(),
        {
            match pending.pop() {
                Some(part) => {
                    let mut wallpapers = part.inner;
                    proof {
                        assert(given.take(done + 1).drop_last() =~= given.take(done));
                        assert(given.take(done + 1).last() == given[done]);
                    }
                    inner.append(&mut wallpapers);
                    proof {
                        done = done + 1;
                    }
                },
                None => {},
            }
        }
        proof {
            assert(given.take(given.len() as int) =~= given);
        }
        Self { inner }
    }
}

/// A collection holds as many wallpapers as its parts hold together.
pub proof fn lemma_concatenated_len<'a>(parts: Seq<WallpaperCollection<'a>>) -> (total: nat)
    ensures
        concatenated(parts).len() == total,
        parts.len() == 0 ==> total == 0,
        parts.len() > 0 ==> total == concatenated(parts.drop_last()).len() + parts.last().inner@.len(),
    decreases parts.len(),
{
    if parts.len() == 0 {
        0
    } else {
        let before = lemma_concatenated_len(parts.drop_last());
        before + parts.last().inner@.len()
    }
}

/// An entry is never normalized to a wallpaper without files, and no listed
/// path is skipped: where one result is handed in for each path that the
/// entry lists, the wallpaper holds one staged file for each listed path,
/// and at least one.
pub proof fn lemma_normalized_has_files(
    w: Wallpaper,
    wp: &InputWallpaper,
    authors: Seq<Author>,
    files: Seq<Result<WallpaperFile, ResolutionFailure>>,
)
    requires
        files.len() == wp.path.paths().len(),
        resolvable(files),
        normalized(w, wp, authors, files),
    ensures
        w.files@.len() >= 1,
        w.files@.len() == wp.path.paths().len(),
        wp.path.paths().len() >= 1,
{
}

/// Normalizing decides the wallpaper: two wallpapers that the same entry
/// normalizes to, with the same authors in scope and the same files found,
/// are equal by value in every field.
pub proof fn lemma_normalized_is_determined(
    a: Wallpaper,
    b: Wallpaper,
    wp: &InputWallpaper,
    authors: Seq<Author>,
    files: Seq<Result<WallpaperFile, ResolutionFailure>>,
)
    requires
        normalized(a, wp, authors, files),
        normalized(b, wp, authors, files),
    ensures
        a.id@ == b.id@,
        a.license@ == b.license@,
        pointees(a.authors@) == pointees(b.authors@),
        *a.title == *b.title,
        a.primary_color == b.primary_color,
        a.secondary_color == b.secondary_color,
        a.color_shading_type == b.color_shading_type,
        a.options == b.options,
        a.files@.len() == b.files@.len(),
        forall|i: int| 0 <= i < a.files@.len() ==> (#[trigger] a.files@[i])@ == b.files@[i]@,
{
}

/// An entry whose listed files hold none that was found cannot be
/// normalized: it fails, with the reason of its first file or for want of
/// any file.
pub proof fn lemma_nothing_found_fails(files: Seq<Result<WallpaperFile, ResolutionFailure>>)
    requires
        forall|i: int| 0 <= i < files.len() ==> (#[trigger] files[i]) is Err,
    ensures
        !resolvable(files),
        files.len() > 0 ==> first_failure_at(files, 0),
{
    if files.len() > 0 {
        assert(files[0] is Err);
    }
}

} // verus!
