//! Input metadata structures.
//!
//! These are the values that one manifest declares for its directory: the
//! authors and the wallpaper entries, as the caller read them.

use vstd::prelude::*;
use crate::localized::Localized;

verus! {

/// A wallpaper author.
///
/// Authors can be defined at a directory level and inherited by subdirectories.
#[derive(Clone, Debug, PartialEq, Eq)]
pub struct Author {
    /// Contact email address.
    pub email: String,
    /// Display name (optionally localized).
    pub name: Localized<String>,
}

/// How the wallpaper should be rendered by the desktop environment.
#[derive(Copy, Clone, Debug, PartialEq, Eq, Structural)]
pub enum PictureOptions {
    /// Do not set an option.
    Unset,
    /// Default wallpaper mode.
    Wallpaper,
    /// Center the image.
    Centered,
    /// Scale the image.
    Scaled,
    /// Stretch the image.
    Stretched,
    /// Zoom to fill.
    Zoom,
    /// Span across displays.
    Spanned,
}

/// How primary/secondary colors are applied when used as a background fill.
#[derive(Copy, Clone, Debug, PartialEq, Eq, Structural)]
pub enum ColorShadingType {
    /// Horizontal gradient.
    Horizontal,
    /// Vertical gradient.
    Vertical,
    /// Single solid color.
    Solid,
}

/// An opaque colour by its red, green and blue parts.
#[derive(Copy, Clone, Debug, PartialEq, Eq, Structural)]
pub struct Color {
    /// Red.
    pub r: u8,
    /// Green.
    pub g: u8,
    /// Blue.
    pub b: u8,
}

/// A wallpaper file path specification.
///
/// Supports either a single relative file path or a list of relative file paths.
#[derive(Clone, Debug, PartialEq, Eq)]
pub enum WallpaperPath {
    /// One wallpaper file.
    Single(String),
    /// Multiple wallpaper files (e.g. multiple resolutions, normal+dark variants).
    Multiple(Vec<String>),
}

/// A wallpaper entry as a manifest declares it.
#[derive(Clone, Debug, PartialEq, Eq)]
pub struct Wallpaper {
    /// Stable identifier used for installation paths and generated manifests.
    pub id: String,
    /// Path(s) to wallpaper image files, relative to the manifest's directory.
    pub path: WallpaperPath,
    /// Wallpaper title (optionally localized).
    pub title: Localized<String>,
    /// SPDX license identifier or a free-form license string.
    pub license: String,
    /// Rendering option (desktop-environment specific).
    pub option: PictureOptions,
    /// Background color shading type.
    pub shade_type: ColorShadingType,
    /// Primary background color.
    pub primary_color: Color,
    /// Secondary background color.
    pub secondary_color: Color,
}

/// The top-level metadata document of one directory.
#[derive(Clone, Debug, PartialEq, Eq)]
pub struct Metadata {
    /// Author definitions available to wallpapers in the same directory.
    pub authors: Vec<Author>,
    /// Wallpaper entries defined in this directory.
    pub wallpapers: Vec<Wallpaper>,
}

impl Default for PictureOptions {
    fn default() -> (r: Self)
        ensures
            r == PictureOptions::Wallpaper,
    {
        PictureOptions::Wallpaper
    }
}

impl Default for ColorShadingType {
    fn default() -> (r: Self)
        ensures
            r == ColorShadingType::Solid,
    {
        ColorShadingType::Solid
    }
}

/// The primary colour of a wallpaper that declares none.
pub fn default_primary_color() -> (c: Color)
    ensures
        c == (Color { r: 2, g: 60, b: 136 }),
{
    Color { r: 2, g: 60, b: 136 }
}

/// The secondary colour of a wallpaper that declares none.
pub fn default_secondary_color() -> (c: Color)
    ensures
        c == (Color { r: 87, g: 137, b: 202 }),
{
    Color { r: 87, g: 137, b: 202 }
}

impl Color {
    /// The colour of a pixel given as `0xAARRGGBB`; the alpha part is dropped.
    pub fn from_argb(argb: u32) -> (c: Color)
        ensures
            c.r == (argb >> 16) & 0xFF,
            c.g == (argb >> 8) & 0xFF,
            c.b == argb & 0xFF,
    {
        assert((argb >> 16) & 0xFF <= 0xFF) by (bit_vector);
        assert((argb >> 8) & 0xFF <= 0xFF) by (bit_vector);
        assert(argb & 0xFF <= 0xFF) by (bit_vector);
        Color {
            r: ((argb >> 16) & 0xFF) as u8,
            g: ((argb >> 8) & 0xFF) as u8,
            b: (argb & 0xFF) as u8,
        }
    }

    /// The opaque pixel of this colour as `0xAARRGGBB`.
    pub fn to_argb(&self) -> (argb: u32)
        ensures
            argb == 0xFF00_0000u32 | ((self.r as u32) << 16) | ((self.g as u32) << 8) | (
            self.b as u32),
    {
        0xFF00_0000u32 | ((self.r as u32) << 16) | ((self.g as u32) << 8) | (self.b as u32)
    }
}

impl Author {
    /// Author email address.
    pub fn email(&self) -> (r: &str)
        ensures
            r@ == self.email@,
    {
        self.email.as_str()
    }

    /// Author name.
    pub fn name(&self) -> (r: &Localized<String>)
        ensures
            *r == self.name,
    {
        &self.name
    }
}

impl WallpaperPath {
    /// The paths that the specification lists, in its order.
    pub open spec fn paths(&self) -> Seq<String> {
        match self {
            WallpaperPath::Single(path) => seq![*path],
            WallpaperPath::Multiple(paths) => paths@,
        }
    }

    /// Returns the list of wallpaper paths.
    ///
    /// For a single path this returns a 1-element `Vec`.
    pub fn get_paths(&self) -> (r: Vec<&str>)
        ensures
            r@.len() == self.paths().len(),
            forall|i: int| 0 <= i < r@.len() ==> (#[trigger] r@[i])@ == self.paths()[i]@,
    {
        match self {
            WallpaperPath::Single(path) => {
                let mut r: Vec<&str> = Vec::new();
                r.push(path.as_str());
                r
            },
            WallpaperPath::Multiple(paths) => {
                let mut r: Vec<&str> = Vec::new();
                let n = paths.len();
                let mut i: usize = 0;
                while i < n
                    invariant
                        n == paths@.len(),
                        i <= n,
                        r@.len() == i,
                        forall|j: int| 0 <= j < i ==> (#[trigger] r@[j])@ == paths@[j]@,
                    decreases n - i,
                {
                    r.push(paths[i].as_str());
                    i += 1;
                }
                r
            },
        }
    }
}

} // verus!
