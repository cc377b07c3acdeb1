//! The installed place and the size of a single image.

use vstd::prelude::*;
use crate::text::{decimal, decimal_string};

verus! {

/// Where one image of a wallpaper is installed, with its size.
#[derive(Debug, PartialEq, Eq)]
pub struct WallpaperFileMeta {
    target: String,
    dimensions: (u32, u32),
}

/// The installed path of an image of the wallpaper `id`:
/// `usr/share/wallpapers/<id>/contents/images/<width>x<height>.<extension>`.
pub open spec fn target_path(id: Seq<char>, width: u32, height: u32, extension: Seq<char>) -> Seq<
    char,
> {
    "usr/share/wallpapers/"@ + id + "/contents/images/"@ + decimal(width as nat) + "x"@ + decimal(
        height as nat,
    ) + "."@ + extension
}

impl WallpaperFileMeta {
    /// The installed path.
    pub closed spec fn target_spec(&self) -> Seq<char> {
        self.target@
    }

    /// Width and height in pixels.
    pub closed spec fn dimensions_spec(&self) -> (u32, u32) {
        self.dimensions
    }

    /// Describes an image of the wallpaper `id` from its decoded size and the
    /// extension of its file.
    pub fn new(id: &str, width: u32, height: u32, extension: &str) -> (r: Self)
        ensures
            r.target_spec() == target_path(id@, width, height, extension@),
            r.dimensions_spec() == (width, height),
    {
        let mut target = "usr/share/wallpapers/".to_owned();
        target.append(id);
        target.append("/contents/images/");
        let w = decimal_string(width as u64);
        target.append(w.as_str());
        target.append("x");
        let h = decimal_string(height as u64);
        target.append(h.as_str());
        target.append(".");
        target.append(extension);
        Self { target, dimensions: (width, height) }
    }

    /// The installed path.
    pub fn target(&self) -> (r: &str)
        ensures
            r@ == self.target_spec(),
    {
        self.target.as_str()
    }

    /// Width and height in pixels.
    pub fn dimensions(&self) -> (r: (u32, u32))
        ensures
            r == self.dimensions_spec(),
    {
        self.dimensions
    }
}

} // verus!
