//! Image container formats, as far as staging needs them: each is known by the
//! file extension that staged copies carry.

use vstd::prelude::*;

verus! {

/// What `image::ImageFormat::from_extension` followed by
/// `image::ImageFormat::extensions_str` yields for a file extension: the
/// extensions that the `image` crate lists for the format that `extension`
/// denotes, in its order, or `None` where it knows no format by that
/// extension.
pub uninterp spec fn listed_extensions(extension: Seq<char>) -> Option<Seq<Seq<char>>>;

/// The views of a list of string slices.
pub open spec fn slice_views(list: Seq<&'static str>) -> Seq<Seq<char>> {
    list.map_values(|s: &'static str| s@)
}

/// The extension under which files of the format that `extension` denotes
/// are staged: the first that the `image` crate lists for the format. There
/// is none where the crate knows no such format or lists nothing for it.
pub open spec fn canonical_extension(extension: Seq<char>) -> Option<Seq<char>> {
    match listed_extensions(extension) {
        Some(list) => if list.len() > 0 {
            Some(list[0])
        } else {
            None
        },
        None => None,
    }
}

/// Calls `image::ImageFormat::from_extension` and, on the format found,
/// `image::ImageFormat::extensions_str`. The contract names the outcome
/// `listed_extensions`; nothing more is claimed of it, not even that the
/// list holds an entry.
#[verifier::external_body]
fn extensions_for(extension: &str) -> (r: Option<&'static [&'static str]>)
    ensures
        r matches Some(list) ==> listed_extensions(extension@) == Some(slice_views(list@)),
        r is None ==> listed_extensions(extension@) is None,
{
    match image::ImageFormat::from_extension(extension) {
        Some(format) => Some(format.extensions_str()),
        None => None,
    }
}

/// The container format of a decoded image.
///
/// A value is obtained from a file extension by [`ImageFormat::from_extension`]
/// and holds the extension under which files of that format are staged.
#[derive(Clone, Debug, PartialEq, Eq)]
pub struct ImageFormat {
    extension: String,
}

impl View for ImageFormat {
    type V = Seq<char>;

    /// The extension under which files of this format are staged.
    closed spec fn view(&self) -> Seq<char> {
        self.extension@
    }
}

impl ImageFormat {
    /// The format that a file extension denotes, if the `image` crate knows
    /// one and lists an extension for it. The extension is matched as that
    /// crate matches it.
    pub fn from_extension(extension: &str) -> (r: Option<ImageFormat>)
        ensures
            r matches Some(f) ==> canonical_extension(extension@) == Some(f@),
            r is None ==> canonical_extension(extension@) is None,
    {
        match extensions_for(extension) {
            Some(list) => {
                if list.len() > 0 {
                    Some(ImageFormat { extension: list[0].to_owned() })
                } else {
                    None
                }
            },
            None => None,
        }
    }

    /// The extension of staged files of this format, without the dot.
    pub fn extension(&self) -> (e: &str)
        ensures
            e@ == self@,
    {
        self.extension.as_str()
    }

    /// A copy of this format.
    pub fn duplicate(&self) -> (f: ImageFormat)
        ensures
            f@ == self@,
    {
        ImageFormat { extension: self.extension.clone() }
    }
}

} // verus!
