use std::sync::Arc;
use wpmeta::error::Error;
use wpmeta::input::{
    default_primary_color, default_secondary_color, Author, ColorShadingType, Metadata,
    PictureOptions, Wallpaper, WallpaperPath,
};
use wpmeta::localized::Localized;
use wpmeta::walk::{DirectoryIter, MetadataWrapper};

fn author(email: &str) -> Author {
    Author { email: email.to_owned(), name: Localized::new(Some(email.to_owned())) }
}

fn wallpaper(id: &str) -> Wallpaper {
    Wallpaper {
        id: id.to_owned(),
        path: WallpaperPath::Single("a.jpg".to_owned()),
        title: Localized::new(Some(id.to_owned())),
        license: "MIT".to_owned(),
        option: PictureOptions::Wallpaper,
        shade_type: ColorShadingType::Solid,
        primary_color: default_primary_color(),
        secondary_color: default_secondary_color(),
    }
}

fn manifest(authors: &[&str], wallpapers: &[&str]) -> Metadata {
    Metadata {
        authors: authors.iter().map(|a| author(a)).collect(),
        wallpapers: wallpapers.iter().map(|w| wallpaper(w)).collect(),
    }
}

fn emails(context: &MetadataWrapper) -> Vec<String> {
    context.authors().iter().map(|a| a.email.clone()).collect()
}

#[test]
fn child_scope_is_parent_scope_then_own_authors() {
    let root = MetadataWrapper::new("/w", manifest(&["a", "b"], &[]), None).unwrap();
    let child =
        MetadataWrapper::new("/w/x", manifest(&["c"], &["one"]), Some(Arc::clone(&root))).unwrap();
    let grandchild =
        MetadataWrapper::new("/w/x/y", manifest(&["a"], &[]), Some(Arc::clone(&child))).unwrap();
    assert_eq!(emails(&root), vec!["a", "b"]);
    assert_eq!(emails(&child), vec!["a", "b", "c"]);
    assert_eq!(emails(&grandchild), vec!["a", "b", "c", "a"]);
    assert_eq!(child.path(), "/w/x");
    assert_eq!(child.wallpapers().len(), 1);
    assert_eq!(grandchild.wallpapers().len(), 0);
    assert!(grandchild.has_authors());
}

#[test]
fn wallpaper_without_author_in_scope_is_refused() {
    let e = MetadataWrapper::new("/w", manifest(&[], &["one"]), None).unwrap_err();
    assert_eq!(e, Error::InheritanceViolation { path: "/w".to_owned() });
    assert_eq!(e.message(), "/w: wallpaper defined, but no author definition found");
    let bare = MetadataWrapper::new("/w", manifest(&[], &[]), None).unwrap();
    assert!(!bare.has_authors());
    let e = MetadataWrapper::new("/w/x", manifest(&[], &["one"]), Some(bare)).unwrap_err();
    assert_eq!(e, Error::InheritanceViolation { path: "/w/x".to_owned() });
}

#[test]
fn wallpaper_with_inherited_author_is_accepted() {
    let root = MetadataWrapper::new("/w", manifest(&["a"], &[]), None).unwrap();
    let child = MetadataWrapper::new("/w/x", manifest(&[], &["one"]), Some(root)).unwrap();
    assert_eq!(emails(&child), vec!["a"]);
}

#[test]
fn walk_refuses_a_start_that_is_no_directory() {
    let e = DirectoryIter::start("/nowhere", false).unwrap_err();
    assert_eq!(e, Error::StructuralError { path: "/nowhere".to_owned() });
    assert_eq!(e.message(), "Starting path /nowhere is not a directory");
}

#[test]
fn walk_visits_last_known_first_and_hands_contexts_down() {
    let mut walk = DirectoryIter::start("/w", true).unwrap();
    let root = walk.next_directory().unwrap();
    assert_eq!(root.path, "/w");
    assert!(root.parent.is_none());
    let found = walk
        .visit(root, vec!["/w/a".to_owned(), "/w/b".to_owned()], Some(manifest(&["r"], &[])))
        .unwrap()
        .unwrap();
    assert_eq!(emails(&found), vec!["r"]);

    let b = walk.next_directory().unwrap();
    assert_eq!(b.path, "/w/b");
    assert_eq!(emails(b.parent.as_ref().unwrap()), vec!["r"]);
    // No manifest in /w/b: its children inherit what it inherits.
    assert!(walk.visit(b, vec!["/w/b/c".to_owned()], None).unwrap().is_none());

    let c = walk.next_directory().unwrap();
    assert_eq!(c.path, "/w/b/c");
    let found = walk.visit(c, vec![], Some(manifest(&[], &["one"]))).unwrap().unwrap();
    assert_eq!(emails(&found), vec!["r"]);
    assert_eq!(found.path(), "/w/b/c");

    let a = walk.next_directory().unwrap();
    assert_eq!(a.path, "/w/a");
    assert!(walk.visit(a, vec![], None).unwrap().is_none());
    assert!(walk.next_directory().is_none());
}

#[test]
fn walk_fails_on_a_manifest_without_author() {
    let mut walk = DirectoryIter::start("/w", true).unwrap();
    let root = walk.next_directory().unwrap();
    let e = walk.visit(root, vec!["/w/a".to_owned()], Some(manifest(&[], &["one"]))).unwrap_err();
    assert_eq!(e, Error::InheritanceViolation { path: "/w".to_owned() });
    assert!(walk.next_directory().is_none());
}
