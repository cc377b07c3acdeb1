use wpmeta::error::{Error, ResolutionFailure};
use wpmeta::format::ImageFormat;
use wpmeta::generate::{
    ensure_parent, get_wallpaper_base, parent_or_invalid, staged_name, Probe, Resolution,
    Wallpaper, WallpaperCollection, WallpaperFile, WallpaperKind,
};
use wpmeta::input::{
    default_primary_color, default_secondary_color, Author, ColorShadingType, Metadata,
    PictureOptions, Wallpaper as InputWallpaper, WallpaperPath,
};
use wpmeta::license::{license_from, license_needs_warning, resolve_license};
use wpmeta::localized::Localized;
use wpmeta::walk::MetadataWrapper;

fn jpeg() -> ImageFormat {
    ImageFormat::from_extension("jpg").unwrap()
}

fn image(file_name: &str, width: u32, height: u32) -> Probe {
    Probe::Image { file_name: file_name.to_owned(), width, height, format: jpeg() }
}

fn entry(id: &str, paths: &[&str]) -> InputWallpaper {
    InputWallpaper {
        id: id.to_owned(),
        path: WallpaperPath::Multiple(paths.iter().map(|p| (*p).to_owned()).collect()),
        title: Localized::new(Some(id.to_owned())),
        license: "MIT".to_owned(),
        option: PictureOptions::Zoom,
        shade_type: ColorShadingType::Vertical,
        primary_color: default_primary_color(),
        secondary_color: default_secondary_color(),
    }
}

fn author() -> Author {
    Author { email: "a@example.com".to_owned(), name: Localized::new(Some("A".to_owned())) }
}

fn file(path: &str, kind: WallpaperKind, width: usize, height: usize) -> WallpaperFile {
    WallpaperFile {
        file_path: path.to_owned(),
        resolution: Resolution { width, height },
        format: jpeg(),
        kind,
    }
}

#[test]
fn stems_ending_in_dark_are_dark_in_any_case() {
    for stem in ["dark", "a-dark", "a-DARK", "aDaRk", "7680x4320-dark", "日本dark"] {
        assert_eq!(WallpaperKind::from_stem(stem), WallpaperKind::Dark);
    }
    for stem in ["", "a", "ark", "darker", "dark-a", "dar k", "dаrk"] {
        assert_eq!(WallpaperKind::from_stem(stem), WallpaperKind::Normal);
    }
    assert_eq!(
        WallpaperKind::from_stem("A-DARK"),
        WallpaperKind::from_stem(&"A-DARK".to_ascii_lowercase())
    );
}

#[test]
fn file_names_are_classified_by_their_stem() {
    for (name, kind) in [
        ("a-dark.jpg", WallpaperKind::Dark),
        ("a.dark.jpg", WallpaperKind::Dark),
        ("a.DaRk.jpeg", WallpaperKind::Dark),
        ("a-DARK.tar.gz", WallpaperKind::Normal),
        ("a-dark.tar", WallpaperKind::Dark),
        ("dark", WallpaperKind::Dark),
        (".dark", WallpaperKind::Dark),
        ("x.dark", WallpaperKind::Normal),
        ("dark.", WallpaperKind::Dark),
        ("a.jpg", WallpaperKind::Normal),
        ("dark.jpg.bak", WallpaperKind::Normal),
        ("", WallpaperKind::Normal),
    ] {
        assert_eq!(WallpaperKind::from_file_name(name), kind, "{name}");
    }
}

#[test]
fn kinds_name_their_directories() {
    assert_eq!(WallpaperKind::Normal.get_dir_name(), "images");
    assert_eq!(WallpaperKind::Dark.get_dir_name(), "images_dark");
}

#[test]
fn formats_are_known_by_their_preferred_extension() {
    assert_eq!(ImageFormat::from_extension("jpeg").unwrap().extension(), "jpg");
    assert_eq!(ImageFormat::from_extension("JPG").unwrap().extension(), "jpg");
    assert_eq!(ImageFormat::from_extension("tif").unwrap().extension(), "tiff");
    assert_eq!(ImageFormat::from_extension("png").unwrap().extension(), "png");
    assert!(ImageFormat::from_extension("txt").is_none());
    assert!(ImageFormat::from_extension("").is_none());
    assert_eq!(jpeg().duplicate(), jpeg());
}

#[test]
fn staging_path_is_exact() {
    let base = get_wallpaper_base("Kusa");
    assert_eq!(base, "usr/share/wallpapers/Kusa");
    let normal = file("/src/a.jpg", WallpaperKind::Normal, 7680, 4320).copy_file(&base);
    assert_eq!(normal.file_path, "usr/share/wallpapers/Kusa/contents/images/7680x4320.jpg");
    let dark = file("/src/a-dark.jpg", WallpaperKind::Dark, 7680, 4320).copy_file(&base);
    assert_eq!(dark.file_path, "usr/share/wallpapers/Kusa/contents/images_dark/7680x4320.jpg");
    assert_eq!(dark.resolution, Resolution { width: 7680, height: 4320 });
    assert_eq!(dark.kind, WallpaperKind::Dark);
    assert_eq!(dark.format, jpeg());
    assert_eq!(staged_name(Resolution { width: 0, height: 10 }, "png"), "0x10.png");
}

#[test]
fn probes_become_files_or_failures() {
    let found = WallpaperFile::from_file("/s/a-dark.jpg", image("a-dark.jpg", 1920, 1080)).unwrap();
    assert_eq!(found, file("/s/a-dark.jpg", WallpaperKind::Dark, 1920, 1080));
    let found = WallpaperFile::from_file("/s/a.dark.jpg", image("a.dark.jpg", 1, 2)).unwrap();
    assert_eq!(found, file("/s/a.dark.jpg", WallpaperKind::Dark, 1, 2));
    let found = WallpaperFile::from_file("/s/a-DARK.tar.gz", image("a-DARK.tar.gz", 1, 2)).unwrap();
    assert_eq!(found.kind, WallpaperKind::Normal);
    assert_eq!(
        WallpaperFile::from_file("/s/a.jpg", Probe::Missing),
        Err(ResolutionFailure::FileNotFound { path: "/s/a.jpg".to_owned() })
    );
    assert_eq!(
        WallpaperFile::from_file("/s/a.jpg", Probe::Undecodable),
        Err(ResolutionFailure::UnsupportedOrCorruptImage { path: "/s/a.jpg".to_owned() })
    );
}

#[test]
fn license_is_canonicalized_or_kept() {
    assert_eq!(
        resolve_license("apache with LLVM-exception/gpl-3.0+ and gplv2"),
        "Apache-2.0 WITH LLVM-exception OR GPL-3.0-or-later AND GPL-2.0-only"
    );
    assert!(!license_needs_warning("apache with LLVM-exception/gpl-3.0+ and gplv2"));
    assert_eq!(resolve_license("MIT"), "MIT");
    assert_eq!(resolve_license("no such license ?!"), "no such license ?!");
    assert!(license_needs_warning("no such license ?!"));
    assert_eq!(resolve_license(""), "");
}

#[test]
fn license_follows_the_outcome_of_canonicalizing() {
    assert_eq!(license_from("x", Ok(Some("MIT".to_owned()))), "MIT");
    assert_eq!(license_from("x", Ok(None)), "x");
    let failed = spdx::Expression::canonicalize("?");
    assert!(failed.is_err());
    assert_eq!(license_from("?", failed), "?");
}

#[test]
fn entry_without_files_fails() {
    let wp = entry("Kusa", &[]);
    let a = author();
    let e = Wallpaper::new(&wp, &[&a], vec![]).unwrap_err();
    assert_eq!(
        e,
        Error::WallpaperResolution {
            id: "Kusa".to_owned(),
            failure: ResolutionFailure::NoFilesSpecified
        }
    );
    assert_eq!(e.message(), "Kusa: Wallpaper defined but no files given");
}

#[test]
fn entry_fails_with_its_first_failed_file() {
    let wp = entry("Kusa", &["a.jpg", "b.jpg", "c.jpg"]);
    let a = author();
    let files = vec![
        WallpaperFile::from_file("a.jpg", image("a.jpg", 1, 1)),
        WallpaperFile::from_file("b.jpg", Probe::Undecodable),
        WallpaperFile::from_file("c.jpg", Probe::Missing),
    ];
    let e = Wallpaper::new(&wp, &[&a], files).unwrap_err();
    assert_eq!(
        e,
        Error::WallpaperResolution {
            id: "Kusa".to_owned(),
            failure: ResolutionFailure::UnsupportedOrCorruptImage { path: "b.jpg".to_owned() }
        }
    );
    assert_eq!(e.message(), "Kusa: cannot decode b.jpg");
    let wp = entry("Kusa", &["c.jpg"]);
    let files = vec![WallpaperFile::from_file("c.jpg", Probe::Missing)];
    let e = Wallpaper::new(&wp, &[&a], files).unwrap_err();
    assert_eq!(e.message(), "Kusa: cannot open c.jpg");
}

#[test]
fn normalizing_twice_gives_equal_wallpapers() {
    let wp = entry("Kusa", &["a.jpg", "a-dark.jpg"]);
    let a = author();
    let files = || {
        vec![
            WallpaperFile::from_file("a.jpg", image("a.jpg", 1920, 1080)),
            WallpaperFile::from_file("a-dark.jpg", image("a-dark.jpg", 1920, 1080)),
        ]
    };
    let first = Wallpaper::new(&wp, &[&a], files()).unwrap();
    let second = Wallpaper::new(&wp, &[&a], files()).unwrap();
    assert_eq!(first, second);
    assert_eq!(first.files.len(), wp.path.get_paths().len());
}

#[test]
fn one_manifest_one_author_two_files() {
    let metadata = Metadata {
        authors: vec![author()],
        wallpapers: vec![entry("Kusa", &["a.jpg", "a-dark.jpg"])],
    };
    let context = MetadataWrapper::new("/root", metadata, None).unwrap();
    let paths = context.wallpapers()[0].path.get_paths();
    assert_eq!(paths, vec!["a.jpg", "a-dark.jpg"]);
    let files = vec![vec![
        WallpaperFile::from_file(paths[0], image("a.jpg", 1920, 1080)),
        WallpaperFile::from_file(paths[1], image("a-dark.jpg", 1920, 1080)),
    ]];
    let collection = WallpaperCollection::new(&context, files).unwrap();
    assert_eq!(collection.inner.len(), 1);
    let w = &collection.inner[0];
    assert_eq!(w.id, "Kusa");
    assert_eq!(w.license, "MIT");
    assert_eq!(w.authors, vec![&author()]);
    assert_eq!(w.options, PictureOptions::Zoom);
    assert_eq!(w.color_shading_type, ColorShadingType::Vertical);
    assert_eq!(w.files.len(), 2);
    assert_eq!(w.files[0].kind, WallpaperKind::Normal);
    assert_eq!(w.files[0].file_path, "usr/share/wallpapers/Kusa/contents/images/1920x1080.jpg");
    assert_eq!(w.files[1].kind, WallpaperKind::Dark);
    assert_eq!(
        w.files[1].file_path,
        "usr/share/wallpapers/Kusa/contents/images_dark/1920x1080.jpg"
    );
    assert!(w.has_normal_wallpaper());
    assert!(w.has_dark_wallpaper());
    assert_eq!(w.get_normal_wallpapers(), vec![&w.files[0]]);
    assert_eq!(w.get_dark_wallpapers(), vec![&w.files[1]]);
}

#[test]
fn collection_fails_with_its_first_failed_entry() {
    let metadata = Metadata {
        authors: vec![author()],
        wallpapers: vec![entry("One", &["a.jpg"]), entry("Two", &["b.jpg"]), entry("Three", &[])],
    };
    let context = MetadataWrapper::new("/root", metadata, None).unwrap();
    let files = vec![
        vec![WallpaperFile::from_file("a.jpg", image("a.jpg", 1, 1))],
        vec![WallpaperFile::from_file("b.jpg", Probe::Missing)],
        vec![],
    ];
    let e = WallpaperCollection::new(&context, files).unwrap_err();
    assert_eq!(
        e,
        Error::WallpaperResolution {
            id: "Two".to_owned(),
            failure: ResolutionFailure::FileNotFound { path: "b.jpg".to_owned() }
        }
    );
    let files = vec![
        vec![WallpaperFile::from_file("a.jpg", image("a.jpg", 1, 1))],
        vec![WallpaperFile::from_file("b.jpg", image("b.jpg", 1, 1))],
        vec![],
    ];
    let e = WallpaperCollection::new(&context, files).unwrap_err();
    assert_eq!(e.message(), "Three: Wallpaper defined but no files given");
}

#[test]
fn collections_are_gathered_in_discovery_order() {
    let first = Metadata {
        authors: vec![author()],
        wallpapers: vec![entry("One", &["a.jpg"]), entry("Two", &["b.jpg"])],
    };
    let second = Metadata { authors: vec![author()], wallpapers: vec![] };
    let third = Metadata { authors: vec![author()], wallpapers: vec![entry("Three", &["c.jpg"])] };
    let contexts = vec![
        MetadataWrapper::new("/1", first, None).unwrap(),
        MetadataWrapper::new("/2", second, None).unwrap(),
        MetadataWrapper::new("/3", third, None).unwrap(),
    ];
    let mut parts = Vec::new();
    for context in contexts.iter() {
        let files = context
            .wallpapers()
            .iter()
            .map(|_| vec![WallpaperFile::from_file("x.jpg", image("x.jpg", 2, 2))])
            .collect();
        parts.push(WallpaperCollection::new(context, files).unwrap());
    }
    let all = WallpaperCollection::assemble(parts);
    let ids: Vec<&str> = all.inner.iter().map(|w| w.id).collect();
    assert_eq!(ids, vec!["One", "Two", "Three"]);
    assert!(WallpaperCollection::assemble(vec![]).inner.is_empty());
}

fn with_files(wp: &InputWallpaper, files: Vec<WallpaperFile>) -> Wallpaper<'_> {
    Wallpaper {
        id: &wp.id,
        license: wp.license.clone(),
        authors: vec![],
        title: &wp.title,
        files,
        primary_color: wp.primary_color,
        secondary_color: wp.secondary_color,
        color_shading_type: wp.shade_type,
        options: wp.option,
    }
}

#[test]
fn preview_takes_the_largest_normal_file_the_last_of_equals() {
    let wp = entry("Kusa", &[]);
    let w = with_files(
        &wp,
        vec![
            file("dark-huge", WallpaperKind::Dark, 9000, 9000),
            file("n1", WallpaperKind::Normal, 1920, 1080),
            file("n2", WallpaperKind::Normal, 3840, 2160),
            file("n3", WallpaperKind::Normal, 2160, 3840),
            file("n4", WallpaperKind::Normal, 10, 10),
        ],
    );
    let job = w.generate_preview("out.jpg", Resolution { width: 500, height: 400 }).unwrap();
    assert_eq!(job.source, "n3");
    assert_eq!(job.output, "out.jpg");
    assert_eq!((job.width, job.height), (500, 400));
    let w = with_files(
        &wp,
        vec![
            file("d1", WallpaperKind::Dark, 10, 10),
            file("d2", WallpaperKind::Dark, 5, 5),
        ],
    );
    let job = w.generate_preview("out.jpg", Resolution { width: 500, height: 500 }).unwrap();
    assert_eq!(job.source, "d1");
    let w = with_files(&wp, vec![]);
    assert_eq!(
        w.generate_preview("out.jpg", Resolution { width: 500, height: 500 }),
        Err(Error::WallpaperResolution {
            id: "Kusa".to_owned(),
            failure: ResolutionFailure::NoFilesSpecified
        })
    );
}

#[test]
fn preview_area_does_not_overflow() {
    let wp = entry("Kusa", &[]);
    let w = with_files(
        &wp,
        vec![
            file("big", WallpaperKind::Normal, usize::MAX, usize::MAX),
            file("small", WallpaperKind::Normal, 2, 1),
        ],
    );
    let job = w.generate_preview("o", Resolution { width: 1, height: 1 }).unwrap();
    assert_eq!(job.source, "big");
}

#[test]
fn parent_directory_is_named_or_the_path_refused() {
    assert_eq!(ensure_parent("a/b/c.xml"), Ok("a/b".to_owned()));
    assert_eq!(ensure_parent("c.xml"), Ok("".to_owned()));
    for bare in ["c", ".", "..", "a b", ".hidden", "日本.jpg"] {
        assert_eq!(ensure_parent(bare), Ok("".to_owned()), "{bare}");
    }
    assert_eq!(ensure_parent(""), Err(Error::InvalidPath { path: "".to_owned() }));
    assert_eq!(ensure_parent("/"), Err(Error::InvalidPath { path: "/".to_owned() }));
    assert_eq!(ensure_parent("").unwrap_err().message(), "invalid path");
    assert_eq!(parent_or_invalid("x", Some("p".to_owned())), Ok("p".to_owned()));
    assert_eq!(parent_or_invalid("x", None), Err(Error::InvalidPath { path: "x".to_owned() }));
}

#[test]
fn staging_failure_names_the_path() {
    let e = Error::WallpaperResolution {
        id: "Kusa".to_owned(),
        failure: ResolutionFailure::StagingIoFailure { path: "usr/x.jpg".to_owned() },
    };
    assert_eq!(e.message(), "Kusa: cannot stage usr/x.jpg");
}

#[test]
fn shared_ids_are_found() {
    let one = entry("One", &[]);
    let two = entry("Two", &[]);
    let again = entry("One", &[]);
    let unique = WallpaperCollection {
        inner: vec![with_files(&one, vec![]), with_files(&two, vec![])],
    };
    assert_eq!(unique.first_duplicate(), None);
    let clash = WallpaperCollection {
        inner: vec![with_files(&one, vec![]), with_files(&two, vec![]), with_files(&again, vec![])],
    };
    assert_eq!(clash.first_duplicate(), Some(2));
    assert_eq!(WallpaperCollection { inner: vec![] }.first_duplicate(), None);
}
