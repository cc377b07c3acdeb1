use wpmeta::format::ImageFormat;
use wpmeta::generate::gnome::{GNOMEVariant, GNOMEWallpaperMeta, Name};
use wpmeta::generate::{
    GNOMEMetadataGenerator, MetadataGenerator, Resolution, Wallpaper, WallpaperFile, WallpaperKind,
};
use wpmeta::input::{Color, ColorShadingType, PictureOptions};
use wpmeta::locale::Locale;
use wpmeta::localized::Localized;

fn localized_default_en_us(default: &str, en_us: &str) -> Localized<String> {
    let mut localized = Localized::new(Some(default.to_owned()));
    localized.insert(Locale::new("en-US"), en_us.to_owned());
    localized
}

fn wallpaper_file(path: &str, kind: WallpaperKind, width: usize, height: usize) -> WallpaperFile {
    WallpaperFile {
        file_path: path.to_owned(),
        resolution: Resolution { width, height },
        format: ImageFormat::from_extension("jpg").unwrap(),
        kind,
    }
}

fn kusa<'a>(title: &'a Localized<String>, files: Vec<WallpaperFile>) -> Wallpaper<'a> {
    Wallpaper {
        id: "Kusa",
        license: "CC BY-SA 4.0".to_owned(),
        authors: vec![],
        title,
        files,
        primary_color: Color { r: 2, g: 60, b: 136 },
        secondary_color: Color { r: 87, g: 137, b: 202 },
        color_shading_type: ColorShadingType::Solid,
        options: PictureOptions::Wallpaper,
    }
}

fn names(meta: &GNOMEWallpaperMeta) -> Vec<(String, String)> {
    meta.names.iter().map(|n| (n.locale.clone(), n.name.clone())).collect()
}

#[test]
fn test_manifest_includes_normal_and_dark_filenames() {
    let title: Localized<String> = localized_default_en_us("Kusa", "Grass");
    let normal_path = "usr/share/wallpapers/Kusa/contents/images/7680x4320.jpg";
    let dark_path = "usr/share/wallpapers/Kusa/contents/images_dark/7680x4320-dark.jpg";
    let wallpaper = kusa(
        &title,
        vec![
            wallpaper_file(normal_path, WallpaperKind::Normal, 7680, 4320),
            wallpaper_file(dark_path, WallpaperKind::Dark, 7680, 4320),
        ],
    );

    let documents = GNOMEMetadataGenerator::generate_metadata(
        &wallpaper,
        Resolution { width: 500, height: 500 },
    )
    .unwrap();

    assert_eq!(documents.manifest_path, "usr/share/gnome-background-properties/Kusa.xml");
    assert!(matches!(documents.normal, GNOMEVariant::Single(ref p) if p == normal_path));
    assert!(matches!(documents.dark, GNOMEVariant::Single(ref p) if p == dark_path));
    let manifest = &documents.manifest;
    assert_eq!(manifest.default_name, Some(&"Kusa".to_owned()));
    assert_eq!(names(manifest), vec![("en-US".to_owned(), "Grass".to_owned())]);
    assert_eq!(manifest.filename.as_deref(), Some(normal_path));
    assert_eq!(manifest.filename_dark.as_deref(), Some(dark_path));
    assert_eq!(manifest.options, PictureOptions::Wallpaper);
    assert_eq!(manifest.shade_type, ColorShadingType::Solid);
    assert_eq!(manifest.pcolor, Color { r: 2, g: 60, b: 136 });
    assert_eq!(manifest.scolor, Color { r: 87, g: 137, b: 202 });
}

#[test]
fn test_generates_wallpaper_list_for_multiple_normals() {
    let title: Localized<String> = localized_default_en_us("Kusa", "Grass");
    let wp1 = "usr/share/wallpapers/Kusa/contents/images/1920x1080.jpg";
    let wp2 = "usr/share/wallpapers/Kusa/contents/images/3840x2160.jpg";
    let wallpaper = kusa(
        &title,
        vec![
            wallpaper_file(wp1, WallpaperKind::Normal, 1920, 1080),
            wallpaper_file(wp2, WallpaperKind::Normal, 3840, 2160),
        ],
    );

    let documents = GNOMEMetadataGenerator::generate_metadata(
        &wallpaper,
        Resolution { width: 500, height: 500 },
    )
    .unwrap();

    let list_path = "usr/share/wallpapers/Kusa/contents/images/gnome-list.xml";
    match &documents.normal {
        GNOMEVariant::Listed { path, list } => {
            assert_eq!(path, list_path);
            let entries: Vec<(usize, usize, &str)> =
                list.files.iter().map(|f| (f.width, f.height, f.path)).collect();
            assert_eq!(entries, vec![(1920, 1080, wp1), (3840, 2160, wp2)]);
        }
        other => panic!("no list for the normal images: {other:?}"),
    }
    assert!(matches!(documents.dark, GNOMEVariant::Absent));
    assert_eq!(documents.manifest_path, "usr/share/gnome-background-properties/Kusa.xml");
    let manifest = &documents.manifest;
    assert_eq!(manifest.default_name, Some(&"Kusa".to_owned()));
    assert_eq!(names(manifest), vec![("en-US".to_owned(), "Grass".to_owned())]);
    assert_eq!(manifest.filename.as_deref(), Some(list_path));
    assert_eq!(manifest.filename_dark, None);
}

#[test]
fn wallpaper_without_files_gets_a_manifest_without_images() {
    let title: Localized<String> = Localized::new(None);
    let wallpaper = kusa(&title, vec![]);
    let documents = GNOMEMetadataGenerator::generate_metadata(
        &wallpaper,
        Resolution { width: 500, height: 500 },
    )
    .unwrap();
    assert!(matches!(documents.normal, GNOMEVariant::Absent));
    assert!(matches!(documents.dark, GNOMEVariant::Absent));
    assert_eq!(documents.manifest.default_name, None);
    assert!(documents.manifest.names.is_empty());
    assert_eq!(documents.manifest.filename, None);
}

#[test]
fn names_are_listed_in_ascending_order_of_the_locale_names() {
    let mut title = Localized::new(None);
    title.insert(Locale::new("zh-TW"), "c".to_owned());
    title.insert(Locale::new("en"), "a".to_owned());
    title.insert(Locale::new("zh-CN"), "b".to_owned());
    let flat = Name::flatten(&title, |l| l.get_locale("-")).unwrap();
    let listed: Vec<(&str, &str)> =
        flat.iter().map(|n| (n.locale.as_str(), n.name.as_str())).collect();
    assert_eq!(listed, vec![("en", "a"), ("zh-CN", "b"), ("zh-TW", "c")]);
}

#[test]
fn generator_names_the_wallpaper_base() {
    assert_eq!(GNOMEMetadataGenerator::get_wallpaper_base("Kusa"), "usr/share/wallpapers/Kusa");
}
