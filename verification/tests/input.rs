use wpmeta::input::{
    default_primary_color, default_secondary_color, Author, Color, ColorShadingType, Metadata,
    PictureOptions, Wallpaper, WallpaperPath,
};
use wpmeta::locale::Locale;
use wpmeta::localized::Localized;

fn author() -> Author {
    let mut name = Localized::new(Some("Yajuu Senpai".to_owned()));
    name.insert(Locale::new("zh-CN"), "野兽先辈".to_owned());
    Author { email: "yajuu.senpai@example.com".to_owned(), name }
}

fn wallpaper(path: WallpaperPath) -> Wallpaper {
    let mut title = Localized::new(Some("Kusa".to_owned()));
    title.insert(Locale::new("en-US"), "Grass".to_owned());
    Wallpaper {
        id: "Kusa".to_owned(),
        path,
        title,
        license: "CC BY-SA 4.0".to_owned(),
        option: PictureOptions::default(),
        shade_type: ColorShadingType::default(),
        primary_color: default_primary_color(),
        secondary_color: default_secondary_color(),
    }
}

#[test]
fn test_de_single_file() {
    let dummy_meta = Metadata {
        authors: vec![author()],
        wallpapers: vec![wallpaper(WallpaperPath::Single("test/example.jpg".to_owned()))],
    };
    assert_eq!(dummy_meta.authors.len(), 1);
    assert_eq!(dummy_meta.wallpapers.len(), 1);
    assert_eq!(dummy_meta.wallpapers[0].path.get_paths().len(), 1);
}

#[test]
fn test_de_multiple_file() {
    let dummy_meta = Metadata {
        authors: vec![author()],
        wallpapers: vec![wallpaper(WallpaperPath::Multiple(vec![
            "test/example.jpg".to_owned(),
            "test/example-dark.jpg".to_owned(),
        ]))],
    };
    assert_eq!(dummy_meta.authors.len(), 1);
    assert_eq!(dummy_meta.wallpapers.len(), 1);
    assert_eq!(dummy_meta.wallpapers[0].path.get_paths().len(), 2);
}

#[test]
fn paths_come_in_the_listed_order() {
    let single = WallpaperPath::Single("a.jpg".to_owned());
    assert_eq!(single.get_paths(), vec!["a.jpg"]);
    let many = WallpaperPath::Multiple(vec!["a.jpg".to_owned(), "a-dark.jpg".to_owned()]);
    assert_eq!(many.get_paths(), vec!["a.jpg", "a-dark.jpg"]);
    let none = WallpaperPath::Multiple(vec![]);
    assert!(none.get_paths().is_empty());
}

#[test]
fn defaults_are_wallpaper_solid_and_the_two_blues() {
    assert_eq!(PictureOptions::default(), PictureOptions::Wallpaper);
    assert_eq!(ColorShadingType::default(), ColorShadingType::Solid);
    assert_eq!(default_primary_color(), Color { r: 2, g: 60, b: 136 });
    assert_eq!(default_secondary_color(), Color { r: 87, g: 137, b: 202 });
}

#[test]
fn author_accessors() {
    let a = author();
    assert_eq!(a.email(), "yajuu.senpai@example.com");
    assert_eq!(a.name().index("zh_CN"), "野兽先辈");
    assert_eq!(a.name().index("en"), "Yajuu Senpai");
}

#[test]
fn colour_goes_through_a_pixel_value() {
    let c = Color { r: 2, g: 60, b: 136 };
    assert_eq!(c.to_argb(), 0xFF02_3C88);
    assert_eq!(Color::from_argb(0xFF02_3C88), c);
    assert_eq!(Color::from_argb(0x0000_0001), Color { r: 0, g: 0, b: 1 });
    assert_eq!(Color::from_argb(Color { r: 255, g: 0, b: 255 }.to_argb()), Color { r: 255, g: 0, b: 255 });
}
