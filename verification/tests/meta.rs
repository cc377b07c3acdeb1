use wpmeta::meta::WallpaperFileMeta;

#[test]
fn file_meta_names_the_installed_path() {
    let meta = WallpaperFileMeta::new("Kusa", 1920, 1080, "jpg");
    assert_eq!(meta.target(), "usr/share/wallpapers/Kusa/contents/images/1920x1080.jpg");
    assert_eq!(meta.dimensions(), (1920, 1080));
}
