use wpmeta::text::{
    decimal_string, ends_with_ignore_ascii_case, hyphens_to_underscores, join_path,
    reversed, stem_of_file_name, str_eq, str_lt,
};

#[test]
fn decimal_of_zero_and_more() {
    assert_eq!(decimal_string(0), "0");
    assert_eq!(decimal_string(7), "7");
    assert_eq!(decimal_string(7680), "7680");
    assert_eq!(decimal_string(u64::MAX), "18446744073709551615");
}

#[test]
fn suffix_test_folds_ascii_case() {
    assert!(ends_with_ignore_ascii_case("a-DaRk", "dark"));
    assert!(ends_with_ignore_ascii_case("dark", "dark"));
    assert!(!ends_with_ignore_ascii_case("ark", "dark"));
    assert!(!ends_with_ignore_ascii_case("darker", "dark"));
}

#[test]
fn strings_order_as_str_does() {
    assert!(str_lt("a", "b"));
    assert!(str_lt("a", "ab"));
    assert!(!str_lt("ab", "a"));
    assert!(!str_lt("a", "a"));
    assert_eq!(str_lt("zh", "zh_CN"), "zh" < "zh_CN");
    assert_eq!(str_lt("é", "z"), "é" < "z");
}

#[test]
fn paths_join_with_one_slash() {
    assert_eq!(join_path("usr/share", "wallpapers"), "usr/share/wallpapers");
}

#[test]
fn stem_is_the_name_without_its_extension() {
    let names = [
        "a.tar.gz", "abc", ".bashrc", ".a.b", "a", "", "..", ".", "a.", "...", "a..b", "日本.dark.jpg",
    ];
    for name in names {
        let expected = std::path::Path::new(name)
            .file_stem()
            .map(|p| p.to_string_lossy().into_owned())
            .unwrap_or(name.to_owned());
        assert_eq!(stem_of_file_name(name), expected, "{name}");
    }
    assert_eq!(stem_of_file_name("a.tar.gz"), "a.tar");
    assert_eq!(stem_of_file_name("a.dark.jpg"), "a.dark");
    assert_eq!(stem_of_file_name(".a.b"), ".a");
    assert_eq!(stem_of_file_name(".bashrc"), ".bashrc");
}

#[test]
fn hyphens_become_underscores() {
    assert_eq!(hyphens_to_underscores("zh-Hans-CN"), "zh_Hans_CN");
    assert_eq!(hyphens_to_underscores(""), "");
}

#[test]
fn strings_compare_by_their_characters() {
    assert!(str_eq("", ""));
    assert!(str_eq("草", "草"));
    assert!(!str_eq("a", "b"));
    assert!(!str_eq("a", "ab"));
}

#[test]
fn vectors_reverse() {
    assert_eq!(reversed(vec![1, 2, 3]), vec![3, 2, 1]);
    assert_eq!(reversed(Vec::<u8>::new()), Vec::<u8>::new());
}
