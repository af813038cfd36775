use notoize::filenames::{cjk_region_dir, font_filename, font_path, split_words};
use notoize::client::NotoizeError;
use notoize::report::render_grouped;
use notoize::script::{all_variants, missing_variants, script, scripts, Script};
use notoize::strutil::{hex04_of, parse_u32, str_has_substring, str_le, to_lower};

fn owned(v: &[&str]) -> Vec<String> {
    v.iter().map(|s| s.to_string()).collect()
}

#[test]
fn classifier_maps_variants_to_scripts() {
    assert_eq!(script("Sans Devanagari"), Some(Script("Devanagari".to_string())));
    assert_eq!(script("Serif Devanagari"), Some(Script("Devanagari".to_string())));
    assert_eq!(script("Sans CJK SC"), Some(Script("CJK".to_string())));
    assert_eq!(script("Sans CJK JP"), Some(Script("CJK".to_string())));
    assert_eq!(script("Sans"), Some(Script("".to_string())));
    assert_eq!(script("Serif"), Some(Script("".to_string())));
    assert_eq!(script("Sans Tifinagh Ghat"), Some(Script("Tifinagh".to_string())));
    assert_eq!(script("Znamenny Musical Notation"), Some(Script("Znamenny Musical Notation".to_string())));
    assert_eq!(script("Sans Frobnicate"), None);
}

#[test]
fn all_variants_flattens_the_table() {
    let v = all_variants();
    assert_eq!(v.len(), 215);
    assert_eq!(v[0], "Sans");
    assert!(v.contains(&"Serif Yezidi".to_string()));
    for name in &v {
        assert!(script(name).is_some());
    }
}

#[test]
fn scripts_sorts_and_deduplicates() {
    let s = scripts(&owned(&["Sans Devanagari", "Serif Devanagari", "Sans"]));
    assert_eq!(
        s,
        vec![Script("".to_string()), Script("Devanagari".to_string())]
    );
}

#[test]
fn missing_variants_lists_absent_siblings() {
    assert_eq!(
        missing_variants(&owned(&["Serif Devanagari"])),
        owned(&["Sans Devanagari"])
    );
    assert_eq!(
        missing_variants(&owned(&["Sans Devanagari", "Serif Devanagari"])),
        Vec::<String>::new()
    );
    assert_eq!(
        missing_variants(&owned(&["Sans Adlam"])),
        owned(&["Sans Adlam Unjoined"])
    );
    assert_eq!(missing_variants(&owned(&[])), Vec::<String>::new());
    assert_eq!(missing_variants(&owned(&["Sans"])), Vec::<String>::new());
    assert_eq!(missing_variants(&owned(&["Serif"])), Vec::<String>::new());
}

#[test]
fn stringify_groups_by_script() {
    let s = render_grouped(&owned(&[
        "Serif Devanagari",
        "Sans",
        "Sans Devanagari",
        "Serif",
    ]));
    assert_eq!(s, "Sans, Serif\r\n    Serif Devanagari, Sans Devanagari");
}

#[test]
fn hex_rendering_pads_to_four_digits() {
    assert_eq!(hex04_of(0x0), "0000");
    assert_eq!(hex04_of(0x41), "0041");
    assert_eq!(hex04_of(0xABC), "0abc");
    assert_eq!(hex04_of(0x1234), "1234");
    assert_eq!(hex04_of(0x1F600), "1f600");
}

#[test]
fn decimal_keys_parse_exactly() {
    assert_eq!(parse_u32("0"), Some(0));
    assert_eq!(parse_u32("65"), Some(65));
    assert_eq!(parse_u32("4294967295"), Some(u32::MAX));
    assert_eq!(parse_u32("4294967296"), None);
    assert_eq!(parse_u32(""), None);
    assert_eq!(parse_u32("12a"), None);
    assert_eq!(parse_u32("-3"), None);
}

#[test]
fn string_helpers_behave() {
    assert!(str_has_substring("Sans Arabic UI", "UI"));
    assert!(!str_has_substring("Sans Arabic", "UI"));
    assert!(str_le("Sans", "Serif"));
    assert!(!str_le("Serif", "Sans"));
    assert_eq!(to_lower("Sans CJK JP"), "sans cjk jp");
    assert_eq!(
        split_words(" Noto  Sans CJK JP "),
        owned(&["Noto", "Sans", "CJK", "JP"])
    );
}

#[test]
fn filenames_follow_the_naming_scheme() {
    assert_eq!(font_filename("Noto Sans").unwrap(), "NotoSans-Regular.ttf");
    assert_eq!(
        font_filename("Noto Sans Canadian Aboriginal").unwrap(),
        "NotoSansCanadianAboriginal-Regular.ttf"
    );
    assert_eq!(
        font_filename("Noto Sans CJK JP").unwrap(),
        "NotoSansCJKjp-Regular.otf"
    );
    assert_eq!(font_filename("Noto Color Emoji").unwrap(), "NotoColorEmoji.ttf");
    assert_eq!(
        font_filename("Noto Sans OldHung").unwrap(),
        "NotoSansOldHungarian-Regular.ttf"
    );
    assert!(matches!(
        font_filename("Noto CJK"),
        Err(NotoizeError::MalformedFamilyName(_))
    ));
    assert_eq!(
        font_path("NotoSans-Regular.ttf"),
        "fonts/NotoSans/hinted/ttf/NotoSans-Regular.ttf"
    );
    assert_eq!(
        font_path("NotoColorEmoji.ttf"),
        "fonts/NotoColorEmoji.ttf/hinted/ttf/NotoColorEmoji.ttf"
    );
}

#[test]
fn cjk_regions_map_or_fail() {
    assert_eq!(cjk_region_dir("jp").unwrap(), "Japanese");
    assert_eq!(cjk_region_dir("kr").unwrap(), "Korean");
    assert_eq!(cjk_region_dir("sc").unwrap(), "SimplifiedChinese");
    assert_eq!(cjk_region_dir("tc").unwrap(), "TraditionalChinese");
    assert_eq!(cjk_region_dir("hk").unwrap(), "TraditionalChineseHK");
    assert!(matches!(
        cjk_region_dir("xx"),
        Err(NotoizeError::UnknownCjkVariety(_))
    ));
}
