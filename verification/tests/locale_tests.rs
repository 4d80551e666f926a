use starrocks_admin_backend::locale::{
    build_language_prompt_section, current_llm_language, extract_locale_from_header, get_locale,
    normalize_locale, set_locale, LocaleStore,
};

#[test]
fn test_normalize_locale() {
    assert_eq!(normalize_locale("zh"), "zh");
    assert_eq!(normalize_locale("zh-CN"), "zh");
    assert_eq!(normalize_locale("zh_CN"), "zh");
    assert_eq!(normalize_locale("en"), "en");
    assert_eq!(normalize_locale("en-US"), "en");
    assert_eq!(normalize_locale("en_US"), "en");
    assert_eq!(normalize_locale("fr"), "zh"); // Unsupported, fallback to default
    assert_eq!(normalize_locale(""), "zh");
}

#[test]
fn test_set_get_locale() {
    let mut store = LocaleStore::new();
    set_locale(&mut store, "en");
    assert_eq!(get_locale(&store), "en");

    set_locale(&mut store, "zh-CN");
    assert_eq!(get_locale(&store), "zh");
}

#[test]
fn locale_is_case_and_space_insensitive() {
    assert_eq!(normalize_locale("  EN-us "), "en");
    assert_eq!(normalize_locale("ZH"), "zh");
    assert_eq!(normalize_locale("en,zh;q=0.9"), "en");
    assert_eq!(normalize_locale("e"), "zh");
}

#[test]
fn store_starts_with_default_locale() {
    let store = LocaleStore::default();
    assert_eq!(get_locale(&store), "zh");
}

#[test]
fn header_without_value_gives_default() {
    assert_eq!(extract_locale_from_header(None), "zh");
    assert_eq!(extract_locale_from_header(Some("en-GB,en;q=0.8")), "en");
    assert_eq!(extract_locale_from_header(Some("de-DE")), "zh");
}

#[test]
fn get_after_set_is_normalized_value() {
    let mut store = LocaleStore::new();
    for input in ["en-US", "fr", "", "zh_TW", "EN"] {
        set_locale(&mut store, input);
        assert_eq!(get_locale(&store), normalize_locale(input));
    }
}

#[test]
fn prompt_language_follows_locale() {
    let mut store = LocaleStore::new();
    assert_eq!(current_llm_language(&store), "zh");
    assert!(build_language_prompt_section(&store).contains("语言要求"));
    set_locale(&mut store, "en-US");
    assert_eq!(current_llm_language(&store), "en");
    assert_eq!(
        build_language_prompt_section(&store),
        "\n\n## Language Requirement\nPlease respond **strictly in English**. Do not use Chinese in any part of the answer.\n"
    );
}
