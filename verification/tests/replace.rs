use hw_assistant::replace::replace_text;
use hw_assistant::settings::lyx_file_settings::LyxReplacementConfig;
use hw_assistant::subject::files::apply_replacements;

fn expect_same_as_std(text: &str, from: &str, to: &str) {
    assert_eq!(replace_text(text, from, to, None), text.replace(from, to));
    for count in 0..6 {
        assert_eq!(replace_text(text, from, to, Some(count)), text.replacen(from, to, count));
    }
}

#[test]
fn replaces_every_occurrence() {
    assert_eq!(replace_text("a-b-c", "-", "+", None), "a+b+c");
}

#[test]
fn replaces_at_most_count_occurrences() {
    assert_eq!(replace_text("a-b-c-d", "-", "+", Some(2)), "a+b+c-d");
    assert_eq!(replace_text("a-b-c-d", "-", "+", Some(1)), "a+b-c-d");
    assert_eq!(replace_text("a-b-c-d", "-", "+", Some(9)), "a+b+c+d");
}

#[test]
fn count_zero_leaves_the_text_unchanged() {
    assert_eq!(replace_text("Week {N}, Student: X", "X", "Y", Some(0)), "Week {N}, Student: X");
    assert_eq!(replace_text("", "", "Y", Some(0)), "");
}

#[test]
fn occurrences_do_not_overlap() {
    assert_eq!(replace_text("aaaa", "aa", "b", None), "bb");
    assert_eq!(replace_text("aaa", "aa", "b", None), "ba");
    assert_eq!(replace_text("ababab", "aba", "X", None), "Xbab");
}

#[test]
fn empty_needle_matches_between_characters() {
    assert_eq!(replace_text("abc", "", "-", None), "-a-b-c-");
    assert_eq!(replace_text("abc", "", "-", Some(2)), "-a-bc");
    assert_eq!(replace_text("", "", "-", None), "-");
}

#[test]
fn replacement_agrees_with_the_standard_library() {
    expect_same_as_std("", "", "");
    expect_same_as_std("", "", "x");
    expect_same_as_std("", "a", "x");
    expect_same_as_std("abc", "", "--");
    expect_same_as_std("abcabcabc", "abc", "");
    expect_same_as_std("abcabcabc", "bc", "XYZ");
    expect_same_as_std("aaaaa", "aa", "a");
    expect_same_as_std("hello", "hello world", "x");
    expect_same_as_std("שלום עולם שלום", "שלום", "ר");
    expect_same_as_std("שלום", "", "·");
    expect_same_as_std("mississippi", "ssi", "SSI");
    expect_same_as_std("mississippi", "i", "");
}

#[test]
fn template_with_replacements() {
    let replacements = vec![
        LyxReplacementConfig::new("{N}".to_string(), "{num}".to_string(), None),
        LyxReplacementConfig::new("X".to_string(), "{hebrew_name}".to_string(), Some(1)),
    ];
    let out = apply_replacements(&replacements, 7, "ר", "Week {N}, Student: X".to_string());
    assert_eq!(out.unwrap(), "Week 7, Student: ר");
}

#[test]
fn empty_replacement_list_leaves_the_template_unchanged() {
    let replacements: Vec<LyxReplacementConfig> = Vec::new();
    let out = apply_replacements(&replacements, 3, "x", "Any {text} at all }".to_string());
    assert_eq!(out.unwrap(), "Any {text} at all }");
}

#[test]
fn later_replacements_see_the_output_of_earlier_ones() {
    let replacements = vec![
        LyxReplacementConfig::new("a".to_string(), "b".to_string(), None),
        LyxReplacementConfig::new("b".to_string(), "c{num}".to_string(), None),
    ];
    let out = apply_replacements(&replacements, 2, "", "ab".to_string());
    assert_eq!(out.unwrap(), "c2c2");
}

#[test]
fn a_replacement_that_cannot_be_rendered_is_a_format_error() {
    let replacements = vec![
        LyxReplacementConfig::new("a".to_string(), "{unknown}".to_string(), None),
    ];
    let err = apply_replacements(&replacements, 2, "", "ab".to_string()).unwrap_err();
    assert_eq!(err.kind, hw_assistant::error::ErrorKind::Format);
}

#[test]
fn replacement_getters_return_what_was_given() {
    let r = LyxReplacementConfig::new("X".to_string(), "{hebrew_name}-{num}".to_string(), Some(4));
    assert_eq!(r.from(), "X");
    assert_eq!(r.count(), Some(4));
    assert_eq!(r.to(12, "שם").unwrap(), "שם-12");
    let all = LyxReplacementConfig::new("X".to_string(), "y".to_string(), None);
    assert_eq!(all.count(), None);
    assert_eq!(all.clone().from(), "X");
}
