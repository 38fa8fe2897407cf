use hw_assistant::error::ErrorKind;
use hw_assistant::interface::InterfaceType;
use hw_assistant::settings::interface_settings::InterfaceSettings;
use hw_assistant::settings::Settings;
use hw_assistant::subject::files::{create_hw_dir, get_last_hw_num, name_is_used};

fn numbering_settings(hw_dir_format: &str, max_hw_dirs: usize) -> Settings {
    Settings::new(
        "subjects".to_string(),
        hw_dir_format.to_string(),
        max_hw_dirs,
        false,
        InterfaceSettings::new(InterfaceType::Cmd, "{name} ({num})".to_string()),
    )
}

fn names(list: &[&str]) -> Vec<String> {
    list.iter().map(|s| s.to_string()).collect()
}

#[test]
fn empty_directory_has_latest_zero() {
    let settings = numbering_settings("HW{num}", 100);
    assert_eq!(get_last_hw_num(&settings, &names(&[])).unwrap(), 0);
    assert_eq!(create_hw_dir(&settings, &names(&[])).unwrap(), (1, "HW1".to_string()));
}

#[test]
fn numbering_skips_holes() {
    let settings = numbering_settings("HW{num}", 100);
    let entries = names(&["HW1", "HW3"]);
    assert_eq!(get_last_hw_num(&settings, &entries).unwrap(), 3);
    assert_eq!(create_hw_dir(&settings, &entries).unwrap(), (4, "HW4".to_string()));
}

#[test]
fn latest_is_the_highest_that_exists() {
    let settings = numbering_settings("week-{num}-hw", 20);
    let entries = names(&["notes.txt", "week-2-hw", "week-11-hw", "week-7-hw", "week-21-hw"]);
    assert_eq!(get_last_hw_num(&settings, &entries).unwrap(), 11);
}

#[test]
fn latest_never_exceeds_the_cap() {
    let settings = numbering_settings("HW{num}", 3);
    let entries = names(&["HW1", "HW2", "HW3", "HW4", "HW50"]);
    let last = get_last_hw_num(&settings, &entries).unwrap();
    assert_eq!(last, 3);
    assert!(last <= settings.max_hw_dirs());
}

#[test]
fn cap_reached_is_an_error() {
    let settings = numbering_settings("HW{num}", 3);
    let err = create_hw_dir(&settings, &names(&["HW1", "HW2", "HW3"])).unwrap_err();
    assert_eq!(err.kind, ErrorKind::LimitReached);
    assert_eq!(err.message, "Maximum number of HW directories reached");
}

#[test]
fn cap_of_zero_allows_no_assignment() {
    let settings = numbering_settings("HW{num}", 0);
    assert_eq!(get_last_hw_num(&settings, &names(&[])).unwrap(), 0);
    assert_eq!(create_hw_dir(&settings, &names(&[])).unwrap_err().kind, ErrorKind::LimitReached);
}

#[test]
fn directory_zero_counts_as_latest_zero() {
    let settings = numbering_settings("HW{num}", 5);
    let entries = names(&["HW0"]);
    assert_eq!(get_last_hw_num(&settings, &entries).unwrap(), 0);
    assert_eq!(create_hw_dir(&settings, &entries).unwrap(), (1, "HW1".to_string()));
}

#[test]
fn bad_directory_format_is_a_format_error() {
    let settings = numbering_settings("HW{number}", 5);
    assert_eq!(get_last_hw_num(&settings, &names(&["HW1"])).unwrap_err().kind, ErrorKind::Format);
    assert_eq!(create_hw_dir(&settings, &names(&["HW1"])).unwrap_err().kind, ErrorKind::Format);
    let broken = numbering_settings("HW{num", 5);
    assert_eq!(get_last_hw_num(&broken, &names(&[])).unwrap_err().kind, ErrorKind::Format);
}

#[test]
fn created_directory_becomes_the_latest() {
    let settings = numbering_settings("HW{num}", 100);
    let mut entries = names(&["HW1", "HW3"]);
    let before = get_last_hw_num(&settings, &entries).unwrap();
    let (num, dir) = create_hw_dir(&settings, &entries).unwrap();
    entries.push(dir.clone());
    assert_eq!(get_last_hw_num(&settings, &entries).unwrap(), before + 1);
    assert_eq!(num, before + 1);
    assert!(name_is_used(&dir, &entries));
}

#[test]
fn constant_format_does_not_number() {
    let settings = numbering_settings("HW", 4);
    let mut entries = names(&[]);
    let (num, dir) = create_hw_dir(&settings, &entries).unwrap();
    assert_eq!((num, dir.as_str()), (1, "HW"));
    entries.push(dir);
    assert_eq!(get_last_hw_num(&settings, &entries).unwrap(), 4);
}

#[test]
fn name_is_used_compares_whole_names() {
    let entries = names(&["HW1", "HW10"]);
    assert!(name_is_used(&"HW1".to_string(), &entries));
    assert!(name_is_used(&"HW10".to_string(), &entries));
    assert!(!name_is_used(&"HW".to_string(), &entries));
    assert!(!name_is_used(&"HW100".to_string(), &entries));
    assert!(!name_is_used(&"".to_string(), &names(&[])));
}

#[test]
fn hw_dir_renders_the_number() {
    let settings = numbering_settings("HW{num}", 100);
    assert_eq!(settings.hw_dir(0).unwrap(), "HW0");
    assert_eq!(settings.hw_dir(42).unwrap(), "HW42");
    assert_eq!(settings.hw_dir(usize::MAX).unwrap(), format!("HW{}", usize::MAX));
}
