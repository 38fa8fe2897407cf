use hw_assistant::error::ErrorKind;
use hw_assistant::interface::InterfaceType;
use hw_assistant::settings::interface_settings::InterfaceSettings;
use hw_assistant::settings::subject_ordering::{
    SubjectOrdering, SubjectOrderingBy, SubjectOrderingDirection,
};
use hw_assistant::settings::Settings;
use hw_assistant::subject::steps::{Action, Event, Progress};
use hw_assistant::subject::{DirTimes, Subject, SubjectSource};

fn subject_settings() -> Settings {
    Settings::new(
        "subjects".to_string(),
        "HW{num}".to_string(),
        100,
        false,
        InterfaceSettings::new(InterfaceType::Tui, "{name}: HW{num}".to_string()),
    )
}

fn subject_named(name: &str, entries: &[&str]) -> Subject {
    let entries: Vec<String> = entries.iter().map(|s| s.to_string()).collect();
    Subject::from_directory(
        subject_settings(),
        format!("subjects/{name}"),
        Some(name.to_string()),
        &entries,
    )
    .unwrap()
}

fn times(accessed: Option<i128>, modified: Option<i128>) -> DirTimes {
    DirTimes { accessed, modified }
}

fn sorted_names(
    by: SubjectOrderingBy,
    direction: SubjectOrderingDirection,
    subjects: Vec<(&str, DirTimes)>,
) -> Vec<String> {
    let pairs = subjects.into_iter().map(|(name, t)| (subject_named(name, &[]), t)).collect();
    SubjectOrdering::new(by, direction)
        .sort_subjects(pairs)
        .iter()
        .map(|s| s.name().to_string())
        .collect()
}

#[test]
fn subject_from_directory_reads_name_and_latest_number() {
    let subject = subject_named("algebra", &["HW1", "HW2", "notes"]);
    assert_eq!(subject.name(), "algebra");
    assert_eq!(subject.path(), "subjects/algebra");
    assert_eq!(subject.current_hw_num(), 2);
    assert_eq!(subject.settings().max_hw_dirs(), 100);
    assert_eq!(subject.clone().name(), "algebra");
}

#[test]
fn subject_without_a_text_name_is_refused() {
    let err = Subject::from_directory(subject_settings(), "subjects/x".to_string(), None, &vec![])
        .err()
        .unwrap();
    assert_eq!(err.kind, ErrorKind::Name);
    assert_eq!(err.message, "directory has no filename");
}

#[test]
fn subject_with_bad_directory_format_is_refused() {
    let settings = Settings::new(
        "subjects".to_string(),
        "HW{}".to_string(),
        100,
        false,
        InterfaceSettings::new(InterfaceType::Tui, "{name}".to_string()),
    );
    let err =
        Subject::from_directory(settings, "subjects/x".to_string(), Some("x".to_string()), &vec![])
            .err()
            .unwrap();
    assert_eq!(err.kind, ErrorKind::Format);
}

#[test]
fn subject_label_holds_name_and_number() {
    let settings = subject_settings();
    let subject = subject_named("algebra", &["HW1", "HW2"]);
    assert_eq!(settings.interface_settings().subject_label(&subject).unwrap(), "algebra: HW2");
    assert_eq!(*settings.interface_settings().interface_type(), InterfaceType::Tui);
    let bad = InterfaceSettings::new(InterfaceType::Cmd, "{title}".to_string());
    assert_eq!(bad.subject_label(&subject).unwrap_err().kind, ErrorKind::Format);
    assert_eq!(*bad.clone().interface_type(), InterfaceType::Cmd);
}

#[test]
fn successful_creation_increments_the_cached_number() {
    let settings = subject_settings();
    let mut subject = subject_named("algebra", &["HW1", "HW2"]);
    let (progress, action) =
        subject.create_new_hw_dir(&settings, Progress::new(), Event::Begin).unwrap();
    assert_eq!(action, Action::ListSubject);
    assert_eq!(subject.current_hw_num(), 2);
    let names = vec!["HW1".to_string(), "HW2".to_string()];
    let (progress, action) =
        subject.create_new_hw_dir(&settings, progress, Event::Names(names)).unwrap();
    assert_eq!(action, Action::CreateDir { dir: "HW3".to_string() });
    assert_eq!(subject.current_hw_num(), 2);
    let (progress, action) = subject.create_new_hw_dir(&settings, progress, Event::Done).unwrap();
    assert_eq!(action, Action::Finish);
    assert!(progress.is_finished());
    assert_eq!(subject.current_hw_num(), 3);
}

#[test]
fn failed_creation_leaves_the_cached_number() {
    let settings = Settings::new(
        "subjects".to_string(),
        "HW{num}".to_string(),
        2,
        false,
        InterfaceSettings::new(InterfaceType::Tui, "{name}".to_string()),
    );
    let mut subject = subject_named("algebra", &["HW1", "HW2"]);
    let (progress, _) =
        subject.create_new_hw_dir(&settings, Progress::new(), Event::Begin).unwrap();
    let names = vec!["HW1".to_string(), "HW2".to_string()];
    let err = subject.create_new_hw_dir(&settings, progress, Event::Names(names)).unwrap_err();
    assert_eq!(err.kind, ErrorKind::LimitReached);
    assert_eq!(subject.current_hw_num(), 2);
}

#[test]
fn open_last_hw_steps_through_the_subject() {
    let settings = subject_settings();
    let subject = subject_named("algebra", &["HW1"]);
    let (progress, action) =
        subject.open_last_hw(&settings, Progress::new(), Event::Begin).unwrap();
    assert_eq!(action, Action::ListSubject);
    let (progress, action) = subject
        .open_last_hw(&settings, progress, Event::Names(vec!["HW1".to_string()]))
        .unwrap();
    assert_eq!(action, Action::Finish);
    assert_eq!(progress.num, 1);
    assert_eq!(progress.dir, "HW1");
}

#[test]
fn sorts_by_name_ascending() {
    let names = sorted_names(
        SubjectOrderingBy::Alphabetical,
        SubjectOrderingDirection::Ascending,
        vec![
            ("physics", times(None, None)),
            ("algebra", times(None, None)),
            ("Zoology", times(None, None)),
            ("alg", times(None, None)),
            ("שפה", times(None, None)),
            ("", times(None, None)),
        ],
    );
    assert_eq!(names, vec!["", "Zoology", "alg", "algebra", "physics", "שפה"]);
}

#[test]
fn sorts_by_name_descending() {
    let names = sorted_names(
        SubjectOrderingBy::Alphabetical,
        SubjectOrderingDirection::Descending,
        vec![
            ("physics", times(None, None)),
            ("algebra", times(None, None)),
            ("chemistry", times(None, None)),
        ],
    );
    assert_eq!(names, vec!["physics", "chemistry", "algebra"]);
}

#[test]
fn sorts_by_access_time_with_missing_keys_last() {
    let names = sorted_names(
        SubjectOrderingBy::AccessTime,
        SubjectOrderingDirection::Ascending,
        vec![
            ("a", times(Some(30), Some(1))),
            ("b", times(None, Some(2))),
            ("c", times(Some(10), Some(3))),
            ("d", times(None, Some(4))),
            ("e", times(Some(20), Some(5))),
        ],
    );
    assert_eq!(names, vec!["c", "e", "a", "b", "d"]);
}

#[test]
fn sorts_by_modify_time_descending_with_missing_keys_last() {
    let names = sorted_names(
        SubjectOrderingBy::ModifyTime,
        SubjectOrderingDirection::Descending,
        vec![
            ("a", times(Some(1), Some(30))),
            ("b", times(Some(2), None)),
            ("c", times(Some(3), Some(-10))),
            ("d", times(Some(4), None)),
            ("e", times(Some(5), Some(20))),
        ],
    );
    assert_eq!(names, vec!["a", "e", "c", "b", "d"]);
}

#[test]
fn equal_keys_keep_their_order() {
    let names = sorted_names(
        SubjectOrderingBy::AccessTime,
        SubjectOrderingDirection::Ascending,
        vec![
            ("first", times(Some(5), None)),
            ("second", times(Some(1), None)),
            ("third", times(Some(5), None)),
            ("fourth", times(Some(5), None)),
        ],
    );
    assert_eq!(names, vec!["second", "first", "third", "fourth"]);
    let names = sorted_names(
        SubjectOrderingBy::AccessTime,
        SubjectOrderingDirection::Descending,
        vec![
            ("first", times(Some(5), None)),
            ("second", times(Some(9), None)),
            ("third", times(Some(5), None)),
        ],
    );
    assert_eq!(names, vec!["second", "first", "third"]);
}

#[test]
fn sorting_nothing_gives_nothing() {
    let sorted = SubjectOrdering::default().sort_subjects(Vec::new());
    assert!(sorted.is_empty());
    assert_eq!(SubjectOrdering::default().by, SubjectOrderingBy::Alphabetical);
    assert_eq!(SubjectOrdering::default().direction, SubjectOrderingDirection::Ascending);
}

#[test]
fn all_subjects_drops_entries_that_are_no_subjects() {
    let found = vec![
        SubjectSource {
            dir: "subjects/physics".to_string(),
            name: Some("physics".to_string()),
            settings: Some(subject_settings()),
            entries: Some(vec!["HW1".to_string()]),
            times: times(None, None),
        },
        SubjectSource {
            dir: "subjects/readme.txt".to_string(),
            name: Some("readme.txt".to_string()),
            settings: Some(subject_settings()),
            entries: None,
            times: times(None, None),
        },
        SubjectSource {
            dir: "subjects/broken".to_string(),
            name: Some("broken".to_string()),
            settings: None,
            entries: Some(Vec::new()),
            times: times(None, None),
        },
        SubjectSource {
            dir: "subjects/\u{fffd}".to_string(),
            name: None,
            settings: Some(subject_settings()),
            entries: Some(Vec::new()),
            times: times(None, None),
        },
        SubjectSource {
            dir: "subjects/algebra".to_string(),
            name: Some("algebra".to_string()),
            settings: Some(subject_settings()),
            entries: Some(vec!["HW1".to_string(), "HW4".to_string()]),
            times: times(None, None),
        },
    ];
    let subjects = Subject::get_all_subjects(&subject_settings(), found);
    let summary: Vec<(String, usize)> =
        subjects.iter().map(|s| (s.name().to_string(), s.current_hw_num())).collect();
    assert_eq!(summary, vec![("algebra".to_string(), 4), ("physics".to_string(), 1)]);
}

#[test]
fn all_subjects_follow_the_configured_ordering() {
    let ordering =
        SubjectOrdering::new(SubjectOrderingBy::ModifyTime, SubjectOrderingDirection::Descending);
    let settings = subject_settings().with_subject_ordering(ordering);
    let found = vec![
        SubjectSource {
            dir: "subjects/a".to_string(),
            name: Some("a".to_string()),
            settings: Some(subject_settings()),
            entries: Some(Vec::new()),
            times: times(None, Some(100)),
        },
        SubjectSource {
            dir: "subjects/b".to_string(),
            name: Some("b".to_string()),
            settings: Some(subject_settings()),
            entries: Some(Vec::new()),
            times: times(None, None),
        },
        SubjectSource {
            dir: "subjects/c".to_string(),
            name: Some("c".to_string()),
            settings: Some(subject_settings()),
            entries: Some(Vec::new()),
            times: times(None, Some(200)),
        },
    ];
    let subjects = Subject::get_all_subjects(&settings, found);
    let names: Vec<&str> = subjects.iter().map(|s| s.name()).collect();
    assert_eq!(names, vec!["c", "a", "b"]);
    assert_eq!(*settings.subject_ordering(), ordering);
}
