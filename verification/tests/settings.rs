use hw_assistant::error::{ErrorKind, HwError};
use hw_assistant::interface::InterfaceType;
use hw_assistant::settings::interface_settings::InterfaceSettings;
use hw_assistant::settings::lyx_file_settings::{LyxFile, LyxFileSettings, LyxReplacementConfig};
use hw_assistant::settings::open_settings::{Formattable, OpenSettings};
use hw_assistant::settings::questions_file_settings::{QuestionsFile, QuestionsFileSettings};
use hw_assistant::settings::Settings;

fn plain_settings() -> Settings {
    Settings::new(
        "testing/subjects".to_string(),
        "HW{num}".to_string(),
        100,
        true,
        InterfaceSettings::new(InterfaceType::Cmd, "{name}".to_string()),
    )
}

#[test]
fn required_settings_are_kept() {
    let settings = plain_settings();
    assert_eq!(settings.subjects_dir(), "testing/subjects");
    assert_eq!(settings.max_hw_dirs(), 100);
    assert!(settings.open_after_creation());
    assert_eq!(settings.subject_settings_filename(), None);
    assert_eq!(settings.hebrew_name(), "");
    assert!(settings.questions_file_settings().is_none());
    assert!(settings.lyx_file_settings().is_none());
}

#[test]
fn optional_settings_are_kept() {
    let questions =
        QuestionsFileSettings::new("testing/downloads".to_string(), "{num}.pdf".to_string(), None);
    let lyx = LyxFileSettings::new(
        Some("testing/mytemplate.lyx".to_string()),
        "HW{num}.lyx".to_string(),
        vec![LyxReplacementConfig::new("a".to_string(), "b".to_string(), Some(2))],
        Some(OpenSettings::new("lyx".to_string(), vec!["{lyx_file}".to_string()])),
    );
    let settings = plain_settings()
        .with_subject_settings_filename(Some("subject.json5".to_string()))
        .with_hebrew_name(Some("אלגברה".to_string()))
        .with_questions_file(Some(questions))
        .with_lyx_file(Some(lyx));
    let settings = settings.clone();
    assert_eq!(settings.subject_settings_filename(), Some("subject.json5"));
    assert_eq!(settings.hebrew_name(), "אלגברה");
    let questions = settings.questions_file_settings().unwrap();
    assert_eq!(questions.downloads_dir(), "testing/downloads");
    assert_eq!(questions.questions_filename(8).unwrap(), "8.pdf");
    assert!(questions.open_settings().is_none());
    let lyx = settings.lyx_file_settings().unwrap();
    assert_eq!(lyx.lyx_template_file(), Some("testing/mytemplate.lyx"));
    assert_eq!(lyx.lyx_filename(8).unwrap(), "HW8.lyx");
    assert_eq!(lyx.replacements().len(), 1);
    assert_eq!(lyx.replacements()[0].from(), "a");
    assert_eq!(lyx.replacements()[0].count(), Some(2));
    assert_eq!(lyx.open_settings().unwrap().binary(), "lyx");
    assert_eq!(settings.subjects_dir(), "testing/subjects");
    assert_eq!(settings.max_hw_dirs(), 100);
}

#[test]
fn document_without_template_has_none() {
    let lyx = LyxFileSettings::new(None, "HW{num}.lyx".to_string(), Vec::new(), None);
    assert_eq!(lyx.lyx_template_file(), None);
    assert!(lyx.replacements().is_empty());
    assert!(lyx.open_settings().is_none());
    assert_eq!(lyx.lyx_filename(3).unwrap(), "HW3.lyx");
    assert_eq!(lyx.clone().lyx_filename(4).unwrap(), "HW4.lyx");
}

#[test]
fn file_names_with_unknown_placeholders_are_format_errors() {
    let lyx = LyxFileSettings::new(None, "HW{title}.lyx".to_string(), Vec::new(), None);
    assert_eq!(lyx.lyx_filename(3).unwrap_err().kind, ErrorKind::Format);
    let questions = QuestionsFileSettings::new("d".to_string(), "{title}_{num}".to_string(), None);
    assert_eq!(questions.questions_filename(3).unwrap_err().kind, ErrorKind::Format);
    assert_eq!(questions.clone().downloads_dir(), "d");
}

#[test]
fn viewer_arguments_are_rendered_in_order() {
    let open: OpenSettings<QuestionsFile> = OpenSettings::new(
        "evince".to_string(),
        vec![
            "--fullscreen".to_string(),
            "{questions_file}".to_string(),
            "{{{questions_file}}}".to_string(),
        ],
    );
    assert_eq!(open.binary(), "evince");
    assert_eq!(
        open.args("/home/me/q.pdf").unwrap(),
        vec!["--fullscreen", "/home/me/q.pdf", "{/home/me/q.pdf}"]
    );
    assert_eq!(open.clone().args("x").unwrap(), vec!["--fullscreen", "x", "{x}"]);
}

#[test]
fn viewer_without_arguments_has_none() {
    let open: OpenSettings<LyxFile> = OpenSettings::new("lyx".to_string(), Vec::new());
    assert!(open.args("/home/me/hw.lyx").unwrap().is_empty());
}

#[test]
fn viewer_argument_of_the_other_kind_is_a_format_error() {
    let open: OpenSettings<LyxFile> =
        OpenSettings::new("lyx".to_string(), vec!["ok".to_string(), "{questions_file}".to_string()]);
    assert_eq!(open.args("/home/me/hw.lyx").unwrap_err().kind, ErrorKind::Format);
}

#[test]
fn formattable_kinds_bind_their_own_placeholder() {
    assert_eq!(QuestionsFile::format("<{questions_file}>".to_string(), "a b").unwrap(), "<a b>");
    assert_eq!(LyxFile::format("<{lyx_file}>".to_string(), "a{b}").unwrap(), "<a{b}>");
    assert_eq!(
        QuestionsFile::format("{lyx_file}".to_string(), "a").unwrap_err().kind,
        ErrorKind::Format
    );
    assert_eq!(
        LyxFile::format("{questions_file}".to_string(), "a").unwrap_err().kind,
        ErrorKind::Format
    );
}

#[test]
fn errors_carry_kind_and_message() {
    let e = HwError::new(ErrorKind::Spawn, "no such program".to_string());
    assert_eq!(e.kind(), ErrorKind::Spawn);
    assert_eq!(e.message(), "no such program");
    let f = HwError::with_text(ErrorKind::Path, "not text");
    assert_eq!(f.kind(), ErrorKind::Path);
    assert_eq!(f.message(), "not text");
    assert_ne!(e, f);
}
