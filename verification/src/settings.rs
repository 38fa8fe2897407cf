//! The settings: every policy that the assistant follows.

pub mod interface_settings;
pub mod lyx_file_settings;
pub mod open_settings;
pub mod questions_file_settings;
pub mod subject_ordering;

use vstd::prelude::*;
use crate::error::HwError;
use crate::format::{format_num, format_spec, num_binding, renders};
use crate::settings::interface_settings::{InterfaceSettings, InterfaceSettingsView};
use crate::settings::lyx_file_settings::{LyxFileSettings, LyxFileSettingsView};
use crate::settings::questions_file_settings::{QuestionsFileSettings, QuestionsFileSettingsView};
use crate::settings::subject_ordering::{
    SubjectOrdering, SubjectOrderingBy, SubjectOrderingDirection,
};

verus! {

/// A snapshot of the settings. It is never changed: a new one is made.
pub struct Settings {
    subjects_dir: String,
    hw_dir_format: String,
    max_hw_dirs: usize,
    open_after_creation: bool,
    subject_settings_filename: Option<String>,
    hebrew_name: Option<String>,
    questions_file: Option<QuestionsFileSettings>,
    lyx_file: Option<LyxFileSettings>,
    interface: InterfaceSettings,
    subject_ordering: SubjectOrdering,
}

/// What a `Settings` holds.
pub struct SettingsView {
    pub subjects_dir: Seq<char>,
    pub hw_dir_format: Seq<char>,
    pub max_hw_dirs: usize,
    pub open_after_creation: bool,
    pub subject_settings_filename: Option<Seq<char>>,
    pub hebrew_name: Option<Seq<char>>,
    pub questions_file: Option<QuestionsFileSettingsView>,
    pub lyx_file: Option<LyxFileSettingsView>,
    pub interface: InterfaceSettingsView,
    pub subject_ordering: SubjectOrdering,
}

impl SettingsView {
    /// The name of the directory of assignment `num`, or `None` where the
    /// format cannot be rendered.
    pub open spec fn hw_dir(self, num: nat) -> Option<Seq<char>> {
        format_spec(self.hw_dir_format, seq![num_binding(num)])
    }

    /// The name handed to templates as `{hebrew_name}`: empty where none is
    /// configured.
    pub open spec fn hebrew_name_text(self) -> Seq<char> {
        match self.hebrew_name {
            Some(name) => name,
            None => Seq::empty(),
        }
    }
}

impl View for Settings {
    type V = SettingsView;

    closed spec fn view(&self) -> SettingsView {
        SettingsView {
            subjects_dir: self.subjects_dir@,
            hw_dir_format: self.hw_dir_format@,
            max_hw_dirs: self.max_hw_dirs,
            open_after_creation: self.open_after_creation,
            subject_settings_filename: match self.subject_settings_filename {
                Some(name) => Some(name@),
                None => None,
            },
            hebrew_name: match self.hebrew_name {
                Some(name) => Some(name@),
                None => None,
            },
            questions_file: match self.questions_file {
                Some(questions) => Some(questions@),
                None => None,
            },
            lyx_file: match self.lyx_file {
                Some(lyx) => Some(lyx@),
                None => None,
            },
            interface: self.interface@,
            subject_ordering: self.subject_ordering,
        }
    }
}

impl Clone for Settings {
    fn clone(&self) -> (r: Self)
        ensures
            r@ == self@,
    {
        Settings {
            subjects_dir: self.subjects_dir.clone(),
            hw_dir_format: self.hw_dir_format.clone(),
            max_hw_dirs: self.max_hw_dirs,
            open_after_creation: self.open_after_creation,
            subject_settings_filename: match &self.subject_settings_filename {
                Some(name) => Some(name.clone()),
                None => None,
            },
            hebrew_name: match &self.hebrew_name {
                Some(name) => Some(name.clone()),
                None => None,
            },
            questions_file: match &self.questions_file {
                Some(questions) => Some(questions.clone()),
                None => None,
            },
            lyx_file: match &self.lyx_file {
                Some(lyx) => Some(lyx.clone()),
                None => None,
            },
            interface: self.interface.clone(),
            subject_ordering: self.subject_ordering,
        }
    }
}

impl Settings {
    /// Settings with what is required and nothing optional: subjects are
    /// ordered by name, ascending.
    pub fn new(
        subjects_dir: String,
        hw_dir_format: String,
        max_hw_dirs: usize,
        open_after_creation: bool,
        interface: InterfaceSettings,
    ) -> (r: Self)
        ensures
            r@ == (SettingsView {
                subjects_dir: subjects_dir@,
                hw_dir_format: hw_dir_format@,
                max_hw_dirs,
                open_after_creation,
                subject_settings_filename: None,
                hebrew_name: None,
                questions_file: None,
                lyx_file: None,
                interface: interface@,
                subject_ordering: SubjectOrdering {
                    by: SubjectOrderingBy::Alphabetical,
                    direction: SubjectOrderingDirection::Ascending,
                },
            }),
    {
        Settings {
            subjects_dir,
            hw_dir_format,
            max_hw_dirs,
            open_after_creation,
            subject_settings_filename: None,
            hebrew_name: None,
            questions_file: None,
            lyx_file: None,
            interface,
            subject_ordering: SubjectOrdering::default(),
        }
    }

    /// The same settings, looking for per-subject overrides in the file
    /// `filename` of each subject's directory, or nowhere.
    pub fn with_subject_settings_filename(self, filename: Option<String>) -> (r: Self)
        ensures
            r@ == (SettingsView {
                subject_settings_filename: match filename {
                    Some(name) => Some(name@),
                    None => None,
                },
                ..self@
            }),
    {
        Settings { subject_settings_filename: filename, ..self }
    }

    /// The same settings with `{hebrew_name}` bound to `name`.
    pub fn with_hebrew_name(self, name: Option<String>) -> (r: Self)
        ensures
            r@ == (SettingsView {
                hebrew_name: match name {
                    Some(name) => Some(name@),
                    None => None,
                },
                ..self@
            }),
    {
        Settings { hebrew_name: name, ..self }
    }

    /// The same settings with the questions file handled as `questions` says.
    pub fn with_questions_file(self, questions: Option<QuestionsFileSettings>) -> (r: Self)
        ensures
            r@ == (SettingsView {
                questions_file: match questions {
                    Some(questions) => Some(questions@),
                    None => None,
                },
                ..self@
            }),
    {
        Settings { questions_file: questions, ..self }
    }

    /// The same settings with the document handled as `lyx` says.
    pub fn with_lyx_file(self, lyx: Option<LyxFileSettings>) -> (r: Self)
        ensures
            r@ == (SettingsView {
                lyx_file: match lyx {
                    Some(lyx) => Some(lyx@),
                    None => None,
                },
                ..self@
            }),
    {
        Settings { lyx_file: lyx, ..self }
    }

    /// The same settings with subjects ordered as `ordering` says.
    pub fn with_subject_ordering(self, ordering: SubjectOrdering) -> (r: Self)
        ensures
            r@ == (SettingsView { subject_ordering: ordering, ..self@ }),
    {
        Settings { subject_ordering: ordering, ..self }
    }

    /// The directory that holds one directory per subject.
    pub fn subjects_dir(&self) -> (r: &str)
        ensures
            r@ == self@.subjects_dir,
    {
        self.subjects_dir.as_str()
    }

    /// The format of an assignment directory's name.
    pub fn hw_dir_format(&self) -> (r: &str)
        ensures
            r@ == self@.hw_dir_format,
    {
        self.hw_dir_format.as_str()
    }

    /// The name of the directory of assignment `num`.
    pub fn hw_dir(&self, num: usize) -> (r: Result<String, HwError>)
        ensures
            renders(r, self@.hw_dir(num as nat)),
    {
        format_num(self.hw_dir_format.as_str(), num)
    }

    /// The highest assignment number that may be given out.
    pub fn max_hw_dirs(&self) -> (r: usize)
        ensures
            r == self@.max_hw_dirs,
    {
        self.max_hw_dirs
    }

    /// Whether the viewers are started on a newly created assignment.
    pub fn open_after_creation(&self) -> (r: bool)
        ensures
            r == self@.open_after_creation,
    {
        self.open_after_creation
    }

    /// The name of the file, inside a subject's directory, that overrides
    /// settings for that subject.
    pub fn subject_settings_filename(&self) -> (r: Option<&str>)
        ensures
            match r {
                Some(name) => self@.subject_settings_filename == Some(name@),
                None => self@.subject_settings_filename is None,
            },
    {
        match &self.subject_settings_filename {
            Some(name) => Some(name.as_str()),
            None => None,
        }
    }

    /// The name handed to templates as `{hebrew_name}`.
    pub fn hebrew_name(&self) -> (r: &str)
        ensures
            r@ == self@.hebrew_name_text(),
    {
        match &self.hebrew_name {
            Some(name) => name.as_str(),
            None => {
                proof {
                    reveal_strlit("");
                }
                assert(""@ =~= Seq::<char>::empty());
                ""
            },
        }
    }

    pub fn questions_file_settings(&self) -> (r: Option<&QuestionsFileSettings>)
        ensures
            match r {
                Some(questions) => self@.questions_file == Some(questions@),
                None => self@.questions_file is None,
            },
    {
        self.questions_file.as_ref()
    }

    pub fn lyx_file_settings(&self) -> (r: Option<&LyxFileSettings>)
        ensures
            match r {
                Some(lyx) => self@.lyx_file == Some(lyx@),
                None => self@.lyx_file is None,
            },
    {
        self.lyx_file.as_ref()
    }

    pub fn interface_settings(&self) -> (r: &InterfaceSettings)
        ensures
            r@ == self@.interface,
    {
        &self.interface
    }

    pub fn subject_ordering(&self) -> (r: &SubjectOrdering)
        ensures
            *r == self@.subject_ordering,
    {
        &self.subject_ordering
    }
}

} // verus!
