//! The questions file: the latest download, moved into a new assignment.

use vstd::prelude::*;
use crate::error::HwError;
use crate::format::{format_num, format_spec, format_text, num_binding, renders};
use crate::settings::open_settings::{Formattable, OpenSettings, OpenSettingsView};

verus! {

/// The questions file as a viewer's argument: `{questions_file}`.
pub struct QuestionsFile;

impl Formattable for QuestionsFile {
    open spec fn placeholder() -> Seq<char> {
        "questions_file"@
    }

    fn format(s: String, questions_file: &str) -> (r: Result<String, HwError>) {
        format_text(s.as_str(), "questions_file", questions_file)
    }
}

/// Where the questions file comes from, how it is named and how it is opened.
pub struct QuestionsFileSettings {
    downloads_dir: String,
    questions_filename_format: String,
    open: Option<OpenSettings<QuestionsFile>>,
}

/// What a `QuestionsFileSettings` holds.
pub struct QuestionsFileSettingsView {
    pub downloads_dir: Seq<char>,
    pub questions_filename_format: Seq<char>,
    pub open: Option<OpenSettingsView>,
}

impl QuestionsFileSettingsView {
    /// The name of the questions file of assignment `num`, or `None` where
    /// the format cannot be rendered.
    pub open spec fn questions_filename(self, num: nat) -> Option<Seq<char>> {
        format_spec(self.questions_filename_format, seq![num_binding(num)])
    }
}

impl View for QuestionsFileSettings {
    type V = QuestionsFileSettingsView;

    closed spec fn view(&self) -> QuestionsFileSettingsView {
        QuestionsFileSettingsView {
            downloads_dir: self.downloads_dir@,
            questions_filename_format: self.questions_filename_format@,
            open: match self.open {
                Some(open) => Some(open@),
                None => None,
            },
        }
    }
}

impl Clone for QuestionsFileSettings {
    fn clone(&self) -> (r: Self)
        ensures
            r@ == self@,
    {
        QuestionsFileSettings {
            downloads_dir: self.downloads_dir.clone(),
            questions_filename_format: self.questions_filename_format.clone(),
            open: match &self.open {
                Some(open) => Some(open.clone()),
                None => None,
            },
        }
    }
}

impl QuestionsFileSettings {
    pub fn new(
        downloads_dir: String,
        questions_filename_format: String,
        open: Option<OpenSettings<QuestionsFile>>,
    ) -> (r: Self)
        ensures
            r@ == (QuestionsFileSettingsView {
                downloads_dir: downloads_dir@,
                questions_filename_format: questions_filename_format@,
                open: match open {
                    Some(o) => Some(o@),
                    None => None,
                },
            }),
    {
        QuestionsFileSettings { downloads_dir, questions_filename_format, open }
    }

    /// The directory whose most recent entry becomes the questions file.
    pub fn downloads_dir(&self) -> (r: &str)
        ensures
            r@ == self@.downloads_dir,
    {
        self.downloads_dir.as_str()
    }

    /// The format of the questions file's name.
    pub fn questions_filename_format(&self) -> (r: &str)
        ensures
            r@ == self@.questions_filename_format,
    {
        self.questions_filename_format.as_str()
    }

    /// The name of the questions file of assignment `num`.
    pub fn questions_filename(&self, num: usize) -> (r: Result<String, HwError>)
        ensures
            renders(r, self@.questions_filename(num as nat)),
    {
        format_num(self.questions_filename_format.as_str(), num)
    }

    /// The viewer of the questions file, if one is configured.
    pub fn open_settings(&self) -> (r: Option<&OpenSettings<QuestionsFile>>)
        ensures
            match r {
                Some(open) => self@.open == Some(open@),
                None => self@.open is None,
            },
    {
        self.open.as_ref()
    }
}

} // verus!
