//! The document of an assignment: made from a template, with replacements.

use vstd::prelude::*;
use crate::error::HwError;
use crate::format::{format_num, format_num_text, format_spec, format_text, num_binding, renders};
use crate::settings::open_settings::{Formattable, OpenSettings, OpenSettingsView};

verus! {

/// The document as a viewer's argument: `{lyx_file}`.
pub struct LyxFile;

impl Formattable for LyxFile {
    open spec fn placeholder() -> Seq<char> {
        "lyx_file"@
    }

    fn format(s: String, lyx_file: &str) -> (r: Result<String, HwError>) {
        format_text(s.as_str(), "lyx_file", lyx_file)
    }
}

/// One textual replacement made in the template.
pub struct LyxReplacementConfig {
    from: String,
    to_format: String,
    count: Option<usize>,
}

/// What a `LyxReplacementConfig` holds.
pub struct LyxReplacementView {
    pub from: Seq<char>,
    pub to_format: Seq<char>,
    pub count: Option<usize>,
}

impl LyxReplacementView {
    /// The text put in place of `from` in assignment `num`, or `None` where
    /// the format cannot be rendered.
    pub open spec fn to(self, num: nat, hebrew_name: Seq<char>) -> Option<Seq<char>> {
        format_spec(self.to_format, seq![num_binding(num), ("hebrew_name"@, hebrew_name)])
    }
}

impl View for LyxReplacementConfig {
    type V = LyxReplacementView;

    closed spec fn view(&self) -> LyxReplacementView {
        LyxReplacementView { from: self.from@, to_format: self.to_format@, count: self.count }
    }
}

impl Clone for LyxReplacementConfig {
    fn clone(&self) -> (r: Self)
        ensures
            r@ == self@,
    {
        LyxReplacementConfig {
            from: self.from.clone(),
            to_format: self.to_format.clone(),
            count: self.count,
        }
    }
}

impl LyxReplacementConfig {
    pub fn new(from: String, to_format: String, count: Option<usize>) -> (r: Self)
        ensures
            r@ == (LyxReplacementView { from: from@, to_format: to_format@, count }),
    {
        LyxReplacementConfig { from, to_format, count }
    }

    /// The text to look for, taken literally.
    pub fn from(&self) -> (r: &str)
        ensures
            r@ == self@.from,
    {
        self.from.as_str()
    }

    /// The format of the text to put in its place.
    pub fn to_format(&self) -> (r: &str)
        ensures
            r@ == self@.to_format,
    {
        self.to_format.as_str()
    }

    /// The text to put in its place in assignment `num`.
    pub fn to(&self, num: usize, hebrew_name: &str) -> (r: Result<String, HwError>)
        ensures
            renders(r, self@.to(num as nat, hebrew_name@)),
    {
        format_num_text(self.to_format.as_str(), num, "hebrew_name", hebrew_name)
    }

    /// How many occurrences are replaced at most; all of them where `None`.
    pub fn count(&self) -> (r: Option<usize>)
        ensures
            r == self@.count,
    {
        self.count
    }
}

/// How the document is produced, named and opened.
pub struct LyxFileSettings {
    lyx_template_file: Option<String>,
    lyx_filename_format: String,
    replacements: Vec<LyxReplacementConfig>,
    open: Option<OpenSettings<LyxFile>>,
}

/// What a `LyxFileSettings` holds.
pub struct LyxFileSettingsView {
    pub lyx_template_file: Option<Seq<char>>,
    pub lyx_filename_format: Seq<char>,
    pub replacements: Seq<LyxReplacementView>,
    pub open: Option<OpenSettingsView>,
}

impl LyxFileSettingsView {
    /// The name of the document of assignment `num`, or `None` where the
    /// format cannot be rendered.
    pub open spec fn lyx_filename(self, num: nat) -> Option<Seq<char>> {
        format_spec(self.lyx_filename_format, seq![num_binding(num)])
    }
}

/// The views of a list of replacements, in order.
pub open spec fn replacement_views(replacements: Seq<LyxReplacementConfig>) -> Seq<
    LyxReplacementView,
> {
    Seq::new(replacements.len(), |i: int| replacements[i]@)
}

impl View for LyxFileSettings {
    type V = LyxFileSettingsView;

    closed spec fn view(&self) -> LyxFileSettingsView {
        LyxFileSettingsView {
            lyx_template_file: match self.lyx_template_file {
                Some(file) => Some(file@),
                None => None,
            },
            lyx_filename_format: self.lyx_filename_format@,
            replacements: replacement_views(self.replacements@),
            open: match self.open {
                Some(open) => Some(open@),
                None => None,
            },
        }
    }
}

impl Clone for LyxFileSettings {
    fn clone(&self) -> (r: Self)
        ensures
            r@ == self@,
    {
        let mut replacements: Vec<LyxReplacementConfig> = Vec::new();
        let mut i: usize = 0;
        while i < self.replacements.len()
            invariant
                i <= self.replacements.len(),
                replacements.len() == i,
                forall|k: int| 0 <= k < i ==> replacements[k]@ == self.replacements[k]@,
            decreases self.replacements.len() - i,
        {
            replacements.push(self.replacements[i].clone());
            i += 1;
        }
        proof {
            assert(replacement_views(replacements@) =~= replacement_views(self.replacements@));
        }
        LyxFileSettings {
            lyx_template_file: match &self.lyx_template_file {
                Some(file) => Some(file.clone()),
                None => None,
            },
            lyx_filename_format: self.lyx_filename_format.clone(),
            replacements,
            open: match &self.open {
                Some(open) => Some(open.clone()),
                None => None,
            },
        }
    }
}

impl LyxFileSettings {
    pub fn new(
        lyx_template_file: Option<String>,
        lyx_filename_format: String,
        replacements: Vec<LyxReplacementConfig>,
        open: Option<OpenSettings<LyxFile>>,
    ) -> (r: Self)
        ensures
            r@ == (LyxFileSettingsView {
                lyx_template_file: match lyx_template_file {
                    Some(file) => Some(file@),
                    None => None,
                },
                lyx_filename_format: lyx_filename_format@,
                replacements: replacement_views(replacements@),
                open: match open {
                    Some(o) => Some(o@),
                    None => None,
                },
            }),
    {
        LyxFileSettings { lyx_template_file, lyx_filename_format, replacements, open }
    }

    /// The template that the document is made from, if there is one.
    pub fn lyx_template_file(&self) -> (r: Option<&str>)
        ensures
            match r {
                Some(file) => self@.lyx_template_file == Some(file@),
                None => self@.lyx_template_file is None,
            },
    {
        match &self.lyx_template_file {
            Some(file) => Some(file.as_str()),
            None => None,
        }
    }

    /// The format of the document's name.
    pub fn lyx_filename_format(&self) -> (r: &str)
        ensures
            r@ == self@.lyx_filename_format,
    {
        self.lyx_filename_format.as_str()
    }

    /// The name of the document of assignment `num`.
    pub fn lyx_filename(&self, num: usize) -> (r: Result<String, HwError>)
        ensures
            renders(r, self@.lyx_filename(num as nat)),
    {
        format_num(self.lyx_filename_format.as_str(), num)
    }

    /// The replacements, in the order in which they are made.
    pub fn replacements(&self) -> (r: &[LyxReplacementConfig])
        ensures
            replacement_views(r@) == self@.replacements,
    {
        self.replacements.as_slice()
    }

    /// The viewer of the document, if one is configured.
    pub fn open_settings(&self) -> (r: Option<&OpenSettings<LyxFile>>)
        ensures
            match r {
                Some(open) => self@.open == Some(open@),
                None => self@.open is None,
            },
    {
        self.open.as_ref()
    }
}

} // verus!
