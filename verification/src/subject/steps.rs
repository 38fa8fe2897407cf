//! The vocabulary of an operation in progress: what the library asks the
//! program to do, what the program answers, and where the operation stands.
//!
//! The library never touches the disk or starts a process. It hands out one
//! `Action` at a time; the program performs it and hands back an `Event`.

use vstd::prelude::*;
use crate::error::HwError;

verus! {

/// An entry of the downloads directory: its path, and when it was created,
/// in nanoseconds since the Unix epoch, where that could be read.
#[derive(Clone, Debug, PartialEq, Eq)]
pub struct DownloadEntry {
    pub path: String,
    pub created: Option<i128>,
}

/// What the program is asked to do next. A `dir` is the name of an
/// assignment directory inside the subject's directory, a `name` that of a
/// file inside `dir`; `source` and `template` are paths as configured or as
/// found.
#[derive(Clone, Debug, PartialEq, Eq)]
pub enum Action {
    /// List the names in the subject's directory; answer with `Names`.
    ListSubject,
    /// Create the directory `dir`, which must not exist yet.
    CreateDir { dir: String },
    /// List the directory `downloads` with the creation time of each entry;
    /// answer with `Downloads`.
    ListDownloads { downloads: String },
    /// Rename `source` to `name` in `dir`. Where that cannot be done in
    /// place, answer with `Failed`.
    Rename { source: String, dir: String, name: String },
    /// Copy `source` to `name` in `dir`, byte for byte.
    Copy { source: String, dir: String, name: String },
    /// Delete `source`.
    Remove { source: String },
    /// Create `name` in `dir` as an empty file.
    CreateFile { dir: String, name: String },
    /// Read `template` as UTF-8 text; answer with `Text`.
    ReadText { template: String },
    /// Write `text` to `name` in `dir`.
    WriteText { dir: String, name: String, text: String },
    /// Find the absolute path of `name` in `dir`, as text; answer with
    /// `Path`. Where `must_exist` is set and there is no such file, answer
    /// with `Path(None)`.
    Locate { dir: String, name: String, must_exist: bool },
    /// Start `binary` with `args`, detached, its standard streams connected
    /// to nothing.
    Spawn { binary: String, args: Vec<String> },
    /// Nothing is left to do: the operation has succeeded.
    Finish,
}

/// What an `Action` asks for.
pub enum ActionView {
    ListSubject,
    CreateDir { dir: Seq<char> },
    ListDownloads { downloads: Seq<char> },
    Rename { source: Seq<char>, dir: Seq<char>, name: Seq<char> },
    Copy { source: Seq<char>, dir: Seq<char>, name: Seq<char> },
    Remove { source: Seq<char> },
    CreateFile { dir: Seq<char>, name: Seq<char> },
    ReadText { template: Seq<char> },
    WriteText { dir: Seq<char>, name: Seq<char>, text: Seq<char> },
    Locate { dir: Seq<char>, name: Seq<char>, must_exist: bool },
    Spawn { binary: Seq<char>, args: Seq<Seq<char>> },
    Finish,
}

impl View for Action {
    type V = ActionView;

    open spec fn view(&self) -> ActionView {
        match *self {
            Action::ListSubject => ActionView::ListSubject,
            Action::CreateDir { dir } => ActionView::CreateDir { dir: dir@ },
            Action::ListDownloads { downloads } => ActionView::ListDownloads {
                downloads: downloads@,
            },
            Action::Rename { source, dir, name } => ActionView::Rename {
                source: source@,
                dir: dir@,
                name: name@,
            },
            Action::Copy { source, dir, name } => ActionView::Copy {
                source: source@,
                dir: dir@,
                name: name@,
            },
            Action::Remove { source } => ActionView::Remove { source: source@ },
            Action::CreateFile { dir, name } => ActionView::CreateFile { dir: dir@, name: name@ },
            Action::ReadText { template } => ActionView::ReadText { template: template@ },
            Action::WriteText { dir, name, text } => ActionView::WriteText {
                dir: dir@,
                name: name@,
                text: text@,
            },
            Action::Locate { dir, name, must_exist } => ActionView::Locate {
                dir: dir@,
                name: name@,
                must_exist,
            },
            Action::Spawn { binary, args } => ActionView::Spawn {
                binary: binary@,
                args: args.deep_view(),
            },
            Action::Finish => ActionView::Finish,
        }
    }
}

/// What the program answers.
#[derive(Clone, Debug, PartialEq, Eq)]
pub enum Event {
    /// The operation begins: nothing was asked yet.
    Begin,
    /// The action was carried out.
    Done,
    /// The action could not be carried out.
    Failed(HwError),
    /// The names found in the subject's directory, those that are text.
    Names(Vec<String>),
    /// The entries found in the downloads directory.
    Downloads(Vec<DownloadEntry>),
    /// The text of the template.
    Text(String),
    /// The absolute path of the file, or `None` where it had to exist and
    /// does not.
    Path(Option<String>),
}

/// Where an operation stands: what it waits for.
#[derive(Clone, Copy, Debug, PartialEq, Eq, Structural)]
pub enum Phase {
    /// Nothing has been asked yet.
    Start,
    /// The names in the subject's directory.
    Listing,
    /// The assignment directory to be created.
    Directory,
    /// The entries of the downloads directory.
    Downloads,
    /// The download to be renamed into place.
    Rename,
    /// The download to be copied into place.
    Copy,
    /// The copied download to be deleted.
    Remove,
    /// The text of the template.
    TemplateText,
    /// The document to be created, copied or written.
    Document,
    /// The absolute path of the questions file.
    QuestionsPath,
    /// The viewer of the questions file to be started.
    QuestionsViewer,
    /// The absolute path of the document.
    DocumentPath,
    /// The viewer of the document to be started.
    DocumentViewer,
    /// The operation is over.
    Finished,
}

/// An operation in progress: the phase, and what was decided so far.
#[derive(Clone, Debug, PartialEq, Eq)]
pub struct Progress {
    /// What the operation waits for.
    pub phase: Phase,
    /// The number of the assignment.
    pub num: usize,
    /// The name of the assignment's directory.
    pub dir: String,
    /// The name of the file being produced or opened.
    pub name: String,
    /// The path of the download being imported.
    pub source: String,
}

/// What a `Progress` holds.
pub struct ProgressView {
    pub phase: Phase,
    pub num: nat,
    pub dir: Seq<char>,
    pub name: Seq<char>,
    pub source: Seq<char>,
}

impl View for Progress {
    type V = ProgressView;

    open spec fn view(&self) -> ProgressView {
        ProgressView {
            phase: self.phase,
            num: self.num as nat,
            dir: self.dir@,
            name: self.name@,
            source: self.source@,
        }
    }
}

impl Progress {
    /// An operation of which nothing has been done.
    pub fn new() -> (r: Progress)
        ensures
            r@ == (ProgressView {
                phase: Phase::Start,
                num: 0,
                dir: Seq::empty(),
                name: Seq::empty(),
                source: Seq::empty(),
            }),
    {
        Progress {
            phase: Phase::Start,
            num: 0,
            dir: String::new(),
            name: String::new(),
            source: String::new(),
        }
    }

    /// Whether the operation is over.
    pub fn is_finished(&self) -> (r: bool)
        ensures
            r == (self.phase == Phase::Finished),
    {
        self.phase == Phase::Finished
    }
}

} // verus!
