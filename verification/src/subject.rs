//! A subject: a directory, and the assignments numbered in it.

pub mod files;
pub mod steps;

use vstd::prelude::*;
use crate::error::{ErrorKind, HwError};
use crate::settings::subject_ordering::subject_views;
use crate::settings::{Settings, SettingsView};
use crate::subject::files::{
    create_new_hw_dir, create_step, get_last_hw_num, last_hw_num, open_last_hw_dir, open_last_step,
    step_view,
};
use crate::subject::steps::{Action, Event, Phase, Progress};

verus! {

/// When a subject's directory was last read and last changed, in
/// nanoseconds since the Unix epoch, each where it could be found out.
#[derive(Clone, Copy, Debug, PartialEq, Eq, Structural)]
pub struct DirTimes {
    pub accessed: Option<i128>,
    pub modified: Option<i128>,
}

/// What the program found for one entry of the subjects directory: its
/// path; its name, where that is text; the settings that hold for it, where
/// they could be loaded; the names it holds, where it could be listed; and
/// the times of the directory.
pub struct SubjectSource {
    pub dir: String,
    pub name: Option<String>,
    pub settings: Option<Settings>,
    pub entries: Option<Vec<String>>,
    pub times: DirTimes,
}

/// A subject: where it lives, what it is called, the number of its latest
/// assignment as last seen, and the settings that hold for it.
pub struct Subject {
    dir: String,
    name: String,
    current_hw_num: usize,
    settings: Settings,
}

/// What a `Subject` holds.
pub struct SubjectView {
    pub dir: Seq<char>,
    pub name: Seq<char>,
    pub current_hw_num: usize,
    pub settings: SettingsView,
}

impl View for Subject {
    type V = SubjectView;

    closed spec fn view(&self) -> SubjectView {
        SubjectView {
            dir: self.dir@,
            name: self.name@,
            current_hw_num: self.current_hw_num,
            settings: self.settings@,
        }
    }
}

impl Clone for Subject {
    fn clone(&self) -> (r: Self)
        ensures
            r@ == self@,
    {
        Subject {
            dir: self.dir.clone(),
            name: self.name.clone(),
            current_hw_num: self.current_hw_num,
            settings: self.settings.clone(),
        }
    }
}

/// The subject found in a directory, or the category of the error that
/// keeps it from being one: `Name` where the directory's name is not text,
/// `Format` where the number of its latest assignment cannot be told.
pub open spec fn subject_in(
    settings: SettingsView,
    dir: Seq<char>,
    name: Option<Seq<char>>,
    entries: Seq<Seq<char>>,
) -> Result<SubjectView, ErrorKind> {
    match name {
        None => Err(ErrorKind::Name),
        Some(name) => match last_hw_num(settings, entries) {
            None => Err(ErrorKind::Format),
            Some(num) => Ok(SubjectView { dir, name, current_hw_num: num as usize, settings }),
        },
    }
}

/// The subject that an entry of the subjects directory is, or `None` where
/// it is none: its settings could not be loaded, it could not be listed, or
/// `subject_in` finds an error.
pub open spec fn subject_of(source: SubjectSource) -> Option<SubjectView> {
    match (source.settings, source.entries) {
        (Some(settings), Some(entries)) => match subject_in(
            settings@,
            source.dir@,
            match source.name {
                Some(name) => Some(name@),
                None => None,
            },
            entries.deep_view(),
        ) {
            Ok(subject) => Some(subject),
            Err(_) => None,
        },
        _ => None,
    }
}

/// The subjects among the entries of the subjects directory, in the order
/// of the entries, each with the times of its directory.
pub open spec fn subjects_among(sources: Seq<SubjectSource>) -> Seq<(SubjectView, DirTimes)>
    decreases sources.len(),
{
    if sources.len() == 0 {
        Seq::empty()
    } else {
        let before = subjects_among(sources.drop_last());
        match subject_of(sources.last()) {
            Some(subject) => before.push((subject, sources.last().times)),
            None => before,
        }
    }
}

impl Subject {
    /// All subjects, in the order that `settings` ask for. `found` holds
    /// what the program found for each entry of the subjects directory; an
    /// entry that is no subject is passed over in silence.
    pub fn get_all_subjects(settings: &Settings, found: Vec<SubjectSource>) -> (subjects: Vec<
        Subject,
    >)
        ensures
            exists|order: Seq<int>|
                {
                    &&& settings@.subject_ordering.is_sorted_order(
                        settings@.subject_ordering.keys(subjects_among(found@)),
                        order,
                    )
                    &&& subjects.len() == order.len()
                    &&& forall|i: int|
                        0 <= i < subjects.len() ==> (#[trigger] subjects[i])@ == subjects_among(
                            found@,
                        )[order[i]].0
                },
    {
        let ghost sources = found@;
        let mut accepted: Vec<(Subject, DirTimes)> = Vec::new();
        for source in it: found
            invariant
                it.seq() == sources,
                subject_views(accepted@) == subjects_among(sources.take(it.index() as int)),
        {
            proof {
                assert(sources.take(it.index() + 1).drop_last() =~= sources.take(
                    it.index() as int,
                ));
                assert(sources.take(it.index() + 1).last() == source);
            }
            let SubjectSource { dir, name, settings: own, entries, times } = source;
            if let (Some(own), Some(entries)) = (own, entries) {
                if let Ok(subject) = Subject::from_directory(own, dir, name, &entries) {
                    accepted.push((subject, times));
                    proof {
                        assert(subject_views(accepted@) =~= subjects_among(
                            sources.take(it.index() + 1),
                        ));
                    }
                }
            }
        }
        proof {
            assert(sources.take(sources.len() as int) =~= sources);
        }
        let ghost pairs = accepted@;
        let subjects = settings.subject_ordering().sort_subjects(accepted);
        proof {
            let order = choose|order: Seq<int>|
                {
                    &&& settings@.subject_ordering.is_sorted_order(
                        settings@.subject_ordering.keys(subject_views(pairs)),
                        order,
                    )
                    &&& subjects.len() == order.len()
                    &&& forall|i: int|
                        0 <= i < subjects.len() ==> #[trigger] subjects[i] == pairs[order[i]].0
                };
            assert forall|i: int| 0 <= i < subjects.len() implies (#[trigger] subjects[i])@
                == subjects_among(found@)[order[i]].0 by {
                assert(subject_views(pairs)[order[i]].0 == pairs[order[i]].0@);
            }
        }
        subjects
    }

    /// The subject's directory.
    pub fn path(&self) -> (r: &str)
        ensures
            r@ == self@.dir,
    {
        self.dir.as_str()
    }

    /// The subject's name: that of its directory.
    pub fn name(&self) -> (r: &str)
        ensures
            r@ == self@.name,
    {
        self.name.as_str()
    }

    /// Whether the subject is called `name`.
    pub fn is_named(&self, name: &String) -> (r: bool)
        ensures
            r == (self@.name == name@),
    {
        self.name == *name
    }

    /// The number of the subject's latest assignment, as last seen.
    pub fn current_hw_num(&self) -> (r: usize)
        ensures
            r == self@.current_hw_num,
    {
        self.current_hw_num
    }

    /// The settings that hold for this subject.
    pub fn settings(&self) -> (r: &Settings)
        ensures
            r@ == self@.settings,
    {
        &self.settings
    }

    /// The subject in the directory `dir`, whose name as text is `name` and
    /// which holds `entries`. `settings` are those that hold for it: the
    /// overrides found in the directory are already in them.
    ///
    /// Fails with `Name` where the directory's name is not text, and with a
    /// format error where the number of the latest assignment cannot be told.
    pub fn from_directory(
        settings: Settings,
        dir: String,
        name: Option<String>,
        entries: &Vec<String>,
    ) -> (r: Result<Subject, HwError>)
        ensures
            match r {
                Ok(subject) => subject_in(
                    settings@,
                    dir@,
                    match name {
                        Some(name) => Some(name@),
                        None => None,
                    },
                    entries.deep_view(),
                ) == Ok::<SubjectView, ErrorKind>(subject@),
                Err(e) => subject_in(
                    settings@,
                    dir@,
                    match name {
                        Some(name) => Some(name@),
                        None => None,
                    },
                    entries.deep_view(),
                ) == Err::<SubjectView, ErrorKind>(e.kind),
            },
            r matches Err(e) ==> (e.kind == ErrorKind::Name ==> e.message@
                == "directory has no filename"@),
    {
        let name = match name {
            Some(name) => name,
            None => {
                return Err(HwError::with_text(ErrorKind::Name, "directory has no filename"));
            },
        };
        let current_hw_num = match get_last_hw_num(&settings, entries) {
            Ok(num) => num,
            Err(e) => {
                return Err(e);
            },
        };
        Ok(Subject { dir, name, current_hw_num, settings })
    }

    /// Takes the opening of this subject's latest assignment one step
    /// further. `settings` are those that hold for the subject now, read
    /// afresh for this operation.
    pub fn open_last_hw(&self, settings: &Settings, progress: Progress, event: Event) -> (r: Result<
        (Progress, Action),
        HwError,
    >)
        ensures
            step_view(r) == open_last_step(settings@, progress@, event),
    {
        open_last_hw_dir(settings, progress, event)
    }

    /// Takes the creation of this subject's next assignment one step
    /// further. `settings` are those that hold for the subject now, read
    /// afresh for this operation. When the operation has succeeded the
    /// subject's latest number is one more than before; until then, and
    /// where it fails, the subject stays as it is.
    pub fn create_new_hw_dir(
        &mut self,
        settings: &Settings,
        progress: Progress,
        event: Event,
    ) -> (r: Result<(Progress, Action), HwError>)
        requires
            old(self)@.current_hw_num < usize::MAX,
        ensures
            step_view(r) == create_step(settings@, progress@, event),
            final(self)@ == (SubjectView {
                current_hw_num: if r matches Ok((_, Action::Finish)) {
                    (old(self)@.current_hw_num + 1) as usize
                } else {
                    old(self)@.current_hw_num
                },
                ..old(self)@
            }),
    {
        let step = create_new_hw_dir(settings, progress, event);
        if let Ok((_, Action::Finish)) = &step {
            self.current_hw_num += 1;
        }
        step
    }
}

} // verus!
