//! What is decided about the files of a subject: which number the next
//! assignment gets, which download is imported, how the document is made and
//! what the viewers are started with.

use vstd::prelude::*;
use crate::error::{ErrorKind, HwError};
use crate::replace::{limit_of, replace_spec, replace_text};
use crate::settings::lyx_file_settings::{
    LyxFile, LyxFileSettings, LyxReplacementConfig, LyxReplacementView, replacement_views,
};
use crate::settings::open_settings::{Formattable, OpenSettings, OpenSettingsView};
use crate::settings::questions_file_settings::{QuestionsFile, QuestionsFileSettings};
use crate::settings::{Settings, SettingsView};
use crate::subject::steps::{Action, ActionView, DownloadEntry, Event, Phase, Progress, ProgressView};

verus! {

/// Whether `entries` holds the directory of assignment `num`.
pub open spec fn hw_dir_exists(settings: SettingsView, entries: Seq<Seq<char>>, num: nat) -> bool {
    settings.hw_dir(num) matches Some(name) && entries.contains(name)
}

/// Whether the name of assignment `num` can be rendered and is not taken.
pub open spec fn hw_dir_free(settings: SettingsView, entries: Seq<Seq<char>>, num: nat) -> bool {
    settings.hw_dir(num) matches Some(name) && !entries.contains(name)
}

/// The outcome of trying the numbers from `from` down to 0: the first whose
/// directory is in `entries`, 0 if there is none, and `None` where a name
/// cannot be rendered before that.
pub open spec fn probe_down(settings: SettingsView, entries: Seq<Seq<char>>, from: nat) -> Option<
    nat,
>
    decreases from,
{
    match settings.hw_dir(from) {
        None => None,
        Some(name) => if entries.contains(name) || from == 0 {
            Some(from)
        } else {
            probe_down(settings, entries, (from - 1) as nat)
        },
    }
}

/// The number of the latest assignment among `entries`, the names found
/// in a subject's directory.
pub open spec fn last_hw_num(settings: SettingsView, entries: Seq<Seq<char>>) -> Option<nat> {
    probe_down(settings, entries, settings.max_hw_dirs as nat)
}

/// What a probe says of the numbers that it tried.
pub proof fn lemma_probe_down(settings: SettingsView, entries: Seq<Seq<char>>, from: nat)
    ensures
        match probe_down(settings, entries, from) {
            Some(n) => {
                &&& n <= from
                &&& settings.hw_dir(n) is Some
                &&& n > 0 ==> hw_dir_exists(settings, entries, n)
                &&& forall|m: nat| n < m <= from ==> hw_dir_free(settings, entries, m)
            },
            None => exists|m: nat|
                {
                    &&& m <= from
                    &&& settings.hw_dir(m) is None
                    &&& forall|k: nat| m < k <= from ==> hw_dir_free(settings, entries, k)
                },
        },
    decreases from,
{
    match settings.hw_dir(from) {
        None => {
            assert(from <= from && settings.hw_dir(from) is None && forall|k: nat|
                from < k <= from ==> hw_dir_free(settings, entries, k));
        },
        Some(name) => {
            if !(entries.contains(name) || from == 0) {
                let below = (from - 1) as nat;
                lemma_probe_down(settings, entries, below);
                match probe_down(settings, entries, below) {
                    Some(n) => {
                        assert forall|m: nat| n < m <= from implies hw_dir_free(
                            settings,
                            entries,
                            m,
                        ) by {
                            if m != from {
                                assert(m <= below);
                            }
                        }
                    },
                    None => {
                        let m = choose|m: nat|
                            {
                                &&& m <= below
                                &&& settings.hw_dir(m) is None
                                &&& forall|k: nat|
                                    m < k <= below ==> hw_dir_free(settings, entries, k)
                            };
                        assert forall|k: nat| m < k <= from implies hw_dir_free(
                            settings,
                            entries,
                            k,
                        ) by {
                            if k != from {
                                assert(k <= below);
                            }
                        }
                    },
                }
            }
        },
    }
}

/// The latest assignment never exceeds the cap, and no assignment above it
/// exists.
pub proof fn lemma_last_hw_num_within_cap(
    settings: SettingsView,
    entries: Seq<Seq<char>>,
    num: nat,
)
    requires
        last_hw_num(settings, entries) == Some(num),
    ensures
        num <= settings.max_hw_dirs,
        forall|m: nat| num < m <= settings.max_hw_dirs ==> !hw_dir_exists(settings, entries, m),
{
    lemma_probe_down(settings, entries, settings.max_hw_dirs as nat);
    assert forall|m: nat| num < m <= settings.max_hw_dirs implies !hw_dir_exists(
        settings,
        entries,
        m,
    ) by {
        assert(hw_dir_free(settings, entries, m));
    }
}

/// The directory of the latest assignment exists, unless the number is 0
/// because no directory was found.
pub proof fn lemma_last_hw_num_exists(settings: SettingsView, entries: Seq<Seq<char>>, num: nat)
    requires
        last_hw_num(settings, entries) == Some(num),
        num > 0 || hw_dir_exists(settings, entries, 0),
    ensures
        hw_dir_exists(settings, entries, num),
{
    lemma_probe_down(settings, entries, settings.max_hw_dirs as nat);
}

/// The number and the directory name of the next assignment: one more than
/// the latest. The error is `LimitReached` where that exceeds the cap, and
/// `Format` where a name cannot be rendered.
pub open spec fn next_hw_dir(settings: SettingsView, entries: Seq<Seq<char>>) -> Result<
    (nat, Seq<char>),
    ErrorKind,
> {
    match last_hw_num(settings, entries) {
        None => Err(ErrorKind::Format),
        Some(last) => if last + 1 > settings.max_hw_dirs {
            Err(ErrorKind::LimitReached)
        } else {
            match settings.hw_dir(last + 1) {
                None => Err(ErrorKind::Format),
                Some(name) => Ok((last + 1, name)),
            }
        },
    }
}

/// Once the directory of the next assignment is there, that assignment is
/// the latest: one more than before.
///
/// This needs that no higher number up to the cap renders to the same name.
pub proof fn lemma_created_is_last(
    settings: SettingsView,
    entries: Seq<Seq<char>>,
    num: nat,
    name: Seq<char>,
)
    requires
        next_hw_dir(settings, entries) == Ok::<(nat, Seq<char>), ErrorKind>((num, name)),
        forall|m: nat| num < m <= settings.max_hw_dirs ==> settings.hw_dir(m) != Some(name),
    ensures
        last_hw_num(settings, entries) == Some((num - 1) as nat),
        last_hw_num(settings, entries.push(name)) == Some(num),
        hw_dir_exists(settings, entries.push(name), num),
{
    lemma_probe_down(settings, entries, settings.max_hw_dirs as nat);
    assert(entries.push(name).last() == name);
    lemma_probe_finds_created(settings, entries, num, name, settings.max_hw_dirs as nat);
}

proof fn lemma_probe_finds_created(
    settings: SettingsView,
    entries: Seq<Seq<char>>,
    num: nat,
    name: Seq<char>,
    from: nat,
)
    requires
        num <= from,
        settings.hw_dir(num) == Some(name),
        forall|m: nat|
            num < m <= from ==> hw_dir_free(settings, entries, m) && settings.hw_dir(m) != Some(
                name,
            ),
    ensures
        probe_down(settings, entries.push(name), from) == Some(num),
    decreases from,
{
    let after = entries.push(name);
    assert(after.last() == name);
    if from > num {
        let tried = settings.hw_dir(from)->Some_0;
        assert(hw_dir_free(settings, entries, from));
        assert(!after.contains(tried)) by {
            if after.contains(tried) {
                let i = choose|i: int| 0 <= i < after.len() && after[i] == tried;
                if i < entries.len() {
                    assert(entries[i] == tried);
                } else {
                    assert(after[i] == name);
                }
            }
        }
        lemma_probe_finds_created(settings, entries, num, name, (from - 1) as nat);
    }
}

/// Whether `name` is one of `entries`.
pub fn name_is_used(name: &String, entries: &Vec<String>) -> (used: bool)
    ensures
        used == entries.deep_view().contains(name@),
{
    let mut i: usize = 0;
    while i < entries.len()
        invariant
            i <= entries.len(),
            forall|k: int| 0 <= k < i ==> entries[k]@ != name@,
        decreases entries.len() - i,
    {
        if entries[i] == *name {
            proof {
                assert(entries.deep_view()[i as int] == name@);
            }
            return true;
        }
        i += 1;
    }
    proof {
        assert forall|k: int| 0 <= k < entries.deep_view().len() implies entries.deep_view()[k]
            != name@ by {
            assert(entries.deep_view()[k] == entries[k]@);
        }
    }
    false
}

/// The number of the latest assignment of a subject whose directory holds
/// `entries`: the highest number, from the cap down, whose directory name is
/// among them, and 0 where there is none.
///
/// Fails with a format error where the name of a number cannot be rendered
/// before a directory is found.
pub fn get_last_hw_num(settings: &Settings, entries: &Vec<String>) -> (r: Result<usize, HwError>)
    ensures
        match r {
            Ok(num) => last_hw_num(settings@, entries.deep_view()) == Some(num as nat) && num
                <= settings@.max_hw_dirs,
            Err(e) => last_hw_num(settings@, entries.deep_view()) is None && e.kind
                == ErrorKind::Format,
        },
{
    let mut num: usize = settings.max_hw_dirs();
    loop
        invariant
            num <= settings@.max_hw_dirs,
            probe_down(settings@, entries.deep_view(), num as nat) == last_hw_num(
                settings@,
                entries.deep_view(),
            ),
        decreases num,
    {
        let name = match settings.hw_dir(num) {
            Ok(name) => name,
            Err(e) => {
                return Err(e);
            },
        };
        if name_is_used(&name, entries) || num == 0 {
            return Ok(num);
        }
        num -= 1;
    }
}

/// The number and the directory name of the next assignment of a subject
/// whose directory holds `entries`.
///
/// Fails with `LimitReached` where the latest assignment has the highest
/// number allowed, and with a format error where a name cannot be rendered.
pub fn create_hw_dir(settings: &Settings, entries: &Vec<String>) -> (r: Result<
    (usize, String),
    HwError,
>)
    ensures
        match r {
            Ok((num, name)) => next_hw_dir(settings@, entries.deep_view()) == Ok::<
                (nat, Seq<char>),
                ErrorKind,
            >((num as nat, name@)),
            Err(e) => next_hw_dir(settings@, entries.deep_view()) == Err::<
                (nat, Seq<char>),
                ErrorKind,
            >(e.kind),
        },
        r matches Err(e) ==> (e.kind == ErrorKind::LimitReached ==> e.message@
            == "Maximum number of HW directories reached"@),
{
    let last = match get_last_hw_num(settings, entries) {
        Ok(last) => last,
        Err(e) => {
            return Err(e);
        },
    };
    if last >= settings.max_hw_dirs() {
        return Err(
            HwError::with_text(ErrorKind::LimitReached, "Maximum number of HW directories reached"),
        );
    }
    let num: usize = last + 1;
    match settings.hw_dir(num) {
        Ok(name) => Ok((num, name)),
        Err(e) => Err(e),
    }
}

/// Whether entry `i` is the one to import: its creation time is known, none
/// is later, and of those created at the same time it comes last.
pub open spec fn is_most_recent(entries: Seq<DownloadEntry>, i: int) -> bool {
    &&& 0 <= i < entries.len()
    &&& entries[i].created is Some
    &&& forall|j: int|
        0 <= j < entries.len() && entries[j].created is Some ==> entries[j].created->Some_0
            <= entries[i].created->Some_0
    &&& forall|j: int|
        i < j < entries.len() && entries[j].created is Some ==> entries[j].created->Some_0
            < entries[i].created->Some_0
}

/// The index of the entry to import, or `None` where no entry has a known
/// creation time.
pub open spec fn most_recent(entries: Seq<DownloadEntry>) -> Option<int> {
    if exists|i: int| is_most_recent(entries, i) {
        Some(choose|i: int| is_most_recent(entries, i))
    } else {
        None
    }
}

/// At most one entry is the one to import.
pub proof fn lemma_most_recent_unique(entries: Seq<DownloadEntry>, i: int, j: int)
    requires
        is_most_recent(entries, i),
        is_most_recent(entries, j),
    ensures
        i == j,
{
}

/// The index of the most recently created entry. Entries whose creation
/// time is unknown are passed over.
///
/// Fails with `EmptyDownloads` where no entry has a known creation time.
pub fn get_most_recent_download(entries: &Vec<DownloadEntry>) -> (r: Result<usize, HwError>)
    ensures
        match r {
            Ok(index) => most_recent(entries@) == Some(index as int) && is_most_recent(
                entries@,
                index as int,
            ),
            Err(e) => {
                &&& most_recent(entries@) is None
                &&& e.kind == ErrorKind::EmptyDownloads
                &&& e.message@ == "downloads directory was empty"@
                &&& forall|j: int| 0 <= j < entries.len() ==> entries[j].created is None
            },
        },
{
    let mut best: Option<(usize, i128)> = None;
    let mut i: usize = 0;
    while i < entries.len()
        invariant
            i <= entries.len(),
            match best {
                Some((index, created)) => {
                    &&& index < i
                    &&& entries[index as int].created == Some(created)
                    &&& forall|j: int|
                        0 <= j < i && entries[j].created is Some ==> entries[j].created->Some_0
                            <= created
                    &&& forall|j: int|
                        index < j < i && entries[j].created is Some
                            ==> entries[j].created->Some_0 < created
                },
                None => forall|j: int| 0 <= j < i ==> entries[j].created is None,
            },
        decreases entries.len() - i,
    {
        if let Some(created) = entries[i].created {
            let later = match best {
                Some((_, latest)) => created >= latest,
                None => true,
            };
            if later {
                best = Some((i, created));
            }
        }
        i += 1;
    }
    match best {
        Some((index, _)) => {
            proof {
                assert(is_most_recent(entries@, index as int));
                let chosen = choose|i: int| is_most_recent(entries@, i);
                lemma_most_recent_unique(entries@, chosen, index as int);
            }
            Ok(index)
        },
        None => Err(HwError::with_text(ErrorKind::EmptyDownloads, "downloads directory was empty")),
    }
}

/// `text` after the replacements were made in it, one after the other, each
/// in what the one before left; `None` where the text to put in cannot be
/// rendered for one of them.
pub open spec fn replaced(
    text: Seq<char>,
    replacements: Seq<LyxReplacementView>,
    num: nat,
    hebrew_name: Seq<char>,
) -> Option<Seq<char>>
    decreases replacements.len(),
{
    if replacements.len() == 0 {
        Some(text)
    } else {
        let last = replacements.last();
        match (replaced(text, replacements.drop_last(), num, hebrew_name), last.to(
            num,
            hebrew_name,
        )) {
            (Some(so_far), Some(to)) => Some(
                replace_spec(so_far, last.from, to, limit_of(last.count)),
            ),
            _ => None,
        }
    }
}

/// With no replacements the text stays as it is.
pub proof fn lemma_no_replacements(text: Seq<char>, num: nat, hebrew_name: Seq<char>)
    ensures
        replaced(text, Seq::<LyxReplacementView>::empty(), num, hebrew_name) == Some(text),
{
}

/// Makes the replacements in `data`, in order, for assignment `num`.
///
/// Fails with a format error where the text to put in cannot be rendered for
/// one of them.
pub fn apply_replacements(
    replacements: &[LyxReplacementConfig],
    num: usize,
    hebrew_name: &str,
    data: String,
) -> (r: Result<String, HwError>)
    ensures
        match r {
            Ok(text) => replaced(data@, replacement_views(replacements@), num as nat, hebrew_name@)
                == Some(text@),
            Err(e) => replaced(data@, replacement_views(replacements@), num as nat, hebrew_name@)
                is None && e.kind == ErrorKind::Format,
        },
{
    let ghost all = replacement_views(replacements@);
    let mut text = data;
    let mut i: usize = 0;
    while i < replacements.len()
        invariant
            i <= replacements.len(),
            all == replacement_views(replacements@),
            replaced(data@, all.take(i as int), num as nat, hebrew_name@) == Some(text@),
        decreases replacements.len() - i,
    {
        let replace = &replacements[i];
        proof {
            assert(all.take(i + 1).drop_last() =~= all.take(i as int));
            assert(all.take(i + 1).last() == replace@);
        }
        let to = match replace.to(num, hebrew_name) {
            Ok(to) => to,
            Err(e) => {
                proof {
                    lemma_replaced_fails(data@, all, i + 1, num as nat, hebrew_name@);
                }
                return Err(e);
            },
        };
        text = replace_text(text.as_str(), replace.from(), to.as_str(), replace.count());
        i += 1;
    }
    proof {
        assert(all.take(i as int) =~= all);
    }
    Ok(text)
}

/// Once the replacements fail on a prefix of the list, they fail on the list.
proof fn lemma_replaced_fails(
    text: Seq<char>,
    replacements: Seq<LyxReplacementView>,
    upto: int,
    num: nat,
    hebrew_name: Seq<char>,
)
    requires
        0 <= upto <= replacements.len(),
        replaced(text, replacements.take(upto), num, hebrew_name) is None,
    ensures
        replaced(text, replacements, num, hebrew_name) is None,
    decreases replacements.len() - upto,
{
    if upto < replacements.len() {
        assert(replacements.take(upto + 1).drop_last() =~= replacements.take(upto));
        lemma_replaced_fails(text, replacements, upto + 1, num, hebrew_name);
    } else {
        assert(replacements.take(upto) =~= replacements);
    }
}

/// How a step ends: the new state and the next action, or the category of
/// the error that ends the operation.
pub type StepView = Result<(ProgressView, ActionView), ErrorKind>;

/// A step's result, as what it holds.
pub open spec fn step_view(r: Result<(Progress, Action), HwError>) -> StepView {
    match r {
        Ok((progress, action)) => Ok((progress@, action@)),
        Err(e) => Err(e.kind),
    }
}

/// The operation ends well.
pub open spec fn finish(from: ProgressView) -> StepView {
    Ok((ProgressView { phase: Phase::Finished, ..from }, ActionView::Finish))
}

/// The viewer is started on the file at `path`, and the operation waits in
/// `next` for that. A format error where an argument cannot be rendered.
pub open spec fn spawn_step(
    open: OpenSettingsView,
    placeholder: Seq<char>,
    from: ProgressView,
    path: Seq<char>,
    next: Phase,
) -> StepView {
    match open.args(placeholder, path) {
        None => Err(ErrorKind::Format),
        Some(args) => Ok(
            (ProgressView { phase: next, ..from }, ActionView::Spawn { binary: open.binary, args }),
        ),
    }
}

/// Opening the document: where a viewer is configured for it, the document
/// is located first; else the operation ends.
pub open spec fn document_viewer_step(
    settings: SettingsView,
    from: ProgressView,
    must_exist: bool,
) -> StepView {
    if settings.lyx_file is Some && settings.lyx_file->Some_0.open is Some {
        match settings.lyx_file->Some_0.lyx_filename(from.num) {
            None => Err(ErrorKind::Format),
            Some(name) => Ok(
                (
                    ProgressView { phase: Phase::DocumentPath, name, ..from },
                    ActionView::Locate { dir: from.dir, name, must_exist },
                ),
            ),
        }
    } else {
        finish(from)
    }
}

/// Opening the questions file: where a viewer is configured for it, the file
/// is located first; else the document is next.
pub open spec fn questions_viewer_step(
    settings: SettingsView,
    from: ProgressView,
    must_exist: bool,
) -> StepView {
    if settings.questions_file is Some && settings.questions_file->Some_0.open is Some {
        match settings.questions_file->Some_0.questions_filename(from.num) {
            None => Err(ErrorKind::Format),
            Some(name) => Ok(
                (
                    ProgressView { phase: Phase::QuestionsPath, name, ..from },
                    ActionView::Locate { dir: from.dir, name, must_exist },
                ),
            ),
        }
    } else {
        document_viewer_step(settings, from, must_exist)
    }
}

/// Whether an operation in `phase` is opening the files of an assignment.
pub open spec fn is_open_phase(phase: Phase) -> bool {
    ||| phase == Phase::QuestionsPath
    ||| phase == Phase::QuestionsViewer
    ||| phase == Phase::DocumentPath
    ||| phase == Phase::DocumentViewer
}

/// A step of opening the files of an assignment: the questions file, then
/// the document. A file that is not there is passed over.
pub open spec fn open_step(
    settings: SettingsView,
    from: ProgressView,
    event: Event,
    must_exist: bool,
) -> StepView {
    match (from.phase, event) {
        (Phase::QuestionsPath, Event::Path(Some(path))) => {
            if settings.questions_file is Some && settings.questions_file->Some_0.open is Some {
                spawn_step(
                    settings.questions_file->Some_0.open->Some_0,
                    QuestionsFile::placeholder(),
                    from,
                    path@,
                    Phase::QuestionsViewer,
                )
            } else {
                Err(ErrorKind::Unexpected)
            }
        },
        (Phase::QuestionsPath, Event::Path(None)) => document_viewer_step(
            settings,
            from,
            must_exist,
        ),
        (Phase::QuestionsViewer, Event::Done) => document_viewer_step(settings, from, must_exist),
        (Phase::DocumentPath, Event::Path(Some(path))) => {
            if settings.lyx_file is Some && settings.lyx_file->Some_0.open is Some {
                spawn_step(
                    settings.lyx_file->Some_0.open->Some_0,
                    LyxFile::placeholder(),
                    from,
                    path@,
                    Phase::DocumentViewer,
                )
            } else {
                Err(ErrorKind::Unexpected)
            }
        },
        (Phase::DocumentPath, Event::Path(None)) => finish(from),
        (Phase::DocumentViewer, Event::Done) => finish(from),
        (Phase::QuestionsPath, Event::Failed(e)) => Err(e.kind),
        (Phase::QuestionsViewer, Event::Failed(e)) => Err(e.kind),
        (Phase::DocumentPath, Event::Failed(e)) => Err(e.kind),
        (Phase::DocumentViewer, Event::Failed(e)) => Err(e.kind),
        _ => Err(ErrorKind::Unexpected),
    }
}

/// What follows the document: the viewers, where they are to be started on
/// a new assignment.
pub open spec fn after_document(settings: SettingsView, from: ProgressView) -> StepView {
    if settings.open_after_creation {
        questions_viewer_step(settings, from, false)
    } else {
        finish(from)
    }
}

/// Making the document: nothing where none is configured; an empty file
/// where there is no template; a copy of the template where nothing is
/// replaced in it; else the template is read, to be written with the
/// replacements made.
pub open spec fn document_step(settings: SettingsView, from: ProgressView) -> StepView {
    match settings.lyx_file {
        None => after_document(settings, from),
        Some(lyx) => match lyx.lyx_filename(from.num) {
            None => Err(ErrorKind::Format),
            Some(name) => match lyx.lyx_template_file {
                None => Ok(
                    (
                        ProgressView { phase: Phase::Document, name, ..from },
                        ActionView::CreateFile { dir: from.dir, name },
                    ),
                ),
                Some(template) => if lyx.replacements.len() == 0 {
                    Ok(
                        (
                            ProgressView { phase: Phase::Document, name, ..from },
                            ActionView::Copy { source: template, dir: from.dir, name },
                        ),
                    )
                } else {
                    Ok(
                        (
                            ProgressView { phase: Phase::TemplateText, name, ..from },
                            ActionView::ReadText { template },
                        ),
                    )
                },
            },
        },
    }
}

/// A template in which nothing is replaced is not read: the document is a
/// copy of the template's file, byte for byte.
pub proof fn lemma_template_is_copied(settings: SettingsView, from: ProgressView)
    requires
        settings.lyx_file is Some,
        settings.lyx_file->Some_0.lyx_template_file is Some,
        settings.lyx_file->Some_0.replacements.len() == 0,
        settings.lyx_file->Some_0.lyx_filename(from.num) is Some,
    ensures
        document_step(settings, from) matches Ok((after, action)) && action == (ActionView::Copy {
            source: settings.lyx_file->Some_0.lyx_template_file->Some_0,
            dir: from.dir,
            name: settings.lyx_file->Some_0.lyx_filename(from.num)->Some_0,
        }) && after.phase == Phase::Document,
{
}

/// Importing the questions file: where it is configured, the downloads are
/// listed; else the document is next.
pub open spec fn questions_step(settings: SettingsView, from: ProgressView) -> StepView {
    match settings.questions_file {
        None => document_step(settings, from),
        Some(questions) => Ok(
            (
                ProgressView { phase: Phase::Downloads, ..from },
                ActionView::ListDownloads { downloads: questions.downloads_dir },
            ),
        ),
    }
}

/// The download to import is chosen and renamed into the assignment.
pub open spec fn import_step(
    settings: SettingsView,
    from: ProgressView,
    downloads: Seq<DownloadEntry>,
) -> StepView {
    match settings.questions_file {
        None => Err(ErrorKind::Unexpected),
        Some(questions) => match most_recent(downloads) {
            None => Err(ErrorKind::EmptyDownloads),
            Some(index) => match questions.questions_filename(from.num) {
                None => Err(ErrorKind::Format),
                Some(name) => Ok(
                    (
                        ProgressView {
                            phase: Phase::Rename,
                            name,
                            source: downloads[index].path@,
                            ..from
                        },
                        ActionView::Rename {
                            source: downloads[index].path@,
                            dir: from.dir,
                            name,
                        },
                    ),
                ),
            },
        },
    }
}

/// Moving the download where it cannot be renamed in place: it is copied,
/// then deleted.
pub open spec fn move_step(from: ProgressView) -> StepView {
    if from.phase == Phase::Rename {
        Ok(
            (
                ProgressView { phase: Phase::Copy, ..from },
                ActionView::Copy { source: from.source, dir: from.dir, name: from.name },
            ),
        )
    } else if from.phase == Phase::Copy {
        Ok((ProgressView { phase: Phase::Remove, ..from }, ActionView::Remove { source: from.source }))
    } else {
        Err(ErrorKind::Unexpected)
    }
}

/// The template's text is written out with the replacements made.
pub open spec fn rewrite_step(settings: SettingsView, from: ProgressView, data: Seq<char>) -> StepView {
    match settings.lyx_file {
        None => Err(ErrorKind::Unexpected),
        Some(lyx) => match replaced(data, lyx.replacements, from.num, settings.hebrew_name_text()) {
            None => Err(ErrorKind::Format),
            Some(text) => Ok(
                (
                    ProgressView { phase: Phase::Document, ..from },
                    ActionView::WriteText { dir: from.dir, name: from.name, text },
                ),
            ),
        },
    }
}

/// The next assignment gets its number and its directory is created.
pub open spec fn allocate_step(
    settings: SettingsView,
    from: ProgressView,
    entries: Seq<Seq<char>>,
) -> StepView {
    match next_hw_dir(settings, entries) {
        Err(kind) => Err(kind),
        Ok((num, dir)) => Ok(
            (
                ProgressView { phase: Phase::Directory, num, dir, ..from },
                ActionView::CreateDir { dir },
            ),
        ),
    }
}

/// A step of creating the next assignment of a subject. In order: the
/// subject's directory is listed and the number allocated; the directory is
/// created; the latest download is imported; the document is made; the
/// viewers are started. A failure of the program ends the operation with its
/// error, but for a rename, which is followed by copying and deleting.
pub open spec fn create_step(settings: SettingsView, from: ProgressView, event: Event) -> StepView {
    match (from.phase, event) {
        (Phase::Start, Event::Begin) => Ok(
            (ProgressView { phase: Phase::Listing, ..from }, ActionView::ListSubject),
        ),
        (Phase::Listing, Event::Names(entries)) => allocate_step(
            settings,
            from,
            entries.deep_view(),
        ),
        (Phase::Directory, Event::Done) => questions_step(settings, from),
        (Phase::Downloads, Event::Downloads(downloads)) => import_step(settings, from, downloads@),
        (Phase::Rename, Event::Done) => document_step(settings, from),
        (Phase::Rename, Event::Failed(_)) => move_step(from),
        (Phase::Copy, Event::Done) => move_step(from),
        (Phase::Remove, Event::Done) => document_step(settings, from),
        (Phase::TemplateText, Event::Text(data)) => rewrite_step(settings, from, data@),
        (Phase::Document, Event::Done) => after_document(settings, from),
        (Phase::QuestionsPath, _) => open_step(settings, from, event, false),
        (Phase::QuestionsViewer, _) => open_step(settings, from, event, false),
        (Phase::DocumentPath, _) => open_step(settings, from, event, false),
        (Phase::DocumentViewer, _) => open_step(settings, from, event, false),
        (Phase::Start, _) => Err(ErrorKind::Unexpected),
        (Phase::Finished, _) => Err(ErrorKind::Unexpected),
        (_, Event::Failed(e)) => Err(e.kind),
        _ => Err(ErrorKind::Unexpected),
    }
}

/// The latest assignment is found, and its files are opened.
pub open spec fn latest_step(
    settings: SettingsView,
    from: ProgressView,
    entries: Seq<Seq<char>>,
) -> StepView {
    match last_hw_num(settings, entries) {
        None => Err(ErrorKind::Format),
        Some(num) => match settings.hw_dir(num) {
            None => Err(ErrorKind::Format),
            Some(dir) => questions_viewer_step(settings, ProgressView { num, dir, ..from }, true),
        },
    }
}

/// A step of opening the latest assignment of a subject: the subject's
/// directory is listed, then the viewers are started on the files of the
/// latest assignment that are there.
pub open spec fn open_last_step(settings: SettingsView, from: ProgressView, event: Event) -> StepView {
    match (from.phase, event) {
        (Phase::Start, Event::Begin) => Ok(
            (ProgressView { phase: Phase::Listing, ..from }, ActionView::ListSubject),
        ),
        (Phase::Listing, Event::Names(entries)) => latest_step(settings, from, entries.deep_view()),
        (Phase::Listing, Event::Failed(e)) => Err(e.kind),
        (Phase::QuestionsPath, _) => open_step(settings, from, event, true),
        (Phase::QuestionsViewer, _) => open_step(settings, from, event, true),
        (Phase::DocumentPath, _) => open_step(settings, from, event, true),
        (Phase::DocumentViewer, _) => open_step(settings, from, event, true),
        _ => Err(ErrorKind::Unexpected),
    }
}

fn unexpected() -> (e: HwError)
    ensures
        e.kind == ErrorKind::Unexpected,
{
    HwError::with_text(ErrorKind::Unexpected, "an answer came that was not asked for")
}

/// Asks for the viewer `open_settings` to be started on the file at `path`,
/// and lets the operation wait in `next`.
pub fn open_from_settings<T: Formattable>(
    open_settings: &OpenSettings<T>,
    progress: Progress,
    path: &str,
    next: Phase,
) -> (r: Result<(Progress, Action), HwError>)
    ensures
        step_view(r) == spawn_step(open_settings@, T::placeholder(), progress@, path@, next),
{
    let args = match open_settings.args(path) {
        Ok(args) => args,
        Err(e) => {
            return Err(e);
        },
    };
    let binary = open_settings.binary().to_owned();
    Ok((Progress { phase: next, ..progress }, Action::Spawn { binary, args }))
}

/// Begins opening the document of the assignment in `progress`.
pub fn open_lyx_file(settings: &Settings, progress: Progress, must_exist: bool) -> (r: Result<
    (Progress, Action),
    HwError,
>)
    ensures
        step_view(r) == document_viewer_step(settings@, progress@, must_exist),
{
    let lyx_file_settings = match settings.lyx_file_settings() {
        Some(lyx_file_settings) => lyx_file_settings,
        None => {
            return Ok((Progress { phase: Phase::Finished, ..progress }, Action::Finish));
        },
    };
    if lyx_file_settings.open_settings().is_none() {
        return Ok((Progress { phase: Phase::Finished, ..progress }, Action::Finish));
    }
    let name = match lyx_file_settings.lyx_filename(progress.num) {
        Ok(name) => name,
        Err(e) => {
            return Err(e);
        },
    };
    let action = Action::Locate { dir: progress.dir.clone(), name: name.clone(), must_exist };
    Ok((Progress { phase: Phase::DocumentPath, name, ..progress }, action))
}

/// Begins opening the questions file of the assignment in `progress`, or
/// the document where no viewer is configured for the questions file.
pub fn open_questions_file(settings: &Settings, progress: Progress, must_exist: bool) -> (r:
    Result<(Progress, Action), HwError>)
    ensures
        step_view(r) == questions_viewer_step(settings@, progress@, must_exist),
{
    let questions_file_settings = match settings.questions_file_settings() {
        Some(questions_file_settings) => questions_file_settings,
        None => {
            return open_lyx_file(settings, progress, must_exist);
        },
    };
    if questions_file_settings.open_settings().is_none() {
        return open_lyx_file(settings, progress, must_exist);
    }
    let name = match questions_file_settings.questions_filename(progress.num) {
        Ok(name) => name,
        Err(e) => {
            return Err(e);
        },
    };
    let action = Action::Locate { dir: progress.dir.clone(), name: name.clone(), must_exist };
    Ok((Progress { phase: Phase::QuestionsPath, name, ..progress }, action))
}

fn questions_viewer(settings: &Settings) -> (r: Option<&OpenSettings<QuestionsFile>>)
    ensures
        match r {
            Some(open) => settings@.questions_file is Some && settings@.questions_file->Some_0.open
                == Some(open@),
            None => !(settings@.questions_file is Some && settings@.questions_file->Some_0.open
                is Some),
        },
{
    match settings.questions_file_settings() {
        Some(questions_file_settings) => questions_file_settings.open_settings(),
        None => None,
    }
}

fn lyx_viewer(settings: &Settings) -> (r: Option<&OpenSettings<LyxFile>>)
    ensures
        match r {
            Some(open) => settings@.lyx_file is Some && settings@.lyx_file->Some_0.open == Some(
                open@,
            ),
            None => !(settings@.lyx_file is Some && settings@.lyx_file->Some_0.open is Some),
        },
{
    match settings.lyx_file_settings() {
        Some(lyx_file_settings) => lyx_file_settings.open_settings(),
        None => None,
    }
}

/// Takes the opening of an assignment's files one step further.
pub fn open_hw_dir(settings: &Settings, progress: Progress, event: Event, must_exist: bool) -> (r:
    Result<(Progress, Action), HwError>)
    ensures
        step_view(r) == open_step(settings@, progress@, event, must_exist),
        is_open_phase(progress.phase) ==> (event matches Event::Failed(e) ==> r == Err::<
            (Progress, Action),
            HwError,
        >(e)),
{
    match (progress.phase, event) {
        (Phase::QuestionsPath, Event::Path(Some(path))) => match questions_viewer(settings) {
            Some(open_settings) => open_from_settings(
                open_settings,
                progress,
                path.as_str(),
                Phase::QuestionsViewer,
            ),
            None => Err(unexpected()),
        },
        (Phase::QuestionsPath, Event::Path(None)) => open_lyx_file(settings, progress, must_exist),
        (Phase::QuestionsViewer, Event::Done) => open_lyx_file(settings, progress, must_exist),
        (Phase::DocumentPath, Event::Path(Some(path))) => match lyx_viewer(settings) {
            Some(open_settings) => open_from_settings(
                open_settings,
                progress,
                path.as_str(),
                Phase::DocumentViewer,
            ),
            None => Err(unexpected()),
        },
        (Phase::DocumentPath, Event::Path(None)) => Ok(
            (Progress { phase: Phase::Finished, ..progress }, Action::Finish),
        ),
        (Phase::DocumentViewer, Event::Done) => Ok(
            (Progress { phase: Phase::Finished, ..progress }, Action::Finish),
        ),
        (Phase::QuestionsPath, Event::Failed(e)) => Err(e),
        (Phase::QuestionsViewer, Event::Failed(e)) => Err(e),
        (Phase::DocumentPath, Event::Failed(e)) => Err(e),
        (Phase::DocumentViewer, Event::Failed(e)) => Err(e),
        _ => Err(unexpected()),
    }
}

fn after_creation(settings: &Settings, progress: Progress) -> (r: Result<
    (Progress, Action),
    HwError,
>)
    ensures
        step_view(r) == after_document(settings@, progress@),
{
    if settings.open_after_creation() {
        open_questions_file(settings, progress, false)
    } else {
        Ok((Progress { phase: Phase::Finished, ..progress }, Action::Finish))
    }
}

/// Begins making the document of the assignment in `progress`: decides
/// between an empty file, a copy of the template and a rewritten template.
pub fn create_lyx_file(settings: &Settings, progress: Progress) -> (r: Result<
    (Progress, Action),
    HwError,
>)
    ensures
        step_view(r) == document_step(settings@, progress@),
{
    let lyx_file_settings = match settings.lyx_file_settings() {
        Some(lyx_file_settings) => lyx_file_settings,
        None => {
            return after_creation(settings, progress);
        },
    };
    let name = match lyx_file_settings.lyx_filename(progress.num) {
        Ok(name) => name,
        Err(e) => {
            return Err(e);
        },
    };
    let dir = progress.dir.clone();
    match lyx_file_settings.lyx_template_file() {
        Some(lyx_template) => {
            if lyx_file_settings.replacements().len() == 0 {
                let action = Action::Copy {
                    source: lyx_template.to_owned(),
                    dir,
                    name: name.clone(),
                };
                Ok((Progress { phase: Phase::Document, name, ..progress }, action))
            } else {
                let action = Action::ReadText { template: lyx_template.to_owned() };
                Ok((Progress { phase: Phase::TemplateText, name, ..progress }, action))
            }
        },
        None => {
            let action = Action::CreateFile { dir, name: name.clone() };
            Ok((Progress { phase: Phase::Document, name, ..progress }, action))
        },
    }
}

/// Writes the document of the assignment in `progress` from the template's
/// text `data`, with the replacements made.
pub fn rewrite_lyx_file(settings: &Settings, progress: Progress, data: String) -> (r: Result<
    (Progress, Action),
    HwError,
>)
    ensures
        step_view(r) == rewrite_step(settings@, progress@, data@),
{
    let lyx_file_settings = match settings.lyx_file_settings() {
        Some(lyx_file_settings) => lyx_file_settings,
        None => {
            return Err(unexpected());
        },
    };
    let text = match apply_replacements(
        lyx_file_settings.replacements(),
        progress.num,
        settings.hebrew_name(),
        data,
    ) {
        Ok(text) => text,
        Err(e) => {
            return Err(e);
        },
    };
    let action = Action::WriteText { dir: progress.dir.clone(), name: progress.name.clone(), text };
    Ok((Progress { phase: Phase::Document, ..progress }, action))
}

/// Begins importing the questions file of the assignment in `progress`.
pub fn create_questions_file(settings: &Settings, progress: Progress) -> (r: Result<
    (Progress, Action),
    HwError,
>)
    ensures
        step_view(r) == questions_step(settings@, progress@),
{
    let questions_file_settings = match settings.questions_file_settings() {
        Some(questions_file_settings) => questions_file_settings,
        None => {
            return create_lyx_file(settings, progress);
        },
    };
    let action = Action::ListDownloads {
        downloads: questions_file_settings.downloads_dir().to_owned(),
    };
    Ok((Progress { phase: Phase::Downloads, ..progress }, action))
}

/// Chooses the download to import among `downloads` and asks for it to be
/// renamed into the assignment in `progress`.
pub fn import_questions_file(
    settings: &Settings,
    progress: Progress,
    downloads: &Vec<DownloadEntry>,
) -> (r: Result<(Progress, Action), HwError>)
    ensures
        step_view(r) == import_step(settings@, progress@, downloads@),
{
    let questions_file_settings = match settings.questions_file_settings() {
        Some(questions_file_settings) => questions_file_settings,
        None => {
            return Err(unexpected());
        },
    };
    let index = match get_most_recent_download(downloads) {
        Ok(index) => index,
        Err(e) => {
            return Err(e);
        },
    };
    let name = match questions_file_settings.questions_filename(progress.num) {
        Ok(name) => name,
        Err(e) => {
            return Err(e);
        },
    };
    let source = downloads[index].path.clone();
    let action = Action::Rename {
        source: source.clone(),
        dir: progress.dir.clone(),
        name: name.clone(),
    };
    Ok((Progress { phase: Phase::Rename, name, source, ..progress }, action))
}

/// Moves the download without renaming it: after a rename that failed it is
/// copied, after the copy it is deleted.
pub fn move_file(progress: Progress) -> (r: Result<(Progress, Action), HwError>)
    ensures
        step_view(r) == move_step(progress@),
{
    match progress.phase {
        Phase::Rename => {
            let action = Action::Copy {
                source: progress.source.clone(),
                dir: progress.dir.clone(),
                name: progress.name.clone(),
            };
            Ok((Progress { phase: Phase::Copy, ..progress }, action))
        },
        Phase::Copy => {
            let action = Action::Remove { source: progress.source.clone() };
            Ok((Progress { phase: Phase::Remove, ..progress }, action))
        },
        _ => Err(unexpected()),
    }
}

/// Gives the next assignment its number and asks for its directory.
pub fn allocate_hw_dir(settings: &Settings, progress: Progress, entries: &Vec<String>) -> (r:
    Result<(Progress, Action), HwError>)
    ensures
        step_view(r) == allocate_step(settings@, progress@, entries.deep_view()),
{
    match create_hw_dir(settings, entries) {
        Ok((num, dir)) => {
            let action = Action::CreateDir { dir: dir.clone() };
            Ok((Progress { phase: Phase::Directory, num, dir, ..progress }, action))
        },
        Err(e) => Err(e),
    }
}

/// Whether a failure at this point leaves the assignment's directory
/// behind: the directory was created, and it is importing the questions
/// file or making the document that fails.
pub open spec fn leaves_directory(settings: SettingsView, phase: Phase, event: Event) -> bool {
    match (phase, event) {
        (Phase::Directory, Event::Done) => settings.lyx_file is Some,
        (Phase::Rename, Event::Done) => settings.lyx_file is Some,
        (Phase::Remove, Event::Done) => settings.lyx_file is Some,
        (Phase::Downloads, Event::Downloads(_)) => true,
        (Phase::TemplateText, Event::Text(_)) => true,
        (Phase::Downloads, Event::Failed(_)) => true,
        (Phase::Copy, Event::Failed(_)) => true,
        (Phase::Remove, Event::Failed(_)) => true,
        (Phase::TemplateText, Event::Failed(_)) => true,
        (Phase::Document, Event::Failed(_)) => true,
        _ => false,
    }
}

/// What is added to the message of a failure that leaves the directory `dir`
/// behind.
pub open spec fn directory_note(dir: Seq<char>) -> Seq<char> {
    "; the directory "@ + dir + " was created and remains in place"@
}

/// The message of a failure in creating an assignment: that of the error,
/// with the note where the directory stays behind. A misuse of the library
/// gets no note.
pub open spec fn failure_message(
    settings: SettingsView,
    from: ProgressView,
    event: Event,
    kind: ErrorKind,
    message: Seq<char>,
) -> Seq<char> {
    if leaves_directory(settings, from.phase, event) && kind != ErrorKind::Unexpected {
        message + directory_note(from.dir)
    } else {
        message
    }
}

fn leaves_dir(settings: &Settings, phase: Phase, event: &Event) -> (r: bool)
    ensures
        r == leaves_directory(settings@, phase, *event),
{
    match (phase, event) {
        (Phase::Directory, Event::Done) => settings.lyx_file_settings().is_some(),
        (Phase::Rename, Event::Done) => settings.lyx_file_settings().is_some(),
        (Phase::Remove, Event::Done) => settings.lyx_file_settings().is_some(),
        (Phase::Downloads, Event::Downloads(_)) => true,
        (Phase::TemplateText, Event::Text(_)) => true,
        (Phase::Downloads, Event::Failed(_)) => true,
        (Phase::Copy, Event::Failed(_)) => true,
        (Phase::Remove, Event::Failed(_)) => true,
        (Phase::TemplateText, Event::Failed(_)) => true,
        (Phase::Document, Event::Failed(_)) => true,
        _ => false,
    }
}

fn with_directory_note(e: HwError, dir: &str) -> (r: HwError)
    ensures
        r.kind == e.kind,
        r.message@ == e.message@ + directory_note(dir@),
{
    let mut message = e.message;
    let ghost before = message@;
    message.append("; the directory ");
    message.append(dir);
    message.append(" was created and remains in place");
    proof {
        assert(message@ =~= before + directory_note(dir@));
    }
    HwError { kind: e.kind, message }
}

fn create_step_of(settings: &Settings, progress: Progress, event: Event) -> (r: Result<
    (Progress, Action),
    HwError,
>)
    ensures
        step_view(r) == create_step(settings@, progress@, event),
        progress.phase != Phase::Start && progress.phase != Phase::Finished && progress.phase
            != Phase::Rename ==> (event matches Event::Failed(e) ==> r == Err::<
            (Progress, Action),
            HwError,
        >(e)),
{
    match (progress.phase, event) {
        (Phase::Start, Event::Begin) => Ok(
            (Progress { phase: Phase::Listing, ..progress }, Action::ListSubject),
        ),
        (Phase::Listing, Event::Names(entries)) => allocate_hw_dir(settings, progress, &entries),
        (Phase::Directory, Event::Done) => create_questions_file(settings, progress),
        (Phase::Downloads, Event::Downloads(downloads)) => import_questions_file(
            settings,
            progress,
            &downloads,
        ),
        (Phase::Rename, Event::Done) => create_lyx_file(settings, progress),
        (Phase::Rename, Event::Failed(_)) => move_file(progress),
        (Phase::Copy, Event::Done) => move_file(progress),
        (Phase::Remove, Event::Done) => create_lyx_file(settings, progress),
        (Phase::TemplateText, Event::Text(data)) => rewrite_lyx_file(settings, progress, data),
        (Phase::Document, Event::Done) => after_creation(settings, progress),
        (Phase::QuestionsPath, event) => open_hw_dir(settings, progress, event, false),
        (Phase::QuestionsViewer, event) => open_hw_dir(settings, progress, event, false),
        (Phase::DocumentPath, event) => open_hw_dir(settings, progress, event, false),
        (Phase::DocumentViewer, event) => open_hw_dir(settings, progress, event, false),
        (Phase::Start, _) => Err(unexpected()),
        (Phase::Finished, _) => Err(unexpected()),
        (_, Event::Failed(e)) => Err(e),
        _ => Err(unexpected()),
    }
}

/// Takes the creation of a subject's next assignment one step further:
/// given where the operation stands and what the program answered, the new
/// state and what to do next, or the error that ends the operation.
///
/// The operation begins with `Progress::new()` and `Event::Begin`, and is
/// over when the action is `Finish`: only then was an assignment created.
/// An error that the program reports with `Failed` ends the operation, but
/// for a rename, which is followed by copying and deleting. Nothing is
/// undone: where importing the questions file or making the document fails,
/// the assignment's directory stays, and the error's message says so.
pub fn create_new_hw_dir(settings: &Settings, progress: Progress, event: Event) -> (r: Result<
    (Progress, Action),
    HwError,
>)
    ensures
        step_view(r) == create_step(settings@, progress@, event),
        r matches Err(e) ==> (leaves_directory(settings@, progress.phase, event) && e.kind
            != ErrorKind::Unexpected ==> exists|message: Seq<char>|
            e.message@ == message + directory_note(progress.dir@)),
        progress.phase != Phase::Start && progress.phase != Phase::Finished && progress.phase
            != Phase::Rename ==> (event matches Event::Failed(e) ==> r is Err && r->Err_0.kind
            == e.kind && r->Err_0.message@ == failure_message(
            settings@,
            progress@,
            event,
            e.kind,
            e.message@,
        )),
{
    let noted = leaves_dir(settings, progress.phase, &event);
    let dir = if noted {
        progress.dir.clone()
    } else {
        String::new()
    };
    match create_step_of(settings, progress, event) {
        Ok(step) => Ok(step),
        Err(e) => {
            if noted && e.kind != ErrorKind::Unexpected {
                Err(with_directory_note(e, dir.as_str()))
            } else {
                Err(e)
            }
        },
    }
}

/// Finds the latest assignment among `entries` and begins opening its files.
pub fn open_latest(settings: &Settings, progress: Progress, entries: &Vec<String>) -> (r: Result<
    (Progress, Action),
    HwError,
>)
    ensures
        step_view(r) == latest_step(settings@, progress@, entries.deep_view()),
{
    let num = match get_last_hw_num(settings, entries) {
        Ok(num) => num,
        Err(e) => {
            return Err(e);
        },
    };
    let dir = match settings.hw_dir(num) {
        Ok(dir) => dir,
        Err(e) => {
            return Err(e);
        },
    };
    open_questions_file(settings, Progress { num, dir, ..progress }, true)
}

/// Takes the opening of a subject's latest assignment one step further:
/// given where the operation stands and what the program answered, the new
/// state and what to do next, or the error that ends the operation.
///
/// The operation begins with `Progress::new()` and `Event::Begin`, and is
/// over when the action is `Finish`. A file that is configured but not
/// there is passed over.
pub fn open_last_hw_dir(settings: &Settings, progress: Progress, event: Event) -> (r: Result<
    (Progress, Action),
    HwError,
>)
    ensures
        step_view(r) == open_last_step(settings@, progress@, event),
        progress.phase == Phase::Listing || is_open_phase(progress.phase) ==> (
        event matches Event::Failed(e) ==> r == Err::<(Progress, Action), HwError>(e)),
{
    match (progress.phase, event) {
        (Phase::Start, Event::Begin) => Ok(
            (Progress { phase: Phase::Listing, ..progress }, Action::ListSubject),
        ),
        (Phase::Listing, Event::Names(entries)) => open_latest(settings, progress, &entries),
        (Phase::Listing, Event::Failed(e)) => Err(e),
        (Phase::QuestionsPath, event) => open_hw_dir(settings, progress, event, true),
        (Phase::QuestionsViewer, event) => open_hw_dir(settings, progress, event, true),
        (Phase::DocumentPath, event) => open_hw_dir(settings, progress, event, true),
        (Phase::DocumentViewer, event) => open_hw_dir(settings, progress, event, true),
        _ => Err(unexpected()),
    }
}

} // verus!
