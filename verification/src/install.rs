//! The decisions of an installation: which entries of an archive are
//! extracted, in what order, and what is reported before each.

use vstd::prelude::*;
use vstd::string::*;

use crate::progress::UpdateProgress;

verus! {

/// The name under which an archive is reported when its path has no file
/// name that could be shown.
pub const UNNAMED_ARCHIVE: &'static str = "unknown";

/// One entry of an archive as the installer sees it. `enclosed_path` is the
/// stored path where it resolves to a place inside the extraction root, and
/// `None` where it would leave the root.
#[derive(Debug)]
pub struct ArchiveEntry {
    pub enclosed_path: Option<String>,
    pub is_dir: bool,
}

/// The mathematical value of an archive entry.
pub struct ArchiveEntryView {
    pub enclosed_path: Option<Seq<char>>,
    pub is_dir: bool,
}

impl View for ArchiveEntry {
    type V = ArchiveEntryView;

    open spec fn view(&self) -> ArchiveEntryView {
        ArchiveEntryView {
            enclosed_path: match self.enclosed_path {
                Some(path) => Some(path@),
                None => None,
            },
            is_dir: self.is_dir,
        }
    }
}

/// The values of a list of entries, in order.
pub open spec fn entry_views(entries: Seq<ArchiveEntry>) -> Seq<ArchiveEntryView> {
    entries.map_values(|e: ArchiveEntry| e@)
}

/// One step of an extraction: report `current` of `total` for `archive`,
/// then create the directory `path`, or create its missing parents and write
/// the content of the entry into the file `path`, replacing what was there.
/// `entry` is the position of the entry in the archive, from 0.
#[derive(Debug)]
pub struct ExtractStep {
    pub entry: usize,
    pub path: String,
    pub is_dir: bool,
    pub current: usize,
    pub total: usize,
    pub archive: String,
}

/// The mathematical value of an extraction step.
pub struct ExtractStepView {
    pub entry: int,
    pub path: Seq<char>,
    pub is_dir: bool,
    pub current: int,
    pub total: int,
    pub archive: Seq<char>,
}

impl View for ExtractStep {
    type V = ExtractStepView;

    open spec fn view(&self) -> ExtractStepView {
        ExtractStepView {
            entry: self.entry as int,
            path: self.path@,
            is_dir: self.is_dir,
            current: self.current as int,
            total: self.total as int,
            archive: self.archive@,
        }
    }
}

impl ExtractStep {
    /// The event to report before the step is carried out.
    pub fn progress(&self) -> (event: UpdateProgress)
        ensures
            event matches UpdateProgress::Extracting { current, total, version } && current
                == self.current && total == self.total && version@ == self.archive@,
    {
        UpdateProgress::Extracting {
            current: self.current,
            total: self.total,
            version: self.archive.clone(),
        }
    }
}

/// The values of a list of steps, in order.
pub open spec fn step_views(steps: Seq<ExtractStep>) -> Seq<ExtractStepView> {
    steps.map_values(|s: ExtractStep| s@)
}

/// The step for an entry, given its position in the archive, the number of
/// entries of the archive and the name of the archive. An entry whose path
/// would leave the extraction root has no step. The report counts the
/// entries from 1.
pub open spec fn step_of(entry: ArchiveEntryView, index: int, total: int, archive: Seq<char>)
    -> Option<ExtractStepView> {
    match entry.enclosed_path {
        Some(path) => Some(
            ExtractStepView {
                entry: index,
                path,
                is_dir: entry.is_dir,
                current: index + 1,
                total,
                archive,
            },
        ),
        None => None,
    }
}

/// The step for the entry at position `i` of an archive, if it has one.
pub open spec fn step_for(entries: Seq<ArchiveEntryView>, archive: Seq<char>, i: int) -> Option<
    ExtractStepView,
> {
    step_of(entries[i], i, entries.len() as int, archive)
}

/// The steps that extract the first `upto` entries of an archive: one for
/// each honored entry, in archive order.
pub open spec fn plan_upto(entries: Seq<ArchiveEntryView>, archive: Seq<char>, upto: int) -> Seq<
    ExtractStepView,
> {
    Seq::new(upto as nat, |i: int| i).filter_map(|i: int| step_for(entries, archive, i))
}

/// The steps that extract an archive.
pub open spec fn extraction_plan(entries: Seq<ArchiveEntryView>, archive: Seq<char>) -> Seq<
    ExtractStepView,
> {
    plan_upto(entries, archive, entries.len() as int)
}

/// The plan for one entry more is the plan so far, with the step for that
/// entry behind it if the entry is honored.
pub(crate) proof fn lemma_plan_step(entries: Seq<ArchiveEntryView>, archive: Seq<char>, upto: int)
    requires
        0 <= upto < entries.len(),
    ensures
        plan_upto(entries, archive, upto + 1) == (match step_for(entries, archive, upto) {
            Some(step) => plan_upto(entries, archive, upto).push(step),
            None => plan_upto(entries, archive, upto),
        }),
{
    let more = Seq::new((upto + 1) as nat, |i: int| i);
    let fewer = Seq::new(upto as nat, |i: int| i);
    assert(more.drop_last() =~= fewer);
    assert(more.last() == upto);
    match step_for(entries, archive, upto) {
        Some(step) => {
            assert(plan_upto(entries, archive, upto) + seq![step] =~= plan_upto(
                entries,
                archive,
                upto,
            ).push(step));
        },
        None => {},
    }
}

/// One extraction on its way through an archive: the name under which the
/// archive is reported, the number of its entries, and how many of them were
/// looked at. It hands out the steps of the plan one by one, so that each
/// entry can be read and written before the next is looked at.
pub struct Extraction {
    archive: String,
    total: usize,
    position: usize,
}

impl Extraction {
    /// The name under which the archive is reported.
    pub closed spec fn archive(&self) -> Seq<char> {
        self.archive@
    }

    /// The number of entries of the archive.
    pub closed spec fn total(&self) -> int {
        self.total as int
    }

    /// The number of entries looked at so far, which is the position of
    /// the next entry.
    pub closed spec fn position(&self) -> int {
        self.position as int
    }

    /// The invariant of the type: no more entries are looked at than the
    /// archive has.
    pub open spec fn wf(&self) -> bool {
        0 <= self.position() <= self.total()
    }

    /// Starts at the first entry of an archive of `total` entries.
    pub fn new(archive: &str, total: usize) -> (extraction: Extraction)
        ensures
            extraction.wf(),
            extraction.archive() == archive@,
            extraction.total() == total,
            extraction.position() == 0,
    {
        Extraction { archive: archive.to_owned(), total, position: 0 }
    }

    /// Whether every entry was looked at.
    pub fn is_finished(&self) -> (finished: bool)
        requires
            self.wf(),
        ensures
            finished == (self.position() == self.total()),
    {
        self.position >= self.total
    }

    /// Looks at the next entry of the archive and decides what to do with
    /// it: the step that extracts it, or nothing if its path would leave the
    /// extraction root.
    pub fn step(&mut self, entry: &ArchiveEntry) -> (step: Option<ExtractStep>)
        requires
            old(self).wf(),
            old(self).position() < old(self).total(),
        ensures
            final(self).wf(),
            final(self).archive() == old(self).archive(),
            final(self).total() == old(self).total(),
            final(self).position() == old(self).position() + 1,
            match step_of(entry@, old(self).position(), old(self).total(), old(self).archive()) {
                Some(value) => step matches Some(s) && s@ == value,
                None => step is None,
            },
    {
        let index = self.position;
        self.position = index + 1;
        match &entry.enclosed_path {
            Some(path) => Some(
                ExtractStep {
                    entry: index,
                    path: path.clone(),
                    is_dir: entry.is_dir,
                    current: index + 1,
                    total: self.total,
                    archive: self.archive.clone(),
                },
            ),
            None => None,
        }
    }
}

/// The plan of an archive is what an `Extraction` hands out entry by
/// entry: the steps of the entries, each decided from the entry, its
/// position and the number of entries, without those that have none.
pub proof fn lemma_plan_is_made_entry_by_entry(entries: Seq<ArchiveEntryView>, archive: Seq<char>)
    ensures
        extraction_plan(entries, archive) == Seq::new(entries.len(), |i: int| i).filter_map(
            |i: int| step_of(entries[i], i, entries.len() as int, archive),
        ),
{
    let one = |i: int| step_for(entries, archive, i);
    let other = |i: int| step_of(entries[i], i, entries.len() as int, archive);
    assert(one =~= other);
}

/// Path safety of a plan: every step belongs to an entry whose path stays
/// inside the extraction root and writes to that path, and an entry whose
/// path would leave the root has no step.
pub proof fn lemma_plan_stays_inside_root(entries: Seq<ArchiveEntryView>, archive: Seq<char>)
    ensures
        forall|step: ExtractStepView| #[trigger]
            extraction_plan(entries, archive).contains(step) ==> 0 <= step.entry < entries.len()
                && entries[step.entry].enclosed_path == Some(step.path),
        forall|i: int, step: ExtractStepView|
            0 <= i < entries.len() && (#[trigger] entries[i]).enclosed_path is None
                && #[trigger] extraction_plan(entries, archive).contains(step) ==> step.entry
                != i,
{
    let indices = Seq::new(entries.len(), |i: int| i);
    let f = |i: int| step_for(entries, archive, i);
    assert forall|step: ExtractStepView| #[trigger]
        extraction_plan(entries, archive).contains(step) implies 0 <= step.entry < entries.len()
        && entries[step.entry].enclosed_path == Some(step.path) by {
        indices.lemma_filter_map_contains(f, step);
        let i = choose|i: int| #[trigger] indices.contains(i) && f(i) == Some(step);
        assert(indices.contains(i));
    }
}

/// The steps for the first `upto` entries belong to those entries and stand
/// in the order of the archive.
proof fn lemma_plan_order_upto(entries: Seq<ArchiveEntryView>, archive: Seq<char>, upto: int)
    requires
        0 <= upto <= entries.len(),
    ensures
        forall|k: int|
            0 <= k < plan_upto(entries, archive, upto).len() ==> 0 <= (#[trigger] plan_upto(
                entries,
                archive,
                upto,
            )[k]).entry < upto,
        forall|a: int, b: int|
            0 <= a < b < plan_upto(entries, archive, upto).len() ==> (#[trigger] plan_upto(
                entries,
                archive,
                upto,
            )[a]).entry < (#[trigger] plan_upto(entries, archive, upto)[b]).entry,
    decreases upto,
{
    if upto > 0 {
        lemma_plan_order_upto(entries, archive, upto - 1);
        lemma_plan_step(entries, archive, upto - 1);
    } else {
        assert(Seq::new(0nat, |i: int| i) =~= Seq::<int>::empty());
    }
}

/// Archive order of a plan: the steps stand in the order in which their
/// entries stand in the archive, and no entry has two steps.
pub proof fn lemma_plan_follows_archive_order(entries: Seq<ArchiveEntryView>, archive: Seq<char>)
    ensures
        forall|a: int, b: int|
            0 <= a < b < extraction_plan(entries, archive).len() ==> (#[trigger] extraction_plan(
                entries,
                archive,
            )[a]).entry < (#[trigger] extraction_plan(entries, archive)[b]).entry,
{
    lemma_plan_order_upto(entries, archive, entries.len() as int);
}

} // verus!
