//! The patch catalog: what a server advertises, one patch reference per line.
//! Reading it yields the patches of the lines that name a patch file,
//! ordered by version.

use vstd::prelude::*;
use vstd::string::*;

use crate::error::{ErrorView, UpdaterError};
use crate::text::{
    chars_of, final_segment, final_segment_bounds, first_newline, lines, trim, trim_bounds,
    version_field, version_field_bounds,
};
use crate::version::{semver_parse, Version, VersionView};

verus! {

/// The mathematical value of a catalog entry.
pub struct PatchInfoView {
    pub version: VersionView,
    pub download_url: Seq<char>,
}

/// One patch of the catalog: its version and where to download it from.
#[derive(Debug)]
pub struct PatchInfo {
    pub version: Version,
    pub download_url: String,
}

impl View for PatchInfo {
    type V = PatchInfoView;

    open spec fn view(&self) -> PatchInfoView {
        PatchInfoView { version: self.version@, download_url: self.download_url@ }
    }
}

impl Clone for PatchInfo {
    fn clone(&self) -> (copy: Self)
        ensures
            copy == *self,
    {
        PatchInfo { version: self.version.clone(), download_url: self.download_url.clone() }
    }
}

impl PatchInfo {
    /// The invariant of the type: that of its version.
    pub open spec fn wf(&self) -> bool {
        self.version.wf()
    }
}

/// The values of a list of patches, in order.
pub open spec fn patch_views(patches: Seq<PatchInfo>) -> Seq<PatchInfoView> {
    patches.map_values(|p: PatchInfo| p@)
}

/// Every patch of the list satisfies the invariant of its type.
pub open spec fn all_wf(patches: Seq<PatchInfo>) -> bool {
    forall|i: int| 0 <= i < patches.len() ==> (#[trigger] patches[i]).wf()
}

/// Ascending by version: no patch is followed by one of a lesser version.
pub open spec fn sorted_by_version(patches: Seq<PatchInfoView>) -> bool {
    forall|i: int, j: int|
        0 <= i < j < patches.len() ==> (#[trigger] patches[i]).version.le(
            (#[trigger] patches[j]).version,
        )
}

/// What one line of a catalog contributes. The line is trimmed; a line that
/// is then empty or starts with `#` names nothing. Otherwise the line names a
/// patch if the final segment of its path is `patch-<version>.zip` with a
/// version that parses, and the patch is downloaded from the trimmed line.
pub open spec fn line_entry(raw: Seq<char>) -> Option<PatchInfoView> {
    let line = trim(raw);
    if line.len() == 0 || line[0] == '#' {
        None
    } else {
        match version_field(final_segment(line)) {
            Some(field) => match semver_parse(field) {
                Ok(version) => Some(PatchInfoView { version, download_url: line }),
                Err(_) => None,
            },
            None => None,
        }
    }
}

/// The patches that a list of lines names, in the order of the lines: one
/// for each line that names a patch, none for the others.
pub open spec fn entries_of(catalog_lines: Seq<Seq<char>>) -> Seq<PatchInfoView> {
    catalog_lines.filter_map(|raw: Seq<char>| line_entry(raw))
}

/// The patches that a catalog text names, in the order of its lines.
pub open spec fn catalog_entries(text: Seq<char>) -> Seq<PatchInfoView> {
    entries_of(lines(text))
}

/// The entries of a list of lines are those of its first line followed by
/// those of the others.
proof fn lemma_entries_of_cons(first: Seq<char>, others: Seq<Seq<char>>)
    ensures
        entries_of(seq![first] + others) == (match line_entry(first) {
            Some(entry) => seq![entry] + entries_of(others),
            None => entries_of(others),
        }),
    decreases others.len(),
{
    let f = |raw: Seq<char>| line_entry(raw);
    let all = seq![first] + others;
    if others.len() == 0 {
        assert(all =~= seq![first]);
        Seq::lemma_filter_map_singleton(first, f);
        assert(entries_of(others) =~= Seq::<PatchInfoView>::empty());
        match line_entry(first) {
            Some(entry) => {
                assert(seq![entry] + entries_of(others) =~= seq![entry]);
            },
            None => {},
        }
    } else {
        lemma_entries_of_cons(first, others.drop_last());
        assert(all.drop_last() =~= seq![first] + others.drop_last());
        assert(all.last() == others.last());
        let shorter = entries_of(others.drop_last());
        match (line_entry(first), line_entry(others.last())) {
            (Some(entry), Some(last)) => {
                assert((seq![entry] + shorter) + seq![last] =~= seq![entry] + (shorter + seq![
                    last,
                ]));
            },
            _ => {},
        }
    }
}

/// A text without line feed among its first `n` characters, which ends
/// there or has a line feed there, has its first line feed at `n`.
proof fn lemma_first_newline(text: Seq<char>, n: int)
    requires
        0 <= n <= text.len(),
        forall|i: int| 0 <= i < n ==> text[i] != '\n',
        n == text.len() || text[n] == '\n',
    ensures
        first_newline(text) == n,
    decreases n,
{
    if n > 0 {
        lemma_first_newline(text.drop_first(), n - 1);
    }
}

/// Reads the line `chars[start..end]` of `content`.
fn parse_line(content: &str, chars: &Vec<char>, start: usize, end: usize) -> (entry: Option<
    PatchInfo,
>)
    requires
        chars@ == content@,
        start <= end <= chars.len(),
    ensures
        match line_entry(chars@.subrange(start as int, end as int)) {
            Some(value) => entry matches Some(patch) && patch@ == value && patch.wf(),
            None => entry is None,
        },
{
    let (a, b) = trim_bounds(chars, start, end);
    if a == b || chars[a] == '#' {
        return None;
    }
    let (s, e) = final_segment_bounds(chars, a, b);
    match version_field_bounds(chars, s, e) {
        Some((from, to)) => {
            match Version::parse(content.substring_char(from, to)) {
                Ok(version) => {
                    let download_url = content.substring_char(a, b).to_owned();
                    Some(PatchInfo { version, download_url })
                },
                Err(_) => None,
            }
        },
        None => None,
    }
}

/// Puts `patch` into the sorted list `sorted`, at a place that keeps the
/// list sorted.
fn insert_by_version(sorted: &mut Vec<PatchInfo>, patch: PatchInfo)
    requires
        all_wf(old(sorted)@),
        patch.wf(),
        sorted_by_version(patch_views(old(sorted)@)),
    ensures
        all_wf(final(sorted)@),
        sorted_by_version(patch_views(final(sorted)@)),
        patch_views(final(sorted)@).to_multiset() == patch_views(old(sorted)@).to_multiset().insert(
            patch@,
        ),
        final(sorted)@.len() == old(sorted)@.len() + 1,
{
    let ghost before = sorted@;
    let mut k: usize = sorted.len();
    while k > 0
        invariant
            sorted@ == before,
            all_wf(before),
            patch.wf(),
            k <= sorted.len(),
            forall|j: int| k <= j < before.len() ==> patch@.version.order(before[j]@.version) < 0,
        ensures
            k <= sorted.len(),
            forall|j: int| k <= j < before.len() ==> patch@.version.order(before[j]@.version) < 0,
            k > 0 ==> before[k - 1]@.version.le(patch@.version) && (forall|c: VersionView|
                c.labels_valid() && #[trigger] c.order(before[k - 1]@.version) <= 0
                    ==> c.order(patch@.version) <= 0),
        decreases k,
    {
        let r = sorted[k - 1].version.compare(&patch.version);
        if r <= 0 {
            break;
        }
        k = k - 1;
    }
    sorted.insert(k, patch);
    proof {
        let old_views = patch_views(before);
        let new_views = patch_views(sorted@);
        assert(new_views =~= old_views.insert(k as int, patch@));
        assert forall|i: int, j: int| 0 <= i < j < new_views.len() implies (
        #[trigger] new_views[i]).version.le((#[trigger] new_views[j]).version) by {
            if j < k {
                assert(new_views[i] == old_views[i] && new_views[j] == old_views[j]);
            } else if j == k {
                assert(new_views[i] == old_views[i]);
                assert(before[i].wf());
                if i < k - 1 {
                    assert(old_views[i].version.le(old_views[k - 1].version));
                }
            } else if i < k {
                assert(new_views[i] == old_views[i] && new_views[j] == old_views[j - 1]);
            } else if i == k {
                assert(new_views[j] == old_views[j - 1]);
            } else {
                assert(new_views[i] == old_views[i - 1] && new_views[j] == old_views[j - 1]);
            }
        }
        lemma_insert_to_multiset(old_views, k as int, patch@);
        assert forall|i: int| 0 <= i < sorted@.len() implies (#[trigger] sorted@[i]).wf() by {
            if i < k {
                assert(sorted@[i] == before[i]);
            } else if i > k {
                assert(sorted@[i] == before[i - 1]);
            }
        }
    }
}

/// Inserting into a sequence adds one element to its multiset.
proof fn lemma_insert_to_multiset<A>(s: Seq<A>, k: int, a: A)
    requires
        0 <= k <= s.len(),
    ensures
        s.insert(k, a).to_multiset() == s.to_multiset().insert(a),
{
    broadcast use vstd::seq_lib::group_to_multiset_ensures;

    let t = s.insert(k, a);
    assert(t.remove(k) =~= s);
    assert(t[k] == a);
    assert(t.remove(k).to_multiset() =~= t.to_multiset().remove(t[k]));
    assert(t.to_multiset().count(a) > 0) by {
        assert(t.contains(a));
    }
    assert(t.to_multiset() =~= t.to_multiset().remove(a).insert(a));
}

/// Orders a list of patches by version, ascending. Every patch of the list
/// is kept, also where several have the same version.
pub fn sort_by_version(patches: Vec<PatchInfo>) -> (sorted: Vec<PatchInfo>)
    requires
        all_wf(patches@),
    ensures
        all_wf(sorted@),
        sorted_by_version(patch_views(sorted@)),
        patch_views(sorted@).to_multiset() == patch_views(patches@).to_multiset(),
        sorted.len() == patches.len(),
{
    let mut sorted: Vec<PatchInfo> = Vec::new();
    let n = patches.len();
    let mut i: usize = 0;
    proof {
        assert(patch_views(patches@).take(0) =~= patch_views(sorted@));
    }
    while i < n
        invariant
            n == patches.len(),
            i <= n,
            sorted.len() == i,
            all_wf(patches@),
            all_wf(sorted@),
            sorted_by_version(patch_views(sorted@)),
            patch_views(sorted@).to_multiset() == patch_views(patches@).take(i as int).to_multiset(),
        decreases n - i,
    {
        let patch = patches[i].clone();
        proof {
            broadcast use vstd::seq_lib::group_to_multiset_ensures;

            assert(patches@[i as int].wf());
            assert(patch_views(patches@).take(i + 1) =~= patch_views(patches@).take(i as int).push(
                patch@,
            ));
        }
        insert_by_version(&mut sorted, patch);
        i = i + 1;
    }
    proof {
        assert(patch_views(patches@).take(n as int) =~= patch_views(patches@));
    }
    sorted
}

/// Reads the patches that a catalog text names, in the order of its lines.
/// Lines that name no patch are passed over.
pub fn read_entries(content: &str) -> (entries: Vec<PatchInfo>)
    ensures
        all_wf(entries@),
        patch_views(entries@) == catalog_entries(content@),
{
    let chars = chars_of(content);
    let n = chars.len();
    let mut entries: Vec<PatchInfo> = Vec::new();
    let mut start: usize = 0;
    proof {
        assert(chars@.skip(0) =~= chars@);
        assert(patch_views(entries@) + catalog_entries(chars@) =~= catalog_entries(chars@));
    }
    loop
        invariant
            chars@ == content@,
            n == chars.len(),
            start <= n,
            all_wf(entries@),
            patch_views(entries@) + catalog_entries(chars@.skip(start as int)) == catalog_entries(
                chars@,
            ),
        decreases n - start,
    {
        let mut end: usize = start;
        while end < n && chars[end] != '\n'
            invariant
                start <= end <= n,
                n == chars.len(),
                forall|i: int| start <= i < end ==> chars@[i] != '\n',
            decreases n - end,
        {
            end = end + 1;
        }
        let entry = parse_line(content, &chars, start, end);
        let ghost found = patch_views(entries@);
        let ghost rest = chars@.skip(start as int);
        let ghost line = chars@.subrange(start as int, end as int);
        proof {
            lemma_first_newline(rest, end - start);
            assert(rest.take(end - start) =~= line);
            if end < n {
                assert(rest.skip(end - start + 1) =~= chars@.skip(end + 1));
                lemma_entries_of_cons(line, lines(chars@.skip(end + 1)));
            } else {
                assert(rest =~= line);
                assert(seq![line] + Seq::<Seq<char>>::empty() =~= seq![line]);
                lemma_entries_of_cons(line, Seq::<Seq<char>>::empty());
                assert(entries_of(Seq::<Seq<char>>::empty()) =~= Seq::<PatchInfoView>::empty());
            }
        }
        match entry {
            Some(patch) => {
                entries.push(patch);
                proof {
                    assert(patch_views(entries@) =~= found.push(patch@));
                    if end < n {
                        assert(found.push(patch@) + catalog_entries(chars@.skip(end + 1)) =~= found
                            + (seq![patch@] + catalog_entries(chars@.skip(end + 1))));
                    } else {
                        assert(found.push(patch@) =~= found + (seq![patch@] + Seq::<
                            PatchInfoView,
                        >::empty()));
                    }
                }
            },
            None => {
                proof {
                    if end == n {
                        assert(found + Seq::<PatchInfoView>::empty() =~= found);
                    }
                }
            },
        }
        if end == n {
            return entries;
        }
        start = end + 1;
    }
}

/// Reads a catalog: the patches that its lines name, ascending by version.
/// Fails with `NoUpdatesAvailable` exactly when no line names a patch.
pub fn parse_catalog(content: &str) -> (result: Result<Vec<PatchInfo>, UpdaterError>)
    ensures
        match result {
            Ok(patches) => {
                &&& patches.len() > 0
                &&& patches.len() == catalog_entries(content@).len()
                &&& all_wf(patches@)
                &&& sorted_by_version(patch_views(patches@))
                &&& patch_views(patches@).to_multiset() == catalog_entries(content@).to_multiset()
            },
            Err(error) => error@ == ErrorView::NoUpdatesAvailable && catalog_entries(
                content@,
            ).len() == 0,
        },
{
    let entries = read_entries(content);
    let sorted = sort_by_version(entries);
    if sorted.len() == 0 {
        Err(UpdaterError::NoUpdatesAvailable)
    } else {
        Ok(sorted)
    }
}

/// The test that picks the patches newer than the installed version.
pub open spec fn newer_than(installed: VersionView) -> spec_fn(PatchInfoView) -> bool {
    |patch: PatchInfoView| patch.version.gt(installed)
}

/// Keeping the patches that pass a test, one patch more.
proof fn lemma_filter_take(all: Seq<PatchInfoView>, test: spec_fn(PatchInfoView) -> bool, i: int)
    requires
        0 <= i < all.len(),
    ensures
        all.take(i + 1).filter(test) == (if test(all[i]) {
            all.take(i).filter(test).push(all[i])
        } else {
            all.take(i).filter(test)
        }),
{
    reveal(Seq::filter);
    assert(all.take(i + 1).drop_last() =~= all.take(i));
}

/// The applicable patches: those of the catalog whose version is strictly
/// greater than the installed one, ascending by version.
pub fn applicable_patches(installed: &Version, catalog: &Vec<PatchInfo>) -> (applicable: Vec<
    PatchInfo,
>)
    requires
        installed.wf(),
        all_wf(catalog@),
    ensures
        all_wf(applicable@),
        sorted_by_version(patch_views(applicable@)),
        patch_views(applicable@).to_multiset() == patch_views(catalog@).filter(
            newer_than(installed@),
        ).to_multiset(),
        applicable.len() == patch_views(catalog@).filter(newer_than(installed@)).len(),
        forall|i: int|
            0 <= i < applicable.len() ==> (#[trigger] patch_views(applicable@)[i]).version.gt(
                installed@,
            ),
{
    let ghost all = patch_views(catalog@);
    let ghost test = newer_than(installed@);
    let mut kept: Vec<PatchInfo> = Vec::new();
    let n = catalog.len();
    let mut i: usize = 0;
    proof {
        reveal(Seq::filter);
        assert(all.take(0).filter(test) =~= patch_views(kept@));
    }
    while i < n
        invariant
            n == catalog.len(),
            i <= n,
            installed.wf(),
            all_wf(catalog@),
            all_wf(kept@),
            all == patch_views(catalog@),
            test == newer_than(installed@),
            patch_views(kept@) == all.take(i as int).filter(test),
        decreases n - i,
    {
        proof {
            lemma_filter_take(all, test, i as int);
            assert(catalog@[i as int].wf());
        }
        let ghost before = patch_views(kept@);
        if catalog[i].version.is_newer_than(installed) {
            let patch = catalog[i].clone();
            kept.push(patch);
            assert(patch_views(kept@) =~= before.push(all[i as int]));
        }
        i = i + 1;
    }
    proof {
        assert(all.take(n as int) =~= all);
    }
    let ghost chosen = patch_views(kept@);
    let applicable = sort_by_version(kept);
    proof {
        broadcast use vstd::seq_lib::group_to_multiset_ensures;

        assert forall|i: int| 0 <= i < applicable.len() implies (#[trigger] patch_views(
            applicable@,
        )[i]).version.gt(installed@) by {
            let patch = patch_views(applicable@)[i];
            assert(patch_views(applicable@).contains(patch));
            assert(chosen.to_multiset().count(patch) > 0);
            assert(chosen.contains(patch));
            let k = choose|k: int| 0 <= k < chosen.len() && chosen[k] == patch;
            all.lemma_filter_pred(test, k);
        }
    }
    applicable
}

/// Whether a line names a patch.
pub open spec fn names_patch(raw: Seq<char>) -> bool {
    line_entry(raw) is Some
}

/// The lines that name no patch: a line that is blank or a comment once it
/// is trimmed, a line whose final segment has not the pattern
/// `patch-<version>.zip`, and a line whose version field is no version. Every
/// other line names the patch of that version, downloaded from the trimmed
/// line.
pub proof fn lemma_which_lines_name_a_patch(raw: Seq<char>)
    ensures
        ({
            let line = trim(raw);
            let field = version_field(final_segment(line));
            &&& line.len() == 0 ==> !names_patch(raw)
            &&& line.len() > 0 && line[0] == '#' ==> !names_patch(raw)
            &&& field is None ==> !names_patch(raw)
            &&& field is Some && semver_parse(field->0) is Err ==> !names_patch(raw)
            &&& line.len() > 0 && line[0] != '#' && field is Some && semver_parse(field->0) is Ok
                ==> line_entry(raw) == Some(
                PatchInfoView { version: semver_parse(field->0)->Ok_0, download_url: line },
            )
        }),
{
}

/// What a catalog yields, line by line: each line that names a patch
/// contributes its patch, every patch of the result comes from such a line,
/// and the result has exactly one patch for each of them. Blank lines,
/// comments, lines with another file name and lines whose version does not
/// parse contribute nothing.
pub proof fn lemma_entries_are_the_matching_lines(text: Seq<char>)
    ensures
        forall|i: int|
            0 <= i < lines(text).len() && names_patch(#[trigger] lines(text)[i])
                ==> catalog_entries(text).contains(line_entry(lines(text)[i])->0),
        forall|entry: PatchInfoView| #[trigger]
            catalog_entries(text).contains(entry) ==> exists|i: int|
                0 <= i < lines(text).len() && line_entry(#[trigger] lines(text)[i]) == Some(entry),
        catalog_entries(text).len() == lines(text).filter(|raw: Seq<char>| names_patch(raw)).len(),
{
    lemma_entries_of_lines(lines(text));
}

/// The statement of `lemma_entries_are_the_matching_lines`, for any list of lines.
proof fn lemma_entries_of_lines(all: Seq<Seq<char>>)
    ensures
        forall|i: int|
            0 <= i < all.len() && names_patch(#[trigger] all[i]) ==> entries_of(all).contains(
                line_entry(all[i])->0,
            ),
        forall|entry: PatchInfoView| #[trigger]
            entries_of(all).contains(entry) ==> exists|i: int|
                0 <= i < all.len() && line_entry(#[trigger] all[i]) == Some(entry),
        entries_of(all).len() == all.filter(|raw: Seq<char>| names_patch(raw)).len(),
    decreases all.len(),
{
    let keep = |raw: Seq<char>| names_patch(raw);
    reveal(Seq::filter);
    if all.len() > 0 {
        let shorter = all.drop_last();
        lemma_entries_of_lines(shorter);
        let found = entries_of(shorter);
        assert forall|i: int| 0 <= i < all.len() && names_patch(#[trigger] all[i]) implies entries_of(
            all,
        ).contains(line_entry(all[i])->0) by {
            if i < all.len() - 1 {
                assert(shorter[i] == all[i]);
                let k = choose|k: int| 0 <= k < found.len() && found[k] == line_entry(all[i])->0;
                assert(entries_of(all)[k] == found[k]);
            } else {
                assert(entries_of(all)[found.len() as int] == line_entry(all[i])->0);
            }
        }
        assert forall|entry: PatchInfoView| #[trigger]
            entries_of(all).contains(entry) implies exists|i: int|
            0 <= i < all.len() && line_entry(#[trigger] all[i]) == Some(entry) by {
            let k = choose|k: int| 0 <= k < entries_of(all).len() && entries_of(all)[k] == entry;
            if k < found.len() {
                assert(found[k] == entry);
                assert(found.contains(entry));
                let i = choose|i: int|
                    0 <= i < shorter.len() && line_entry(#[trigger] shorter[i]) == Some(entry);
                assert(all[i] == shorter[i]);
            } else {
                assert(line_entry(all[all.len() - 1]) == Some(entry));
            }
        }
    }
}

} // verus!
