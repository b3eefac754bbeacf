//! Keeping a snapshot: which earlier snapshot to compare with, whether the
//! new text is worth a file of its own, and what that file is called.
//!
//! Reading and writing files is left to the caller. This module makes the
//! decisions in between and states, over a model of the output directory,
//! what carrying them out does to it.

use crate::extract::Extraction;
use vstd::prelude::*;

verus! {

/// One entry of the output directory, as plain values.
pub struct EntryModel {
    pub name: Seq<char>,
    pub is_file: bool,
    pub modified: nat,
}

/// One entry of the output directory: its name, whether it is a regular
/// file, and the time of its last change as a number that grows with time.
#[derive(Debug)]
pub struct DirEntryInfo {
    pub name: String,
    pub is_file: bool,
    pub modified: u128,
}

impl View for DirEntryInfo {
    type V = EntryModel;

    open spec fn view(&self) -> EntryModel {
        EntryModel { name: self.name@, is_file: self.is_file, modified: self.modified as nat }
    }
}

/// The entries of a listing as plain values.
pub open spec fn listing_view(entries: Seq<DirEntryInfo>) -> Seq<EntryModel> {
    Seq::new(entries.len(), |i: int| entries[i]@)
}

/// Whether a file name has the extension of a snapshot: it ends in `.csv`,
/// in lower case, and has something in front of that.
pub open spec fn is_snapshot_name(name: Seq<char>) -> bool {
    name.len() > 4 && name.subrange(name.len() - 4, name.len() as int) == ".csv"@
}

/// Whether an entry is an earlier snapshot: a regular file with the
/// extension of a snapshot that is not the staging file.
pub open spec fn is_candidate(entry: EntryModel, staging: Seq<char>) -> bool {
    entry.is_file && is_snapshot_name(entry.name) && entry.name != staging
}

/// The place in a listing of the snapshot that was changed last. Of several
/// changed at the same time, the one listed last counts.
pub open spec fn latest_index(entries: Seq<EntryModel>, staging: Seq<char>) -> Option<int>
    decreases entries.len(),
{
    if entries.len() == 0 {
        None
    } else {
        let earlier = latest_index(entries.drop_last(), staging);
        let last = entries.len() - 1;
        if is_candidate(entries.last(), staging) && (earlier is None || entries[earlier->0].modified
            <= entries.last().modified) {
            Some(last)
        } else {
            earlier
        }
    }
}

/// What `latest_index` finds is a snapshot, none is newer, and none that is
/// listed after it is as new. It finds nothing only where there is none.
pub proof fn lemma_latest_is_newest(entries: Seq<EntryModel>, staging: Seq<char>)
    ensures
        match latest_index(entries, staging) {
            Some(i) => {
                &&& 0 <= i < entries.len()
                &&& is_candidate(entries[i], staging)
                &&& forall|j: int|
                    0 <= j < entries.len() && is_candidate(#[trigger] entries[j], staging)
                        ==> entries[j].modified <= entries[i].modified
                &&& forall|j: int|
                    i < j < entries.len() && is_candidate(#[trigger] entries[j], staging)
                        ==> entries[j].modified < entries[i].modified
            },
            None => forall|j: int|
                0 <= j < entries.len() ==> !is_candidate(#[trigger] entries[j], staging),
        },
    decreases entries.len(),
{
    if entries.len() > 0 {
        let front = entries.drop_last();
        lemma_latest_is_newest(front, staging);
        assert forall|j: int| 0 <= j < front.len() implies front[j] == entries[j] by {}
        match latest_index(entries, staging) {
            Some(i) => {
                assert forall|j: int|
                    0 <= j < entries.len() && is_candidate(
                        #[trigger] entries[j],
                        staging,
                    ) implies entries[j].modified <= entries[i].modified by {
                    if j < front.len() {
                        assert(is_candidate(front[j], staging));
                    }
                }
                assert forall|j: int|
                    i < j < entries.len() && is_candidate(
                        #[trigger] entries[j],
                        staging,
                    ) implies entries[j].modified < entries[i].modified by {
                    if j < front.len() {
                        assert(is_candidate(front[j], staging));
                    }
                }
            },
            None => {
                assert forall|j: int| 0 <= j < entries.len() implies !is_candidate(
                    #[trigger] entries[j],
                    staging,
                ) by {
                    if j < front.len() {
                        assert(!is_candidate(front[j], staging));
                    }
                }
            },
        }
    }
}

/// A snapshot that is newer than every other one is the latest.
pub proof fn lemma_newest_is_latest(entries: Seq<EntryModel>, staging: Seq<char>, i: int)
    requires
        0 <= i < entries.len(),
        is_candidate(entries[i], staging),
        forall|j: int|
            0 <= j < entries.len() && j != i && is_candidate(#[trigger] entries[j], staging)
                ==> entries[j].modified < entries[i].modified,
    ensures
        latest_index(entries, staging) == Some(i),
{
    lemma_latest_is_newest(entries, staging);
}

/// Whether a file name has the extension of a snapshot.
pub fn has_snapshot_extension(name: &str) -> (r: bool)
    ensures
        r == is_snapshot_name(name@),
{
    let n = name.unicode_len();
    if n <= 4 {
        return false;
    }
    proof {
        reveal_strlit(".csv");
    }
    let ghost tail = name@.subrange(n - 4, n as int);
    let c0 = name.get_char(n - 4);
    let c1 = name.get_char(n - 3);
    let c2 = name.get_char(n - 2);
    let c3 = name.get_char(n - 1);
    assert(tail[0] == c0 && tail[1] == c1 && tail[2] == c2 && tail[3] == c3);
    let r = c0 == '.' && c1 == 'c' && c2 == 's' && c3 == 'v';
    if r {
        assert(tail =~= ".csv"@);
    }
    r
}

/// Finds the snapshot to compare a new one with: among the regular files of
/// the listing that have the extension of a snapshot and are not the staging
/// file, the one that was changed last.
pub fn latest_snapshot(entries: &Vec<DirEntryInfo>, staging: &String) -> (r: Option<usize>)
    ensures
        match r {
            Some(i) => latest_index(listing_view(entries@), staging@) == Some(i as int),
            None => latest_index(listing_view(entries@), staging@) is None,
        },
{
    let mut latest: Option<usize> = None;
    let ghost all = listing_view(entries@);
    let mut i: usize = 0;
    assert(all.subrange(0, 0) =~= Seq::empty());
    while i < entries.len()
        invariant
            i <= entries.len(),
            all == listing_view(entries@),
            match latest {
                Some(k) => k < i && latest_index(all.subrange(0, i as int), staging@) == Some(
                    k as int,
                ),
                None => latest_index(all.subrange(0, i as int), staging@) is None,
            },
        decreases entries.len() - i,
    {
        let entry = &entries[i];
        proof {
            let upto = all.subrange(0, i + 1);
            assert(upto.drop_last() =~= all.subrange(0, i as int));
            assert(upto.last() == entry@);
            if latest is Some {
                assert(upto[latest->0 as int] == entries@[latest->0 as int]@);
            }
        }
        if entry.is_file && has_snapshot_extension(entry.name.as_str()) && entry.name != *staging {
            let newer = match latest {
                Some(k) => entries[k].modified <= entry.modified,
                None => true,
            };
            if newer {
                latest = Some(i);
            }
        }
        i = i + 1;
    }
    assert(all.subrange(0, i as int) =~= all);
    latest
}

/// Whether a new text differs from the latest snapshot, or there is none.
pub open spec fn is_novel(staged: Seq<char>, latest: Option<Seq<char>>) -> bool {
    match latest {
        None => true,
        Some(content) => content != staged,
    }
}

/// Decides whether a new text deserves a file of its own: it does unless
/// the latest snapshot holds exactly the same text.
pub fn should_promote(staged: &String, latest: Option<&String>) -> (r: bool)
    ensures
        r == is_novel(
            staged@,
            match latest {
                Some(content) => Some(content@),
                None => None,
            },
        ),
{
    match latest {
        None => true,
        Some(content) => *content != *staged,
    }
}

/// What is to be done with the outcome of an extraction.
#[derive(Debug)]
pub enum SnapshotPlan {
    /// Nothing: no file is written or moved.
    Nothing,
    /// The text goes to the staging file and stays there.
    StageOnly { content: String },
    /// The text goes to the staging file, which is then moved to a permanent
    /// name of its own.
    StageAndPromote { content: String },
}

/// A plan with its text as a plain value.
pub enum PlanModel {
    Nothing,
    StageOnly(Seq<char>),
    StageAndPromote(Seq<char>),
}

impl View for SnapshotPlan {
    type V = PlanModel;

    open spec fn view(&self) -> PlanModel {
        match self {
            SnapshotPlan::Nothing => PlanModel::Nothing,
            SnapshotPlan::StageOnly { content } => PlanModel::StageOnly(content@),
            SnapshotPlan::StageAndPromote { content } => PlanModel::StageAndPromote(content@),
        }
    }
}

/// The plan for the outcome `extracted`, given what the latest snapshot
/// holds.
pub open spec fn plan_for(extracted: Option<Seq<char>>, latest: Option<Seq<char>>) -> PlanModel {
    match extracted {
        None => PlanModel::Nothing,
        Some(text) => if is_novel(text, latest) {
            PlanModel::StageAndPromote(text)
        } else {
            PlanModel::StageOnly(text)
        },
    }
}

/// Plans what to do with the outcome of an extraction. Without match data
/// nothing is done. A text is always staged, and promoted unless the latest
/// snapshot holds the same.
pub fn plan_snapshot(extraction: Extraction, latest: Option<&String>) -> (plan: SnapshotPlan)
    ensures
        plan@ == plan_for(
            match extraction {
                Extraction::NoMatchData => None,
                Extraction::Snapshot(text) => Some(text@),
            },
            match latest {
                Some(content) => Some(content@),
                None => None,
            },
        ),
{
    match extraction {
        Extraction::NoMatchData => SnapshotPlan::Nothing,
        Extraction::Snapshot(content) => {
            if should_promote(&content, latest) {
                SnapshotPlan::StageAndPromote { content }
            } else {
                SnapshotPlan::StageOnly { content }
            }
        },
    }
}

/// The name of the file of a snapshot that was taken at the time `stamp`.
pub open spec fn snapshot_name_text(stamp: Seq<char>) -> Seq<char> {
    stamp + ".csv"@
}

/// Makes the permanent file name of a snapshot from the text of a time.
pub fn snapshot_file_name(stamp: &str) -> (name: String)
    ensures
        name@ == snapshot_name_text(stamp@),
{
    let mut name = String::from_str(stamp);
    name.append(".csv");
    name
}

/// How exactly the time in a snapshot's name is given.
#[derive(Debug, Clone, Copy, PartialEq, Eq, Structural)]
pub enum StampResolution {
    Minute,
    Second,
}

/// The format of the time in a snapshot's name: year, month, day, hour,
/// minute and, if asked for, second.
pub open spec fn stamp_format_text(resolution: StampResolution) -> Seq<char> {
    match resolution {
        StampResolution::Minute => "%Y-%m-%d_%H-%M"@,
        StampResolution::Second => "%Y-%m-%d_%H-%M-%S"@,
    }
}

/// The format of the time in a snapshot's name.
pub fn stamp_format(resolution: StampResolution) -> (format: &'static str)
    ensures
        format@ == stamp_format_text(resolution),
{
    match resolution {
        StampResolution::Minute => "%Y-%m-%d_%H-%M",
        StampResolution::Second => "%Y-%m-%d_%H-%M-%S",
    }
}

/// Calls `chrono::Local::now` and writes the time in the given format, with
/// `DelayedFormat::write_to`. The result is `None` where chrono refuses the
/// format. Nothing is claimed of the text: it depends on the clock and on
/// the time zone of the machine. chrono stops the program if the clock
/// stands before the year 1970.
#[verifier::external_body]
fn local_time_text(format: &str) -> (text: Option<String>) {
    let mut text = String::new();
    match chrono::Local::now().format(format).write_to(&mut text) {
        Ok(()) => Some(text),
        Err(_) => None,
    }
}

/// Makes the permanent file name for a snapshot taken now. Whatever the
/// clock says, the name has the extension of a snapshot.
pub fn timestamped_file_name(resolution: StampResolution) -> (name: Option<String>)
    ensures
        name matches Some(n) ==> exists|stamp: Seq<char>| n@ == snapshot_name_text(stamp),
{
    let stamp = local_time_text(stamp_format(resolution));
    let ghost written: Option<Seq<char>> = match &stamp {
        Some(text) => Some(text@),
        None => None,
    };
    let name = file_name_for_stamp(stamp);
    proof {
        if name is Some {
            assert(name->0@ == snapshot_name_text(written->0));
        }
    }
    name
}

/// The file name that comes of an attempt to write the time: the name of
/// the stamp where there is one, nothing where there is none.
pub open spec fn stamped_name_text(stamp: Option<Seq<char>>) -> Option<Seq<char>> {
    match stamp {
        Some(text) => Some(snapshot_name_text(text)),
        None => None,
    }
}

/// Makes the permanent file name from the outcome of writing the time. A
/// stamp always gives its name; without a stamp there is no name.
pub fn file_name_for_stamp(stamp: Option<String>) -> (name: Option<String>)
    ensures
        match name {
            Some(n) => Some(n@),
            None => None,
        } == stamped_name_text(
            match stamp {
                Some(text) => Some(text@),
                None => None,
            },
        ),
{
    match stamp {
        Some(text) => {
            Some(snapshot_file_name(text.as_str()))
        },
        None => None,
    }
}

} // verus!
