//! What carrying out a plan does to the output directory.
//!
//! The directory is modelled as a map from file names to files. The model
//! says what the caller's file operations are taken to do: staging writes
//! the staging file, promoting moves it to its permanent name. Over this
//! model the module states what a run changes and what it leaves alone.

use crate::writer::{
    is_candidate, is_snapshot_name, latest_index, lemma_latest_is_newest, plan_for, EntryModel,
    PlanModel,
};
use vstd::prelude::*;

verus! {

/// A file of the output directory, as plain values.
pub struct StoredFile {
    pub is_file: bool,
    pub modified: nat,
    pub content: Seq<char>,
}

/// Whether a listing shows a directory: each entry is a file of the
/// directory with its kind and time, and each file has an entry.
pub open spec fn lists(listing: Seq<EntryModel>, dir: Map<Seq<char>, StoredFile>) -> bool {
    &&& forall|i: int|
        0 <= i < listing.len() ==> {
            let entry = #[trigger] listing[i];
            &&& dir.contains_key(entry.name)
            &&& dir[entry.name].is_file == entry.is_file
            &&& dir[entry.name].modified == entry.modified
        }
    &&& forall|name: Seq<char>| #[trigger]
        dir.contains_key(name) ==> exists|i: int|
            0 <= i < listing.len() && (#[trigger] listing[i]).name == name
}

/// What the latest snapshot of a directory holds, if there is one.
pub open spec fn latest_content(
    listing: Seq<EntryModel>,
    dir: Map<Seq<char>, StoredFile>,
    staging: Seq<char>,
) -> Option<Seq<char>> {
    match latest_index(listing, staging) {
        Some(i) => Some(dir[listing[i].name].content),
        None => None,
    }
}

/// The directory after a plan has been carried out at the time `now`, with
/// `name` as the permanent name of a promoted snapshot.
pub open spec fn after_plan(
    dir: Map<Seq<char>, StoredFile>,
    staging: Seq<char>,
    plan: PlanModel,
    name: Seq<char>,
    now: nat,
) -> Map<Seq<char>, StoredFile> {
    match plan {
        PlanModel::Nothing => dir,
        PlanModel::StageOnly(content) => dir.insert(
            staging,
            StoredFile { is_file: true, modified: now, content },
        ),
        PlanModel::StageAndPromote(content) => dir.remove(staging).insert(
            name,
            StoredFile { is_file: true, modified: now, content },
        ),
    }
}

/// Without match data a run changes nothing: no file is staged, none is
/// promoted.
pub proof fn lemma_no_match_data_changes_nothing(
    dir: Map<Seq<char>, StoredFile>,
    staging: Seq<char>,
    latest: Option<Seq<char>>,
    name: Seq<char>,
    now: nat,
)
    ensures
        plan_for(None, latest) == PlanModel::Nothing,
        after_plan(dir, staging, plan_for(None, latest), name, now) == dir,
{
}

/// A run whose text differs from the latest snapshot adds exactly one file.
///
/// The latest snapshot holds `old_text` and the run extracts another text.
/// Given a permanent name that no file has yet, the directory afterwards
/// holds the new text under that name, every other file but the staging
/// file is as it was, and nothing else is new.
pub proof fn lemma_novel_content_adds_one_file(
    dir: Map<Seq<char>, StoredFile>,
    listing: Seq<EntryModel>,
    staging: Seq<char>,
    old_text: Seq<char>,
    new_text: Seq<char>,
    name: Seq<char>,
    now: nat,
)
    requires
        latest_content(listing, dir, staging) == Some(old_text),
        new_text != old_text,
        !dir.contains_key(name),
        name != staging,
    ensures
        plan_for(Some(new_text), Some(old_text)) == PlanModel::StageAndPromote(new_text),
        ({
            let after = after_plan(
                dir,
                staging,
                plan_for(Some(new_text), Some(old_text)),
                name,
                now,
            );
            &&& after.contains_key(name) && after[name].content == new_text
            &&& forall|other: Seq<char>|
                dir.contains_key(other) && other != staging ==> #[trigger] after.contains_key(other)
                    && after[other] == dir[other]
            &&& forall|other: Seq<char>| #[trigger]
                after.contains_key(other) && other != name ==> dir.contains_key(other)
        }),
{
}

/// A run whose text the latest snapshot already holds promotes nothing.
///
/// The text is staged, so the staging file holds it as after the run
/// before. Every other file is as it was and no file is new.
pub proof fn lemma_same_content_promotes_nothing(
    dir: Map<Seq<char>, StoredFile>,
    listing: Seq<EntryModel>,
    staging: Seq<char>,
    text: Seq<char>,
    name: Seq<char>,
    now: nat,
)
    requires
        latest_content(listing, dir, staging) == Some(text),
    ensures
        plan_for(Some(text), Some(text)) == PlanModel::StageOnly(text),
        ({
            let after = after_plan(dir, staging, plan_for(Some(text), Some(text)), name, now);
            &&& after.contains_key(staging) && after[staging].content == text
            &&& forall|other: Seq<char>|
                other != staging ==> (#[trigger] after.contains_key(other) <==> dir.contains_key(
                    other,
                ))
            &&& forall|other: Seq<char>|
                dir.contains_key(other) && other != staging ==> #[trigger] after[other]
                    == dir[other]
        }),
{
}

/// A snapshot that has just been promoted is the latest of its directory.
///
/// The promotion gave the snapshot a permanent name of its own and a time
/// after that of every earlier snapshot. Then any listing of the directory
/// has it as its latest snapshot, holding the promoted text.
pub proof fn lemma_promoted_snapshot_is_latest(
    dir: Map<Seq<char>, StoredFile>,
    staging: Seq<char>,
    text: Seq<char>,
    name: Seq<char>,
    now: nat,
    listing: Seq<EntryModel>,
)
    requires
        is_snapshot_name(name),
        name != staging,
        forall|other: Seq<char>|
            #[trigger] dir.contains_key(other) && dir[other].is_file && is_snapshot_name(other)
                && other != staging ==> dir[other].modified < now,
        lists(listing, after_plan(dir, staging, PlanModel::StageAndPromote(text), name, now)),
    ensures
        latest_content(
            listing,
            after_plan(dir, staging, PlanModel::StageAndPromote(text), name, now),
            staging,
        ) == Some(text),
{
    let after = after_plan(dir, staging, PlanModel::StageAndPromote(text), name, now);
    lemma_latest_is_newest(listing, staging);
    assert(after.contains_key(name));
    let k = choose|k: int| 0 <= k < listing.len() && (#[trigger] listing[k]).name == name;
    assert(is_candidate(listing[k], staging));
    let i = latest_index(listing, staging)->0;
    assert(listing[k].modified <= listing[i].modified);
    if listing[i].name != name {
        assert(dir.contains_key(listing[i].name));
    }
}

/// Two runs on the same text promote at most once.
///
/// The first run finds the text new and promotes it as in
/// `lemma_promoted_snapshot_is_latest`. The second run extracts the same
/// text from a listing of the directory that the first one left. Its plan is
/// to stage only, and it leaves every file but the staging file as it was.
pub proof fn lemma_second_run_promotes_nothing(
    dir: Map<Seq<char>, StoredFile>,
    staging: Seq<char>,
    text: Seq<char>,
    name: Seq<char>,
    now: nat,
    listing: Seq<EntryModel>,
    next_name: Seq<char>,
    later: nat,
)
    requires
        is_snapshot_name(name),
        name != staging,
        forall|other: Seq<char>|
            #[trigger] dir.contains_key(other) && dir[other].is_file && is_snapshot_name(other)
                && other != staging ==> dir[other].modified < now,
        lists(listing, after_plan(dir, staging, PlanModel::StageAndPromote(text), name, now)),
    ensures
        ({
            let first = after_plan(dir, staging, PlanModel::StageAndPromote(text), name, now);
            let plan = plan_for(Some(text), latest_content(listing, first, staging));
            let second = after_plan(first, staging, plan, next_name, later);
            &&& plan == PlanModel::StageOnly(text)
            &&& second[staging].content == text
            &&& forall|other: Seq<char>|
                other != staging ==> (#[trigger] second.contains_key(other)
                    <==> first.contains_key(other))
            &&& forall|other: Seq<char>|
                first.contains_key(other) && other != staging ==> #[trigger] second[other]
                    == first[other]
        }),
{
    lemma_promoted_snapshot_is_latest(dir, staging, text, name, now, listing);
}

} // verus!
