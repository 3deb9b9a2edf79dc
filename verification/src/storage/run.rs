//! Whole runs of the loader: driven through a directory's listing, it ends
//! with what `scan` says of the listing.

use crate::storage::error::Failure;
use crate::storage::loader::ActionView;
use crate::storage::loader::EventView;
use crate::storage::loader::LoaderView;
use crate::storage::scan::scan;
use crate::storage::scan::scan_from;
use crate::storage::scan::ScannedFile;
use crate::storage::table::Table;
use vstd::prelude::*;

verus! {

/// The state after the events, taken in one after the other.
pub open spec fn run(state: LoaderView, events: Seq<EventView>) -> LoaderView
    decreases events.len(),
{
    if events.len() == 0 {
        state
    } else {
        run(state, events.drop_last()).step(events.last())
    }
}

/// What the caller reports while the load lists the files.
pub open spec fn listing_events(files: Seq<ScannedFile>) -> Seq<EventView>
    decreases files.len(),
{
    if files.len() == 0 {
        Seq::empty()
    } else {
        listing_events(files.drop_last()) + files.last().events()
    }
}

/// What the caller reports in a scan of a directory that opens and lists
/// without failure.
pub open spec fn scan_events(files: Seq<ScannedFile>) -> Seq<EventView> {
    seq![EventView::DirectoryOpened] + listing_events(files) + seq![EventView::EntriesDone]
}

/// What the caller reports in a load that first makes sure of the root: the
/// root is found, or it is missing and created, and then scanned.
pub open spec fn load_events(root_found: bool, files: Seq<ScannedFile>) -> Seq<EventView> {
    if root_found {
        seq![EventView::RootFound] + scan_events(files)
    } else {
        seq![EventView::RootMissing, EventView::DirectoryCreated] + scan_events(files)
    }
}

/// The state of a listing that has come to `merged`: it goes on with the
/// table, or it is over with the failure.
pub open spec fn listing_state(root: Seq<char>, merged: Result<Table, Failure>) -> LoaderView {
    match merged {
        Ok(table) => LoaderView::Listing { root, table },
        Err(failure) => LoaderView::Finished { outcome: Err(failure) },
    }
}

/// One more event is one more step.
pub proof fn lemma_run_push(state: LoaderView, events: Seq<EventView>, event: EventView)
    ensures
        run(state, events.push(event)) == run(state, events).step(event),
{
    assert(events.push(event).drop_last() == events);
}

/// Running through two stretches of events is running through the first and
/// then through the second.
pub proof fn lemma_run_concat(state: LoaderView, first: Seq<EventView>, second: Seq<EventView>)
    ensures
        run(state, first + second) == run(run(state, first), second),
    decreases second.len(),
{
    if second.len() > 0 {
        lemma_run_concat(state, first, second.drop_last());
        assert((first + second).drop_last() == first + second.drop_last());
    }
}

/// A load that is over stays as it is, whatever is reported.
pub proof fn lemma_run_finished(state: LoaderView, events: Seq<EventView>)
    requires
        state is Finished,
    ensures
        run(state, events) == state,
    decreases events.len(),
{
    if events.len() > 0 {
        lemma_run_finished(state, events.drop_last());
    }
}

/// Through the events of one file, a listing comes to what the scan says of
/// one file more.
proof fn lemma_run_file(root: Seq<char>, table: Table, file: ScannedFile)
    ensures
        run(LoaderView::Listing { root, table }, file.events()) == listing_state(
            root,
            scan_from(table, seq![file]),
        ),
{
    let start = LoaderView::Listing { root, table };
    let found = EventView::EntryFound { entry: file.entry };
    let none = Seq::<EventView>::empty();
    assert(scan_from(table, seq![file].drop_last()) == Ok::<Table, Failure>(table));
    lemma_run_push(start, none, found);
    if !file.counts() {
        assert(table.union_prefer_right(Table::empty()) == table);
    } else {
        match file.content {
            Ok(text) => {
                let read = EventView::FileText { text };
                lemma_run_push(start, seq![found], read);
                assert(seq![found].push(read) == seq![found, read]);
            },
            Err(cause) => {
                let failed = EventView::FileUnreadable { cause };
                lemma_run_push(start, seq![found], failed);
                assert(seq![found].push(failed) == seq![found, failed]);
                lemma_run_push(start, seq![found, failed], EventView::Reported);
                assert(seq![found, failed].push(EventView::Reported) == seq![
                    found,
                    failed,
                    EventView::Reported,
                ]);
            },
        }
    }
}

/// Through the events of a listing, the loader comes to what the scan says
/// of the files: it goes on with the merged table, or it is over with the
/// first failure.
pub proof fn lemma_run_listing(root: Seq<char>, table: Table, files: Seq<ScannedFile>)
    ensures
        run(LoaderView::Listing { root, table }, listing_events(files)) == listing_state(
            root,
            scan_from(table, files),
        ),
    decreases files.len(),
{
    let start = LoaderView::Listing { root, table };
    if files.len() > 0 {
        let front = files.drop_last();
        let last = files.last();
        lemma_run_listing(root, table, front);
        lemma_run_concat(start, listing_events(front), last.events());
        match scan_from(table, front) {
            Ok(merged) => {
                lemma_run_file(root, merged, last);
                assert(scan_from(merged, seq![last].drop_last()) == Ok::<Table, Failure>(merged));
            },
            Err(_) => {
                lemma_run_finished(listing_state(root, scan_from(table, front)), last.events());
            },
        }
    }
}

/// A scan of a directory that opens and lists without failure ends with
/// what `scan` says of its files.
pub proof fn lemma_scan_run(root: Seq<char>, files: Seq<ScannedFile>)
    ensures
        run(LoaderView::Opening { root }, scan_events(files)) == (LoaderView::Finished {
            outcome: scan(files),
        }),
{
    let start = LoaderView::Opening { root };
    let opened = seq![EventView::DirectoryOpened];
    lemma_run_push(start, Seq::empty(), EventView::DirectoryOpened);
    lemma_run_concat(start, opened, listing_events(files));
    lemma_run_listing(root, Table::empty(), files);
    lemma_run_push(start, opened + listing_events(files), EventView::EntriesDone);
    assert((opened + listing_events(files)).push(EventView::EntriesDone) == scan_events(files));
}

/// A load that first makes sure of the root ends with what `scan` says of
/// the files, whether the root was found or was missing and created.
pub proof fn lemma_load_run(root: Seq<char>, root_found: bool, files: Seq<ScannedFile>)
    ensures
        run(LoaderView::CheckingRoot { root }, load_events(root_found, files)) == (
        LoaderView::Finished { outcome: scan(files) }),
{
    let start = LoaderView::CheckingRoot { root };
    let none = Seq::<EventView>::empty();
    lemma_scan_run(root, files);
    if root_found {
        lemma_run_push(start, none, EventView::RootFound);
        lemma_run_concat(start, seq![EventView::RootFound], scan_events(files));
    } else {
        let head = seq![EventView::RootMissing, EventView::DirectoryCreated];
        lemma_run_push(start, none, EventView::RootMissing);
        lemma_run_push(start, seq![EventView::RootMissing], EventView::DirectoryCreated);
        assert(seq![EventView::RootMissing].push(EventView::DirectoryCreated) == head);
        lemma_run_concat(start, head, scan_events(files));
    }
}

/// A missing root is no failure: the loader asks for the directory to be
/// created, and the load of the new, empty directory returns the empty
/// table.
pub proof fn lemma_missing_root_loads_empty(root: Seq<char>)
    ensures
        (LoaderView::CheckingRoot { root }).step(EventView::RootMissing).pending() == (
        ActionView::CreateDirectory { path: root }),
        run(LoaderView::CheckingRoot { root }, load_events(false, Seq::empty())) == (
        LoaderView::Finished { outcome: Ok(Table::empty()) }),
{
    lemma_load_run(root, false, Seq::empty());
}

} // verus!
