//! The load as a machine: it names the next thing to do on the file system,
//! the caller does it and reports what came of it.

use crate::storage::entry::DirectoryEntry;
use crate::storage::entry::EntryView;
use crate::storage::error::result_view;
use crate::storage::error::ErrorKind;
use crate::storage::error::Failure;
use crate::storage::error::LoadError;
use crate::storage::json::json_fragment;
use crate::storage::json::parse_fragment;
use crate::storage::json::spec_fragment_of;
use crate::storage::table::Data;
use crate::storage::table::Table;
use vstd::prelude::*;

verus! {

/// What the caller reports of the action it was asked for.
#[derive(Debug, Clone, PartialEq, Eq)]
pub enum LoadEvent {
    /// The root exists.
    RootFound,
    /// The root does not exist.
    RootMissing,
    /// The root was created.
    DirectoryCreated,
    /// The root could not be created.
    DirectoryCreateFailed { cause: String },
    /// The directory is open for listing.
    DirectoryOpened,
    /// The directory could not be opened.
    DirectoryOpenFailed { cause: String },
    /// The listing gave one more entry.
    EntryFound { entry: DirectoryEntry },
    /// The listing gave all its entries.
    EntriesDone,
    /// The listing failed.
    ListingFailed { cause: String },
    /// The file was read, and this is its text.
    FileText { text: String },
    /// The file could not be read as text.
    FileUnreadable { cause: String },
    /// The line was shown to the operator.
    Reported,
}

/// What the caller is to do next.
#[derive(Debug, Clone, PartialEq, Eq)]
pub enum LoadAction {
    /// Find out whether the root exists.
    CheckRoot { path: String },
    /// Create the root as an empty directory; its parent is there already.
    CreateDirectory { path: String },
    /// Open the directory for listing.
    OpenDirectory { path: String },
    /// Fetch the next entry of the open directory.
    NextEntry,
    /// Read the whole file as text.
    ReadFile { path: String },
    /// Show the line to the operator.
    Report { line: String },
    /// Nothing: the load is over.
    Stop,
}

/// A load in progress.
#[derive(Debug)]
pub enum Loader {
    /// Waiting to learn whether the root exists.
    CheckingRoot { root: String },
    /// Waiting for the root to be created.
    CreatingRoot { root: String },
    /// Waiting for the directory to be opened.
    Opening { root: String },
    /// Waiting for the next entry; `table` holds what was merged so far.
    Listing { root: String, table: Data },
    /// Waiting for the text of the file at `path`.
    Reading { root: String, table: Data, path: String },
    /// Waiting for the failure's cause to be shown to the operator.
    Reporting { error: LoadError },
    /// Over, with the table or the failure.
    Finished { outcome: Result<Data, LoadError> },
}

/// An event in contracts.
pub enum EventView {
    RootFound,
    RootMissing,
    DirectoryCreated,
    DirectoryCreateFailed { cause: Seq<char> },
    DirectoryOpened,
    DirectoryOpenFailed { cause: Seq<char> },
    EntryFound { entry: EntryView },
    EntriesDone,
    ListingFailed { cause: Seq<char> },
    FileText { text: Seq<char> },
    FileUnreadable { cause: Seq<char> },
    Reported,
}

/// An action in contracts.
pub enum ActionView {
    CheckRoot { path: Seq<char> },
    CreateDirectory { path: Seq<char> },
    OpenDirectory { path: Seq<char> },
    NextEntry,
    ReadFile { path: Seq<char> },
    Report { line: Seq<char> },
    Stop,
}

/// A load in contracts.
pub enum LoaderView {
    CheckingRoot { root: Seq<char> },
    CreatingRoot { root: Seq<char> },
    Opening { root: Seq<char> },
    Listing { root: Seq<char>, table: Table },
    Reading { root: Seq<char>, table: Table, path: Seq<char> },
    Reporting { error: Failure },
    Finished { outcome: Result<Table, Failure> },
}

impl View for LoadEvent {
    type V = EventView;

    open spec fn view(&self) -> EventView {
        match self {
            LoadEvent::RootFound => EventView::RootFound,
            LoadEvent::RootMissing => EventView::RootMissing,
            LoadEvent::DirectoryCreated => EventView::DirectoryCreated,
            LoadEvent::DirectoryCreateFailed { cause } => EventView::DirectoryCreateFailed {
                cause: cause@,
            },
            LoadEvent::DirectoryOpened => EventView::DirectoryOpened,
            LoadEvent::DirectoryOpenFailed { cause } => EventView::DirectoryOpenFailed {
                cause: cause@,
            },
            LoadEvent::EntryFound { entry } => EventView::EntryFound { entry: entry@ },
            LoadEvent::EntriesDone => EventView::EntriesDone,
            LoadEvent::ListingFailed { cause } => EventView::ListingFailed { cause: cause@ },
            LoadEvent::FileText { text } => EventView::FileText { text: text@ },
            LoadEvent::FileUnreadable { cause } => EventView::FileUnreadable { cause: cause@ },
            LoadEvent::Reported => EventView::Reported,
        }
    }
}

impl View for LoadAction {
    type V = ActionView;

    open spec fn view(&self) -> ActionView {
        match self {
            LoadAction::CheckRoot { path } => ActionView::CheckRoot { path: path@ },
            LoadAction::CreateDirectory { path } => ActionView::CreateDirectory { path: path@ },
            LoadAction::OpenDirectory { path } => ActionView::OpenDirectory { path: path@ },
            LoadAction::NextEntry => ActionView::NextEntry,
            LoadAction::ReadFile { path } => ActionView::ReadFile { path: path@ },
            LoadAction::Report { line } => ActionView::Report { line: line@ },
            LoadAction::Stop => ActionView::Stop,
        }
    }
}

impl View for Loader {
    type V = LoaderView;

    open spec fn view(&self) -> LoaderView {
        match self {
            Loader::CheckingRoot { root } => LoaderView::CheckingRoot { root: root@ },
            Loader::CreatingRoot { root } => LoaderView::CreatingRoot { root: root@ },
            Loader::Opening { root } => LoaderView::Opening { root: root@ },
            Loader::Listing { root, table } => LoaderView::Listing { root: root@, table: table@ },
            Loader::Reading { root, table, path } => LoaderView::Reading {
                root: root@,
                table: table@,
                path: path@,
            },
            Loader::Reporting { error } => LoaderView::Reporting { error: error@ },
            Loader::Finished { outcome } => LoaderView::Finished { outcome: result_view(*outcome) },
        }
    }
}

impl LoaderView {
    /// The state of a listing once the file it was reading has given its
    /// fragment: the listing goes on with the fragment merged into `table`,
    /// or the load is over with the failure that came in the fragment's
    /// place.
    pub open spec fn after_fragment(
        root: Seq<char>,
        table: Table,
        fragment: Result<Table, Failure>,
    ) -> LoaderView {
        match fragment {
            Ok(added) => LoaderView::Listing { root, table: table.union_prefer_right(added) },
            Err(failure) => LoaderView::Finished { outcome: Err(failure) },
        }
    }

    /// The action that a load in this state waits for.
    pub open spec fn pending(self) -> ActionView {
        match self {
            LoaderView::CheckingRoot { root } => ActionView::CheckRoot { path: root },
            LoaderView::CreatingRoot { root } => ActionView::CreateDirectory { path: root },
            LoaderView::Opening { root } => ActionView::OpenDirectory { path: root },
            LoaderView::Listing { .. } => ActionView::NextEntry,
            LoaderView::Reading { path, .. } => ActionView::ReadFile { path },
            LoaderView::Reporting { error } => ActionView::Report { line: error.cause },
            LoaderView::Finished { .. } => ActionView::Stop,
        }
    }

    /// The state after an event. An event that does not answer the pending
    /// action changes nothing.
    pub open spec fn step(self, event: EventView) -> LoaderView {
        match self {
            LoaderView::CheckingRoot { root } => match event {
                EventView::RootFound => LoaderView::Opening { root },
                EventView::RootMissing => LoaderView::CreatingRoot { root },
                _ => self,
            },
            LoaderView::CreatingRoot { root } => match event {
                EventView::DirectoryCreated => LoaderView::Opening { root },
                EventView::DirectoryCreateFailed { cause } => LoaderView::Finished {
                    outcome: Err(Failure { kind: ErrorKind::DirectoryCreate, path: root, cause }),
                },
                _ => self,
            },
            LoaderView::Opening { root } => match event {
                EventView::DirectoryOpened => LoaderView::Listing { root, table: Map::empty() },
                EventView::DirectoryOpenFailed { cause } => LoaderView::Finished {
                    outcome: Err(Failure { kind: ErrorKind::DirectoryRead, path: root, cause }),
                },
                _ => self,
            },
            LoaderView::Listing { root, table } => match event {
                EventView::EntryFound { entry } => if entry.is_json() {
                    LoaderView::Reading { root, table, path: entry.path }
                } else {
                    self
                },
                EventView::EntriesDone => LoaderView::Finished { outcome: Ok(table) },
                EventView::ListingFailed { cause } => LoaderView::Finished {
                    outcome: Err(Failure { kind: ErrorKind::DirectoryRead, path: root, cause }),
                },
                _ => self,
            },
            LoaderView::Reading { root, table, path } => match event {
                EventView::FileText { text } => LoaderView::after_fragment(
                    root,
                    table,
                    spec_fragment_of(path, json_fragment(text)),
                ),
                EventView::FileUnreadable { cause } => LoaderView::Reporting {
                    error: Failure { kind: ErrorKind::FileRead, path, cause },
                },
                _ => self,
            },
            LoaderView::Reporting { error } => match event {
                EventView::Reported => LoaderView::Finished { outcome: Err(error) },
                _ => self,
            },
            LoaderView::Finished { .. } => self,
        }
    }
}

impl Loader {
    /// A load of the directory at `root` that first makes sure the directory
    /// is there.
    pub fn setup(root: String) -> (loader: Loader)
        ensures
            loader@ == (LoaderView::CheckingRoot { root: root@ }),
    {
        Loader::CheckingRoot { root }
    }

    /// A load of the directory at `root`, which is taken to be there.
    pub fn scan(root: String) -> (loader: Loader)
        ensures
            loader@ == (LoaderView::Opening { root: root@ }),
    {
        Loader::Opening { root }
    }

    /// The load of the directory at `root` once the file it was reading has
    /// given `fragment`: the fragment's keys are merged into `table`, where
    /// they replace what the table had under them, and the listing goes on;
    /// or the load is over with the failure, and `table` is dropped.
    pub fn after_fragment(root: String, table: Data, fragment: Result<Data, LoadError>) -> (loader:
        Loader)
        ensures
            loader@ == LoaderView::after_fragment(root@, table@, result_view(fragment)),
    {
        match fragment {
            Ok(added) => {
                let mut table = table;
                table.merge(added);
                Loader::Listing { root, table }
            },
            Err(error) => Loader::Finished { outcome: Err(error) },
        }
    }

    /// What the caller is to do next.
    pub fn pending(&self) -> (action: LoadAction)
        ensures
            action@ == self@.pending(),
    {
        match self {
            Loader::CheckingRoot { root } => LoadAction::CheckRoot { path: root.clone() },
            Loader::CreatingRoot { root } => LoadAction::CreateDirectory { path: root.clone() },
            Loader::Opening { root } => LoadAction::OpenDirectory { path: root.clone() },
            Loader::Listing { .. } => LoadAction::NextEntry,
            Loader::Reading { path, .. } => LoadAction::ReadFile { path: path.clone() },
            Loader::Reporting { error } => LoadAction::Report { line: error.cause().to_owned() },
            Loader::Finished { .. } => LoadAction::Stop,
        }
    }

    /// Takes in what the caller reports, and says what to do next.
    pub fn step(self, event: LoadEvent) -> (next: (Loader, LoadAction))
        ensures
            next.0@ == self@.step(event@),
            next.1@ == next.0@.pending(),
    {
        let loader = match self {
            Loader::CheckingRoot { root } => match event {
                LoadEvent::RootFound => Loader::Opening { root },
                LoadEvent::RootMissing => Loader::CreatingRoot { root },
                _ => Loader::CheckingRoot { root },
            },
            Loader::CreatingRoot { root } => match event {
                LoadEvent::DirectoryCreated => Loader::Opening { root },
                LoadEvent::DirectoryCreateFailed { cause } => Loader::Finished {
                    outcome: Err(LoadError::DirectoryCreateError { path: root, cause }),
                },
                _ => Loader::CreatingRoot { root },
            },
            Loader::Opening { root } => match event {
                LoadEvent::DirectoryOpened => Loader::Listing { root, table: Data::new() },
                LoadEvent::DirectoryOpenFailed { cause } => Loader::Finished {
                    outcome: Err(LoadError::DirectoryReadError { path: root, cause }),
                },
                _ => Loader::Opening { root },
            },
            Loader::Listing { root, table } => match event {
                LoadEvent::EntryFound { entry } => if entry.is_json() {
                    Loader::Reading { root, table, path: entry.path }
                } else {
                    Loader::Listing { root, table }
                },
                LoadEvent::EntriesDone => Loader::Finished { outcome: Ok(table) },
                LoadEvent::ListingFailed { cause } => Loader::Finished {
                    outcome: Err(LoadError::DirectoryReadError { path: root, cause }),
                },
                _ => Loader::Listing { root, table },
            },
            Loader::Reading { root, table, path } => match event {
                LoadEvent::FileText { text } => Loader::after_fragment(
                    root,
                    table,
                    parse_fragment(path.as_str(), text.as_str()),
                ),
                LoadEvent::FileUnreadable { cause } => Loader::Reporting {
                    error: LoadError::FileReadError { path, cause },
                },
                _ => Loader::Reading { root, table, path },
            },
            Loader::Reporting { error } => match event {
                LoadEvent::Reported => Loader::Finished { outcome: Err(error) },
                _ => Loader::Reporting { error },
            },
            Loader::Finished { outcome } => Loader::Finished { outcome },
        };
        let action = loader.pending();
        (loader, action)
    }

    /// Whether the load is over.
    pub fn is_finished(&self) -> (finished: bool)
        ensures
            finished == (self@ is Finished),
    {
        match self {
            Loader::Finished { .. } => true,
            _ => false,
        }
    }

    /// The table or the failure of a load that is over.
    pub fn outcome(self) -> (outcome: Option<Result<Data, LoadError>>)
        ensures
            match outcome {
                Some(result) => self@ == (LoaderView::Finished { outcome: result_view(result) }),
                None => !(self@ is Finished),
            },
    {
        match self {
            Loader::Finished { outcome } => Some(outcome),
            _ => None,
        }
    }
}

} // verus!
