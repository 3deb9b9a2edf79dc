use flag::storage::entry::DirectoryEntry;
use flag::storage::error::LoadError;
use flag::storage::loader::LoadAction;
use flag::storage::loader::LoadEvent;
use flag::storage::loader::Loader;
use flag::storage::table::Data;

fn strings(items: &[&str]) -> Vec<String> {
    items.iter().map(|item| item.to_string()).collect()
}

fn found(path: &str) -> LoadEvent {
    LoadEvent::EntryFound { entry: DirectoryEntry::from_path(path.to_string()) }
}

fn text(text: &str) -> LoadEvent {
    LoadEvent::FileText { text: text.to_string() }
}

/// Drives a loader through the events and gives the actions it asked for
/// after each of them.
fn drive(loader: Loader, events: Vec<LoadEvent>) -> (Loader, Vec<LoadAction>) {
    let mut loader = loader;
    let mut actions = Vec::new();
    for event in events {
        let (next, action) = loader.step(event);
        loader = next;
        actions.push(action);
    }
    (loader, actions)
}

/// A scan of a directory at `data` whose listing reports the events.
fn scan(listing: Vec<LoadEvent>) -> Result<Data, LoadError> {
    let mut events = vec![LoadEvent::DirectoryOpened];
    events.extend(listing);
    events.push(LoadEvent::EntriesDone);
    let (loader, _) = drive(Loader::scan("data".to_string()), events);
    assert!(loader.is_finished());
    loader.outcome().unwrap()
}

#[test]
fn test_read_json_in_dir() {
    let datas = scan(vec![
        found("data/flags.json"),
        text(r#"{ "bitFlag": ["label A", "label B"], "standby3": ["x", "y", "z"] }"#),
    ]);
    assert_eq!(true, datas.is_ok());
    let data = datas.unwrap();
    println!("data: {:?}", data);
    assert_eq!(2, data.len());
    assert_eq!(true, data.contains_key("bitFlag"));
    assert_eq!(true, data.contains_key("standby3"));
}

#[test]
fn setup_asks_for_the_root_first() {
    let loader = Loader::setup("data".to_string());
    assert!(!loader.is_finished());
    assert_eq!(loader.pending(), LoadAction::CheckRoot { path: "data".to_string() });
}

#[test]
fn scan_asks_for_the_directory_first() {
    let loader = Loader::scan("data".to_string());
    assert_eq!(loader.pending(), LoadAction::OpenDirectory { path: "data".to_string() });
}

#[test]
fn found_root_is_scanned() {
    let (loader, actions) = drive(
        Loader::setup("data".to_string()),
        vec![LoadEvent::RootFound, LoadEvent::DirectoryOpened, LoadEvent::EntriesDone],
    );
    assert_eq!(
        actions,
        vec![
            LoadAction::OpenDirectory { path: "data".to_string() },
            LoadAction::NextEntry,
            LoadAction::Stop,
        ]
    );
    let table = loader.outcome().unwrap().unwrap();
    assert_eq!(table.len(), 0);
}

#[test]
fn missing_root_is_created_and_loads_empty() {
    let (loader, actions) = drive(
        Loader::setup("fresh".to_string()),
        vec![
            LoadEvent::RootMissing,
            LoadEvent::DirectoryCreated,
            LoadEvent::DirectoryOpened,
            LoadEvent::EntriesDone,
        ],
    );
    assert_eq!(
        actions,
        vec![
            LoadAction::CreateDirectory { path: "fresh".to_string() },
            LoadAction::OpenDirectory { path: "fresh".to_string() },
            LoadAction::NextEntry,
            LoadAction::Stop,
        ]
    );
    let table = loader.outcome().unwrap().unwrap();
    assert!(table.is_empty());
    assert_eq!(table.len(), 0);
}

#[test]
fn root_that_cannot_be_created_ends_the_load() {
    let (loader, actions) = drive(
        Loader::setup("no/parent".to_string()),
        vec![
            LoadEvent::RootMissing,
            LoadEvent::DirectoryCreateFailed { cause: "No such file or directory".to_string() },
        ],
    );
    assert_eq!(actions[1], LoadAction::Stop);
    assert_eq!(
        loader.outcome().unwrap().unwrap_err(),
        LoadError::DirectoryCreateError {
            path: "no/parent".to_string(),
            cause: "No such file or directory".to_string(),
        }
    );
}

#[test]
fn directory_that_cannot_be_opened_ends_the_load() {
    let (loader, actions) = drive(
        Loader::scan("data.txt".to_string()),
        vec![LoadEvent::DirectoryOpenFailed { cause: "Not a directory".to_string() }],
    );
    assert_eq!(actions, vec![LoadAction::Stop]);
    assert_eq!(
        loader.outcome().unwrap().unwrap_err(),
        LoadError::DirectoryReadError { path: "data.txt".to_string(), cause: "Not a directory".to_string() }
    );
}

#[test]
fn listing_that_fails_ends_the_load_without_a_table() {
    let (loader, actions) = drive(
        Loader::scan("data".to_string()),
        vec![
            LoadEvent::DirectoryOpened,
            found("data/a.json"),
            text(r#"{"k1": ["x"]}"#),
            LoadEvent::ListingFailed { cause: "Input/output error".to_string() },
        ],
    );
    assert_eq!(actions[3], LoadAction::Stop);
    assert_eq!(
        loader.outcome().unwrap().unwrap_err(),
        LoadError::DirectoryReadError { path: "data".to_string(), cause: "Input/output error".to_string() }
    );
}

#[test]
fn two_files_with_disjoint_keys_in_either_order() {
    let a = vec![found("data/a.json"), text(r#"{"k1": ["x"]}"#)];
    let b = vec![found("data/b.json"), text(r#"{"k2": ["y","z"]}"#)];
    for listing in [[a.clone(), b.clone()].concat(), [b, a].concat()] {
        let table = scan(listing).unwrap();
        assert_eq!(table.len(), 2);
        assert_eq!(table.get("k1"), Some(&strings(&["x"])));
        assert_eq!(table.get("k2"), Some(&strings(&["y", "z"])));
    }
}

#[test]
fn json_entry_is_read_and_merged() {
    let (loader, actions) = drive(
        Loader::scan("data".to_string()),
        vec![LoadEvent::DirectoryOpened, found("data/a.json"), text(r#"{"k1": ["x"]}"#)],
    );
    assert_eq!(
        actions,
        vec![
            LoadAction::NextEntry,
            LoadAction::ReadFile { path: "data/a.json".to_string() },
            LoadAction::NextEntry,
        ]
    );
    assert!(!loader.is_finished());
    match loader {
        Loader::Listing { root, table } => {
            assert_eq!(root, "data");
            assert_eq!(table.len(), 1);
            assert_eq!(table.get("k1"), Some(&strings(&["x"])));
        }
        other => panic!("in state {:?}", other),
    }
}

#[test]
fn shared_key_takes_the_later_file() {
    let a = vec![found("data/a.json"), text(r#"{"k": ["from a"], "a": ["1"]}"#)];
    let b = vec![found("data/b.json"), text(r#"{"k": ["from b", "more"], "b": ["2"]}"#)];
    let first = scan([a.clone(), b.clone()].concat()).unwrap();
    assert_eq!(first.len(), 3);
    assert_eq!(first.get("k"), Some(&strings(&["from b", "more"])));
    assert_eq!(first.get("a"), Some(&strings(&["1"])));
    assert_eq!(first.get("b"), Some(&strings(&["2"])));
    let second = scan([b, a].concat()).unwrap();
    assert_eq!(second.len(), 3);
    assert_eq!(second.get("k"), Some(&strings(&["from a"])));
    assert_eq!(second.get("a"), Some(&strings(&["1"])));
    assert_eq!(second.get("b"), Some(&strings(&["2"])));
}

#[test]
fn other_files_are_passed_over() {
    let (loader, actions) = drive(
        Loader::scan("data".to_string()),
        vec![
            LoadEvent::DirectoryOpened,
            found("data/notes.txt"),
            found("data/sub"),
            found("data/A.JSON"),
            found("data/.json"),
            found("data/a.json"),
        ],
    );
    assert_eq!(
        actions,
        vec![
            LoadAction::NextEntry,
            LoadAction::NextEntry,
            LoadAction::NextEntry,
            LoadAction::NextEntry,
            LoadAction::NextEntry,
            LoadAction::ReadFile { path: "data/a.json".to_string() },
        ]
    );
    assert!(!loader.is_finished());
    let with = scan(vec![
        found("data/notes.txt"),
        found("data/a.json"),
        text(r#"{"k1": ["x"]}"#),
        found("data/sub"),
    ])
    .unwrap();
    let without = scan(vec![found("data/a.json"), text(r#"{"k1": ["x"]}"#)]).unwrap();
    assert_eq!(with.len(), 1);
    assert_eq!(without.len(), 1);
    assert_eq!(with.get("k1"), without.get("k1"));
    assert!(!with.contains_key("notes"));
}

#[test]
fn directory_of_other_files_only_loads_empty() {
    let table = scan(vec![found("data/notes.txt"), found("data/readme")]).unwrap();
    assert!(table.is_empty());
}

#[test]
fn file_that_does_not_parse_ends_the_load() {
    for bad in [r#"[{"k": ["x"]}]"#, r#"{"k": "x"}"#, r#"{"k": [1]}"#, "{"] {
        let (loader, actions) = drive(
            Loader::scan("data".to_string()),
            vec![
                LoadEvent::DirectoryOpened,
                found("data/a.json"),
                text(r#"{"k1": ["x"]}"#),
                found("data/bad.json"),
                text(bad),
                found("data/c.json"),
                text(r#"{"k3": ["z"]}"#),
                LoadEvent::EntriesDone,
            ],
        );
        assert_eq!(actions[4..].to_vec(), vec![LoadAction::Stop; 4]);
        let error = loader.outcome().unwrap().unwrap_err();
        assert!(matches!(error, LoadError::ParseError { .. }));
        assert_eq!(error.path(), "data/bad.json");
    }
}

#[test]
fn file_that_cannot_be_read_is_reported_once_and_ends_the_load() {
    let (loader, actions) = drive(
        Loader::scan("data".to_string()),
        vec![
            LoadEvent::DirectoryOpened,
            found("data/a.json"),
            LoadEvent::FileUnreadable { cause: "stream did not contain valid UTF-8".to_string() },
        ],
    );
    assert_eq!(
        actions[2],
        LoadAction::Report { line: "stream did not contain valid UTF-8".to_string() }
    );
    assert!(!loader.is_finished());
    let (loader, actions) = drive(loader, vec![LoadEvent::Reported, LoadEvent::Reported]);
    assert_eq!(actions, vec![LoadAction::Stop, LoadAction::Stop]);
    assert_eq!(
        loader.outcome().unwrap().unwrap_err(),
        LoadError::FileReadError {
            path: "data/a.json".to_string(),
            cause: "stream did not contain valid UTF-8".to_string(),
        }
    );
}

#[test]
fn event_that_answers_nothing_changes_nothing() {
    let (loader, actions) = drive(
        Loader::setup("data".to_string()),
        vec![
            LoadEvent::EntriesDone,
            LoadEvent::DirectoryOpened,
            text("{}"),
            LoadEvent::Reported,
            LoadEvent::DirectoryCreateFailed { cause: "denied".to_string() },
        ],
    );
    assert_eq!(actions, vec![LoadAction::CheckRoot { path: "data".to_string() }; 5]);
    assert!(matches!(loader, Loader::CheckingRoot { .. }));
    let (loader, actions) = drive(
        Loader::scan("data".to_string()),
        vec![
            LoadEvent::DirectoryOpened,
            LoadEvent::RootMissing,
            text(r#"{"k": ["x"]}"#),
            found("data/a.json"),
            found("data/b.json"),
            LoadEvent::EntriesDone,
        ],
    );
    assert_eq!(
        actions,
        vec![
            LoadAction::NextEntry,
            LoadAction::NextEntry,
            LoadAction::NextEntry,
            LoadAction::ReadFile { path: "data/a.json".to_string() },
            LoadAction::ReadFile { path: "data/a.json".to_string() },
            LoadAction::ReadFile { path: "data/a.json".to_string() },
        ]
    );
    assert!(loader.outcome().is_none());
}

#[test]
fn finished_load_stays_finished() {
    let (loader, _) = drive(
        Loader::scan("data".to_string()),
        vec![LoadEvent::DirectoryOpened, found("data/a.json"), text(r#"{"k1": ["x"]}"#), LoadEvent::EntriesDone],
    );
    assert!(loader.is_finished());
    assert_eq!(loader.pending(), LoadAction::Stop);
    let (loader, actions) = drive(
        loader,
        vec![found("data/b.json"), text(r#"{"k2": ["y"]}"#), LoadEvent::ListingFailed { cause: "late".to_string() }],
    );
    assert_eq!(actions, vec![LoadAction::Stop; 3]);
    let table = loader.outcome().unwrap().unwrap();
    assert_eq!(table.len(), 1);
    assert_eq!(table.get("k1"), Some(&strings(&["x"])));
}

#[test]
fn outcome_of_a_load_in_progress_is_none() {
    assert!(Loader::setup("data".to_string()).outcome().is_none());
    let (loader, _) = drive(Loader::scan("data".to_string()), vec![LoadEvent::DirectoryOpened]);
    assert!(!loader.is_finished());
    assert!(loader.outcome().is_none());
}

#[test]
fn loading_twice_gives_the_same_table() {
    let listing = vec![
        found("data/a.json"),
        text(r#"{"k1": ["x"], "shared": ["a"]}"#),
        found("data/notes.txt"),
        found("data/b.json"),
        text(r#"{"k2": ["y","z"], "shared": ["b"]}"#),
    ];
    let first = scan(listing.clone()).unwrap();
    let second = scan(listing).unwrap();
    assert_eq!(first.len(), 3);
    assert_eq!(second.len(), 3);
    for key in ["k1", "k2", "shared"] {
        assert!(first.contains_key(key));
        assert_eq!(first.get(key), second.get(key));
    }
    assert_eq!(first.get("shared"), Some(&strings(&["b"])));
}

#[test]
fn loading_in_another_order_gives_the_same_table_where_files_agree() {
    let a = vec![found("data/a.json"), text(r#"{"k1": ["x"], "shared": ["same"]}"#)];
    let b = vec![found("data/b.json"), text(r#"{"shared": ["same"], "k2": ["y"]}"#)];
    let c = vec![found("data/c.json"), text(r#"{"k3": []}"#)];
    let first = scan([a.clone(), b.clone(), c.clone()].concat()).unwrap();
    let second = scan([c, b, a].concat()).unwrap();
    assert_eq!(first.len(), 4);
    assert_eq!(second.len(), 4);
    for key in ["k1", "k2", "k3", "shared"] {
        assert!(first.contains_key(key));
        assert_eq!(first.get(key), second.get(key));
    }
}

#[test]
fn fragment_is_merged_and_the_listing_goes_on() {
    let mut table = Data::new();
    table.insert("kept".to_string(), strings(&["k"]));
    table.insert("shared".to_string(), strings(&["old"]));
    let mut fragment = Data::new();
    fragment.insert("shared".to_string(), strings(&["new", "newer"]));
    fragment.insert("added".to_string(), strings(&[]));
    let loader = Loader::after_fragment("data".to_string(), table, Ok(fragment));
    assert_eq!(loader.pending(), LoadAction::NextEntry);
    match loader {
        Loader::Listing { root, table } => {
            assert_eq!(root, "data");
            assert_eq!(table.len(), 3);
            assert_eq!(table.get("kept"), Some(&strings(&["k"])));
            assert_eq!(table.get("shared"), Some(&strings(&["new", "newer"])));
            assert_eq!(table.get("added"), Some(&strings(&[])));
        }
        other => panic!("in state {:?}", other),
    }
}

#[test]
fn failed_fragment_ends_the_load_and_drops_the_table() {
    let mut table = Data::new();
    table.insert("kept".to_string(), strings(&["k"]));
    let failure = LoadError::ParseError { path: "data/a.json".to_string(), cause: "expected value".to_string() };
    let loader = Loader::after_fragment("data".to_string(), table, Err(failure.clone()));
    assert!(loader.is_finished());
    assert_eq!(loader.pending(), LoadAction::Stop);
    assert_eq!(loader.outcome().unwrap().unwrap_err(), failure);
}
