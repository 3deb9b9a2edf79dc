//! What a whole scan of a directory comes to, and what holds of it.
//!
//! A directory is modelled as the files that its listing gives, in the order
//! in which it gives them. `scan` says which table or failure the load ends
//! with, and the lemmas say what holds of that table.

use crate::storage::entry::EntryView;
use crate::storage::error::ErrorKind;
use crate::storage::error::Failure;
use crate::storage::json::json_fragment;
use crate::storage::json::spec_fragment_of;
use crate::storage::loader::EventView;
use crate::storage::table::Table;
use vstd::prelude::*;

verus! {

/// A file as the listing gives it: its entry, and what reading it as text
/// gives, the text or the cause of the failure.
pub struct ScannedFile {
    pub entry: EntryView,
    pub content: Result<Seq<char>, Seq<char>>,
}

impl ScannedFile {
    /// Whether the load reads the file at all.
    pub open spec fn counts(self) -> bool {
        self.entry.is_json()
    }

    /// What reading and parsing the file gives.
    pub open spec fn fragment(self) -> Result<Table, Failure> {
        match self.content {
            Ok(text) => spec_fragment_of(self.entry.path, json_fragment(text)),
            Err(cause) => Err(Failure { kind: ErrorKind::FileRead, path: self.entry.path, cause }),
        }
    }

    /// Whether the file lets the load go on: it is passed over, or it is
    /// read and parsed.
    pub open spec fn loads(self) -> bool {
        self.counts() ==> self.fragment() is Ok
    }

    /// What the file adds to the table: its fragment, or nothing where it is
    /// passed over.
    pub open spec fn table(self) -> Table {
        if self.counts() && self.fragment() is Ok {
            self.fragment()->Ok_0
        } else {
            Map::empty()
        }
    }

    /// Whether the file defines the key.
    pub open spec fn supplies(self, key: Seq<char>) -> bool {
        self.table().contains_key(key)
    }

    /// What the caller reports while the load is at this file.
    pub open spec fn events(self) -> Seq<EventView> {
        if !self.counts() {
            seq![EventView::EntryFound { entry: self.entry }]
        } else {
            match self.content {
                Ok(text) => seq![
                    EventView::EntryFound { entry: self.entry },
                    EventView::FileText { text },
                ],
                Err(cause) => seq![
                    EventView::EntryFound { entry: self.entry },
                    EventView::FileUnreadable { cause },
                    EventView::Reported,
                ],
            }
        }
    }
}

/// The table after the files were merged into `table` in their order, or the
/// failure of the first file that does not load.
pub open spec fn scan_from(table: Table, files: Seq<ScannedFile>) -> Result<Table, Failure>
    decreases files.len(),
{
    if files.len() == 0 {
        Ok(table)
    } else {
        match scan_from(table, files.drop_last()) {
            Ok(merged) => if files.last().loads() {
                Ok(merged.union_prefer_right(files.last().table()))
            } else {
                Err(files.last().fragment()->Err_0)
            },
            Err(failure) => Err(failure),
        }
    }
}

/// What a load of the directory returns.
pub open spec fn scan(files: Seq<ScannedFile>) -> Result<Table, Failure> {
    scan_from(Map::empty(), files)
}

/// Every file lets the load go on.
pub open spec fn all_load(files: Seq<ScannedFile>) -> bool {
    forall|i: int| 0 <= i < files.len() ==> (#[trigger] files[i]).loads()
}

/// Some file defines the key.
pub open spec fn supplied(files: Seq<ScannedFile>, key: Seq<char>) -> bool {
    exists|i: int| 0 <= i < files.len() && (#[trigger] files[i]).supplies(key)
}

/// No key is defined by two files.
pub open spec fn disjoint_keys(files: Seq<ScannedFile>) -> bool {
    forall|i: int, j: int, key: Seq<char>|
        0 <= i < j < files.len() ==> !((#[trigger] files[i].supplies(key)) && (
        #[trigger] files[j].supplies(key)))
}

/// Files that define the same key list the same strings under it.
pub open spec fn agree_on_shared_keys(files: Seq<ScannedFile>) -> bool {
    forall|i: int, j: int, key: Seq<char>|
        0 <= i < files.len() && 0 <= j < files.len() && (#[trigger] files[i].supplies(key)) && (
        #[trigger] files[j].supplies(key)) ==> files[i].table()[key] == files[j].table()[key]
}

/// Whether the file at `at` is the last of the listing to define the key.
pub open spec fn is_last_supplier(files: Seq<ScannedFile>, at: int, key: Seq<char>) -> bool {
    &&& 0 <= at < files.len()
    &&& files[at].supplies(key)
    &&& forall|j: int| at < j < files.len() ==> !(#[trigger] files[j]).supplies(key)
}

/// Under each key, the last file to define it lists the same strings in the
/// one listing as in the other.
pub open spec fn same_last_values(first: Seq<ScannedFile>, second: Seq<ScannedFile>) -> bool {
    forall|key: Seq<char>, i: int, j: int|
        #![trigger is_last_supplier(first, i, key), is_last_supplier(second, j, key)]
        is_last_supplier(first, i, key) && is_last_supplier(second, j, key) ==> first[i].table()[key]
            == second[j].table()[key]
}

/// How many keys the files define, each file counted by itself.
pub open spec fn key_count(files: Seq<ScannedFile>) -> nat
    decreases files.len(),
{
    if files.len() == 0 {
        0
    } else {
        key_count(files.drop_last()) + files.last().table().len()
    }
}

/// Two listings give the same files, in whatever order.
pub open spec fn same_files(first: Seq<ScannedFile>, second: Seq<ScannedFile>) -> bool {
    forall|file: ScannedFile| first.contains(file) <==> second.contains(file)
}

/// A load returns a table exactly when every file lets it go on.
pub proof fn lemma_scan_succeeds(table: Table, files: Seq<ScannedFile>)
    ensures
        scan_from(table, files) is Ok <==> all_load(files),
    decreases files.len(),
{
    if files.len() > 0 {
        let front = files.drop_last();
        lemma_scan_succeeds(table, front);
        if scan_from(table, files) is Ok {
            assert forall|i: int| 0 <= i < files.len() implies (#[trigger] files[i]).loads() by {
                if i < front.len() {
                    assert(front[i].loads());
                }
            }
        }
    }
}

/// The load fails with the failure of the first file that does not load: a
/// read failure where the file could not be read, else a parse failure, and
/// either at that file's path. No table is returned.
pub proof fn lemma_scan_fails_at(table: Table, files: Seq<ScannedFile>, at: int)
    requires
        0 <= at < files.len(),
        !files[at].loads(),
        forall|i: int| 0 <= i < at ==> (#[trigger] files[i]).loads(),
    ensures
        scan_from(table, files) == Err::<Table, Failure>(files[at].fragment()->Err_0),
        files[at].fragment()->Err_0.path == files[at].entry.path,
        files[at].fragment()->Err_0.kind == if files[at].content is Ok {
            ErrorKind::Parse
        } else {
            ErrorKind::FileRead
        },
    decreases files.len(),
{
    let front = files.drop_last();
    if at == files.len() - 1 {
        lemma_scan_succeeds(table, front);
    } else {
        lemma_scan_fails_at(table, front, at);
    }
}

/// The keys of the returned table are those that the load started with and
/// those that some file defines.
pub proof fn lemma_scan_keys(table: Table, files: Seq<ScannedFile>)
    requires
        all_load(files),
    ensures
        scan_from(table, files) is Ok,
        forall|key: Seq<char>| #[trigger]
            scan_from(table, files)->Ok_0.contains_key(key) <==> table.contains_key(key)
                || supplied(files, key),
    decreases files.len(),
{
    if files.len() > 0 {
        let front = files.drop_last();
        lemma_scan_keys(table, front);
        assert forall|key: Seq<char>| #[trigger]
            scan_from(table, files)->Ok_0.contains_key(key) <==> table.contains_key(key)
                || supplied(files, key) by {
            if supplied(files, key) {
                let i = choose|i: int| 0 <= i < files.len() && (#[trigger] files[i]).supplies(key);
                if i < front.len() {
                    assert(front[i].supplies(key));
                }
            }
            if supplied(front, key) {
                let i = choose|i: int| 0 <= i < front.len() && (#[trigger] front[i]).supplies(key);
                assert(files[i].supplies(key));
            }
            if files.last().supplies(key) {
                assert(files[files.len() - 1].supplies(key));
            }
        }
    }
}

/// A key that no file defines keeps what the load started with.
pub proof fn lemma_scan_keeps(table: Table, files: Seq<ScannedFile>, key: Seq<char>)
    requires
        all_load(files),
        !supplied(files, key),
        table.contains_key(key),
    ensures
        scan_from(table, files) is Ok,
        scan_from(table, files)->Ok_0.contains_key(key),
        scan_from(table, files)->Ok_0[key] == table[key],
    decreases files.len(),
{
    if files.len() > 0 {
        let front = files.drop_last();
        lemma_scan_keeps(table, front, key);
    }
}

/// Last wins: under a key, the returned table lists what the last file that
/// defines the key lists under it.
pub proof fn lemma_scan_last_wins(
    table: Table,
    files: Seq<ScannedFile>,
    at: int,
    key: Seq<char>,
)
    requires
        all_load(files),
        is_last_supplier(files, at, key),
    ensures
        scan_from(table, files) is Ok,
        scan_from(table, files)->Ok_0.contains_key(key),
        scan_from(table, files)->Ok_0[key] == files[at].table()[key],
    decreases files.len(),
{
    let front = files.drop_last();
    lemma_scan_succeeds(table, front);
    if at < files.len() - 1 {
        lemma_scan_last_wins(table, front, at, key);
    }
}

/// Where some file defines the key, one of them is the last to do so.
pub proof fn lemma_last_supplier(files: Seq<ScannedFile>, key: Seq<char>) -> (at: int)
    requires
        supplied(files, key),
    ensures
        is_last_supplier(files, at, key),
    decreases files.len(),
{
    let i = choose|i: int| 0 <= i < files.len() && (#[trigger] files[i]).supplies(key);
    if files.last().supplies(key) {
        files.len() - 1
    } else {
        let front = files.drop_last();
        assert(front[i].supplies(key));
        let at = lemma_last_supplier(front, key);
        assert forall|j: int| at < j < files.len() implies !(#[trigger] files[j]).supplies(
            key,
        ) by {
            if j < front.len() {
                assert(!front[j].supplies(key));
            }
        }
        at
    }
}

/// Round trip: where every file loads and no key is defined twice, the
/// returned table has exactly the keys that the files define, under each key
/// exactly the strings of the file that defines it, in their order, and as
/// many keys as the files have together.
pub proof fn lemma_disjoint_files_round_trip(files: Seq<ScannedFile>)
    requires
        all_load(files),
        disjoint_keys(files),
    ensures
        scan(files) is Ok,
        forall|key: Seq<char>| #[trigger] scan(files)->Ok_0.contains_key(key) <==> supplied(files, key),
        forall|i: int, key: Seq<char>|
            0 <= i < files.len() && (#[trigger] files[i].supplies(key)) ==> scan(
                files,
            )->Ok_0[key] == files[i].table()[key],
        scan(files)->Ok_0.dom().finite(),
        scan(files)->Ok_0.len() == key_count(files),
{
    lemma_scan_keys(Map::empty(), files);
    lemma_scan_finite(Map::empty(), files);
    lemma_scan_count(Map::empty(), files);
    assert forall|i: int, key: Seq<char>|
        0 <= i < files.len() && (#[trigger] files[i].supplies(key)) implies scan(
        files,
    )->Ok_0[key] == files[i].table()[key] by {
        lemma_scan_last_wins(Map::empty(), files, i, key);
    }
}

/// One value, never a blend: under each of its keys the returned table lists
/// exactly what one of the files lists under it.
pub proof fn lemma_value_of_one_file(files: Seq<ScannedFile>, key: Seq<char>) -> (at: int)
    requires
        all_load(files),
        scan(files)->Ok_0.contains_key(key),
    ensures
        is_last_supplier(files, at, key),
        scan(files)->Ok_0[key] == files[at].table()[key],
{
    lemma_scan_keys(Map::empty(), files);
    let at = lemma_last_supplier(files, key);
    lemma_scan_last_wins(Map::empty(), files, at, key);
    at
}

/// Where two files define one key, and no other file does, the returned
/// table lists under it what the later of the two lists, whatever the
/// earlier one lists.
pub proof fn lemma_shared_key(files: Seq<ScannedFile>, earlier: int, later: int, key: Seq<char>)
    requires
        all_load(files),
        0 <= earlier < later < files.len(),
        files[earlier].supplies(key),
        files[later].supplies(key),
        forall|j: int|
            0 <= j < files.len() && j != earlier && j != later ==> !(#[trigger] files[j]).supplies(
                key,
            ),
    ensures
        scan(files) is Ok,
        scan(files)->Ok_0.contains_key(key),
        scan(files)->Ok_0[key] == files[later].table()[key],
{
    lemma_scan_last_wins(Map::empty(), files, later, key);
}

/// A file that the load passes over changes nothing: the load ends as it
/// does without the file.
pub proof fn lemma_other_files_ignored(table: Table, files: Seq<ScannedFile>, at: int)
    requires
        0 <= at < files.len(),
        !files[at].counts(),
    ensures
        scan_from(table, files) == scan_from(table, files.remove(at)),
    decreases files.len(),
{
    let front = files.drop_last();
    if at == files.len() - 1 {
        if scan_from(table, front) is Ok {
            assert(scan_from(table, front)->Ok_0.union_prefer_right(Table::empty())
                == scan_from(table, front)->Ok_0);
        }
    } else {
        lemma_other_files_ignored(table, front, at);
        assert(files.remove(at).drop_last() == front.remove(at));
    }
}

/// Two loads of one directory return tables with the same keys, in whatever
/// order the two listings give the files.
pub proof fn lemma_reload_keys(first: Seq<ScannedFile>, second: Seq<ScannedFile>)
    requires
        same_files(first, second),
        all_load(first),
    ensures
        scan(first) is Ok,
        scan(second) is Ok,
        scan(first)->Ok_0.dom() == scan(second)->Ok_0.dom(),
{
    lemma_same_files_load(first, second);
    lemma_scan_keys(Map::empty(), first);
    lemma_scan_keys(Map::empty(), second);
    assert forall|key: Seq<char>| supplied(first, key) <==> supplied(second, key) by {
        if supplied(first, key) {
            lemma_same_files_supply(first, second, key);
        }
        if supplied(second, key) {
            lemma_same_files_supply(second, first, key);
        }
    }
}

/// Two loads of one directory return the same table wherever, under each
/// key, the last file to define it lists the same strings in both listings.
/// That is so where both listings give the files in one order, and where
/// the files agree on the keys that they share (`lemma_reload_agreeing`).
pub proof fn lemma_reload(first: Seq<ScannedFile>, second: Seq<ScannedFile>)
    requires
        same_files(first, second),
        all_load(first),
        same_last_values(first, second),
    ensures
        scan(first) is Ok,
        scan(first) == scan(second),
{
    lemma_reload_keys(first, second);
    lemma_same_files_load(first, second);
    let one = scan(first)->Ok_0;
    let two = scan(second)->Ok_0;
    assert forall|key: Seq<char>| one.contains_key(key) implies one[key] == two[key] by {
        assert(two.dom().contains(key));
        let i = lemma_value_of_one_file(first, key);
        let j = lemma_value_of_one_file(second, key);
        assert(is_last_supplier(first, i, key) && is_last_supplier(second, j, key));
    }
    assert(one =~= two);
}

/// Two loads of one directory return the same table, in whatever order the
/// two listings give the files, where the files agree on the keys that they
/// share.
pub proof fn lemma_reload_agreeing(first: Seq<ScannedFile>, second: Seq<ScannedFile>)
    requires
        same_files(first, second),
        all_load(first),
        agree_on_shared_keys(first),
    ensures
        scan(first) is Ok,
        scan(first) == scan(second),
{
    assert forall|key: Seq<char>, i: int, j: int|
        #![trigger is_last_supplier(first, i, key), is_last_supplier(second, j, key)]
        is_last_supplier(first, i, key) && is_last_supplier(second, j, key) implies first[i].table()[key]
        == second[j].table()[key] by {
        assert(first.contains(second[j]));
        let k = choose|k: int| 0 <= k < first.len() && first[k] == second[j];
        assert(first[k].supplies(key) && first[i].supplies(key));
    }
    lemma_reload(first, second);
}

/// The table of a load has finitely many keys, where the table that the
/// load started with has.
pub proof fn lemma_scan_finite(table: Table, files: Seq<ScannedFile>)
    requires
        table.dom().finite(),
        all_load(files),
    ensures
        scan_from(table, files) is Ok,
        scan_from(table, files)->Ok_0.dom().finite(),
    decreases files.len(),
{
    lemma_scan_succeeds(table, files);
    if files.len() > 0 {
        let front = files.drop_last();
        lemma_scan_succeeds(table, front);
        lemma_scan_finite(table, front);
        let merged = scan_from(table, front)->Ok_0;
        assert(merged.union_prefer_right(files.last().table()).dom() =~= merged.dom()
            + files.last().table().dom());
    }
}

/// Where no key is defined twice, nor defined by a file and held by the
/// table that the load started with, the returned table has as many keys as
/// that table and the files together.
pub proof fn lemma_scan_count(table: Table, files: Seq<ScannedFile>)
    requires
        table.dom().finite(),
        all_load(files),
        disjoint_keys(files),
        forall|key: Seq<char>| table.contains_key(key) ==> !supplied(files, key),
    ensures
        scan_from(table, files) is Ok,
        scan_from(table, files)->Ok_0.len() == table.len() + key_count(files),
    decreases files.len(),
{
    lemma_scan_succeeds(table, files);
    if files.len() > 0 {
        let front = files.drop_last();
        let last = files.last();
        lemma_scan_succeeds(table, front);
        assert forall|key: Seq<char>| table.contains_key(key) implies !supplied(front, key) by {
            if supplied(front, key) {
                let i = choose|i: int| 0 <= i < front.len() && (#[trigger] front[i]).supplies(key);
                assert(files[i].supplies(key));
                assert(supplied(files, key));
            }
        }
        assert(disjoint_keys(front)) by {
            assert forall|i: int, j: int, key: Seq<char>| 0 <= i < j < front.len() implies !((
            #[trigger] front[i].supplies(key)) && (#[trigger] front[j].supplies(key))) by {
                assert(!(files[i].supplies(key) && files[j].supplies(key)));
            }
        }
        lemma_scan_count(table, front);
        lemma_scan_finite(table, front);
        lemma_scan_keys(table, front);
        let merged = scan_from(table, front)->Ok_0;
        assert(merged.dom().disjoint(last.table().dom())) by {
            assert forall|key: Seq<char>| merged.dom().contains(key) implies !last.table().dom().contains(
                key,
            ) by {
                if last.supplies(key) {
                    assert(files[files.len() - 1].supplies(key));
                    assert(supplied(files, key));
                    assert(scan_from(table, front)->Ok_0.contains_key(key));
                    if supplied(front, key) {
                        let i = choose|i: int|
                            0 <= i < front.len() && (#[trigger] front[i]).supplies(key);
                        assert(!(files[i].supplies(key) && files[files.len() - 1].supplies(key)));
                    }
                }
            }
        }
        assert(merged.union_prefer_right(last.table()).dom() =~= merged.dom() + last.table().dom());
        vstd::set_lib::lemma_set_disjoint_lens(merged.dom(), last.table().dom());
    }
}

/// What loads in one listing loads in another of the same files.
proof fn lemma_same_files_load(first: Seq<ScannedFile>, second: Seq<ScannedFile>)
    requires
        same_files(first, second),
        all_load(first),
    ensures
        all_load(second),
{
    assert forall|j: int| 0 <= j < second.len() implies (#[trigger] second[j]).loads() by {
        assert(first.contains(second[j]));
        let k = choose|k: int| 0 <= k < first.len() && first[k] == second[j];
        assert(first[k].loads());
    }
}

/// A key that one listing's files define is defined in another listing of
/// the same files.
proof fn lemma_same_files_supply(
    first: Seq<ScannedFile>,
    second: Seq<ScannedFile>,
    key: Seq<char>,
)
    requires
        same_files(first, second),
        supplied(first, key),
    ensures
        supplied(second, key),
{
    let i = choose|i: int| 0 <= i < first.len() && (#[trigger] first[i]).supplies(key);
    assert(second.contains(first[i]));
    let k = choose|k: int| 0 <= k < second.len() && second[k] == first[i];
    assert(second[k].supplies(key));
}

} // verus!
