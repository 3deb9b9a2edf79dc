//! A document's text and the entries it holds.

use crate::storage::error::ErrorKind;
use crate::storage::error::Failure;
use crate::storage::error::result_view;
use crate::storage::error::LoadError;
use crate::storage::table::entries_map;
use crate::storage::table::lemma_entries_map_keys;
use crate::storage::table::Data;
use crate::storage::table::Entry;
use crate::storage::table::Table;
use std::collections::HashMap;
use vstd::prelude::*;
use vstd::string::StringExecFns;

verus! {

/// What `serde_json` makes of a text that is read as an object of string
/// lists: the object as a map, or the parser's message where the text is not
/// such an object. Nothing more is said of it: which texts are such objects
/// is the parser's to decide.
pub uninterp spec fn json_fragment(text: Seq<char>) -> Result<
    Map<Seq<char>, Seq<Seq<char>>>,
    Seq<char>,
>;

/// Calls `serde_json::from_str` to read the text as a
/// `HashMap<String, Vec<String>>`. A map comes back as its entries, one for
/// each pair of the map and in the order in which the map hands them out; an
/// error comes back as the line that it displays.
///
/// Not proved, but taken from the parser: what comes back depends on the
/// text alone, whatever the order of the entries, so that `json_fragment`
/// can name it.
#[verifier::external_body]
fn parse_object(text: &str) -> (parsed: Result<Vec<Entry>, String>)
    ensures
        match parsed {
            Ok(entries) => json_fragment(text@) == Ok::<Table, Seq<char>>(entries_map(entries@)),
            Err(message) => json_fragment(text@) == Err::<Table, Seq<char>>(message@),
        },
{
    match serde_json::from_str::<HashMap<String, Vec<String>>>(text) {
        Ok(object) => Ok(object.into_iter().map(|(key, values)| Entry { key, values }).collect()),
        Err(error) => Err(error.to_string()),
    }
}

/// A parsed object as a table. An object has finitely many keys, and so has
/// every map that the parser hands out; a map with infinitely many keys is
/// the object of no text and counts as the empty table.
pub open spec fn object_table(object: Table) -> Table {
    if object.dom().finite() {
        object
    } else {
        Map::empty()
    }
}

/// The fragment of the file at `path`, given what the parser made of the
/// file's text: the object as a table, or a parse failure at that path with
/// the parser's message as its cause.
pub open spec fn spec_fragment_of(path: Seq<char>, parsed: Result<Table, Seq<char>>) -> Result<
    Table,
    Failure,
> {
    match parsed {
        Ok(object) => Ok(object_table(object)),
        Err(message) => Err(Failure { kind: ErrorKind::Parse, path, cause: message }),
    }
}

/// Turns what the parser made of a file's text into the file's fragment.
/// Entries become a table, where of two entries with one key the later
/// stays; a message becomes a parse failure at `path`.
pub fn fragment_of(path: &str, parsed: Result<Vec<Entry>, String>) -> (fragment: Result<
    Data,
    LoadError,
>)
    ensures
        result_view(fragment) == match parsed {
            Ok(entries) => Ok(entries_map(entries@)),
            Err(message) => Err(Failure { kind: ErrorKind::Parse, path: path@, cause: message@ }),
        },
        result_view(fragment) == spec_fragment_of(
            path@,
            match parsed {
                Ok(entries) => Ok(entries_map(entries@)),
                Err(message) => Err(message@),
            },
        ),
{
    match parsed {
        Ok(entries) => {
            let mut table = Data::new();
            table.extend(entries);
            proof {
                lemma_entries_map_keys(entries@);
                assert(table@ =~= entries_map(entries@));
            }
            Ok(table)
        },
        Err(message) => Err(LoadError::ParseError { path: String::from_str(path), cause: message }),
    }
}

/// Parses the text of the file at `path` as an object whose every value is a
/// list of strings. The whole text has to fit: there is no partial fragment.
pub fn parse_fragment(path: &str, text: &str) -> (fragment: Result<Data, LoadError>)
    ensures
        result_view(fragment) == spec_fragment_of(path@, json_fragment(text@)),
{
    fragment_of(path, parse_object(text))
}

} // verus!
