//! What the key-value store script names, writes and looks up, and the lines
//! in which it reports what it found.

use crate::decimal::{digits, lemma_digits_shape, lemma_value_of_digits, render};
use vstd::prelude::*;
use vstd::string::*;

verus! {

/// Name of the table that holds text keys and text values.
pub const TEXT_TABLE: &'static str = "my_table";

/// Name of the table that holds a count for each numbered statistic.
pub const COUNT_TABLE: &'static str = "STATISTIC_TO_COUNT";

/// The entries that the script writes, as (key, value), in the order of writing.
pub open spec fn seeds() -> Seq<(Seq<char>, Seq<char>)> {
    seq![("key1"@, "value1"@), ("key2"@, "value2"@), ("key3"@, "value3"@)]
}

/// The keys that the script looks up, in the order of asking.
pub open spec fn lookups() -> Seq<Seq<char>> {
    seq!["key1"@, "key2"@]
}

/// A report line for one entry: the key, a colon, a blank, the value.
pub open spec fn entry_text(key: Seq<char>, value: Seq<char>) -> Seq<char> {
    key + ": "@ + value
}

/// A report line for one table.
pub open spec fn table_text(name: Seq<char>) -> Seq<char> {
    "Table name: "@ + name
}

/// The entries to write into the text table.
pub fn seed_entries() -> (entries: Vec<(&'static str, &'static str)>)
    ensures
        entries.deep_view() == seeds(),
{
    let mut entries: Vec<(&'static str, &'static str)> = Vec::new();
    entries.push(("key1", "value1"));
    entries.push(("key2", "value2"));
    entries.push(("key3", "value3"));
    assert(entries.deep_view() =~= seeds());
    entries
}

/// The keys to look up in the text table.
pub fn lookup_keys() -> (keys: Vec<&'static str>)
    ensures
        keys.deep_view() == lookups(),
{
    let mut keys: Vec<&'static str> = Vec::new();
    keys.push("key1");
    keys.push("key2");
    assert(keys.deep_view() =~= lookups());
    keys
}

/// Writes the report line for an entry of the text table.
pub fn entry_line(key: &str, value: &str) -> (line: String)
    ensures
        line@ == entry_text(key@, value@),
{
    let mut line = String::from_str(key);
    line.append(": ");
    line.append(value);
    line
}

/// Writes the report line for a key that was looked up: a line where the
/// store held a value, none where it did not.
pub fn lookup_line(key: &str, found: Option<&str>) -> (line: Option<String>)
    ensures
        match found {
            Some(value) => line matches Some(text) && text@ == entry_text(key@, value@),
            None => line is None,
        },
{
    match found {
        Some(value) => Some(entry_line(key, value)),
        None => None,
    }
}

/// Writes the report line for an entry of the count table, both numbers in
/// decimal.
pub fn count_line(key: u64, value: u64) -> (line: String)
    ensures
        line@ == entry_text(digits(key as nat), digits(value as nat)),
{
    let key_text = render(key);
    let value_text = render(value);
    entry_line(key_text.as_str(), value_text.as_str())
}

/// Writes the report line for a table of the given name.
pub fn table_line(name: &str) -> (line: String)
    ensures
        line@ == table_text(name@),
{
    let mut line = String::from_str("Table name: ");
    line.append(name);
    line
}

/// Two lines of the count table that read the same stand for the same key
/// and the same value: the report can be read back without doubt.
pub proof fn lemma_count_lines_tell_apart(key: nat, count: nat, other_key: nat, other_count: nat)
    requires
        entry_text(digits(key), digits(count)) == entry_text(
            digits(other_key),
            digits(other_count),
        ),
    ensures
        key == other_key,
        count == other_count,
{
    reveal_strlit(": ");
    let line = entry_text(digits(key), digits(count));
    let other_line = entry_text(digits(other_key), digits(other_count));
    let width = digits(key).len() as int;
    let other_width = digits(other_key).len() as int;
    lemma_digits_shape(key);
    lemma_digits_shape(other_key);
    if width < other_width {
        assert(line[width] == ':');
        assert(other_line[width] == digits(other_key)[width]);
    } else if other_width < width {
        assert(other_line[other_width] == ':');
        assert(line[other_width] == digits(key)[other_width]);
    }
    assert(width == other_width);
    assert(digits(key) =~= line.subrange(0, width));
    assert(digits(other_key) =~= other_line.subrange(0, width));
    assert(digits(count) =~= line.subrange(width + 2, line.len() as int));
    assert(digits(other_count) =~= other_line.subrange(width + 2, other_line.len() as int));
    lemma_value_of_digits(key);
    lemma_value_of_digits(other_key);
    lemma_value_of_digits(count);
    lemma_value_of_digits(other_count);
}

} // verus!
