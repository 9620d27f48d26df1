//! The configuration document: a tree of tables and values, as TOML has them.

use crate::error::{Fault, SyncError};
use crate::names::{compare_names, Rank};
use crate::text::{split_words, words};
use crate::{AResult, CommandVector};
use vstd::prelude::*;

verus! {

/// A value of the configuration.
#[derive(Debug, PartialEq)]
pub enum ConfigValue {
    /// A text.
    String(String),
    /// A whole number.
    Integer(i64),
    /// A number with a fraction. The library reads none, so its value is not
    /// kept.
    Float,
    /// A truth value.
    Boolean(bool),
    /// A date or time, in the text form that TOML gives it.
    Datetime(String),
    /// A list of values.
    Array(Vec<ConfigValue>),
    /// A table of its own.
    Table(ConfigTable),
}

/// A table of the configuration: keys with their values, in the order in
/// which the table is walked.
#[derive(Debug, PartialEq)]
pub struct ConfigTable {
    /// The keys with their values. Where a key stands twice, the first entry
    /// counts.
    pub entries: Vec<(String, ConfigValue)>,
}

/// The value that the first entry with the given key holds.
pub open spec fn lookup(entries: Seq<(String, ConfigValue)>, key: Seq<char>) -> Option<ConfigValue>
    decreases entries.len(),
{
    if entries.len() == 0 {
        None
    } else if entries[0].0@ == key {
        Some(entries[0].1)
    } else {
        lookup(entries.drop_first(), key)
    }
}

/// `lookup` finds nothing where no entry has the key, and else the value of
/// the first entry that has it.
pub proof fn lemma_lookup(entries: Seq<(String, ConfigValue)>, key: Seq<char>, n: int)
    requires
        0 <= n <= entries.len(),
        forall|j: int| 0 <= j < n ==> (#[trigger] entries[j]).0@ != key,
    ensures
        n == entries.len() ==> lookup(entries, key) is None,
        n < entries.len() && entries[n].0@ == key ==> lookup(entries, key) == Some(entries[n].1),
    decreases n,
{
    if n > 0 {
        let rest = entries.drop_first();
        assert forall|j: int| 0 <= j < n - 1 implies (#[trigger] rest[j]).0@ != key by {
            assert(rest[j] == entries[j + 1]);
        }
        lemma_lookup(rest, key, n - 1);
    }
}

impl ConfigTable {
    /// A table without entries.
    pub fn new() -> (r: Self)
        ensures
            r.entries@ == Seq::<(String, ConfigValue)>::empty(),
    {
        ConfigTable { entries: Vec::new() }
    }

    /// The value under the key, if the table has the key.
    pub fn get(&self, key: &str) -> (r: Option<&ConfigValue>)
        ensures
            match r {
                Some(v) => lookup(self.entries@, key@) == Some(*v),
                None => lookup(self.entries@, key@) is None,
            },
    {
        let mut i: usize = 0;
        while i < self.entries.len()
            invariant
                i <= self.entries.len(),
                forall|j: int| 0 <= j < i ==> (#[trigger] self.entries@[j]).0@ != key@,
            decreases self.entries.len() - i,
        {
            match compare_names(self.entries[i].0.as_str(), key) {
                Rank::Same => {
                    proof {
                        lemma_lookup(self.entries@, key@, i as int);
                    }
                    return Some(&self.entries[i].1);
                },
                _ => {},
            }
            i += 1;
        }
        proof {
            lemma_lookup(self.entries@, key@, i as int);
        }
        None
    }

    /// Tells whether the table has the key.
    pub fn contains_key(&self, key: &str) -> (r: bool)
        ensures
            r == lookup(self.entries@, key@) is Some,
    {
        self.get(key).is_some()
    }
}

/// The tables with a `type` key that the first `n` entries of a table hold,
/// at whatever depth, in the order of the entries.
pub open spec fn tables_below(table: ConfigTable, n: nat) -> Seq<ConfigTable>
    decreases table, n,
{
    if n == 0 || n > table.entries@.len() {
        Seq::empty()
    } else {
        let found = tables_below(table, (n - 1) as nat);
        match table.entries@[n - 1].1 {
            ConfigValue::Table(sub) => found + config_tables(sub),
            _ => found,
        }
    }
}

/// The configuration tables of a document: the table itself where it has a
/// `type` key, else those that its entries hold.
pub open spec fn config_tables(table: ConfigTable) -> Seq<ConfigTable>
    decreases table, table.entries@.len() + 1,
{
    if lookup(table.entries@, "type"@) is Some {
        seq![table]
    } else {
        tables_below(table, table.entries@.len())
    }
}


/// Finds the configuration tables of a document.
pub fn find_config_tables(table: ConfigTable) -> (r: Vec<ConfigTable>)
    ensures
        r@ == config_tables(table),
    decreases table,
{
    if table.contains_key("type") {
        let mut r: Vec<ConfigTable> = Vec::new();
        r.push(table);
        assert(r@ =~= seq![table]);
        return r;
    }
    let ghost whole = table;
    let mut arr: Vec<ConfigTable> = Vec::new();
    for entry in it: table.entries
        invariant
            it.seq() == whole.entries@,
            arr@ == tables_below(whole, it.index() as nat),
    {
        assert(entry == whole.entries@[it.index() as int]);
        match entry.1 {
            ConfigValue::Table(sub) => {
                let mut found = find_config_tables(sub);
                arr.append(&mut found);
            },
            _ => {},
        }
    }
    arr
}


/// All the values are texts.
pub open spec fn all_strings(items: Seq<ConfigValue>) -> bool {
    forall|i: int| 0 <= i < items.len() ==> (#[trigger] items[i]) is String
}

/// The texts that the values are, where all of them are texts.
pub open spec fn string_items(items: Seq<ConfigValue>) -> Seq<Seq<char>> {
    Seq::new(items.len(), |i: int| items[i]->String_0@)
}

/// What is wrong with a value as a command, if anything: it is neither a
/// text nor a list, or a list that holds more than texts.
pub open spec fn command_fault(value: ConfigValue) -> Option<Fault> {
    match value {
        ConfigValue::String(_) => None,
        ConfigValue::Array(items) => if all_strings(items@) {
            None
        } else {
            Some(Fault::NonStringElements)
        },
        _ => Some(Fault::NotStringOrArray),
    }
}

/// The command that a value stands for: the words of a text, or the items of
/// a list of texts.
pub open spec fn command_of(value: ConfigValue) -> Seq<Seq<char>> {
    match value {
        ConfigValue::String(s) => words(s@),
        ConfigValue::Array(items) => string_items(items@),
        _ => Seq::empty(),
    }
}

/// Reads a command from a configuration value: a text gives its words, a list
/// of texts gives its items; anything else is an error.
#[verifier::loop_isolation(false)]
pub fn toml_value_to_cmd_array(val: &ConfigValue) -> (r: AResult<CommandVector>)
    ensures
        match command_fault(*val) {
            Some(fault) => r matches Err(e) && e@ == fault,
            None => r matches Ok(command) && command.deep_view() == command_of(*val),
        },
{
    match val {
        ConfigValue::String(s) => Ok(split_words(s.as_str())),
        ConfigValue::Array(arr) => {
            let mut str_arr: Vec<String> = Vec::new();
            let mut i: usize = 0;
            while i < arr.len()
                invariant
                    i <= arr.len(),
                    all_strings(arr@.take(i as int)),
                    str_arr.deep_view() == string_items(arr@.take(i as int)),
                decreases arr.len() - i,
            {
                let ghost before = str_arr.deep_view();
                match &arr[i] {
                    ConfigValue::String(s) => {
                        str_arr.push(s.clone());
                        assert(str_arr.deep_view() =~= before.push(s@));
                    },
                    _ => {
                        assert(!(arr@[i as int] is String));
                        return Err(SyncError::NonStringElements);
                    },
                }
                proof {
                    let now = arr@.take(i + 1);
                    assert forall|j: int| 0 <= j < now.len() implies (#[trigger] now[j]) is String by {
                        if j < i {
                            assert(now[j] == arr@.take(i as int)[j]);
                        }
                    }
                    assert forall|j: int| 0 <= j < i implies string_items(now)[j] == before[j] by {
                        assert(now[j] == arr@.take(i as int)[j]);
                    }
                    assert(str_arr.deep_view() =~= string_items(now));
                }
                i += 1;
            }
            assert(arr@.take(i as int) =~= arr@);
            Ok(str_arr)
        },
        _ => Err(SyncError::NotStringOrArray),
    }
}

/// The text that a value gives where a text is asked for: a text itself, and
/// a date or time in its text form.
pub open spec fn as_text(value: ConfigValue) -> Option<Seq<char>> {
    match value {
        ConfigValue::String(s) => Some(s@),
        ConfigValue::Datetime(s) => Some(s@),
        _ => None,
    }
}

/// All the values give a text.
pub open spec fn all_texts(items: Seq<ConfigValue>) -> bool {
    forall|i: int| 0 <= i < items.len() ==> as_text(#[trigger] items[i]) is Some
}

/// The texts that the values give, where all of them give one.
pub open spec fn text_items(items: Seq<ConfigValue>) -> Seq<Seq<char>> {
    Seq::new(items.len(), |i: int| as_text(items[i])->0)
}

/// Reads the text that a value gives, if it gives one.
fn text_of(value: &ConfigValue) -> (r: Option<String>)
    ensures
        match r {
            Some(s) => as_text(*value) == Some(s@),
            None => as_text(*value) is None,
        },
{
    match value {
        ConfigValue::String(s) => Some(s.clone()),
        ConfigValue::Datetime(s) => Some(s.clone()),
        _ => None,
    }
}

/// What is wrong with the value under a key where a text is asked for, if
/// anything.
pub open spec fn text_fault(entries: Seq<(String, ConfigValue)>, key: Seq<char>) -> Option<Fault> {
    match lookup(entries, key) {
        Some(value) => if as_text(value) is None {
            Some(Fault::WrongType(key))
        } else {
            None
        },
        None => None,
    }
}

/// The text under a key, or the default where the key has none.
pub open spec fn text_or(entries: Seq<(String, ConfigValue)>, key: Seq<char>, default: Seq<char>) -> Seq<char> {
    match lookup(entries, key) {
        Some(value) => match as_text(value) {
            Some(text) => text,
            None => default,
        },
        None => default,
    }
}

/// What is wrong with the value under a key where a list of texts is asked
/// for, if anything.
pub open spec fn list_fault(entries: Seq<(String, ConfigValue)>, key: Seq<char>) -> Option<Fault> {
    match lookup(entries, key) {
        Some(ConfigValue::Array(items)) => if all_texts(items@) {
            None
        } else {
            Some(Fault::WrongType(key))
        },
        Some(_) => Some(Fault::WrongType(key)),
        None => None,
    }
}

/// The list of texts under a key, or the default where the key has none.
pub open spec fn list_or(
    entries: Seq<(String, ConfigValue)>,
    key: Seq<char>,
    default: Seq<Seq<char>>,
) -> Seq<Seq<char>> {
    match lookup(entries, key) {
        Some(ConfigValue::Array(items)) => text_items(items@),
        _ => default,
    }
}

/// The text under a key of a table, or the default where the table has not
/// the key. A value that gives no text is an error.
pub fn get_text_from_table(table: &ConfigTable, key: &str, default: String) -> (r: AResult<String>)
    ensures
        match text_fault(table.entries@, key@) {
            Some(fault) => r matches Err(e) && e@ == fault,
            None => r matches Ok(s) && s@ == text_or(table.entries@, key@, default@),
        },
{
    match table.get(key) {
        None => Ok(default),
        Some(value) => match text_of(value) {
            Some(s) => Ok(s),
            None => Err(SyncError::WrongType(key.to_owned())),
        },
    }
}

/// The list of texts under a key of a table, or the default where the table
/// has not the key. A value that is no list, or a list with an item that
/// gives no text, is an error.
#[verifier::loop_isolation(false)]
pub fn get_list_from_table(table: &ConfigTable, key: &str, default: Vec<String>) -> (r: AResult<
    Vec<String>,
>)
    ensures
        match list_fault(table.entries@, key@) {
            Some(fault) => r matches Err(e) && e@ == fault,
            None => r matches Ok(list) && list.deep_view() == list_or(
                table.entries@,
                key@,
                default.deep_view(),
            ),
        },
{
    match table.get(key) {
        None => Ok(default),
        Some(ConfigValue::Array(items)) => {
            let mut list: Vec<String> = Vec::new();
            let mut i: usize = 0;
            while i < items.len()
                invariant
                    i <= items.len(),
                    all_texts(items@.take(i as int)),
                    list.deep_view() == text_items(items@.take(i as int)),
                decreases items.len() - i,
            {
                let ghost before = list.deep_view();
                match text_of(&items[i]) {
                    Some(s) => {
                        list.push(s);
                        assert(list.deep_view() =~= before.push(s@));
                    },
                    None => {
                        assert(as_text(items@[i as int]) is None);
                        return Err(SyncError::WrongType(key.to_owned()));
                    },
                }
                proof {
                    let now = items@.take(i + 1);
                    assert forall|j: int| 0 <= j < now.len() implies as_text(
                        #[trigger] now[j],
                    ) is Some by {
                        if j < i {
                            assert(now[j] == items@.take(i as int)[j]);
                        }
                    }
                    assert forall|j: int| 0 <= j < i implies text_items(now)[j] == before[j] by {
                        assert(now[j] == items@.take(i as int)[j]);
                    }
                    assert(list.deep_view() =~= text_items(now));
                }
                i += 1;
            }
            assert(items@.take(i as int) =~= items@);
            Ok(list)
        },
        Some(_) => Err(SyncError::WrongType(key.to_owned())),
    }
}

/// A value of the `toml` crate. Verus sees nothing inside it.
#[verifier::external_type_specification]
#[verifier::external_body]
pub struct ExTomlValue(toml::Value);

/// The error of the `toml` parser. Verus sees nothing inside it.
#[verifier::external_type_specification]
#[verifier::external_body]
pub struct ExTomlError(toml::de::Error);

/// What the TOML parser makes of a text: the document as a value, or nothing
/// where the text is no TOML document.
pub uninterp spec fn toml_document(text: Seq<char>) -> Option<ConfigValue>;

/// What a value of the `toml` crate holds, as a value of this library.
pub uninterp spec fn toml_contents(value: toml::Value) -> ConfigValue;

/// `toml::Table`'s `from_str`: parses a text as a TOML document. The result
/// holds the document that `toml_document` names and is a table, or it is the
/// parser's error where the text is no document.
#[verifier::external_body]
fn parse_document(text: &str) -> (r: Result<toml::Value, toml::de::Error>)
    ensures
        r is Ok <==> toml_document(text@) is Some,
        r matches Ok(value) ==> toml_document(text@) == Some(toml_contents(value))
            && toml_contents(value) is Table,
{
    text.parse::<toml::Table>().map(toml::Value::Table)
}

/// Turns a value of the `toml` crate into the value of this library that
/// `toml_contents` names, variant by variant: a text, a whole number, a truth
/// value and the items of a list as they are, the entries of a table in the
/// order of `toml::Table`'s `iter`, a date or time as the text that `toml`
/// displays for it. Of a number with a fraction only the kind is kept.
#[verifier::external_body]
fn value_from_toml(value: &toml::Value) -> (r: ConfigValue)
    ensures
        r == toml_contents(*value),
{
    match value {
        toml::Value::String(s) => ConfigValue::String(s.clone()),
        toml::Value::Integer(n) => ConfigValue::Integer(*n),
        toml::Value::Float(_) => ConfigValue::Float,
        toml::Value::Boolean(b) => ConfigValue::Boolean(*b),
        toml::Value::Datetime(d) => ConfigValue::Datetime(d.to_string()),
        toml::Value::Array(a) => ConfigValue::Array(a.iter().map(value_from_toml).collect()),
        toml::Value::Table(t) => ConfigValue::Table(
            ConfigTable { entries: t.iter().map(|(k, v)| (k.clone(), value_from_toml(v))).collect() },
        ),
    }
}

/// `toml::de::Error`'s `to_string`: the text that `toml` displays for a parse
/// error. Nothing is claimed of it.
#[verifier::external_body]
fn parse_error_text(error: &toml::de::Error) -> String {
    error.to_string()
}

/// Parses a configuration text as a TOML document.
///
/// What the parser makes of a text has the name `toml_document`. The result
/// is that document's table, or `SyncError::Parse` with the parser's message.
pub fn parse_config(text: &str) -> (r: AResult<ConfigTable>)
    ensures
        match toml_document(text@) {
            Some(ConfigValue::Table(table)) => r == Ok::<ConfigTable, SyncError>(table),
            _ => r matches Err(e) && e@ is Parse,
        },
{
    match parse_document(text) {
        Ok(value) => match value_from_toml(&value) {
            ConfigValue::Table(table) => Ok(table),
            _ => Err(SyncError::Parse(String::new())),
        },
        Err(e) => Err(SyncError::Parse(parse_error_text(&e))),
    }
}

} // verus!
