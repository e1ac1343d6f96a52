//! Trigger records read from values of the `config` crate.
//!
//! What a configuration value converts to is decided by `config`. Each
//! conversion depends on the value alone, so its outcome has a name here,
//! and the contracts say which record is read from which table in terms of
//! those names. [`Trigger::from_record`] then judges the record.
//!
//! Tables are hash maps keyed by strings. What a lookup in such a map finds
//! is specified for keys that obey the model of hash-table keys, so every
//! statement about a table is made under [`obeys_key_model`] for `String`.

use std::collections::HashMap;
use vstd::prelude::*;
use vstd::std_specs::hash::{
    axiom_random_state_builds_valid_hashers, contains_borrowed_key, maps_borrowed_key_to_value,
    obeys_key_model,
};
use config::{ConfigError, Value};
use crate::edge::edge_named;
use crate::error::TriggerError;
use crate::percent::Percent;
use crate::trigger::{
    is_load_outcome, load_triggers, record_outcome, Field, LoadError, Trigger, TriggerRecord,
};

verus! {

/// `config::Value`, a value of a configuration: text, a number, a table and
/// so on. It is carried through as it is; what it holds is seen only through
/// the conversions below.
#[verifier::external_type_specification]
#[verifier::external_body]
pub struct ExValue(config::Value);

/// `config::ConfigError`, the error of a conversion that does not apply.
/// Only its presence is used.
#[verifier::external_type_specification]
#[verifier::external_body]
pub struct ExConfigError(config::ConfigError);

/// The text that `config::Value::into_string` gives for a value, if it
/// gives one.
pub uninterp spec fn value_text(value: Value) -> Option<Seq<char>>;

/// The number that `config::Value::into_float` gives for a value, as the
/// bit pattern of the double, if it gives one.
pub uninterp spec fn value_float_bits(value: Value) -> Option<u64>;

/// The table that `config::Value::into_table` gives for a value, if it
/// gives one.
pub uninterp spec fn value_table(value: Value) -> Option<Map<String, Value>>;

/// Calls `clone` on a `config::Value`, which `config` derives: the copy
/// is equal to the value.
#[verifier::external_body]
fn value_clone(value: &Value) -> (copy: Value)
    ensures
        copy == *value,
{
    value.clone()
}

/// Calls `config::Value::into_string`. The outcome depends on the value
/// alone: it is the text named [`value_text`], or an error where there is
/// none.
#[verifier::external_body]
fn value_into_string(value: Value) -> (text: Result<String, ConfigError>)
    ensures
        match text {
            Ok(held) => value_text(value) == Some(held@),
            Err(_) => value_text(value) is None,
        },
{
    value.into_string()
}

/// Calls `config::Value::into_float` and hands the number on as its bit
/// pattern. The outcome depends on the value alone: it is the pattern
/// named [`value_float_bits`], or an error where there is none.
#[verifier::external_body]
fn value_into_float_bits(value: Value) -> (bits: Result<u64, ConfigError>)
    ensures
        match bits {
            Ok(pattern) => value_float_bits(value) == Some(pattern),
            Err(_) => value_float_bits(value) is None,
        },
{
    match value.into_float() {
        Ok(number) => Ok(number.to_bits()),
        Err(error) => Err(error),
    }
}

/// Calls `config::Value::into_table`. The outcome depends on the value
/// alone: it is the table named [`value_table`], or an error where there
/// is none.
#[verifier::external_body]
fn value_into_table(value: Value) -> (table: Result<HashMap<String, Value>, ConfigError>)
    ensures
        match table {
            Ok(held) => value_table(value) == Some(held@),
            Err(_) => value_table(value) is None,
        },
{
    value.into_table()
}

/// The text field that a lookup and a conversion to text give: missing
/// where there was no value, invalid where the value has no text.
pub open spec fn text_reading(found: Option<Result<String, ConfigError>>) -> Field<String> {
    match found {
        None => Field::Missing,
        Some(Ok(text)) => Field::Value(text),
        Some(Err(_)) => Field::Invalid,
    }
}

/// The bound that a lookup and a conversion to a number give: missing
/// where there was no value, invalid where the value is no number. Every
/// number is a bound, whatever its size.
pub open spec fn bound_reading(found: Option<Result<u64, ConfigError>>) -> Field<Percent> {
    match found {
        None => Field::Missing,
        Some(Ok(bits)) => Field::Value(Percent { bits }),
        Some(Err(_)) => Field::Invalid,
    }
}

/// Judges what a lookup and a conversion to text gave: the result is
/// [`text_reading`].
pub fn read_text(found: Option<Result<String, ConfigError>>) -> (field: Field<String>)
    ensures
        field == text_reading(found),
{
    match found {
        None => Field::Missing,
        Some(Ok(text)) => Field::Value(text),
        Some(Err(_)) => Field::Invalid,
    }
}

/// Judges what a lookup and a conversion to a number, handed on as the
/// bit pattern of a double, gave: the result is [`bound_reading`].
pub fn read_bound(found: Option<Result<u64, ConfigError>>) -> (field: Field<Percent>)
    ensures
        field == bound_reading(found),
{
    match found {
        None => Field::Missing,
        Some(Ok(bits)) => Field::Value(Percent { bits }),
        Some(Err(_)) => Field::Invalid,
    }
}

/// Whether a field is what a value reads as text: the value's text, or
/// invalid where it has none.
pub open spec fn is_text_of(field: Field<String>, value: Value) -> bool {
    match value_text(value) {
        Some(text) => field matches Field::Value(held) && held@ == text,
        None => field is Invalid,
    }
}

/// Whether a field is what a value reads as a bound: the value's number,
/// or invalid where it is none.
pub open spec fn is_bound_of(field: Field<Percent>, value: Value) -> bool {
    match value_float_bits(value) {
        Some(bits) => field == Field::Value(Percent { bits }),
        None => field is Invalid,
    }
}

/// Whether a field is what the table gives as text under `key`: missing
/// where the table has no such key, else what a value under the key reads
/// as.
pub open spec fn text_found(table: Map<String, Value>, key: &str, field: Field<String>) -> bool {
    match field {
        Field::Missing => !contains_borrowed_key(table, key),
        _ => exists|value: Value| #[trigger]
            maps_borrowed_key_to_value(table, key, value) && is_text_of(field, value),
    }
}

/// Whether a field is what the table gives as a bound under `key`: missing
/// where the table has no such key, else what a value under the key reads
/// as.
pub open spec fn bound_found(table: Map<String, Value>, key: &str, field: Field<Percent>) -> bool {
    match field {
        Field::Missing => !contains_borrowed_key(table, key),
        _ => exists|value: Value| #[trigger]
            maps_borrowed_key_to_value(table, key, value) && is_bound_of(field, value),
    }
}

/// Whether a record is what the table reads as: its four fields are what
/// the table gives under `command` and `edge` as text and under `from` and
/// `to` as bounds.
pub open spec fn record_read(table: Map<String, Value>, record: TriggerRecord) -> bool {
    obeys_key_model::<String>() ==> {
        &&& text_found(table, "command", record.command)
        &&& text_found(table, "edge", record.edge)
        &&& bound_found(table, "from", record.from)
        &&& bound_found(table, "to", record.to)
    }
}

/// Whether an entry is what a value of the trigger list reads as: none
/// where the value is no table, else a record that its table reads as.
pub open spec fn entry_read(value: Value, entry: Option<TriggerRecord>) -> bool {
    match value_table(value) {
        Some(table) => entry matches Some(record) && record_read(table, record),
        None => entry is None,
    }
}

/// Whether no value stands under `key` in the table.
pub open spec fn lacks(table: Map<String, Value>, key: &str) -> bool {
    forall|value: Value| !maps_borrowed_key_to_value(table, key, value)
}

/// Looks up the field `key` in a table and reads it as text.
fn text_field(table: &HashMap<String, Value>, key: &str) -> (field: Field<String>)
    ensures
        obeys_key_model::<String>() ==> text_found(table@, key, field),
{
    broadcast use axiom_random_state_builds_valid_hashers;

    let found = match table.get(key) {
        None => None,
        Some(value) => {
            let text = value_into_string(value_clone(value));
            assert(obeys_key_model::<String>() ==> maps_borrowed_key_to_value(table@, key, *value)
                && is_text_of(text_reading(Some(text)), *value));
            Some(text)
        },
    };
    read_text(found)
}

/// Looks up the field `key` in a table and reads it as a bound in percent.
fn percent_field(table: &HashMap<String, Value>, key: &str) -> (field: Field<Percent>)
    ensures
        obeys_key_model::<String>() ==> bound_found(table@, key, field),
{
    broadcast use axiom_random_state_builds_valid_hashers;

    let found = match table.get(key) {
        None => None,
        Some(value) => {
            let bits = value_into_float_bits(value_clone(value));
            assert(obeys_key_model::<String>() ==> maps_borrowed_key_to_value(table@, key, *value)
                && is_bound_of(bound_reading(Some(bits)), *value));
            Some(bits)
        },
    };
    read_bound(found)
}

/// Reads the four fields of a trigger out of a table.
fn read_record(table: &HashMap<String, Value>) -> (record: TriggerRecord)
    ensures
        record_read(table@, record),
{
    let command = text_field(table, "command");
    let edge = text_field(table, "edge");
    let from = percent_field(table, "from");
    let to = percent_field(table, "to");
    TriggerRecord { command, edge, from, to }
}

/// Reads one entry of the trigger list: its record if it is a table.
fn read_entry(value: &Value) -> (entry: Option<TriggerRecord>)
    ensures
        entry_read(*value, entry),
{
    match value_into_table(value_clone(value)) {
        Ok(table) => Some(read_record(&table)),
        Err(_) => None,
    }
}

impl Trigger {
    /// Builds a trigger from a table of the configuration. The table is
    /// read into a record, and the record is judged as
    /// [`Trigger::from_record`] does. So the fields count in the order
    /// `command`, `edge`, `from`, `to`: a table without a command is
    /// rejected for that, whatever else it holds, and a table that lacks
    /// any of the four gives no trigger. Every number is taken as a bound.
    pub fn from_hashmap(table: HashMap<String, Value>) -> (parsed: Result<Trigger, TriggerError>)
        ensures
            exists|record: TriggerRecord| #[trigger]
                record_read(table@, record) && parsed == record_outcome(record),
            obeys_key_model::<String>() && lacks(table@, "command") ==> parsed == Err::<
                Trigger,
                TriggerError,
            >(TriggerError::NoCommand),
            obeys_key_model::<String>() && (lacks(table@, "edge") || lacks(table@, "from") || lacks(
                table@,
                "to",
            )) ==> parsed is Err,
            obeys_key_model::<String>() ==> (parsed matches Ok(trigger) ==> exists|
                command: Value,
                edge: Value,
                from: Value,
                to: Value,
            |
                {
                    &&& #[trigger] maps_borrowed_key_to_value(table@, "command", command)
                    &&& #[trigger] maps_borrowed_key_to_value(table@, "edge", edge)
                    &&& #[trigger] maps_borrowed_key_to_value(table@, "from", from)
                    &&& #[trigger] maps_borrowed_key_to_value(table@, "to", to)
                    &&& value_text(command) == Some(trigger.command@)
                    &&& value_text(edge) matches Some(name) && edge_named(name) == Some(
                        trigger.edge,
                    )
                    &&& value_float_bits(from) == Some(trigger.from.bits)
                    &&& value_float_bits(to) == Some(trigger.to.bits)
                }),
    {
        let record = read_record(&table);
        let parsed = Trigger::from_record(&record);
        proof {
            if obeys_key_model::<String>() {
                if parsed is Ok {
                    let command = choose|value: Value| #[trigger]
                        maps_borrowed_key_to_value(table@, "command", value) && is_text_of(
                            record.command,
                            value,
                        );
                    let edge = choose|value: Value| #[trigger]
                        maps_borrowed_key_to_value(table@, "edge", value) && is_text_of(
                            record.edge,
                            value,
                        );
                    let from = choose|value: Value| #[trigger]
                        maps_borrowed_key_to_value(table@, "from", value) && is_bound_of(
                            record.from,
                            value,
                        );
                    let to = choose|value: Value| #[trigger]
                        maps_borrowed_key_to_value(table@, "to", value) && is_bound_of(
                            record.to,
                            value,
                        );
                    assert(maps_borrowed_key_to_value(table@, "command", command));
                    assert(maps_borrowed_key_to_value(table@, "edge", edge));
                    assert(maps_borrowed_key_to_value(table@, "from", from));
                    assert(maps_borrowed_key_to_value(table@, "to", to));
                }
            }
        }
        parsed
    }
}

/// Builds the trigger table from the `triggers` array of the
/// configuration. Each value is read into an entry, in the order of the
/// array, and the entries are judged as [`load_triggers`] does: the
/// triggers come in configuration order, and one bad entry rejects the
/// list with its index.
pub fn load_trigger_values(values: Vec<Value>) -> (loaded: Result<Vec<Trigger>, LoadError>)
    ensures
        exists|entries: Seq<Option<TriggerRecord>>|
            {
                &&& entries.len() == values@.len()
                &&& forall|i: int|
                    0 <= i < entries.len() ==> entry_read(values@[i], #[trigger] entries[i])
                &&& #[trigger] is_load_outcome(entries, loaded)
            },
{
    let mut entries: Vec<Option<TriggerRecord>> = Vec::new();
    let mut i: usize = 0;
    while i < values.len()
        invariant
            i <= values@.len(),
            entries@.len() == i,
            forall|j: int| 0 <= j < i ==> entry_read(values@[j], #[trigger] entries@[j]),
        decreases values@.len() - i,
    {
        let entry = read_entry(&values[i]);
        entries.push(entry);
        i = i + 1;
    }
    let loaded = load_triggers(&entries);
    assert(is_load_outcome(entries@, loaded));
    loaded
}

} // verus!
