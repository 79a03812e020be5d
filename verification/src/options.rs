//! Values of `WITH` options on tables.
use vstd::prelude::*;
use std::collections::BTreeMap;
use crate::aggregates::lowered;
use crate::chars::{contains_exec, find, lower, parse_int, parse_i64_exec};
use crate::error::ExecutorError;
use crate::text::{chars_of, push_str, str_eq};

verus! {

/// How a table coordinates transactions.
#[derive(Debug, Clone, Copy, PartialEq, Eq, Structural)]
pub enum TransactionalMode {
    Off,
    Paxos,
    Accord,
    Mixed,
}

/// The mode a `transactional_mode` value names, in any letter case.
pub open spec fn transactional_mode_of(value: Seq<char>) -> Option<TransactionalMode> {
    let v = lower(value);
    if v == "off"@ {
        Some(TransactionalMode::Off)
    } else if v == "paxos"@ {
        Some(TransactionalMode::Paxos)
    } else if v == "accord"@ {
        Some(TransactionalMode::Accord)
    } else if v == "mixed"@ {
        Some(TransactionalMode::Mixed)
    } else {
        None
    }
}

/// The transactional mode a `transactional_mode` value names.
pub fn parse_transactional_mode_option(value: &str) -> (r: Result<TransactionalMode, ExecutorError>)
    ensures
        match transactional_mode_of(value@) {
            Some(m) => r == Ok::<TransactionalMode, ExecutorError>(m),
            None => r matches Err(ExecutorError::InvalidQuery(m))
                && m@ == "Invalid transactional_mode value '"@ + value@ + "'"@,
        },
{
    let v = lowered(value);
    if str_eq(v.as_str(), "off") {
        Ok(TransactionalMode::Off)
    } else if str_eq(v.as_str(), "paxos") {
        Ok(TransactionalMode::Paxos)
    } else if str_eq(v.as_str(), "accord") {
        Ok(TransactionalMode::Accord)
    } else if str_eq(v.as_str(), "mixed") {
        Ok(TransactionalMode::Mixed)
    } else {
        let mut m = String::new();
        push_str(&mut m, "Invalid transactional_mode value '");
        push_str(&mut m, value);
        push_str(&mut m, "'");
        Err(ExecutorError::InvalidQuery(m))
    }
}

fn option_error(prefix: &str, value: &str, key: &str) -> (r: ExecutorError)
    ensures
        r matches ExecutorError::InvalidQuery(m)
            && m@ == prefix@ + value@ + "' for option '"@ + key@ + "'"@,
{
    let mut m = String::new();
    push_str(&mut m, prefix);
    push_str(&mut m, value);
    push_str(&mut m, "' for option '");
    push_str(&mut m, key);
    push_str(&mut m, "'");
    ExecutorError::InvalidQuery(m)
}

/// `i32::from_str`: an optional sign and decimal digits, in range.
pub open spec fn parse_i32(s: Seq<char>) -> Option<i32> {
    match parse_int(s) {
        Some(v) => if i32::MIN <= v <= i32::MAX { Some(v as i32) } else { None },
        None => None,
    }
}

/// An integer option value.
pub fn parse_table_i32_option(key: &str, value: &str) -> (r: Result<i32, ExecutorError>)
    ensures
        match parse_i32(value@) {
            Some(v) => r == Ok::<i32, ExecutorError>(v),
            None => r matches Err(ExecutorError::InvalidQuery(m))
                && m@ == "Invalid integer value '"@ + value@ + "' for option '"@ + key@ + "'"@,
        },
{
    let c = chars_of(value);
    match parse_i64_exec(&c) {
        Some(v) => {
            if -2147483648 <= v && v <= 2147483647 {
                Ok(v as i32)
            } else {
                Err(option_error("Invalid integer value '", value, key))
            }
        },
        None => Err(option_error("Invalid integer value '", value, key)),
    }
}

/// A boolean option value: `true` or `false` in any letter case.
pub open spec fn bool_option(value: Seq<char>) -> Option<bool> {
    if lower(value) == "true"@ {
        Some(true)
    } else if lower(value) == "false"@ {
        Some(false)
    } else {
        None
    }
}

/// A boolean option value.
pub fn parse_table_bool_option(key: &str, value: &str) -> (r: Result<bool, ExecutorError>)
    ensures
        match bool_option(value@) {
            Some(b) => r == Ok::<bool, ExecutorError>(b),
            None => r matches Err(ExecutorError::InvalidQuery(m))
                && m@ == "Invalid boolean value '"@ + value@ + "' for option '"@ + key@ + "'"@,
        },
{
    let v = lowered(value);
    if str_eq(v.as_str(), "true") {
        Ok(true)
    } else if str_eq(v.as_str(), "false") {
        Ok(false)
    } else {
        Err(option_error("Invalid boolean value '", value, key))
    }
}

/// The string-to-string map a JSON text denotes, as `serde_json` reads it
/// into a `BTreeMap<String, String>`; `None` when it is not such an object.
pub uninterp spec fn json_string_map(text: Seq<char>) -> Option<Map<Seq<char>, Seq<char>>>;

/// `serde_json::from_str::<BTreeMap<String, String>>`.
#[verifier::external_body]
fn json_to_string_map(text: &str) -> (r: Option<BTreeMap<String, String>>)
    ensures
        match r {
            Some(m) => json_string_map(text@) == Some(m.deep_view()),
            None => json_string_map(text@) is None,
        },
{
    serde_json::from_str::<BTreeMap<String, String>>(text).ok()
}

/// A map option value written as a JSON object of strings.
pub fn parse_table_map_option(key: &str, value: &str) -> (r: Result<BTreeMap<String, String>, ExecutorError>)
    ensures
        match r {
            Ok(m) => json_string_map(value@) == Some(m.deep_view()),
            Err(e) => json_string_map(value@) is None && (e matches ExecutorError::InvalidQuery(m)
                && m@ == "Invalid map value '"@ + value@ + "' for option '"@ + key@ + "'"@),
        },
{
    match json_to_string_map(value) {
        Some(m) => {
            assert(json_string_map(value@) == Some(m.deep_view()));
            Ok(m)
        },
        None => Err(option_error("Invalid map value '", value, key)),
    }
}

// ─── applying options ───────────────────────────────────────────────────

/// The parameters of a table that its `WITH` options set, but for the two
/// floating-point chances (`bloom_filter_fp_chance`, `crc_check_chance`).
#[derive(Debug, Clone, PartialEq, Eq)]
pub struct TableParams {
    pub gc_grace_seconds: i32,
    pub default_time_to_live: i32,
    pub min_index_interval: i32,
    pub max_index_interval: i32,
    pub memtable_flush_period_in_ms: i32,
    pub comment: String,
    pub allow_auto_snapshot: bool,
    pub incremental_backups: bool,
    pub compaction: BTreeMap<String, String>,
    pub compression: BTreeMap<String, String>,
    pub caching: BTreeMap<String, String>,
    pub read_repair: String,
    pub speculative_retry: String,
    pub additional_write_policy: String,
    pub memtable: String,
    pub fast_path: String,
    pub transactional_migration_from: String,
    pub auto_repair: BTreeMap<String, String>,
    pub cdc: bool,
    pub transactional_mode: TransactionalMode,
}

/// Whether an option holds a floating-point number.
pub open spec fn float_option_key(key: Seq<char>) -> bool {
    key == "bloom_filter_fp_chance"@ || key == "crc_check_chance"@
}

/// The refusal of an integer option's value.
pub open spec fn int_failure(key: Seq<char>, value: Seq<char>) -> Option<Seq<char>> {
    if parse_i32(value) is None {
        Some("Invalid integer value '"@ + value + "' for option '"@ + key + "'"@)
    } else {
        None
    }
}

/// The refusal of a boolean option's value.
pub open spec fn bool_failure(key: Seq<char>, value: Seq<char>) -> Option<Seq<char>> {
    if bool_option(value) is None {
        Some("Invalid boolean value '"@ + value + "' for option '"@ + key + "'"@)
    } else {
        None
    }
}

/// The refusal of a map option's value.
pub open spec fn map_failure(key: Seq<char>, value: Seq<char>) -> Option<Seq<char>> {
    if json_string_map(value) is None {
        Some("Invalid map value '"@ + value + "' for option '"@ + key + "'"@)
    } else {
        None
    }
}

/// Why an option cannot be applied, or `None` where it can: integer,
/// boolean and map options refuse values they cannot read, the
/// transactional mode refuses an unknown mode, text options take any value,
/// and an unknown option is refused.
pub open spec fn option_failure(key: Seq<char>, value: Seq<char>) -> Option<Seq<char>> {
    if key == "gc_grace_seconds"@ || key == "default_time_to_live"@ || key == "min_index_interval"@
        || key == "max_index_interval"@ || key == "memtable_flush_period_in_ms"@ {
        int_failure(key, value)
    } else if key == "comment"@ {
        None
    } else if key == "allow_auto_snapshot"@ || key == "incremental_backups"@ {
        bool_failure(key, value)
    } else if key == "compaction"@ || key == "compression"@ || key == "caching"@ {
        map_failure(key, value)
    } else if key == "read_repair"@ || key == "speculative_retry"@ || key == "additional_write_policy"@
        || key == "memtable"@ || key == "fast_path"@ || key == "transactional_migration_from"@ {
        None
    } else if key == "auto_repair"@ {
        map_failure(key, value)
    } else if key == "cdc"@ {
        bool_failure(key, value)
    } else if key == "transactional_mode"@ {
        if transactional_mode_of(value) is None {
            Some("Invalid transactional_mode value '"@ + value + "'"@)
        } else {
            None
        }
    } else {
        Some("Unsupported table option '"@ + key + "'"@)
    }
}

/// Whether `new` is `old` with the option `key` set to `value`: the field
/// the option names takes the value it reads, every other field is kept.
pub open spec fn option_applied(old: TableParams, new: TableParams, key: Seq<char>, value: Seq<char>) -> bool {
    if key == "gc_grace_seconds"@ {
        new == (TableParams { gc_grace_seconds: new.gc_grace_seconds, ..old }) && parse_i32(value) == Some(new.gc_grace_seconds)
    } else if key == "default_time_to_live"@ {
        new == (TableParams { default_time_to_live: new.default_time_to_live, ..old }) && parse_i32(value) == Some(new.default_time_to_live)
    } else if key == "min_index_interval"@ {
        new == (TableParams { min_index_interval: new.min_index_interval, ..old }) && parse_i32(value) == Some(new.min_index_interval)
    } else if key == "max_index_interval"@ {
        new == (TableParams { max_index_interval: new.max_index_interval, ..old }) && parse_i32(value) == Some(new.max_index_interval)
    } else if key == "memtable_flush_period_in_ms"@ {
        new == (TableParams { memtable_flush_period_in_ms: new.memtable_flush_period_in_ms, ..old })
            && parse_i32(value) == Some(new.memtable_flush_period_in_ms)
    } else if key == "comment"@ {
        new == (TableParams { comment: new.comment, ..old }) && new.comment@ == value
    } else if key == "allow_auto_snapshot"@ {
        new == (TableParams { allow_auto_snapshot: new.allow_auto_snapshot, ..old }) && bool_option(value) == Some(new.allow_auto_snapshot)
    } else if key == "incremental_backups"@ {
        new == (TableParams { incremental_backups: new.incremental_backups, ..old }) && bool_option(value) == Some(new.incremental_backups)
    } else if key == "compaction"@ {
        new == (TableParams { compaction: new.compaction, ..old }) && json_string_map(value) == Some(new.compaction.deep_view())
    } else if key == "compression"@ {
        new == (TableParams { compression: new.compression, ..old }) && json_string_map(value) == Some(new.compression.deep_view())
    } else if key == "caching"@ {
        new == (TableParams { caching: new.caching, ..old }) && json_string_map(value) == Some(new.caching.deep_view())
    } else if key == "read_repair"@ {
        new == (TableParams { read_repair: new.read_repair, ..old }) && new.read_repair@ == value
    } else if key == "speculative_retry"@ {
        new == (TableParams { speculative_retry: new.speculative_retry, ..old }) && new.speculative_retry@ == value
    } else if key == "additional_write_policy"@ {
        new == (TableParams { additional_write_policy: new.additional_write_policy, ..old }) && new.additional_write_policy@ == value
    } else if key == "memtable"@ {
        new == (TableParams { memtable: new.memtable, ..old }) && new.memtable@ == value
    } else if key == "fast_path"@ {
        new == (TableParams { fast_path: new.fast_path, ..old }) && new.fast_path@ == value
    } else if key == "transactional_migration_from"@ {
        new == (TableParams { transactional_migration_from: new.transactional_migration_from, ..old })
            && new.transactional_migration_from@ == value
    } else if key == "auto_repair"@ {
        new == (TableParams { auto_repair: new.auto_repair, ..old }) && json_string_map(value) == Some(new.auto_repair.deep_view())
    } else if key == "cdc"@ {
        new == (TableParams { cdc: new.cdc, ..old }) && bool_option(value) == Some(new.cdc)
    } else if key == "transactional_mode"@ {
        new == (TableParams { transactional_mode: new.transactional_mode, ..old }) && transactional_mode_of(value) == Some(new.transactional_mode)
    } else {
        false
    }
}

/// Sets the table parameter that the option `key` names to `value`. An
/// unknown option, or a value that does not fit the option, is refused and
/// leaves the parameters as they were. The floating-point options are
/// applied by the caller.
#[verifier::rlimit(40)]
pub fn apply_table_option(params: &mut TableParams, key: &str, value: &str) -> (r: Result<(), ExecutorError>)
    requires
        !float_option_key(key@),
    ensures
        match option_failure(key@, value@) {
            None => r is Ok && option_applied(*old(params), *final(params), key@, value@),
            Some(m) => *final(params) == *old(params) && (r matches Err(ExecutorError::InvalidQuery(e)) && e@ == m),
        },
{
    if str_eq(key, "gc_grace_seconds") {
        params.gc_grace_seconds = parse_table_i32_option(key, value)?;
    } else if str_eq(key, "default_time_to_live") {
        params.default_time_to_live = parse_table_i32_option(key, value)?;
    } else if str_eq(key, "min_index_interval") {
        params.min_index_interval = parse_table_i32_option(key, value)?;
    } else if str_eq(key, "max_index_interval") {
        params.max_index_interval = parse_table_i32_option(key, value)?;
    } else if str_eq(key, "memtable_flush_period_in_ms") {
        params.memtable_flush_period_in_ms = parse_table_i32_option(key, value)?;
    } else if str_eq(key, "comment") {
        params.comment = value.to_string();
    } else if str_eq(key, "allow_auto_snapshot") {
        params.allow_auto_snapshot = parse_table_bool_option(key, value)?;
    } else if str_eq(key, "incremental_backups") {
        params.incremental_backups = parse_table_bool_option(key, value)?;
    } else if str_eq(key, "compaction") {
        match parse_table_map_option(key, value) {
            Ok(m) => params.compaction = m,
            Err(e) => return Err(e),
        }
    } else if str_eq(key, "compression") {
        match parse_table_map_option(key, value) {
            Ok(m) => params.compression = m,
            Err(e) => return Err(e),
        }
    } else if str_eq(key, "caching") {
        match parse_table_map_option(key, value) {
            Ok(m) => params.caching = m,
            Err(e) => return Err(e),
        }
    } else if str_eq(key, "read_repair") {
        params.read_repair = value.to_string();
    } else if str_eq(key, "speculative_retry") {
        params.speculative_retry = value.to_string();
    } else if str_eq(key, "additional_write_policy") {
        params.additional_write_policy = value.to_string();
    } else if str_eq(key, "memtable") {
        params.memtable = value.to_string();
    } else if str_eq(key, "fast_path") {
        params.fast_path = value.to_string();
    } else if str_eq(key, "transactional_migration_from") {
        params.transactional_migration_from = value.to_string();
    } else if str_eq(key, "auto_repair") {
        match parse_table_map_option(key, value) {
            Ok(m) => params.auto_repair = m,
            Err(e) => return Err(e),
        }
    } else if str_eq(key, "cdc") {
        params.cdc = parse_table_bool_option(key, value)?;
    } else if str_eq(key, "transactional_mode") {
        params.transactional_mode = parse_transactional_mode_option(value)?;
    } else {
        let mut m = String::new();
        push_str(&mut m, "Unsupported table option '");
        push_str(&mut m, key);
        push_str(&mut m, "'");
        return Err(ExecutorError::InvalidQuery(m));
    }
    Ok(())
}

// ─── index options ──────────────────────────────────────────────────────

/// The value of the first option named `key`.
pub open spec fn option_value(options: Seq<(String, String)>, key: Seq<char>) -> Option<Seq<char>>
    decreases options.len(),
{
    if options.len() == 0 {
        None
    } else if options[0].0@ == key {
        Some(options[0].1@)
    } else {
        option_value(options.drop_first(), key)
    }
}

fn option_value_exec<'a>(options: &'a [(String, String)], key: &str) -> (r: Option<&'a String>)
    ensures
        match r {
            Some(v) => option_value(options@, key@) == Some(v@),
            None => option_value(options@, key@) is None,
        },
{
    let mut i: usize = 0;
    assert(options@.subrange(0, options@.len() as int) =~= options@);
    while i < options.len()
        invariant
            i <= options@.len(),
            option_value(options@, key@) == option_value(options@.subrange(i as int, options@.len() as int), key@),
        decreases options.len() - i,
    {
        assert(options@.subrange(i as int, options@.len() as int).drop_first() =~= options@.subrange(i + 1, options@.len() as int));
        if str_eq(options[i].0.as_str(), key) {
            return Some(&options[i].1);
        }
        i = i + 1;
    }
    None
}

/// Whether an index is a vector index: a storage-attached index (its
/// `class_name` mentions `StorageAttachedIndex`) with `vector_dimensions`.
pub open spec fn vector_index(options: Seq<(String, String)>) -> bool {
    &&& option_value(options, "class_name"@) matches Some(c) && find(c, "StorageAttachedIndex"@) is Some
    &&& option_value(options, "vector_dimensions"@) is Some
}

/// Whether an index, given by its options, is a vector index.
pub fn is_vector_index(options: &[(String, String)]) -> (r: bool)
    ensures
        r == vector_index(options@),
{
    let sai = chars_of("StorageAttachedIndex");
    proof {
        reveal_strlit("StorageAttachedIndex");
    }
    let class_ok = match option_value_exec(options, "class_name") {
        Some(c) => {
            let cc = chars_of(c.as_str());
            contains_exec(&cc, &sai)
        },
        None => false,
    };
    class_ok && option_value_exec(options, "vector_dimensions").is_some()
}

} // verus!
