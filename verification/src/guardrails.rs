//! Guardrails enforced at the query-execution layer: limits on tables,
//! columns, indexes and page sizes, feature switches (ALLOW FILTERING,
//! TRUNCATE, DROP KEYSPACE) and write-path limits on mutations.
use vstd::prelude::*;
use crate::text::{push_str, push_decimal_i64, push_decimal_u64, str_eq, int_decimal, nat_decimal};

verus! {

/// Outcome of a guardrail check.
#[derive(Debug)]
pub enum GuardrailResult {
    /// Operation is allowed.
    Allowed,
    /// Operation is allowed but generated a warning.
    Warned(String),
    /// Operation is rejected.
    Rejected(String),
}

/// The mathematical content of a [`GuardrailResult`].
pub enum GuardrailVerdict {
    Allowed,
    Warned(Seq<char>),
    Rejected(Seq<char>),
}

impl View for GuardrailResult {
    type V = GuardrailVerdict;

    open spec fn view(&self) -> GuardrailVerdict {
        match self {
            GuardrailResult::Allowed => GuardrailVerdict::Allowed,
            GuardrailResult::Warned(m) => GuardrailVerdict::Warned(m@),
            GuardrailResult::Rejected(m) => GuardrailVerdict::Rejected(m@),
        }
    }
}

impl GuardrailResult {
    /// Whether the operation is rejected.
    pub fn is_rejected(&self) -> (r: bool)
        ensures
            r == (*self is Rejected),
    {
        match self {
            GuardrailResult::Rejected(_) => true,
            _ => false,
        }
    }
}

/// What a guardrail asks for.
#[derive(Debug, Clone, Copy, PartialEq, Eq, Structural)]
pub enum GuardrailAction {
    /// Nothing to report.
    Disabled,
    /// Let the operation through with a warning.
    Warn,
    /// Refuse the operation.
    Fail,
}

/// A threshold guardrail: a value at or above `warn_threshold` warns, at or
/// above `fail_threshold` fails; a missing threshold never triggers.
#[derive(Debug, Clone, Copy)]
pub struct ThresholdGuardrail {
    pub warn_threshold: Option<i64>,
    pub fail_threshold: Option<i64>,
}

/// The action a threshold guardrail takes for `value`.
pub open spec fn threshold_action(t: ThresholdGuardrail, value: int) -> GuardrailAction {
    if t.fail_threshold is Some && value >= t.fail_threshold->0 {
        GuardrailAction::Fail
    } else if t.warn_threshold is Some && value >= t.warn_threshold->0 {
        GuardrailAction::Warn
    } else {
        GuardrailAction::Disabled
    }
}

impl ThresholdGuardrail {
    /// A guardrail with neither threshold set.
    pub fn disabled() -> (t: ThresholdGuardrail)
        ensures
            t.warn_threshold is None,
            t.fail_threshold is None,
    {
        ThresholdGuardrail { warn_threshold: None, fail_threshold: None }
    }

    /// The action this guardrail takes for `value`.
    pub fn action(&self, value: i64) -> (a: GuardrailAction)
        ensures
            a == threshold_action(*self, value as int),
    {
        match self.fail_threshold {
            Some(fail) => {
                if value >= fail {
                    return GuardrailAction::Fail;
                }
            },
            None => {},
        }
        match self.warn_threshold {
            Some(warn) => {
                if value >= warn {
                    return GuardrailAction::Warn;
                }
            },
            None => {},
        }
        GuardrailAction::Disabled
    }
}

/// The guardrail settings the executor consults.
#[derive(Debug, Clone)]
pub struct GuardrailsConfig {
    pub tables_per_keyspace: ThresholdGuardrail,
    pub columns_per_table: ThresholdGuardrail,
    pub secondary_indexes_per_table: ThresholdGuardrail,
    pub page_size: ThresholdGuardrail,
    pub columns_per_query: ThresholdGuardrail,
    pub allow_filtering_enabled: bool,
    pub truncate_enabled: bool,
    pub drop_keyspace_enabled: bool,
}

/// The threshold guardrail registered under `name`, if any.
pub open spec fn config_threshold(c: GuardrailsConfig, name: Seq<char>) -> Option<ThresholdGuardrail> {
    if name == "tables_per_keyspace"@ {
        Some(c.tables_per_keyspace)
    } else if name == "columns_per_table"@ {
        Some(c.columns_per_table)
    } else if name == "secondary_indexes_per_table"@ {
        Some(c.secondary_indexes_per_table)
    } else if name == "page_size"@ {
        Some(c.page_size)
    } else if name == "columns_per_query"@ {
        Some(c.columns_per_query)
    } else {
        None
    }
}

/// The action of the threshold guardrail `name` for `value`; unknown names never trigger.
pub open spec fn config_threshold_action(c: GuardrailsConfig, name: Seq<char>, value: int) -> GuardrailAction {
    match config_threshold(c, name) {
        Some(t) => threshold_action(t, value),
        None => GuardrailAction::Disabled,
    }
}

/// Whether the feature switch `feature` is on; unknown features are on.
pub open spec fn config_feature_enabled(c: GuardrailsConfig, feature: Seq<char>) -> bool {
    if feature == "allow_filtering"@ {
        c.allow_filtering_enabled
    } else if feature == "truncate"@ {
        c.truncate_enabled
    } else if feature == "drop_keyspace"@ {
        c.drop_keyspace_enabled
    } else {
        true
    }
}

impl Default for GuardrailsConfig {
    /// Every threshold unset and every feature enabled.
    fn default() -> (c: GuardrailsConfig)
        ensures
            c.tables_per_keyspace.warn_threshold is None,
            c.tables_per_keyspace.fail_threshold is None,
            c.columns_per_table.warn_threshold is None,
            c.columns_per_table.fail_threshold is None,
            c.secondary_indexes_per_table.warn_threshold is None,
            c.secondary_indexes_per_table.fail_threshold is None,
            c.page_size.warn_threshold is None,
            c.page_size.fail_threshold is None,
            c.columns_per_query.warn_threshold is None,
            c.columns_per_query.fail_threshold is None,
            c.allow_filtering_enabled,
            c.truncate_enabled,
            c.drop_keyspace_enabled,
    {
        GuardrailsConfig {
            tables_per_keyspace: ThresholdGuardrail::disabled(),
            columns_per_table: ThresholdGuardrail::disabled(),
            secondary_indexes_per_table: ThresholdGuardrail::disabled(),
            page_size: ThresholdGuardrail::disabled(),
            columns_per_query: ThresholdGuardrail::disabled(),
            allow_filtering_enabled: true,
            truncate_enabled: true,
            drop_keyspace_enabled: true,
        }
    }
}

impl GuardrailsConfig {
    /// The action of the threshold guardrail `name` for `value`.
    pub fn check_threshold(&self, name: &str, value: i64) -> (a: GuardrailAction)
        ensures
            a == config_threshold_action(*self, name@, value as int),
    {
        if str_eq(name, "tables_per_keyspace") {
            self.tables_per_keyspace.action(value)
        } else if str_eq(name, "columns_per_table") {
            self.columns_per_table.action(value)
        } else if str_eq(name, "secondary_indexes_per_table") {
            self.secondary_indexes_per_table.action(value)
        } else if str_eq(name, "page_size") {
            self.page_size.action(value)
        } else if str_eq(name, "columns_per_query") {
            self.columns_per_query.action(value)
        } else {
            GuardrailAction::Disabled
        }
    }

    /// `Fail` when the feature switch `feature` is off, `Disabled` otherwise.
    pub fn check_feature(&self, feature: &str) -> (a: GuardrailAction)
        ensures
            a == (if config_feature_enabled(*self, feature@) {
                GuardrailAction::Disabled
            } else {
                GuardrailAction::Fail
            }),
    {
        let enabled = if str_eq(feature, "allow_filtering") {
            self.allow_filtering_enabled
        } else if str_eq(feature, "truncate") {
            self.truncate_enabled
        } else if str_eq(feature, "drop_keyspace") {
            self.drop_keyspace_enabled
        } else {
            true
        };
        if enabled {
            GuardrailAction::Disabled
        } else {
            GuardrailAction::Fail
        }
    }
}

/// A triggered threshold guardrail.
pub struct GuardrailViolation {
    pub guardrail_name: String,
    pub message: String,
    pub action: GuardrailAction,
}

/// The message of a triggered threshold guardrail:
/// `"<name> = <value> exceeds warn|fail threshold"`.
pub open spec fn violation_message(name: Seq<char>, value: int, action: GuardrailAction) -> Seq<char> {
    name + " = "@ + int_decimal(value) + " exceeds "@
        + (if action == GuardrailAction::Warn { "warn"@ } else { "fail"@ }) + " threshold"@
}

fn check_threshold(config: &GuardrailsConfig, name: &str, value: i64) -> (r: Option<GuardrailViolation>)
    ensures
        config_threshold_action(*config, name@, value as int) == GuardrailAction::Disabled
            ==> r is None,
        config_threshold_action(*config, name@, value as int) != GuardrailAction::Disabled
            ==> (r matches Some(v) && v.action == config_threshold_action(*config, name@, value as int)
                && v.guardrail_name@ == name@
                && v.message@ == violation_message(name@, value as int, v.action)),
{
    let action = config.check_threshold(name, value);
    match action {
        GuardrailAction::Disabled => None,
        _ => {
            let mut message = String::new();
            push_str(&mut message, name);
            push_str(&mut message, " = ");
            push_decimal_i64(&mut message, value);
            push_str(&mut message, " exceeds ");
            if action == GuardrailAction::Warn {
                push_str(&mut message, "warn");
            } else {
                push_str(&mut message, "fail");
            }
            push_str(&mut message, " threshold");
            let mut guardrail_name = String::new();
            push_str(&mut guardrail_name, name);
            assert(guardrail_name@ =~= name@);
            assert(message@ =~= violation_message(name@, value as int, action));
            Some(GuardrailViolation { guardrail_name, message, action })
        },
    }
}

/// The verdict of a single threshold check whose warning is reported:
/// fail rejects, warn warns, otherwise allowed.
pub open spec fn threshold_verdict(c: GuardrailsConfig, name: Seq<char>, value: int) -> GuardrailVerdict {
    let a = config_threshold_action(c, name, value);
    if a == GuardrailAction::Fail {
        GuardrailVerdict::Rejected(violation_message(name, value, a))
    } else if a == GuardrailAction::Warn {
        GuardrailVerdict::Warned(violation_message(name, value, a))
    } else {
        GuardrailVerdict::Allowed
    }
}

fn threshold_result(config: &GuardrailsConfig, name: &str, value: i64) -> (r: GuardrailResult)
    ensures
        r@ == threshold_verdict(*config, name@, value as int),
{
    match check_threshold(config, name, value) {
        Some(v) => {
            if v.action == GuardrailAction::Fail {
                GuardrailResult::Rejected(v.message)
            } else {
                GuardrailResult::Warned(v.message)
            }
        },
        None => GuardrailResult::Allowed,
    }
}

/// Verdict of CREATE TABLE: the table count after creation may fail (a warning
/// there is only logged), then the column count may fail or warn.
pub open spec fn create_table_verdict(c: GuardrailsConfig, tables_in_keyspace: int, column_count: int) -> GuardrailVerdict {
    let a = config_threshold_action(c, "tables_per_keyspace"@, tables_in_keyspace + 1);
    if a == GuardrailAction::Fail {
        GuardrailVerdict::Rejected(violation_message("tables_per_keyspace"@, tables_in_keyspace + 1, a))
    } else {
        threshold_verdict(c, "columns_per_table"@, column_count)
    }
}

/// Check guardrails for CREATE TABLE.
pub fn check_create_table(config: &GuardrailsConfig, tables_in_keyspace: i64, column_count: i64) -> (r: GuardrailResult)
    requires
        tables_in_keyspace < i64::MAX,
    ensures
        r@ == create_table_verdict(*config, tables_in_keyspace as int, column_count as int),
{
    match check_threshold(config, "tables_per_keyspace", tables_in_keyspace + 1) {
        Some(v) => {
            if v.action == GuardrailAction::Fail {
                return GuardrailResult::Rejected(v.message);
            }
        },
        None => {},
    }
    threshold_result(config, "columns_per_table", column_count)
}

/// Check guardrails for CREATE INDEX: the index count after creation.
pub fn check_create_index(config: &GuardrailsConfig, indexes_on_table: i64) -> (r: GuardrailResult)
    requires
        indexes_on_table < i64::MAX,
    ensures
        r@ == threshold_verdict(*config, "secondary_indexes_per_table"@, indexes_on_table + 1),
{
    threshold_result(config, "secondary_indexes_per_table", indexes_on_table + 1)
}

/// The message of a refused feature: `"<display> is not allowed by guardrails"`.
pub open spec fn feature_message(display: Seq<char>) -> Seq<char> {
    display + " is not allowed by guardrails"@
}

/// Verdict of a feature switch: rejected exactly when it is off.
pub open spec fn feature_verdict(c: GuardrailsConfig, feature: Seq<char>, display: Seq<char>) -> GuardrailVerdict {
    if config_feature_enabled(c, feature) {
        GuardrailVerdict::Allowed
    } else {
        GuardrailVerdict::Rejected(feature_message(display))
    }
}

fn check_feature(config: &GuardrailsConfig, feature: &str, display: &str) -> (r: GuardrailResult)
    ensures
        r@ == feature_verdict(*config, feature@, display@),
{
    match config.check_feature(feature) {
        GuardrailAction::Fail => {
            let mut message = String::new();
            push_str(&mut message, display);
            push_str(&mut message, " is not allowed by guardrails");
            GuardrailResult::Rejected(message)
        },
        _ => GuardrailResult::Allowed,
    }
}

/// Check guardrails for ALLOW FILTERING.
pub fn check_allow_filtering(config: &GuardrailsConfig) -> (r: GuardrailResult)
    ensures
        r@ == feature_verdict(*config, "allow_filtering"@, "ALLOW FILTERING"@),
{
    check_feature(config, "allow_filtering", "ALLOW FILTERING")
}

/// Check guardrails for TRUNCATE.
pub fn check_truncate(config: &GuardrailsConfig) -> (r: GuardrailResult)
    ensures
        r@ == feature_verdict(*config, "truncate"@, "TRUNCATE"@),
{
    check_feature(config, "truncate", "TRUNCATE")
}

/// Check the page size guardrail.
pub fn check_page_size(config: &GuardrailsConfig, page_size: i64) -> (r: GuardrailResult)
    ensures
        r@ == threshold_verdict(*config, "page_size"@, page_size as int),
{
    threshold_result(config, "page_size", page_size)
}

/// Check the DROP KEYSPACE guardrail.
pub fn check_drop_keyspace(config: &GuardrailsConfig) -> (r: GuardrailResult)
    ensures
        r@ == feature_verdict(*config, "drop_keyspace"@, "DROP KEYSPACE"@),
{
    check_feature(config, "drop_keyspace", "DROP KEYSPACE")
}

/// Verdict of the read path: ALLOW FILTERING (when used) must be enabled,
/// then the number of selected columns may fail or warn.
pub open spec fn select_verdict(c: GuardrailsConfig, allow_filtering: bool, column_count: int) -> GuardrailVerdict {
    if allow_filtering && !config_feature_enabled(c, "allow_filtering"@) {
        GuardrailVerdict::Rejected(feature_message("ALLOW FILTERING"@))
    } else {
        threshold_verdict(c, "columns_per_query"@, column_count)
    }
}

/// Check read-path guardrails at the CQL query execution layer.
pub fn check_select_guardrails(config: &GuardrailsConfig, allow_filtering: bool, column_count: i64) -> (r: GuardrailResult)
    ensures
        r@ == select_verdict(*config, allow_filtering, column_count as int),
{
    if allow_filtering {
        let result = check_allow_filtering(config);
        if result.is_rejected() {
            return result;
        }
    }
    threshold_result(config, "columns_per_query", column_count)
}

/// How severe an action is: nothing, a warning, a failure.
pub open spec fn severity(a: GuardrailAction) -> int {
    match a {
        GuardrailAction::Disabled => 0,
        GuardrailAction::Warn => 1,
        GuardrailAction::Fail => 2,
    }
}

/// A larger value never gets a milder action from the same threshold guardrail.
pub proof fn lemma_threshold_monotone(t: ThresholdGuardrail, a: int, b: int)
    requires
        a <= b,
    ensures
        severity(threshold_action(t, a)) <= severity(threshold_action(t, b)),
{
}

/// Once a page size is rejected, every larger page size is rejected too.
pub proof fn lemma_page_size_rejection_monotone(c: GuardrailsConfig, a: int, b: int)
    requires
        a <= b,
        threshold_verdict(c, "page_size"@, a) is Rejected,
    ensures
        threshold_verdict(c, "page_size"@, b) is Rejected,
{
    lemma_threshold_monotone(c.page_size, a, b);
}

/// A value below both thresholds of a guardrail passes it.
pub proof fn lemma_below_thresholds_allowed(c: GuardrailsConfig, name: Seq<char>, value: int)
    requires
        config_threshold(c, name) matches Some(t)
            && (t.warn_threshold matches Some(w) ==> value < w)
            && (t.fail_threshold matches Some(f) ==> value < f),
    ensures
        threshold_verdict(c, name, value) == GuardrailVerdict::Allowed,
{
}

/// With the default configuration nothing is refused: every threshold check
/// and every feature check allows.
pub proof fn lemma_default_config_allows(c: GuardrailsConfig, name: Seq<char>, feature: Seq<char>, display: Seq<char>, value: int)
    requires
        c.tables_per_keyspace.warn_threshold is None,
        c.tables_per_keyspace.fail_threshold is None,
        c.columns_per_table.warn_threshold is None,
        c.columns_per_table.fail_threshold is None,
        c.secondary_indexes_per_table.warn_threshold is None,
        c.secondary_indexes_per_table.fail_threshold is None,
        c.page_size.warn_threshold is None,
        c.page_size.fail_threshold is None,
        c.columns_per_query.warn_threshold is None,
        c.columns_per_query.fail_threshold is None,
        c.allow_filtering_enabled,
        c.truncate_enabled,
        c.drop_keyspace_enabled,
    ensures
        threshold_verdict(c, name, value) == GuardrailVerdict::Allowed,
        feature_verdict(c, feature, display) == GuardrailVerdict::Allowed,
{
}

/// With ALLOW FILTERING unused or enabled, a `SELECT` of `column_count`
/// columns is rejected (`columns_per_query = <n> exceeds fail threshold`)
/// at or above the `columns_per_query` fail threshold, warned (`... exceeds
/// warn threshold`) at or above its warn threshold but below the fail
/// threshold, and allowed otherwise.
pub proof fn lemma_select_columns_per_query(c: GuardrailsConfig, allow_filtering: bool, column_count: int)
    requires
        !allow_filtering || c.allow_filtering_enabled,
    ensures
        ({
            let t = c.columns_per_query;
            let fails = t.fail_threshold is Some && column_count >= t.fail_threshold->0;
            let warns = t.warn_threshold is Some && column_count >= t.warn_threshold->0;
            let v = select_verdict(c, allow_filtering, column_count);
            &&& fails ==> v == GuardrailVerdict::Rejected(
                "columns_per_query"@ + " = "@ + int_decimal(column_count) + " exceeds "@ + "fail"@ + " threshold"@)
            &&& !fails && warns ==> v == GuardrailVerdict::Warned(
                "columns_per_query"@ + " = "@ + int_decimal(column_count) + " exceeds "@ + "warn"@ + " threshold"@)
            &&& !fails && !warns ==> v == GuardrailVerdict::Allowed
        }),
{
    reveal_strlit("columns_per_query");
    reveal_strlit("tables_per_keyspace");
    reveal_strlit("columns_per_table");
    reveal_strlit("secondary_indexes_per_table");
    reveal_strlit("page_size");
    reveal_strlit("allow_filtering");
    assert("columns_per_query"@[0] != "tables_per_keyspace"@[0]);
    assert("columns_per_query"@[12] != "columns_per_table"@[12]);
    assert("columns_per_query"@ != "secondary_indexes_per_table"@);
    assert("columns_per_query"@ != "page_size"@);
    assert(config_threshold(c, "columns_per_query"@) == Some(c.columns_per_query));
}

/// A threshold check rejects a value at or above the guardrail's fail
/// threshold (`<name> = <value> exceeds fail threshold`), warns at or above
/// its warn threshold but below the fail threshold, and allows otherwise.
pub proof fn lemma_threshold_verdict_by_limits(c: GuardrailsConfig, name: Seq<char>, t: ThresholdGuardrail, value: int)
    requires
        config_threshold(c, name) == Some(t),
    ensures
        ({
            let fails = t.fail_threshold is Some && value >= t.fail_threshold->0;
            let warns = t.warn_threshold is Some && value >= t.warn_threshold->0;
            let v = threshold_verdict(c, name, value);
            &&& fails ==> v == GuardrailVerdict::Rejected(name + " = "@ + int_decimal(value) + " exceeds "@ + "fail"@ + " threshold"@)
            &&& !fails && warns ==> v == GuardrailVerdict::Warned(name + " = "@ + int_decimal(value) + " exceeds "@ + "warn"@ + " threshold"@)
            &&& !fails && !warns ==> v == GuardrailVerdict::Allowed
        }),
{
}

/// `CREATE TABLE` is rejected when the keyspace's table count after it
/// reaches the `tables_per_keyspace` fail threshold; otherwise its column
/// count is checked against `columns_per_table` (fail rejects, warn warns).
pub proof fn lemma_create_table_limits(c: GuardrailsConfig, tables_in_keyspace: int, column_count: int)
    ensures
        ({
            let tk = c.tables_per_keyspace;
            let ct = c.columns_per_table;
            let too_many_tables = tk.fail_threshold is Some && tables_in_keyspace + 1 >= tk.fail_threshold->0;
            let fails = ct.fail_threshold is Some && column_count >= ct.fail_threshold->0;
            let warns = ct.warn_threshold is Some && column_count >= ct.warn_threshold->0;
            let v = create_table_verdict(c, tables_in_keyspace, column_count);
            &&& too_many_tables ==> v == GuardrailVerdict::Rejected("tables_per_keyspace"@ + " = "@
                + int_decimal(tables_in_keyspace + 1) + " exceeds "@ + "fail"@ + " threshold"@)
            &&& !too_many_tables && fails ==> v == GuardrailVerdict::Rejected("columns_per_table"@ + " = "@
                + int_decimal(column_count) + " exceeds "@ + "fail"@ + " threshold"@)
            &&& !too_many_tables && !fails && warns ==> v == GuardrailVerdict::Warned("columns_per_table"@ + " = "@
                + int_decimal(column_count) + " exceeds "@ + "warn"@ + " threshold"@)
            &&& !too_many_tables && !fails && !warns ==> v == GuardrailVerdict::Allowed
        }),
{
    reveal_strlit("tables_per_keyspace");
    reveal_strlit("columns_per_table");
    assert("columns_per_table"@[0] != "tables_per_keyspace"@[0]);
    assert(config_threshold(c, "tables_per_keyspace"@) == Some(c.tables_per_keyspace));
    assert(config_threshold(c, "columns_per_table"@) == Some(c.columns_per_table));
}

} // verus!
