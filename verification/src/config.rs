//! The user's configuration: durations, actions and the configuration file.

use crate::paths::{join_path, joined_path};
use crate::text::{
    chars_of, decimal, digits_value, in_class, lemma_decimal, lemma_run_len, lemma_run_len_bounds,
    lemma_trimmed_same, lowercase, parse_u64, parsed_number, push_decimal, run_end, run_len,
    same_text, slice_text, stripped, to_lowercase, trim, CharClass,
};
use crate::watch::StuckAction;
use std::str::FromStr;
use vstd::prelude::*;

verus! {

/// The timeout where none is configured.
pub const DEFAULT_TIMEOUT_SECS: u64 = 130;

/// The number of seconds in a unit.
pub open spec fn unit_secs(unit: Seq<char>) -> Option<nat> {
    if unit == ""@ || unit == "s"@ || unit == "sec"@ || unit == "secs"@ || unit == "second"@ || unit
        == "seconds"@ {
        Some(1)
    } else if unit == "m"@ || unit == "min"@ || unit == "mins"@ || unit == "minute"@ || unit
        == "minutes"@ {
        Some(60)
    } else if unit == "h"@ || unit == "hr"@ || unit == "hrs"@ || unit == "hour"@ || unit
        == "hours"@ {
        Some(3600)
    } else {
        None
    }
}

fn secs_in_unit(unit: &str) -> (r: Option<u64>)
    ensures
        match r {
            Some(n) => unit_secs(unit@) == Some(n as nat) && 1 <= n <= 3600,
            None => unit_secs(unit@) is None,
        },
{
    if same_text(unit, "") || same_text(unit, "s") || same_text(unit, "sec") || same_text(
        unit,
        "secs",
    ) || same_text(unit, "second") || same_text(unit, "seconds") {
        Some(1)
    } else if same_text(unit, "m") || same_text(unit, "min") || same_text(unit, "mins")
        || same_text(unit, "minute") || same_text(unit, "minutes") {
        Some(60)
    } else if same_text(unit, "h") || same_text(unit, "hr") || same_text(unit, "hrs") || same_text(
        unit,
        "hour",
    ) || same_text(unit, "hours") {
        Some(3600)
    } else {
        None
    }
}

/// The number of seconds that a duration stands for, or what is wrong with it:
/// digits, followed by a unit in any case, with white space around either.
pub open spec fn duration_of(text: Seq<char>) -> Result<nat, Seq<char>> {
    let value = stripped(text);
    let digits = run_len(value, CharClass::Digit, true);
    let amount = digits_value(value.take(digits as int));
    let unit = unit_secs(lowercase(stripped(value.skip(digits as int))));
    if value.len() == 0 {
        Err("duration cannot be empty"@)
    } else if digits == 0 {
        Err("duration must start with digits: "@ + value)
    } else if amount > u64::MAX {
        Err("invalid duration value: "@ + value)
    } else if unit is None {
        Err("unsupported duration unit: "@ + value)
    } else if amount * unit->0 > u64::MAX {
        Err("duration is too large: "@ + value)
    } else {
        Ok(amount * unit->0)
    }
}

fn complaint(text: &str, value: &str) -> (r: String)
    ensures
        r@ == text@ + value@,
{
    let mut out: String = text.to_owned();
    out.append(value);
    out
}

/// Reads a duration such as `45`, `45s`, `5m` or `2h`.
pub fn parse_duration_secs(text: &str) -> (r: Result<u64, String>)
    ensures
        match r {
            Ok(n) => duration_of(text@) == Ok::<nat, Seq<char>>(n as nat),
            Err(message) => duration_of(text@) == Err::<nat, Seq<char>>(message@),
        },
{
    let value = trim(text);
    let chars = chars_of(value.as_str());
    if chars.len() == 0 {
        return Err("duration cannot be empty".to_owned());
    }
    assert(value@.skip(0) =~= value@);
    let digits = run_end(&chars, 0, CharClass::Digit, true);
    if digits == 0 {
        return Err(complaint("duration must start with digits: ", value.as_str()));
    }
    let number = slice_text(&chars, 0, digits);
    proof {
        lemma_run_len_bounds(value@, CharClass::Digit, true);
        assert(number@ =~= value@.take(digits as int));
        assert(crate::text::without_plus(number@) == number@);
        assert(parsed_number(number@) == Some(digits_value(number@)));
    }
    let amount = match parse_u64(number.as_str()) {
        Some(amount) => amount,
        None => {
            return Err(complaint("invalid duration value: ", value.as_str()));
        },
    };
    let rest = slice_text(&chars, digits, chars.len());
    assert(rest@ =~= value@.skip(digits as int));
    let unit = to_lowercase(trim(rest.as_str()).as_str());
    let multiplier = match secs_in_unit(unit.as_str()) {
        Some(multiplier) => multiplier,
        None => {
            return Err(complaint("unsupported duration unit: ", value.as_str()));
        },
    };
    match amount.checked_mul(multiplier) {
        Some(secs) => Ok(secs),
        None => Err(complaint("duration is too large: ", value.as_str())),
    }
}

/// A duration in the largest unit that divides it.
pub open spec fn shown_duration(secs: nat) -> Seq<char> {
    if secs != 0 && secs % 3600 == 0 {
        decimal(secs / 3600) + "h"@
    } else if secs != 0 && secs % 60 == 0 {
        decimal(secs / 60) + "m"@
    } else {
        decimal(secs) + "s"@
    }
}

/// Writes a duration in the largest unit that divides it.
pub fn format_duration_secs(secs: u64) -> (r: String)
    ensures
        r@ == shown_duration(secs as nat),
{
    let mut out: String = String::new();
    let ghost empty = out@;
    assert(forall|s: Seq<char>| #[trigger] (empty + s) =~= s);
    if secs != 0 && secs % 3600 == 0 {
        push_decimal(&mut out, (secs / 3600) as u128);
        out.append("h");
    } else if secs != 0 && secs % 60 == 0 {
        push_decimal(&mut out, (secs / 60) as u128);
        out.append("m");
    } else {
        push_decimal(&mut out, secs as u128);
        out.append("s");
    }
    out
}

/// A timeout in seconds.
#[derive(Debug, Clone, Copy, PartialEq, Eq)]
pub struct TimeoutSetting {
    secs: u64,
}

impl TimeoutSetting {
    /// The seconds of the timeout.
    pub closed spec fn secs(self) -> u64 {
        self.secs
    }

    /// A timeout of some seconds.
    pub fn from_secs(secs: u64) -> (r: Self)
        ensures
            r.secs() == secs,
    {
        TimeoutSetting { secs }
    }

    /// The seconds of the timeout.
    pub fn as_secs(self) -> (r: u64)
        ensures
            r == self.secs(),
    {
        self.secs
    }

    /// Reads a timeout.
    pub fn parse(text: &str) -> (r: Result<Self, String>)
        ensures
            match r {
                Ok(t) => duration_of(text@) == Ok::<nat, Seq<char>>(t.secs() as nat),
                Err(message) => duration_of(text@) == Err::<nat, Seq<char>>(message@),
            },
    {
        match parse_duration_secs(text) {
            Ok(secs) => Ok(TimeoutSetting { secs }),
            Err(message) => Err(message),
        }
    }

    /// Writes the timeout.
    pub fn to_text(self) -> (r: String)
        ensures
            r@ == shown_duration(self.secs() as nat),
    {
        format_duration_secs(self.secs)
    }
}

impl Default for TimeoutSetting {
    fn default() -> (r: Self)
        ensures
            r.secs() == 130,
    {
        TimeoutSetting { secs: DEFAULT_TIMEOUT_SECS }
    }
}

impl FromStr for TimeoutSetting {
    type Err = String;

    fn from_str(value: &str) -> (r: Result<Self, String>)
        ensures
            match r {
                Ok(t) => duration_of(value@) == Ok::<nat, Seq<char>>(t.secs() as nat),
                Err(message) => duration_of(value@) == Err::<nat, Seq<char>>(message@),
            },
    {
        TimeoutSetting::parse(value)
    }
}

/// The user's configuration.
#[derive(Debug, Clone, Copy, PartialEq, Eq)]
pub struct SawConfig {
    pub timeout: TimeoutSetting,
    pub on_stuck: StuckAction,
}

impl Default for SawConfig {
    fn default() -> (r: Self)
        ensures
            r.timeout.secs() == 130,
            r.on_stuck == StuckAction::Warn,
    {
        SawConfig { timeout: TimeoutSetting::default(), on_stuck: StuckAction::Warn }
    }
}

/// The seconds of the timeout in force.
pub open spec fn timeout_in_force(asked: Option<TimeoutSetting>, config: SawConfig) -> u64 {
    match asked {
        Some(t) => t.secs(),
        None => config.timeout.secs(),
    }
}

/// The action in force.
pub open spec fn action_in_force(asked: Option<StuckAction>, config: SawConfig) -> StuckAction {
    match asked {
        Some(action) => action,
        None => config.on_stuck,
    }
}

/// The timeout in force: the one of the command line, else the configured one.
pub fn merge_timeout_secs(cli_timeout: Option<TimeoutSetting>, config: &SawConfig) -> (r: u64)
    ensures
        r == timeout_in_force(cli_timeout, *config),
{
    match cli_timeout {
        Some(timeout) => timeout.as_secs(),
        None => config.timeout.as_secs(),
    }
}

/// The action in force: the one of the command line, else the configured one.
pub fn merge_on_stuck_action(cli_on_stuck: Option<StuckAction>, config: &SawConfig) -> (r:
    StuckAction)
    ensures
        r == action_in_force(cli_on_stuck, *config),
{
    match cli_on_stuck {
        Some(action) => action,
        None => config.on_stuck,
    }
}

/// Where the configuration lies below a home directory.
pub fn config_path_in(home: &str) -> (r: String)
    ensures
        r@ == joined_path(home@, ".config/saw/config.toml"@),
{
    join_path(home, ".config/saw/config.toml")
}

/// What the config command is asked to do.
#[derive(Debug, Clone, Copy, PartialEq, Eq)]
pub struct ConfigArgs {
    pub list: bool,
    pub timeout: Option<TimeoutSetting>,
    pub on_stuck: Option<StuckAction>,
    pub reset: bool,
}

/// What the config command does: the new configuration, whether it is written
/// and whether it is shown.
#[derive(Debug, Clone, Copy, PartialEq, Eq)]
pub struct ConfigOutcome {
    pub config: SawConfig,
    pub write: bool,
    pub show: bool,
}

/// The seconds of the timeout after the config command.
pub open spec fn updated_timeout(config: SawConfig, args: ConfigArgs) -> u64 {
    match args.timeout {
        Some(t) => t.secs(),
        None => if args.reset {
            130
        } else {
            config.timeout.secs()
        },
    }
}

/// The action after the config command.
pub open spec fn updated_action(config: SawConfig, args: ConfigArgs) -> StuckAction {
    match args.on_stuck {
        Some(action) => action,
        None => if args.reset {
            StuckAction::Warn
        } else {
            config.on_stuck
        },
    }
}

/// Whether the config command is asked to change anything.
pub open spec fn asks_for_change(args: ConfigArgs) -> bool {
    args.reset || args.timeout is Some || args.on_stuck is Some
}

/// Decides what the config command does. Single values apply on top of a reset;
/// without any change the configuration is shown.
pub fn update_config(config: SawConfig, args: ConfigArgs) -> (r: ConfigOutcome)
    ensures
        r.config.timeout.secs() == updated_timeout(config, args),
        r.config.on_stuck == updated_action(config, args),
        r.write == asks_for_change(args),
        r.show == (args.list || !asks_for_change(args)),
{
    let mut config = config;
    let mut changed = false;
    if args.reset {
        config = SawConfig::default();
        changed = true;
    }
    if let Some(timeout) = args.timeout {
        config.timeout = timeout;
        changed = true;
    }
    if let Some(on_stuck) = args.on_stuck {
        config.on_stuck = on_stuck;
        changed = true;
    }
    ConfigOutcome { config, write: changed, show: args.list || !changed }
}

/// A member of a TOML table.
#[derive(Debug, PartialEq, Eq)]
pub struct TomlMember {
    pub key: String,
    pub value: Toml,
}

/// A TOML document.
#[derive(Debug, PartialEq, Eq)]
pub enum Toml {
    Text(String),
    Integer(i64),
    Float(String),
    Bool(bool),
    Datetime(String),
    Array(Vec<Toml>),
    Table(Vec<TomlMember>),
}

/// The error that `toml` reports for a text that is no TOML document.
#[verifier::external_type_specification]
#[verifier::external_body]
pub struct ExTomlError(toml::de::Error);

/// A TOML document as `toml` holds it.
#[verifier::external_type_specification]
#[verifier::external_body]
pub struct ExTomlValue(toml::Value);

/// What a document of `toml` holds.
pub uninterp spec fn toml_content(value: toml::Value) -> Toml;

/// The document that a text stands for; `None` where it is no TOML.
pub uninterp spec fn toml_text(text: Seq<char>) -> Option<Toml>;

/// `toml::from_str::<toml::Value>`: reads a TOML text. Whether the text is TOML,
/// and which document it stands for, depends on the text alone.
#[verifier::external_body]
fn read_toml(text: &str) -> (r: Result<toml::Value, toml::de::Error>)
    ensures
        match r {
            Ok(value) => toml_text(text@) == Some(toml_content(value)),
            Err(_) => toml_text(text@) is None,
        },
{
    toml::from_str::<toml::Value>(text)
}

/// Takes a `toml::Value` apart: each variant becomes the variant of the same
/// kind, with the same items and members in the order in which the value's `Vec`
/// and `Map` iterate; numbers with a fraction and dates become their texts.
#[verifier::external_body]
fn toml_value(value: toml::Value) -> (r: Toml)
    ensures
        r == toml_content(value),
{
    match value {
        toml::Value::String(text) => Toml::Text(text),
        toml::Value::Integer(n) => Toml::Integer(n),
        toml::Value::Float(n) => Toml::Float(n.to_string()),
        toml::Value::Boolean(flag) => Toml::Bool(flag),
        toml::Value::Datetime(time) => Toml::Datetime(time.to_string()),
        toml::Value::Array(items) => Toml::Array(items.into_iter().map(toml_value).collect()),
        toml::Value::Table(map) => Toml::Table(map.into_iter()
            .map(|(key, value)| TomlMember { key, value: toml_value(value) }).collect()),
    }
}

/// The position of a member from a position on; the number of members where
/// there is none of that key.
pub open spec fn entry_index(members: Seq<TomlMember>, key: Seq<char>, from: int) -> int
    decreases members.len() - from,
{
    if from < 0 || from >= members.len() {
        members.len() as int
    } else if members[from].key@ == key {
        from
    } else {
        entry_index(members, key, from + 1)
    }
}

/// The value under a key of a table; `None` where the document is no table or
/// has no such key.
pub open spec fn entry(document: Toml, key: Seq<char>) -> Option<Toml> {
    match document {
        Toml::Table(members) => if 0 <= entry_index(members@, key, 0) < members@.len() {
            Some(members@[entry_index(members@, key, 0)].value)
        } else {
            None
        },
        _ => None,
    }
}

fn get_entry<'a>(document: &'a Toml, key: &str) -> (r: Option<&'a Toml>)
    ensures
        match r {
            Some(value) => entry(*document, key@) == Some(*value),
            None => entry(*document, key@) is None,
        },
{
    match document {
        Toml::Table(members) => {
            let mut i: usize = 0;
            while i < members.len()
                invariant
                    i <= members@.len(),
                    *document == Toml::Table(*members),
                    entry_index(members@, key@, 0) == entry_index(members@, key@, i as int),
                decreases members@.len() - i,
            {
                if same_text(members[i].key.as_str(), key) {
                    return Some(&members[i].value);
                }
                i = i + 1;
            }
            None
        },
        _ => None,
    }
}

/// The seconds of a configured timeout: a number of seconds or a duration.
pub open spec fn timeout_of(value: Toml) -> Option<nat> {
    match value {
        Toml::Integer(n) => if n >= 0 {
            Some(n as nat)
        } else {
            None
        },
        Toml::Text(t) => match duration_of(t@) {
            Ok(n) => Some(n),
            Err(_) => None,
        },
        _ => None,
    }
}

fn read_timeout(value: &Toml) -> (r: Option<TimeoutSetting>)
    ensures
        match r {
            Some(t) => timeout_of(*value) == Some(t.secs() as nat),
            None => timeout_of(*value) is None,
        },
{
    match value {
        Toml::Integer(n) => if *n >= 0 {
            Some(TimeoutSetting::from_secs(*n as u64))
        } else {
            None
        },
        Toml::Text(t) => match TimeoutSetting::parse(t.as_str()) {
            Ok(timeout) => Some(timeout),
            Err(_) => None,
        },
        _ => None,
    }
}

/// The name of an action.
pub open spec fn action_name(action: StuckAction) -> Seq<char> {
    match action {
        StuckAction::Warn => "warn"@,
        StuckAction::Bell => "bell"@,
        StuckAction::Kill => "kill"@,
        StuckAction::CheckpointKill => "checkpoint-kill"@,
    }
}

/// The name of an action.
pub fn action_text(action: StuckAction) -> (r: &'static str)
    ensures
        r@ == action_name(action),
{
    match action {
        StuckAction::Warn => "warn",
        StuckAction::Bell => "bell",
        StuckAction::Kill => "kill",
        StuckAction::CheckpointKill => "checkpoint-kill",
    }
}

/// The action with a name.
pub open spec fn action_named(name: Seq<char>) -> Option<StuckAction> {
    if name == "warn"@ {
        Some(StuckAction::Warn)
    } else if name == "bell"@ {
        Some(StuckAction::Bell)
    } else if name == "kill"@ {
        Some(StuckAction::Kill)
    } else if name == "checkpoint-kill"@ {
        Some(StuckAction::CheckpointKill)
    } else {
        None
    }
}

/// Finds the action with a name.
pub fn parse_action(name: &str) -> (r: Option<StuckAction>)
    ensures
        r == action_named(name@),
{
    if same_text(name, "warn") {
        Some(StuckAction::Warn)
    } else if same_text(name, "bell") {
        Some(StuckAction::Bell)
    } else if same_text(name, "kill") {
        Some(StuckAction::Kill)
    } else if same_text(name, "checkpoint-kill") {
        Some(StuckAction::CheckpointKill)
    } else {
        None
    }
}

/// Whether a value holds nothing: an empty array or an empty table.
pub open spec fn holds_nothing(value: Toml) -> bool {
    match value {
        Toml::Array(items) => items@.len() == 0,
        Toml::Table(members) => members@.len() == 0,
        _ => false,
    }
}

/// The configured action: its name, or a table whose only key is its name and
/// holds nothing.
pub open spec fn action_of(value: Toml) -> Option<StuckAction> {
    match value {
        Toml::Text(t) => action_named(t@),
        Toml::Table(members) => if members@.len() == 1 && holds_nothing(members@[0].value) {
            action_named(members@[0].key@)
        } else {
            None
        },
        _ => None,
    }
}

fn read_action(value: &Toml) -> (r: Option<StuckAction>)
    ensures
        r == action_of(*value),
{
    match value {
        Toml::Text(t) => parse_action(t.as_str()),
        Toml::Table(members) => {
            if members.len() != 1 {
                return None;
            }
            let nothing = match &members[0].value {
                Toml::Array(items) => items.len() == 0,
                Toml::Table(inner) => inner.len() == 0,
                _ => false,
            };
            if nothing {
                parse_action(members[0].key.as_str())
            } else {
                None
            }
        },
        _ => None,
    }
}

/// What is wrong with a configuration, if anything.
pub open spec fn config_fault(document: Toml) -> Option<Seq<char>> {
    let timeout = entry(document, "timeout"@);
    let on_stuck = entry(document, "on_stuck"@);
    if timeout is Some && timeout_of(timeout->0) is None {
        Some("failed to parse saw config timeout"@)
    } else if on_stuck is Some && action_of(on_stuck->0) is None {
        Some("failed to parse saw config on_stuck"@)
    } else {
        None
    }
}

/// Whether a configuration holds the values of a document, with defaults for
/// those that are missing.
pub open spec fn holds_config(config: SawConfig, document: Toml) -> bool {
    &&& config_fault(document) is None
    &&& config.timeout.secs() == match entry(document, "timeout"@) {
        Some(value) => timeout_of(value)->0,
        None => 130,
    }
    &&& config.on_stuck == match entry(document, "on_stuck"@) {
        Some(value) => action_of(value)->0,
        None => StuckAction::Warn,
    }
}

impl SawConfig {
    /// Reads a configuration from a document.
    pub fn from_toml(document: &Toml) -> (r: Result<SawConfig, String>)
        ensures
            match r {
                Ok(config) => holds_config(config, *document),
                Err(message) => config_fault(*document) == Some(message@),
            },
    {
        let timeout = match get_entry(document, "timeout") {
            Some(value) => match read_timeout(value) {
                Some(timeout) => timeout,
                None => {
                    return Err("failed to parse saw config timeout".to_owned());
                },
            },
            None => TimeoutSetting::default(),
        };
        let on_stuck = match get_entry(document, "on_stuck") {
            Some(value) => match read_action(value) {
                Some(action) => action,
                None => {
                    return Err("failed to parse saw config on_stuck".to_owned());
                },
            },
            None => StuckAction::Warn,
        };
        Ok(SawConfig { timeout, on_stuck })
    }
}

/// Reads the text of a configuration file.
pub fn read_config(path: &str, raw: &str) -> (r: Result<SawConfig, String>)
    ensures
        match toml_text(raw@) {
            Some(document) => match r {
                Ok(config) => holds_config(config, document),
                Err(message) => config_fault(document) == Some(message@),
            },
            None => r is Err && r->Err_0@ == "failed to parse saw config at "@ + path@,
        },
{
    match read_toml(raw) {
        Ok(value) => {
            let document = toml_value(value);
            SawConfig::from_toml(&document)
        },
        Err(_) => Err(complaint("failed to parse saw config at ", path)),
    }
}

/// Whether a character stands for itself in a bare TOML key and in a TOML text.
pub open spec fn is_bare(c: char) -> bool {
    ||| 'a' <= c && c <= 'z'
    ||| 'A' <= c && c <= 'Z'
    ||| '0' <= c && c <= '9'
    ||| c == '-'
    ||| c == '_'
}

/// Whether a text can be a bare TOML key.
pub open spec fn bare(text: Seq<char>) -> bool {
    text.len() > 0 && forall|i: int| 0 <= i < text.len() ==> is_bare(#[trigger] text[i])
}

/// A line with a key and a text.
pub open spec fn toml_line(key: Seq<char>, value: Seq<char>) -> Seq<char> {
    key + " = \""@ + value + "\"\n"@
}

/// Whether a document holds a text under a key.
pub open spec fn holds_text(document: Toml, key: Seq<char>, value: Seq<char>) -> bool {
    entry(document, key) matches Some(Toml::Text(t)) && t@ == value
}

/// `toml::to_string_pretty` on a table of two texts whose keys and values need
/// no quoting: one line for each, in the order in which they were inserted.
/// `toml::from_str` reads such a document as a table with these two texts.
#[verifier::external_body]
fn write_toml(first_key: &str, first: &str, second_key: &str, second: &str) -> (r: Option<String>)
    requires
        bare(first_key@),
        bare(first@),
        bare(second_key@),
        bare(second@),
        first_key@ != second_key@,
    ensures
        r is Some,
        (r->0)@ == toml_line(first_key@, first@) + toml_line(second_key@, second@),
        match toml_text((r->0)@) {
            Some(document) => holds_text(document, first_key@, first@) && holds_text(
                document,
                second_key@,
                second@,
            ),
            None => false,
        },
{
    let mut table = toml::Table::new();
    table.insert(first_key.to_string(), toml::Value::String(first.to_string()));
    table.insert(second_key.to_string(), toml::Value::String(second.to_string()));
    match toml::to_string_pretty(&table) {
        Ok(text) => Some(text),
        Err(_) => None,
    }
}

/// A text that ends in a line feed.
pub open spec fn terminated(text: Seq<char>) -> Seq<char> {
    if text.len() > 0 && text.last() == '\n' {
        text
    } else {
        text.push('\n')
    }
}

fn end_line(text: String) -> (r: String)
    ensures
        r@ == terminated(text@),
{
    let chars = chars_of(text.as_str());
    let mut out = text;
    if chars.len() == 0 || chars[chars.len() - 1] != '\n' {
        out.push('\n');
    }
    out
}

/// The text of a configuration file.
pub open spec fn config_text(config: SawConfig) -> Seq<char> {
    toml_line("timeout"@, shown_duration(config.timeout.secs() as nat)) + toml_line(
        "on_stuck"@,
        action_name(config.on_stuck),
    )
}

proof fn lemma_bare_number(n: nat, unit: Seq<char>)
    requires
        bare(unit),
    ensures
        bare(decimal(n) + unit),
{
    let text = decimal(n) + unit;
    lemma_decimal(n);
    assert forall|i: int| 0 <= i < text.len() implies is_bare(#[trigger] text[i]) by {
        if i < decimal(n).len() {
            assert(text[i] == decimal(n)[i]);
            assert(crate::text::is_digit(decimal(n)[i]));
        } else {
            assert(text[i] == unit[i - decimal(n).len()]);
        }
    }
}

proof fn lemma_bare_config(config: SawConfig)
    ensures
        bare("timeout"@),
        bare("on_stuck"@),
        "timeout"@ != "on_stuck"@,
        bare(shown_duration(config.timeout.secs() as nat)),
        bare(action_name(config.on_stuck)),
{
    reveal_strlit("timeout");
    reveal_strlit("on_stuck");
    reveal_strlit("h");
    reveal_strlit("m");
    reveal_strlit("s");
    reveal_strlit("warn");
    reveal_strlit("bell");
    reveal_strlit("kill");
    reveal_strlit("checkpoint-kill");
    let n = config.timeout.secs() as nat;
    assert("timeout"@[0] != "on_stuck"@[0]);
    lemma_bare_number(n / 3600, "h"@);
    lemma_bare_number(n / 60, "m"@);
    lemma_bare_number(n, "s"@);
}

/// Writes the text of a configuration file. Read again, the text gives the
/// configuration that was written.
pub fn render_config(config: &SawConfig) -> (r: Result<String, String>)
    ensures
        r is Ok,
        r->Ok_0@ == config_text(*config),
        match toml_text(r->Ok_0@) {
            Some(document) => holds_config(*config, document),
            None => false,
        },
{
    let timeout = config.timeout.to_text();
    let on_stuck = action_text(config.on_stuck);
    proof {
        lemma_bare_config(*config);
        durations_read_back(config.timeout.secs());
        action_names_read_back(config.on_stuck);
    }
    match write_toml("timeout", timeout.as_str(), "on_stuck", on_stuck) {
        Some(text) => {
            proof {
                reveal_strlit("\"\n");
                assert(text@.last() == '\n');
            }
            Ok(end_line(text))
        },
        None => Err("failed to render saw config".to_owned()),
    }
}

/// A document holds no two configurations: what is read from a written
/// configuration is the one that was written.
pub proof fn settings_read_back(document: Toml, written: SawConfig, read: SawConfig)
    requires
        holds_config(written, document),
        holds_config(read, document),
    ensures
        read == written,
{
}

proof fn lemma_shown_duration(amount: nat, unit: Seq<char>, secs: nat)
    requires
        unit.len() == 1,
        !in_class(unit[0], CharClass::Digit),
        !in_class(unit[0], CharClass::Space),
        lowercase(unit) == unit,
        unit_secs(unit) == Some(secs),
        amount <= u64::MAX,
        amount * secs <= u64::MAX,
    ensures
        duration_of(decimal(amount) + unit) == Ok::<nat, Seq<char>>(amount * secs),
{
    let digits = decimal(amount);
    let text = digits + unit;
    lemma_decimal(amount);
    assert(text[0] == digits[0]);
    assert(crate::text::is_digit(digits[0]));
    assert(text.last() == unit[0]);
    lemma_trimmed_same(text, CharClass::Space);
    assert forall|k: int| 0 <= k < digits.len() implies in_class(
        #[trigger] text[k],
        CharClass::Digit,
    ) by {
        assert(text[k] == digits[k]);
        assert(crate::text::is_digit(digits[k]));
    }
    assert(text[digits.len() as int] == unit[0]);
    lemma_run_len(text, CharClass::Digit, true, digits.len());
    assert(text.take(digits.len() as int) =~= digits);
    assert(text.skip(digits.len() as int) =~= unit);
    lemma_trimmed_same(unit, CharClass::Space);
}

/// A duration that was written reads back as the same number of seconds.
pub proof fn durations_read_back(secs: u64)
    ensures
        duration_of(shown_duration(secs as nat)) == Ok::<nat, Seq<char>>(secs as nat),
{
    reveal_strlit("");
    reveal_strlit("s");
    reveal_strlit("sec");
    reveal_strlit("secs");
    reveal_strlit("second");
    reveal_strlit("seconds");
    reveal_strlit("m");
    reveal_strlit("min");
    reveal_strlit("mins");
    reveal_strlit("minute");
    reveal_strlit("minutes");
    reveal_strlit("h");
    let n = secs as nat;
    assert("h"@[0] == 'h' && "m"@[0] == 'm' && "s"@[0] == 's');
    if n != 0 && n % 3600 == 0 {
        assert(lowercase("h"@) =~= "h"@);
        assert(n / 3600 * 3600 == n);
        lemma_shown_duration(n / 3600, "h"@, 3600);
    } else if n != 0 && n % 60 == 0 {
        assert(lowercase("m"@) =~= "m"@);
        assert(n / 60 * 60 == n);
        lemma_shown_duration(n / 60, "m"@, 60);
    } else {
        assert(lowercase("s"@) =~= "s"@);
        lemma_shown_duration(n, "s"@, 1);
    }
}

/// The name of an action names that action.
pub proof fn action_names_read_back(action: StuckAction)
    ensures
        action_named(action_name(action)) == Some(action),
{
    reveal_strlit("warn");
    reveal_strlit("bell");
    reveal_strlit("kill");
    reveal_strlit("checkpoint-kill");
    assert("warn"@[0] == 'w');
    assert("bell"@[0] == 'b');
    assert("kill"@[0] == 'k');
    assert("checkpoint-kill"@[0] == 'c');
}

} // verus!
