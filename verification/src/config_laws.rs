//! Laws of the settings: how durations and actions are read, and what a document holds.

use crate::config::{
    action_named, action_of, config_fault, config_text, duration_of, entry, entry_index,
    holds_config, shown_duration, timeout_of, toml_line, unit_secs, SawConfig, Toml,
    TomlMember,
};
use crate::text::{
    decimal, in_class, is_digit, is_space, lemma_decimal, lemma_run_len, lowercase, stripped,
    CharClass,
};
use crate::text_laws::stripping_takes_white_space;
use crate::watch::StuckAction;
use vstd::prelude::*;

verus! {

/// Whether a word is a unit of seconds.
pub open spec fn names_seconds(unit: Seq<char>) -> bool {
    unit.len() == 0 || unit == "s"@ || unit == "sec"@ || unit == "secs"@ || unit == "second"@
        || unit == "seconds"@
}

/// Whether a word is a unit of minutes.
pub open spec fn names_minutes(unit: Seq<char>) -> bool {
    unit == "m"@ || unit == "min"@ || unit == "mins"@ || unit == "minute"@ || unit == "minutes"@
}

/// Whether a word is a unit of hours.
pub open spec fn names_hours(unit: Seq<char>) -> bool {
    unit == "h"@ || unit == "hr"@ || unit == "hrs"@ || unit == "hour"@ || unit == "hours"@
}

/// Seconds, minutes and hours are units under their names and short names; a duration
/// without a unit is in seconds, and there are no other units.
pub proof fn units_are_known_by_name(unit: Seq<char>)
    ensures
        names_seconds(unit) ==> unit_secs(unit) == Some(1nat),
        names_minutes(unit) ==> unit_secs(unit) == Some(60nat),
        names_hours(unit) ==> unit_secs(unit) == Some(3600nat),
        !names_seconds(unit) && !names_minutes(unit) && !names_hours(unit) ==> unit_secs(
            unit,
        ) is None,
{
    reveal_strlit("");
    reveal_strlit("s");
    reveal_strlit("sec");
    reveal_strlit("secs");
    reveal_strlit("second");
    reveal_strlit("seconds");
    reveal_strlit("m");
    reveal_strlit("min");
    reveal_strlit("mins");
    reveal_strlit("minute");
    reveal_strlit("minutes");
    reveal_strlit("h");
    reveal_strlit("hr");
    reveal_strlit("hrs");
    reveal_strlit("hour");
    reveal_strlit("hours");
    assert(unit.len() == 0 ==> unit =~= ""@);
    assert(unit == ""@ ==> unit.len() == 0);
    assert(names_minutes(unit) ==> unit[0] == 'm');
    assert(names_hours(unit) ==> unit[0] == 'h');
    assert(names_seconds(unit) && unit.len() > 0 ==> unit[0] == 's');
}

/// Whether every character of a text is white space.
pub open spec fn is_gap(s: Seq<char>) -> bool {
    forall|i: int| 0 <= i < s.len() ==> is_space(#[trigger] s[i])
}

/// A duration is a number and a unit, in any letter case, with white space around either or
/// not: it stands for as many units. An unknown unit is refused, and so is a duration that
/// is too long.
pub proof fn durations_are_numbers_with_units(
    before: Seq<char>,
    n: nat,
    gap: Seq<char>,
    unit: Seq<char>,
    after: Seq<char>,
)
    requires
        is_gap(before),
        is_gap(gap),
        is_gap(after),
        unit.len() > 0 ==> !is_digit(unit[0]) && !is_space(unit[0]) && !is_space(unit.last()),
        n <= u64::MAX,
    ensures
        ({
            let word = lowercase(unit);
            let secs = duration_of(before + decimal(n) + gap + unit + after);
            let size: nat = if names_seconds(word) {
                1
            } else if names_minutes(word) {
                60
            } else {
                3600
            };
            let known = names_seconds(word) || names_minutes(word) || names_hours(word);
            &&& known && n * size <= u64::MAX ==> secs == Ok::<nat, Seq<char>>(n * size)
            &&& known && n * size > u64::MAX ==> secs is Err
            &&& !known ==> secs is Err
        }),
{
    let d = decimal(n);
    lemma_decimal(n);
    assert(is_digit(d[0]));
    assert(is_digit(d[d.len() - 1]));
    let text = before + d + gap + unit + after;
    // what is left of the text without the white space around it
    let core = if unit.len() > 0 {
        d + gap + unit
    } else {
        d
    };
    if unit.len() > 0 {
        assert(core[0] == d[0]);
        assert(core.last() == unit.last());
        stripping_takes_white_space(before, core, after);
        assert(before + core + after =~= text);
    } else {
        let tail = gap + after;
        assert forall|i: int| 0 <= i < tail.len() implies is_space(#[trigger] tail[i]) by {
            if i < gap.len() {
                assert(tail[i] == gap[i]);
            } else {
                assert(tail[i] == after[i - gap.len()]);
            }
        }
        stripping_takes_white_space(before, core, tail);
        assert(before + core + tail =~= text);
    }
    assert(stripped(text) == core);
    assert forall|k: int| 0 <= k < d.len() implies in_class(#[trigger] core[k], CharClass::Digit)
        == true by {
        assert(core[k] == d[k]);
        assert(is_digit(d[k]));
    }
    if core.len() > d.len() {
        if gap.len() > 0 {
            assert(core[d.len() as int] == gap[0]);
            assert(is_space(gap[0]));
        } else {
            assert(core[d.len() as int] == unit[0]);
        }
    }
    lemma_run_len(core, CharClass::Digit, true, d.len());
    assert(core.take(d.len() as int) =~= d);
    let rest = core.skip(d.len() as int);
    let none = Seq::<char>::empty();
    if unit.len() > 0 {
        assert(rest =~= gap + unit + none);
        stripping_takes_white_space(gap, unit, none);
    } else {
        assert(rest =~= none + none + none);
        stripping_takes_white_space(none, none, none);
        assert(stripped(rest) =~= unit);
    }
    assert(stripped(rest) == unit);
    units_are_known_by_name(lowercase(unit));
}

/// A duration is refused where it is blank or does not begin with a digit.
pub proof fn durations_begin_with_a_digit(before: Seq<char>, core: Seq<char>, after: Seq<char>)
    requires
        is_gap(before),
        is_gap(after),
        core.len() > 0 ==> !is_space(core[0]) && !is_space(core.last()) && !is_digit(core[0]),
    ensures
        duration_of(before + core + after) is Err,
{
    stripping_takes_white_space(before, core, after);
    if core.len() > 0 {
        lemma_run_len(core, CharClass::Digit, true, 0);
    }
}

/// A duration is written in whole hours where it can be, else in whole minutes where it can
/// be, else in seconds.
pub proof fn durations_are_written_in_the_largest_unit(n: nat)
    requires
        n > 0,
    ensures
        shown_duration(n * 3600) == decimal(n) + "h"@,
        (n * 60) % 3600 != 0 ==> shown_duration(n * 60) == decimal(n) + "m"@,
        n % 60 != 0 ==> shown_duration(n) == decimal(n) + "s"@,
        shown_duration(0) == decimal(0) + "s"@,
{
    assert((n * 3600) % 3600 == 0 && (n * 3600) / 3600 == n);
    assert((n * 60) % 60 == 0 && (n * 60) / 60 == n);
    assert(n % 60 != 0 ==> n % 3600 != 0);
}

/// The actions are known by four names and no others.
pub proof fn actions_are_known_by_name(name: Seq<char>)
    ensures
        action_named(name) == Some(StuckAction::Warn) <==> name == "warn"@,
        action_named(name) == Some(StuckAction::Bell) <==> name == "bell"@,
        action_named(name) == Some(StuckAction::Kill) <==> name == "kill"@,
        action_named(name) == Some(StuckAction::CheckpointKill) <==> name == "checkpoint-kill"@,
        action_named(name) is None <==> name != "warn"@ && name != "bell"@ && name != "kill"@
            && name != "checkpoint-kill"@,
{
    reveal_strlit("warn");
    reveal_strlit("bell");
    reveal_strlit("kill");
    reveal_strlit("checkpoint-kill");
    assert("warn"@[0] == 'w' && "bell"@[0] == 'b' && "kill"@[0] == 'k' && "checkpoint-kill"@[0]
        == 'c');
}

proof fn lemma_entry_index(members: Seq<TomlMember>, key: Seq<char>, i: int, from: int)
    requires
        0 <= from <= i <= members.len(),
        i < members.len() ==> members[i].key@ == key,
        forall|k: int| from <= k < i ==> (#[trigger] members[k]).key@ != key,
    ensures
        entry_index(members, key, from) == i,
    decreases i - from,
{
    if from < i {
        assert(members[from].key@ != key);
        lemma_entry_index(members, key, i, from + 1);
    }
}

/// An action may also be the only key of a table, with an empty list or table as its value.
pub proof fn actions_may_stand_in_a_table(members: Vec<TomlMember>)
    ensures
        members@.len() != 1 ==> action_of(Toml::Table(members)) is None,
        members@.len() == 1 ==> (members@[0].value matches Toml::Array(items) ==> action_of(
            Toml::Table(members),
        ) == if items@.len() == 0 {
            action_named(members@[0].key@)
        } else {
            None
        }),
        members@.len() == 1 ==> (members@[0].value matches Toml::Table(inner) ==> action_of(
            Toml::Table(members),
        ) == if inner@.len() == 0 {
            action_named(members@[0].key@)
        } else {
            None
        }),
        members@.len() == 1 && !(members@[0].value is Array) && !(members@[0].value is Table)
            ==> action_of(Toml::Table(members)) is None,
{
}

/// A value of a table is found by its key; what is no table has none.
pub proof fn entries_are_found_by_their_key(members: Vec<TomlMember>, key: Seq<char>, i: int)
    requires
        0 <= i <= members@.len(),
        i < members@.len() ==> members@[i].key@ == key,
        forall|k: int| 0 <= k < i ==> (#[trigger] members@[k]).key@ != key,
    ensures
        i < members@.len() ==> entry(Toml::Table(members), key) == Some(members@[i].value),
        i == members@.len() ==> entry(Toml::Table(members), key) is None,
        forall|document: Toml| !(document is Table) ==> (#[trigger] entry(document, key)) is None,
{
    lemma_entry_index(members@, key, i, 0);
}

/// A timeout is a number of seconds that is not negative, or a duration as a text; nothing
/// else is a timeout.
pub proof fn timeouts_are_seconds_or_durations(value: Toml)
    ensures
        value is Integer && value->Integer_0 >= 0 ==> timeout_of(value) == Some(
            value->Integer_0 as nat,
        ),
        value is Integer && value->Integer_0 < 0 ==> timeout_of(value) is None,
        value is Text && duration_of(value->Text_0@) is Ok ==> timeout_of(value) == Some(
            duration_of(value->Text_0@)->Ok_0,
        ),
        value is Text && duration_of(value->Text_0@) is Err ==> timeout_of(value) is None,
        !(value is Integer) && !(value is Text) ==> timeout_of(value) is None,
{
}

/// A setting that is missing has its default: 130 seconds, and a warning. One that is there
/// counts, and one that cannot be read is refused.
pub proof fn settings_are_read_or_have_defaults(config: SawConfig, document: Toml)
    ensures
        ({
            let timeout = entry(document, "timeout"@);
            let on_stuck = entry(document, "on_stuck"@);
            &&& config_fault(document) is Some <==> timeout is Some && timeout_of(
                timeout->0,
            ) is None || on_stuck is Some && action_of(on_stuck->0) is None
            &&& holds_config(config, document) ==> {
                &&& config_fault(document) is None
                &&& timeout is None ==> config.timeout.secs() == 130
                &&& timeout is Some ==> timeout_of(timeout->0) == Some(
                    config.timeout.secs() as nat,
                )
                &&& on_stuck is None ==> config.on_stuck == StuckAction::Warn
                &&& on_stuck is Some ==> action_of(on_stuck->0) == Some(config.on_stuck)
            }
        }),
{
}

/// A document with a setting that cannot be read is refused with the name of the setting,
/// the timeout before the action; any other document is accepted.
pub proof fn faults_name_the_setting(document: Toml)
    ensures
        ({
            let timeout = entry(document, "timeout"@);
            let action = entry(document, "on_stuck"@);
            let late = timeout is Some && timeout_of(timeout->0) is None;
            let unknown = action is Some && action_of(action->0) is None;
            &&& config_fault(document) is None <==> !late && !unknown
            &&& late ==> config_fault(document) == Some("failed to parse saw config timeout"@)
            &&& !late && unknown ==> config_fault(document) == Some(
                "failed to parse saw config on_stuck"@,
            )
        }),
{
}

/// An action as a text is known by its name.
pub proof fn actions_are_written_by_name(value: Toml)
    requires
        value is Text,
    ensures
        action_of(value) == action_named(value->Text_0@),
{
}

/// The file of the settings holds both of them, as texts in quotes on lines of their own.
pub proof fn settings_are_written_on_lines(config: SawConfig)
    ensures
        config_text(config) == "timeout = \""@ + shown_duration(config.timeout.secs() as nat)
            + "\"\n"@ + "on_stuck = \""@ + (match config.on_stuck {
            StuckAction::Warn => "warn"@,
            StuckAction::Bell => "bell"@,
            StuckAction::Kill => "kill"@,
            StuckAction::CheckpointKill => "checkpoint-kill"@,
        }) + "\"\n"@,
{
    reveal_strlit("timeout");
    reveal_strlit(" = \"");
    reveal_strlit("timeout = \"");
    reveal_strlit("on_stuck");
    reveal_strlit("on_stuck = \"");
    assert("timeout"@ + " = \""@ =~= "timeout = \""@);
    assert("on_stuck"@ + " = \""@ =~= "on_stuck = \""@);
    let a = toml_line("timeout"@, shown_duration(config.timeout.secs() as nat));
    assert(config_text(config) =~= "timeout = \""@ + shown_duration(
        config.timeout.secs() as nat,
    ) + "\"\n"@ + "on_stuck = \""@ + crate::config::action_name(config.on_stuck) + "\"\n"@);
}

} // verus!
