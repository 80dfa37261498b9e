//! Laws of the texts that are shown: complaints, alerts, panels and lines of the report.

use crate::agent::{agent_name, is_first, keeps_records, Agent, HomeEntry};
use crate::alerter::phase_name;
use crate::alerts_panel::{
    action_lines, alert_lines, after, all_actions, before, clock_text, death_alert, distinct,
    history_entry, history_lines, history_summary, panel_lines, phase_alert, scope_alert,
    test_alert, upper_lines, AlertSeverity, AlertView, HistoryEntryView,
};
use crate::clock::{shown_time, Timestamp};
use crate::common::{choice_line, missing_log, no_session, SessionFile, SessionSelection};
use crate::config::{bare, terminated};
use crate::file_activity::{
    activity_lines, aligned, cut_path, kind_icon, last_slash, loop_marker, path_room, shown_age,
    shown_change, whole_parts, EntryView,
};
use crate::metrics_panel::padded;
use crate::paths::{shown_path, text_less};
use crate::runtime::{no_such_session, WatcherRuntimeTarget};
use crate::snapshot::{age_secs, SnapshotView};
use crate::state::StateView;
use crate::state_machine::same_phase;
use crate::status::{glyph, last_file, status_text};
use crate::status_bar::{bar_segments, StatusBar};
use crate::text::{
    all_digits, decimal, digits_value, in_class, joined, lemma_decimal, lemma_run_len, matches_at,
    parsed_number, split_at_text, stripped, two_digits, CharClass,
};
use crate::text_laws::texts_are_split_at_the_first_separator;
use crate::tui::{active_guard, dialog_lines, guard_lines, guard_text, GuardView};
use crate::types::PhaseView;
use crate::ui::{shown_span, Hue, SpanView};
use crate::watch::{
    kind_changed, line_end, line_start, phase_color, reported_file, reported_session, silence_secs,
};
use vstd::prelude::*;

verus! {

/// A number is written in decimal digits, without zeros in front, and read back from them,
/// also behind a plus sign.
pub proof fn numbers_are_read_back(n: nat)
    ensures
        decimal(n).len() > 0,
        all_digits(decimal(n)),
        digits_value(decimal(n)) == n,
        n > 0 ==> decimal(n)[0] != '0',
        n < 10 ==> two_digits(n).len() == 2 && two_digits(n)[0] == '0',
        n < 100 ==> two_digits(n).len() == 2 && digits_value(two_digits(n)) == n,
        parsed_number(decimal(n)) == Some(n),
        parsed_number("+"@ + decimal(n)) == Some(n),
        parsed_number("-"@ + decimal(n)) is None,
        parsed_number(""@) is None,
{
    lemma_decimal(n);
    if n > 0 {
        lemma_leading_digit(n);
    }
    reveal_strlit("+");
    reveal_strlit("-");
    reveal_strlit("");
    let d = decimal(n);
    assert(("+"@ + d).drop_first() =~= d);
    assert(("-"@ + d)[0] == '-');
    if n < 10 {
        let t = two_digits(n);
        assert(t.drop_last() =~= seq!['0']);
        assert(digits_value(seq!['0']) == 0) by {
            assert(digits_value(seq!['0'].drop_last()) == 0);
        }
    } else if n < 100 {
        assert(decimal(n / 10).len() == 1);
    }
}

proof fn lemma_leading_digit(n: nat)
    requires
        n > 0,
    ensures
        decimal(n)[0] != '0',
    decreases n,
{
    if n >= 10 {
        lemma_decimal(n / 10);
        lemma_leading_digit(n / 10);
    }
}

/// An agent goes by the name of its directory, without the dot that hides it and with a
/// capital in front.
pub proof fn agents_are_named_by_their_directory(first: char, rest: Seq<char>)
    requires
        first != '.',
    ensures
        agent_name(seq!['.', first] + rest) == agent_name(seq![first] + rest),
        'a' <= first <= 'z' ==> agent_name(seq![first] + rest) == seq![
            (first as int - 32) as char,
        ] + rest,
        !('a' <= first <= 'z') ==> agent_name(seq![first] + rest) == seq![first] + rest,
{
    assert((seq!['.', first] + rest).skip(1) =~= seq![first] + rest);
    assert((seq![first] + rest).skip(1) =~= rest);
}

/// An agent is looked for in the hidden directories that hold both sessions and projects;
/// the first one by name counts.
pub proof fn agents_keep_sessions_and_projects(entries: Seq<HomeEntry>, i: int, k: int)
    requires
        is_first(entries, i),
        0 <= k < entries.len(),
    ensures
        0 <= i < entries.len(),
        entries[i].has_sessions && entries[i].has_projects,
        entries[i].name@.len() > 0 && entries[i].name@[0] == '.',
        keeps_records(entries[k]) <==> entries[k].has_sessions && entries[k].has_projects
            && entries[k].name@.len() > 0 && entries[k].name@[0] == '.',
        keeps_records(entries[k]) ==> !text_less(entries[k].name@, entries[i].name@),
{
}

/// The complaints about sessions that are not found name what was asked for.
pub proof fn complaints_name_what_was_asked_for(
    session: SessionFile,
    path: Seq<char>,
    agent: Agent,
    cwd: Seq<char>,
    pid: u32,
    id: Seq<char>,
    other: Option<Seq<char>>,
)
    ensures
        missing_log(session, path) == "session "@ + session.session_id@ + " for PID "@ + decimal(
            session.pid as nat,
        ) + " does not have a jsonl log at "@ + path,
        no_session(agent, Some(cwd)) == no_session(agent, None) + (" for "@ + cwd),
        no_session(agent, None) == "no running "@ + agent.name@ + " sessions found in ~/"@
            + agent.dir@ + "/sessions"@,
        no_such_session(agent, cwd, Some(pid), other) == "no running "@ + agent.name@
            + " session found for pid "@ + decimal(pid as nat),
        no_such_session(agent, cwd, None, Some(id)) == "no running "@ + agent.name@
            + " session found for session "@ + id,
        no_such_session(agent, cwd, None, None) == no_session(agent, Some(cwd)),
{
}

/// A choice is offered with its number, the session, the process, the start and the log.
pub proof fn choices_show_the_session(number: nat, s: SessionSelection)
    ensures
        choice_line(number, s) == "  ["@ + decimal(number) + "] "@ + s.session.session_id@
            + "  pid="@ + decimal(s.pid as nat) + "  started="@ + decimal(
            s.session.started_at as nat,
        ) + "  source="@ + s.jsonl_path@,
{
}

/// An alert is shown with what its phase knows.
pub proof fn alerts_tell_the_details(s: SnapshotView, now: Timestamp, agent: Seq<char>)
    ensures
        s.phase matches PhaseView::ApiHang(span) ==> phase_alert(s, now, agent)->0.headline
            == "API_HANG • "@ + shown_span(span.secs()) && phase_alert(s, now, agent)->0.summary
            == agent + " has waited on the API without visible progress."@,
        s.phase matches PhaseView::ToolLoop { file, count, since } ==> phase_alert(
            s,
            now,
            agent,
        )->0.summary == decimal(count as nat) + " rewrites on "@ + shown_path(s.cwd, file)
            + " without forward progress."@ && (now.since(since) matches Some(gap)
            ==> phase_alert(s, now, agent)->0.headline == "TOOL_LOOP • "@ + shown_span(
            (gap / 1_000_000_000) as nat,
        )),
        s.phase matches PhaseView::TestLoop { command, failure_count } ==> phase_alert(
            s,
            now,
            agent,
        )->0.headline == "TEST_LOOP • "@ + decimal(failure_count as nat) + " failures"@
            && phase_alert(s, now, agent)->0.summary == "Repeated failing command: "@ + command,
        s.phase matches PhaseView::TaskBlocked { task_id, blocked_by } ==> phase_alert(
            s,
            now,
            agent,
        )->0.headline == "TASK_BLOCKED • task "@ + task_id && phase_alert(s, now, agent)->0.summary
            == "Blocking tasks not completed: "@ + joined(blocked_by, ", "@),
        s.phase is ContextReset ==> phase_alert(s, now, agent)->0.headline == "CONTEXT_RESET • "@
            + decimal(
            if s.state.compact_count > 0 {
                s.state.compact_count as nat
            } else {
                1
            },
        ) + " compacts"@ && phase_alert(s, now, agent)->0.summary
            == "Context was compacted - earlier constraints may be lost"@,
        s.phase matches PhaseView::ScopeLeaking { violating_file, guard_path } ==> phase_alert(
            s,
            now,
            agent,
        )->0.headline == "SCOPE_LEAKING • "@ + decimal(
            if s.state.scope_violation_count > 0 {
                s.state.scope_violation_count as nat
            } else {
                1
            },
        ) + " violations"@ && phase_alert(s, now, agent)->0.summary == shown_path(
            s.cwd,
            violating_file,
        ) + " is outside the guard path "@ + shown_path(s.cwd, guard_path) + "."@,
        s.phase is Dead ==> phase_alert(s, now, agent) == death_alert(s, agent),
        s.phase is Working || s.phase is Thinking || s.phase is Idle || s.phase is Initializing
            ==> phase_alert(s, now, agent) is None,
{
}

/// A dead session is shown with its silence; whether its process still exists is told
/// apart.
pub proof fn deaths_tell_of_the_process(s: SnapshotView, agent: Seq<char>)
    requires
        s.phase is Dead || !s.state.process_alive,
    ensures
        death_alert(s, agent) is Some,
        death_alert(s, agent)->0.headline == "DEAD • "@ + shown_span(s.silence.secs()),
        s.state.process_alive ==> death_alert(s, agent)->0.summary
            == "The session is unresponsive even though the process still exists."@,
        !s.state.process_alive ==> death_alert(s, agent)->0.summary == "The "@ + agent
            + " process is no longer alive."@,
{
}

/// Recorded violations and failures are shown with the file and the command that are known
/// of them, else with the directory and a plain word.
pub proof fn recorded_troubles_tell_the_details(s: SnapshotView)
    ensures
        s.state.scope_violation_count > 0 && s.state.latest_scope_violation is Some
            && s.state.guard_paths.len() > 0 ==> scope_alert(s)->0.summary == shown_path(
            s.cwd,
            s.state.latest_scope_violation->0@,
        ) + " is outside the guard path "@ + shown_path(s.cwd, s.state.guard_paths[0]@) + "."@,
        s.state.scope_violation_count > 0 && s.state.latest_scope_violation is None
            && s.state.guard_paths.len() == 0 ==> scope_alert(s)->0.summary == shown_path(
            s.cwd,
            s.cwd,
        ) + " is outside the guard path "@ + shown_path(s.cwd, s.cwd) + "."@,
        s.state.scope_violation_count > 0 ==> scope_alert(s)->0.headline == "SCOPE_LEAKING • "@
            + decimal(s.state.scope_violation_count as nat) + " violations"@,
        s.state.consecutive_test_failures >= 3 ==> test_alert(s)->0.headline == "TEST_LOOP • "@
            + decimal(s.state.consecutive_test_failures as nat) + " failures"@,
        s.state.consecutive_test_failures >= 3 && s.state.last_test_command is Some ==> test_alert(
            s,
        )->0.summary == "Repeated failing command: "@ + s.state.last_test_command->0@,
        s.state.consecutive_test_failures >= 3 && s.state.last_test_command is None ==> test_alert(
            s,
        )->0.summary == "Repeated failing command: "@ + "test command"@,
{
}

/// What can be done is what the alerts say, one alert after the other.
pub proof fn actions_come_from_the_alerts(list: Seq<AlertView>, alert: AlertView)
    ensures
        all_actions(Seq::<AlertView>::empty()).len() == 0,
        all_actions(list.push(alert)) == all_actions(list) + alert.actions,
{
    assert(list.push(alert).drop_last() =~= list);
}

/// A time of day is shown as hours, minutes and seconds of two digits each.
pub proof fn clocks_show_two_digits(h: u32, m: u32, s: u32, nanos: u32)
    requires
        h < 24,
        m < 60,
        s < 60,
        nanos < 1_000_000_000,
    ensures
        clock_text((h, m, s, nanos)) == two_digits(h as nat) + ":"@ + two_digits(m as nat) + ":"@
            + two_digits(s as nat),
        clock_text((h, m, s, (nanos + 1_000_000_000) as u32)) == two_digits(h as nat) + ":"@
            + two_digits(m as nat) + ":"@ + two_digits((s + 1) as nat),
{
}

/// A line of the history shows the phase and the message of its alert: what follows the
/// time and the sign, up to the action.
pub proof fn histories_show_phase_and_message(
    time: Seq<char>,
    sign: Seq<char>,
    phase: Seq<char>,
    rest: Seq<char>,
)
    requires
        !time.contains(' '),
        !sign.contains(' '),
        !phase.contains(' '),
    ensures
        history_summary(time + " "@ + (sign + " "@ + (phase + " "@ + rest))) == stripped(
            phase + " "@ + stripped(before(rest, " action="@)),
        ),
        history_entry(time + " "@ + (sign + " "@ + (phase + " "@ + rest)), None).summary
            == history_summary(time + " "@ + (sign + " "@ + (phase + " "@ + rest))),
{
    lemma_first_space(time, sign + " "@ + (phase + " "@ + rest));
    lemma_first_space(sign, phase + " "@ + rest);
    lemma_first_space(phase, rest);
}

proof fn lemma_first_space(a: Seq<char>, b: Seq<char>)
    requires
        !a.contains(' '),
    ensures
        before(a + " "@ + b, " "@) == a,
        after(a + " "@ + b, " "@) == Some(b),
{
    reveal_strlit(" ");
    let s = a + " "@ + b;
    texts_are_split_at_the_first_separator(s, " "@);
    assert(s.subrange(a.len() as int, (a.len() + 1) as int) =~= " "@);
    assert(matches_at(s, " "@, a.len() as int));
    let (h, t) = split_at_text(s, " "@)->0;
    if h.len() < a.len() {
        assert((h + " "@ + t)[h.len() as int] == ' ');
        assert(s[h.len() as int] == a[h.len() as int]);
    }
    assert(h =~= s.take(a.len() as int));
    assert(a =~= s.take(a.len() as int));
    assert(t =~= s.skip((a.len() + 1) as int));
    assert(b =~= s.skip((a.len() + 1) as int));
}

/// A panel without alerts says so; one with alerts shows for each a banner with its
/// severity and headline and a line with its summary, and then what can be done.
pub proof fn panels_show_each_alert(alerts: Seq<AlertView>, i: int, count: int)
    requires
        0 <= i < count <= alerts.len(),
    ensures
        ({
            let a = alerts[i];
            let lines = alert_lines(alerts, count);
            &&& lines.len() == if count < alerts.len() {
                3 * count
            } else {
                3 * count - 1
            }
            &&& lines[3 * i] == seq![
                SpanView {
                    text: " "@ + (if a.severity == AlertSeverity::Critical {
                        "CRITICAL"@
                    } else if a.severity == AlertSeverity::Warning {
                        "WARNING"@
                    } else {
                        "OK"@
                    }) + " "@,
                    hue: if a.severity == AlertSeverity::Critical {
                        Hue::Red
                    } else if a.severity == AlertSeverity::Warning {
                        Hue::Yellow
                    } else {
                        Hue::Green
                    },
                    bold: true,
                },
                SpanView { text: " "@, hue: Hue::Plain, bold: false },
                SpanView { text: a.headline, hue: lines[3 * i][0].hue, bold: true },
            ]
            &&& lines[3 * i + 1] == seq![
                SpanView { text: a.summary, hue: Hue::Plain, bold: false },
            ]
        }),
    decreases count,
{
    if i < count - 1 {
        panels_show_each_alert(alerts, i, count - 1);
    } else if count > 1 {
        panels_show_each_alert(alerts, 0, count - 1);
    } else {
        assert(alert_lines(alerts, 0).len() == 0);
    }
}

/// The upper part of the panel: a single line where nothing is wrong.
pub proof fn quiet_panels_say_so()
    ensures
        upper_lines(Seq::<AlertView>::empty()) == seq![
            seq![SpanView { text: "✓ No anomalies detected"@, hue: Hue::Green, bold: true }],
        ],
{
}

/// What can be done is numbered from one, below a heading that follows the alerts.
pub proof fn actions_are_numbered(alerts: Seq<AlertView>, i: int)
    requires
        alerts.len() > 0,
        0 <= i < distinct(all_actions(alerts)).len(),
    ensures
        ({
            let lines = upper_lines(alerts);
            let n = 3 * alerts.len() - 1;
            &&& lines.len() == n + 2 + distinct(all_actions(alerts)).len()
            &&& lines[n] == Seq::<SpanView>::empty()
            &&& lines[n + 1] == seq![
                SpanView { text: "RECOMMENDED ACTIONS"@, hue: Hue::Yellow, bold: true },
            ]
            &&& lines[n + 2 + i] == seq![
                SpanView {
                    text: decimal((i + 1) as nat) + ". "@ + distinct(all_actions(alerts))[i],
                    hue: Hue::Plain,
                    bold: false,
                },
            ]
        }),
{
    let actions = distinct(all_actions(alerts));
    panels_show_each_alert(alerts, 0, alerts.len() as int);
    lemma_action_lines(actions, i, actions.len() as int);
}

proof fn lemma_action_lines(actions: Seq<Seq<char>>, i: int, count: int)
    requires
        0 <= i < count <= actions.len(),
    ensures
        action_lines(actions, count).len() == count,
        action_lines(actions, count)[i] == seq![
            SpanView {
                text: decimal((i + 1) as nat) + ". "@ + actions[i],
                hue: Hue::Plain,
                bold: false,
            },
        ],
    decreases count,
{
    if i < count - 1 {
        lemma_action_lines(actions, i, count - 1);
    } else if count > 1 {
        lemma_action_lines(actions, 0, count - 1);
    } else {
        assert(action_lines(actions, 0).len() == 0);
    }
}

/// The history follows the alerts below a heading of its own: each entry with its time and
/// summary, or a line that says that there is none.
pub proof fn panels_show_the_history(
    alerts: Seq<AlertView>,
    history: Seq<HistoryEntryView>,
    i: int,
)
    ensures
        ({
            let lines = panel_lines(alerts, history);
            let n = upper_lines(alerts).len() as int;
            &&& lines.take(n) == upper_lines(alerts)
            &&& lines[n] == Seq::<SpanView>::empty()
            &&& lines[n + 1] == seq![
                SpanView { text: "RECENT ALERT HISTORY"@, hue: Hue::Cyan, bold: true },
            ]
            &&& history.len() == 0 ==> lines.len() == n + 3 && lines[n + 2] == seq![
                SpanView {
                    text: "No recent alerts recorded."@,
                    hue: Hue::DarkGray,
                    bold: false,
                },
            ]
            &&& history.len() > 0 ==> lines.len() == n + 2 + history.len()
            &&& 0 <= i < history.len() ==> lines[n + 2 + i] == seq![
                SpanView {
                    text: history[i].timestamp + " "@,
                    hue: Hue::DarkGray,
                    bold: false,
                },
                SpanView { text: history[i].summary, hue: Hue::Plain, bold: false },
            ]
        }),
{
    let n = upper_lines(alerts).len() as int;
    assert(panel_lines(alerts, history).take(n) =~= upper_lines(alerts));
    if history.len() > 0 {
        lemma_history_lines(history, 0, history.len() as int);
        if 0 <= i < history.len() {
            lemma_history_lines(history, i, history.len() as int);
        }
    }
}

proof fn lemma_history_lines(history: Seq<HistoryEntryView>, i: int, count: int)
    requires
        0 <= i < count <= history.len(),
    ensures
        history_lines(history, count).len() == count,
        history_lines(history, count)[i] == seq![
            SpanView { text: history[i].timestamp + " "@, hue: Hue::DarkGray, bold: false },
            SpanView { text: history[i].summary, hue: Hue::Plain, bold: false },
        ],
    decreases count,
{
    if i < count - 1 {
        lemma_history_lines(history, i, count - 1);
    } else if count > 1 {
        lemma_history_lines(history, 0, count - 1);
    } else {
        assert(history_lines(history, 0).len() == 0);
    }
}

/// Texts are aligned by spaces, on the left or on the right, and never cut.
pub proof fn texts_are_aligned_by_spaces(text: Seq<char>, width: nat)
    ensures
        text.len() >= width ==> aligned(text, width) == text && padded(text, width) == text,
        text.len() < width ==> aligned(text, width).len() == width && padded(text, width).len()
            == width,
        text.len() < width ==> aligned(text, width).skip(width - text.len()) == text,
        text.len() < width ==> padded(text, width).take(text.len() as int) == text,
        forall|i: int| 0 <= i < width - text.len() ==> #[trigger] aligned(text, width)[i] == ' ',
        forall|i: int| text.len() <= i < width ==> #[trigger] padded(text, width)[i] == ' ',
{
    if text.len() < width {
        assert(aligned(text, width).skip(width - text.len()) =~= text);
        assert(padded(text, width).take(text.len() as int) =~= text);
    }
}

/// A path that is too long begins with an ellipsis and keeps the name of its file where
/// there is room for it.
pub proof fn long_paths_keep_their_name(dir: Seq<char>, name: Seq<char>, width: nat)
    requires
        !name.contains('/'),
        width > 1,
        dir.len() + 1 + name.len() > width,
    ensures
        ({
            let path = dir.push('/') + name;
            let cut = cut_path(path, width);
            &&& cut[0] == '\u{2026}'
            &&& name.len() + 3 <= width ==> cut.len() >= name.len() + 2 && cut.skip(
                cut.len() - name.len() - 1,
            ) == seq!['/'] + name
            &&& name.len() + 2 >= width ==> cut.len() <= width && cut.skip(1) == name.skip(
                name.len() - (cut.len() - 1),
            )
            &&& cut_path(path, (dir.len() + 1 + name.len()) as nat) == path
        }),
{
    let path = dir.push('/') + name;
    lemma_last_slash(dir, name);
    assert(path.skip(dir.len() as int + 1) =~= name);
    let cut = cut_path(path, width);
    if name.len() + 3 <= width {
        assert(cut.skip(cut.len() - name.len() - 1) =~= seq!['/'] + name);
    } else {
        assert(cut.skip(1) =~= name.skip(name.len() - (cut.len() - 1)));
    }
}

proof fn lemma_last_slash(dir: Seq<char>, name: Seq<char>)
    requires
        !name.contains('/'),
    ensures
        last_slash(dir.push('/') + name) == Some(dir.len() as int),
    decreases name.len(),
{
    let path = dir.push('/') + name;
    if name.len() > 0 {
        assert(path.last() == name.last());
        assert(name[name.len() - 1] == name.last());
        assert(path.drop_last() =~= dir.push('/') + name.drop_last());
        assert forall|c: char| name.drop_last().contains(c) implies name.contains(c) by {
            let i = name.drop_last().index_of(c);
            assert(name[i] == c);
        }
        lemma_last_slash(dir, name.drop_last());
    } else {
        assert(path =~= dir.push('/'));
    }
}

/// The path of an entry has the room that its age, its sign, its change and its number
/// leave, two columns apart, and one column at least.
pub proof fn paths_take_the_room_that_is_left(entry: EntryView, now: Timestamp, width: int)
    ensures
        ({
            let age = shown_age(age_secs(now, entry.timestamp) as nat).len();
            let change = shown_change(entry.line_change);
            let marker = loop_marker(entry.repeat_index);
            let used = (if age < 5 {
                5
            } else {
                age
            }) + 4 + kind_icon(entry.kind).len() + (if change is Some {
                change->0.len() + 2
            } else {
                0
            }) + (if marker is Some {
                marker->0.len() + 2
            } else {
                0
            });
            &&& width > used + 1 ==> path_room(entry, now, width) == width - used
            &&& width <= used + 1 ==> path_room(entry, now, width) == 1
        }),
{
}

/// What is left of the directories of a path begins with a whole name: what stands before
/// the first separator is dropped.
pub proof fn directories_are_kept_whole(head: Seq<char>, rest: Seq<char>)
    requires
        !head.contains('/'),
        rest.len() == 0 || rest[0] != '/',
    ensures
        whole_parts(head.push('/') + rest) == rest,
        whole_parts(head.push('/').push('/') + rest) == rest,
        whole_parts(head).len() == 0,
{
    lemma_whole_parts(head, seq!['/'], rest);
    lemma_whole_parts(head, seq!['/', '/'], rest);
    assert(head.push('/') + rest =~= head + seq!['/'] + rest);
    assert(head.push('/').push('/') + rest =~= head + seq!['/', '/'] + rest);
    lemma_run_len(head, CharClass::Slash, false, head.len());
    assert(head.skip(head.len() as int).len() == 0);
}

proof fn lemma_whole_parts(head: Seq<char>, slashes: Seq<char>, rest: Seq<char>)
    requires
        !head.contains('/'),
        slashes.len() > 0,
        forall|i: int| 0 <= i < slashes.len() ==> #[trigger] slashes[i] == '/',
        rest.len() == 0 || rest[0] != '/',
    ensures
        whole_parts(head + slashes + rest) == rest,
{
    let s = head + slashes + rest;
    assert forall|k: int| 0 <= k < head.len() implies in_class(#[trigger] s[k], CharClass::Slash)
        == false by {
        assert(head.contains(head[k]));
    }
    assert(s[head.len() as int] == slashes[0]);
    lemma_run_len(s, CharClass::Slash, false, head.len());
    let t = s.skip(head.len() as int);
    assert(t =~= slashes + rest);
    lemma_run_len(t, CharClass::Slash, true, slashes.len());
    assert(t.skip(slashes.len() as int) =~= rest);
}

/// The file panel shows one line for each entry, or says that there is none.
pub proof fn each_file_has_a_line(entries: Seq<EntryView>, now: Timestamp, width: int)
    ensures
        entries.len() > 0 ==> activity_lines(entries, now, width).len() == entries.len(),
        entries.len() == 0 ==> activity_lines(entries, now, width) == seq![
            seq![
                SpanView { text: "No recent file activity"@, hue: Hue::DarkGray, bold: false },
            ],
        ],
{
}

/// The status of a session: the sign and the name of its phase, the session where several
/// are listed, its last file and its silence.
pub proof fn the_status_tells_phase_and_file(s: SnapshotView)
    ensures
        status_text(s, false) == glyph(s.phase) + " "@ + phase_name(s.phase) + ""@ + "  "@
            + last_file(s) + " ("@ + decimal(s.silence.secs()) + "s ago)  cpu: "@,
        s.state.session_id matches Some(id) ==> status_text(s, true) == glyph(s.phase) + " "@
            + phase_name(s.phase) + ("  session="@ + id@) + "  "@ + last_file(s) + " ("@ + decimal(
            s.silence.secs(),
        ) + "s ago)  cpu: "@,
        s.state.session_id is None ==> status_text(s, true) == glyph(s.phase) + " "@ + phase_name(
            s.phase,
        ) + ("  session="@ + "unknown"@) + "  "@ + last_file(s) + " ("@ + decimal(s.silence.secs())
            + "s ago)  cpu: "@,
{
}

/// The end of a line of the report names the session and the log.
pub proof fn reports_end_with_the_session(s: StateView, target: WatcherRuntimeTarget)
    ensures
        reported_session(s, target) matches Some(id) ==> line_end(s, target) == "% session="@ + id@
            + " source="@ + target.jsonl_path@,
        reported_session(s, target) is None ==> line_end(s, target) == "% session="@ + "unknown"@
            + " source="@ + target.jsonl_path@,
{
}

/// A line of the report begins with the time, says whether the phase is a new one, and names
/// the phase, in its color where colors are asked for, the phase before, the process, the
/// file and the silence; a dash stands for what is not known.
pub proof fn reports_begin_with_the_phase(
    previous: Option<PhaseView>,
    phase: PhaseView,
    s: StateView,
    target: WatcherRuntimeTarget,
    now: Timestamp,
    color: bool,
)
    ensures
        ({
            let word = if kind_changed(previous, phase) {
                "PHASE"@
            } else {
                "STATUS"@
            };
            let name = if color {
                "\x1b["@ + phase_color(phase) + "m"@ + phase_name(phase) + "\x1b[0m"@
            } else {
                phase_name(phase)
            };
            let from = if previous is Some && !same_phase(previous->0, phase) {
                " from="@ + phase_name(previous->0)
            } else {
                Seq::<char>::empty()
            };
            let pid = if target.pid is Some {
                decimal(target.pid->0 as nat)
            } else {
                "-"@
            };
            let file = if reported_file(s, target) is Some {
                reported_file(s, target)->0
            } else {
                "-"@
            };
            line_start(previous, phase, s, target, color, now) == shown_time(now) + " "@ + word
                + " "@ + name + from + " pid="@ + pid + " file="@ + file + " silence="@ + decimal(
                silence_secs(s, now),
            ) + "s cpu="@
        }),
{
}

/// The guard that is shown is that of the leak where there is one, else the first one.
pub proof fn the_guard_at_issue_is_shown(s: SnapshotView)
    ensures
        s.phase matches PhaseView::ScopeLeaking { violating_file, guard_path } ==> active_guard(s)
            == Some(guard_path),
        !(s.phase is ScopeLeaking) && s.state.guard_paths.len() > 0 ==> active_guard(s) == Some(
            s.state.guard_paths[0]@,
        ),
        !(s.phase is ScopeLeaking) && s.state.guard_paths.len() == 0 ==> active_guard(s) is None,
        active_guard(s) is None ==> guard_text(s) == "none"@,
        active_guard(s) is Some && s.state.guard_paths.len() > 1 ==> guard_text(s) == shown_path(
            s.cwd,
            active_guard(s)->0,
        ) + (" (+"@ + decimal((s.state.guard_paths.len() - 1) as nat) + " more)"@),
        active_guard(s) is Some && s.state.guard_paths.len() <= 1 ==> guard_text(s) == shown_path(
            s.cwd,
            active_guard(s)->0,
        ) + ""@,
{
}

/// Violations are shown in red, a clean record in green, and no guards in gray.
pub proof fn guards_are_shown_in_color(g: GuardView)
    ensures
        guard_lines(g).len() == 2,
        g.status.len() > 0 && g.has_violation ==> guard_lines(g)[0].last() == (SpanView {
            text: g.status,
            hue: Hue::Red,
            bold: true,
        }),
        g.status.len() > 0 && !g.has_violation ==> guard_lines(g)[0].last() == (SpanView {
            text: g.status,
            hue: Hue::Green,
            bold: true,
        }),
        g.status.len() > 0 || g.has_guard ==> guard_lines(g)[0][0] == (SpanView {
            text: g.guard,
            hue: Hue::Plain,
            bold: true,
        }),
        g.status.len() == 0 && !g.has_guard ==> guard_lines(g)[0][0] == (SpanView {
            text: g.guard,
            hue: Hue::DarkGray,
            bold: false,
        }),
        guard_lines(g)[1] == seq![
            SpanView {
                text: g.detail,
                hue: if g.has_violation {
                    Hue::Yellow
                } else {
                    Hue::DarkGray
                },
                bold: false,
            },
        ],
{
}

/// The dialog shows the text that is typed, and the last violation where there is one.
pub proof fn dialogs_show_the_text(s: SnapshotView, buffer: Seq<char>)
    ensures
        dialog_lines(s, buffer)[0] == seq![
            SpanView {
                text: "Set guard path (comma-separated, empty to clear)"@,
                hue: Hue::Plain,
                bold: false,
            },
        ],
        dialog_lines(s, buffer)[1] == seq![
            SpanView { text: "> "@ + buffer, hue: Hue::Yellow, bold: true },
        ],
        dialog_lines(s, buffer)[2] == seq![
            SpanView {
                text: "Press Enter to save or Esc to cancel."@,
                hue: Hue::Plain,
                bold: false,
            },
        ],
        dialog_lines(s, buffer).len() == if s.state.scope_violation_count > 0 {
            5
        } else {
            3int
        },
        s.state.scope_violation_count > 0 && s.state.latest_scope_violation is Some
            ==> dialog_lines(s, buffer)[4] == seq![
            SpanView {
                text: "Selected detail: "@ + shown_path(
                    s.cwd,
                    s.state.latest_scope_violation->0@,
                ),
                hue: Hue::Plain,
                bold: false,
            },
        ],
{
}

/// The status bar shows the agent, the phase, the time that passed and the keys, in this
/// order; the keys have room first, then the time, then the phase.
pub proof fn the_bar_gives_room_from_the_right(bar: StatusBar, width: u16)
    ensures
        ({
            let parts = bar_segments(bar, width);
            let keys = " [q]uit [k]ill [?]help"@.len();
            let time = 1 + shown_span(bar.elapsed.secs()).len();
            let phase = 1 + bar.phase_label@.len();
            &&& parts.len() == 4
            &&& parts[0].bold && parts[0].hue == Hue::Plain
            &&& parts[1].bold && parts[1].hue == bar.phase_hue
            &&& !parts[2].bold && parts[2].hue == Hue::DarkGray
            &&& !parts[3].bold && parts[3].hue == Hue::Cyan
            &&& width >= keys ==> parts[3].width == keys
            &&& width < keys ==> parts[3].width == width
            &&& width >= keys + time ==> parts[2].width == time
            &&& width >= keys + time + phase ==> parts[1].width == phase
            &&& width >= keys + time + phase ==> parts[1].text == " "@ + bar.phase_label@
                && parts[2].text == " "@ + shown_span(bar.elapsed.secs())
        }),
{
    reveal_strlit(" ");
    reveal_strlit(" [q]uit [k]ill [?]help");
    reveal_strlit("[q]uit [k]ill [?]help");
}

/// A key is written bare where it holds letters, digits, dashes and underscores alone; a
/// text is ended by one line feed.
pub proof fn settings_are_written_plainly(text: Seq<char>, c: char)
    ensures
        bare(seq![c]) <==> 'a' <= c <= 'z' || 'A' <= c <= 'Z' || '0' <= c <= '9' || c == '-' || c
            == '_',
        !bare(Seq::<char>::empty()),
        bare(text) ==> (bare(text.push(c)) <==> bare(seq![c])),
        terminated(text).len() > 0 && terminated(text).last() == '\n',
        text.len() > 0 && text.last() == '\n' ==> terminated(text) == text,
        text.len() > 0 && text.last() != '\n' ==> terminated(text) == text.push('\n'),
        terminated(terminated(text)) == terminated(text),
{
    assert(seq![c][0] == c);
    if bare(text) {
        assert(text.push(c)[text.len() as int] == c);
        if bare(seq![c]) {
            assert forall|i: int| 0 <= i < text.push(c).len() implies crate::config::is_bare(
                #[trigger] text.push(c)[i],
            ) by {
                if i < text.len() {
                    assert(text.push(c)[i] == text[i]);
                }
            }
        }
    }
}

} // verus!
