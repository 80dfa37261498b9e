//! The file activity panel.

use crate::clock::Timestamp;
use crate::common::display_path;
use crate::paths::{paths_equal, same_path, shown_path};
use crate::snapshot::{age_in_secs, age_secs, Snapshot, SnapshotView};
use crate::text::{
    chars_of, decimal, lemma_run_len_bounds, push_decimal, run_end, run_len, slice_text,
    CharClass,
};
use crate::types::{text_view, FileChangeKind, FileModification, ToolLineChange};
use crate::ui::{
    bold, colored, line_views, max_scroll_of, push_line, push_span, raw, scroll_limit, single,
    span_views, Hue, SpanView, StyledLine, StyledSpan,
};
use vstd::prelude::*;

verus! {

/// How many entries the panel shows.
pub const MAX_FILE_ACTIVITY_ITEMS: usize = 20;

/// An entry of the panel.
#[derive(Debug, PartialEq, Eq)]
pub struct FileActivityEntry {
    pub timestamp: Timestamp,
    pub path: String,
    pub path_key: String,
    pub kind: FileChangeKind,
    pub line_change: Option<ToolLineChange>,
    pub repeat_index: u32,
}

/// The value of a [`FileActivityEntry`].
pub struct EntryView {
    pub timestamp: Timestamp,
    pub path: Seq<char>,
    pub path_key: Seq<char>,
    pub kind: FileChangeKind,
    pub line_change: Option<ToolLineChange>,
    pub repeat_index: u32,
}

impl View for FileActivityEntry {
    type V = EntryView;

    open spec fn view(&self) -> EntryView {
        EntryView {
            timestamp: self.timestamp,
            path: self.path@,
            path_key: self.path_key@,
            kind: self.kind,
            line_change: self.line_change,
            repeat_index: self.repeat_index,
        }
    }
}

/// The values of a list of entries.
pub open spec fn entry_views(list: Seq<FileActivityEntry>) -> Seq<EntryView> {
    list.map_values(|e: FileActivityEntry| e@)
}

/// The stronger of two kinds of change: a deletion, else a creation, else a
/// modification.
pub open spec fn merged_kind(a: FileChangeKind, b: FileChangeKind) -> FileChangeKind {
    if a == FileChangeKind::Deleted || b == FileChangeKind::Deleted {
        FileChangeKind::Deleted
    } else if a == FileChangeKind::Created || b == FileChangeKind::Created {
        FileChangeKind::Created
    } else if a == FileChangeKind::Modified || b == FileChangeKind::Modified {
        FileChangeKind::Modified
    } else {
        FileChangeKind::Read
    }
}

/// Picks the stronger of two kinds of change.
pub fn merge_kind(existing: FileChangeKind, incoming: FileChangeKind) -> (r: FileChangeKind)
    ensures
        r == merged_kind(existing, incoming),
{
    match (existing, incoming) {
        (FileChangeKind::Deleted, _) => FileChangeKind::Deleted,
        (_, FileChangeKind::Deleted) => FileChangeKind::Deleted,
        (FileChangeKind::Created, _) => FileChangeKind::Created,
        (_, FileChangeKind::Created) => FileChangeKind::Created,
        (FileChangeKind::Modified, _) => FileChangeKind::Modified,
        (_, FileChangeKind::Modified) => FileChangeKind::Modified,
        _ => FileChangeKind::Read,
    }
}

/// Whether an event repeats the entry before it.
pub open spec fn repeats(previous: EntryView, event: FileModification) -> bool {
    same_path(previous.path_key, event.path@) && previous.kind == event.kind
}

/// The entry of an event by itself.
pub open spec fn entry_for(event: FileModification, cwd: Seq<char>) -> EntryView {
    EntryView {
        timestamp: event.timestamp,
        path: shown_path(cwd, event.path@),
        path_key: event.path@,
        kind: event.kind,
        line_change: event.line_change,
        repeat_index: 0,
    }
}

/// An entry that takes in an event that repeats it: it learns the line change
/// where it had none.
pub open spec fn absorbed(entry: EntryView, event: FileModification) -> EntryView {
    EntryView {
        line_change: match entry.line_change {
            Some(change) => Some(change),
            None => event.line_change,
        },
        kind: merged_kind(entry.kind, event.kind),
        ..entry
    }
}

/// The entries of the newest events of a list, from the newest to the oldest.
/// An event that repeats the entry before it is merged with it. Nothing is added
/// to a full panel.
pub open spec fn gathered(files: Seq<FileModification>, cwd: Seq<char>, count: int) -> Seq<EntryView>
    decreases count,
{
    if count <= 0 {
        seq![]
    } else {
        let entries = gathered(files, cwd, count - 1);
        let event = files[files.len() - count];
        if entries.len() >= 20 {
            entries
        } else if entries.len() > 0 && repeats(entries.last(), event) {
            entries.drop_last().push(absorbed(entries.last(), event))
        } else {
            entries.push(entry_for(event, cwd))
        }
    }
}

/// How many of the first entries of a list are about a path.
pub open spec fn entries_about(entries: Seq<EntryView>, path: Seq<char>, count: int) -> nat
    decreases count,
{
    if count <= 0 {
        0
    } else {
        entries_about(entries, path, count - 1) + (if same_path(
            entries[count - 1].path_key,
            path,
        ) {
            1nat
        } else {
            0nat
        })
    }
}

/// The entries with their numbers: how many entries up to this one are about
/// the same path.
pub open spec fn numbered(entries: Seq<EntryView>) -> Seq<EntryView> {
    Seq::new(
        entries.len(),
        |i: int|
            EntryView {
                repeat_index: entries_about(entries, entries[i].path_key, i + 1) as u32,
                ..entries[i]
            },
    )
}

/// The entries of a snapshot.
pub open spec fn activity_of(s: SnapshotView) -> Seq<EntryView> {
    let files = s.state.recently_modified_files;
    numbered(gathered(files, s.cwd, files.len() as int))
}

proof fn lemma_gathered_full(files: Seq<FileModification>, cwd: Seq<char>, from: int, to: int)
    requires
        0 <= from <= to,
        gathered(files, cwd, from).len() >= 20,
    ensures
        gathered(files, cwd, to) == gathered(files, cwd, from),
    decreases to - from,
{
    if from < to {
        lemma_gathered_full(files, cwd, from, to - 1);
    }
}

fn gather(snapshot: &Snapshot) -> (r: Vec<FileActivityEntry>)
    ensures
        entry_views(r@) == gathered(
            snapshot@.state.recently_modified_files,
            snapshot@.cwd,
            snapshot@.state.recently_modified_files.len() as int,
        ),
        r@.len() <= 20,
{
    let ghost files = snapshot@.state.recently_modified_files;
    let ghost cwd = snapshot@.cwd;
    let total: usize = snapshot.state.recently_modified_files.len();
    let mut entries: Vec<FileActivityEntry> = Vec::new();
    let mut count: usize = 0;
    assert(entry_views(entries@) =~= seq![]);
    while count < total && entries.len() < MAX_FILE_ACTIVITY_ITEMS
        invariant
            count <= total == files.len(),
            files == snapshot@.state.recently_modified_files,
            cwd == snapshot@.cwd,
            entries@.len() <= 20,
            entry_views(entries@) == gathered(files, cwd, count as int),
        decreases total - count,
    {
        let event = &snapshot.state.recently_modified_files[total - 1 - count];
        let ghost before = entries@;
        assert(entry_views(before).len() == before.len());
        let last: usize = entries.len();
        let merge = last > 0 && paths_equal(
            entries[last - 1].path_key.as_str(),
            event.path.as_str(),
        ) && entries[last - 1].kind == event.kind;
        assert(last > 0 ==> entry_views(before).last() == before.last()@);
        assert(merge == (last > 0 && repeats(entry_views(before).last(), *event)));
        if merge {
            if let Some(mut entry) = entries.pop() {
                if entry.line_change.is_none() {
                    entry.line_change = event.line_change;
                }
                entry.kind = merge_kind(entry.kind, event.kind);
                assert(entry@ == absorbed(entry_views(before).last(), *event));
                entries.push(entry);
                assert(entry_views(entries@) =~= entry_views(before).drop_last().push(entry@));
            }
        } else {
            let entry = FileActivityEntry {
                timestamp: event.timestamp,
                path: display_path(snapshot.cwd.as_str(), event.path.as_str()),
                path_key: event.path.clone(),
                kind: event.kind,
                line_change: event.line_change,
                repeat_index: 0,
            };
            assert(entry@ == entry_for(*event, cwd));
            entries.push(entry);
            assert(entry_views(entries@) =~= entry_views(before).push(entry@));
        }
        count = count + 1;
    }
    proof {
        if count < total {
            lemma_gathered_full(files, cwd, count as int, total as int);
        }
    }
    entries
}

fn count_about(entries: &Vec<FileActivityEntry>, path: &str, count: usize) -> (r: u32)
    requires
        count <= entries@.len(),
        entries@.len() <= 20,
    ensures
        r == entries_about(entry_views(entries@), path@, count as int),
        r <= count,
{
    let ghost all = entry_views(entries@);
    let mut out: u32 = 0;
    let mut i: usize = 0;
    while i < count
        invariant
            i <= count <= entries@.len(),
            entries@.len() <= 20,
            all == entry_views(entries@),
            out == entries_about(all, path@, i as int),
            out <= i,
        decreases count - i,
    {
        assert(all[i as int] == entries@[i as int]@);
        if paths_equal(entries[i].path_key.as_str(), path) {
            out = out + 1;
        }
        i = i + 1;
    }
    out
}

/// A length of time in a compact form: hours and minutes, a few minutes with
/// their seconds, or seconds.
pub open spec fn shown_age(secs: nat) -> Seq<char> {
    let hours = secs / 3600;
    let minutes = (secs % 3600) / 60;
    let seconds = secs % 60;
    if hours > 0 {
        if minutes > 0 {
            decimal(hours) + "h"@ + decimal(minutes) + "m"@
        } else {
            decimal(hours) + "h"@
        }
    } else if minutes > 0 {
        if minutes < 10 && seconds > 0 {
            decimal(minutes) + "m"@ + decimal(seconds) + "s"@
        } else {
            decimal(minutes) + "m"@
        }
    } else {
        decimal(seconds) + "s"@
    }
}

/// Writes the age of a time in a compact form.
pub fn format_age(now: Timestamp, timestamp: Timestamp) -> (r: String)
    ensures
        r@ == shown_age(age_secs(now, timestamp) as nat),
{
    let total = age_in_secs(now, timestamp);
    let hours: u64 = total / 3600;
    let minutes: u64 = (total % 3600) / 60;
    let seconds: u64 = total % 60;
    let mut out: String = String::new();
    let ghost empty = out@;
    assert(forall|s: Seq<char>| #[trigger] (empty + s) =~= s);
    if hours > 0 {
        push_decimal(&mut out, hours as u128);
        out.append("h");
        if minutes > 0 {
            push_decimal(&mut out, minutes as u128);
            out.append("m");
        }
    } else if minutes > 0 {
        push_decimal(&mut out, minutes as u128);
        out.append("m");
        if minutes < 10 && seconds > 0 {
            push_decimal(&mut out, seconds as u128);
            out.append("s");
        }
    } else {
        push_decimal(&mut out, seconds as u128);
        out.append("s");
    }
    out
}

/// The sign of a kind of change.
pub open spec fn kind_icon(kind: FileChangeKind) -> Seq<char> {
    match kind {
        FileChangeKind::Read => "○"@,
        FileChangeKind::Deleted => "✗"@,
        FileChangeKind::Created => "✎"@,
        FileChangeKind::Modified => "✎"@,
    }
}

/// The sign of a kind of change.
pub fn icon(kind: FileChangeKind) -> (r: &'static str)
    ensures
        r@ == kind_icon(kind),
{
    match kind {
        FileChangeKind::Read => "○",
        FileChangeKind::Deleted => "✗",
        FileChangeKind::Created => "✎",
        FileChangeKind::Modified => "✎",
    }
}

/// The color of a kind of change.
pub open spec fn kind_hue(kind: FileChangeKind) -> Hue {
    match kind {
        FileChangeKind::Read => Hue::DarkGray,
        FileChangeKind::Deleted => Hue::Red,
        FileChangeKind::Created => Hue::Green,
        FileChangeKind::Modified => Hue::Cyan,
    }
}

/// The color of a kind of change.
pub fn icon_style(kind: FileChangeKind) -> (r: Hue)
    ensures
        r == kind_hue(kind),
{
    match kind {
        FileChangeKind::Read => Hue::DarkGray,
        FileChangeKind::Deleted => Hue::Red,
        FileChangeKind::Created => Hue::Green,
        FileChangeKind::Modified => Hue::Cyan,
    }
}

/// A line change as it is shown; nothing where no line changed.
pub open spec fn shown_change(change: Option<ToolLineChange>) -> Option<Seq<char>> {
    match change {
        Some(c) => if c.added == 0 && c.removed == 0 {
            None
        } else if c.removed == 0 {
            Some("+"@ + decimal(c.added as nat) + "L"@)
        } else if c.added == 0 {
            Some("-"@ + decimal(c.removed as nat) + "L"@)
        } else {
            Some("+"@ + decimal(c.added as nat) + "L -"@ + decimal(c.removed as nat) + "L"@)
        },
        None => None,
    }
}

/// The line change behind a reference that may be missing.
pub open spec fn change_of(change: Option<&ToolLineChange>) -> Option<ToolLineChange> {
    match change {
        Some(c) => Some(*c),
        None => None,
    }
}

/// Writes a line change.
pub fn format_line_change(line_change: Option<&ToolLineChange>) -> (r: Option<String>)
    ensures
        text_view(r) == shown_change(change_of(line_change)),
{
    match line_change {
        Some(c) => {
            if c.added == 0 && c.removed == 0 {
                return None;
            }
            if c.removed == 0 {
                let mut out: String = "+".to_owned();
                push_decimal(&mut out, c.added as u128);
                out.append("L");
                return Some(out);
            }
            if c.added == 0 {
                let mut out: String = "-".to_owned();
                push_decimal(&mut out, c.removed as u128);
                out.append("L");
                return Some(out);
            }
            let mut out: String = "+".to_owned();
            push_decimal(&mut out, c.added as u128);
            out.append("L -");
            push_decimal(&mut out, c.removed as u128);
            out.append("L");
            Some(out)
        },
        None => None,
    }
}

/// The color of a line change: red for removed lines, green for added ones,
/// yellow for both.
pub open spec fn change_hue(change: Option<ToolLineChange>) -> Hue {
    match change {
        Some(c) => if c.removed > 0 && c.added == 0 {
            Hue::Red
        } else if c.added > 0 && c.removed == 0 {
            Hue::Green
        } else {
            Hue::Yellow
        },
        None => Hue::Plain,
    }
}

/// The color of a line change.
pub fn line_change_style(line_change: Option<&ToolLineChange>) -> (r: Hue)
    ensures
        r == change_hue(change_of(line_change)),
{
    match line_change {
        Some(c) => if c.removed > 0 && c.added == 0 {
            Hue::Red
        } else if c.added > 0 && c.removed == 0 {
            Hue::Green
        } else {
            Hue::Yellow
        },
        None => Hue::Plain,
    }
}

/// The position of the last slash of a text.
pub open spec fn last_slash(s: Seq<char>) -> Option<int>
    decreases s.len(),
{
    if s.len() == 0 {
        None
    } else if s.last() == '/' {
        Some(s.len() - 1)
    } else {
        last_slash(s.drop_last())
    }
}

/// The last characters of a text.
pub open spec fn ending(s: Seq<char>, count: int) -> Seq<char> {
    if s.len() <= count {
        s
    } else {
        s.skip(s.len() - count)
    }
}

/// A text without the piece before its first slash and without the slashes at
/// its start.
pub open spec fn whole_parts(s: Seq<char>) -> Seq<char> {
    let t = s.skip(run_len(s, CharClass::Slash, false) as int);
    t.skip(run_len(t, CharClass::Slash, true) as int)
}

/// A path cut to a width. The name of the file is kept as long as it fits, and
/// as many of the directories before it as there is room for.
pub open spec fn cut_path(path: Seq<char>, width: nat) -> Seq<char> {
    let dots = seq!['\u{2026}'];
    if width == 0 {
        seq![]
    } else if path.len() <= width {
        path
    } else if width == 1 {
        dots
    } else {
        match last_slash(path) {
            None => dots + ending(path, width - 1),
            Some(at) => {
                let name = path.skip(at + 1);
                if name.len() + 2 >= width {
                    dots + ending(name, width - 1)
                } else {
                    let room = width - name.len() - 3;
                    let parents = whole_parts(ending(path.take(at), room));
                    if room == 0 || parents.len() == 0 {
                        dots + seq!['/'] + name
                    } else {
                        dots + seq!['/'] + parents + seq!['/'] + name
                    }
                }
            },
        }
    }
}

proof fn lemma_last_slash(s: Seq<char>)
    ensures
        match last_slash(s) {
            Some(at) => 0 <= at < s.len() && s[at] == '/',
            None => true,
        },
    decreases s.len(),
{
    if s.len() > 0 && s.last() != '/' {
        lemma_last_slash(s.drop_last());
    }
}

fn find_last_slash(chars: &Vec<char>) -> (r: Option<usize>)
    ensures
        match r {
            Some(at) => last_slash(chars@) == Some(at as int) && at < chars@.len(),
            None => last_slash(chars@) is None,
        },
{
    let mut i: usize = chars.len();
    assert(chars@.take(i as int) =~= chars@);
    while i > 0
        invariant
            i <= chars@.len(),
            last_slash(chars@) == last_slash(chars@.take(i as int)),
        decreases i,
    {
        assert(chars@.take(i as int).last() == chars@[i - 1]);
        assert(chars@.take(i as int).drop_last() =~= chars@.take(i - 1));
        if chars[i - 1] == '/' {
            return Some(i - 1);
        }
        i = i - 1;
    }
    None
}

fn take_last(chars: &Vec<char>, from: usize, to: usize, count: usize) -> (r: Vec<char>)
    requires
        from <= to <= chars@.len(),
    ensures
        r@ == ending(chars@.subrange(from as int, to as int), count as int),
{
    let start: usize = if to - from <= count {
        from
    } else {
        to - count
    };
    let mut out: Vec<char> = Vec::new();
    let mut i: usize = start;
    assert(out@ =~= chars@.subrange(start as int, i as int));
    while i < to
        invariant
            start <= i <= to <= chars@.len(),
            out@ == chars@.subrange(start as int, i as int),
        decreases to - i,
    {
        out.push(chars[i]);
        i = i + 1;
        assert(out@ =~= chars@.subrange(start as int, i as int));
    }
    assert(out@ =~= ending(chars@.subrange(from as int, to as int), count as int));
    out
}

fn append_chars(out: &mut String, chars: &Vec<char>, from: usize)
    requires
        from <= chars@.len(),
    ensures
        final(out)@ == old(out)@ + chars@.skip(from as int),
{
    let text = slice_text(chars, from, chars.len());
    assert(text@ =~= chars@.skip(from as int));
    out.append(text.as_str());
}

/// Cuts a path to a width.
pub fn truncate_path(path: &str, width: usize) -> (r: String)
    ensures
        r@ == cut_path(path@, width as nat),
{
    let mut out: String = String::new();
    if width == 0 {
        assert(out@ =~= seq![]);
        return out;
    }
    let chars = chars_of(path);
    if chars.len() <= width {
        return path.to_owned();
    }
    out.push('\u{2026}');
    assert(out@ =~= seq!['\u{2026}']);
    if width == 1 {
        return out;
    }
    match find_last_slash(&chars) {
        None => {
            let tail = take_last(&chars, 0, chars.len(), width - 1);
            assert(path@.subrange(0, path@.len() as int) =~= path@);
            append_chars(&mut out, &tail, 0);
            assert(tail@.skip(0) =~= tail@);
            out
        },
        Some(at) => {
            let name_len: usize = chars.len() - at - 1;
            assert(path@.skip(at + 1) =~= chars@.subrange(at + 1, chars@.len() as int));
            if name_len >= width - 2 {
                let tail = take_last(&chars, at + 1, chars.len(), width - 1);
                append_chars(&mut out, &tail, 0);
                assert(tail@.skip(0) =~= tail@);
                return out;
            }
            let room: usize = width - name_len - 3;
            let parents = take_last(&chars, 0, at, room);
            assert(path@.take(at as int) =~= chars@.subrange(0, at as int));
            assert(parents@.skip(0) =~= parents@);
            let first = run_end(&parents, 0, CharClass::Slash, false);
            let from = run_end(&parents, first, CharClass::Slash, true);
            assert(parents@.skip(from as int) =~= whole_parts(parents@));
            let name = slice_text(&chars, at + 1, chars.len());
            out.push('/');
            assert(out@ =~= seq!['\u{2026}'] + seq!['/']);
            if room > 0 && from < parents.len() {
                append_chars(&mut out, &parents, from);
                out.push('/');
                out.append(name.as_str());
                assert(out@ =~= seq!['\u{2026}'] + seq!['/'] + whole_parts(parents@) + seq!['/']
                    + name@);
            } else {
                out.append(name.as_str());
            }
            out
        },
    }
}

/// A path that was cut fits in its width.
pub proof fn cut_paths_fit(path: Seq<char>, width: nat)
    ensures
        cut_path(path, width).len() <= width,
{
    lemma_last_slash(path);
    if let Some(at) = last_slash(path) {
        let name = path.skip(at + 1);
        let room = width - name.len() - 3;
        let parents = ending(path.take(at), room);
        lemma_run_len_bounds(parents, CharClass::Slash, false);
        let t = parents.skip(run_len(parents, CharClass::Slash, false) as int);
        lemma_run_len_bounds(t, CharClass::Slash, true);
    }
}

/// A path that was cut still ends with the name of its file, where the name is
/// shorter than the width.
pub proof fn cut_paths_keep_the_name(path: Seq<char>, width: nat, at: int)
    requires
        last_slash(path) == Some(at),
        path.skip(at + 1).len() < width,
    ensures
        ending(cut_path(path, width), path.skip(at + 1).len() as int) == path.skip(at + 1),
{
    lemma_last_slash(path);
    let name = path.skip(at + 1);
    assert(ending(cut_path(path, width), name.len() as int) =~= name);
}

/// A text with blanks before it up to a width.
pub open spec fn aligned(text: Seq<char>, width: nat) -> Seq<char> {
    if text.len() >= width {
        text
    } else {
        Seq::new((width - text.len()) as nat, |i: int| ' ') + text
    }
}

fn align_right(text: &str, width: usize) -> (r: String)
    ensures
        r@ == aligned(text@, width as nat),
{
    let count: usize = chars_of(text).len();
    let mut out: String = String::new();
    let mut i: usize = count;
    assert(out@ =~= Seq::new(0, |k: int| ' '));
    while i < width
        invariant
            count == text@.len(),
            count <= i,
            i <= width || i == count,
            out@ == Seq::new((i - count) as nat, |k: int| ' '),
        decreases width - i,
    {
        out.push(' ');
        assert(out@ =~= Seq::new((i + 1 - count) as nat, |k: int| ' '));
        i = i + 1;
    }
    out.append(text);
    assert(out@ =~= aligned(text@, width as nat));
    out
}

/// The mark of an entry about a path that stands in the panel already.
pub open spec fn loop_marker(index: u32) -> Option<Seq<char>> {
    if index > 1 {
        Some("("@ + decimal(index as nat) + ")"@)
    } else {
        None
    }
}

/// The room that an optional text takes with the gap before it.
pub open spec fn gap_width(text: Option<Seq<char>>) -> int {
    match text {
        Some(t) => t.len() as int + 2,
        None => 0,
    }
}

/// The room that is left for the path of an entry.
pub open spec fn path_room(entry: EntryView, now: Timestamp, width: int) -> int {
    let age = aligned(shown_age(age_secs(now, entry.timestamp) as nat), 5);
    let used = age.len() + 2 + kind_icon(entry.kind).len() + 2 + gap_width(
        shown_change(entry.line_change),
    ) + gap_width(loop_marker(entry.repeat_index));
    if width > used + 1 {
        width - used
    } else {
        1
    }
}

/// The line of an entry: its age, its sign, its path, and where there are such
/// its line change and its number.
pub open spec fn entry_line(entry: EntryView, now: Timestamp, width: int) -> Seq<SpanView> {
    let start = seq![
        colored(aligned(shown_age(age_secs(now, entry.timestamp) as nat), 5), Hue::DarkGray),
        raw("  "@),
        colored(kind_icon(entry.kind), kind_hue(entry.kind)),
        raw("  "@),
        raw(cut_path(entry.path, path_room(entry, now, width) as nat)),
    ];
    let with_change = match shown_change(entry.line_change) {
        Some(t) => start.push(raw("  "@)).push(colored(t, change_hue(entry.line_change))),
        None => start,
    };
    match loop_marker(entry.repeat_index) {
        Some(t) => with_change.push(raw("  "@)).push(bold(t, Hue::Yellow)),
        None => with_change,
    }
}

fn plain_span(text: String) -> (r: StyledSpan)
    ensures
        r@ == raw(text@),
{
    StyledSpan { text, hue: Hue::Plain, bold: false }
}

fn char_count(text: &str) -> (r: usize)
    ensures
        r == text@.len(),
{
    chars_of(text).len()
}

fn add_widths(a: usize, b: usize) -> (r: usize)
    ensures
        r == if a + b <= usize::MAX {
            a + b
        } else {
            usize::MAX as int
        },
{
    a.saturating_add(b)
}

/// Builds the line of an entry.
pub fn build_line(entry: &FileActivityEntry, now: Timestamp, width: usize) -> (r: StyledLine)
    ensures
        r@ == entry_line(entry@, now, width as int),
{
    let age_cell = align_right(format_age(now, entry.timestamp).as_str(), 5);
    let sign = icon(entry.kind);
    let change_ref = match &entry.line_change {
        Some(c) => Some(c),
        None => None,
    };
    let line_change = format_line_change(change_ref);
    let marker: Option<String> = if entry.repeat_index > 1 {
        let mut text: String = "(".to_owned();
        push_decimal(&mut text, entry.repeat_index as u128);
        text.append(")");
        Some(text)
    } else {
        None
    };
    let mut used: usize = add_widths(char_count(age_cell.as_str()), 2);
    used = add_widths(used, char_count(sign));
    used = add_widths(used, 2);
    if let Some(text) = &line_change {
        used = add_widths(used, add_widths(char_count(text.as_str()), 2));
    }
    if let Some(text) = &marker {
        used = add_widths(used, add_widths(char_count(text.as_str()), 2));
    }
    let left: usize = width.saturating_sub(used);
    let room: usize = if left > 1 {
        left
    } else {
        1
    };
    assert(room == path_room(entry@, now, width as int));
    let path = truncate_path(entry.path.as_str(), room);

    let mut spans: Vec<StyledSpan> = Vec::new();
    assert(span_views(spans@) =~= seq![]);
    push_span(&mut spans, StyledSpan { text: age_cell, hue: Hue::DarkGray, bold: false });
    push_span(&mut spans, plain_span("  ".to_owned()));
    push_span(
        &mut spans,
        StyledSpan { text: sign.to_owned(), hue: icon_style(entry.kind), bold: false },
    );
    push_span(&mut spans, plain_span("  ".to_owned()));
    push_span(&mut spans, plain_span(path));
    if let Some(text) = line_change {
        push_span(&mut spans, plain_span("  ".to_owned()));
        push_span(
            &mut spans,
            StyledSpan { text, hue: line_change_style(change_ref), bold: false },
        );
    }
    if let Some(text) = marker {
        push_span(&mut spans, plain_span("  ".to_owned()));
        push_span(&mut spans, StyledSpan { text, hue: Hue::Yellow, bold: true });
    }
    let line = StyledLine { spans };
    assert(line@ =~= entry_line(entry@, now, width as int));
    line
}

/// The file activity panel.
#[derive(Debug, PartialEq, Eq)]
pub struct FileActivityPanel {
    pub entries: Vec<FileActivityEntry>,
    pub now: Timestamp,
    pub scroll: u16,
    pub active: bool,
}

/// The lines of a panel.
pub open spec fn activity_lines(entries: Seq<EntryView>, now: Timestamp, width: int) -> Seq<
    Seq<SpanView>,
> {
    if entries.len() == 0 {
        seq![seq![colored("No recent file activity"@, Hue::DarkGray)]]
    } else {
        entries.map_values(|e: EntryView| entry_line(e, now, width))
    }
}

impl FileActivityPanel {
    /// The panel for a snapshot at a time.
    pub fn from_snapshot_at(snapshot: &Snapshot, now: Timestamp) -> (r: Self)
        ensures
            entry_views(r.entries@) == activity_of(snapshot@),
            r.now == now,
            r.scroll == 0,
            !r.active,
    {
        let mut entries = gather(snapshot);
        let ghost found = entry_views(entries@);
        let mut i: usize = 0;
        while i < entries.len()
            invariant
                i <= entries@.len() <= 20,
                found.len() == entries@.len(),
                forall|k: int| i <= k < entries@.len() ==> (#[trigger] entries@[k])@ == found[k],
                forall|k: int|
                    0 <= k < entries@.len() ==> (#[trigger] entries@[k]).path_key@
                        == found[k].path_key,
                forall|k: int|
                    0 <= k < i ==> (#[trigger] entries@[k])@ == numbered(found)[k],
            decreases entries@.len() - i,
        {
            let count = count_about(&entries, entries[i].path_key.as_str(), i + 1);
            proof {
                lemma_about_same(
                    entry_views(entries@),
                    found,
                    entries@[i as int].path_key@,
                    i + 1,
                );
            }
            let ghost before = entries@;
            let entry = FileActivityEntry {
                timestamp: entries[i].timestamp,
                path: entries[i].path.clone(),
                path_key: entries[i].path_key.clone(),
                kind: entries[i].kind,
                line_change: entries[i].line_change,
                repeat_index: count,
            };
            assert(entry@ == numbered(found)[i as int]);
            entries.set(i, entry);
            i = i + 1;
        }
        assert(entry_views(entries@) =~= numbered(found));
        FileActivityPanel { entries, now, scroll: 0, active: false }
    }

    /// The panel for a snapshot at the current time.
    pub fn from_snapshot(snapshot: &Snapshot) -> (r: Self)
        ensures
            entry_views(r.entries@) == activity_of(snapshot@),
            r.scroll == 0,
            !r.active,
    {
        let now = Timestamp::now();
        FileActivityPanel::from_snapshot_at(snapshot, now)
    }

    /// The panel, scrolled.
    pub fn with_scroll(self, scroll: u16) -> (r: Self)
        ensures
            r == (FileActivityPanel { scroll, ..self }),
    {
        let mut panel = self;
        panel.scroll = scroll;
        panel
    }

    /// The panel, marked as the active one or not.
    pub fn with_active(self, active: bool) -> (r: Self)
        ensures
            r == (FileActivityPanel { active, ..self }),
    {
        let mut panel = self;
        panel.active = active;
        panel
    }

    /// The number of lines.
    pub fn content_height(&self) -> (r: usize)
        ensures
            r == if self.entries@.len() == 0 {
                1
            } else {
                self.entries@.len()
            },
    {
        if self.entries.len() == 0 {
            1
        } else {
            self.entries.len()
        }
    }

    /// How far the panel can be scrolled in an area.
    pub fn max_scroll(&self, area_height: u16) -> (r: u16)
        ensures
            r == scroll_limit(
                if self.entries@.len() == 0 {
                    1
                } else {
                    self.entries@.len()
                },
                area_height,
            ),
    {
        max_scroll_of(self.content_height(), area_height)
    }

    /// The title: in bold, and yellow where the panel is the active one.
    pub fn title(&self) -> (r: StyledSpan)
        ensures
            r@ == bold(
                "File activity"@,
                if self.active {
                    Hue::Yellow
                } else {
                    Hue::Plain
                },
            ),
    {
        let hue = if self.active {
            Hue::Yellow
        } else {
            Hue::Plain
        };
        StyledSpan { text: "File activity".to_owned(), hue, bold: true }
    }

    /// The lines of the panel in a width.
    pub fn lines(&self, width: usize) -> (r: Vec<StyledLine>)
        ensures
            line_views(r@) == activity_lines(entry_views(self.entries@), self.now, width as int),
    {
        let mut out: Vec<StyledLine> = Vec::new();
        assert(entry_views(self.entries@).len() == self.entries@.len());
        if self.entries.len() == 0 {
            assert(line_views(out@) =~= seq![]);
            push_line(
                &mut out,
                single("No recent file activity".to_owned(), Hue::DarkGray, false),
            );
            assert(line_views(out@) =~= activity_lines(
                entry_views(self.entries@),
                self.now,
                width as int,
            ));
            return out;
        }
        let ghost all = activity_lines(entry_views(self.entries@), self.now, width as int);
        let mut i: usize = 0;
        assert(line_views(out@) =~= all.take(0));
        while i < self.entries.len()
            invariant
                i <= self.entries@.len(),
                self.entries@.len() > 0,
                all == activity_lines(entry_views(self.entries@), self.now, width as int),
                line_views(out@) == all.take(i as int),
            decreases self.entries@.len() - i,
        {
            let line = build_line(&self.entries[i], self.now, width);
            assert(line@ == all[i as int]);
            push_line(&mut out, line);
            assert(all.take(i + 1) =~= all.take(i as int).push(all[i as int]));
            i = i + 1;
        }
        assert(all.take(i as int) =~= all);
        out
    }
}

proof fn lemma_about_same(a: Seq<EntryView>, b: Seq<EntryView>, path: Seq<char>, count: int)
    requires
        0 <= count <= a.len(),
        a.len() == b.len(),
        forall|k: int| 0 <= k < a.len() ==> (#[trigger] a[k]).path_key == b[k].path_key,
    ensures
        entries_about(a, path, count) == entries_about(b, path, count),
    decreases count,
{
    if count > 0 {
        lemma_about_same(a, b, path, count - 1);
        assert(a[count - 1].path_key == b[count - 1].path_key);
    }
}

} // verus!
