//! The log viewer: filtering log text by level, counting lines per level,
//! the tail of a long log, and where to look for the log file.

use vstd::prelude::*;

use crate::metadata::{join_spec, join_with};
use crate::text::{chars_of, contains_chars, has_sub, lines, lines_of, push_str, string_of, views};

verus! {

broadcast use vstd::string::group_string_axioms;

/// The level a log view is filtered by.
#[derive(Clone, Copy, Debug, PartialEq, Eq, Structural)]
pub enum LogLevel {
    All,
    Error,
    Warn,
    Info,
    Debug,
    Trace,
}

/// The name of a level as it appears in log lines.
pub open spec fn level_name(l: LogLevel) -> Seq<char> {
    match l {
        LogLevel::All => "ALL"@,
        LogLevel::Error => "ERROR"@,
        LogLevel::Warn => "WARN"@,
        LogLevel::Info => "INFO"@,
        LogLevel::Debug => "DEBUG"@,
        LogLevel::Trace => "TRACE"@,
    }
}

/// The position of a level in the level selector.
pub open spec fn level_index(l: LogLevel) -> i32 {
    match l {
        LogLevel::All => 0,
        LogLevel::Error => 1,
        LogLevel::Warn => 2,
        LogLevel::Info => 3,
        LogLevel::Debug => 4,
        LogLevel::Trace => 5,
    }
}

impl LogLevel {
    /// The name of the level.
    pub fn as_str(&self) -> (r: &'static str)
        ensures
            r@ == level_name(*self),
    {
        match self {
            LogLevel::All => "ALL",
            LogLevel::Error => "ERROR",
            LogLevel::Warn => "WARN",
            LogLevel::Info => "INFO",
            LogLevel::Debug => "DEBUG",
            LogLevel::Trace => "TRACE",
        }
    }

    /// The level at a position of the selector (All for any other
    /// position).
    pub fn from_index(index: i32) -> (r: LogLevel)
        ensures
            0 <= index <= 5 ==> level_index(r) == index,
            !(0 <= index <= 5) ==> r == LogLevel::All,
    {
        match index {
            0 => LogLevel::All,
            1 => LogLevel::Error,
            2 => LogLevel::Warn,
            3 => LogLevel::Info,
            4 => LogLevel::Debug,
            5 => LogLevel::Trace,
            _ => LogLevel::All,
        }
    }

    /// The position of the level in the selector.
    pub fn index(&self) -> (r: i32)
        ensures
            r == level_index(*self),
    {
        match self {
            LogLevel::All => 0,
            LogLevel::Error => 1,
            LogLevel::Warn => 2,
            LogLevel::Info => 3,
            LogLevel::Debug => 4,
            LogLevel::Trace => 5,
        }
    }
}

/// The log text shown for a level: all of it for All, otherwise the lines
/// that contain the level's name, joined by line breaks.
pub open spec fn filtered_log(level: LogLevel, content: Seq<char>) -> Seq<char> {
    if level == LogLevel::All {
        content
    } else {
        join_spec(lines_of(content).filter(|l: Seq<char>| has_sub(l, level_name(level))), "\n"@)
    }
}

/// The log text shown for a level.
pub fn apply_filter(level: LogLevel, content: &str) -> (r: String)
    ensures
        r@ == filtered_log(level, content@),
{
    if level == LogLevel::All {
        return content.to_owned();
    }
    let name = chars_of(level.as_str());
    let cs = chars_of(content);
    let ls = lines(&cs);
    let ghost all = lines_of(content@);
    let ghost keep = |l: Seq<char>| has_sub(l, level_name(level));
    let mut kept: Vec<String> = Vec::new();
    let mut i: usize = 0;
    while i < ls.len()
        invariant
            i <= ls.len(),
            crate::text::char_views(ls@) == all,
            name@ == level_name(level),
            keep == (|l: Seq<char>| has_sub(l, level_name(level))),
            views(kept@) == all.take(i as int).filter(keep),
        decreases ls.len() - i,
    {
        assert(all[i as int] == ls@[i as int]@);
        assert(all.take(i + 1).drop_last() =~= all.take(i as int));
        reveal(Seq::filter);
        if contains_chars(&ls[i], &name) {
            let s = string_of(&ls[i]);
            let ghost before = views(kept@);
            kept.push(s);
            assert(views(kept@) =~= before.push(s@));
        }
        i += 1;
    }
    assert(all.take(ls.len() as int) =~= all);
    join_with(&kept, "\n")
}

/// How many lines a log has, and how many of them are errors, warnings,
/// information, debugging and tracing lines (each line counted once, by the
/// first of these names it contains).
#[derive(Clone, Copy, Debug, Default, PartialEq, Eq, Structural)]
pub struct LogStats {
    pub total_lines: usize,
    pub error_count: usize,
    pub warn_count: usize,
    pub info_count: usize,
    pub debug_count: usize,
    pub trace_count: usize,
}

/// The class of a log line: 1 for an error, 2 a warning, 3 information,
/// 4 debugging, 5 tracing, 0 none of these.
pub open spec fn line_class(l: Seq<char>) -> int {
    if has_sub(l, "ERROR"@) {
        1
    } else if has_sub(l, "WARN"@) {
        2
    } else if has_sub(l, "INFO"@) {
        3
    } else if has_sub(l, "DEBUG"@) {
        4
    } else if has_sub(l, "TRACE"@) {
        5
    } else {
        0
    }
}

/// The number of lines of a class.
pub open spec fn class_count(ls: Seq<Seq<char>>, c: int) -> nat {
    ls.filter(|l: Seq<char>| line_class(l) == c).len()
}

/// The statistics of a log text.
pub open spec fn stats_of(text: Seq<char>) -> LogStats {
    let ls = lines_of(text);
    LogStats {
        total_lines: ls.len() as usize,
        error_count: class_count(ls, 1) as usize,
        warn_count: class_count(ls, 2) as usize,
        info_count: class_count(ls, 3) as usize,
        debug_count: class_count(ls, 4) as usize,
        trace_count: class_count(ls, 5) as usize,
    }
}

/// The class of a log line.
fn classify(l: &Vec<char>) -> (c: u8)
    ensures
        c == line_class(l@),
{
    if contains_chars(l, &chars_of("ERROR")) {
        1
    } else if contains_chars(l, &chars_of("WARN")) {
        2
    } else if contains_chars(l, &chars_of("INFO")) {
        3
    } else if contains_chars(l, &chars_of("DEBUG")) {
        4
    } else if contains_chars(l, &chars_of("TRACE")) {
        5
    } else {
        0
    }
}

/// Counting one more line keeps each class count as the filter's length.
proof fn lemma_class_count_step(ls: Seq<Seq<char>>, i: int, c: int)
    requires
        0 <= i < ls.len(),
    ensures
        class_count(ls.take(i + 1), c) == class_count(ls.take(i), c) + if line_class(ls[i]) == c {
            1int
        } else {
            0int
        },
{
    reveal(Seq::filter);
    assert(ls.take(i + 1).drop_last() =~= ls.take(i));
}

/// The statistics of a log text.
pub fn get_log_stats(text: &str) -> (r: LogStats)
    ensures
        r == stats_of(text@),
{
    let cs = chars_of(text);
    let ls = lines(&cs);
    let ghost all = lines_of(text@);
    let mut counts: [usize; 6] = [0, 0, 0, 0, 0, 0];
    let mut i: usize = 0;
    while i < ls.len()
        invariant
            i <= ls.len(),
            crate::text::char_views(ls@) == all,
            forall|c: int| 1 <= c <= 5 ==> #[trigger] counts@[c] == class_count(all.take(i as int), c),
            forall|c: int| 1 <= c <= 5 ==> #[trigger] counts@[c] <= i,
            counts@.len() == 6,
        decreases ls.len() - i,
    {
        assert(all[i as int] == ls@[i as int]@);
        let k = classify(&ls[i]);
        proof {
            assert forall|c: int| 1 <= c <= 5 implies class_count(all.take(i + 1), c) == class_count(all.take(i as int), c) + if line_class(all[i as int]) == c {
                1int
            } else {
                0int
            } by {
                lemma_class_count_step(all, i as int, c);
            }
        }
        if k > 0 {
            let idx = k as usize;
            let v = counts[idx];
            counts.set(idx, v + 1);
        }
        i += 1;
    }
    assert(all.take(ls.len() as int) =~= all);
    LogStats {
        total_lines: ls.len(),
        error_count: counts[1],
        warn_count: counts[2],
        info_count: counts[3],
        debug_count: counts[4],
        trace_count: counts[5],
    }
}

impl LogStats {
    /// Whether the log has error lines.
    pub fn has_errors(&self) -> (r: bool)
        ensures
            r == (self.error_count > 0),
    {
        self.error_count > 0
    }

    /// Whether the log has warning lines.
    pub fn has_warnings(&self) -> (r: bool)
        ensures
            r == (self.warn_count > 0),
    {
        self.warn_count > 0
    }
}

/// The most lines of a log file that are shown.
pub const MAX_LOG_LINES: usize = 10000;

/// Lines, each followed by a line break.
pub open spec fn line_block(ls: Seq<Seq<char>>) -> Seq<char>
    decreases ls.len(),
{
    if ls.len() == 0 {
        Seq::empty()
    } else {
        line_block(ls.drop_last()) + ls.last() + "\n"@
    }
}

/// The text shown for the lines of a log file: its last 10000 lines, each
/// followed by a line break, under a note when lines were left out.
pub open spec fn log_tail(ls: Seq<Seq<char>>) -> Seq<char> {
    if ls.len() > 10000 {
        "... (showing last 10000 lines)\n\n"@ + line_block(ls.skip(ls.len() - 10000))
    } else {
        line_block(ls)
    }
}

/// The text shown for the lines of a log file.
pub fn log_tail_text(lines: &Vec<String>) -> (r: String)
    ensures
        r@ == log_tail(views(lines@)),
{
    let n = lines.len();
    let start = if n > MAX_LOG_LINES {
        n - MAX_LOG_LINES
    } else {
        0
    };
    let mut r = String::new();
    if n > MAX_LOG_LINES {
        push_str(&mut r, "... (showing last 10000 lines)\n\n");
    }
    let ghost head = r@;
    let ghost tail = views(lines@).skip(start as int);
    let mut i: usize = start;
    assert(tail.take(0) =~= Seq::<Seq<char>>::empty());
    assert(head + Seq::<char>::empty() =~= head);
    while i < n
        invariant
            start <= i <= n,
            n == lines@.len(),
            tail == views(lines@).skip(start as int),
            r@ == head + line_block(tail.take(i - start)),
        decreases n - i,
    {
        push_str(&mut r, lines[i].as_str());
        push_str(&mut r, "\n");
        assert(tail.take(i + 1 - start).drop_last() =~= tail.take(i - start));
        assert(tail[i - start] == lines@[i as int]@);
        assert(r@ =~= head + line_block(tail.take(i + 1 - start)));
        i += 1;
    }
    assert(tail.take(n - start) =~= tail);
    if n > MAX_LOG_LINES {
        assert(head =~= "... (showing last 10000 lines)\n\n"@);
    } else {
        assert(head =~= Seq::<char>::empty());
        assert(tail =~= views(lines@));
        assert(r@ =~= line_block(views(lines@)));
    }
    r
}

/// The entries of the sample log written when no log file is found.
pub open spec fn demo_entries() -> Seq<Seq<char>> {
    seq![
        "INFO TagBox GUI started"@,
        "INFO Loading configuration from config.toml"@,
        "INFO Database connection established: ./.sqlx-data/tagbox.db"@,
        "INFO Initializing main window components"@,
        "INFO Search bar initialized"@,
        "INFO Category tree loaded with 0 categories"@,
        "INFO File list component ready"@,
        "INFO File preview panel initialized"@,
        "DEBUG Setting up keyboard shortcuts"@,
        "DEBUG Configuring drag-drop handlers"@,
        "INFO Application ready for user interaction"@,
        "INFO Waiting for file imports..."@,
        "DEBUG Event loop started"@,
        "TRACE UI refresh cycle completed"@,
    ]
}

/// Each entry on a line of its own, after the time in brackets.
pub open spec fn stamped(ts: Seq<char>, entries: Seq<Seq<char>>) -> Seq<char>
    decreases entries.len(),
{
    if entries.len() == 0 {
        Seq::empty()
    } else {
        stamped(ts, entries.drop_last()) + "["@ + ts + "] "@ + entries.last() + "\n"@
    }
}

/// The sample log written when no log file is found, every entry stamped
/// with the given time.
pub fn demo_log_text(timestamp: &str) -> (r: String)
    ensures
        r@ == stamped(timestamp@, demo_entries()),
{
    let entries = vec![
        "INFO TagBox GUI started",
        "INFO Loading configuration from config.toml",
        "INFO Database connection established: ./.sqlx-data/tagbox.db",
        "INFO Initializing main window components",
        "INFO Search bar initialized",
        "INFO Category tree loaded with 0 categories",
        "INFO File list component ready",
        "INFO File preview panel initialized",
        "DEBUG Setting up keyboard shortcuts",
        "DEBUG Configuring drag-drop handlers",
        "INFO Application ready for user interaction",
        "INFO Waiting for file imports...",
        "DEBUG Event loop started",
        "TRACE UI refresh cycle completed",
    ];
    let ghost es = entries@.map_values(|e: &str| e@);
    assert(es =~= demo_entries());
    let mut r = String::new();
    let mut i: usize = 0;
    while i < entries.len()
        invariant
            i <= entries.len(),
            es == entries@.map_values(|e: &str| e@),
            r@ == stamped(timestamp@, es.take(i as int)),
        decreases entries.len() - i,
    {
        push_str(&mut r, "[");
        push_str(&mut r, timestamp);
        push_str(&mut r, "] ");
        push_str(&mut r, entries[i]);
        push_str(&mut r, "\n");
        assert(es.take(i + 1).drop_last() =~= es.take(i as int));
        i += 1;
    }
    assert(es.take(entries.len() as int) =~= es);
    r
}

/// The text shown when there is no log file.
pub fn missing_log_text() -> (r: &'static str)
    ensures
        r@ == "Log file not found."@,
{
    "Log file not found."
}

/// The places where a log file is looked for, in order.
pub fn log_file_candidates() -> (r: Vec<&'static str>)
    ensures
        r@.len() == 6,
        r@[0]@ == "./tagbox.log"@,
        r@[1]@ == "./logs/tagbox.log"@,
        r@[2]@ == "./target/debug/tagbox.log"@,
        r@[3]@ == "./target/release/tagbox.log"@,
        r@[4]@ == "/tmp/tagbox.log"@,
        r@[5]@ == "~/.cache/tagbox/tagbox.log"@,
{
    vec![
        "./tagbox.log",
        "./logs/tagbox.log",
        "./target/debug/tagbox.log",
        "./target/release/tagbox.log",
        "/tmp/tagbox.log",
        "~/.cache/tagbox/tagbox.log",
    ]
}

} // verus!

verus! {

/// The class counts of the first `i` lines add up to `i`.
proof fn lemma_class_counts_prefix(ls: Seq<Seq<char>>, i: int)
    requires
        0 <= i <= ls.len(),
    ensures
        class_count(ls.take(i), 0) + class_count(ls.take(i), 1) + class_count(ls.take(i), 2) + class_count(ls.take(i), 3)
            + class_count(ls.take(i), 4) + class_count(ls.take(i), 5) == i,
    decreases i,
{
    reveal(Seq::filter);
    if i > 0 {
        lemma_class_counts_prefix(ls, i - 1);
        lemma_class_count_step(ls, i - 1, 0);
        lemma_class_count_step(ls, i - 1, 1);
        lemma_class_count_step(ls, i - 1, 2);
        lemma_class_count_step(ls, i - 1, 3);
        lemma_class_count_step(ls, i - 1, 4);
        lemma_class_count_step(ls, i - 1, 5);
    } else {
        assert(ls.take(0) =~= Seq::<Seq<char>>::empty());
    }
}

/// Each line of a log is counted once: the lines without a level name and
/// the lines of each level add up to all the lines.
pub proof fn lemma_log_lines_counted_once(text: Seq<char>)
    ensures
        class_count(lines_of(text), 0) + class_count(lines_of(text), 1) + class_count(lines_of(text), 2)
            + class_count(lines_of(text), 3) + class_count(lines_of(text), 4) + class_count(lines_of(text), 5)
            == lines_of(text).len(),
{
    let ls = lines_of(text);
    lemma_class_counts_prefix(ls, ls.len() as int);
    assert(ls.take(ls.len() as int) =~= ls);
}

} // verus!
