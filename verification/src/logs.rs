//! Log lines: how a captured line is written to a task's log file, how the
//! files are read back, how a page of history is selected across the live
//! file and its rotated siblings, and the in-memory buffer of recent lines.

use vstd::prelude::*;
use crate::task::{TaskId, uuid_hyphenated_text};
use crate::text::{trim, trim_start, trim_end, is_ws, trim_str, lemma_trim_end_append};
use crate::clock::now_rfc3339;
use crate::text::{decimal, decimal_text};
use std::collections::VecDeque;

verus! {

/// Which stream a line came from.
#[derive(Debug, Clone, Copy, PartialEq, Eq, Structural)]
pub enum LogStream {
    Stdout,
    Stderr,
}

/// A single log line.
#[derive(Debug, Clone)]
pub struct LogEntry {
    pub task_id: String,
    pub timestamp: String,
    pub stream: LogStream,
    pub line: String,
}

impl LogEntry {
    /// An equal copy of this entry.
    pub fn duplicate(&self) -> (r: LogEntry)
        ensures
            r == *self,
    {
        LogEntry {
            task_id: self.task_id.clone(),
            timestamp: self.timestamp.clone(),
            stream: self.stream,
            line: self.line.clone(),
        }
    }
}

/// Builds a log entry for a line captured from task `task_id` now.
pub fn make_log_entry(task_id: &TaskId, stream: LogStream, line: String) -> (e: LogEntry)
    ensures
        e.task_id@ == uuid_hyphenated_text(task_id.0),
        e.stream == stream,
        e.line == line,
{
    LogEntry { task_id: task_id.to_text(), timestamp: now_rfc3339(), stream, line }
}

/// The name a stream is written under.
pub open spec fn stream_text(s: LogStream) -> Seq<char> {
    match s {
        LogStream::Stdout => seq!['s', 't', 'd', 'o', 'u', 't'],
        LogStream::Stderr => seq!['s', 't', 'd', 'e', 'r', 'r'],
    }
}

pub fn stream_name(s: LogStream) -> (r: &'static str)
    ensures
        r@ == stream_text(s),
{
    match s {
        LogStream::Stdout => {
            proof {
                reveal_strlit("stdout");
            }
            "stdout"
        },
        LogStream::Stderr => {
            proof {
                reveal_strlit("stderr");
            }
            "stderr"
        },
    }
}

/// How an entry reads in a log file, without the line break:
/// `[timestamp] [stream] line`.
pub open spec fn log_line_body(timestamp: Seq<char>, stream: LogStream, line: Seq<char>) -> Seq<char> {
    seq!['['] + timestamp + seq![']', ' ', '['] + stream_text(stream) + seq![']', ' '] + line
}

/// Formats an entry as a line of a log file: `[timestamp] [stream] line\n`.
pub fn format_log_line(entry: &LogEntry) -> (r: String)
    ensures
        r@ == log_line_body(entry.timestamp@, entry.stream, entry.line@) + seq!['\n'],
{
    proof {
        reveal_strlit("[");
        reveal_strlit("] [");
        reveal_strlit("] ");
        reveal_strlit("\n");
    }
    let mut s = String::from_str("[");
    s.append(entry.timestamp.as_str());
    s.append("] [");
    s.append(stream_name(entry.stream));
    s.append("] ");
    s.append(entry.line.as_str());
    s.append("\n");
    s
}

/// The first position of `c` in `s`, or -1.
pub open spec fn index_of(s: Seq<char>, c: char) -> int
    decreases s.len(),
{
    if s.len() == 0 {
        -1
    } else if s[0] == c {
        0
    } else {
        let k = index_of(s.drop_first(), c);
        if k < 0 {
            -1
        } else {
            k + 1
        }
    }
}

proof fn lemma_index_of(s: Seq<char>, c: char)
    ensures
        -1 <= index_of(s, c) < s.len(),
        index_of(s, c) >= 0 ==> s[index_of(s, c)] == c,
        forall|k: int| 0 <= k < s.len() && (index_of(s, c) < 0 || k < index_of(s, c)) ==> s[k] != c,
    decreases s.len(),
{
    if s.len() > 0 && s[0] != c {
        lemma_index_of(s.drop_first(), c);
        assert forall|k: int| 0 <= k < s.len() && (index_of(s, c) < 0 || k < index_of(s, c)) implies s[k] != c by {
            if k > 0 {
                assert(s[k] == s.drop_first()[k - 1]);
            }
        }
    }
}

/// Finds the first position of `c` in `s`.
fn find_char(s: &str, c: char) -> (r: Option<usize>)
    ensures
        match r {
            Some(k) => k == index_of(s@, c) && k < s@.len() && s@[k as int] == c,
            None => index_of(s@, c) < 0,
        },
{
    let n = s.unicode_len();
    let mut i: usize = 0;
    proof {
        lemma_index_of(s@, c);
    }
    while i < n
        invariant
            n == s@.len(),
            i <= n,
            forall|k: int| 0 <= k < i ==> s@[k] != c,
            -1 <= index_of(s@, c) < n,
            index_of(s@, c) >= 0 ==> s@[index_of(s@, c)] == c,
            forall|k: int| 0 <= k < n && (index_of(s@, c) < 0 || k < index_of(s@, c)) ==> s@[k] != c,
        decreases n - i,
    {
        if s.get_char(i) == c {
            return Some(i);
        }
        i = i + 1;
    }
    None
}

/// The parts of a log-file line `[timestamp] [stream] line` after trimming:
/// the text after the first `]` that follows the opening `[`, and within it
/// the positions of the first `[` and the first `]`.
pub open spec fn after_timestamp(line: Seq<char>) -> Seq<char> {
    let rest = trim(line).drop_first();
    rest.skip(index_of(rest, ']') + 1)
}

/// Whether a log-file line has the shape the parser reads: it starts with
/// `[`, its timestamp is closed by `]`, and a `[` and a `]` follow.
pub open spec fn is_log_shaped(line: Seq<char>) -> bool {
    let t = trim(line);
    let rest = t.drop_first();
    &&& t.len() > 0
    &&& t[0] == '['
    &&& index_of(rest, ']') >= 0
    &&& index_of(after_timestamp(line), '[') >= 0
    &&& index_of(after_timestamp(line), ']') >= 0
}

/// Whether reading the line would slice the stream name backwards: the first
/// `]` after the timestamp comes before the first `[`. The reader would panic
/// on such a line, so it is excluded.
pub open spec fn log_line_is_inverted(line: Seq<char>) -> bool {
    is_log_shaped(line) && index_of(after_timestamp(line), ']') < index_of(after_timestamp(line), '[')
}

/// The entry a log-file line reads back as, for a line of the expected shape.
pub open spec fn parsed_log_line(task_id: Seq<char>, line: Seq<char>) -> Option<(Seq<char>, Seq<char>, LogStream, Seq<char>)> {
    if !is_log_shaped(line) {
        None
    } else {
        let rest = trim(line).drop_first();
        let timestamp = rest.take(index_of(rest, ']'));
        let tail = after_timestamp(line);
        let ss = index_of(tail, '[');
        let se = index_of(tail, ']');
        let stream = if tail.subrange(ss + 1, se) == stream_text(LogStream::Stderr) {
            LogStream::Stderr
        } else {
            LogStream::Stdout
        };
        Some((task_id, timestamp, stream, tail.skip(se + 1)))
    }
}

/// The view of an entry as the tuple the parser speaks of.
pub open spec fn entry_parts(e: LogEntry) -> (Seq<char>, Seq<char>, LogStream, Seq<char>) {
    (e.task_id@, e.timestamp@, e.stream, e.line@)
}

/// Whether a log-file line would make the reader slice backwards.
pub fn log_line_is_inverted_exec(line: &str) -> (r: bool)
    ensures
        r == log_line_is_inverted(line@),
{
    let t = trim_str(line);
    let n = t.unicode_len();
    if n == 0 || t.get_char(0) != '[' {
        return false;
    }
    let rest = t.substring_char(1, n);
    proof {
        assert(rest@ =~= trim(line@).drop_first());
    }
    let te = match find_char(rest, ']') {
        Some(k) => k,
        None => return false,
    };
    let m = rest.unicode_len();
    let tail = rest.substring_char(te + 1, m);
    proof {
        assert(tail@ =~= after_timestamp(line@));
    }
    match (find_char(tail, '['), find_char(tail, ']')) {
        (Some(ss), Some(se)) => se < ss,
        _ => false,
    }
}

/// Reads a log-file line `[timestamp] [stream] line` back into an entry for
/// task `task_id`. Lines of another shape give `None`. The line content keeps
/// the space that follows the stream marker.
pub fn parse_log_line(task_id: &str, line: &str) -> (r: Option<LogEntry>)
    requires
        !log_line_is_inverted(line@),
    ensures
        match r {
            Some(e) => parsed_log_line(task_id@, line@) == Some(entry_parts(e)),
            None => parsed_log_line(task_id@, line@) is None,
        },
{
    let t = trim_str(line);
    let n = t.unicode_len();
    if n == 0 || t.get_char(0) != '[' {
        return None;
    }
    let rest = t.substring_char(1, n);
    proof {
        assert(rest@ =~= trim(line@).drop_first());
    }
    let te = match find_char(rest, ']') {
        Some(k) => k,
        None => return None,
    };
    let m = rest.unicode_len();
    let timestamp = rest.substring_char(0, te);
    let tail = rest.substring_char(te + 1, m);
    proof {
        assert(tail@ =~= after_timestamp(line@));
        assert(timestamp@ =~= rest@.take(te as int));
    }
    let ss = match find_char(tail, '[') {
        Some(k) => k,
        None => return None,
    };
    let se = match find_char(tail, ']') {
        Some(k) => k,
        None => return None,
    };
    let tl = tail.unicode_len();
    let stream_str = tail.substring_char(ss + 1, se);
    let is_err = crate::text::eq_exact(stream_str, "stderr");
    proof {
        reveal_strlit("stderr");
        assert("stderr"@ =~= stream_text(LogStream::Stderr));
        assert(stream_str@ =~= tail@.subrange(ss + 1, se as int));
        assert(is_log_shaped(line@));
    }
    let stream = if is_err {
        LogStream::Stderr
    } else {
        LogStream::Stdout
    };
    let content = tail.substring_char(se + 1, tl);
    proof {
        assert(content@ =~= tail@.skip(se + 1));
    }
    Some(
        LogEntry {
            task_id: String::from_str(task_id),
            timestamp: String::from_str(timestamp),
            stream,
            line: String::from_str(content),
        },
    )
}

/// A line written by `format_log_line` reads back as the same entry, with the
/// content preceded by the separating space and without trailing whitespace
/// (the reader trims the line), provided the timestamp holds no `]` and does
/// not start with whitespace.
pub proof fn lemma_log_line_round_trip(
    task_id: Seq<char>,
    timestamp: Seq<char>,
    stream: LogStream,
    line: Seq<char>,
)
    requires
        forall|i: int| 0 <= i < timestamp.len() ==> timestamp[i] != ']',
    ensures
        !log_line_is_inverted(log_line_body(timestamp, stream, line)),
        parsed_log_line(task_id, log_line_body(timestamp, stream, line)) == Some(
            (task_id, timestamp, stream, trim_end(seq![' '] + line)),
        ),
{
    let body = log_line_body(timestamp, stream, line);
    let head = seq!['['] + timestamp + seq![']', ' ', '['] + stream_text(stream) + seq![']'];
    let sp = seq![' '] + line;
    assert(body =~= head + sp);
    assert(trim_start(body) == body);
    lemma_trim_end_append(head, sp);
    assert(trim(body) == head + trim_end(sp));
    let t = head + trim_end(sp);
    let rest = t.drop_first();
    let tl = timestamp.len();
    // the timestamp is closed by the first `]`
    lemma_index_of(rest, ']');
    assert(rest[tl as int] == ']');
    assert forall|k: int| 0 <= k < tl implies rest[k] != ']' by {
        assert(rest[k] == timestamp[k]);
    }
    assert(index_of(rest, ']') == tl) by {
        if index_of(rest, ']') < tl {
            assert(rest[index_of(rest, ']')] == timestamp[index_of(rest, ']')]);
        }
    }
    assert(rest.take(tl as int) =~= timestamp);
    let tail = rest.skip(tl as int + 1);
    let name = stream_text(stream);
    assert(tail =~= seq![' ', '['] + name + seq![']'] + trim_end(sp));
    lemma_index_of(tail, '[');
    lemma_index_of(tail, ']');
    assert(tail[1] == '[');
    assert(tail[0] != '[');
    assert(index_of(tail, '[') == 1);
    assert(tail[8] == ']');
    assert forall|k: int| 0 <= k < 8 implies tail[k] != ']' by {
        if k >= 2 {
            assert(tail[k] == name[k - 2]);
        }
    }
    assert(index_of(tail, ']') == 8) by {
        if index_of(tail, ']') < 8 {
            assert(tail[index_of(tail, ']')] != ']');
        }
    }
    assert(tail.subrange(2, 8) =~= name);
    assert(tail.skip(9) =~= trim_end(sp));
    if stream == LogStream::Stdout {
        assert(name != stream_text(LogStream::Stderr)) by {
            assert(name[3] != stream_text(LogStream::Stderr)[3]);
        }
    }
}

/// The last `t` elements of `s`, all of it when it is shorter.
pub open spec fn newest<A>(s: Seq<A>, t: nat) -> Seq<A> {
    if s.len() <= t {
        s
    } else {
        s.skip(s.len() - t)
    }
}

/// The history held by log files listed newest first (the live file, then
/// `.log.1`, `.log.2`, ...), in chronological order: oldest file first.
pub open spec fn chronological<A>(files: Seq<Seq<A>>) -> Seq<A>
    decreases files.len(),
{
    if files.len() == 0 {
        Seq::empty()
    } else {
        chronological(files.drop_first()) + files[0]
    }
}

/// The page of history `h` that holds the `limit` entries immediately older
/// than its newest `offset` entries, in chronological order.
pub open spec fn history_page<A>(h: Seq<A>, limit: nat, offset: nat) -> Seq<A> {
    let end = if h.len() >= offset {
        h.len() - offset
    } else {
        0
    };
    let start = if end >= limit {
        end - limit
    } else {
        0
    };
    h.subrange(start as int, end as int)
}

/// How many entries a page needs collected: `offset + limit`, saturating.
pub open spec fn page_target(limit: usize, offset: usize) -> nat {
    if offset + limit <= usize::MAX {
        (offset + limit) as nat
    } else {
        usize::MAX as nat
    }
}

/// The newest `page_target` entries with the newest `offset` of them dropped.
pub open spec fn selected_page<A>(h: Seq<A>, limit: usize, offset: usize) -> Seq<A> {
    let c = newest(h, page_target(limit, offset));
    if c.len() >= offset {
        c.take(c.len() - offset)
    } else {
        Seq::empty()
    }
}

/// Folding an older file into the newest `t` entries of what is newer keeps
/// the newest `t` entries of the whole.
pub proof fn lemma_newest_absorb<A>(older: Seq<A>, newer: Seq<A>, t: nat)
    ensures
        newest(older + newest(newer, t), t) == newest(older + newer, t),
{
    let c = newest(newer, t);
    if newer.len() > t {
        assert(newest(older + c, t) =~= c);
        assert(newest(older + newer, t) =~= c);
    } else {
        assert(c == newer);
    }
}

/// Once `t` entries are collected, older files change nothing, so reading
/// can stop without opening them.
pub proof fn lemma_full_collection_is_final<A>(older: Seq<A>, c: Seq<A>, t: nat)
    requires
        c.len() == t,
    ensures
        newest(older + c, t) == c,
{
    assert(newest(older + c, t) =~= c);
}

/// When `offset + limit` fits in a `usize`, the selected page is exactly the
/// `limit` entries immediately older than the newest `offset`.
pub proof fn lemma_selected_page_is_history_page<A>(h: Seq<A>, limit: usize, offset: usize)
    requires
        offset + limit <= usize::MAX,
    ensures
        selected_page(h, limit, offset) == history_page(h, limit as nat, offset as nat),
{
    let t = (offset + limit) as nat;
    let c = newest(h, t);
    if h.len() <= t {
        if h.len() >= offset {
            assert(c.take(c.len() - offset) =~= h.subrange(0, h.len() - offset));
        } else {
            assert(history_page(h, limit as nat, offset as nat) =~= Seq::<A>::empty());
        }
    } else {
        assert(c.take(c.len() - offset) =~= h.subrange(h.len() - offset - limit, h.len() - offset));
    }
}

/// Collects the newest lines of a task's history, one file at a time from
/// the newest, until a page can be cut from them.
pub struct LogPager {
    target: usize,
    collected: Vec<LogEntry>,
}

impl LogPager {
    pub closed spec fn spec_target(&self) -> nat {
        self.target as nat
    }

    /// The entries collected so far, oldest first.
    pub closed spec fn spec_collected(&self) -> Seq<LogEntry> {
        self.collected@
    }

    pub closed spec fn wf(&self) -> bool {
        self.collected@.len() <= self.target
    }

    /// A pager for the page of `limit` entries older than the newest `offset`.
    pub fn new(limit: usize, offset: usize) -> (p: Self)
        ensures
            p.wf(),
            p.spec_target() == page_target(limit, offset),
            p.spec_collected() == Seq::<LogEntry>::empty(),
    {
        let target = offset.saturating_add(limit);
        LogPager { target, collected: Vec::new() }
    }

    /// Whether an older file could still contribute to the page.
    pub fn needs_more(&self) -> (r: bool)
        requires
            self.wf(),
        ensures
            r == (self.spec_collected().len() < self.spec_target()),
    {
        self.collected.len() < self.target
    }

    /// Folds in the parsed lines of the next older file (chronological order
    /// within the file): its newest lines go in front of what was collected,
    /// as many as still fit.
    pub fn absorb_older(&mut self, file_lines: Vec<LogEntry>)
        requires
            old(self).wf(),
        ensures
            final(self).wf(),
            final(self).spec_target() == old(self).spec_target(),
            final(self).spec_collected() == newest(
                file_lines@ + old(self).spec_collected(),
                old(self).spec_target(),
            ),
    {
        let mut file_lines = file_lines;
        let need = self.target - self.collected.len();
        let flen = file_lines.len();
        let take = if flen < need {
            flen
        } else {
            need
        };
        let ghost before = self.collected@;
        let ghost file = file_lines@;
        let mut tail = file_lines.split_off(flen - take);
        let mut collected = Vec::new();
        std::mem::swap(&mut collected, &mut self.collected);
        tail.append(&mut collected);
        self.collected = tail;
        proof {
            let t = self.target as nat;
            if file.len() + before.len() <= t {
                assert(self.collected@ =~= file + before);
            } else {
                assert(self.collected@ =~= (file + before).skip((file + before).len() - t));
            }
        }
    }

    /// Cuts the page: the collected entries without the newest `offset`.
    pub fn finish(self, offset: usize) -> (page: Vec<LogEntry>)
        requires
            self.wf(),
        ensures
            page@ == (if self.spec_collected().len() >= offset {
                self.spec_collected().take(self.spec_collected().len() - offset)
            } else {
                Seq::empty()
            }),
    {
        let mut collected = self.collected;
        let ghost before = collected@;
        let keep = collected.len().saturating_sub(offset);
        collected.truncate(keep);
        proof {
            if before.len() < offset {
                assert(collected@ =~= Seq::<LogEntry>::empty());
            } else {
                assert(collected@ =~= before.take(before.len() - offset));
            }
        }
        collected
    }
}

/// Selects the page of `limit` entries immediately older than the newest
/// `offset`, from the parsed lines of a task's log files listed newest first
/// (the live file, then its rotated siblings). Files are consulted only while
/// the page is not yet complete.
pub fn select_page(files: Vec<Vec<LogEntry>>, limit: usize, offset: usize) -> (page: Vec<LogEntry>)
    ensures
        page@ == selected_page(chronological(files@.map_values(|f: Vec<LogEntry>| f@)), limit, offset),
{
    let ghost all = files@.map_values(|f: Vec<LogEntry>| f@);
    let ghost t = page_target(limit, offset);
    let mut pager = LogPager::new(limit, offset);
    let mut files = files;
    let n = files.len();
    let mut i: usize = 0;
    proof {
        assert(all.take(0) =~= Seq::<Seq<LogEntry>>::empty());
    }
    while i < n && pager.needs_more()
        invariant
            pager.wf(),
            pager.spec_target() == t,
            all.len() == n,
            i <= n,
            files@.len() == n - i,
            forall|k: int| 0 <= k < n - i ==> #[trigger] files@[k]@ == all[k + i],
            pager.spec_collected() == newest(chronological(all.take(i as int)), t),
        decreases n - i,
    {
        let next = files.remove(0);
        proof {
            assert(next@ == all[i as int]);
            let prefix = all.take(i as int + 1);
            assert(prefix.drop_first() =~= all.take(i as int).drop_first().push(all[i as int])
                || i == 0);
            lemma_chronological_push(all.take(i as int), all[i as int]);
            assert(all.take(i as int).push(all[i as int]) =~= prefix);
            lemma_newest_absorb(all[i as int], chronological(all.take(i as int)), t);
        }
        pager.absorb_older(next);
        i = i + 1;
    }
    proof {
        if i < n {
            lemma_chronological_split(all, i as int);
            lemma_full_collection_is_final(
                chronological(all.skip(i as int)),
                pager.spec_collected(),
                t,
            );
            lemma_newest_absorb(chronological(all.skip(i as int)), chronological(all.take(i as int)), t);
        } else {
            assert(all.take(n as int) =~= all);
        }
    }
    pager.finish(offset)
}

/// Adding an older file behind the ones already listed puts its entries first.
proof fn lemma_chronological_push<A>(files: Seq<Seq<A>>, f: Seq<A>)
    ensures
        chronological(files.push(f)) == f + chronological(files),
    decreases files.len(),
{
    if files.len() == 0 {
        let g = files.push(f);
        assert(g.drop_first() =~= Seq::<Seq<A>>::empty());
        assert(chronological(g.drop_first()) == Seq::<A>::empty());
        assert(g[0] == f);
        assert(chronological(g) == chronological(g.drop_first()) + g[0]);
        assert(chronological(files) == Seq::<A>::empty());
        assert(f + Seq::<A>::empty() =~= f);
        assert(Seq::<A>::empty() + f =~= f);
    } else {
        assert(files.push(f).drop_first() =~= files.drop_first().push(f));
        lemma_chronological_push(files.drop_first(), f);
        assert(chronological(files.push(f)) =~= (f + chronological(files.drop_first())) + files[0]);
    }
}

/// The history of all files is that of the older ones followed by that of the newer ones.
proof fn lemma_chronological_split<A>(files: Seq<Seq<A>>, i: int)
    requires
        0 <= i <= files.len(),
    ensures
        chronological(files) == chronological(files.skip(i)) + chronological(files.take(i)),
    decreases i,
{
    if i == 0 {
        assert(files.skip(0) =~= files);
        assert(chronological(files.take(0)) =~= Seq::<A>::empty());
        assert(chronological(files) + Seq::<A>::empty() =~= chronological(files));
    } else {
        lemma_chronological_split(files, i - 1);
        assert(files.take(i) =~= files.take(i - 1).push(files[i - 1]));
        lemma_chronological_push(files.take(i - 1), files[i - 1]);
        assert(files.skip(i - 1).drop_first() =~= files.skip(i));
        assert(files.skip(i - 1)[0] == files[i - 1]);
        assert(chronological(files.skip(i - 1)) == chronological(files.skip(i)) + files[i - 1]);
    }
}

/// A fixed-size circular buffer of recent log lines: once full, each new line
/// pushes out the oldest.
pub struct LogBuffer {
    max_lines: usize,
    lines: VecDeque<LogEntry>,
}

impl LogBuffer {
    pub closed spec fn spec_max_lines(&self) -> nat {
        self.max_lines as nat
    }

    /// The buffered lines, oldest first.
    pub closed spec fn spec_lines(&self) -> Seq<LogEntry> {
        self.lines@
    }

    pub fn new(max_lines: usize) -> (b: Self)
        ensures
            b.spec_max_lines() == max_lines,
            b.spec_lines() == Seq::<LogEntry>::empty(),
    {
        LogBuffer { max_lines, lines: VecDeque::new() }
    }

    /// Appends a line, dropping the oldest one when the buffer is full.
    pub fn push(&mut self, entry: LogEntry)
        ensures
            final(self).spec_max_lines() == old(self).spec_max_lines(),
            final(self).spec_lines() == (if old(self).spec_lines().len() >= old(self).spec_max_lines()
                && old(self).spec_lines().len() > 0 {
                old(self).spec_lines().drop_first().push(entry)
            } else {
                old(self).spec_lines().push(entry)
            }),
    {
        if self.lines.len() >= self.max_lines {
            let _ = self.lines.pop_front();
        }
        self.lines.push_back(entry);
    }

    /// The newest `n` lines (all of them when fewer are buffered), oldest first.
    pub fn recent(&self, n: usize) -> (r: Vec<LogEntry>)
        ensures
            r@ == newest(self.spec_lines(), n as nat),
    {
        let len = self.lines.len();
        let start = if len > n {
            len - n
        } else {
            0
        };
        let mut out: Vec<LogEntry> = Vec::new();
        let mut i = start;
        while i < len
            invariant
                len == self.lines@.len(),
                start <= i <= len,
                start == (if len > n {
                    len - n
                } else {
                    0
                }),
                out@ == self.lines@.subrange(start as int, i as int),
            decreases len - i,
        {
            let e = self.lines[i].duplicate();
            out.push(e);
            i = i + 1;
            proof {
                assert(out@ =~= self.lines@.subrange(start as int, i as int));
            }
        }
        proof {
            if len <= n {
                assert(out@ =~= self.lines@);
            } else {
                assert(out@ =~= self.lines@.skip(len - n));
            }
        }
        out
    }
}

/// A buffer holding at least one line keeps exactly the newest `max_lines`
/// lines of everything pushed into it.
pub proof fn lemma_buffer_keeps_newest(held: Seq<LogEntry>, history: Seq<LogEntry>, max_lines: nat, e: LogEntry)
    requires
        max_lines >= 1,
        held == newest(history, max_lines),
    ensures
        (if held.len() >= max_lines && held.len() > 0 {
            held.drop_first().push(e)
        } else {
            held.push(e)
        }) == newest(history.push(e), max_lines),
{
    let h2 = history.push(e);
    if history.len() >= max_lines {
        assert(held.drop_first().push(e) =~= h2.skip(h2.len() - max_lines));
    } else if history.len() + 1 > max_lines {
        assert(held.push(e) =~= h2);
    } else {
        assert(held.push(e) =~= h2);
    }
}

/// Flush the buffer once this many lines have accumulated since the last flush.
pub const FLUSH_EVERY_LINES: u64 = 50;

/// Flush the buffer once this many milliseconds have elapsed since the last flush.
pub const FLUSH_EVERY_MS: u128 = 500;

/// The flush policy of a log writer: flush once enough lines are pending or
/// enough time has passed since the last flush.
pub fn should_flush(pending_lines: u64, elapsed_ms: u128) -> (r: bool)
    ensures
        r == (pending_lines >= FLUSH_EVERY_LINES || elapsed_ms >= FLUSH_EVERY_MS),
{
    pending_lines >= FLUSH_EVERY_LINES || elapsed_ms >= FLUSH_EVERY_MS
}

/// Whether writing a line of `line_len` bytes to a file of `current_size`
/// bytes would take it over `max_file_size_mb` mebibytes, so the file must
/// be rotated first.
pub fn needs_rotation(current_size: u64, line_len: u64, max_file_size_mb: usize) -> (r: bool)
    ensures
        r == (current_size + line_len > max_file_size_mb * 1024 * 1024),
{
    (current_size as u128) + (line_len as u128) > (max_file_size_mb as u128) * 1024 * 1024
}

/// Upper bound on how many rotated files (besides the live one) are ever
/// scanned for history, whatever the configured count.
pub const MAX_ROTATED_SCAN_CAP: usize = 100;

/// How many rotated files a history read scans for a configured count.
pub fn rotated_scan_limit(max_rotated: usize) -> (r: usize)
    ensures
        r == (if max_rotated < MAX_ROTATED_SCAN_CAP {
            max_rotated
        } else {
            MAX_ROTATED_SCAN_CAP
        }),
{
    if max_rotated < MAX_ROTATED_SCAN_CAP {
        max_rotated
    } else {
        MAX_ROTATED_SCAN_CAP
    }
}

/// The file name of a task's log: `{id}.log` for the live file (index 0) and
/// `{id}.log.{index}` for a rotated one.
pub open spec fn log_file_name(id: u128, index: nat) -> Seq<char> {
    let live = uuid_hyphenated_text(id) + seq!['.', 'l', 'o', 'g'];
    if index == 0 {
        live
    } else {
        live + seq!['.'] + decimal(index)
    }
}

/// The file name of log `index` of task `id` (0 is the live file).
pub fn log_file_name_exec(id: &TaskId, index: usize) -> (s: String)
    ensures
        s@ == log_file_name(id.0, index as nat),
{
    proof {
        reveal_strlit(".log");
        reveal_strlit(".");
    }
    let mut s = id.to_text();
    s.append(".log");
    if index > 0 {
        s.append(".");
        let d = decimal_text(index);
        s.append(d.as_str());
    }
    s
}

/// The names of all log files a task may own: the live file and its rotated
/// siblings `1..=max_rotated`, in that order.
pub fn task_log_file_names(id: &TaskId, max_rotated: usize) -> (r: Vec<String>)
    requires
        max_rotated < usize::MAX,
    ensures
        r@.len() == max_rotated + 1,
        forall|i: int| 0 <= i <= max_rotated ==> #[trigger] r@[i]@ == log_file_name(id.0, i as nat),
{
    let mut out: Vec<String> = Vec::new();
    let mut i: usize = 0;
    while i <= max_rotated
        invariant
            max_rotated < usize::MAX,
            i <= max_rotated + 1,
            out@.len() == i,
            forall|k: int| 0 <= k < i ==> #[trigger] out@[k]@ == log_file_name(id.0, k as nat),
        decreases max_rotated + 1 - i,
    {
        out.push(log_file_name_exec(id, i));
        i = i + 1;
    }
    out
}

/// One file operation of a log rotation.
#[derive(Debug, Clone, Copy, PartialEq, Eq, Structural)]
pub enum RotationStep {
    /// Delete rotated file `index`, if it exists.
    Remove(usize),
    /// Rename rotated file `from` to `from + 1`, if it exists.
    Shift(usize),
    /// Rename the live file to rotated file 1.
    RetireLive,
}

/// The oldest rotated index a rotation keeping `max_rotated` files writes
/// to: `max_rotated`, and at least `1` so the live file always has a place.
pub open spec fn rotation_top(max_rotated: nat) -> nat {
    if max_rotated == 0 {
        1
    } else {
        max_rotated
    }
}

/// The steps of a rotation that keeps `max_rotated` files, the same
/// `.log.1` to `.log.<max_rotated>` that readers scan: the oldest kept file
/// is deleted, each younger one is shifted one place older, from the oldest
/// down, and finally the live file becomes `.log.1`.
pub open spec fn rotation_steps(max_rotated: nat) -> Seq<RotationStep> {
    let top = rotation_top(max_rotated);
    Seq::new(
        top,
        |j: int|
            if j == 0 {
                RotationStep::Remove(top as usize)
            } else {
                RotationStep::Shift((top - j) as usize)
            },
    ).push(RotationStep::RetireLive)
}

/// The file operations of one rotation, in the order they are applied.
pub fn rotation_plan(max_rotated: usize) -> (r: Vec<RotationStep>)
    ensures
        r@ == rotation_steps(max_rotated as nat),
{
    let top: usize = if max_rotated == 0 {
        1
    } else {
        max_rotated
    };
    let mut out: Vec<RotationStep> = Vec::new();
    out.push(RotationStep::Remove(top));
    let mut i: usize = top - 1;
    while i >= 1
        invariant
            top == rotation_top(max_rotated as nat),
            1 <= top,
            i < top,
            out@.len() == top - i,
            forall|j: int|
                0 <= j < top - i ==> #[trigger] out@[j] == (if j == 0 {
                    RotationStep::Remove(top as usize)
                } else {
                    RotationStep::Shift((top - j) as usize)
                }),
        decreases i,
    {
        out.push(RotationStep::Shift(i));
        i = i - 1;
    }
    out.push(RotationStep::RetireLive);
    proof {
        assert(out@ =~= rotation_steps(max_rotated as nat));
    }
    out
}

/// Which file a rotated index holds, as a map from the index (0 for the
/// live file) to its content, `None` where there is no file.
pub open spec fn rename_file<A>(files: spec_fn(int) -> Option<A>, from: int) -> spec_fn(
    int,
) -> Option<A> {
    if files(from) is Some {
        |k: int|
            if k == from {
                None
            } else if k == from + 1 {
                files(from)
            } else {
                files(k)
            }
    } else {
        files
    }
}

/// The files after one step: a removal deletes the file, a shift or the
/// retirement renames it one index older (replacing what was there), and a
/// step whose file does not exist changes nothing.
pub open spec fn apply_rotation_step<A>(files: spec_fn(int) -> Option<A>, step: RotationStep) -> spec_fn(
    int,
) -> Option<A> {
    match step {
        RotationStep::Remove(i) => |k: int|
            if k == i as int {
                None
            } else {
                files(k)
            },
        RotationStep::Shift(i) => rename_file(files, i as int),
        RotationStep::RetireLive => rename_file(files, 0),
    }
}

/// The files after applying `steps` in order.
pub open spec fn apply_rotation_steps<A>(files: spec_fn(int) -> Option<A>, steps: Seq<RotationStep>) -> spec_fn(
    int,
) -> Option<A>
    decreases steps.len(),
{
    if steps.len() == 0 {
        files
    } else {
        apply_rotation_step(apply_rotation_steps(files, steps.drop_last()), steps.last())
    }
}

proof fn lemma_rotation_prefix<A>(files: spec_fn(int) -> Option<A>, max_rotated: nat, m: nat)
    requires
        1 <= m <= rotation_top(max_rotated),
        max_rotated < usize::MAX,
    ensures
        ({
            let top = rotation_top(max_rotated) as int;
            let j = top - (m - 1);
            let g = apply_rotation_steps(files, rotation_steps(max_rotated).take(m as int));
            &&& g(j) is None
            &&& forall|k: int| (k < j || k > top) ==> #[trigger] g(k) == files(k)
            &&& forall|k: int| j < k <= top ==> #[trigger] g(k) == files(k - 1)
        }),
    decreases m,
{
    let steps = rotation_steps(max_rotated);
    let top = rotation_top(max_rotated) as int;
    let t = steps.take(m as int);
    if m == 1 {
        assert(t.drop_last() =~= Seq::<RotationStep>::empty());
        assert(t.last() == RotationStep::Remove(top as usize));
        let g0 = apply_rotation_steps(files, t.drop_last());
        assert(apply_rotation_steps(files, Seq::<RotationStep>::empty()) == files);
        assert(g0 == files);
    } else {
        lemma_rotation_prefix(files, max_rotated, (m - 1) as nat);
        assert(t.drop_last() =~= steps.take(m - 1));
        assert(t.last() == RotationStep::Shift((top - (m - 1)) as usize));
        let s0 = apply_rotation_steps(files, steps.take(m - 1));
        let g = apply_rotation_steps(files, t);
        assert(g == rename_file(s0, top - (m - 1)));
    }
}

/// A rotation keeps the newest files: afterwards `.log.1` holds what was
/// live, `.log.<k+1>` holds what `.log.<k>` held for every kept index, the
/// oldest kept file's old content is gone, no live file is left, and files
/// beyond the kept range are untouched.
pub proof fn lemma_rotation_keeps_newest<A>(files: spec_fn(int) -> Option<A>, max_rotated: nat)
    requires
        max_rotated < usize::MAX,
    ensures
        ({
            let top = rotation_top(max_rotated) as int;
            let g = apply_rotation_steps(files, rotation_steps(max_rotated));
            &&& g(0) is None
            &&& g(1) == files(0)
            &&& forall|k: int| 2 <= k <= top ==> #[trigger] g(k) == files(k - 1)
            &&& forall|k: int| (k < 0 || k > top) ==> #[trigger] g(k) == files(k)
        }),
{
    let steps = rotation_steps(max_rotated);
    let top = rotation_top(max_rotated);
    lemma_rotation_prefix(files, max_rotated, top);
    assert(steps.drop_last() =~= steps.take(top as int));
    let h = apply_rotation_steps(files, steps.take(top as int));
    assert(h(1) is None);
    assert(h(0) == files(0));
}

} // verus!
