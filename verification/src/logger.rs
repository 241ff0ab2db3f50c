//! The lines of the log, and which log files are kept.

use vstd::prelude::*;
use vstd::string::StringExecFns;

use crate::layout::{self, hkl_is_english, hkl_is_russian, hkl_is_ukrainian};
use crate::text::{self, push_decimal, push_hex, push_number, trim};

verus! {

/// How much a line of the log matters.
#[derive(Debug, Clone, Copy, PartialEq, Eq, PartialOrd, Ord, Structural)]
pub enum LogLevel {
    Debug,
    Info,
    Error,
}

impl LogLevel {
    /// The name of a level.
    pub open spec fn name(self) -> Seq<char> {
        match self {
            LogLevel::Debug => "DEBUG"@,
            LogLevel::Info => "INFO"@,
            LogLevel::Error => "ERROR"@,
        }
    }

    /// The name of a level.
    pub fn as_str(self) -> (r: &'static str)
        ensures
            r@ == self.name(),
    {
        match self {
            LogLevel::Debug => "DEBUG",
            LogLevel::Info => "INFO",
            LogLevel::Error => "ERROR",
        }
    }
}

/// The time since the start, without what is less than a millisecond.
#[derive(Debug, Clone, Copy, PartialEq, Eq, Structural)]
pub struct Elapsed {
    pub secs: u64,
    pub millis: u32,
}

/// A line of the log in the making.
#[derive(Debug)]
pub struct LogMessage {
    pub level: LogLevel,
    pub message: String,
    pub elapsed: Elapsed,
    pub thread: String,
    pub local_time: String,
}

/// Makes a line of the log, for the thread that writes them.
pub fn write(
    level: LogLevel,
    msg: String,
    elapsed: Elapsed,
    thread: String,
    local_time: String,
) -> (r: LogMessage)
    ensures
        r == (LogMessage { level, message: msg, elapsed, thread, local_time }),
{
    LogMessage { level, message: msg, elapsed, thread, local_time }
}

/// The time since the start: minutes, seconds and milliseconds.
pub open spec fn stamp(d: Elapsed) -> Seq<char> {
    text::padded(text::decimal((d.secs / 60) as nat), 3, ' ') + ":"@ + text::padded(
        text::decimal((d.secs % 60) as nat),
        2,
        '0',
    ) + "."@ + text::padded(text::decimal(d.millis as nat), 3, '0')
}

/// Writes the time since the start as minutes, seconds and milliseconds.
pub fn fmt_elapsed(d: Elapsed) -> (r: String)
    ensures
        r@ == stamp(d),
{
    let mut out = String::new();
    push_number(&mut out, d.secs / 60, 3, ' ');
    assert(out@ =~= text::padded(text::decimal((d.secs / 60) as nat), 3, ' '));
    out.append(":");
    push_number(&mut out, d.secs % 60, 2, '0');
    out.append(".");
    push_number(&mut out, d.millis as u64, 3, '0');
    out
}

/// A date and a time of day.
#[derive(Debug, Clone, Copy, PartialEq, Eq, Structural)]
pub struct LocalTime {
    pub year: u16,
    pub month: u16,
    pub day: u16,
    pub hour: u16,
    pub minute: u16,
    pub second: u16,
    pub millis: u16,
}

/// A date and a time of day in writing.
pub open spec fn written_time(t: LocalTime) -> Seq<char> {
    text::padded(text::decimal(t.year as nat), 4, '0') + "-"@ + text::padded(
        text::decimal(t.month as nat),
        2,
        '0',
    ) + "-"@ + text::padded(text::decimal(t.day as nat), 2, '0') + " "@ + text::padded(
        text::decimal(t.hour as nat),
        2,
        '0',
    ) + ":"@ + text::padded(text::decimal(t.minute as nat), 2, '0') + ":"@ + text::padded(
        text::decimal(t.second as nat),
        2,
        '0',
    ) + "."@ + text::padded(text::decimal(t.millis as nat), 3, '0')
}

/// Writes a date and a time of day.
pub fn local_time_str(t: LocalTime) -> (r: String)
    ensures
        r@ == written_time(t),
{
    let mut out = String::new();
    push_number(&mut out, t.year as u64, 4, '0');
    assert(out@ =~= text::padded(text::decimal(t.year as nat), 4, '0'));
    out.append("-");
    push_number(&mut out, t.month as u64, 2, '0');
    out.append("-");
    push_number(&mut out, t.day as u64, 2, '0');
    out.append(" ");
    push_number(&mut out, t.hour as u64, 2, '0');
    out.append(":");
    push_number(&mut out, t.minute as u64, 2, '0');
    out.append(":");
    push_number(&mut out, t.second as u64, 2, '0');
    out.append(".");
    push_number(&mut out, t.millis as u64, 3, '0');
    out
}

/// A line of the log.
pub open spec fn line_of(m: LogMessage) -> Seq<char> {
    "["@ + m.local_time@ + "] ["@ + stamp(m.elapsed) + "] ["@ + m.thread@ + "] ["@ + m.level.name()
        + "] "@ + m.message@
}

/// Writes a line of the log.
pub fn log_line(m: &LogMessage) -> (r: String)
    ensures
        r@ == line_of(*m),
{
    let mut out: String = "[".to_owned();
    out.append(m.local_time.as_str());
    out.append("] [");
    out.append(fmt_elapsed(m.elapsed).as_str());
    out.append("] [");
    out.append(m.thread.as_str());
    out.append("] [");
    out.append(m.level.as_str());
    out.append("] ");
    out.append(m.message.as_str());
    out
}

/// The name of the log file of a run, given when it began, in seconds, and the
/// number of its process.
pub fn log_file_name(unix_secs: u64, pid: u32) -> (r: String)
    ensures
        r@ == "rswitcher_"@ + text::decimal(unix_secs as nat) + "_"@ + text::decimal(pid as nat)
            + ".log"@,
{
    let mut out: String = "rswitcher_".to_owned();
    push_decimal(&mut out, unix_secs);
    out.append("_");
    push_decimal(&mut out, pid as u64);
    out.append(".log");
    out
}

// -- The system ----------------------------------------------------------------------

/// How many units a text has that takes some bytes, the closing zero included.
pub fn units_of_bytes(len_bytes: u32) -> (r: usize)
    ensures
        r == (if len_bytes < 2 {
            0int
        } else {
            len_bytes / 2 - 1
        }),
{
    if len_bytes < 2 {
        0
    } else {
        (len_bytes / 2 - 1) as usize
    }
}

/// The name of the system: its product name, or a default, and its build.
pub open spec fn system_name(
    known: bool,
    product: Option<Seq<char>>,
    build: Option<Seq<char>>,
) -> Seq<char> {
    if !known {
        "Windows (Unknown version)"@
    } else {
        text::trimmed(
            text::trimmed(
                match product {
                    Some(p) => p,
                    None => "Windows"@,
                },
            ) + " "@ + (match build {
                Some(b) => "(Build "@ + text::trimmed(b) + ")"@,
                None => Seq::empty(),
            }),
        )
    }
}

/// Writes the name of the system, given what it tells about itself.
pub fn get_windows_version(known: bool, product: &Option<String>, build: &Option<String>) -> (r:
    String)
    ensures
        r@ == system_name(known, text::text_of(*product), text::text_of(*build)),
{
    if !known {
        return "Windows (Unknown version)".to_owned();
    }
    let mut out: String = match product {
        Some(p) => trim(p.as_str()),
        None => trim("Windows"),
    };
    out.append(" ");
    match build {
        Some(b) => {
            let mut number: String = "(Build ".to_owned();
            number.append(trim(b.as_str()).as_str());
            number.append(")");
            out.append(number.as_str());
        },
        None => {
            assert(out@ + Seq::<char>::empty() =~= out@);
        },
    }
    trim(out.as_str())
}

/// The name of an installed layout.
pub open spec fn layout_name(lang: u16) -> Seq<char> {
    text::hex(lang) + (if layout::russian(lang) {
        " (Russian)"@
    } else if layout::english(lang) {
        " (English)"@
    } else if layout::ukrainian(lang) {
        " (Ukrainian)"@
    } else {
        Seq::empty()
    })
}

/// The names of the installed layouts, with commas between them.
pub open spec fn layout_names(langs: Seq<u16>) -> Seq<char>
    decreases langs.len(),
{
    if langs.len() == 0 {
        Seq::empty()
    } else if langs.len() == 1 {
        layout_name(langs[0])
    } else {
        layout_names(langs.drop_last()) + ", "@ + layout_name(langs.last())
    }
}

fn push_layout(out: &mut String, lang: u16)
    ensures
        final(out)@ == old(out)@ + layout_name(lang),
{
    push_hex(out, lang);
    if hkl_is_russian(lang) {
        out.append(" (Russian)");
    } else if hkl_is_english(lang) {
        out.append(" (English)");
    } else if hkl_is_ukrainian(lang) {
        out.append(" (Ukrainian)");
    }
    assert(out@ =~= old(out)@ + layout_name(lang));
}

/// The line of the log about the installed layouts.
pub fn log_keyboard_layouts(langs: &Vec<u16>) -> (r: String)
    ensures
        r@ == "Active keyboard layouts: ["@ + layout_names(langs@) + "]"@,
{
    let mut names = String::new();
    let mut i: usize = 0;
    assert(names@ =~= layout_names(langs@.take(0)));
    while i < langs.len()
        invariant
            i <= langs@.len(),
            names@ == layout_names(langs@.take(i as int)),
        decreases langs.len() - i,
    {
        if i > 0 {
            names.append(", ");
        }
        push_layout(&mut names, langs[i]);
        proof {
            let next = langs@.take(i + 1);
            assert(next.drop_last() =~= langs@.take(i as int));
            assert(next.last() == langs@[i as int]);
            assert(names@ =~= layout_names(next));
        }
        i += 1;
    }
    assert(langs@.take(langs@.len() as int) =~= langs@);
    let mut out: String = "Active keyboard layouts: [".to_owned();
    out.append(names.as_str());
    out.append("]");
    out
}

// -- Old log files ----------------------------------------------------------------------

/// How long a log file is kept, in nanoseconds: seven days.
pub const KEEP_NANOS: i64 = 604_800_000_000_000;

/// How many bytes all log files may take.
pub const QUOTA_BYTES: u64 = 52_428_800;

/// Whether a log file is too old to be kept; both times are in nanoseconds.
pub fn is_expired(modified: i64, now: i64) -> (r: bool)
    ensures
        r == (modified < now - KEEP_NANOS),
{
    (modified as i128) < now as i128 - KEEP_NANOS as i128
}

/// The size of a log file and when it was last written.
#[derive(Debug, Clone, Copy, PartialEq, Eq, Structural)]
pub struct LogFile {
    pub size: u64,
    pub modified: i64,
}

/// The bytes that some files take.
pub open spec fn total_size(files: Seq<LogFile>) -> int
    decreases files.len(),
{
    if files.len() == 0 {
        0
    } else {
        total_size(files.drop_last()) + files.last().size
    }
}

/// The numbers from zero on, each of them once, in some order.
pub open spec fn is_arrangement(order: Seq<usize>, n: int) -> bool {
    &&& order.len() == n
    &&& forall|i: int| 0 <= i < n ==> #[trigger] order[i] < n
    &&& forall|i: int, j: int| 0 <= i < j < n ==> #[trigger] order[i] != #[trigger] order[j]
}

/// One file goes before another: it is older, or as old and listed first.
pub open spec fn goes_before(files: Seq<LogFile>, a: usize, b: usize) -> bool {
    files[a as int].modified < files[b as int].modified || (files[a as int].modified
        == files[b as int].modified && a < b)
}

/// The oldest files come first, those of one age in the order of the list.
pub open spec fn oldest_first(order: Seq<usize>, files: Seq<LogFile>) -> bool {
    &&& is_arrangement(order, files.len() as int)
    &&& forall|i: int, j: int|
        0 <= i < j < order.len() ==> goes_before(files, #[trigger] order[i], #[trigger] order[j])
}

/// Sorts files by age.
fn by_age(files: &Vec<LogFile>) -> (r: Vec<usize>)
    ensures
        oldest_first(r@, files@),
{
    let mut order: Vec<usize> = Vec::new();
    let mut n: usize = 0;
    while n < files.len()
        invariant
            n <= files@.len(),
            is_arrangement(order@, n as int),
            forall|i: int, j: int|
                0 <= i < j < n ==> goes_before(files@, #[trigger] order@[i], #[trigger] order@[j]),
        decreases files.len() - n,
    {
        let mut at: usize = n;
        while at > 0 && files[order[at - 1]].modified > files[n].modified
            invariant
                n < files@.len(),
                at <= n,
                is_arrangement(order@, n as int),
                forall|i: int|
                    at <= i < n ==> files@[#[trigger] order@[i] as int].modified
                        > files@[n as int].modified,
            decreases at,
        {
            at -= 1;
        }
        let ghost before = order@;
        proof {
            assert forall|i: int| 0 <= i < at implies goes_before(
                files@,
                #[trigger] before[i],
                n,
            ) by {
                assert(before[i] < n);
                if i < at - 1 {
                    assert(goes_before(files@, before[i], before[at - 1]));
                }
            }
        }
        order.insert(at, n);
        proof {
            assert forall|i: int, j: int| 0 <= i < j < n + 1 implies goes_before(
                files@,
                #[trigger] order@[i],
                #[trigger] order@[j],
            ) && order@[i] != order@[j] by {
                lemma_inserted_index(before, order@, at as int, n, i);
                lemma_inserted_index(before, order@, at as int, n, j);
                if i != at && j != at {
                    let a = if i < at {
                        i
                    } else {
                        i - 1
                    };
                    let b = if j < at {
                        j
                    } else {
                        j - 1
                    };
                    assert(goes_before(files@, before[a], before[b]));
                    assert(before[a] != before[b]);
                } else if j == at {
                    assert(goes_before(files@, before[i], n));
                    assert(before[i] < n);
                } else {
                    assert(before[j - 1] < n);
                }
            }
            assert forall|i: int| 0 <= i < n + 1 implies #[trigger] order@[i] < n + 1 by {
                lemma_inserted_index(before, order@, at as int, n, i);
                if i < at {
                    assert(before[i] < n);
                } else if i > at {
                    assert(before[i - 1] < n);
                }
            }
        }
        n += 1;
    }
    order
}

proof fn lemma_inserted_index(before: Seq<usize>, after: Seq<usize>, at: int, n: usize, i: int)
    requires
        0 <= at <= before.len(),
        after == before.insert(at, n),
        0 <= i < after.len(),
    ensures
        after[i] == (if i < at {
            before[i]
        } else if i == at {
            n
        } else {
            before[i - 1]
        }),
{
}

/// The log files on their way to fitting into the quota: some of them have been
/// looked at, the oldest first.
#[derive(Debug)]
pub struct LogQuota {
    /// The files, the oldest first, by their place in the list.
    pub order: Vec<usize>,
    /// How many of them have been looked at.
    pub next: usize,
    /// The sizes of the files.
    pub files: Vec<LogFile>,
    /// The bytes that the files take which are left.
    pub total: u128,
    /// The bytes that they may take.
    pub limit: u64,
}

impl LogQuota {
    /// The state hangs together.
    pub open spec fn wf(self) -> bool {
        &&& oldest_first(self.order@, self.files@)
        &&& self.next <= self.order@.len()
        &&& sizes_from(self.files@, self.order@, self.next as int) <= self.total
    }

    /// There is a file to be removed: the files that are left take too much,
    /// and one of them has not been looked at.
    pub open spec fn candidate(self) -> Option<usize> {
        if self.total > self.limit && self.next < self.order@.len() {
            Some(self.order@[self.next as int])
        } else {
            None
        }
    }

    /// The state after the attempt to remove the file that was next.
    pub open spec fn follows(self, before: LogQuota, removed: bool) -> bool {
        &&& self.order@ == before.order@
        &&& self.files@ == before.files@
        &&& self.limit == before.limit
        &&& self.next == before.next + 1
        &&& self.total == (if removed {
            before.total - before.files@[before.candidate()->0 as int].size
        } else {
            before.total as int
        })
    }

    /// Looks at the log files that there are.
    pub fn new(files: Vec<LogFile>, limit: u64) -> (r: LogQuota)
        ensures
            r.wf(),
            r.files@ == files@,
            r.limit == limit,
            r.next == 0,
            r.total == total_size(files@),
            r.total == sizes_from(r.files@, r.order@, 0),
    {
        let mut total: u128 = 0;
        let mut i: usize = 0;
        while i < files.len()
            invariant
                i <= files@.len(),
                total == total_size(files@.take(i as int)),
                total <= i * 0xFFFF_FFFF_FFFF_FFFF,
            decreases files.len() - i,
        {
            proof {
                let next = files@.take(i + 1);
                assert(next.drop_last() =~= files@.take(i as int));
                assert(next.last() == files@[i as int]);
                assert(i * 0xFFFF_FFFF_FFFF_FFFF <= 0xFFFF_FFFF_FFFF_FFFF * 0xFFFF_FFFF_FFFF_FFFF)
                    by (nonlinear_arith)
                    requires
                        0 <= i <= 0xFFFF_FFFF_FFFF_FFFF,
                ;
            }
            total = total + files[i].size as u128;
            i += 1;
        }
        assert(files@.take(files@.len() as int) =~= files@);
        let order: Vec<usize> = by_age(&files);
        proof {
            lemma_sizes_are_total(files@, order@);
        }
        LogQuota { order, next: 0, files, total, limit }
    }

    /// The file to be removed next, by its place in the list.
    pub fn next_victim(&self) -> (r: Option<usize>)
        requires
            self.wf(),
        ensures
            r == self.candidate(),
            r matches Some(i) ==> i < self.files@.len(),
    {
        if self.total > self.limit as u128 && self.next < self.order.len() {
            Some(self.order[self.next])
        } else {
            None
        }
    }

    /// Takes note of the attempt to remove the file that was next.
    pub fn note_attempt(&mut self, removed: bool)
        requires
            old(self).wf(),
            old(self).candidate() is Some,
        ensures
            final(self).wf(),
            final(self).follows(*old(self), removed),
    {
        let n: usize = self.order.len();
        assert(self.next < n);
        let i: usize = self.order[self.next];
        let size: u64 = self.files[i].size;
        proof {
            lemma_sizes_nonnegative(self.files@, self.order@, self.next + 1);
        }
        if removed {
            self.total = self.total - size as u128;
        }
        self.next = self.next + 1;
    }
}

/// The bytes that the files take which have not been looked at.
pub open spec fn sizes_from(files: Seq<LogFile>, order: Seq<usize>, from: int) -> int
    decreases order.len() - from,
{
    if from >= order.len() {
        0
    } else {
        files[order[from] as int].size + sizes_from(files, order, from + 1)
    }
}

proof fn lemma_sizes_nonnegative(files: Seq<LogFile>, order: Seq<usize>, from: int)
    ensures
        0 <= sizes_from(files, order, from),
    decreases order.len() - from,
{
    if from < order.len() {
        lemma_sizes_nonnegative(files, order, from + 1);
    }
}

/// In whatever order they come, files take the same number of bytes.
proof fn lemma_sizes_are_total(files: Seq<LogFile>, order: Seq<usize>)
    requires
        is_arrangement(order, files.len() as int),
    ensures
        sizes_from(files, order, 0) == total_size(files),
    decreases files.len(),
{
    let n = files.len() as int;
    if n > 0 {
        // Take the last file out of the list and its place out of the order.
        lemma_arrangement_has(order, n, n - 1);
        let at = choose|k: int| 0 <= k < n && #[trigger] order[k] == n - 1;
        let rest = order.remove(at);
        let fewer = files.drop_last();
        assert forall|i: int| 0 <= i < n - 1 implies #[trigger] rest[i] < n - 1 by {
            let k = if i < at {
                i
            } else {
                i + 1
            };
            assert(rest[i] == order[k]);
            assert(order[k] < n);
            if k < at {
                assert(order[k] != order[at]);
            } else {
                assert(order[at] != order[k]);
            }
        }
        assert forall|i: int, j: int| 0 <= i < j < n - 1 implies #[trigger] rest[i]
            != #[trigger] rest[j] by {
            let a = if i < at {
                i
            } else {
                i + 1
            };
            let b = if j < at {
                j
            } else {
                j + 1
            };
            assert(order[a] != order[b]);
        }
        lemma_sizes_are_total(fewer, rest);
        lemma_sizes_without(files, order, at, 0);
        lemma_sizes_agree(files, fewer, rest, 0);
    }
}

/// Taking one place out of the order takes the size of its file away.
proof fn lemma_sizes_without(files: Seq<LogFile>, order: Seq<usize>, at: int, from: int)
    requires
        0 <= at < order.len(),
        0 <= from <= order.len(),
    ensures
        from <= at ==> sizes_from(files, order, from) == files[order[at] as int].size + sizes_from(
            files,
            order.remove(at),
            from,
        ),
        from > at ==> sizes_from(files, order, from) == sizes_from(
            files,
            order.remove(at),
            from - 1,
        ),
    decreases order.len() - from,
{
    let rest = order.remove(at);
    if from < order.len() {
        lemma_sizes_without(files, order, at, from + 1);
        if from < at {
            assert(rest[from] == order[from]);
        } else if from > at {
            assert(rest[from - 1] == order[from]);
        }
    }
}

proof fn lemma_sizes_agree(
    files: Seq<LogFile>,
    fewer: Seq<LogFile>,
    order: Seq<usize>,
    from: int,
)
    requires
        fewer.len() <= files.len(),
        forall|i: int| 0 <= i < fewer.len() ==> #[trigger] files[i] == fewer[i],
        forall|i: int| 0 <= i < order.len() ==> #[trigger] order[i] < fewer.len(),
        0 <= from <= order.len(),
    ensures
        sizes_from(files, order, from) == sizes_from(fewer, order, from),
    decreases order.len() - from,
{
    if from < order.len() {
        assert(order[from] < fewer.len());
        assert(files[order[from] as int] == fewer[order[from] as int]);
        lemma_sizes_agree(files, fewer, order, from + 1);
    }
}

/// An arrangement of the numbers below `n` holds each of them.
proof fn lemma_arrangement_has(order: Seq<usize>, n: int, x: int)
    requires
        is_arrangement(order, n),
        0 <= x < n,
    ensures
        exists|k: int| 0 <= k < n && #[trigger] order[k] == x,
{
    if !exists|k: int| 0 <= k < n && #[trigger] order[k] == x {
        let ints = order.map_values(|u: usize| u as int);
        assert(ints.no_duplicates());
        ints.unique_seq_to_set();
        let all = vstd::set_lib::set_int_range(0, n);
        vstd::set_lib::lemma_int_range(0, n);
        let without = all.remove(x);
        assert forall|y: int| ints.to_set().contains(y) implies without.contains(y) by {
            let k = choose|k: int| 0 <= k < ints.len() && ints[k] == y;
            assert(order[k] < n);
        }
        vstd::set_lib::lemma_len_subset(ints.to_set(), without);
        assert(false);
    }
}

/// Once every file has been looked at, or as soon as those that are left fit,
/// nothing more is removed; and where every removal succeeds, they fit in the
/// end.
pub proof fn law_quota_is_kept(q: LogQuota)
    requires
        q.wf(),
    ensures
        q.total <= q.limit ==> q.candidate() is None,
        q.candidate() is None && q.total == sizes_from(q.files@, q.order@, q.next as int)
            ==> q.total <= q.limit,
{
}

/// Where every removal succeeds, from the first look at the files until nothing
/// is left to be removed, the files that are left fit; those removed are the
/// oldest, and fewer of them would not have been enough.
pub proof fn law_fewest_oldest_files_are_removed(states: Seq<LogQuota>)
    requires
        states.len() > 0,
        states[0].wf(),
        states[0].next == 0,
        states[0].total == sizes_from(states[0].files@, states[0].order@, 0),
        forall|i: int|
            0 <= i < states.len() - 1 ==> {
                &&& (#[trigger] states[i]).candidate() is Some
                &&& states[i + 1].follows(states[i], true)
            },
        states.last().candidate() is None,
    ensures
        ({
            let files = states[0].files@;
            let order = states[0].order@;
            let removed = states.len() - 1;
            &&& removed <= order.len()
            &&& states.last().total == sizes_from(files, order, removed)
            &&& sizes_from(files, order, removed) <= states[0].limit
            &&& forall|i: int, j: int|
                0 <= i < removed <= j < order.len() ==> goes_before(
                    files,
                    #[trigger] order[i],
                    #[trigger] order[j],
                )
            &&& forall|fewer: int|
                0 <= fewer < removed ==> #[trigger] sizes_from(files, order, fewer)
                    > states[0].limit
        }),
{
    let files = states[0].files@;
    let order = states[0].order@;
    let removed = states.len() - 1;
    lemma_all_removed(states, removed);
    assert forall|fewer: int| 0 <= fewer < removed implies #[trigger] sizes_from(
        files,
        order,
        fewer,
    ) > states[0].limit by {
        lemma_all_removed(states, fewer);
        assert(states[fewer].candidate() is Some);
    }
    lemma_sizes_nonnegative(files, order, removed);
}

/// After so many removals so many files have been looked at, and the others are
/// left.
proof fn lemma_all_removed(states: Seq<LogQuota>, i: int)
    requires
        0 <= i < states.len(),
        states[0].next == 0,
        states[0].total == sizes_from(states[0].files@, states[0].order@, 0),
        forall|j: int|
            0 <= j < states.len() - 1 ==> {
                &&& (#[trigger] states[j]).candidate() is Some
                &&& states[j + 1].follows(states[j], true)
            },
    ensures
        states[i].files@ == states[0].files@,
        states[i].order@ == states[0].order@,
        states[i].limit == states[0].limit,
        states[i].next == i,
        i <= states[0].order@.len(),
        states[i].total == sizes_from(states[0].files@, states[0].order@, i),
    decreases i,
{
    if i > 0 {
        lemma_all_removed(states, i - 1);
        assert(states[i - 1].candidate() is Some);
        assert(states[(i - 1) + 1].follows(states[i - 1], true));
    }
}

/// Of files that are sorted by age none is younger than one after it, and of two of
/// one age the one that was listed first comes first.
pub proof fn law_oldest_files_come_first(order: Seq<usize>, files: Seq<LogFile>, i: int, j: int)
    requires
        oldest_first(order, files),
        0 <= i < j < order.len(),
    ensures
        order.len() == files.len(),
        order[i] < files.len() && order[j] < files.len(),
        files[order[i] as int].modified <= files[order[j] as int].modified,
        files[order[i] as int].modified == files[order[j] as int].modified ==> order[i] < order[j],
{
    assert(goes_before(files, order[i], order[j]));
}

/// However files are sorted, each of them has one place.
pub proof fn law_every_file_has_a_place(order: Seq<usize>, files: Seq<LogFile>, x: int)
    requires
        oldest_first(order, files),
        0 <= x < files.len(),
    ensures
        exists|k: int| 0 <= k < order.len() && #[trigger] order[k] == x,
        order.no_duplicates(),
{
    lemma_arrangement_has(order, files.len() as int, x);
    assert forall|i: int, j: int| 0 <= i < order.len() && 0 <= j < order.len() && i != j implies
        order[i] != order[j] by {
        if i < j {
            assert(order[i] != order[j]);
        } else {
            assert(order[j] != order[i]);
        }
    }
}

/// Files take the bytes that each of them takes, together.
pub proof fn law_sizes_add_up(a: Seq<LogFile>, b: Seq<LogFile>)
    ensures
        total_size(a + b) == total_size(a) + total_size(b),
        b.len() == 1 ==> total_size(b) == b[0].size,
    decreases b.len(),
{
    if b.len() == 0 {
        assert(a + b =~= a);
    } else {
        law_sizes_add_up(a, b.drop_last());
        assert((a + b).drop_last() =~= a + b.drop_last());
        if b.len() == 1 {
            assert(b.drop_last().len() == 0);
        }
    }
}

/// Log files are kept for seven days, and for no more than fifty megabytes.
pub proof fn law_limits_of_the_log()
    ensures
        KEEP_NANOS == 7 * 24 * 60 * 60 * 1_000_000_000,
        QUOTA_BYTES == 50 * 1024 * 1024,
{
}

/// A file that could not be removed still takes its bytes, and the next one is looked at;
/// it is removed too where the files that are left take too much.
pub proof fn law_files_that_stay_count(q: LogQuota, before: LogQuota)
    requires
        before.wf(),
        before.candidate() is Some,
        q.follows(before, false),
    ensures
        q.total == before.total,
        q.next == before.next + 1,
        before.candidate() == Some(before.order@[before.next as int]),
        q.next < q.order@.len() ==> q.candidate() == Some(before.order@[before.next + 1]),
        q.next >= q.order@.len() ==> q.candidate() is None,
{
}

/// A file that was removed takes no bytes any more.
pub proof fn law_removed_files_free_their_bytes(q: LogQuota, before: LogQuota)
    requires
        before.wf(),
        before.candidate() is Some,
        q.follows(before, true),
    ensures
        q.total == before.total - before.files@[before.order@[before.next as int] as int].size,
        q.next == before.next + 1,
        q.files@ == before.files@,
        q.order@ == before.order@,
{
}

} // verus!
