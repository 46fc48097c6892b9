//! Journal entries of the scheduler units, flattened into display lines.

use vstd::prelude::*;
use vstd::utf8::{decode_utf8, valid_utf8};

use chrono::TimeZone;
use serde_json::Value;

use crate::text::{chars_of, lines, lines_spec, trim, trim_spec};

verus! {

/// One display line of the log view.
pub struct LogLine {
    /// Local wall-clock time, `HH:MM:SS`; empty for continuation lines.
    pub time: String,
    /// syslog priority (0-7); 6 (info) when the entry carries none.
    pub priority: u8,
    pub text: String,
    /// Second and further lines of a multi-line entry.
    pub continuation: bool,
}

/// The view of a display line.
pub struct LogLineView {
    pub time: Seq<char>,
    pub priority: u8,
    pub text: Seq<char>,
    pub continuation: bool,
}

impl View for LogLine {
    type V = LogLineView;

    open spec fn view(&self) -> LogLineView {
        LogLineView {
            time: self.time@,
            priority: self.priority,
            text: self.text@,
            continuation: self.continuation,
        }
    }
}

/// The units the log view can inspect, in the order `u` cycles them.
pub open spec fn log_units_spec() -> Seq<Seq<char>> {
    seq!["scx_loader.service"@, "scx.service"@]
}

/// The unit at position `idx` of the log view's cycle.
pub fn log_unit_name(idx: usize) -> (res: &'static str)
    requires
        idx < 2,
    ensures
        res@ == log_units_spec()[idx as int],
{
    if idx == 0 {
        "scx_loader.service"
    } else {
        "scx.service"
    }
}


/// Whether `c` is an ASCII decimal digit.
pub open spec fn is_digit(c: char) -> bool {
    '0' <= c && c <= '9'
}

/// The value of the decimal digit `c`.
pub open spec fn digit_value(c: char) -> int {
    (c as u32) - ('0' as u32)
}

/// Whether `s` is non-empty and all ASCII digits.
pub open spec fn all_digits(s: Seq<char>) -> bool {
    s.len() > 0 && forall|i: int| 0 <= i < s.len() ==> is_digit(#[trigger] s[i])
}

/// The value of the decimal numeral `s`.
pub open spec fn digits_value(s: Seq<char>) -> int
    decreases s.len(),
{
    if s.len() == 0 {
        0
    } else {
        digits_value(s.drop_last()) * 10 + digit_value(s.last())
    }
}

proof fn lemma_capped_step(v: int, d: int, cap: int)
    requires
        v >= 0,
        0 <= d <= 9,
        cap >= 0,
    ensures
        (if v * 10 + d > cap {
            cap
        } else {
            v * 10 + d
        }) == (if (if v > cap {
            cap
        } else {
            v
        }) * 10 + d > cap {
            cap
        } else {
            (if v > cap {
                cap
            } else {
                v
            }) * 10 + d
        }),
{
    if v > cap {
        assert(v * 10 + d > cap) by (nonlinear_arith)
            requires
                v > cap,
                cap >= 0,
                d >= 0,
        ;
        assert(cap * 10 + d >= cap) by (nonlinear_arith)
            requires
                cap >= 0,
                d >= 0,
        ;
    }
}

proof fn lemma_digits_value_nonneg(s: Seq<char>)
    requires
        forall|i: int| 0 <= i < s.len() ==> is_digit(#[trigger] s[i]),
    ensures
        digits_value(s) >= 0,
    decreases s.len(),
{
    if s.len() > 0 {
        let t = s.drop_last();
        assert forall|i: int| 0 <= i < t.len() implies is_digit(#[trigger] t[i]) by {
            assert(t[i] == s[i]);
        }
        lemma_digits_value_nonneg(t);
        assert(is_digit(s[s.len() - 1]));
    }
}

/// The value of the digits `cs[from..]`, capped at `cap`; `None` when
/// that part is empty or holds a non-digit.
fn parse_digits_capped(cs: &Vec<char>, from: usize, cap: u128) -> (res: Option<u128>)
    requires
        from <= cs.len(),
        cap <= u64::MAX,
    ensures
        match res {
            None => !all_digits(cs@.skip(from as int)),
            Some(v) => all_digits(cs@.skip(from as int)) && v == (if digits_value(
                cs@.skip(from as int),
            ) > cap {
                cap as int
            } else {
                digits_value(cs@.skip(from as int))
            }),
        },
{
    let n = cs.len();
    let ghost t = cs@.skip(from as int);
    if from == n {
        return None;
    }
    let mut acc: u128 = 0;
    let mut i = from;
    while i < n
        invariant
            from <= i <= n,
            n == cs.len(),
            cap <= u64::MAX,
            t == cs@.skip(from as int),
            forall|j: int| 0 <= j < i - from ==> is_digit(#[trigger] t[j]),
            acc == (if digits_value(t.take(i - from)) > cap {
                cap as int
            } else {
                digits_value(t.take(i - from))
            }),
        decreases n - i,
    {
        let c = cs[i];
        assert(t[i - from] == c);
        if !('0' <= c && c <= '9') {
            return None;
        }
        let d = (c as u32 - '0' as u32) as u128;
        proof {
            let pre = t.take(i - from);
            let post = t.take(i - from + 1);
            assert(post.drop_last() =~= pre);
            assert(post.last() == c);
            assert forall|j: int| 0 <= j < pre.len() implies is_digit(#[trigger] pre[j]) by {
                assert(pre[j] == t[j]);
            }
            lemma_digits_value_nonneg(pre);
            lemma_capped_step(digits_value(pre), d as int, cap as int);
        }
        let next = acc * 10 + d;
        acc = if next > cap {
            cap
        } else {
            next
        };
        i = i + 1;
    }
    assert(t.take(n - from) =~= t);
    Some(acc)
}

/// What `u8::from_str` gives for `s`: an optional `+`, then one or more
/// ASCII digits whose value is at most 255; `None` otherwise.
pub open spec fn parse_u8_spec(s: Seq<char>) -> Option<u8> {
    let digits = if s.len() > 0 && s[0] == '+' {
        s.drop_first()
    } else {
        s
    };
    if all_digits(digits) && digits_value(digits) <= 255 {
        Some(digits_value(digits) as u8)
    } else {
        None
    }
}

/// Parses a `u8` as `u8::from_str` does.
pub fn parse_u8(s: &str) -> (res: Option<u8>)
    ensures
        res == parse_u8_spec(s@),
{
    let cs = chars_of(s);
    let from: usize = if cs.len() > 0 && cs[0] == '+' {
        1
    } else {
        0
    };
    proof {
        if from == 1 {
            assert(cs@.skip(1) =~= s@.drop_first());
        } else {
            assert(cs@.skip(0) =~= s@);
        }
    }
    match parse_digits_capped(&cs, from, 256) {
        Some(v) => if v <= 255 {
            Some(v as u8)
        } else {
            None
        },
        None => None,
    }
}

/// What `i64::from_str` gives for `s`: an optional sign, then one or more
/// ASCII digits, with the value in range; `None` otherwise.
pub open spec fn parse_i64_spec(s: Seq<char>) -> Option<i64> {
    let neg = s.len() > 0 && s[0] == '-';
    let digits = if s.len() > 0 && (s[0] == '+' || s[0] == '-') {
        s.drop_first()
    } else {
        s
    };
    let v = if neg {
        -digits_value(digits)
    } else {
        digits_value(digits)
    };
    if all_digits(digits) && i64::MIN <= v <= i64::MAX {
        Some(v as i64)
    } else {
        None
    }
}

/// Parses an `i64` as `i64::from_str` does.
pub fn parse_i64(s: &str) -> (res: Option<i64>)
    ensures
        res == parse_i64_spec(s@),
{
    let cs = chars_of(s);
    let signed = cs.len() > 0 && (cs[0] == '+' || cs[0] == '-');
    let neg = cs.len() > 0 && cs[0] == '-';
    let from: usize = if signed {
        1
    } else {
        0
    };
    proof {
        if from == 1 {
            assert(cs@.skip(1) =~= s@.drop_first());
        } else {
            assert(cs@.skip(0) =~= s@);
        }
    }
    let cap: u128 = 0x8000_0000_0000_0001;
    match parse_digits_capped(&cs, from, cap) {
        Some(v) => {
            if neg {
                if v <= 0x8000_0000_0000_0000 {
                    if v == 0x8000_0000_0000_0000 {
                        Some(i64::MIN)
                    } else {
                        Some(-(v as i64))
                    }
                } else {
                    None
                }
            } else {
                if v <= 0x7fff_ffff_ffff_ffff {
                    Some(v as i64)
                } else {
                    None
                }
            }
        },
        None => None,
    }
}

/// `x / d` rounded toward zero, as Rust's integer division does.
pub open spec fn div_trunc(x: int, d: int) -> int {
    if x >= 0 {
        x / d
    } else {
        -((-x) / d)
    }
}

/// Whole seconds of a microsecond timestamp, rounded toward zero.
pub fn micros_to_secs(us: i64) -> (res: i64)
    ensures
        res == div_trunc(us as int, 1_000_000),
{
    if us >= 0 {
        us / 1_000_000
    } else {
        let m: u64 = ((-(us + 1)) as u64) + 1;
        let q = m / 1_000_000;
        -(q as i64)
    }
}


/// The MESSAGE field of a journal entry: a JSON string for UTF-8
/// payloads, an array of byte values otherwise (each `None` where the
/// element is not an unsigned integer), or anything else.
pub enum JournalMessage {
    Text(String),
    Bytes(Vec<Option<u64>>),
    Other,
}

/// What the log view reads from one journal entry: PRIORITY and
/// __REALTIME_TIMESTAMP when they are JSON strings, and MESSAGE.
pub struct JournalEntry {
    pub priority: Option<String>,
    pub realtime_us: Option<String>,
    pub message: JournalMessage,
}

/// The view of a MESSAGE field.
pub enum JournalMessageView {
    Text(Seq<char>),
    Bytes(Seq<Option<u64>>),
    Other,
}

/// The view of a journal entry.
pub struct JournalEntryView {
    pub priority: Option<Seq<char>>,
    pub realtime_us: Option<Seq<char>>,
    pub message: JournalMessageView,
}

impl View for JournalEntry {
    type V = JournalEntryView;

    open spec fn view(&self) -> JournalEntryView {
        JournalEntryView {
            priority: match self.priority {
                Some(p) => Some(p@),
                None => None,
            },
            realtime_us: match self.realtime_us {
                Some(t) => Some(t@),
                None => None,
            },
            message: match self.message {
                JournalMessage::Text(t) => JournalMessageView::Text(t@),
                JournalMessage::Bytes(b) => JournalMessageView::Bytes(b@),
                JournalMessage::Other => JournalMessageView::Other,
            },
        }
    }
}

/// The view of an optional entry.
pub open spec fn opt_entry_view(e: Option<JournalEntry>) -> Option<JournalEntryView> {
    match e {
        Some(x) => Some(x@),
        None => None,
    }
}

/// What `serde_json` reads from one line of `journalctl --output=json`:
/// `None` when the line is not valid JSON.
pub uninterp spec fn decoded_journal_entry(raw: Seq<char>) -> Option<JournalEntryView>;

/// What `String::from_utf8_lossy` makes of `bytes`.
pub uninterp spec fn utf8_lossy_text(bytes: Seq<u8>) -> Seq<char>;

/// Parses one line of `journalctl --output=json` with `serde_json` into a
/// `serde_json::Value` and picks out PRIORITY and __REALTIME_TIMESTAMP (when
/// they are strings) and MESSAGE (string, array of numbers, or other).
/// The contract only names the result: JSON parsing is `serde_json`'s.
#[verifier::external_body]
fn decode_journal_entry(raw: &str) -> (res: Option<JournalEntry>)
    ensures
        opt_entry_view(res) == decoded_journal_entry(raw@),
{
    let v: Value = serde_json::from_str(raw).ok()?;
    Some(JournalEntry {
        priority: v.get("PRIORITY").and_then(Value::as_str).map(str::to_owned),
        realtime_us: v.get("__REALTIME_TIMESTAMP").and_then(Value::as_str).map(str::to_owned),
        message: match v.get("MESSAGE") {
            Some(Value::String(t)) => JournalMessage::Text(t.clone()),
            Some(Value::Array(a)) => JournalMessage::Bytes(a.iter().map(Value::as_u64).collect()),
            _ => JournalMessage::Other,
        },
    })
}

/// `String::from_utf8_lossy`: well-formed UTF-8 decodes to its
/// characters; ill-formed sequences become U+FFFD (left to the name).
#[verifier::external_body]
fn utf8_lossy(bytes: &[u8]) -> (res: String)
    ensures
        res@ == utf8_lossy_text(bytes@),
        valid_utf8(bytes@) ==> res@ == decode_utf8(bytes@),
{
    String::from_utf8_lossy(bytes).into_owned()
}

/// The number written by the two digits `a` and `b`.
pub open spec fn two_digit_value(a: char, b: char) -> int {
    digit_value(a) * 10 + digit_value(b)
}

/// Whether `t` reads `HH:MM:SS`: zero-padded hour (00–23), minute (00–59)
/// and second (00–60, a leap second included).
pub open spec fn clock_form(t: Seq<char>) -> bool {
    &&& t.len() == 8
    &&& t[2] == ':'
    &&& t[5] == ':'
    &&& is_digit(t[0]) && is_digit(t[1]) && is_digit(t[3])
    &&& is_digit(t[4]) && is_digit(t[6]) && is_digit(t[7])
    &&& two_digit_value(t[0], t[1]) <= 23
    &&& two_digit_value(t[3], t[4]) <= 59
    &&& two_digit_value(t[6], t[7]) <= 60
}

/// A span of seconds around the Unix epoch (2^40 s, some 34,000 years)
/// well inside the dates that the clock can represent.
pub open spec fn clock_span() -> int {
    1_099_511_627_776
}

/// Seconds from the epoch beyond which (either way) the clock has no date:
/// chrono's dates end on December 31, 262142 (8,210,266,876,800 s after
/// 1970 begins, exclusive) and begin on January 1, -262143
/// (8,334,601,315,200 s before).
pub open spec fn clock_range_limit() -> int {
    8_400_000_000_000
}

/// The local wall-clock time `HH:MM:SS` of a Unix time in seconds, via
/// `chrono::Local` (`timestamp_opt`, then `format("%H:%M:%S")`); empty when
/// chrono has no single local time for it, which its documentation gives
/// only for seconds out of its date range. Which time of day comes out
/// depends on the machine's time zone and is left unsaid; its form, that a
/// time within `clock_span()` of the epoch has one, and that a time
/// `clock_range_limit()` or more away from it has none, are stated.
#[verifier::external_body]
fn local_clock_time(secs: i64) -> (res: String)
    ensures
        res@.len() == 0 || clock_form(res@),
        -clock_span() <= secs <= clock_span() ==> clock_form(res@),
        secs >= clock_range_limit() || secs <= -clock_range_limit() ==> res@.len() == 0,
{
    chrono::Local.timestamp_opt(secs, 0).single().map(|dt| dt.format("%H:%M:%S").to_string()).unwrap_or_default()
}

/// The byte values of a MESSAGE array: non-numbers dropped, numbers cut
/// to their low byte.
pub open spec fn kept_bytes(b: Seq<Option<u64>>) -> Seq<u8>
    decreases b.len(),
{
    if b.len() == 0 {
        Seq::empty()
    } else {
        let rest = kept_bytes(b.drop_last());
        match b.last() {
            Some(x) => rest.push(x as u8),
            None => rest,
        }
    }
}

/// The text of a MESSAGE field, or `None` when the entry has none usable.
pub open spec fn message_text(m: JournalMessageView) -> Option<Seq<char>> {
    match m {
        JournalMessageView::Text(t) => Some(t),
        JournalMessageView::Bytes(b) => Some(utf8_lossy_text(kept_bytes(b))),
        JournalMessageView::Other => None,
    }
}

/// The priority of an entry: its PRIORITY when that parses as a `u8`,
/// 6 (info) otherwise.
pub open spec fn priority_of(p: Option<Seq<char>>) -> u8 {
    match p {
        Some(s) => match parse_u8_spec(s) {
            Some(v) => v,
            None => 6,
        },
        None => 6,
    }
}

/// The Unix time in seconds of an entry, when its timestamp parses.
pub open spec fn entry_secs(e: JournalEntryView) -> Option<int> {
    match e.realtime_us {
        Some(t) => match parse_i64_spec(t) {
            Some(us) => Some(div_trunc(us as int, 1_000_000)),
            None => None,
        },
        None => None,
    }
}

/// The display lines of one entry shown at `time`: one per line of its
/// message, the first carrying the time, the others marked as
/// continuations; `None` when the entry has no usable message.
pub open spec fn entry_lines_spec(e: JournalEntryView, time: Seq<char>) -> Option<Seq<LogLineView>> {
    match message_text(e.message) {
        None => None,
        Some(t) => {
            let ls = lines_spec(t);
            Some(
                Seq::new(
                    ls.len(),
                    |i: int|
                        LogLineView {
                            time: if i == 0 {
                                time
                            } else {
                                Seq::empty()
                            },
                            priority: priority_of(e.priority),
                            text: ls[i],
                            continuation: i > 0,
                        },
                ),
            )
        },
    }
}

/// The views of display lines.
pub open spec fn lines_view(ls: Seq<LogLine>) -> Seq<LogLineView> {
    ls.map_values(|l: LogLine| l@)
}

/// The display lines for `raws` (the output lines of journalctl, in
/// order), where the entry of line `i` is shown at `times[i]`: empty lines,
/// lines that are not JSON, and entries without a usable message show
/// nothing.
pub open spec fn display_lines_spec(raws: Seq<Seq<char>>, times: Seq<Seq<char>>) -> Seq<LogLineView>
    decreases raws.len(),
{
    if raws.len() == 0 {
        Seq::empty()
    } else {
        let prev = display_lines_spec(raws.drop_last(), times);
        let r = raws.last();
        if r.len() == 0 {
            prev
        } else {
            match decoded_journal_entry(r) {
                None => prev,
                Some(e) => match entry_lines_spec(e, times[raws.len() - 1]) {
                    None => prev,
                    Some(ls) => prev + ls,
                },
            }
        }
    }
}

/// Whether `times` fits `raws`: one time per line, the empty time for
/// every entry whose timestamp does not parse, and for every other entry
/// a local time of the form `HH:MM:SS` or nothing: certainly that form
/// when its seconds lie within `clock_span()` of the epoch, and nothing
/// when they lie `clock_range_limit()` or more away from it.
pub open spec fn times_fit(raws: Seq<Seq<char>>, times: Seq<Seq<char>>) -> bool {
    &&& times.len() == raws.len()
    &&& forall|i: int|
        0 <= i < raws.len() ==> time_fits(#[trigger] raws[i], times[i])
}

/// Whether `time` fits the journal line `raw` (see `times_fit`).
pub open spec fn time_fits(raw: Seq<char>, time: Seq<char>) -> bool {
    decoded_journal_entry(raw) matches Some(e) ==> match entry_secs(e) {
        None => time == Seq::<char>::empty(),
        Some(secs) => raw.len() > 0 ==> (time.len() == 0 || clock_form(time)) && (-clock_span() <= secs
            <= clock_span() ==> clock_form(time)) && (secs >= clock_range_limit() || secs
            <= -clock_range_limit() ==> time.len() == 0),
    }
}

/// The bytes kept from a MESSAGE array.
fn kept_bytes_of(b: &Vec<Option<u64>>) -> (res: Vec<u8>)
    ensures
        res@ == kept_bytes(b@),
{
    let mut res: Vec<u8> = Vec::new();
    let n = b.len();
    for i in 0..n
        invariant
            n == b.len(),
            res@ == kept_bytes(b@.take(i as int)),
    {
        assert(b@.take(i + 1).drop_last() =~= b@.take(i as int));
        match b[i] {
            Some(x) => res.push(x as u8),
            None => {},
        }
    }
    assert(b@.take(n as int) =~= b@);
    res
}

/// The text of a MESSAGE field, if usable.
fn message_text_of(m: &JournalMessage) -> (res: Option<String>)
    ensures
        match res {
            Some(t) => message_text(
                match m {
                    JournalMessage::Text(t) => JournalMessageView::Text(t@),
                    JournalMessage::Bytes(b) => JournalMessageView::Bytes(b@),
                    JournalMessage::Other => JournalMessageView::Other,
                },
            ) == Some(t@),
            None => message_text(
                match m {
                    JournalMessage::Text(t) => JournalMessageView::Text(t@),
                    JournalMessage::Bytes(b) => JournalMessageView::Bytes(b@),
                    JournalMessage::Other => JournalMessageView::Other,
                },
            ) is None,
        },
{
    match m {
        JournalMessage::Text(t) => Some(t.clone()),
        JournalMessage::Bytes(b) => {
            let bytes = kept_bytes_of(b);
            Some(utf8_lossy(bytes.as_slice()))
        },
        JournalMessage::Other => None,
    }
}

/// The priority of an entry.
pub fn entry_priority(p: &Option<String>) -> (res: u8)
    ensures
        res == priority_of(
            match p {
                Some(s) => Some(s@),
                None => None,
            },
        ),
{
    match p {
        Some(s) => match parse_u8(s.as_str()) {
            Some(v) => v,
            None => 6,
        },
        None => 6,
    }
}

/// The display lines of `entry` shown at `time`, or `None` when it has no
/// usable message.
pub fn entry_lines(entry: &JournalEntry, time: String) -> (res: Option<Vec<LogLine>>)
    ensures
        match res {
            Some(v) => entry_lines_spec(entry@, time@) == Some(lines_view(v@)),
            None => entry_lines_spec(entry@, time@) is None,
        },
{
    let priority = entry_priority(&entry.priority);
    let text = match message_text_of(&entry.message) {
        Some(t) => t,
        None => {
            return None;
        },
    };
    let ls = lines(text.as_str());
    let ghost lv = ls.deep_view();
    let mut out: Vec<LogLine> = Vec::new();
    let n = ls.len();
    for i in 0..n
        invariant
            n == ls.len(),
            lv == ls.deep_view(),
            lv == lines_spec(text@),
            priority == priority_of(entry@.priority),
            out@.len() == i,
            forall|j: int|
                0 <= j < i ==> (#[trigger] out@[j])@ == (LogLineView {
                    time: if j == 0 {
                        time@
                    } else {
                        Seq::empty()
                    },
                    priority: priority_of(entry@.priority),
                    text: lv[j],
                    continuation: j > 0,
                }),
    {
        let t = if i == 0 {
            time.clone()
        } else {
            String::new()
        };
        out.push(LogLine { time: t, priority, text: ls[i].clone(), continuation: i > 0 });
    }
    let ghost expect = entry_lines_spec(entry@, time@);
    assert(expect == Some(lines_view(out@))) by {
        assert(lines_view(out@) =~= expect->0);
    }
    Some(out)
}

/// The display lines of journalctl's JSON output `stdout`, oldest first.
/// The shown times come from the machine's local clock: the contract
/// states their form (`HH:MM:SS`, or empty where the timestamp does not
/// parse), and that some such choice of times gives exactly these lines.
pub fn journal_display_lines(stdout: &str) -> (res: Vec<LogLine>)
    ensures
        exists|times: Seq<Seq<char>>|
            times_fit(lines_spec(stdout@), times) && lines_view(res@) == display_lines_spec(
                lines_spec(stdout@),
                times,
            ),
{
    let raws = lines(stdout);
    let ghost rv = raws.deep_view();
    let ghost mut times: Seq<Seq<char>> = Seq::empty();
    let mut out: Vec<LogLine> = Vec::new();
    let n = raws.len();
    for i in 0..n
        invariant
            n == raws.len(),
            rv == raws.deep_view(),
            rv == lines_spec(stdout@),
            times_fit(rv.take(i as int), times),
            lines_view(out@) == display_lines_spec(rv.take(i as int), times),
    {
        let ghost pre_out = lines_view(out@);
        let ghost pre_times = times;
        let raw = raws[i].as_str();
        assert(raw@ == rv[i as int]);
        let ghost pre_raws = rv.take(i as int);
        let ghost post_raws = rv.take(i + 1);
        assert(post_raws.drop_last() =~= pre_raws);
        let entry = if raw.is_empty() {
            None
        } else {
            decode_journal_entry(raw)
        };
        let time = match &entry {
            Some(e) => match &e.realtime_us {
                Some(t) => match parse_i64(t.as_str()) {
                    Some(us) => local_clock_time(micros_to_secs(us)),
                    None => String::new(),
                },
                None => String::new(),
            },
            None => String::new(),
        };
        proof {
            times = times.push(time@);
            assert forall|j: int| 0 <= j < i + 1 implies time_fits(#[trigger] post_raws[j], times[j]) by {
                if j < i {
                    assert(post_raws[j] == pre_raws[j]);
                }
            }
            assert(display_lines_spec(pre_raws, times) == display_lines_spec(pre_raws, pre_times))
                by {
                lemma_display_lines_times_prefix(pre_raws, pre_times, times);
            }
        }
        match entry {
            Some(e) => {
                match entry_lines(&e, time) {
                    Some(mut ls) => {
                        let ghost ls_v = lines_view(ls@);
                        let ghost before = out@;
                        let ghost added = ls@;
                        out.append(&mut ls);
                        assert(out@ =~= before + added);
                        assert(lines_view(out@) =~= lines_view(before) + ls_v);
                    },
                    None => {},
                }
            },
            None => {},
        }
    }
    assert(rv.take(n as int) =~= rv);
    out
}

/// Extending the time list past the lines shown changes nothing.
proof fn lemma_display_lines_times_prefix(raws: Seq<Seq<char>>, t1: Seq<Seq<char>>, t2: Seq<Seq<char>>)
    requires
        t1.len() >= raws.len(),
        t2.len() >= raws.len(),
        forall|j: int| 0 <= j < raws.len() ==> t1[j] == t2[j],
    ensures
        display_lines_spec(raws, t1) == display_lines_spec(raws, t2),
    decreases raws.len(),
{
    if raws.len() > 0 {
        lemma_display_lines_times_prefix(raws.drop_last(), t1, t2);
    }
}


/// The error after journalctl failed with `stderr`: its own words when it
/// gave any.
pub fn journal_failure_text(stderr: &str) -> (res: String)
    ensures
        res@ == "journalctl failed"@ + (if trim_spec(stderr@).len() == 0 {
            Seq::empty()
        } else {
            ": "@ + trim_spec(stderr@)
        }),
{
    let t = trim(stderr);
    let mut res = "journalctl failed".to_owned();
    if !t.as_str().is_empty() {
        res.append(": ");
        res.append(t.as_str());
    }
    proof {
        if trim_spec(stderr@).len() == 0 {
            assert(res@ =~= "journalctl failed"@ + Seq::<char>::empty());
        }
    }
    res
}

/// The time shown with an entry follows its timestamp: a journal line
/// holding entry `e` (with a message of `n` lines) shows `n` lines, the
/// first carrying its time, which is empty when the timestamp does not
/// parse or lies beyond the clock's dates, and reads `HH:MM:SS` when it
/// lies within `clock_span()` of the epoch; the other lines carry no time.
pub proof fn lemma_entry_time_shown(raw: Seq<char>, times: Seq<Seq<char>>, e: JournalEntryView, t: Seq<char>)
    requires
        raw.len() > 0,
        times_fit(seq![raw], times),
        decoded_journal_entry(raw) == Some(e),
        message_text(e.message) == Some(t),
        lines_spec(t).len() > 0,
    ensures
        display_lines_spec(seq![raw], times).len() == lines_spec(t).len(),
        display_lines_spec(seq![raw], times)[0].text == lines_spec(t)[0],
        entry_secs(e) is None ==> display_lines_spec(seq![raw], times)[0].time.len() == 0,
        entry_secs(e) matches Some(secs) ==> (secs >= clock_range_limit() || secs <= -clock_range_limit()
            ==> display_lines_spec(seq![raw], times)[0].time.len() == 0),
        entry_secs(e) matches Some(secs) ==> (-clock_span() <= secs <= clock_span() ==> clock_form(
            display_lines_spec(seq![raw], times)[0].time,
        )),
        forall|j: int|
            1 <= j < lines_spec(t).len() ==> (#[trigger] display_lines_spec(seq![raw], times)[j]).time.len()
                == 0,
{
    let raws = seq![raw];
    assert(raws.drop_last() =~= Seq::<Seq<char>>::empty());
    assert(raws.last() == raw);
    assert(time_fits(raws[0], times[0]));
    let ls = entry_lines_spec(e, times[0])->0;
    assert(display_lines_spec(Seq::<Seq<char>>::empty(), times) == Seq::<LogLineView>::empty());
    assert(display_lines_spec(raws, times) == display_lines_spec(raws.drop_last(), times) + ls);
    assert(display_lines_spec(raws, times) =~= ls);
}

} // verus!
