//! LogObserver — watches the host through its log file.
//!
//! Tailing the file is the caller's part; this module turns each line
//! into an event. A line reads `TIMESTAMP LEVEL MODULE MESSAGE`, for
//! example `2024-01-15T10:30:00Z ERROR auth Failed to authenticate user`.

use vstd::prelude::*;
use crate::observer::{EventType, HostEvent, Payload, PayloadValue, PayloadValueView, Severity, Timestamp, now};
use crate::text::{chars_of, contains_chars, contains_seq};

verus! {

// ─── Whitespace and trimming ─────────────────────────────────────────

/// The characters with the Unicode `White_Space` property, which is what
/// `char::is_whitespace` tests.
pub open spec fn is_white(c: char) -> bool {
    ('\u{9}' <= c && c <= '\u{d}') || c == ' ' || c == '\u{85}' || c == '\u{a0}'
        || c == '\u{1680}' || ('\u{2000}' <= c && c <= '\u{200a}') || c == '\u{2028}'
        || c == '\u{2029}' || c == '\u{202f}' || c == '\u{205f}' || c == '\u{3000}'
}

fn is_white_exec(c: char) -> (r: bool)
    ensures
        r == is_white(c),
{
    ('\u{9}' <= c && c <= '\u{d}') || c == ' ' || c == '\u{85}' || c == '\u{a0}'
        || c == '\u{1680}' || ('\u{2000}' <= c && c <= '\u{200a}') || c == '\u{2028}'
        || c == '\u{2029}' || c == '\u{202f}' || c == '\u{205f}' || c == '\u{3000}'
}

/// `s` without its leading whitespace.
pub open spec fn trim_start(s: Seq<char>) -> Seq<char>
    decreases s.len(),
{
    if s.len() > 0 && is_white(s[0]) {
        trim_start(s.drop_first())
    } else {
        s
    }
}

/// `s` without its trailing whitespace.
pub open spec fn trim_end(s: Seq<char>) -> Seq<char>
    decreases s.len(),
{
    if s.len() > 0 && is_white(s.last()) {
        trim_end(s.drop_last())
    } else {
        s
    }
}

/// `s` without leading and trailing whitespace, as `str::trim` gives it.
pub open spec fn trim(s: Seq<char>) -> Seq<char> {
    trim_end(trim_start(s))
}

proof fn lemma_trim_start_at(s: Seq<char>, i: int)
    requires
        0 <= i <= s.len(),
        forall|j: int| 0 <= j < i ==> is_white(s[j]),
        i == s.len() || !is_white(s[i]),
    ensures
        trim_start(s) == s.subrange(i, s.len() as int),
    decreases i,
{
    if i == 0 {
        assert(s.subrange(0, s.len() as int) =~= s);
    } else {
        assert forall|j: int| 0 <= j < i - 1 implies is_white(s.drop_first()[j]) by {
            assert(s.drop_first()[j] == s[j + 1]);
        }
        if i - 1 < s.drop_first().len() {
            assert(s.drop_first()[i - 1] == s[i]);
        }
        lemma_trim_start_at(s.drop_first(), i - 1);
        assert(s.drop_first().subrange(i - 1, s.drop_first().len() as int) =~= s.subrange(i, s.len() as int));
    }
}

proof fn lemma_trim_end_at(s: Seq<char>, k: int)
    requires
        0 <= k <= s.len(),
        forall|j: int| k <= j < s.len() ==> is_white(s[j]),
        k == 0 || !is_white(s[k - 1]),
    ensures
        trim_end(s) == s.subrange(0, k),
    decreases s.len() - k,
{
    if k == s.len() {
        assert(s.subrange(0, k) =~= s);
    } else {
        assert(s.last() == s[s.len() - 1]);
        assert forall|j: int| k <= j < s.drop_last().len() implies is_white(s.drop_last()[j]) by {
            assert(s.drop_last()[j] == s[j]);
        }
        if k > 0 {
            assert(s.drop_last()[k - 1] == s[k - 1]);
        }
        lemma_trim_end_at(s.drop_last(), k);
        assert(s.drop_last().subrange(0, k) =~= s.subrange(0, k));
    }
}

/// The bounds `lo..hi` of the trimmed part of `s`.
pub fn trim_bounds(s: &Vec<char>) -> (r: (usize, usize))
    ensures
        r.0 <= r.1 <= s@.len(),
        s@.subrange(r.0 as int, r.1 as int) == trim(s@),
{
    let n = s.len();
    let mut lo: usize = 0;
    while lo < n && is_white_exec(s[lo])
        invariant
            n == s@.len(),
            0 <= lo <= n,
            forall|j: int| 0 <= j < lo ==> is_white(s@[j]),
        decreases n - lo,
    {
        lo = lo + 1;
    }
    proof {
        lemma_trim_start_at(s@, lo as int);
    }
    let ghost t = s@.subrange(lo as int, n as int);
    let mut hi: usize = n;
    while hi > lo && is_white_exec(s[hi - 1])
        invariant
            n == s@.len(),
            lo <= hi <= n,
            t == s@.subrange(lo as int, n as int),
            forall|j: int| hi <= j < n ==> is_white(s@[j]),
        decreases hi - lo,
    {
        hi = hi - 1;
    }
    proof {
        assert forall|j: int| hi - lo <= j < t.len() implies is_white(t[j]) by {
            assert(t[j] == s@[lo + j]);
        }
        if hi > lo {
            assert(t[hi - lo - 1] == s@[hi - 1]);
        }
        lemma_trim_end_at(t, hi - lo);
        assert(t.subrange(0, hi - lo) =~= s@.subrange(lo as int, hi as int));
    }
    (lo, hi)
}

// ─── Splitting on spaces ─────────────────────────────────────────────

/// The index of the first space in `s`, if any.
pub open spec fn first_space(s: Seq<char>) -> Option<int>
    decreases s.len(),
{
    if s.len() == 0 {
        None
    } else if s[0] == ' ' {
        Some(0)
    } else {
        match first_space(s.drop_first()) {
            Some(i) => Some(i + 1),
            None => None,
        }
    }
}

/// `s` split on spaces into at most `n` parts, the last part keeping the
/// rest, as `str::splitn(n, ' ')` splits it (for `n >= 1`).
pub open spec fn splitn_space(s: Seq<char>, n: nat) -> Seq<Seq<char>>
    decreases n,
{
    if n <= 1 {
        seq![s]
    } else {
        match first_space(s) {
            None => seq![s],
            Some(i) => seq![s.subrange(0, i)] + splitn_space(s.subrange(i + 1, s.len() as int), (n - 1) as nat),
        }
    }
}

proof fn lemma_first_space_at(s: Seq<char>, i: int)
    requires
        0 <= i <= s.len(),
        forall|j: int| 0 <= j < i ==> s[j] != ' ',
    ensures
        i < s.len() && s[i] == ' ' ==> first_space(s) == Some(i),
        i == s.len() ==> first_space(s) is None,
    decreases i,
{
    if i > 0 {
        assert forall|j: int| 0 <= j < i - 1 implies s.drop_first()[j] != ' ' by {
            assert(s.drop_first()[j] == s[j + 1]);
        }
        if i < s.len() {
            assert(s.drop_first()[i - 1] == s[i]);
        }
        assert(s[0] != ' ');
        lemma_first_space_at(s.drop_first(), i - 1);
    }
}

/// The position of the first space of `s` in `from..to`, if any.
fn find_space(s: &Vec<char>, from: usize, to: usize) -> (r: Option<usize>)
    requires
        from <= to <= s@.len(),
    ensures
        match first_space(s@.subrange(from as int, to as int)) {
            Some(i) => 0 <= i < to - from && r == Some((from + i) as usize),
            None => r is None,
        },
        r matches Some(p) ==> from <= p < to,
{
    proof {
        lemma_first_space_bound(s@.subrange(from as int, to as int));
    }
    let ghost t = s@.subrange(from as int, to as int);
    let mut k: usize = from;
    while k < to
        invariant
            from <= k <= to <= s@.len(),
            t == s@.subrange(from as int, to as int),
            forall|j: int| 0 <= j < k - from ==> t[j] != ' ',
        decreases to - k,
    {
        if s[k] == ' ' {
            proof {
                assert(t[k - from] == s@[k as int]);
                lemma_first_space_at(t, k - from);
            }
            return Some(k);
        }
        assert(t[k - from] == s@[k as int]);
        k = k + 1;
    }
    proof {
        lemma_first_space_at(t, to - from);
    }
    None
}

// ─── Integers ────────────────────────────────────────────────────────

/// Whether every character of `d` is an ASCII digit.
pub open spec fn all_digits(d: Seq<char>) -> bool {
    forall|i: int| 0 <= i < d.len() ==> '0' <= #[trigger] d[i] && d[i] <= '9'
}

/// The number that the decimal digits `d` write.
pub open spec fn digits_value(d: Seq<char>) -> int
    decreases d.len(),
{
    if d.len() == 0 {
        0
    } else {
        10 * digits_value(d.drop_last()) + (d.last() as int - '0' as int)
    }
}

/// What `str::parse::<i64>` gives: an optional `+` or `-`, then one or
/// more decimal digits, of a value that fits an `i64`.
pub open spec fn parse_i64_spec(s: Seq<char>) -> Option<int> {
    let neg = s.len() > 0 && s[0] == '-';
    let signed = s.len() > 0 && (s[0] == '-' || s[0] == '+');
    let d = if signed { s.drop_first() } else { s };
    if d.len() == 0 || !all_digits(d) {
        None
    } else {
        let v = if neg { -digits_value(d) } else { digits_value(d) };
        if i64::MIN <= v && v <= i64::MAX { Some(v) } else { None }
    }
}

/// Whether `s` is the text of a negative `i64`.
pub open spec fn is_negative_i64(s: Seq<char>) -> bool {
    parse_i64_spec(s) matches Some(v) && v < 0
}

proof fn lemma_digits_value_grows(d: Seq<char>, k: int)
    requires
        all_digits(d),
        0 <= k <= d.len(),
    ensures
        digits_value(d.subrange(0, k)) <= digits_value(d),
        0 <= digits_value(d.subrange(0, k)),
    decreases d.len() - k,
{
    if k == d.len() {
        assert(d.subrange(0, k) =~= d);
        lemma_digits_value_nonneg(d);
    } else {
        lemma_digits_value_grows(d, k + 1);
        assert(d.subrange(0, k + 1).drop_last() =~= d.subrange(0, k));
        assert(d.subrange(0, k + 1).last() == d[k]);
        lemma_digits_value_nonneg(d.subrange(0, k));
    }
}

proof fn lemma_digits_value_nonneg(d: Seq<char>)
    requires
        all_digits(d),
    ensures
        digits_value(d) >= 0,
    decreases d.len(),
{
    if d.len() > 0 {
        assert(all_digits(d.drop_last())) by {
            assert forall|i: int| 0 <= i < d.drop_last().len() implies '0' <= #[trigger] d.drop_last()[i]
                && d.drop_last()[i] <= '9' by {
                assert(d.drop_last()[i] == d[i]);
            }
        }
        lemma_digits_value_nonneg(d.drop_last());
        assert(d.last() == d[d.len() - 1]);
    }
}

/// Parses a decimal `i64` as `str::parse::<i64>` does.
#[verifier::loop_isolation(false)]
pub fn parse_i64(s: &str) -> (r: Option<i64>)
    ensures
        match parse_i64_spec(s@) {
            Some(v) => r == Some(v as i64),
            None => r is None,
        },
{
    let c = chars_of(s);
    let n = c.len();
    let neg = n > 0 && c[0] == '-';
    let signed = n > 0 && (c[0] == '-' || c[0] == '+');
    let start: usize = if signed { 1 } else { 0 };
    let ghost d = if signed { s@.drop_first() } else { s@ };
    assert(d =~= c@.subrange(start as int, n as int));
    if start == n {
        return None;
    }
    let mut k: usize = start;
    while k < n
        invariant
            start <= k <= n == c@.len(),
            d == c@.subrange(start as int, n as int),
            forall|j: int| 0 <= j < k - start ==> '0' <= #[trigger] d[j] && d[j] <= '9',
        decreases n - k,
    {
        if !('0' <= c[k] && c[k] <= '9') {
            assert(d[k - start] == c@[k as int]);
            return None;
        }
        assert(d[k - start] == c@[k as int]);
        k = k + 1;
    }
    assert(all_digits(d));
    // Every character is a digit: accumulate, giving up once the value
    // cannot fit any more.
    let limit: i128 = 9223372036854775808;
    let mut acc: i128 = 0;
    let mut k: usize = start;
    while k < n
        invariant
            start <= k <= n == c@.len(),
            d == c@.subrange(start as int, n as int),
            all_digits(d),
            0 <= acc <= limit,
            limit == 9223372036854775808,
            acc == digits_value(d.subrange(0, k - start)),
        decreases n - k,
    {
        assert(d[k - start] == c@[k as int]);
        assert('0' <= d[k - start]);
        let digit = (c[k] as u32 - '0' as u32) as i128;
        proof {
            assert(d.subrange(0, k - start + 1).drop_last() =~= d.subrange(0, k - start));
            assert(d.subrange(0, k - start + 1).last() == d[k - start]);
        }
        acc = acc * 10 + digit;
        k = k + 1;
        if acc > limit {
            proof {
                lemma_digits_value_grows(d, k - start);
            }
            return None;
        }
    }
    assert(d.subrange(0, n - start) =~= d);
    if neg {
        if acc == limit {
            Some(-9223372036854775807i64 - 1)
        } else {
            Some(-(acc as i64))
        }
    } else if acc == limit {
        None
    } else {
        Some(acc as i64)
    }
}

// ─── Timestamps ──────────────────────────────────────────────────────

/// The instant that `chrono::DateTime::parse_from_rfc3339` reads from
/// `s`, as seconds and nanoseconds since the epoch, if it accepts `s`.
pub uninterp spec fn rfc3339_instant(s: Seq<char>) -> Option<(i64, u32)>;

/// The instant that `chrono::NaiveDateTime::parse_from_str` reads from
/// `s` with format `fmt`, taken as UTC, if it accepts `s`.
pub uninterp spec fn naive_utc_instant(s: Seq<char>, fmt: Seq<char>) -> Option<(i64, u32)>;

/// Calls `chrono::DateTime::parse_from_rfc3339`; the instant it reads is
/// named [`rfc3339_instant`], and nothing more is stated of which texts it
/// accepts.
#[verifier::external_body]
fn parse_rfc3339(s: &str) -> (r: Option<(i64, u32)>)
    ensures
        r == rfc3339_instant(s@),
{
    match chrono::DateTime::parse_from_rfc3339(s) {
        Ok(dt) => Some((dt.timestamp(), dt.timestamp_subsec_nanos())),
        Err(_) => None,
    }
}

/// Calls `chrono::NaiveDateTime::parse_from_str` and reads the result as
/// UTC; the instant is named [`naive_utc_instant`].
#[verifier::external_body]
fn parse_naive_utc(s: &str, fmt: &str) -> (r: Option<(i64, u32)>)
    ensures
        r == naive_utc_instant(s@, fmt@),
{
    match chrono::NaiveDateTime::parse_from_str(s, fmt) {
        Ok(dt) => {
            let t = dt.and_utc();
            Some((t.timestamp(), t.timestamp_subsec_nanos()))
        },
        Err(_) => None,
    }
}

/// The instant written in `ts`: RFC 3339 first, then
/// `%Y-%m-%dT%H:%M:%S`, then `%Y-%m-%d %H:%M:%S` (both UTC), then a
/// count of seconds since the epoch.
pub open spec fn timestamp_spec(ts: Seq<char>) -> Option<Timestamp> {
    match rfc3339_instant(ts) {
        Some(p) => Some(Timestamp { secs: p.0, nanos: p.1 }),
        None => match naive_utc_instant(ts, "%Y-%m-%dT%H:%M:%S"@) {
            Some(p) => Some(Timestamp { secs: p.0, nanos: p.1 }),
            None => match naive_utc_instant(ts, "%Y-%m-%d %H:%M:%S"@) {
                Some(p) => Some(Timestamp { secs: p.0, nanos: p.1 }),
                None => match parse_i64_spec(ts) {
                    Some(v) => Some(Timestamp { secs: v as i64, nanos: 0 }),
                    None => None,
                },
            },
        },
    }
}

/// Reads a timestamp (see [`timestamp_spec`]). A negative count of
/// seconds is left out: it lies before what a `SystemTime` can hold past
/// the epoch.
pub fn parse_timestamp(ts: &str) -> (r: Option<Timestamp>)
    requires
        !is_negative_i64(ts@),
    ensures
        r == timestamp_spec(ts@),
{
    if let Some(p) = parse_rfc3339(ts) {
        return Some(Timestamp { secs: p.0, nanos: p.1 });
    }
    if let Some(p) = parse_naive_utc(ts, "%Y-%m-%dT%H:%M:%S") {
        return Some(Timestamp { secs: p.0, nanos: p.1 });
    }
    if let Some(p) = parse_naive_utc(ts, "%Y-%m-%d %H:%M:%S") {
        return Some(Timestamp { secs: p.0, nanos: p.1 });
    }
    match parse_i64(ts) {
        Some(v) => Some(Timestamp { secs: v, nanos: 0 }),
        None => None,
    }
}

// ─── Severities ──────────────────────────────────────────────────────

/// The text that `str::to_uppercase` gives for `s` (full Unicode case
/// mapping).
pub uninterp spec fn uppercase(s: Seq<char>) -> Seq<char>;

/// Whether every character of `s` is ASCII.
pub open spec fn all_ascii(s: Seq<char>) -> bool {
    forall|i: int| 0 <= i < s.len() ==> (#[trigger] s[i] as u32) < 128
}

/// `s` with the ASCII letters `a`–`z` turned into `A`–`Z`.
pub open spec fn ascii_upper(s: Seq<char>) -> Seq<char> {
    s.map_values(|c: char| if 'a' <= c && c <= 'z' { ((c as u32) - 32) as char } else { c })
}

/// Calls `str::to_uppercase`; its result is named [`uppercase`]. On an
/// ASCII text it maps `a`–`z` to `A`–`Z` and leaves every other
/// character as it is (the Unicode upper-case mapping of ASCII, as the
/// documentation of `str::to_uppercase` and `to_ascii_uppercase` give it).
#[verifier::external_body]
fn to_uppercase(s: &str) -> (r: String)
    ensures
        r@ == uppercase(s@),
        all_ascii(s@) ==> r@ == ascii_upper(s@),
{
    s.to_uppercase()
}

/// The severity of an upper-cased level name; unknown names are `Info`.
pub open spec fn severity_of_upper(u: Seq<char>) -> Severity {
    if u == "DEBUG"@ || u == "TRACE"@ {
        Severity::Debug
    } else if u == "INFO"@ {
        Severity::Info
    } else if u == "WARN"@ || u == "WARNING"@ {
        Severity::Warning
    } else if u == "ERROR"@ || u == "ERR"@ || u == "FATAL"@ {
        Severity::Error
    } else if u == "CRITICAL"@ || u == "CRIT"@ {
        Severity::Critical
    } else {
        Severity::Info
    }
}

fn is(u: &String, name: &str) -> (r: bool)
    ensures
        r == (u@ == name@),
{
    *u == String::from_str(name)
}

/// Maps a log level to a severity, ignoring case.
pub fn parse_severity(level: &str) -> (r: Severity)
    ensures
        r == severity_of_upper(uppercase(level@)),
        all_ascii(level@) ==> r == severity_of_upper(ascii_upper(level@)),
{
    let u = to_uppercase(level);
    if is(&u, "DEBUG") || is(&u, "TRACE") {
        Severity::Debug
    } else if is(&u, "INFO") {
        Severity::Info
    } else if is(&u, "WARN") || is(&u, "WARNING") {
        Severity::Warning
    } else if is(&u, "ERROR") || is(&u, "ERR") || is(&u, "FATAL") {
        Severity::Error
    } else if is(&u, "CRITICAL") || is(&u, "CRIT") {
        Severity::Critical
    } else {
        Severity::Info
    }
}

/// Case does not matter to an ASCII level: upper-casing it again changes
/// nothing, so a level and its upper-cased form give the same severity,
/// and two levels that differ only in the case of their letters give the
/// same severity.
pub proof fn law_severity_ignores_case(a: Seq<char>, b: Seq<char>)
    requires
        all_ascii(a),
        all_ascii(b),
    ensures
        all_ascii(ascii_upper(a)),
        ascii_upper(ascii_upper(a)) == ascii_upper(a),
        severity_of_upper(ascii_upper(ascii_upper(a))) == severity_of_upper(ascii_upper(a)),
        ascii_upper(a) == ascii_upper(b) ==> severity_of_upper(ascii_upper(a)) == severity_of_upper(ascii_upper(b)),
{
    let u = ascii_upper(a);
    assert forall|i: int| 0 <= i < u.len() implies (#[trigger] u[i] as u32) < 128 by {
        assert((a[i] as u32) < 128);
    }
    assert(ascii_upper(u) =~= u) by {
        assert forall|i: int| 0 <= i < u.len() implies #[trigger] ascii_upper(u)[i] == u[i] by {
            let c = a[i];
            if 'a' <= c && c <= 'z' {
                assert(((c as u32) - 32) as char == u[i]);
                assert(!('a' <= u[i] && u[i] <= 'z'));
            }
        }
    }
}

// ─── Lines ───────────────────────────────────────────────────────────

/// The kind of event that a log line with this severity and message is:
/// errors for error and critical lines, resource alerts for warnings,
/// state changes for messages about a state change or a status, and
/// incoming requests otherwise.
pub open spec fn line_event_kind(severity: Severity, message: Seq<char>) -> crate::observer::EventKind {
    match severity {
        Severity::Error | Severity::Critical => crate::observer::EventKind::Error,
        Severity::Warning => crate::observer::EventKind::ResourceAlert,
        _ => if contains_seq(message, "state change"@) || contains_seq(message, "status"@) {
            crate::observer::EventKind::StateChange
        } else {
            crate::observer::EventKind::RequestIn
        },
    }
}

/// The kind of a log line's event is decided by its severity first:
/// error and critical lines are errors and warnings are resource alerts,
/// whatever their message; only lines of the other severities look at the
/// message, and are state changes exactly when it mentions a state change
/// or a status.
pub proof fn law_line_kind_follows_severity(severity: Severity, message: Seq<char>)
    ensures
        severity == Severity::Warning ==> line_event_kind(severity, message) == crate::observer::EventKind::ResourceAlert,
        (severity == Severity::Error || severity == Severity::Critical)
            ==> line_event_kind(severity, message) == crate::observer::EventKind::Error,
        (severity == Severity::Debug || severity == Severity::Info) ==> {
            &&& line_event_kind(severity, message) == crate::observer::EventKind::StateChange
                <==> (contains_seq(message, "state change"@) || contains_seq(message, "status"@))
            &&& line_event_kind(severity, message) != crate::observer::EventKind::StateChange
                ==> line_event_kind(severity, message) == crate::observer::EventKind::RequestIn
        },
        line_event_kind(severity, message) == crate::observer::EventKind::ResourceAlert
            <==> severity == Severity::Warning,
        line_event_kind(severity, message) == crate::observer::EventKind::Error
            <==> (severity == Severity::Error || severity == Severity::Critical),
{
}

/// An event read from a line of at least three fields whose level reads
/// as a warning is a resource alert, and one whose level reads as an
/// error or critical is an error, whatever the message says.
pub proof fn law_warning_lines_are_resource_alerts(line: Seq<char>, e: HostEvent)
    requires
        line_event_matches(line, e),
        splitn_space(trim(line), 4).len() >= 3,
    ensures
        e.severity == Severity::Warning ==> e.event_type@ == crate::observer::EventKind::ResourceAlert,
        (e.severity == Severity::Error || e.severity == Severity::Critical)
            ==> e.event_type@ == crate::observer::EventKind::Error,
        e.event_type@ == crate::observer::EventKind::ResourceAlert ==> e.severity == Severity::Warning,
{
    let parts = splitn_space(trim(line), 4);
    let message = if parts.len() >= 4 { parts[3] } else { Seq::<char>::empty() };
    law_line_kind_follows_severity(e.severity, message);
}

/// Whether a log line can be read without a timestamp that lies before
/// the epoch in seconds (see [`parse_timestamp`]).
pub open spec fn line_readable(line: Seq<char>) -> bool {
    let parts = splitn_space(trim(line), 4);
    parts.len() >= 3 ==> !is_negative_i64(parts[0])
}

/// What a log line says, apart from its timestamp: `None` for a blank
/// line; for a line of fewer than three fields, an `Info` event of kind
/// `Custom("log_line")` from `unknown` whose message is the whole
/// trimmed line; otherwise an event whose fields come from the first
/// three fields and whose message is the fourth (empty when missing).
pub open spec fn line_event_matches(line: Seq<char>, e: HostEvent) -> bool {
    let t = trim(line);
    let parts = splitn_space(t, 4);
    if parts.len() < 3 {
        &&& e.source@ == "unknown"@
        &&& e.event_type@ == crate::observer::EventKind::Custom("log_line"@)
        &&& e.payload@ == seq![("message"@, PayloadValueView::Text(t))]
        &&& e.severity == Severity::Info
    } else {
        let message = if parts.len() >= 4 { parts[3] } else { Seq::<char>::empty() };
        let severity = severity_of_upper(uppercase(parts[1]));
        &&& timestamp_spec(parts[0]) matches Some(ts) ==> e.timestamp == ts
        &&& e.source@ == parts[2]
        &&& e.severity == severity
        &&& e.event_type@ == line_event_kind(severity, message)
        &&& e.payload@ == seq![("message"@, PayloadValueView::Text(message))]
    }
}

/// Watches a log file. Opening and tailing the file is the caller's part.
#[derive(Debug)]
pub struct LogObserver {
    file_path: String,
    running: bool,
}

impl LogObserver {
    /// An observer of the file at `file_path`, not yet running.
    pub fn new(file_path: &str) -> (r: Self)
        ensures
            r.file_path_view() == file_path@,
            !r.is_running(),
    {
        LogObserver { file_path: String::from_str(file_path), running: false }
    }

    /// The watched file.
    pub closed spec fn file_path_view(&self) -> Seq<char> {
        self.file_path@
    }

    /// Whether the observer is running.
    pub closed spec fn is_running(&self) -> bool {
        self.running
    }

    /// The watched file.
    pub fn file_path(&self) -> (r: &str)
        ensures
            r@ == self.file_path_view(),
    {
        self.file_path.as_str()
    }

    /// Whether the observer is running.
    pub fn running(&self) -> (r: bool)
        ensures
            r == self.is_running(),
    {
        self.running
    }

    /// Marks the observer running or stopped.
    pub fn set_running(&mut self, running: bool)
        ensures
            final(self).is_running() == running,
            final(self).file_path_view() == old(self).file_path_view(),
    {
        self.running = running;
    }

    /// The channel's name.
    pub fn name(&self) -> (r: &'static str)
        ensures
            r@ == "LogObserver"@,
    {
        "LogObserver"
    }

    /// Reads one log line (see [`line_event_matches`]). A line without a
    /// readable timestamp gets the current time.
    pub fn parse_log_line(line: &str) -> (r: Option<HostEvent>)
        requires
            line_readable(line@),
        ensures
            trim(line@).len() == 0 ==> r is None,
            trim(line@).len() > 0 ==> (r matches Some(e) && line_event_matches(line@, e)),
    {
        let c = chars_of(line);
        let (lo, hi) = trim_bounds(&c);
        let ghost t = trim(line@);
        if lo == hi {
            return None;
        }
        let trimmed = line.substring_char(lo, hi);
        assert(trimmed@ == t);
        let s1 = find_space(&c, lo, hi);
        let fields = match s1 {
            None => None,
            Some(p1) => {
                let s2 = find_space(&c, p1 + 1, hi);
                match s2 {
                    None => None,
                    Some(p2) => Some((p1, p2, find_space(&c, p2 + 1, hi))),
                }
            },
        };
        proof {
            lemma_split_fields(c@, lo as int, hi as int);
        }
        match fields {
            None => {
                let payload = Payload::new().with("message", PayloadValue::Text(String::from_str(trimmed)));
                let e = HostEvent {
                    timestamp: now(),
                    source: String::from_str("unknown"),
                    event_type: EventType::Custom(String::from_str("log_line")),
                    payload,
                    severity: Severity::Info,
                };
                proof {
                    assert(e.payload@ =~= seq![("message"@, PayloadValueView::Text(t))]);
                    assert(splitn_space(t, 4).len() < 3);
                }
                Some(e)
            },
            Some((p1, p2, p3)) => {
                proof {
                    assert(first_space(t) == Some(p1 - lo));
                    assert(first_space(c@.subrange(p1 + 1, hi as int)) == Some(p2 - p1 - 1));
                    assert(splitn_space(t, 4).len() >= 3);
                    assert(splitn_space(t, 4)[0] == line@.subrange(lo as int, p1 as int));
                }
                let ts_text = line.substring_char(lo, p1);
                let level = line.substring_char(p1 + 1, p2);
                let (source_end, message) = match p3 {
                    Some(p) => (p, String::from_str(line.substring_char(p + 1, hi))),
                    None => (hi, String::new()),
                };
                let source = line.substring_char(p2 + 1, source_end);
                let timestamp = match parse_timestamp(ts_text) {
                    Some(ts) => ts,
                    None => now(),
                };
                let severity = parse_severity(level);
                let mc = chars_of(message.as_str());
                let event_type = match severity {
                    Severity::Error | Severity::Critical => EventType::Error,
                    Severity::Warning => EventType::ResourceAlert,
                    _ => {
                        let a = chars_of("state change");
                        let b = chars_of("status");
                        if contains_chars(&mc, &a) || contains_chars(&mc, &b) {
                            EventType::StateChange
                        } else {
                            EventType::RequestIn
                        }
                    },
                };
                let payload = Payload::new().with("message", PayloadValue::Text(message));
                Some(HostEvent { timestamp, source: String::from_str(source), event_type, payload, severity })
            },
        }
    }
}

/// Whether [`LogObserver::parse_log_line`] can read `line`: whether the
/// line lacks a first field that is a negative whole number of seconds.
pub fn line_is_readable(line: &str) -> (r: bool)
    ensures
        r == line_readable(line@),
{
    let c = chars_of(line);
    let (lo, hi) = trim_bounds(&c);
    let ghost t = trim(line@);
    if lo == hi {
        proof {
            assert(t.len() == 0);
            assert(first_space(t) is None);
            assert(splitn_space(t, 4) == seq![t]);
        }
        return true;
    }
    proof {
        lemma_split_fields(c@, lo as int, hi as int);
    }
    match find_space(&c, lo, hi) {
        None => true,
        Some(p1) => match find_space(&c, p1 + 1, hi) {
            None => {
                proof {
                    assert(first_space(t) == Some(p1 - lo));
                }
                true
            },
            Some(p2) => {
                proof {
                    assert(first_space(t) == Some(p1 - lo));
                    assert(first_space(c@.subrange(p1 + 1, hi as int)) == Some(p2 - p1 - 1));
                    assert(splitn_space(t, 4).len() >= 3);
                    assert(splitn_space(t, 4)[0] == line@.subrange(lo as int, p1 as int));
                }
                let ts_text = line.substring_char(lo, p1);
                match parse_i64(ts_text) {
                    Some(v) => v >= 0,
                    None => true,
                }
            },
        },
    }
}

/// How `splitn_space(trim, 4)` falls on the character positions: with
/// `t = s[lo..hi]`, the spaces found by scanning from `lo`, from after
/// the first space and from after the second give the fields.
proof fn lemma_split_fields(s: Seq<char>, lo: int, hi: int)
    requires
        0 <= lo < hi <= s.len(),
    ensures
        ({
            let t = s.subrange(lo, hi);
            let parts = splitn_space(t, 4);
            match first_space(t) {
                None => parts.len() == 1 && parts[0] == t,
                Some(i1) => {
                    let p1 = lo + i1;
                    let r1 = s.subrange(p1 + 1, hi);
                    &&& t.subrange(0, i1) == s.subrange(lo, p1)
                    &&& parts[0] == s.subrange(lo, p1)
                    &&& match first_space(r1) {
                        None => parts.len() == 2,
                        Some(i2) => {
                            let p2 = p1 + 1 + i2;
                            let r2 = s.subrange(p2 + 1, hi);
                            &&& parts[1] == s.subrange(p1 + 1, p2)
                            &&& match first_space(r2) {
                                None => parts.len() == 3 && parts[2] == r2,
                                Some(i3) => {
                                    let p3 = p2 + 1 + i3;
                                    parts.len() == 4 && parts[2] == s.subrange(p2 + 1, p3)
                                        && parts[3] == s.subrange(p3 + 1, hi)
                                },
                            }
                        },
                    }
                },
            }
        }),
{
    let t = s.subrange(lo, hi);
    match first_space(t) {
        None => {},
        Some(i1) => {
            lemma_first_space_bound(t);
            let p1 = lo + i1;
            let r1 = s.subrange(p1 + 1, hi);
            assert(t.subrange(i1 + 1, t.len() as int) =~= r1);
            assert(t.subrange(0, i1) =~= s.subrange(lo, p1));
            let parts = splitn_space(t, 4);
            assert(parts == seq![t.subrange(0, i1)] + splitn_space(r1, 3));
            match first_space(r1) {
                None => {
                    assert(splitn_space(r1, 3) == seq![r1]);
                },
                Some(i2) => {
                    lemma_first_space_bound(r1);
                    let p2 = p1 + 1 + i2;
                    let r2 = s.subrange(p2 + 1, hi);
                    assert(r1.subrange(i2 + 1, r1.len() as int) =~= r2);
                    assert(r1.subrange(0, i2) =~= s.subrange(p1 + 1, p2));
                    assert(splitn_space(r1, 3) == seq![r1.subrange(0, i2)] + splitn_space(r2, 2));
                    match first_space(r2) {
                        None => {
                            assert(splitn_space(r2, 2) == seq![r2]);
                        },
                        Some(i3) => {
                            lemma_first_space_bound(r2);
                            let p3 = p2 + 1 + i3;
                            let r3 = s.subrange(p3 + 1, hi);
                            assert(r2.subrange(i3 + 1, r2.len() as int) =~= r3);
                            assert(r2.subrange(0, i3) =~= s.subrange(p2 + 1, p3));
                            assert(splitn_space(r3, 1) == seq![r3]);
                            assert(splitn_space(r2, 2) == seq![r2.subrange(0, i3)] + splitn_space(r3, 1));
                        },
                    }
                },
            }
        },
    }
}

proof fn lemma_first_space_bound(s: Seq<char>)
    ensures
        first_space(s) matches Some(i) ==> 0 <= i < s.len() && s[i] == ' ',
    decreases s.len(),
{
    if s.len() > 0 && s[0] != ' ' {
        lemma_first_space_bound(s.drop_first());
    }
}

} // verus!

verus! {

/// `s` without leading and trailing whitespace, as `str::trim` gives it.
pub fn trim_str(s: &str) -> (r: &str)
    ensures
        r@ == trim(s@),
{
    let c = chars_of(s);
    let (lo, hi) = trim_bounds(&c);
    s.substring_char(lo, hi)
}

} // verus!
