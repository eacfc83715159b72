//! Observer — the sensing layer: the events that the host emits.
//!
//! An event records when it happened, which subsystem emitted it, what
//! kind of event it is, a structured payload and a severity.

use vstd::prelude::*;
use crate::error::{MigiError, MigiResult};

pub mod log_observer;
pub mod metrics_observer;

verus! {

/// An instant, as seconds since the Unix epoch (rounded down, so that
/// earlier instants are negative) plus nanoseconds into that second.
#[derive(Debug, Clone, Copy, PartialEq, Eq, Structural)]
pub struct Timestamp {
    pub secs: i64,
    pub nanos: u32,
}

#[verifier::external_type_specification]
#[verifier::external_body]
pub struct ExSystemTime(std::time::SystemTime);

/// Reads the system clock through `std::time::SystemTime::now`. Nothing is
/// stated of the reading: it depends on the clock.
#[verifier::external_body]
fn system_time_now() -> (r: std::time::SystemTime) {
    std::time::SystemTime::now()
}

/// Measures `t` from the Unix epoch through `SystemTime::duration_since`,
/// as `(before, seconds, nanoseconds)`. `duration_since` fails exactly when
/// `t` lies before the epoch, and its error then carries the distance, so
/// `before` tells the two cases apart; the distance is read with
/// `Duration::as_secs` and `Duration::subsec_nanos`, whose documentation
/// promises a fraction of a second below one billion. That bound is all that
/// is stated: the distance itself depends on the reading.
#[verifier::external_body]
fn since_epoch(t: std::time::SystemTime) -> (r: (bool, u64, u32))
    ensures
        r.2 < 1_000_000_000,
{
    match t.duration_since(std::time::UNIX_EPOCH) {
        Ok(d) => (false, d.as_secs(), d.subsec_nanos()),
        Err(e) => (true, e.duration().as_secs(), e.duration().subsec_nanos()),
    }
}

/// `x` held within the range of `i64`.
pub open spec fn clamp_i64(x: int) -> int {
    if x < i64::MIN {
        i64::MIN as int
    } else if x > i64::MAX {
        i64::MAX as int
    } else {
        x
    }
}

/// The instant that lies `secs` seconds and `nanos` nanoseconds after the
/// epoch (before it when `before` holds): whole seconds rounded down, so
/// that an instant before the epoch has negative seconds, and the
/// nanoseconds into that second. Seconds beyond the range of `i64` are held
/// at its bounds.
pub open spec fn clock_instant(before: bool, secs: nat, nanos: nat) -> Timestamp {
    let total: int = (secs * 1_000_000_000 + nanos) as int;
    let signed: int = if before { -total } else { total };
    Timestamp {
        secs: clamp_i64(signed / 1_000_000_000) as i64,
        nanos: (signed % 1_000_000_000) as u32,
    }
}

/// Turns a distance from the epoch (before it when `before` holds) into a
/// [`Timestamp`].
pub fn instant_from_epoch(before: bool, secs: u64, nanos: u32) -> (r: Timestamp)
    requires
        nanos < 1_000_000_000,
    ensures
        r == clock_instant(before, secs as nat, nanos as nat),
{
    let total: Ghost<int> = Ghost(secs * 1_000_000_000 + nanos);
    if !before {
        proof {
            vstd::arithmetic::div_mod::lemma_fundamental_div_mod_converse(
                total@, 1_000_000_000, secs as int, nanos as int);
        }
        let s: i64 = if secs > 9_223_372_036_854_775_807u64 { i64::MAX } else { secs as i64 };
        Timestamp { secs: s, nanos }
    } else if nanos == 0 {
        proof {
            vstd::arithmetic::div_mod::lemma_fundamental_div_mod_converse(
                -total@, 1_000_000_000, -(secs as int), 0);
        }
        let s: i64 = if secs >= 9_223_372_036_854_775_808u64 {
            i64::MIN
        } else {
            -(secs as i64)
        };
        Timestamp { secs: s, nanos: 0 }
    } else {
        proof {
            vstd::arithmetic::div_mod::lemma_fundamental_div_mod_converse(
                -total@, 1_000_000_000, -(secs as int) - 1, 1_000_000_000 - nanos);
        }
        let s: i64 = if secs > 9_223_372_036_854_775_807u64 {
            i64::MIN
        } else {
            -(secs as i64) - 1
        };
        Timestamp { secs: s, nanos: 1_000_000_000 - nanos }
    }
}

/// The current time, read from the system clock. An instant before the
/// epoch is given negative seconds.
pub fn now() -> (r: Timestamp)
    ensures
        exists|before: bool, secs: u64, nanos: u32|
            nanos < 1_000_000_000 && r == #[trigger] clock_instant(before, secs as nat, nanos as nat),
{
    let t = system_time_now();
    let (before, secs, nanos) = since_epoch(t);
    instant_from_epoch(before, secs, nanos)
}

/// The kind of an event.
#[derive(Debug, Clone)]
pub enum EventType {
    /// A request came in.
    RequestIn,
    /// A request completed.
    RequestComplete,
    /// An error happened.
    Error,
    /// A state changed.
    StateChange,
    /// A resource crossed its threshold.
    ResourceAlert,
    /// Anything else, named.
    Custom(String),
}

/// The mathematical value of an [`EventType`].
pub ghost enum EventKind {
    RequestIn,
    RequestComplete,
    Error,
    StateChange,
    ResourceAlert,
    Custom(Seq<char>),
}

impl View for EventType {
    type V = EventKind;

    open spec fn view(&self) -> EventKind {
        match self {
            EventType::RequestIn => EventKind::RequestIn,
            EventType::RequestComplete => EventKind::RequestComplete,
            EventType::Error => EventKind::Error,
            EventType::StateChange => EventKind::StateChange,
            EventType::ResourceAlert => EventKind::ResourceAlert,
            EventType::Custom(s) => EventKind::Custom(s@),
        }
    }
}

impl EventType {
    /// Whether two event types are the same kind (and, for custom ones,
    /// carry the same name).
    pub fn same_kind(&self, other: &EventType) -> (r: bool)
        ensures
            r == (self@ == other@),
    {
        match self {
            EventType::RequestIn => match other {
                EventType::RequestIn => true,
                _ => false,
            },
            EventType::RequestComplete => match other {
                EventType::RequestComplete => true,
                _ => false,
            },
            EventType::Error => match other {
                EventType::Error => true,
                _ => false,
            },
            EventType::StateChange => match other {
                EventType::StateChange => true,
                _ => false,
            },
            EventType::ResourceAlert => match other {
                EventType::ResourceAlert => true,
                _ => false,
            },
            EventType::Custom(a) => match other {
                EventType::Custom(b) => *a == *b,
                _ => false,
            },
        }
    }

    /// A copy of this event type.
    pub fn copy(&self) -> (r: EventType)
        ensures
            r@ == self@,
    {
        match self {
            EventType::RequestIn => EventType::RequestIn,
            EventType::RequestComplete => EventType::RequestComplete,
            EventType::Error => EventType::Error,
            EventType::StateChange => EventType::StateChange,
            EventType::ResourceAlert => EventType::ResourceAlert,
            EventType::Custom(s) => EventType::Custom(s.clone()),
        }
    }
}

/// How serious an event is, from least to most.
#[derive(Debug, Clone, Copy, PartialEq, Eq, Structural)]
pub enum Severity {
    Debug,
    Info,
    Warning,
    Error,
    Critical,
}

/// One value of an event's payload. Fractional numbers are fixed-point
/// millionths; `Json` carries an arbitrary JSON document as its text.
#[derive(Debug, Clone)]
pub enum PayloadValue {
    Bool(bool),
    Int(i64),
    Fixed(i64),
    Text(String),
    Json(String),
}

/// The mathematical value of a [`PayloadValue`].
pub ghost enum PayloadValueView {
    Bool(bool),
    Int(int),
    Fixed(int),
    Text(Seq<char>),
    Json(Seq<char>),
}

impl View for PayloadValue {
    type V = PayloadValueView;

    open spec fn view(&self) -> PayloadValueView {
        match self {
            PayloadValue::Bool(b) => PayloadValueView::Bool(*b),
            PayloadValue::Int(i) => PayloadValueView::Int(*i as int),
            PayloadValue::Fixed(i) => PayloadValueView::Fixed(*i as int),
            PayloadValue::Text(s) => PayloadValueView::Text(s@),
            PayloadValue::Json(s) => PayloadValueView::Json(s@),
        }
    }
}

impl PayloadValue {
    /// The value as an integer, if it is one.
    pub fn as_i64(&self) -> (r: Option<i64>)
        ensures
            r == (match self@ {
                PayloadValueView::Int(i) => Some(i as i64),
                _ => None,
            }),
    {
        match self {
            PayloadValue::Int(i) => Some(*i),
            _ => None,
        }
    }

    /// The value as a boolean, if it is one.
    pub fn as_bool(&self) -> (r: Option<bool>)
        ensures
            r == (match self@ {
                PayloadValueView::Bool(b) => Some(b),
                _ => None,
            }),
    {
        match self {
            PayloadValue::Bool(b) => Some(*b),
            _ => None,
        }
    }
}

/// An event's payload: named values, in order.
#[derive(Debug, Clone)]
pub struct Payload {
    pub entries: Vec<(String, PayloadValue)>,
}

impl View for Payload {
    type V = Seq<(Seq<char>, PayloadValueView)>;

    open spec fn view(&self) -> Seq<(Seq<char>, PayloadValueView)> {
        self.entries@.map_values(|e: (String, PayloadValue)| (e.0@, e.1@))
    }
}

/// The index of the first entry named `key`, if any.
pub open spec fn first_entry_index(entries: Seq<(Seq<char>, PayloadValueView)>, key: Seq<char>) -> Option<int>
    decreases entries.len(),
{
    if entries.len() == 0 {
        None
    } else if entries.last().0 == key && first_entry_index(entries.drop_last(), key) is None {
        Some(entries.len() - 1)
    } else {
        first_entry_index(entries.drop_last(), key)
    }
}

impl Payload {
    /// A payload with no entries.
    pub fn new() -> (r: Payload)
        ensures
            r@ == Seq::<(Seq<char>, PayloadValueView)>::empty(),
    {
        Payload { entries: Vec::new() }
    }

    /// Appends the entry `key: value`.
    pub fn with(self, key: &str, value: PayloadValue) -> (r: Payload)
        ensures
            r@ == self@.push((key@, value@)),
    {
        let mut entries = self.entries;
        let ghost old_entries = entries@;
        entries.push((String::from_str(key), value));
        let r = Payload { entries };
        assert(r@ =~= self@.push((key@, value@)));
        r
    }

    /// The value of the first entry named `key`.
    pub fn get(&self, key: &str) -> (r: Option<&PayloadValue>)
        ensures
            match first_entry_index(self@, key@) {
                None => r is None,
                Some(i) => r matches Some(v) && v@ == self@[i].1,
            },
    {
        let k = String::from_str(key);
        let mut i: usize = 0;
        while i < self.entries.len()
            invariant
                0 <= i <= self.entries@.len(),
                k@ == key@,
                first_entry_index(self@.take(i as int), key@) is None,
            decreases self.entries@.len() - i,
        {
            assert(self@.take(i as int + 1).drop_last() =~= self@.take(i as int));
            if self.entries[i].0 == k {
                proof {
                    lemma_first_entry_prefix(self@, key@, i as int);
                }
                return Some(&self.entries[i].1);
            }
            i = i + 1;
        }
        assert(self@.take(i as int) =~= self@);
        None
    }
}

/// Once the prefix up to `i` has no entry named `key` and entry `i` has
/// that name, entry `i` is the first one.
pub proof fn lemma_first_entry_prefix(entries: Seq<(Seq<char>, PayloadValueView)>, key: Seq<char>, i: int)
    requires
        0 <= i < entries.len(),
        first_entry_index(entries.take(i), key) is None,
        entries[i].0 == key,
    ensures
        first_entry_index(entries, key) == Some(i),
    decreases entries.len(),
{
    if i == entries.len() - 1 {
        assert(entries.drop_last() =~= entries.take(i));
    } else {
        assert(entries.drop_last().take(i) =~= entries.take(i));
        lemma_first_entry_prefix(entries.drop_last(), key, i);
    }
}

/// An event emitted by the host.
#[derive(Debug, Clone)]
pub struct HostEvent {
    /// When it happened.
    pub timestamp: Timestamp,
    /// The subsystem or module that emitted it.
    pub source: String,
    /// What kind of event it is.
    pub event_type: EventType,
    /// Structured data.
    pub payload: Payload,
    /// How serious it is.
    pub severity: Severity,
}

/// Counts the events that the observation channels yield, one poll of
/// each channel at a time.
#[derive(Debug)]
pub struct EventTally {
    count: u64,
}

impl EventTally {
    /// Events counted so far.
    pub closed spec fn count_spec(&self) -> nat {
        self.count as nat
    }

    /// A tally of zero.
    pub fn new() -> (r: Self)
        ensures
            r.count_spec() == 0,
    {
        EventTally { count: 0 }
    }

    /// Events counted so far.
    pub fn event_count(&self) -> (r: u64)
        ensures
            r == self.count_spec(),
    {
        self.count
    }

    /// Takes one channel's answer to a poll: an event is kept at the end
    /// of `events` and counted, no event leaves things as they are, and
    /// an error is handed back, ending the round.
    pub fn take(&mut self, answer: MigiResult<Option<HostEvent>>, events: &mut Vec<HostEvent>) -> (r: MigiResult<()>)
        requires
            old(self).count_spec() < u64::MAX,
        ensures
            match answer {
                Ok(Some(e)) => r is Ok && final(events)@ == old(events)@.push(e)
                    && final(self).count_spec() == old(self).count_spec() + 1,
                Ok(None) => r is Ok && final(events)@ == old(events)@
                    && final(self).count_spec() == old(self).count_spec(),
                Err(e) => r == Err::<(), MigiError>(e) && final(events)@ == old(events)@
                    && final(self).count_spec() == old(self).count_spec(),
            },
    {
        match answer {
            Ok(Some(e)) => {
                self.count = self.count + 1;
                events.push(e);
                Ok(())
            },
            Ok(None) => Ok(()),
            Err(e) => Err(e),
        }
    }
}

} // verus!
