//! Monitor — snapshots of the agent's state and a bounded history of
//! them, for the status tools.
//!
//! Reading the clock and the files is the caller's part; a snapshot is
//! taken from the phase, the trust state, the model and the two times the
//! caller read.

use vstd::prelude::*;
use crate::config::SymbiosisPhase;
use crate::fixed::{Fraction, SCALE, frac_den, frac_num};
use crate::learner::SystemModel;
use crate::sandbox::{phase_name, phase_name_spec};
use crate::text::{decimal, push_decimal, views};
use crate::trust::TrustState;

verus! {

/// One snapshot of the agent. Accuracy and entropy are in millionths;
/// the trust score is the exact share of successes.
#[derive(Debug, Clone)]
pub struct MigiSnapshot {
    /// Unix seconds when the snapshot was taken.
    pub timestamp: u64,
    pub phase: String,
    pub trust_score: Fraction,
    pub successful_interventions: u64,
    pub failed_interventions: u64,
    pub model_version: u64,
    pub observed_events: u64,
    pub model_accuracy: u64,
    pub model_entropy: u64,
    pub identified_patterns: usize,
    pub identified_subsystems: usize,
    /// Names of the subsystems recognized.
    pub subsystems: Vec<String>,
    pub uptime_secs: u64,
}

/// `s` padded on the left with spaces to at least `width` characters.
pub open spec fn pad_left(s: Seq<char>, width: nat) -> Seq<char> {
    if s.len() >= width {
        s
    } else {
        Seq::new((width - s.len()) as nat, |i: int| ' ') + s
    }
}

/// The three decimal digits of `n < 1000`, with leading zeros.
pub open spec fn three_digits(n: nat) -> Seq<char> {
    seq![
        crate::text::digit_char(n / 100),
        crate::text::digit_char((n / 10) % 10),
        crate::text::digit_char(n % 10),
    ]
}

/// `n / d` in thousandths, rounded to the nearest, ties to even (as
/// `{:.3}` rounds a number that lies exactly halfway).
pub open spec fn rounded_thousandths(n: int, d: int) -> int {
    let q = (1000 * n) / d;
    let rem = 1000 * n - q * d;
    if 2 * rem > d || (2 * rem == d && q % 2 == 1) { q + 1 } else { q }
}

/// A fraction written with three decimals (see [`rounded_thousandths`]).
pub open spec fn fixed3(f: Fraction) -> Seq<char> {
    let q = rounded_thousandths(frac_num(f), frac_den(f));
    decimal((q / 1000) as nat) + seq!['.'] + three_digits((q % 1000) as nat)
}

/// The one-line summary of a snapshot.
pub open spec fn summary_spec(s: MigiSnapshot) -> Seq<char> {
    "["@ + pad_left(decimal(s.uptime_secs as nat), 7) + "s] "@ + s.phase@
        + " | events="@ + decimal(s.observed_events as nat)
        + " | acc="@ + fixed3(Fraction { num: s.model_accuracy, den: SCALE })
        + " | trust="@ + fixed3(s.trust_score)
        + " | patterns="@ + decimal(s.identified_patterns as nat)
        + " | subsys="@ + decimal(s.identified_subsystems as nat)
}

/// Appends `s` padded on the left with spaces to `width` characters.
fn push_padded(out: &mut String, s: &str, width: usize)
    ensures
        final(out)@ == old(out)@ + pad_left(s@, width as nat),
{
    let n = s.unicode_len();
    let mut pad = String::new();
    let mut i: usize = n;
    while i < width
        invariant
            n == s@.len(),
            n <= i <= width || (i == n && n >= width),
            pad@ == Seq::new((i - n) as nat, |k: int| ' '),
        decreases width - i,
    {
        pad.append(" ");
        proof {
            reveal_strlit(" ");
        }
        assert(pad@ =~= Seq::new((i + 1 - n) as nat, |k: int| ' '));
        i = i + 1;
    }
    if n >= width {
        assert(pad@ =~= Seq::<char>::empty());
    }
    out.append(pad.as_str());
    out.append(s);
    assert(old(out)@ + pad_left(s@, width as nat) =~= old(out)@ + pad@ + s@);
}

/// Appends a fraction with three decimals.
fn push_fixed3(out: &mut String, f: Fraction)
    ensures
        final(out)@ == old(out)@ + fixed3(f),
{
    let n: u128 = if f.den == 0 { 0 } else { f.num as u128 };
    let d: u128 = if f.den == 0 { 1 } else { f.den as u128 };
    assert(n == frac_num(f) && d == frac_den(f));
    let q: u128 = (1000 * n) / d;
    proof {
        assert(q * d <= 1000 * n && 1000 * n < q * d + d) by (nonlinear_arith)
            requires
                q == (1000 * n) as int / d as int,
                d > 0,
        ;
        assert(q <= 1000 * n) by (nonlinear_arith)
            requires
                q * d <= 1000 * n,
                d >= 1,
        ;
    }
    let rem: u128 = 1000 * n - q * d;
    let q2: u128 = if 2 * rem > d || (2 * rem == d && q % 2 == 1) { q + 1 } else { q };
    assert(q2 == rounded_thousandths(n as int, d as int));
    assert(q2 / 1000 <= n) by (nonlinear_arith)
        requires
            q2 <= 1000 * n + 1,
    ;
    push_decimal(out, (q2 / 1000) as u64);
    out.append(".");
    let frac: u64 = (q2 % 1000) as u64;
    let mut digits = String::new();
    push_decimal(&mut digits, frac / 100);
    push_decimal(&mut digits, (frac / 10) % 10);
    push_decimal(&mut digits, frac % 10);
    proof {
        reveal_strlit(".");
        reveal_with_fuel(decimal, 2);
    }
    out.append(digits.as_str());
    assert(digits@ =~= three_digits((q2 % 1000) as nat));
    assert(out@ =~= old(out)@ + fixed3(f));
}

/// Whether `r` is the snapshot of this phase, trust state, model and
/// subsystem names at `timestamp`, `uptime_secs` after the start.
pub open spec fn snapshot_of(
    r: MigiSnapshot,
    phase: SymbiosisPhase,
    trust: TrustState,
    model: SystemModel,
    subsystems: Seq<Seq<char>>,
    timestamp: u64,
    uptime_secs: u64,
) -> bool {
    &&& r.timestamp == timestamp
    &&& r.phase@ == phase_name_spec(phase)
    &&& r.trust_score == trust.trust_score
    &&& r.successful_interventions == trust.successful_interventions
    &&& r.failed_interventions == trust.failed_interventions
    &&& r.model_version == model.version
    &&& r.observed_events == model.observed_events
    &&& r.model_accuracy == model.prediction_accuracy
    &&& r.model_entropy == model.model_entropy
    &&& r.identified_patterns == model.identified_patterns
    &&& r.identified_subsystems == model.identified_subsystems
    &&& views(r.subsystems@) == subsystems
    &&& r.uptime_secs == uptime_secs
}

/// A snapshot copies its sources field for field: the model's accuracy
/// and entropy, events, patterns, subsystems and version; the trust
/// score and counts; the names; and the two times it was given.
pub proof fn law_snapshot_copies_fields(
    r: MigiSnapshot,
    phase: SymbiosisPhase,
    trust: TrustState,
    model: SystemModel,
    subsystems: Seq<Seq<char>>,
    timestamp: u64,
    uptime_secs: u64,
)
    requires
        snapshot_of(r, phase, trust, model, subsystems, timestamp, uptime_secs),
    ensures
        r.model_accuracy == model.prediction_accuracy,
        r.model_entropy == model.model_entropy,
        r.observed_events == model.observed_events,
        r.model_version == model.version,
        r.identified_patterns == model.identified_patterns,
        r.identified_subsystems == model.identified_subsystems,
        r.trust_score == trust.trust_score,
        r.successful_interventions == trust.successful_interventions,
        r.failed_interventions == trust.failed_interventions,
        views(r.subsystems@) == subsystems,
        r.timestamp == timestamp,
        r.uptime_secs == uptime_secs,
{
}

/// A copy of a list of strings.
fn copy_strings(v: &Vec<String>) -> (r: Vec<String>)
    ensures
        views(r@) == views(v@),
{
    let mut r: Vec<String> = Vec::new();
    let mut i: usize = 0;
    while i < v.len()
        invariant
            0 <= i <= v@.len(),
            r@.len() == i,
            forall|j: int| 0 <= j < i ==> #[trigger] r@[j]@ == v@[j]@,
        decreases v@.len() - i,
    {
        r.push(v[i].clone());
        i = i + 1;
    }
    assert(views(r@) =~= views(v@));
    r
}

/// `s` padded on the right with spaces to at least `width` characters.
pub open spec fn pad_right(s: Seq<char>, width: nat) -> Seq<char> {
    if s.len() >= width {
        s
    } else {
        s + Seq::new((width - s.len()) as nat, |i: int| ' ')
    }
}

/// Names joined with `", "` between them.
pub open spec fn joined(names: Seq<Seq<char>>) -> Seq<char>
    decreases names.len(),
{
    if names.len() == 0 {
        Seq::empty()
    } else if names.len() == 1 {
        names[0]
    } else {
        joined(names.drop_last()) + ", "@ + names.last()
    }
}

/// The subsystem names as the status box lists them: all of them when
/// there are at most five, else the first five followed by `...`.
pub open spec fn subsystem_list(names: Seq<Seq<char>>) -> Seq<char> {
    if names.len() <= 5 {
        joined(names)
    } else {
        joined(names.take(5)) + "..."@
    }
}

/// The status box of a snapshot: phase, uptime and when the snapshot was
/// taken; the model's events, accuracy, entropy, patterns, subsystems and
/// version; the trust score, successes and failures.
pub open spec fn format_spec(s: MigiSnapshot) -> Seq<char> {
    "╔══════════════════════════════════════╗\n║         🦁 Migi Status            ║\n╠══════════════════════════════════════╣\n║  Phase:        "@
        + pad_right(s.phase@, 20)
        + " ║\n║  Uptime:       "@
        + pad_left(decimal(s.uptime_secs as nat), 7)
        + "s              ║\n║  Snapshot:     "@
        + pad_right(decimal(s.timestamp as nat) + "s ago"@, 20)
        + " ║\n╠══════════════════════════════════════╣\n║  📊 Model                            ║\n║    Events:      "@
        + pad_left(decimal(s.observed_events as nat), 9)
        + "              ║\n║    Accuracy:    "@
        + fixed3(Fraction { num: s.model_accuracy, den: SCALE })
        + "                 ║\n║    Entropy:     "@
        + fixed3(Fraction { num: s.model_entropy, den: SCALE })
        + "                 ║\n║    Patterns:    "@
        + pad_left(decimal(s.identified_patterns as nat), 6)
        + "                ║\n║    Subsystems:  "@
        + pad_left(decimal(s.identified_subsystems as nat), 2)
        + " ("@
        + subsystem_list(views(s.subsystems@))
        + ")   ║\n║    Version:     "@
        + pad_left(decimal(s.model_version as nat), 9)
        + "              ║\n╠══════════════════════════════════════╣\n║  🛡️ Trust                            ║\n║    Score:       "@
        + fixed3(s.trust_score)
        + "                 ║\n║    Successes:   "@
        + pad_left(decimal(s.successful_interventions as nat), 9)
        + "              ║\n║    Failures:    "@
        + pad_left(decimal(s.failed_interventions as nat), 9)
        + "              ║\n╚══════════════════════════════════════╝"@
}

/// Appends `s` padded on the right with spaces to `width` characters.
fn push_padded_right(out: &mut String, s: &str, width: usize)
    ensures
        final(out)@ == old(out)@ + pad_right(s@, width as nat),
{
    let n = s.unicode_len();
    out.append(s);
    let ghost base = out@;
    let mut i: usize = n;
    while i < width
        invariant
            n == s@.len(),
            n <= i <= width || (i == n && n >= width),
            out@ == base + Seq::new((i - n) as nat, |k: int| ' '),
        decreases width - i,
    {
        out.append(" ");
        proof {
            reveal_strlit(" ");
        }
        assert(out@ =~= base + Seq::new((i + 1 - n) as nat, |k: int| ' '));
        i = i + 1;
    }
    if n >= width {
        assert(out@ =~= base);
    }
    assert(old(out)@ + pad_right(s@, width as nat) =~= out@);
}

/// Appends the decimal digits of `n` padded on the left to `width`.
fn push_number_padded(out: &mut String, n: u64, width: usize)
    ensures
        final(out)@ == old(out)@ + pad_left(decimal(n as nat), width as nat),
{
    let mut d = String::new();
    push_decimal(&mut d, n);
    assert(d@ =~= decimal(n as nat));
    push_padded(out, d.as_str(), width);
}

/// Appends the first `n` names, joined with `", "`.
fn push_joined(out: &mut String, names: &Vec<String>, n: usize)
    requires
        n <= names@.len(),
    ensures
        final(out)@ == old(out)@ + joined(views(names@).take(n as int)),
{
    let ghost all = views(names@);
    let mut i: usize = 0;
    assert(all.take(0) =~= Seq::<Seq<char>>::empty());
    while i < n
        invariant
            0 <= i <= n,
            n <= names@.len(),
            all == views(names@),
            out@ == old(out)@ + joined(all.take(i as int)),
        decreases n - i,
    {
        let ghost before = out@;
        if i > 0 {
            out.append(", ");
        }
        out.append(names[i].as_str());
        proof {
            let t = all.take(i as int + 1);
            assert(t.drop_last() =~= all.take(i as int));
            assert(t.last() == names@[i as int]@);
            if i == 0 {
                assert(joined(all.take(0)) =~= Seq::<char>::empty());
                assert(out@ =~= old(out)@ + joined(t));
            } else {
                assert(out@ =~= old(out)@ + joined(t));
            }
        }
        i = i + 1;
    }
}

/// Appends the subsystem list (see [`subsystem_list`]).
fn push_subsystem_list(out: &mut String, names: &Vec<String>)
    ensures
        final(out)@ == old(out)@ + subsystem_list(views(names@)),
{
    if names.len() <= 5 {
        push_joined(out, names, names.len());
        assert(views(names@).take(names@.len() as int) =~= views(names@));
    } else {
        push_joined(out, names, 5);
        out.append("...");
        assert(out@ =~= old(out)@ + subsystem_list(views(names@)));
    }
}

impl MigiSnapshot {
    /// A snapshot of the phase, trust and model, with the names of the
    /// subsystems recognized, at `timestamp` (Unix seconds), `uptime_secs`
    /// after the agent started.
    pub fn take(
        phase: SymbiosisPhase,
        trust: &TrustState,
        model: &SystemModel,
        subsystems: &Vec<String>,
        timestamp: u64,
        uptime_secs: u64,
    ) -> (r: Self)
        ensures
            snapshot_of(r, phase, *trust, *model, views(subsystems@), timestamp, uptime_secs),
            r.timestamp == timestamp,
            r.uptime_secs == uptime_secs,
            r.trust_score == trust.trust_score,
            r.successful_interventions == trust.successful_interventions,
            r.failed_interventions == trust.failed_interventions,
            r.model_version == model.version,
            r.observed_events == model.observed_events,
            r.model_accuracy == model.prediction_accuracy,
            r.model_entropy == model.model_entropy,
            r.identified_patterns == model.identified_patterns,
            r.identified_subsystems == model.identified_subsystems,
            views(r.subsystems@) == views(subsystems@),
    {
        MigiSnapshot {
            timestamp,
            phase: phase_name(phase),
            trust_score: trust.trust_score,
            successful_interventions: trust.successful_interventions,
            failed_interventions: trust.failed_interventions,
            model_version: model.version,
            observed_events: model.observed_events,
            model_accuracy: model.prediction_accuracy,
            model_entropy: model.model_entropy,
            identified_patterns: model.identified_patterns,
            identified_subsystems: model.identified_subsystems,
            subsystems: copy_strings(subsystems),
            uptime_secs,
        }
    }

    /// The one-line summary: uptime, phase, events, accuracy, trust,
    /// patterns and subsystems.
    pub fn summary(&self) -> (r: String)
        ensures
            r@ == summary_spec(*self),
    {
        let mut r = String::from_str("[");
        let mut up = String::new();
        push_decimal(&mut up, self.uptime_secs);
        push_padded(&mut r, up.as_str(), 7);
        r.append("s] ");
        r.append(self.phase.as_str());
        r.append(" | events=");
        push_decimal(&mut r, self.observed_events);
        r.append(" | acc=");
        push_fixed3(&mut r, Fraction { num: self.model_accuracy, den: SCALE });
        r.append(" | trust=");
        push_fixed3(&mut r, self.trust_score);
        r.append(" | patterns=");
        push_decimal(&mut r, self.identified_patterns as u64);
        r.append(" | subsys=");
        push_decimal(&mut r, self.identified_subsystems as u64);
        r
    }

    /// The status box (see [`format_spec`]). The snapshot's time is read
    /// as an instant after the epoch, so it must lie within the range of
    /// instants that the system clock can hold.
    pub fn format(&self) -> (r: String)
        requires
            self.timestamp <= i64::MAX,
        ensures
            r@ == format_spec(*self),
    {
        let mut r = String::from_str("╔══════════════════════════════════════╗\n║         🦁 Migi Status            ║\n╠══════════════════════════════════════╣\n║  Phase:        ");
        push_padded_right(&mut r, self.phase.as_str(), 20);
        r.append(" ║\n║  Uptime:       ");
        let mut up = String::new();
        push_decimal(&mut up, self.uptime_secs);
        push_padded(&mut r, up.as_str(), 7);
        r.append("s              ║\n║  Snapshot:     ");
        let mut age = String::new();
        push_decimal(&mut age, self.timestamp);
        age.append("s ago");
        push_padded_right(&mut r, age.as_str(), 20);
        r.append(" ║\n╠══════════════════════════════════════╣\n║  📊 Model                            ║\n║    Events:      ");
        push_number_padded(&mut r, self.observed_events, 9);
        r.append("              ║\n║    Accuracy:    ");
        push_fixed3(&mut r, Fraction { num: self.model_accuracy, den: SCALE });
        r.append("                 ║\n║    Entropy:     ");
        push_fixed3(&mut r, Fraction { num: self.model_entropy, den: SCALE });
        r.append("                 ║\n║    Patterns:    ");
        push_number_padded(&mut r, self.identified_patterns as u64, 6);
        r.append("                ║\n║    Subsystems:  ");
        push_number_padded(&mut r, self.identified_subsystems as u64, 2);
        r.append(" (");
        push_subsystem_list(&mut r, &self.subsystems);
        r.append(")   ║\n║    Version:     ");
        push_number_padded(&mut r, self.model_version, 9);
        r.append("              ║\n╠══════════════════════════════════════╣\n║  🛡️ Trust                            ║\n║    Score:       ");
        push_fixed3(&mut r, self.trust_score);
        r.append("                 ║\n║    Successes:   ");
        push_number_padded(&mut r, self.successful_interventions, 9);
        r.append("              ║\n║    Failures:    ");
        push_number_padded(&mut r, self.failed_interventions, 9);
        r.append("              ║\n╚══════════════════════════════════════╝");
        r
    }
}

// ─── The bounded history ─────────────────────────────────────────────

/// The history after one push: the oldest entry leaves when the history
/// is at capacity.
pub open spec fn pushed<A>(h: Seq<A>, capacity: nat, s: A) -> Seq<A> {
    if h.len() >= capacity {
        h.drop_first().push(s)
    } else {
        h.push(s)
    }
}

/// The history after pushing each of `xs` in turn.
pub open spec fn pushed_all<A>(h: Seq<A>, capacity: nat, xs: Seq<A>) -> Seq<A>
    decreases xs.len(),
{
    if xs.len() == 0 {
        h
    } else {
        pushed(pushed_all(h, capacity, xs.drop_last()), capacity, xs.last())
    }
}

/// The last `n` entries of `s` (all of them when there are fewer).
pub open spec fn latest<A>(s: Seq<A>, n: nat) -> Seq<A> {
    if s.len() <= n {
        s
    } else {
        s.skip(s.len() - n)
    }
}

/// A history that holds no more than `capacity` entries keeps, after any
/// number of pushes, exactly the latest `capacity` of everything it held
/// and everything pushed, oldest first.
pub proof fn law_history_keeps_latest<A>(h: Seq<A>, capacity: nat, xs: Seq<A>)
    requires
        capacity > 0,
        h.len() <= capacity,
    ensures
        pushed_all(h, capacity, xs) == latest(h + xs, capacity),
        pushed_all(h, capacity, xs).len() <= capacity,
    decreases xs.len(),
{
    if xs.len() > 0 {
        let init = xs.drop_last();
        law_history_keeps_latest(h, capacity, init);
        let before = latest(h + init, capacity);
        assert(h + xs =~= (h + init).push(xs.last()));
        let all = h + xs;
        if (h + init).len() >= capacity {
            assert(before.len() == capacity);
            assert(before.drop_first().push(xs.last()) =~= all.skip(all.len() - capacity));
        } else {
            assert(before =~= h + init);
            if all.len() > capacity {
                assert(all.len() == capacity + 1);
            }
        }
    }
}

/// The latest snapshots, up to a capacity.
#[derive(Debug, Clone)]
pub struct MonitorHistory {
    pub snapshots: Vec<MigiSnapshot>,
    pub capacity: usize,
}

impl MonitorHistory {
    /// An empty history that keeps up to `capacity` snapshots.
    pub fn new(capacity: usize) -> (r: Self)
        ensures
            r.snapshots@.len() == 0,
            r.capacity == capacity,
    {
        MonitorHistory { snapshots: Vec::new(), capacity }
    }

    /// Appends a snapshot, dropping the oldest one first when the history
    /// is at capacity. (With no capacity and no snapshot there is nothing
    /// to drop, which the caller must not ask.)
    pub fn push(&mut self, snapshot: MigiSnapshot)
        requires
            old(self).capacity > 0 || old(self).snapshots@.len() > 0,
        ensures
            final(self).capacity == old(self).capacity,
            final(self).snapshots@ == pushed(old(self).snapshots@, old(self).capacity as nat, snapshot),
    {
        if self.snapshots.len() >= self.capacity {
            self.snapshots.remove(0);
        }
        self.snapshots.push(snapshot);
        assert(self.snapshots@ =~= pushed(old(self).snapshots@, old(self).capacity as nat, snapshot));
    }
}

} // verus!
