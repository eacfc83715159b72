//! Learner — the cognitive layer: counts the host's event patterns and
//! keeps a model of how well it knows the host.
//!
//! The statistical learner counts events per pattern (source and event
//! kind). How accurate the model is, given how many events it has seen,
//! is an accuracy curve that the caller supplies.

use vstd::prelude::*;
use crate::error::{MigiError, MigiResult};
use crate::fixed::{Fraction, SCALE};
use crate::observer::{EventKind, EventType, HostEvent};

verus! {

/// What the learner knows of the host. Accuracy and entropy are in
/// millionths.
#[derive(Debug, Clone, Copy, PartialEq, Eq, Structural)]
pub struct SystemModel {
    /// Bumped on every update.
    pub version: u64,
    /// Events seen so far.
    pub observed_events: u64,
    /// How well the model predicts the host, `0..=SCALE`.
    pub prediction_accuracy: u64,
    /// How unsure the model is, `0..=SCALE` (lower is more certain).
    pub model_entropy: u64,
    /// Subsystems recognized.
    pub identified_subsystems: usize,
    /// Distinct event patterns recognized.
    pub identified_patterns: usize,
}

/// Whether a model with this accuracy is reliable under this threshold:
/// `accuracy >= 1 - threshold`.
pub open spec fn reliable(accuracy: int, threshold: int) -> bool {
    accuracy + threshold >= SCALE
}

/// The model before any event: every field zero.
pub open spec fn empty_model() -> SystemModel {
    SystemModel {
        version: 0,
        observed_events: 0,
        prediction_accuracy: 0,
        model_entropy: 0,
        identified_subsystems: 0,
        identified_patterns: 0,
    }
}

impl SystemModel {
    /// The empty model: every field zero.
    pub fn new() -> (r: Self)
        ensures
            r == empty_model(),
    {
        SystemModel {
            version: 0,
            observed_events: 0,
            prediction_accuracy: 0,
            model_entropy: 0,
            identified_subsystems: 0,
            identified_patterns: 0,
        }
    }

    /// Whether the model is reliable enough for a phase transition:
    /// its accuracy is at least `1 - threshold` (threshold in millionths).
    pub fn is_reliable(&self, threshold: i64) -> (r: bool)
        ensures
            r == reliable(self.prediction_accuracy as int, threshold as int),
    {
        let acc = self.prediction_accuracy as i128;
        acc + (threshold as i128) >= SCALE as i128
    }
}

impl Default for SystemModel {
    fn default() -> (r: Self)
        ensures
            r == empty_model(),
    {
        SystemModel::new()
    }
}

/// An event pattern: which subsystem emitted which kind of event.
#[derive(Debug, Clone)]
pub struct Pattern {
    pub source: String,
    pub event_type: EventType,
}

impl View for Pattern {
    type V = (Seq<char>, EventKind);

    open spec fn view(&self) -> (Seq<char>, EventKind) {
        (self.source@, self.event_type@)
    }
}

/// The pattern of an event.
pub open spec fn event_pattern(e: HostEvent) -> (Seq<char>, EventKind) {
    (e.source@, e.event_type@)
}

/// How many of `events` have pattern `k`.
pub open spec fn occurrences(events: Seq<HostEvent>, k: (Seq<char>, EventKind)) -> nat
    decreases events.len(),
{
    if events.len() == 0 {
        0
    } else {
        occurrences(events.drop_last(), k) + if event_pattern(events.last()) == k { 1nat } else { 0nat }
    }
}

/// The count recorded for pattern `k` (zero when it was never seen).
pub open spec fn count_of(keys: Seq<(Seq<char>, EventKind)>, counts: Seq<u64>, k: (Seq<char>, EventKind)) -> nat
    decreases keys.len(),
{
    if keys.len() == 0 || counts.len() == 0 {
        0
    } else if keys.last() == k {
        counts.last() as nat
    } else {
        count_of(keys.drop_last(), counts.drop_last(), k)
    }
}

/// The sum of the counts.
pub open spec fn sum_counts(counts: Seq<u64>) -> nat
    decreases counts.len(),
{
    if counts.len() == 0 {
        0
    } else {
        sum_counts(counts.drop_last()) + counts.last() as nat
    }
}

/// Whether `srcs` lists, each once, exactly the sources of the patterns
/// in `keys`.
pub open spec fn sources_match(keys: Seq<(Seq<char>, EventKind)>, srcs: Seq<Seq<char>>) -> bool {
    &&& forall|i: int, j: int| 0 <= i < j < srcs.len() ==> srcs[i] != srcs[j]
    &&& forall|x: Seq<char>| #[trigger] srcs.contains(x)
        <==> exists|i: int| 0 <= i < keys.len() && #[trigger] keys[i].0 == x
}

/// How many of `events` have a pattern that is not among `seen`.
pub open spec fn unseen_count(events: Seq<HostEvent>, seen: Seq<(Seq<char>, EventKind)>) -> nat
    decreases events.len(),
{
    if events.len() == 0 {
        0
    } else {
        unseen_count(events.drop_last(), seen) + if seen.contains(event_pattern(events.last())) { 0nat } else { 1nat }
    }
}

/// The share of `unseen` among `n` events, in millionths, rounded up (so
/// that a single new pattern always counts).
pub open spec fn novelty_of(unseen: nat, n: nat) -> int {
    if n == 0 { 0 } else { (SCALE * unseen + n - 1) / (n as int) }
}

/// `c` out of `n`, in millionths, rounded down (zero when `n` is zero).
pub open spec fn share_millionths(c: nat, n: nat) -> int {
    if n == 0 { 0 } else { (SCALE * c) / (n as int) }
}

/// How far the share of pattern `k` in a batch lies from its share of
/// the baseline (`base` counts out of `base_total` events), in millionths.
pub open spec fn share_gap(
    events: Seq<HostEvent>,
    base: spec_fn((Seq<char>, EventKind)) -> nat,
    base_total: nat,
    k: (Seq<char>, EventKind),
) -> nat {
    let a = share_millionths(occurrences(events, k), events.len());
    let b = share_millionths(base(k), base_total);
    (if a >= b { a - b } else { b - a }) as nat
}

/// The gaps of the patterns in `ks`, summed.
pub open spec fn gap_sum(
    ks: Seq<(Seq<char>, EventKind)>,
    events: Seq<HostEvent>,
    base: spec_fn((Seq<char>, EventKind)) -> nat,
    base_total: nat,
) -> nat
    decreases ks.len(),
{
    if ks.len() == 0 {
        0
    } else {
        gap_sum(ks.drop_last(), events, base, base_total) + share_gap(events, base, base_total, ks.last())
    }
}

/// How far a batch's frequencies lie from the baseline: half the summed
/// gaps between each pattern's share of the batch and its share of the
/// baseline (their total variation distance), in millionths, rounded up
/// and at most one. `ks` lists every pattern that either holds.
pub open spec fn deviation_of(
    ks: Seq<(Seq<char>, EventKind)>,
    events: Seq<HostEvent>,
    base: spec_fn((Seq<char>, EventKind)) -> nat,
    base_total: nat,
) -> int {
    let d: int = ((gap_sum(ks, events, base, base_total) + 1) / 2) as int;
    if d < SCALE { d } else { SCALE as int }
}

/// The anomaly probability of a batch: the larger of how new its patterns
/// are and how far its frequencies lie from the baseline.
pub open spec fn anomaly_of(novelty: int, deviation: int) -> int {
    if novelty >= deviation { novelty } else { deviation }
}

/// A prediction of the host's next events. The anomaly probability and
/// the confidence are in millionths; each share is the exact fraction
/// of the events seen.
#[derive(Debug, Clone)]
pub struct Predictions {
    /// Each pattern seen, with its share of all events seen.
    pub event_distribution: Vec<(Pattern, Fraction)>,
    /// How likely an anomaly is.
    pub anomaly_probability: u64,
    /// How much to trust this prediction.
    pub confidence: u64,
}

/// Learns a model of the host from batches of its events. Implementations
/// may count, fit a statistical model or apply rules; the accuracy of a
/// model, given how many events it has seen, is a curve that the caller
/// supplies.
pub trait Learner: Send + Sync {
    /// Whether the learner's own invariant holds.
    spec fn learner_ready(&self) -> bool;

    /// The current model.
    spec fn learner_model(&self) -> SystemModel;

    /// Folds a batch of events into the model: the model's version goes up
    /// by one and the events seen by the batch's length.
    fn process_events<F: Fn(u64) -> u64>(&mut self, events: &[HostEvent], accuracy_curve: &F) -> (r: MigiResult<()>)
        requires
            old(self).learner_ready(),
            old(self).learner_model().observed_events + events@.len() <= u64::MAX,
            old(self).learner_model().version < u64::MAX,
            forall|n: u64| accuracy_curve.requires((n,)),
        ensures
            final(self).learner_ready(),
            r is Ok ==> final(self).learner_model().version == old(self).learner_model().version + 1
                && final(self).learner_model().observed_events
                    == old(self).learner_model().observed_events + events@.len(),
    ;

    /// The current model.
    fn get_model(&self) -> (r: &SystemModel)
        ensures
            *r == self.learner_model(),
    ;

    /// A prediction of what the host does next, trusted as far as the
    /// model's accuracy.
    fn predict(&self) -> (r: MigiResult<Predictions>)
        requires
            self.learner_ready(),
        ensures
            r matches Ok(p) ==> p.confidence == self.learner_model().prediction_accuracy
                && p.anomaly_probability <= SCALE,
    ;
}

/// The frequency-counting learner.
#[derive(Debug)]
pub struct StatisticalLearner {
    model: SystemModel,
    patterns: Vec<Pattern>,
    counts: Vec<u64>,
    total_events: u64,
    sources: Vec<String>,
    novelty: u64,
}

impl StatisticalLearner {
    /// The patterns seen, in the order first seen.
    pub closed spec fn keys(&self) -> Seq<(Seq<char>, EventKind)> {
        self.patterns@.map_values(|p: Pattern| p@)
    }

    /// The number of events seen with pattern `k`.
    pub closed spec fn count(&self, k: (Seq<char>, EventKind)) -> nat {
        count_of(self.keys(), self.counts@, k)
    }

    /// The count of the `i`-th pattern seen.
    pub closed spec fn count_at(&self, i: int) -> u64 {
        self.counts@[i]
    }

    /// The current model.
    pub closed spec fn model_view(&self) -> SystemModel {
        self.model
    }

    /// The number of events seen.
    pub closed spec fn total(&self) -> u64 {
        self.total_events
    }

    /// The learner's invariant: one count per pattern, no pattern twice,
    /// no count above the total, and the model agrees with the counts.
    pub closed spec fn wf(&self) -> bool {
        &&& self.patterns@.len() == self.counts@.len()
        &&& forall|i: int, j: int|
            0 <= i < j < self.keys().len() ==> self.keys()[i] != self.keys()[j]
        &&& forall|i: int| 0 <= i < self.counts@.len() ==> 1 <= #[trigger] self.counts@[i] <= self.total_events
        &&& sum_counts(self.counts@) == self.total_events
        &&& self.total_events == 0 ==> self.model.prediction_accuracy == 0
        &&& self.model.observed_events == self.total_events
        &&& self.model.identified_patterns == self.patterns@.len()
        &&& sources_match(self.keys(), crate::text::views(self.sources@))
        &&& self.model.identified_subsystems == self.sources@.len()
        &&& self.novelty <= SCALE
    }

    /// The sources of the patterns seen, each once, in the order first seen.
    pub closed spec fn sources_view(&self) -> Seq<Seq<char>> {
        crate::text::views(self.sources@)
    }

    /// How anomalous the last batch was, in millionths: the larger of the
    /// share of its events whose pattern had not been seen before it and
    /// how far its pattern frequencies lay from those seen before it (zero
    /// for the first batch, which has nothing to compare with, and for an
    /// empty batch).
    pub closed spec fn novelty_view(&self) -> u64 {
        self.novelty
    }

    /// The share of each pattern seen, in the order first seen: its count
    /// over all events seen.
    pub closed spec fn shares(&self) -> Seq<Fraction> {
        Seq::new(self.counts@.len(), |i: int| Fraction { num: self.counts@[i], den: self.total_events })
    }

    /// The model of a well-formed learner counts what it has seen.
    pub proof fn lemma_model_agrees(&self)
        requires
            self.wf(),
        ensures
            self.model_view().observed_events == self.total(),
            self.model_view().identified_patterns == self.keys().len(),
    {
    }

    /// A learner that has seen nothing.
    pub fn new() -> (r: Self)
        ensures
            r.wf(),
            r.model_view() == empty_model(),
            r.total() == 0,
            r.keys().len() == 0,
            r.keys().no_duplicates(),
            r.sources_view().len() == 0,
            r.novelty_view() == 0,
    {
        let r = StatisticalLearner {
            model: SystemModel::new(),
            patterns: Vec::new(),
            counts: Vec::new(),
            total_events: 0,
            sources: Vec::new(),
            novelty: 0,
        };
        assert(r.keys() =~= Seq::<(Seq<char>, EventKind)>::empty());
        assert(crate::text::views(r.sources@) =~= Seq::<Seq<char>>::empty());
        r
    }

    /// The current model.
    pub fn get_model(&self) -> (r: &SystemModel)
        ensures
            *r == self.model_view(),
    {
        &self.model
    }

    /// The number of events seen.
    pub fn total_events(&self) -> (r: u64)
        ensures
            r == self.total(),
    {
        self.total_events
    }

    /// The sources of the patterns seen, each once, in the order first
    /// seen: the subsystems that the learner has recognized.
    pub fn subsystem_names(&self) -> (r: &Vec<String>)
        ensures
            crate::text::views(r@) == self.sources_view(),
    {
        &self.sources
    }

    /// The index of the pattern of `e` among those seen, if it was seen.
    fn find(&self, e: &HostEvent) -> (r: Option<usize>)
        requires
            self.wf(),
        ensures
            match r {
                Some(i) => i < self.keys().len() && self.keys()[i as int] == event_pattern(*e),
                None => !self.keys().contains(event_pattern(*e)),
            },
    {
        let mut i: usize = 0;
        while i < self.patterns.len()
            invariant
                self.wf(),
                0 <= i <= self.patterns@.len(),
                forall|j: int| 0 <= j < i ==> self.keys()[j] != event_pattern(*e),
            decreases self.patterns@.len() - i,
        {
            let p = &self.patterns[i];
            if p.source == e.source && p.event_type.same_kind(&e.event_type) {
                assert(self.keys()[i as int] == self.patterns@[i as int]@);
                return Some(i);
            }
            assert(self.keys()[i as int] == self.patterns@[i as int]@);
            i = i + 1;
        }
        proof {
            if self.keys().contains(event_pattern(*e)) {
                let j = choose|j: int| 0 <= j < self.keys().len() && self.keys()[j] == event_pattern(*e);
                assert(self.keys()[j] != event_pattern(*e));
            }
        }
        None
    }

    /// Folds a batch of events into the counts, then updates the model:
    /// the version goes up by one, the totals and the number of patterns
    /// follow the counts and, once any event has been seen, the accuracy
    /// becomes the curve's value at the new total (at most `SCALE`) and
    /// the entropy its complement. The batch is also measured against the
    /// counts before it: how many of its events bring a new pattern, and
    /// how far its pattern frequencies lie from theirs.
    pub fn process_events<F: Fn(u64) -> u64>(&mut self, events: &[HostEvent], accuracy_curve: &F) -> (r: MigiResult<()>)
        requires
            old(self).wf(),
            old(self).total() + events@.len() <= u64::MAX,
            old(self).model_view().version < u64::MAX,
            forall|n: u64| accuracy_curve.requires((n,)),
        ensures
            r is Ok,
            final(self).wf(),
            final(self).total() == old(self).total() + events@.len(),
            forall|k: (Seq<char>, EventKind)| #[trigger] final(self).count(k) == old(self).count(k) + occurrences(events@, k),
            final(self).keys().len() >= old(self).keys().len(),
            final(self).keys().subrange(0, old(self).keys().len() as int) == old(self).keys(),
            forall|k: (Seq<char>, EventKind)| #[trigger] final(self).keys().contains(k)
                <==> (old(self).keys().contains(k) || occurrences(events@, k) > 0),
            final(self).model_view().version == old(self).model_view().version + 1,
            final(self).model_view().observed_events == final(self).total(),
            final(self).model_view().identified_patterns == final(self).keys().len(),
            final(self).keys().no_duplicates(),
            final(self).model_view().identified_patterns == final(self).keys().to_set().len(),
            sources_match(final(self).keys(), final(self).sources_view()),
            final(self).model_view().identified_subsystems == final(self).sources_view().len(),
            final(self).model_view().identified_subsystems == final(self).sources_view().to_set().len(),
            final(self).novelty_view() == (if old(self).total() > 0 && events@.len() > 0 {
                anomaly_of(
                    novelty_of(unseen_count(events@, old(self).keys()), events@.len()),
                    deviation_of(final(self).keys(), events@, |k: (Seq<char>, EventKind)| old(self).count(k), old(self).total() as nat),
                )
            } else {
                0
            }),
            final(self).total() > 0 ==> exists|a: u64| #[trigger] accuracy_curve.ensures((final(self).total(),), a)
                && final(self).model_view().prediction_accuracy == (if a < SCALE { a } else { SCALE })
                && final(self).model_view().model_entropy == SCALE - final(self).model_view().prediction_accuracy,
            final(self).total() == 0 ==> final(self).model_view().prediction_accuracy == old(self).model_view().prediction_accuracy
                && final(self).model_view().model_entropy == old(self).model_view().model_entropy,
    {
        let n = events.len();
        let had_events = self.total_events > 0;
        let old_len = self.patterns.len();
        let base_counts = self.copy_counts();
        let base_total = self.total_events;
        let ghost base = *self;
        let mut unseen: u64 = 0;
        let mut j: usize = 0;
        while j < n
            invariant
                n == events@.len(),
                0 <= j <= n,
                self.wf(),
                old_len == old(self).keys().len(),
                self.total_events == old(self).total_events + j,
                old(self).total() + n <= u64::MAX,
                self.model == (SystemModel {
                    observed_events: self.total_events,
                    identified_patterns: self.patterns@.len() as usize,
                    identified_subsystems: self.sources@.len() as usize,
                    ..old(self).model
                }),
                self.novelty == old(self).novelty,
                unseen <= j,
                unseen == unseen_count(events@.take(j as int), old(self).keys()),
                forall|k: (Seq<char>, EventKind)| #[trigger] self.count(k)
                    == old(self).count(k) + occurrences(events@.take(j as int), k),
                self.keys().len() >= old(self).keys().len(),
                self.keys().subrange(0, old(self).keys().len() as int) == old(self).keys(),
                forall|k: (Seq<char>, EventKind)| #[trigger] self.keys().contains(k)
                    <==> (old(self).keys().contains(k) || occurrences(events@.take(j as int), k) > 0),
            decreases n - j,
        {
            let e = &events[j];
            let ghost before = *self;
            let ghost ek = event_pattern(*e);
            proof {
                assert(events@.take(j as int + 1).drop_last() =~= events@.take(j as int));
                assert(events@.take(j as int + 1).last() == *e);
            }
            let found = self.find(e);
            proof {
                assert(old(self).keys().contains(ek) <==> (found matches Some(i) && i < old_len)) by {
                    if old(self).keys().contains(ek) {
                        let t = choose|t: int| 0 <= t < old(self).keys().len() && old(self).keys()[t] == ek;
                        assert(self.keys().subrange(0, old_len as int)[t] == self.keys()[t]);
                        assert(self.keys()[t] == ek);
                        if let Some(i) = found {
                            if i as int != t {
                                assert(self.keys()[i as int] != self.keys()[t]);
                            }
                        } else {
                            assert(self.keys().contains(ek));
                        }
                    }
                    if let Some(i) = found {
                        if i < old_len {
                            assert(self.keys().subrange(0, old_len as int)[i as int] == self.keys()[i as int]);
                            assert(old(self).keys()[i as int] == ek);
                        }
                    }
                }
            }
            let is_new = match found {
                Some(i) => i >= old_len,
                None => true,
            };
            if is_new {
                unseen = unseen + 1;
            }
            proof {
                assert(unseen == unseen_count(events@.take(j as int + 1), old(self).keys()));
            }
            match found {
                Some(i) => {
                    let c = self.counts[i];
                    self.counts.set(i, c + 1);
                    self.total_events = self.total_events + 1;
                    proof {
                        lemma_sum_update(before.counts@, i as int);
                        lemma_count_update(before.keys(), before.counts@, i as int);
                        assert(self.keys() == before.keys());
                        assert(self.counts@ == before.counts@.update(i as int, (before.counts@[i as int] + 1) as u64));
                        assert forall|k: (Seq<char>, EventKind)| #[trigger] self.count(k)
                            == before.count(k) + if k == ek { 1nat } else { 0nat } by {
                            assert(count_of(before.keys(), before.counts@.update(i as int, (before.counts@[i as int] + 1) as u64), k)
                                == count_of(before.keys(), before.counts@, k) + if k == before.keys()[i as int] { 1nat } else { 0nat });
                        }
                    }
                },
                None => {
                    let p = Pattern { source: e.source.clone(), event_type: e.event_type.copy() };
                    self.patterns.push(p);
                    self.counts.push(1);
                    self.total_events = self.total_events + 1;
                    let mut sources: Vec<String> = Vec::new();
                    std::mem::swap(&mut sources, &mut self.sources);
                    add_source(&mut sources, &e.source);
                    self.sources = sources;
                    proof {
                        lemma_sources_push(before.keys(), crate::text::views(before.sources@), ek);
                        assert(self.counts@.drop_last() =~= before.counts@);
                        assert(self.keys() =~= before.keys().push(ek));
                        lemma_count_push(before.keys(), before.counts@, ek);
                        assert(self.counts@ == before.counts@.push(1u64));
                        assert forall|k: (Seq<char>, EventKind)| #[trigger] self.count(k)
                            == before.count(k) + if k == ek { 1nat } else { 0nat } by {
                            assert(count_of(before.keys().push(ek), before.counts@.push(1u64), k)
                                == count_of(before.keys(), before.counts@, k) + if k == ek { 1nat } else { 0nat });
                        }
                        assert(self.keys().subrange(0, old(self).keys().len() as int)
                            =~= before.keys().subrange(0, old(self).keys().len() as int));
                        assert forall|k: (Seq<char>, EventKind)| #[trigger] self.keys().contains(k)
                            <==> (before.keys().contains(k) || k == ek) by {
                            if self.keys().contains(k) {
                                let t = choose|t: int| 0 <= t < self.keys().len() && self.keys()[t] == k;
                                if t < before.keys().len() {
                                    assert(before.keys()[t] == k);
                                }
                            }
                            if before.keys().contains(k) {
                                let t = choose|t: int| 0 <= t < before.keys().len() && before.keys()[t] == k;
                                assert(self.keys()[t] == k);
                            }
                            if k == ek {
                                assert(self.keys()[self.keys().len() - 1] == k);
                            }
                        }
                    }
                },
            }
            self.model.observed_events = self.total_events;
            self.model.identified_patterns = self.patterns.len();
            self.model.identified_subsystems = self.sources.len();
            proof {
                assert forall|k: (Seq<char>, EventKind)| #[trigger] self.count(k)
                    == old(self).count(k) + occurrences(events@.take(j as int + 1), k) by {
                    assert(before.count(k) == old(self).count(k) + occurrences(events@.take(j as int), k));
                }
            }
            j = j + 1;
        }
        proof {
            assert(events@.take(n as int) =~= events@);
        }
        let ghost counted = *self;
        if had_events && n > 0 {
            let nn = n as u128;
            let v: u128 = ((SCALE as u128) * (unseen as u128) + nn - 1) / nn;
            assert(v <= SCALE) by (nonlinear_arith)
                requires
                    v == (SCALE * unseen + nn - 1) / (nn as int),
                    unseen <= nn,
                    nn > 0,
            ;
            assert forall|k: (Seq<char>, EventKind)| #[trigger] self.count(k)
                == base.count(k) + occurrences(events@, k) by {
                assert(self.count(k) == old(self).count(k) + occurrences(events@.take(n as int), k));
            }
            let dev = self.batch_deviation(&base_counts, base_total, Ghost(base), events);
            let nov = v as u64;
            self.novelty = if nov >= dev { nov } else { dev };
        } else {
            self.novelty = 0;
        }
        self.model.version = self.model.version + 1;
        if self.total_events > 0 {
            let a = accuracy_curve(self.total_events);
            let acc = if a < SCALE { a } else { SCALE };
            self.model.prediction_accuracy = acc;
            self.model.model_entropy = SCALE - acc;
        }
        assert(self.keys() == counted.keys() && self.counts@ == counted.counts@);
        assert forall|k: (Seq<char>, EventKind)| #[trigger] self.count(k) == old(self).count(k) + occurrences(events@, k) by {
            assert(counted.count(k) == old(self).count(k) + occurrences(events@.take(n as int), k));
            assert(self.count(k) == counted.count(k));
        }
        assert forall|k: (Seq<char>, EventKind)| #[trigger] self.keys().contains(k)
            <==> (old(self).keys().contains(k) || occurrences(events@, k) > 0) by {
            assert(counted.keys().contains(k)
                <==> (old(self).keys().contains(k) || occurrences(events@.take(n as int), k) > 0));
        }
        proof {
            law_counts_are_distinct(*self);
        }
        Ok(())
    }

    /// How far the batch just folded in lies from the learner `base` that
    /// it was folded into (see [`deviation_of`]); `base_counts` are the
    /// counts of `base`.
    fn batch_deviation(
        &self,
        base_counts: &Vec<u64>,
        base_total: u64,
        Ghost(base): Ghost<StatisticalLearner>,
        events: &[HostEvent],
    ) -> (r: u64)
        requires
            self.wf(),
            base.wf(),
            base_counts@ == base.counts@,
            base_total == base.total(),
            base.keys().len() <= self.keys().len(),
            self.keys().subrange(0, base.keys().len() as int) == base.keys(),
            forall|k: (Seq<char>, EventKind)| #[trigger] self.count(k) == base.count(k) + occurrences(events@, k),
            base_total > 0,
            events@.len() > 0,
        ensures
            r == deviation_of(self.keys(), events@, |k: (Seq<char>, EventKind)| base.count(k), base_total as nat),
            r <= SCALE,
    {
        let ghost bf = |k: (Seq<char>, EventKind)| base.count(k);
        let n: u128 = events.len() as u128;
        let t: u128 = base_total as u128;
        let base_len = base_counts.len();
        let mut sum: u128 = 0;
        let mut i: usize = 0;
        while i < self.patterns.len()
            invariant
                self.wf(),
                base.wf(),
                base_counts@ == base.counts@,
                base_len == base.keys().len(),
                base_total == base.total(),
                base.keys().len() <= self.keys().len(),
                self.keys().subrange(0, base.keys().len() as int) == base.keys(),
                forall|k: (Seq<char>, EventKind)| #[trigger] self.count(k) == base.count(k) + occurrences(events@, k),
                bf == (|k: (Seq<char>, EventKind)| base.count(k)),
                n == events@.len(),
                t == base_total,
                n > 0,
                t > 0,
                0 <= i <= self.patterns@.len(),
                sum == gap_sum(self.keys().take(i as int), events@, bf, base_total as nat),
                sum <= SCALE * i,
            decreases self.patterns@.len() - i,
        {
            let ghost k = self.keys()[i as int];
            let b: u64 = if i < base_len { base_counts[i] } else { 0 };
            proof {
                assert(forall|a: int, c: int| 0 <= a < c < self.keys().len() ==> self.keys()[a] != self.keys()[c]);
                lemma_count_at(self.keys(), self.counts@, i as int);
                assert(self.count(k) == self.counts@[i as int]);
                if i < base_len {
                    assert(self.keys().subrange(0, base_len as int)[i as int] == k);
                    assert(base.keys()[i as int] == k);
                    lemma_count_at(base.keys(), base.counts@, i as int);
                    assert(base.count(k) == b);
                } else {
                    assert(!base.keys().contains(k)) by {
                        if base.keys().contains(k) {
                            let x = choose|x: int| 0 <= x < base.keys().len() && base.keys()[x] == k;
                            assert(self.keys().subrange(0, base_len as int)[x] == self.keys()[x]);
                            assert(self.keys()[x] == self.keys()[i as int]);
                        }
                    }
                    lemma_count_absent(base.keys(), base.counts@, k);
                }
                assert(self.count(k) == b + occurrences(events@, k));
                lemma_occurrences_bound(events@, k);
                lemma_share_bound(occurrences(events@, k), events@.len());
                lemma_share_bound(base.count(k), base_total as nat);
            }
            let c: u64 = self.counts[i] - b;
            let a_share: u128 = (1_000_000u128 * (c as u128)) / n;
            let b_share: u128 = (1_000_000u128 * (b as u128)) / t;
            assert(a_share == share_millionths(occurrences(events@, k), events@.len()));
            assert(bf(k) == base.count(k));
            assert(b_share == share_millionths(bf(k), base_total as nat));
            let gap: u128 = if a_share >= b_share { a_share - b_share } else { b_share - a_share };
            proof {
                let ks = self.keys().take(i as int + 1);
                assert(ks.drop_last() =~= self.keys().take(i as int));
                assert(ks.last() == k);
                assert(gap == share_gap(events@, bf, base_total as nat, k));
            }
            sum = sum + gap;
            i = i + 1;
        }
        assert(self.keys().take(self.keys().len() as int) =~= self.keys());
        let d: u128 = (sum + 1) / 2;
        if d < 1_000_000 {
            d as u64
        } else {
            SCALE
        }
    }

    /// A copy of the counts.
    fn copy_counts(&self) -> (r: Vec<u64>)
        ensures
            r@ == self.counts@,
    {
        let mut r: Vec<u64> = Vec::new();
        let mut i: usize = 0;
        while i < self.counts.len()
            invariant
                0 <= i <= self.counts@.len(),
                r@ == self.counts@.take(i as int),
            decreases self.counts@.len() - i,
        {
            r.push(self.counts[i]);
            assert(self.counts@.take(i as int + 1) =~= self.counts@.take(i as int).push(self.counts@[i as int]));
            i = i + 1;
        }
        assert(self.counts@.take(self.counts@.len() as int) =~= self.counts@);
        r
    }

    /// A prediction from the counts: every pattern seen, with its count
    /// over all events seen; how anomalous the last batch was (see
    /// [`anomaly_of`]) as the anomaly probability; the model's accuracy
    /// as the confidence.
    pub fn predict(&self) -> (r: MigiResult<Predictions>)
        requires
            self.wf(),
        ensures
            r matches Ok(p) && p.anomaly_probability == self.novelty_view()
                && p.anomaly_probability <= SCALE
                && p.confidence == self.model_view().prediction_accuracy
                && p.event_distribution@.len() == self.keys().len()
                && forall|i: int| 0 <= i < self.keys().len() ==> {
                    &&& (#[trigger] p.event_distribution@[i]).0@ == self.keys()[i]
                    &&& p.event_distribution@[i].1 == Fraction { num: self.count_at(i), den: self.total() }
                    &&& p.event_distribution@[i].1 == self.shares()[i]
                }
                && forall|i: int, j: int| 0 <= i < j < p.event_distribution@.len()
                    ==> (#[trigger] p.event_distribution@[i]).0@ != (#[trigger] p.event_distribution@[j]).0@,
    {
        let mut dist: Vec<(Pattern, Fraction)> = Vec::new();
        let mut i: usize = 0;
        while i < self.patterns.len()
            invariant
                self.wf(),
                0 <= i <= self.patterns@.len(),
                dist@.len() == i,
                forall|t: int| 0 <= t < i ==> {
                    &&& (#[trigger] dist@[t]).0@ == self.keys()[t]
                    &&& dist@[t].1 == Fraction { num: self.count_at(t), den: self.total() }
                },
            decreases self.patterns@.len() - i,
        {
            let p = &self.patterns[i];
            let copy = Pattern { source: p.source.clone(), event_type: p.event_type.copy() };
            dist.push((copy, Fraction { num: self.counts[i], den: self.total_events }));
            assert(self.keys()[i as int] == self.patterns@[i as int]@);
            i = i + 1;
        }
        Ok(Predictions {
            event_distribution: dist,
            anomaly_probability: self.novelty,
            confidence: self.model.prediction_accuracy,
        })
    }
}

impl Learner for StatisticalLearner {
    open spec fn learner_ready(&self) -> bool {
        self.wf()
    }

    open spec fn learner_model(&self) -> SystemModel {
        self.model_view()
    }

    fn process_events<F: Fn(u64) -> u64>(&mut self, events: &[HostEvent], accuracy_curve: &F) -> (r: MigiResult<()>) {
        proof {
            self.lemma_model_agrees();
        }
        StatisticalLearner::process_events(self, events, accuracy_curve)
    }

    fn get_model(&self) -> (r: &SystemModel) {
        StatisticalLearner::get_model(self)
    }

    fn predict(&self) -> (r: MigiResult<Predictions>) {
        StatisticalLearner::predict(self)
    }
}

/// Raising the count at `i` by one raises the count of that key by one
/// and leaves the others alone (keys distinct).
pub proof fn lemma_count_update_one(
    keys: Seq<(Seq<char>, EventKind)>,
    counts: Seq<u64>,
    i: int,
    k: (Seq<char>, EventKind),
)
    requires
        keys.len() == counts.len(),
        0 <= i < keys.len(),
        counts[i] < u64::MAX,
        forall|a: int, b: int| 0 <= a < b < keys.len() ==> keys[a] != keys[b],
    ensures
        count_of(keys, counts.update(i, (counts[i] + 1) as u64), k)
            == count_of(keys, counts, k) + if k == keys[i] { 1nat } else { 0nat },
    decreases keys.len(),
{
    let new_counts = counts.update(i, (counts[i] + 1) as u64);
    let last = keys.len() - 1;
    assert(keys.last() == keys[last]);
    if i == last {
        assert(new_counts.drop_last() =~= counts.drop_last());
        assert(new_counts.last() == counts[i] + 1);
    } else {
        assert(new_counts.last() == counts.last());
        assert(keys[i] != keys[last]);
        assert(new_counts.drop_last() =~= counts.drop_last().update(i, (counts[i] + 1) as u64));
        assert(keys.drop_last()[i] == keys[i]);
        if k != keys.last() {
            assert forall|a: int, b: int| 0 <= a < b < keys.drop_last().len() implies
                keys.drop_last()[a] != keys.drop_last()[b] by {
                assert(keys.drop_last()[a] == keys[a]);
                assert(keys.drop_last()[b] == keys[b]);
            }
            lemma_count_update_one(keys.drop_last(), counts.drop_last(), i, k);
        }
    }
}

/// [`lemma_count_update_one`] for every key.
pub proof fn lemma_count_update(keys: Seq<(Seq<char>, EventKind)>, counts: Seq<u64>, i: int)
    requires
        keys.len() == counts.len(),
        0 <= i < keys.len(),
        counts[i] < u64::MAX,
        forall|a: int, b: int| 0 <= a < b < keys.len() ==> keys[a] != keys[b],
    ensures
        forall|k: (Seq<char>, EventKind)| #[trigger] count_of(keys, counts.update(i, (counts[i] + 1) as u64), k)
            == count_of(keys, counts, k) + if k == keys[i] { 1nat } else { 0nat },
{
    assert forall|k: (Seq<char>, EventKind)| #[trigger] count_of(keys, counts.update(i, (counts[i] + 1) as u64), k)
        == count_of(keys, counts, k) + if k == keys[i] { 1nat } else { 0nat } by {
        lemma_count_update_one(keys, counts, i, k);
    }
}

/// Appending a new key with count one gives it count one and leaves the
/// others alone.
pub proof fn lemma_count_push(keys: Seq<(Seq<char>, EventKind)>, counts: Seq<u64>, k0: (Seq<char>, EventKind))
    requires
        keys.len() == counts.len(),
        !keys.contains(k0),
    ensures
        forall|k: (Seq<char>, EventKind)| #[trigger] count_of(keys.push(k0), counts.push(1u64), k)
            == count_of(keys, counts, k) + if k == k0 { 1nat } else { 0nat },
{
    assert forall|k: (Seq<char>, EventKind)| #[trigger] count_of(keys.push(k0), counts.push(1u64), k)
        == count_of(keys, counts, k) + if k == k0 { 1nat } else { 0nat } by {
        assert(keys.push(k0).drop_last() =~= keys);
        assert(counts.push(1u64).drop_last() =~= counts);
        if k == k0 {
            lemma_count_absent(keys, counts, k0);
        }
    }
}

/// A key that was never seen has count zero.
pub proof fn lemma_count_absent(keys: Seq<(Seq<char>, EventKind)>, counts: Seq<u64>, k: (Seq<char>, EventKind))
    requires
        !keys.contains(k),
    ensures
        count_of(keys, counts, k) == 0,
    decreases keys.len(),
{
    if keys.len() > 0 && counts.len() > 0 {
        assert(keys.last() == keys[keys.len() - 1]);
        assert(!keys.drop_last().contains(k)) by {
            if keys.drop_last().contains(k) {
                let t = choose|t: int| 0 <= t < keys.drop_last().len() && keys.drop_last()[t] == k;
                assert(keys[t] == k);
            }
        }
        lemma_count_absent(keys.drop_last(), counts.drop_last(), k);
    }
}

/// With distinct keys, the count recorded for the `i`-th key is the
/// `i`-th count.
proof fn lemma_count_at(keys: Seq<(Seq<char>, EventKind)>, counts: Seq<u64>, i: int)
    requires
        keys.len() == counts.len(),
        0 <= i < keys.len(),
        forall|a: int, b: int| 0 <= a < b < keys.len() ==> keys[a] != keys[b],
    ensures
        count_of(keys, counts, keys[i]) == counts[i],
    decreases keys.len(),
{
    let last = keys.len() - 1;
    assert(keys.last() == keys[last]);
    if i != last {
        assert(keys[i] != keys[last]);
        assert(keys.drop_last()[i] == keys[i]);
        assert(counts.drop_last()[i] == counts[i]);
        assert forall|a: int, b: int| 0 <= a < b < keys.drop_last().len() implies
            keys.drop_last()[a] != keys.drop_last()[b] by {
            assert(keys.drop_last()[a] == keys[a]);
            assert(keys.drop_last()[b] == keys[b]);
        }
        lemma_count_at(keys.drop_last(), counts.drop_last(), i);
    }
}

/// A pattern occurs at most once per event.
proof fn lemma_occurrences_bound(events: Seq<HostEvent>, k: (Seq<char>, EventKind))
    ensures
        occurrences(events, k) <= events.len(),
    decreases events.len(),
{
    if events.len() > 0 {
        lemma_occurrences_bound(events.drop_last(), k);
    }
}

/// A share of at most the whole is at most one.
proof fn lemma_share_bound(c: nat, n: nat)
    requires
        c <= n,
    ensures
        0 <= share_millionths(c, n) <= SCALE,
{
    if n > 0 {
        assert(0 <= (SCALE * c) / (n as int) <= SCALE) by (nonlinear_arith)
            requires
                c <= n,
                n > 0,
        ;
    }
}

/// Raising one count by one raises the sum by one.
proof fn lemma_sum_update(counts: Seq<u64>, i: int)
    requires
        0 <= i < counts.len(),
        counts[i] < u64::MAX,
    ensures
        sum_counts(counts.update(i, (counts[i] + 1) as u64)) == sum_counts(counts) + 1,
    decreases counts.len(),
{
    let u = counts.update(i, (counts[i] + 1) as u64);
    if i == counts.len() - 1 {
        assert(u.drop_last() =~= counts.drop_last());
    } else {
        assert(u.drop_last() =~= counts.drop_last().update(i, (counts[i] + 1) as u64));
        lemma_sum_update(counts.drop_last(), i);
    }
}

/// The sum of the numerators of some fractions.
pub open spec fn sum_nums(s: Seq<Fraction>) -> nat
    decreases s.len(),
{
    if s.len() == 0 {
        0
    } else {
        sum_nums(s.drop_last()) + s.last().num as nat
    }
}

proof fn lemma_sum_nums_counts(c: Seq<u64>, t: u64)
    ensures
        sum_nums(Seq::new(c.len(), |i: int| Fraction { num: c[i], den: t })) == sum_counts(c),
    decreases c.len(),
{
    if c.len() > 0 {
        lemma_sum_nums_counts(c.drop_last(), t);
        assert(Seq::new(c.len(), |i: int| Fraction { num: c[i], den: t }).drop_last()
            =~= Seq::new(c.drop_last().len(), |i: int| Fraction { num: c.drop_last()[i], den: t }));
    }
}

/// The shares that a prediction gives add up to exactly one: every
/// share is over all events seen, their numerators add up to that
/// number, and every pattern seen has a share above zero.
pub proof fn law_shares_sum_to_one(l: StatisticalLearner)
    requires
        l.wf(),
    ensures
        l.shares().len() == l.keys().len(),
        sum_nums(l.shares()) == l.total(),
        forall|i: int| 0 <= i < l.shares().len() ==> (#[trigger] l.shares()[i]).den == l.total()
            && l.shares()[i].num >= 1,
{
    assert(l.shares() =~= Seq::new(l.counts@.len(), |i: int| Fraction { num: l.counts@[i], den: l.total_events }));
    lemma_sum_nums_counts(l.counts@, l.total_events);
}

/// The anomaly probability is a probability; after a batch that follows
/// earlier events it is above zero whenever the batch brought a pattern
/// never seen before, it is never below the batch's frequency deviation,
/// and with no new pattern it is exactly that deviation.
pub proof fn law_new_pattern_raises_anomaly(unseen: nat, n: nat, deviation: int)
    requires
        unseen <= n,
        n > 0,
        0 <= deviation <= SCALE,
    ensures
        0 <= anomaly_of(novelty_of(unseen, n), deviation) <= SCALE,
        unseen > 0 ==> anomaly_of(novelty_of(unseen, n), deviation) > 0,
        anomaly_of(novelty_of(unseen, n), deviation) >= deviation,
        unseen == 0 ==> anomaly_of(novelty_of(unseen, n), deviation) == deviation,
{
    assert(0 <= (SCALE * unseen + n - 1) / (n as int) <= SCALE) by (nonlinear_arith)
        requires
            unseen <= n,
            n > 0,
    ;
    assert(((SCALE * unseen + n - 1) / (n as int) > 0) <==> unseen > 0) by (nonlinear_arith)
        requires
            unseen <= n,
            n > 0,
    ;
}

/// The frequency deviation is a probability; it is zero when every
/// pattern has the same share of the batch as of the baseline, and a
/// pattern whose share moved by `g` millionths makes it at least half of
/// `g` (rounded up, and at most one).
pub proof fn law_deviation_measures_shift(
    ks: Seq<(Seq<char>, EventKind)>,
    events: Seq<HostEvent>,
    base: spec_fn((Seq<char>, EventKind)) -> nat,
    base_total: nat,
    i: int,
)
    requires
        0 <= i < ks.len(),
    ensures
        0 <= deviation_of(ks, events, base, base_total) <= SCALE,
        (forall|j: int| 0 <= j < ks.len() ==> #[trigger] share_gap(events, base, base_total, ks[j]) == 0)
            ==> deviation_of(ks, events, base, base_total) == 0,
        ({
            let g = share_gap(events, base, base_total, ks[i]);
            deviation_of(ks, events, base, base_total) >= (if (g + 1) / 2 < SCALE { ((g + 1) / 2) as int } else { SCALE as int })
        }),
{
    lemma_gap_sum_zero(ks, events, base, base_total);
    lemma_gap_sum_at_least(ks, events, base, base_total, i);
}

/// Gaps of zero sum to zero.
proof fn lemma_gap_sum_zero(
    ks: Seq<(Seq<char>, EventKind)>,
    events: Seq<HostEvent>,
    base: spec_fn((Seq<char>, EventKind)) -> nat,
    base_total: nat,
)
    ensures
        (forall|j: int| 0 <= j < ks.len() ==> #[trigger] share_gap(events, base, base_total, ks[j]) == 0)
            ==> gap_sum(ks, events, base, base_total) == 0,
    decreases ks.len(),
{
    if ks.len() > 0 {
        lemma_gap_sum_zero(ks.drop_last(), events, base, base_total);
        if forall|j: int| 0 <= j < ks.len() ==> #[trigger] share_gap(events, base, base_total, ks[j]) == 0 {
            assert forall|j: int| 0 <= j < ks.drop_last().len() implies
                #[trigger] share_gap(events, base, base_total, ks.drop_last()[j]) == 0 by {
                assert(ks.drop_last()[j] == ks[j]);
                assert(share_gap(events, base, base_total, ks[j]) == 0);
            }
            assert(share_gap(events, base, base_total, ks[ks.len() - 1]) == 0);
            assert(ks.last() == ks[ks.len() - 1]);
        }
    }
}

/// The gaps sum to at least any one of them.
proof fn lemma_gap_sum_at_least(
    ks: Seq<(Seq<char>, EventKind)>,
    events: Seq<HostEvent>,
    base: spec_fn((Seq<char>, EventKind)) -> nat,
    base_total: nat,
    i: int,
)
    requires
        0 <= i < ks.len(),
    ensures
        gap_sum(ks, events, base, base_total) >= share_gap(events, base, base_total, ks[i]),
    decreases ks.len(),
{
    assert(ks.last() == ks[ks.len() - 1]);
    if i < ks.len() - 1 {
        assert(ks.drop_last()[i] == ks[i]);
        lemma_gap_sum_at_least(ks.drop_last(), events, base, base_total, i);
    }
}

/// The learner counts patterns and subsystems once each: no pattern and
/// no source is recorded twice, so the number of patterns in the model is
/// the number of distinct (source, kind) pairs seen, and the number of
/// subsystems the number of distinct sources.
pub proof fn law_counts_are_distinct(l: StatisticalLearner)
    requires
        l.wf(),
    ensures
        l.keys().no_duplicates(),
        l.sources_view().no_duplicates(),
        l.model_view().identified_patterns == l.keys().to_set().len(),
        l.model_view().identified_subsystems == l.sources_view().to_set().len(),
{
    let k = l.keys();
    assert forall|i: int, j: int| 0 <= i < k.len() && 0 <= j < k.len() && i != j implies k[i] != k[j] by {
        if i > j {
            assert(k[j] != k[i]);
        }
    }
    k.unique_seq_to_set();
    let s = l.sources_view();
    assert forall|i: int, j: int| 0 <= i < s.len() && 0 <= j < s.len() && i != j implies s[i] != s[j] by {
        if i > j {
            assert(s[j] != s[i]);
        }
    }
    s.unique_seq_to_set();
}

/// A learner that has seen no event knows no pattern and has no
/// confidence: its prediction is empty, with confidence zero.
pub proof fn law_no_data_no_prediction(l: StatisticalLearner)
    requires
        l.wf(),
        l.total() == 0,
    ensures
        l.keys().len() == 0,
        l.shares().len() == 0,
        l.model_view().prediction_accuracy == 0,
{
    if l.counts@.len() > 0 {
        assert(l.counts@[0] >= 1);
        lemma_sum_positive(l.counts@);
    }
}

/// Counts of at least one add up to at least one.
proof fn lemma_sum_positive(c: Seq<u64>)
    requires
        c.len() > 0,
        forall|i: int| 0 <= i < c.len() ==> c[i] >= 1,
    ensures
        sum_counts(c) >= 1,
{
    assert(c.last() == c[c.len() - 1]);
}

/// Adds `src` to the list of sources unless it is there already.
fn add_source(sources: &mut Vec<String>, src: &String)
    ensures
        crate::text::views(final(sources)@) == (if crate::text::views(old(sources)@).contains(src@) {
            crate::text::views(old(sources)@)
        } else {
            crate::text::views(old(sources)@).push(src@)
        }),
{
    if !crate::text::contains_string(sources, src) {
        sources.push(src.clone());
        assert(crate::text::views(sources@) =~= crate::text::views(old(sources)@).push(src@));
    }
}

/// Seeing a new pattern keeps the list of sources matching the patterns.
proof fn lemma_sources_push(keys: Seq<(Seq<char>, EventKind)>, srcs: Seq<Seq<char>>, k: (Seq<char>, EventKind))
    requires
        sources_match(keys, srcs),
    ensures
        sources_match(keys.push(k), if srcs.contains(k.0) { srcs } else { srcs.push(k.0) }),
{
    let keys2 = keys.push(k);
    let srcs2 = if srcs.contains(k.0) { srcs } else { srcs.push(k.0) };
    assert forall|i: int, j: int| 0 <= i < j < srcs2.len() implies srcs2[i] != srcs2[j] by {
        if !srcs.contains(k.0) && j == srcs.len() {
            assert(srcs2[i] == srcs[i]);
        }
    }
    assert forall|x: Seq<char>| #[trigger] srcs2.contains(x)
        <==> exists|i: int| 0 <= i < keys2.len() && #[trigger] keys2[i].0 == x by {
        if srcs2.contains(x) {
            if srcs.contains(x) {
                let i = choose|i: int| 0 <= i < keys.len() && #[trigger] keys[i].0 == x;
                assert(keys2[i] == keys[i]);
            } else {
                assert(x == k.0);
                assert(keys2[keys.len() as int] == k);
            }
        }
        if exists|i: int| 0 <= i < keys2.len() && #[trigger] keys2[i].0 == x {
            let i = choose|i: int| 0 <= i < keys2.len() && #[trigger] keys2[i].0 == x;
            if i < keys.len() {
                assert(keys2[i] == keys[i]);
                assert(srcs.contains(x));
                if !srcs.contains(k.0) {
                    let t = choose|t: int| 0 <= t < srcs.len() && srcs[t] == x;
                    assert(srcs2[t] == x);
                }
            } else {
                assert(x == k.0);
                if !srcs.contains(k.0) {
                    assert(srcs2[srcs.len() as int] == x);
                }
            }
        }
    }
}

} // verus!
