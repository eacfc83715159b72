//! MetricsObserver — polls the host's metrics endpoint and raises an
//! alert when CPU or memory use crosses a threshold.
//!
//! Sending the request and reading the JSON body is the caller's part;
//! this module classifies what came back. Percentages and the threshold
//! are fixed-point millionths (`80_000_000` is 80 %).

use vstd::prelude::*;
use crate::observer::{EventKind, EventType, HostEvent, Payload, PayloadValue, PayloadValueView, Severity, now};

verus! {

/// One reading of the metrics endpoint: CPU and memory use in
/// millionths of a percent, and the other fields as JSON text.
#[derive(Debug, Clone)]
pub struct MetricsData {
    pub cpu_percent: i64,
    pub memory_percent: i64,
    pub extra: String,
}

/// Whether a reading crosses the threshold: CPU or memory strictly above it.
pub open spec fn exceeded(cpu: int, mem: int, threshold: int) -> bool {
    cpu > threshold || mem > threshold
}

/// The severity of a reading: `Error` when CPU or memory is above one and
/// a half times the threshold, `Warning` when it is only above the
/// threshold, `Info` otherwise.
pub open spec fn metrics_severity(cpu: int, mem: int, threshold: int) -> Severity {
    if exceeded(cpu, mem, threshold) {
        if 2 * cpu > 3 * threshold || 2 * mem > 3 * threshold {
            Severity::Error
        } else {
            Severity::Warning
        }
    } else {
        Severity::Info
    }
}

/// The severity of a reading treats CPU and memory alike: a reading is
/// `Info` exactly when neither is above the threshold; `Error` exactly
/// when the threshold is crossed and either is above one and a half
/// times it (so, for a threshold of at least zero, whenever either is);
/// `Warning` otherwise. Swapping CPU and memory never changes
/// the severity, and lowering the threshold never lowers it.
pub proof fn law_metrics_severity(cpu: int, mem: int, threshold: int, lower: int)
    requires
        lower <= threshold,
    ensures
        metrics_severity(cpu, mem, threshold) == metrics_severity(mem, cpu, threshold),
        metrics_severity(cpu, mem, threshold) == Severity::Info <==> (cpu <= threshold && mem <= threshold),
        metrics_severity(cpu, mem, threshold) == Severity::Error
            <==> ((cpu > threshold || mem > threshold) && (2 * cpu > 3 * threshold || 2 * mem > 3 * threshold)),
        threshold >= 0 && (2 * cpu > 3 * threshold || 2 * mem > 3 * threshold)
            ==> metrics_severity(cpu, mem, threshold) == Severity::Error,
        metrics_severity(cpu, mem, threshold) == Severity::Warning
            <==> ((cpu > threshold || mem > threshold) && 2 * cpu <= 3 * threshold && 2 * mem <= 3 * threshold),
        threshold >= 0 && lower >= 0 ==> severity_rank(metrics_severity(cpu, mem, threshold))
            <= severity_rank(metrics_severity(cpu, mem, lower)),
{
}

/// Orders the severities of a reading: `Info`, `Warning`, `Error`.
pub open spec fn severity_rank(s: Severity) -> int {
    match s {
        Severity::Error => 2,
        Severity::Warning => 1,
        _ => 0,
    }
}

/// Polls a metrics endpoint. The HTTP client is the caller's part.
#[derive(Debug)]
pub struct MetricsObserver {
    endpoint: String,
    interval_secs: u64,
    threshold: i64,
    running: bool,
}

impl MetricsObserver {
    /// An observer of `endpoint`, polled every `interval_secs` seconds,
    /// alerting above `threshold`; not yet running.
    pub fn new(endpoint: &str, interval_secs: u64, threshold: i64) -> (r: Self)
        ensures
            r.endpoint_view() == endpoint@,
            r.interval_view() == interval_secs,
            r.threshold_view() == threshold,
            !r.is_running(),
    {
        MetricsObserver { endpoint: String::from_str(endpoint), interval_secs, threshold, running: false }
    }

    /// The polled endpoint.
    pub closed spec fn endpoint_view(&self) -> Seq<char> {
        self.endpoint@
    }

    /// Seconds between polls.
    pub closed spec fn interval_view(&self) -> u64 {
        self.interval_secs
    }

    /// The alert threshold.
    pub closed spec fn threshold_view(&self) -> i64 {
        self.threshold
    }

    /// Whether the observer is running.
    pub closed spec fn is_running(&self) -> bool {
        self.running
    }

    /// The polled endpoint.
    pub fn endpoint(&self) -> (r: &str)
        ensures
            r@ == self.endpoint_view(),
    {
        self.endpoint.as_str()
    }

    /// Seconds between polls.
    pub fn interval_secs(&self) -> (r: u64)
        ensures
            r == self.interval_view(),
    {
        self.interval_secs
    }

    /// The alert threshold.
    pub fn threshold(&self) -> (r: i64)
        ensures
            r == self.threshold_view(),
    {
        self.threshold
    }

    /// Whether the observer is running.
    pub fn running(&self) -> (r: bool)
        ensures
            r == self.is_running(),
    {
        self.running
    }

    /// Marks the observer running or stopped.
    pub fn set_running(&mut self, running: bool)
        ensures
            final(self).is_running() == running,
            final(self).endpoint_view() == old(self).endpoint_view(),
            final(self).interval_view() == old(self).interval_view(),
            final(self).threshold_view() == old(self).threshold_view(),
    {
        self.running = running;
    }

    /// The channel's name.
    pub fn name(&self) -> (r: &'static str)
        ensures
            r@ == "MetricsObserver"@,
    {
        "MetricsObserver"
    }

    /// The event for one reading: from `metrics`, a resource alert when
    /// the threshold is crossed and a state change otherwise, with the
    /// severity of [`metrics_severity`]; the payload repeats the reading,
    /// the threshold and whether it was crossed, its entries in the order of
    /// their names.
    pub fn event_from_metrics(metrics: &MetricsData, threshold: i64) -> (r: HostEvent)
        ensures
            r.source@ == "metrics"@,
            r.severity == metrics_severity(metrics.cpu_percent as int, metrics.memory_percent as int, threshold as int),
            r.event_type@ == (if exceeded(metrics.cpu_percent as int, metrics.memory_percent as int, threshold as int) {
                EventKind::ResourceAlert
            } else {
                EventKind::StateChange
            }),
            r.payload@ == seq![
                ("cpu_percent"@, PayloadValueView::Fixed(metrics.cpu_percent as int)),
                ("exceeded"@, PayloadValueView::Bool(exceeded(metrics.cpu_percent as int, metrics.memory_percent as int, threshold as int))),
                ("extra"@, PayloadValueView::Json(metrics.extra@)),
                ("memory_percent"@, PayloadValueView::Fixed(metrics.memory_percent as int)),
                ("threshold"@, PayloadValueView::Fixed(threshold as int)),
            ],
    {
        let cpu = metrics.cpu_percent as i128;
        let mem = metrics.memory_percent as i128;
        let thr = threshold as i128;
        let over = cpu > thr || mem > thr;
        let severity = if over {
            if 2 * cpu > 3 * thr || 2 * mem > 3 * thr {
                Severity::Error
            } else {
                Severity::Warning
            }
        } else {
            Severity::Info
        };
        let event_type = if over { EventType::ResourceAlert } else { EventType::StateChange };
        let payload = Payload::new()
            .with("cpu_percent", PayloadValue::Fixed(metrics.cpu_percent))
            .with("exceeded", PayloadValue::Bool(over))
            .with("extra", PayloadValue::Json(metrics.extra.clone()))
            .with("memory_percent", PayloadValue::Fixed(metrics.memory_percent))
            .with("threshold", PayloadValue::Fixed(threshold));
        let r = HostEvent { timestamp: now(), source: String::from_str("metrics"), event_type, payload, severity };
        assert(r.payload@ =~= seq![
            ("cpu_percent"@, PayloadValueView::Fixed(metrics.cpu_percent as int)),
            ("exceeded"@, PayloadValueView::Bool(over)),
            ("extra"@, PayloadValueView::Json(metrics.extra@)),
            ("memory_percent"@, PayloadValueView::Fixed(metrics.memory_percent as int)),
            ("threshold"@, PayloadValueView::Fixed(threshold as int)),
        ]);
        r
    }

    /// The event for a poll that failed: an error event from `metrics`,
    /// of severity `Warning`, naming the error and the endpoint.
    pub fn poll_failed_event(&self, error: &str) -> (r: HostEvent)
        ensures
            r.source@ == "metrics"@,
            r.event_type@ == EventKind::Error,
            r.severity == Severity::Warning,
            r.payload@ == seq![
                ("endpoint"@, PayloadValueView::Text(self.endpoint_view())),
                ("error"@, PayloadValueView::Text(error@)),
            ],
    {
        let payload = Payload::new()
            .with("endpoint", PayloadValue::Text(self.endpoint.clone()))
            .with("error", PayloadValue::Text(String::from_str(error)));
        let r = HostEvent {
            timestamp: now(),
            source: String::from_str("metrics"),
            event_type: EventType::Error,
            payload,
            severity: Severity::Warning,
        };
        assert(r.payload@ =~= seq![
            ("endpoint"@, PayloadValueView::Text(self.endpoint_view())),
            ("error"@, PayloadValueView::Text(error@)),
        ]);
        r
    }
}

} // verus!
