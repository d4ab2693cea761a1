//! The pure decision layer of the metrics observation API.
//!
//! The host captures metric events from its registry and serves them over
//! subscription streams; capturing and streaming are the host's I/O. What
//! is decided per captured metric — which stream it belongs to, and which
//! metric answers a per-component query — stands here, over a plain model
//! of one captured metric: its name, its capture instant as milliseconds
//! since the Unix epoch, its tags, and its reading as an opaque IEEE-754
//! bit pattern that this layer never interprets.

use crate::symbols::SymbolTable;
use vstd::prelude::*;

verus! {

/// The reading a captured metric carries. The payload is the IEEE-754 bit
/// pattern of the reading; interpreting it is the host's business.
#[derive(Debug)]
pub enum MetricValue {
    /// A monotonically increasing reading.
    Counter { bits: u64 },
    /// A point-in-time reading.
    Gauge { bits: u64 },
}

/// One captured metric event.
#[derive(Debug)]
pub struct Metric {
    pub name: String,
    /// The capture instant, as milliseconds since the Unix epoch.
    pub timestamp: Option<i64>,
    pub tags: SymbolTable<String>,
    pub value: MetricValue,
}

impl Metric {
    /// Whether this metric carries `key` with exactly the value `value`.
    pub fn tag_matches(&self, key: &String, value: &String) -> (b: bool)
        ensures
            b == (self.tags@.contains_key(key@) && self.tags@[key@]@ == value@),
    {
        match self.tags.lookup(key) {
            Some(v) => *v == *value,
            None => false,
        }
    }

    /// The value this metric carries for `key`, when it carries the tag.
    pub fn tag_value(&self, key: &String) -> (r: Option<&String>)
        ensures
            match r {
                Some(v) => self.tags@.contains_key(key@) && *v == self.tags@[key@],
                None => !self.tags@.contains_key(key@),
            },
    {
        self.tags.lookup(key)
    }
}

/// How long the instance has been running.
#[derive(Debug)]
pub struct Uptime {
    pub metric: Metric,
}

impl Uptime {
    pub fn new(metric: Metric) -> (r: Self)
        ensures
            r.metric == metric,
    {
        Uptime { metric }
    }
}

/// The total of processed events.
#[derive(Debug)]
pub struct EventsProcessedTotal {
    pub metric: Metric,
}

impl EventsProcessedTotal {
    pub fn new(metric: Metric) -> (r: Self)
        ensures
            r.metric == metric,
    {
        EventsProcessedTotal { metric }
    }
}

/// The total of processed bytes.
#[derive(Debug)]
pub struct ProcessedBytesTotal {
    pub metric: Metric,
}

impl ProcessedBytesTotal {
    pub fn new(metric: Metric) -> (r: Self)
        ensures
            r.metric == metric,
    {
        ProcessedBytesTotal { metric }
    }
}

/// The total of errors, over all components.
#[derive(Debug)]
pub struct ErrorsTotal {
    pub metric: Metric,
}

impl ErrorsTotal {
    pub fn new(metric: Metric) -> (r: Self)
        ensures
            r.metric == metric,
    {
        ErrorsTotal { metric }
    }
}

/// The total of processed events, reported per component.
#[derive(Debug)]
pub struct ComponentEventsProcessedTotal {
    pub metric: Metric,
}

impl ComponentEventsProcessedTotal {
    pub fn new(metric: Metric) -> (r: Self)
        ensures
            r.metric == metric,
    {
        ComponentEventsProcessedTotal { metric }
    }
}

/// The total of processed bytes, reported per component.
#[derive(Debug)]
pub struct ComponentProcessedBytesTotal {
    pub metric: Metric,
}

impl ComponentProcessedBytesTotal {
    pub fn new(metric: Metric) -> (r: Self)
        ensures
            r.metric == metric,
    {
        ComponentProcessedBytesTotal { metric }
    }
}

/// The total of errors, reported per component.
#[derive(Debug)]
pub struct ComponentErrorsTotal {
    pub metric: Metric,
}

impl ComponentErrorsTotal {
    pub fn new(metric: Metric) -> (r: Self)
        ensures
            r.metric == metric,
    {
        ComponentErrorsTotal { metric }
    }
}

/// The metric kinds the combined subscription stream serves.
#[derive(Debug)]
pub enum MetricType {
    Uptime(Uptime),
    EventsProcessedTotal(EventsProcessedTotal),
    ProcessedBytesTotal(ProcessedBytesTotal),
}

/// The root of the metrics query API; its host-metric gathering is the
/// host's I/O.
#[derive(Default)]
pub struct MetricsQuery;

/// The root of the metrics subscription API. Each method decides, for one
/// captured metric, whether that metric belongs to the endpoint's stream,
/// and wraps it for the API when it does; the host applies the decision to
/// every metric its capture interval yields.
#[derive(Default)]
pub struct MetricsSubscription;

/// Whether `s` ends in `suffix`.
pub open spec fn has_suffix(s: Seq<char>, suffix: Seq<char>) -> bool {
    s.len() >= suffix.len() && s.subrange(s.len() - suffix.len(), s.len() as int) == suffix
}

fn str_has_suffix(s: &String, suffix: &str) -> (b: bool)
    ensures
        b == has_suffix(s@, suffix@),
{
    let n = s.as_str().unicode_len();
    let m = suffix.unicode_len();
    if n < m {
        false
    } else {
        let tail = s.as_str().substring_char(n - m, n);
        tail.to_owned() == suffix.to_owned()
    }
}

impl MetricsSubscription {
    /// The uptime stream serves exactly the metrics named `uptime_seconds`.
    pub fn uptime(&self, m: Metric) -> (r: Option<Uptime>)
        ensures
            m.name@ == "uptime_seconds"@ ==> (r matches Some(u) && u.metric == m),
            m.name@ != "uptime_seconds"@ ==> r is None,
    {
        if m.name == String::from_str("uptime_seconds") {
            Some(Uptime::new(m))
        } else {
            None
        }
    }

    /// The processed-events stream serves exactly the metrics named
    /// `events_processed_total`.
    pub fn events_processed_total(&self, m: Metric) -> (r: Option<EventsProcessedTotal>)
        ensures
            m.name@ == "events_processed_total"@ ==> (r matches Some(t) && t.metric == m),
            m.name@ != "events_processed_total"@ ==> r is None,
    {
        if m.name == String::from_str("events_processed_total") {
            Some(EventsProcessedTotal::new(m))
        } else {
            None
        }
    }

    /// The per-component processed-events stream keeps, of the per-component
    /// counter metrics the host hands it, exactly those named
    /// `events_processed_total`.
    pub fn component_events_processed_total(&self, m: Metric) -> (r: Option<
        ComponentEventsProcessedTotal,
    >)
        ensures
            m.name@ == "events_processed_total"@ ==> (r matches Some(t) && t.metric == m),
            m.name@ != "events_processed_total"@ ==> r is None,
    {
        if m.name == String::from_str("events_processed_total") {
            Some(ComponentEventsProcessedTotal::new(m))
        } else {
            None
        }
    }

    /// The processed-bytes stream serves exactly the metrics named
    /// `processed_bytes_total`.
    pub fn processed_bytes_total(&self, m: Metric) -> (r: Option<ProcessedBytesTotal>)
        ensures
            m.name@ == "processed_bytes_total"@ ==> (r matches Some(t) && t.metric == m),
            m.name@ != "processed_bytes_total"@ ==> r is None,
    {
        if m.name == String::from_str("processed_bytes_total") {
            Some(ProcessedBytesTotal::new(m))
        } else {
            None
        }
    }

    /// The per-component processed-bytes stream keeps exactly the metrics
    /// named `processed_bytes_total`.
    pub fn component_processed_bytes_total(&self, m: Metric) -> (r: Option<
        ComponentProcessedBytesTotal,
    >)
        ensures
            m.name@ == "processed_bytes_total"@ ==> (r matches Some(t) && t.metric == m),
            m.name@ != "processed_bytes_total"@ ==> r is None,
    {
        if m.name == String::from_str("processed_bytes_total") {
            Some(ComponentProcessedBytesTotal::new(m))
        } else {
            None
        }
    }

    /// The errors stream serves exactly the metrics whose name ends in
    /// `_errors_total`.
    pub fn errors_total(&self, m: Metric) -> (r: Option<ErrorsTotal>)
        ensures
            has_suffix(m.name@, "_errors_total"@) ==> (r matches Some(t) && t.metric == m),
            !has_suffix(m.name@, "_errors_total"@) ==> r is None,
    {
        if str_has_suffix(&m.name, "_errors_total") {
            Some(ErrorsTotal::new(m))
        } else {
            None
        }
    }

    /// The per-component errors stream keeps exactly the metrics whose name
    /// ends in `_errors_total`.
    pub fn component_errors_total(&self, m: Metric) -> (r: Option<ComponentErrorsTotal>)
        ensures
            has_suffix(m.name@, "_errors_total"@) ==> (r matches Some(t) && t.metric == m),
            !has_suffix(m.name@, "_errors_total"@) ==> r is None,
    {
        if str_has_suffix(&m.name, "_errors_total") {
            Some(ComponentErrorsTotal::new(m))
        } else {
            None
        }
    }

    /// The combined stream serves the three named metric kinds and nothing
    /// else.
    pub fn metrics(&self, m: Metric) -> (r: Option<MetricType>)
        ensures
            m.name@ == "uptime_seconds"@ ==> (r matches Some(MetricType::Uptime(u)) && u.metric
                == m),
            m.name@ == "events_processed_total"@ ==> (r matches Some(
                MetricType::EventsProcessedTotal(t),
            ) && t.metric == m),
            m.name@ == "processed_bytes_total"@ ==> (r matches Some(
                MetricType::ProcessedBytesTotal(t),
            ) && t.metric == m),
            m.name@ != "uptime_seconds"@ && m.name@ != "events_processed_total"@ && m.name@
                != "processed_bytes_total"@ ==> r is None,
    {
        proof {
            reveal_strlit("uptime_seconds");
            reveal_strlit("events_processed_total");
            reveal_strlit("processed_bytes_total");
            assert("uptime_seconds"@.len() == 14);
            assert("events_processed_total"@.len() == 22);
            assert("processed_bytes_total"@.len() == 21);
        }
        if m.name == String::from_str("uptime_seconds") {
            Some(MetricType::Uptime(Uptime::new(m)))
        } else if m.name == String::from_str("events_processed_total") {
            Some(MetricType::EventsProcessedTotal(EventsProcessedTotal::new(m)))
        } else if m.name == String::from_str("processed_bytes_total") {
            Some(MetricType::ProcessedBytesTotal(ProcessedBytesTotal::new(m)))
        } else {
            None
        }
    }
}

/// Whether one captured metric is the processed-events counter of the named
/// component.
pub open spec fn events_processed_match(m: Metric, component_name: Seq<char>) -> bool {
    m.name@ == "events_processed_total"@ && m.tags@.contains_key("component_name"@)
        && m.tags@["component_name"@]@ == component_name
}

fn is_events_processed_for(m: &Metric, component_name: &String) -> (b: bool)
    ensures
        b == events_processed_match(*m, component_name@),
{
    if m.name == String::from_str("events_processed_total") {
        m.tag_matches(&String::from_str("component_name"), component_name)
    } else {
        false
    }
}

/// The events processed by component name: of the metrics captured from the
/// host's registry, the first processed-events counter tagged with that
/// component name, wrapped for the API; `None` when no captured metric
/// matches.
pub fn component_events_processed_total(metrics: Vec<Metric>, component_name: String) -> (r:
    Option<EventsProcessedTotal>)
    ensures
        match r {
            Some(t) => exists|k: int|
                0 <= k < metrics@.len() && #[trigger] events_processed_match(
                    metrics@[k],
                    component_name@,
                ) && t.metric == metrics@[k] && (forall|j: int|
                    0 <= j < k ==> !events_processed_match(metrics@[j], component_name@)),
            None => forall|k: int|
                0 <= k < metrics@.len() ==> !events_processed_match(
                    metrics@[k],
                    component_name@,
                ),
        },
{
    let mut ms = metrics;
    let mut idx: usize = 0;
    while idx < ms.len()
        invariant
            ms@ == metrics@,
            idx <= ms@.len(),
            forall|j: int| 0 <= j < idx ==> !events_processed_match(metrics@[j], component_name@),
        decreases ms@.len() - idx,
    {
        if is_events_processed_for(&ms[idx], &component_name) {
            let m = ms.remove(idx);
            return Some(EventsProcessedTotal::new(m));
        }
        idx = idx + 1;
    }
    None
}

} // verus!
