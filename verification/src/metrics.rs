//! Metric vocabulary and the rules that decide which metric events are
//! published: units, scopes, pipeline stages and their metric names, the
//! per-run activation flags, explicit measurements, and the metric keys and
//! categories under which the telemetry views group events.
use vstd::prelude::*;
use crate::text::copy_string;

verus! {

/// The unit of a metric value.
#[derive(Clone, Copy, Debug, PartialEq, Eq, Structural)]
pub enum MetricUnit {
    Milliseconds,
    Count,
    Percent,
    Bytes,
    Celsius,
    Joules,
    Watts,
    WattHours,
    Status,
    Boolean,
}

/// What a metric describes: one run, the process, the system or the
/// device.
#[derive(Clone, Copy, Debug, PartialEq, Eq, Structural)]
pub enum MetricScope {
    Run,
    Process,
    System,
    Device,
}

/// A timed stage of the speech pipeline.
#[derive(Clone, Copy, Debug, PartialEq, Eq, Structural)]
pub enum Stage {
    AudioNormalization,
    SpeechGate,
    WhisperTranscription,
    IncidentAnalysis,
    EndToEndRequest,
}

/// The metric name of a stage's duration.
pub open spec fn stage_metric_name(stage: Stage) -> Seq<char> {
    match stage {
        Stage::AudioNormalization => "audio_normalization_duration_ms"@,
        Stage::SpeechGate => "speech_gate_duration_ms"@,
        Stage::WhisperTranscription => "whisper_transcription_duration_ms"@,
        Stage::IncidentAnalysis => "incident_analysis_duration_ms"@,
        Stage::EndToEndRequest => "end_to_end_request_duration_ms"@,
    }
}

/// The component a stage's duration is attributed to.
pub open spec fn stage_source_name(stage: Stage) -> Seq<char> {
    match stage {
        Stage::AudioNormalization => "core.audio"@,
        Stage::SpeechGate => "core.audio"@,
        Stage::WhisperTranscription => "core.transcription"@,
        Stage::IncidentAnalysis => "core.incident"@,
        Stage::EndToEndRequest => "core.workflow"@,
    }
}

impl Stage {
    /// The metric name of the stage's duration, its scope (always the run),
    /// and whether it is recorded only while an incident is active (only
    /// incident analysis is).
    pub fn sample_details(self) -> (r: (&'static str, MetricScope, bool))
        ensures
            r.0@ == stage_metric_name(self),
            r.1 == MetricScope::Run,
            r.2 == (self == Stage::IncidentAnalysis),
    {
        match self {
            Stage::AudioNormalization => ("audio_normalization_duration_ms", MetricScope::Run, false),
            Stage::SpeechGate => ("speech_gate_duration_ms", MetricScope::Run, false),
            Stage::WhisperTranscription => (
                "whisper_transcription_duration_ms",
                MetricScope::Run,
                false,
            ),
            Stage::IncidentAnalysis => ("incident_analysis_duration_ms", MetricScope::Run, true),
            Stage::EndToEndRequest => ("end_to_end_request_duration_ms", MetricScope::Run, false),
        }
    }
}

/// The component a stage's duration is attributed to.
pub fn stage_source(stage: Stage) -> (r: &'static str)
    ensures
        r@ == stage_source_name(stage),
{
    match stage {
        Stage::AudioNormalization => "core.audio",
        Stage::SpeechGate => "core.audio",
        Stage::WhisperTranscription => "core.transcription",
        Stage::IncidentAnalysis => "core.incident",
        Stage::EndToEndRequest => "core.workflow",
    }
}

// ---------------------------------------------------------------------------
// Activation
// ---------------------------------------------------------------------------

/// The per-run activation flags of metrics.
#[derive(Clone, Copy, Debug, PartialEq, Eq, Structural)]
pub struct MetricsConfig {
    pub enabled: bool,
    pub incident_active: bool,
    pub resource_sampling: bool,
}

impl MetricsConfig {
    /// Metrics on, with no incident active and no resource sampling.
    pub fn enabled() -> (c: Self)
        ensures
            c.enabled,
            !c.incident_active,
            !c.resource_sampling,
    {
        MetricsConfig { enabled: true, incident_active: false, resource_sampling: false }
    }

    /// Whether a sample is published: metrics are on, and a sample meant
    /// only for incidents is published only while an incident is active.
    pub fn admits(&self, incident_only: bool) -> (r: bool)
        ensures
            r == (self.enabled && (!incident_only || self.incident_active)),
    {
        self.enabled && (!incident_only || self.incident_active)
    }

    /// Whether resources are sampled: metrics and resource sampling are on.
    pub fn resource_sampling_enabled(&self) -> (r: bool)
        ensures
            r == (self.enabled && self.resource_sampling),
    {
        self.enabled && self.resource_sampling
    }
}

impl Default for MetricsConfig {
    /// Everything off.
    fn default() -> (c: Self)
        ensures
            !c.enabled,
            !c.incident_active,
            !c.resource_sampling,
    {
        MetricsConfig { enabled: false, incident_active: false, resource_sampling: false }
    }
}

/// Nothing is published while metrics are off, and an incident-only sample
/// is never published outside an incident.
pub proof fn law_incident_only_filter(c: MetricsConfig, incident_only: bool)
    ensures
        !c.enabled ==> !(c.enabled && (!incident_only || c.incident_active)),
        incident_only && !c.incident_active ==> !(c.enabled && (!incident_only
            || c.incident_active)),
{
}

// ---------------------------------------------------------------------------
// Measurements
// ---------------------------------------------------------------------------

/// A measured value, or the reason why it could not be measured.
#[derive(Debug)]
pub enum Measurement<T> {
    Available(T),
    Unavailable { reason: String },
}

impl<T> Measurement<T> {
    /// A measured value.
    pub fn available(value: T) -> (m: Self)
        ensures
            m == Measurement::Available(value),
    {
        Measurement::Available(value)
    }

    /// A value that could not be measured, with the reason.
    pub fn unavailable(reason: String) -> (m: Self)
        ensures
            m == (Measurement::<T>::Unavailable { reason }),
    {
        Measurement::Unavailable { reason }
    }

    /// Whether the value was measured.
    pub fn is_available(&self) -> (r: bool)
        ensures
            r == (*self is Available),
    {
        match self {
            Measurement::Available(_) => true,
            Measurement::Unavailable { .. } => false,
        }
    }

    /// The measurement, borrowing the value.
    pub fn as_ref(&self) -> (m: Measurement<&T>)
        ensures
            match *self {
                Measurement::Available(v) => m matches Measurement::Available(r) && *r == v,
                Measurement::Unavailable { reason } => m == (Measurement::<&T>::Unavailable {
                    reason,
                }),
            },
    {
        match self {
            Measurement::Available(value) => Measurement::Available(value),
            Measurement::Unavailable { reason } => Measurement::Unavailable {
                reason: copy_string(reason),
            },
        }
    }
}

/// What a resource provider intends to measure.
#[derive(Clone, Copy, Debug, PartialEq, Eq, Structural)]
pub struct ResourceCapabilities {
    pub process_cpu_percent: bool,
    pub system_cpu_percent: bool,
    pub process_ram_bytes: bool,
    pub system_ram_bytes: bool,
    pub gpu_usage_percent: bool,
    pub temperature_celsius: bool,
    pub battery_drain_percent: bool,
    pub whole_device_power_watts: bool,
    pub energy_joules: bool,
    pub energy_watt_hours: bool,
}

impl Default for ResourceCapabilities {
    /// Nothing is measured.
    fn default() -> (c: Self)
        ensures
            c == (ResourceCapabilities {
                process_cpu_percent: false,
                system_cpu_percent: false,
                process_ram_bytes: false,
                system_ram_bytes: false,
                gpu_usage_percent: false,
                temperature_celsius: false,
                battery_drain_percent: false,
                whole_device_power_watts: false,
                energy_joules: false,
                energy_watt_hours: false,
            }),
    {
        ResourceCapabilities {
            process_cpu_percent: false,
            system_cpu_percent: false,
            process_ram_bytes: false,
            system_ram_bytes: false,
            gpu_usage_percent: false,
            temperature_celsius: false,
            battery_drain_percent: false,
            whole_device_power_watts: false,
            energy_joules: false,
            energy_watt_hours: false,
        }
    }
}

/// The metric under which one field of a resource snapshot is recorded.
#[derive(Clone, Copy, Debug, PartialEq, Eq)]
pub struct ResourceMetric {
    pub name: &'static str,
    pub unit: MetricUnit,
    pub scope: MetricScope,
}

/// The metrics of a resource snapshot, in the order its fields are
/// recorded: process and system CPU, process and system memory, GPU,
/// temperature, battery drain, whole-device power, energy in joules and in
/// watt-hours.
pub open spec fn resource_metric_list() -> Seq<(Seq<char>, MetricUnit, MetricScope)> {
    seq![
        ("process_cpu_percent"@, MetricUnit::Percent, MetricScope::Process),
        ("system_cpu_percent"@, MetricUnit::Percent, MetricScope::System),
        ("ram_usage_bytes"@, MetricUnit::Bytes, MetricScope::Process),
        ("ram_usage_bytes"@, MetricUnit::Bytes, MetricScope::System),
        ("gpu_usage_percent"@, MetricUnit::Percent, MetricScope::Device),
        ("temperature_celsius"@, MetricUnit::Celsius, MetricScope::Device),
        ("battery_drain_percent"@, MetricUnit::Percent, MetricScope::Device),
        ("whole_device_power_watts"@, MetricUnit::Watts, MetricScope::Device),
        ("energy_joules"@, MetricUnit::Joules, MetricScope::Device),
        ("energy_watt_hours"@, MetricUnit::WattHours, MetricScope::Device),
    ]
}

/// The metrics of a resource snapshot, in recording order.
pub fn resource_metrics() -> (r: Vec<ResourceMetric>)
    ensures
        r@.len() == resource_metric_list().len(),
        forall|i: int|
            0 <= i < r@.len() ==> (#[trigger] r@[i]).name@ == resource_metric_list()[i].0
                && r@[i].unit == resource_metric_list()[i].1 && r@[i].scope
                == resource_metric_list()[i].2,
{
    let r = vec![
        ResourceMetric { name: "process_cpu_percent", unit: MetricUnit::Percent, scope: MetricScope::Process },
        ResourceMetric { name: "system_cpu_percent", unit: MetricUnit::Percent, scope: MetricScope::System },
        ResourceMetric { name: "ram_usage_bytes", unit: MetricUnit::Bytes, scope: MetricScope::Process },
        ResourceMetric { name: "ram_usage_bytes", unit: MetricUnit::Bytes, scope: MetricScope::System },
        ResourceMetric { name: "gpu_usage_percent", unit: MetricUnit::Percent, scope: MetricScope::Device },
        ResourceMetric { name: "temperature_celsius", unit: MetricUnit::Celsius, scope: MetricScope::Device },
        ResourceMetric { name: "battery_drain_percent", unit: MetricUnit::Percent, scope: MetricScope::Device },
        ResourceMetric { name: "whole_device_power_watts", unit: MetricUnit::Watts, scope: MetricScope::Device },
        ResourceMetric { name: "energy_joules", unit: MetricUnit::Joules, scope: MetricScope::Device },
        ResourceMetric { name: "energy_watt_hours", unit: MetricUnit::WattHours, scope: MetricScope::Device },
    ];
    r
}

// ---------------------------------------------------------------------------
// Telemetry grouping
// ---------------------------------------------------------------------------

/// The unit as the telemetry views print it.
pub open spec fn unit_label(unit: MetricUnit) -> Seq<char> {
    match unit {
        MetricUnit::Milliseconds => "ms"@,
        MetricUnit::Count => "count"@,
        MetricUnit::Percent => "%"@,
        MetricUnit::Bytes => "bytes"@,
        MetricUnit::Celsius => "°C"@,
        MetricUnit::Joules => "J"@,
        MetricUnit::Watts => "W"@,
        MetricUnit::WattHours => "Wh"@,
        MetricUnit::Status => "status"@,
        MetricUnit::Boolean => "bool"@,
    }
}

/// The category under which the telemetry views group a unit's metrics.
pub open spec fn unit_category(unit: MetricUnit) -> Seq<char> {
    match unit {
        MetricUnit::Milliseconds => "Timing"@,
        MetricUnit::Watts | MetricUnit::Joules | MetricUnit::WattHours => "Power / Energy"@,
        MetricUnit::Bytes | MetricUnit::Percent | MetricUnit::Celsius => "Resources"@,
        MetricUnit::Count => "Counts"@,
        MetricUnit::Status | MetricUnit::Boolean => "Status"@,
    }
}

/// The unit as the telemetry views print it.
pub fn unit_text(unit: MetricUnit) -> (r: &'static str)
    ensures
        r@ == unit_label(unit),
{
    match unit {
        MetricUnit::Milliseconds => "ms",
        MetricUnit::Count => "count",
        MetricUnit::Percent => "%",
        MetricUnit::Bytes => "bytes",
        MetricUnit::Celsius => "°C",
        MetricUnit::Joules => "J",
        MetricUnit::Watts => "W",
        MetricUnit::WattHours => "Wh",
        MetricUnit::Status => "status",
        MetricUnit::Boolean => "bool",
    }
}

/// The category under which the telemetry views group a unit's metrics.
pub fn category_for(unit: MetricUnit) -> (r: &'static str)
    ensures
        r@ == unit_category(unit),
{
    match unit {
        MetricUnit::Milliseconds => "Timing",
        MetricUnit::Watts | MetricUnit::Joules | MetricUnit::WattHours => "Power / Energy",
        MetricUnit::Bytes | MetricUnit::Percent | MetricUnit::Celsius => "Resources",
        MetricUnit::Count => "Counts",
        MetricUnit::Status | MetricUnit::Boolean => "Status",
    }
}

/// What identifies one metric series in the telemetry views.
#[derive(Debug)]
pub struct SeriesKey {
    pub name: String,
    pub category: String,
    pub scope: MetricScope,
    pub source: String,
    pub unit: MetricUnit,
}

impl SeriesKey {
    /// The series of an event with the given name, unit, scope and source;
    /// its category follows from the unit.
    pub fn of(name: &String, unit: MetricUnit, scope: MetricScope, source: &String) -> (k: Self)
        ensures
            k.name == *name,
            k.category@ == unit_category(unit),
            k.scope == scope,
            k.source == *source,
            k.unit == unit,
    {
        SeriesKey {
            name: copy_string(name),
            category: category_for(unit).to_owned(),
            scope,
            source: copy_string(source),
            unit,
        }
    }
}

/// A row of the metric list: a category heading or a series.
#[derive(Debug)]
pub enum MetricRow {
    Category(String),
    Metric(SeriesKey),
}

/// Whether two series keys are the same series.
pub open spec fn same_series(a: SeriesKey, b: SeriesKey) -> bool {
    &&& a.name@ == b.name@
    &&& a.category@ == b.category@
    &&& a.scope == b.scope
    &&& a.source@ == b.source@
    &&& a.unit == b.unit
}

/// Whether two series keys are the same series.
pub fn series_equal(a: &SeriesKey, b: &SeriesKey) -> (r: bool)
    ensures
        r == same_series(*a, *b),
{
    crate::text::str_eq(a.name.as_str(), b.name.as_str()) && crate::text::str_eq(
        a.category.as_str(),
        b.category.as_str(),
    ) && a.scope == b.scope && crate::text::str_eq(a.source.as_str(), b.source.as_str())
        && a.unit == b.unit
}

/// The rows of the metric list for series in display order: a category
/// heading before the first series of each run of equal categories.
pub open spec fn rows_for(keys: Seq<SeriesKey>) -> Seq<(bool, Seq<char>, int)>
    decreases keys.len(),
{
    if keys.len() == 0 {
        seq![]
    } else {
        let rest = rows_for(keys.drop_last());
        let k = keys.len() - 1;
        if k == 0 || keys[k - 1].category@ != keys[k].category@ {
            rest.push((true, keys[k].category@, k)).push((false, keys[k].category@, k))
        } else {
            rest.push((false, keys[k].category@, k))
        }
    }
}

/// A row's shape: `(heading, category, series index)`.
pub open spec fn row_shape(row: MetricRow, keys: Seq<SeriesKey>, i: int) -> (bool, Seq<char>, int) {
    match row {
        MetricRow::Category(c) => (true, c@, i),
        MetricRow::Metric(k) => (false, k.category@, i),
    }
}

/// Whether `rows` lists the series `keys` under their category headings,
/// each series row holding the same key as the series it stands for.
pub open spec fn rows_match(rows: Seq<MetricRow>, keys: Seq<SeriesKey>) -> bool {
    &&& rows.len() == rows_for(keys).len()
    &&& forall|i: int|
        0 <= i < rows.len() ==> {
            let (heading, category, k) = #[trigger] rows_for(keys)[i];
            &&& 0 <= k < keys.len()
            &&& heading ==> (rows[i] matches MetricRow::Category(c) && c@ == category)
            &&& !heading ==> (rows[i] matches MetricRow::Metric(m) && same_series(m, keys[k]))
        }
}

pub(crate) fn copy_key(k: &SeriesKey) -> (r: SeriesKey)
    ensures
        same_series(r, *k),
{
    SeriesKey {
        name: copy_string(&k.name),
        category: copy_string(&k.category),
        scope: k.scope,
        source: copy_string(&k.source),
        unit: k.unit,
    }
}

/// The rows of the metric list for series in display order.
pub fn metric_rows(keys: &Vec<SeriesKey>) -> (rows: Vec<MetricRow>)
    ensures
        rows_match(rows@, keys@),
{
    let mut rows: Vec<MetricRow> = Vec::new();
    let mut i: usize = 0;
    while i < keys.len()
        invariant
            i <= keys@.len(),
            rows_match(rows@, keys@.take(i as int)),
        decreases keys@.len() - i,
    {
        let ghost before = rows@;
        let ghost t0 = keys@.take(i as int);
        let ghost t1 = keys@.take(i as int + 1);
        assert(t1.drop_last() == t0);
        let heading = i == 0 || !crate::text::str_eq(
            keys[i - 1].category.as_str(),
            keys[i].category.as_str(),
        );
        if heading {
            rows.push(MetricRow::Category(copy_string(&keys[i].category)));
        }
        rows.push(MetricRow::Metric(copy_key(&keys[i])));
        proof {
            assert(rows_for(t1) == if heading {
                rows_for(t0).push((true, keys@[i as int].category@, i as int)).push(
                    (false, keys@[i as int].category@, i as int),
                )
            } else {
                rows_for(t0).push((false, keys@[i as int].category@, i as int))
            });
            assert forall|j: int| 0 <= j < rows@.len() implies {
                let (h, c, k) = #[trigger] rows_for(t1)[j];
                &&& 0 <= k < t1.len()
                &&& h ==> (rows@[j] matches MetricRow::Category(x) && x@ == c)
                &&& !h ==> (rows@[j] matches MetricRow::Metric(m) && same_series(m, t1[k]))
            } by {
                if j < before.len() {
                    assert(rows@[j] == before[j]);
                    assert(rows_for(t1)[j] == rows_for(t0)[j]);
                    let (h, c, k) = rows_for(t0)[j];
                    assert(t1[k] == t0[k]);
                }
            }
        }
        i += 1;
    }
    assert(keys@.take(keys@.len() as int) == keys@);
    rows
}

/// The row to highlight: the row of the selected series when it is listed,
/// else the first series row, else the first row.
pub open spec fn spec_selected_row(rows: Seq<MetricRow>, selected: Option<SeriesKey>) -> int {
    let fallback = match first_metric_row(rows, 0) {
        Some(i) => i,
        None => 0,
    };
    match selected {
        Some(s) => match first_row_of(rows, s, 0) {
            Some(i) => i,
            None => fallback,
        },
        None => fallback,
    }
}

/// The first series row at or after `i` whose key is `key`.
pub open spec fn first_row_of(rows: Seq<MetricRow>, key: SeriesKey, i: int) -> Option<int>
    decreases rows.len() - i,
{
    if i < 0 || i >= rows.len() {
        None
    } else if rows[i] matches MetricRow::Metric(k) && same_series(k, key) {
        Some(i)
    } else {
        first_row_of(rows, key, i + 1)
    }
}

/// The first series row at or after `i`.
pub open spec fn first_metric_row(rows: Seq<MetricRow>, i: int) -> Option<int>
    decreases rows.len() - i,
{
    if i < 0 || i >= rows.len() {
        None
    } else if rows[i] is Metric {
        Some(i)
    } else {
        first_metric_row(rows, i + 1)
    }
}

/// The row to highlight for the selected series.
pub fn selected_metric_index(rows: &Vec<MetricRow>, selected: &Option<SeriesKey>) -> (r: usize)
    ensures
        r as int == spec_selected_row(rows@, *selected),
{
    if let Some(s) = selected {
        let mut i: usize = 0;
        while i < rows.len()
            invariant
                i <= rows@.len(),
                *selected == Some(*s),
                first_row_of(rows@, *s, 0) == first_row_of(rows@, *s, i as int),
            decreases rows@.len() - i,
        {
            let hit = match &rows[i] {
                MetricRow::Metric(k) => series_equal(k, s),
                MetricRow::Category(_) => false,
            };
            if hit {
                assert(first_row_of(rows@, *s, i as int) == Some(i as int));
                return i;
            }
            i += 1;
        }
        assert(first_row_of(rows@, *s, 0) is None);
    }
    let mut i: usize = 0;
    while i < rows.len()
        invariant
            i <= rows@.len(),
            first_metric_row(rows@, 0) == first_metric_row(rows@, i as int),
            match *selected {
                Some(s) => first_row_of(rows@, s, 0) is None,
                None => true,
            },
        decreases rows@.len() - i,
    {
        if let MetricRow::Metric(_) = &rows[i] {
            assert(first_metric_row(rows@, i as int) == Some(i as int));
            return i;
        }
        i += 1;
    }
    0
}

/// The indices of the series rows, ascending.
pub open spec fn metric_positions(rows: Seq<MetricRow>) -> Seq<int>
    decreases rows.len(),
{
    if rows.len() == 0 {
        seq![]
    } else {
        let p = metric_positions(rows.drop_last());
        if rows.last() is Metric {
            p.push(rows.len() - 1)
        } else {
            p
        }
    }
}

/// The first index at or after `i` at which `m` holds `x`.
pub open spec fn position_of(m: Seq<int>, x: int, i: int) -> Option<int>
    decreases m.len() - i,
{
    if i < 0 || i >= m.len() {
        None
    } else if m[i] == x {
        Some(i)
    } else {
        position_of(m, x, i + 1)
    }
}

/// The series row selected after moving `delta` series rows from the
/// highlighted one (or from the first when the highlighted row is not a
/// series), staying on the list; `None` when there are no series.
pub open spec fn spec_moved_selection(rows: Seq<MetricRow>, selected: Option<SeriesKey>, delta: int) -> Option<
    int,
> {
    let m = metric_positions(rows);
    if m.len() == 0 {
        None
    } else {
        let current = spec_selected_row(rows, selected);
        let position = match position_of(m, current, 0) {
            Some(p) => p,
            None => 0,
        };
        let next = crate::folder::clamp(position + delta, 0, m.len() - 1);
        Some(m[next])
    }
}

proof fn lemma_metric_positions(rows: Seq<MetricRow>)
    ensures
        forall|k: int|
            0 <= k < metric_positions(rows).len() ==> 0 <= #[trigger] metric_positions(rows)[k]
                < rows.len() && rows[metric_positions(rows)[k]] is Metric,
        metric_positions(rows).len() <= rows.len(),
    decreases rows.len(),
{
    if rows.len() > 0 {
        lemma_metric_positions(rows.drop_last());
        let p = metric_positions(rows.drop_last());
        assert forall|k: int| 0 <= k < p.len() implies rows[p[k]] == rows.drop_last()[p[k]] by {}
    }
}

/// The row of the series selected after moving `delta` series rows, or
/// `None` when the list has no series.
pub fn moved_selection(rows: &Vec<MetricRow>, selected: &Option<SeriesKey>, delta: isize) -> (r:
    Option<usize>)
    ensures
        match spec_moved_selection(rows@, *selected, delta as int) {
            Some(i) => r == Some(i as usize) && 0 <= i < rows@.len() && rows@[i] is Metric,
            None => r is None,
        },
{
    proof {
        lemma_metric_positions(rows@);
    }
    let mut metrics: Vec<usize> = Vec::new();
    let mut i: usize = 0;
    while i < rows.len()
        invariant
            i <= rows@.len(),
            metrics@.map_values(|x: usize| x as int) == metric_positions(rows@.take(i as int)),
        decreases rows@.len() - i,
    {
        let ghost before = metrics@;
        assert(rows@.take(i as int + 1).drop_last() == rows@.take(i as int));
        if let MetricRow::Metric(_) = &rows[i] {
            metrics.push(i);
            assert(metrics@.map_values(|x: usize| x as int) =~= before.map_values(|x: usize| x as int).push(
                i as int,
            ));
        }
        i += 1;
    }
    assert(rows@.take(rows@.len() as int) == rows@);
    let ghost m = metric_positions(rows@);
    if metrics.len() == 0 {
        return None;
    }
    let current = selected_metric_index(rows, selected);
    let mut position: usize = 0;
    let mut p: usize = 0;
    let mut found = false;
    while p < metrics.len()
        invariant
            p <= metrics@.len(),
            metrics@.len() == m.len(),
            forall|k: int| 0 <= k < m.len() ==> #[trigger] m[k] == metrics@[k] as int,
            !found ==> position_of(m, current as int, 0) == position_of(m, current as int, p as int),
            found ==> position_of(m, current as int, 0) == Some(position as int),
            !found ==> position == 0,
            position < metrics@.len(),
        decreases metrics@.len() - p,
    {
        if !found && metrics[p] == current {
            assert(position_of(m, current as int, p as int) == Some(p as int));
            position = p;
            found = true;
        }
        p += 1;
    }
    assert(position as int == match position_of(m, current as int, 0) {
        Some(q) => q,
        None => 0,
    });
    let last = (metrics.len() - 1) as i128;
    let target = position as i128 + delta as i128;
    let next: usize = if target < 0 {
        0
    } else if target > last {
        (metrics.len() - 1)
    } else {
        target as usize
    };
    Some(metrics[next])
}

// ---------------------------------------------------------------------------
// Linux sysfs sensors
// ---------------------------------------------------------------------------

/// Whether a DRM entry is a card: `card` followed by one or more ASCII
/// digits (not a connector such as `card1-DP-1`, nor a render node).
pub open spec fn is_drm_card(name: Seq<char>) -> bool {
    &&& name.len() > 4
    &&& name.take(4) == "card"@
    &&& forall|i: int| 4 <= i < name.len() ==> '0' <= #[trigger] name[i] <= '9'
}

/// Whether a DRM entry is a card.
pub fn drm_card(name: &str) -> (r: bool)
    ensures
        r == is_drm_card(name@),
{
    let chars = crate::text::chars_of(name);
    if chars.len() <= 4 || !crate::text::has_prefix(name, "card") {
        proof {
            reveal_strlit("card");
            if chars@.len() > 4 {
                assert(!(name@.take(4) =~= "card"@)) by {
                    assert(!(name@.len() >= "card"@.len() && name@.subrange(0, 4) == "card"@));
                }
            }
        }
        return false;
    }
    proof {
        reveal_strlit("card");
        assert(name@.take(4) =~= "card"@);
    }
    let mut i: usize = 4;
    while i < chars.len()
        invariant
            4 <= i <= chars@.len(),
            chars@ == name@,
            forall|k: int| 4 <= k < i ==> '0' <= #[trigger] name@[k] <= '9',
        decreases chars.len() - i,
    {
        if !('0' <= chars[i] && chars[i] <= '9') {
            return false;
        }
        i += 1;
    }
    true
}

/// What a power supply reports about itself: its `type`, `scope` and
/// `present` files, where they could be read.
pub struct PowerSupply {
    pub path: String,
    pub kind: Option<String>,
    pub scope: Option<String>,
    pub present: Option<String>,
}

/// Whether a power supply is a present system battery: of type `Battery`,
/// not of scope `Device`, and not marked absent.
pub open spec fn is_system_battery(p: PowerSupply) -> bool {
    &&& p.kind matches Some(k) && k@ == "Battery"@
    &&& !(p.scope matches Some(s) && s@ == "Device"@)
    &&& !(p.present matches Some(v) && v@ == "0"@)
}

fn text_equals(o: &Option<String>, t: &str) -> (r: bool)
    ensures
        r == (o matches Some(s) && s@ == t@),
{
    match o {
        Some(s) => crate::text::str_eq(s.as_str(), t),
        None => false,
    }
}

/// Whether a power supply is a present system battery.
pub fn system_battery(p: &PowerSupply) -> (r: bool)
    ensures
        r == is_system_battery(*p),
{
    text_equals(&p.kind, "Battery") && !text_equals(&p.scope, "Device") && !text_equals(&p.present, "0")
}

/// The message when there is not exactly one system battery.
pub open spec fn battery_count_message() -> Seq<char> {
    "battery drain requires exactly one present system battery; absent or multiple batteries are not aggregated"@
}

/// The one present system battery, or an error where there is none or more
/// than one: batteries are never aggregated.
pub fn only_system_battery(supplies: &Vec<PowerSupply>) -> (r: Result<usize, String>)
    ensures
        match r {
            Ok(i) => i < supplies@.len() && is_system_battery(supplies@[i as int]) && forall|k: int|
                0 <= k < supplies@.len() && k != i ==> !is_system_battery(#[trigger] supplies@[k]),
            Err(m) => m@ == battery_count_message() && !(exists|i: int|
                0 <= i < supplies@.len() && is_system_battery(supplies@[i]) && forall|k: int|
                    0 <= k < supplies@.len() && k != i ==> !is_system_battery(#[trigger] supplies@[k])),
        },
{
    let mut found: Option<usize> = None;
    let mut i: usize = 0;
    while i < supplies.len()
        invariant
            i <= supplies@.len(),
            match found {
                Some(j) => j < i && is_system_battery(supplies@[j as int]) && forall|k: int|
                    0 <= k < i && k != j ==> !is_system_battery(#[trigger] supplies@[k]),
                None => forall|k: int| 0 <= k < i ==> !is_system_battery(#[trigger] supplies@[k]),
            },
        decreases supplies.len() - i,
    {
        if system_battery(&supplies[i]) {
            if found.is_some() {
                let j = found.unwrap();
                proof {
                    assert(is_system_battery(supplies@[j as int]));
                    assert(is_system_battery(supplies@[i as int]));
                }
                return Err("battery drain requires exactly one present system battery; absent or multiple batteries are not aggregated".to_owned());
            }
            found = Some(i);
        }
        i += 1;
    }
    match found {
        Some(j) => Ok(j),
        None => Err("battery drain requires exactly one present system battery; absent or multiple batteries are not aggregated".to_owned()),
    }
}

} // verus!
