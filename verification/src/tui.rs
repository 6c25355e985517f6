//! The screens and records of the terminal interface that carry no
//! terminal state: which screen is shown, the telemetry tabs, the model in
//! use, and a request to load a model.
use vstd::prelude::*;

verus! {

/// The screen the terminal interface shows.
#[derive(Clone, Copy, Debug, PartialEq, Eq, Structural)]
pub enum Screen {
    Welcome,
    Picker,
    Loading,
    Bench,
    Folder,
    Recording,
    Processing,
    Telemetry,
    DirectoryInput,
    Help,
    Error,
}

/// A tab of the telemetry screen.
#[derive(Clone, Copy, Debug, PartialEq, Eq, Structural)]
pub enum TelemetryTab {
    Overview,
    Metrics,
    Runs,
    Logs,
}

/// The position of a tab, from the left.
pub open spec fn tab_position(tab: TelemetryTab) -> usize {
    match tab {
        TelemetryTab::Overview => 0,
        TelemetryTab::Metrics => 1,
        TelemetryTab::Runs => 2,
        TelemetryTab::Logs => 3,
    }
}

impl TelemetryTab {
    /// The position of the tab, from the left.
    pub fn index(self) -> (r: usize)
        ensures
            r == tab_position(self),
    {
        match self {
            TelemetryTab::Overview => 0,
            TelemetryTab::Metrics => 1,
            TelemetryTab::Runs => 2,
            TelemetryTab::Logs => 3,
        }
    }
}

/// Tabs have distinct positions, from 0 to 3.
pub proof fn law_tab_positions(a: TelemetryTab, b: TelemetryTab)
    ensures
        tab_position(a) < 4,
        tab_position(a) == tab_position(b) ==> a == b,
{
}

/// The model in use.
#[derive(Debug)]
pub struct ActiveModel {
    pub id: String,
    pub family: String,
    pub backend: String,
    pub runtime: Option<String>,
}

/// A request to the worker to load a model.
#[derive(Debug)]
pub struct ModelLoadRequest {
    pub request_id: u64,
    pub model_id: String,
    pub manifest_path: String,
    pub max_seconds: u32,
    pub language: Option<String>,
    pub dictionary: Vec<String>,
    pub switch_from: Option<String>,
}

} // verus!
