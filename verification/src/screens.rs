//! The text that the model picker shows: the details of the selected model,
//! what Enter does with it, and the panel shown without a model.
use vstd::prelude::*;
use vstd::string::StringExecFns;
use crate::layout::yes_no;
use crate::model_catalog::{availability_label, missing_text, AdapterAvailability, CatalogEntry, ModelCatalog};
use crate::text::{copy_string, string_views};

verus! {

/// The text of an optional value, or `absent` without one.
pub open spec fn text_or(o: Option<String>, absent: Seq<char>) -> Seq<char> {
    match o {
        Some(s) => s@,
        None => absent,
    }
}

/// What Enter does with a model, by the availability of its adapter.
pub open spec fn picker_hint_text(a: AdapterAvailability) -> Seq<char> {
    match a {
        AdapterAvailability::Unsupported => "Unsupported model family; add a matching adapter before selecting it."@,
        AdapterAvailability::ArtifactMissing => "[Enter] download the verified model artifacts automatically. [r] rescan."@,
        AdapterAvailability::Compiled => "[Enter] load this candidate"@,
        AdapterAvailability::Cached => "[Enter] use the validated cached adapter; a quick launcher restart may occur."@,
        AdapterAvailability::Checking => "[Enter] load or prepare this adapter; cache check is still running."@,
        AdapterAvailability::Prepare => "[Enter] prepare adapter and restart automatically. Requires source checkout, Cargo and native toolchain; may download build dependencies/runtime packages. Settings and saved run reports retained; live metrics/logs reset. [Esc] back."@,
    }
}

/// `yes` or `no`.
pub open spec fn yes_no_text(b: bool) -> Seq<char> {
    if b {
        "yes"@
    } else {
        "no"@
    }
}

/// The lines that describe a model in the picker, given its adapter's
/// availability.
pub open spec fn picker_detail_lines(e: CatalogEntry, a: AdapterAvailability) -> Seq<Seq<char>> {
    seq![
        e.manifest.id@,
        "Family:       "@ + e.manifest.family@,
        "Runtime:      "@ + text_or(e.manifest.runtime, "not specified"@),
        "Revision:     "@ + text_or(e.manifest.revision, "not specified"@),
        "Model:        "@ + e.model_path@,
        "Size:         "@ + text_or(e.manifest.model_size, "not specified"@),
        "Adapter:      "@ + availability_label(a),
        "Artifacts:    "@ + if e.missing_paths@.len() == 0 {
            "available"@
        } else {
            "missing"@
        },
        "Missing:      "@ + if e.missing_paths@.len() == 0 {
            "none"@
        } else {
            missing_text(e)
        },
        "Timestamps:   "@ + yes_no_text(e.manifest.timestamps),
        "Streaming:    "@ + yes_no_text(e.manifest.streaming),
        Seq::<char>::empty(),
        picker_hint_text(a),
    ]
}

/// The picker's detail panel: the selected model where the selection is on
/// one, else the manifest's error, else a note that the manifest lists no
/// model.
pub open spec fn picker_panel_lines(c: ModelCatalog, index: int, a: AdapterAvailability) -> Seq<Seq<char>> {
    if 0 <= index < c.entries@.len() {
        picker_detail_lines(c.entries@[index], a)
    } else if c.error is Some {
        seq!["Manifest error"@, Seq::<char>::empty(), c.error->0@]
    } else {
        seq!["No model entries found."@]
    }
}

/// What Enter does with a model, by the availability of its adapter.
pub fn picker_hint(a: AdapterAvailability) -> (r: &'static str)
    ensures
        r@ == picker_hint_text(a),
{
    match a {
        AdapterAvailability::Unsupported => "Unsupported model family; add a matching adapter before selecting it.",
        AdapterAvailability::ArtifactMissing => "[Enter] download the verified model artifacts automatically. [r] rescan.",
        AdapterAvailability::Compiled => "[Enter] load this candidate",
        AdapterAvailability::Cached => "[Enter] use the validated cached adapter; a quick launcher restart may occur.",
        AdapterAvailability::Checking => "[Enter] load or prepare this adapter; cache check is still running.",
        AdapterAvailability::Prepare => "[Enter] prepare adapter and restart automatically. Requires source checkout, Cargo and native toolchain; may download build dependencies/runtime packages. Settings and saved run reports retained; live metrics/logs reset. [Esc] back.",
    }
}

fn labelled(label: &str, value: &str) -> (r: String)
    ensures
        r@ == label@ + value@,
{
    let mut r = label.to_owned();
    r.append(value);
    r
}

fn optional_text<'a>(o: &'a Option<String>, absent: &'a str) -> (r: &'a str)
    ensures
        r@ == text_or(*o, absent@),
{
    match o {
        Some(s) => s.as_str(),
        None => absent,
    }
}

/// The lines that describe a model in the picker.
pub fn picker_details(entry: &CatalogEntry, a: AdapterAvailability) -> (r: Vec<String>)
    ensures
        string_views(r@) == picker_detail_lines(*entry, a),
{
    let m = &entry.manifest;
    let available = entry.missing_paths.len() == 0;
    let missing = if available {
        "none".to_owned()
    } else {
        ModelCatalog::missing_summary(entry)
    };
    let mut r: Vec<String> = Vec::new();
    r.push(copy_string(&m.id));
    r.push(labelled("Family:       ", m.family.as_str()));
    r.push(labelled("Runtime:      ", optional_text(&m.runtime, "not specified")));
    r.push(labelled("Revision:     ", optional_text(&m.revision, "not specified")));
    r.push(labelled("Model:        ", entry.model_path.as_str()));
    r.push(labelled("Size:         ", optional_text(&m.model_size, "not specified")));
    r.push(labelled("Adapter:      ", a.label()));
    r.push(
        labelled(
            "Artifacts:    ",
            if available {
                "available"
            } else {
                "missing"
            },
        ),
    );
    r.push(labelled("Missing:      ", missing.as_str()));
    r.push(labelled("Timestamps:   ", yes_no(m.timestamps)));
    r.push(labelled("Streaming:    ", yes_no(m.streaming)));
    r.push(String::new());
    r.push(picker_hint(a).to_owned());
    assert(string_views(r@) =~= picker_detail_lines(*entry, a));
    r
}

/// The picker's detail panel for the model at `index`.
pub fn picker_panel(catalog: &ModelCatalog, index: usize, a: AdapterAvailability) -> (r: Vec<String>)
    ensures
        string_views(r@) == picker_panel_lines(*catalog, index as int, a),
{
    if index < catalog.entries.len() {
        return picker_details(&catalog.entries[index], a);
    }
    let mut r: Vec<String> = Vec::new();
    match &catalog.error {
        Some(e) => {
            r.push("Manifest error".to_owned());
            r.push(String::new());
            r.push(copy_string(e));
        },
        None => r.push("No model entries found.".to_owned()),
    }
    assert(string_views(r@) =~= picker_panel_lines(*catalog, index as int, a));
    r
}

} // verus!
