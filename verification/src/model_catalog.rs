//! The model catalog of the terminal interface: each manifest model with
//! the artifact paths it needs, which of them are missing, and whether its
//! adapter can be used now, was built before, or has to be prepared.
use vstd::prelude::*;
use vstd::string::StringExecFns;
use crate::model::{
    copy_entry, family_compiled, family_supported, resolve_artifact, resolved_artifact,
    same_entry, spec_family_compiled, spec_family_supported, CompiledFeatures, ModelEntry,
    ModelManifest,
};
use crate::text::{chars_eq, chars_of, copy_string, join, join_chars, string_of, views};

verus! {

/// A manifest model as the catalog shows it.
#[derive(Debug)]
pub struct CatalogEntry {
    pub manifest: ModelEntry,
    pub model_path: String,
    pub missing_paths: Vec<String>,
    pub adapter_compiled: bool,
}

/// The catalog of the manifest at `manifest_path`, or the error that kept
/// it from being read.
#[derive(Debug)]
pub struct ModelCatalog {
    pub manifest_path: String,
    pub entries: Vec<CatalogEntry>,
    pub error: Option<String>,
}

/// What the adapter cache probe found for a family.
#[derive(Clone, Copy, Debug, PartialEq, Eq, Structural)]
pub enum CacheStatus {
    Checking,
    Cached,
    Missing,
    Unavailable,
}

/// Whether a catalog model can be used, and if not, why.
#[derive(Clone, Copy, Debug, PartialEq, Eq, Structural)]
pub enum AdapterAvailability {
    Unsupported,
    ArtifactMissing,
    Compiled,
    Cached,
    Checking,
    Prepare,
}

/// The label of an availability as the picker shows it.
pub open spec fn availability_label(a: AdapterAvailability) -> Seq<char> {
    match a {
        AdapterAvailability::Unsupported => "unsupported model family"@,
        AdapterAvailability::ArtifactMissing => "artifact missing"@,
        AdapterAvailability::Compiled => "compiled"@,
        AdapterAvailability::Cached => "cached"@,
        AdapterAvailability::Checking => "checking cache"@,
        AdapterAvailability::Prepare => "prepare on selection"@,
    }
}

impl AdapterAvailability {
    /// The label the picker shows.
    pub fn label(self) -> (r: &'static str)
        ensures
            r@ == availability_label(self),
    {
        match self {
            AdapterAvailability::Unsupported => "unsupported model family",
            AdapterAvailability::ArtifactMissing => "artifact missing",
            AdapterAvailability::Compiled => "compiled",
            AdapterAvailability::Cached => "cached",
            AdapterAvailability::Checking => "checking cache",
            AdapterAvailability::Prepare => "prepare on selection",
        }
    }

    /// Whether the model can be loaded without building: its adapter is
    /// compiled in or cached.
    pub fn is_ready(self) -> (r: bool)
        ensures
            r == (self == AdapterAvailability::Compiled || self == AdapterAvailability::Cached),
    {
        match self {
            AdapterAvailability::Compiled | AdapterAvailability::Cached => true,
            _ => false,
        }
    }
}

impl CatalogEntry {
    /// Whether every artifact of the model is present.
    pub fn artifacts_available(&self) -> (r: bool)
        ensures
            r == (self.missing_paths@.len() == 0),
    {
        self.missing_paths.len() == 0
    }

    /// Whether the model can be chosen: its adapter is compiled in and its
    /// artifacts are present.
    pub fn selectable(&self) -> (r: bool)
        ensures
            r == (self.adapter_compiled && self.missing_paths@.len() == 0),
    {
        self.adapter_compiled && self.artifacts_available()
    }
}

/// Whether a catalog model can be used: unsupported families and missing
/// artifacts first, then a compiled-in adapter, then what the cache probe
/// found for the family (`None` while nothing is known).
pub open spec fn spec_adapter_availability(
    entry: CatalogEntry,
    cache: Option<CacheStatus>,
) -> AdapterAvailability {
    if !spec_family_supported(entry.manifest.family@) {
        AdapterAvailability::Unsupported
    } else if entry.missing_paths@.len() != 0 {
        AdapterAvailability::ArtifactMissing
    } else if entry.adapter_compiled {
        AdapterAvailability::Compiled
    } else {
        match cache {
            Some(CacheStatus::Cached) => AdapterAvailability::Cached,
            Some(CacheStatus::Missing) | Some(CacheStatus::Unavailable) => AdapterAvailability::Prepare,
            _ => AdapterAvailability::Checking,
        }
    }
}

/// Whether a catalog model can be used, given what the adapter cache probe
/// found for its family.
pub fn adapter_availability(entry: &CatalogEntry, cache: Option<CacheStatus>) -> (r:
    AdapterAvailability)
    ensures
        r == spec_adapter_availability(*entry, cache),
{
    if !family_supported(entry.manifest.family.as_str()) {
        AdapterAvailability::Unsupported
    } else if !entry.artifacts_available() {
        AdapterAvailability::ArtifactMissing
    } else if entry.adapter_compiled {
        AdapterAvailability::Compiled
    } else {
        match cache {
            Some(CacheStatus::Cached) => AdapterAvailability::Cached,
            Some(CacheStatus::Missing) | Some(CacheStatus::Unavailable) => AdapterAvailability::Prepare,
            _ => AdapterAvailability::Checking,
        }
    }
}

// ---------------------------------------------------------------------------
// Building the catalog
// ---------------------------------------------------------------------------

/// The artifact paths a model needs: the model file, then its tokenizer and
/// token list when it names them, each resolved against the manifest.
pub open spec fn required_paths(manifest_path: Seq<char>, e: ModelEntry) -> Seq<Seq<char>> {
    seq![resolved_artifact(manifest_path, e.model@)] + match e.tokenizer {
        Some(t) => seq![resolved_artifact(manifest_path, t@)],
        None => Seq::<Seq<char>>::empty(),
    } + match e.tokens {
        Some(t) => seq![resolved_artifact(manifest_path, t@)],
        None => Seq::<Seq<char>>::empty(),
    }
}

/// The paths whose flag in `present` is not set (a path without a flag
/// counts as missing), in order.
pub open spec fn missing_of(paths: Seq<Seq<char>>, present: Seq<bool>) -> Seq<Seq<char>>
    decreases paths.len(),
{
    if paths.len() == 0 {
        seq![]
    } else {
        let k = paths.len() - 1;
        let rest = missing_of(paths.drop_last(), present);
        if k < present.len() && present[k] {
            rest
        } else {
            rest.push(paths.last())
        }
    }
}

/// Whether `c` is the catalog entry of model `e` of the manifest at
/// `manifest_path`, with `present` flagging which of its required paths
/// exist.
pub open spec fn entry_for(
    manifest_path: Seq<char>,
    e: ModelEntry,
    present: Seq<bool>,
    compiled: CompiledFeatures,
    c: CatalogEntry,
) -> bool {
    &&& same_entry(c.manifest, e)
    &&& c.model_path@ == resolved_artifact(manifest_path, e.model@)
    &&& crate::text::string_views(c.missing_paths@) == missing_of(
        required_paths(manifest_path, e),
        present,
    )
    &&& c.adapter_compiled == spec_family_compiled(e.family@, compiled)
}

/// The flags for model `i`: none when the caller gave fewer lists.
pub open spec fn flags_for(present: Seq<Vec<bool>>, i: int) -> Seq<bool> {
    if 0 <= i < present.len() {
        present[i]@
    } else {
        seq![]
    }
}

/// The artifact paths a model needs, resolved against the manifest: the
/// caller checks which of them exist.
pub fn required_artifacts(manifest_path: &str, e: &ModelEntry) -> (r: Vec<String>)
    ensures
        crate::text::string_views(r@) == required_paths(manifest_path@, *e),
        r@.len() >= 1,
        r@[0]@ == resolved_artifact(manifest_path@, e.model@),
{
    let mut r: Vec<String> = Vec::new();
    r.push(resolve_artifact(manifest_path, e.model.as_str()));
    match &e.tokenizer {
        Some(t) => r.push(resolve_artifact(manifest_path, t.as_str())),
        None => {},
    }
    match &e.tokens {
        Some(t) => r.push(resolve_artifact(manifest_path, t.as_str())),
        None => {},
    }
    assert(crate::text::string_views(r@) =~= required_paths(manifest_path@, *e));
    r
}

fn missing_paths_of(paths: Vec<String>, present: &Vec<bool>) -> (r: Vec<String>)
    ensures
        crate::text::string_views(r@) == missing_of(crate::text::string_views(paths@), present@),
{
    let mut r: Vec<String> = Vec::new();
    let mut rest = paths;
    let ghost all = rest@;
    let total = rest.len();
    assert(all.len() == total);
    let mut k: usize = 0;
    while rest.len() > 0
        invariant
            k + rest@.len() == all.len(),
            all.len() <= usize::MAX,
            rest@ == all.skip(k as int),
            crate::text::string_views(r@) == missing_of(
                crate::text::string_views(all.take(k as int)),
                present@,
            ),
        decreases rest.len(),
    {
        let ghost r0 = r@;
        let ghost rest0 = rest@;
        let p = rest.remove(0);
        let keep = k < present.len() && present[k];
        let ghost pv = p@;
        if !keep {
            r.push(p);
        }
        proof {
            assert(rest0[0] == all[k as int]);
            let t0 = crate::text::string_views(all.take(k as int));
            let t1 = crate::text::string_views(all.take(k as int + 1));
            assert(t1.drop_last() =~= t0);
            assert(t1.last() == pv);
            assert(rest@ =~= all.skip(k as int + 1));
            assert(crate::text::string_views(r@) =~= missing_of(t1, present@));
        }
        k += 1;
    }
    assert(all.take(k as int) =~= all);
    r
}

fn catalog_entry(
    manifest_path: &str,
    e: ModelEntry,
    present: &Vec<bool>,
    compiled: CompiledFeatures,
) -> (c: CatalogEntry)
    ensures
        entry_for(manifest_path@, e, present@, compiled, c),
{
    let required = required_artifacts(manifest_path, &e);
    let model_path = copy_string(&required[0]);
    let missing_paths = missing_paths_of(required, present);
    let adapter_compiled = family_compiled(e.family.as_str(), compiled);
    let manifest = copy_entry(&e);
    CatalogEntry { manifest, model_path, missing_paths, adapter_compiled }
}

/// Whether `entries` is the catalog of `models`, model by model.
pub open spec fn catalog_of(
    manifest_path: Seq<char>,
    models: Seq<ModelEntry>,
    present: Seq<Vec<bool>>,
    compiled: CompiledFeatures,
    entries: Seq<CatalogEntry>,
) -> bool {
    &&& entries.len() == models.len()
    &&& forall|i: int|
        0 <= i < models.len() ==> entry_for(
            manifest_path,
            #[trigger] models[i],
            flags_for(present, i),
            compiled,
            entries[i],
        )
}

/// The index of the first catalog entry whose model id is `id`.
pub open spec fn catalog_index(entries: Seq<CatalogEntry>, id: Seq<char>) -> Option<int>
    decreases entries.len(),
{
    if entries.len() == 0 {
        None
    } else {
        match catalog_index(entries.drop_last(), id) {
            Some(i) => Some(i),
            None => if entries.last().manifest.id@ == id {
                Some(entries.len() - 1)
            } else {
                None
            },
        }
    }
}

proof fn lemma_catalog_index(entries: Seq<CatalogEntry>, id: Seq<char>)
    ensures
        catalog_index(entries, id) matches Some(i) ==> 0 <= i < entries.len()
            && entries[i].manifest.id@ == id && forall|k: int|
            0 <= k < i ==> entries[k].manifest.id@ != id,
        catalog_index(entries, id) is None ==> forall|k: int|
            0 <= k < entries.len() ==> entries[k].manifest.id@ != id,
    decreases entries.len(),
{
    if entries.len() > 0 {
        let d = entries.drop_last();
        lemma_catalog_index(d, id);
        assert forall|k: int| 0 <= k < d.len() implies d[k] == entries[k] by {}
    }
}

/// The paths joined with `, `.
pub open spec fn missing_text(entry: CatalogEntry) -> Seq<char> {
    join(crate::text::string_views(entry.missing_paths@), ", "@)
}

impl ModelCatalog {
    /// The catalog of a manifest that was read: each model with its
    /// resolved model path, its missing artifacts (those whose flag in
    /// `present` is not set, list by list in the order of
    /// `required_artifacts`) and whether its adapter is compiled in.
    pub fn from_manifest(
        manifest_path: String,
        manifest: ModelManifest,
        present: Vec<Vec<bool>>,
        compiled: CompiledFeatures,
    ) -> (c: Self)
        ensures
            c.manifest_path == manifest_path,
            c.error is None,
            catalog_of(manifest_path@, manifest.models@, present@, compiled, c.entries@),
    {
        let mut rest = manifest.models;
        let ghost all = rest@;
        let total = rest.len();
        assert(all.len() == total);
        let mut entries: Vec<CatalogEntry> = Vec::new();
        let mut i: usize = 0;
        let none: Vec<bool> = Vec::new();
        while rest.len() > 0
            invariant
                i + rest@.len() == all.len(),
                all.len() <= usize::MAX,
                rest@ == all.skip(i as int),
                none@.len() == 0,
                catalog_of(manifest_path@, all.take(i as int), present@, compiled, entries@),
            decreases rest.len(),
        {
            let ghost rest0 = rest@;
            let e = rest.remove(0);
            assert(e == all[i as int]);
            let flags = if i < present.len() {
                &present[i]
            } else {
                &none
            };
            assert(flags@ == flags_for(present@, i as int));
            let c = catalog_entry(manifest_path.as_str(), e, flags, compiled);
            let ghost gc = c;
            entries.push(c);
            proof {
                assert(entries@[i as int] == gc);
                assert(all.take(i as int + 1)[i as int] == all[i as int]);
                assert(rest@ =~= all.skip(i as int + 1));
                assert forall|k: int| 0 <= k < i + 1 implies entry_for(
                    manifest_path@,
                    #[trigger] all.take(i as int + 1)[k],
                    flags_for(present@, k),
                    compiled,
                    entries@[k],
                ) by {
                    if k < i {
                        assert(all.take(i as int + 1)[k] == all.take(i as int)[k]);
                    }
                }
            }
            i += 1;
        }
        assert(all.take(i as int) =~= all);
        ModelCatalog { manifest_path, entries, error: None }
    }

    /// The catalog of the manifest at `manifest_path`: of the manifest that
    /// was read, or empty with the error that kept it from being read.
    pub fn load(
        manifest_path: String,
        manifest: Result<ModelManifest, String>,
        present: Vec<Vec<bool>>,
        compiled: CompiledFeatures,
    ) -> (c: Self)
        ensures
            c.manifest_path == manifest_path,
            match manifest {
                Ok(m) => c.error is None && catalog_of(
                    manifest_path@,
                    m.models@,
                    present@,
                    compiled,
                    c.entries@,
                ),
                Err(e) => c.error == Some(e) && c.entries@.len() == 0,
            },
    {
        match manifest {
            Ok(m) => Self::from_manifest(manifest_path, m, present, compiled),
            Err(e) => ModelCatalog { manifest_path, entries: Vec::new(), error: Some(e) },
        }
    }

    /// Rebuilds the catalog from a fresh reading of its manifest.
    pub fn refresh(
        &mut self,
        manifest: Result<ModelManifest, String>,
        present: Vec<Vec<bool>>,
        compiled: CompiledFeatures,
    )
        ensures
            final(self).manifest_path == old(self).manifest_path,
            match manifest {
                Ok(m) => final(self).error is None && catalog_of(
                    old(self).manifest_path@,
                    m.models@,
                    present@,
                    compiled,
                    final(self).entries@,
                ),
                Err(e) => final(self).error == Some(e) && final(self).entries@.len() == 0,
            },
    {
        let path = copy_string(&self.manifest_path);
        *self = Self::load(path, manifest, present, compiled);
    }

    /// The index of the entry of the model with the given id.
    pub fn selected_index(&self, model_id: &str) -> (r: Option<usize>)
        ensures
            match r {
                Some(k) => catalog_index(self.entries@, model_id@) == Some(k as int),
                None => catalog_index(self.entries@, model_id@) is None,
            },
    {
        let want = chars_of(model_id);
        let mut i: usize = 0;
        while i < self.entries.len()
            invariant
                i <= self.entries@.len(),
                want@ == model_id@,
                forall|k: int| 0 <= k < i ==> self.entries@[k].manifest.id@ != model_id@,
            decreases self.entries@.len() - i,
        {
            let id = chars_of(self.entries[i].manifest.id.as_str());
            if chars_eq(&id, &want) {
                proof {
                    lemma_catalog_index(self.entries@, model_id@);
                    if let Some(j) = catalog_index(self.entries@, model_id@) {
                        if j < i {
                        } else if j > i {
                        }
                    }
                }
                return Some(i);
            }
            i += 1;
        }
        proof {
            lemma_catalog_index(self.entries@, model_id@);
        }
        None
    }

    /// The entry at `index`, if there is one.
    pub fn entry(&self, index: usize) -> (r: Option<&CatalogEntry>)
        ensures
            index < self.entries@.len() ==> (r matches Some(e) && *e == self.entries@[index as int]),
            index >= self.entries@.len() ==> r is None,
    {
        if index < self.entries.len() {
            Some(&self.entries[index])
        } else {
            None
        }
    }

    /// The entry of the model with the given id, if there is one.
    pub fn entry_by_id(&self, model_id: &str) -> (r: Option<&CatalogEntry>)
        ensures
            match catalog_index(self.entries@, model_id@) {
                Some(i) => r matches Some(e) && *e == self.entries@[i],
                None => r is None,
            },
    {
        proof {
            lemma_catalog_index(self.entries@, model_id@);
        }
        match self.selected_index(model_id) {
            Some(i) => {
                let e = &self.entries[i];
                assert(catalog_index(self.entries@, model_id@) == Some(i as int));
                assert(*e == self.entries@[i as int]);
                Some(e)
            },
            None => {
                proof {
                    lemma_catalog_index(self.entries@, model_id@);
                }
                None
            },
        }
    }

    /// The missing artifact paths of an entry, joined with `, `.
    pub fn missing_summary(entry: &CatalogEntry) -> (r: String)
        ensures
            r@ == missing_text(*entry),
    {
        let paths = crate::text::strings_chars(&entry.missing_paths);
        let sep = chars_of(", ");
        let joined = join_chars(&paths, &sep);
        string_of(&joined)
    }
}

// ---------------------------------------------------------------------------
// What the adapter cache probe found
// ---------------------------------------------------------------------------

/// The families whose adapters the cache probe checks: those of the
/// catalog's models that are whisper or zipformer models, each once, in
/// order.
pub open spec fn probe_family_list(entries: Seq<CatalogEntry>) -> Seq<Seq<char>> {
    (if exists|i: int| 0 <= i < entries.len() && entries[i].manifest.family@ == "whisper"@ {
        seq!["whisper"@]
    } else {
        Seq::<Seq<char>>::empty()
    }) + (if exists|i: int| 0 <= i < entries.len() && entries[i].manifest.family@ == "zipformer"@ {
        seq!["zipformer"@]
    } else {
        Seq::<Seq<char>>::empty()
    })
}

/// The families whose adapters the cache probe checks.
pub fn probe_families(entries: &Vec<CatalogEntry>) -> (r: Vec<String>)
    ensures
        crate::text::string_views(r@) == probe_family_list(entries@),
{
    let mut whisper = false;
    let mut zipformer = false;
    let mut i: usize = 0;
    while i < entries.len()
        invariant
            i <= entries@.len(),
            whisper == exists|j: int| 0 <= j < i && entries@[j].manifest.family@ == "whisper"@,
            zipformer == exists|j: int| 0 <= j < i && entries@[j].manifest.family@ == "zipformer"@,
        decreases entries.len() - i,
    {
        let family = entries[i].manifest.family.as_str();
        if crate::text::str_eq(family, "whisper") {
            whisper = true;
        }
        if crate::text::str_eq(family, "zipformer") {
            zipformer = true;
        }
        i += 1;
    }
    let mut r: Vec<String> = Vec::new();
    if whisper {
        r.push("whisper".to_owned());
    }
    if zipformer {
        r.push("zipformer".to_owned());
    }
    assert(crate::text::string_views(r@) =~= probe_family_list(entries@));
    r
}

/// The statuses of a list of (family, status) pairs; a later pair of a
/// family wins.
pub open spec fn status_map(s: Seq<(String, CacheStatus)>) -> Map<Seq<char>, CacheStatus>
    decreases s.len(),
{
    if s.len() == 0 {
        Map::empty()
    } else {
        status_map(s.drop_last()).insert(s.last().0@, s.last().1)
    }
}

/// The statuses after the probe's flags: a family with a cached adapter is
/// cached, one without is missing; a later flag of a family wins.
pub open spec fn with_flags(m: Map<Seq<char>, CacheStatus>, flags: Seq<(String, bool)>) -> Map<Seq<char>, CacheStatus>
    decreases flags.len(),
{
    if flags.len() == 0 {
        m
    } else {
        with_flags(m, flags.drop_last()).insert(
            flags.last().0@,
            if flags.last().1 {
                CacheStatus::Cached
            } else {
                CacheStatus::Missing
            },
        )
    }
}

/// What the adapter cache probe found, by model family.
pub struct AdapterCache {
    entries: Vec<(String, CacheStatus)>,
}

impl AdapterCache {
    /// The status of each family that the probe was asked about.
    pub closed spec fn statuses(&self) -> Map<Seq<char>, CacheStatus> {
        status_map(self.entries@)
    }

    /// Nothing is known.
    pub fn new() -> (c: Self)
        ensures
            c.statuses() == Map::<Seq<char>, CacheStatus>::empty(),
    {
        AdapterCache { entries: Vec::new() }
    }

    /// Every family checked anew: each one's status is `Checking`.
    pub fn checking(families: &Vec<String>) -> (c: Self)
        ensures
            c.statuses() == Map::new(
                |f: Seq<char>| crate::text::string_views(families@).contains(f),
                |f: Seq<char>| CacheStatus::Checking,
            ),
    {
        let mut c = AdapterCache::new();
        let mut i: usize = 0;
        while i < families.len()
            invariant
                i <= families@.len(),
                c.statuses() == Map::new(
                    |f: Seq<char>| crate::text::string_views(families@).take(i as int).contains(f),
                    |f: Seq<char>| CacheStatus::Checking,
                ),
            decreases families.len() - i,
        {
            let ghost before = c.statuses();
            c.set(copy_string(&families[i]), CacheStatus::Checking);
            i += 1;
            proof {
                let views = crate::text::string_views(families@);
                assert(views.take(i as int) =~= views.take(i as int - 1).push(views[i as int - 1]));
                assert forall|f: Seq<char>| views.take(i as int).contains(f) == (views.take(
                    i as int - 1,
                ).contains(f) || f == views[i as int - 1]) by {
                    if views.take(i as int).contains(f) {
                        let j = choose|j: int| 0 <= j < i && #[trigger] views.take(i as int)[j] == f;
                        if j < i - 1 {
                            assert(views.take(i as int - 1)[j] == f);
                        }
                    }
                    if views.take(i as int - 1).contains(f) {
                        let j = choose|j: int| 0 <= j < i - 1 && #[trigger] views.take(i as int - 1)[j] == f;
                        assert(views.take(i as int)[j] == f);
                    }
                    if f == views[i as int - 1] {
                        assert(views.take(i as int)[i - 1] == f);
                    }
                }
                assert(c.statuses() =~= Map::new(
                    |f: Seq<char>| views.take(i as int).contains(f),
                    |f: Seq<char>| CacheStatus::Checking,
                ));
            }
        }
        proof {
            let views = crate::text::string_views(families@);
            assert(views.take(families@.len() as int) =~= views);
        }
        c
    }

    /// Sets the status of a family.
    pub fn set(&mut self, family: String, status: CacheStatus)
        ensures
            final(self).statuses() == old(self).statuses().insert(family@, status),
    {
        let ghost before = self.entries@;
        self.entries.push((family, status));
        assert(self.entries@.drop_last() =~= before);
    }

    /// Takes in the probe's flags: a family with a cached adapter is cached,
    /// one without is missing.
    pub fn apply_flags(&mut self, flags: &Vec<(String, bool)>)
        ensures
            final(self).statuses() == with_flags(old(self).statuses(), flags@),
    {
        let ghost start = self.statuses();
        let mut i: usize = 0;
        while i < flags.len()
            invariant
                i <= flags@.len(),
                self.statuses() == with_flags(start, flags@.take(i as int)),
            decreases flags.len() - i,
        {
            let status = if flags[i].1 {
                CacheStatus::Cached
            } else {
                CacheStatus::Missing
            };
            self.set(copy_string(&flags[i].0), status);
            i += 1;
            assert(flags@.take(i as int).drop_last() =~= flags@.take(i as int - 1));
        }
        assert(flags@.take(flags@.len() as int) =~= flags@);
    }

    /// A failed probe: the families still being checked become unavailable.
    pub fn fail_checking(&mut self)
        ensures
            final(self).statuses() == Map::new(
                |f: Seq<char>| old(self).statuses().dom().contains(f),
                |f: Seq<char>| if old(self).statuses()[f] == CacheStatus::Checking {
                    CacheStatus::Unavailable
                } else {
                    old(self).statuses()[f]
                },
            ),
    {
        let ghost start = self.entries@;
        let mut i: usize = 0;
        while i < self.entries.len()
            invariant
                i <= self.entries@.len(),
                self.entries@.len() == start.len(),
                forall|k: int| 0 <= k < start.len() ==> #[trigger] self.entries@[k].0 == start[k].0,
                forall|k: int| 0 <= k < i ==> #[trigger] self.entries@[k].1 == if start[k].1 == CacheStatus::Checking {
                    CacheStatus::Unavailable
                } else {
                    start[k].1
                },
                forall|k: int| i <= k < start.len() ==> #[trigger] self.entries@[k].1 == start[k].1,
            decreases self.entries.len() - i,
        {
            if self.entries[i].1 == CacheStatus::Checking {
                let family = copy_string(&self.entries[i].0);
                self.entries.set(i, (family, CacheStatus::Unavailable));
            }
            i += 1;
        }
        proof {
            lemma_failed_statuses(start, self.entries@);
        }
    }

    /// The status of a family, where the probe was asked about it.
    pub fn status(&self, family: &str) -> (r: Option<CacheStatus>)
        ensures
            r == if self.statuses().dom().contains(family@) {
                Some(self.statuses()[family@])
            } else {
                None
            },
    {
        let mut i: usize = self.entries.len();
        while i > 0
            invariant
                i <= self.entries@.len(),
                forall|k: int| i <= k < self.entries@.len() ==> #[trigger] self.entries@[k].0@ != family@,
            decreases i,
        {
            if crate::text::str_eq(self.entries[i - 1].0.as_str(), family) {
                proof {
                    lemma_status_suffix(self.entries@, i as int, family@);
                    assert(self.entries@.take(i as int).drop_last() =~= self.entries@.take(i as int - 1));
                }
                return Some(self.entries[i - 1].1);
            }
            i -= 1;
        }
        proof {
            lemma_status_suffix(self.entries@, 0, family@);
        }
        None
    }
}

proof fn lemma_status_suffix(s: Seq<(String, CacheStatus)>, i: int, f: Seq<char>)
    requires
        0 <= i <= s.len(),
        forall|k: int| i <= k < s.len() ==> #[trigger] s[k].0@ != f,
    ensures
        status_map(s).dom().contains(f) == status_map(s.take(i)).dom().contains(f),
        status_map(s).dom().contains(f) ==> status_map(s)[f] == status_map(s.take(i))[f],
    decreases s.len() - i,
{
    if i < s.len() {
        lemma_status_suffix(s.drop_last(), i, f);
        assert(s.drop_last().take(i) =~= s.take(i));
        assert(s.last().0@ != f);
    } else {
        assert(s.take(i) =~= s);
    }
}

proof fn lemma_failed_statuses(before: Seq<(String, CacheStatus)>, after: Seq<(String, CacheStatus)>)
    requires
        before.len() == after.len(),
        forall|k: int| 0 <= k < before.len() ==> #[trigger] after[k].0 == before[k].0,
        forall|k: int| 0 <= k < before.len() ==> #[trigger] after[k].1 == if before[k].1 == CacheStatus::Checking {
            CacheStatus::Unavailable
        } else {
            before[k].1
        },
    ensures
        status_map(after) == Map::new(
            |f: Seq<char>| status_map(before).dom().contains(f),
            |f: Seq<char>| if status_map(before)[f] == CacheStatus::Checking {
                CacheStatus::Unavailable
            } else {
                status_map(before)[f]
            },
        ),
    decreases before.len(),
{
    if before.len() > 0 {
        lemma_failed_statuses(before.drop_last(), after.drop_last());
        assert(status_map(after) =~= Map::new(
            |f: Seq<char>| status_map(before).dom().contains(f),
            |f: Seq<char>| if status_map(before)[f] == CacheStatus::Checking {
                CacheStatus::Unavailable
            } else {
                status_map(before)[f]
            },
        ));
    } else {
        assert(status_map(after) =~= Map::new(
            |f: Seq<char>| status_map(before).dom().contains(f),
            |f: Seq<char>| if status_map(before)[f] == CacheStatus::Checking {
                CacheStatus::Unavailable
            } else {
                status_map(before)[f]
            },
        ));
    }
}

// ---------------------------------------------------------------------------
// What choosing a model leads to
// ---------------------------------------------------------------------------

/// What the interface does with a chosen model.
#[derive(Debug, PartialEq, Eq)]
pub enum ModelChoice {
    /// It cannot be used; the message says why.
    Refuse(String),
    /// Its artifacts are downloaded first.
    Download(String),
    /// Its adapter is built first.
    Build(String),
    /// It is loaded.
    Load(String),
}

/// What choosing a model leads to, as plain values.
pub enum ChoiceView {
    Refuse(Seq<char>),
    Download(Seq<char>),
    Build(Seq<char>),
    Load(Seq<char>),
}

/// A choice as plain values.
pub open spec fn choice_view(c: ModelChoice) -> ChoiceView {
    match c {
        ModelChoice::Refuse(m) => ChoiceView::Refuse(m@),
        ModelChoice::Download(m) => ChoiceView::Download(m@),
        ModelChoice::Build(m) => ChoiceView::Build(m@),
        ModelChoice::Load(m) => ChoiceView::Load(m@),
    }
}

/// A usable model: its artifacts are downloaded first where they are
/// missing, then its adapter is built where the program lacks it, then it
/// loads.
pub open spec fn route_for(e: CatalogEntry) -> ChoiceView {
    if e.missing_paths@.len() != 0 {
        ChoiceView::Download(e.manifest.id@)
    } else if !e.adapter_compiled {
        ChoiceView::Build(e.manifest.id@)
    } else {
        ChoiceView::Load(e.manifest.id@)
    }
}

/// Choosing the picker's model at `index`: no model there, or one of an
/// unsupported family, is refused; a usable one takes its route.
pub open spec fn spec_choose_model(c: ModelCatalog, index: int) -> ChoiceView {
    if !(0 <= index < c.entries@.len()) {
        ChoiceView::Refuse("the model manifest contains no selectable entries"@)
    } else {
        let e = c.entries@[index];
        if !spec_family_supported(e.manifest.family@) {
            ChoiceView::Refuse(e.manifest.id@ + " uses unsupported model family `"@ + e.manifest.family@ + "`"@)
        } else {
            route_for(e)
        }
    }
}

fn route(e: &CatalogEntry) -> (r: ModelChoice)
    ensures
        choice_view(r) == route_for(*e),
{
    if !e.artifacts_available() {
        ModelChoice::Download(copy_string(&e.manifest.id))
    } else if !e.adapter_compiled {
        ModelChoice::Build(copy_string(&e.manifest.id))
    } else {
        ModelChoice::Load(copy_string(&e.manifest.id))
    }
}

/// What choosing the picker's model at `index` leads to.
pub fn choose_model(catalog: &ModelCatalog, index: usize) -> (r: ModelChoice)
    ensures
        choice_view(r) == spec_choose_model(*catalog, index as int),
{
    if index >= catalog.entries.len() {
        return ModelChoice::Refuse("the model manifest contains no selectable entries".to_owned());
    }
    let e = &catalog.entries[index];
    if !family_supported(e.manifest.family.as_str()) {
        let mut m = copy_string(&e.manifest.id);
        m.append(" uses unsupported model family `");
        m.append(e.manifest.family.as_str());
        m.append("`");
        return ModelChoice::Refuse(m);
    }
    route(e)
}

/// Loading a model by id: a model of the catalog takes its route; one the
/// catalog lacks is loaded as it is named.
pub open spec fn spec_load_route(c: ModelCatalog, model_id: Seq<char>) -> ChoiceView {
    match catalog_index(c.entries@, model_id) {
        Some(i) => route_for(c.entries@[i]),
        None => ChoiceView::Load(model_id),
    }
}

/// What loading a model by id leads to.
pub fn load_route(catalog: &ModelCatalog, model_id: &str) -> (r: ModelChoice)
    ensures
        choice_view(r) == spec_load_route(*catalog, model_id@),
{
    match catalog.entry_by_id(model_id) {
        Some(e) => {
            proof {
                lemma_catalog_index(catalog.entries@, model_id@);
            }
            route(e)
        },
        None => ModelChoice::Load(model_id.to_owned()),
    }
}

/// After a download: a model the catalog lacks leads nowhere; one whose
/// artifacts are still missing is refused with their list; otherwise its
/// adapter is built where the program lacks it, or it loads.
pub open spec fn spec_after_download(c: ModelCatalog, model_id: Seq<char>) -> Option<ChoiceView> {
    match catalog_index(c.entries@, model_id) {
        Some(i) => {
            let e = c.entries@[i];
            if e.missing_paths@.len() != 0 {
                Some(ChoiceView::Refuse("download completed but artifacts are still missing: "@ + missing_text(e)))
            } else {
                Some(route_for(e))
            }
        },
        None => None,
    }
}

/// What a finished download of a model leads to, with the catalog read again.
pub fn after_download(catalog: &ModelCatalog, model_id: &str) -> (r: Option<ModelChoice>)
    ensures
        match r {
            Some(c) => spec_after_download(*catalog, model_id@) == Some(choice_view(c)),
            None => spec_after_download(*catalog, model_id@) is None,
        },
{
    match catalog.entry_by_id(model_id) {
        Some(e) => {
            proof {
                lemma_catalog_index(catalog.entries@, model_id@);
            }
            if !e.artifacts_available() {
                let mut m = "download completed but artifacts are still missing: ".to_owned();
                let summary = ModelCatalog::missing_summary(e);
                m.append(summary.as_str());
                Some(ModelChoice::Refuse(m))
            } else {
                Some(route(e))
            }
        },
        None => None,
    }
}

/// Availability puts first things first: a model of an unsupported family
/// is unsupported; a supported model with any artifact missing is missing
/// artifacts, never ready, whether or not its adapter is compiled in and
/// whatever the cache holds; a complete model with a compiled-in adapter is
/// compiled, whatever the cache holds; only a complete model without one
/// depends on the cache: a cached adapter makes it cached, a missing or
/// unusable cache makes it need preparing, and an unfinished or absent
/// probe leaves it being checked. A ready model (compiled or cached) is of a
/// supported family and has every artifact.
pub proof fn law_availability_order(entry: CatalogEntry, cache: Option<CacheStatus>, other: Option<CacheStatus>)
    ensures
        !spec_family_supported(entry.manifest.family@) ==> spec_adapter_availability(entry, cache)
            == AdapterAvailability::Unsupported,
        spec_family_supported(entry.manifest.family@) && entry.missing_paths@.len() > 0
            ==> spec_adapter_availability(entry, cache) == AdapterAvailability::ArtifactMissing,
        spec_family_supported(entry.manifest.family@) && entry.missing_paths@.len() == 0
            && entry.adapter_compiled ==> spec_adapter_availability(entry, cache)
            == AdapterAvailability::Compiled,
        (spec_adapter_availability(entry, cache) == AdapterAvailability::Compiled
            || spec_adapter_availability(entry, cache) == AdapterAvailability::Cached)
            ==> spec_family_supported(entry.manifest.family@) && entry.missing_paths@.len() == 0,
        spec_adapter_availability(entry, cache) == AdapterAvailability::Cached ==> cache == Some(
            CacheStatus::Cached,
        ) && !entry.adapter_compiled,
        (!spec_family_supported(entry.manifest.family@) || entry.missing_paths@.len() > 0
            || entry.adapter_compiled) ==> spec_adapter_availability(entry, cache)
            == spec_adapter_availability(entry, other),
        spec_family_supported(entry.manifest.family@) && entry.missing_paths@.len() == 0
            && !entry.adapter_compiled ==> spec_adapter_availability(entry, cache) == match cache {
            Some(CacheStatus::Cached) => AdapterAvailability::Cached,
            Some(CacheStatus::Missing) => AdapterAvailability::Prepare,
            Some(CacheStatus::Unavailable) => AdapterAvailability::Prepare,
            Some(CacheStatus::Checking) => AdapterAvailability::Checking,
            None => AdapterAvailability::Checking,
        },
{
}

} // verus!
