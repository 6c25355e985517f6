//! The speech-model manifest: its entries, the lookup of a model by id, the
//! model families the recognizers support, and where a manifest's artifact
//! paths point. Reading and parsing the manifest file is left to the caller.
use vstd::prelude::*;
use crate::text::{
    chars_of, concat_chars, copy_opt_string, copy_string, copy_strings, join, join_chars,
    string_of, string_views, strings_chars, views, str_eq,
};

verus! {

/// One model of the manifest.
#[derive(Debug)]
pub struct ModelEntry {
    pub id: String,
    pub family: String,
    pub model: String,
    pub tokenizer: Option<String>,
    pub tokens: Option<String>,
    pub repository: Option<String>,
    pub revision: Option<String>,
    pub sha256: Option<String>,
    pub tokenizer_sha256: Option<String>,
    pub tokens_sha256: Option<String>,
    pub model_size: Option<String>,
    pub model_size_bytes: Option<u64>,
    pub tensor_contract: Option<String>,
    pub languages: Vec<String>,
    pub sample_rate: Option<u32>,
    pub channels: Option<u16>,
    pub timestamps: bool,
    pub streaming: bool,
    pub runtime: Option<String>,
}

/// The models a manifest lists, in order.
#[derive(Debug)]
pub struct ModelManifest {
    pub models: Vec<ModelEntry>,
}

/// Which recognizer adapters the running program was built with.
#[derive(Clone, Copy, Debug, PartialEq, Eq, Structural)]
pub struct CompiledFeatures {
    pub whisper: bool,
    pub whisper_metal: bool,
    pub whisper_coreml: bool,
    pub zipformer: bool,
}

/// Whether two entries hold the same values.
pub open spec fn same_entry(a: ModelEntry, b: ModelEntry) -> bool {
    &&& a.id == b.id
    &&& a.family == b.family
    &&& a.model == b.model
    &&& a.tokenizer == b.tokenizer
    &&& a.tokens == b.tokens
    &&& a.repository == b.repository
    &&& a.revision == b.revision
    &&& a.sha256 == b.sha256
    &&& a.tokenizer_sha256 == b.tokenizer_sha256
    &&& a.tokens_sha256 == b.tokens_sha256
    &&& a.model_size == b.model_size
    &&& a.model_size_bytes == b.model_size_bytes
    &&& a.tensor_contract == b.tensor_contract
    &&& a.languages@ == b.languages@
    &&& a.sample_rate == b.sample_rate
    &&& a.channels == b.channels
    &&& a.timestamps == b.timestamps
    &&& a.streaming == b.streaming
    &&& a.runtime == b.runtime
}

/// A copy of a manifest entry.
pub fn copy_entry(e: &ModelEntry) -> (r: ModelEntry)
    ensures
        same_entry(r, *e),
{
    let languages = copy_strings(&e.languages);
    let r = ModelEntry {
        id: copy_string(&e.id),
        family: copy_string(&e.family),
        model: copy_string(&e.model),
        tokenizer: copy_opt_string(&e.tokenizer),
        tokens: copy_opt_string(&e.tokens),
        repository: copy_opt_string(&e.repository),
        revision: copy_opt_string(&e.revision),
        sha256: copy_opt_string(&e.sha256),
        tokenizer_sha256: copy_opt_string(&e.tokenizer_sha256),
        tokens_sha256: copy_opt_string(&e.tokens_sha256),
        model_size: copy_opt_string(&e.model_size),
        model_size_bytes: e.model_size_bytes,
        tensor_contract: copy_opt_string(&e.tensor_contract),
        languages,
        sample_rate: e.sample_rate,
        channels: e.channels,
        timestamps: e.timestamps,
        streaming: e.streaming,
        runtime: copy_opt_string(&e.runtime),
    };
    assert(r.languages@ =~= e.languages@);
    r
}

// ---------------------------------------------------------------------------
// Looking a model up
// ---------------------------------------------------------------------------

/// The index of the first model whose id is `id`.
pub open spec fn find_index(models: Seq<ModelEntry>, id: Seq<char>) -> Option<int>
    decreases models.len(),
{
    if models.len() == 0 {
        None
    } else {
        match find_index(models.drop_last(), id) {
            Some(i) => Some(i),
            None => if models.last().id@ == id {
                Some(models.len() - 1)
            } else {
                None
            },
        }
    }
}

/// The ids of the models, in order.
pub open spec fn model_ids(models: Seq<ModelEntry>) -> Seq<Seq<char>> {
    models.map_values(|m: ModelEntry| m.id@)
}

/// The error for an id that the manifest does not list.
pub open spec fn unknown_model_message(id: Seq<char>, models: Seq<ModelEntry>) -> Seq<char> {
    "unknown speech model `"@ + id + "`; available models: "@ + join(model_ids(models), ", "@)
}

proof fn lemma_find_index(models: Seq<ModelEntry>, id: Seq<char>)
    ensures
        find_index(models, id) matches Some(i) ==> 0 <= i < models.len() && models[i].id@ == id
            && forall|k: int| 0 <= k < i ==> models[k].id@ != id,
        find_index(models, id) is None ==> forall|k: int|
            0 <= k < models.len() ==> models[k].id@ != id,
    decreases models.len(),
{
    if models.len() > 0 {
        let d = models.drop_last();
        lemma_find_index(d, id);
        assert forall|k: int| 0 <= k < d.len() implies d[k] == models[k] by {}
    }
}

impl ModelManifest {
    /// The first model with the given id, or the error that names the
    /// models the manifest does list.
    pub fn find(&self, model_id: &str) -> (r: Result<ModelEntry, String>)
        ensures
            match find_index(self.models@, model_id@) {
                Some(i) => r matches Ok(e) && same_entry(e, self.models@[i]),
                None => r matches Err(m) && m@ == unknown_model_message(model_id@, self.models@),
            },
    {
        let ghost models = self.models@;
        let mut i: usize = 0;
        while i < self.models.len()
            invariant
                i <= models.len(),
                models == self.models@,
                forall|k: int| 0 <= k < i ==> models[k].id@ != model_id@,
            decreases models.len() - i,
        {
            let id = chars_of(self.models[i].id.as_str());
            let want = chars_of(model_id);
            if crate::text::chars_eq(&id, &want) {
                proof {
                    lemma_find_index(models, model_id@);
                    if let Some(j) = find_index(models, model_id@) {
                        if j < i {
                        } else if j > i {
                        }
                    }
                }
                return Ok(copy_entry(&self.models[i]));
            }
            i += 1;
        }
        proof {
            lemma_find_index(models, model_id@);
        }
        let mut ids: Vec<Vec<char>> = Vec::new();
        let mut k: usize = 0;
        while k < self.models.len()
            invariant
                k <= models.len(),
                models == self.models@,
                views(ids@) == model_ids(models.take(k as int)),
            decreases models.len() - k,
        {
            let ghost before = ids@;
            ids.push(chars_of(self.models[k].id.as_str()));
            assert(models.take(k as int + 1) == models.take(k as int).push(models[k as int]));
            assert(views(ids@) =~= views(before).push(models[k as int].id@));
            assert(model_ids(models.take(k as int + 1)) =~= model_ids(models.take(k as int)).push(
                models[k as int].id@,
            ));
            k += 1;
        }
        assert(models.take(models.len() as int) == models);
        let sep = chars_of(", ");
        let joined = join_chars(&ids, &sep);
        let msg = chars_of("unknown speech model `");
        let msg = concat_chars(msg, &chars_of(model_id));
        let msg = concat_chars(msg, &chars_of("`; available models: "));
        let msg = concat_chars(msg, &joined);
        Err(string_of(&msg))
    }
}

// ---------------------------------------------------------------------------
// Families
// ---------------------------------------------------------------------------

/// Whether a recognizer adapter exists for the family.
pub open spec fn spec_family_supported(family: Seq<char>) -> bool {
    family == "whisper"@ || family == "zipformer"@
}

/// Whether the running program was built with the family's adapter.
pub open spec fn spec_family_compiled(family: Seq<char>, compiled: CompiledFeatures) -> bool {
    (family == "whisper"@ && compiled.whisper) || (family == "zipformer"@ && compiled.zipformer)
}

/// Whether a recognizer adapter exists for the family: `whisper` or
/// `zipformer`.
pub fn family_supported(family: &str) -> (r: bool)
    ensures
        r == spec_family_supported(family@),
{
    str_eq(family, "whisper") || str_eq(family, "zipformer")
}

/// Whether the running program was built with the family's adapter.
pub fn family_compiled(family: &str, compiled: CompiledFeatures) -> (r: bool)
    ensures
        r == spec_family_compiled(family@, compiled),
{
    (str_eq(family, "whisper") && compiled.whisper) || (str_eq(family, "zipformer")
        && compiled.zipformer)
}

// ---------------------------------------------------------------------------
// Artifact paths
// ---------------------------------------------------------------------------

/// What `Path::is_absolute` answers for the path `p`.
pub uninterp spec fn path_is_absolute(p: Seq<char>) -> bool;

/// What `Path::parent` gives for the path `p`.
pub uninterp spec fn path_parent(p: Seq<char>) -> Option<Seq<char>>;

/// What `Path::file_name` gives for the path `p`.
pub uninterp spec fn path_file_name(p: Seq<char>) -> Option<Seq<char>>;

/// The text of the first of `Path::components` of `p`.
pub uninterp spec fn path_first_component(p: Seq<char>) -> Option<Seq<char>>;

/// What `Path::join` gives for the paths `base` and `p`.
pub uninterp spec fn path_join(base: Seq<char>, p: Seq<char>) -> Seq<char>;

/// What `Path::starts_with` answers for the path `p` and the base `base`.
pub uninterp spec fn path_starts_with(p: Seq<char>, base: Seq<char>) -> bool;

/// The text of an optional string.
pub open spec fn opt_view(o: Option<String>) -> Option<Seq<char>> {
    match o {
        Some(s) => Some(s@),
        None => None,
    }
}

/// `Path::is_absolute`. The contract names std's answer for `p`.
#[verifier::external_body]
fn is_absolute_path(p: &str) -> (r: bool)
    ensures
        r == path_is_absolute(p@),
{
    std::path::Path::new(p).is_absolute()
}

/// `Path::parent`, as text. The contract names std's answer for `p`.
#[verifier::external_body]
pub(crate) fn parent_path(p: &str) -> (r: Option<String>)
    ensures
        opt_view(r) == path_parent(p@),
{
    std::path::Path::new(p).parent().map(|q| q.to_string_lossy().into_owned())
}

/// `Path::file_name`, as text. The contract names std's answer for `p`.
#[verifier::external_body]
pub(crate) fn file_name_of(p: &str) -> (r: Option<String>)
    ensures
        opt_view(r) == path_file_name(p@),
{
    std::path::Path::new(p).file_name().map(|n| n.to_string_lossy().into_owned())
}

/// The first of `Path::components`, as text. The contract names std's
/// answer for `p`.
#[verifier::external_body]
fn first_component_of(p: &str) -> (r: Option<String>)
    ensures
        opt_view(r) == path_first_component(p@),
{
    std::path::Path::new(p).components().next().map(|c| c.as_os_str().to_string_lossy().into_owned())
}

/// `Path::join`, as text. The contract names std's answer for the two paths.
#[verifier::external_body]
pub(crate) fn join_path(base: &str, p: &str) -> (r: String)
    ensures
        r@ == path_join(base@, p@),
{
    std::path::Path::new(base).join(p).to_string_lossy().into_owned()
}

/// `Path::starts_with`: whether `base` is a prefix of `p`, component by
/// component. The contract names std's answer for the two paths.
#[verifier::external_body]
pub(crate) fn path_has_base(p: &str, base: &str) -> (r: bool)
    ensures
        r == path_starts_with(p@, base@),
{
    std::path::Path::new(p).starts_with(base)
}

/// Where an artifact path of a manifest points: an absolute path stays as
/// it is; a relative one is taken from the manifest's directory, unless it
/// already starts with that directory's name, in which case it is taken
/// from the directory above (a path written from the workspace root).
pub open spec fn resolved_artifact(manifest_path: Seq<char>, artifact: Seq<char>) -> Seq<char> {
    if path_is_absolute(artifact) {
        artifact
    } else {
        let parent = match path_parent(manifest_path) {
            Some(p) => p,
            None => seq!['.'],
        };
        let base = if path_file_name(parent) is Some && path_first_component(artifact)
            == path_file_name(parent) {
            match path_parent(parent) {
                Some(g) => g,
                None => parent,
            }
        } else {
            parent
        };
        path_join(base, artifact)
    }
}

/// Where an artifact path of the manifest at `manifest_path` points.
pub fn resolve_artifact(manifest_path: &str, artifact: &str) -> (r: String)
    ensures
        r@ == resolved_artifact(manifest_path@, artifact@),
{
    if is_absolute_path(artifact) {
        return artifact.to_owned();
    }
    let parent = match parent_path(manifest_path) {
        Some(p) => p,
        None => {
            let dot = ".".to_owned();
            proof {
                reveal_strlit(".");
                assert(dot@ =~= seq!['.']);
            }
            dot
        },
    };
    let root_name = file_name_of(parent.as_str());
    let first = first_component_of(artifact);
    let same = match (&root_name, &first) {
        (Some(r), Some(f)) => str_eq(r.as_str(), f.as_str()),
        _ => false,
    };
    if same {
        let base = match parent_path(parent.as_str()) {
            Some(g) => g,
            None => parent,
        };
        join_path(base.as_str(), artifact)
    } else {
        join_path(parent.as_str(), artifact)
    }
}

// ---------------------------------------------------------------------------
// Loading a model
// ---------------------------------------------------------------------------

/// What loading a model takes, once the manifest has been consulted.
#[derive(Debug)]
pub enum LoadPlan {
    /// A Whisper model file.
    Whisper { id: String, revision: Option<String>, model_path: String },
    /// A Zipformer model with its tokenizer and token list.
    Zipformer {
        id: String,
        revision: Option<String>,
        model_path: String,
        tokenizer_path: String,
        tokens_path: String,
    },
}

/// The error for a family that no adapter supports.
pub open spec fn unsupported_family_message(id: Seq<char>, family: Seq<char>) -> Seq<char> {
    "model `"@ + id + "` uses unsupported model family `"@ + family + "`"@
}

/// The error for a Whisper model in a program built without Whisper.
pub open spec fn whisper_missing_message() -> Seq<char> {
    "this binary was built without Whisper support; rebuild with `--features whisper`"@
}

/// The error for a Zipformer model in a program built without Zipformer.
pub open spec fn zipformer_missing_message() -> Seq<char> {
    "this binary was built without Zipformer support; rebuild with `--features zipformer`"@
}

/// The error for a Zipformer entry without a tokenizer path.
pub open spec fn no_tokenizer_message(id: Seq<char>) -> Seq<char> {
    "model `"@ + id + "` has no tokenizer path"@
}

/// The error for a Zipformer entry without a token-list path.
pub open spec fn no_tokens_message(id: Seq<char>) -> Seq<char> {
    "model `"@ + id + "` has no token-list path"@
}

/// Whether `r` is what loading `entry` from the manifest at `manifest_path`
/// takes, or the error that stops it.
pub open spec fn plan_for(
    entry: ModelEntry,
    manifest_path: Seq<char>,
    compiled: CompiledFeatures,
    r: Result<LoadPlan, String>,
) -> bool {
    if entry.family@ == "whisper"@ {
        if compiled.whisper {
            r matches Ok(LoadPlan::Whisper { id, revision, model_path }) && id == entry.id
                && revision == entry.revision && model_path@ == resolved_artifact(
                manifest_path,
                entry.model@,
            )
        } else {
            r matches Err(m) && m@ == whisper_missing_message()
        }
    } else if entry.family@ == "zipformer"@ {
        if !compiled.zipformer {
            r matches Err(m) && m@ == zipformer_missing_message()
        } else if entry.tokenizer is None {
            r matches Err(m) && m@ == no_tokenizer_message(entry.id@)
        } else if entry.tokens is None {
            r matches Err(m) && m@ == no_tokens_message(entry.id@)
        } else {
            r matches Ok(
                LoadPlan::Zipformer { id, revision, model_path, tokenizer_path, tokens_path },
            ) && id == entry.id && revision == entry.revision && model_path@ == resolved_artifact(
                manifest_path,
                entry.model@,
            ) && tokenizer_path@ == resolved_artifact(manifest_path, entry.tokenizer->0@)
                && tokens_path@ == resolved_artifact(manifest_path, entry.tokens->0@)
        }
    } else {
        r matches Err(m) && m@ == unsupported_family_message(entry.id@, entry.family@)
    }
}

/// The text `a`, then `b`.
pub fn text2(a: &str, b: &str) -> (r: String)
    ensures
        r@ == a@ + b@,
{
    let v = concat_chars(chars_of(a), &chars_of(b));
    string_of(&v)
}

/// The text `a`, then `b`, `c` and `d`.
pub fn text4(a: &str, b: &str, c: &str, d: &str) -> (r: String)
    ensures
        r@ == a@ + b@ + c@ + d@,
{
    let v = concat_chars(chars_of(a), &chars_of(b));
    let v = concat_chars(v, &chars_of(c));
    let v = concat_chars(v, &chars_of(d));
    string_of(&v)
}

/// The text `a`, then `b`, then `c`.
pub fn text3(a: &str, b: &str, c: &str) -> (r: String)
    ensures
        r@ == a@ + b@ + c@,
{
    let v = concat_chars(chars_of(a), &chars_of(b));
    let v = concat_chars(v, &chars_of(c));
    string_of(&v)
}

/// The text `a`, then `b`, `c`, `d` and `e`.
pub fn text5(a: &str, b: &str, c: &str, d: &str, e: &str) -> (r: String)
    ensures
        r@ == a@ + b@ + c@ + d@ + e@,
{
    let v = concat_chars(chars_of(a), &chars_of(b));
    let v = concat_chars(v, &chars_of(c));
    let v = concat_chars(v, &chars_of(d));
    let v = concat_chars(v, &chars_of(e));
    string_of(&v)
}

/// What loading the model with id `model_id` takes: the entry's paths
/// resolved against the manifest, or the error that stops the load.
pub fn load_plan(
    manifest: &ModelManifest,
    manifest_path: &str,
    model_id: &str,
    compiled: CompiledFeatures,
) -> (r: Result<LoadPlan, String>)
    ensures
        match find_index(manifest.models@, model_id@) {
            Some(i) => plan_for(manifest.models@[i], manifest_path@, compiled, r),
            None => r matches Err(m) && m@ == unknown_model_message(
                model_id@,
                manifest.models@,
            ),
        },
{
    let entry = match manifest.find(model_id) {
        Ok(e) => e,
        Err(m) => return Err(m),
    };
    proof {
        lemma_find_index(manifest.models@, model_id@);
    }
    if str_eq(entry.family.as_str(), "whisper") {
        if !compiled.whisper {
            return Err(
                "this binary was built without Whisper support; rebuild with `--features whisper`".to_owned(),
            );
        }
        let model_path = resolve_artifact(manifest_path, entry.model.as_str());
        Ok(LoadPlan::Whisper { id: entry.id, revision: entry.revision, model_path })
    } else if str_eq(entry.family.as_str(), "zipformer") {
        if !compiled.zipformer {
            return Err(
                "this binary was built without Zipformer support; rebuild with `--features zipformer`".to_owned(),
            );
        }
        let tokenizer = match &entry.tokenizer {
            Some(t) => resolve_artifact(manifest_path, t.as_str()),
            None => {
                return Err(text3("model `", entry.id.as_str(), "` has no tokenizer path"));
            },
        };
        let tokens = match &entry.tokens {
            Some(t) => resolve_artifact(manifest_path, t.as_str()),
            None => {
                return Err(text3("model `", entry.id.as_str(), "` has no token-list path"));
            },
        };
        let model_path = resolve_artifact(manifest_path, entry.model.as_str());
        Ok(
            LoadPlan::Zipformer {
                id: entry.id,
                revision: entry.revision,
                model_path,
                tokenizer_path: tokenizer,
                tokens_path: tokens,
            },
        )
    } else {
        Err(
            text5(
                "model `",
                entry.id.as_str(),
                "` uses unsupported model family `",
                entry.family.as_str(),
                "`",
            ),
        )
    }
}

/// The number of threads a Whisper model decodes with: the available
/// parallelism capped at eight, or four when it is unknown.
pub fn whisper_threads(available: Option<usize>) -> (r: i32)
    ensures
        r == match available {
            Some(n) => if n < 8 {
                n as int
            } else {
                8
            },
            None => 4,
        },
{
    match available {
        Some(n) => if n < 8 {
            n as i32
        } else {
            8
        },
        None => 4,
    }
}

} // verus!
