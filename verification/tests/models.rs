use pheme_va::model::{
    family_compiled, family_supported, load_plan, resolve_artifact, whisper_threads,
    CompiledFeatures, LoadPlan, ModelEntry, ModelManifest,
};
use pheme_va::model_catalog::{
    adapter_availability, after_download, choose_model, load_route, probe_families, ModelChoice, required_artifacts, AdapterAvailability, AdapterCache,
    CacheStatus, CatalogEntry, ModelCatalog,
};
use pheme_va::build_env::{build_environment, clean_value};
use pheme_va::screens::{picker_hint, picker_panel};
use pheme_va::rebuild::{
    build_arguments, environment_kept, features, native_host, restart_arguments, CacheProbeTask,
    volatile_environment, ProbeReceipt,
};

fn entry(id: &str, family: &str, model: &str) -> ModelEntry {
    ModelEntry {
        id: id.to_owned(),
        family: family.to_owned(),
        model: model.to_owned(),
        tokenizer: None,
        tokens: None,
        repository: None,
        revision: None,
        sha256: None,
        tokenizer_sha256: None,
        tokens_sha256: None,
        model_size: None,
        model_size_bytes: None,
        tensor_contract: None,
        languages: Vec::new(),
        sample_rate: None,
        channels: None,
        timestamps: false,
        streaming: false,
        runtime: None,
    }
}

const NONE: CompiledFeatures =
    CompiledFeatures { whisper: false, whisper_metal: false, whisper_coreml: false, zipformer: false };
const ALL: CompiledFeatures =
    CompiledFeatures { whisper: true, whisper_metal: true, whisper_coreml: true, zipformer: true };

#[test]
fn resolves_manifest_paths_written_from_the_workspace_root() {
    let path = resolve_artifact("models/manifest.toml", "models/zipformer/small/model.tflite");
    assert_eq!(path, "models/zipformer/small/model.tflite");
}

#[test]
fn resolves_paths_relative_to_manifest_directory() {
    let path = resolve_artifact("/tmp/pheme/models/manifest.toml", "zipformer/bpe.model");
    assert_eq!(path, "/tmp/pheme/models/zipformer/bpe.model");
}

#[test]
fn absolute_artifacts_and_bare_manifests_resolve_as_written() {
    assert_eq!(resolve_artifact("models/manifest.toml", "/opt/model.bin"), "/opt/model.bin");
    assert_eq!(resolve_artifact("manifest.toml", "model.bin"), "model.bin");
}

#[test]
fn finds_models_and_names_the_available_ones() {
    let manifest = ModelManifest {
        models: vec![entry("a", "whisper", "a.bin"), entry("b", "zipformer", "b.tflite")],
    };
    assert_eq!(manifest.find("b").unwrap().model, "b.tflite");
    assert_eq!(
        manifest.find("c").unwrap_err(),
        "unknown speech model `c`; available models: a, b"
    );
    assert!(family_supported("whisper") && family_supported("zipformer"));
    assert!(!family_supported("Whisper"));
    assert!(family_compiled("zipformer", ALL));
    assert!(!family_compiled("zipformer", NONE));
    assert!(!family_compiled("other", ALL));
    assert_eq!(whisper_threads(Some(16)), 8);
    assert_eq!(whisper_threads(Some(2)), 2);
    assert_eq!(whisper_threads(None), 4);
}

#[test]
fn load_plans_follow_the_family_and_the_build() {
    let mut zip = entry("z", "zipformer", "z/model.tflite");
    zip.tokenizer = Some("z/bpe.model".to_owned());
    let manifest = ModelManifest {
        models: vec![entry("w", "whisper", "w.bin"), zip, entry("x", "mystery", "x.bin")],
    };
    match load_plan(&manifest, "/m/manifest.toml", "w", ALL).unwrap() {
        LoadPlan::Whisper { id, model_path, .. } => {
            assert_eq!(id, "w");
            assert_eq!(model_path, "/m/w.bin");
        }
        other => panic!("unexpected plan {other:?}"),
    }
    assert_eq!(
        load_plan(&manifest, "/m/manifest.toml", "w", NONE).unwrap_err(),
        "this binary was built without Whisper support; rebuild with `--features whisper`"
    );
    assert_eq!(
        load_plan(&manifest, "/m/manifest.toml", "z", ALL).unwrap_err(),
        "model `z` has no token-list path"
    );
    assert_eq!(
        load_plan(&manifest, "/m/manifest.toml", "x", ALL).unwrap_err(),
        "model `x` uses unsupported model family `mystery`"
    );
}

#[test]
fn classifies_artifacts_separately_from_compiled_adapters() {
    let manifest = ModelManifest { models: vec![entry("fixture", "unknown", "fixture.bin")] };
    let required = required_artifacts("/tmp/catalog/manifest.toml", &manifest.models[0]);
    assert_eq!(required, vec!["/tmp/catalog/fixture.bin".to_owned()]);
    let catalog = ModelCatalog::load(
        "/tmp/catalog/manifest.toml".to_owned(),
        Ok(manifest),
        vec![vec![true]],
        ALL,
    );
    let entry = catalog.entry(0).expect("manifest entry should exist");
    assert!(entry.artifacts_available());
    assert!(!entry.adapter_compiled);
    assert!(!entry.selectable());
    assert!(!family_supported(&entry.manifest.family));
}

#[test]
fn catalog_lists_missing_artifacts_and_errors() {
    let mut zip = entry("z", "zipformer", "z.tflite");
    zip.tokenizer = Some("bpe.model".to_owned());
    zip.tokens = Some("tokens.txt".to_owned());
    let catalog = ModelCatalog::load(
        "/m/manifest.toml".to_owned(),
        Ok(ModelManifest { models: vec![zip] }),
        vec![vec![true, false]],
        NONE,
    );
    let found = catalog.entry_by_id("z").unwrap();
    assert_eq!(ModelCatalog::missing_summary(found), "/m/bpe.model, /m/tokens.txt");
    assert_eq!(catalog.selected_index("z"), Some(0));
    assert!(catalog.selected_index("q").is_none());
    assert!(catalog.entry(1).is_none());
    let mut failed = ModelCatalog::load("m.toml".to_owned(), Err("unreadable".to_owned()), vec![], NONE);
    assert_eq!(failed.error.as_deref(), Some("unreadable"));
    assert!(failed.entries.is_empty());
    failed.refresh(Ok(ModelManifest { models: vec![entry("a", "whisper", "a.bin")] }), vec![], ALL);
    assert!(failed.error.is_none());
    assert_eq!(failed.entries[0].missing_paths, vec!["a.bin".to_owned()]);
    assert!(failed.entries[0].adapter_compiled);
}

#[test]
fn adapter_availability_reports_a_validated_cache_separately() {
    let entry = CatalogEntry {
        manifest: entry("fixture", "whisper", "fixture.bin"),
        model_path: "fixture.bin".to_owned(),
        missing_paths: Vec::new(),
        adapter_compiled: false,
    };
    assert_eq!(adapter_availability(&entry, None), AdapterAvailability::Checking);
    assert_eq!(
        adapter_availability(&entry, Some(CacheStatus::Cached)),
        AdapterAvailability::Cached
    );
    assert_eq!(
        adapter_availability(&entry, Some(CacheStatus::Missing)),
        AdapterAvailability::Prepare
    );
    assert!(AdapterAvailability::Cached.is_ready());
    assert!(!AdapterAvailability::Prepare.is_ready());
    assert_eq!(AdapterAvailability::Prepare.label(), "prepare on selection");
}

#[test]
fn allowlist_and_compiled_feature_union() {
    for invalid in ["", "Whisper", "whisper,zipformer", "--all-features", "whisper;exit"] {
        assert!(features(invalid, ALL).is_err());
    }
    for compiled in [NONE, ALL] {
        for family in ["whisper", "zipformer"] {
            let selected = features(family, compiled).unwrap();
            assert!(selected.contains(&family));
            for (enabled, feature) in [
                (compiled.whisper, "whisper"),
                (compiled.whisper_metal, "whisper-metal"),
                (compiled.whisper_coreml, "whisper-coreml"),
                (compiled.zipformer, "zipformer"),
            ] {
                if enabled {
                    assert!(selected.contains(&feature));
                }
                assert!(selected.iter().filter(|value| **value == feature).count() <= 1);
            }
        }
    }
    assert_eq!(
        features("zipformer", ALL).unwrap(),
        vec!["zipformer", "whisper", "whisper-metal", "whisper-coreml"]
    );
    assert_eq!(features("bad", NONE).unwrap_err(), "unsupported adapter family: bad");
}

#[test]
fn parses_only_a_safe_explicit_native_target() {
    assert_eq!(
        native_host("rustc 1.98.1\nhost: x86_64-unknown-linux-gnu\nrelease: 1.98.1").unwrap(),
        "x86_64-unknown-linux-gnu"
    );
    for output in ["", "host: ", "host: ../other", "host: ..", "host: /tmp/target", "host: --target other"] {
        assert!(native_host(output).is_err());
    }
    assert_eq!(native_host("host: aarch64-apple-darwin\r\n").unwrap(), "aarch64-apple-darwin");
    assert_eq!(
        native_host("release: 1\n").unwrap_err(),
        "Rust compiler did not report its native host target"
    );
}

#[test]
fn cargo_command_is_native_isolated_and_colorless() {
    let args = build_arguments(
        "/checkout with spaces",
        "/checkout with spaces/target/tui-adapters",
        &["zipformer", "whisper-metal"],
        "x86_64-unknown-linux-gnu",
    );
    assert_eq!(
        args,
        [
            "build",
            "--release",
            "--locked",
            "-p",
            "cli",
            "--color",
            "never",
            "--manifest-path",
            "/checkout with spaces/Cargo.toml",
            "--target-dir",
            "/checkout with spaces/target/tui-adapters",
            "--target",
            "x86_64-unknown-linux-gnu",
            "--features",
            "zipformer,whisper-metal"
        ]
    );
}

#[test]
fn restart_overrides_model_and_manifest_without_changing_cwd() {
    assert_eq!(
        restart_arguments("relative manifest.toml", "selected-model"),
        ["--stt-model", "selected-model", "--model-manifest", "relative manifest.toml", "tui"]
    );
}

#[test]
fn build_environment_keeps_toolchain_inputs_only() {
    for volatile in ["CARGO", "CARGO_PKG_NAME", "CARGO_TARGET_X86_64_RUNNER", "RUST_LOG", "CARGO_TERM_COLOR"] {
        assert!(volatile_environment(volatile), "{volatile}");
        assert!(!environment_kept(volatile), "{volatile}");
    }
    for kept in ["PATH", "HOME", "RUSTFLAGS", "CC", "LD_LIBRARY_PATH", "WHISPER_CUDA", "CARGO_HOME"] {
        assert!(environment_kept(kept), "{kept}");
    }
    for dropped in ["TERM", "USER", "EDITOR", "CARGO_TARGET_DIR"] {
        assert!(!environment_kept(dropped), "{dropped}");
    }
    assert!(!volatile_environment("CARGO_TARGET_X86_64_LINKER"));
}

#[test]
fn cache_probe_polls_report_flags_pending_and_failures() {
    let mut probe = CacheProbeTask::start(vec!["whisper".to_owned()]);
    assert_eq!(probe.poll(ProbeReceipt::Pending), Ok(None));
    assert_eq!(
        probe.poll(ProbeReceipt::Finished(Ok(vec![("whisper".to_owned(), true)]))),
        Ok(Some(vec![("whisper".to_owned(), true)]))
    );
    assert_eq!(probe.poll(ProbeReceipt::Finished(Err("boom".to_owned()))), Err("boom".to_owned()));
    assert_eq!(
        probe.poll(ProbeReceipt::Disconnected),
        Err("adapter cache probe stopped unexpectedly".to_owned())
    );
}

#[test]
fn picker_describes_the_selected_model_and_what_enter_does() {
    let mut manifest = entry("whisper-base", "whisper", "whisper/base.bin");
    manifest.revision = Some("abc123".to_owned());
    manifest.timestamps = true;
    let catalog = ModelCatalog {
        manifest_path: "models/manifest.toml".to_owned(),
        entries: vec![CatalogEntry {
            manifest,
            model_path: "models/whisper/base.bin".to_owned(),
            missing_paths: vec!["models/whisper/base.bin".to_owned(), "models/tokens.txt".to_owned()],
            adapter_compiled: true,
        }],
        error: None,
    };
    let lines = picker_panel(&catalog, 0, AdapterAvailability::ArtifactMissing);
    assert_eq!(lines.len(), 13);
    assert_eq!(lines[0], "whisper-base");
    assert_eq!(lines[1], "Family:       whisper");
    assert_eq!(lines[2], "Runtime:      not specified");
    assert_eq!(lines[3], "Revision:     abc123");
    assert_eq!(lines[4], "Model:        models/whisper/base.bin");
    assert_eq!(lines[6], "Adapter:      artifact missing");
    assert_eq!(lines[7], "Artifacts:    missing");
    assert_eq!(lines[8], "Missing:      models/whisper/base.bin, models/tokens.txt");
    assert_eq!(lines[9], "Timestamps:   yes");
    assert_eq!(lines[10], "Streaming:    no");
    assert_eq!(lines[11], "");
    assert_eq!(lines[12], picker_hint(AdapterAvailability::ArtifactMissing));
    assert_eq!(picker_hint(AdapterAvailability::Compiled), "[Enter] load this candidate");
    assert_eq!(picker_panel(&catalog, 3, AdapterAvailability::Compiled), vec!["No model entries found.".to_owned()]);
    let broken = ModelCatalog {
        manifest_path: "models/manifest.toml".to_owned(),
        entries: Vec::new(),
        error: Some("bad manifest".to_owned()),
    };
    assert_eq!(
        picker_panel(&broken, 0, AdapterAvailability::Compiled),
        vec!["Manifest error".to_owned(), String::new(), "bad manifest".to_owned()]
    );
}

#[test]
fn cache_probe_statuses_follow_flags_and_failures() {
    let catalog_entry = |family: &str| CatalogEntry {
        manifest: entry(family, family, "model.bin"),
        model_path: "model.bin".to_owned(),
        missing_paths: Vec::new(),
        adapter_compiled: false,
    };
    let entries = vec![
        catalog_entry("zipformer"),
        catalog_entry("unknown"),
        catalog_entry("whisper"),
        catalog_entry("zipformer"),
    ];
    let families = probe_families(&entries);
    assert_eq!(families, vec!["whisper".to_owned(), "zipformer".to_owned()]);
    assert!(probe_families(&vec![catalog_entry("unknown")]).is_empty());

    let mut cache = AdapterCache::checking(&families);
    assert_eq!(cache.status("whisper"), Some(CacheStatus::Checking));
    assert_eq!(cache.status("unknown"), None);
    cache.apply_flags(&vec![("whisper".to_owned(), true)]);
    assert_eq!(cache.status("whisper"), Some(CacheStatus::Cached));
    assert_eq!(cache.status("zipformer"), Some(CacheStatus::Checking));
    cache.fail_checking();
    assert_eq!(cache.status("whisper"), Some(CacheStatus::Cached));
    assert_eq!(cache.status("zipformer"), Some(CacheStatus::Unavailable));
    cache.apply_flags(&vec![("zipformer".to_owned(), false)]);
    assert_eq!(cache.status("zipformer"), Some(CacheStatus::Missing));
    let whisper = catalog_entry("whisper");
    assert_eq!(adapter_availability(&whisper, cache.status("whisper")), AdapterAvailability::Cached);
    assert_eq!(adapter_availability(&whisper, AdapterCache::new().status("whisper")), AdapterAvailability::Checking);
}

#[test]
fn launcher_environment_is_normalized_but_build_inputs_are_preserved() {
    let workspace = "/checkout";
    let vars = |pairs: &[(&str, &str)]| {
        pairs.iter().map(|(k, v)| (k.to_string(), v.to_string())).collect::<Vec<_>>()
    };
    let shell = vars(&[
        ("PATH", "/usr/bin"),
        ("LD_LIBRARY_PATH", "/opt/native"),
        ("RUSTFLAGS", "-C opt-level=2"),
    ]);
    let mut launcher = shell.clone();
    launcher.extend(vars(&[
        ("CARGO", "/usr/bin/cargo"),
        ("CARGO_MANIFEST_DIR", "/checkout/crates/cli"),
        ("CARGO_PKG_VERSION", "1"),
        ("CARGO_MAKEFLAGS", "--jobserver-auth=3,4"),
        ("RUST_LOG", "debug"),
        ("CARGO_TARGET_X86_64_UNKNOWN_LINUX_GNU_RUNNER", "/tmp/runner"),
        (
            "LD_LIBRARY_PATH",
            "/checkout/target/release:/checkout/target/release/deps:/usr/lib/rustlib/x86_64-unknown-linux-gnu/lib:/opt/native",
        ),
    ]));
    let expected = build_environment(workspace, &shell);
    assert_eq!(
        expected,
        vec![
            ("LD_LIBRARY_PATH".to_owned(), "/opt/native".to_owned()),
            ("PATH".to_owned(), "/usr/bin".to_owned()),
            ("RUSTFLAGS".to_owned(), "-C opt-level=2".to_owned()),
        ]
    );
    assert_eq!(expected, build_environment(workspace, &launcher));
    launcher.extend(vars(&[("LD_LIBRARY_PATH", "/checkout/target/tui-adapters/build/release/deps:/opt/native")]));
    assert_eq!(expected, build_environment(workspace, &launcher));
    for (key, value) in [
        ("RUSTFLAGS", "-C opt-level=3"),
        ("LD_LIBRARY_PATH", "/other/native"),
        ("CARGO_PROFILE_RELEASE_LTO", "true"),
        ("RUSTC_WRAPPER", "/custom/wrapper"),
        ("XDG_CACHE_HOME", "/other/cache"),
    ] {
        let mut changed = launcher.clone();
        changed.extend(vars(&[(key, value)]));
        assert_ne!(expected, build_environment(workspace, &changed), "{key}");
    }
}

#[test]
fn loader_paths_of_the_target_directory_and_toolchain_go() {
    let vars = vec![
        ("CARGO_TARGET_DIR".to_owned(), "out".to_owned()),
        ("DYLD_FALLBACK_LIBRARY_PATH".to_owned(), "/w/out/debug::/usr/lib/rustlib/aarch64/lib".to_owned()),
        ("LD_LIBRARY_PATH".to_owned(), "/w/outside:/lib".to_owned()),
        ("EDITOR".to_owned(), "vi".to_owned()),
    ];
    assert_eq!(
        build_environment("/w", &vars),
        vec![("LD_LIBRARY_PATH".to_owned(), "/w/outside:/lib".to_owned())]
    );
    assert_eq!(clean_value("/w", &None, "LD_LIBRARY_PATH", ""), None);
    assert_eq!(clean_value("/w", &None, "PATH", ""), Some(String::new()));
}

#[test]
fn choosing_a_model_downloads_builds_or_loads_it() {
    let catalog_entry = |id: &str, family: &str, missing: Vec<&str>, compiled: bool| CatalogEntry {
        manifest: entry(id, family, "model.bin"),
        model_path: "model.bin".to_owned(),
        missing_paths: missing.into_iter().map(str::to_owned).collect(),
        adapter_compiled: compiled,
    };
    let catalog = ModelCatalog {
        manifest_path: "models/manifest.toml".to_owned(),
        entries: vec![
            catalog_entry("odd", "wav2vec", vec![], true),
            catalog_entry("fresh", "whisper", vec!["models/fresh.bin"], false),
            catalog_entry("unbuilt", "zipformer", vec![], false),
            catalog_entry("ready", "whisper", vec![], true),
        ],
        error: None,
    };
    assert_eq!(choose_model(&catalog, 0), ModelChoice::Refuse("odd uses unsupported model family `wav2vec`".to_owned()));
    assert_eq!(choose_model(&catalog, 1), ModelChoice::Download("fresh".to_owned()));
    assert_eq!(choose_model(&catalog, 2), ModelChoice::Build("unbuilt".to_owned()));
    assert_eq!(choose_model(&catalog, 3), ModelChoice::Load("ready".to_owned()));
    assert_eq!(
        choose_model(&catalog, 4),
        ModelChoice::Refuse("the model manifest contains no selectable entries".to_owned())
    );
    assert_eq!(load_route(&catalog, "fresh"), ModelChoice::Download("fresh".to_owned()));
    assert_eq!(load_route(&catalog, "elsewhere"), ModelChoice::Load("elsewhere".to_owned()));
    assert_eq!(
        after_download(&catalog, "fresh"),
        Some(ModelChoice::Refuse("download completed but artifacts are still missing: models/fresh.bin".to_owned()))
    );
    assert_eq!(after_download(&catalog, "unbuilt"), Some(ModelChoice::Build("unbuilt".to_owned())));
    assert_eq!(after_download(&catalog, "gone"), None);
}
