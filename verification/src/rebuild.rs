//! Rebuilding the program with another recognizer adapter from a development
//! checkout: which Cargo features a build enables, which host target the
//! compiler reports, which environment variables reach the build and its
//! cache fingerprint, and the command lines of the build and of the restart.
//! Starting processes and threads is left to the caller.
use vstd::prelude::*;
use crate::model::{path_join, CompiledFeatures};
use crate::text::{
    chars_of, concat_chars, has_prefix, has_suffix, lemma_line_end, line_end, str_eq, string_of,
};

verus! {

// ---------------------------------------------------------------------------
// Features
// ---------------------------------------------------------------------------

/// The texts of a vector of string slices.
pub open spec fn str_views(v: Seq<&str>) -> Seq<Seq<char>> {
    v.map_values(|s: &str| s@)
}

/// The feature that builds a family's adapter.
pub open spec fn requested_feature(family: Seq<char>) -> Option<Seq<char>> {
    if family == "whisper"@ {
        Some("whisper"@)
    } else if family == "zipformer"@ {
        Some("zipformer"@)
    } else {
        None
    }
}

/// `f` with `name` added at the end when it is enabled and not yet there.
pub open spec fn add_enabled(f: Seq<Seq<char>>, enabled: bool, name: Seq<char>) -> Seq<Seq<char>> {
    if enabled && !f.contains(name) {
        f.push(name)
    } else {
        f
    }
}

/// The requested feature, then every feature the running program was built
/// with, each once.
pub open spec fn feature_union(requested: Seq<char>, c: CompiledFeatures) -> Seq<Seq<char>> {
    add_enabled(
        add_enabled(
            add_enabled(
                add_enabled(seq![requested], c.whisper, "whisper"@),
                c.whisper_metal,
                "whisper-metal"@,
            ),
            c.whisper_coreml,
            "whisper-coreml"@,
        ),
        c.zipformer,
        "zipformer"@,
    )
}

/// The error for a family without an adapter.
pub open spec fn unsupported_adapter_message(family: Seq<char>) -> Seq<char> {
    "unsupported adapter family: "@ + family
}

fn contains_str(v: &Vec<&'static str>, name: &str) -> (r: bool)
    ensures
        r == str_views(v@).contains(name@),
{
    let mut i: usize = 0;
    while i < v.len()
        invariant
            i <= v.len(),
            forall|k: int| 0 <= k < i ==> v@[k]@ != name@,
        decreases v.len() - i,
    {
        if str_eq(v[i], name) {
            assert(str_views(v@)[i as int] == name@);
            return true;
        }
        i += 1;
    }
    assert forall|k: int| 0 <= k < str_views(v@).len() implies str_views(v@)[k] != name@ by {
        assert(str_views(v@)[k] == v@[k]@);
    }
    false
}

fn push_enabled(v: &mut Vec<&'static str>, enabled: bool, name: &'static str)
    ensures
        str_views(final(v)@) == add_enabled(str_views(old(v)@), enabled, name@),
{
    if enabled && !contains_str(v, name) {
        v.push(name);
        assert(str_views(v@) =~= str_views(old(v)@).push(name@));
    }
}

/// The Cargo features of an adapter build for `family`: its own feature,
/// then those the running program was built with, each once; an error for
/// a family without an adapter.
pub fn features(family: &str, compiled: CompiledFeatures) -> (r: Result<Vec<&'static str>, String>)
    ensures
        match requested_feature(family@) {
            Some(f) => r matches Ok(v) && str_views(v@) == feature_union(f, compiled),
            None => r matches Err(m) && m@ == unsupported_adapter_message(family@),
        },
{
    let requested: &'static str = if str_eq(family, "whisper") {
        "whisper"
    } else if str_eq(family, "zipformer") {
        "zipformer"
    } else {
        let msg = concat_chars(chars_of("unsupported adapter family: "), &chars_of(family));
        return Err(string_of(&msg));
    };
    let mut v: Vec<&'static str> = Vec::new();
    v.push(requested);
    assert(str_views(v@) =~= seq![requested@]);
    push_enabled(&mut v, compiled.whisper, "whisper");
    push_enabled(&mut v, compiled.whisper_metal, "whisper-metal");
    push_enabled(&mut v, compiled.whisper_coreml, "whisper-coreml");
    push_enabled(&mut v, compiled.zipformer, "zipformer");
    Ok(v)
}

proof fn lemma_add_enabled(f: Seq<Seq<char>>, enabled: bool, name: Seq<char>)
    requires
        f.no_duplicates(),
    ensures
        add_enabled(f, enabled, name).no_duplicates(),
        enabled ==> add_enabled(f, enabled, name).contains(name),
        forall|x: Seq<char>| f.contains(x) ==> add_enabled(f, enabled, name).contains(x),
{
    let g = add_enabled(f, enabled, name);
    if enabled && !f.contains(name) {
        assert(g[f.len() as int] == name);
        assert forall|x: Seq<char>| f.contains(x) implies g.contains(x) by {
            let k = choose|k: int| 0 <= k < f.len() && f[k] == x;
            assert(g[k] == x);
        }
    }
}

/// An adapter build enables its family's feature and every feature the
/// running program was built with, and none of them twice.
pub proof fn law_feature_union(family: Seq<char>, c: CompiledFeatures)
    requires
        requested_feature(family) is Some,
    ensures
        feature_union(requested_feature(family)->0, c).contains(family),
        feature_union(requested_feature(family)->0, c).no_duplicates(),
        c.whisper ==> feature_union(requested_feature(family)->0, c).contains("whisper"@),
        c.whisper_metal ==> feature_union(requested_feature(family)->0, c).contains(
            "whisper-metal"@,
        ),
        c.whisper_coreml ==> feature_union(requested_feature(family)->0, c).contains(
            "whisper-coreml"@,
        ),
        c.zipformer ==> feature_union(requested_feature(family)->0, c).contains("zipformer"@),
{
    let r = requested_feature(family)->0;
    let f0 = seq![r];
    assert(f0[0] == r);
    assert(r == family);
    let f1 = add_enabled(f0, c.whisper, "whisper"@);
    let f2 = add_enabled(f1, c.whisper_metal, "whisper-metal"@);
    let f3 = add_enabled(f2, c.whisper_coreml, "whisper-coreml"@);
    lemma_add_enabled(f0, c.whisper, "whisper"@);
    lemma_add_enabled(f1, c.whisper_metal, "whisper-metal"@);
    lemma_add_enabled(f2, c.whisper_coreml, "whisper-coreml"@);
    lemma_add_enabled(f3, c.zipformer, "zipformer"@);
    assert(f0.contains(r));
    assert(f1.contains(r));
    assert(f2.contains(r));
    assert(f3.contains(r));
    assert(f0.no_duplicates());
}

// ---------------------------------------------------------------------------
// The compiler's host target
// ---------------------------------------------------------------------------

/// The line from `i` to `end` as `str::lines` yields it: without the `\r` of
/// a `\r\n` ending.
pub open spec fn line_text(s: Seq<char>, i: int, end: int) -> Seq<char> {
    let raw = s.subrange(i, end);
    if end < s.len() && raw.len() > 0 && raw.last() == '\r' {
        raw.drop_last()
    } else {
        raw
    }
}

/// What follows `host: ` on the first line of `s` from index `i` on that
/// starts with it, taking lines as `str::lines` does.
pub open spec fn host_line_from(s: Seq<char>, i: int) -> Option<Seq<char>>
    decreases s.len() + 1 - i,
{
    if i < 0 || i >= s.len() {
        None
    } else {
        let end = line_end(s, i);
        let line = line_text(s, i, end);
        if "host: "@.is_prefix_of(line) {
            Some(line.skip(6))
        } else {
            proof {
                lemma_line_end(s, i);
            }
            host_line_from(s, end + 1)
        }
    }
}

/// A character a host target name may hold.
pub open spec fn host_char(c: char) -> bool {
    ('a' <= c && c <= 'z') || ('A' <= c && c <= 'Z') || ('0' <= c && c <= '9') || c == '-' || c
        == '_' || c == '.'
}

/// Whether a reported host target is safe to pass on: not empty, only
/// ASCII letters, digits, `-`, `_` and `.`, and not `.` or `..`.
pub open spec fn valid_host(h: Seq<char>) -> bool {
    &&& h.len() > 0
    &&& forall|k: int| 0 <= k < h.len() ==> host_char(#[trigger] h[k])
    &&& h != seq!['.']
    &&& h != seq!['.', '.']
}

/// The error when the compiler reported no host target.
pub open spec fn no_host_message() -> Seq<char> {
    "Rust compiler did not report its native host target"@
}

/// The error when the reported host target is not safe.
pub open spec fn invalid_host_message() -> Seq<char> {
    "Rust compiler reported an invalid host target"@
}

/// The native host target from the compiler's `-vV` output.
pub open spec fn spec_native_host(output: Seq<char>) -> Result<Seq<char>, Seq<char>> {
    match host_line_from(output, 0) {
        None => Err(no_host_message()),
        Some(h) => if valid_host(h) {
            Ok(h)
        } else {
            Err(invalid_host_message())
        },
    }
}

fn host_char_exec(c: char) -> (r: bool)
    ensures
        r == host_char(c),
{
    ('a' <= c && c <= 'z') || ('A' <= c && c <= 'Z') || ('0' <= c && c <= '9') || c == '-' || c
        == '_' || c == '.'
}

/// What follows `host: ` on the first line that starts with it.
fn host_line(s: &Vec<char>) -> (r: Option<Vec<char>>)
    ensures
        match host_line_from(s@, 0) {
            Some(h) => r matches Some(v) && v@ == h,
            None => r is None,
        },
{
    let prefix = chars_of("host: ");
    proof {
        reveal_strlit("host: ");
        assert(prefix@ =~= seq!['h', 'o', 's', 't', ':', ' ']);
    }
    let mut i: usize = 0;
    while i < s.len()
        invariant
            prefix@ == "host: "@,
            prefix@.len() == 6,
            i <= s.len(),
            host_line_from(s@, 0) == host_line_from(s@, i as int),
        decreases s.len() - i,
    {
        let mut end = i;
        while end < s.len() && s[end] != '\n'
            invariant
                i <= end <= s.len(),
                line_end(s@, i as int) == line_end(s@, end as int),
            decreases s.len() - end,
        {
            end += 1;
        }
        let mut stop = end;
        if end < s.len() && stop > i && s[stop - 1] == '\r' {
            stop -= 1;
        }
        let ghost line = line_text(s@, i as int, end as int);
        assert(line =~= s@.subrange(i as int, stop as int));
        let mut matches = stop - i >= 6;
        let mut k: usize = 0;
        while matches && k < 6
            invariant
                i <= stop <= s.len(),
                matches ==> stop - i >= 6,
                k <= 6,
                prefix@.len() == 6,
                matches ==> forall|j: int| 0 <= j < k ==> s@[i + j] == prefix@[j],
                !matches ==> (stop - i < 6 || exists|j: int| 0 <= j < 6 && s@[i + j] != prefix@[j]),
            decreases 6 - k,
        {
            if s[i + k] != prefix[k] {
                matches = false;
            }
            k += 1;
        }
        if matches {
            assert(prefix@ =~= line.subrange(0, 6));
            let mut h: Vec<char> = Vec::new();
            let mut j: usize = i + 6;
            while j < stop
                invariant
                    i + 6 <= j <= stop,
                    stop <= s.len(),
                    h@ == s@.subrange(i + 6, j as int),
                decreases stop - j,
            {
                h.push(s[j]);
                j += 1;
                assert(s@.subrange(i + 6, j as int) == s@.subrange(i + 6, j as int - 1).push(
                    s@[j as int - 1],
                ));
            }
            assert(h@ =~= line.skip(6));
            return Some(h);
        }
        assert(!("host: "@.is_prefix_of(line))) by {
            if "host: "@.is_prefix_of(line) {
                if stop - i >= 6 {
                    let j = choose|j: int| 0 <= j < 6 && s@[i + j] != prefix@[j];
                    assert(line[j] == s@[i + j]);
                }
            }
        }
        proof {
            lemma_line_end(s@, i as int);
        }
        if end == s.len() {
            assert(host_line_from(s@, end + 1) is None);
            return None;
        }
        i = end + 1;
    }
    None
}

/// The native host target that the compiler's `-vV` output reports on its
/// first `host: ` line, or the error when there is none or it is unsafe.
pub fn native_host(output: &str) -> (r: Result<String, String>)
    ensures
        match spec_native_host(output@) {
            Ok(h) => r matches Ok(v) && v@ == h,
            Err(m) => r matches Err(e) && e@ == m,
        },
{
    let s = chars_of(output);
    let host = match host_line(&s) {
        Some(h) => h,
        None => {
            return Err("Rust compiler did not report its native host target".to_owned());
        },
    };
    let mut ok = host.len() > 0;
    let mut k: usize = 0;
    while ok && k < host.len()
        invariant
            k <= host.len(),
            ok ==> host.len() > 0,
            ok ==> forall|j: int| 0 <= j < k ==> host_char(host@[j]),
            !ok ==> (host.len() == 0 || exists|j: int| 0 <= j < host.len() && !host_char(host@[j])),
        decreases host.len() - k,
    {
        if !host_char_exec(host[k]) {
            ok = false;
        }
        k += 1;
    }
    let dot = ['.'];
    let dots = ['.', '.'];
    assert(dot@ == seq!['.']);
    assert(dots@ == seq!['.', '.']);
    if ok && !crate::text::chars_eq(&host, &dot) && !crate::text::chars_eq(&host, &dots) {
        Ok(string_of(&host))
    } else {
        Err("Rust compiler reported an invalid host target".to_owned())
    }
}

// ---------------------------------------------------------------------------
// Build environment
// ---------------------------------------------------------------------------

/// Whether `key` is one of the names of `list`.
fn any_equal(key: &str, list: &[&str]) -> (r: bool)
    ensures
        r == str_views(list@).contains(key@),
{
    let mut i: usize = 0;
    while i < list.len()
        invariant
            i <= list.len(),
            forall|k: int| 0 <= k < i ==> list@[k]@ != key@,
        decreases list.len() - i,
    {
        if str_eq(list[i], key) {
            assert(str_views(list@)[i as int] == key@);
            return true;
        }
        i += 1;
    }
    assert forall|k: int| 0 <= k < str_views(list@).len() implies str_views(list@)[k] != key@ by {
        assert(str_views(list@)[k] == list@[k]@);
    }
    false
}

/// Whether one of the texts of `list` is a prefix of `key`.
pub open spec fn some_prefix(list: Seq<Seq<char>>, key: Seq<char>) -> bool {
    exists|i: int| 0 <= i < list.len() && (#[trigger] list[i]).is_prefix_of(key)
}

/// Whether one of the texts of `list` is a prefix of `key`.
fn any_prefix(key: &str, list: &[&str]) -> (r: bool)
    ensures
        r == some_prefix(str_views(list@), key@),
{
    let mut i: usize = 0;
    while i < list.len()
        invariant
            i <= list.len(),
            forall|k: int| 0 <= k < i ==> !(#[trigger] list@[k]@).is_prefix_of(key@),
        decreases list.len() - i,
    {
        if has_prefix(key, list[i]) {
            assert(str_views(list@)[i as int] == list@[i as int]@);
            return true;
        }
        i += 1;
    }
    assert forall|k: int| 0 <= k < str_views(list@).len() implies !(#[trigger] str_views(
        list@,
    )[k]).is_prefix_of(key@) by {
        assert(str_views(list@)[k] == list@[k]@);
    }
    false
}

/// Variables that Cargo sets for the build it runs, or that only change
/// logging: they neither reach the adapter build nor its fingerprint.
pub open spec fn volatile_names() -> Seq<Seq<char>> {
    seq![
        "CARGO"@,
        "CARGO_PRIMARY_PACKAGE"@,
        "CARGO_MAKEFLAGS"@,
        "CARGO_TARGET_DIR"@,
        "CARGO_BUILD_TARGET"@,
        "CARGO_BUILD_TARGET_DIR"@,
        "RUST_LOG"@,
        "RUST_BACKTRACE"@,
        "RUST_LIB_BACKTRACE"@,
    ]
}

/// Prefixes of variables that Cargo sets per package or per run.
pub open spec fn volatile_prefixes() -> Seq<Seq<char>> {
    seq![
        "CARGO_MANIFEST_"@,
        "CARGO_PKG_"@,
        "CARGO_FEATURE_"@,
        "CARGO_BIN_EXE_"@,
        "CARGO_TERM_"@,
    ]
}

/// Whether an environment variable is volatile: one of `volatile_names`,
/// with one of `volatile_prefixes`, or a `CARGO_TARGET_..._RUNNER`.
pub open spec fn spec_volatile_environment(key: Seq<char>) -> bool {
    ||| volatile_names().contains(key)
    ||| some_prefix(volatile_prefixes(), key)
    ||| ("CARGO_TARGET_"@.is_prefix_of(key) && "_RUNNER"@.is_suffix_of(key))
}

/// Whether an environment variable is volatile for adapter builds.
pub fn volatile_environment(key: &str) -> (r: bool)
    ensures
        r == spec_volatile_environment(key@),
{
    let names = [
        "CARGO",
        "CARGO_PRIMARY_PACKAGE",
        "CARGO_MAKEFLAGS",
        "CARGO_TARGET_DIR",
        "CARGO_BUILD_TARGET",
        "CARGO_BUILD_TARGET_DIR",
        "RUST_LOG",
        "RUST_BACKTRACE",
        "RUST_LIB_BACKTRACE",
    ];
    let prefixes = ["CARGO_MANIFEST_", "CARGO_PKG_", "CARGO_FEATURE_", "CARGO_BIN_EXE_", "CARGO_TERM_"];
    assert(str_views(names@) =~= volatile_names());
    assert(str_views(prefixes@) =~= volatile_prefixes());
    any_equal(key, &names) || any_prefix(key, &prefixes) || (has_prefix(key, "CARGO_TARGET_")
        && has_suffix(key, "_RUNNER"))
}

/// Variables that reach an adapter build by name.
pub open spec fn kept_names() -> Seq<Seq<char>> {
    seq!["PATH"@, "HOME"@, "SDKROOT"@, "MACOSX_DEPLOYMENT_TARGET"@, "XDG_CACHE_HOME"@]
}

/// Prefixes of the toolchain variables that reach an adapter build.
pub open spec fn kept_prefixes() -> Seq<Seq<char>> {
    seq![
        "CARGO"@,
        "RUST"@,
        "CC"@,
        "CXX"@,
        "CFLAGS"@,
        "CXXFLAGS"@,
        "CPPFLAGS"@,
        "LDFLAGS"@,
        "LD_"@,
        "DYLD_"@,
        "LIB"@,
        "CPATH"@,
        "C_INCLUDE_PATH"@,
        "CPLUS_INCLUDE_PATH"@,
        "INCLUDE"@,
        "AR"@,
        "CMAKE"@,
        "PKG_CONFIG"@,
        "BINDGEN"@,
        "WHISPER"@,
        "LITERT"@,
        "ORT"@,
    ]
}

/// Whether an environment variable reaches an adapter build (and its cache
/// fingerprint): not volatile, and one of `kept_names` or with one of
/// `kept_prefixes`.
pub open spec fn spec_environment_kept(name: Seq<char>) -> bool {
    !spec_volatile_environment(name) && (kept_names().contains(name) || some_prefix(
        kept_prefixes(),
        name,
    ))
}

/// Whether an environment variable reaches an adapter build.
pub fn environment_kept(name: &str) -> (r: bool)
    ensures
        r == spec_environment_kept(name@),
{
    if volatile_environment(name) {
        return false;
    }
    let names = ["PATH", "HOME", "SDKROOT", "MACOSX_DEPLOYMENT_TARGET", "XDG_CACHE_HOME"];
    let prefixes = [
        "CARGO",
        "RUST",
        "CC",
        "CXX",
        "CFLAGS",
        "CXXFLAGS",
        "CPPFLAGS",
        "LDFLAGS",
        "LD_",
        "DYLD_",
        "LIB",
        "CPATH",
        "C_INCLUDE_PATH",
        "CPLUS_INCLUDE_PATH",
        "INCLUDE",
        "AR",
        "CMAKE",
        "PKG_CONFIG",
        "BINDGEN",
        "WHISPER",
        "LITERT",
        "ORT",
    ];
    assert(str_views(names@) =~= kept_names());
    assert(str_views(prefixes@) =~= kept_prefixes());
    any_equal(name, &names) || any_prefix(name, &prefixes)
}

/// A volatile variable never reaches an adapter build.
pub proof fn law_volatile_never_kept(name: Seq<char>)
    ensures
        spec_volatile_environment(name) ==> !spec_environment_kept(name),
{
}

// ---------------------------------------------------------------------------
// Command lines
// ---------------------------------------------------------------------------

/// The arguments of the Cargo adapter build: a locked release build of the
/// program, colorless, with the workspace manifest, the target directory,
/// the host target and the features joined with `,`.
pub open spec fn build_argument_list(
    workspace: Seq<char>,
    target: Seq<char>,
    features: Seq<Seq<char>>,
    host: Seq<char>,
) -> Seq<Seq<char>> {
    seq![
        "build"@,
        "--release"@,
        "--locked"@,
        "-p"@,
        "cli"@,
        "--color"@,
        "never"@,
        "--manifest-path"@,
        path_join(workspace, "Cargo.toml"@),
        "--target-dir"@,
        target,
        "--target"@,
        host,
        "--features"@,
        crate::text::join(features, ","@),
    ]
}

/// The arguments of the Cargo adapter build.
pub fn build_arguments(workspace: &str, target: &str, features: &[&str], host: &str) -> (r: Vec<
    String,
>)
    ensures
        crate::text::string_views(r@) == build_argument_list(
            workspace@,
            target@,
            str_views(features@),
            host@,
        ),
{
    let mut joined_features: Vec<Vec<char>> = Vec::new();
    let mut i: usize = 0;
    while i < features.len()
        invariant
            i <= features.len(),
            crate::text::views(joined_features@) == str_views(features@.take(i as int)),
        decreases features.len() - i,
    {
        let ghost before = joined_features@;
        joined_features.push(chars_of(features[i]));
        assert(features@.take(i as int + 1) == features@.take(i as int).push(features@[i as int]));
        assert(crate::text::views(joined_features@) =~= crate::text::views(before).push(
            features@[i as int]@,
        ));
        assert(str_views(features@.take(i as int + 1)) =~= str_views(features@.take(i as int)).push(
            features@[i as int]@,
        ));
        i += 1;
    }
    assert(features@.take(features.len() as int) == features@);
    let comma = chars_of(",");
    let feature_list = string_of(&crate::text::join_chars(&joined_features, &comma));
    let mut r: Vec<String> = Vec::new();
    r.push("build".to_owned());
    r.push("--release".to_owned());
    r.push("--locked".to_owned());
    r.push("-p".to_owned());
    r.push("cli".to_owned());
    r.push("--color".to_owned());
    r.push("never".to_owned());
    r.push("--manifest-path".to_owned());
    r.push(crate::model::join_path(workspace, "Cargo.toml"));
    r.push("--target-dir".to_owned());
    r.push(target.to_owned());
    r.push("--target".to_owned());
    r.push(host.to_owned());
    r.push("--features".to_owned());
    r.push(feature_list);
    assert(crate::text::string_views(r@) =~= build_argument_list(
        workspace@,
        target@,
        str_views(features@),
        host@,
    ));
    r
}

/// The arguments of the restarted program: the chosen model and manifest,
/// then the terminal interface.
pub open spec fn restart_argument_list(manifest: Seq<char>, model_id: Seq<char>) -> Seq<
    Seq<char>,
> {
    seq!["--stt-model"@, model_id, "--model-manifest"@, manifest, "tui"@]
}

/// The arguments of the restarted program.
pub fn restart_arguments(model_manifest: &str, model_id: &str) -> (r: Vec<String>)
    ensures
        crate::text::string_views(r@) == restart_argument_list(model_manifest@, model_id@),
{
    let mut r: Vec<String> = Vec::new();
    r.push("--stt-model".to_owned());
    r.push(model_id.to_owned());
    r.push("--model-manifest".to_owned());
    r.push(model_manifest.to_owned());
    r.push("tui".to_owned());
    assert(crate::text::string_views(r@) =~= restart_argument_list(model_manifest@, model_id@));
    r
}

// ---------------------------------------------------------------------------
// The adapter cache probe
// ---------------------------------------------------------------------------

/// What a poll of the cache probe's channel found.
#[derive(Debug)]
pub enum ProbeReceipt {
    /// The probe finished: one cache-hit flag per family, or its error.
    Finished(Result<Vec<(String, bool)>, String>),
    /// The probe is still running.
    Pending,
    /// The probe's thread went away without an answer.
    Disconnected,
}

/// The error when the probe's thread went away without an answer.
pub open spec fn probe_stopped_message() -> Seq<char> {
    "adapter cache probe stopped unexpectedly"@
}

/// A probe of the adapter cache: the model families whose cached adapters
/// it checks.
pub struct CacheProbeTask {
    pub families: Vec<String>,
}

impl CacheProbeTask {
    /// A probe for these families.
    pub fn start(families: Vec<String>) -> (t: Self)
        ensures
            t.families == families,
    {
        CacheProbeTask { families }
    }

    /// Nonblocking: what a poll of the probe answers, given what its channel
    /// held. The flags once it finished (one cache-hit flag per family),
    /// nothing while it runs, and an error if it failed or went away.
    pub fn poll(&mut self, receipt: ProbeReceipt) -> (r: Result<Option<Vec<(String, bool)>>, String>)
        ensures
            final(self).families == old(self).families,
            match receipt {
                ProbeReceipt::Finished(Ok(v)) => r == Ok::<Option<Vec<(String, bool)>>, String>(
                    Some(v),
                ),
                ProbeReceipt::Finished(Err(e)) => r == Err::<Option<Vec<(String, bool)>>, String>(e),
                ProbeReceipt::Pending => r == Ok::<Option<Vec<(String, bool)>>, String>(None),
                ProbeReceipt::Disconnected => r matches Err(e) && e@ == probe_stopped_message(),
            },
    {
        match receipt {
            ProbeReceipt::Finished(Ok(v)) => Ok(Some(v)),
            ProbeReceipt::Finished(Err(e)) => Err(e),
            ProbeReceipt::Pending => Ok(None),
            ProbeReceipt::Disconnected => Err("adapter cache probe stopped unexpectedly".to_owned()),
        }
    }
}

} // verus!
