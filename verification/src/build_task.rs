//! The progress of an adapter build as a state machine. The caller owns the
//! compiler probe, the Cargo process and the cache worker; it reports what
//! each of them did, and these transitions decide the next state and what
//! the caller does next. A finished build keeps its outcome for good.
use vstd::prelude::*;
use crate::rebuild::{native_host, spec_native_host};
use crate::text::{chars_of, concat_chars, copy_string, string_of};

verus! {

/// Where an adapter build stands.
#[derive(Debug)]
pub enum BuildState {
    /// The compiler's `-vV` probe runs; its output, once read.
    Probing { output: Option<Result<String, String>> },
    /// The cache worker prepares, looks up or publishes the adapter.
    Caching,
    /// Cargo builds `binary`; `cache_held` while a cache generation is
    /// reserved for publishing it.
    Building { binary: String, cache_held: bool },
    /// The build ended: the program to restart into, or the error.
    Finished(Result<String, String>),
}

/// What the cache worker answered.
#[derive(Debug)]
pub enum CacheReply {
    /// The cache holds a validated adapter, or published the new one.
    Ready(String),
    /// The cache holds none; Cargo has to build `binary`.
    Miss { binary: String },
    /// The worker failed with this message.
    Failed(String),
    /// The worker went away without an answer.
    Disconnected,
}

/// What the caller does next.
#[derive(Debug, PartialEq, Eq)]
pub enum BuildAction {
    /// Nothing until the next poll.
    Wait,
    /// Prepare and look up the cache for this host target.
    PrepareCache { host: String },
    /// Start Cargo for this host target.
    StartBuild { host_binary: String },
    /// Publish the built adapter into the reserved cache generation.
    PublishCache,
    /// Kill the running process group.
    Kill,
}

/// The message of a cancelled build.
pub open spec fn cancelled_message() -> Seq<char> {
    "adapter build cancelled"@
}

/// A state that keeps its outcome.
pub open spec fn is_finished(s: BuildState) -> bool {
    s is Finished
}

/// Whether a transition keeps a finished build as it is, with nothing to
/// do: no process started, published or killed.
pub open spec fn keeps_finished(before: BuildState, after: BuildState, action: BuildAction) -> bool {
    is_finished(before) ==> after == before && action == BuildAction::Wait
}

/// The view of a result of strings.
pub open spec fn result_view(r: Result<String, String>) -> Result<Seq<char>, Seq<char>> {
    match r {
        Ok(v) => Ok(v@),
        Err(e) => Err(e@),
    }
}

/// Whether `s` finished with exactly this outcome.
pub open spec fn finished_with(s: BuildState, outcome: Result<Seq<char>, Seq<char>>) -> bool {
    s matches BuildState::Finished(r) && result_view(r) == outcome
}

/// The outcome of a build, once it has one: the same on every poll.
pub fn outcome(state: &BuildState) -> (r: Option<Result<String, String>>)
    ensures
        match *state {
            BuildState::Finished(o) => r matches Some(v) && result_view(v) == result_view(o),
            _ => r is None,
        },
{
    match state {
        BuildState::Finished(Ok(b)) => Some(Ok(copy_string(b))),
        BuildState::Finished(Err(e)) => Some(Err(copy_string(e))),
        _ => None,
    }
}

/// The answer of the cache worker, while the build waits for it: a ready
/// adapter finishes the build, a miss starts Cargo, and a failure or a
/// vanished worker finishes it with the error.
pub fn on_cache_reply(state: BuildState, reply: CacheReply) -> (r: (BuildState, BuildAction))
    ensures
        keeps_finished(state, r.0, r.1),
        state is Caching ==> match reply {
            CacheReply::Ready(b) => finished_with(r.0, Ok(b@)) && r.1 == BuildAction::Wait,
            CacheReply::Miss { binary } => (r.0 matches BuildState::Building { binary: b, cache_held }
                && b == binary && cache_held) && r.1 == BuildAction::StartBuild {
                host_binary: binary,
            },
            CacheReply::Failed(m) => finished_with(r.0, Err(m@)) && r.1 == BuildAction::Wait,
            CacheReply::Disconnected => finished_with(
                r.0,
                Err("adapter cache worker stopped unexpectedly"@),
            ) && r.1 == BuildAction::Wait,
        },
        !(state is Caching) ==> r.0 == state && r.1 == BuildAction::Wait,
{
    match state {
        BuildState::Caching => match reply {
            CacheReply::Ready(b) => (BuildState::Finished(Ok(b)), BuildAction::Wait),
            CacheReply::Miss { binary } => {
                let b = copy_string(&binary);
                (BuildState::Building { binary, cache_held: true }, BuildAction::StartBuild { host_binary: b })
            },
            CacheReply::Failed(m) => (BuildState::Finished(Err(m)), BuildAction::Wait),
            CacheReply::Disconnected => (
                BuildState::Finished(Err("adapter cache worker stopped unexpectedly".to_owned())),
                BuildAction::Wait,
            ),
        },
        other => (other, BuildAction::Wait),
    }
}

/// Cargo could not be started: the build finishes with the error.
pub fn on_build_spawn_failed(state: BuildState, error: &str) -> (r: BuildState)
    ensures
        keeps_finished(state, r, BuildAction::Wait),
        state is Building ==> finished_with(r, Err("could not start Cargo adapter build: "@ + error@)),
        !(state is Building) ==> r == state,
{
    match state {
        BuildState::Building { .. } => BuildState::Finished(
            Err(crate::model::text2("could not start Cargo adapter build: ", error)),
        ),
        other => other,
    }
}

/// The probe's output was read (or its reader went away, as `Err`): it is
/// kept for when the probe exits; only the first reading counts.
pub fn on_probe_output(state: BuildState, output: Result<String, String>) -> (r: BuildState)
    ensures
        keeps_finished(state, r, BuildAction::Wait),
        (state matches BuildState::Probing { output: None }) ==> r == (BuildState::Probing {
            output: Some(output),
        }),
        !(state matches BuildState::Probing { output: None }) ==> r == state,
{
    match state {
        BuildState::Probing { output: None } => BuildState::Probing { output: Some(output) },
        other => other,
    }
}

/// What the probe's exit leads to: a failed probe, a missing or unreadable
/// output, or an unsafe host target finish the build with the error; a
/// valid host target starts the cache preparation.
pub open spec fn spec_probe_exit(
    output: Option<Result<Seq<char>, Seq<char>>>,
    success: bool,
    status: Seq<char>,
) -> Result<Seq<char>, Seq<char>> {
    if !success {
        Err("native Rust target query failed ("@ + status + ")"@)
    } else {
        match output {
            None => Err("missing Rust target query output"@),
            Some(Err(e)) => Err("could not read native Rust target: "@ + e),
            Some(Ok(o)) => spec_native_host(o),
        }
    }
}

/// The view of the probe's output.
pub open spec fn output_view(o: Option<Result<String, String>>) -> Option<Result<Seq<char>, Seq<char>>> {
    match o {
        None => None,
        Some(r) => Some(result_view(r)),
    }
}

/// The probe exited with `success` and the exit status text `status`.
pub fn on_probe_exit(state: BuildState, success: bool, status: &str) -> (r: (BuildState, BuildAction))
    ensures
        keeps_finished(state, r.0, r.1),
        state matches BuildState::Probing { output } ==> match spec_probe_exit(
            output_view(output),
            success,
            status@,
        ) {
            Ok(host) => r.0 is Caching && (r.1 matches BuildAction::PrepareCache { host: h } && h@
                == host),
            Err(m) => finished_with(r.0, Err(m)) && r.1 == BuildAction::Wait,
        },
        !(state is Probing) ==> r.0 == state && r.1 == BuildAction::Wait,
{
    let output = match state {
        BuildState::Probing { output } => output,
        other => {
            return (other, BuildAction::Wait);
        },
    };
    if !success {
        let m = crate::model::text3("native Rust target query failed (", status, ")");
        return (BuildState::Finished(Err(m)), BuildAction::Wait);
    }
    match output {
        None => (
            BuildState::Finished(Err("missing Rust target query output".to_owned())),
            BuildAction::Wait,
        ),
        Some(Err(e)) => (
            BuildState::Finished(Err(crate::model::text2("could not read native Rust target: ", e.as_str()))),
            BuildAction::Wait,
        ),
        Some(Ok(o)) => match native_host(o.as_str()) {
            Ok(host) => (BuildState::Caching, BuildAction::PrepareCache { host }),
            Err(m) => (BuildState::Finished(Err(m)), BuildAction::Wait),
        },
    }
}

/// What Cargo's exit leads to.
pub open spec fn spec_build_exit(
    binary: Seq<char>,
    cache_held: bool,
    success: bool,
    status: Seq<char>,
    binary_exists: bool,
) -> Option<Result<Seq<char>, Seq<char>>> {
    if success && binary_exists && cache_held {
        None
    } else if !success {
        Some(Err("Cargo adapter build failed ("@ + status + "); see native logs"@))
    } else if !binary_exists {
        Some(Err("Cargo succeeded but executable is missing: "@ + binary))
    } else {
        Some(Ok(binary))
    }
}

/// Cargo exited: a successful build whose executable exists is published
/// into the reserved cache generation (`None` in the spec), or, without
/// one, is the outcome; anything else finishes the build with the error.
pub fn on_build_exit(state: BuildState, success: bool, status: &str, binary_exists: bool) -> (r: (
    BuildState,
    BuildAction,
))
    ensures
        keeps_finished(state, r.0, r.1),
        state matches BuildState::Building { binary, cache_held } ==> match spec_build_exit(
            binary@,
            cache_held,
            success,
            status@,
            binary_exists,
        ) {
            None => r.0 is Caching && r.1 == BuildAction::PublishCache,
            Some(o) => finished_with(r.0, o) && r.1 == BuildAction::Wait,
        },
        !(state is Building) ==> r.0 == state && r.1 == BuildAction::Wait,
{
    let (binary, cache_held) = match state {
        BuildState::Building { binary, cache_held } => (binary, cache_held),
        other => {
            return (other, BuildAction::Wait);
        },
    };
    if success && binary_exists && cache_held {
        return (BuildState::Caching, BuildAction::PublishCache);
    }
    if !success {
        let m = crate::model::text3("Cargo adapter build failed (", status, "); see native logs");
        (BuildState::Finished(Err(m)), BuildAction::Wait)
    } else if !binary_exists {
        let m = crate::model::text2("Cargo succeeded but executable is missing: ", binary.as_str());
        (BuildState::Finished(Err(m)), BuildAction::Wait)
    } else {
        (BuildState::Finished(Ok(binary)), BuildAction::Wait)
    }
}

/// The running process could not be polled: it is killed and the build
/// finishes with the error.
pub fn on_poll_failed(state: BuildState, error: &str) -> (r: (BuildState, BuildAction))
    ensures
        keeps_finished(state, r.0, r.1),
        (state is Probing || state is Building) ==> finished_with(
            r.0,
            Err("could not poll Cargo adapter build: "@ + error@),
        ) && r.1 == BuildAction::Kill,
        !(state is Probing || state is Building) ==> r.0 == state && r.1 == BuildAction::Wait,
{
    match state {
        BuildState::Probing { .. } | BuildState::Building { .. } => (
            BuildState::Finished(Err(crate::model::text2("could not poll Cargo adapter build: ", error))),
            BuildAction::Kill,
        ),
        other => (other, BuildAction::Wait),
    }
}

/// Cancelling: a running process is killed, and an unfinished build
/// finishes as cancelled; a finished build keeps its outcome.
pub fn cancel(state: BuildState) -> (r: (BuildState, BuildAction))
    ensures
        keeps_finished(state, r.0, r.1),
        state is Finished ==> r.0 == state && r.1 == BuildAction::Wait,
        state is Caching ==> finished_with(r.0, Err(cancelled_message())) && r.1
            == BuildAction::Wait,
        (state is Probing || state is Building) ==> finished_with(r.0, Err(cancelled_message()))
            && r.1 == BuildAction::Kill,
{
    match state {
        BuildState::Finished(o) => (BuildState::Finished(o), BuildAction::Wait),
        BuildState::Caching => (
            BuildState::Finished(Err("adapter build cancelled".to_owned())),
            BuildAction::Wait,
        ),
        _ => (BuildState::Finished(Err("adapter build cancelled".to_owned())), BuildAction::Kill),
    }
}

/// A finished build is final: over any run of later polls, each a
/// transition that keeps a finished build (as every transition above does,
/// whatever the poll reports), the state stays the finished one, so its
/// outcome reads the same every time, and nothing is started, published or
/// killed.
pub proof fn law_finished_build_is_final(states: Seq<BuildState>, actions: Seq<BuildAction>)
    requires
        states.len() == actions.len() + 1,
        is_finished(states[0]),
        forall|i: int| 0 <= i < actions.len() ==> #[trigger] keeps_finished(states[i], states[i + 1], actions[i]),
    ensures
        forall|i: int| 0 <= i < states.len() ==> #[trigger] states[i] == states[0],
        forall|i: int| 0 <= i < actions.len() ==> #[trigger] actions[i] == BuildAction::Wait,
    decreases actions.len(),
{
    if actions.len() > 0 {
        let n = actions.len() as int;
        let s2 = states.drop_last();
        let a2 = actions.drop_last();
        assert forall|i: int| 0 <= i < a2.len() implies #[trigger] keeps_finished(s2[i], s2[i + 1], a2[i]) by {
            assert(keeps_finished(states[i], states[i + 1], actions[i]));
        }
        law_finished_build_is_final(s2, a2);
        assert(s2[n - 1] == states[0]);
        assert(keeps_finished(states[n - 1], states[n], actions[n - 1]));
        assert forall|i: int| 0 <= i < states.len() implies #[trigger] states[i] == states[0] by {
            if i < n {
                assert(s2[i] == states[0]);
            }
        }
        assert forall|i: int| 0 <= i < actions.len() implies #[trigger] actions[i] == BuildAction::Wait by {
            if i < n - 1 {
                assert(a2[i] == BuildAction::Wait);
            }
        }
    }
}

} // verus!
