//! The backend's lifecycle decisions: its schema, its single watcher, its
//! health, and the plugin's command line.

use vstd::prelude::*;
use crate::text::push_char;

verus! {

/// Trigger kind emitted for the catch-all `POST /` route.
pub const KIND_DEFAULT: &'static str = "webhook";

/// Why a second `watch` is refused.
pub const ALREADY_WATCHING: &'static str = "watch already called; webhook backend supports a single watcher";

/// Command-line flag asking for the plugin manifest.
pub const MANIFEST_FLAG: &'static str = "--manifest";

/// Short form of `MANIFEST_FLAG`.
pub const MANIFEST_FLAG_SHORT: &'static str = "-m";

/// What the backend advertises to the host.
pub struct SchemaInfo {
    /// Trigger kinds the backend emits by name.
    pub kinds: Vec<String>,
    /// Whether a restarted plugin resumes where it stopped.
    pub supports_resume: bool,
    /// Whether events are deduplicated.
    pub supports_dedup: bool,
    /// Whether events wait for an acknowledgement.
    pub supports_ack: bool,
}

/// The schema: the `webhook` kind; no resume, no dedup, no ack (the HTTP
/// listener keeps no journal, so events in flight are lost on restart).
pub fn trigger_schema() -> (s: SchemaInfo)
    ensures
        s.kinds@.len() == 1,
        s.kinds@[0]@ == KIND_DEFAULT@,
        !s.supports_resume,
        !s.supports_dedup,
        !s.supports_ack,
{
    let mut kinds: Vec<String> = Vec::new();
    kinds.push(String::from_str(KIND_DEFAULT));
    SchemaInfo { kinds, supports_resume: false, supports_dedup: false, supports_ack: false }
}

/// A failure reported to the host.
#[derive(Clone, Debug)]
pub enum BackendFailure {
    /// The backend cannot serve the call; the text says why.
    Unavailable(String),
}

/// Acknowledges an event: a no-op that always succeeds, since the schema
/// advertises no acknowledgements.
pub fn acknowledge(event_id: &str) -> (res: Result<(), BackendFailure>)
    ensures
        res is Ok,
{
    Ok(())
}

/// The failure of a `watch` whose listener could not bind: the text
/// `failed to bind <addr>: <error>`.
pub fn bind_failure(addr: &str, error: &str) -> (f: BackendFailure)
    ensures
        f matches BackendFailure::Unavailable(m)
            && m@ == "failed to bind "@ + addr@ + seq![':', ' '] + error@,
{
    let mut m = String::from_str("failed to bind ");
    m.append(addr);
    push_char(&mut m, ':');
    push_char(&mut m, ' ');
    m.append(error);
    BackendFailure::Unavailable(m)
}

/// What a successful `watch` has to do about the HTTP listener.
#[derive(Clone, Copy, Debug, PartialEq, Eq)]
pub enum WatchStart {
    /// The listener is not running yet: bind it and start serving.
    BindServer,
    /// The listener already runs.
    ServerRunning,
}

/// Health reported to the host.
#[derive(Clone, Copy, Debug, PartialEq, Eq)]
pub enum HealthState {
    Healthy,
    Unhealthy,
}

/// Where the backend stands: whether the event receiver is still there to
/// hand to a watcher, and whether the listener was started.
pub struct LifecycleView {
    pub receiver_available: bool,
    pub server_started: bool,
}

/// The single-watcher lifecycle of the backend.
pub struct WatchLifecycle {
    receiver_available: bool,
    server_started: bool,
}

impl View for WatchLifecycle {
    type V = LifecycleView;

    closed spec fn view(&self) -> LifecycleView {
        LifecycleView {
            receiver_available: self.receiver_available,
            server_started: self.server_started,
        }
    }
}

/// A new backend: receiver in hand, listener not started.
pub open spec fn initial_lifecycle() -> LifecycleView {
    LifecycleView { receiver_available: true, server_started: false }
}

/// What `watch` does in state `s`: `None` when it is refused, else what it
/// has to do about the listener.
pub open spec fn watch_outcome(s: LifecycleView) -> Option<WatchStart> {
    if !s.receiver_available {
        None
    } else if s.server_started {
        Some(WatchStart::ServerRunning)
    } else {
        Some(WatchStart::BindServer)
    }
}

/// The state after `watch` in state `s`: the receiver is taken, whether or
/// not the call succeeds afterwards.
pub open spec fn after_watch(s: LifecycleView) -> LifecycleView {
    LifecycleView { receiver_available: false, server_started: s.server_started }
}

/// The state after the listener was bound and started.
pub open spec fn after_bind(s: LifecycleView) -> LifecycleView {
    LifecycleView { receiver_available: s.receiver_available, server_started: true }
}

/// Health in state `s`, given whether the event channel is still open:
/// healthy before the listener starts, then healthy exactly while the
/// channel is open.
pub open spec fn health_of(s: LifecycleView, channel_open: bool) -> HealthState {
    if !s.server_started || channel_open {
        HealthState::Healthy
    } else {
        HealthState::Unhealthy
    }
}

/// A new backend's first `watch` binds the listener; after any `watch`,
/// successful or not, every later `watch` is refused, whether or not the
/// listener was started in between.
pub proof fn single_watcher(s: LifecycleView)
    ensures
        watch_outcome(initial_lifecycle()) == Some(WatchStart::BindServer),
        watch_outcome(after_watch(s)) is None,
        watch_outcome(after_bind(after_watch(s))) is None,
        watch_outcome(after_watch(after_watch(s))) is None,
{
}

/// A backend whose listener has not started reports healthy, whatever the
/// channel; a new backend in particular.
pub proof fn healthy_before_listener(s: LifecycleView, channel_open: bool)
    ensures
        !s.server_started ==> health_of(s, channel_open) == HealthState::Healthy,
        health_of(initial_lifecycle(), channel_open) == HealthState::Healthy,
        health_of(after_bind(s), true) == HealthState::Healthy,
        health_of(after_bind(s), false) == HealthState::Unhealthy,
{
}

impl WatchLifecycle {
    /// A new backend's lifecycle.
    pub fn new() -> (l: WatchLifecycle)
        ensures
            l@ == initial_lifecycle(),
            l@.receiver_available,
            !l@.server_started,
    {
        WatchLifecycle { receiver_available: true, server_started: false }
    }

    /// Whether the receiver is still there for a watcher.
    pub fn receiver_available(&self) -> (b: bool)
        ensures
            b == self@.receiver_available,
    {
        self.receiver_available
    }

    /// Whether the listener was started.
    pub fn server_started(&self) -> (b: bool)
        ensures
            b == self@.server_started,
    {
        self.server_started
    }

    /// Begins a `watch`: takes the receiver and says what to do about the
    /// listener, or refuses when a watcher already took the receiver.
    pub fn begin_watch(&mut self) -> (res: Result<WatchStart, BackendFailure>)
        ensures
            final(self)@ == after_watch(old(self)@),
            !final(self)@.receiver_available,
            final(self)@.server_started == old(self)@.server_started,
            old(self)@.receiver_available && !old(self)@.server_started
                ==> res == Ok::<WatchStart, BackendFailure>(WatchStart::BindServer),
            old(self)@.receiver_available && old(self)@.server_started
                ==> res == Ok::<WatchStart, BackendFailure>(WatchStart::ServerRunning),
            !old(self)@.receiver_available ==> res is Err,
            match watch_outcome(old(self)@) {
                Some(start) => res == Ok::<WatchStart, BackendFailure>(start),
                None => res matches Err(BackendFailure::Unavailable(m)) && m@ == ALREADY_WATCHING@,
            },
    {
        let available = self.receiver_available;
        self.receiver_available = false;
        if !available {
            return Err(BackendFailure::Unavailable(String::from_str(ALREADY_WATCHING)));
        }
        if self.server_started {
            Ok(WatchStart::ServerRunning)
        } else {
            Ok(WatchStart::BindServer)
        }
    }

    /// Records that the listener was bound and is serving.
    pub fn server_bound(&mut self)
        ensures
            final(self)@ == after_bind(old(self)@),
            final(self)@.server_started,
            final(self)@.receiver_available == old(self)@.receiver_available,
    {
        self.server_started = true;
    }

    /// The health to report, given whether the event channel is still open.
    pub fn health(&self, channel_open: bool) -> (h: HealthState)
        ensures
            h == health_of(self@, channel_open),
            !self@.server_started ==> h == HealthState::Healthy,
            self@.server_started && channel_open ==> h == HealthState::Healthy,
            self@.server_started && !channel_open ==> h == HealthState::Unhealthy,
    {
        if !self.server_started || channel_open {
            HealthState::Healthy
        } else {
            HealthState::Unhealthy
        }
    }
}

/// Whether `args` (program name first) ask for the manifest: some argument
/// after the first is `--manifest` or `-m`.
pub open spec fn asks_for_manifest(args: Seq<Seq<char>>) -> bool {
    exists|i: int| 1 <= i < args.len() && (args[i] == MANIFEST_FLAG@ || args[i] == MANIFEST_FLAG_SHORT@)
}

/// The program name alone never asks for the manifest; appending `--manifest`
/// or `-m` after it does; appending anything else asks exactly when the
/// shorter command line did. The default kind is `webhook`.
pub proof fn manifest_flag_law(args: Seq<Seq<char>>, a: Seq<char>, x: Seq<char>)
    ensures
        !asks_for_manifest(seq![a]),
        !asks_for_manifest(Seq::<Seq<char>>::empty()),
        args.len() >= 1 ==> asks_for_manifest(args.push("--manifest"@)),
        args.len() >= 1 ==> asks_for_manifest(args.push("-m"@)),
        args.len() >= 1 && x != "--manifest"@ && x != "-m"@
            ==> asks_for_manifest(args.push(x)) == asks_for_manifest(args),
        KIND_DEFAULT@ == "webhook"@,
{
    let e = args.push(x);
    if args.len() >= 1 {
        let l = args.push("--manifest"@);
        assert(l[args.len() as int] == "--manifest"@);
        let m = args.push("-m"@);
        assert(m[args.len() as int] == "-m"@);
        if x != "--manifest"@ && x != "-m"@ {
            if asks_for_manifest(args) {
                let i = choose|i: int| 1 <= i < args.len() && (args[i] == MANIFEST_FLAG@ || args[i] == MANIFEST_FLAG_SHORT@);
                assert(e[i] == args[i]);
            }
            if asks_for_manifest(e) {
                let i = choose|i: int| 1 <= i < e.len() && (e[i] == MANIFEST_FLAG@ || e[i] == MANIFEST_FLAG_SHORT@);
                assert(i < args.len());
                assert(e[i] == args[i]);
            }
        }
    }
}

/// Whether the command line asks for the plugin manifest.
pub fn manifest_requested(args: &Vec<String>) -> (yes: bool)
    ensures
        yes == asks_for_manifest(args@.map_values(|a: String| a@)),
{
    let long = String::from_str(MANIFEST_FLAG);
    let short = String::from_str(MANIFEST_FLAG_SHORT);
    let ghost views = args@.map_values(|a: String| a@);
    let mut i: usize = 1;
    while i < args.len()
        invariant
            1 <= i <= args@.len() || args@.len() == 0,
            views == args@.map_values(|a: String| a@),
            long@ == MANIFEST_FLAG@,
            short@ == MANIFEST_FLAG_SHORT@,
            forall|j: int| 1 <= j < i && j < args@.len() ==> views[j] != MANIFEST_FLAG@ && views[j] != MANIFEST_FLAG_SHORT@,
        decreases args@.len() - i,
    {
        if args[i] == long || args[i] == short {
            assert(views[i as int] == args@[i as int]@);
            return true;
        }
        i = i + 1;
    }
    false
}

} // verus!
