//! Daemon lifecycle control: coordinated shutdown and self-restart.
//!
//! IPC, the HTTP API, and the restart tool all request transitions through one
//! [`LifecycleHandle`]. Requests are armed with a grace delay so in-flight HTTP
//! responses and tool results can flush before teardown begins.
use vstd::prelude::*;
use crate::paths;
use crate::text;

verus! {

broadcast use vstd::seq::group_seq_axioms;

/// Seconds between a lifecycle request and the shutdown signal firing, giving
/// in-flight HTTP responses and tool results time to flush.
pub const SHUTDOWN_GRACE_SECS: u64 = 2;

/// What the daemon should do once the main loop observes a non-`Running` state.
#[derive(Debug, Clone, Copy, PartialEq, Eq, Structural)]
pub enum LifecycleState {
    Running,
    /// Tear down and exit the process.
    Exit,
    /// Tear down and re-exec the same binary in place.
    Restart,
}

impl Default for LifecycleState {
    fn default() -> (state: Self)
        ensures
            state == LifecycleState::Running,
    {
        LifecycleState::Running
    }
}

/// What was requested.
#[derive(Debug, Clone, Copy, PartialEq, Eq, Structural)]
pub enum Intent {
    Nothing,
    Restart,
    Exit,
}

/// A request to a handle.
pub enum Request {
    Restart,
    Shutdown,
}

/// What is intended after a request: a shutdown always wins, and a restart is
/// claimed only where nothing was intended.
pub open spec fn intent_with(before: Intent, request: Request) -> Intent {
    match request {
        Request::Shutdown => Intent::Exit,
        Request::Restart => if before == Intent::Nothing {
            Intent::Restart
        } else {
            before
        },
    }
}

/// Requests daemon shutdown or restart.
#[derive(Debug)]
pub struct LifecycleHandle {
    pub intent: Intent,
    /// Whether the delayed sender is yet to be started.
    pub unarmed: bool,
}

impl LifecycleHandle {
    /// A handle without a request.
    pub fn new() -> (handle: Self)
        ensures
            handle.intent == Intent::Nothing,
            !handle.unarmed,
    {
        LifecycleHandle { intent: Intent::Nothing, unarmed: false }
    }

    /// Requests a restart. Returns `false` when a restart is already pending
    /// or a shutdown has been requested (shutdown always wins over restart).
    pub fn request_restart(&mut self) -> (claimed: bool)
        ensures
            claimed == (old(self).intent == Intent::Nothing),
            final(self).intent == intent_with(old(self).intent, Request::Restart),
            final(self).unarmed == (claimed || old(self).unarmed),
    {
        if self.intent != Intent::Nothing {
            return false;
        }
        self.intent = Intent::Restart;
        self.unarmed = true;
        true
    }

    /// Requests a shutdown. Upgrades a pending restart to a plain exit, without
    /// a second delay. Returns `false` when a shutdown is already pending.
    pub fn request_shutdown(&mut self) -> (claimed: bool)
        ensures
            claimed == (old(self).intent != Intent::Exit),
            final(self).intent == intent_with(old(self).intent, Request::Shutdown),
            final(self).unarmed == (old(self).intent == Intent::Nothing || old(self).unarmed),
    {
        let before = self.intent;
        self.intent = Intent::Exit;
        match before {
            Intent::Exit => false,
            Intent::Nothing => {
                self.unarmed = true;
                true
            },
            Intent::Restart => true,
        }
    }

    /// Whether the delayed sender is to be started now. Says so once for a
    /// request.
    pub fn arm(&mut self) -> (start: bool)
        ensures
            start == old(self).unarmed,
            !final(self).unarmed,
            final(self).intent == old(self).intent,
    {
        let start = self.unarmed;
        self.unarmed = false;
        start
    }

    /// The state that the delayed sender emits. It is read at fire time so a
    /// shutdown arriving during the grace window supersedes a restart.
    pub open spec fn emits(intent: Intent) -> Option<LifecycleState> {
        match intent {
            Intent::Exit => Some(LifecycleState::Exit),
            Intent::Restart => Some(LifecycleState::Restart),
            Intent::Nothing => None,
        }
    }

    /// The state that the delayed sender emits when the grace delay is over.
    pub fn fire(&self) -> (state: Option<LifecycleState>)
        ensures
            state == LifecycleHandle::emits(self.intent),
    {
        match self.intent {
            Intent::Exit => Some(LifecycleState::Exit),
            Intent::Restart => Some(LifecycleState::Restart),
            Intent::Nothing => None,
        }
    }
}

/// Everything needed to re-exec the daemon in place after teardown.
///
/// Captured at process start so a restart re-runs the daemon exactly as it was
/// launched.
#[derive(Debug)]
pub struct RestartSpec {
    pub exe: String,
    pub args: Vec<String>,
}

/// The arguments that a daemon is started with again.
pub open spec fn restart_args(config_path: Option<Seq<char>>, debug: bool, foreground: bool) -> Seq<Seq<char>> {
    (match config_path {
        Some(path) => seq!["--config"@, path],
        None => Seq::empty(),
    }) + (if debug {
        seq!["--debug"@]
    } else {
        Seq::empty()
    }) + seq!["start"@] + (if foreground {
        seq!["--foreground"@]
    } else {
        Seq::empty()
    })
}

impl RestartSpec {
    /// Captures how the daemon was launched: the path of the executable and of
    /// the config file, which is absolute where it could be resolved.
    pub fn capture(exe: String, config_path: &Option<String>, debug: bool, foreground: bool) -> (spec_: Self)
        ensures
            spec_.exe == exe,
            text::texts(spec_.args@) == restart_args(text::opt_text(*config_path), debug, foreground),
    {
        RestartSpec { exe, args: RestartSpec::build_args(config_path, debug, foreground) }
    }

    /// The arguments that the daemon is started with again.
    fn build_args(config_path: &Option<String>, debug: bool, foreground: bool) -> (args: Vec<String>)
        ensures
            text::texts(args@) == restart_args(text::opt_text(*config_path), debug, foreground),
    {
        broadcast use text::texts_push;

        let mut args: Vec<String> = Vec::new();
        assert(text::texts(args@) =~= Seq::<Seq<char>>::empty());
        if let Some(path) = config_path {
            args.push("--config".to_owned());
            args.push(path.clone());
        }
        if debug {
            args.push("--debug".to_owned());
        }
        args.push("start".to_owned());
        if foreground {
            args.push("--foreground".to_owned());
        }
        assert(text::texts(args@) =~= restart_args(text::opt_text(*config_path), debug, foreground));
        args
    }
}

/// Restart context persisted across the re-exec so the daemon can announce
/// itself back in the channel that asked for the reboot.
#[derive(Debug)]
pub struct PendingRestart {
    pub agent_id: String,
    pub conversation_id: String,
    /// Messaging adapter name for the comeback note; `None` means restart
    /// silently (no channel context, e.g. API- or worker-triggered).
    pub adapter: Option<String>,
    pub target: Option<String>,
    pub reason: String,
    pub requested_at: i64,
    pub source: String,
}

/// What became of the marker at boot.
#[derive(Debug)]
pub enum MarkerOutcome {
    /// There is no marker.
    Absent,
    /// The marker is to be removed, and the restart announced.
    Announce(PendingRestart),
    /// The marker is to be removed; it cannot be read.
    Discard,
}

impl PendingRestart {
    /// Where the marker lies.
    pub fn path(instance_dir: &str) -> (path: String)
        ensures
            path@ == paths::joined(instance_dir@, "pending_restart.json"@),
    {
        paths::join(instance_dir, "pending_restart.json")
    }

    /// Where the marker is written before it is moved into place, so a crash
    /// mid-write can never leave a truncated marker for the next boot.
    pub fn temporary_path(instance_dir: &str) -> (path: String)
        ensures
            path@ == paths::joined(instance_dir@, "pending_restart.json.tmp"@),
    {
        paths::join(instance_dir, "pending_restart.json.tmp")
    }

    /// Decides what becomes of the marker, from whether it is there and what it
    /// parses to. It is removed even when it fails to parse so a bad marker
    /// can't replay on every boot.
    pub fn take(present: bool, parsed: Option<PendingRestart>) -> (outcome: MarkerOutcome)
        ensures
            outcome == (if !present {
                MarkerOutcome::Absent
            } else {
                match parsed {
                    Some(pending) => MarkerOutcome::Announce(pending),
                    None => MarkerOutcome::Discard,
                }
            }),
    {
        if !present {
            return MarkerOutcome::Absent;
        }
        match parsed {
            Some(pending) => MarkerOutcome::Announce(pending),
            None => MarkerOutcome::Discard,
        }
    }
}

// ---------------------------------------------------------------------------
// Laws
// ---------------------------------------------------------------------------

/// The intent after some requests, from none.
pub open spec fn intent_after(requests: Seq<Request>) -> Intent
    decreases requests.len(),
{
    if requests.len() == 0 {
        Intent::Nothing
    } else {
        intent_with(intent_after(requests.drop_last()), requests.last())
    }
}

/// Once a shutdown was requested the daemon exits, whatever else is requested
/// before or after.
pub proof fn law_shutdown_always_wins(requests: Seq<Request>, k: int)
    requires
        0 <= k < requests.len(),
        requests[k] is Shutdown,
    ensures
        LifecycleHandle::emits(intent_after(requests)) == Some(LifecycleState::Exit),
    decreases requests.len(),
{
    if k < requests.len() - 1 {
        law_shutdown_always_wins(requests.drop_last(), k);
    }
}

/// Where only restarts were requested, the daemon restarts.
pub proof fn law_restarts_alone_restart(requests: Seq<Request>)
    requires
        requests.len() > 0,
        forall|k: int| 0 <= k < requests.len() ==> requests[k] is Restart,
    ensures
        LifecycleHandle::emits(intent_after(requests)) == Some(LifecycleState::Restart),
    decreases requests.len(),
{
    if requests.len() > 1 {
        law_restarts_alone_restart(requests.drop_last());
    } else {
        assert(intent_after(requests.drop_last()) == Intent::Nothing);
    }
}

/// An intent only ever grows: a request to shut down is final, a restart stands
/// until one, and nothing is done unasked.
pub proof fn law_an_intent_only_grows(before: Intent, request: Request)
    ensures
        intent_with(before, Request::Shutdown) == Intent::Exit,
        before == Intent::Exit ==> intent_with(before, request) == Intent::Exit,
        before != Intent::Exit ==> intent_with(before, Request::Restart) == Intent::Restart,
        intent_with(before, request) != Intent::Nothing,
        LifecycleHandle::emits(Intent::Nothing) is None,
        LifecycleHandle::emits(Intent::Exit) == Some(LifecycleState::Exit),
        LifecycleHandle::emits(Intent::Restart) == Some(LifecycleState::Restart),
{
}

/// A restart starts again with the configuration and the flags that it ran
/// with, each given exactly when it was.
pub proof fn law_a_restart_keeps_its_flags(config_path: Option<Seq<char>>, debug: bool, foreground: bool)
    ensures
        ({
            let args = restart_args(config_path, debug, foreground);
            let flags = (if config_path is Some {
                2int
            } else {
                0
            }) + (if debug {
                1int
            } else {
                0
            });
            &&& args.len() == flags + 1 + (if foreground {
                1int
            } else {
                0
            })
            &&& args[flags] == "start"@
            &&& config_path is Some ==> args[0] == "--config"@ && args[1] == config_path->0
            &&& debug ==> args[flags - 1] == "--debug"@
            &&& foreground ==> args.last() == "--foreground"@
        }),
{
}

} // verus!
