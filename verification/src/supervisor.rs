//! The process supervisor's marker-matching state machine.
//!
//! A supervised run consumes the node's standard output one line at a time,
//! in arrival order. Each line is matched against the active mode's marker
//! set, which decides forced termination (stop-on-sync, consensus failure)
//! and the one-shot ready callback. The machine here is pure: it maps a
//! configuration, the current state and a line to a directive; the caller
//! owns the real process, performs the kill or runs the callback, and feeds
//! the outcome back.

use vstd::prelude::*;

use crate::error::LifecycleError;
use crate::text::{
    consensus_failure_marker, consensus_failure_marker_bytes, contains_bytes, contains_seq,
    ready_marker, ready_marker_bytes,
};

verus! {

/// The run modes a node process can be supervised under.
#[derive(Clone, Copy, Debug, PartialEq, Eq, Structural)]
pub enum RunMode {
    /// Plain start, syncing against the live network.
    Sync,
    /// In-place testnet rehearsal against a local copy of chain state.
    InPlaceTestnet,
    /// Isolated standalone node with peer isolation flags.
    Standalone,
}

/// The static marker table of one supervised run.
#[derive(Clone, Copy, Debug, PartialEq, Eq, Structural)]
pub struct SupervisorConfig {
    /// Which mode the node was started in.
    pub mode: RunMode,
    /// In sync mode: terminate the process on the first ready marker.
    pub stop_on_sync: bool,
    /// An operator-supplied ready callback was configured.
    pub has_on_ready: bool,
    /// In in-place-testnet mode: an upgrade handler was configured, so the
    /// ready callback is deferred to the post-handoff run.
    pub upgrade_handler_set: bool,
}

/// How a supervised run came to a stop.
#[derive(Clone, Copy, Debug, PartialEq, Eq, Structural)]
pub enum StopKind {
    /// The output stream ended and the process exited by itself.
    Normal,
    /// A stop marker matched and the process was forcibly terminated.
    Killed,
}

/// What the caller must do after handing one line to the machine.
#[derive(Clone, Copy, Debug, PartialEq, Eq, Structural)]
pub struct LineDirective {
    /// Run the operator's ready callback, synchronously, before reading on.
    pub run_callback: bool,
    /// Forcibly terminate the process and wait for it to exit.
    pub kill: bool,
}

/// The marker whose appearance forcibly terminates the run, if any.
pub open spec fn spec_stop_marker(c: SupervisorConfig) -> Option<Seq<u8>> {
    match c.mode {
        RunMode::Sync => if c.stop_on_sync {
            Some(ready_marker())
        } else {
            None
        },
        RunMode::InPlaceTestnet => Some(consensus_failure_marker()),
        RunMode::Standalone => None,
    }
}

/// The ready callback fires in this run. In in-place-testnet mode with an
/// upgrade handler it is deferred to the post-handoff run and does not fire
/// here.
pub open spec fn spec_callback_active(c: SupervisorConfig) -> bool {
    c.has_on_ready && match c.mode {
        RunMode::Sync => true,
        RunMode::InPlaceTestnet => !c.upgrade_handler_set,
        RunMode::Standalone => true,
    }
}

/// `line` matches the active stop marker of `c`.
pub open spec fn line_triggers_stop(c: SupervisorConfig, line: Seq<u8>) -> bool {
    match spec_stop_marker(c) {
        Some(m) => contains_seq(line, m),
        None => false,
    }
}

/// One supervised run's live state.
pub struct Supervisor {
    /// The marker table, fixed for the whole run.
    pub config: SupervisorConfig,
    /// The seen-flag guarding the one-shot ready callback.
    pub on_ready_executed: bool,
    /// `None` while the process is running; the stop kind once it stopped.
    pub stopped: Option<StopKind>,
}

/// What [`Supervisor::step_line`] does to the state and hands back, as one
/// mathematical function: the directive for this line, and the successor
/// state.
pub open spec fn spec_step(s: Supervisor, line: Seq<u8>) -> (Supervisor, LineDirective) {
    let run_callback = spec_callback_active(s.config) && !s.on_ready_executed && contains_seq(
        line,
        ready_marker(),
    );
    let kill = line_triggers_stop(s.config, line);
    (
        Supervisor {
            config: s.config,
            on_ready_executed: s.on_ready_executed || run_callback,
            stopped: if kill {
                Some(StopKind::Killed)
            } else {
                s.stopped
            },
        },
        LineDirective { run_callback, kill },
    )
}

impl Supervisor {
    /// The process is still running.
    pub open spec fn running(self) -> bool {
        self.stopped is None
    }

    /// A freshly spawned run: callback not yet fired, process running.
    pub fn new(config: SupervisorConfig) -> (s: Supervisor)
        ensures
            s.config == config,
            !s.on_ready_executed,
            s.running(),
    {
        Supervisor { config, on_ready_executed: false, stopped: None }
    }

    /// Exact bytes of the active stop marker, if the mode has one.
    fn stop_marker_bytes(&self) -> (r: Option<&'static [u8]>)
        ensures
            match r {
                Some(b) => spec_stop_marker(self.config) == Some(b@),
                None => spec_stop_marker(self.config) is None,
            },
    {
        match self.config.mode {
            RunMode::Sync => if self.config.stop_on_sync {
                Some(ready_marker_bytes())
            } else {
                None
            },
            RunMode::InPlaceTestnet => Some(consensus_failure_marker_bytes()),
            RunMode::Standalone => None,
        }
    }

    /// Consumes one line of node output and says what to do about it, as
    /// [`spec_step`] prescribes: the callback directive comes on the first
    /// ready-marker match while the callback is active, the kill directive
    /// whenever the stop marker matches.
    pub fn step_line(&mut self, line: &[u8]) -> (d: LineDirective)
        requires
            old(self).running(),
        ensures
            (*final(self), d) == spec_step(*old(self), line@),
            d.run_callback == (spec_callback_active(old(self).config) && !old(
                self,
            ).on_ready_executed && contains_seq(line@, ready_marker())),
            d.kill == line_triggers_stop(old(self).config, line@),
            final(self).config == old(self).config,
            final(self).on_ready_executed == (old(self).on_ready_executed || d.run_callback),
            final(self).stopped == (if d.kill {
                Some(StopKind::Killed)
            } else {
                None::<StopKind>
            }),
    {
        let active = self.config.has_on_ready && match self.config.mode {
            RunMode::Sync => true,
            RunMode::InPlaceTestnet => !self.config.upgrade_handler_set,
            RunMode::Standalone => true,
        };
        let run_callback = active && !self.on_ready_executed && contains_bytes(
            line,
            ready_marker_bytes(),
        );
        if run_callback {
            self.on_ready_executed = true;
        }
        let kill = match self.stop_marker_bytes() {
            Some(m) => contains_bytes(line, m),
            None => false,
        };
        if kill {
            self.stopped = Some(StopKind::Killed);
        }
        LineDirective { run_callback, kill }
    }

    /// The output stream ended without a forced termination: the run stops
    /// normally.
    pub fn note_stream_end(&mut self)
        requires
            old(self).running(),
        ensures
            final(self).config == old(self).config,
            final(self).on_ready_executed == old(self).on_ready_executed,
            final(self).stopped == Some(StopKind::Normal),
    {
        self.stopped = Some(StopKind::Normal);
    }
}

/// Maps the exit status of the one-shot ready callback to the run's fate: a
/// non-zero exit is fatal to the whole operation.
pub fn callback_outcome(success: bool) -> (r: Result<(), LifecycleError>)
    ensures
        r == if success {
            Ok::<(), LifecycleError>(())
        } else {
            Err(LifecycleError::Callback)
        },
{
    if success {
        Ok(())
    } else {
        Err(LifecycleError::Callback)
    }
}

/// The views of a list of owned lines.
pub open spec fn line_views(lines: Seq<Vec<u8>>) -> Seq<Seq<u8>> {
    lines.map_values(|l: Vec<u8>| l@)
}

/// Index of the first line of `lines` that contains `m`, if any.
pub open spec fn first_marker_index(lines: Seq<Seq<u8>>, m: Seq<u8>) -> Option<int>
    decreases lines.len(),
{
    if lines.len() == 0 {
        None
    } else if contains_seq(lines[0], m) {
        Some(0)
    } else {
        match first_marker_index(lines.drop_first(), m) {
            Some(i) => Some(i + 1),
            None => None,
        }
    }
}

/// [`first_marker_index`] returns exactly the index of the first matching
/// line: a match there, none before it, and `None` only when no line
/// matches.
pub proof fn lemma_first_marker_index(lines: Seq<Seq<u8>>, m: Seq<u8>)
    ensures
        match first_marker_index(lines, m) {
            Some(i) => 0 <= i < lines.len() && contains_seq(lines[i], m) && (forall|j: int|
                0 <= j < i ==> !contains_seq(lines[j], m)),
            None => forall|j: int| 0 <= j < lines.len() ==> !contains_seq(lines[j], m),
        },
    decreases lines.len(),
{
    if lines.len() > 0 && !contains_seq(lines[0], m) {
        lemma_first_marker_index(lines.drop_first(), m);
        match first_marker_index(lines.drop_first(), m) {
            Some(i) => {
                assert(lines[i + 1] == lines.drop_first()[i]);
                assert forall|j: int| 0 <= j < i + 1 implies !contains_seq(lines[j], m) by {
                    if j > 0 {
                        assert(lines[j] == lines.drop_first()[j - 1]);
                    }
                }
            },
            None => {
                assert forall|j: int| 0 <= j < lines.len() implies !contains_seq(lines[j], m) by {
                    if j > 0 {
                        assert(lines[j] == lines.drop_first()[j - 1]);
                    }
                }
            },
        }
    }
}

/// Index of the line on which the run is forcibly terminated, if any.
pub open spec fn spec_stop_index(c: SupervisorConfig, lines: Seq<Seq<u8>>) -> Option<int> {
    match spec_stop_marker(c) {
        Some(m) => first_marker_index(lines, m),
        None => None,
    }
}

/// Index of the line on which the ready callback fires, if it fires: the
/// first ready-marker match, provided the callback is active and the run was
/// not terminated on an earlier line.
pub open spec fn spec_callback_index(c: SupervisorConfig, lines: Seq<Seq<u8>>) -> Option<int> {
    if !spec_callback_active(c) {
        None
    } else {
        match first_marker_index(lines, ready_marker()) {
            Some(r) => match spec_stop_index(c, lines) {
                Some(k) => if r <= k {
                    Some(r)
                } else {
                    None
                },
                None => Some(r),
            },
            None => None,
        }
    }
}

/// How one whole supervised run went.
#[derive(Clone, Copy, Debug, PartialEq, Eq)]
pub struct RunOutcome {
    /// Line index on which the process was forcibly terminated, if it was.
    pub killed_at: Option<usize>,
    /// Line index on which the ready callback fired, if it fired.
    pub callback_at: Option<usize>,
    /// How the run stopped.
    pub stop: StopKind,
}

/// The fate of a whole supervised run over the line sequence `lines`, with
/// `callback_ok` standing for the exit status the ready callback would
/// report: a failing callback aborts the run with a callback error; else the
/// run is killed at the first stop-marker match and stops normally when the
/// stream ends.
pub open spec fn spec_run(c: SupervisorConfig, lines: Seq<Seq<u8>>, callback_ok: bool) -> Result<
    RunOutcome,
    LifecycleError,
> {
    let ki = spec_stop_index(c, lines);
    let ci = spec_callback_index(c, lines);
    if ci is Some && !callback_ok {
        Err(LifecycleError::Callback)
    } else {
        Ok(
            RunOutcome {
                killed_at: match ki {
                    Some(i) => Some(i as usize),
                    None => None,
                },
                callback_at: match ci {
                    Some(i) => Some(i as usize),
                    None => None,
                },
                stop: if ki is Some {
                    StopKind::Killed
                } else {
                    StopKind::Normal
                },
            },
        )
    }
}

/// Drives one supervised run over a complete line sequence. `callback_ok`
/// stands in for the exit status of the operator's ready callback; the
/// returned outcome is exactly what [`spec_run`] prescribes.
pub fn run_lines(config: SupervisorConfig, lines: &Vec<Vec<u8>>, callback_ok: bool) -> (r: Result<
    RunOutcome,
    LifecycleError,
>)
    ensures
        r == spec_run(config, line_views(lines@), callback_ok),
{
    let ghost ls = line_views(lines@);
    let n = lines.len();
    let mut sup = Supervisor::new(config);
    let mut callback_at: Option<usize> = None;
    let mut i: usize = 0;
    while i < n
        invariant
            n == lines@.len(),
            ls == line_views(lines@),
            ls.len() == n,
            0 <= i <= n,
            sup.config == config,
            sup.running(),
            sup.on_ready_executed == (callback_at is Some),
            forall|j: int| 0 <= j < i ==> !line_triggers_stop(config, ls[j]),
            match callback_at {
                Some(cb) => {
                    &&& spec_callback_active(config)
                    &&& callback_ok
                    &&& cb < i
                    &&& contains_seq(ls[cb as int], ready_marker())
                    &&& forall|j: int| 0 <= j < cb ==> !contains_seq(ls[j], ready_marker())
                },
                None => spec_callback_active(config) ==> forall|j: int|
                    0 <= j < i ==> !contains_seq(ls[j], ready_marker()),
            },
        decreases n - i,
    {
        let d = sup.step_line(lines[i].as_slice());
        assert(ls[i as int] == lines@[i as int]@);
        if d.run_callback {
            callback_at = Some(i);
            if !callback_ok {
                proof {
                    lemma_first_marker_index(ls, ready_marker());
                    match spec_stop_marker(config) {
                        Some(m) => lemma_first_marker_index(ls, m),
                        None => {},
                    }
                }
                return Err(LifecycleError::Callback);
            }
        }
        if d.kill {
            proof {
                lemma_first_marker_index(ls, ready_marker());
                match spec_stop_marker(config) {
                    Some(m) => lemma_first_marker_index(ls, m),
                    None => {},
                }
            }
            return Ok(
                RunOutcome { killed_at: Some(i), callback_at, stop: StopKind::Killed },
            );
        }
        i += 1;
    }
    sup.note_stream_end();
    proof {
        lemma_first_marker_index(ls, ready_marker());
        match spec_stop_marker(config) {
            Some(m) => lemma_first_marker_index(ls, m),
            None => {},
        }
    }
    Ok(RunOutcome { killed_at: None, callback_at, stop: StopKind::Normal })
}

/// The sync-to-tip configuration: plain start, no callback, termination on
/// the first ready marker when `stop_on_sync` is set.
pub open spec fn spec_sync_config(stop_on_sync: bool) -> SupervisorConfig {
    SupervisorConfig { mode: RunMode::Sync, stop_on_sync, has_on_ready: false, upgrade_handler_set: false }
}

/// Executable twin of [`spec_sync_config`].
pub fn sync_config(stop_on_sync: bool) -> (c: SupervisorConfig)
    ensures
        c == spec_sync_config(stop_on_sync),
{
    SupervisorConfig { mode: RunMode::Sync, stop_on_sync, has_on_ready: false, upgrade_handler_set: false }
}

/// The in-place-testnet configuration: termination on the consensus-failure
/// marker; the ready callback is deferred when an upgrade handler is set.
pub open spec fn spec_testnet_config(upgrade_handler_set: bool, has_on_ready: bool) -> SupervisorConfig {
    SupervisorConfig { mode: RunMode::InPlaceTestnet, stop_on_sync: false, has_on_ready, upgrade_handler_set }
}

/// Executable twin of [`spec_testnet_config`].
pub fn testnet_config(upgrade_handler_set: bool, has_on_ready: bool) -> (c: SupervisorConfig)
    ensures
        c == spec_testnet_config(upgrade_handler_set, has_on_ready),
{
    SupervisorConfig { mode: RunMode::InPlaceTestnet, stop_on_sync: false, has_on_ready, upgrade_handler_set }
}

/// The standalone configuration: peer-isolated run, no stop marker, ready
/// callback active when one was supplied.
pub open spec fn spec_standalone_config(has_on_ready: bool) -> SupervisorConfig {
    SupervisorConfig { mode: RunMode::Standalone, stop_on_sync: false, has_on_ready, upgrade_handler_set: false }
}

/// Executable twin of [`spec_standalone_config`].
pub fn standalone_config(has_on_ready: bool) -> (c: SupervisorConfig)
    ensures
        c == spec_standalone_config(has_on_ready),
{
    SupervisorConfig { mode: RunMode::Standalone, stop_on_sync: false, has_on_ready, upgrade_handler_set: false }
}

/// Law: in sync mode with the stop flag set and no callback, a run never
/// aborts, it is forcibly terminated exactly on the first line containing
/// the ready marker — never on an earlier line — and it stops normally when
/// no line contains the marker.
pub proof fn lemma_sync_kills_iff_marker(lines: Seq<Seq<u8>>, callback_ok: bool)
    requires
        lines.len() <= usize::MAX,
    ensures
        ({
            let r = spec_run(spec_sync_config(true), lines, callback_ok);
            &&& r is Ok
            &&& match r.unwrap().killed_at {
                Some(i) => {
                    &&& i < lines.len()
                    &&& contains_seq(lines[i as int], ready_marker())
                    &&& forall|j: int| 0 <= j < i ==> !contains_seq(lines[j], ready_marker())
                    &&& r.unwrap().stop == StopKind::Killed
                },
                None => {
                    &&& forall|j: int| 0 <= j < lines.len() ==> !contains_seq(
                        lines[j],
                        ready_marker(),
                    )
                    &&& r.unwrap().stop == StopKind::Normal
                },
            }
        }),
{
    lemma_first_marker_index(lines, ready_marker());
}

/// Number of callback directives the machine issues when fed `lines` one at
/// a time from state `s`.
pub open spec fn spec_callback_count(s: Supervisor, lines: Seq<Seq<u8>>) -> nat
    decreases lines.len(),
{
    if lines.len() == 0 {
        0
    } else {
        let sd = spec_step(s, lines[0]);
        (if sd.1.run_callback {
            1nat
        } else {
            0nat
        }) + spec_callback_count(sd.0, lines.drop_first())
    }
}

/// Law: the ready callback fires at most once per supervised run, however
/// many further lines also match the ready marker — and never again once the
/// seen-flag is set.
pub proof fn lemma_callback_at_most_once(s: Supervisor, lines: Seq<Seq<u8>>)
    ensures
        spec_callback_count(s, lines) <= if s.on_ready_executed {
            0nat
        } else {
            1nat
        },
    decreases lines.len(),
{
    if lines.len() > 0 {
        let sd = spec_step(s, lines[0]);
        lemma_callback_at_most_once(sd.0, lines.drop_first());
    }
}

/// How an in-place-testnet run with optional binary handoff went.
#[derive(Clone, Copy, Debug, PartialEq, Eq)]
pub struct HandoffOutcome {
    /// The pre-upgrade in-place-testnet run.
    pub first: RunOutcome,
    /// The post-handoff run from the replacement binary, when one was
    /// supplied.
    pub second: Option<RunOutcome>,
}

/// The fate of an in-place-testnet invocation: the testnet run first; then,
/// when a replacement binary was supplied and the first run did not abort, a
/// standalone run of that binary with the same callback.
pub open spec fn spec_handoff(
    upgrade_handler_set: bool,
    has_on_ready: bool,
    has_replacement: bool,
    callback_ok: bool,
    before: Seq<Seq<u8>>,
    after: Seq<Seq<u8>>,
) -> Result<HandoffOutcome, LifecycleError> {
    match spec_run(spec_testnet_config(upgrade_handler_set, has_on_ready), before, callback_ok) {
        Err(e) => Err(e),
        Ok(o1) => if has_replacement {
            match spec_run(spec_standalone_config(has_on_ready), after, callback_ok) {
                Err(e) => Err(e),
                Ok(o2) => Ok(HandoffOutcome { first: o1, second: Some(o2) }),
            }
        } else {
            Ok(HandoffOutcome { first: o1, second: None })
        },
    }
}

/// Drives the in-place-testnet recipe with optional binary handoff over the
/// two runs' line sequences: `before` is the output of the original binary,
/// `after` the output of the replacement binary once the first process has
/// stopped.
pub fn run_testnet_with_handoff(
    upgrade_handler_set: bool,
    has_on_ready: bool,
    has_replacement: bool,
    callback_ok: bool,
    before: &Vec<Vec<u8>>,
    after: &Vec<Vec<u8>>,
) -> (r: Result<HandoffOutcome, LifecycleError>)
    ensures
        r == spec_handoff(
            upgrade_handler_set,
            has_on_ready,
            has_replacement,
            callback_ok,
            line_views(before@),
            line_views(after@),
        ),
{
    let first = match run_lines(testnet_config(upgrade_handler_set, has_on_ready), before, callback_ok) {
        Ok(o) => o,
        Err(e) => {
            return Err(e);
        },
    };
    if has_replacement {
        match run_lines(standalone_config(has_on_ready), after, callback_ok) {
            Ok(o2) => Ok(HandoffOutcome { first, second: Some(o2) }),
            Err(e) => Err(e),
        }
    } else {
        Ok(HandoffOutcome { first, second: None })
    }
}

/// Law: with an upgrade handler configured and a replacement binary
/// supplied, the ready callback never fires in the pre-upgrade run; that run
/// is forcibly terminated exactly on its first consensus-failure line; and
/// the callback fires in the post-handoff run on its first ready-marker
/// line, when one was supplied.
pub proof fn lemma_handoff_defers_callback(
    has_on_ready: bool,
    callback_ok: bool,
    before: Seq<Seq<u8>>,
    after: Seq<Seq<u8>>,
)
    requires
        before.len() <= usize::MAX,
        after.len() <= usize::MAX,
    ensures
        spec_callback_index(spec_testnet_config(true, has_on_ready), before) is None,
        ({
            let r = spec_handoff(true, has_on_ready, true, callback_ok, before, after);
            r is Ok ==> {
                let o = r.unwrap();
                &&& o.first.callback_at is None
                &&& match o.first.killed_at {
                    Some(i) => {
                        &&& i < before.len()
                        &&& contains_seq(before[i as int], consensus_failure_marker())
                        &&& forall|j: int|
                            0 <= j < i ==> !contains_seq(before[j], consensus_failure_marker())
                    },
                    None => forall|j: int|
                        0 <= j < before.len() ==> !contains_seq(
                            before[j],
                            consensus_failure_marker(),
                        ),
                }
                &&& o.second is Some
                &&& match o.second.unwrap().callback_at {
                    Some(i) => {
                        &&& has_on_ready
                        &&& i < after.len()
                        &&& contains_seq(after[i as int], ready_marker())
                        &&& forall|j: int| 0 <= j < i ==> !contains_seq(after[j], ready_marker())
                    },
                    None => !has_on_ready || forall|j: int|
                        0 <= j < after.len() ==> !contains_seq(after[j], ready_marker()),
                }
            }
        }),
{
    lemma_first_marker_index(before, consensus_failure_marker());
    lemma_first_marker_index(after, ready_marker());
}

} // verus!
