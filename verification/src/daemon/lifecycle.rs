//! The daemon's own life: booting, one pass of the loop, waking up, reloading
//! and stopping.

use crate::daemon::schedule::{
    DailySummaryConfig, DayStart, instant_ok, maybe_instant_ok, retention_due,
    should_run_daily_summary, should_run_retention, summary_due,
};
use crate::daemon::screen::TelegramIngressConfig;
use crate::text::{
    chars_of, dec, digit, has_prefix, has_suffix, in_base, is_space, lemma_ends, trim, trimmed,
    trimmed_end, trimmed_start,
};
use vstd::prelude::*;

verus! {

broadcast use vstd::string::group_string_axioms;

// ---------------------------------------------------------------------
// Booting
// ---------------------------------------------------------------------

/// What the daemon does at boot.
#[derive(Debug, Clone, Copy, PartialEq, Eq, Structural)]
pub enum BootStep {
    ClaimPidfile,
    ReapOrphans,
    StartReaper,
    StartSnapshotWriter,
    RecordStart,
    VerifyAuditChain,
    RegisterSignals,
    LoadConfig,
    LoadSecrets,
    PrepareMemory,
    StartGateway,
    StartLocalApi,
    StartTelegram,
}

/// The order of a boot.
pub open spec fn boot_order() -> Seq<BootStep> {
    seq![
        BootStep::ClaimPidfile,
        BootStep::ReapOrphans,
        BootStep::StartReaper,
        BootStep::StartSnapshotWriter,
        BootStep::RecordStart,
        BootStep::VerifyAuditChain,
        BootStep::RegisterSignals,
        BootStep::LoadConfig,
        BootStep::LoadSecrets,
        BootStep::PrepareMemory,
        BootStep::StartGateway,
        BootStep::StartLocalApi,
        BootStep::StartTelegram,
    ]
}

/// The order of a boot.
///
/// The pidfile comes first: the orphan reaper asks whether another daemon is
/// alive, and the answer is read from it. The reaper comes before the snapshot
/// writer, whose first tick would overwrite the only record of what was left
/// behind. Secrets come after the config, which can move them.
pub fn boot_steps() -> (r: Vec<BootStep>)
    ensures
        r@ == boot_order(),
{
    let r = vec![
        BootStep::ClaimPidfile,
        BootStep::ReapOrphans,
        BootStep::StartReaper,
        BootStep::StartSnapshotWriter,
        BootStep::RecordStart,
        BootStep::VerifyAuditChain,
        BootStep::RegisterSignals,
        BootStep::LoadConfig,
        BootStep::LoadSecrets,
        BootStep::PrepareMemory,
        BootStep::StartGateway,
        BootStep::StartLocalApi,
        BootStep::StartTelegram,
    ];
    proof {
        assert(r@ =~= boot_order());
    }
    r
}

/// The digits of `s` as a number, read left to right after `acc`: `None` when
/// something is no digit or the number does not stay within `max`.
pub open spec fn number_of(s: Seq<char>, at: int, acc: nat, max: nat) -> Option<nat>
    decreases s.len() - at,
{
    if at < 0 || at >= s.len() {
        Some(acc)
    } else if '0' <= s[at] <= '9' {
        let next = acc * 10 + (s[at] as u32 - 48) as nat;
        if next > max {
            None
        } else {
            number_of(s, at + 1, next, max)
        }
    } else {
        None
    }
}

/// A number as std's `u32::from_str` reads it: an optional `+`, then at least
/// one digit, nothing else, and no more than 32 bits hold.
pub open spec fn parsed_u32(s: Seq<char>) -> Option<nat> {
    let start: int = if s.len() > 0 && s[0] == '+' {
        1
    } else {
        0
    };
    if start >= s.len() {
        None
    } else {
        number_of(s, start, 0, u32::MAX as nat)
    }
}

/// Read a number of 32 bits.
pub fn parse_u32(text: &str) -> (r: Option<u32>)
    ensures
        match parsed_u32(text@) {
            Some(n) => r matches Some(v) && v == n,
            None => r is None,
        },
{
    let v = chars_of(text);
    let start: usize = if v.len() > 0 && v[0] == '+' {
        1
    } else {
        0
    };
    if start >= v.len() {
        return None;
    }
    let mut at: usize = start;
    let mut acc: u64 = 0;
    while at < v.len()
        invariant
            v@ == text@,
            start <= at <= v@.len(),
            start < v@.len(),
            start == if v@.len() > 0 && v@[0] == '+' {
                1int
            } else {
                0int
            },
            acc <= u32::MAX,
            number_of(v@, at as int, acc as nat, u32::MAX as nat) == number_of(
                v@,
                start as int,
                0,
                u32::MAX as nat,
            ),
        decreases v@.len() - at,
    {
        let c = v[at];
        if !('0' <= c && c <= '9') {
            return None;
        }
        let next: u64 = acc * 10 + (c as u32 - 48) as u64;
        if next > u32::MAX as u64 {
            return None;
        }
        acc = next;
        at = at + 1;
    }
    Some(acc as u32)
}

/// The other daemon a pidfile names: `None` for an unreadable pid and for our
/// own.
pub open spec fn named_peer(raw: Seq<char>, own: u32) -> Option<nat> {
    match parsed_u32(trimmed(raw)) {
        Some(n) => if n == own {
            None
        } else {
            Some(n)
        },
        None => None,
    }
}

/// The other daemon the pidfile names, if it names one. Whether it is alive is
/// for the caller to ask: only a live, different daemon is reason to keep our
/// hands off shared state.
pub fn live_peer_daemon(raw: &str, own: u32) -> (r: Option<u32>)
    ensures
        match named_peer(raw@, own) {
            Some(n) => r matches Some(v) && v == n,
            None => r is None,
        },
{
    match parse_u32(trim(raw).as_str()) {
        Some(pid) => if pid == own {
            None
        } else {
            Some(pid)
        },
        None => None,
    }
}

/// What to do about the children a previous daemon may have left.
#[derive(Debug, Clone, Copy, PartialEq, Eq, Structural)]
pub enum OrphanPlan {
    /// The previous exit was clean.
    Nothing,
    /// Another daemon is alive: its children are not ours to kill.
    SkipForPeer(u32),
    /// Reap what the snapshot records.
    Reap,
}

/// What is done about the children a previous daemon may have left.
pub open spec fn orphans_of(snapshot_exists: bool, live_peer: Option<u32>) -> OrphanPlan {
    if !snapshot_exists {
        OrphanPlan::Nothing
    } else {
        match live_peer {
            Some(pid) => OrphanPlan::SkipForPeer(pid),
            None => OrphanPlan::Reap,
        }
    }
}

/// Decide about the children a previous daemon may have left. A snapshot at
/// boot is the sign that the previous exit was not clean. `live_peer` is
/// another daemon that is alive.
pub fn orphan_plan(snapshot_exists: bool, live_peer: Option<u32>) -> (r: OrphanPlan)
    ensures
        r == orphans_of(snapshot_exists, live_peer),
{
    if !snapshot_exists {
        return OrphanPlan::Nothing;
    }
    match live_peer {
        Some(pid) => OrphanPlan::SkipForPeer(pid),
        None => OrphanPlan::Reap,
    }
}

/// What becomes of the snapshot after the reap.
#[derive(Debug, PartialEq, Eq)]
pub enum SnapshotFate {
    /// It could not be read: move it aside, to this path, before the snapshot
    /// writer overwrites the only evidence of what was running.
    MoveAside(String),
    /// It was acted on: remove it.
    Remove,
}

/// Whether `r` is what becomes of a snapshot.
pub open spec fn snapshot_settled(path: Seq<char>, unreadable: bool, r: SnapshotFate) -> bool {
    match r {
        SnapshotFate::MoveAside(p) => unreadable && p@ == path + ".corrupt"@,
        SnapshotFate::Remove => !unreadable,
    }
}

/// What becomes of the snapshot after the reap.
pub fn snapshot_fate(path: &str, unreadable: bool) -> (r: SnapshotFate)
    ensures
        snapshot_settled(path@, unreadable, r),
{
    if unreadable {
        let mut kept = path.to_owned();
        kept.append(".corrupt");
        SnapshotFate::MoveAside(kept)
    } else {
        SnapshotFate::Remove
    }
}

// ---------------------------------------------------------------------
// Secrets
// ---------------------------------------------------------------------

/// Whether a path is absolute.
pub open spec fn is_absolute(path: Seq<char>) -> bool {
    path.len() > 0 && path[0] == '/'
}

/// Whether a path is absolute.
pub fn path_is_absolute(path: &str) -> (r: bool)
    ensures
        r == is_absolute(path@),
{
    let v = chars_of(path);
    v.len() > 0 && v[0] == '/'
}

/// Where secrets are read from.
pub open spec fn secrets_path(configured: Seq<char>, default_path: Seq<char>) -> Seq<char> {
    if is_absolute(configured) {
        configured
    } else {
        default_path
    }
}

/// Where secrets are read from: `configured`, when it is absolute, otherwise
/// the default. Under a service manager the working directory is not
/// predictable, so a relative path would resolve to surprising places.
pub fn resolve_secrets_path(configured: &str, default_path: &str) -> (r: String)
    ensures
        r@ == secrets_path(configured@, default_path@),
{
    if path_is_absolute(configured) {
        configured.to_owned()
    } else {
        default_path.to_owned()
    }
}

/// What loading the secrets file came to.
#[derive(Debug, PartialEq, Eq)]
pub enum SecretsLoad {
    Loaded { key_count: usize, unresolved_references: usize },
    Missing,
    Refused { error: String },
}

/// What is audited about the secrets file. Never a value.
#[derive(Debug, PartialEq, Eq)]
pub enum SecretsEntry {
    Loaded { path: String, key_count: usize, unresolved_references: usize },
    Refused { path: String, reason: String },
}

/// Whether `r` is what is audited of loading the secrets.
pub open spec fn secrets_audited(
    path: Seq<char>,
    load: SecretsLoad,
    dropped: bool,
    r: Option<SecretsEntry>,
) -> bool {
    match load {
        SecretsLoad::Loaded { key_count, unresolved_references } => r matches Some(
            SecretsEntry::Loaded { path: p, key_count: k, unresolved_references: u },
        ) && p@ == path && k == key_count && u == unresolved_references,
        SecretsLoad::Missing => if dropped {
            r matches Some(SecretsEntry::Refused { path: p, reason }) && p@ == path && reason@
                == "file no longer exists; previous store dropped"@
        } else {
            r is None
        },
        SecretsLoad::Refused { error } => r matches Some(
            SecretsEntry::Refused { path: p, reason },
        ) && p@ == path && reason@ == if dropped {
            error@ + "; previous store dropped"@
        } else {
            error@
        },
    }
}

/// What is audited after the secrets were loaded, or were not. `dropped` says
/// that a store loaded before was dropped: a file that is gone or refused
/// never keeps serving a token the operator thought they had rotated.
pub fn secrets_entry(path: &str, load: SecretsLoad, dropped: bool) -> (r: Option<SecretsEntry>)
    ensures
        secrets_audited(path@, load, dropped, r),
{
    match load {
        SecretsLoad::Loaded { key_count, unresolved_references } => Some(
            SecretsEntry::Loaded { path: path.to_owned(), key_count, unresolved_references },
        ),
        SecretsLoad::Missing => if dropped {
            Some(
                SecretsEntry::Refused {
                    path: path.to_owned(),
                    reason: "file no longer exists; previous store dropped".to_owned(),
                },
            )
        } else {
            None
        },
        SecretsLoad::Refused { error } => {
            let mut reason = error;
            if dropped {
                reason.append("; previous store dropped");
            }
            Some(SecretsEntry::Refused { path: path.to_owned(), reason })
        },
    }
}

/// Whether the previous store is dropped: whenever a load does not replace it.
pub fn drops_previous_store(load: &SecretsLoad) -> (r: bool)
    ensures
        r == !(load is Loaded),
{
    match load {
        SecretsLoad::Loaded { .. } => false,
        _ => true,
    }
}

// ---------------------------------------------------------------------
// One pass
// ---------------------------------------------------------------------

/// What the loop remembers between passes.
#[derive(Debug, Clone, Copy, PartialEq, Eq, Structural)]
pub struct LoopState {
    pub last_summary: Option<i32>,
    pub last_retention: Option<i32>,
}

/// The clock of one pass.
#[derive(Debug, Clone, Copy, PartialEq, Eq, Structural)]
pub struct PassClock {
    pub now: i128,
    pub hour: u32,
    pub minute: u32,
    /// Today, and when the summary is delivered today.
    pub today: DayStart,
    /// Yesterday, and when the summary was delivered.
    pub yesterday: Option<DayStart>,
}

/// What a pass does besides dispatching.
#[derive(Debug, Clone, Copy, PartialEq, Eq, Structural)]
pub struct PassPlan {
    pub deliver_summary: bool,
    pub sweep_retention: bool,
}

/// Whether a clock is one.
pub open spec fn clock_ok(c: PassClock) -> bool {
    &&& instant_ok(c.now)
    &&& maybe_instant_ok(c.today.start)
    &&& c.yesterday matches Some(y) ==> maybe_instant_ok(y.start)
}

/// What a pass does besides dispatching.
pub open spec fn pass_plan(s: LoopState, c: PassClock, cfg: DailySummaryConfig) -> PassPlan {
    PassPlan {
        deliver_summary: summary_due(cfg, c.now, s.last_summary, c.today, c.yesterday) is Some,
        sweep_retention: retention_due(c.hour, c.minute, c.today.date, s.last_retention),
    }
}

/// What the loop remembers after a pass. A delivery counts even when it
/// failed: a broken notifier would otherwise fire on every pass of the window.
pub open spec fn state_after(s: LoopState, c: PassClock, cfg: DailySummaryConfig) -> LoopState {
    LoopState {
        last_summary: match summary_due(cfg, c.now, s.last_summary, c.today, c.yesterday) {
            Some(date) => Some(date),
            None => s.last_summary,
        },
        last_retention: if retention_due(c.hour, c.minute, c.today.date, s.last_retention) {
            Some(c.today.date)
        } else {
            s.last_retention
        },
    }
}

/// Decide what a pass does, and remember it.
pub fn plan_pass(state: &mut LoopState, clock: &PassClock, cfg: &DailySummaryConfig) -> (r: PassPlan)
    requires
        clock_ok(*clock),
    ensures
        r == pass_plan(*old(state), *clock, *cfg),
        *final(state) == state_after(*old(state), *clock, *cfg),
{
    let due = should_run_daily_summary(
        cfg,
        clock.now,
        state.last_summary,
        &clock.today,
        &clock.yesterday,
    );
    let deliver = due.is_some();
    if let Some(date) = due {
        state.last_summary = Some(date);
    }
    let sweep = should_run_retention(
        clock.hour,
        clock.minute,
        clock.today.date,
        state.last_retention,
    );
    if sweep {
        state.last_retention = Some(clock.today.date);
    }
    PassPlan { deliver_summary: deliver, sweep_retention: sweep }
}

/// A pass does nothing twice: at the same moment, a second pass neither
/// delivers nor sweeps, however soon the daemon is woken again.
pub proof fn nothing_is_done_twice(s: LoopState, c: PassClock, cfg: DailySummaryConfig)
    ensures
        pass_plan(state_after(s, c, cfg), c, cfg) == (PassPlan {
            deliver_summary: false,
            sweep_retention: false,
        }),
{
}

/// How long to sleep, in nanoseconds.
pub open spec fn pause_of(target: i128, now: i128) -> int {
    if target >= now {
        target - now
    } else {
        60_000_000_000int
    }
}

/// How long to sleep, in nanoseconds: until the target, or a minute when it
/// has passed already.
pub fn sleep_for(target: i128, now: i128) -> (r: i128)
    requires
        instant_ok(now),
        instant_ok(target),
    ensures
        r == pause_of(target, now),
        0 <= r,
{
    if target >= now {
        target - now
    } else {
        60_000_000_000
    }
}

// ---------------------------------------------------------------------
// Waking up
// ---------------------------------------------------------------------

/// What ended a sleep.
#[derive(Debug, PartialEq, Eq)]
pub enum WakeEvent {
    Elapsed,
    Hangup,
    Terminate,
    Interrupt,
    /// The gateway supervisor returned or panicked.
    GatewayEnded,
    /// The local API task returned without an error.
    LocalApiStopped,
    /// The local API task returned an error.
    LocalApiFailed { error: String },
    /// The local API task died.
    LocalApiDied { error: String },
}

/// What the loop does next.
#[derive(Debug, PartialEq, Eq)]
pub enum Wake {
    /// Run the next pass.
    Tick,
    /// Read the config again and restart what it configures.
    Reload,
    /// Stop, with the reason the audit log records.
    Stop { reason: &'static str },
    /// A required ingress failed: stop, and return this error.
    Fatal { error: String },
}

/// Whether `r` is what an event makes the loop do.
pub open spec fn woken(event: WakeEvent, r: Wake) -> bool {
    match event {
        WakeEvent::Elapsed => r == Wake::Tick,
        WakeEvent::Hangup => r == Wake::Reload,
        WakeEvent::Terminate => r matches Wake::Stop { reason } && reason@ == "SIGTERM"@,
        WakeEvent::Interrupt => r matches Wake::Stop { reason } && reason@ == "SIGINT"@,
        WakeEvent::GatewayEnded => r matches Wake::Stop { reason } && reason@
            == "gateway supervisor died"@,
        WakeEvent::LocalApiStopped => r matches Wake::Fatal { error } && error@
            == "local API task stopped unexpectedly"@,
        WakeEvent::LocalApiFailed { error: e } => r matches Wake::Fatal { error } && error@ == e@,
        WakeEvent::LocalApiDied { error: e } => r matches Wake::Fatal { error } && error@
            == "local API task failed: "@ + e@,
    }
}

/// What an event makes the loop do. A gateway that ended must stop the daemon:
/// one that still ticks but can no longer answer is worse than one that is
/// gone.
pub fn wake_for(event: WakeEvent) -> (r: Wake)
    ensures
        woken(event, r),
{
    match event {
        WakeEvent::Elapsed => Wake::Tick,
        WakeEvent::Hangup => Wake::Reload,
        WakeEvent::Terminate => Wake::Stop { reason: "SIGTERM" },
        WakeEvent::Interrupt => Wake::Stop { reason: "SIGINT" },
        WakeEvent::GatewayEnded => Wake::Stop { reason: "gateway supervisor died" },
        WakeEvent::LocalApiStopped => Wake::Fatal {
            error: "local API task stopped unexpectedly".to_owned(),
        },
        WakeEvent::LocalApiFailed { error } => Wake::Fatal { error },
        WakeEvent::LocalApiDied { error: e } => {
            let mut error = "local API task failed: ".to_owned();
            error.append(e.as_str());
            Wake::Fatal { error }
        },
    }
}

/// Whether `r` is how the loop ends.
pub open spec fn ended(wake: Wake, r: Option<(&'static str, Option<String>)>) -> bool {
    match wake {
        Wake::Tick => r is None,
        Wake::Reload => r is None,
        Wake::Stop { reason } => r matches Some(x) && x.0@ == reason@ && x.1 is None,
        Wake::Fatal { error } => r matches Some(x) && x.0@ == "local API failed"@ && x.1 == Some(
            error,
        ),
    }
}

/// How the loop ends, when it does: the reason that is audited, and the error
/// that is returned.
pub fn exit_for(wake: Wake) -> (r: Option<(&'static str, Option<String>)>)
    ensures
        ended(wake, r),
{
    match wake {
        Wake::Tick => None,
        Wake::Reload => None,
        Wake::Stop { reason } => Some((reason, None)),
        Wake::Fatal { error } => Some(("local API failed", Some(error))),
    }
}

// ---------------------------------------------------------------------
// Inbound chat
// ---------------------------------------------------------------------

/// Whether inbound chat is started.
#[derive(Debug, Clone, Copy, PartialEq, Eq, Structural)]
pub enum IngressPlan {
    Start,
    /// A token with nobody allowed: worth a warning, and off.
    OffWithoutUsers,
    Off,
}

/// Whether inbound chat is started.
pub open spec fn ingress_of(cfg: TelegramIngressConfig) -> IngressPlan {
    if cfg.bot_token@.len() > 0 && cfg.allowed_user_ids@.len() > 0 {
        IngressPlan::Start
    } else if cfg.bot_token@.len() > 0 {
        IngressPlan::OffWithoutUsers
    } else {
        IngressPlan::Off
    }
}

/// Whether inbound chat is started: an empty allowlist is misconfiguration,
/// not permission to run anything for anyone.
pub fn ingress_plan(cfg: &TelegramIngressConfig) -> (r: IngressPlan)
    ensures
        r == ingress_of(*cfg),
{
    if cfg.is_enabled() {
        return IngressPlan::Start;
    }
    if !cfg.bot_token.as_str().is_empty() {
        return IngressPlan::OffWithoutUsers;
    }
    IngressPlan::Off
}

/// The longest wait between two polls that failed.
pub const MAX_BACKOFF_SECONDS: u64 = 60;

/// The wait after the first poll that failed.
pub const FIRST_BACKOFF_SECONDS: u64 = 1;

/// The next wait: double, up to the longest.
pub open spec fn doubled(backoff: nat) -> nat {
    if backoff * 2 > MAX_BACKOFF_SECONDS {
        MAX_BACKOFF_SECONDS as nat
    } else {
        backoff * 2
    }
}

/// The wait after `n` failures in a row.
pub open spec fn backoff_after(n: nat) -> nat
    decreases n,
{
    if n == 0 {
        FIRST_BACKOFF_SECONDS as nat
    } else {
        doubled(backoff_after((n - 1) as nat))
    }
}

/// The wait before the next poll, after one that failed.
pub fn next_backoff(backoff: u64) -> (r: u64)
    requires
        backoff <= MAX_BACKOFF_SECONDS,
    ensures
        r == doubled(backoff as nat),
        r <= MAX_BACKOFF_SECONDS,
{
    if backoff * 2 > MAX_BACKOFF_SECONDS {
        MAX_BACKOFF_SECONDS
    } else {
        backoff * 2
    }
}

/// What follows a poll.
#[derive(Debug, Clone, Copy, PartialEq, Eq, Structural)]
pub enum PollStep {
    /// Handle what came, then poll again.
    Handle,
    /// Wait this many seconds, then poll again.
    Wait(u64),
}

/// Whether `r` is what follows a poll, and the wait that a failure of the next
/// one costs.
pub open spec fn polled(failed: bool, backoff: u64, r: (PollStep, u64)) -> bool {
    if failed {
        r.0 == PollStep::Wait(backoff) && r.1 == doubled(backoff as nat)
    } else {
        r.0 == PollStep::Handle && r.1 == FIRST_BACKOFF_SECONDS
    }
}

/// What follows a poll, and the wait that a failure of the next one costs. A
/// poll that worked forgets the failures before it.
pub fn poll_step(failed: bool, backoff: u64) -> (r: (PollStep, u64))
    requires
        backoff <= MAX_BACKOFF_SECONDS,
    ensures
        polled(failed, backoff, r),
        r.1 <= MAX_BACKOFF_SECONDS,
{
    if failed {
        (PollStep::Wait(backoff), next_backoff(backoff))
    } else {
        (PollStep::Handle, FIRST_BACKOFF_SECONDS)
    }
}

/// A dropped network never turns into a tight loop, nor into silence: every
/// wait is between one second and a minute, and no wait is shorter than the
/// one before.
pub proof fn waits_grow_up_to_a_minute(n: nat)
    ensures
        1 <= backoff_after(n) <= MAX_BACKOFF_SECONDS,
        backoff_after(n) <= backoff_after(n + 1),
    decreases n,
{
    if n > 0 {
        waits_grow_up_to_a_minute((n - 1) as nat);
    }
    assert(backoff_after(n + 1) == doubled(backoff_after(n)));
}

/// How stopping an ingress task ended.
#[derive(Debug, Clone, Copy, PartialEq, Eq, Structural)]
pub enum StopOutcome {
    Finished,
    Cancelled,
    Failed,
    TimedOut,
}

/// Whether an ingress that was told to stop is gone, so that a replacement may
/// start. One that did not stop in time is kept: a second poller would share
/// the offset file with it.
pub fn ingress_is_gone(outcome: StopOutcome) -> (r: bool)
    ensures
        r == (outcome != StopOutcome::TimedOut),
{
    outcome != StopOutcome::TimedOut
}

/// What a restart does once the old ingress was told to stop.
#[derive(Debug, Clone, Copy, PartialEq, Eq, Structural)]
pub enum RestartStep {
    /// Keep the old one, and start nothing.
    KeepOld,
    /// Start the replacement, if the config asks for one.
    StartNew,
}

/// What a restart does. `stopped` is how stopping the old ingress ended, where
/// there was one.
pub open spec fn restart_of(stopped: Option<StopOutcome>) -> RestartStep {
    if stopped == Some(StopOutcome::TimedOut) {
        RestartStep::KeepOld
    } else {
        RestartStep::StartNew
    }
}

/// What a restart does. An operator who revokes access expects it to be revoked
/// now, so the old ingress is stopped before the new config takes its place.
pub fn restart_step(stopped: Option<StopOutcome>) -> (r: RestartStep)
    ensures
        r == restart_of(stopped),
{
    match stopped {
        Some(outcome) => if ingress_is_gone(outcome) {
            RestartStep::StartNew
        } else {
            RestartStep::KeepOld
        },
        None => RestartStep::StartNew,
    }
}

/// How many of the old ingress still run after it was told to stop.
pub open spec fn old_running(stopped: Option<StopOutcome>) -> nat {
    match stopped {
        Some(outcome) => if outcome == StopOutcome::TimedOut {
            1
        } else {
            0
        },
        None => 0,
    }
}

/// How many replacements run after a restart. `wanted` says that the config
/// asks for an ingress.
pub open spec fn new_running(stopped: Option<StopOutcome>, wanted: bool) -> nat {
    if restart_of(stopped) == RestartStep::StartNew && wanted {
        1
    } else {
        0
    }
}

/// Two pollers never share the offset file: whatever became of the old ingress,
/// at most one runs after a restart.
pub proof fn never_two_ingresses(stopped: Option<StopOutcome>, wanted: bool)
    ensures
        old_running(stopped) + new_running(stopped, wanted) <= 1,
{
}

// ---------------------------------------------------------------------
// Reloading
// ---------------------------------------------------------------------

/// What the daemon does to reload.
#[derive(Debug, Clone, Copy, PartialEq, Eq, Structural)]
pub enum ReloadStep {
    RecordReload,
    LoadConfig,
    LoadSecrets,
    PrepareMemory,
    RestartTelegram,
    /// The loop reads the new config from here on.
    AdoptConfig,
    /// Retire persistent instances, off the loop's clock.
    RetirePersistent,
}

/// The order of a reload.
pub open spec fn reload_order() -> Seq<ReloadStep> {
    seq![
        ReloadStep::RecordReload,
        ReloadStep::LoadConfig,
        ReloadStep::LoadSecrets,
        ReloadStep::PrepareMemory,
        ReloadStep::RestartTelegram,
        ReloadStep::AdoptConfig,
        ReloadStep::RetirePersistent,
    ]
}

/// The order of a reload: everything the config configures is read or started
/// again, so that nothing keeps running on what an earlier config said. The
/// local API is left alone: one owner of its socket is safer than replacing it
/// while clients are connected.
pub fn reload_steps() -> (r: Vec<ReloadStep>)
    ensures
        r@ == reload_order(),
{
    let r = vec![
        ReloadStep::RecordReload,
        ReloadStep::LoadConfig,
        ReloadStep::LoadSecrets,
        ReloadStep::PrepareMemory,
        ReloadStep::RestartTelegram,
        ReloadStep::AdoptConfig,
        ReloadStep::RetirePersistent,
    ];
    proof {
        assert(r@ =~= reload_order());
    }
    r
}

/// Whether the memory workspace is scaffolded: only the default one. A
/// configured path came from a human, and a typo must not scaffold an empty
/// workspace somewhere nobody will look.
pub fn prepares_memory(enabled: bool, configured: Option<&str>) -> (r: bool)
    ensures
        r == (enabled && configured is None),
{
    enabled && configured.is_none()
}

// ---------------------------------------------------------------------
// Stopping
// ---------------------------------------------------------------------

/// What the daemon does to stop.
#[derive(Debug, Clone, Copy, PartialEq, Eq, Structural)]
pub enum StopStep {
    StopTelegram,
    SignalLocalApi,
    JoinLocalApi,
    StopGateway,
    RetirePersistent,
    ReapChildren,
    StopSnapshotWriter,
    RemoveSnapshot,
    RecordStop,
}

/// The order of a stop.
pub open spec fn stop_order(telegram: bool, signal_local_api: bool, join_local_api: bool) -> Seq<
    StopStep,
> {
    let a = if telegram {
        seq![StopStep::StopTelegram]
    } else {
        Seq::empty()
    };
    let b = if signal_local_api {
        a.push(StopStep::SignalLocalApi)
    } else {
        a
    };
    let c = if join_local_api {
        b.push(StopStep::JoinLocalApi)
    } else {
        b
    };
    c.push(StopStep::StopGateway).push(StopStep::RetirePersistent).push(
        StopStep::ReapChildren,
    ).push(StopStep::StopSnapshotWriter).push(StopStep::RemoveSnapshot).push(StopStep::RecordStop)
}

/// The order of a stop: first what accepts new work, then the gateway, then
/// persistent instances by name, then every child, and the snapshot only once
/// its writer is gone.
pub fn stop_steps(telegram: bool, signal_local_api: bool, join_local_api: bool) -> (r: Vec<StopStep>)
    ensures
        r@ == stop_order(telegram, signal_local_api, join_local_api),
{
    let mut r: Vec<StopStep> = Vec::new();
    if telegram {
        r.push(StopStep::StopTelegram);
        proof {
            assert(r@ =~= seq![StopStep::StopTelegram]);
        }
    }
    if signal_local_api {
        r.push(StopStep::SignalLocalApi);
    }
    if join_local_api {
        r.push(StopStep::JoinLocalApi);
    }
    r.push(StopStep::StopGateway);
    r.push(StopStep::RetirePersistent);
    r.push(StopStep::ReapChildren);
    r.push(StopStep::StopSnapshotWriter);
    r.push(StopStep::RemoveSnapshot);
    r.push(StopStep::RecordStop);
    r
}

/// Whether a step stops new work from coming in.
pub open spec fn stops_intake(step: StopStep) -> bool {
    step == StopStep::StopTelegram || step == StopStep::SignalLocalApi || step
        == StopStep::JoinLocalApi
}

/// A stop closes every way in before it takes anything down, removes the
/// snapshot only once nothing can write it again, and is recorded last.
pub proof fn a_stop_closes_the_doors_first(
    telegram: bool,
    signal_local_api: bool,
    join_local_api: bool,
    i: int,
    k: int,
)
    requires
        0 <= i < stop_order(telegram, signal_local_api, join_local_api).len(),
        0 <= k < stop_order(telegram, signal_local_api, join_local_api).len(),
    ensures
        ({
            let order = stop_order(telegram, signal_local_api, join_local_api);
            &&& stops_intake(order[i]) && !stops_intake(order[k]) ==> i < k
            &&& order[i] == StopStep::StopSnapshotWriter && order[k] == StopStep::RemoveSnapshot
                ==> i < k
            &&& order.last() == StopStep::RecordStop
        }),
{
}

// ---------------------------------------------------------------------
// Laws of a life
// ---------------------------------------------------------------------

proof fn lemma_number_push(s: Seq<char>, c: char, at: int, acc: nat, max: nat)
    requires
        0 <= at <= s.len(),
        '0' <= c <= '9',
    ensures
        number_of(s.push(c), at, acc, max) == match number_of(s, at, acc, max) {
            Some(v) => if v * 10 + (c as u32 - 48) > max {
                None
            } else {
                Some((v * 10 + (c as u32 - 48)) as nat)
            },
            None => None,
        },
    decreases s.len() - at,
{
    let t = s.push(c);
    if at < s.len() {
        assert(t[at] == s[at]);
        if '0' <= s[at] <= '9' {
            let next = acc * 10 + (s[at] as u32 - 48) as nat;
            if next <= max {
                lemma_number_push(s, c, at + 1, next, max);
            }
        }
    } else {
        assert(t[at] == c);
        reveal_with_fuel(number_of, 2);
    }
}

/// The decimals of a number stand for that number, and are digits.
pub proof fn lemma_number_of_digits(n: nat, max: nat)
    requires
        n <= max,
    ensures
        number_of(in_base(n, 10), 0, 0, max) == Some(n),
        in_base(n, 10).len() > 0,
        forall|i: int|
            0 <= i < in_base(n, 10).len() ==> '0' <= #[trigger] in_base(n, 10)[i] <= '9',
    decreases n,
{
    if n < 10 {
        let s = in_base(n, 10);
        assert(s =~= seq![digit(n as int)]);
        assert(s[0] == digit(n as int));
        reveal_with_fuel(number_of, 2);
        assert(digit(n as int) as u32 == 48 + n);
    } else {
        let head = in_base(n / 10, 10);
        let c = digit((n % 10) as int);
        lemma_number_of_digits(n / 10, max);
        assert(c as u32 == 48 + n % 10);
        lemma_number_push(head, c, 0, 0, max);
        assert(in_base(n, 10) == head.push(c));
        assert(n == (n / 10) * 10 + n % 10);
    }
}

/// A text without white space at its ends is not trimmed.
pub proof fn lemma_nothing_to_trim(s: Seq<char>)
    requires
        s.len() > 0,
        !is_space(s[0]),
        !is_space(s.last()),
    ensures
        trimmed(s) == s,
{
}

/// A pid that is written in decimals, with or without a newline behind it, is
/// read back as it is: the daemon that wrote it is a peer of every other daemon,
/// and of itself it is none.
pub proof fn a_written_pid_is_read_back(pid: u32, own: u32)
    ensures
        parsed_u32(dec(pid as int)) == Some(pid as nat),
        named_peer(dec(pid as int), own) == if pid == own {
            None::<nat>
        } else {
            Some(pid as nat)
        },
        named_peer(dec(pid as int).push('\n'), own) == named_peer(dec(pid as int), own),
{
    let s = dec(pid as int);
    lemma_number_of_digits(pid as nat, u32::MAX as nat);
    assert('0' <= s[0] <= '9');
    assert('0' <= s[s.len() - 1] <= '9');
    lemma_nothing_to_trim(s);
    let t = s.push('\n');
    assert(!is_space(t[0]));
    assert(trimmed_start(t) == t);
    assert(t.drop_last() =~= s);
    assert(is_space(t.last()));
    assert(trimmed_end(t) == trimmed_end(s));
}

/// Only a snapshot that nobody alive owns is acted on. One that cannot be read
/// is never removed: it is kept beside its place.
pub proof fn a_live_daemons_children_are_left_alone(
    snapshot_exists: bool,
    live_peer: Option<u32>,
    path: Seq<char>,
    unreadable: bool,
    fate: SnapshotFate,
)
    requires
        snapshot_settled(path, unreadable, fate),
    ensures
        orphans_of(snapshot_exists, live_peer) == OrphanPlan::Reap <==> snapshot_exists
            && live_peer is None,
        snapshot_exists && live_peer is Some ==> orphans_of(snapshot_exists, live_peer)
            == OrphanPlan::SkipForPeer(live_peer->0),
        fate is Remove <==> !unreadable,
        fate matches SnapshotFate::MoveAside(p) ==> has_prefix(p@, path) && p@ != path,
{
    reveal_strlit(".corrupt");
    lemma_ends(path, ".corrupt"@);
    if path + ".corrupt"@ == path {
        assert((path + ".corrupt"@).len() == path.len() + 8);
    }
}

/// Secrets are only ever read from the root of the tree downwards: from the
/// configured path where it says so, and otherwise from the default.
pub proof fn a_relative_path_is_never_read(configured: Seq<char>, default_path: Seq<char>)
    ensures
        configured.len() > 0 && configured[0] == '/' ==> secrets_path(configured, default_path)
            == configured,
        configured.len() == 0 || configured[0] != '/' ==> secrets_path(configured, default_path)
            == default_path,
{
}

/// What is audited of the secrets: how many keys there are and how many stay
/// unresolved, or why they were refused. A store that was dropped is never
/// passed over in silence.
pub proof fn a_dropped_store_is_never_silent(
    path: Seq<char>,
    load: SecretsLoad,
    dropped: bool,
    r: Option<SecretsEntry>,
)
    requires
        secrets_audited(path, load, dropped, r),
    ensures
        r is None <==> load is Missing && !dropped,
        load matches SecretsLoad::Loaded { key_count, unresolved_references } ==> (r matches Some(
            SecretsEntry::Loaded { path: p, key_count: k, unresolved_references: u },
        ) && p@ == path && k == key_count && u == unresolved_references),
        load matches SecretsLoad::Refused { error } ==> (r matches Some(
            SecretsEntry::Refused { path: p, reason },
        ) && p@ == path && has_prefix(reason@, error@)),
        dropped && !(load is Loaded) ==> (r matches Some(SecretsEntry::Refused { reason, .. })
            && has_suffix(reason@, "previous store dropped"@)),
{
    reveal_strlit("file no longer exists; previous store dropped");
    reveal_strlit("; previous store dropped");
    reveal_strlit("previous store dropped");
    let gone = "file no longer exists; previous store dropped"@;
    let end = "previous store dropped"@;
    let also = "; previous store dropped"@;
    assert(gone.subrange(gone.len() - end.len(), gone.len() as int) =~= end);
    assert(also =~= also.take(2) + end);
    if let SecretsLoad::Refused { error } = load {
        lemma_ends(error@, also);
        let none = Seq::<char>::empty();
        assert(error@ + none =~= error@);
        lemma_ends(error@, none);
        assert(error@ + also =~= (error@ + also.take(2)) + end);
        lemma_ends(error@ + also.take(2), end);
    }
}

/// The loop sleeps until its target, and a minute where that has passed: never a
/// negative time.
pub proof fn a_pause_ends_at_its_target(target: i128, now: i128)
    ensures
        target >= now ==> now + pause_of(target, now) == target,
        target < now ==> pause_of(target, now) == 60_000_000_000int,
        pause_of(target, now) >= 0,
{
}

/// Only the two stop signals, a gateway that ended and a local API that ended
/// stop the daemon, and each is recorded as what it was: a signal and the gateway
/// without an error, the local API with the error it gave.
pub proof fn the_loop_ends_for_a_reason(
    event: WakeEvent,
    wake: Wake,
    r: Option<(&'static str, Option<String>)>,
)
    requires
        woken(event, wake),
        ended(wake, r),
    ensures
        r is None <==> event is Elapsed || event is Hangup,
        event is Elapsed ==> wake == Wake::Tick,
        event is Hangup ==> wake == Wake::Reload,
        event is Terminate ==> (r->0).0@ == "SIGTERM"@ && (r->0).1 is None,
        event is Interrupt ==> (r->0).0@ == "SIGINT"@ && (r->0).1 is None,
        event is GatewayEnded ==> (r->0).0@ == "gateway supervisor died"@ && (r->0).1 is None,
        event is LocalApiStopped ==> (r->0).1 is Some,
        event matches WakeEvent::LocalApiFailed { error } ==> ((r->0).1 matches Some(e) && e@
            == error@),
        event matches WakeEvent::LocalApiDied { error } ==> ((r->0).1 matches Some(e) && has_suffix(
            e@,
            error@,
        )),
{
    if let WakeEvent::LocalApiDied { error } = event {
        lemma_ends("local API task failed: "@, error@);
    }
}

/// Chat is started exactly when there is a token and somebody who may use it; a
/// token without anybody is told apart from no token.
pub proof fn chat_needs_a_token_and_a_user(cfg: TelegramIngressConfig)
    ensures
        ingress_of(cfg) == IngressPlan::Start <==> cfg.bot_token@.len() > 0
            && cfg.allowed_user_ids@.len() > 0,
        ingress_of(cfg) == IngressPlan::Off <==> cfg.bot_token@.len() == 0,
{
}

/// A failed poll waits as long as the failures before it cost, and the next
/// failure costs twice that, up to a minute; a poll that worked waits for
/// nothing, and the next failure costs a second.
pub proof fn each_failure_waits_longer(backoff: u64, r: (PollStep, u64), ok: (PollStep, u64))
    requires
        backoff <= 60,
        polled(true, backoff, r),
        polled(false, backoff, ok),
    ensures
        r.0 == PollStep::Wait(backoff),
        backoff <= 30 ==> r.1 == backoff + backoff,
        backoff > 30 ==> r.1 == 60,
        ok.0 == PollStep::Handle && ok.1 == 1,
{
}

/// A pass does what is due and remembers that it did: the summary of the day it is
/// due for, and the sweep of the day it is.
pub proof fn a_pass_does_what_is_due(s: LoopState, c: PassClock, cfg: DailySummaryConfig)
    ensures
        pass_plan(s, c, cfg).deliver_summary <==> summary_due(
            cfg,
            c.now,
            s.last_summary,
            c.today,
            c.yesterday,
        ) is Some,
        pass_plan(s, c, cfg).deliver_summary ==> state_after(s, c, cfg).last_summary
            == summary_due(cfg, c.now, s.last_summary, c.today, c.yesterday),
        !pass_plan(s, c, cfg).deliver_summary ==> state_after(s, c, cfg).last_summary
            == s.last_summary,
        pass_plan(s, c, cfg).sweep_retention <==> c.hour == 3 && c.minute < 30 && s.last_retention
            != Some(c.today.date),
        pass_plan(s, c, cfg).sweep_retention ==> state_after(s, c, cfg).last_retention == Some(
            c.today.date,
        ),
        !pass_plan(s, c, cfg).sweep_retention ==> state_after(s, c, cfg).last_retention
            == s.last_retention,
{
}

/// Where a step stands among others.
pub open spec fn boots_before(a: BootStep, b: BootStep) -> bool {
    exists|i: int, j: int|
        0 <= i < j < boot_order().len() && #[trigger] boot_order()[i] == a && #[trigger]
        boot_order()[j] == b
}

/// A daemon claims its place before anything else, and has recorded its start,
/// checked the audit log and read its config and secrets before it takes any
/// request; the gateway stands before whatever hands requests to it. Nothing is
/// done twice.
pub proof fn a_daemon_is_ready_before_it_is_asked()
    ensures
        boot_order().no_duplicates(),
        boot_order()[0] == BootStep::ClaimPidfile,
        boots_before(BootStep::ReapOrphans, BootStep::StartSnapshotWriter),
        boots_before(BootStep::RecordStart, BootStep::StartGateway),
        boots_before(BootStep::VerifyAuditChain, BootStep::StartGateway),
        boots_before(BootStep::LoadConfig, BootStep::LoadSecrets),
        boots_before(BootStep::LoadSecrets, BootStep::StartGateway),
        boots_before(BootStep::PrepareMemory, BootStep::StartGateway),
        boots_before(BootStep::StartGateway, BootStep::StartLocalApi),
        boots_before(BootStep::StartGateway, BootStep::StartTelegram),
{
    let o = boot_order();
    assert(o[1] == BootStep::ReapOrphans && o[3] == BootStep::StartSnapshotWriter);
    assert(o[4] == BootStep::RecordStart && o[5] == BootStep::VerifyAuditChain);
    assert(o[7] == BootStep::LoadConfig && o[8] == BootStep::LoadSecrets);
    assert(o[9] == BootStep::PrepareMemory && o[10] == BootStep::StartGateway);
    assert(o[11] == BootStep::StartLocalApi && o[12] == BootStep::StartTelegram);
}

/// A reload is recorded first and reads the config before anything that depends on
/// it; the loop goes by the new config only after chat was restarted with it, and
/// the old processes are retired last. Nothing is done twice.
pub proof fn a_reload_reads_before_it_restarts(i: int, j: int)
    requires
        0 <= i < reload_order().len(),
        0 <= j < reload_order().len(),
    ensures
        reload_order().no_duplicates(),
        reload_order()[0] == ReloadStep::RecordReload,
        reload_order().last() == ReloadStep::RetirePersistent,
        reload_order()[i] == ReloadStep::LoadConfig && reload_order()[j] == ReloadStep::LoadSecrets
            ==> i < j,
        reload_order()[i] == ReloadStep::LoadSecrets && reload_order()[j]
            == ReloadStep::RestartTelegram ==> i < j,
        reload_order()[i] == ReloadStep::RestartTelegram && reload_order()[j]
            == ReloadStep::AdoptConfig ==> i < j,
        reload_order().len() == 7,
{
}

/// A stop takes every step that is needed and no other: what runs is stopped, what
/// is connected is signalled and joined, and everything else always happens.
pub proof fn a_stop_stops_what_runs(telegram: bool, signal_local_api: bool, join_local_api: bool)
    ensures
        ({
            let order = stop_order(telegram, signal_local_api, join_local_api);
            &&& order.contains(StopStep::StopTelegram) <==> telegram
            &&& order.contains(StopStep::SignalLocalApi) <==> signal_local_api
            &&& order.contains(StopStep::JoinLocalApi) <==> join_local_api
            &&& order.contains(StopStep::StopGateway) && order.contains(StopStep::RetirePersistent)
                && order.contains(StopStep::ReapChildren) && order.contains(
                StopStep::StopSnapshotWriter,
            ) && order.contains(StopStep::RemoveSnapshot)
            &&& order.last() == StopStep::RecordStop
        }),
{
    let order = stop_order(telegram, signal_local_api, join_local_api);
    let n = order.len() as int;
    assert(order[n - 6] == StopStep::StopGateway && order[n - 5] == StopStep::RetirePersistent);
    assert(order[n - 4] == StopStep::ReapChildren && order[n - 3] == StopStep::StopSnapshotWriter);
    assert(order[n - 2] == StopStep::RemoveSnapshot);
    if telegram {
        assert(order[0] == StopStep::StopTelegram);
    }
    let k: int = if telegram {
        1
    } else {
        0
    };
    if signal_local_api {
        assert(order[k] == StopStep::SignalLocalApi);
    }
    if join_local_api {
        assert(order[n - 7] == StopStep::JoinLocalApi);
    }
}

} // verus!
