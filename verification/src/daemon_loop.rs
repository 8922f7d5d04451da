//! The decisions of the daemon loop, as steps of a state machine. Each step
//! takes the loop state and what the daemon observed (the active route, the
//! time of a monotonic clock in milliseconds, a probe's answer) and returns
//! what to do; the daemon performs it and feeds the next step.
use vstd::prelude::*;

use crate::adaptive::PathState;
use crate::control::{ControlError, ControlState, RuntimeAction, RuntimeMode};
use crate::daemon::{
    qdisc_check_interval, should_apply_wifi, should_probe_vowifi, ADAPTIVE_FAST_CYCLES,
    ADAPTIVE_STATE_PERSIST, DEBOUNCE_TIME, SLEEP_FAST, SLEEP_NORMAL,
};
use crate::network::{iface_mode, mode_of, IfaceMode};
use crate::text::{owned, str_eq};

verus! {

/// What the daemon remembers between iterations; times are readings of a
/// monotonic clock in milliseconds.
#[derive(Debug, Clone)]
pub struct LoopState {
    pub last_mode: IfaceMode,
    pub last_iface: String,
    pub last_change: Option<u64>,
    pub wifi_pending_since: Option<u64>,
    pub wifi_applied: bool,
    pub last_vowifi_probe: Option<u64>,
    pub last_vowifi_active: bool,
    pub adaptive_count: u32,
    pub last_qdisc_check: Option<u64>,
    pub last_adaptive_persist: Option<u64>,
    pub last_adaptive_state: PathState,
    pub route_unavailable: bool,
}

/// Whole seconds from `since` to `now` (0 if the clock reads earlier).
pub open spec fn elapsed_secs(since: u64, now: u64) -> u64 {
    if now >= since {
        ((now - since) / 1000) as u64
    } else {
        0
    }
}

fn elapsed_secs_exec(since: u64, now: u64) -> (r: u64)
    ensures
        r == elapsed_secs(since, now),
{
    if now >= since {
        (now - since) / 1000
    } else {
        0
    }
}

/// The state of a daemon that has seen nothing yet.
pub fn initial_loop_state() -> (r: LoopState)
    ensures
        r.last_mode == IfaceMode::Unknown,
        r.last_iface@.len() == 0,
        r.last_change is None,
        r.wifi_pending_since is None,
        !r.wifi_applied,
        r.last_vowifi_probe is None,
        !r.last_vowifi_active,
        r.adaptive_count == 0,
        r.last_qdisc_check is None,
        r.last_adaptive_persist is None,
        r.last_adaptive_state == PathState::Unknown,
        !r.route_unavailable,
{
    LoopState {
        last_mode: IfaceMode::Unknown,
        last_iface: String::new(),
        last_change: None,
        wifi_pending_since: None,
        wifi_applied: false,
        last_vowifi_probe: None,
        last_vowifi_active: false,
        adaptive_count: 0,
        last_qdisc_check: None,
        last_adaptive_persist: None,
        last_adaptive_state: PathState::Unknown,
        route_unavailable: false,
    }
}

// ---------------------------------------------------------------------------
// No route
/// What to do when no route is available.
#[derive(Debug, Clone, Copy)]
pub struct RouteLostStep {
    /// Warn once, and forget the cached active interface.
    pub warn: bool,
    /// Forget the interface: clear the observer and its saved state.
    pub reset_observer: bool,
    /// Seconds to wait for a route event.
    pub wait_secs: u64,
}

/// With no route, the daemon warns once and forgets the interface it
/// followed, then waits the normal interval for the route to return.
pub fn on_route_lost(s: &mut LoopState) -> (r: RouteLostStep)
    ensures
        r.warn == !old(s).route_unavailable,
        final(s).route_unavailable,
        r.reset_observer == (old(s).last_mode != IfaceMode::Unknown || old(s).last_iface@.len()
            > 0),
        r.wait_secs == SLEEP_NORMAL,
        r.reset_observer ==> final(s).last_mode == IfaceMode::Unknown && final(s).last_iface@.len()
            == 0 && final(s).last_change is None && final(s).wifi_pending_since is None && !final(s).wifi_applied && final(s).last_vowifi_probe is None && !final(s).last_vowifi_active
            && final(s).last_qdisc_check is None && final(s).last_adaptive_persist is None && final(s).last_adaptive_state == PathState::Unknown,
        !r.reset_observer ==> final(s).last_mode == old(s).last_mode && final(s).last_iface@ == old(s).last_iface@ && final(s).last_change == old(s).last_change && final(s).wifi_pending_since
            == old(s).wifi_pending_since && final(s).wifi_applied == old(s).wifi_applied,
        final(s).adaptive_count == old(s).adaptive_count,
{
    let warn = !s.route_unavailable;
    s.route_unavailable = true;
    let reset = s.last_mode != IfaceMode::Unknown || !s.last_iface.as_str().is_empty();
    if reset {
        s.last_mode = IfaceMode::Unknown;
        s.last_iface = String::new();
        s.last_change = None;
        s.wifi_pending_since = None;
        s.wifi_applied = false;
        s.last_vowifi_probe = None;
        s.last_vowifi_active = false;
        s.last_qdisc_check = None;
        s.last_adaptive_persist = None;
        s.last_adaptive_state = PathState::Unknown;
    }
    RouteLostStep { warn, reset_observer: reset, wait_secs: SLEEP_NORMAL }
}

// ---------------------------------------------------------------------------
// Route
/// What to do when the active route uses an interface.
#[derive(Debug, Clone, Copy)]
pub struct RouteStep {
    /// The mode of the interface.
    pub mode: IfaceMode,
    /// The interface differs from the one followed: record it.
    pub record_iface: bool,
    /// The route came back after being lost: say so.
    pub log_restored: bool,
    /// A forced apply: refresh the profile and the base sysctls first.
    pub refresh: bool,
    /// Apply the interface settings for this mode.
    pub apply: Option<IfaceMode>,
    /// The interface or its mode changed and the change is taken.
    pub mode_changed: bool,
}

/// A change is taken when forced, or when the last one was taken at least
/// the debounce time ago (or never).
pub open spec fn debounced(last_change: Option<u64>, now: u64, force_apply: bool) -> bool {
    force_apply || match last_change {
        Some(t) => elapsed_secs(t, now) >= DEBOUNCE_TIME,
        None => true,
    }
}

/// A new interface or mode, or a forced apply, is taken after the debounce
/// time: cellular settings apply at once; Wi-Fi waits for Wi-Fi calling to
/// register (unless forced); an interface of unknown mode gets nothing.
pub fn on_route(s: &mut LoopState, iface: &str, force_apply: bool, now: u64) -> (r: RouteStep)
    ensures
        r.mode == mode_of(iface@),
        r.record_iface == (iface@ != old(s).last_iface@),
        r.log_restored == old(s).route_unavailable,
        !final(s).route_unavailable,
        final(s).adaptive_count == old(s).adaptive_count,
        final(s).last_adaptive_persist == old(s).last_adaptive_persist,
        final(s).last_adaptive_state == old(s).last_adaptive_state,
        ({
            let changed = mode_of(iface@) != old(s).last_mode || iface@ != old(s).last_iface@
                || force_apply;
            let taken = changed && debounced(old(s).last_change, now, force_apply);
            &&& r.mode_changed == taken
            &&& r.refresh == (taken && force_apply)
            &&& !taken ==> r.apply is None && final(s).last_mode == old(s).last_mode
                && final(s).last_iface@ == old(s).last_iface@ && final(s).last_change == old(s).last_change && final(s).wifi_applied == old(s).wifi_applied && final(s).wifi_pending_since == old(s).wifi_pending_since && final(s).last_qdisc_check == old(s).last_qdisc_check && final(s).last_vowifi_probe == old(s).last_vowifi_probe
                && final(s).last_vowifi_active == old(s).last_vowifi_active
            &&& taken ==> final(s).last_mode == mode_of(iface@) && final(s).last_iface@ == iface@
                && final(s).last_change == Some(now) && final(s).last_vowifi_probe is None
                && !final(s).last_vowifi_active
            &&& taken && mode_of(iface@) == IfaceMode::Cellular ==> r.apply == Some(
                IfaceMode::Cellular,
            ) && final(s).last_qdisc_check == Some(now) && final(s).wifi_applied == old(s).wifi_applied && final(s).wifi_pending_since == old(s).wifi_pending_since
            &&& taken && mode_of(iface@) == IfaceMode::WiFi && force_apply ==> r.apply == Some(
                IfaceMode::WiFi,
            ) && final(s).wifi_applied && final(s).wifi_pending_since is None && final(s).last_qdisc_check == Some(now)
            &&& taken && mode_of(iface@) == IfaceMode::WiFi && !force_apply ==> r.apply is None
                && !final(s).wifi_applied && final(s).wifi_pending_since == Some(now) && final(s).last_qdisc_check is None
            &&& taken && mode_of(iface@) == IfaceMode::Unknown ==> r.apply is None && final(s).last_qdisc_check is None && final(s).wifi_applied == old(s).wifi_applied
                && final(s).wifi_pending_since == old(s).wifi_pending_since
        }),
{
    let record_iface = !str_eq(iface, s.last_iface.as_str());
    let log_restored = s.route_unavailable;
    s.route_unavailable = false;
    let mode = iface_mode(iface);
    let changed = mode != s.last_mode || record_iface || force_apply;
    let debounce = force_apply || match s.last_change {
        Some(t) => elapsed_secs_exec(t, now) >= DEBOUNCE_TIME,
        None => true,
    };
    if !(changed && debounce) {
        return RouteStep {
            mode,
            record_iface,
            log_restored,
            refresh: false,
            apply: None,
            mode_changed: false,
        };
    }
    let mut apply: Option<IfaceMode> = None;
    match mode {
        IfaceMode::Cellular => {
            apply = Some(IfaceMode::Cellular);
            s.last_qdisc_check = Some(now);
        },
        IfaceMode::WiFi => {
            if force_apply {
                apply = Some(IfaceMode::WiFi);
                s.wifi_applied = true;
                s.wifi_pending_since = None;
                s.last_qdisc_check = Some(now);
            } else {
                s.wifi_applied = false;
                s.wifi_pending_since = Some(now);
                s.last_qdisc_check = None;
            }
        },
        IfaceMode::Unknown => {
            s.last_qdisc_check = None;
        },
    }
    s.last_vowifi_probe = None;
    s.last_vowifi_active = false;
    s.last_mode = mode;
    s.last_iface = owned(iface);
    s.last_change = Some(now);
    RouteStep { mode, record_iface, log_restored, refresh: force_apply, apply, mode_changed: true }
}

/// After the settings of a taken change were applied: the clock then
/// dates the change and the last qdisc check.
pub fn after_route_apply(s: &mut LoopState, step: &RouteStep, now: u64)
    ensures
        step.mode_changed ==> final(s).last_change == Some(now),
        !step.mode_changed ==> final(s).last_change == old(s).last_change,
        step.apply is Some ==> final(s).last_qdisc_check == Some(now),
        step.apply is None ==> final(s).last_qdisc_check == old(s).last_qdisc_check,
        final(s).last_mode == old(s).last_mode,
        final(s).last_iface == old(s).last_iface,
        final(s).wifi_applied == old(s).wifi_applied,
        final(s).wifi_pending_since == old(s).wifi_pending_since,
        final(s).last_vowifi_probe == old(s).last_vowifi_probe,
        final(s).last_vowifi_active == old(s).last_vowifi_active,
        final(s).adaptive_count == old(s).adaptive_count,
        final(s).last_adaptive_persist == old(s).last_adaptive_persist,
        final(s).last_adaptive_state == old(s).last_adaptive_state,
        final(s).route_unavailable == old(s).route_unavailable,
{
    if step.apply.is_some() {
        s.last_qdisc_check = Some(now);
    }
    if step.mode_changed {
        s.last_change = Some(now);
    }
}

// ---------------------------------------------------------------------------
// Wi-Fi
/// The interface is the Wi-Fi interface the daemon already follows.
pub open spec fn wifi_transition(s: LoopState, iface: Seq<char>, mode: IfaceMode) -> bool {
    mode == IfaceMode::WiFi && s.last_mode == IfaceMode::WiFi && iface == s.last_iface@
}

/// The Wi-Fi settings of the followed Wi-Fi interface still wait.
pub fn wifi_wait_pending(s: &LoopState, iface: &str, mode: IfaceMode) -> (r: bool)
    ensures
        r == (wifi_transition(*s, iface@, mode) && !s.wifi_applied),
{
    mode == IfaceMode::WiFi && s.last_mode == IfaceMode::WiFi && str_eq(iface, s.last_iface.as_str())
        && !s.wifi_applied
}

/// On a Wi-Fi interface whose settings wait, the wait starts if it had
/// not, and Wi-Fi calling is probed at most every few seconds (`true`: probe
/// now). Off Wi-Fi the Wi-Fi state is forgotten.
pub fn on_wifi(s: &mut LoopState, iface: &str, mode: IfaceMode, now: u64) -> (r: bool)
    ensures
        wifi_transition(*old(s), iface@, mode) && !old(s).wifi_applied ==> final(s).wifi_pending_since == (match old(s).wifi_pending_since {
            Some(t) => Some(t),
            None => Some(now),
        }) && r == match old(s).last_vowifi_probe {
            Some(t) => elapsed_secs(t, now) >= crate::daemon::VOWIFI_PROBE_INTERVAL,
            None => true,
        } && final(s).wifi_applied == old(s).wifi_applied && final(s).last_vowifi_probe == old(s).last_vowifi_probe && final(s).last_vowifi_active == old(s).last_vowifi_active,
        !(wifi_transition(*old(s), iface@, mode) && !old(s).wifi_applied) && mode
            != IfaceMode::WiFi ==> !r && !final(s).wifi_applied && final(s).wifi_pending_since is None
            && final(s).last_vowifi_probe is None && !final(s).last_vowifi_active,
        !(wifi_transition(*old(s), iface@, mode) && !old(s).wifi_applied) && mode
            == IfaceMode::WiFi ==> !r && final(s).wifi_applied == old(s).wifi_applied && final(s).wifi_pending_since == old(s).wifi_pending_since && final(s).last_vowifi_probe == old(s).last_vowifi_probe && final(s).last_vowifi_active == old(s).last_vowifi_active,
        final(s).last_mode == old(s).last_mode,
        final(s).last_iface == old(s).last_iface,
        final(s).last_qdisc_check == old(s).last_qdisc_check,
        final(s).adaptive_count == old(s).adaptive_count,
        final(s).last_change == old(s).last_change,
        final(s).last_adaptive_persist == old(s).last_adaptive_persist,
        final(s).last_adaptive_state == old(s).last_adaptive_state,
        final(s).route_unavailable == old(s).route_unavailable,
{
    let transition = mode == IfaceMode::WiFi && s.last_mode == IfaceMode::WiFi && str_eq(
        iface,
        s.last_iface.as_str(),
    );
    if transition && !s.wifi_applied {
        if s.wifi_pending_since.is_none() {
            s.wifi_pending_since = Some(now);
        }
        let elapsed = match s.last_vowifi_probe {
            Some(t) => Some(elapsed_secs_exec(t, now)),
            None => None,
        };
        return should_probe_vowifi(elapsed);
    }
    if mode != IfaceMode::WiFi {
        s.wifi_applied = false;
        s.wifi_pending_since = None;
        s.last_vowifi_probe = None;
        s.last_vowifi_active = false;
    }
    false
}

/// After the Wi-Fi calling probe (its answer, when it ran): the Wi-Fi
/// settings apply once Wi-Fi calling is registered or the connect time has
/// passed since the wait began (`true`: apply now).
pub fn after_vowifi_probe(s: &mut LoopState, probed: Option<bool>, now: u64) -> (r: bool)
    ensures
        final(s).last_vowifi_active == match probed {
            Some(v) => v,
            None => old(s).last_vowifi_active,
        },
        final(s).last_vowifi_probe == match probed {
            Some(_) => Some(now),
            None => old(s).last_vowifi_probe,
        },
        r == (!old(s).wifi_applied && (final(s).last_vowifi_active || match old(s).wifi_pending_since {
            Some(t) => elapsed_secs(t, now) >= crate::daemon::VOWIFI_CONNECT_TIME,
            None => false,
        })),
        final(s).wifi_applied == (old(s).wifi_applied || r),
        final(s).wifi_pending_since == old(s).wifi_pending_since,
        final(s).last_mode == old(s).last_mode,
        final(s).last_iface == old(s).last_iface,
        final(s).last_qdisc_check == old(s).last_qdisc_check,
        final(s).adaptive_count == old(s).adaptive_count,
        final(s).last_change == old(s).last_change,
        final(s).route_unavailable == old(s).route_unavailable,
        final(s).last_adaptive_persist == old(s).last_adaptive_persist,
        final(s).last_adaptive_state == old(s).last_adaptive_state,
{
    match probed {
        Some(v) => {
            s.last_vowifi_active = v;
            s.last_vowifi_probe = Some(now);
        },
        None => {},
    }
    let apply = match s.wifi_pending_since {
        Some(t) => should_apply_wifi(s.wifi_applied, s.last_vowifi_active, elapsed_secs_exec(t, now)),
        None => !s.wifi_applied && s.last_vowifi_active,
    };
    if apply {
        s.wifi_applied = true;
    }
    apply
}

/// After settings applied outside a route change: the clock dates the last
/// qdisc check.
pub fn after_settings_applied(s: &mut LoopState, now: u64)
    ensures
        final(s).last_qdisc_check == Some(now),
        final(s).last_mode == old(s).last_mode,
        final(s).last_iface == old(s).last_iface,
        final(s).wifi_applied == old(s).wifi_applied,
        final(s).wifi_pending_since == old(s).wifi_pending_since,
        final(s).adaptive_count == old(s).adaptive_count,
        final(s).last_change == old(s).last_change,
        *final(s) == (LoopState { last_qdisc_check: Some(now), ..*old(s) }),
{
    s.last_qdisc_check = Some(now);
}

// ---------------------------------------------------------------------------
// Qdisc watchdog
/// The interface's policy is in force: Wi-Fi once applied, cellular always.
pub open spec fn policy_active(s: LoopState, mode: IfaceMode) -> bool {
    match mode {
        IfaceMode::WiFi => s.wifi_applied,
        IfaceMode::Cellular => true,
        IfaceMode::Unknown => false,
    }
}

/// The root qdisc is reconciled when the policy is in force and the last
/// check is at least the mode's interval old.
pub fn qdisc_due(s: &LoopState, mode: IfaceMode, now: u64) -> (r: bool)
    ensures
        r == (policy_active(*s, mode) && match s.last_qdisc_check {
            Some(t) => elapsed_secs(t, now) >= (if mode == IfaceMode::WiFi {
                crate::daemon::QDISC_CHECK_WIFI
            } else {
                crate::daemon::QDISC_CHECK_CELLULAR
            }),
            None => false,
        }),
{
    let active = match mode {
        IfaceMode::WiFi => s.wifi_applied,
        IfaceMode::Cellular => true,
        IfaceMode::Unknown => false,
    };
    active && match s.last_qdisc_check {
        Some(t) => elapsed_secs_exec(t, now) >= qdisc_check_interval(mode),
        None => false,
    }
}

// ---------------------------------------------------------------------------
// Adaptive observer
/// What to do with a state of the adaptive observer.
#[derive(Debug, Clone, Copy)]
pub struct AdaptiveStep {
    /// The reported path state changed from the first to the second.
    pub changed: Option<(PathState, PathState)>,
    /// Save the state (the last save is old enough, or none was made).
    pub persist: bool,
}

pub fn on_adaptive_state(s: &mut LoopState, stable: PathState, now: u64) -> (r: AdaptiveStep)
    ensures
        stable != old(s).last_adaptive_state ==> r.changed == Some((old(s).last_adaptive_state, stable)),
        stable == old(s).last_adaptive_state ==> r.changed is None,
        final(s).last_adaptive_state == stable,
        r.persist == match old(s).last_adaptive_persist {
            Some(t) => elapsed_secs(t, now) >= ADAPTIVE_STATE_PERSIST,
            None => true,
        },
        final(s).last_adaptive_persist == old(s).last_adaptive_persist,
        final(s).last_mode == old(s).last_mode,
        final(s).last_iface == old(s).last_iface,
        final(s).wifi_applied == old(s).wifi_applied,
        final(s).adaptive_count == old(s).adaptive_count,
        *final(s) == (LoopState { last_adaptive_state: stable, ..*old(s) }),
{
    let changed = if stable != s.last_adaptive_state {
        let c = Some((s.last_adaptive_state, stable));
        s.last_adaptive_state = stable;
        c
    } else {
        None
    };
    let persist = match s.last_adaptive_persist {
        Some(t) => elapsed_secs_exec(t, now) >= ADAPTIVE_STATE_PERSIST,
        None => true,
    };
    AdaptiveStep { changed, persist }
}

/// The state was saved: the clock dates the save.
pub fn after_adaptive_persist(s: &mut LoopState, now: u64)
    ensures
        final(s).last_adaptive_persist == Some(now),
        final(s).last_adaptive_state == old(s).last_adaptive_state,
        final(s).adaptive_count == old(s).adaptive_count,
        *final(s) == (LoopState { last_adaptive_persist: Some(now), ..*old(s) }),
{
    s.last_adaptive_persist = Some(now);
}

// ---------------------------------------------------------------------------
// Polling
/// Seconds until the next iteration: fast while Wi-Fi settings wait and
/// for a few iterations after a change, normal otherwise.
pub fn next_sleep(s: &mut LoopState, wifi_waiting: bool, mode_changed: bool) -> (r: u64)
    ensures
        wifi_waiting ==> r == SLEEP_FAST && final(s).adaptive_count == old(s).adaptive_count,
        !wifi_waiting && mode_changed ==> r == SLEEP_FAST && final(s).adaptive_count
            == ADAPTIVE_FAST_CYCLES,
        !wifi_waiting && !mode_changed && old(s).adaptive_count > 0 ==> r == SLEEP_FAST && final(s).adaptive_count == old(s).adaptive_count - 1,
        !wifi_waiting && !mode_changed && old(s).adaptive_count == 0 ==> r == SLEEP_NORMAL && final(s).adaptive_count == 0,
        final(s).last_mode == old(s).last_mode,
        final(s).last_iface == old(s).last_iface,
        final(s).wifi_applied == old(s).wifi_applied,
        (r, final(s).adaptive_count) == sleep_step(old(s).adaptive_count, wifi_waiting, mode_changed),
        *final(s) == (LoopState {
            adaptive_count: sleep_step(old(s).adaptive_count, wifi_waiting, mode_changed).1,
            ..*old(s)
        }),
{
    if wifi_waiting {
        SLEEP_FAST
    } else if mode_changed {
        s.adaptive_count = ADAPTIVE_FAST_CYCLES;
        SLEEP_FAST
    } else if s.adaptive_count > 0 {
        s.adaptive_count = s.adaptive_count - 1;
        SLEEP_FAST
    } else {
        SLEEP_NORMAL
    }
}

/// One polling step on the count of fast cycles left: the sleep and the
/// count after it, as `next_sleep` takes them.
pub open spec fn sleep_step(count: u32, wifi_waiting: bool, mode_changed: bool) -> (u64, u32) {
    if wifi_waiting {
        (SLEEP_FAST, count)
    } else if mode_changed {
        (SLEEP_FAST, ADAPTIVE_FAST_CYCLES)
    } else if count > 0 {
        (SLEEP_FAST, (count - 1) as u32)
    } else {
        (SLEEP_NORMAL, 0)
    }
}

/// The sleeps of `n` quiet iterations (no Wi-Fi wait, no change of mode)
/// from a count of fast cycles left.
pub open spec fn quiet_sleeps(count: u32, n: nat) -> Seq<u64>
    decreases n,
{
    if n == 0 {
        seq![]
    } else {
        let next = sleep_step(count, false, false);
        seq![next.0] + quiet_sleeps(next.1, (n - 1) as nat)
    }
}

proof fn lemma_quiet_sleeps(count: u32, n: nat)
    ensures
        quiet_sleeps(count, n).len() == n,
        forall|i: int|
            0 <= i < n ==> #[trigger] quiet_sleeps(count, n)[i] == if i < count {
                SLEEP_FAST
            } else {
                SLEEP_NORMAL
            },
    decreases n,
{
    if n > 0 {
        let next = sleep_step(count, false, false);
        lemma_quiet_sleeps(next.1, (n - 1) as nat);
        let s = quiet_sleeps(count, n);
        assert(s == seq![next.0] + quiet_sleeps(next.1, (n - 1) as nat));
        assert forall|i: int| 0 <= i < n implies #[trigger] s[i] == if i < count {
            SLEEP_FAST
        } else {
            SLEEP_NORMAL
        } by {
            if i > 0 {
                assert(s[i] == quiet_sleeps(next.1, (n - 1) as nat)[i - 1]);
            }
        }
    }
}

/// After a change of interface mode the loop keeps polling fast for the
/// next `ADAPTIVE_FAST_CYCLES` quiet iterations, and at the normal pace
/// after them.
pub proof fn lemma_fast_polling_after_change(count: u32, n: nat)
    ensures
        sleep_step(count, false, true).0 == SLEEP_FAST,
        forall|i: int|
            0 <= i < n ==> #[trigger] quiet_sleeps(sleep_step(count, false, true).1, n)[i] == if i
                < ADAPTIVE_FAST_CYCLES {
                SLEEP_FAST
            } else {
                SLEEP_NORMAL
            },
{
    lemma_quiet_sleeps(ADAPTIVE_FAST_CYCLES, n);
}

// ---------------------------------------------------------------------------
// Runtime control
/// What the daemon does with the runtime control state in one iteration.
#[derive(Debug, Clone, Copy, PartialEq, Eq, Structural)]
pub struct ControlStep {
    /// Policy, qdisc and sysctl writes may happen in this iteration.
    pub writes_allowed: bool,
    /// The state carries a generation not yet consumed: acknowledge it
    /// before any write.
    pub acknowledge: bool,
    /// That generation asks for one immediate reapplication.
    pub apply_now: bool,
}

/// The step for a control state, given the last generation consumed,
/// whether a restoration holds the lock and whether the rollback baseline is
/// present and usable: a state that cannot be read is safe mode held in
/// memory (no write, nothing to acknowledge); writes need the active mode,
/// no restoration and a usable baseline; a new generation is acknowledged,
/// and asks for a reapplication when its action is a reload, a resume or
/// leaving safe mode and writes are allowed.
pub open spec fn control_step_spec(
    consumed: Option<u64>,
    control: Result<ControlState, ControlError>,
    restoring: bool,
    baseline_ok: bool,
) -> ControlStep {
    match control {
        Err(_) => ControlStep { writes_allowed: false, acknowledge: false, apply_now: false },
        Ok(s) => {
            let fresh = consumed != Some(s.generation);
            let writes = s.mode == RuntimeMode::Active && !restoring && baseline_ok;
            ControlStep {
                writes_allowed: writes,
                acknowledge: fresh,
                apply_now: fresh && writes && (s.requested_action == RuntimeAction::Reload
                    || s.requested_action == RuntimeAction::Resume || s.requested_action
                    == RuntimeAction::LeaveSafeMode),
            }
        },
    }
}

pub fn control_step(
    consumed: Option<u64>,
    control: &Result<ControlState, ControlError>,
    restoring: bool,
    baseline_ok: bool,
) -> (r: ControlStep)
    ensures
        r == control_step_spec(consumed, *control, restoring, baseline_ok),
{
    match control {
        Err(_) => ControlStep { writes_allowed: false, acknowledge: false, apply_now: false },
        Ok(s) => {
            let fresh = match consumed {
                Some(g) => g != s.generation,
                None => true,
            };
            let writes = s.mode.allows_writes() && !restoring && baseline_ok;
            ControlStep {
                writes_allowed: writes,
                acknowledge: fresh,
                apply_now: fresh && writes && s.requested_action.requests_apply(),
            }
        },
    }
}

/// After the acknowledgement was due: writes (and a requested
/// reapplication) go ahead only once it is written; the daemon stays closed
/// otherwise.
pub fn writes_after_ack(step: ControlStep, ack_written: bool) -> (r: (bool, bool))
    ensures
        r.0 == (step.writes_allowed && (!step.acknowledge || ack_written)),
        r.1 == (step.apply_now && (!step.acknowledge || ack_written)),
{
    let open = !step.acknowledge || ack_written;
    (step.writes_allowed && open, step.apply_now && open)
}

/// A paused or safe-mode state, a restoration in progress, a control state
/// that cannot be read, or a missing, malformed or unsupported rollback
/// baseline never lets the daemon write or reapply.
pub proof fn lemma_no_write_unless_active(
    consumed: Option<u64>,
    control: Result<ControlState, ControlError>,
    restoring: bool,
    baseline_ok: bool,
)
    requires
        restoring || !baseline_ok || control is Err || (control matches Ok(s) && s.mode
            != RuntimeMode::Active),
    ensures
        !control_step_spec(consumed, control, restoring, baseline_ok).writes_allowed,
        !control_step_spec(consumed, control, restoring, baseline_ok).apply_now,
{
}

/// A generation is consumed once: once acknowledged, the same state asks
/// for no further acknowledgement nor reapplication.
pub proof fn lemma_generation_consumed_once(state: ControlState, restoring: bool, baseline_ok: bool)
    ensures
        control_step_spec(
            Some(state.generation),
            Ok::<ControlState, ControlError>(state),
            restoring,
            baseline_ok,
        ) == (ControlStep {
            writes_allowed: state.mode == RuntimeMode::Active && !restoring && baseline_ok,
            acknowledge: false,
            apply_now: false,
        }),
{
}

} // verus!


