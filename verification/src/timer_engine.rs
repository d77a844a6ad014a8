//! The timer engine: parallel skill timers driven by key presses, their
//! phases, the alerts they raise and the overlay frame that shows them.

use vstd::prelude::*;

use crate::text::{chars_equal, keys_match, normalize_key, str_equal};

verus! {

/// How long after its first press an unfinished key cycle of a configured
/// skill is abandoned.
pub const CYCLE_RESET_AFTER_MS: u64 = 30_000;

/// One skill timer as the engine runs it.
#[derive(Debug, Clone, PartialEq, Eq)]
pub struct TimerProfile {
    pub id: String,
    pub name: String,
    pub key: String,
    pub duration_ms: u64,
    pub warning_before_ms: u64,
    pub color: String,
    /// How many matching key presses make up one skill cycle (0 counts as 1).
    pub cycle_key_count: u8,
    /// How long after its first press an unfinished cycle is abandoned.
    pub cycle_reset_after_ms: u64,
    pub enabled: bool,
}

/// What a key press did to the timers.
#[derive(Debug, Clone, PartialEq, Eq)]
pub enum TimerEvent {
    Reset { profile_id: String },
}

/// Where a timer stands at a given moment.
#[derive(Debug, Clone, PartialEq, Eq)]
pub enum TimerPhase {
    Waiting,
    Running { remaining_ms: u64 },
    Warning { remaining_ms: u64 },
    Expired { overdue_ms: u64 },
}

#[derive(Debug, Clone, PartialEq, Eq)]
pub enum AlertPhase {
    Warning,
    Expired,
}

/// A timer that is warning or expired, as the overlay shows it.
#[derive(Debug, Clone, PartialEq, Eq)]
pub struct AlertSnapshot {
    pub profile_id: String,
    pub name: String,
    pub color: String,
    pub phase: AlertPhase,
    pub remaining_ms: Option<u64>,
    pub overdue_ms: Option<u64>,
}

#[derive(Debug, Clone, PartialEq, Eq)]
pub enum OverlayIntensity {
    Warning,
    Expired,
}

/// What the overlay border shows at one moment.
#[derive(Debug, Clone, PartialEq, Eq)]
pub struct OverlayFrame {
    pub color: String,
    pub visible: bool,
    pub intensity: OverlayIntensity,
}

/// The running state of one timer: when it was last reset and how far the
/// current key cycle has got.
#[derive(Debug, Clone, Copy, PartialEq, Eq)]
pub struct TimerClock {
    pub started_at_ms: Option<u64>,
    pub cycle_started_at_ms: Option<u64>,
    pub cycle_keydowns_seen: u8,
}

/// Runs one timer per profile, in the order the profiles were given.
#[derive(Debug, Clone)]
pub struct TimerEngine {
    profiles: Vec<TimerProfile>,
    clocks: Vec<TimerClock>,
}

// ---------------------------------------------------------------------------
// Model
// ---------------------------------------------------------------------------

pub open spec fn sat_add(a: u64, b: u64) -> u64 {
    if a + b > u64::MAX {
        u64::MAX
    } else {
        (a + b) as u64
    }
}

pub open spec fn sat_sub(a: u64, b: u64) -> u64 {
    if a >= b {
        (a - b) as u64
    } else {
        0
    }
}

/// A timer that has never been started.
pub open spec fn idle_clock() -> TimerClock {
    TimerClock { started_at_ms: None, cycle_started_at_ms: None, cycle_keydowns_seen: 0 }
}

/// The number of presses in one cycle of `p`: `cycle_key_count`, at least 1.
pub open spec fn cycle_len(p: TimerProfile) -> int {
    if p.cycle_key_count == 0 {
        1
    } else {
        p.cycle_key_count as int
    }
}

/// The phase of timer `p`, last reset at `started`, at time `now`.
/// A query before the reset time counts as no time elapsed.
pub open spec fn phase_at(p: TimerProfile, started: Option<u64>, now: u64) -> TimerPhase {
    match started {
        None => TimerPhase::Waiting,
        Some(s) => {
            let elapsed = sat_sub(now, s);
            if elapsed >= p.duration_ms {
                TimerPhase::Expired { overdue_ms: (elapsed - p.duration_ms) as u64 }
            } else {
                let remaining = (p.duration_ms - elapsed) as u64;
                if remaining <= p.warning_before_ms {
                    TimerPhase::Warning { remaining_ms: remaining }
                } else {
                    TimerPhase::Running { remaining_ms: remaining }
                }
            }
        },
    }
}

pub open spec fn is_alert_phase(ph: TimerPhase) -> bool {
    ph is Warning || ph is Expired
}

/// The unfinished cycle of `c` began long enough ago to be abandoned.
pub open spec fn cycle_window_elapsed(p: TimerProfile, c: TimerClock, now: u64) -> bool {
    match c.cycle_started_at_ms {
        Some(s) => sat_add(s, p.cycle_reset_after_ms) <= now,
        None => false,
    }
}

/// A press on timer `p` at `now` resets it: no cycle is under way, the cycle
/// under way was abandoned, or the timer is already warning or expired.
pub open spec fn press_resets(p: TimerProfile, c: TimerClock, now: u64) -> bool {
    ||| c.cycle_keydowns_seen == 0
    ||| cycle_window_elapsed(p, c, now)
    ||| is_alert_phase(phase_at(p, c.started_at_ms, now))
}

/// Counts one press into the cycle of `c`, closing the cycle when it is full.
pub open spec fn count_press(p: TimerProfile, c: TimerClock) -> TimerClock {
    if c.cycle_keydowns_seen + 1 >= cycle_len(p) {
        TimerClock { cycle_started_at_ms: None, cycle_keydowns_seen: 0, ..c }
    } else {
        TimerClock { cycle_keydowns_seen: (c.cycle_keydowns_seen + 1) as u8, ..c }
    }
}

/// The clock of timer `p` after one of its key presses at `now`.
pub open spec fn press_clock(p: TimerProfile, c: TimerClock, now: u64) -> TimerClock {
    if press_resets(p, c, now) {
        count_press(
            p,
            TimerClock {
                started_at_ms: Some(now),
                cycle_started_at_ms: Some(now),
                cycle_keydowns_seen: 0,
            },
        )
    } else {
        count_press(p, c)
    }
}

/// Timer `p` listens to `key`.
pub open spec fn responds(p: TimerProfile, key: Seq<char>) -> bool {
    p.enabled && keys_match(p.key@, key)
}

/// The clock of `p` after a press of `key` at `now`.
pub open spec fn clock_after_key(p: TimerProfile, c: TimerClock, key: Seq<char>, now: u64) -> TimerClock {
    if responds(p, key) {
        press_clock(p, c, now)
    } else {
        c
    }
}

/// A press of `key` at `now` resets timer `p`.
pub open spec fn resets_on_key(p: TimerProfile, c: TimerClock, key: Seq<char>, now: u64) -> bool {
    responds(p, key) && press_resets(p, c, now)
}

/// The ids of the first `n` timers that a press of `key` at `now` resets, in order.
pub open spec fn reset_ids_upto(
    profiles: Seq<TimerProfile>,
    clocks: Seq<TimerClock>,
    key: Seq<char>,
    now: u64,
    n: nat,
) -> Seq<Seq<char>>
    decreases n,
{
    if n == 0 {
        seq![]
    } else {
        let prev = reset_ids_upto(profiles, clocks, key, now, (n - 1) as nat);
        if resets_on_key(profiles[n - 1], clocks[n - 1], key, now) {
            prev.push(profiles[n - 1].id@)
        } else {
            prev
        }
    }
}

/// The profile ids that a list of events names, in order.
pub open spec fn event_ids(events: Seq<TimerEvent>) -> Seq<Seq<char>> {
    events.map_values(|e: TimerEvent| match e { TimerEvent::Reset { profile_id } => profile_id@ })
}

/// The first index at or after `start` whose profile has id `id`, or -1.
pub open spec fn first_with_id_from(profiles: Seq<TimerProfile>, id: Seq<char>, start: int) -> int
    decreases profiles.len() - start,
{
    if start < 0 || start >= profiles.len() {
        -1
    } else if profiles[start].id@ == id {
        start
    } else {
        first_with_id_from(profiles, id, start + 1)
    }
}

/// The first index whose profile has id `id`, or -1.
pub open spec fn first_with_id(profiles: Seq<TimerProfile>, id: Seq<char>) -> int {
    first_with_id_from(profiles, id, 0)
}

/// The alert that timer `p` raises in phase `ph`, if any.
pub open spec fn alert_for(p: TimerProfile, ph: TimerPhase) -> Option<AlertSnapshot> {
    match ph {
        TimerPhase::Warning { remaining_ms } => Some(
            AlertSnapshot {
                profile_id: p.id,
                name: p.name,
                color: p.color,
                phase: AlertPhase::Warning,
                remaining_ms: Some(remaining_ms),
                overdue_ms: None,
            },
        ),
        TimerPhase::Expired { overdue_ms } => Some(
            AlertSnapshot {
                profile_id: p.id,
                name: p.name,
                color: p.color,
                phase: AlertPhase::Expired,
                remaining_ms: None,
                overdue_ms: Some(overdue_ms),
            },
        ),
        _ => None,
    }
}

/// The alerts that the first `n` timers raise at `now`, in order.
pub open spec fn alerts_upto(
    profiles: Seq<TimerProfile>,
    clocks: Seq<TimerClock>,
    now: u64,
    n: nat,
) -> Seq<AlertSnapshot>
    decreases n,
{
    if n == 0 {
        seq![]
    } else {
        let prev = alerts_upto(profiles, clocks, now, (n - 1) as nat);
        match alert_for(profiles[n - 1], phase_at(profiles[n - 1], clocks[n - 1].started_at_ms, now)) {
            Some(a) => prev.push(a),
            None => prev,
        }
    }
}

/// Some alert in `alerts` is expired.
pub open spec fn any_expired(alerts: Seq<AlertSnapshot>) -> bool {
    exists|i: int| 0 <= i < alerts.len() && (#[trigger] alerts[i]).phase is Expired
}

/// The index of the alert whose color the overlay shows at `now`: the alerts
/// take turns, 400 ms each.
pub open spec fn color_index(n: nat, now: u64) -> int {
    ((now / 400) as usize) as int % (n as int)
}

/// The blink period of the overlay border.
pub open spec fn blink_ms(intensity: OverlayIntensity) -> u64 {
    match intensity {
        OverlayIntensity::Warning => 550,
        OverlayIntensity::Expired => 300,
    }
}

/// The overlay frame for `alerts` at `now`: none without alerts; expired
/// intensity when some alert is expired; the border on during even blink periods.
pub open spec fn frame_for(alerts: Seq<AlertSnapshot>, now: u64) -> Option<OverlayFrame> {
    if alerts.len() == 0 {
        None
    } else {
        let intensity = if any_expired(alerts) {
            OverlayIntensity::Expired
        } else {
            OverlayIntensity::Warning
        };
        Some(
            OverlayFrame {
                color: alerts[color_index(alerts.len(), now)].color,
                visible: (now / blink_ms(intensity)) % 2 == 0,
                intensity,
            },
        )
    }
}

/// The clock invariant: the cycle counter stays below the cycle length, a
/// cycle is under way exactly when the counter is non-zero, and a cycle under
/// way belongs to a started timer.
pub open spec fn clock_wf(p: TimerProfile, c: TimerClock) -> bool {
    &&& c.cycle_keydowns_seen < cycle_len(p)
    &&& (c.cycle_keydowns_seen == 0 <==> c.cycle_started_at_ms is None)
    &&& (c.cycle_started_at_ms is Some ==> c.started_at_ms is Some)
}

impl TimerEngine {
    /// The profiles, in order.
    pub closed spec fn profiles_view(&self) -> Seq<TimerProfile> {
        self.profiles@
    }

    /// The clock of each profile, in the same order.
    pub closed spec fn clocks_view(&self) -> Seq<TimerClock> {
        self.clocks@
    }

    /// One clock per profile, each within the clock invariant.
    pub open spec fn wf(&self) -> bool {
        &&& self.profiles_view().len() == self.clocks_view().len()
        &&& forall|i: int|
            0 <= i < self.profiles_view().len() ==> clock_wf(
                #[trigger] self.profiles_view()[i],
                self.clocks_view()[i],
            )
    }

    /// The phase that `phase(id, now)` reports.
    pub open spec fn phase_spec(&self, id: Seq<char>, now: u64) -> Option<TimerPhase> {
        let i = first_with_id(self.profiles_view(), id);
        if i < 0 {
            None
        } else {
            Some(phase_at(self.profiles_view()[i], self.clocks_view()[i].started_at_ms, now))
        }
    }

    /// The alerts that `active_alerts(now)` reports.
    pub open spec fn alerts_spec(&self, now: u64) -> Seq<AlertSnapshot> {
        alerts_upto(self.profiles_view(), self.clocks_view(), now, self.profiles_view().len())
    }
}

// ---------------------------------------------------------------------------
// Implementation
// ---------------------------------------------------------------------------

fn copy_profile(p: &TimerProfile) -> (r: TimerProfile)
    ensures
        r == *p,
{
    TimerProfile {
        id: p.id.clone(),
        name: p.name.clone(),
        key: p.key.clone(),
        duration_ms: p.duration_ms,
        warning_before_ms: p.warning_before_ms,
        color: p.color.clone(),
        cycle_key_count: p.cycle_key_count,
        cycle_reset_after_ms: p.cycle_reset_after_ms,
        enabled: p.enabled,
    }
}

fn idle_clocks(n: usize) -> (r: Vec<TimerClock>)
    ensures
        r@.len() == n,
        forall|i: int| 0 <= i < n ==> #[trigger] r@[i] == idle_clock(),
{
    let mut r: Vec<TimerClock> = Vec::new();
    let mut i: usize = 0;
    while i < n
        invariant
            i <= n,
            r@.len() == i,
            forall|j: int| 0 <= j < i ==> #[trigger] r@[j] == idle_clock(),
        decreases n - i,
    {
        r.push(TimerClock { started_at_ms: None, cycle_started_at_ms: None, cycle_keydowns_seen: 0 });
        i = i + 1;
    }
    r
}

/// The phase of timer `p` at `now` (see `phase_at`).
fn timer_phase(p: &TimerProfile, started: Option<u64>, now_ms: u64) -> (r: TimerPhase)
    ensures
        r == phase_at(*p, started, now_ms),
{
    let started_at_ms = match started {
        Some(s) => s,
        None => {
            return TimerPhase::Waiting;
        },
    };
    let elapsed_ms = now_ms.saturating_sub(started_at_ms);
    if elapsed_ms >= p.duration_ms {
        return TimerPhase::Expired { overdue_ms: elapsed_ms - p.duration_ms };
    }
    let remaining_ms = p.duration_ms - elapsed_ms;
    if remaining_ms <= p.warning_before_ms {
        TimerPhase::Warning { remaining_ms }
    } else {
        TimerPhase::Running { remaining_ms }
    }
}

/// One press on timer `p`: the new clock, and whether the timer was reset.
fn press(p: &TimerProfile, c: TimerClock, now_ms: u64) -> (r: (TimerClock, bool))
    ensures
        r.0 == press_clock(*p, c, now_ms),
        r.1 == press_resets(*p, c, now_ms),
{
    let mut clock = c;
    let window_elapsed = match clock.cycle_started_at_ms {
        Some(s) => s.saturating_add(p.cycle_reset_after_ms) <= now_ms,
        None => false,
    };
    if window_elapsed {
        clock.cycle_started_at_ms = None;
        clock.cycle_keydowns_seen = 0;
    }
    if clock.cycle_keydowns_seen != 0 {
        let alerting = match timer_phase(p, clock.started_at_ms, now_ms) {
            TimerPhase::Warning { .. } | TimerPhase::Expired { .. } => true,
            _ => false,
        };
        if alerting {
            clock.cycle_started_at_ms = None;
            clock.cycle_keydowns_seen = 0;
        }
    }
    let reset = clock.cycle_keydowns_seen == 0;
    if reset {
        clock.started_at_ms = Some(now_ms);
        clock.cycle_started_at_ms = Some(now_ms);
    }
    let cycle_key_count: u8 = if p.cycle_key_count > 1 {
        p.cycle_key_count
    } else {
        1
    };
    if clock.cycle_keydowns_seen.saturating_add(1) >= cycle_key_count {
        clock.cycle_started_at_ms = None;
        clock.cycle_keydowns_seen = 0;
    } else {
        clock.cycle_keydowns_seen = clock.cycle_keydowns_seen + 1;
    }
    (clock, reset)
}

/// The alert that timer `p` raises in phase `ph`, if any.
fn alert_of(p: &TimerProfile, ph: TimerPhase) -> (r: Option<AlertSnapshot>)
    ensures
        r == alert_for(*p, ph),
{
    match ph {
        TimerPhase::Warning { remaining_ms } => Some(
            AlertSnapshot {
                profile_id: p.id.clone(),
                name: p.name.clone(),
                color: p.color.clone(),
                phase: AlertPhase::Warning,
                remaining_ms: Some(remaining_ms),
                overdue_ms: None,
            },
        ),
        TimerPhase::Expired { overdue_ms } => Some(
            AlertSnapshot {
                profile_id: p.id.clone(),
                name: p.name.clone(),
                color: p.color.clone(),
                phase: AlertPhase::Expired,
                remaining_ms: None,
                overdue_ms: Some(overdue_ms),
            },
        ),
        _ => None,
    }
}

impl TimerEngine {
    /// An engine with one idle timer per profile.
    pub fn new(profiles: Vec<TimerProfile>) -> (r: Self)
        ensures
            r.wf(),
            r.profiles_view() == profiles@,
            forall|i: int| 0 <= i < profiles@.len() ==> #[trigger] r.clocks_view()[i] == idle_clock(),
    {
        let n = profiles.len();
        let clocks = idle_clocks(n);
        TimerEngine { profiles, clocks }
    }

    /// The profiles, in order.
    pub fn profiles(&self) -> (r: Vec<TimerProfile>)
        ensures
            r@ == self.profiles_view(),
    {
        let mut r: Vec<TimerProfile> = Vec::new();
        let mut i: usize = 0;
        while i < self.profiles.len()
            invariant
                i <= self.profiles@.len(),
                r@ == self.profiles@.subrange(0, i as int),
            decreases self.profiles@.len() - i,
        {
            r.push(copy_profile(&self.profiles[i]));
            i = i + 1;
        }
        r
    }

    /// Replaces every timer: one idle timer per new profile.
    pub fn replace_profiles(&mut self, profiles: Vec<TimerProfile>)
        ensures
            final(self).wf(),
            final(self).profiles_view() == profiles@,
            forall|i: int|
                0 <= i < profiles@.len() ==> #[trigger] final(self).clocks_view()[i] == idle_clock(),
    {
        let n = profiles.len();
        self.clocks = idle_clocks(n);
        self.profiles = profiles;
    }

    /// Feeds one key press at `now_ms` to every enabled timer whose key
    /// matches (trimmed, ASCII case-insensitive), and reports the timers it reset.
    pub fn handle_key_press(&mut self, key: &str, now_ms: u64) -> (events: Vec<TimerEvent>)
        requires
            old(self).wf(),
        ensures
            final(self).wf(),
            final(self).profiles_view() == old(self).profiles_view(),
            final(self).clocks_view().len() == old(self).clocks_view().len(),
            forall|i: int|
                0 <= i < old(self).clocks_view().len() ==> #[trigger] final(self).clocks_view()[i]
                    == clock_after_key(
                    old(self).profiles_view()[i],
                    old(self).clocks_view()[i],
                    key@,
                    now_ms,
                ),
            event_ids(events@) == reset_ids_upto(
                old(self).profiles_view(),
                old(self).clocks_view(),
                key@,
                now_ms,
                old(self).profiles_view().len(),
            ),
    {
        let normalized_key = normalize_key(key);
        let mut events: Vec<TimerEvent> = Vec::new();
        let n = self.profiles.len();
        let ghost old_clocks = self.clocks@;
        let mut i: usize = 0;
        while i < n
            invariant
                n == self.profiles@.len(),
                self.clocks@.len() == n,
                old_clocks.len() == n,
                self.profiles@ == old(self).profiles@,
                old_clocks == old(self).clocks@,
                normalized_key@ == crate::text::normalized_key(key@),
                i <= n,
                forall|j: int|
                    #![trigger self.clocks@[j]]
                    0 <= j < i ==> self.clocks@[j] == clock_after_key(
                        self.profiles@[j],
                        old_clocks[j],
                        key@,
                        now_ms,
                    ),
                forall|j: int| #![trigger self.clocks@[j]] i <= j < n ==> self.clocks@[j] == old_clocks[j],
                event_ids(events@) == reset_ids_upto(self.profiles@, old_clocks, key@, now_ms, i as nat),
            decreases n - i,
        {
            let ghost prev_events = events@;
            let enabled = self.profiles[i].enabled;
            let matches = if enabled {
                let profile_key = normalize_key(self.profiles[i].key.as_str());
                chars_equal(&profile_key, &normalized_key)
            } else {
                false
            };
            if matches {
                let (clock, reset) = press(&self.profiles[i], self.clocks[i], now_ms);
                self.clocks.set(i, clock);
                if reset {
                    events.push(TimerEvent::Reset { profile_id: self.profiles[i].id.clone() });
                    assert(event_ids(events@) =~= event_ids(prev_events).push(self.profiles@[i as int].id@));
                }
            }
            i = i + 1;
        }
        proof {
            assert forall|j: int| 0 <= j < n implies clock_wf(
                #[trigger] self.profiles@[j],
                self.clocks@[j],
            ) by {
                lemma_press_keeps_clock_wf(self.profiles@[j], old_clocks[j], now_ms);
            }
        }
        events
    }

    /// The phase of the first timer whose id is `profile_id`, if there is one.
    pub fn phase(&self, profile_id: &str, now_ms: u64) -> (r: Option<TimerPhase>)
        requires
            self.wf(),
        ensures
            r == self.phase_spec(profile_id@, now_ms),
    {
        let n = self.profiles.len();
        let mut i: usize = 0;
        while i < n
            invariant
                n == self.profiles@.len(),
                n == self.clocks@.len(),
                i <= n,
                first_with_id(self.profiles@, profile_id@) == first_with_id_from(
                    self.profiles@,
                    profile_id@,
                    i as int,
                ),
            decreases n - i,
        {
            if str_equal(self.profiles[i].id.as_str(), profile_id) {
                return Some(timer_phase(&self.profiles[i], self.clocks[i].started_at_ms, now_ms));
            }
            i = i + 1;
        }
        None
    }

    /// The warning and expired timers at `now_ms`, in profile order.
    pub fn active_alerts(&self, now_ms: u64) -> (r: Vec<AlertSnapshot>)
        requires
            self.wf(),
        ensures
            r@ == self.alerts_spec(now_ms),
    {
        let n = self.profiles.len();
        let mut r: Vec<AlertSnapshot> = Vec::new();
        let mut i: usize = 0;
        while i < n
            invariant
                n == self.profiles@.len(),
                n == self.clocks@.len(),
                i <= n,
                r@ == alerts_upto(self.profiles@, self.clocks@, now_ms, i as nat),
            decreases n - i,
        {
            let ph = timer_phase(&self.profiles[i], self.clocks[i].started_at_ms, now_ms);
            match alert_of(&self.profiles[i], ph) {
                Some(a) => r.push(a),
                None => {},
            }
            i = i + 1;
        }
        r
    }
}

/// The overlay frame for `alerts` at `now_ms`: `None` without alerts; otherwise
/// the alerts take turns in 400 ms slots for the border color, the border
/// blinks every 300 ms when some alert is expired and every 550 ms otherwise.
pub fn overlay_frame(alerts: &[AlertSnapshot], now_ms: u64) -> (r: Option<OverlayFrame>)
    ensures
        r == frame_for(alerts@, now_ms),
{
    if alerts.len() == 0 {
        return None;
    }
    let mut expired = false;
    let mut i: usize = 0;
    while i < alerts.len()
        invariant
            i <= alerts@.len(),
            expired == exists|j: int| 0 <= j < i && (#[trigger] alerts@[j]).phase is Expired,
        decreases alerts@.len() - i,
    {
        match alerts[i].phase {
            AlertPhase::Expired => {
                expired = true;
            },
            AlertPhase::Warning => {},
        }
        i = i + 1;
    }
    let intensity = if expired {
        OverlayIntensity::Expired
    } else {
        OverlayIntensity::Warning
    };
    let color_index = ((now_ms / 400) as usize) % alerts.len();
    let blink_ms: u64 = match intensity {
        OverlayIntensity::Warning => 550,
        OverlayIntensity::Expired => 300,
    };
    Some(
        OverlayFrame {
            color: alerts[color_index].color.clone(),
            visible: (now_ms / blink_ms) % 2 == 0,
            intensity,
        },
    )
}

// ---------------------------------------------------------------------------
// Laws
// ---------------------------------------------------------------------------

/// Every key press keeps a timer's clock within the clock invariant.
pub proof fn lemma_press_keeps_clock_wf(p: TimerProfile, c: TimerClock, now: u64)
    requires
        clock_wf(p, c),
    ensures
        clock_wf(p, press_clock(p, c, now)),
{
}


/// The phase of timer `p` at `now` right after a reset at `now`: running for
/// the whole duration, or warning already when the duration is within the
/// warning time, or expired at once for a zero duration.
pub open spec fn fresh_phase(p: TimerProfile) -> TimerPhase {
    if p.duration_ms == 0 {
        TimerPhase::Expired { overdue_ms: 0 }
    } else if p.duration_ms <= p.warning_before_ms {
        TimerPhase::Warning { remaining_ms: p.duration_ms }
    } else {
        TimerPhase::Running { remaining_ms: p.duration_ms }
    }
}

/// The order in which a timer passes through its phases.
pub open spec fn phase_rank(ph: TimerPhase) -> int {
    match ph {
        TimerPhase::Waiting => 0,
        TimerPhase::Running { .. } => 1,
        TimerPhase::Warning { .. } => 2,
        TimerPhase::Expired { .. } => 3,
    }
}

/// The first press on a timer that has never run resets it.
pub proof fn lemma_first_press_resets(p: TimerProfile, now: u64)
    ensures
        press_resets(p, idle_clock(), now),
        press_clock(p, idle_clock(), now).started_at_ms == Some(now),
{
}

/// A reset at `now` restarts the timer from `now`: at `now` it shows its
/// fresh phase, whatever it showed before.
pub proof fn lemma_reset_restarts_timer(p: TimerProfile, c: TimerClock, now: u64)
    requires
        press_resets(p, c, now),
    ensures
        press_clock(p, c, now).started_at_ms == Some(now),
        phase_at(p, press_clock(p, c, now).started_at_ms, now) == fresh_phase(p),
{
}

/// A press that does not reset the timer leaves its start time alone.
pub proof fn lemma_counted_press_keeps_timer(p: TimerProfile, c: TimerClock, now: u64)
    requires
        !press_resets(p, c, now),
    ensures
        press_clock(p, c, now).started_at_ms == c.started_at_ms,
{
}

/// A cycle left unfinished for the cycle reset time is abandoned: the next
/// press resets the timer whatever the count.
pub proof fn lemma_abandoned_cycle_resets(p: TimerProfile, c: TimerClock, now: u64, cycle_start: u64)
    requires
        c.cycle_started_at_ms == Some(cycle_start),
        sat_add(cycle_start, p.cycle_reset_after_ms) <= now,
    ensures
        press_resets(p, c, now),
{
}

/// While a timer is warning or expired, its next press resets it whatever
/// the count.
pub proof fn lemma_alerting_timer_resets(p: TimerProfile, c: TimerClock, now: u64)
    requires
        is_alert_phase(phase_at(p, c.started_at_ms, now)),
    ensures
        press_resets(p, c, now),
{
}

/// Within a cycle (the count is non-zero, the cycle is not abandoned and the
/// timer is not alerting) a press only counts: no reset, and the count goes
/// up by one, back to zero when the cycle is full.
pub proof fn lemma_press_inside_cycle_counts(p: TimerProfile, c: TimerClock, now: u64)
    requires
        clock_wf(p, c),
        c.cycle_keydowns_seen != 0,
        !cycle_window_elapsed(p, c, now),
        !is_alert_phase(phase_at(p, c.started_at_ms, now)),
    ensures
        !press_resets(p, c, now),
        press_clock(p, c, now).cycle_keydowns_seen == (c.cycle_keydowns_seen + 1) % cycle_len(p),
{
    lemma_count_wraps(c.cycle_keydowns_seen + 1, cycle_len(p));
}

proof fn lemma_count_wraps(i: int, k: int)
    requires
        1 <= i <= k,
    ensures
        i % k == if i == k {
            0
        } else {
            i
        },
{
    if i == k {
        vstd::arithmetic::div_mod::lemma_mod_self_0(k);
    } else {
        vstd::arithmetic::div_mod::lemma_small_mod(i as nat, k as nat);
    }
}

/// The clock and the reset flags after a series of presses at `times`.
pub open spec fn run_presses(p: TimerProfile, c: TimerClock, times: Seq<u64>) -> (
    TimerClock,
    Seq<bool>,
)
    decreases times.len(),
{
    if times.len() == 0 {
        (c, seq![])
    } else {
        let prev = run_presses(p, c, times.drop_last());
        (
            press_clock(p, prev.0, times.last()),
            prev.1.push(press_resets(p, prev.0, times.last())),
        )
    }
}

/// The presses at `times` all fall within the cycle that the first one opens:
/// before the cycle is abandoned and while the restarted timer is not alerting.
pub open spec fn within_one_cycle(p: TimerProfile, times: Seq<u64>) -> bool {
    forall|j: int|
        1 <= j < times.len() ==> {
            &&& #[trigger] times[j] < sat_add(times[0], p.cycle_reset_after_ms)
            &&& !is_alert_phase(phase_at(p, Some(times[0]), times[j]))
        }
}

proof fn lemma_cycle_prefix(p: TimerProfile, c: TimerClock, times: Seq<u64>, i: int)
    requires
        clock_wf(p, c),
        c.cycle_keydowns_seen == 0,
        times.len() == cycle_len(p),
        within_one_cycle(p, times),
        1 <= i <= times.len(),
    ensures
        ({
            let r = run_presses(p, c, times.take(i));
            &&& r.1.len() == i
            &&& r.1[0]
            &&& forall|j: int| 1 <= j < i ==> !#[trigger] r.1[j]
            &&& r.0.started_at_ms == Some(times[0])
            &&& r.0.cycle_keydowns_seen == i % cycle_len(p)
            &&& (i < cycle_len(p) ==> r.0.cycle_started_at_ms == Some(times[0]))
            &&& clock_wf(p, r.0)
        }),
    decreases i,
{
    lemma_count_wraps(i, cycle_len(p));
    if i == 1 {
        assert(times.take(1).drop_last() =~= Seq::<u64>::empty());
        assert(times.take(1).last() == times[0]);
        let r0 = run_presses(p, c, Seq::<u64>::empty());
        assert(r0.0 == c && r0.1 =~= Seq::<bool>::empty());
        let r = run_presses(p, c, times.take(1));
        assert(r.1 == r0.1.push(press_resets(p, c, times[0])));
        assert(r.1.len() == 1);
        lemma_press_keeps_clock_wf(p, c, times[0]);
    } else {
        lemma_cycle_prefix(p, c, times, i - 1);
        lemma_count_wraps(i - 1, cycle_len(p));
        assert(times.take(i).drop_last() =~= times.take(i - 1));
        assert(times.take(i).last() == times[i - 1]);
        let prev = run_presses(p, c, times.take(i - 1));
        let t = times[i - 1];
        assert(t < sat_add(times[0], p.cycle_reset_after_ms));
        assert(!is_alert_phase(phase_at(p, Some(times[0]), t)));
        lemma_press_keeps_clock_wf(p, prev.0, t);
        let r = run_presses(p, c, times.take(i));
        assert(r.1 == prev.1.push(press_resets(p, prev.0, t)));
        assert(r.1.len() == i);
        assert(r.1[0] == prev.1[0]);
        assert forall|j: int| 1 <= j < i implies !#[trigger] r.1[j] by {
            if j < i - 1 {
                assert(r.1[j] == prev.1[j]);
            }
        }
    }
}

/// One cycle of presses: starting with no cycle under way, a series of as
/// many presses as the cycle length, all within the cycle that the first one
/// opens, resets the timer on the first press only, and leaves no cycle under
/// way, so that the press after it resets the timer again.
pub proof fn lemma_one_reset_per_cycle(p: TimerProfile, c: TimerClock, times: Seq<u64>, next: u64)
    requires
        clock_wf(p, c),
        c.cycle_keydowns_seen == 0,
        times.len() == cycle_len(p),
        within_one_cycle(p, times),
    ensures
        run_presses(p, c, times).1.len() == times.len(),
        run_presses(p, c, times).1[0],
        forall|j: int| 1 <= j < times.len() ==> !#[trigger] run_presses(p, c, times).1[j],
        run_presses(p, c, times).0.started_at_ms == Some(times[0]),
        press_resets(p, run_presses(p, c, times).0, next),
{
    lemma_cycle_prefix(p, c, times, times.len() as int);
    assert(times.take(times.len() as int) =~= times);
}

/// Once started, a timer only moves forward through its phases: running,
/// then warning, then expired.
pub proof fn lemma_phase_only_moves_forward(p: TimerProfile, started: u64, t1: u64, t2: u64)
    requires
        t1 <= t2,
    ensures
        phase_rank(phase_at(p, Some(started), t1)) <= phase_rank(phase_at(p, Some(started), t2)),
        phase_rank(phase_at(p, Some(started), t1)) >= 1,
{
}

/// While a started timer runs or warns, the time elapsed since its start and
/// the time remaining add up to its duration; once expired, the overdue time
/// is what has elapsed beyond it.
pub proof fn lemma_phase_accounts_for_time(p: TimerProfile, started: u64, now: u64)
    requires
        started <= now,
    ensures
        match phase_at(p, Some(started), now) {
            TimerPhase::Running { remaining_ms } => (now - started) + remaining_ms == p.duration_ms
                && remaining_ms > p.warning_before_ms,
            TimerPhase::Warning { remaining_ms } => (now - started) + remaining_ms == p.duration_ms
                && remaining_ms <= p.warning_before_ms,
            TimerPhase::Expired { overdue_ms } => (now - started) == p.duration_ms + overdue_ms,
            TimerPhase::Waiting => false,
        },
{
}

/// A key press only touches the timers that listen to its key: every other
/// timer keeps its clock and is not reset.
pub proof fn lemma_press_touches_only_listeners(
    p: TimerProfile,
    c: TimerClock,
    key: Seq<char>,
    now: u64,
)
    requires
        !responds(p, key),
    ensures
        clock_after_key(p, c, key, now) == c,
        !resets_on_key(p, c, key, now),
{
}

/// Disabled timers never listen to any key.
pub proof fn lemma_disabled_timer_ignores_keys(p: TimerProfile, key: Seq<char>)
    requires
        !p.enabled,
    ensures
        !responds(p, key),
{
}

/// The reset events of a key press name each resetting timer once, in
/// profile order: the `k`-th event names the `k`-th timer that resets.
pub proof fn lemma_reset_events_follow_profiles(
    profiles: Seq<TimerProfile>,
    clocks: Seq<TimerClock>,
    key: Seq<char>,
    now: u64,
    n: nat,
)
    requires
        n <= profiles.len(),
        n <= clocks.len(),
    ensures
        reset_ids_upto(profiles, clocks, key, now, n).len() <= n,
        (forall|i: int| 0 <= i < n ==> !#[trigger] resets_on_key(profiles[i], clocks[i], key, now))
            ==> reset_ids_upto(profiles, clocks, key, now, n).len() == 0,
    decreases n,
{
    if n > 0 {
        lemma_reset_events_follow_profiles(profiles, clocks, key, now, (n - 1) as nat);
    }
}

proof fn lemma_idle_alerts_empty(profiles: Seq<TimerProfile>, clocks: Seq<TimerClock>, now: u64, n: nat)
    requires
        n <= profiles.len(),
        n <= clocks.len(),
        forall|i: int| 0 <= i < n ==> #[trigger] clocks[i] == idle_clock(),
    ensures
        alerts_upto(profiles, clocks, now, n).len() == 0,
    decreases n,
{
    if n > 0 {
        lemma_idle_alerts_empty(profiles, clocks, now, (n - 1) as nat);
        assert(clocks[n - 1] == idle_clock());
    }
}

/// An engine whose timers are all idle (as `new` and `replace_profiles`
/// leave it) reports every known timer as waiting and raises no alert.
pub proof fn lemma_idle_engine_waits(e: TimerEngine, id: Seq<char>, now: u64)
    requires
        e.wf(),
        forall|i: int| 0 <= i < e.clocks_view().len() ==> #[trigger] e.clocks_view()[i] == idle_clock(),
    ensures
        e.phase_spec(id, now) is None || e.phase_spec(id, now) == Some(TimerPhase::Waiting),
        e.alerts_spec(now).len() == 0,
{
    let i = first_with_id(e.profiles_view(), id);
    lemma_first_with_id_in_range(e.profiles_view(), id, 0);
    if i >= 0 {
        assert(e.clocks_view()[i] == idle_clock());
    }
    lemma_idle_alerts_empty(e.profiles_view(), e.clocks_view(), now, e.profiles_view().len());
}

proof fn lemma_first_with_id_in_range(profiles: Seq<TimerProfile>, id: Seq<char>, start: int)
    requires
        0 <= start,
    ensures
        first_with_id_from(profiles, id, start) == -1 || (start <= first_with_id_from(
            profiles,
            id,
            start,
        ) < profiles.len() && profiles[first_with_id_from(profiles, id, start)].id@ == id),
    decreases profiles.len() - start,
{
    if start < profiles.len() && profiles[start].id@ != id {
        lemma_first_with_id_in_range(profiles, id, start + 1);
    }
}

/// The overlay shows a frame exactly when some timer alerts, in one of the
/// alerting timers' colors, and with expired intensity exactly when some
/// alert is expired.
pub proof fn lemma_frame_shows_an_alert(alerts: Seq<AlertSnapshot>, now: u64)
    ensures
        frame_for(alerts, now) is Some <==> alerts.len() > 0,
        alerts.len() > 0 ==> exists|i: int|
            0 <= i < alerts.len() && (frame_for(alerts, now)->0).color == (#[trigger] alerts[i]).color,
        alerts.len() > 0 ==> ((frame_for(alerts, now)->0).intensity == OverlayIntensity::Expired
            <==> any_expired(alerts)),
{
    if alerts.len() > 0 {
        let k = color_index(alerts.len(), now);
        assert(0 <= k < alerts.len());
        assert((frame_for(alerts, now)->0).color == alerts[k].color);
    }
}

/// The alerting timers take turns at the border color: 400 ms later the
/// color of the next alert (in order, wrapping around) is shown.
pub proof fn lemma_colors_take_turns(n: nat, now: u64)
    requires
        n > 0,
        now / 400 + 1 <= usize::MAX,
        now + 400 <= u64::MAX,
    ensures
        color_index(n, (now + 400) as u64) == (color_index(n, now) + 1) % (n as int),
{
    assert(((now + 400) as u64) / 400 == now / 400 + 1) by (nonlinear_arith)
        requires
            now + 400 <= u64::MAX,
    ;
    let q = (now / 400) as int;
    assert(((q + 1) as usize) as int == q + 1);
    assert((q as usize) as int == q);
    vstd::arithmetic::div_mod::lemma_add_mod_noop_right(1, q, n as int);
}

/// The border blinks: one blink period later it is on exactly when it was off.
pub proof fn lemma_border_blinks(now: u64, blink: u64)
    requires
        blink > 0,
        now + blink <= u64::MAX,
    ensures
        (((now + blink) as u64 / blink) % 2 == 0) == !((now / blink) % 2 == 0),
{
    assert(((now + blink) as u64) / blink == now / blink + 1) by (nonlinear_arith)
        requires
            blink > 0,
            now + blink <= u64::MAX,
    ;
}

/// A timer raises an alert exactly when it is warning or expired, and the
/// alert carries that timer's identity, the kind of alert and the time of
/// its phase: the remaining time of a warning, the overdue time of an expiry.
pub proof fn lemma_alert_only_from_alerting_phase(p: TimerProfile, ph: TimerPhase)
    ensures
        (alert_for(p, ph) is Some) == (ph is Warning || ph is Expired),
        ph is Waiting ==> alert_for(p, ph) is None,
        ph is Running ==> alert_for(p, ph) is None,
        match (ph, alert_for(p, ph)) {
            (TimerPhase::Warning { remaining_ms }, Some(a)) => {
                &&& a.profile_id == p.id
                &&& a.name == p.name
                &&& a.color == p.color
                &&& a.phase == AlertPhase::Warning
                &&& a.remaining_ms == Some(remaining_ms)
                &&& a.overdue_ms.is_none()
            },
            (TimerPhase::Expired { overdue_ms }, Some(a)) => {
                &&& a.profile_id == p.id
                &&& a.name == p.name
                &&& a.color == p.color
                &&& a.phase == AlertPhase::Expired
                &&& a.remaining_ms.is_none()
                &&& a.overdue_ms == Some(overdue_ms)
            },
            _ => true,
        },
{
}

/// Every alert of the first `n` timers belongs to one of them that is
/// warning or expired at `now`, with that timer's id and color; and when none
/// of them is warning or expired there is no alert at all.
pub proof fn lemma_alerts_come_from_alerting_timers(
    profiles: Seq<TimerProfile>,
    clocks: Seq<TimerClock>,
    now: u64,
    n: nat,
)
    requires
        n <= profiles.len(),
        n <= clocks.len(),
    ensures
        forall|k: int|
            0 <= k < alerts_upto(profiles, clocks, now, n).len() ==> exists|i: int|
                0 <= i < n && is_alert_phase(
                    #[trigger] phase_at(profiles[i], clocks[i].started_at_ms, now),
                ) && profiles[i].id == (#[trigger] alerts_upto(profiles, clocks, now, n)[k]).profile_id
                    && profiles[i].color == alerts_upto(profiles, clocks, now, n)[k].color,
        alerts_upto(profiles, clocks, now, n).len() <= n,
        (forall|i: int|
            0 <= i < n ==> !is_alert_phase(#[trigger] phase_at(profiles[i], clocks[i].started_at_ms, now)))
            ==> alerts_upto(profiles, clocks, now, n).len() == 0,
    decreases n,
{
    if n > 0 {
        let m = (n - 1) as nat;
        lemma_alerts_come_from_alerting_timers(profiles, clocks, now, m);
        let prev = alerts_upto(profiles, clocks, now, m);
        let cur = alerts_upto(profiles, clocks, now, n);
        let ph = phase_at(profiles[m as int], clocks[m as int].started_at_ms, now);
        lemma_alert_only_from_alerting_phase(profiles[m as int], ph);
        assert forall|k: int| 0 <= k < cur.len() implies exists|i: int|
            0 <= i < n && is_alert_phase(#[trigger] phase_at(profiles[i], clocks[i].started_at_ms, now))
                && profiles[i].id == (#[trigger] cur[k]).profile_id && profiles[i].color
                == cur[k].color by {
            if k < prev.len() {
                assert(cur[k] == prev[k]);
                let i = choose|i: int|
                    0 <= i < m && is_alert_phase(
                        #[trigger] phase_at(profiles[i], clocks[i].started_at_ms, now),
                    ) && profiles[i].id == (#[trigger] prev[k]).profile_id && profiles[i].color
                        == prev[k].color;
                assert(0 <= i < n);
            } else {
                assert(is_alert_phase(phase_at(profiles[m as int], clocks[m as int].started_at_ms, now)));
            }
        }
    }
}

/// Every alert that `active_alerts(now)` reports belongs to a timer of the
/// engine that is warning or expired at `now`; an engine with no such timer
/// reports none.
pub proof fn lemma_engine_alerts_come_from_alerting_timers(e: TimerEngine, now: u64)
    requires
        e.wf(),
    ensures
        forall|k: int|
            0 <= k < e.alerts_spec(now).len() ==> exists|i: int|
                0 <= i < e.profiles_view().len() && is_alert_phase(
                    #[trigger] phase_at(e.profiles_view()[i], e.clocks_view()[i].started_at_ms, now),
                ) && e.profiles_view()[i].id == (#[trigger] e.alerts_spec(now)[k]).profile_id,
        (forall|i: int|
            0 <= i < e.profiles_view().len() ==> !is_alert_phase(
                #[trigger] phase_at(e.profiles_view()[i], e.clocks_view()[i].started_at_ms, now),
            )) ==> e.alerts_spec(now).len() == 0,
{
    lemma_alerts_come_from_alerting_timers(
        e.profiles_view(),
        e.clocks_view(),
        now,
        e.profiles_view().len(),
    );
}

/// The overlay frame for a non-empty list of alerts: the border blinks on a
/// 300 ms period when some alert is expired and on a 550 ms period otherwise,
/// shown during even periods; its color is that of the alert in 400 ms slot
/// `now / 400`, counted round the list.
pub proof fn lemma_frame_timing(alerts: Seq<AlertSnapshot>, now: u64)
    requires
        alerts.len() > 0,
    ensures
        frame_for(alerts, now) is Some,
        any_expired(alerts) ==> (frame_for(alerts, now)->0).visible == ((now / 300) % 2 == 0),
        !any_expired(alerts) ==> (frame_for(alerts, now)->0).visible == ((now / 550) % 2 == 0),
        (frame_for(alerts, now)->0).intensity == (if any_expired(alerts) {
            OverlayIntensity::Expired
        } else {
            OverlayIntensity::Warning
        }),
        (frame_for(alerts, now)->0).color == alerts[((now / 400) as usize) as int % (
        alerts.len() as int)].color,
        (exists|i: int| 0 <= i < alerts.len() && (#[trigger] alerts[i]).phase == AlertPhase::Expired)
            <==> any_expired(alerts),
{
}

/// One cycle is `cycle_key_count` presses, and a count of zero still makes
/// a cycle of one press.
pub proof fn lemma_cycle_length(p: TimerProfile)
    ensures
        cycle_len(p) >= 1,
        p.cycle_key_count >= 1 ==> cycle_len(p) == p.cycle_key_count,
        p.cycle_key_count == 0 ==> cycle_len(p) == 1,
{
}

/// A timer that was never started waits; a started one at or past its
/// duration is expired, within its warning time is warning, and otherwise runs.
pub proof fn lemma_phase_by_elapsed_time(p: TimerProfile, started: Option<u64>, now: u64)
    ensures
        started is None ==> phase_at(p, started, now) == TimerPhase::Waiting,
        started is Some ==> {
            let elapsed = if now >= started->0 { now - started->0 } else { 0 };
            &&& elapsed >= p.duration_ms ==> phase_at(p, started, now) == (TimerPhase::Expired {
                overdue_ms: (elapsed - p.duration_ms) as u64,
            })
            &&& (elapsed < p.duration_ms && p.duration_ms - elapsed <= p.warning_before_ms)
                ==> phase_at(p, started, now) == (TimerPhase::Warning {
                remaining_ms: (p.duration_ms - elapsed) as u64,
            })
            &&& (elapsed < p.duration_ms && p.duration_ms - elapsed > p.warning_before_ms)
                ==> phase_at(p, started, now) == (TimerPhase::Running {
                remaining_ms: (p.duration_ms - elapsed) as u64,
            })
        },
{
}

/// A press resets a timer exactly when no cycle is under way, the cycle under
/// way began at least `cycle_reset_after_ms` before (saturating), or the timer
/// is warning or expired; a reset starts the timer and a new cycle at the press.
pub proof fn lemma_press_resets_exactly_when(p: TimerProfile, c: TimerClock, now: u64)
    ensures
        press_resets(p, c, now) <==> (c.cycle_keydowns_seen == 0 || (c.cycle_started_at_ms is Some
            && (if c.cycle_started_at_ms->0 + p.cycle_reset_after_ms > u64::MAX {
            u64::MAX as int
        } else {
            c.cycle_started_at_ms->0 + p.cycle_reset_after_ms
        }) <= now) || phase_at(p, c.started_at_ms, now) is Warning || phase_at(
            p,
            c.started_at_ms,
            now,
        ) is Expired),
        press_resets(p, c, now) ==> press_clock(p, c, now).started_at_ms == Some(now),
        press_resets(p, c, now) && cycle_len(p) > 1 ==> press_clock(p, c, now).cycle_started_at_ms
            == Some(now) && press_clock(p, c, now).cycle_keydowns_seen == 1,
        press_resets(p, c, now) && cycle_len(p) == 1 ==> press_clock(p, c, now).cycle_keydowns_seen
            == 0,
{
}

/// Every timer that is warning or expired at `now` raises an alert: among the
/// alerts of the first `n` timers there is one with its id, color and kind.
pub proof fn lemma_alerting_timers_raise_alerts(
    profiles: Seq<TimerProfile>,
    clocks: Seq<TimerClock>,
    now: u64,
    n: nat,
)
    requires
        n <= profiles.len(),
        n <= clocks.len(),
    ensures
        forall|i: int|
            0 <= i < n && is_alert_phase(#[trigger] phase_at(profiles[i], clocks[i].started_at_ms, now))
                ==> exists|k: int|
                0 <= k < alerts_upto(profiles, clocks, now, n).len() && (#[trigger] alerts_upto(
                    profiles,
                    clocks,
                    now,
                    n,
                )[k]).profile_id == profiles[i].id && alerts_upto(profiles, clocks, now, n)[k].color
                    == profiles[i].color && (alerts_upto(profiles, clocks, now, n)[k].phase
                    == AlertPhase::Expired <==> phase_at(
                    profiles[i],
                    clocks[i].started_at_ms,
                    now,
                ) is Expired),
    decreases n,
{
    if n > 0 {
        let m = (n - 1) as nat;
        lemma_alerting_timers_raise_alerts(profiles, clocks, now, m);
        let prev = alerts_upto(profiles, clocks, now, m);
        let cur = alerts_upto(profiles, clocks, now, n);
        let ph = phase_at(profiles[m as int], clocks[m as int].started_at_ms, now);
        lemma_alert_only_from_alerting_phase(profiles[m as int], ph);
        assert forall|i: int|
            0 <= i < n && is_alert_phase(#[trigger] phase_at(profiles[i], clocks[i].started_at_ms, now))
                implies exists|k: int|
            0 <= k < cur.len() && (#[trigger] cur[k]).profile_id == profiles[i].id && cur[k].color
                == profiles[i].color && (cur[k].phase == AlertPhase::Expired <==> phase_at(
                profiles[i],
                clocks[i].started_at_ms,
                now,
            ) is Expired) by {
            if i < m {
                let k = choose|k: int|
                    0 <= k < prev.len() && (#[trigger] prev[k]).profile_id == profiles[i].id
                        && prev[k].color == profiles[i].color && (prev[k].phase
                        == AlertPhase::Expired <==> phase_at(
                        profiles[i],
                        clocks[i].started_at_ms,
                        now,
                    ) is Expired);
                assert(cur[k] == prev[k]);
            } else {
                assert(cur[prev.len() as int] == alert_for(profiles[m as int], ph)->0);
            }
        }
    }
}

/// Every timer that a key press resets is named by one of the press's reset
/// events.
pub proof fn lemma_resets_are_reported(
    profiles: Seq<TimerProfile>,
    clocks: Seq<TimerClock>,
    key: Seq<char>,
    now: u64,
    n: nat,
)
    requires
        n <= profiles.len(),
        n <= clocks.len(),
    ensures
        forall|i: int|
            0 <= i < n && #[trigger] resets_on_key(profiles[i], clocks[i], key, now) ==> reset_ids_upto(
                profiles,
                clocks,
                key,
                now,
                n,
            ).contains(profiles[i].id@),
    decreases n,
{
    if n > 0 {
        let m = (n - 1) as nat;
        lemma_resets_are_reported(profiles, clocks, key, now, m);
        let prev = reset_ids_upto(profiles, clocks, key, now, m);
        let cur = reset_ids_upto(profiles, clocks, key, now, n);
        assert forall|i: int|
            0 <= i < n && #[trigger] resets_on_key(profiles[i], clocks[i], key, now) implies cur.contains(
            profiles[i].id@,
        ) by {
            if i < m {
                assert(prev.contains(profiles[i].id@));
                let k = choose|k: int| 0 <= k < prev.len() && prev[k] == profiles[i].id@;
                assert(cur[k] == prev[k]);
            } else {
                assert(cur[prev.len() as int] == profiles[i].id@);
            }
        }
    }
}

/// One of the first `n` timers has id `id` and is reset by a press of `key` at `now`.
pub open spec fn is_reset_timer_id(
    profiles: Seq<TimerProfile>,
    clocks: Seq<TimerClock>,
    key: Seq<char>,
    now: u64,
    n: nat,
    id: Seq<char>,
) -> bool {
    exists|i: int|
        0 <= i < n && #[trigger] resets_on_key(profiles[i], clocks[i], key, now) && profiles[i].id@
            == id
}

/// Every reset event of a key press names a timer that the press resets.
pub proof fn lemma_reported_timers_were_reset(
    profiles: Seq<TimerProfile>,
    clocks: Seq<TimerClock>,
    key: Seq<char>,
    now: u64,
    n: nat,
)
    requires
        n <= profiles.len(),
        n <= clocks.len(),
    ensures
        forall|k: int|
            0 <= k < reset_ids_upto(profiles, clocks, key, now, n).len() ==> is_reset_timer_id(
                profiles,
                clocks,
                key,
                now,
                n,
                #[trigger] reset_ids_upto(profiles, clocks, key, now, n)[k],
            ),
    decreases n,
{
    if n > 0 {
        let m = (n - 1) as nat;
        lemma_reported_timers_were_reset(profiles, clocks, key, now, m);
        let prev = reset_ids_upto(profiles, clocks, key, now, m);
        let cur = reset_ids_upto(profiles, clocks, key, now, n);
        assert forall|k: int| 0 <= k < cur.len() implies is_reset_timer_id(
            profiles,
            clocks,
            key,
            now,
            n,
            #[trigger] cur[k],
        ) by {
            if k < prev.len() {
                assert(cur[k] == prev[k]);
                assert(is_reset_timer_id(profiles, clocks, key, now, m, prev[k]));
                let i = choose|i: int|
                    0 <= i < m && #[trigger] resets_on_key(profiles[i], clocks[i], key, now)
                        && profiles[i].id@ == prev[k];
                assert(resets_on_key(profiles[i], clocks[i], key, now));
            } else {
                assert(resets_on_key(profiles[m as int], clocks[m as int], key, now));
            }
        }
    }
}

/// The ids that a list of reset events names are the ids it carries, in order.
pub proof fn lemma_event_ids_are_profile_ids(events: Seq<TimerEvent>)
    ensures
        event_ids(events).len() == events.len(),
        forall|k: int|
            0 <= k < events.len() ==> (#[trigger] events[k] matches TimerEvent::Reset { profile_id }
                && event_ids(events)[k] == profile_id@),
{
}

proof fn lemma_first_with_id_is_first(profiles: Seq<TimerProfile>, id: Seq<char>, start: int)
    requires
        0 <= start,
    ensures
        forall|j: int|
            start <= j < profiles.len() && (first_with_id_from(profiles, id, start) == -1 || j
                < first_with_id_from(profiles, id, start)) ==> (#[trigger] profiles[j]).id@ != id,
    decreases profiles.len() - start,
{
    if start < profiles.len() && profiles[start].id@ != id {
        lemma_first_with_id_is_first(profiles, id, start + 1);
    }
}

/// `phase(id, now)` reports on the first timer with id `id`: the phase of
/// that timer at `now`, or nothing when no timer has that id.
pub proof fn lemma_phase_reports_first_timer_with_id(e: TimerEngine, id: Seq<char>, now: u64)
    requires
        e.wf(),
    ensures
        e.phase_spec(id, now) is None <==> forall|j: int|
            0 <= j < e.profiles_view().len() ==> (#[trigger] e.profiles_view()[j]).id@ != id,
        e.phase_spec(id, now) is Some ==> exists|i: int|
            0 <= i < e.profiles_view().len() && (#[trigger] e.profiles_view()[i]).id@ == id && (
            forall|j: int| 0 <= j < i ==> (#[trigger] e.profiles_view()[j]).id@ != id)
                && e.phase_spec(id, now) == Some(
                phase_at(e.profiles_view()[i], e.clocks_view()[i].started_at_ms, now),
            ),
{
    lemma_first_with_id_in_range(e.profiles_view(), id, 0);
    lemma_first_with_id_is_first(e.profiles_view(), id, 0);
    let i = first_with_id(e.profiles_view(), id);
    if i >= 0 {
        assert(e.profiles_view()[i].id@ == id);
    }
}
} // verus!
