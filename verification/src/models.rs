//! The settings model (skill profiles and overlay options), its validation,
//! its conversion to engine profiles, and the views handed to the front end.

use vstd::prelude::*;

use crate::text::{chars_of, is_blank, keys_match, trim};
use crate::timer_engine::{
    responds, cycle_len, first_with_id_from, fresh_phase, AlertPhase, AlertSnapshot, OverlayFrame,
    OverlayIntensity, TimerEngine, TimerPhase, TimerProfile, CYCLE_RESET_AFTER_MS,
};

verus! {

/// Everything the user configures.
#[derive(Debug, Clone)]
pub struct AppSettings {
    pub profiles: Vec<SkillProfile>,
    pub overlay: OverlaySettings,
}

#[derive(Debug, Clone)]
pub struct OverlaySettings {
    pub border_thickness_px: u16,
}

/// One skill timer as the user configures it (times in seconds).
#[derive(Debug, Clone)]
pub struct SkillProfile {
    pub id: String,
    pub name: String,
    pub key: String,
    pub duration_seconds: u64,
    pub warning_before_seconds: u64,
    pub color: String,
    pub cycle_key_count: u8,
    pub enabled: bool,
}

/// One timer's state as the front end shows it.
#[derive(Debug, Clone)]
pub struct TimerSnapshot {
    pub profile_id: String,
    pub name: String,
    pub color: String,
    pub phase: String,
    pub warning_before_ms: u64,
    pub remaining_ms: Option<u64>,
    pub overdue_ms: Option<u64>,
}

/// The overlay border as the overlay window draws it.
#[derive(Debug, Clone)]
pub struct OverlayFramePayload {
    pub active: bool,
    pub color: String,
    pub visible: bool,
    pub intensity: String,
    pub border_thickness_px: u16,
    pub alerts: Vec<OverlayAlertPayload>,
}

#[derive(Debug, Clone)]
pub struct OverlayAlertPayload {
    pub profile_id: String,
    pub name: String,
    pub color: String,
    pub phase: String,
}

// ---------------------------------------------------------------------------
// Model
// ---------------------------------------------------------------------------

pub open spec fn is_ascii_hex(c: char) -> bool {
    ||| ('0' <= c && c <= '9')
    ||| ('a' <= c && c <= 'f')
    ||| ('A' <= c && c <= 'F')
}

/// `#RRGGBB`: a `#` and six ASCII hex digits.
pub open spec fn is_hex_color(s: Seq<char>) -> bool {
    &&& s.len() == 7
    &&& s[0] == '#'
    &&& forall|i: int| 1 <= i < 7 ==> is_ascii_hex(#[trigger] s[i])
}

pub open spec fn border_error_message() -> Seq<char> {
    "테두리 두께는 2-32px 사이여야 합니다."@
}

/// The first rule that profile `p` breaks, as the message shown for it.
pub open spec fn profile_error(p: SkillProfile) -> Option<Seq<char>> {
    if trim(p.id@).len() == 0 {
        Some("프로필 ID가 비어 있습니다."@)
    } else if trim(p.name@).len() == 0 {
        Some("프로필 이름이 비어 있습니다."@)
    } else if p.enabled && trim(p.key@).len() == 0 {
        Some(p.name@ + " 프로필의 키가 비어 있습니다."@)
    } else if p.duration_seconds < 5 || p.duration_seconds > 3600 {
        Some(p.name@ + " 타이머는 5-3600초 사이여야 합니다."@)
    } else if p.warning_before_seconds >= p.duration_seconds {
        Some(p.name@ + " 점멸 시작 시간은 타이머 시간보다 작아야 합니다."@)
    } else if p.cycle_key_count == 0 || p.cycle_key_count > 10 {
        Some(p.name@ + " 한 사이클 키 입력 수는 1-10 사이여야 합니다."@)
    } else if !is_hex_color(p.color@) {
        Some(p.name@ + " 색상은 #RRGGBB 형식이어야 합니다."@)
    } else {
        None
    }
}

/// The error of the first profile at or after `start` that breaks a rule.
pub open spec fn first_profile_error(ps: Seq<SkillProfile>, start: int) -> Option<Seq<char>>
    decreases ps.len() - start,
{
    if start < 0 || start >= ps.len() {
        None
    } else {
        match profile_error(ps[start]) {
            Some(m) => Some(m),
            None => first_profile_error(ps, start + 1),
        }
    }
}

/// The error that `validate` reports for `s`, if any: the border thickness is
/// checked first, then the profiles in order.
pub open spec fn settings_error(s: AppSettings) -> Option<Seq<char>> {
    if s.overlay.border_thickness_px < 2 || s.overlay.border_thickness_px > 32 {
        Some(border_error_message())
    } else {
        first_profile_error(s.profiles@, 0)
    }
}

/// `x * 1000`, or `u64::MAX` where that overflows.
pub open spec fn millis_of(seconds: u64) -> u64 {
    if seconds * 1000 > u64::MAX {
        u64::MAX
    } else {
        (seconds * 1000) as u64
    }
}

/// The engine profile for settings profile `p`.
pub open spec fn timer_profile_of(p: SkillProfile) -> TimerProfile {
    TimerProfile {
        id: p.id,
        name: p.name,
        key: p.key,
        duration_ms: millis_of(p.duration_seconds),
        warning_before_ms: millis_of(p.warning_before_seconds),
        color: p.color,
        cycle_key_count: p.cycle_key_count,
        cycle_reset_after_ms: CYCLE_RESET_AFTER_MS,
        enabled: p.enabled,
    }
}

/// The name under which the front end knows phase `ph`.
pub open spec fn phase_name(ph: TimerPhase) -> Seq<char> {
    match ph {
        TimerPhase::Waiting => "waiting"@,
        TimerPhase::Running { .. } => "running"@,
        TimerPhase::Warning { .. } => "warning"@,
        TimerPhase::Expired { .. } => "expired"@,
    }
}

pub open spec fn remaining_of(ph: TimerPhase) -> Option<u64> {
    match ph {
        TimerPhase::Running { remaining_ms } => Some(remaining_ms),
        TimerPhase::Warning { remaining_ms } => Some(remaining_ms),
        _ => None,
    }
}

pub open spec fn overdue_of(ph: TimerPhase) -> Option<u64> {
    match ph {
        TimerPhase::Expired { overdue_ms } => Some(overdue_ms),
        _ => None,
    }
}

/// `s` shows timer `p` in phase `ph`.
pub open spec fn is_snapshot_of(s: TimerSnapshot, p: TimerProfile, ph: TimerPhase) -> bool {
    &&& s.profile_id == p.id
    &&& s.name == p.name
    &&& s.color == p.color
    &&& s.phase@ == phase_name(ph)
    &&& s.warning_before_ms == p.warning_before_ms
    &&& s.remaining_ms == remaining_of(ph)
    &&& s.overdue_ms == overdue_of(ph)
}

pub open spec fn alert_phase_name(ph: AlertPhase) -> Seq<char> {
    match ph {
        AlertPhase::Warning => "warning"@,
        AlertPhase::Expired => "expired"@,
    }
}

/// `r` is the payload the overlay gets for alert `a`.
pub open spec fn is_payload_of(r: OverlayAlertPayload, a: AlertSnapshot) -> bool {
    &&& r.profile_id == a.profile_id
    &&& r.name == a.name
    &&& r.color == a.color
    &&& r.phase@ == alert_phase_name(a.phase)
}

/// `r` is the payload for each alert of `alerts`, in order.
pub open spec fn are_payloads_of(r: Seq<OverlayAlertPayload>, alerts: Seq<AlertSnapshot>) -> bool {
    &&& r.len() == alerts.len()
    &&& forall|i: int| 0 <= i < r.len() ==> is_payload_of(#[trigger] r[i], alerts[i])
}

pub open spec fn intensity_name(i: OverlayIntensity) -> Seq<char> {
    match i {
        OverlayIntensity::Warning => "warning"@,
        OverlayIntensity::Expired => "expired"@,
    }
}

// ---------------------------------------------------------------------------
// Implementation
// ---------------------------------------------------------------------------

fn is_ascii_hex_char(c: char) -> (r: bool)
    ensures
        r == is_ascii_hex(c),
{
    ('0' <= c && c <= '9') || ('a' <= c && c <= 'f') || ('A' <= c && c <= 'F')
}

fn is_hex_color_str(s: &str) -> (r: bool)
    ensures
        r == is_hex_color(s@),
{
    let c = chars_of(s);
    if c.len() != 7 || c[0] != '#' {
        return false;
    }
    let mut i: usize = 1;
    while i < 7
        invariant
            c@ == s@,
            c@.len() == 7,
            1 <= i <= 7,
            forall|j: int| 1 <= j < i ==> is_ascii_hex(#[trigger] c@[j]),
        decreases 7 - i,
    {
        if !is_ascii_hex_char(c[i]) {
            return false;
        }
        i = i + 1;
    }
    true
}

fn millis(seconds: u64) -> (r: u64)
    ensures
        r == millis_of(seconds),
{
    match seconds.checked_mul(1000) {
        Some(v) => v,
        None => u64::MAX,
    }
}

impl SkillProfile {
    /// Checks the rules of one profile, in order, and reports the first broken one.
    fn validate(&self) -> (r: Result<(), String>)
        ensures
            match r {
                Ok(()) => profile_error(*self) is None,
                Err(m) => profile_error(*self) == Some(m@),
            },
    {
        if is_blank(self.id.as_str()) {
            return Err(String::from_str("프로필 ID가 비어 있습니다."));
        }
        if is_blank(self.name.as_str()) {
            return Err(String::from_str("프로필 이름이 비어 있습니다."));
        }
        if self.enabled && is_blank(self.key.as_str()) {
            return Err(self.name.clone().concat(" 프로필의 키가 비어 있습니다."));
        }
        if self.duration_seconds < 5 || self.duration_seconds > 3600 {
            return Err(self.name.clone().concat(" 타이머는 5-3600초 사이여야 합니다."));
        }
        if self.warning_before_seconds >= self.duration_seconds {
            return Err(self.name.clone().concat(" 점멸 시작 시간은 타이머 시간보다 작아야 합니다."));
        }
        if self.cycle_key_count == 0 || self.cycle_key_count > 10 {
            return Err(self.name.clone().concat(" 한 사이클 키 입력 수는 1-10 사이여야 합니다."));
        }
        if !is_hex_color_str(self.color.as_str()) {
            return Err(self.name.clone().concat(" 색상은 #RRGGBB 형식이어야 합니다."));
        }
        Ok(())
    }

    /// The engine profile for this profile: times in milliseconds (saturating),
    /// unfinished key cycles abandoned after `CYCLE_RESET_AFTER_MS`.
    pub fn to_timer_profile(&self) -> (r: TimerProfile)
        ensures
            r == timer_profile_of(*self),
    {
        TimerProfile {
            id: self.id.clone(),
            name: self.name.clone(),
            key: self.key.clone(),
            duration_ms: millis(self.duration_seconds),
            warning_before_ms: millis(self.warning_before_seconds),
            color: self.color.clone(),
            cycle_key_count: self.cycle_key_count,
            cycle_reset_after_ms: CYCLE_RESET_AFTER_MS,
            enabled: self.enabled,
        }
    }
}

impl AppSettings {
    /// `Ok` when the border thickness is within 2..=32 px and every profile
    /// keeps its rules; otherwise the message of the first broken rule.
    pub fn validate(&self) -> (r: Result<(), String>)
        ensures
            match r {
                Ok(()) => settings_error(*self) is None,
                Err(m) => settings_error(*self) == Some(m@),
            },
    {
        if self.overlay.border_thickness_px < 2 || self.overlay.border_thickness_px > 32 {
            return Err(String::from_str("테두리 두께는 2-32px 사이여야 합니다."));
        }
        let n = self.profiles.len();
        let mut i: usize = 0;
        while i < n
            invariant
                n == self.profiles@.len(),
                i <= n,
                2 <= self.overlay.border_thickness_px <= 32,
                first_profile_error(self.profiles@, 0) == first_profile_error(
                    self.profiles@,
                    i as int,
                ),
            decreases n - i,
        {
            match self.profiles[i].validate() {
                Err(m) => {
                    assert(first_profile_error(self.profiles@, i as int) == Some(m@));
                    return Err(m);
                },
                Ok(()) => {},
            }
            i = i + 1;
        }
        Ok(())
    }

    /// The engine profiles, one per settings profile, in order.
    pub fn to_timer_profiles(&self) -> (r: Vec<TimerProfile>)
        ensures
            r@.len() == self.profiles@.len(),
            forall|i: int| 0 <= i < r@.len() ==> #[trigger] r@[i] == timer_profile_of(self.profiles@[i]),
    {
        let mut r: Vec<TimerProfile> = Vec::new();
        let mut i: usize = 0;
        while i < self.profiles.len()
            invariant
                i <= self.profiles@.len(),
                r@.len() == i,
                forall|j: int| 0 <= j < i ==> #[trigger] r@[j] == timer_profile_of(self.profiles@[j]),
            decreases self.profiles@.len() - i,
        {
            r.push(self.profiles[i].to_timer_profile());
            i = i + 1;
        }
        r
    }
}

impl Default for AppSettings {
    /// One enabled profile for Janus (key `]`, 120 s timer, warning 5 s before,
    /// red, three presses per cycle) and an 8 px border.
    fn default() -> (r: Self)
        ensures
            r.profiles@.len() == 1,
            r.profiles@[0].id@ == "janus"@,
            r.profiles@[0].name@ == "야누스"@,
            r.profiles@[0].key@ == "]"@,
            r.profiles@[0].duration_seconds == 120,
            r.profiles@[0].warning_before_seconds == 5,
            r.profiles@[0].color@ == "#ff3344"@,
            r.profiles@[0].cycle_key_count == 3,
            r.profiles@[0].enabled,
            r.overlay.border_thickness_px == 8,
    {
        AppSettings {
            profiles: vec![
                SkillProfile {
                    id: String::from_str("janus"),
                    name: String::from_str("야누스"),
                    key: String::from_str("]"),
                    duration_seconds: 120,
                    warning_before_seconds: 5,
                    color: String::from_str("#ff3344"),
                    cycle_key_count: 3,
                    enabled: true,
                },
            ],
            overlay: OverlaySettings { border_thickness_px: 8 },
        }
    }
}

/// The front-end view of timer `profile` in phase `phase`.
pub fn snapshot_from_phase(profile: &TimerProfile, phase: TimerPhase) -> (r: TimerSnapshot)
    ensures
        is_snapshot_of(r, *profile, phase),
{
    match phase {
        TimerPhase::Waiting => TimerSnapshot {
            profile_id: profile.id.clone(),
            name: profile.name.clone(),
            color: profile.color.clone(),
            phase: String::from_str("waiting"),
            warning_before_ms: profile.warning_before_ms,
            remaining_ms: None,
            overdue_ms: None,
        },
        TimerPhase::Running { remaining_ms } => TimerSnapshot {
            profile_id: profile.id.clone(),
            name: profile.name.clone(),
            color: profile.color.clone(),
            phase: String::from_str("running"),
            warning_before_ms: profile.warning_before_ms,
            remaining_ms: Some(remaining_ms),
            overdue_ms: None,
        },
        TimerPhase::Warning { remaining_ms } => TimerSnapshot {
            profile_id: profile.id.clone(),
            name: profile.name.clone(),
            color: profile.color.clone(),
            phase: String::from_str("warning"),
            warning_before_ms: profile.warning_before_ms,
            remaining_ms: Some(remaining_ms),
            overdue_ms: None,
        },
        TimerPhase::Expired { overdue_ms } => TimerSnapshot {
            profile_id: profile.id.clone(),
            name: profile.name.clone(),
            color: profile.color.clone(),
            phase: String::from_str("expired"),
            warning_before_ms: profile.warning_before_ms,
            remaining_ms: None,
            overdue_ms: Some(overdue_ms),
        },
    }
}

/// The overlay payload of each alert, in order.
pub fn alert_payloads(alerts: &[AlertSnapshot]) -> (r: Vec<OverlayAlertPayload>)
    ensures
        are_payloads_of(r@, alerts@),
{
    let mut r: Vec<OverlayAlertPayload> = Vec::new();
    let mut i: usize = 0;
    while i < alerts.len()
        invariant
            i <= alerts@.len(),
            r@.len() == i,
            forall|j: int| 0 <= j < i ==> is_payload_of(#[trigger] r@[j], alerts@[j]),
        decreases alerts@.len() - i,
    {
        let alert = &alerts[i];
        let phase = match alert.phase {
            AlertPhase::Warning => String::from_str("warning"),
            AlertPhase::Expired => String::from_str("expired"),
        };
        r.push(
            OverlayAlertPayload {
                profile_id: alert.profile_id.clone(),
                name: alert.name.clone(),
                color: alert.color.clone(),
                phase,
            },
        );
        i = i + 1;
    }
    r
}

proof fn lemma_first_with_id_found(profiles: Seq<TimerProfile>, start: int, i: int)
    requires
        0 <= start <= i < profiles.len(),
    ensures
        start <= first_with_id_from(profiles, profiles[i].id@, start) <= i,
    decreases i - start,
{
    if profiles[start].id@ != profiles[i].id@ {
        lemma_first_with_id_found(profiles, start + 1, i);
    }
}

/// `s` shows timer `p` in the phase that `engine` reports for `p`'s id at `now`.
pub open spec fn shows_engine_phase(engine: TimerEngine, s: TimerSnapshot, p: TimerProfile, now: u64) -> bool {
    match engine.phase_spec(p.id@, now) {
        Some(ph) => is_snapshot_of(s, p, ph),
        None => false,
    }
}

/// The front-end view of every timer at `now_ms`, in profile order; each is
/// shown in the phase that `phase` reports for its id.
pub fn timer_snapshots(engine: &TimerEngine, now_ms: u64) -> (r: Vec<TimerSnapshot>)
    requires
        engine.wf(),
    ensures
        r@.len() == engine.profiles_view().len(),
        forall|i: int|
            0 <= i < r@.len() ==> shows_engine_phase(
                *engine,
                #[trigger] r@[i],
                engine.profiles_view()[i],
                now_ms,
            ),
{
    let profiles = engine.profiles();
    let mut r: Vec<TimerSnapshot> = Vec::new();
    let mut i: usize = 0;
    while i < profiles.len()
        invariant
            engine.wf(),
            profiles@ == engine.profiles_view(),
            i <= profiles@.len(),
            r@.len() == i,
            forall|j: int|
                0 <= j < i ==> shows_engine_phase(*engine, #[trigger] r@[j], profiles@[j], now_ms),
        decreases profiles@.len() - i,
    {
        proof {
            lemma_first_with_id_found(profiles@, 0, i as int);
        }
        match engine.phase(profiles[i].id.as_str(), now_ms) {
            Some(phase) => {
                let s = snapshot_from_phase(&profiles[i], phase);
                r.push(s);
            },
            None => {
                assert(false);
            },
        }
        i = i + 1;
    }
    r
}

/// What the overlay window gets for `frame`: nothing without a frame; otherwise
/// an active payload with the frame's color, visibility and intensity name,
/// the configured border thickness and the payloads of `alerts`.
pub fn overlay_payload(
    frame: Option<OverlayFrame>,
    border_thickness_px: u16,
    alerts: &[AlertSnapshot],
) -> (r: Option<OverlayFramePayload>)
    ensures
        match frame {
            None => r is None,
            Some(f) => r matches Some(p) && {
                &&& p.active
                &&& p.color == f.color
                &&& p.visible == f.visible
                &&& p.intensity@ == intensity_name(f.intensity)
                &&& p.border_thickness_px == border_thickness_px
                &&& are_payloads_of(p.alerts@, alerts@)
            },
        },
{
    match frame {
        None => None,
        Some(f) => {
            let intensity = match f.intensity {
                OverlayIntensity::Warning => String::from_str("warning"),
                OverlayIntensity::Expired => String::from_str("expired"),
            };
            Some(
                OverlayFramePayload {
                    active: true,
                    color: f.color,
                    visible: f.visible,
                    intensity,
                    border_thickness_px,
                    alerts: alert_payloads(alerts),
                },
            )
        },
    }
}

/// What the overlay window gets when nothing alerts: an inactive, invisible,
/// transparent frame with no border and no alerts.
pub fn inactive_overlay_payload() -> (r: OverlayFramePayload)
    ensures
        !r.active,
        r.color@ == "transparent"@,
        !r.visible,
        r.intensity@ == "none"@,
        r.border_thickness_px == 0,
        r.alerts@.len() == 0,
{
    OverlayFramePayload {
        active: false,
        color: String::from_str("transparent"),
        visible: false,
        intensity: String::from_str("none"),
        border_thickness_px: 0,
        alerts: Vec::new(),
    }
}

// ---------------------------------------------------------------------------
// Laws
// ---------------------------------------------------------------------------

proof fn lemma_no_error_from(ps: Seq<SkillProfile>, start: int, i: int)
    requires
        0 <= start <= i < ps.len(),
        first_profile_error(ps, start) is None,
    ensures
        profile_error(ps[i]) is None,
    decreases i - start,
{
    if start < i {
        lemma_no_error_from(ps, start + 1, i);
    }
}

/// Settings that pass validation have a border of 2..=32 px and only
/// profiles that keep every rule.
pub proof fn lemma_valid_settings_have_valid_profiles(s: AppSettings)
    requires
        settings_error(s) is None,
    ensures
        2 <= s.overlay.border_thickness_px <= 32,
        forall|i: int| 0 <= i < s.profiles@.len() ==> profile_error(#[trigger] s.profiles@[i]) is None,
{
    assert forall|i: int| 0 <= i < s.profiles@.len() implies profile_error(
        #[trigger] s.profiles@[i],
    ) is None by {
        lemma_no_error_from(s.profiles@, 0, i);
    }
}

/// A profile that keeps every rule becomes an engine profile with its times
/// in exact milliseconds and one to ten presses per cycle, whose timer, once
/// reset, runs for its whole duration before it warns.
pub proof fn lemma_valid_profile_runs_after_reset(p: SkillProfile)
    requires
        profile_error(p) is None,
    ensures
        timer_profile_of(p).duration_ms == p.duration_seconds * 1000,
        timer_profile_of(p).warning_before_ms == p.warning_before_seconds * 1000,
        timer_profile_of(p).warning_before_ms < timer_profile_of(p).duration_ms,
        1 <= cycle_len(timer_profile_of(p)) <= 10,
        fresh_phase(timer_profile_of(p)) == (TimerPhase::Running {
            remaining_ms: (p.duration_seconds * 1000) as u64,
        }),
{
}

/// Settings with the values of `AppSettings::default()` pass validation.
pub proof fn lemma_default_settings_are_valid(s: AppSettings)
    requires
        s.profiles@.len() == 1,
        s.profiles@[0].id@ == "janus"@,
        s.profiles@[0].name@ == "야누스"@,
        s.profiles@[0].key@ == "]"@,
        s.profiles@[0].duration_seconds == 120,
        s.profiles@[0].warning_before_seconds == 5,
        s.profiles@[0].color@ == "#ff3344"@,
        s.profiles@[0].cycle_key_count == 3,
        s.profiles@[0].enabled,
        s.overlay.border_thickness_px == 8,
    ensures
        settings_error(s) is None,
{
    reveal_strlit("janus");
    reveal_strlit("야누스");
    reveal_strlit("]");
    reveal_strlit("#ff3344");
    let p = s.profiles@[0];
    assert(!crate::text::is_white_space(p.id@[0]));
    assert(trim(p.id@).len() > 0) by {
        crate::text::lemma_trim_keeps_non_white_space(p.id@, 0);
    }
    assert(trim(p.name@).len() > 0) by {
        crate::text::lemma_trim_keeps_non_white_space(p.name@, 0);
    }
    assert(trim(p.key@).len() > 0) by {
        crate::text::lemma_trim_keeps_non_white_space(p.key@, 0);
    }
    assert(is_hex_color(p.color@));
    assert(profile_error(p) is None);
    assert(first_profile_error(s.profiles@, 1) is None);
}

/// A snapshot shows the time of its timer's phase: a running or warning
/// timer its remaining time (and no overdue time), an expired timer its
/// overdue time (and no remaining time), a waiting timer neither; and it
/// names the phase.
pub proof fn lemma_snapshot_carries_phase_time(s: TimerSnapshot, p: TimerProfile, ph: TimerPhase)
    requires
        is_snapshot_of(s, p, ph),
    ensures
        s.profile_id == p.id,
        s.warning_before_ms == p.warning_before_ms,
        match ph {
            TimerPhase::Waiting => s.remaining_ms.is_none() && s.overdue_ms.is_none() && s.phase@
                == "waiting"@,
            TimerPhase::Running { remaining_ms } => s.remaining_ms == Some(remaining_ms)
                && s.overdue_ms.is_none() && s.phase@ == "running"@,
            TimerPhase::Warning { remaining_ms } => s.remaining_ms == Some(remaining_ms)
                && s.overdue_ms.is_none() && s.phase@ == "warning"@,
            TimerPhase::Expired { overdue_ms } => s.remaining_ms.is_none() && s.overdue_ms == Some(
                overdue_ms,
            ) && s.phase@ == "expired"@,
        },
{
}

/// Converting a settings profile keeps what the user set: identity, name,
/// key, color, cycle count and on/off switch; times become milliseconds,
/// exact where they fit and `u64::MAX` where they do not. A profile switched
/// off in the settings listens to no key in the engine.
pub proof fn lemma_conversion_keeps_settings(p: SkillProfile, key: Seq<char>)
    ensures
        timer_profile_of(p).id == p.id,
        timer_profile_of(p).name == p.name,
        timer_profile_of(p).key == p.key,
        timer_profile_of(p).color == p.color,
        timer_profile_of(p).cycle_key_count == p.cycle_key_count,
        timer_profile_of(p).enabled == p.enabled,
        timer_profile_of(p).cycle_reset_after_ms == 30_000,
        p.duration_seconds * 1000 <= u64::MAX ==> timer_profile_of(p).duration_ms
            == p.duration_seconds * 1000,
        p.duration_seconds * 1000 > u64::MAX ==> timer_profile_of(p).duration_ms == u64::MAX,
        p.warning_before_seconds * 1000 <= u64::MAX ==> timer_profile_of(p).warning_before_ms
            == p.warning_before_seconds * 1000,
        p.warning_before_seconds * 1000 > u64::MAX ==> timer_profile_of(p).warning_before_ms
            == u64::MAX,
        !p.enabled ==> !responds(timer_profile_of(p), key),
        p.enabled ==> (responds(timer_profile_of(p), key) <==> keys_match(p.key@, key)),
{
}

/// The hex digits are exactly the characters `0`-`9`, `a`-`f` and `A`-`F`
/// (by code point: 48-57, 97-102, 65-70).
pub proof fn lemma_hex_digits(c: char)
    ensures
        is_ascii_hex(c) <==> ((48 <= c as u32 <= 57) || (97 <= c as u32 <= 102) || (65 <= c as u32
            <= 70)),
{
}

/// Every `#RRGGBB` color (a `#` followed by six characters from `0`-`9`,
/// `a`-`f`, `A`-`F`) is accepted, and a profile that keeps the other rules
/// and has such a color passes validation.
pub proof fn lemma_hex_colors_accepted(p: SkillProfile)
    requires
        p.color@.len() == 7,
        p.color@[0] == '#',
        forall|i: int|
            1 <= i < 7 ==> {
                let c = #[trigger] p.color@[i];
                ('0' <= c <= '9') || ('a' <= c <= 'f') || ('A' <= c <= 'F')
            },
        trim(p.id@).len() > 0,
        trim(p.name@).len() > 0,
        !p.enabled || trim(p.key@).len() > 0,
        5 <= p.duration_seconds <= 3600,
        p.warning_before_seconds < p.duration_seconds,
        1 <= p.cycle_key_count <= 10,
    ensures
        is_hex_color(p.color@),
        profile_error(p) is None,
{
    assert forall|i: int| 1 <= i < 7 implies is_ascii_hex(#[trigger] p.color@[i]) by {
        lemma_hex_digits(p.color@[i]);
    }
}

/// Validation accepts a profile exactly when its id and name are not blank,
/// its key is not blank when it is enabled, its timer is 5-3600 s, its warning
/// time is shorter than its timer, its cycle is 1-10 presses and its color is
/// `#` and six characters from `0`-`9`, `a`-`f`, `A`-`F`.
pub proof fn lemma_profile_rules(p: SkillProfile)
    ensures
        (profile_error(p) is None) <==> ({
            &&& trim(p.id@).len() > 0
            &&& trim(p.name@).len() > 0
            &&& (!p.enabled || trim(p.key@).len() > 0)
            &&& 5 <= p.duration_seconds <= 3600
            &&& p.warning_before_seconds < p.duration_seconds
            &&& 1 <= p.cycle_key_count <= 10
            &&& p.color@.len() == 7
            &&& p.color@[0] == '#'
            &&& forall|i: int|
                1 <= i < 7 ==> {
                    let c = #[trigger] p.color@[i];
                    ('0' <= c <= '9') || ('a' <= c <= 'f') || ('A' <= c <= 'F')
                }
        }),
{
    assert forall|i: int| 1 <= i < 7 && i < p.color@.len() implies (is_ascii_hex(
        #[trigger] p.color@[i],
    ) <==> {
        let c = p.color@[i];
        ('0' <= c <= '9') || ('a' <= c <= 'f') || ('A' <= c <= 'F')
    }) by {
        lemma_hex_digits(p.color@[i]);
    }
}

/// Settings with a border outside 2..=32 px are refused with the border
/// message whatever their profiles; otherwise the first profile that breaks a
/// rule decides, and settings whose profiles all keep the rules are accepted.
pub proof fn lemma_settings_rules(s: AppSettings)
    ensures
        (s.overlay.border_thickness_px < 2 || s.overlay.border_thickness_px > 32) ==> settings_error(s)
            == Some("테두리 두께는 2-32px 사이여야 합니다."@),
        (2 <= s.overlay.border_thickness_px <= 32 && forall|i: int|
            0 <= i < s.profiles@.len() ==> profile_error(#[trigger] s.profiles@[i]) is None)
            ==> settings_error(s) is None,
{
    if 2 <= s.overlay.border_thickness_px <= 32 && forall|i: int|
        0 <= i < s.profiles@.len() ==> profile_error(#[trigger] s.profiles@[i]) is None {
        lemma_all_valid_no_error(s.profiles@, 0);
    }
}

proof fn lemma_all_valid_no_error(ps: Seq<SkillProfile>, start: int)
    requires
        0 <= start,
        forall|i: int| 0 <= i < ps.len() ==> profile_error(#[trigger] ps[i]) is None,
    ensures
        first_profile_error(ps, start) is None,
    decreases ps.len() - start,
{
    if start < ps.len() {
        assert(profile_error(ps[start]) is None);
        lemma_all_valid_no_error(ps, start + 1);
    }
}

/// The overlay learns each alert's phase by name: `warning` for a warning,
/// `expired` for an expired timer, with its id, name and color; and an overlay
/// payload names the frame's intensity the same way.
pub proof fn lemma_payload_names(r: Seq<OverlayAlertPayload>, alerts: Seq<AlertSnapshot>)
    requires
        are_payloads_of(r, alerts),
    ensures
        r.len() == alerts.len(),
        forall|i: int|
            0 <= i < r.len() ==> (#[trigger] r[i]).profile_id == alerts[i].profile_id
                && r[i].color == alerts[i].color && r[i].name == alerts[i].name && (
            alerts[i].phase == AlertPhase::Warning ==> r[i].phase@ == "warning"@) && (
            alerts[i].phase == AlertPhase::Expired ==> r[i].phase@ == "expired"@),
        intensity_name(OverlayIntensity::Warning) == "warning"@,
        intensity_name(OverlayIntensity::Expired) == "expired"@,
{
    assert forall|i: int| 0 <= i < r.len() implies (#[trigger] r[i]).profile_id
        == alerts[i].profile_id && r[i].color == alerts[i].color && r[i].name == alerts[i].name && (
    alerts[i].phase == AlertPhase::Warning ==> r[i].phase@ == "warning"@) && (alerts[i].phase
        == AlertPhase::Expired ==> r[i].phase@ == "expired"@) by {
        assert(is_payload_of(r[i], alerts[i]));
    }
}

} // verus!
