//! Timer engine and settings model of a skill-recast reminder overlay.

pub mod diagnostics;
pub mod key_listener;
pub mod models;
pub mod privilege;
pub mod settings_store;
pub mod text;
pub mod timer_engine;

pub use diagnostics::{key_diagnostic, KeyDiagnostic};
pub use key_listener::{key_name_from_vk, ActiveApplication, KeyPress};
pub use models::{
    alert_payloads, inactive_overlay_payload, overlay_payload, snapshot_from_phase,
    timer_snapshots, AppSettings, OverlayAlertPayload, OverlayFramePayload, OverlaySettings,
    SkillProfile, TimerSnapshot,
};
pub use privilege::{relaunch_as_admin, status, PrivilegeStatus};
pub use settings_store::{missing_app_filter_profile_ids, JsonValue};
pub use timer_engine::{
    overlay_frame, AlertPhase, AlertSnapshot, OverlayFrame, OverlayIntensity, TimerClock,
    TimerEngine, TimerEvent, TimerPhase, TimerProfile, CYCLE_RESET_AFTER_MS,
};
