//! The record kept of the last key press, for diagnosing missed presses.

use vstd::prelude::*;

use crate::key_listener::{ActiveApplication, KeyPress};
use crate::timer_engine::TimerEvent;

verus! {

/// What a key press was, where it went and which timers it reset.
#[derive(Debug, Clone, PartialEq, Eq)]
pub struct KeyDiagnostic {
    pub key: String,
    pub foreground_process: Option<String>,
    pub foreground_title: Option<String>,
    pub reset_profile_ids: Vec<String>,
    pub observed_at_ms: u64,
}

/// The process name of the foreground application, if known.
pub open spec fn process_of(app: Option<ActiveApplication>) -> Option<String> {
    match app {
        Some(a) => Some(a.process_name),
        None => None,
    }
}

/// The window title of the foreground application, if known.
pub open spec fn title_of(app: Option<ActiveApplication>) -> Option<String> {
    match app {
        Some(a) => Some(a.window_title),
        None => None,
    }
}

/// The profile id that a reset event names.
pub open spec fn reset_id_of(e: TimerEvent) -> String {
    match e {
        TimerEvent::Reset { profile_id } => profile_id,
    }
}

/// The diagnostic record of `key_press`, observed at `observed_at_ms`, that
/// produced `events`.
pub fn key_diagnostic(key_press: &KeyPress, events: &[TimerEvent], observed_at_ms: u64) -> (r:
    KeyDiagnostic)
    ensures
        r.key == key_press.key,
        r.foreground_process == process_of(key_press.application),
        r.foreground_title == title_of(key_press.application),
        r.reset_profile_ids@.len() == events@.len(),
        forall|i: int|
            0 <= i < events@.len() ==> #[trigger] r.reset_profile_ids@[i] == reset_id_of(events@[i]),
        r.observed_at_ms == observed_at_ms,
{
    let (foreground_process, foreground_title) = match &key_press.application {
        Some(application) => (
            Some(application.process_name.clone()),
            Some(application.window_title.clone()),
        ),
        None => (None, None),
    };
    let mut reset_profile_ids: Vec<String> = Vec::new();
    let mut i: usize = 0;
    while i < events.len()
        invariant
            i <= events@.len(),
            reset_profile_ids@.len() == i,
            forall|j: int|
                0 <= j < i ==> #[trigger] reset_profile_ids@[j] == reset_id_of(events@[j]),
        decreases events@.len() - i,
    {
        match &events[i] {
            TimerEvent::Reset { profile_id } => reset_profile_ids.push(profile_id.clone()),
        }
        i = i + 1;
    }
    KeyDiagnostic {
        key: key_press.key.clone(),
        foreground_process,
        foreground_title,
        reset_profile_ids,
        observed_at_ms,
    }
}

/// The record names the foreground process and window title exactly when
/// the key press knows the foreground application, and takes them from it; a
/// reset event is recorded by the id of the profile it reset.
pub proof fn lemma_diagnostic_sources(app: Option<ActiveApplication>, profile_id: String)
    ensures
        process_of(app) is Some <==> app is Some,
        title_of(app) is Some <==> app is Some,
        app is Some ==> process_of(app) == Some(app->0.process_name) && title_of(app) == Some(
            app->0.window_title,
        ),
        reset_id_of(TimerEvent::Reset { profile_id }) == profile_id,
{
}

} // verus!
