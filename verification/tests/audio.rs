use vispeak::audio::{
    decide_recording, effective_channels, level_report_interval, recording_full, should_duck_now,
    stall_detected, AudioState, RecordingVerdict, StopEffects, VadOutcome, WorkerCommand,
};
use vispeak::caret_position::CaretMethod;
use vispeak::paste::AppInfo;

#[test]
fn default_state_is_idle() {
    let s = AudioState::default();
    assert!(!s.is_recording && !s.is_processing && !s.is_previewing && !s.has_worker);
    assert_eq!(s.caret_method, CaretMethod::Fallback);
    assert!(s.caret_trace.is_empty());
    assert!(s.target_hwnd.is_none() && s.app_info.is_none() && s.caret_pos.is_none());
}

#[test]
fn recording_lifecycle() {
    let mut s = AudioState::default();
    let cmd = s.start_recording();
    assert_eq!(cmd, WorkerCommand { stop_old: false, spawn: true, preview: false });
    assert!(s.is_recording && s.has_worker);
    // A second start is ignored.
    assert_eq!(s.start_recording(), WorkerCommand { stop_old: false, spawn: false, preview: false });
    let fx = s.stop_recording(true, false);
    assert_eq!(fx, Some(StopEffects { stop_worker: true, restore_ducking: true, play_cue: false, notify: true }));
    assert!(!s.is_recording && s.is_processing && !s.has_worker);
    // Stopping again does nothing.
    assert_eq!(s.stop_recording(true, true), None);
    assert!(s.processing_done());
    assert!(!s.is_processing);
    assert!(!s.processing_done());
}

#[test]
fn preview_is_replaced_by_recording() {
    let mut s = AudioState::default();
    assert_eq!(s.start_preview(), WorkerCommand { stop_old: false, spawn: true, preview: true });
    assert!(s.is_previewing);
    assert_eq!(s.start_preview(), WorkerCommand { stop_old: false, spawn: false, preview: false });
    let cmd = s.start_recording();
    assert_eq!(cmd, WorkerCommand { stop_old: true, spawn: true, preview: false });
    assert!(s.is_recording && !s.is_previewing);
    // No preview while recording.
    assert_eq!(s.start_preview(), WorkerCommand { stop_old: false, spawn: false, preview: false });
}

#[test]
fn stopping_the_preview() {
    let mut s = AudioState::default();
    assert!(!s.stop_preview());
    s.start_preview();
    assert!(s.stop_preview());
    assert!(!s.is_previewing && !s.has_worker);
}

#[test]
fn cancel_clears_everything() {
    let mut s = AudioState::default();
    s.start_recording();
    let fx = s.cancel_action(false);
    assert_eq!(fx, StopEffects { stop_worker: true, restore_ducking: false, play_cue: false, notify: true });
    assert!(!s.is_recording && !s.is_processing && !s.has_worker);
    let fx = s.cancel_action(true);
    assert_eq!(fx, StopEffects { stop_worker: false, restore_ducking: true, play_cue: false, notify: true });
}

#[test]
fn worker_end_and_failures() {
    let mut s = AudioState::default();
    s.start_recording();
    s.worker_finished(true);
    assert!(s.is_recording);
    s.worker_finished(false);
    assert!(!s.is_recording && !s.has_worker);

    let mut s = AudioState::default();
    s.start_recording();
    s.recording_limit_reached();
    assert!(!s.is_recording && s.is_processing && !s.has_worker);

    let mut s = AudioState::default();
    s.start_preview();
    s.session_failed();
    assert!(!s.is_previewing && !s.has_worker);

    let mut s = AudioState::default();
    s.start_recording();
    s.stream_stalled();
    assert!(!s.is_recording && !s.is_processing && s.has_worker);
}

#[test]
fn target_and_busy() {
    let mut s = AudioState::default();
    assert!(!s.busy());
    s.set_target(AppInfo { title: "Notepad".to_string(), icon_base64: String::new(), hwnd: 77 });
    assert_eq!(s.target_hwnd, Some(77));
    assert_eq!(s.app_info.as_ref().unwrap().title, "Notepad");
    s.start_recording();
    assert!(s.busy());
}

#[test]
fn worker_decisions() {
    assert_eq!(effective_channels(0), 1);
    assert_eq!(effective_channels(2), 2);
    assert!(!should_duck_now(false, true, 39, 2));
    assert!(should_duck_now(false, true, 40, 2));
    assert!(!should_duck_now(true, true, 400, 2));
    assert!(!should_duck_now(false, false, 400, 2));
    assert_eq!(level_report_interval(48000), 1600);
    assert_eq!(level_report_interval(44100), 1470);
    assert!(stall_detected(0, 500, 0));
    assert!(!stall_detected(0, 499, 10_000));
    assert!(stall_detected(10, 0, 500));
    assert!(!stall_detected(10, 10_000, 499));
    assert!(!recording_full(1_919_999));
    assert!(recording_full(1_920_000));
}

#[test]
fn recording_verdicts() {
    assert_eq!(decide_recording(3999, VadOutcome::Trimmed(5000), true), RecordingVerdict::NotRecognized);
    assert_eq!(decide_recording(8000, VadOutcome::Unavailable, true), RecordingVerdict::DetectorUnavailable);
    assert_eq!(decide_recording(8000, VadOutcome::NoSpeech, true), RecordingVerdict::NotRecognized);
    assert_eq!(decide_recording(8000, VadOutcome::Trimmed(3999), true), RecordingVerdict::NotRecognized);
    assert_eq!(decide_recording(8000, VadOutcome::Trimmed(4000), true), RecordingVerdict::Transcribe(4000));
    assert_eq!(decide_recording(8000, VadOutcome::Failed, true), RecordingVerdict::Transcribe(8000));
    assert_eq!(decide_recording(8000, VadOutcome::Trimmed(6000), false), RecordingVerdict::NoModel);
}
