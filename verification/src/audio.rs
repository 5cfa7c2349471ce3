use vstd::prelude::*;

use crate::caret_position::{CaretMethod, CaretRect};
use crate::paste::AppInfo;

verus! {

/// The recorder's shared state. `has_worker` stands for the stop channel
/// of the running capture worker: a worker exists exactly while it is set.
pub struct AudioState {
    pub is_recording: bool,
    pub is_processing: bool,
    pub is_previewing: bool,
    pub target_hwnd: Option<isize>,
    pub caret_pos: Option<CaretRect>,
    pub caret_method: CaretMethod,
    pub caret_trace: String,
    pub app_info: Option<AppInfo>,
    pub has_worker: bool,
}

/// Never both recording and previewing, and a worker behind either.
pub open spec fn audio_wf(s: AudioState) -> bool {
    &&& !(s.is_recording && s.is_previewing)
    &&& s.is_recording ==> s.has_worker
    &&& s.is_previewing ==> s.has_worker
}

/// The fields that only the target bookkeeping touches are unchanged.
pub open spec fn same_target(a: AudioState, b: AudioState) -> bool {
    &&& a.target_hwnd == b.target_hwnd
    &&& a.caret_pos == b.caret_pos
    &&& a.caret_method == b.caret_method
    &&& a.caret_trace == b.caret_trace
    &&& a.app_info == b.app_info
}

/// What the caller must do to the capture worker after a transition.
#[derive(Debug, Clone, Copy, PartialEq, Eq, Structural)]
pub struct WorkerCommand {
    /// Send the stop signal to the worker that was running.
    pub stop_old: bool,
    /// Start a new capture worker (in preview mode if `preview`).
    pub spawn: bool,
    pub preview: bool,
}

/// Side effects owed when a recording ends by the user's request.
#[derive(Debug, Clone, Copy, PartialEq, Eq, Structural)]
pub struct StopEffects {
    pub stop_worker: bool,
    pub restore_ducking: bool,
    pub play_cue: bool,
    /// Tell the interface that the recording ended.
    pub notify: bool,
}

impl Default for AudioState {
    fn default() -> (s: Self)
        ensures
            !s.is_recording && !s.is_processing && !s.is_previewing,
            s.target_hwnd is None,
            s.caret_pos is None,
            s.caret_method == CaretMethod::Fallback,
            s.caret_trace@.len() == 0,
            s.app_info is None,
            !s.has_worker,
    {
        AudioState {
            is_recording: false,
            is_processing: false,
            is_previewing: false,
            target_hwnd: None,
            caret_pos: None,
            caret_method: CaretMethod::Fallback,
            caret_trace: String::new(),
            app_info: None,
            has_worker: false,
        }
    }
}

impl AudioState {
    /// Starts a recording unless one is running: any previewing worker is
    /// stopped and a recording worker started.
    pub fn start_recording(&mut self) -> (cmd: WorkerCommand)
        ensures
            old(self).is_recording ==> *final(self) == *old(self) && cmd == (WorkerCommand {
                stop_old: false,
                spawn: false,
                preview: false,
            }),
            !old(self).is_recording ==> {
                &&& final(self).is_recording
                &&& !final(self).is_processing
                &&& !final(self).is_previewing
                &&& final(self).has_worker
                &&& same_target(*final(self), *old(self))
                &&& cmd == (WorkerCommand { stop_old: old(self).has_worker, spawn: true, preview: false })
            },
            audio_wf(*old(self)) ==> audio_wf(*final(self)),
    {
        if self.is_recording {
            return WorkerCommand { stop_old: false, spawn: false, preview: false };
        }
        let stop_old = self.has_worker;
        self.is_previewing = false;
        self.is_processing = false;
        self.is_recording = true;
        self.has_worker = true;
        WorkerCommand { stop_old, spawn: true, preview: false }
    }

    /// Starts the microphone preview unless recording or previewing.
    pub fn start_preview(&mut self) -> (cmd: WorkerCommand)
        ensures
            (old(self).is_previewing || old(self).is_recording) ==> *final(self) == *old(self) && cmd
                == (WorkerCommand { stop_old: false, spawn: false, preview: false }),
            !(old(self).is_previewing || old(self).is_recording) ==> {
                &&& final(self).is_previewing
                &&& !final(self).is_processing
                &&& !final(self).is_recording
                &&& final(self).has_worker
                &&& same_target(*final(self), *old(self))
                &&& cmd == (WorkerCommand { stop_old: old(self).has_worker, spawn: true, preview: true })
            },
            audio_wf(*old(self)) ==> audio_wf(*final(self)),
    {
        if self.is_previewing || self.is_recording {
            return WorkerCommand { stop_old: false, spawn: false, preview: false };
        }
        let stop_old = self.has_worker;
        self.is_processing = false;
        self.is_previewing = true;
        self.has_worker = true;
        WorkerCommand { stop_old, spawn: true, preview: true }
    }

    /// Stops the preview; returns whether a worker must be stopped.
    pub fn stop_preview(&mut self) -> (stop_worker: bool)
        ensures
            !old(self).is_previewing ==> *final(self) == *old(self) && !stop_worker,
            old(self).is_previewing ==> {
                &&& !final(self).is_previewing
                &&& !final(self).has_worker
                &&& stop_worker == old(self).has_worker
                &&& final(self).is_recording == old(self).is_recording
                &&& final(self).is_processing == old(self).is_processing
                &&& same_target(*final(self), *old(self))
            },
            audio_wf(*old(self)) ==> audio_wf(*final(self)),
    {
        if !self.is_previewing {
            return false;
        }
        self.is_previewing = false;
        let stop_worker = self.has_worker;
        self.has_worker = false;
        stop_worker
    }

    /// Ends a recording by the user's request: the audio goes on to be
    /// transcribed.
    pub fn stop_recording(&mut self, duck_audio: bool, sound_cues: bool) -> (fx: Option<StopEffects>)
        ensures
            !old(self).is_recording ==> *final(self) == *old(self) && fx is None,
            old(self).is_recording ==> {
                &&& !final(self).is_recording
                &&& final(self).is_processing
                &&& !final(self).has_worker
                &&& final(self).is_previewing == old(self).is_previewing
                &&& same_target(*final(self), *old(self))
                &&& fx == Some(StopEffects {
                    stop_worker: old(self).has_worker,
                    restore_ducking: duck_audio,
                    play_cue: sound_cues,
                    notify: true,
                })
            },
            audio_wf(*old(self)) ==> audio_wf(*final(self)),
    {
        if !self.is_recording {
            return None;
        }
        self.is_recording = false;
        self.is_processing = true;
        let stop_worker = self.has_worker;
        self.has_worker = false;
        Some(StopEffects { stop_worker, restore_ducking: duck_audio, play_cue: sound_cues, notify: true })
    }

    /// Abandons the recording and any pending transcription (the caller
    /// announces it loudly or silently).
    pub fn cancel_action(&mut self, duck_audio: bool) -> (fx: StopEffects)
        ensures
            !final(self).is_recording,
            !final(self).is_processing,
            !final(self).has_worker,
            final(self).is_previewing == old(self).is_previewing,
            same_target(*final(self), *old(self)),
            fx == (StopEffects {
                stop_worker: old(self).has_worker,
                restore_ducking: duck_audio,
                play_cue: false,
                notify: true,
            }),
            audio_wf(*old(self)) && !old(self).is_previewing ==> audio_wf(*final(self)),
    {
        self.is_recording = false;
        self.is_processing = false;
        let stop_worker = self.has_worker;
        self.has_worker = false;
        StopEffects { stop_worker, restore_ducking: duck_audio, play_cue: false, notify: true }
    }

    /// The capture worker left its loop: the mode it ran in ends.
    pub fn worker_finished(&mut self, preview: bool)
        ensures
            !preview && old(self).is_recording ==> !final(self).is_recording && !final(self).has_worker
                && final(self).is_previewing == old(self).is_previewing,
            preview && old(self).is_previewing ==> !final(self).is_previewing && !final(self).has_worker
                && final(self).is_recording == old(self).is_recording,
            (if preview { !old(self).is_previewing } else { !old(self).is_recording }) ==> *final(self)
                == *old(self),
            final(self).is_processing == old(self).is_processing,
            same_target(*final(self), *old(self)),
            audio_wf(*old(self)) ==> audio_wf(*final(self)),
    {
        if !preview {
            if self.is_recording {
                self.is_recording = false;
                self.has_worker = false;
            }
        } else {
            if self.is_previewing {
                self.is_previewing = false;
                self.has_worker = false;
            }
        }
    }

    /// The recording reached its length limit: it ends and goes on to
    /// transcription.
    pub fn recording_limit_reached(&mut self)
        ensures
            !final(self).is_recording,
            final(self).is_processing,
            !final(self).has_worker,
            final(self).is_previewing == old(self).is_previewing,
            same_target(*final(self), *old(self)),
            audio_wf(*old(self)) && !old(self).is_previewing ==> audio_wf(*final(self)),
    {
        self.is_recording = false;
        self.is_processing = true;
        self.has_worker = false;
    }

    /// The capture session could not be started: everything stops.
    pub fn session_failed(&mut self)
        ensures
            !final(self).is_recording,
            !final(self).is_processing,
            !final(self).is_previewing,
            !final(self).has_worker,
            same_target(*final(self), *old(self)),
            audio_wf(*final(self)),
    {
        self.is_recording = false;
        self.is_processing = false;
        self.is_previewing = false;
        self.has_worker = false;
    }

    /// The microphone stayed silent even after a restart of the stream.
    pub fn stream_stalled(&mut self)
        ensures
            !final(self).is_recording,
            !final(self).is_processing,
            final(self).is_previewing == old(self).is_previewing,
            final(self).has_worker == old(self).has_worker,
            same_target(*final(self), *old(self)),
            audio_wf(*old(self)) ==> audio_wf(*final(self)),
    {
        self.is_recording = false;
        self.is_processing = false;
    }

    /// Processing of the recorded audio is over (transcribed or rejected);
    /// returns whether it was still pending.
    pub fn processing_done(&mut self) -> (was_processing: bool)
        ensures
            was_processing == old(self).is_processing,
            !final(self).is_processing,
            final(self).is_recording == old(self).is_recording,
            final(self).is_previewing == old(self).is_previewing,
            final(self).has_worker == old(self).has_worker,
            same_target(*final(self), *old(self)),
            audio_wf(*old(self)) ==> audio_wf(*final(self)),
    {
        let was = self.is_processing;
        self.is_processing = false;
        was
    }

    /// Remembers the window that the coming dictation is meant for.
    pub fn set_target(&mut self, info: AppInfo)
        ensures
            final(self).target_hwnd == Some(info.hwnd),
            final(self).app_info == Some(info),
            final(self).is_recording == old(self).is_recording,
            final(self).is_processing == old(self).is_processing,
            final(self).is_previewing == old(self).is_previewing,
            final(self).has_worker == old(self).has_worker,
            final(self).caret_pos == old(self).caret_pos,
            final(self).caret_method == old(self).caret_method,
            final(self).caret_trace == old(self).caret_trace,
    {
        self.target_hwnd = Some(info.hwnd);
        self.app_info = Some(info);
    }

    /// Whether an overlay hide request must be ignored because a
    /// recording or its transcription is under way.
    pub fn busy(&self) -> (b: bool)
        ensures
            b == (self.is_recording || self.is_processing),
    {
        self.is_recording || self.is_processing
    }
}


/// Rate of the audio handed to transcription.
pub const TARGET_SAMPLE_RATE: u32 = 16000;

/// Longest recording kept: two minutes at the target rate.
pub const MAX_RECORDED_SAMPLES: usize = 1_920_000;

/// Shortest recording worth transcribing: a quarter second at the target rate.
pub const MIN_SPEECH_SAMPLES: usize = 4000;

/// Silence (in milliseconds) after which the capture stream counts as stalled.
pub const STALL_MS: u64 = 500;

/// A device that reports no channels is read as mono.
pub fn effective_channels(channels: u16) -> (c: u16)
    ensures
        c == (if channels == 0 { 1 } else { channels }),
        c >= 1,
{
    if channels == 0 {
        1
    } else {
        channels
    }
}

/// Ducking of other applications starts once the stream is confirmed to
/// flow: after twenty frames' worth of raw samples, once per recording.
pub fn should_duck_now(ducked_already: bool, should_duck: bool, total_received: usize, channels: u16) -> (r: bool)
    ensures
        r == (!ducked_already && should_duck && total_received >= channels as int * 20),
{
    !ducked_already && should_duck && total_received as u64 >= channels as u64 * 20
}

/// Number of mono frames between two level reports (thirty a second).
pub fn level_report_interval(in_sample_rate: u32) -> (n: usize)
    ensures
        n == in_sample_rate / 30,
{
    (in_sample_rate / 30) as usize
}

/// The capture stream counts as stalled when nothing arrived within the
/// first half second, or when a running stream went quiet for as long.
pub fn stall_detected(total_received: usize, ms_since_start: u64, ms_since_last_sample: u64) -> (r: bool)
    ensures
        r == ((total_received == 0 && ms_since_start >= STALL_MS)
            || (total_received > 0 && ms_since_last_sample >= STALL_MS)),
{
    (total_received == 0 && ms_since_start >= STALL_MS) || (total_received > 0 && ms_since_last_sample
        >= STALL_MS)
}

/// Whether the recording buffer reached its limit.
pub fn recording_full(accumulated: usize) -> (r: bool)
    ensures
        r == (accumulated >= MAX_RECORDED_SAMPLES),
{
    accumulated >= MAX_RECORDED_SAMPLES
}

/// What voice-activity detection made of a recording.
#[derive(Debug, Clone, Copy, PartialEq, Eq, Structural)]
pub enum VadOutcome {
    /// The detector could not be set up.
    Unavailable,
    /// Speech was found; the trimmed recording has this many samples.
    Trimmed(usize),
    /// No speech was found.
    NoSpeech,
    /// The detector failed while running; the untrimmed recording is used.
    Failed,
}

/// What becomes of a finished recording.
#[derive(Debug, Clone, Copy, PartialEq, Eq, Structural)]
pub enum RecordingVerdict {
    /// Too short or without speech: reported as not recognized.
    NotRecognized,
    /// The speech detector is missing: reported as an error.
    DetectorUnavailable,
    /// No model is selected.
    NoModel,
    /// Hand the (trimmed) audio of this many samples to transcription.
    Transcribe(usize),
}

/// The verdict on a recording of `recorded` samples, given what the speech
/// detector made of it (it is not run on recordings that are too short)
/// and whether a model is selected.
pub open spec fn recording_verdict(recorded: usize, vad: VadOutcome, has_model: bool) -> RecordingVerdict {
    if recorded < MIN_SPEECH_SAMPLES {
        RecordingVerdict::NotRecognized
    } else {
        match vad {
            VadOutcome::Unavailable => RecordingVerdict::DetectorUnavailable,
            VadOutcome::NoSpeech => RecordingVerdict::NotRecognized,
            _ => {
                let len = match vad {
                    VadOutcome::Trimmed(n) => n,
                    _ => recorded,
                };
                if len < MIN_SPEECH_SAMPLES {
                    RecordingVerdict::NotRecognized
                } else if !has_model {
                    RecordingVerdict::NoModel
                } else {
                    RecordingVerdict::Transcribe(len)
                }
            },
        }
    }
}

/// Decides what becomes of a finished recording.
pub fn decide_recording(recorded: usize, vad: VadOutcome, has_model: bool) -> (v: RecordingVerdict)
    ensures
        v == recording_verdict(recorded, vad, has_model),
{
    if recorded < MIN_SPEECH_SAMPLES {
        return RecordingVerdict::NotRecognized;
    }
    let len = match vad {
        VadOutcome::Unavailable => {
            return RecordingVerdict::DetectorUnavailable;
        },
        VadOutcome::NoSpeech => {
            return RecordingVerdict::NotRecognized;
        },
        VadOutcome::Trimmed(n) => n,
        VadOutcome::Failed => recorded,
    };
    if len < MIN_SPEECH_SAMPLES {
        RecordingVerdict::NotRecognized
    } else if !has_model {
        RecordingVerdict::NoModel
    } else {
        RecordingVerdict::Transcribe(len)
    }
}

/// A recording is transcribed only when at least a quarter second of
/// audio is left after trimming, and only with a model selected.
pub proof fn lemma_transcribed_audio_long_enough(recorded: usize, vad: VadOutcome, has_model: bool)
    ensures
        recording_verdict(recorded, vad, has_model) matches RecordingVerdict::Transcribe(n) ==> (n
            >= MIN_SPEECH_SAMPLES && has_model && recorded >= MIN_SPEECH_SAMPLES),
{
}

} // verus!
