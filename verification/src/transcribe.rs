use vstd::prelude::*;

use crate::models::{find_model, model_ids, registry_entry};
use crate::text::{is_blank, str_eq, trim_str, trimmed};
use vstd::string::StringSliceAdditionalSpecFns;

verus! {

/// Whether model `model_id` is the one held in memory.
pub fn is_model_loaded(loaded_model_id: &Option<String>, model_id: &str) -> (r: bool)
    ensures
        r == (loaded_model_id matches Some(l) && l@ == model_id@),
{
    match loaded_model_id {
        Some(l) => str_eq(l.as_str(), model_id),
        None => false,
    }
}

/// Whether a request for `requested` must (re)load a model first: when a
/// different model, or none, is in memory.
pub fn needs_model_load(active_model_id: &Option<String>, has_model: bool, requested: &str) -> (r: bool)
    ensures
        r == (!(active_model_id matches Some(a) && a@ == requested@) || !has_model),
{
    !is_model_loaded(active_model_id, requested) || !has_model
}

/// The model the transcription worker holds in memory, by identifier.
pub struct ModelSlot {
    loaded_id: Option<String>,
}

/// The loaded model after a request for `requested`: kept when it is the
/// requested one; otherwise the requested model when its load succeeds,
/// and what was there when it fails.
pub open spec fn slot_after_request(loaded: Option<Seq<char>>, requested: Seq<char>, load_ok: bool) -> Option<Seq<char>> {
    if loaded == Some(requested) {
        loaded
    } else if load_ok {
        Some(requested)
    } else {
        loaded
    }
}

impl ModelSlot {
    /// The identifier of the model in memory, if any.
    pub closed spec fn view(&self) -> Option<Seq<char>> {
        match self.loaded_id {
            Some(id) => Some(id@),
            None => None,
        }
    }

    /// No model in memory.
    pub fn new() -> (s: Self)
        ensures
            s.view() is None,
    {
        ModelSlot { loaded_id: None }
    }

    /// Whether model `id` is the one in memory.
    pub fn holds(&self, id: &str) -> (r: bool)
        ensures
            r == (self.view() == Some(id@)),
    {
        is_model_loaded(&self.loaded_id, id)
    }

    /// Whether a request for `requested` must load it first.
    pub fn needs_load(&self, requested: &str) -> (r: bool)
        ensures
            r == (self.view() != Some(requested@)),
            !r ==> slot_after_request(self.view(), requested@, true) == self.view()
                && slot_after_request(self.view(), requested@, false) == self.view(),
    {
        needs_model_load(&self.loaded_id, self.loaded_id.is_some(), requested)
    }

    /// Records the outcome of loading `requested` (attempted because it was
    /// not in memory): on success it is the model in memory; on failure
    /// nothing changes.
    pub fn finish_load(&mut self, requested: &str, load_ok: bool)
        ensures
            final(self).view() == (if load_ok { Some(requested@) } else { old(self).view() }),
            old(self).view() != Some(requested@) ==> final(self).view() == slot_after_request(
                old(self).view(),
                requested@,
                load_ok,
            ),
    {
        if load_ok {
            self.loaded_id = Some(requested.to_owned());
        }
    }

    /// The model was unloaded (on request or when idle).
    pub fn unload(&mut self)
        ensures
            final(self).view() is None,
    {
        self.loaded_id = None;
    }
}

/// A loaded model is reused: once a request has loaded `m`, a second
/// request for `m` (with no unload or other load in between) needs no
/// load and keeps `m` in memory, whatever its own load would have done.
pub proof fn lemma_loaded_model_reused(loaded: Option<Seq<char>>, m: Seq<char>, second_load_ok: bool)
    ensures
        slot_after_request(loaded, m, true) == Some(m),
        slot_after_request(slot_after_request(loaded, m, true), m, second_load_ok) == Some(m),
{
}

/// The runtime that loads a model.
#[derive(Debug, Clone, Copy, PartialEq, Eq, Structural)]
pub enum ModelLoader {
    /// whisper.cpp, from the model's first file.
    Whisper,
    Parakeet,
    Canary,
    GigaAm,
    /// A GGUF model, from the model's first file.
    Ggml,
}

/// Why a model cannot be loaded before its files are read.
#[derive(Debug, Clone, Copy, PartialEq, Eq, Structural)]
pub enum LoaderError {
    /// No model has this identifier (nothing is reported).
    UnknownModel,
    /// The model's engine is not supported (reported as such).
    UnknownEngine,
}

/// The loader of a registered model with identifier `id` and engine `engine`.
pub open spec fn loader_for(id: Seq<char>, engine: Seq<char>) -> Result<ModelLoader, LoaderError> {
    if engine == "whisper"@ {
        Ok(ModelLoader::Whisper)
    } else if engine == "onnx"@ {
        if id == "parakeet"@ {
            Ok(ModelLoader::Parakeet)
        } else if id == "canary"@ {
            Ok(ModelLoader::Canary)
        } else if id == "gigaam"@ {
            Ok(ModelLoader::GigaAm)
        } else {
            Err(LoaderError::UnknownEngine)
        }
    } else if engine == "ggml"@ {
        Ok(ModelLoader::Ggml)
    } else {
        Err(LoaderError::UnknownEngine)
    }
}

/// Every registered model can be loaded: Whisper models by whisper.cpp
/// and GGUF ("ggml") models from their first file, whatever their
/// identifier; the ONNX models each by their own runtime.
pub proof fn lemma_registered_models_load()
    ensures
        forall|i: int| 0 <= i < model_ids().len() ==> {
            &&& loader_for(model_ids()[i], crate::models::model_engines()[i]) is Ok
            &&& crate::models::model_engines()[i] == "whisper"@ ==> loader_for(model_ids()[i],
                crate::models::model_engines()[i]) == Ok::<ModelLoader, LoaderError>(ModelLoader::Whisper)
            &&& crate::models::model_engines()[i] == "ggml"@ ==> loader_for(model_ids()[i],
                crate::models::model_engines()[i]) == Ok::<ModelLoader, LoaderError>(ModelLoader::Ggml)
        },
{
    reveal_strlit("whisper");
    reveal_strlit("onnx");
    reveal_strlit("ggml");
    reveal_strlit("parakeet");
    reveal_strlit("canary");
    reveal_strlit("gigaam");
    assert("onnx"@[0] != "ggml"@[0]);
    assert("canary"@[0] != "gigaam"@[0]);
    assert(model_ids()[5] == "parakeet"@);
    assert(model_ids()[6] == "canary"@);
    assert(model_ids()[7] == "gigaam"@);
}

/// Chooses how model `model_id` is loaded; with the loader comes the name
/// of the model's first file, which single-file runtimes open.
pub fn model_loader(model_id: &str) -> (r: Result<(ModelLoader, &'static str), LoaderError>)
    ensures
        !model_ids().contains(model_id@) ==> r == Err::<(ModelLoader, &'static str), LoaderError>(
            LoaderError::UnknownModel),
        model_ids().contains(model_id@) ==> exists|i: int| 0 <= i < model_ids().len() && model_ids()[i]
            == model_id@ && match r {
                Ok((l, f)) => loader_for(model_id@, crate::models::model_engines()[i]) == Ok::<
                    ModelLoader,
                    LoaderError,
                >(l) && f@ == crate::models::model_first_files()[i],
                Err(e) => loader_for(model_id@, crate::models::model_engines()[i]) == Err::<
                    ModelLoader,
                    LoaderError,
                >(e),
            },
        forall|i: int| 0 <= i < model_ids().len() && model_ids()[i] == model_id@ ==> (r matches Ok((l, f)) && f@
            == crate::models::model_first_files()[i] && (crate::models::model_engines()[i] == "whisper"@ ==> l
            == ModelLoader::Whisper) && (crate::models::model_engines()[i] == "ggml"@ ==> l == ModelLoader::Ggml)),
{
    proof {
        lemma_registered_models_load();
        crate::models::lemma_model_ids_distinct();
    }
    let def = match find_model(model_id) {
        Some(d) => d,
        None => {
            return Err(LoaderError::UnknownModel);
        },
    };
    let first = def.files[0].name;
    let engine = def.engine;
    if str_eq(engine, "whisper") {
        Ok((ModelLoader::Whisper, first))
    } else if str_eq(engine, "onnx") {
        if str_eq(def.id, "parakeet") {
            Ok((ModelLoader::Parakeet, first))
        } else if str_eq(def.id, "canary") {
            Ok((ModelLoader::Canary, first))
        } else if str_eq(def.id, "gigaam") {
            Ok((ModelLoader::GigaAm, first))
        } else {
            Err(LoaderError::UnknownEngine)
        }
    } else if str_eq(engine, "ggml") {
        Ok((ModelLoader::Ggml, first))
    } else {
        Err(LoaderError::UnknownEngine)
    }
}

/// Parakeet detects the language itself when it is "auto".
pub fn parakeet_language(language: &str) -> (r: Option<String>)
    ensures
        language@ == "auto"@ ==> r is None,
        language@ != "auto"@ ==> (r matches Some(l) && l@ == language@),
{
    if str_eq(language, "auto") {
        None
    } else {
        Some(language.to_owned())
    }
}

/// Canary needs a language: English stands in for "auto".
pub fn canary_language(language: &str) -> (r: String)
    ensures
        r@ == (if language@ == "auto"@ { "en"@ } else { language@ }),
{
    if str_eq(language, "auto") {
        String::from_str("en")
    } else {
        language.to_owned()
    }
}

/// GGUF models get a language only when one is set and it is not "auto".
pub fn ggml_language(language: &str) -> (r: Option<String>)
    ensures
        (language@ == "auto"@ || language@.len() == 0) ==> r is None,
        !(language@ == "auto"@ || language@.len() == 0) ==> (r matches Some(l) && l@ == language@),
{
    if str_eq(language, "auto") || language.is_empty() {
        None
    } else {
        Some(language.to_owned())
    }
}

/// The initial prompt handed to Whisper: only one with visible text.
pub fn whisper_prompt(prompt: &Option<String>) -> (r: Option<String>)
    ensures
        (prompt matches Some(p) && trimmed(p@).len() > 0) ==> (r matches Some(q) && q@ == prompt->0@),
        !(prompt matches Some(p) && trimmed(p@).len() > 0) ==> r is None,
{
    match prompt {
        Some(p) => {
            if is_blank(p.as_str()) {
                None
            } else {
                Some(p.clone())
            }
        },
        None => None,
    }
}

/// The transcript as delivered: the recognizer's text with surrounding
/// whitespace removed.
pub fn final_transcript(raw: &str) -> (text: String)
    ensures
        text@ == trimmed(raw@),
{
    trim_str(raw)
}

/// What handling a transcription request does around recognition.
#[derive(Debug, Clone, Copy, PartialEq, Eq, Structural)]
pub struct RequestPreamble {
    /// Tell the interface that processing started.
    pub announce_processing: bool,
    /// Take over the recorder's pending-processing flag once the text is
    /// known (clearing it); otherwise the recorder's state is left alone.
    pub settles_recorder: bool,
}

/// The preamble of a request: a dictation announces processing unless it
/// was already streaming (the interface shows the live text), and settles
/// the recorder; a re-run of a history record does neither.
pub open spec fn preamble_for(is_retranscription: bool, was_streaming: bool) -> RequestPreamble {
    RequestPreamble {
        announce_processing: !is_retranscription && !was_streaming,
        settles_recorder: !is_retranscription,
    }
}

/// Decides the preamble of a transcription request.
pub fn request_preamble(is_retranscription: bool, was_streaming: bool) -> (p: RequestPreamble)
    ensures
        p == preamble_for(is_retranscription, was_streaming),
{
    RequestPreamble {
        announce_processing: !is_retranscription && !was_streaming,
        settles_recorder: !is_retranscription,
    }
}

/// Where a finished transcript goes.
#[derive(Debug, Clone, Copy, PartialEq, Eq, Structural)]
pub enum TranscriptRoute {
    /// A re-run of a history record produced nothing.
    RetranscriptionFailed,
    /// A re-run of a history record produced text.
    RetranscriptionDone,
    /// The dictation was cancelled meanwhile: nothing is delivered.
    Dropped,
    /// The dictation produced nothing.
    NotRecognized,
    /// Deliver the text (pasting it where `paste` says so) and record it.
    Deliver { paste: bool },
}

/// The route of a transcript. A re-run of a history record only reports;
/// a dictation still awaited is delivered unless empty, and pasted unless
/// the text was already typed live into the target, or the application's
/// own main window has the focus.
pub open spec fn transcript_route(
    is_retranscription: bool,
    text_empty: bool,
    was_processing: bool,
    already_typed_live: bool,
    main_window_focused: bool,
) -> TranscriptRoute {
    if is_retranscription {
        if text_empty {
            TranscriptRoute::RetranscriptionFailed
        } else {
            TranscriptRoute::RetranscriptionDone
        }
    } else if !was_processing {
        TranscriptRoute::Dropped
    } else if text_empty {
        TranscriptRoute::NotRecognized
    } else {
        TranscriptRoute::Deliver { paste: !already_typed_live && !main_window_focused }
    }
}

/// Decides where a finished transcript goes.
pub fn route_transcript(
    is_retranscription: bool,
    text: &str,
    was_processing: bool,
    already_typed_live: bool,
    main_window_focused: bool,
) -> (r: TranscriptRoute)
    ensures
        r == transcript_route(is_retranscription, text@.len() == 0, was_processing, already_typed_live,
            main_window_focused),
{
    let empty = text.is_empty();
    if is_retranscription {
        if empty {
            TranscriptRoute::RetranscriptionFailed
        } else {
            TranscriptRoute::RetranscriptionDone
        }
    } else if !was_processing {
        TranscriptRoute::Dropped
    } else if empty {
        TranscriptRoute::NotRecognized
    } else {
        TranscriptRoute::Deliver { paste: !already_typed_live && !main_window_focused }
    }
}

/// Whether the text was typed live into the target while it was spoken:
/// the mini overlay with streaming input, a streaming session in progress,
/// and live typing not given up.
pub fn typed_live(overlay_skin: &str, streaming_input: bool, was_streaming: bool, live_typing_aborted: bool) -> (r: bool)
    ensures
        r == (overlay_skin@ == "mini"@ && streaming_input && was_streaming && !live_typing_aborted),
{
    str_eq(overlay_skin, "mini") && streaming_input && was_streaming && !live_typing_aborted
}

/// The message announcing a delivered transcript: marked "COPIED:" when
/// it was only put on the clipboard.
pub fn transcript_message(text: &str, copied: bool) -> (m: String)
    ensures
        m@ == (if copied { "COPIED:"@ + text@ } else { text@ }),
{
    if copied {
        let mut m = String::from_str("COPIED:");
        m.append(text);
        m
    } else {
        text.to_owned()
    }
}

/// The message announcing a delivered dictation, unless a new recording
/// has started meanwhile (then nothing is announced, so as not to disturb
/// it).
pub fn delivery_message(text: &str, copied: bool, recording_now: bool) -> (m: Option<String>)
    ensures
        recording_now ==> m is None,
        !recording_now ==> (m matches Some(t) && t@ == (if copied { "COPIED:"@ + text@ } else { text@ })),
{
    if recording_now {
        None
    } else {
        Some(transcript_message(text, copied))
    }
}

/// A re-run of a history record only reports its text or its failure: it
/// announces no processing, leaves the recorder alone, and neither pastes
/// nor records the text.
pub proof fn lemma_retranscription_only_reports(
    text_empty: bool,
    was_processing: bool,
    already_typed_live: bool,
    main_window_focused: bool,
    was_streaming: bool,
)
    ensures
        !preamble_for(true, was_streaming).announce_processing,
        !preamble_for(true, was_streaming).settles_recorder,
        transcript_route(true, text_empty, was_processing, already_typed_live, main_window_focused) == (if text_empty {
            TranscriptRoute::RetranscriptionFailed
        } else {
            TranscriptRoute::RetranscriptionDone
        }),
{
}

/// What the idle timer asks of the model in memory.
#[derive(Debug, Clone, Copy, PartialEq, Eq, Structural)]
pub enum IdleDecision {
    Keep,
    /// The user is recording or waiting: count the idle time anew.
    RestartTimer,
    Unload,
}

/// The idle decision: with automatic unloading on (a positive number of
/// minutes) and a model loaded, once it has been idle that long it is
/// unloaded, unless a recording or transcription is under way.
pub fn idle_decision(idle_minutes: u32, has_model: bool, idle_ms: u64, busy: bool) -> (d: IdleDecision)
    ensures
        d == (if idle_minutes > 0 && has_model && idle_ms >= idle_minutes as int * 60000 {
            if busy { IdleDecision::RestartTimer } else { IdleDecision::Unload }
        } else {
            IdleDecision::Keep
        }),
{
    if idle_minutes > 0 && has_model && idle_ms as u128 >= idle_minutes as u128 * 60000 {
        if busy {
            IdleDecision::RestartTimer
        } else {
            IdleDecision::Unload
        }
    } else {
        IdleDecision::Keep
    }
}

/// Minimum time (in milliseconds) between two live transcript updates.
pub const LIVE_UPDATE_MS: u64 = 300;

/// Whether a streaming transcript update is shown: when the committed
/// part changed, when the last update is old enough (or there was none),
/// or when the first text appears; and only if the text differs from what
/// is shown.
pub fn should_emit_live(
    committed_changed: bool,
    ms_since_last_emit: Option<u64>,
    last_emitted: &str,
    current: &str,
) -> (r: bool)
    ensures
        r == ((committed_changed || (match ms_since_last_emit {
            Some(ms) => ms >= LIVE_UPDATE_MS,
            None => true,
        }) || (last_emitted@.len() == 0 && current@.len() > 0)) && current@ != last_emitted@),
{
    let due = committed_changed || match ms_since_last_emit {
        Some(ms) => ms >= LIVE_UPDATE_MS,
        None => true,
    } || (last_emitted.is_empty() && !current.is_empty());
    due && !str_eq(current, last_emitted)
}

/// The newly committed text to type live: the part of `committed` past the
/// `typed_len` bytes already typed, if it grew.
pub fn live_typing_delta(committed: &str, typed_len: usize) -> (r: Option<&str>)
    requires
        committed.spec_bytes().len() <= usize::MAX,
        committed.spec_bytes().len() > typed_len ==> vstd::utf8::is_char_boundary(committed.spec_bytes(), typed_len as int),
    ensures
        committed.spec_bytes().len() > typed_len ==> (r matches Some(d) && d.spec_bytes()
            == committed.spec_bytes().subrange(typed_len as int, committed.spec_bytes().len() as int)),
        committed.spec_bytes().len() <= typed_len ==> r is None,
{
    if committed.len() > typed_len {
        let (_, rest) = committed.split_at(typed_len);
        Some(rest)
    } else {
        None
    }
}

} // verus!
