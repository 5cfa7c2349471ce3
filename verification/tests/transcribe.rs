use vispeak::transcribe::{
    canary_language, delivery_message, final_transcript, request_preamble, ggml_language, idle_decision, is_model_loaded,
    live_typing_delta, model_loader, needs_model_load, parakeet_language, route_transcript,
    should_emit_live, transcript_message, typed_live, whisper_prompt, IdleDecision, LoaderError,
    ModelLoader, ModelSlot, RequestPreamble, TranscriptRoute,
};

#[test]
fn loaded_model_checks() {
    let loaded = Some("base".to_string());
    assert!(is_model_loaded(&loaded, "base"));
    assert!(!is_model_loaded(&loaded, "tiny"));
    assert!(!is_model_loaded(&None, "base"));
    assert!(!needs_model_load(&loaded, true, "base"));
    assert!(needs_model_load(&loaded, false, "base"));
    assert!(needs_model_load(&loaded, true, "small"));
}

#[test]
fn loaders() {
    assert_eq!(model_loader("medium"), Ok((ModelLoader::Whisper, "ggml-medium-q5_0.bin")));
    assert_eq!(model_loader("parakeet"), Ok((ModelLoader::Parakeet, "encoder-model.int8.onnx")));
    assert_eq!(model_loader("canary").unwrap().0, ModelLoader::Canary);
    assert_eq!(model_loader("gigaam").unwrap().0, ModelLoader::GigaAm);
    assert_eq!(model_loader("qwen"), Ok((ModelLoader::Ggml, "Qwen3-ASR-0.6B-Q8_0.gguf")));
    assert_eq!(model_loader("nope"), Err(LoaderError::UnknownModel));
}

#[test]
fn language_parameters() {
    assert_eq!(parakeet_language("auto"), None);
    assert_eq!(parakeet_language("de"), Some("de".to_string()));
    assert_eq!(canary_language("auto"), "en");
    assert_eq!(canary_language("fr"), "fr");
    assert_eq!(ggml_language("auto"), None);
    assert_eq!(ggml_language(""), None);
    assert_eq!(ggml_language("ru"), Some("ru".to_string()));
    assert_eq!(whisper_prompt(&None), None);
    assert_eq!(whisper_prompt(&Some(" \t\n".to_string())), None);
    assert_eq!(whisper_prompt(&Some(" Hi ".to_string())), Some(" Hi ".to_string()));
}

#[test]
fn transcript_text() {
    assert_eq!(final_transcript("  hello world \n"), "hello world");
    assert_eq!(final_transcript("\u{3000}привет\u{a0}"), "привет");
    assert_eq!(final_transcript("   "), "");
    assert_eq!(transcript_message("hi", true), "COPIED:hi");
    assert_eq!(transcript_message("hi", false), "hi");
    assert_eq!(delivery_message("hi", true, false), Some("COPIED:hi".to_string()));
    assert_eq!(delivery_message("hi", false, false), Some("hi".to_string()));
    assert_eq!(delivery_message("hi", false, true), None);
}

#[test]
fn request_preambles() {
    // A re-run of a history record announces nothing and leaves the recorder alone.
    let p = request_preamble(true, false);
    assert_eq!(p, RequestPreamble { announce_processing: false, settles_recorder: false });
    assert_eq!(request_preamble(true, true), p);
    assert_eq!(request_preamble(false, false), RequestPreamble { announce_processing: true, settles_recorder: true });
    assert_eq!(request_preamble(false, true), RequestPreamble { announce_processing: false, settles_recorder: true });
}

#[test]
fn transcript_routes() {
    assert_eq!(route_transcript(true, "", true, false, false), TranscriptRoute::RetranscriptionFailed);
    assert_eq!(route_transcript(true, "x", false, false, false), TranscriptRoute::RetranscriptionDone);
    assert_eq!(route_transcript(false, "x", false, false, false), TranscriptRoute::Dropped);
    assert_eq!(route_transcript(false, "", true, false, false), TranscriptRoute::NotRecognized);
    assert_eq!(route_transcript(false, "x", true, false, false), TranscriptRoute::Deliver { paste: true });
    assert_eq!(route_transcript(false, "x", true, false, true), TranscriptRoute::Deliver { paste: false });
    assert_eq!(route_transcript(false, "x", true, true, false), TranscriptRoute::Deliver { paste: false });
    assert!(typed_live("mini", true, true, false));
    assert!(!typed_live("mini", true, true, true));
    assert!(!typed_live("full", true, true, false));
}

#[test]
fn idle_unloading() {
    assert_eq!(idle_decision(0, true, 10_000_000, false), IdleDecision::Keep);
    assert_eq!(idle_decision(1, false, 10_000_000, false), IdleDecision::Keep);
    assert_eq!(idle_decision(1, true, 59_999, false), IdleDecision::Keep);
    assert_eq!(idle_decision(1, true, 60_000, false), IdleDecision::Unload);
    assert_eq!(idle_decision(5, true, 300_000, true), IdleDecision::RestartTimer);
}

#[test]
fn live_updates() {
    assert!(should_emit_live(true, Some(0), "a", "ab"));
    assert!(!should_emit_live(true, Some(0), "ab", "ab"));
    assert!(!should_emit_live(false, Some(100), "a", "ab"));
    assert!(should_emit_live(false, Some(300), "a", "ab"));
    assert!(should_emit_live(false, None, "a", "ab"));
    assert!(should_emit_live(false, Some(1), "", "a"));
    assert_eq!(live_typing_delta("hello world", 5), Some(" world"));
    assert_eq!(live_typing_delta("hello", 5), None);
    assert_eq!(live_typing_delta("hé!", 3), Some("!"));
}

#[test]
fn loaded_model_is_reused() {
    let mut slot = ModelSlot::new();
    assert!(slot.needs_load("base"));
    // A failed load leaves nothing in memory.
    slot.finish_load("base", false);
    assert!(slot.needs_load("base"));
    slot.finish_load("base", true);
    assert!(slot.holds("base"));
    // The second request for the same model loads nothing.
    assert!(!slot.needs_load("base"));
    assert!(slot.needs_load("tiny"));
    slot.unload();
    assert!(!slot.holds("base"));
    assert!(slot.needs_load("base"));
}
