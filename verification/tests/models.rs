use vispeak::models::{find_model, get_model_path, get_models, get_models_dir, model_info, models, TranslationSupport};
use vispeak::paths::{get_app_data_dir, StoragePath};

#[test]
fn registry_contents() {
    let ms = models();
    assert_eq!(ms.len(), 10);
    let tiny = &ms[0];
    assert_eq!(tiny.id, "tiny");
    assert_eq!(tiny.name, "Whisper Tiny");
    assert_eq!(tiny.size_mb, 75);
    assert_eq!(tiny.files.len(), 1);
    assert_eq!(tiny.files[0].name, "ggml-tiny.bin");
    assert_eq!(tiny.files[0].url, "https://huggingface.co/ggerganov/whisper.cpp/resolve/main/ggml-tiny.bin");
    let canary = &ms[6];
    assert_eq!(canary.translation, TranslationSupport::Pairs(vec!["EN", "DE", "FR", "ES"]));
    assert_eq!(canary.languages, 4);
    assert_eq!(canary.files.len(), 4);
    assert_eq!(ms[5].translation, TranslationSupport::Unsupported);
    assert_eq!(ms[9].engine, "ggml");
}

#[test]
fn lookup_by_id() {
    let g = find_model("gigaam").unwrap();
    assert_eq!(g.name, "GigaAM v3 E2E");
    assert_eq!(g.engine, "onnx");
    assert!(find_model("large").is_none());
    assert!(find_model("").is_none());
}

#[test]
fn model_list_marks_state() {
    let mut downloaded = vec![false; 10];
    downloaded[1] = true;
    let infos = get_models(&Some("base".to_string()), &downloaded);
    assert_eq!(infos.len(), 10);
    assert!(infos[1].is_downloaded && infos[1].is_active);
    assert!(!infos[0].is_downloaded && !infos[0].is_active);
    assert_eq!(infos[4].id, "large-v3-turbo");
    assert_eq!(infos[4].quantization, "Q5_0");
    assert_eq!(infos[6].name, "Canary 1B v2");
    assert_eq!(infos[6].size_mb, 980);
    assert_eq!(infos[6].accuracy_rating, 5);
    assert_eq!(infos[6].speed_rating, 2);
    assert_eq!(infos[6].languages, 4);
    assert_eq!(infos[6].translation, TranslationSupport::Pairs(vec!["EN", "DE", "FR", "ES"]));
    assert_eq!(infos[0].translation, TranslationSupport::ToEnglishOnly);
    let none_active = get_models(&None, &downloaded);
    assert!(none_active.iter().all(|m| !m.is_active));
    let info = model_info(&models()[8], true, "nemotron");
    assert!(info.is_active && info.is_downloaded);
    assert_eq!(info.speed_rating, 4);
}

#[test]
fn model_paths() {
    let local = StoragePath::from_components(vec!["home".to_string()]);
    let data = get_app_data_dir(&local);
    assert_eq!(data.components, vec!["home", "app.vispeak"]);
    assert_eq!(get_models_dir(&data).components, vec!["home", "app.vispeak", "models"]);
    assert_eq!(get_model_path(&data, "qwen").components, vec!["home", "app.vispeak", "models", "qwen"]);
}
