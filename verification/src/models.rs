use vstd::prelude::*;

use crate::paths::StoragePath;
use crate::text::str_eq;

verus! {

/// Which translation a model offers.
#[derive(Debug, Clone, PartialEq, Eq)]
pub enum TranslationSupport {
    Unsupported,
    ToEnglishOnly,
    Pairs(Vec<&'static str>),
}

/// One file of a model and where it is downloaded from.
#[derive(Debug, Clone, Copy)]
pub struct ModelFile {
    pub name: &'static str,
    pub url: &'static str,
}

/// An entry of the model registry.
#[derive(Debug)]
pub struct ModelDef {
    pub id: &'static str,
    pub name: &'static str,
    pub size_mb: u32,
    pub accuracy_rating: u8,
    pub speed_rating: u8,
    pub languages: u32,
    pub quantization: &'static str,
    pub engine: &'static str,
    pub translation: TranslationSupport,
    pub files: Vec<ModelFile>,
}

/// A model as shown to the user.
#[derive(Debug)]
pub struct ModelInfo {
    pub id: String,
    pub name: String,
    pub size_mb: u32,
    pub is_downloaded: bool,
    pub is_active: bool,
    pub accuracy_rating: u8,
    pub speed_rating: u8,
    pub languages: u32,
    pub quantization: String,
    pub engine: String,
    pub translation: TranslationSupport,
}

/// The identifiers of the registered models, in registry order.
pub open spec fn model_ids() -> Seq<Seq<char>> {
    seq!["tiny"@, "base"@, "small"@, "medium"@, "large-v3-turbo"@, "parakeet"@, "canary"@, "gigaam"@, "nemotron"@, "qwen"@]
}

/// The engine of each registered model, in registry order.
pub open spec fn model_engines() -> Seq<Seq<char>> {
    seq!["whisper"@, "whisper"@, "whisper"@, "whisper"@, "whisper"@, "onnx"@, "onnx"@, "onnx"@, "ggml"@, "ggml"@]
}

/// The first file of each registered model, in registry order.
pub open spec fn model_first_files() -> Seq<Seq<char>> {
    seq!["ggml-tiny.bin"@, "ggml-base.bin"@, "ggml-small.bin"@, "ggml-medium-q5_0.bin"@, "ggml-large-v3-turbo-q5_0.bin"@, "encoder-model.int8.onnx"@, "encoder-model.int8.onnx"@, "model.int8.onnx"@, "nemotron-3.5-asr-streaming-0.6b-Q8_0.gguf"@, "Qwen3-ASR-0.6B-Q8_0.gguf"@]
}

/// The number of files of each registered model, in registry order.
pub open spec fn model_file_counts() -> Seq<int> {
    seq![1, 1, 1, 1, 1, 4, 4, 2, 1, 1]
}

/// The registry entry `i` has the listed identifier, engine and files.
pub open spec fn registry_entry(d: ModelDef, i: int) -> bool {
    &&& d.id@ == model_ids()[i]
    &&& d.engine@ == model_engines()[i]
    &&& d.files@.len() == model_file_counts()[i]
    &&& d.files@[0].name@ == model_first_files()[i]
}

/// The display name of each registered model, in registry order.
pub open spec fn model_names() -> Seq<Seq<char>> {
    seq!["Whisper Tiny"@, "Whisper Base"@, "Whisper Small"@, "Whisper Medium"@, "Whisper Large V3 Turbo"@,
        "Parakeet TDT 0.6B v3"@, "Canary 1B v2"@, "GigaAM v3 E2E"@, "Nemotron 3.5 ASR 0.6B"@, "Qwen3-ASR 0.6B"@]
}

/// The download size in megabytes of each registered model, in registry order.
pub open spec fn model_sizes() -> Seq<int> {
    seq![75, 142, 466, 540, 574, 640, 980, 220, 716, 811]
}

/// The accuracy rating (1 to 5) of each registered model, in registry order.
pub open spec fn model_accuracy_ratings() -> Seq<int> {
    seq![1, 2, 3, 4, 5, 4, 5, 4, 4, 4]
}

/// The speed rating (1 to 5) of each registered model, in registry order.
pub open spec fn model_speed_ratings() -> Seq<int> {
    seq![5, 4, 3, 2, 3, 4, 2, 4, 4, 4]
}

/// The number of languages of each registered model, in registry order.
pub open spec fn model_language_counts() -> Seq<int> {
    seq![99, 99, 99, 99, 99, 99, 4, 1, 40, 40]
}

/// The quantization of each registered model, in registry order.
pub open spec fn model_quantizations() -> Seq<Seq<char>> {
    seq!["FP16"@, "FP16"@, "FP16"@, "Q5_0"@, "Q5_0"@, "INT8"@, "INT8"@, "INT8"@, "Q8_0"@, "Q8_0"@]
}

/// A translation description as plain values: 0 for none, 1 for
/// translation into English only, 2 for the listed language pairs.
pub open spec fn translation_view(t: TranslationSupport) -> (int, Seq<Seq<char>>) {
    match t {
        TranslationSupport::Unsupported => (0, Seq::<Seq<char>>::empty()),
        TranslationSupport::ToEnglishOnly => (1, Seq::<Seq<char>>::empty()),
        TranslationSupport::Pairs(langs) => (2, langs@.map_values(|l: &'static str| l@)),
    }
}

/// The translation offered by each registered model, in registry order.
pub open spec fn model_translations() -> Seq<(int, Seq<Seq<char>>)> {
    let none = (0int, Seq::<Seq<char>>::empty());
    let to_english = (1int, Seq::<Seq<char>>::empty());
    seq![to_english, to_english, to_english, to_english, to_english, none,
        (2int, seq!["EN"@, "DE"@, "FR"@, "ES"@]), none, none, none]
}

/// The registry entry `i` has the listed name, size, ratings, language
/// count, quantization and translation.
pub open spec fn registry_details(d: ModelDef, i: int) -> bool {
    &&& d.name@ == model_names()[i]
    &&& d.size_mb == model_sizes()[i]
    &&& d.accuracy_rating == model_accuracy_ratings()[i]
    &&& d.speed_rating == model_speed_ratings()[i]
    &&& d.languages == model_language_counts()[i]
    &&& d.quantization@ == model_quantizations()[i]
    &&& translation_view(d.translation) == model_translations()[i]
}

/// The registered models.
pub fn models() -> (ms: Vec<ModelDef>)
    ensures
        ms@.len() == model_ids().len(),
        forall|i: int| 0 <= i < ms@.len() ==> registry_entry(#[trigger] ms@[i], i),
        forall|i: int| 0 <= i < ms@.len() ==> registry_details(#[trigger] ms@[i], i),
{
    let ms = vec![
        ModelDef {
            id: "tiny",
            name: "Whisper Tiny",
            size_mb: 75,
            accuracy_rating: 1,
            speed_rating: 5,
            languages: 99,
            quantization: "FP16",
            engine: "whisper",
            translation: TranslationSupport::ToEnglishOnly,
            files: vec![
                ModelFile { name: "ggml-tiny.bin", url: "https://huggingface.co/ggerganov/whisper.cpp/resolve/main/ggml-tiny.bin" },
            ],
        },
        ModelDef {
            id: "base",
            name: "Whisper Base",
            size_mb: 142,
            accuracy_rating: 2,
            speed_rating: 4,
            languages: 99,
            quantization: "FP16",
            engine: "whisper",
            translation: TranslationSupport::ToEnglishOnly,
            files: vec![
                ModelFile { name: "ggml-base.bin", url: "https://huggingface.co/ggerganov/whisper.cpp/resolve/main/ggml-base.bin" },
            ],
        },
        ModelDef {
            id: "small",
            name: "Whisper Small",
            size_mb: 466,
            accuracy_rating: 3,
            speed_rating: 3,
            languages: 99,
            quantization: "FP16",
            engine: "whisper",
            translation: TranslationSupport::ToEnglishOnly,
            files: vec![
                ModelFile { name: "ggml-small.bin", url: "https://huggingface.co/ggerganov/whisper.cpp/resolve/main/ggml-small.bin" },
            ],
        },
        ModelDef {
            id: "medium",
            name: "Whisper Medium",
            size_mb: 540,
            accuracy_rating: 4,
            speed_rating: 2,
            languages: 99,
            quantization: "Q5_0",
            engine: "whisper",
            translation: TranslationSupport::ToEnglishOnly,
            files: vec![
                ModelFile { name: "ggml-medium-q5_0.bin", url: "https://huggingface.co/ggerganov/whisper.cpp/resolve/main/ggml-medium-q5_0.bin" },
            ],
        },
        ModelDef {
            id: "large-v3-turbo",
            name: "Whisper Large V3 Turbo",
            size_mb: 574,
            accuracy_rating: 5,
            speed_rating: 3,
            languages: 99,
            quantization: "Q5_0",
            engine: "whisper",
            translation: TranslationSupport::ToEnglishOnly,
            files: vec![
                ModelFile { name: "ggml-large-v3-turbo-q5_0.bin", url: "https://huggingface.co/ggerganov/whisper.cpp/resolve/main/ggml-large-v3-turbo-q5_0.bin" },
            ],
        },
        ModelDef {
            id: "parakeet",
            name: "Parakeet TDT 0.6B v3",
            size_mb: 640,
            accuracy_rating: 4,
            speed_rating: 4,
            languages: 99,
            quantization: "INT8",
            engine: "onnx",
            translation: TranslationSupport::Unsupported,
            files: vec![
                ModelFile { name: "encoder-model.int8.onnx", url: "https://huggingface.co/istupakov/parakeet-tdt-0.6b-v3-onnx/resolve/main/encoder-model.int8.onnx" },
                ModelFile { name: "decoder_joint-model.int8.onnx", url: "https://huggingface.co/istupakov/parakeet-tdt-0.6b-v3-onnx/resolve/main/decoder_joint-model.int8.onnx" },
                ModelFile { name: "nemo128.onnx", url: "https://huggingface.co/istupakov/parakeet-tdt-0.6b-v3-onnx/resolve/main/nemo128.onnx" },
                ModelFile { name: "vocab.txt", url: "https://huggingface.co/istupakov/parakeet-tdt-0.6b-v3-onnx/resolve/main/vocab.txt" },
            ],
        },
        ModelDef {
            id: "canary",
            name: "Canary 1B v2",
            size_mb: 980,
            accuracy_rating: 5,
            speed_rating: 2,
            languages: 4,
            quantization: "INT8",
            engine: "onnx",
            translation: TranslationSupport::Pairs(vec!["EN", "DE", "FR", "ES"]),
            files: vec![
                ModelFile { name: "encoder-model.int8.onnx", url: "https://huggingface.co/istupakov/canary-1b-v2-onnx/resolve/main/encoder-model.int8.onnx" },
                ModelFile { name: "decoder-model.int8.onnx", url: "https://huggingface.co/istupakov/canary-1b-v2-onnx/resolve/main/decoder-model.int8.onnx" },
                ModelFile { name: "nemo128.onnx", url: "https://huggingface.co/istupakov/parakeet-tdt-0.6b-v3-onnx/resolve/main/nemo128.onnx" },
                ModelFile { name: "vocab.txt", url: "https://huggingface.co/istupakov/canary-1b-v2-onnx/resolve/main/vocab.txt" },
            ],
        },
        ModelDef {
            id: "gigaam",
            name: "GigaAM v3 E2E",
            size_mb: 220,
            accuracy_rating: 4,
            speed_rating: 4,
            languages: 1,
            quantization: "INT8",
            engine: "onnx",
            translation: TranslationSupport::Unsupported,
            files: vec![
                ModelFile { name: "model.int8.onnx", url: "https://huggingface.co/istupakov/gigaam-v3-onnx/resolve/main/v3_e2e_ctc.int8.onnx" },
                ModelFile { name: "vocab.txt", url: "https://huggingface.co/istupakov/gigaam-v3-onnx/resolve/main/v3_e2e_ctc_vocab.txt" },
            ],
        },
        ModelDef {
            id: "nemotron",
            name: "Nemotron 3.5 ASR 0.6B",
            size_mb: 716,
            accuracy_rating: 4,
            speed_rating: 4,
            languages: 40,
            quantization: "Q8_0",
            engine: "ggml",
            translation: TranslationSupport::Unsupported,
            files: vec![
                ModelFile { name: "nemotron-3.5-asr-streaming-0.6b-Q8_0.gguf", url: "https://huggingface.co/handy-computer/nemotron-3.5-asr-streaming-0.6b-gguf/resolve/main/nemotron-3.5-asr-streaming-0.6b-Q8_0.gguf" },
            ],
        },
        ModelDef {
            id: "qwen",
            name: "Qwen3-ASR 0.6B",
            size_mb: 811,
            accuracy_rating: 4,
            speed_rating: 4,
            languages: 40,
            quantization: "Q8_0",
            engine: "ggml",
            translation: TranslationSupport::Unsupported,
            files: vec![
                ModelFile { name: "Qwen3-ASR-0.6B-Q8_0.gguf", url: "https://huggingface.co/handy-computer/Qwen3-ASR-0.6B-gguf/resolve/main/Qwen3-ASR-0.6B-Q8_0.gguf" },
            ],
        }
    ];
    proof {
        let t = ms@[6].translation;
        if let TranslationSupport::Pairs(langs) = t {
            assert(langs@.map_values(|l: &'static str| l@) =~= seq!["EN"@, "DE"@, "FR"@, "ES"@]);
        }
        assert forall|i: int| 0 <= i < ms@.len() implies registry_details(#[trigger] ms@[i], i) by {
            assert(i == 0 || i == 1 || i == 2 || i == 3 || i == 4 || i == 5 || i == 6 || i == 7 || i == 8 || i == 9);
        }
    }
    ms
}

/// The position of `id` in the registry, if registered.
pub open spec fn registry_index(id: Seq<char>) -> Option<int> {
    if model_ids().contains(id) {
        Some(model_ids().index_of(id))
    } else {
        None
    }
}

/// The registered model with identifier `id`.
pub fn find_model(id: &str) -> (r: Option<ModelDef>)
    ensures
        r is Some <==> model_ids().contains(id@),
        r matches Some(d) ==> d.id@ == id@ && exists|i: int| 0 <= i < model_ids().len() && registry_entry(d, i)
            && model_ids()[i] == id@,
{
    let mut ms = models();
    let n = ms.len();
    let mut i: usize = 0;
    while i < ms.len()
        invariant
            ms@.len() == model_ids().len(),
            forall|k: int| 0 <= k < ms@.len() ==> registry_entry(#[trigger] ms@[k], k),
            i <= ms@.len(),
            forall|k: int| 0 <= k < i ==> model_ids()[k] != id@,
        decreases ms@.len() - i,
    {
        if str_eq(ms[i].id, id) {
            let ghost k = i as int;
            assert(registry_entry(ms@[k], k));
            let d = ms.swap_remove(i);
            return Some(d);
        }
        i = i + 1;
    }
    proof {
        if model_ids().contains(id@) {
            let k = choose|k: int| 0 <= k < model_ids().len() && model_ids()[k] == id@;
        }
    }
    None
}

/// The registry lists no identifier twice.
pub proof fn lemma_model_ids_distinct()
    ensures
        model_ids().no_duplicates(),
{
    reveal_strlit("tiny");
    reveal_strlit("base");
    reveal_strlit("small");
    reveal_strlit("medium");
    reveal_strlit("large-v3-turbo");
    reveal_strlit("parakeet");
    reveal_strlit("canary");
    reveal_strlit("gigaam");
    reveal_strlit("nemotron");
    reveal_strlit("qwen");
    let s = model_ids();
    assert forall|i: int, j: int| 0 <= i < s.len() && 0 <= j < s.len() && i != j implies s[i] != s[j] by {
        if s[i] == s[j] {
            assert(s[i].len() == s[j].len());
            assert(s[i][0] == s[j][0]);
        }
    }
}


/// The directory that holds the downloaded models.
pub fn get_models_dir(app_data_dir: &StoragePath) -> (p: StoragePath)
    ensures
        p.parts() == app_data_dir.parts().push("models"@),
{
    app_data_dir.join("models")
}

/// The directory that holds the files of model `id`.
pub fn get_model_path(app_data_dir: &StoragePath, id: &str) -> (p: StoragePath)
    ensures
        p.parts() == app_data_dir.parts().push("models"@).push(id@),
{
    get_models_dir(app_data_dir).join(id)
}

/// Two translation descriptions say the same.
pub open spec fn same_translation(a: TranslationSupport, b: TranslationSupport) -> bool {
    match (a, b) {
        (TranslationSupport::Unsupported, TranslationSupport::Unsupported) => true,
        (TranslationSupport::ToEnglishOnly, TranslationSupport::ToEnglishOnly) => true,
        (TranslationSupport::Pairs(x), TranslationSupport::Pairs(y)) => x@ == y@,
        _ => false,
    }
}

fn clone_translation(t: &TranslationSupport) -> (r: TranslationSupport)
    ensures
        same_translation(r, *t),
{
    match t {
        TranslationSupport::Unsupported => TranslationSupport::Unsupported,
        TranslationSupport::ToEnglishOnly => TranslationSupport::ToEnglishOnly,
        TranslationSupport::Pairs(langs) => {
            let mut out: Vec<&'static str> = Vec::new();
            let mut i: usize = 0;
            while i < langs.len()
                invariant
                    i <= langs@.len(),
                    out@ == langs@.take(i as int),
                decreases langs@.len() - i,
            {
                out.push(langs[i]);
                proof {
                    assert(langs@.take(i as int).push(langs@[i as int]) =~= langs@.take(i + 1));
                }
                i = i + 1;
            }
            proof {
                assert(langs@.take(langs@.len() as int) =~= langs@);
            }
            TranslationSupport::Pairs(out)
        },
    }
}

/// The entry `d` as shown to the user, given whether its files are all
/// present and which model is active.
pub open spec fn shows_model(info: ModelInfo, d: ModelDef, is_downloaded: bool, active: Seq<char>) -> bool {
    &&& info.id@ == d.id@
    &&& info.name@ == d.name@
    &&& info.size_mb == d.size_mb
    &&& info.is_downloaded == is_downloaded
    &&& info.is_active == (d.id@ == active)
    &&& info.accuracy_rating == d.accuracy_rating
    &&& info.speed_rating == d.speed_rating
    &&& info.languages == d.languages
    &&& info.quantization@ == d.quantization@
    &&& info.engine@ == d.engine@
    &&& same_translation(info.translation, d.translation)
}

/// Describes one registry entry for the model list.
pub fn model_info(d: &ModelDef, is_downloaded: bool, active: &str) -> (info: ModelInfo)
    ensures
        shows_model(info, *d, is_downloaded, active@),
{
    ModelInfo {
        id: d.id.to_owned(),
        name: d.name.to_owned(),
        size_mb: d.size_mb,
        is_downloaded,
        is_active: str_eq(d.id, active),
        accuracy_rating: d.accuracy_rating,
        speed_rating: d.speed_rating,
        languages: d.languages,
        quantization: d.quantization.to_owned(),
        engine: d.engine.to_owned(),
        translation: clone_translation(&d.translation),
    }
}

/// The name of the selected model; empty when none is selected.
pub open spec fn active_name(active_model: Option<String>) -> Seq<char> {
    match active_model {
        Some(a) => a@,
        None => Seq::<char>::empty(),
    }
}

/// The model list: every registered model, in registry order, marked as
/// downloaded per `downloaded` (one flag per registry entry) and as active
/// when it is the selected model.
pub fn get_models(active_model: &Option<String>, downloaded: &Vec<bool>) -> (infos: Vec<ModelInfo>)
    requires
        downloaded@.len() == model_ids().len(),
    ensures
        infos@.len() == model_ids().len(),
        forall|i: int| 0 <= i < infos@.len() ==> {
            &&& (#[trigger] infos@[i]).id@ == model_ids()[i]
            &&& infos@[i].engine@ == model_engines()[i]
            &&& infos@[i].is_downloaded == downloaded@[i]
            &&& infos@[i].is_active == (model_ids()[i] == active_name(*active_model))
            &&& infos@[i].name@ == model_names()[i]
            &&& infos@[i].size_mb == model_sizes()[i]
            &&& infos@[i].accuracy_rating == model_accuracy_ratings()[i]
            &&& infos@[i].speed_rating == model_speed_ratings()[i]
            &&& infos@[i].languages == model_language_counts()[i]
            &&& infos@[i].quantization@ == model_quantizations()[i]
            &&& translation_view(infos@[i].translation) == model_translations()[i]
        },
{
    let ms = models();
    let active: &str = match active_model {
        Some(a) => a.as_str(),
        None => "",
    };
    proof {
        reveal_strlit("");
    }
    let mut infos: Vec<ModelInfo> = Vec::new();
    let mut i: usize = 0;
    while i < ms.len()
        invariant
            ms@.len() == model_ids().len(),
            downloaded@.len() == model_ids().len(),
            forall|k: int| 0 <= k < ms@.len() ==> registry_entry(#[trigger] ms@[k], k),
            forall|k: int| 0 <= k < ms@.len() ==> registry_details(#[trigger] ms@[k], k),
            active@ == active_name(*active_model),
            i <= ms@.len(),
            infos@.len() == i,
            forall|k: int| 0 <= k < i ==> shows_model(#[trigger] infos@[k], ms@[k], downloaded@[k], active@),
        decreases ms@.len() - i,
    {
        let info = model_info(&ms[i], downloaded[i], active);
        infos.push(info);
        i = i + 1;
    }
    proof {
        assert forall|i: int| 0 <= i < infos@.len() implies (model_ids()[i] == active_name(*active_model))
            == (#[trigger] infos@[i]).is_active by {
            assert(shows_model(infos@[i], ms@[i], downloaded@[i], active@));
            assert(registry_entry(ms@[i], i));
        }
        assert forall|i: int| 0 <= i < infos@.len() implies (#[trigger] infos@[i]).id@ == model_ids()[i]
            && infos@[i].engine@ == model_engines()[i] && infos@[i].is_downloaded == downloaded@[i] by {
            assert(shows_model(infos@[i], ms@[i], downloaded@[i], active@));
            assert(registry_entry(ms@[i], i));
        }
        assert forall|i: int| 0 <= i < infos@.len() implies {
            &&& (#[trigger] infos@[i]).name@ == model_names()[i]
            &&& infos@[i].size_mb == model_sizes()[i]
            &&& infos@[i].accuracy_rating == model_accuracy_ratings()[i]
            &&& infos@[i].speed_rating == model_speed_ratings()[i]
            &&& infos@[i].languages == model_language_counts()[i]
            &&& infos@[i].quantization@ == model_quantizations()[i]
            &&& translation_view(infos@[i].translation) == model_translations()[i]
        } by {
            assert(shows_model(infos@[i], ms@[i], downloaded@[i], active@));
            assert(registry_details(ms@[i], i));
            match (infos@[i].translation, ms@[i].translation) {
                (TranslationSupport::Pairs(x), TranslationSupport::Pairs(y)) => {
                    assert(x@ == y@);
                    assert(x@.map_values(|l: &'static str| l@) =~= y@.map_values(|l: &'static str| l@));
                },
                _ => {},
            }
        }
    }
    infos
}

} // verus!
