use vstd::prelude::*;

use crate::models::{model_ids, models};
use crate::paths::StoragePath;
use crate::text::{contains_str, has_subseq, replace_all, replace_str, str_eq};

verus! {

/// Per-model transcription settings.
#[derive(Debug, Clone)]
pub struct ModelSettings {
    pub language: String,
    pub initial_prompt: Option<String>,
}

impl Default for ModelSettings {
    fn default() -> (m: Self)
        ensures
            m.language@ == "auto"@,
            m.initial_prompt is None,
    {
        ModelSettings { language: String::from_str("auto"), initial_prompt: None }
    }
}

fn copy_model_settings(m: &ModelSettings) -> (r: ModelSettings)
    ensures
        r.language@ == m.language@,
        r.initial_prompt matches Some(p) ==> m.initial_prompt matches Some(q) && p@ == q@,
        r.initial_prompt is None <==> m.initial_prompt is None,
{
    ModelSettings {
        language: m.language.clone(),
        initial_prompt: match &m.initial_prompt {
            Some(p) => Some(p.clone()),
            None => None,
        },
    }
}

/// Settings per model identifier; no identifier appears twice.
#[derive(Debug)]
pub struct ModelSettingsMap {
    entries: Vec<(String, ModelSettings)>,
}

/// The identifiers of a table's entries, in order.
pub open spec fn entry_ids(entries: Seq<(String, ModelSettings)>) -> Seq<Seq<char>> {
    entries.map_values(|e: (String, ModelSettings)| e.0@)
}

/// The table after setting `e.1` for identifier `e.0`: the entry with that
/// identifier is replaced where there is one, else `e` is added at the end.
pub open spec fn with_entry(entries: Seq<(String, ModelSettings)>, e: (String, ModelSettings)) -> Seq<(String, ModelSettings)> {
    match first_entry(entries, e.0@) {
        Some(i) => entries.update(i, e),
        None => entries.push(e),
    }
}

/// The table made from `es` by setting each entry in turn (a later entry
/// for the same identifier wins).
pub open spec fn with_entries(entries: Seq<(String, ModelSettings)>, es: Seq<(String, ModelSettings)>) -> Seq<(String, ModelSettings)>
    decreases es.len(),
{
    if es.len() == 0 {
        entries
    } else {
        with_entry(with_entries(entries, es.drop_last()), es.last())
    }
}

/// The position of the first entry for `id`, if any.
pub open spec fn first_entry(entries: Seq<(String, ModelSettings)>, id: Seq<char>) -> Option<int>
    decreases entries.len(),
{
    if entries.len() == 0 {
        None
    } else if entries[0].0@ == id {
        Some(0)
    } else {
        match first_entry(entries.drop_first(), id) {
            Some(i) => Some(i + 1),
            None => None,
        }
    }
}

/// `o` with `d` added to the position it holds.
pub open spec fn shift(o: Option<int>, d: int) -> Option<int> {
    match o {
        Some(i) => Some(i + d),
        None => None,
    }
}

proof fn lemma_first_entry_skip(s: Seq<(String, ModelSettings)>, id: Seq<char>, i: int)
    requires
        0 <= i <= s.len(),
        forall|k: int| 0 <= k < i ==> s[k].0@ != id,
    ensures
        first_entry(s, id) == shift(first_entry(s.skip(i), id), i),
    decreases i,
{
    if i == 0 {
        assert(s.skip(0) =~= s);
    } else {
        lemma_first_entry_skip(s.drop_first(), id, i - 1);
        assert(s.drop_first().skip(i - 1) =~= s.skip(i));
    }
}

proof fn lemma_first_entry_found(s: Seq<(String, ModelSettings)>, id: Seq<char>)
    ensures
        match first_entry(s, id) {
            Some(i) => 0 <= i < s.len() && s[i].0@ == id && forall|k: int| 0 <= k < i ==> s[k].0@ != id,
            None => forall|k: int| 0 <= k < s.len() ==> s[k].0@ != id,
        },
    decreases s.len(),
{
    if s.len() > 0 {
        lemma_first_entry_found(s.drop_first(), id);
        if s[0].0@ != id {
            assert forall|k: int| 0 <= k < s.len() && s[k].0@ == id implies k > 0 && s.drop_first()[k - 1].0@ == id by {
            }
        }
    }
}

proof fn lemma_with_entry_distinct(s: Seq<(String, ModelSettings)>, e: (String, ModelSettings))
    requires
        entry_ids(s).no_duplicates(),
    ensures
        entry_ids(with_entry(s, e)).no_duplicates(),
{
    lemma_first_entry_found(s, e.0@);
    let r = with_entry(s, e);
    assert forall|i: int, j: int| 0 <= i < entry_ids(r).len() && 0 <= j < entry_ids(r).len() && i != j
        implies entry_ids(r)[i] != entry_ids(r)[j] by {
        match first_entry(s, e.0@) {
            Some(k) => {
                assert(entry_ids(r)[i] == entry_ids(s)[i]);
                assert(entry_ids(r)[j] == entry_ids(s)[j]);
            },
            None => {
                if i < s.len() && j < s.len() {
                    assert(entry_ids(r)[i] == entry_ids(s)[i]);
                    assert(entry_ids(r)[j] == entry_ids(s)[j]);
                } else if i < s.len() {
                    assert(entry_ids(r)[i] == s[i].0@);
                } else {
                    assert(entry_ids(r)[j] == s[j].0@);
                }
            },
        }
    }
}

impl ModelSettingsMap {
    #[verifier::type_invariant]
    spec fn distinct_ids(&self) -> bool {
        entry_ids(self.entries@).no_duplicates()
    }

    /// The entries of the table, in order.
    pub closed spec fn items(&self) -> Seq<(String, ModelSettings)> {
        self.entries@
    }

    /// An empty table.
    pub fn new() -> (m: Self)
        ensures
            m.items().len() == 0,
    {
        let m = ModelSettingsMap { entries: Vec::new() };
        proof {
            assert(entry_ids(m.entries@) =~= Seq::<Seq<char>>::empty());
        }
        m
    }

    /// Whether the table has no entries.
    pub fn is_empty(&self) -> (r: bool)
        ensures
            r == (self.items().len() == 0),
    {
        self.entries.len() == 0
    }

    /// The entries of the table, in order; no identifier appears twice.
    pub fn as_vec(&self) -> (v: &Vec<(String, ModelSettings)>)
        ensures
            v@ == self.items(),
            entry_ids(v@).no_duplicates(),
    {
        proof {
            use_type_invariant(self);
        }
        &self.entries
    }

    /// The position of the entry for `id`, if any.
    fn position(&self, id: &str) -> (r: Option<usize>)
        ensures
            match first_entry(self.items(), id@) {
                Some(i) => r matches Some(j) && j as int == i,
                None => r is None,
            },
    {
        let mut i: usize = 0;
        while i < self.entries.len()
            invariant
                i <= self.entries@.len(),
                forall|k: int| 0 <= k < i ==> self.entries@[k].0@ != id@,
            decreases self.entries@.len() - i,
        {
            if str_eq(self.entries[i].0.as_str(), id) {
                proof {
                    lemma_first_entry_skip(self.entries@, id@, i as int);
                    assert(self.entries@.skip(i as int)[0] == self.entries@[i as int]);
                }
                return Some(i);
            }
            i = i + 1;
        }
        proof {
            lemma_first_entry_skip(self.entries@, id@, i as int);
            assert(self.entries@.skip(i as int).len() == 0);
        }
        None
    }

    /// Sets the settings of model `id`, replacing any it had.
    pub fn insert(&mut self, id: String, settings: ModelSettings)
        ensures
            final(self).items() == with_entry(old(self).items(), (id, settings)),
    {
        proof {
            use_type_invariant(&*self);
        }
        let pos = self.position(id.as_str());
        let ghost old_entries = self.entries@;
        let ghost e = (id, settings);
        let mut entries: Vec<(String, ModelSettings)> = Vec::new();
        proof {
            assert(entry_ids(entries@) =~= Seq::<Seq<char>>::empty());
        }
        std::mem::swap(&mut entries, &mut self.entries);
        proof {
            lemma_first_entry_found(old_entries, id@);
        }
        assert(entries@ == old_entries);
        match pos {
            Some(i) => {
                entries.set(i, (id, settings));
                assert(entries@ == old_entries.update(i as int, e));
            },
            None => {
                entries.push((id, settings));
                assert(entries@ == old_entries.push(e));
            },
        }
        proof {
            lemma_with_entry_distinct(old_entries, e);
            match first_entry(old_entries, id@) {
                Some(k) => {
                    assert(pos matches Some(j) && j as int == k);
                    assert(entries@ == old_entries.update(k, e));
                },
                None => {
                    assert(entries@ == old_entries.push(e));
                },
            }
            assert(entries@ == with_entry(old_entries, e));
        }
        self.entries = entries;
    }

    /// The table of the given entries, set in order: where an identifier
    /// occurs more than once, its last entry wins.
    pub fn from_entries(es: Vec<(String, ModelSettings)>) -> (m: Self)
        ensures
            m.items() == with_entries(Seq::empty(), es@),
    {
        let mut m = ModelSettingsMap::new();
        let ghost all = es@;
        let n = es.len();
        let mut src = es;
        let mut rest: Vec<(String, ModelSettings)> = Vec::new();
        proof {
            assert(all.take(n as int) =~= all);
        }
        while src.len() > 0
            invariant
                n == all.len(),
                src@ == all.take(src@.len() as int),
                rest@.len() == n - src@.len(),
                forall|k: int| 0 <= k < rest@.len() ==> #[trigger] rest@[k] == all[n - 1 - k],
            decreases src@.len(),
        {
            let e = src.pop().unwrap();
            proof {
                assert(all.take(src@.len() as int) =~= all.take((src@.len() + 1) as int).drop_last());
            }
            rest.push(e);
        }
        proof {
            assert(all.take(0) =~= Seq::<(String, ModelSettings)>::empty());
        }
        let mut i: usize = 0;
        while i < n
            invariant
                n == all.len(),
                i <= n,
                rest@.len() == n - i,
                forall|k: int| 0 <= k < n - i ==> #[trigger] rest@[k] == all[n - 1 - k],
                m.items() == with_entries(Seq::empty(), all.take(i as int)),
            decreases n - i,
        {
            let e = rest.pop().unwrap();
            proof {
                assert(e == all[i as int]);
                assert(all.take(i + 1).drop_last() =~= all.take(i as int));
                assert(all.take(i + 1).last() == all[i as int]);
            }
            m.insert(e.0, e.1);
            i = i + 1;
        }
        proof {
            assert(all.take(n as int) =~= all);
        }
        m
    }

    /// The settings stored for `id`, if any.
    pub fn get(&self, id: &str) -> (r: Option<&ModelSettings>)
        ensures
            match first_entry(self.items(), id@) {
                Some(i) => r == Some(&self.items()[i].1),
                None => r is None,
            },
    {
        let mut i: usize = 0;
        while i < self.entries.len()
            invariant
                i <= self.entries@.len(),
                forall|k: int| 0 <= k < i ==> self.entries@[k].0@ != id@,
            decreases self.entries@.len() - i,
        {
            if str_eq(self.entries[i].0.as_str(), id) {
                proof {
                    lemma_first_entry_skip(self.entries@, id@, i as int);
                    assert(self.entries@.skip(i as int)[0] == self.entries@[i as int]);
                }
                return Some(&self.entries[i].1);
            }
            i = i + 1;
        }
        proof {
            lemma_first_entry_skip(self.entries@, id@, i as int);
            assert(self.entries@.skip(i as int).len() == 0);
        }
        None
    }
}

/// The settings for model `id`: the stored ones, or the defaults.
pub fn model_settings_for(map: &ModelSettingsMap, id: &str) -> (m: ModelSettings)
    ensures
        match first_entry(map.items(), id@) {
            Some(i) => m.language@ == map.items()[i].1.language@ && (m.initial_prompt is None
                <==> map.items()[i].1.initial_prompt is None) && (m.initial_prompt matches Some(p)
                ==> map.items()[i].1.initial_prompt matches Some(q) && p@ == q@),
            None => m.language@ == "auto"@ && m.initial_prompt is None,
        },
{
    match map.get(id) {
        Some(m) => copy_model_settings(m),
        None => ModelSettings::default(),
    }
}

/// All user settings. The microphone gain is a 32-bit float kept by its
/// IEEE-754 bit pattern.
#[derive(Debug)]
pub struct Settings {
    pub active_model: Option<String>,
    pub hotkey: String,
    pub microphone: Option<String>,
    pub microphone_gain_bits: u32,
    pub model_settings: ModelSettingsMap,
    pub autostart: bool,
    pub silent_start: bool,
    pub sound_cues: bool,
    pub duck_audio: bool,
    pub text_input_method: String,
    pub clipboard_after: String,
    pub trailing_space: bool,
    pub send_after: String,
    pub push_to_talk: bool,
    pub cancel_hotkey: String,
    pub overlay_skin: String,
    pub overlay_position: String,
    pub app_language: String,
    pub theme: String,
    pub history_limit: u32,
}

/// Push-to-talk is on unless turned off: hold the hotkey to dictate,
/// release it to have the text pasted.
pub fn default_push_to_talk() -> (r: bool)
    ensures
        r,
{
    true
}

/// Escape cancels a recording unless another hotkey is chosen.
pub fn default_cancel_hotkey() -> (r: String)
    ensures
        r@ == "Escape"@,
{
    String::from_str("Escape")
}

/// The full overlay unless another skin is chosen.
pub fn default_overlay_skin() -> (r: String)
    ensures
        r@ == "full"@,
{
    String::from_str("full")
}

/// The overlay sits at the bottom centre unless placed elsewhere.
pub fn default_overlay_position() -> (r: String)
    ensures
        r@ == "bottom-center"@,
{
    String::from_str("bottom-center")
}

/// Unit microphone gain (the bit pattern of the float 1.0).
pub fn default_microphone_gain_bits() -> (r: u32)
    ensures
        r == 0x3F80_0000,
{
    0x3F80_0000
}

/// The interface follows the system language unless chosen.
pub fn default_app_language() -> (r: String)
    ensures
        r@ == "system"@,
{
    String::from_str("system")
}

/// The theme follows the system unless chosen.
pub fn default_theme() -> (r: String)
    ensures
        r@ == "system"@,
{
    String::from_str("system")
}

/// Default for switches that are on unless turned off.
pub fn default_true() -> (r: bool)
    ensures
        r,
{
    true
}

/// Text is pasted unless another input method is chosen.
pub fn default_text_input_method() -> (r: String)
    ensures
        r@ == "paste"@,
{
    String::from_str("paste")
}

/// The previous clipboard is restored after pasting unless chosen otherwise.
pub fn default_clipboard_after() -> (r: String)
    ensures
        r@ == "restore"@,
{
    String::from_str("restore")
}

/// Nothing is sent after the text unless chosen.
pub fn default_send_after() -> (r: String)
    ensures
        r@ == "none"@,
{
    String::from_str("none")
}

/// Ten history records are kept unless another limit is chosen.
pub fn default_history_limit() -> (r: u32)
    ensures
        r == 10,
{
    10
}

/// The settings of a fresh installation.
pub open spec fn is_default_settings(s: Settings) -> bool {
    &&& s.active_model is None
    &&& s.hotkey@ == "Control+Space"@
    &&& s.microphone is None
    &&& s.microphone_gain_bits == 0x3F80_0000
    &&& s.model_settings.items().len() == 0
    &&& !s.autostart
    &&& !s.silent_start
    &&& s.sound_cues
    &&& !s.duck_audio
    &&& s.text_input_method@ == "paste"@
    &&& s.clipboard_after@ == "restore"@
    &&& !s.trailing_space
    &&& s.send_after@ == "none"@
    &&& s.push_to_talk
    &&& s.cancel_hotkey@ == "Escape"@
    &&& s.overlay_skin@ == "full"@
    &&& s.overlay_position@ == "bottom-center"@
    &&& s.app_language@ == "system"@
    &&& s.theme@ == "system"@
    &&& s.history_limit == 10
}

impl Default for Settings {
    fn default() -> (s: Self)
        ensures
            is_default_settings(s),
    {
        Settings {
            active_model: None,
            hotkey: String::from_str("Control+Space"),
            microphone: None,
            microphone_gain_bits: default_microphone_gain_bits(),
            model_settings: ModelSettingsMap::new(),
            autostart: false,
            silent_start: false,
            sound_cues: true,
            duck_audio: false,
            text_input_method: default_text_input_method(),
            clipboard_after: default_clipboard_after(),
            trailing_space: false,
            send_after: default_send_after(),
            push_to_talk: default_push_to_talk(),
            cancel_hotkey: default_cancel_hotkey(),
            overlay_skin: default_overlay_skin(),
            overlay_position: default_overlay_position(),
            app_language: default_app_language(),
            theme: default_theme(),
            history_limit: default_history_limit(),
        }
    }
}

/// The directory of the settings file: "Vispeak" inside the user's
/// roaming application data directory (`%APPDATA%`).
pub fn get_settings_dir(roaming_data_dir: &StoragePath) -> (p: StoragePath)
    ensures
        p.parts() == roaming_data_dir.parts().push("Vispeak"@),
{
    roaming_data_dir.join("Vispeak")
}

/// The single settings file, "settings.json" directly inside the settings
/// directory of the user's roaming application data directory.
pub fn get_settings_path(roaming_data_dir: &StoragePath) -> (p: StoragePath)
    ensures
        p.parts() == roaming_data_dir.parts().push("Vispeak"@).push("settings.json"@),
{
    get_settings_dir(roaming_data_dir).join("settings.json")
}

/// The table that a legacy global language setting becomes: that
/// language, without prompt, for every registered model in order.
pub open spec fn language_for_all_models(entries: Seq<(String, ModelSettings)>, lang: Seq<char>) -> bool {
    &&& entries.len() == model_ids().len()
    &&& forall|i: int| 0 <= i < entries.len() ==> {
        &&& (#[trigger] entries[i]).0@ == model_ids()[i]
        &&& entries[i].1.language@ == lang
        &&& entries[i].1.initial_prompt is None
    }
}

/// The hotkey with the retired "CommandOrControl" spelling replaced.
pub open spec fn migrated_hotkey(h: Seq<char>) -> Seq<char> {
    if has_subseq(h, "CommandOrControl"@) {
        replace_all(h, "CommandOrControl"@, "Control"@)
    } else {
        h
    }
}

/// Fields that migration does not touch are equal.
pub open spec fn same_unmigrated(a: Settings, b: Settings) -> bool {
    &&& a.active_model == b.active_model
    &&& a.microphone == b.microphone
    &&& a.microphone_gain_bits == b.microphone_gain_bits
    &&& a.autostart == b.autostart
    &&& a.sound_cues == b.sound_cues
    &&& a.duck_audio == b.duck_audio
    &&& a.text_input_method == b.text_input_method
    &&& a.clipboard_after == b.clipboard_after
    &&& a.trailing_space == b.trailing_space
    &&& a.send_after == b.send_after
    &&& a.push_to_talk == b.push_to_talk
    &&& a.cancel_hotkey == b.cancel_hotkey
    &&& a.overlay_skin == b.overlay_skin
    &&& a.overlay_position == b.overlay_position
    &&& a.app_language == b.app_language
    &&& a.theme == b.theme
    &&& a.history_limit == b.history_limit
}

/// Brings settings written by older versions up to date: the retired
/// hotkey spelling, a global language (now per model, applied when no
/// model has settings yet) and the "start minimized" switch (now "silent
/// start"). Returns whether anything changed, in which case the settings
/// are to be saved back.
pub fn migrate_settings(
    settings: &mut Settings,
    legacy_language: Option<String>,
    legacy_autostart_minimized: Option<bool>,
) -> (mutated: bool)
    ensures
        final(settings).hotkey@ == migrated_hotkey(old(settings).hotkey@),
        (legacy_language matches Some(lang) && old(settings).model_settings.items().len() == 0) ==> (
        legacy_language matches Some(lang) && language_for_all_models(
            final(settings).model_settings.items(),
            lang@,
        )),
        !(legacy_language is Some && old(settings).model_settings.items().len() == 0)
            ==> final(settings).model_settings == old(settings).model_settings,
        final(settings).silent_start == (old(settings).silent_start
            || legacy_autostart_minimized == Some(true)),
        same_unmigrated(*final(settings), *old(settings)),
        mutated == (has_subseq(old(settings).hotkey@, "CommandOrControl"@)
            || (legacy_language is Some && old(settings).model_settings.items().len() == 0)
            || (legacy_autostart_minimized == Some(true) && !old(settings).silent_start)),
{
    let mut mutated = false;
    if contains_str(settings.hotkey.as_str(), "CommandOrControl") {
        proof {
            reveal_strlit("CommandOrControl");
        }
        settings.hotkey = replace_str(settings.hotkey.as_str(), "CommandOrControl", "Control");
        mutated = true;
    }
    if let Some(lang) = legacy_language {
        if settings.model_settings.is_empty() {
            let ms = models();
            let mut entries: Vec<(String, ModelSettings)> = Vec::new();
            let mut i: usize = 0;
            while i < ms.len()
                invariant
                    ms@.len() == model_ids().len(),
                    forall|k: int| 0 <= k < ms@.len() ==> crate::models::registry_entry(#[trigger] ms@[k], k),
                    i <= ms@.len(),
                    entries@.len() == i,
                    forall|k: int| 0 <= k < i ==> {
                        &&& (#[trigger] entries@[k]).0@ == model_ids()[k]
                        &&& entries@[k].1.language@ == lang@
                        &&& entries@[k].1.initial_prompt is None
                    },
                decreases ms@.len() - i,
            {
                entries.push((ms[i].id.to_owned(), ModelSettings { language: lang.clone(), initial_prompt: None }));
                proof {
                    assert(crate::models::registry_entry(ms@[i as int], i as int));
                }
                i = i + 1;
            }
            proof {
                crate::models::lemma_model_ids_distinct();
                assert(entry_ids(entries@) =~= model_ids());
            }
            settings.model_settings = ModelSettingsMap { entries };
            mutated = true;
        }
    }
    if let Some(am) = legacy_autostart_minimized {
        if am && !settings.silent_start {
            settings.silent_start = true;
            mutated = true;
        }
    }
    mutated
}

/// The settings in effect: the defaults when the settings file is missing
/// or unreadable (`parsed` is `None`), else the stored settings brought up
/// to date. The flag says whether they must be written back.
pub fn load_settings(
    parsed: Option<Settings>,
    legacy_language: Option<String>,
    legacy_autostart_minimized: Option<bool>,
) -> (r: (Settings, bool))
    ensures
        parsed is None ==> is_default_settings(r.0) && !r.1,
        parsed matches Some(s) ==> {
            &&& r.0.hotkey@ == migrated_hotkey(s.hotkey@)
            &&& same_unmigrated(r.0, s)
            &&& r.0.silent_start == (s.silent_start || legacy_autostart_minimized == Some(true))
            &&& (legacy_language matches Some(lang) && s.model_settings.items().len() == 0) ==> (
                legacy_language matches Some(lang) && language_for_all_models(r.0.model_settings.items(), lang@))
            &&& !(legacy_language is Some && s.model_settings.items().len() == 0) ==> r.0.model_settings
                == s.model_settings
            &&& r.1 == (has_subseq(s.hotkey@, "CommandOrControl"@) || (legacy_language is Some
                && s.model_settings.items().len() == 0) || (legacy_autostart_minimized == Some(true)
                && !s.silent_start))
        },
{
    match parsed {
        None => (Settings::default(), false),
        Some(s) => {
            let mut s = s;
            let mutated = migrate_settings(&mut s, legacy_language, legacy_autostart_minimized);
            (s, mutated)
        },
    }
}

/// Forgets the selected model when it is `id` (whose files were removed);
/// returns whether the settings changed.
pub fn clear_active_model_if(settings: &mut Settings, id: &str) -> (changed: bool)
    ensures
        changed == (old(settings).active_model matches Some(a) && a@ == id@),
        changed ==> final(settings).active_model is None,
        !changed ==> final(settings).active_model == old(settings).active_model,
        final(settings).hotkey == old(settings).hotkey,
        final(settings).model_settings == old(settings).model_settings,
        final(settings).silent_start == old(settings).silent_start,
        final(settings).history_limit == old(settings).history_limit,
{
    let matches = match &settings.active_model {
        Some(a) => str_eq(a.as_str(), id),
        None => false,
    };
    if matches {
        settings.active_model = None;
    }
    matches
}

} // verus!
