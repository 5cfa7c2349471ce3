use vispeak::history::{
    audio_file_name, contains_id, enforce_limit, get_audio_dir, get_db_path, get_history_dir,
    history_enabled, history_size_bytes, orphan_audio_files, record_id_of_audio_file,
    records_without_audio,
};
use vispeak::paths::StoragePath;

#[test]
fn history_paths() {
    let data = StoragePath::from_components(vec!["d".to_string()]);
    assert_eq!(get_history_dir(&data).components, vec!["d"]);
    assert_eq!(get_audio_dir(&data).components, vec!["d", "history", "audio"]);
    assert_eq!(get_db_path(&data).components, vec!["d", "history.db"]);
}

#[test]
fn audio_file_names() {
    assert_eq!(audio_file_name(0), "0.wav");
    assert_eq!(audio_file_name(42), "42.wav");
    assert_eq!(audio_file_name(-3), "-3.wav");
    assert_eq!(audio_file_name(i64::MAX), "9223372036854775807.wav");
    assert_eq!(audio_file_name(i64::MIN), "-9223372036854775808.wav");
}

#[test]
fn audio_file_record_ids() {
    assert_eq!(record_id_of_audio_file("17.wav"), Some(17));
    assert_eq!(record_id_of_audio_file("+17.wav"), Some(17));
    assert_eq!(record_id_of_audio_file("-5.wav"), Some(-5));
    assert_eq!(record_id_of_audio_file("17.WAV"), None);
    assert_eq!(record_id_of_audio_file("17.wav.bak"), None);
    assert_eq!(record_id_of_audio_file("abc.wav"), None);
    assert_eq!(record_id_of_audio_file(".wav"), None);
    assert_eq!(record_id_of_audio_file("17"), None);
    assert_eq!(record_id_of_audio_file("1.2.wav"), None);
    assert_eq!(record_id_of_audio_file("9223372036854775807.wav"), Some(i64::MAX));
    assert_eq!(record_id_of_audio_file("9223372036854775808.wav"), None);
    assert_eq!(record_id_of_audio_file("-9223372036854775808.wav"), Some(i64::MIN));
    assert_eq!(record_id_of_audio_file("-.wav"), None);
}

#[test]
fn limit_deletes_oldest() {
    let ids = vec![5, 1, 9, 3, 7];
    let mut del = enforce_limit(&ids, 2);
    del.sort();
    assert_eq!(del, vec![1, 3, 5]);
    assert_eq!(enforce_limit(&ids, 0), Vec::<i64>::new());
    assert_eq!(enforce_limit(&ids, 5), Vec::<i64>::new());
    assert_eq!(enforce_limit(&ids, 10), Vec::<i64>::new());
    assert_eq!(enforce_limit(&ids, 1), vec![5, 1, 3, 7]);
    assert!(!history_enabled(0));
    assert!(history_enabled(1));
}

#[test]
fn orphan_cleanup_plan() {
    let ids = vec![1, 2];
    let files = vec!["1.wav".to_string(), "3.wav".to_string(), "notes.txt".to_string(), "x.wav".to_string()];
    assert_eq!(orphan_audio_files(&ids, &files), vec!["3.wav".to_string()]);
    assert_eq!(records_without_audio(&ids, &vec![true, false]), vec![2]);
    assert!(contains_id(&ids, 2));
    assert!(!contains_id(&ids, 3));
}

#[test]
fn history_size() {
    assert_eq!(history_size_bytes(Some(100), &vec![1, 2, 3]), 106);
    assert_eq!(history_size_bytes(None, &vec![]), 0);
}
