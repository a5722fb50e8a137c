use wisprtype::dictionary::{
    self, normalize_term, prompt_terms, row_or_none, saved_term, DictionaryTerm, SqliteError,
    SqliteErrorKind,
};
use wisprtype::history::{
    self, entry_or_none, like_pattern, normalize_text, plan_add, plan_list_recent, plan_search,
    saved_entry, TranscriptionEntry,
};
use wisprtype::settings::{
    map_fs_error, resolve_model_root_dir, AppSettings, FsErrorKind, ModelSize, SettingsStore,
};
use wisprtype::history::entry_to_reinsert;

fn err(kind: SqliteErrorKind, message: Option<&str>) -> SqliteError {
    SqliteError { kind, message: message.map(str::to_string), display: "display text".to_string() }
}

#[test]
fn terms_are_normalised() {
    assert_eq!(normalize_term("  rust \t  analyzer\0 "), Ok("rust analyzer".to_string()));
    assert_eq!(normalize_term(" \0 "), Err("Dictionary term cannot be empty".to_string()));
    assert_eq!(normalize_term(&"x".repeat(120)), Ok("x".repeat(120)));
    assert_eq!(
        normalize_term(&"x".repeat(121)),
        Err("Dictionary term must be 120 characters or fewer".to_string())
    );
    assert_eq!(
        normalize_term(&"é".repeat(61)),
        Err("Dictionary term must be 120 characters or fewer".to_string())
    );
}

#[test]
fn dictionary_errors() {
    assert!(dictionary::classify_sqlite_error(err(SqliteErrorKind::DatabaseCorrupt, None)).starts_with("Dictionary database is corrupt."));
    assert_eq!(
        dictionary::classify_sqlite_error(err(SqliteErrorKind::DiskFull, None)),
        "Dictionary term could not be saved because the disk is full."
    );
    assert_eq!(
        dictionary::classify_sqlite_error(err(SqliteErrorKind::CannotOpen, Some("locked"))),
        "Dictionary database could not be opened: locked"
    );
    assert_eq!(
        dictionary::classify_sqlite_error(err(SqliteErrorKind::CannotOpen, None)),
        "Dictionary database could not be opened: display text"
    );
    assert_eq!(
        dictionary::classify_sqlite_error(err(SqliteErrorKind::Other, None)),
        "Dictionary database error: display text"
    );
    assert_eq!(row_or_none::<i64>(Ok(5)), Ok(Some(5)));
    assert_eq!(row_or_none::<i64>(Err(err(SqliteErrorKind::NoRows, None))), Ok(None));
    assert_eq!(
        row_or_none::<i64>(Err(err(SqliteErrorKind::OtherFailure, None))),
        Err("Dictionary database error: display text".to_string())
    );
}

#[test]
fn saved_terms_and_prompt_terms() {
    let t = DictionaryTerm { id: 1, term: "Tauri".to_string(), created_at: "now".to_string() };
    let u = DictionaryTerm { id: 2, term: "Whisper".to_string(), created_at: "now".to_string() };
    assert_eq!(prompt_terms(vec![t, u]), vec!["Tauri".to_string(), "Whisper".to_string()]);
    let t = DictionaryTerm { id: 1, term: "Tauri".to_string(), created_at: "now".to_string() };
    assert_eq!(saved_term(Ok(Some(t))).map(|t| t.id), Ok(1));
    assert_eq!(saved_term(Ok(None)).err(), Some("Dictionary term could not be saved".to_string()));
    assert_eq!(saved_term(Err("x".to_string())).err(), Some("x".to_string()));
}

#[test]
fn like_patterns_escape_wildcards() {
    assert_eq!(like_pattern("50%_off\\"), "%50\\%\\_off\\\\%");
    assert_eq!(like_pattern("plain"), "%plain%");
}

#[test]
fn searches_are_planned() {
    let p = plan_search(Some("  hello\0 "), 10_000);
    assert_eq!(p.pattern, Some("%hello%".to_string()));
    assert_eq!(p.limit, 500);
    let p = plan_search(Some("   "), -3);
    assert_eq!(p.pattern, None);
    assert_eq!(p.limit, 1);
    let p = plan_list_recent(20);
    assert_eq!(p.pattern, None);
    assert_eq!(p.limit, 20);
}

#[test]
fn new_entries_are_normalised() {
    assert_eq!(normalize_text(" hi \0"), Ok("hi".to_string()));
    assert_eq!(plan_add("  hello ", -4), Ok(("hello".to_string(), 0)));
    assert_eq!(plan_add("hello", 7), Ok(("hello".to_string(), 7)));
    assert_eq!(plan_add(" \0 ", 7), Err("Transcription text cannot be empty".to_string()));
}

#[test]
fn history_errors_and_lookups() {
    assert_eq!(
        history::classify_sqlite_error(err(SqliteErrorKind::DiskFull, None)),
        "Transcription history could not be saved because the disk is full."
    );
    assert_eq!(
        history::classify_sqlite_error(err(SqliteErrorKind::OtherFailure, None)),
        "Transcription history database error: display text"
    );
    let e = TranscriptionEntry { id: 3, text: "t".to_string(), created_at: "c".to_string(), duration_secs: 2 };
    assert_eq!(entry_or_none(Ok(e)).map(|o| o.map(|e| e.id)), Ok(Some(3)));
    assert_eq!(entry_or_none(Err(err(SqliteErrorKind::NoRows, None))), Ok(None));
    assert_eq!(
        saved_entry(Ok(None)).err(),
        Some("Transcription history entry could not be saved".to_string())
    );
}

#[test]
fn model_sizes() {
    assert_eq!(ModelSize::default(), ModelSize::Base);
    assert_eq!(ModelSize::Tiny.filename(), "ggml-tiny.en.bin");
    assert_eq!(ModelSize::Large.filename(), "ggml-large-v3.bin");
    assert_eq!(
        ModelSize::Small.download_url(),
        "https://huggingface.co/ggerganov/whisper.cpp/resolve/main/ggml-small.en.bin"
    );
    assert_eq!(AppSettings::default().stt_model_size, ModelSize::Base);
}

#[test]
fn settings_file_sits_in_the_base_dir() {
    let store = SettingsStore::new("/data/WisprWin");
    assert_eq!(store.path(), "/data/WisprWin/settings.json");
    let store = SettingsStore::new("/data/WisprWin/");
    assert_eq!(store.path(), "/data/WisprWin/settings.json");
}

#[test]
fn model_root_dir() {
    assert!(resolve_model_root_dir(None).unwrap_err().contains("%AppData% is not set"));
    assert!(resolve_model_root_dir(Some(String::new())).unwrap_err().contains("%AppData% is empty"));
    assert_eq!(resolve_model_root_dir(Some("/home/u/AppData".to_string())), Ok("/home/u/AppData/WisprWin/models".to_string()));
}

#[test]
fn filesystem_errors() {
    assert_eq!(
        map_fs_error("create models", "/x", FsErrorKind::NotFound),
        "Cannot create models at '/x': path not found. Verify that %AppData% resolves to a valid directory."
    );
    assert!(map_fs_error("write", "/x", FsErrorKind::PermissionDenied).contains("permission denied"));
    assert!(map_fs_error("write", "/x", FsErrorKind::InvalidInput).contains("invalid path"));
    assert_eq!(
        map_fs_error("write", "/x", FsErrorKind::Other("boom".to_string())),
        "Failed to write at '/x': boom"
    );
}

#[test]
fn reinserting_needs_an_entry() {
    let e = TranscriptionEntry { id: 9, text: "t".to_string(), created_at: "c".to_string(), duration_secs: 1 };
    assert_eq!(entry_to_reinsert(Ok(Some(e)), 9).map(|e| e.id), Ok(9));
    assert_eq!(entry_to_reinsert(Ok(None), 42).err(), Some("Transcription 42 could not be found".to_string()));
    assert_eq!(entry_to_reinsert(Ok(None), -7).err(), Some("Transcription -7 could not be found".to_string()));
    assert_eq!(entry_to_reinsert(Ok(None), i64::MIN).err(), Some(format!("Transcription {} could not be found", i64::MIN)));
    assert_eq!(entry_to_reinsert(Err("db".to_string()), 1).err(), Some("db".to_string()));
}
