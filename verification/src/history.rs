//! Transcription history: how entries are normalised before they are stored, how a
//! search query becomes a `LIKE` pattern and a row limit, and how database errors
//! are reported.
use vstd::prelude::*;

use crate::dictionary::{SqliteError, SqliteErrorKind};
use crate::text::{
    append_chars, append_str, chars_of, decimal_signed, remove_char, remove_char_chars,
    signed_decimal_of, string_of, trim, trim_chars,
};

verus! {

/// File name of the history database.
pub const HISTORY_FILE: &'static str = "transcriptions.sqlite3";

/// Version stored in the database's `user_version`.
pub const SCHEMA_VERSION: i32 = 1;

/// Bounds of the number of rows a search returns.
pub const MIN_SEARCH_LIMIT: i64 = 1;

pub const MAX_SEARCH_LIMIT: i64 = 500;

/// A stored transcription.
#[derive(Debug, PartialEq, Eq)]
pub struct TranscriptionEntry {
    pub id: i64,
    pub text: String,
    pub created_at: String,
    pub duration_secs: i64,
}

/// What a search asks the database for: rows whose text matches `pattern` (all rows
/// when `None`), newest first, at most `limit` of them.
#[derive(Debug)]
pub struct SearchPlan {
    pub pattern: Option<String>,
    pub limit: i64,
}

/// A `LIKE` pattern matching texts that contain `q` literally: `\`, `%` and `_`
/// are escaped with `\`, and the result is wrapped in `%`.
pub open spec fn escape_like(q: Seq<char>) -> Seq<char>
    decreases q.len(),
{
    if q.len() == 0 {
        Seq::empty()
    } else {
        let c = q.last();
        let prev = escape_like(q.drop_last());
        if c == '\\' || c == '%' || c == '_' {
            prev + seq!['\\', c]
        } else {
            prev.push(c)
        }
    }
}

pub open spec fn like_pattern_of(q: Seq<char>) -> Seq<char> {
    seq!['%'] + escape_like(q) + seq!['%']
}

/// A text with NUL characters removed and its ends trimmed.
pub open spec fn normalized_text(t: Seq<char>) -> Seq<char> {
    trim(remove_char(t, '\0'))
}

/// `limit` clamped to `MIN_SEARCH_LIMIT..=MAX_SEARCH_LIMIT`.
pub open spec fn clamped_limit(limit: i64) -> i64 {
    if limit < MIN_SEARCH_LIMIT {
        MIN_SEARCH_LIMIT
    } else if limit > MAX_SEARCH_LIMIT {
        MAX_SEARCH_LIMIT
    } else {
        limit
    }
}

/// The message for a history database error.
pub open spec fn history_error_message(e: SqliteError) -> Seq<char> {
    match e.kind {
        SqliteErrorKind::DatabaseCorrupt => "Transcription history database is corrupt. Move or delete transcriptions.sqlite3 from the WisprFlow app data folder, then restart the app."@,
        SqliteErrorKind::DiskFull => "Transcription history could not be saved because the disk is full."@,
        SqliteErrorKind::CannotOpen => "Transcription history database could not be opened: "@ + match e.message {
            Some(m) => m@,
            None => e.display@,
        },
        _ => "Transcription history database error: "@ + e.display@,
    }
}

/// The `LIKE` pattern for a search query.
pub fn like_pattern(query: &str) -> (r: String)
    ensures
        r@ == like_pattern_of(query@),
{
    let q = chars_of(query);
    let mut out: Vec<char> = Vec::new();
    out.push('%');
    let mut i: usize = 0;
    while i < q.len()
        invariant
            i <= q@.len(),
            out@ == seq!['%'] + escape_like(q@.take(i as int)),
        decreases q@.len() - i,
    {
        let c = q[i];
        assert(q@.take(i + 1).drop_last() =~= q@.take(i as int));
        if c == '\\' || c == '%' || c == '_' {
            out.push('\\');
        }
        out.push(c);
        assert(out@ =~= seq!['%'] + escape_like(q@.take(i + 1)));
        i += 1;
    }
    assert(q@.take(q@.len() as int) =~= q@);
    out.push('%');
    string_of(out.as_slice())
}

/// The text to store for a transcription: NUL characters removed and the ends
/// trimmed; an empty text is refused.
pub fn normalize_text(text: &str) -> (r: Result<String, String>)
    ensures
        normalized_text(text@).len() == 0 ==> (r matches Err(e) && e@
            == "Transcription text cannot be empty"@),
        normalized_text(text@).len() > 0 ==> (r matches Ok(s) && s@ == normalized_text(text@)),
{
    let v = chars_of(text);
    let without_nul = remove_char_chars(v.as_slice(), '\0');
    let normalized = trim_chars(without_nul.as_slice());
    if normalized.len() == 0 {
        return Err(string_of(chars_of("Transcription text cannot be empty").as_slice()));
    }
    Ok(string_of(normalized.as_slice()))
}

/// What a search with `query` and `limit` asks the database for: a pattern for the
/// normalised query unless it is absent or empty, and the limit clamped to
/// `MIN_SEARCH_LIMIT..=MAX_SEARCH_LIMIT`.
pub fn plan_search(query: Option<&str>, limit: i64) -> (r: SearchPlan)
    ensures
        r.limit == clamped_limit(limit),
        match query {
            Some(q) => if normalized_text(q@).len() > 0 {
                r.pattern matches Some(p) && p@ == like_pattern_of(normalized_text(q@))
            } else {
                r.pattern is None
            },
            None => r.pattern is None,
        },
{
    let clamped = if limit < MIN_SEARCH_LIMIT {
        MIN_SEARCH_LIMIT
    } else if limit > MAX_SEARCH_LIMIT {
        MAX_SEARCH_LIMIT
    } else {
        limit
    };
    let pattern = match query {
        Some(q) => {
            let v = chars_of(q);
            let without_nul = remove_char_chars(v.as_slice(), '\0');
            let normalized = trim_chars(without_nul.as_slice());
            if normalized.len() == 0 {
                None
            } else {
                let s = string_of(normalized.as_slice());
                Some(like_pattern(s.as_str()))
            }
        },
        None => None,
    };
    SearchPlan { pattern, limit: clamped }
}

/// The most recent entries: a search without a query.
pub fn plan_list_recent(limit: i64) -> (r: SearchPlan)
    ensures
        r.limit == clamped_limit(limit),
        r.pattern is None,
{
    plan_search(None, limit)
}

/// The row to insert for a new entry: the normalised text and the duration, never
/// negative.
pub fn plan_add(text: &str, duration_secs: i64) -> (r: Result<(String, i64), String>)
    ensures
        normalized_text(text@).len() == 0 ==> (r matches Err(e) && e@
            == "Transcription text cannot be empty"@),
        normalized_text(text@).len() > 0 ==> (r matches Ok((s, d)) && s@ == normalized_text(text@)
            && d == if duration_secs < 0 { 0 } else { duration_secs }),
{
    match normalize_text(text) {
        Ok(s) => Ok((s, if duration_secs < 0 { 0 } else { duration_secs })),
        Err(e) => Err(e),
    }
}

/// The message reported for a history database error.
pub fn classify_sqlite_error(error: SqliteError) -> (r: String)
    ensures
        r@ == history_error_message(error),
{
    let mut out: Vec<char> = Vec::new();
    match error.kind {
        SqliteErrorKind::DatabaseCorrupt => append_str(
            &mut out,
            "Transcription history database is corrupt. Move or delete transcriptions.sqlite3 from the WisprFlow app data folder, then restart the app.",
        ),
        SqliteErrorKind::DiskFull => append_str(
            &mut out,
            "Transcription history could not be saved because the disk is full.",
        ),
        SqliteErrorKind::CannotOpen => {
            append_str(&mut out, "Transcription history database could not be opened: ");
            match &error.message {
                Some(m) => append_str(&mut out, m.as_str()),
                None => append_str(&mut out, error.display.as_str()),
            }
        },
        _ => {
            append_str(&mut out, "Transcription history database error: ");
            append_str(&mut out, error.display.as_str());
        },
    }
    string_of(out.as_slice())
}

/// The outcome of looking up one entry: the entry, `None` when there is none, or
/// the message for any other error.
pub fn entry_or_none(result: Result<TranscriptionEntry, SqliteError>) -> (r: Result<
    Option<TranscriptionEntry>,
    String,
>)
    ensures
        match result {
            Ok(t) => r == Ok::<Option<TranscriptionEntry>, String>(Some(t)),
            Err(e) => if e.kind == SqliteErrorKind::NoRows {
                r == Ok::<Option<TranscriptionEntry>, String>(None)
            } else {
                r matches Err(m) && m@ == history_error_message(e)
            },
        },
{
    match result {
        Ok(t) => Ok(Some(t)),
        Err(e) => {
            if e.kind == SqliteErrorKind::NoRows {
                Ok(None)
            } else {
                Err(classify_sqlite_error(e))
            }
        },
    }
}

/// The entry that `add` returns once the insert ran: the stored entry, or an error
/// when it cannot be read back.
pub fn saved_entry(found: Result<Option<TranscriptionEntry>, String>) -> (r: Result<
    TranscriptionEntry,
    String,
>)
    ensures
        match found {
            Ok(Some(t)) => r == Ok::<TranscriptionEntry, String>(t),
            Ok(None) => r matches Err(m) && m@ == "Transcription history entry could not be saved"@,
            Err(e) => r == Err::<TranscriptionEntry, String>(e),
        },
{
    match found {
        Ok(Some(t)) => Ok(t),
        Ok(None) => Err(
            string_of(chars_of("Transcription history entry could not be saved").as_slice()),
        ),
        Err(e) => Err(e),
    }
}

/// The entry to insert again: the entry found under `id`, or an error naming the
/// id when there is none.
pub fn entry_to_reinsert(found: Result<Option<TranscriptionEntry>, String>, id: i64) -> (r: Result<
    TranscriptionEntry,
    String,
>)
    ensures
        match found {
            Ok(Some(t)) => r == Ok::<TranscriptionEntry, String>(t),
            Ok(None) => r matches Err(m) && m@ == "Transcription "@ + decimal_signed(id as int)
                + " could not be found"@,
            Err(e) => r == Err::<TranscriptionEntry, String>(e),
        },
{
    match found {
        Ok(Some(t)) => Ok(t),
        Ok(None) => {
            let mut out: Vec<char> = Vec::new();
            append_str(&mut out, "Transcription ");
            append_chars(&mut out, signed_decimal_of(id).as_slice());
            append_str(&mut out, " could not be found");
            Err(string_of(out.as_slice()))
        },
        Err(e) => Err(e),
    }
}

} // verus!
