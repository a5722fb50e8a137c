//! The custom dictionary: how a term is normalised before it is stored, which terms
//! feed the recognition prompt, and how database errors are reported.
use vstd::prelude::*;

use crate::text::{
    append_str, byte_len, chars_of, join, join_chars, remove_char, remove_char_chars, split_whitespace,
    string_of, trim, trim_chars, utf8_len, words,
};

verus! {

/// File name of the dictionary database.
pub const DICTIONARY_FILE: &'static str = "dictionary.sqlite3";

/// Version stored in the database's `user_version`.
pub const SCHEMA_VERSION: i32 = 1;

/// The longest accepted term, in bytes.
pub const MAX_TERM_BYTES: usize = 120;

/// A stored dictionary term.
#[derive(Debug, PartialEq, Eq)]
pub struct DictionaryTerm {
    pub id: i64,
    pub term: String,
    pub created_at: String,
}

/// The kind of a database error, as far as the messages tell kinds apart.
#[derive(Debug, Clone, Copy, PartialEq, Eq, Structural)]
pub enum SqliteErrorKind {
    /// A query that must return a row returned none.
    NoRows,
    /// An SQLite failure with code `DatabaseCorrupt`.
    DatabaseCorrupt,
    /// An SQLite failure with code `DiskFull`.
    DiskFull,
    /// An SQLite failure with code `CannotOpen`.
    CannotOpen,
    /// Any other SQLite failure.
    OtherFailure,
    /// Any other error of the database layer.
    Other,
}

/// A database error: its kind, the SQLite failure message if any, and its display text.
#[derive(Debug)]
pub struct SqliteError {
    pub kind: SqliteErrorKind,
    pub message: Option<String>,
    pub display: String,
}

/// `words` of `t` joined by single spaces, NUL characters removed, then trimmed.
pub open spec fn normalized_term(t: Seq<char>) -> Seq<char> {
    trim(remove_char(join(words(t), seq![' ']), '\0'))
}

/// The outcome of normalising a term.
pub open spec fn term_outcome(t: Seq<char>) -> Result<Seq<char>, Seq<char>> {
    let n = normalized_term(t);
    if n.len() == 0 {
        Err("Dictionary term cannot be empty"@)
    } else if byte_len(n) > MAX_TERM_BYTES {
        Err("Dictionary term must be 120 characters or fewer"@)
    } else {
        Ok(n)
    }
}

/// The message for a dictionary database error.
pub open spec fn dictionary_error_message(e: SqliteError) -> Seq<char> {
    match e.kind {
        SqliteErrorKind::DatabaseCorrupt => "Dictionary database is corrupt. Move or delete dictionary.sqlite3 from the wisprflow app data folder, then restart the app."@,
        SqliteErrorKind::DiskFull => "Dictionary term could not be saved because the disk is full."@,
        SqliteErrorKind::CannotOpen => "Dictionary database could not be opened: "@ + match e.message {
            Some(m) => m@,
            None => e.display@,
        },
        _ => "Dictionary database error: "@ + e.display@,
    }
}

pub open spec fn string_result_view(r: Result<String, String>) -> Result<Seq<char>, Seq<char>> {
    match r {
        Ok(s) => Ok(s@),
        Err(e) => Err(e@),
    }
}

/// Normalises a term for storage: whitespace runs collapse to one space, NUL
/// characters are removed and the ends are trimmed; an empty term, or one longer
/// than `MAX_TERM_BYTES` bytes, is refused.
pub fn normalize_term(term: &str) -> (r: Result<String, String>)
    ensures
        string_result_view(r) == term_outcome(term@),
{
    let v = chars_of(term);
    let ws = split_whitespace(v.as_slice());
    let space: [char; 1] = [' '];
    assert(space@ =~= seq![' ']);
    let joined = join_chars(&ws, &space);
    let without_nul = remove_char_chars(joined.as_slice(), '\0');
    let normalized = trim_chars(without_nul.as_slice());
    if normalized.len() == 0 {
        return Err(string_of(chars_of("Dictionary term cannot be empty").as_slice()));
    }
    let n = utf8_len(normalized.as_slice());
    if n > MAX_TERM_BYTES {
        return Err(string_of(chars_of("Dictionary term must be 120 characters or fewer").as_slice()));
    }
    Ok(string_of(normalized.as_slice()))
}

/// The message reported for a dictionary database error.
pub fn classify_sqlite_error(error: SqliteError) -> (r: String)
    ensures
        r@ == dictionary_error_message(error),
{
    let mut out: Vec<char> = Vec::new();
    match error.kind {
        SqliteErrorKind::DatabaseCorrupt => append_str(
            &mut out,
            "Dictionary database is corrupt. Move or delete dictionary.sqlite3 from the wisprflow app data folder, then restart the app.",
        ),
        SqliteErrorKind::DiskFull => append_str(
            &mut out,
            "Dictionary term could not be saved because the disk is full.",
        ),
        SqliteErrorKind::CannotOpen => {
            append_str(&mut out, "Dictionary database could not be opened: ");
            match &error.message {
                Some(m) => append_str(&mut out, m.as_str()),
                None => append_str(&mut out, error.display.as_str()),
            }
        },
        _ => {
            append_str(&mut out, "Dictionary database error: ");
            append_str(&mut out, error.display.as_str());
        },
    }
    string_of(out.as_slice())
}

/// The words of the terms, in the order listed, for the recognition prompt.
pub fn prompt_terms(terms: Vec<DictionaryTerm>) -> (r: Vec<String>)
    ensures
        r@.len() == terms@.len(),
        forall|i: int| 0 <= i < terms@.len() ==> #[trigger] r@[i] == terms@[i].term,
{
    let mut r: Vec<String> = Vec::new();
    let mut i: usize = 0;
    while i < terms.len()
        invariant
            i <= terms@.len(),
            r@.len() == i,
            forall|k: int| 0 <= k < i ==> #[trigger] r@[k] == terms@[k].term,
        decreases terms@.len() - i,
    {
        r.push(terms[i].term.clone());
        i += 1;
    }
    r
}

/// The outcome of looking up one row: the row, `None` when there is none, or the
/// message for any other error.
pub fn row_or_none<T>(result: Result<T, SqliteError>) -> (r: Result<Option<T>, String>)
    ensures
        match result {
            Ok(t) => r == Ok::<Option<T>, String>(Some(t)),
            Err(e) => if e.kind == SqliteErrorKind::NoRows {
                r == Ok::<Option<T>, String>(None)
            } else {
                r matches Err(m) && m@ == dictionary_error_message(e)
            },
        },
{
    match result {
        Ok(t) => Ok(Some(t)),
        Err(e) => {
            if e.kind == SqliteErrorKind::NoRows {
                Ok(None)
            } else {
                Err(classify_sqlite_error(e))
            }
        },
    }
}

/// The term that `add_term` returns once the insert ran: the stored term with the
/// normalised text, or an error when it cannot be found.
pub fn saved_term(found: Result<Option<DictionaryTerm>, String>) -> (r: Result<DictionaryTerm, String>)
    ensures
        match found {
            Ok(Some(t)) => r == Ok::<DictionaryTerm, String>(t),
            Ok(None) => r matches Err(m) && m@ == "Dictionary term could not be saved"@,
            Err(e) => r == Err::<DictionaryTerm, String>(e),
        },
{
    match found {
        Ok(Some(t)) => Ok(t),
        Ok(None) => Err(string_of(chars_of("Dictionary term could not be saved").as_slice())),
        Err(e) => Err(e),
    }
}

} // verus!
