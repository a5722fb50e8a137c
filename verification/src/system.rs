//! System integration: the launch-at-login command and registry value, hotkey
//! registration errors, and the self-checks that the validation report lists.
use vstd::prelude::*;

use crate::text::{
    append_chars, append_str, before_first, chars_of, contains_chars, contains_sub, decimal,
    decimal_of, find_sub, join, join_chars, lower, occurs_at, split_char, split_on, string_of,
    to_lower, trim, trim_chars,
};

verus! {

/// Registry key of the programs started at login.
pub const RUN_KEY_PATH: &'static str = "HKCU\\Software\\Microsoft\\Windows\\CurrentVersion\\Run";

/// Name of this program's value under the run key.
pub const RUN_VALUE_NAME: &'static str = "wisprflow";

/// Identifier of the tray icon.
pub const TRAY_ID: &'static str = "wisprflow-tray";

/// The outcome of one check.
#[derive(Debug, Clone, Copy, PartialEq, Eq, Structural)]
pub enum ValidationStatus {
    Pass,
    Warn,
    Fail,
}

/// One self-check result.
#[derive(Debug)]
pub struct ValidationCheck {
    pub id: String,
    pub label: String,
    pub status: ValidationStatus,
    pub detail: String,
}

/// The results of all self-checks.
#[derive(Debug)]
pub struct ValidationReport {
    pub checks: Vec<ValidationCheck>,
}

/// Why registering a hotkey failed.
#[derive(Debug)]
pub enum HotkeyRegistrationError {
    /// Another application already holds the binding.
    AlreadyRegistered,
    /// Any other failure, with its display text.
    Other(String),
}

/// The check `c` has this id, label, status and detail.
pub open spec fn check_is(
    c: ValidationCheck,
    id: Seq<char>,
    label: Seq<char>,
    status: ValidationStatus,
    detail: Seq<char>,
) -> bool {
    c.id@ == id && c.label@ == label && c.status == status && c.detail@ == detail
}

/// The lines of `s` (`str::lines`): split at `\n`, a `\r` before the `\n`
/// removed, and no empty last line after a final `\n`.
pub open spec fn text_lines(s: Seq<char>) -> Seq<Seq<char>> {
    let parts = split_char(s, '\n');
    let n = parts.len();
    let kept = if parts[n - 1].len() == 0 { parts.drop_last() } else { parts };
    Seq::new(
        kept.len(),
        |i: int|
            if i < n - 1 && kept[i].len() > 0 && kept[i].last() == '\r' {
                kept[i].drop_last()
            } else {
                kept[i]
            },
    )
}

/// The value that a `reg query` line names after `REG_SZ`, trimmed, if any.
pub open spec fn reg_sz_value(line: Seq<char>) -> Option<Seq<char>> {
    if contains_sub(line, "REG_SZ"@) {
        let i = choose|i: int|
            occurs_at(line, "REG_SZ"@, i) && forall|j: int| 0 <= j < i ==> !occurs_at(line, "REG_SZ"@, j);
        let v = trim(line.skip(i + 6));
        if v.len() > 0 {
            Some(v)
        } else {
            None
        }
    } else {
        None
    }
}

/// The value of the first line of `lines` that mentions `name` and has one.
#[verifier::opaque]
pub open spec fn first_run_value(lines: Seq<Seq<char>>, name: Seq<char>) -> Option<Seq<char>>
    decreases lines.len(),
{
    if lines.len() == 0 {
        None
    } else if contains_sub(lines[0], name) && reg_sz_value(lines[0]) is Some {
        reg_sz_value(lines[0])
    } else {
        first_run_value(lines.drop_first(), name)
    }
}

/// The view of an optional string.
pub open spec fn opt_str_view(r: Option<String>) -> Option<Seq<char>> {
    match r {
        Some(s) => Some(s@),
        None => None,
    }
}

/// The command that starts `exe`: its path in double quotes.
pub fn startup_command_for(exe: &str) -> (r: String)
    ensures
        r@ == seq!['"'] + exe@ + seq!['"'],
{
    let mut out: Vec<char> = Vec::new();
    out.push('"');
    append_str(&mut out, exe);
    out.push('"');
    string_of(out.as_slice())
}

/// The file name of a worker executable on a platform (`.exe` on Windows).
pub fn worker_binary_name(base: &str, windows: bool) -> (r: String)
    ensures
        windows ==> r@ == base@ + ".exe"@,
        !windows ==> r@ == base@,
{
    let mut out: Vec<char> = Vec::new();
    append_str(&mut out, base);
    if windows {
        append_str(&mut out, ".exe");
    }
    string_of(out.as_slice())
}

/// The message for a failed hotkey registration.
pub fn format_hotkey_registration_error(hotkey_label: &str, error: HotkeyRegistrationError) -> (r:
    String)
    ensures
        error is AlreadyRegistered ==> r@ == "Hotkey `"@ + hotkey_label@
            + "` is already reserved by another application. Choose a different binding."@,
        error matches HotkeyRegistrationError::Other(d) ==> r@ == "Failed to register hotkey `"@
            + hotkey_label@ + "`: "@ + d@,
{
    let mut out: Vec<char> = Vec::new();
    match error {
        HotkeyRegistrationError::AlreadyRegistered => {
            append_str(&mut out, "Hotkey `");
            append_str(&mut out, hotkey_label);
            append_str(
                &mut out,
                "` is already reserved by another application. Choose a different binding.",
            );
        },
        HotkeyRegistrationError::Other(d) => {
            append_str(&mut out, "Failed to register hotkey `");
            append_str(&mut out, hotkey_label);
            append_str(&mut out, "`: ");
            append_str(&mut out, d.as_str());
        },
    }
    string_of(out.as_slice())
}

/// Whether a failed `reg delete` only means that the value did not exist.
pub fn is_missing_run_value_error(error: &str) -> (r: bool)
    ensures
        r == (contains_sub(lower(error@), "unable to find"@) || contains_sub(
            lower(error@),
            "was unable to find"@,
        )),
{
    let e = to_lower(chars_of(error).as_slice());
    let a = chars_of("unable to find");
    let b = chars_of("was unable to find");
    contains_chars(e.as_slice(), a.as_slice()) || contains_chars(e.as_slice(), b.as_slice())
}

fn lines_of(s: &[char]) -> (r: Vec<Vec<char>>)
    ensures
        r@.map_values(|w: Vec<char>| w@) == text_lines(s@),
{
    let parts = split_on(s, '\n');
    let ghost ps = parts@.map_values(|w: Vec<char>| w@);
    proof {
        crate::text::lemma_split_nonempty(s@, '\n');
    }
    let n = parts.len();
    let keep = if parts[n - 1].len() == 0 { n - 1 } else { n };
    let ghost kept = if ps[n - 1].len() == 0 { ps.drop_last() } else { ps };
    assert(kept.len() == keep);
    let mut r: Vec<Vec<char>> = Vec::new();
    let mut i: usize = 0;
    while i < keep
        invariant
            i <= keep,
            keep <= n,
            n == parts@.len(),
            ps == parts@.map_values(|w: Vec<char>| w@),
            ps == split_char(s@, '\n'),
            kept.len() == keep,
            forall|k: int| 0 <= k < keep ==> kept[k] == ps[k],
            r@.len() == i,
            forall|k: int|
                0 <= k < i ==> (#[trigger] r@[k])@ == (if k < n - 1 && kept[k].len() > 0
                    && kept[k].last() == '\r' {
                    kept[k].drop_last()
                } else {
                    kept[k]
                }),
        decreases keep - i,
    {
        let part = &parts[i];
        let mut line: Vec<char> = Vec::new();
        if i < n - 1 && part.len() > 0 && part[part.len() - 1] == '\r' {
            let mut k: usize = 0;
            while k < part.len() - 1
                invariant
                    k <= part@.len() - 1,
                    part@.len() > 0,
                    line@ == part@.take(k as int),
                decreases part@.len() - 1 - k,
            {
                line.push(part[k]);
                k += 1;
                assert(line@ =~= part@.take(k as int));
            }
            assert(line@ =~= part@.drop_last());
        } else {
            append_chars(&mut line, part.as_slice());
        }
        assert(kept[i as int] == part@);
        r.push(line);
        i += 1;
    }
    assert(r@.map_values(|w: Vec<char>| w@) =~= text_lines(s@));
    r
}

fn reg_value_of(line: &[char]) -> (r: Option<Vec<char>>)
    ensures
        match r {
            Some(v) => reg_sz_value(line@) == Some(v@),
            None => reg_sz_value(line@) is None,
        },
{
    let marker = chars_of("REG_SZ");
    proof {
        reveal_strlit("REG_SZ");
    }
    match find_sub(line, marker.as_slice()) {
        None => None,
        Some(i) => {
            assert(marker@.len() == 6);
            assert(occurs_at(line@, marker@, i as int));
            let end = line.len();
            assert(i + 6 <= end);
            proof {
                let k = choose|k: int|
                    occurs_at(line@, "REG_SZ"@, k) && forall|j: int|
                        0 <= j < k ==> !occurs_at(line@, "REG_SZ"@, j);
                assert(k == i as int) by {
                    if k < i {
                    } else if k > i {
                    }
                }
            }
            let mut rest: Vec<char> = Vec::new();
            let mut k: usize = i + 6;
            while k < line.len()
                invariant
                    i + 6 <= k <= line@.len(),
                    rest@ == line@.subrange(i + 6, k as int),
                decreases line@.len() - k,
            {
                rest.push(line[k]);
                k += 1;
                assert(rest@ =~= line@.subrange(i + 6, k as int));
            }
            assert(rest@ =~= line@.skip(i + 6));
            let v = trim_chars(rest.as_slice());
            if v.len() > 0 {
                Some(v)
            } else {
                None
            }
        },
    }
}

proof fn lemma_first_run_value_step(ls: Seq<Seq<char>>, name: Seq<char>, i: int)
    requires
        0 <= i < ls.len(),
    ensures
        first_run_value(ls.skip(i), name) == if line_value_spec(ls[i], name) is Some {
            line_value_spec(ls[i], name)
        } else {
            first_run_value(ls.skip(i + 1), name)
        },
{
    reveal(first_run_value);
    assert(ls.skip(i)[0] == ls[i]);
    assert(ls.skip(i).drop_first() =~= ls.skip(i + 1));
}

/// The value of a line that mentions `name` and has one.
pub open spec fn line_value_spec(line: Seq<char>, name: Seq<char>) -> Option<Seq<char>> {
    if contains_sub(line, name) && reg_sz_value(line) is Some {
        reg_sz_value(line)
    } else {
        None
    }
}

fn line_value(line: &[char], name: &[char]) -> (r: Option<Vec<char>>)
    ensures
        match r {
            Some(v) => line_value_spec(line@, name@) == Some(v@),
            None => line_value_spec(line@, name@) is None,
        },
{
    if contains_chars(line, name) {
        reg_value_of(line)
    } else {
        None
    }
}

/// The startup command that `reg query` output `stdout` shows for the value `name`:
/// the text after `REG_SZ` on the first line that mentions `name` and has one.
pub fn parse_run_value(stdout: &str, name: &str) -> (r: Option<String>)
    ensures
        opt_str_view(r) == first_run_value(text_lines(stdout@), name@),
{
    let s = chars_of(stdout);
    let n = chars_of(name);
    let lines = lines_of(s.as_slice());
    let ghost ls = lines@.map_values(|w: Vec<char>| w@);
    let mut i: usize = 0;
    assert(ls.skip(0) =~= ls);
    while i < lines.len()
        invariant
            i <= lines@.len(),
            ls == lines@.map_values(|w: Vec<char>| w@),
            ls == text_lines(stdout@),
            n@ == name@,
            first_run_value(ls, name@) == first_run_value(ls.skip(i as int), name@),
        decreases lines@.len() - i,
    {
        let value = line_value(lines[i].as_slice(), n.as_slice());
        proof {
            assert(ls[i as int] == lines@[i as int]@);
            lemma_first_run_value_step(ls, name@, i as int);
        }
        match value {
            Some(v) => {
                return Some(string_of(v.as_slice()));
            },
            None => {},
        }
        i += 1;
    }
    assert(ls.skip(lines@.len() as int).len() == 0);
    proof {
        reveal(first_run_value);
    }
    None
}

/// The launch-at-login check: the setting `launch_at_login` against the registry
/// value (`registry`), which should contain the command `expected` (or anything, when
/// the command is unknown and `expected` is empty).
pub fn check_launch_at_login(
    launch_at_login: bool,
    registry: Result<Option<String>, String>,
    expected: &str,
) -> (r: ValidationCheck)
    ensures
        r.id@ == "launch-at-login"@,
        r.label@ == "Launch at login"@,
        match registry {
            Ok(Some(value)) => if launch_at_login {
                let ok = expected@.len() == 0 || contains_sub(
                    value@,
                    crate::refinement::strip_both(expected@, '"'),
                );
                if ok {
                    r.status == ValidationStatus::Pass && r.detail@
                        == "Registry entry is present for the current app binary."@
                } else {
                    r.status == ValidationStatus::Warn && r.detail@
                        == "Registry entry exists, but it does not match the current executable path."@
                }
            } else {
                r.status == ValidationStatus::Fail && r.detail@
                    == "Settings disable launch-at-login, but a startup registry entry still exists."@
            },
            Ok(None) => if launch_at_login {
                r.status == ValidationStatus::Fail && r.detail@
                    == "Launch-at-login is enabled, but the startup registry entry is missing."@
            } else {
                r.status == ValidationStatus::Pass && r.detail@
                    == "Launch-at-login is disabled and no startup entry is registered."@
            },
            Err(e) => r.status == ValidationStatus::Warn && r.detail@
                == "Startup registry could not be queried: "@ + e@,
        },
{
    let id = string_of(chars_of("launch-at-login").as_slice());
    let label = string_of(chars_of("Launch at login").as_slice());
    match registry {
        Ok(Some(value)) => {
            if launch_at_login {
                let exp = chars_of(expected);
                let unquoted = crate::refinement::strip_char(exp.as_slice(), '"');
                let v = chars_of(value.as_str());
                let ok = exp.len() == 0 || contains_chars(v.as_slice(), unquoted.as_slice());
                if ok {
                    ValidationCheck {
                        id,
                        label,
                        status: ValidationStatus::Pass,
                        detail: string_of(
                            chars_of("Registry entry is present for the current app binary.").as_slice(),
                        ),
                    }
                } else {
                    ValidationCheck {
                        id,
                        label,
                        status: ValidationStatus::Warn,
                        detail: string_of(
                            chars_of(
                                "Registry entry exists, but it does not match the current executable path.",
                            ).as_slice(),
                        ),
                    }
                }
            } else {
                ValidationCheck {
                    id,
                    label,
                    status: ValidationStatus::Fail,
                    detail: string_of(
                        chars_of(
                            "Settings disable launch-at-login, but a startup registry entry still exists.",
                        ).as_slice(),
                    ),
                }
            }
        },
        Ok(None) => {
            if launch_at_login {
                ValidationCheck {
                    id,
                    label,
                    status: ValidationStatus::Fail,
                    detail: string_of(
                        chars_of(
                            "Launch-at-login is enabled, but the startup registry entry is missing.",
                        ).as_slice(),
                    ),
                }
            } else {
                ValidationCheck {
                    id,
                    label,
                    status: ValidationStatus::Pass,
                    detail: string_of(
                        chars_of("Launch-at-login is disabled and no startup entry is registered.").as_slice(),
                    ),
                }
            }
        },
        Err(e) => {
            let mut d: Vec<char> = Vec::new();
            append_str(&mut d, "Startup registry could not be queried: ");
            append_str(&mut d, e.as_str());
            ValidationCheck { id, label, status: ValidationStatus::Warn, detail: string_of(d.as_slice()) }
        },
    }
}

/// The tray check.
pub fn check_tray_ready(tray_ready: bool) -> (r: ValidationCheck)
    ensures
        tray_ready ==> check_is(
            r,
            "tray"@,
            "System tray"@,
            ValidationStatus::Pass,
            "Tray icon is registered and available for background control."@,
        ),
        !tray_ready ==> check_is(
            r,
            "tray"@,
            "System tray"@,
            ValidationStatus::Fail,
            "Tray icon is missing, so background controls are not available."@,
        ),
{
    ValidationCheck {
        id: string_of(chars_of("tray").as_slice()),
        label: string_of(chars_of("System tray").as_slice()),
        status: if tray_ready {
            ValidationStatus::Pass
        } else {
            ValidationStatus::Fail
        },
        detail: if tray_ready {
            string_of(chars_of("Tray icon is registered and available for background control.").as_slice())
        } else {
            string_of(
                chars_of("Tray icon is missing, so background controls are not available.").as_slice(),
            )
        },
    }
}

/// The overlay window check.
pub fn check_pill_window(pill_ready: bool) -> (r: ValidationCheck)
    ensures
        pill_ready ==> check_is(
            r,
            "pill-window"@,
            "Aurora pill window"@,
            ValidationStatus::Pass,
            "The pill overlay window is available for state-driven UI feedback."@,
        ),
        !pill_ready ==> check_is(
            r,
            "pill-window"@,
            "Aurora pill window"@,
            ValidationStatus::Fail,
            "The pill overlay window could not be found."@,
        ),
{
    ValidationCheck {
        id: string_of(chars_of("pill-window").as_slice()),
        label: string_of(chars_of("Aurora pill window").as_slice()),
        status: if pill_ready {
            ValidationStatus::Pass
        } else {
            ValidationStatus::Fail
        },
        detail: if pill_ready {
            string_of(
                chars_of("The pill overlay window is available for state-driven UI feedback.").as_slice(),
            )
        } else {
            string_of(chars_of("The pill overlay window could not be found.").as_slice())
        },
    }
}

/// The paths of the binaries that do not exist, in order.
pub open spec fn missing_paths(binaries: Seq<(String, bool)>) -> Seq<Seq<char>>
    decreases binaries.len(),
{
    if binaries.len() == 0 {
        Seq::empty()
    } else {
        let prev = missing_paths(binaries.drop_last());
        if binaries.last().1 {
            prev
        } else {
            prev.push(binaries.last().0@)
        }
    }
}

/// The worker check: `binaries` lists each worker path and whether it exists, or
/// says why the paths could not be worked out.
pub fn check_worker_binaries(binaries: Result<Vec<(String, bool)>, String>) -> (r: ValidationCheck)
    ensures
        r.id@ == "workers"@,
        r.label@ == "Native workers"@,
        match binaries {
            Ok(b) => if missing_paths(b@).len() == 0 {
                r.status == ValidationStatus::Pass && r.detail@
                    == "Speech and refinement worker executables are present next to the app."@
            } else {
                r.status == ValidationStatus::Warn && r.detail@ == "Missing worker binaries: "@
                    + join(missing_paths(b@), ", "@)
            },
            Err(e) => r.status == ValidationStatus::Warn && r.detail == e,
        },
{
    let id = string_of(chars_of("workers").as_slice());
    let label = string_of(chars_of("Native workers").as_slice());
    match binaries {
        Ok(b) => {
            let mut missing: Vec<Vec<char>> = Vec::new();
            let mut i: usize = 0;
            while i < b.len()
                invariant
                    i <= b@.len(),
                    missing@.map_values(|w: Vec<char>| w@) == missing_paths(b@.take(i as int)),
                decreases b@.len() - i,
            {
                assert(b@.take(i + 1).drop_last() =~= b@.take(i as int));
                if !b[i].1 {
                    missing.push(chars_of(b[i].0.as_str()));
                }
                assert(missing@.map_values(|w: Vec<char>| w@) =~= missing_paths(b@.take(i + 1)));
                i += 1;
            }
            assert(b@.take(b@.len() as int) =~= b@);
            if missing.len() == 0 {
                ValidationCheck {
                    id,
                    label,
                    status: ValidationStatus::Pass,
                    detail: string_of(
                        chars_of(
                            "Speech and refinement worker executables are present next to the app.",
                        ).as_slice(),
                    ),
                }
            } else {
                let sep = chars_of(", ");
                let joined = join_chars(&missing, sep.as_slice());
                let mut d: Vec<char> = Vec::new();
                append_str(&mut d, "Missing worker binaries: ");
                append_chars(&mut d, joined.as_slice());
                ValidationCheck { id, label, status: ValidationStatus::Warn, detail: string_of(d.as_slice()) }
            }
        },
        Err(e) => ValidationCheck { id, label, status: ValidationStatus::Warn, detail: e },
    }
}

/// The dictionary check, for `term_count` stored terms.
pub fn check_dictionary_seed(term_count: usize) -> (r: ValidationCheck)
    ensures
        r.id@ == "dictionary"@,
        r.label@ == "Dictionary biasing"@,
        term_count == 0 ==> r.status == ValidationStatus::Warn && r.detail@
            == "No dictionary terms exist yet; add at least one domain term before manual QA."@,
        term_count > 0 ==> r.status == ValidationStatus::Pass && r.detail@ == decimal(term_count as nat)
            + " dictionary term(s) are available for manual bias-validation."@,
{
    let id = string_of(chars_of("dictionary").as_slice());
    let label = string_of(chars_of("Dictionary biasing").as_slice());
    if term_count == 0 {
        ValidationCheck {
            id,
            label,
            status: ValidationStatus::Warn,
            detail: string_of(
                chars_of("No dictionary terms exist yet; add at least one domain term before manual QA.").as_slice(),
            ),
        }
    } else {
        let mut d = decimal_of(term_count as u64);
        append_str(&mut d, " dictionary term(s) are available for manual bias-validation.");
        ValidationCheck { id, label, status: ValidationStatus::Pass, detail: string_of(d.as_slice()) }
    }
}

/// The cloud key check for the provider named `provider`, given the key lookup.
pub fn check_cloud_provider_status(provider: &str, lookup: Result<Option<String>, String>) -> (r:
    ValidationCheck)
    ensures
        r.id@ == "cloud-key"@,
        r.label@ == "Cloud provider key"@,
        match lookup {
            Ok(Some(_)) => r.status == ValidationStatus::Pass && r.detail@ == "A "@ + provider@
                + " API key is available in Windows Credential Manager."@,
            Ok(None) => r.status == ValidationStatus::Warn && r.detail@ == "No "@ + provider@
                + " API key is configured yet; cloud-engine QA will need one."@,
            Err(e) => r.status == ValidationStatus::Warn && r.detail@ == "Credential lookup failed: "@
                + e@,
        },
{
    let id = string_of(chars_of("cloud-key").as_slice());
    let label = string_of(chars_of("Cloud provider key").as_slice());
    let mut d: Vec<char> = Vec::new();
    match lookup {
        Ok(Some(_)) => {
            append_str(&mut d, "A ");
            append_str(&mut d, provider);
            append_str(&mut d, " API key is available in Windows Credential Manager.");
            ValidationCheck { id, label, status: ValidationStatus::Pass, detail: string_of(d.as_slice()) }
        },
        Ok(None) => {
            append_str(&mut d, "No ");
            append_str(&mut d, provider);
            append_str(&mut d, " API key is configured yet; cloud-engine QA will need one.");
            ValidationCheck { id, label, status: ValidationStatus::Warn, detail: string_of(d.as_slice()) }
        },
        Err(e) => {
            append_str(&mut d, "Credential lookup failed: ");
            append_str(&mut d, e.as_str());
            ValidationCheck { id, label, status: ValidationStatus::Warn, detail: string_of(d.as_slice()) }
        },
    }
}

/// The audio-on-disk check: `scan` is the audio files found in the application data
/// directory, or why the scan failed; `Err` outside when the directory is unknown.
pub fn check_audio_disk_hygiene(scan: Result<Result<Vec<String>, String>, String>) -> (r:
    ValidationCheck)
    ensures
        r.id@ == "audio-disk"@,
        r.label@ == "Audio disk hygiene"@,
        match scan {
            Ok(Ok(paths)) => if paths@.len() == 0 {
                r.status == ValidationStatus::Pass && r.detail@
                    == "No audio artifacts were found in the wisprflow app data directory."@
            } else {
                r.status == ValidationStatus::Fail && r.detail@ == "Potential audio artifacts detected: "@
                    + join(paths@.map_values(|p: String| p@), ", "@)
            },
            Ok(Err(e)) => r.status == ValidationStatus::Warn && r.detail@
                == "Failed to scan app data directory: "@ + e@,
            Err(e) => r.status == ValidationStatus::Warn && r.detail@
                == "App data directory is unavailable: "@ + e@,
        },
{
    let id = string_of(chars_of("audio-disk").as_slice());
    let label = string_of(chars_of("Audio disk hygiene").as_slice());
    let mut d: Vec<char> = Vec::new();
    match scan {
        Ok(Ok(paths)) => {
            if paths.len() == 0 {
                return ValidationCheck {
                    id,
                    label,
                    status: ValidationStatus::Pass,
                    detail: string_of(
                        chars_of("No audio artifacts were found in the wisprflow app data directory.").as_slice(),
                    ),
                };
            }
            let mut parts: Vec<Vec<char>> = Vec::new();
            let mut i: usize = 0;
            while i < paths.len()
                invariant
                    i <= paths@.len(),
                    parts@.map_values(|w: Vec<char>| w@) == paths@.take(i as int).map_values(
                        |p: String| p@,
                    ),
                decreases paths@.len() - i,
            {
                let ghost before = parts@;
                parts.push(chars_of(paths[i].as_str()));
                proof {
                    let lhs = parts@.map_values(|w: Vec<char>| w@);
                    let rhs = paths@.take(i + 1).map_values(|p: String| p@);
                    assert(before.map_values(|w: Vec<char>| w@).len() == i);
                    assert(lhs.len() == rhs.len());
                    assert forall|k: int| 0 <= k < lhs.len() implies lhs[k] == rhs[k] by {
                        if k < i {
                            assert(lhs[k] == before.map_values(|w: Vec<char>| w@)[k]);
                            assert(rhs[k] == paths@.take(i as int).map_values(|p: String| p@)[k]);
                        }
                    }
                    assert(lhs =~= rhs);
                }
                i += 1;
            }
            assert(paths@.take(paths@.len() as int) =~= paths@);
            let sep = chars_of(", ");
            let joined = join_chars(&parts, sep.as_slice());
            append_str(&mut d, "Potential audio artifacts detected: ");
            append_chars(&mut d, joined.as_slice());
            ValidationCheck { id, label, status: ValidationStatus::Fail, detail: string_of(d.as_slice()) }
        },
        Ok(Err(e)) => {
            append_str(&mut d, "Failed to scan app data directory: ");
            append_str(&mut d, e.as_str());
            ValidationCheck { id, label, status: ValidationStatus::Warn, detail: string_of(d.as_slice()) }
        },
        Err(e) => {
            append_str(&mut d, "App data directory is unavailable: ");
            append_str(&mut d, e.as_str());
            ValidationCheck { id, label, status: ValidationStatus::Warn, detail: string_of(d.as_slice()) }
        },
    }
}

/// Extensions of files that hold audio.
pub open spec fn audio_extensions() -> Seq<Seq<char>> {
    seq!["wav"@, "mp3"@, "m4a"@, "flac"@, "ogg"@, "pcm"@, "raw"@]
}

/// Whether a file with this extension (if any) holds audio, ignoring ASCII case.
pub fn is_audio_artifact(extension: Option<&str>) -> (r: bool)
    ensures
        match extension {
            Some(e) => r == audio_extensions().contains(lower(e@)),
            None => !r,
        },
{
    match extension {
        None => false,
        Some(e) => {
            let l = to_lower(chars_of(e).as_slice());
            let exts: [&str; 7] = ["wav", "mp3", "m4a", "flac", "ogg", "pcm", "raw"];
            let ghost xs = exts@.map_values(|x: &str| x@);
            assert(xs =~= audio_extensions());
            let mut i: usize = 0;
            while i < 7
                invariant
                    i <= 7,
                    exts@.len() == 7,
                    xs == audio_extensions(),
                    l@ == lower(e@),
                    extension == Some(e),
                    xs == exts@.map_values(|x: &str| x@),
                    forall|k: int| 0 <= k < i ==> xs[k] != l@,
                decreases 7 - i,
            {
                if crate::text::chars_eq_str(l.as_slice(), exts[i]) {
                    assert(xs[i as int] == l@);
                    assert(audio_extensions()[i as int] == l@);
                    assert(l@ == lower(e@));
                    assert(audio_extensions().contains(lower(e@)));
                    return true;
                }
                i += 1;
            }
            false
        },
    }
}

// ---------------------------------------------------------------------------
// Tray menu and window events

/// Ids of the tray-menu entries.
pub const MENU_OPEN_SETTINGS: &'static str = "open-settings";

pub const MENU_TOGGLE_PILL: &'static str = "toggle-pill";

pub const MENU_QUIT: &'static str = "quit";

/// What a tray-menu entry does.
#[derive(Debug, Clone, Copy, PartialEq, Eq, Structural)]
pub enum TrayAction {
    /// Show the settings window.
    OpenSettings,
    /// Show or hide the overlay pill, and save the choice.
    TogglePill,
    /// Ask the engine to stop and leave.
    Quit,
}

/// The action of the tray-menu entry with id `id`, if it is one of ours.
pub fn tray_menu_action(id: &str) -> (r: Option<TrayAction>)
    ensures
        id@ == "open-settings"@ ==> r == Some(TrayAction::OpenSettings),
        id@ == "toggle-pill"@ ==> r == Some(TrayAction::TogglePill),
        id@ == "quit"@ ==> r == Some(TrayAction::Quit),
        id@ != "open-settings"@ && id@ != "toggle-pill"@ && id@ != "quit"@ ==> r is None,
{
    proof {
        reveal_strlit("open-settings");
        reveal_strlit("toggle-pill");
        reveal_strlit("quit");
        assert("open-settings"@.len() == 13);
        assert("toggle-pill"@.len() == 11);
        assert("quit"@.len() == 4);
    }
    let v = chars_of(id);
    if crate::text::chars_eq_str(v.as_slice(), "open-settings") {
        Some(TrayAction::OpenSettings)
    } else if crate::text::chars_eq_str(v.as_slice(), "toggle-pill") {
        Some(TrayAction::TogglePill)
    } else if crate::text::chars_eq_str(v.as_slice(), "quit") {
        Some(TrayAction::Quit)
    } else {
        None
    }
}

/// A click on the tray icon opens the settings when it is the left button coming up.
pub fn tray_click_opens_settings(left_button: bool, button_up: bool) -> (r: bool)
    ensures
        r == (left_button && button_up),
{
    left_button && button_up
}

/// Whether a request to close the window `window_label` is turned into hiding it:
/// the main window stays alive in the tray unless the app is quitting.
pub fn hide_instead_of_close(window_label: &str, allow_close: bool) -> (r: bool)
    ensures
        r == (window_label@ == "main"@ && !allow_close),
{
    let v = chars_of(window_label);
    crate::text::chars_eq_str(v.as_slice(), "main") && !allow_close
}

/// The message of a failed `reg` command: its error output, or its standard output
/// when the error output is empty (both trimmed).
pub fn reg_failure_message(stderr: &str, stdout: &str) -> (r: String)
    ensures
        trim(stderr@).len() == 0 ==> r@ == trim(stdout@),
        trim(stderr@).len() > 0 ==> r@ == trim(stderr@),
{
    let e = trim_chars(chars_of(stderr).as_slice());
    if e.len() == 0 {
        string_of(trim_chars(chars_of(stdout).as_slice()).as_slice())
    } else {
        string_of(e.as_slice())
    }
}

/// The text of a failed hotkey registration (see `format_hotkey_registration_error`).
pub open spec fn registration_error_text(hotkey_label: Seq<char>, error: HotkeyRegistrationError) -> Seq<
    char,
> {
    match error {
        HotkeyRegistrationError::AlreadyRegistered => "Hotkey `"@ + hotkey_label
            + "` is already reserved by another application. Choose a different binding."@,
        HotkeyRegistrationError::Other(d) => "Failed to register hotkey `"@ + hotkey_label + "`: "@
            + d@,
    }
}

/// How far replacing the registered hotkey has got.
#[derive(Debug, Clone, Copy, PartialEq, Eq, Structural)]
pub enum HotkeyChangePhase {
    /// The new hotkey is being registered.
    Registering,
    /// The new hotkey is registered; the old one is being released.
    ReleasingOld,
    /// The change is over.
    Finished,
}

/// What happened to the last request of a hotkey change.
#[derive(Debug)]
pub enum HotkeyChangeEvent {
    /// Registering the new hotkey succeeded or failed.
    Registered(Result<(), HotkeyRegistrationError>),
    /// Releasing the old hotkey succeeded or failed.
    OldReleased(Result<(), String>),
}

/// What the surroundings do next in a hotkey change, in order.
#[derive(Debug, PartialEq, Eq)]
pub enum HotkeyChangeAction {
    /// Register the new hotkey.
    RegisterNew,
    /// Release the old hotkey.
    UnregisterOld,
    /// Release the new hotkey again.
    UnregisterNew,
    /// The change is over: `Ok(true)` when the new hotkey is now the registered
    /// one (record it as active), `Ok(false)` when nothing changed.
    Finish(Result<bool, String>),
}

/// Starts replacing the registered hotkey `current_id` by `new_id`: nothing
/// happens when they are the same; otherwise the new one is registered first.
pub fn change_hotkey(current_id: u32, new_id: u32) -> (r: (HotkeyChangePhase, HotkeyChangeAction))
    ensures
        current_id == new_id ==> r == (
            HotkeyChangePhase::Finished,
            HotkeyChangeAction::Finish(Ok::<bool, String>(false)),
        ),
        current_id != new_id ==> r == (HotkeyChangePhase::Registering, HotkeyChangeAction::RegisterNew),
{
    if current_id == new_id {
        (HotkeyChangePhase::Finished, HotkeyChangeAction::Finish(Ok(false)))
    } else {
        (HotkeyChangePhase::Registering, HotkeyChangeAction::RegisterNew)
    }
}

/// One step of a hotkey change for the binding `hotkey_label`. The old hotkey is
/// released only once the new one is registered; if that release fails, the new
/// one is released again so that exactly the old one stays registered. An event
/// that does not belong to the phase changes nothing.
pub fn hotkey_change_step(phase: HotkeyChangePhase, hotkey_label: &str, event: HotkeyChangeEvent) -> (r: (
    HotkeyChangePhase,
    Vec<HotkeyChangeAction>,
))
    ensures
        match (phase, event) {
            (HotkeyChangePhase::Registering, HotkeyChangeEvent::Registered(Err(e))) => {
                &&& r.0 == HotkeyChangePhase::Finished
                &&& r.1@.len() == 1
                &&& r.1@[0] matches HotkeyChangeAction::Finish(Err(m)) && m@
                    == registration_error_text(hotkey_label@, e)
            },
            (HotkeyChangePhase::Registering, HotkeyChangeEvent::Registered(Ok(()))) => r.0
                == HotkeyChangePhase::ReleasingOld && r.1@ == seq![HotkeyChangeAction::UnregisterOld],
            (HotkeyChangePhase::ReleasingOld, HotkeyChangeEvent::OldReleased(Ok(()))) => r.0
                == HotkeyChangePhase::Finished && r.1@ == seq![
                HotkeyChangeAction::Finish(Ok::<bool, String>(true)),
            ],
            (HotkeyChangePhase::ReleasingOld, HotkeyChangeEvent::OldReleased(Err(e))) => {
                &&& r.0 == HotkeyChangePhase::Finished
                &&& r.1@.len() == 2
                &&& r.1@[0] == HotkeyChangeAction::UnregisterNew
                &&& r.1@[1] matches HotkeyChangeAction::Finish(Err(m)) && m@
                    == "Failed to unregister previous hotkey: "@ + e@
            },
            _ => r.0 == phase && r.1@.len() == 0,
        },
{
    let mut actions: Vec<HotkeyChangeAction> = Vec::new();
    match phase {
        HotkeyChangePhase::Registering => match event {
            HotkeyChangeEvent::Registered(Err(e)) => {
                actions.push(
                    HotkeyChangeAction::Finish(Err(format_hotkey_registration_error(hotkey_label, e))),
                );
                (HotkeyChangePhase::Finished, actions)
            },
            HotkeyChangeEvent::Registered(Ok(())) => {
                actions.push(HotkeyChangeAction::UnregisterOld);
                assert(actions@ =~= seq![HotkeyChangeAction::UnregisterOld]);
                (HotkeyChangePhase::ReleasingOld, actions)
            },
            _ => (phase, actions),
        },
        HotkeyChangePhase::ReleasingOld => match event {
            HotkeyChangeEvent::OldReleased(Ok(())) => {
                actions.push(HotkeyChangeAction::Finish(Ok(true)));
                assert(actions@ =~= seq![HotkeyChangeAction::Finish(Ok::<bool, String>(true))]);
                (HotkeyChangePhase::Finished, actions)
            },
            HotkeyChangeEvent::OldReleased(Err(e)) => {
                let mut out: Vec<char> = Vec::new();
                append_str(&mut out, "Failed to unregister previous hotkey: ");
                append_str(&mut out, e.as_str());
                actions.push(HotkeyChangeAction::UnregisterNew);
                actions.push(HotkeyChangeAction::Finish(Err(string_of(out.as_slice()))));
                (HotkeyChangePhase::Finished, actions)
            },
            _ => (phase, actions),
        },
        HotkeyChangePhase::Finished => (phase, actions),
    }
}

} // verus!
