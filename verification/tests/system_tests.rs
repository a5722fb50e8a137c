use wisprtype::system::{
    check_audio_disk_hygiene, check_cloud_provider_status, check_dictionary_seed,
    check_launch_at_login, check_pill_window, check_tray_ready, check_worker_binaries,
    format_hotkey_registration_error, is_audio_artifact, is_missing_run_value_error,
    parse_run_value, startup_command_for, worker_binary_name, HotkeyRegistrationError,
    ValidationStatus,
};
use wisprtype::system::{change_hotkey, hotkey_change_step, HotkeyChangeAction, HotkeyChangeEvent, HotkeyChangePhase, hide_instead_of_close, reg_failure_message, tray_click_opens_settings, tray_menu_action, TrayAction};

#[test]
fn launch_command_quotes_paths_with_spaces() {
    let command = startup_command_for(r"C:\Program Files\wisprflow\app.exe");
    assert_eq!(command, r#""C:\Program Files\wisprflow\app.exe""#);
}

#[test]
fn hotkey_conflicts_are_reported_clearly() {
    let message =
        format_hotkey_registration_error("Super+Space", HotkeyRegistrationError::AlreadyRegistered);
    assert!(message.contains("already reserved"));
    assert!(message.contains("Super+Space"));
}

#[test]
fn other_registration_failures_keep_their_text() {
    assert_eq!(
        format_hotkey_registration_error("Ctrl+K", HotkeyRegistrationError::Other("os error 5".to_string())),
        "Failed to register hotkey `Ctrl+K`: os error 5"
    );
}

#[test]
fn missing_registry_values_are_not_errors() {
    assert!(is_missing_run_value_error("ERROR: The system was unable to find the specified registry key or value."));
    assert!(is_missing_run_value_error("Unable To Find value"));
    assert!(!is_missing_run_value_error("ERROR: Access is denied."));
}

#[test]
fn run_value_is_read_from_reg_output() {
    let out = "\r\nHKEY_CURRENT_USER\\Software\\Microsoft\\Windows\\CurrentVersion\\Run\r\n    wisprflow    REG_SZ    \"C:\\Apps\\app.exe\"\r\n\r\n";
    assert_eq!(parse_run_value(out, "wisprflow"), Some("\"C:\\Apps\\app.exe\"".to_string()));
    assert_eq!(parse_run_value(out, "other"), None);
    assert_eq!(parse_run_value("    wisprflow    REG_SZ    \n", "wisprflow"), None);
}

#[test]
fn launch_at_login_check() {
    let exe = "\"C:\\Apps\\app.exe\"";
    let c = check_launch_at_login(true, Ok(Some("\"C:\\Apps\\app.exe\"".to_string())), exe);
    assert_eq!(c.id, "launch-at-login");
    assert_eq!(c.status, ValidationStatus::Pass);
    let c = check_launch_at_login(true, Ok(Some("\"D:\\other.exe\"".to_string())), exe);
    assert_eq!(c.status, ValidationStatus::Warn);
    let c = check_launch_at_login(false, Ok(Some("x".to_string())), exe);
    assert_eq!(c.status, ValidationStatus::Fail);
    let c = check_launch_at_login(true, Ok(None), exe);
    assert_eq!(c.status, ValidationStatus::Fail);
    assert_eq!(c.detail, "Launch-at-login is enabled, but the startup registry entry is missing.");
    let c = check_launch_at_login(false, Ok(None), exe);
    assert_eq!(c.status, ValidationStatus::Pass);
    let c = check_launch_at_login(true, Err("reg missing".to_string()), exe);
    assert_eq!(c.status, ValidationStatus::Warn);
    assert_eq!(c.detail, "Startup registry could not be queried: reg missing");
    let c = check_launch_at_login(true, Ok(Some("anything".to_string())), "");
    assert_eq!(c.status, ValidationStatus::Pass);
}

#[test]
fn tray_and_pill_checks() {
    assert_eq!(check_tray_ready(true).status, ValidationStatus::Pass);
    assert_eq!(check_tray_ready(false).status, ValidationStatus::Fail);
    assert_eq!(check_pill_window(true).id, "pill-window");
    assert_eq!(check_pill_window(false).detail, "The pill overlay window could not be found.");
}

#[test]
fn worker_binary_check_lists_missing_files() {
    let c = check_worker_binaries(Ok(vec![("a.exe".to_string(), true), ("b.exe".to_string(), true)]));
    assert_eq!(c.status, ValidationStatus::Pass);
    let c = check_worker_binaries(Ok(vec![("a.exe".to_string(), false), ("b.exe".to_string(), true), ("c.exe".to_string(), false)]));
    assert_eq!(c.status, ValidationStatus::Warn);
    assert_eq!(c.detail, "Missing worker binaries: a.exe, c.exe");
    let c = check_worker_binaries(Err("no parent".to_string()));
    assert_eq!(c.detail, "no parent");
    assert_eq!(worker_binary_name("w", true), "w.exe");
    assert_eq!(worker_binary_name("w", false), "w");
}

#[test]
fn dictionary_and_cloud_checks() {
    assert_eq!(check_dictionary_seed(0).status, ValidationStatus::Warn);
    let c = check_dictionary_seed(12);
    assert_eq!(c.status, ValidationStatus::Pass);
    assert_eq!(c.detail, "12 dictionary term(s) are available for manual bias-validation.");
    let c = check_cloud_provider_status("groq", Ok(Some("k".to_string())));
    assert_eq!(c.detail, "A groq API key is available in Windows Credential Manager.");
    let c = check_cloud_provider_status("openai", Ok(None));
    assert_eq!(c.status, ValidationStatus::Warn);
    let c = check_cloud_provider_status("openai", Err("denied".to_string()));
    assert_eq!(c.detail, "Credential lookup failed: denied");
}

#[test]
fn audio_hygiene_check() {
    assert_eq!(check_audio_disk_hygiene(Ok(Ok(vec![]))).status, ValidationStatus::Pass);
    let c = check_audio_disk_hygiene(Ok(Ok(vec!["a.wav".to_string(), "b.mp3".to_string()])));
    assert_eq!(c.status, ValidationStatus::Fail);
    assert_eq!(c.detail, "Potential audio artifacts detected: a.wav, b.mp3");
    assert_eq!(check_audio_disk_hygiene(Ok(Err("io".to_string()))).detail, "Failed to scan app data directory: io");
    assert_eq!(check_audio_disk_hygiene(Err("unset".to_string())).detail, "App data directory is unavailable: unset");
}

#[test]
fn audio_extensions_ignore_case() {
    assert!(is_audio_artifact(Some("WAV")));
    assert!(is_audio_artifact(Some("flac")));
    assert!(is_audio_artifact(Some("Raw")));
    assert!(!is_audio_artifact(Some("sqlite3")));
    assert!(!is_audio_artifact(None));
}

#[test]
fn tray_menu_and_window_decisions() {
    assert_eq!(tray_menu_action("open-settings"), Some(TrayAction::OpenSettings));
    assert_eq!(tray_menu_action("toggle-pill"), Some(TrayAction::TogglePill));
    assert_eq!(tray_menu_action("quit"), Some(TrayAction::Quit));
    assert_eq!(tray_menu_action("about"), None);
    assert!(tray_click_opens_settings(true, true));
    assert!(!tray_click_opens_settings(true, false));
    assert!(!tray_click_opens_settings(false, true));
    assert!(hide_instead_of_close("main", false));
    assert!(!hide_instead_of_close("main", true));
    assert!(!hide_instead_of_close("pill", false));
    assert_eq!(reg_failure_message("  ERROR: denied \n", "out"), "ERROR: denied");
    assert_eq!(reg_failure_message(" \n", "  The operation completed. "), "The operation completed.");
}

/// Runs a hotkey change against the outcomes of registering the new hotkey and
/// releasing the old one; returns the requests made and the result.
fn run_change(
    current: u32,
    new: u32,
    registered: Result<(), HotkeyRegistrationError>,
    released: Result<(), String>,
) -> (Vec<HotkeyChangeAction>, Result<bool, String>) {
    let (mut phase, first) = change_hotkey(current, new);
    let mut requests = Vec::new();
    let mut pending = vec![first];
    let mut registered = Some(registered);
    let mut released = Some(released);
    while let Some(action) = pending.pop() {
        let event = match action {
            HotkeyChangeAction::Finish(result) => return (requests, result),
            HotkeyChangeAction::RegisterNew => HotkeyChangeEvent::Registered(registered.take().unwrap()),
            HotkeyChangeAction::UnregisterOld => HotkeyChangeEvent::OldReleased(released.take().unwrap()),
            HotkeyChangeAction::UnregisterNew => {
                requests.push(HotkeyChangeAction::UnregisterNew);
                continue;
            }
        };
        requests.push(match &event {
            HotkeyChangeEvent::Registered(_) => HotkeyChangeAction::RegisterNew,
            HotkeyChangeEvent::OldReleased(_) => HotkeyChangeAction::UnregisterOld,
        });
        let (next, actions) = hotkey_change_step(phase, "Ctrl+K", event);
        phase = next;
        pending.extend(actions.into_iter().rev());
    }
    panic!("hotkey change ended without a result");
}

#[test]
fn hotkey_changes_keep_exactly_one_registered() {
    let (requests, result) = run_change(4, 4, Ok(()), Ok(()));
    assert_eq!(result, Ok(false));
    assert!(requests.is_empty());

    let (requests, result) = run_change(4, 5, Ok(()), Ok(()));
    assert_eq!(result, Ok(true));
    assert_eq!(requests, vec![HotkeyChangeAction::RegisterNew, HotkeyChangeAction::UnregisterOld]);

    let (requests, result) = run_change(4, 5, Err(HotkeyRegistrationError::AlreadyRegistered), Ok(()));
    assert_eq!(
        result,
        Err("Hotkey `Ctrl+K` is already reserved by another application. Choose a different binding.".to_string())
    );
    assert_eq!(requests, vec![HotkeyChangeAction::RegisterNew]);

    let (requests, result) = run_change(4, 5, Ok(()), Err("not registered".to_string()));
    assert_eq!(result, Err("Failed to unregister previous hotkey: not registered".to_string()));
    assert_eq!(
        requests,
        vec![HotkeyChangeAction::RegisterNew, HotkeyChangeAction::UnregisterOld, HotkeyChangeAction::UnregisterNew]
    );
}

#[test]
fn hotkey_change_events_out_of_turn_change_nothing() {
    let (phase, actions) = hotkey_change_step(HotkeyChangePhase::Registering, "K", HotkeyChangeEvent::OldReleased(Ok(())));
    assert_eq!(phase, HotkeyChangePhase::Registering);
    assert!(actions.is_empty());
}
