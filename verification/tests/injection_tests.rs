use wisprtype::injection::{
    send_input_result, InjectionAction, InjectionMode, InjectionPhase, KeyInput, PasteAction,
    PasteEvent, PastePhase, TextInjector, KEYEVENTF_KEYUP, KEYEVENTF_UNICODE, VK_CONTROL, VK_V,
};

#[test]
fn short_text_prefers_typing() {
    assert_eq!(TextInjector::preferred_mode("short note"), InjectionMode::Typing);
}

#[test]
fn long_text_prefers_clipboard_paste() {
    assert_eq!(
        TextInjector::preferred_mode(&"a".repeat(100)),
        InjectionMode::ClipboardPaste
    );
}

#[test]
fn fallback_mode_switches_to_the_other_injection_path() {
    assert_eq!(
        TextInjector::fallback_mode(InjectionMode::Typing),
        InjectionMode::ClipboardPaste
    );
    assert_eq!(
        TextInjector::fallback_mode(InjectionMode::ClipboardPaste),
        InjectionMode::Typing
    );
}

#[test]
fn ninety_nine_characters_are_still_typed() {
    assert_eq!(TextInjector::preferred_mode(&"é".repeat(99)), InjectionMode::Typing);
}

/// Runs an insertion against `outcome`, the result of each send by mode; returns
/// the sends made and the result.
fn run_injection(text: &str, outcome: impl Fn(InjectionMode) -> Result<(), String>) -> (Vec<(String, InjectionMode)>, Result<(), String>) {
    let mut sends = Vec::new();
    let (mut injection, first) = TextInjector::inject(text.to_string());
    let mut action = Some(first);
    loop {
        match action {
            Some(InjectionAction::Send { text, mode }) => {
                sends.push((text, mode));
                let (next, following) = TextInjector::after_send(injection, outcome(mode));
                injection = next;
                action = following;
            }
            Some(InjectionAction::Finish(result)) => return (sends, result),
            None => panic!("insertion ended without a result"),
        }
    }
}

#[test]
fn empty_text_is_not_sent() {
    let (sends, result) = run_injection("", |_| Ok(()));
    assert_eq!(result, Ok(()));
    assert!(sends.is_empty());
}

#[test]
fn preferred_mode_is_tried_first() {
    let (sends, result) = run_injection("hello", |_| Ok(()));
    assert_eq!(result, Ok(()));
    assert_eq!(sends, vec![("hello".to_string(), InjectionMode::Typing)]);
}

#[test]
fn failed_typing_falls_back_to_paste() {
    let (sends, result) = run_injection("hello", |m| {
        if m == InjectionMode::Typing { Err("blocked".to_string()) } else { Ok(()) }
    });
    assert_eq!(result, Ok(()));
    assert_eq!(
        sends,
        vec![
            ("hello".to_string(), InjectionMode::Typing),
            ("hello".to_string(), InjectionMode::ClipboardPaste)
        ]
    );
}

#[test]
fn both_paths_failing_reports_both_errors() {
    let (sends, result) = run_injection("hello", |m| match m {
        InjectionMode::Typing => Err("no focus".to_string()),
        InjectionMode::ClipboardPaste => Err("clipboard busy".to_string()),
    });
    assert_eq!(sends.len(), 2);
    assert_eq!(
        result,
        Err("Primary Typing injection failed: no focus; fallback ClipboardPaste injection failed: clipboard busy".to_string())
    );
}

#[test]
fn a_finished_insertion_sends_nothing_more() {
    let (injection, _) = TextInjector::inject("hi".to_string());
    let (injection, action) = TextInjector::after_send(injection, Ok(()));
    assert_eq!(action, Some(InjectionAction::Finish(Ok(()))));
    assert_eq!(injection.phase, InjectionPhase::Finished);
    let (_, action) = TextInjector::after_send(injection, Err("late".to_string()));
    assert_eq!(action, None);
}

#[test]
fn paste_restores_the_clipboard() {
    let (phase, first) = TextInjector::paste_text("long text".to_string());
    assert_eq!(first, PasteAction::SaveClipboard);
    let (phase, actions) = TextInjector::paste_step(phase, PasteEvent::Saved(Ok(())));
    assert_eq!(actions, vec![PasteAction::SetClipboard("long text".to_string())]);
    let (phase, actions) = TextInjector::paste_step(phase, PasteEvent::ClipboardSet(Ok(())));
    assert_eq!(actions, vec![PasteAction::SendKeys(TextInjector::paste_inputs())]);
    let (phase, actions) = TextInjector::paste_step(phase, PasteEvent::Sent(Ok(())));
    assert_eq!(actions, vec![PasteAction::Wait { millis: 150 }, PasteAction::RestoreClipboard]);
    let (phase, actions) = TextInjector::paste_step(phase, PasteEvent::Restored(Ok(())));
    assert_eq!(actions, vec![PasteAction::Finish(Ok(()))]);
    assert_eq!(phase, PastePhase::Finished);
}

#[test]
fn failed_paste_still_restores_and_reports_the_send_error() {
    let (phase, _) = TextInjector::paste_text("t".to_string());
    let (phase, _) = TextInjector::paste_step(phase, PasteEvent::Saved(Ok(())));
    let (phase, _) = TextInjector::paste_step(phase, PasteEvent::ClipboardSet(Ok(())));
    let sent = send_input_result(1, 4, "paste inputs");
    assert_eq!(sent, Err("SendInput sent 1 of 4 paste inputs".to_string()));
    let (phase, actions) = TextInjector::paste_step(phase, PasteEvent::Sent(sent));
    assert_eq!(actions, vec![PasteAction::RestoreClipboard]);
    let (_, actions) = TextInjector::paste_step(phase, PasteEvent::Restored(Ok(())));
    assert_eq!(actions, vec![PasteAction::Finish(Err("SendInput sent 1 of 4 paste inputs".to_string()))]);

    let (phase, _) = TextInjector::paste_text("t".to_string());
    let (phase, actions) = TextInjector::paste_step(phase, PasteEvent::Saved(Err("busy".to_string())));
    assert_eq!(actions, vec![PasteAction::Finish(Err("busy".to_string()))]);
    assert_eq!(phase, PastePhase::Finished);
    assert_eq!(send_input_result(4, 4, "inputs"), Ok(()));
}

#[test]
fn failed_clipboard_set_restores_and_reports_the_set_error() {
    let (phase, _) = TextInjector::paste_text("t".to_string());
    let (phase, _) = TextInjector::paste_step(phase, PasteEvent::Saved(Ok(())));
    let (phase, actions) =
        TextInjector::paste_step(phase, PasteEvent::ClipboardSet(Err("locked".to_string())));
    assert_eq!(actions, vec![PasteAction::RestoreClipboard]);
    assert_eq!(phase, PastePhase::Restoring { failure: Some("locked".to_string()) });
    let (phase, actions) = TextInjector::paste_step(phase, PasteEvent::Restored(Err("gone".to_string())));
    assert_eq!(actions, vec![PasteAction::Finish(Err("locked".to_string()))]);
    assert_eq!(phase, PastePhase::Finished);
}

#[test]
fn typing_sends_a_down_and_up_per_utf16_unit() {
    let inputs = TextInjector::typing_inputs("a😀");
    let units: Vec<u16> = "a😀".encode_utf16().collect();
    assert_eq!(units.len(), 3);
    assert_eq!(inputs.len(), 6);
    for (i, u) in units.iter().enumerate() {
        assert_eq!(inputs[2 * i], KeyInput { vk: 0, scan: *u, flags: KEYEVENTF_UNICODE });
        assert_eq!(
            inputs[2 * i + 1],
            KeyInput { vk: 0, scan: *u, flags: KEYEVENTF_UNICODE | KEYEVENTF_KEYUP }
        );
    }
}

#[test]
fn paste_is_control_v() {
    let inputs = TextInjector::paste_inputs();
    assert_eq!(
        inputs,
        vec![
            KeyInput { vk: VK_CONTROL, scan: 0, flags: 0 },
            KeyInput { vk: VK_V, scan: 0, flags: 0 },
            KeyInput { vk: VK_V, scan: 0, flags: KEYEVENTF_KEYUP },
            KeyInput { vk: VK_CONTROL, scan: 0, flags: KEYEVENTF_KEYUP },
        ]
    );
}
