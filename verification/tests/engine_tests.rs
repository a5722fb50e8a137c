use wisprtype::engine::{
    CleanupStep, CoreEngine, DictationAction, DictationEvent, DictationPhase, EngineState, KeyStates,
};
use wisprtype::hotkey::{ActiveHotkey, HotkeyModifiers};

#[test]
fn successful_text_flow_emits_cleaning_before_inserting() {
    assert_eq!(
        CoreEngine::successful_text_states(),
        [EngineState::Refining, EngineState::Inserting]
    );
}

#[test]
fn short_transcripts_skip_refinement_worker() {
    assert!(!CoreEngine::should_refine("turn this into a quick note"));
    assert!(CoreEngine::should_refine(
        "this transcript has enough spoken words to justify running the local refinement model before insertion now"
    ));
}

#[test]
fn light_cleanup_collapses_spacing_without_rewriting_words() {
    assert_eq!(
        CoreEngine::light_cleanup("  keep   the same words \n please ".to_string()),
        "keep the same words please"
    );
}

#[test]
fn fifteen_words_are_enough_to_refine() {
    let fourteen = "w ".repeat(14);
    let fifteen = "w ".repeat(15);
    assert!(!CoreEngine::should_refine(&fourteen));
    assert!(CoreEngine::should_refine(&fifteen));
}

#[test]
fn short_transcripts_are_only_tidied() {
    assert!(matches!(CoreEngine::clean_safely("  a  b ".to_string()), CleanupStep::Done(t) if t == "a b"));
}

#[test]
fn long_transcripts_use_the_refinement_or_fall_back() {
    let long = "one two three four five six seven eight nine ten eleven twelve thirteen fourteen  fifteen";
    assert!(matches!(CoreEngine::clean_safely(long.to_string()), CleanupStep::Refine(t) if t == long));
    assert_eq!(CoreEngine::after_refinement(long.to_string(), Ok("Refined.".to_string())), "Refined.");
    assert_eq!(
        CoreEngine::after_refinement(long.to_string(), Err("worker died".to_string())),
        "one two three four five six seven eight nine ten eleven twelve thirteen fourteen fifteen"
    );
}

fn hotkey(control: bool, super_key: bool) -> ActiveHotkey {
    ActiveHotkey {
        id: 7,
        key: 0x20,
        modifiers: HotkeyModifiers { control, alt: false, shift: false, super_key },
    }
}

fn keys(key: bool, control: bool, left_win: bool, right_win: bool) -> KeyStates {
    KeyStates { key, control, alt: false, shift: false, left_win, right_win }
}

#[test]
fn hotkey_needs_its_key_and_modifiers() {
    assert!(CoreEngine::hotkey_is_down(hotkey(false, true), keys(true, false, false, true)));
    assert!(CoreEngine::hotkey_is_down(hotkey(false, true), keys(true, false, true, false)));
    assert!(!CoreEngine::hotkey_is_down(hotkey(false, true), keys(true, false, false, false)));
    assert!(!CoreEngine::hotkey_is_down(hotkey(false, true), keys(false, false, true, true)));
    assert!(!CoreEngine::hotkey_is_down(hotkey(true, false), keys(true, false, false, false)));
    assert!(CoreEngine::hotkey_is_down(hotkey(true, false), keys(true, true, false, false)));
}

#[test]
fn insertion_needs_the_same_window() {
    assert!(CoreEngine::foreground_window_matches(0, 55));
    assert!(CoreEngine::foreground_window_matches(55, 55));
    assert!(!CoreEngine::foreground_window_matches(55, 56));
}

#[test]
fn duration_rounds_to_nearest_second() {
    assert_eq!(CoreEngine::duration_secs(0), 0);
    assert_eq!(CoreEngine::duration_secs(7_999), 0);
    assert_eq!(CoreEngine::duration_secs(8_000), 1);
    assert_eq!(CoreEngine::duration_secs(16_000), 1);
    assert_eq!(CoreEngine::duration_secs(40_000), 3);
}

fn emitted(actions: &[DictationAction]) -> Vec<EngineState> {
    actions
        .iter()
        .filter_map(|a| match a {
            DictationAction::Emit(s) => Some(match s {
                EngineState::Idle => EngineState::Idle,
                EngineState::Listening => EngineState::Listening,
                EngineState::Transcribing => EngineState::Transcribing,
                EngineState::Refining => EngineState::Refining,
                EngineState::Inserting => EngineState::Inserting,
                EngineState::Error(m) => EngineState::Error(m.clone()),
            }),
            _ => None,
        })
        .collect()
}

fn drive(events: Vec<DictationEvent>) -> (DictationPhase, Vec<DictationAction>) {
    let mut phase = DictationPhase::Waiting;
    let mut all = Vec::new();
    for event in events {
        let (next, actions) = CoreEngine::step(phase, event);
        phase = next;
        all.extend(actions);
    }
    (phase, all)
}

#[test]
fn engine_starts_idle() {
    assert_eq!(emitted(&CoreEngine::initial_actions()), vec![EngineState::Idle]);
}

#[test]
fn a_full_dictation_shows_each_state_in_order() {
    let (phase, actions) = drive(vec![
        DictationEvent::HotkeyPressed { id: 3, active_id: 3, window: 99 },
        DictationEvent::RecordingStarted(Ok(())),
        DictationEvent::HotkeyReleased { completed: true },
        DictationEvent::AudioCollected { samples: 40_000 },
        DictationEvent::Transcribed(Ok("um hello".to_string())),
        DictationEvent::Cleaned("Hello.".to_string()),
        DictationEvent::ForegroundWindow(99),
        DictationEvent::Injected(Ok(())),
        DictationEvent::HistorySaved(Ok(())),
    ]);
    assert!(matches!(phase, DictationPhase::Waiting));
    assert_eq!(
        emitted(&actions),
        vec![
            EngineState::Listening,
            EngineState::Transcribing,
            EngineState::Refining,
            EngineState::Inserting,
            EngineState::Idle
        ]
    );
    assert!(actions.iter().any(|a| matches!(a, DictationAction::Clean(t) if t == "um hello")));
    assert!(actions.iter().any(|a| matches!(a, DictationAction::Inject(t) if t == "Hello.")));
    assert!(actions.iter().any(|a| matches!(a, DictationAction::SaveHistory { text, duration_secs: 3 } if text == "Hello.")));
}

#[test]
fn other_hotkeys_are_ignored() {
    let (phase, actions) = drive(vec![DictationEvent::HotkeyPressed { id: 3, active_id: 4, window: 1 }]);
    assert!(matches!(phase, DictationPhase::Waiting));
    assert!(actions.is_empty());
}

#[test]
fn microphone_failure_is_shown_then_idle() {
    let (phase, actions) = drive(vec![
        DictationEvent::HotkeyPressed { id: 1, active_id: 1, window: 5 },
        DictationEvent::RecordingStarted(Err("denied".to_string())),
    ]);
    assert!(matches!(phase, DictationPhase::Waiting));
    assert_eq!(
        emitted(&actions),
        vec![EngineState::Error("Microphone access failed: denied".to_string()), EngineState::Idle]
    );
    assert!(actions.iter().any(|a| matches!(a, DictationAction::Pause { secs: 2 })));
}

#[test]
fn shutdown_while_recording_cancels() {
    let (phase, actions) = drive(vec![
        DictationEvent::HotkeyPressed { id: 1, active_id: 1, window: 5 },
        DictationEvent::RecordingStarted(Ok(())),
        DictationEvent::HotkeyReleased { completed: false },
    ]);
    assert!(matches!(phase, DictationPhase::Waiting));
    assert!(actions.iter().any(|a| matches!(a, DictationAction::CancelRecording)));
    assert_eq!(emitted(&actions), vec![EngineState::Listening, EngineState::Idle]);
}

#[test]
fn silence_goes_straight_back_to_idle() {
    let (phase, actions) = drive(vec![
        DictationEvent::HotkeyPressed { id: 1, active_id: 1, window: 5 },
        DictationEvent::RecordingStarted(Ok(())),
        DictationEvent::HotkeyReleased { completed: true },
        DictationEvent::AudioCollected { samples: 0 },
    ]);
    assert!(matches!(phase, DictationPhase::Waiting));
    assert_eq!(emitted(&actions), vec![EngineState::Listening, EngineState::Idle]);
}

#[test]
fn transcription_failure_is_shown() {
    let (_, actions) = drive(vec![
        DictationEvent::HotkeyPressed { id: 1, active_id: 1, window: 5 },
        DictationEvent::RecordingStarted(Ok(())),
        DictationEvent::HotkeyReleased { completed: true },
        DictationEvent::AudioCollected { samples: 100 },
        DictationEvent::Transcribed(Err("model missing".to_string())),
    ]);
    assert_eq!(
        emitted(&actions),
        vec![
            EngineState::Listening,
            EngineState::Transcribing,
            EngineState::Error("Transcription failed: model missing".to_string()),
            EngineState::Idle
        ]
    );
}

#[test]
fn window_change_cancels_without_idle() {
    let (phase, actions) = drive(vec![
        DictationEvent::HotkeyPressed { id: 1, active_id: 1, window: 5 },
        DictationEvent::RecordingStarted(Ok(())),
        DictationEvent::HotkeyReleased { completed: true },
        DictationEvent::AudioCollected { samples: 100 },
        DictationEvent::Transcribed(Ok("hi".to_string())),
        DictationEvent::Cleaned("hi".to_string()),
        DictationEvent::ForegroundWindow(6),
    ]);
    assert!(matches!(phase, DictationPhase::Waiting));
    let shown = emitted(&actions);
    assert_eq!(
        shown.last(),
        Some(&EngineState::Error(
            "Active window changed before insertion; dictation was cancelled.".to_string()
        ))
    );
    assert!(!actions.iter().any(|a| matches!(a, DictationAction::Inject(_))));
}

#[test]
fn injection_failure_and_history_failure() {
    let prefix = vec![
        DictationEvent::HotkeyPressed { id: 1, active_id: 1, window: 0 },
        DictationEvent::RecordingStarted(Ok(())),
        DictationEvent::HotkeyReleased { completed: true },
        DictationEvent::AudioCollected { samples: 100 },
        DictationEvent::Transcribed(Ok("hi".to_string())),
        DictationEvent::Cleaned("hi".to_string()),
        DictationEvent::ForegroundWindow(42),
    ];
    let mut failing = prefix;
    failing.push(DictationEvent::Injected(Err("SendInput sent 0 of 4 inputs".to_string())));
    let (_, actions) = drive(failing);
    let shown = emitted(&actions);
    assert_eq!(shown[shown.len() - 2], EngineState::Error("Text injection failed: SendInput sent 0 of 4 inputs".to_string()));
    assert_eq!(shown[shown.len() - 1], EngineState::Idle);

    let (phase, actions) = drive(vec![
        DictationEvent::HotkeyPressed { id: 1, active_id: 1, window: 0 },
        DictationEvent::RecordingStarted(Ok(())),
        DictationEvent::HotkeyReleased { completed: true },
        DictationEvent::AudioCollected { samples: 100 },
        DictationEvent::Transcribed(Ok("hi".to_string())),
        DictationEvent::Cleaned("hi".to_string()),
        DictationEvent::ForegroundWindow(42),
        DictationEvent::Injected(Ok(())),
        DictationEvent::HistorySaved(Err("disk full".to_string())),
    ]);
    assert!(matches!(phase, DictationPhase::Waiting));
    assert!(actions.iter().any(|a| matches!(a, DictationAction::Log(m) if m == "Failed to save transcription history: disk full")));
    assert_eq!(emitted(&actions).last(), Some(&EngineState::Idle));
}

#[test]
fn recorder_lock_failure_shows_an_error() {
    let (phase, actions) = drive(vec![
        DictationEvent::HotkeyPressed { id: 1, active_id: 1, window: 0 },
        DictationEvent::RecorderUnavailable,
    ]);
    assert!(matches!(phase, DictationPhase::Waiting));
    assert_eq!(
        emitted(&actions),
        vec![EngineState::Error("Audio recorder lock is unavailable".to_string())]
    );
}

#[test]
fn events_out_of_turn_change_nothing() {
    let (phase, actions) = CoreEngine::step(DictationPhase::Waiting, DictationEvent::Cleaned("x".to_string()));
    assert!(matches!(phase, DictationPhase::Waiting));
    assert!(actions.is_empty());
    let (phase, actions) = CoreEngine::step(DictationPhase::Recording { window: 3 }, DictationEvent::AudioCollected { samples: 5 });
    assert!(matches!(phase, DictationPhase::Recording { window: 3 }));
    assert!(actions.is_empty());
}
