//! The dictation engine's decisions: which state the overlay shows, when a
//! transcript goes to the refinement model, how the hotkey is read from key states,
//! and whether text may still be inserted into the window that had focus.
use vstd::prelude::*;

use crate::hotkey::ActiveHotkey;
use crate::text::{append_str, chars_of, join, join_chars, split_whitespace, string_of, words};

verus! {

/// Transcripts with fewer words than this skip the refinement model.
pub const MIN_REFINEMENT_WORDS: usize = 15;

/// Audio sample rate, in samples per second.
pub const SAMPLE_RATE: usize = 16_000;

/// What the overlay shows.
#[derive(Debug, PartialEq, Eq)]
pub enum EngineState {
    Idle,
    Listening,
    Transcribing,
    Refining,
    Inserting,
    Error(String),
}

/// An overlay state with its message as characters.
pub enum StateView {
    Idle,
    Listening,
    Transcribing,
    Refining,
    Inserting,
    Error(Seq<char>),
}

impl View for EngineState {
    type V = StateView;

    open spec fn view(&self) -> StateView {
        match self {
            EngineState::Idle => StateView::Idle,
            EngineState::Listening => StateView::Listening,
            EngineState::Transcribing => StateView::Transcribing,
            EngineState::Refining => StateView::Refining,
            EngineState::Inserting => StateView::Inserting,
            EngineState::Error(m) => StateView::Error(m@),
        }
    }
}

/// Which keys are held down at one moment.
#[derive(Debug, Clone, Copy, PartialEq, Eq, Structural)]
pub struct KeyStates {
    /// The hotkey's main key.
    pub key: bool,
    pub control: bool,
    pub alt: bool,
    pub shift: bool,
    pub left_win: bool,
    pub right_win: bool,
}

/// The dictation engine.
pub struct CoreEngine;

/// What cleaning a transcript asks for next.
#[derive(Debug)]
pub enum CleanupStep {
    /// Cleaning is over: insert this text.
    Done(String),
    /// Send this transcript to the refinement worker, then hand its reply to
    /// `CoreEngine::after_refinement`.
    Refine(String),
}

/// The transcript with runs of whitespace collapsed to single spaces and its ends trimmed.
pub open spec fn collapsed(s: Seq<char>) -> Seq<char> {
    join(words(s), seq![' '])
}

/// Whether the hotkey `hotkey` is held in the key states `keys`: its key and every
/// modifier it requires (either Windows key for `super`).
pub open spec fn hotkey_held(hotkey: ActiveHotkey, keys: KeyStates) -> bool {
    &&& keys.key
    &&& (!hotkey.modifiers.control || keys.control)
    &&& (!hotkey.modifiers.alt || keys.alt)
    &&& (!hotkey.modifiers.shift || keys.shift)
    &&& (!hotkey.modifiers.super_key || keys.left_win || keys.right_win)
}

impl CoreEngine {
    /// Whether the transcript has enough words to be refined.
    pub fn should_refine(raw_text: &str) -> (r: bool)
        ensures
            r == (words(raw_text@).len() >= MIN_REFINEMENT_WORDS),
    {
        let v = chars_of(raw_text);
        let ws = split_whitespace(v.as_slice());
        assert(ws@.map_values(|w: Vec<char>| w@).len() == ws@.len());
        ws.len() >= MIN_REFINEMENT_WORDS
    }

    /// The transcript with its words separated by single spaces.
    pub fn light_cleanup(raw_text: String) -> (r: String)
        ensures
            r@ == collapsed(raw_text@),
    {
        let v = chars_of(raw_text.as_str());
        let ws = split_whitespace(v.as_slice());
        let space: [char; 1] = [' '];
        assert(space@ =~= seq![' ']);
        let joined = join_chars(&ws, &space);
        string_of(joined.as_slice())
    }

    /// The states shown after a transcript arrives, in order: refining, then inserting.
    pub fn successful_text_states() -> (r: [EngineState; 2])
        ensures
            r@ == seq![EngineState::Refining, EngineState::Inserting],
    {
        let r = [EngineState::Refining, EngineState::Inserting];
        assert(r@ =~= seq![EngineState::Refining, EngineState::Inserting]);
        r
    }

    /// Whether `hotkey` is held in `keys`.
    pub fn hotkey_is_down(hotkey: ActiveHotkey, keys: KeyStates) -> (r: bool)
        ensures
            r == hotkey_held(hotkey, keys),
    {
        let modifiers = hotkey.modifiers;
        keys.key && (!modifiers.control || keys.control) && (!modifiers.alt || keys.alt) && (
        !modifiers.shift || keys.shift) && (!modifiers.super_key || keys.left_win || keys.right_win)
    }

    /// Text may be inserted when no window was captured (0) or the captured window
    /// still has focus.
    pub fn foreground_window_matches(captured_window: isize, current_window: isize) -> (r: bool)
        ensures
            r == (captured_window == 0 || current_window == captured_window),
    {
        captured_window == 0 || current_window == captured_window
    }

    /// Recording length in whole seconds, rounded to nearest (halves up), for
    /// `samples` samples at `SAMPLE_RATE`.
    pub fn duration_secs(samples: usize) -> (r: i64)
        ensures
            r == (samples + SAMPLE_RATE / 2) / SAMPLE_RATE as int,
    {
        let whole = samples / SAMPLE_RATE;
        let rest = samples % SAMPLE_RATE;
        let rounded = if rest >= SAMPLE_RATE / 2 { whole + 1 } else { whole };
        assert(rounded == (samples + SAMPLE_RATE / 2) / SAMPLE_RATE as int) by (nonlinear_arith)
            requires
                whole == samples / 16_000,
                rest == samples % 16_000,
                rest >= 8_000 ==> rounded == whole + 1,
                rest < 8_000 ==> rounded == whole,
        ;
        rounded as i64
    }

    /// The first step of cleaning a transcript: one with fewer than
    /// `MIN_REFINEMENT_WORDS` words is only tidied (whitespace collapsed) and goes to
    /// no refinement worker; any other is sent to the refinement worker as it is.
    pub fn clean_safely(raw_text: String) -> (r: CleanupStep)
        ensures
            words(raw_text@).len() < MIN_REFINEMENT_WORDS ==> (r matches CleanupStep::Done(t)
                && t@ == collapsed(raw_text@)),
            words(raw_text@).len() >= MIN_REFINEMENT_WORDS ==> r == CleanupStep::Refine(raw_text),
    {
        if !Self::should_refine(raw_text.as_str()) {
            CleanupStep::Done(Self::light_cleanup(raw_text))
        } else {
            CleanupStep::Refine(raw_text)
        }
    }

    /// The text to insert once the refinement worker answered `reply` for
    /// `raw_text`: its cleaned text, or `raw_text` tidied when it failed.
    pub fn after_refinement(raw_text: String, reply: Result<String, String>) -> (r: String)
        ensures
            match reply {
                Ok(cleaned) => r == cleaned,
                Err(_) => r@ == collapsed(raw_text@),
            },
    {
        match reply {
            Ok(cleaned) => cleaned,
            Err(_) => Self::light_cleanup(raw_text),
        }
    }
}


// ---------------------------------------------------------------------------
// The dictation flow: one hotkey press, from recording to insertion.

/// Seconds the overlay keeps an error on screen before the flow goes on.
pub const ERROR_PAUSE_SECS: u64 = 2;

/// Where a dictation stands. `window` is the window that had focus when the
/// hotkey was pressed (0 when none could be read).
pub enum DictationPhase {
    /// Waiting for the hotkey.
    Waiting,
    /// The microphone was asked to start.
    Starting { window: isize },
    /// Recording until the hotkey is released.
    Recording { window: isize },
    /// The recording was stopped; waiting for its samples.
    Collecting { window: isize },
    /// The transcription backend is working.
    Transcribing { window: isize, duration_secs: i64 },
    /// The transcript is being cleaned up.
    Cleaning { window: isize, duration_secs: i64 },
    /// Checking that the focused window is still the one dictated into.
    CheckingWindow { window: isize, text: String, duration_secs: i64 },
    /// The text is being typed or pasted.
    Injecting { text: String, duration_secs: i64 },
    /// The transcript is being written to the history.
    Saving,
}

/// What happened outside the engine since the last step.
pub enum DictationEvent {
    /// A registered hotkey fired: `id` is the event's id, `active_id` that of the
    /// dictation hotkey, `window` the focused window.
    HotkeyPressed { id: u32, active_id: u32, window: isize },
    /// The recorder could not be locked.
    RecorderUnavailable,
    /// The microphone started, or why it did not.
    RecordingStarted(Result<(), String>),
    /// The hotkey was released (`completed`), or shutdown was asked while it was held.
    HotkeyReleased { completed: bool },
    /// The recording held `samples` samples at `SAMPLE_RATE`.
    AudioCollected { samples: usize },
    /// The transcription backend's reply.
    Transcribed(Result<String, String>),
    /// The cleaned-up transcript.
    Cleaned(String),
    /// The window that has focus now.
    ForegroundWindow(isize),
    /// Whether the text was inserted.
    Injected(Result<(), String>),
    /// Whether the history entry was written.
    HistorySaved(Result<(), String>),
}

/// What the engine asks of its surroundings, in order.
pub enum DictationAction {
    /// Show this state on the overlay.
    Emit(EngineState),
    /// Start the microphone.
    StartRecording,
    /// Wait until the hotkey is released or shutdown is asked.
    WaitForRelease,
    /// Stop the microphone, take the resampled samples, and clear the buffer.
    CollectAudio,
    /// Stop the microphone and drop what was recorded.
    CancelRecording,
    /// Transcribe the collected samples.
    Transcribe,
    /// Clean up this transcript (see `CoreEngine::clean_safely`).
    Clean(String),
    /// Read which window has focus.
    ReadForegroundWindow,
    /// Insert this text into the focused window.
    Inject(String),
    /// Record this transcript, of this length, in the history.
    SaveHistory { text: String, duration_secs: i64 },
    /// Wait this many seconds.
    Pause { secs: u64 },
    /// Report this to the log.
    Log(String),
}

/// `DictationPhase` with its text as characters.
pub enum PhaseView {
    Waiting,
    Starting { window: isize },
    Recording { window: isize },
    Collecting { window: isize },
    Transcribing { window: isize, duration_secs: i64 },
    Cleaning { window: isize, duration_secs: i64 },
    CheckingWindow { window: isize, text: Seq<char>, duration_secs: i64 },
    Injecting { text: Seq<char>, duration_secs: i64 },
    Saving,
}

/// `DictationEvent` with its text as characters.
pub enum EventView {
    HotkeyPressed { id: u32, active_id: u32, window: isize },
    RecorderUnavailable,
    RecordingStarted(Result<(), Seq<char>>),
    HotkeyReleased { completed: bool },
    AudioCollected { samples: usize },
    Transcribed(Result<Seq<char>, Seq<char>>),
    Cleaned(Seq<char>),
    ForegroundWindow(isize),
    Injected(Result<(), Seq<char>>),
    HistorySaved(Result<(), Seq<char>>),
}

/// `DictationAction` with its text as characters.
pub enum ActionView {
    Emit(StateView),
    StartRecording,
    WaitForRelease,
    CollectAudio,
    CancelRecording,
    Transcribe,
    Clean(Seq<char>),
    ReadForegroundWindow,
    Inject(Seq<char>),
    SaveHistory { text: Seq<char>, duration_secs: i64 },
    Pause { secs: u64 },
    Log(Seq<char>),
}

pub open spec fn unit_or_text(r: Result<(), String>) -> Result<(), Seq<char>> {
    match r {
        Ok(()) => Ok(()),
        Err(e) => Err(e@),
    }
}

impl View for DictationPhase {
    type V = PhaseView;

    open spec fn view(&self) -> PhaseView {
        match self {
            DictationPhase::Waiting => PhaseView::Waiting,
            DictationPhase::Starting { window } => PhaseView::Starting { window: *window },
            DictationPhase::Recording { window } => PhaseView::Recording { window: *window },
            DictationPhase::Collecting { window } => PhaseView::Collecting { window: *window },
            DictationPhase::Transcribing { window, duration_secs } => PhaseView::Transcribing {
                window: *window,
                duration_secs: *duration_secs,
            },
            DictationPhase::Cleaning { window, duration_secs } => PhaseView::Cleaning {
                window: *window,
                duration_secs: *duration_secs,
            },
            DictationPhase::CheckingWindow { window, text, duration_secs } =>
                PhaseView::CheckingWindow {
                window: *window,
                text: text@,
                duration_secs: *duration_secs,
            },
            DictationPhase::Injecting { text, duration_secs } => PhaseView::Injecting {
                text: text@,
                duration_secs: *duration_secs,
            },
            DictationPhase::Saving => PhaseView::Saving,
        }
    }
}

impl View for DictationEvent {
    type V = EventView;

    open spec fn view(&self) -> EventView {
        match self {
            DictationEvent::HotkeyPressed { id, active_id, window } => EventView::HotkeyPressed {
                id: *id,
                active_id: *active_id,
                window: *window,
            },
            DictationEvent::RecorderUnavailable => EventView::RecorderUnavailable,
            DictationEvent::RecordingStarted(r) => EventView::RecordingStarted(unit_or_text(*r)),
            DictationEvent::HotkeyReleased { completed } => EventView::HotkeyReleased {
                completed: *completed,
            },
            DictationEvent::AudioCollected { samples } => EventView::AudioCollected {
                samples: *samples,
            },
            DictationEvent::Transcribed(r) => EventView::Transcribed(
                match r {
                    Ok(t) => Ok(t@),
                    Err(e) => Err(e@),
                },
            ),
            DictationEvent::Cleaned(t) => EventView::Cleaned(t@),
            DictationEvent::ForegroundWindow(w) => EventView::ForegroundWindow(*w),
            DictationEvent::Injected(r) => EventView::Injected(unit_or_text(*r)),
            DictationEvent::HistorySaved(r) => EventView::HistorySaved(unit_or_text(*r)),
        }
    }
}

impl View for DictationAction {
    type V = ActionView;

    open spec fn view(&self) -> ActionView {
        match self {
            DictationAction::Emit(s) => ActionView::Emit(s@),
            DictationAction::StartRecording => ActionView::StartRecording,
            DictationAction::WaitForRelease => ActionView::WaitForRelease,
            DictationAction::CollectAudio => ActionView::CollectAudio,
            DictationAction::CancelRecording => ActionView::CancelRecording,
            DictationAction::Transcribe => ActionView::Transcribe,
            DictationAction::Clean(t) => ActionView::Clean(t@),
            DictationAction::ReadForegroundWindow => ActionView::ReadForegroundWindow,
            DictationAction::Inject(t) => ActionView::Inject(t@),
            DictationAction::SaveHistory { text, duration_secs } => ActionView::SaveHistory {
                text: text@,
                duration_secs: *duration_secs,
            },
            DictationAction::Pause { secs } => ActionView::Pause { secs: *secs },
            DictationAction::Log(m) => ActionView::Log(m@),
        }
    }
}

/// The actions' views, in order.
pub open spec fn action_views(actions: Seq<DictationAction>) -> Seq<ActionView> {
    actions.map_values(|a: DictationAction| a@)
}

/// Show an error, keep it on screen, then go back to idle.
pub open spec fn fail_then_idle(message: Seq<char>) -> Seq<ActionView> {
    seq![
        ActionView::Emit(StateView::Error(message)),
        ActionView::Pause { secs: ERROR_PAUSE_SECS },
        ActionView::Emit(StateView::Idle),
    ]
}

/// Recording length in whole seconds, rounded to nearest.
pub open spec fn duration_of(samples: usize) -> i64 {
    ((samples + SAMPLE_RATE / 2) / SAMPLE_RATE as int) as i64
}

/// One step of the dictation flow: from `phase`, on `event`, the next phase and
/// the actions to perform. An event that does not belong to the phase changes
/// nothing.
pub open spec fn next_step(phase: PhaseView, event: EventView) -> (PhaseView, Seq<ActionView>) {
    let unchanged = (phase, Seq::<ActionView>::empty());
    match phase {
        PhaseView::Waiting => match event {
            EventView::HotkeyPressed { id, active_id, window } => if id == active_id {
                (PhaseView::Starting { window }, seq![ActionView::StartRecording])
            } else {
                unchanged
            },
            _ => unchanged,
        },
        PhaseView::Starting { window } => match event {
            EventView::RecordingStarted(Ok(())) => (
                PhaseView::Recording { window },
                seq![ActionView::Emit(StateView::Listening), ActionView::WaitForRelease],
            ),
            EventView::RecordingStarted(Err(e)) => (
                PhaseView::Waiting,
                fail_then_idle("Microphone access failed: "@ + e),
            ),
            EventView::RecorderUnavailable => (
                PhaseView::Waiting,
                seq![ActionView::Emit(StateView::Error("Audio recorder lock is unavailable"@))],
            ),
            _ => unchanged,
        },
        PhaseView::Recording { window } => match event {
            EventView::HotkeyReleased { completed } => if completed {
                (PhaseView::Collecting { window }, seq![ActionView::CollectAudio])
            } else {
                (
                    PhaseView::Waiting,
                    seq![ActionView::CancelRecording, ActionView::Emit(StateView::Idle)],
                )
            },
            _ => unchanged,
        },
        PhaseView::Collecting { window } => match event {
            EventView::AudioCollected { samples } => if samples == 0 {
                (PhaseView::Waiting, seq![ActionView::Emit(StateView::Idle)])
            } else {
                (
                    PhaseView::Transcribing { window, duration_secs: duration_of(samples) },
                    seq![ActionView::Emit(StateView::Transcribing), ActionView::Transcribe],
                )
            },
            EventView::RecorderUnavailable => (
                PhaseView::Waiting,
                seq![ActionView::Emit(StateView::Error("Audio recorder lock is unavailable"@))],
            ),
            _ => unchanged,
        },
        PhaseView::Transcribing { window, duration_secs } => match event {
            EventView::Transcribed(Ok(text)) => (
                PhaseView::Cleaning { window, duration_secs },
                seq![ActionView::Emit(StateView::Refining), ActionView::Clean(text)],
            ),
            EventView::Transcribed(Err(e)) => (
                PhaseView::Waiting,
                fail_then_idle("Transcription failed: "@ + e),
            ),
            _ => unchanged,
        },
        PhaseView::Cleaning { window, duration_secs } => match event {
            EventView::Cleaned(text) => (
                PhaseView::CheckingWindow { window, text, duration_secs },
                seq![ActionView::Emit(StateView::Inserting), ActionView::ReadForegroundWindow],
            ),
            _ => unchanged,
        },
        PhaseView::CheckingWindow { window, text, duration_secs } => match event {
            EventView::ForegroundWindow(current) => if window == 0 || current == window {
                (PhaseView::Injecting { text, duration_secs }, seq![ActionView::Inject(text)])
            } else {
                (
                    PhaseView::Waiting,
                    seq![
                        ActionView::Emit(
                            StateView::Error(
                                "Active window changed before insertion; dictation was cancelled."@,
                            ),
                        ),
                        ActionView::Pause { secs: ERROR_PAUSE_SECS },
                    ],
                )
            },
            _ => unchanged,
        },
        PhaseView::Injecting { text, duration_secs } => match event {
            EventView::Injected(Ok(())) => (
                PhaseView::Saving,
                seq![ActionView::SaveHistory { text, duration_secs }],
            ),
            EventView::Injected(Err(e)) => (
                PhaseView::Waiting,
                fail_then_idle("Text injection failed: "@ + e),
            ),
            _ => unchanged,
        },
        PhaseView::Saving => match event {
            EventView::HistorySaved(Ok(())) => (
                PhaseView::Waiting,
                seq![ActionView::Emit(StateView::Idle)],
            ),
            EventView::HistorySaved(Err(e)) => (
                PhaseView::Waiting,
                seq![
                    ActionView::Log("Failed to save transcription history: "@ + e),
                    ActionView::Emit(StateView::Idle),
                ],
            ),
            _ => unchanged,
        },
    }
}

/// `prefix` followed by `detail`.
fn prefixed(prefix: &str, detail: &str) -> (r: String)
    ensures
        r@ == prefix@ + detail@,
{
    let mut out: Vec<char> = Vec::new();
    append_str(&mut out, prefix);
    append_str(&mut out, detail);
    string_of(out.as_slice())
}

fn error_then_idle(message: String) -> (r: Vec<DictationAction>)
    ensures
        action_views(r@) == fail_then_idle(message@),
{
    let r = vec![
        DictationAction::Emit(EngineState::Error(message)),
        DictationAction::Pause { secs: ERROR_PAUSE_SECS },
        DictationAction::Emit(EngineState::Idle),
    ];
    assert(action_views(r@) =~= fail_then_idle(message@));
    r
}

fn recorder_unavailable() -> (r: Vec<DictationAction>)
    ensures
        action_views(r@) == seq![ActionView::Emit(StateView::Error("Audio recorder lock is unavailable"@))],
{
    let message = "Audio recorder lock is unavailable".to_string();
    let r = vec![DictationAction::Emit(EngineState::Error(message))];
    assert(action_views(r@) =~= seq![ActionView::Emit(StateView::Error("Audio recorder lock is unavailable"@))]);
    r
}

impl CoreEngine {
    /// What the engine does when it starts listening: show the idle state.
    pub fn initial_actions() -> (r: Vec<DictationAction>)
        ensures
            action_views(r@) == seq![ActionView::Emit(StateView::Idle)],
    {
        let r = vec![DictationAction::Emit(EngineState::Idle)];
        assert(action_views(r@) =~= seq![ActionView::Emit(StateView::Idle)]);
        r
    }

    /// One step of the dictation flow (see `next_step`).
    pub fn step(phase: DictationPhase, event: DictationEvent) -> (r: (DictationPhase, Vec<DictationAction>))
        ensures
            r.0@ == next_step(phase@, event@).0,
            action_views(r.1@) == next_step(phase@, event@).1,
    {
        let ghost expected = next_step(phase@, event@);
        let none: Vec<DictationAction> = Vec::new();
        assert(action_views(none@) =~= Seq::<ActionView>::empty());
        match phase {
            DictationPhase::Waiting => match event {
                DictationEvent::HotkeyPressed { id, active_id, window } => {
                    if id == active_id {
                        let r = vec![DictationAction::StartRecording];
                        assert(action_views(r@) =~= expected.1);
                        (DictationPhase::Starting { window }, r)
                    } else {
                        (DictationPhase::Waiting, none)
                    }
                },
                _ => (DictationPhase::Waiting, none),
            },
            DictationPhase::Starting { window } => match event {
                DictationEvent::RecordingStarted(Ok(())) => {
                    let r = vec![
                        DictationAction::Emit(EngineState::Listening),
                        DictationAction::WaitForRelease,
                    ];
                    assert(action_views(r@) =~= expected.1);
                    (DictationPhase::Recording { window }, r)
                },
                DictationEvent::RecordingStarted(Err(e)) => {
                    let message = prefixed("Microphone access failed: ", e.as_str());
                    (DictationPhase::Waiting, error_then_idle(message))
                },
                DictationEvent::RecorderUnavailable => (DictationPhase::Waiting, recorder_unavailable()),
                _ => (DictationPhase::Starting { window }, none),
            },
            DictationPhase::Recording { window } => match event {
                DictationEvent::HotkeyReleased { completed } => {
                    if completed {
                        let r = vec![DictationAction::CollectAudio];
                        assert(action_views(r@) =~= expected.1);
                        (DictationPhase::Collecting { window }, r)
                    } else {
                        let r = vec![
                            DictationAction::CancelRecording,
                            DictationAction::Emit(EngineState::Idle),
                        ];
                        assert(action_views(r@) =~= expected.1);
                        (DictationPhase::Waiting, r)
                    }
                },
                _ => (DictationPhase::Recording { window }, none),
            },
            DictationPhase::Collecting { window } => match event {
                DictationEvent::AudioCollected { samples } => {
                    if samples == 0 {
                        let r = vec![DictationAction::Emit(EngineState::Idle)];
                        assert(action_views(r@) =~= expected.1);
                        (DictationPhase::Waiting, r)
                    } else {
                        let duration_secs = Self::duration_secs(samples);
                        let r = vec![
                            DictationAction::Emit(EngineState::Transcribing),
                            DictationAction::Transcribe,
                        ];
                        assert(action_views(r@) =~= expected.1);
                        (DictationPhase::Transcribing { window, duration_secs }, r)
                    }
                },
                DictationEvent::RecorderUnavailable => (DictationPhase::Waiting, recorder_unavailable()),
                _ => (DictationPhase::Collecting { window }, none),
            },
            DictationPhase::Transcribing { window, duration_secs } => match event {
                DictationEvent::Transcribed(Ok(text)) => {
                    let r = vec![
                        DictationAction::Emit(EngineState::Refining),
                        DictationAction::Clean(text),
                    ];
                    assert(action_views(r@) =~= expected.1);
                    (DictationPhase::Cleaning { window, duration_secs }, r)
                },
                DictationEvent::Transcribed(Err(e)) => {
                    let message = prefixed("Transcription failed: ", e.as_str());
                    (DictationPhase::Waiting, error_then_idle(message))
                },
                _ => (DictationPhase::Transcribing { window, duration_secs }, none),
            },
            DictationPhase::Cleaning { window, duration_secs } => match event {
                DictationEvent::Cleaned(text) => {
                    let r = vec![
                        DictationAction::Emit(EngineState::Inserting),
                        DictationAction::ReadForegroundWindow,
                    ];
                    assert(action_views(r@) =~= expected.1);
                    (DictationPhase::CheckingWindow { window, text, duration_secs }, r)
                },
                _ => (DictationPhase::Cleaning { window, duration_secs }, none),
            },
            DictationPhase::CheckingWindow { window, text, duration_secs } => match event {
                DictationEvent::ForegroundWindow(current) => {
                    if Self::foreground_window_matches(window, current) {
                        let r = vec![DictationAction::Inject(text.clone())];
                        assert(action_views(r@) =~= expected.1);
                        (DictationPhase::Injecting { text, duration_secs }, r)
                    } else {
                        let message =
                            "Active window changed before insertion; dictation was cancelled.".to_string();
                        let r = vec![
                            DictationAction::Emit(EngineState::Error(message)),
                            DictationAction::Pause { secs: ERROR_PAUSE_SECS },
                        ];
                        assert(action_views(r@) =~= expected.1);
                        (DictationPhase::Waiting, r)
                    }
                },
                _ => (DictationPhase::CheckingWindow { window, text, duration_secs }, none),
            },
            DictationPhase::Injecting { text, duration_secs } => match event {
                DictationEvent::Injected(Ok(())) => {
                    let r = vec![DictationAction::SaveHistory { text, duration_secs }];
                    assert(action_views(r@) =~= expected.1);
                    (DictationPhase::Saving, r)
                },
                DictationEvent::Injected(Err(e)) => {
                    let message = prefixed("Text injection failed: ", e.as_str());
                    (DictationPhase::Waiting, error_then_idle(message))
                },
                _ => (DictationPhase::Injecting { text, duration_secs }, none),
            },
            DictationPhase::Saving => match event {
                DictationEvent::HistorySaved(Ok(())) => {
                    let r = vec![DictationAction::Emit(EngineState::Idle)];
                    assert(action_views(r@) =~= expected.1);
                    (DictationPhase::Waiting, r)
                },
                DictationEvent::HistorySaved(Err(e)) => {
                    let message = prefixed("Failed to save transcription history: ", e.as_str());
                    let r = vec![
                        DictationAction::Log(message),
                        DictationAction::Emit(EngineState::Idle),
                    ];
                    assert(action_views(r@) =~= expected.1);
                    (DictationPhase::Waiting, r)
                },
                _ => (DictationPhase::Saving, none),
            },
        }
    }
}


// ---------------------------------------------------------------------------
// Laws of the dictation flow

/// The phase reached and the actions asked for, from `phase`, on `events` in order.
pub open spec fn run(phase: PhaseView, events: Seq<EventView>) -> (PhaseView, Seq<ActionView>)
    decreases events.len(),
{
    if events.len() == 0 {
        (phase, Seq::empty())
    } else {
        let before = run(phase, events.drop_last());
        let after = next_step(before.0, events.last());
        (after.0, before.1 + after.1)
    }
}

proof fn lemma_run_push(phase: PhaseView, events: Seq<EventView>, event: EventView)
    ensures
        run(phase, events.push(event)) == ({
            let before = run(phase, events);
            let after = next_step(before.0, event);
            (after.0, before.1 + after.1)
        }),
{
    assert(events.push(event).drop_last() =~= events);
}

/// The overlay states among `actions`, in order.
pub open spec fn shown(actions: Seq<ActionView>) -> Seq<StateView>
    decreases actions.len(),
{
    if actions.len() == 0 {
        Seq::empty()
    } else {
        let rest = shown(actions.drop_last());
        match actions.last() {
            ActionView::Emit(s) => rest.push(s),
            _ => rest,
        }
    }
}

/// Every `Inserting` in `states` comes right after a `Refining`.
pub open spec fn inserting_follows_refining(states: Seq<StateView>) -> bool {
    forall|j: int|
        0 <= j < states.len() && #[trigger] states[j] == StateView::Inserting ==> j > 0 && states[j
            - 1] == StateView::Refining
}

proof fn lemma_shown_concat(a: Seq<ActionView>, b: Seq<ActionView>)
    ensures
        shown(a + b) == shown(a) + shown(b),
    decreases b.len(),
{
    if b.len() == 0 {
        assert(a + b =~= a);
        assert(shown(a) + shown(b) =~= shown(a));
    } else {
        lemma_shown_concat(a, b.drop_last());
        assert((a + b).drop_last() =~= a + b.drop_last());
        assert((a + b).last() == b.last());
        match b.last() {
            ActionView::Emit(s) => {
                assert(shown(a) + shown(b.drop_last()).push(s) =~= (shown(a) + shown(b.drop_last())).push(s));
            },
            _ => {},
        }
    }
}

/// What one step shows: a step out of `Cleaning` shows at most `Inserting`, any
/// other step never shows `Inserting`, and a step into `Cleaning` shows exactly
/// `Refining`.
proof fn lemma_step_shown(phase: PhaseView, event: EventView)
    ensures
        ({
            let (next, actions) = next_step(phase, event);
            &&& phase is Cleaning ==> shown(actions) =~= Seq::<StateView>::empty() || shown(actions)
                =~= seq![StateView::Inserting]
            &&& !(phase is Cleaning) ==> forall|j: int|
                0 <= j < shown(actions).len() ==> #[trigger] shown(actions)[j] != StateView::Inserting
            &&& next is Cleaning && !(phase is Cleaning) ==> shown(actions) =~= seq![StateView::Refining]
            &&& phase is Cleaning && next is Cleaning ==> shown(actions).len() == 0
        }),
{
    reveal_with_fuel(shown, 4);
}

/// In any sequence of events from the waiting phase, the overlay shows
/// `Inserting` only right after `Refining`: a transcript is always cleaned up
/// before it is inserted.
pub proof fn law_refining_precedes_inserting(events: Seq<EventView>)
    ensures
        inserting_follows_refining(shown(run(PhaseView::Waiting, events).1)),
{
    lemma_run_refining_invariant(events);
}

proof fn lemma_run_refining_invariant(events: Seq<EventView>)
    ensures
        ({
            let (phase, actions) = run(PhaseView::Waiting, events);
            &&& inserting_follows_refining(shown(actions))
            &&& phase is Cleaning ==> shown(actions).len() > 0 && shown(actions).last()
                == StateView::Refining
        }),
    decreases events.len(),
{
    if events.len() > 0 {
        lemma_run_refining_invariant(events.drop_last());
        let before = run(PhaseView::Waiting, events.drop_last());
        let after = next_step(before.0, events.last());
        lemma_shown_concat(before.1, after.1);
        lemma_step_shown(before.0, events.last());
        let a = shown(before.1);
        let b = shown(after.1);
        assert(shown(before.1 + after.1) == a + b);
        assert forall|j: int|
            0 <= j < (a + b).len() && #[trigger] (a + b)[j] == StateView::Inserting implies j > 0
                && (a + b)[j - 1] == StateView::Refining by {
            if j < a.len() {
                assert((a + b)[j] == a[j]);
                assert(a[j] == StateView::Inserting);
                assert((a + b)[j - 1] == a[j - 1]);
            } else {
                assert((a + b)[j] == b[j - a.len()]);
                assert(b[j - a.len()] == StateView::Inserting);
                assert(before.0 is Cleaning);
                assert(b =~= seq![StateView::Inserting]);
                assert(j == a.len());
                assert((a + b)[j - 1] == a.last());
            }
        }
        if after.0 is Cleaning {
            if before.0 is Cleaning {
                assert(b.len() == 0);
                assert(a + b =~= a);
            } else {
                assert((a + b).last() == b.last());
            }
        }
    }
}

/// A dictation that goes right from start to end — the hotkey fires, the
/// microphone starts, the hotkey is released, audio was recorded, the backend
/// transcribes it, and the focused window is still the one dictated into — shows
/// `Listening`, `Transcribing`, `Refining`, `Inserting`, then `Idle`, inserts the
/// cleaned-up text, records it in the history, and waits for the next press.
pub proof fn law_successful_dictation(
    id: u32,
    window: isize,
    samples: usize,
    transcript: Seq<char>,
    cleaned: Seq<char>,
    current: isize,
    saved: Result<(), Seq<char>>,
)
    requires
        samples > 0,
        window == 0 || current == window,
    ensures
        ({
            let events = seq![
                EventView::HotkeyPressed { id, active_id: id, window },
                EventView::RecordingStarted(Ok(())),
                EventView::HotkeyReleased { completed: true },
                EventView::AudioCollected { samples },
                EventView::Transcribed(Ok(transcript)),
                EventView::Cleaned(cleaned),
                EventView::ForegroundWindow(current),
                EventView::Injected(Ok(())),
                EventView::HistorySaved(saved),
            ];
            let (phase, actions) = run(PhaseView::Waiting, events);
            &&& phase == PhaseView::Waiting
            &&& shown(actions) == seq![
                StateView::Listening,
                StateView::Transcribing,
                StateView::Refining,
                StateView::Inserting,
                StateView::Idle,
            ]
            &&& actions.contains(ActionView::Clean(transcript))
            &&& actions.contains(ActionView::Inject(cleaned))
            &&& actions.contains(
                ActionView::SaveHistory { text: cleaned, duration_secs: duration_of(samples) },
            )
        }),
{
    let events = seq![
        EventView::HotkeyPressed { id, active_id: id, window },
        EventView::RecordingStarted(Ok(())),
        EventView::HotkeyReleased { completed: true },
        EventView::AudioCollected { samples },
        EventView::Transcribed(Ok(transcript)),
        EventView::Cleaned(cleaned),
        EventView::ForegroundWindow(current),
        EventView::Injected(Ok(())),
        EventView::HistorySaved(saved),
    ];
    let d = duration_of(samples);
    // Unfold the run one event at a time.
    let e0 = Seq::<EventView>::empty();
    let e1 = e0.push(events[0]);
    let e2 = e1.push(events[1]);
    let e3 = e2.push(events[2]);
    let e4 = e3.push(events[3]);
    let e5 = e4.push(events[4]);
    let e6 = e5.push(events[5]);
    let e7 = e6.push(events[6]);
    let e8 = e7.push(events[7]);
    assert(events =~= e8.push(events[8]));
    let a1 = seq![ActionView::StartRecording];
    let a2 = a1 + seq![ActionView::Emit(StateView::Listening), ActionView::WaitForRelease];
    let a3 = a2 + seq![ActionView::CollectAudio];
    let a4 = a3 + seq![ActionView::Emit(StateView::Transcribing), ActionView::Transcribe];
    let a5 = a4 + seq![ActionView::Emit(StateView::Refining), ActionView::Clean(transcript)];
    let a6 = a5 + seq![ActionView::Emit(StateView::Inserting), ActionView::ReadForegroundWindow];
    let a7 = a6 + seq![ActionView::Inject(cleaned)];
    let a8 = a7 + seq![ActionView::SaveHistory { text: cleaned, duration_secs: d }];
    let tail = next_step(PhaseView::Saving, EventView::HistorySaved(saved)).1;
    assert(run(PhaseView::Waiting, e1) == (PhaseView::Starting { window }, a1)) by {
        lemma_run_push(PhaseView::Waiting, e0, events[0]);
        assert(Seq::<ActionView>::empty() + a1 =~= a1);
    }
    assert(run(PhaseView::Waiting, e2) == (PhaseView::Recording { window }, a2)) by {
        lemma_run_push(PhaseView::Waiting, e1, events[1]);
    }
    assert(run(PhaseView::Waiting, e3) == (PhaseView::Collecting { window }, a3)) by {
        lemma_run_push(PhaseView::Waiting, e2, events[2]);
    }
    assert(run(PhaseView::Waiting, e4) == (PhaseView::Transcribing { window, duration_secs: d }, a4))
        by {
        lemma_run_push(PhaseView::Waiting, e3, events[3]);
    }
    assert(run(PhaseView::Waiting, e5) == (PhaseView::Cleaning { window, duration_secs: d }, a5)) by {
        lemma_run_push(PhaseView::Waiting, e4, events[4]);
    }
    assert(run(PhaseView::Waiting, e6) == (
        PhaseView::CheckingWindow { window, text: cleaned, duration_secs: d },
        a6,
    )) by {
        lemma_run_push(PhaseView::Waiting, e5, events[5]);
    }
    assert(run(PhaseView::Waiting, e7) == (
        PhaseView::Injecting { text: cleaned, duration_secs: d },
        a7,
    )) by {
        lemma_run_push(PhaseView::Waiting, e6, events[6]);
    }
    assert(run(PhaseView::Waiting, e8) == (PhaseView::Saving, a8)) by {
        lemma_run_push(PhaseView::Waiting, e7, events[7]);
    }
    assert(run(PhaseView::Waiting, events) == (PhaseView::Waiting, a8 + tail)) by {
        lemma_run_push(PhaseView::Waiting, e8, events[8]);
    }
    let all = a8 + tail;
    assert(shown(tail) =~= seq![StateView::Idle]) by {
        reveal_with_fuel(shown, 3);
    }
    assert(a8 =~= seq![
        ActionView::StartRecording,
        ActionView::Emit(StateView::Listening),
        ActionView::WaitForRelease,
        ActionView::CollectAudio,
        ActionView::Emit(StateView::Transcribing),
        ActionView::Transcribe,
        ActionView::Emit(StateView::Refining),
        ActionView::Clean(transcript),
        ActionView::Emit(StateView::Inserting),
        ActionView::ReadForegroundWindow,
        ActionView::Inject(cleaned),
        ActionView::SaveHistory { text: cleaned, duration_secs: d },
    ]);
    lemma_success_shown(transcript, cleaned, d, tail);
    assert(all[a4.len() + 1int] == ActionView::Clean(transcript));
    assert(all[a6.len() as int] == ActionView::Inject(cleaned));
    assert(all[a7.len() as int] == ActionView::SaveHistory { text: cleaned, duration_secs: d });
}

proof fn lemma_success_shown(transcript: Seq<char>, cleaned: Seq<char>, d: i64, tail: Seq<ActionView>)
    requires
        shown(tail) == seq![StateView::Idle],
    ensures
        shown(
            seq![
                ActionView::StartRecording,
                ActionView::Emit(StateView::Listening),
                ActionView::WaitForRelease,
                ActionView::CollectAudio,
                ActionView::Emit(StateView::Transcribing),
                ActionView::Transcribe,
                ActionView::Emit(StateView::Refining),
                ActionView::Clean(transcript),
                ActionView::Emit(StateView::Inserting),
                ActionView::ReadForegroundWindow,
                ActionView::Inject(cleaned),
                ActionView::SaveHistory { text: cleaned, duration_secs: d },
            ] + tail,
        ) == seq![
            StateView::Listening,
            StateView::Transcribing,
            StateView::Refining,
            StateView::Inserting,
            StateView::Idle,
        ],
{
    let a = seq![
        ActionView::StartRecording,
        ActionView::Emit(StateView::Listening),
        ActionView::WaitForRelease,
        ActionView::CollectAudio,
        ActionView::Emit(StateView::Transcribing),
        ActionView::Transcribe,
        ActionView::Emit(StateView::Refining),
        ActionView::Clean(transcript),
        ActionView::Emit(StateView::Inserting),
        ActionView::ReadForegroundWindow,
        ActionView::Inject(cleaned),
        ActionView::SaveHistory { text: cleaned, duration_secs: d },
    ];
    let p1 = seq![
        ActionView::StartRecording,
        ActionView::Emit(StateView::Listening),
        ActionView::WaitForRelease,
    ];
    let p2 = seq![
        ActionView::CollectAudio,
        ActionView::Emit(StateView::Transcribing),
        ActionView::Transcribe,
    ];
    let p3 = seq![ActionView::Emit(StateView::Refining), ActionView::Clean(transcript)];
    let p4 = seq![
        ActionView::Emit(StateView::Inserting),
        ActionView::ReadForegroundWindow,
        ActionView::Inject(cleaned),
    ];
    let p5 = seq![ActionView::SaveHistory { text: cleaned, duration_secs: d }];
    assert(a =~= p1 + p2 + p3 + p4 + p5);
    assert(shown(p1) =~= seq![StateView::Listening]) by {
        reveal_with_fuel(shown, 4);
    }
    assert(shown(p2) =~= seq![StateView::Transcribing]) by {
        reveal_with_fuel(shown, 4);
    }
    assert(shown(p3) =~= seq![StateView::Refining]) by {
        reveal_with_fuel(shown, 3);
    }
    assert(shown(p4) =~= seq![StateView::Inserting]) by {
        reveal_with_fuel(shown, 4);
    }
    assert(shown(p5) =~= Seq::<StateView>::empty()) by {
        reveal_with_fuel(shown, 2);
    }
    lemma_shown_concat(p1, p2);
    lemma_shown_concat(p1 + p2, p3);
    lemma_shown_concat(p1 + p2 + p3, p4);
    lemma_shown_concat(p1 + p2 + p3 + p4, p5);
    lemma_shown_concat(a, tail);
    assert(shown(a) + shown(tail) =~= seq![
        StateView::Listening,
        StateView::Transcribing,
        StateView::Refining,
        StateView::Inserting,
        StateView::Idle,
    ]);
}

/// Every step that ends a dictation early or late returns to waiting with
/// something on the overlay: `Idle` last, except when the focused window changed
/// before insertion or the recorder could not be locked, where the error stays as
/// the last state shown.
pub proof fn law_dictation_ends_on_screen(phase: PhaseView, event: EventView)
    requires
        !(phase is Waiting),
        next_step(phase, event).0 is Waiting,
    ensures
        ({
            let shown_states = shown(next_step(phase, event).1);
            &&& shown_states.len() > 0
            &&& (event is ForegroundWindow || event is RecorderUnavailable) ==> shown_states.last() is Error
            &&& !(event is ForegroundWindow || event is RecorderUnavailable) ==> shown_states.last()
                == StateView::Idle
        }),
{
    reveal_with_fuel(shown, 4);
}

/// Reading the hotkey: nothing is held while its main key is up; a modifier the
/// hotkey requires must be down (Super by either Windows key); a modifier it does
/// not require is never consulted; and the main key with every required modifier
/// down is a held hotkey.
pub proof fn law_hotkey_reading(hotkey: ActiveHotkey, keys: KeyStates)
    ensures
        !keys.key ==> !hotkey_held(hotkey, keys),
        hotkey.modifiers.control && !keys.control ==> !hotkey_held(hotkey, keys),
        hotkey.modifiers.alt && !keys.alt ==> !hotkey_held(hotkey, keys),
        hotkey.modifiers.shift && !keys.shift ==> !hotkey_held(hotkey, keys),
        hotkey.modifiers.super_key && !keys.left_win && !keys.right_win ==> !hotkey_held(hotkey, keys),
        !hotkey.modifiers.control ==> hotkey_held(hotkey, keys) == hotkey_held(
            hotkey,
            (KeyStates { control: !keys.control, ..keys }),
        ),
        !hotkey.modifiers.alt ==> hotkey_held(hotkey, keys) == hotkey_held(
            hotkey,
            (KeyStates { alt: !keys.alt, ..keys }),
        ),
        !hotkey.modifiers.shift ==> hotkey_held(hotkey, keys) == hotkey_held(
            hotkey,
            (KeyStates { shift: !keys.shift, ..keys }),
        ),
        !hotkey.modifiers.super_key ==> hotkey_held(hotkey, keys) == hotkey_held(
            hotkey,
            (KeyStates { left_win: !keys.left_win, right_win: !keys.right_win, ..keys }),
        ),
        keys.key && (hotkey.modifiers.control ==> keys.control) && (hotkey.modifiers.alt ==> keys.alt)
            && (hotkey.modifiers.shift ==> keys.shift) && (hotkey.modifiers.super_key ==> (keys.left_win
            || keys.right_win)) ==> hotkey_held(hotkey, keys),
{
}

} // verus!
