//! Application start-up: the steps that bring the tool up, in order, and what a
//! failed step does — stop start-up with an error on the overlay, or log it and go
//! on with a fallback.
use vstd::prelude::*;

use crate::engine::EngineState;
use crate::text::{append_str, string_of};

verus! {

/// The start-up steps, in the order they run, then the two ends.
#[derive(Debug, Clone, Copy, PartialEq, Eq, Structural)]
pub enum StartupStage {
    /// Find (and create) the application data directory.
    DataDir,
    /// Load the saved settings.
    Settings,
    /// Bring the launch-at-login registry entry in line with the settings.
    LaunchAtLogin,
    /// Open the dictionary database.
    Dictionary,
    /// Open the transcription history database.
    History,
    /// Parse the saved hotkey.
    SavedHotkey,
    /// Create the global hotkey manager.
    HotkeyManager,
    /// Register the hotkey.
    RegisterHotkey,
    /// Make the overlay pill ignore the mouse.
    PillWindow,
    /// Install the tray icon.
    Tray,
    /// Start the dictation engine.
    Engine,
    /// Everything is up.
    Running,
    /// Start-up was abandoned.
    Stopped,
}

/// What the surroundings do after one step.
#[derive(Debug)]
pub struct StartupReport {
    /// The step to run next (or `Running` / `Stopped`).
    pub next: StartupStage,
    /// A state to show on the overlay.
    pub shown: Option<EngineState>,
    /// A line for the log.
    pub log: Option<String>,
}

/// The step that follows `stage` when it succeeds.
pub open spec fn stage_after(stage: StartupStage) -> StartupStage {
    match stage {
        StartupStage::DataDir => StartupStage::Settings,
        StartupStage::Settings => StartupStage::LaunchAtLogin,
        StartupStage::LaunchAtLogin => StartupStage::Dictionary,
        StartupStage::Dictionary => StartupStage::History,
        StartupStage::History => StartupStage::SavedHotkey,
        StartupStage::SavedHotkey => StartupStage::HotkeyManager,
        StartupStage::HotkeyManager => StartupStage::RegisterHotkey,
        StartupStage::RegisterHotkey => StartupStage::PillWindow,
        StartupStage::PillWindow => StartupStage::Tray,
        StartupStage::Tray => StartupStage::Engine,
        StartupStage::Engine => StartupStage::Running,
        StartupStage::Running => StartupStage::Running,
        StartupStage::Stopped => StartupStage::Stopped,
    }
}

/// Whether a failure of `stage` abandons start-up. The others fall back: default
/// settings, the `Super+Space` hotkey, or simply going on.
pub open spec fn is_fatal(stage: StartupStage) -> bool {
    stage == StartupStage::DataDir || stage == StartupStage::Dictionary || stage
        == StartupStage::History || stage == StartupStage::HotkeyManager || stage
        == StartupStage::RegisterHotkey || stage == StartupStage::Tray
}

/// The text put before a failure's detail on the overlay, for the steps whose
/// failure is shown there. A failed hotkey registration arrives already worded.
pub open spec fn shown_prefix(stage: StartupStage) -> Option<Seq<char>> {
    match stage {
        StartupStage::DataDir => Some("Failed to initialize app data directory: "@),
        StartupStage::LaunchAtLogin => Some("Failed to configure launch-at-login: "@),
        StartupStage::Dictionary => Some("Failed to initialize dictionary: "@),
        StartupStage::History => Some("Failed to initialize transcription history: "@),
        StartupStage::HotkeyManager => Some("Failed to initialize global hotkey manager: "@),
        StartupStage::RegisterHotkey => Some(Seq::empty()),
        StartupStage::Tray => Some("Failed to initialize system tray: "@),
        StartupStage::Engine => Some("Engine initialization failed: "@),
        _ => None,
    }
}

/// The text put before a failure's detail in the log, for the steps whose failure
/// is logged.
pub open spec fn log_prefix(stage: StartupStage) -> Option<Seq<char>> {
    match stage {
        StartupStage::Settings => Some("Failed to load settings; using defaults: "@),
        StartupStage::LaunchAtLogin => Some("Failed to synchronize launch-at-login: "@),
        StartupStage::SavedHotkey => Some("Invalid saved hotkey; falling back to Super+Space: "@),
        StartupStage::PillWindow => Some("Failed to configure pill click-through: "@),
        StartupStage::Engine => Some("Failed to initialize CoreEngine: "@),
        _ => None,
    }
}

/// Whether start-up is over.
pub open spec fn is_finished(stage: StartupStage) -> bool {
    stage == StartupStage::Running || stage == StartupStage::Stopped
}

/// The report for `stage` ending with `outcome`, as (next step, text shown, text logged).
pub open spec fn startup_next(stage: StartupStage, outcome: Result<(), Seq<char>>) -> (
    StartupStage,
    Option<Seq<char>>,
    Option<Seq<char>>,
) {
    if is_finished(stage) {
        (stage, None, None)
    } else {
        match outcome {
            Ok(()) => (stage_after(stage), None, None),
            Err(e) => (
                if is_fatal(stage) {
                    StartupStage::Stopped
                } else {
                    stage_after(stage)
                },
                match shown_prefix(stage) {
                    Some(p) => Some(p + e),
                    None => None,
                },
                match log_prefix(stage) {
                    Some(p) => Some(p + e),
                    None => None,
                },
            ),
        }
    }
}

/// The error text of a shown state (the overlay only ever shows errors here).
pub open spec fn shown_text(shown: Option<EngineState>) -> Option<Seq<char>> {
    match shown {
        Some(EngineState::Error(m)) => Some(m@),
        _ => None,
    }
}

pub open spec fn log_text(log: Option<String>) -> Option<Seq<char>> {
    match log {
        Some(m) => Some(m@),
        None => None,
    }
}

pub open spec fn outcome_view(outcome: Result<(), String>) -> Result<(), Seq<char>> {
    match outcome {
        Ok(()) => Ok(()),
        Err(e) => Err(e@),
    }
}

fn stage_after_exec(stage: StartupStage) -> (r: StartupStage)
    ensures
        r == stage_after(stage),
{
    match stage {
        StartupStage::DataDir => StartupStage::Settings,
        StartupStage::Settings => StartupStage::LaunchAtLogin,
        StartupStage::LaunchAtLogin => StartupStage::Dictionary,
        StartupStage::Dictionary => StartupStage::History,
        StartupStage::History => StartupStage::SavedHotkey,
        StartupStage::SavedHotkey => StartupStage::HotkeyManager,
        StartupStage::HotkeyManager => StartupStage::RegisterHotkey,
        StartupStage::RegisterHotkey => StartupStage::PillWindow,
        StartupStage::PillWindow => StartupStage::Tray,
        StartupStage::Tray => StartupStage::Engine,
        StartupStage::Engine => StartupStage::Running,
        StartupStage::Running => StartupStage::Running,
        StartupStage::Stopped => StartupStage::Stopped,
    }
}

fn with_detail(prefix: &str, detail: &str) -> (r: String)
    ensures
        r@ == prefix@ + detail@,
{
    let mut out: Vec<char> = Vec::new();
    append_str(&mut out, prefix);
    append_str(&mut out, detail);
    string_of(out.as_slice())
}

fn shown_for(stage: StartupStage, detail: &str) -> (r: Option<EngineState>)
    ensures
        shown_text(r) == (match shown_prefix(stage) {
            Some(p) => Some(p + detail@),
            None => None,
        }),
        r matches Some(s) ==> s is Error,
{
    let prefix: Option<&str> = match stage {
        StartupStage::DataDir => Some("Failed to initialize app data directory: "),
        StartupStage::LaunchAtLogin => Some("Failed to configure launch-at-login: "),
        StartupStage::Dictionary => Some("Failed to initialize dictionary: "),
        StartupStage::History => Some("Failed to initialize transcription history: "),
        StartupStage::HotkeyManager => Some("Failed to initialize global hotkey manager: "),
        StartupStage::RegisterHotkey => Some(""),
        StartupStage::Tray => Some("Failed to initialize system tray: "),
        StartupStage::Engine => Some("Engine initialization failed: "),
        _ => None,
    };
    match prefix {
        Some(p) => {
            proof {
                reveal_strlit("");
            }
            Some(EngineState::Error(with_detail(p, detail)))
        },
        None => None,
    }
}

fn log_for(stage: StartupStage, detail: &str) -> (r: Option<String>)
    ensures
        log_text(r) == (match log_prefix(stage) {
            Some(p) => Some(p + detail@),
            None => None,
        }),
{
    let prefix: Option<&str> = match stage {
        StartupStage::Settings => Some("Failed to load settings; using defaults: "),
        StartupStage::LaunchAtLogin => Some("Failed to synchronize launch-at-login: "),
        StartupStage::SavedHotkey => Some("Invalid saved hotkey; falling back to Super+Space: "),
        StartupStage::PillWindow => Some("Failed to configure pill click-through: "),
        StartupStage::Engine => Some("Failed to initialize CoreEngine: "),
        _ => None,
    };
    match prefix {
        Some(p) => Some(with_detail(p, detail)),
        None => None,
    }
}

/// What follows `stage` ending with `outcome` (see `startup_next`).
pub fn startup_step(stage: StartupStage, outcome: Result<(), String>) -> (r: StartupReport)
    ensures
        (r.next, shown_text(r.shown), log_text(r.log)) == startup_next(stage, outcome_view(outcome)),
        r.shown matches Some(s) ==> s is Error,
{
    if stage == StartupStage::Running || stage == StartupStage::Stopped {
        return StartupReport { next: stage, shown: None, log: None };
    }
    match outcome {
        Ok(()) => StartupReport { next: stage_after_exec(stage), shown: None, log: None },
        Err(e) => {
            let fatal = stage == StartupStage::DataDir || stage == StartupStage::Dictionary || stage
                == StartupStage::History || stage == StartupStage::HotkeyManager || stage
                == StartupStage::RegisterHotkey || stage == StartupStage::Tray;
            let next = if fatal {
                StartupStage::Stopped
            } else {
                stage_after_exec(stage)
            };
            StartupReport {
                next,
                shown: shown_for(stage, e.as_str()),
                log: log_for(stage, e.as_str()),
            }
        },
    }
}

/// Start-up from `stage` through `outcomes` in order: the step reached, the texts
/// shown, and the texts logged.
pub open spec fn startup_run(stage: StartupStage, outcomes: Seq<Result<(), Seq<char>>>) -> (
    StartupStage,
    Seq<Seq<char>>,
    Seq<Seq<char>>,
)
    decreases outcomes.len(),
{
    if outcomes.len() == 0 {
        (stage, Seq::empty(), Seq::empty())
    } else {
        let (at, shown, logged) = startup_run(stage, outcomes.drop_last());
        let (next, s, l) = startup_next(at, outcomes.last());
        (
            next,
            match s {
                Some(t) => shown.push(t),
                None => shown,
            },
            match l {
                Some(t) => logged.push(t),
                None => logged,
            },
        )
    }
}

/// When every step succeeds, start-up runs the eleven steps in order and ends
/// running, with nothing shown and nothing logged.
pub proof fn law_clean_startup()
    ensures
        startup_run(StartupStage::DataDir, Seq::new(11, |i: int| Ok::<(), Seq<char>>(()))) == (
            StartupStage::Running,
            Seq::<Seq<char>>::empty(),
            Seq::<Seq<char>>::empty(),
        ),
{
    let oks = |n: int| Seq::new(n as nat, |i: int| Ok::<(), Seq<char>>(()));
    assert forall|n: int| 0 < n <= 11 implies #[trigger] oks(n).drop_last() =~= oks(n - 1) by {}
    reveal_with_fuel(startup_run, 12);
    assert(oks(11) =~= Seq::new(11, |i: int| Ok::<(), Seq<char>>(())));
    assert(startup_run(StartupStage::DataDir, oks(0)).0 == StartupStage::DataDir);
    assert(startup_run(StartupStage::DataDir, oks(1)).0 == StartupStage::Settings);
    assert(startup_run(StartupStage::DataDir, oks(2)).0 == StartupStage::LaunchAtLogin);
    assert(startup_run(StartupStage::DataDir, oks(3)).0 == StartupStage::Dictionary);
    assert(startup_run(StartupStage::DataDir, oks(4)).0 == StartupStage::History);
    assert(startup_run(StartupStage::DataDir, oks(5)).0 == StartupStage::SavedHotkey);
    assert(startup_run(StartupStage::DataDir, oks(6)).0 == StartupStage::HotkeyManager);
    assert(startup_run(StartupStage::DataDir, oks(7)).0 == StartupStage::RegisterHotkey);
    assert(startup_run(StartupStage::DataDir, oks(8)).0 == StartupStage::PillWindow);
    assert(startup_run(StartupStage::DataDir, oks(9)).0 == StartupStage::Tray);
    assert(startup_run(StartupStage::DataDir, oks(10)).0 == StartupStage::Engine);
}

/// Once start-up has stopped, or is running, nothing that comes after changes its
/// step, shows anything or logs anything.
pub proof fn law_finished_startup_is_final(stage: StartupStage, outcomes: Seq<Result<(), Seq<char>>>)
    requires
        is_finished(stage),
    ensures
        startup_run(stage, outcomes) == (stage, Seq::<Seq<char>>::empty(), Seq::<Seq<char>>::empty()),
    decreases outcomes.len(),
{
    if outcomes.len() > 0 {
        law_finished_startup_is_final(stage, outcomes.drop_last());
    }
}

/// A failed step that start-up cannot do without stops it, and the failure is
/// shown on the overlay; a failed step that has a fallback lets start-up go on to
/// the next step.
pub proof fn law_failure_handling(stage: StartupStage, error: Seq<char>)
    requires
        !is_finished(stage),
    ensures
        is_fatal(stage) ==> startup_next(stage, Err(error)).0 == StartupStage::Stopped
            && startup_next(stage, Err(error)).1 is Some,
        !is_fatal(stage) ==> startup_next(stage, Err(error)).0 == stage_after(stage),
        startup_next(stage, Err(error)).1 is Some || startup_next(stage, Err(error)).2 is Some,
{
}

} // verus!
