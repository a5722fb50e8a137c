use wisprtype::engine::EngineState;
use wisprtype::startup::{startup_step, StartupStage};
use wisprtype::ui::{pill_position, WorkArea};
use wisprtype::ui::try_pill_position;

#[test]
fn clean_startup_runs_every_step() {
    let mut stage = StartupStage::DataDir;
    let mut seen = vec![stage];
    while stage != StartupStage::Running {
        let report = startup_step(stage, Ok(()));
        assert!(report.shown.is_none());
        assert!(report.log.is_none());
        stage = report.next;
        seen.push(stage);
    }
    assert_eq!(seen.len(), 12);
    assert_eq!(seen[7], StartupStage::RegisterHotkey);
}

#[test]
fn required_steps_stop_startup() {
    let r = startup_step(StartupStage::Dictionary, Err("locked".to_string()));
    assert_eq!(r.next, StartupStage::Stopped);
    assert_eq!(r.shown, Some(EngineState::Error("Failed to initialize dictionary: locked".to_string())));
    assert!(r.log.is_none());
    let r = startup_step(StartupStage::RegisterHotkey, Err("Hotkey `X` is taken".to_string()));
    assert_eq!(r.next, StartupStage::Stopped);
    assert_eq!(r.shown, Some(EngineState::Error("Hotkey `X` is taken".to_string())));
}

#[test]
fn optional_steps_fall_back() {
    let r = startup_step(StartupStage::Settings, Err("bad json".to_string()));
    assert_eq!(r.next, StartupStage::LaunchAtLogin);
    assert!(r.shown.is_none());
    assert_eq!(r.log, Some("Failed to load settings; using defaults: bad json".to_string()));
    let r = startup_step(StartupStage::LaunchAtLogin, Err("denied".to_string()));
    assert_eq!(r.next, StartupStage::Dictionary);
    assert_eq!(r.shown, Some(EngineState::Error("Failed to configure launch-at-login: denied".to_string())));
    assert_eq!(r.log, Some("Failed to synchronize launch-at-login: denied".to_string()));
    let r = startup_step(StartupStage::SavedHotkey, Err("bad".to_string()));
    assert_eq!(r.next, StartupStage::HotkeyManager);
    let r = startup_step(StartupStage::Engine, Err("spawn".to_string()));
    assert_eq!(r.next, StartupStage::Running);
    assert_eq!(r.shown, Some(EngineState::Error("Engine initialization failed: spawn".to_string())));
}

#[test]
fn finished_startup_ignores_outcomes() {
    let r = startup_step(StartupStage::Stopped, Err("late".to_string()));
    assert_eq!(r.next, StartupStage::Stopped);
    assert!(r.shown.is_none() && r.log.is_none());
}

#[test]
fn pill_is_centred_above_the_taskbar() {
    let area = WorkArea { x: 0, y: 0, width: 1920, height: 1040 };
    assert_eq!(pill_position(area, Some((200, 50))), (860, 980));
    assert_eq!(pill_position(area, None), (876, 986));
    let small = WorkArea { x: 100, y: 50, width: 100, height: 20 };
    assert_eq!(pill_position(small, Some((300, 50))), (100, 50));
}

#[test]
fn pill_position_is_refused_when_it_would_overflow() {
    let area = WorkArea { x: 0, y: 0, width: 1920, height: 1040 };
    assert_eq!(try_pill_position(area, Some((200, 50))), Some((860, 980)));
    let huge = WorkArea { x: i32::MAX, y: 0, width: 1000, height: 100 };
    assert_eq!(try_pill_position(huge, Some((10, 10))), None);
    let odd = WorkArea { x: 0, y: 0, width: i32::MIN, height: 100 };
    assert_eq!(try_pill_position(odd, Some((10, 10))), None);
}
