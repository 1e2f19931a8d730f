use rustzx_frame::app::{AppError, Rect, RustzxApp, Settings};
use rustzx_frame::scheduler::{Command, EmulationSpeed, Event, FrameScheduler};
use std::collections::VecDeque;

fn settings(scale: usize, sound: bool) -> Settings {
    Settings { sound_enabled: sound, scale, rom: None, sna: None, tap: None }
}

/// Runs the scheduler over `queue`, one poll per iteration, for at most
/// `limit` iterations; returns the commands and the events left unseen.
fn drive(queue: Vec<Event>, limit: usize) -> (Vec<Command>, usize) {
    let mut s = FrameScheduler::new();
    let mut q: VecDeque<Event> = queue.into_iter().collect();
    let mut out = Vec::new();
    for _ in 0..limit {
        if !s.is_running() {
            break;
        }
        out.push(s.on_event(q.pop_front(), true));
    }
    (out, q.len())
}

#[test]
fn exit_at_iteration_n_ends_after_exactly_n() {
    let events = vec![
        Event::GameKey(1, true),
        Event::InsertTape,
        Event::Exit,
        Event::ChangeSpeed(EmulationSpeed::Max),
        Event::StopTape,
    ];
    let (cmds, left) = drive(events, 10);
    assert_eq!(cmds, vec![Command::SendKey(1, true), Command::PlayTape, Command::Exit]);
    assert_eq!(left, 2);
}

#[test]
fn burst_of_events_is_seen_one_per_iteration() {
    let events = vec![Event::InsertTape, Event::StopTape, Event::GameKey(7, false)];
    let (cmds, left) = drive(events.clone(), 2);
    assert_eq!(cmds.len(), 2);
    assert_eq!(left, 1);
    let (cmds, left) = drive(events, 3);
    assert_eq!(cmds, vec![Command::PlayTape, Command::StopTape, Command::SendKey(7, false)]);
    assert_eq!(left, 0);
}

#[test]
fn speed_change_is_passed_on_exactly_once() {
    let (cmds, _) = drive(vec![Event::ChangeSpeed(EmulationSpeed::Definite(2))], 4);
    assert_eq!(
        cmds,
        vec![
            Command::SetSpeed(EmulationSpeed::Definite(2)),
            Command::Idle,
            Command::Idle,
            Command::Idle
        ]
    );
    let n = cmds.iter().filter(|c| **c == Command::SetSpeed(EmulationSpeed::Definite(2))).count();
    assert_eq!(n, 1);
}

#[test]
fn switch_debug_toggles_and_resets_title_when_turned_off() {
    let mut s = FrameScheduler::new();
    assert!(!s.debug());
    assert_eq!(s.on_event(Some(Event::SwitchDebug), false), Command::Idle);
    assert!(s.debug());
    assert_eq!(s.on_event(Some(Event::SwitchDebug), false), Command::ResetTitle);
    assert!(!s.debug());
    assert!(s.is_running());
}

#[test]
fn kempston_needs_an_attached_joystick() {
    let mut s = FrameScheduler::new();
    assert_eq!(s.on_event(Some(Event::Kempston(2, true)), false), Command::Idle);
    assert_eq!(s.on_event(Some(Event::Kempston(2, true)), true), Command::KempstonKey(2, true));
}

#[test]
fn open_file_and_no_event_do_nothing() {
    let mut s = FrameScheduler::new();
    assert_eq!(s.on_event(Some(Event::OpenFile("game.tap".to_string())), true), Command::Idle);
    assert_eq!(s.on_event(None, true), Command::Idle);
    assert!(s.is_running());
    assert_eq!(s.on_event(Some(Event::Exit), true), Command::Exit);
    assert!(!s.is_running());
}

#[test]
fn from_config_rejects_scale_that_overflows() {
    assert_eq!(
        RustzxApp::from_config(settings(13421773, false)).err(),
        Some(AppError::ConfigurationError)
    );
    assert!(RustzxApp::from_config(settings(13421772, false)).is_ok());
}

#[test]
fn from_config_accepts_scale_zero() {
    let app = RustzxApp::from_config(settings(0, false)).ok().unwrap();
    assert_eq!(app.scale(), 0);
    assert_eq!(app.border_rect(), Rect { x: 0, y: 0, w: 0, h: 0 });
    assert_eq!(app.canvas_rect(), Rect { x: 0, y: 0, w: 0, h: 0 });
}

#[test]
fn from_config_scales_geometry() {
    let app = RustzxApp::from_config(settings(2, true)).ok().unwrap();
    assert_eq!(app.scale(), 2);
    assert!(app.sound_enabled());
    assert!(app.is_running());
    assert!(!app.debug());
    assert_eq!(app.border_rect(), Rect { x: 0, y: 0, w: 640, h: 480 });
    assert_eq!(app.canvas_rect(), Rect { x: 64, y: 48, w: 512, h: 384 });
    assert_eq!(app.frame_target_ms(), 20);
}

#[test]
fn audio_drains_only_with_sink_and_sound() {
    let on = RustzxApp::from_config(settings(1, true)).ok().unwrap();
    let off = RustzxApp::from_config(settings(1, false)).ok().unwrap();
    assert!(on.drains_audio(true));
    assert!(!on.drains_audio(false));
    assert!(!off.drains_audio(true));
}

#[test]
fn end_to_end_frame_at_fifty_fps_without_sound() {
    let mut app = RustzxApp::from_config(settings(1, false)).ok().unwrap();
    let target = app.frame_target_ms();
    assert_eq!(target, 20);
    assert_eq!(app.frame_sleep(5, target, false), 15);
    assert_eq!(app.overlay_title(5_000_000, 20_000_000), None);
    assert_eq!(app.handle_event(Some(Event::SwitchDebug), false), Command::Idle);
    assert_eq!(
        app.overlay_title(5_000_000, 20_000_000),
        Some("CPU:   5.000ms; FRAME: 20.000ms".to_string())
    );
    assert_eq!(app.frame_sleep(5, target, true), 13);
}
