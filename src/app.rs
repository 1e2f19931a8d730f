//! The application instance: configuration checked once at startup, and the
//! per-iteration decisions of the presentation loop on that configuration.
use vstd::prelude::*;
use crate::frame_length;
use crate::title::{debug_title, title_text};
use crate::scheduler::{Command, Event, FrameScheduler, SchedulerState, sleep_spec, sleep_time, next};

verus! {

/// Width of the whole display, border included, in pixels.
pub const SCREEN_WIDTH: u32 = 320;
/// Height of the whole display, border included, in pixels.
pub const SCREEN_HEIGHT: u32 = 240;
/// Width of the drawing area.
pub const CANVAS_WIDTH: u32 = 256;
/// Height of the drawing area.
pub const CANVAS_HEIGHT: u32 = 192;
/// Left offset of the drawing area within the display.
pub const CANVAS_X: u32 = 32;
/// Top offset of the drawing area within the display.
pub const CANVAS_Y: u32 = 24;
/// Target frame rate: the machine's field rate.
pub const FPS: usize = 50;
/// Largest display scale at which every scaled extent fits in a `u32`.
pub const MAX_SCALE: u32 = 13421772;

/// A rectangle on the window, in window pixels.
#[derive(Clone, Copy, PartialEq, Eq, Structural, Debug)]
pub struct Rect {
    pub x: i32,
    pub y: i32,
    pub w: u32,
    pub h: u32,
}

/// Startup options.
#[derive(Clone, Debug)]
pub struct Settings {
    pub sound_enabled: bool,
    /// Integer display scale factor.
    pub scale: usize,
    pub rom: Option<String>,
    pub sna: Option<String>,
    pub tap: Option<String>,
}

/// Why the application could not start.
#[derive(Clone, Copy, PartialEq, Eq, Structural, Debug)]
pub enum AppError {
    /// The settings, or a resource they name, cannot be used.
    ConfigurationError,
    /// The emulator refused to be built.
    EmulatorInitError,
}

pub open spec fn scale_ok(scale: usize) -> bool {
    scale <= MAX_SCALE
}

/// Application instance.
pub struct RustzxApp {
    scheduler: FrameScheduler,
    sound_enabled: bool,
    scale: u32,
}

impl RustzxApp {
    pub closed spec fn spec_scale(&self) -> nat {
        self.scale as nat
    }

    pub closed spec fn spec_sound_enabled(&self) -> bool {
        self.sound_enabled
    }

    pub closed spec fn control(&self) -> SchedulerState {
        self.scheduler.view()
    }

    pub closed spec fn wf(&self) -> bool {
        self.scale <= MAX_SCALE
    }

    /// Checks the settings and builds the instance, running, with the debug
    /// overlay off.
    pub fn from_config(settings: Settings) -> (r: Result<RustzxApp, AppError>)
        ensures
            scale_ok(settings.scale) <==> r is Ok,
            r matches Ok(app) ==> {
                &&& app.wf()
                &&& app.spec_scale() == settings.scale
                &&& app.spec_sound_enabled() == settings.sound_enabled
                &&& app.control() == (SchedulerState { debug: false, running: true })
            },
            r matches Err(e) ==> e == AppError::ConfigurationError,
    {
        if settings.scale > MAX_SCALE as usize {
            return Err(AppError::ConfigurationError);
        }
        Ok(RustzxApp {
            scheduler: FrameScheduler::new(),
            sound_enabled: settings.sound_enabled,
            scale: settings.scale as u32,
        })
    }

    pub fn scale(&self) -> (r: u32)
        ensures
            r == self.spec_scale(),
    {
        self.scale
    }

    pub fn sound_enabled(&self) -> (r: bool)
        ensures
            r == self.spec_sound_enabled(),
    {
        self.sound_enabled
    }

    pub fn is_running(&self) -> (r: bool)
        ensures
            r == self.control().running,
    {
        self.scheduler.is_running()
    }

    pub fn debug(&self) -> (r: bool)
        ensures
            r == self.control().debug,
    {
        self.scheduler.debug()
    }

    /// Target frame duration in milliseconds.
    pub fn frame_target_ms(&self) -> (r: u64)
        ensures
            r == 1000int / (FPS as int),
    {
        frame_length(FPS)
    }

    /// Where the border texture is drawn: the whole display, scaled.
    pub fn border_rect(&self) -> (r: Rect)
        requires
            self.wf(),
        ensures
            r == (Rect {
                x: 0,
                y: 0,
                w: (SCREEN_WIDTH * self.spec_scale()) as u32,
                h: (SCREEN_HEIGHT * self.spec_scale()) as u32,
            }),
    {
        Rect { x: 0, y: 0, w: SCREEN_WIDTH * self.scale, h: SCREEN_HEIGHT * self.scale }
    }

    /// Where the canvas texture is drawn: the drawing area at its offset, scaled.
    pub fn canvas_rect(&self) -> (r: Rect)
        requires
            self.wf(),
        ensures
            r == (Rect {
                x: (CANVAS_X * self.spec_scale()) as i32,
                y: (CANVAS_Y * self.spec_scale()) as i32,
                w: (CANVAS_WIDTH * self.spec_scale()) as u32,
                h: (CANVAS_HEIGHT * self.spec_scale()) as u32,
            }),
    {
        Rect {
            x: (CANVAS_X * self.scale) as i32,
            y: (CANVAS_Y * self.scale) as i32,
            w: CANVAS_WIDTH * self.scale,
            h: CANVAS_HEIGHT * self.scale,
        }
    }

    /// Whether the queued audio samples go to the sound sink this iteration:
    /// only with a sink and with sound generation on in the emulator.
    pub fn drains_audio(&self, emulator_has_sound: bool) -> (r: bool)
        ensures
            r == (self.spec_sound_enabled() && emulator_has_sound),
    {
        self.sound_enabled && emulator_has_sound
    }

    /// Reacts to the one event polled this iteration.
    pub fn handle_event(&mut self, polled: Option<Event>, joystick_attached: bool) -> (c: Command)
        requires
            old(self).control().running,
        ensures
            (final(self).control(), c) == next(old(self).control(), polled, joystick_attached),
            final(self).spec_scale() == old(self).spec_scale(),
            final(self).spec_sound_enabled() == old(self).spec_sound_enabled(),
            final(self).wf() == old(self).wf(),
    {
        self.scheduler.on_event(polled, joystick_attached)
    }

    /// Sleep before the next frame, in whole milliseconds, given the
    /// milliseconds the iteration took so far and the target frame duration.
    pub fn frame_sleep(&self, elapsed_ms: u64, target_ms: u64, emulator_has_sound: bool) -> (r:
        u64)
        ensures
            r == sleep_spec(elapsed_ms as nat, target_ms as nat, emulator_has_sound),
    {
        sleep_time(elapsed_ms, target_ms, emulator_has_sound)
    }

    /// The title to show at the end of an iteration: the timings while the
    /// debug overlay is on, none otherwise.
    /// Both times are in nanoseconds.
    pub fn overlay_title(&self, cpu_ns: u64, frame_ns: u64) -> (r: Option<String>)
        ensures
            r is Some <==> self.control().debug,
            r matches Some(t) ==> t@ == title_text(cpu_ns as nat, frame_ns as nat),
    {
        if self.scheduler.debug() {
            Some(debug_title(cpu_ns, frame_ns))
        } else {
            None
        }
    }
}

} // verus!
