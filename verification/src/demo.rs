//! The calibration demo: its state, what its keys do, and what it says.

use crate::medimg::{DEFAULT_BG_SHIFT, DEFAULT_DEPTH_PX};
use crate::nvstusb::{Eye, ARM_GRACE_SWAPS};
use crate::nvtimings;
use crate::text;
use vstd::prelude::*;

pub mod laws;
pub mod output;

verus! {

/// What is on the screen.
#[derive(Clone, Copy, Debug, PartialEq, Eq, Structural)]
pub enum SceneMode {
    HexTri,
    Pulsar,
    Rds,
    AltBlink,
}

impl Default for SceneMode {
    fn default() -> (s: Self)
        ensures
            s == SceneMode::HexTri,
    {
        SceneMode::HexTri
    }
}

/// How the two eyes' cameras are set up.
#[derive(Clone, Copy, Debug, PartialEq, Eq, Structural)]
pub enum CameraType {
    ToeIn,
    ParallelAxisAsymmetric,
}

/// Which timing the timing keys change.
#[derive(Clone, Copy, Debug, PartialEq, Eq, Structural)]
pub enum TimingTarget {
    /// Delay from the refresh to the opening of the shutter.
    X,
    /// How long the shutter stays open.
    Y,
    /// The second timer counter.
    W,
    /// Lead of a packet before its vertical blank.
    Phase,
}

impl TimingTarget {
    /// The one after.
    pub open spec fn after(self) -> TimingTarget {
        match self {
            TimingTarget::X => TimingTarget::Y,
            TimingTarget::Y => TimingTarget::W,
            TimingTarget::W => TimingTarget::Phase,
            TimingTarget::Phase => TimingTarget::X,
        }
    }

    /// The one after.
    pub fn next(self) -> (t: TimingTarget)
        ensures
            t == self.after(),
    {
        match self {
            TimingTarget::X => TimingTarget::Y,
            TimingTarget::Y => TimingTarget::W,
            TimingTarget::W => TimingTarget::Phase,
            TimingTarget::Phase => TimingTarget::X,
        }
    }

    pub fn label(self) -> (l: &'static str)
        ensures
            l@ == (match self {
                TimingTarget::X => "X (refresh start -> shutter open)"@,
                TimingTarget::Y => "Y (shutter open window)"@,
                TimingTarget::W => "W (2nd T2 counter)"@,
                TimingTarget::Phase => "LEAD (packet -> vblank)"@,
            }),
    {
        match self {
            TimingTarget::X => "X (refresh start -> shutter open)",
            TimingTarget::Y => "Y (shutter open window)",
            TimingTarget::W => "W (2nd T2 counter)",
            TimingTarget::Phase => "LEAD (packet -> vblank)",
        }
    }
}

/// Every timing comes up once, and then the first again.
pub proof fn targets_go_round(t: TimingTarget)
    ensures
        t.after().after().after().after() == t,
        t.after() != t,
        t.after().after() != t,
        t.after().after().after() != t,
{
}

/// The step after this one: 100, 1000, 10, 1, and 100 again.
pub open spec fn step_after(step: u32) -> u32 {
    if step == 100 {
        1000
    } else if step == 1000 {
        10
    } else if step == 10 {
        1
    } else {
        100
    }
}

/// Largest lead that the keys reach.
pub const MAX_PHASE_US: u32 = 7000;

/// What the keys change.
#[derive(Clone, Copy, Debug, PartialEq, Eq, Structural)]
pub struct DemoState {
    pub scene: SceneMode,
    pub camera: CameraType,
    /// 0 for both eyes in turn, 1 for the left eye only, 2 for the right one.
    pub force_eye: i32,
    /// 1 for left, 0 for right.
    pub current_eye: i32,
    pub rds_depth: i32,
    pub rds_bg: i32,
    pub pulsar_rotate: bool,
    pub swap_phase_us: u32,
    pub timing_target: TimingTarget,
    pub timing_step_us: u32,
}

/// What a key asks the caller to do.
#[derive(Debug)]
pub enum KeyAction {
    Nothing,
    Quit,
    SaveTimings,
    Screenshot,
    /// Change the chosen timing by that much.
    Adjust(i64),
    /// Say which timing is chosen now.
    ShowTarget,
    InvertEyes,
    /// Say this.
    Say(String),
}

/// A [`KeyAction`] as plain values.
pub enum Asked {
    Nothing,
    Quit,
    SaveTimings,
    Screenshot,
    Adjust(int),
    ShowTarget,
    InvertEyes,
    Say(Seq<char>),
}

impl View for KeyAction {
    type V = Asked;

    open spec fn view(&self) -> Asked {
        match self {
            KeyAction::Nothing => Asked::Nothing,
            KeyAction::Quit => Asked::Quit,
            KeyAction::SaveTimings => Asked::SaveTimings,
            KeyAction::Screenshot => Asked::Screenshot,
            KeyAction::Adjust(d) => Asked::Adjust(*d as int),
            KeyAction::ShowTarget => Asked::ShowTarget,
            KeyAction::InvertEyes => Asked::InvertEyes,
            KeyAction::Say(s) => Asked::Say(s@),
        }
    }
}

pub open spec fn depth_line(px: int) -> Seq<char> {
    "RDS depth (pop-out): "@ + text::decimal(px as nat) + " px"@
}

pub open spec fn background_line(px: int) -> Seq<char> {
    "RDS background depth (convergence): "@ + text::decimal(px as nat) + " px"@
}

pub open spec fn step_line(step: int) -> Seq<char> {
    "Timing step: "@ + text::decimal(step as nat)
        + " us (`,`,`.` adjust by this; `[`,`]` by "@ + text::decimal((step * 10) as nat) + " us)"@
}

pub open spec fn at_most(x: int, top: int) -> int {
    if x > top {
        top
    } else {
        x
    }
}

pub open spec fn at_least(x: int, bottom: int) -> int {
    if x < bottom {
        bottom
    } else {
        x
    }
}

impl DemoState {
    /// The values that the keys can reach.
    pub open spec fn wf(&self) -> bool {
        &&& 0 <= self.force_eye <= 2
        &&& 0 <= self.current_eye <= 1
        &&& 0 <= self.rds_depth <= 80
        &&& 0 <= self.rds_bg <= 40
        &&& self.timing_step_us <= 1000
    }

    /// What a key does.
    pub open spec fn keyed(self, c: char) -> (DemoState, Asked) {
        let step = self.timing_step_us as int;
        if c == 'q' || c == 'Q' || c == '\u{1b}' {
            (self, Asked::Quit)
        } else if c == 'c' || c == 'C' {
            if self.camera == CameraType::ToeIn {
                (
                    DemoState { camera: CameraType::ParallelAxisAsymmetric, ..self },
                    Asked::Say("Using parallel axis asymmetric frusta camera."@),
                )
            } else {
                (
                    DemoState { camera: CameraType::ToeIn, ..self },
                    Asked::Say("Using toe-in stereo camera."@),
                )
            }
        } else if c == 'f' || c == 'F' {
            let force_eye = (if self.force_eye == 2 {
                0
            } else {
                self.force_eye + 1
            }) as i32;
            (
                DemoState { force_eye, ..self },
                Asked::Say(
                    if force_eye == 0 {
                        "Swapping eyes normally."@
                    } else if force_eye == 1 {
                        "Forcing left eye always."@
                    } else {
                        "Forcing right eye always."@
                    },
                ),
            )
        } else if c == 's' {
            (self, Asked::SaveTimings)
        } else if c == 'S' {
            (self, Asked::Screenshot)
        } else if c == ',' || c == ';' {
            (self, Asked::Adjust(-step))
        } else if c == '.' || c == ':' {
            (self, Asked::Adjust(step))
        } else if c == '[' || c == '{' {
            (self, Asked::Adjust(-step * 10))
        } else if c == ']' || c == '}' {
            (self, Asked::Adjust(step * 10))
        } else if c == 't' || c == 'T' {
            (
                DemoState { timing_target: self.timing_target.after(), ..self },
                Asked::ShowTarget,
            )
        } else if c == 'k' || c == 'K' {
            let next = step_after(self.timing_step_us);
            (
                DemoState { timing_step_us: next, ..self },
                Asked::Say(step_line(next as int)),
            )
        } else if c == 'i' || c == 'I' {
            (self, Asked::InvertEyes)
        } else if c == '+' || c == '=' {
            let d = at_most(self.rds_depth + 2, 80);
            (DemoState { rds_depth: d as i32, ..self }, Asked::Say(depth_line(d)))
        } else if c == '-' || c == '_' {
            let d = at_least(self.rds_depth - 2, 0);
            (DemoState { rds_depth: d as i32, ..self }, Asked::Say(depth_line(d)))
        } else if c == 'a' || c == 'A' {
            let b = at_most(self.rds_bg + 1, 40);
            (DemoState { rds_bg: b as i32, ..self }, Asked::Say(background_line(b)))
        } else if c == 'd' || c == 'D' {
            let b = at_least(self.rds_bg - 1, 0);
            (DemoState { rds_bg: b as i32, ..self }, Asked::Say(background_line(b)))
        } else if c == '1' {
            (
                DemoState { scene: SceneMode::HexTri, ..self },
                Asked::Say("Scene switched to 3dvgl (hexagons/triangles)."@),
            )
        } else if c == '2' {
            (
                DemoState { scene: SceneMode::Rds, ..self },
                Asked::Say("Scene switched to medimg (random-dot stereogram)."@),
            )
        } else if c == '3' {
            (
                DemoState { scene: SceneMode::AltBlink, ..self },
                Asked::Say("Scene switched to alternating blue/red (sync check)."@),
            )
        } else if c == '4' {
            (
                DemoState { scene: SceneMode::Pulsar, ..self },
                Asked::Say("Scene switched to 3dvgl-c (pulsar)."@),
            )
        } else {
            (self, Asked::Nothing)
        }
    }

    /// How the demo starts.
    pub fn new() -> (s: DemoState)
        ensures
            s.wf(),
            s == (DemoState {
                scene: SceneMode::HexTri,
                camera: CameraType::ParallelAxisAsymmetric,
                force_eye: 0,
                current_eye: 0,
                rds_depth: DEFAULT_DEPTH_PX,
                rds_bg: DEFAULT_BG_SHIFT,
                pulsar_rotate: true,
                swap_phase_us: 2080,
                timing_target: TimingTarget::X,
                timing_step_us: 100,
            }),
    {
        DemoState {
            scene: SceneMode::HexTri,
            camera: CameraType::ParallelAxisAsymmetric,
            force_eye: 0,
            current_eye: 0,
            rds_depth: DEFAULT_DEPTH_PX,
            rds_bg: DEFAULT_BG_SHIFT,
            pulsar_rotate: true,
            swap_phase_us: 2080,
            timing_target: TimingTarget::X,
            timing_step_us: 100,
        }
    }

    /// A key was pressed.
    pub fn process_key(&mut self, c: char) -> (a: KeyAction)
        requires
            old(self).wf(),
        ensures
            final(self).wf(),
            *final(self) == old(self).keyed(c).0,
            a@ == old(self).keyed(c).1,
    {
        match c {
            'q' | 'Q' | '\u{1b}' => KeyAction::Quit,
            'c' | 'C' => self.toggle_camera(),
            'f' | 'F' => self.cycle_forced_eye(),
            's' => KeyAction::SaveTimings,
            'S' => KeyAction::Screenshot,
            ',' | ';' => KeyAction::Adjust(-(self.timing_step_us as i64)),
            '.' | ':' => KeyAction::Adjust(self.timing_step_us as i64),
            '[' | '{' => KeyAction::Adjust(-(self.timing_step_us as i64) * 10),
            ']' | '}' => KeyAction::Adjust(self.timing_step_us as i64 * 10),
            't' | 'T' => self.cycle_timing_target(),
            'k' | 'K' => self.cycle_timing_step(),
            'i' | 'I' => KeyAction::InvertEyes,
            '+' | '=' => self.set_depth(if self.rds_depth + 2 > 80 {
                80
            } else {
                self.rds_depth + 2
            }),
            '-' | '_' => self.set_depth(if self.rds_depth - 2 < 0 {
                0
            } else {
                self.rds_depth - 2
            }),
            'a' | 'A' => self.set_background(if self.rds_bg + 1 > 40 {
                40
            } else {
                self.rds_bg + 1
            }),
            'd' | 'D' => self.set_background(if self.rds_bg - 1 < 0 {
                0
            } else {
                self.rds_bg - 1
            }),
            '1' => self.set_scene(
                SceneMode::HexTri,
                "Scene switched to 3dvgl (hexagons/triangles).",
            ),
            '2' => self.set_scene(
                SceneMode::Rds,
                "Scene switched to medimg (random-dot stereogram).",
            ),
            '3' => self.set_scene(
                SceneMode::AltBlink,
                "Scene switched to alternating blue/red (sync check).",
            ),
            '4' => self.set_scene(SceneMode::Pulsar, "Scene switched to 3dvgl-c (pulsar)."),
            _ => KeyAction::Nothing,
        }
    }

    fn toggle_camera(&mut self) -> (a: KeyAction)
        ensures
            *final(self) == old(self).keyed('c').0,
            a@ == old(self).keyed('c').1,
    {
        if self.camera == CameraType::ToeIn {
            self.camera = CameraType::ParallelAxisAsymmetric;
            KeyAction::Say("Using parallel axis asymmetric frusta camera.".to_owned())
        } else {
            self.camera = CameraType::ToeIn;
            KeyAction::Say("Using toe-in stereo camera.".to_owned())
        }
    }

    fn cycle_forced_eye(&mut self) -> (a: KeyAction)
        requires
            old(self).wf(),
        ensures
            *final(self) == old(self).keyed('f').0,
            a@ == old(self).keyed('f').1,
    {
        self.force_eye = if self.force_eye == 2 {
            0
        } else {
            self.force_eye + 1
        };
        match self.force_eye {
            0 => KeyAction::Say("Swapping eyes normally.".to_owned()),
            1 => KeyAction::Say("Forcing left eye always.".to_owned()),
            _ => KeyAction::Say("Forcing right eye always.".to_owned()),
        }
    }

    fn cycle_timing_target(&mut self) -> (a: KeyAction)
        ensures
            *final(self) == old(self).keyed('t').0,
            a@ == old(self).keyed('t').1,
    {
        self.timing_target = self.timing_target.next();
        KeyAction::ShowTarget
    }

    fn cycle_timing_step(&mut self) -> (a: KeyAction)
        ensures
            *final(self) == old(self).keyed('k').0,
            a@ == old(self).keyed('k').1,
    {
        self.timing_step_us = match self.timing_step_us {
            100 => 1000,
            1000 => 10,
            10 => 1,
            _ => 100,
        };
        let mut s: String = "Timing step: ".to_owned();
        text::push_decimal(&mut s, self.timing_step_us as u64);
        s.append(" us (`,`,`.` adjust by this; `[`,`]` by ");
        text::push_decimal(&mut s, self.timing_step_us as u64 * 10);
        s.append(" us)");
        KeyAction::Say(s)
    }

    fn set_depth(&mut self, px: i32) -> (a: KeyAction)
        requires
            0 <= px,
        ensures
            *final(self) == (DemoState { rds_depth: px, ..*old(self) }),
            a@ == Asked::Say(depth_line(px as int)),
    {
        self.rds_depth = px;
        let mut s: String = "RDS depth (pop-out): ".to_owned();
        text::push_decimal(&mut s, px as u64);
        s.append(" px");
        KeyAction::Say(s)
    }

    fn set_background(&mut self, px: i32) -> (a: KeyAction)
        requires
            0 <= px,
        ensures
            *final(self) == (DemoState { rds_bg: px, ..*old(self) }),
            a@ == Asked::Say(background_line(px as int)),
    {
        self.rds_bg = px;
        let mut s: String = "RDS background depth (convergence): ".to_owned();
        text::push_decimal(&mut s, px as u64);
        s.append(" px");
        KeyAction::Say(s)
    }

    fn set_scene(&mut self, scene: SceneMode, line: &str) -> (a: KeyAction)
        ensures
            *final(self) == (DemoState { scene, ..*old(self) }),
            a@ == Asked::Say(line@),
    {
        self.scene = scene;
        KeyAction::Say(line.to_owned())
    }

    /// Changes the lead, within its range.
    pub fn adjust_phase(&mut self, delta: i64)
        ensures
            *final(self) == (DemoState {
                swap_phase_us: at_most(
                    at_least(old(self).swap_phase_us + delta, 0),
                    MAX_PHASE_US as int,
                ) as u32,
                ..*old(self)
            }),
    {
        let moved: i128 = self.swap_phase_us as i128 + delta as i128;
        self.swap_phase_us = if moved < 0 {
            0
        } else if moved > MAX_PHASE_US as i128 {
            MAX_PHASE_US
        } else {
            moved as u32
        };
    }

    /// The eye to draw now, 1 for left: the forced one, else the current one.
    pub open spec fn shown_eye(self) -> i32 {
        if self.force_eye == 0 {
            self.current_eye
        } else if self.force_eye == 1 {
            1
        } else {
            0
        }
    }

    /// Goes on to the next frame.  Returns the eye to draw, 1 for left.
    pub fn next_frame(&mut self) -> (show: i32)
        requires
            old(self).wf(),
        ensures
            final(self).wf(),
            *final(self) == (DemoState {
                current_eye: (1 - old(self).current_eye) as i32,
                ..*old(self)
            }),
            show == final(self).shown_eye(),
    {
        self.current_eye = if self.current_eye == 0 {
            1
        } else {
            0
        };
        match self.force_eye {
            0 => self.current_eye,
            1 => 1,
            _ => 0,
        }
    }

    /// The emitter's button starts and stops the pulsar.  Returns whether it
    /// did.
    pub fn observe_button(&mut self, toggled: bool) -> (changed: bool)
        ensures
            changed == toggled,
            *final(self) == (DemoState {
                pulsar_rotate: old(self).pulsar_rotate != toggled,
                ..*old(self)
            }),
    {
        if toggled {
            self.pulsar_rotate = !self.pulsar_rotate;
        }
        toggled
    }
}

/// The shutter that goes with a drawn eye.
pub fn eye_of(show: i32) -> (e: Eye)
    ensures
        e == (if show != 0 {
            Eye::Left
        } else {
            Eye::Right
        }),
{
    if show != 0 {
        Eye::Left
    } else {
        Eye::Right
    }
}

/// Without a forced eye, two frames in a row show both eyes.
pub proof fn the_eyes_take_turns(s: DemoState)
    requires
        s.wf(),
        s.force_eye == 0,
    ensures
        (DemoState { current_eye: (1 - s.current_eye) as i32, ..s }).shown_eye() != s.shown_eye(),
{
}

/// Three presses of the key that forces an eye undo each other, and so do two
/// of the camera key.
pub proof fn cycling_keys_come_round(s: DemoState)
    requires
        s.wf(),
    ensures
        s.keyed('f').0.keyed('f').0.keyed('f').0 == s,
        s.keyed('c').0.keyed('c').0 == s,
        s.timing_step_us == 100 ==> s.keyed('k').0.keyed('k').0.keyed('k').0.keyed('k').0 == s,
{
}

/// Whether to ask which output the window is on: every 120 frames, and in every
/// frame of the start until it is known.
pub fn poll_output(known: bool, frames: u64) -> (b: bool)
    ensures
        b == ((!known && frames < ARM_GRACE_SWAPS) || frames % 120 == 0),
{
    (!known && frames < ARM_GRACE_SWAPS) || frames % 120 == 0
}

/// The refresh rate that an output reports, in millihertz, if it can be one.
pub fn plausible_rate(mhz: Option<u32>) -> (r: Option<u32>)
    ensures
        r == (match mhz {
            Some(m) if m >= 60_000 => Some(m),
            _ => None,
        }),
{
    match mhz {
        Some(m) => if m >= 60_000 {
            Some(m)
        } else {
            None
        },
        None => None,
    }
}

// ---------------------------------------------------------------------------
// Frame times
// ---------------------------------------------------------------------------

/// Frame times since the start.
#[derive(Clone, Copy, Debug, PartialEq, Eq, Structural)]
pub struct FrameAccum {
    pub count: u64,
    pub sum_us: u128,
    pub sum_sq_us: u128,
}

impl FrameAccum {
    pub fn new() -> (a: FrameAccum)
        ensures
            a == (FrameAccum { count: 0, sum_us: 0, sum_sq_us: 0 }),
    {
        FrameAccum { count: 0, sum_us: 0, sum_sq_us: 0 }
    }

    /// Another frame of that length can be counted.
    pub open spec fn has_room(self, us: u64) -> bool {
        &&& self.count < u64::MAX
        &&& self.sum_us + us <= u128::MAX
        &&& self.sum_sq_us + us * us <= u128::MAX
    }

    /// With another frame.
    pub open spec fn counted(self, us: u64) -> FrameAccum {
        FrameAccum {
            count: (self.count + 1) as u64,
            sum_us: (self.sum_us + us) as u128,
            sum_sq_us: (self.sum_sq_us + us * us) as u128,
        }
    }

    /// A report is due: every 512 frames.
    pub open spec fn is_due(self) -> bool {
        self.count > 0 && self.count % 512 == 0
    }

    /// Counts a frame.
    pub fn observe(&mut self, us: u64)
        requires
            old(self).has_room(us),
        ensures
            *final(self) == old(self).counted(us),
    {
        assert(us * us <= u128::MAX) by (nonlinear_arith)
            requires
                us <= u64::MAX,
        ;
        self.count = self.count + 1;
        self.sum_us = self.sum_us + us as u128;
        self.sum_sq_us = self.sum_sq_us + us as u128 * us as u128;
    }

    /// Whether a report is due: every 512 frames.
    pub fn report_if_due(&self) -> (due: bool)
        ensures
            due == self.is_due(),
    {
        self.count > 0 && self.count % 512 == 0
    }
}

/// Frame times since the last report.
#[derive(Clone, Copy, Debug, PartialEq, Eq, Structural)]
pub struct FrameStats {
    pub count: u64,
    pub sum_us: u128,
    pub min_us: u64,
    pub max_us: u64,
    /// Clock reading at the first of them.
    pub window_start: Option<u64>,
}

impl FrameStats {
    /// Nothing counted.
    pub open spec fn zero() -> FrameStats {
        FrameStats { count: 0, sum_us: 0, min_us: 0, max_us: 0, window_start: None }
    }

    pub fn new() -> (s: FrameStats)
        ensures
            s == FrameStats::zero(),
    {
        FrameStats { count: 0, sum_us: 0, min_us: 0, max_us: 0, window_start: None }
    }

    /// Another frame of that length can be counted.
    pub open spec fn has_room(self, us: u64) -> bool {
        &&& self.count < u64::MAX
        &&& self.sum_us + us <= u128::MAX
    }

    /// With another frame.
    pub open spec fn counted(self, us: u64, clock: u64) -> FrameStats {
        FrameStats {
            count: (self.count + 1) as u64,
            sum_us: (self.sum_us + us) as u128,
            min_us: if self.count == 0 || us < self.min_us {
                us
            } else {
                self.min_us
            },
            max_us: if us > self.max_us {
                us
            } else {
                self.max_us
            },
            window_start: match self.window_start {
                Some(t) => Some(t),
                None => Some(clock),
            },
        }
    }

    /// After the window ended.
    pub open spec fn ended(self) -> FrameStats {
        if self.window_start is None {
            self
        } else if self.count == 0 {
            FrameStats { window_start: None, ..self }
        } else {
            FrameStats::zero()
        }
    }

    /// Counts a frame.
    pub fn observe(&mut self, us: u64, clock: u64)
        requires
            old(self).has_room(us),
        ensures
            *final(self) == old(self).counted(us, clock),
    {
        if self.window_start.is_none() {
            self.window_start = Some(clock);
        }
        self.count = self.count + 1;
        self.sum_us = self.sum_us + us as u128;
        if self.count == 1 || us < self.min_us {
            self.min_us = us;
        }
        if us > self.max_us {
            self.max_us = us;
        }
    }

    /// Difference between the longest and the shortest frame.
    pub fn jitter_us(&self) -> (us: u64)
        ensures
            us == (if self.max_us > self.min_us {
                self.max_us - self.min_us
            } else {
                0
            }),
    {
        if self.max_us > self.min_us {
            self.max_us - self.min_us
        } else {
            0
        }
    }

    /// Ends the window.  Returns what was counted in it, if there was anything.
    pub fn take(&mut self) -> (w: Option<FrameStats>)
        ensures
            *final(self) == old(self).ended(),
            w == (if old(self).window_start is Some && old(self).count > 0 {
                Some(*old(self))
            } else {
                None
            }),
    {
        if self.window_start.is_none() {
            return None;
        }
        if self.count == 0 {
            self.window_start = None;
            return None;
        }
        let w: FrameStats = *self;
        self.count = 0;
        self.sum_us = 0;
        self.min_us = 0;
        self.max_us = 0;
        self.window_start = None;
        Some(w)
    }
}

/// The time from one clock reading to a later one.
pub open spec fn elapsed(from: u64, to: u64) -> u64 {
    if to > from {
        (to - from) as u64
    } else {
        0
    }
}

/// When frames were drawn and swapped.
#[derive(Clone, Copy, Debug, PartialEq, Eq, Structural)]
pub struct FrameTimer {
    pub last_frame: Option<u64>,
    pub last_swap: Option<u64>,
    /// From frame to frame.
    pub frames: FrameStats,
    /// From the end of one swap to the end of the next.
    pub swaps: FrameStats,
    /// From frame to frame, since the start.
    pub accum: FrameAccum,
    pub report_due: bool,
}

impl FrameTimer {
    pub fn new() -> (t: FrameTimer)
        ensures
            t == (FrameTimer {
                last_frame: None,
                last_swap: None,
                frames: FrameStats::zero(),
                swaps: FrameStats::zero(),
                accum: (FrameAccum { count: 0, sum_us: 0, sum_sq_us: 0 }),
                report_due: false,
            }),
    {
        FrameTimer {
            last_frame: None,
            last_swap: None,
            frames: FrameStats::new(),
            swaps: FrameStats::new(),
            accum: FrameAccum::new(),
            report_due: false,
        }
    }

    /// After a frame was begun.
    pub open spec fn with_frame(self, now: u64) -> FrameTimer {
        match self.last_frame {
            None => FrameTimer { last_frame: Some(now), ..self },
            Some(t) => {
                let us = elapsed(t, now);
                FrameTimer {
                    last_frame: Some(now),
                    frames: self.frames.counted(us, now),
                    accum: self.accum.counted(us),
                    report_due: self.report_due || self.accum.counted(us).is_due(),
                    ..self
                }
            },
        }
    }

    /// After a swap.
    pub open spec fn with_swap(self, now: u64) -> FrameTimer {
        match self.last_swap {
            None => FrameTimer { last_swap: Some(now), ..self },
            Some(t) => FrameTimer {
                last_swap: Some(now),
                swaps: self.swaps.counted(elapsed(t, now), now),
                ..self
            },
        }
    }

    fn between(from: u64, to: u64) -> (us: u64)
        ensures
            us == elapsed(from, to),
    {
        if to > from {
            to - from
        } else {
            0
        }
    }

    /// A frame begins.  Returns whether the figures since the start are due.
    pub fn frame(&mut self, now: u64) -> (due: bool)
        requires
            old(self).last_frame matches Some(t) ==> old(self).frames.has_room(elapsed(t, now))
                && old(self).accum.has_room(elapsed(t, now)),
        ensures
            *final(self) == old(self).with_frame(now),
            due == (old(self).last_frame is Some && final(self).accum.is_due()),
    {
        let mut due: bool = false;
        if let Some(t) = self.last_frame {
            let us: u64 = FrameTimer::between(t, now);
            self.frames.observe(us, now);
            self.accum.observe(us);
            due = self.accum.report_if_due();
            if due {
                self.report_due = true;
            }
        }
        self.last_frame = Some(now);
        due
    }

    /// A swap returned.
    pub fn swapped(&mut self, now: u64)
        requires
            old(self).last_swap matches Some(t) ==> old(self).swaps.has_room(elapsed(t, now)),
        ensures
            *final(self) == old(self).with_swap(now),
    {
        if let Some(t) = self.last_swap {
            let us: u64 = FrameTimer::between(t, now);
            self.swaps.observe(us, now);
        }
        self.last_swap = Some(now);
    }

    /// The figures of the frames and of the swaps since the last report, when
    /// one is due.
    pub fn report(&mut self) -> (r: Option<(FrameStats, FrameStats)>)
        ensures
            !old(self).report_due ==> r is None && *final(self) == *old(self),
            old(self).report_due ==> {
                &&& *final(self) == (FrameTimer {
                    report_due: false,
                    frames: old(self).frames.ended(),
                    swaps: if old(self).frames.window_start is Some {
                        FrameStats::zero()
                    } else {
                        old(self).swaps
                    },
                    ..*old(self)
                })
                &&& r == (if old(self).frames.window_start is Some && old(self).frames.count > 0 {
                    Some((old(self).frames, old(self).swaps))
                } else {
                    None
                })
            },
    {
        if !self.report_due {
            return None;
        }
        self.report_due = false;
        if self.frames.window_start.is_none() {
            return None;
        }
        let swaps: FrameStats = self.swaps;
        self.swaps = FrameStats::new();
        match self.frames.take() {
            Some(frames) => Some((frames, swaps)),
            None => None,
        }
    }
}

/// The figures since the start are never set back: a frame adds to them, and
/// neither a swap nor a report changes them.
pub proof fn the_start_is_never_forgotten(t: FrameTimer, now: u64)
    requires
        t.last_frame matches Some(from) ==> t.accum.has_room(elapsed(from, now)),
    ensures
        t.with_frame(now).accum.count == t.accum.count + (if t.last_frame is Some {
            1int
        } else {
            0
        }),
        t.with_frame(now).accum.sum_us >= t.accum.sum_us,
        t.with_frame(now).accum.sum_sq_us >= t.accum.sum_sq_us,
        t.with_swap(now).accum == t.accum,
{
    if let Some(from) = t.last_frame {
        let us = elapsed(from, now);
        assert(us * us >= 0) by (nonlinear_arith);
    }
}

// ---------------------------------------------------------------------------
// On the screen
// ---------------------------------------------------------------------------

/// A line of text: its place and its size.
#[derive(Clone, Copy, Debug, PartialEq, Eq, Structural)]
pub struct LabelPlace {
    pub x: i32,
    pub scale: i32,
}

pub open spec fn clamped(x: int, bottom: int, top: int) -> int {
    at_least(at_most(x, top), bottom)
}

/// What is written below a scene for an eye, if anything.
pub fn scene_label(scene: SceneMode, show: i32) -> (l: Option<&'static str>)
    ensures
        match scene {
            SceneMode::HexTri => l matches Some(s) && s@ == (if show != 0 {
                "LEFT: GREEN HEXAGONS"@
            } else {
                "RIGHT: BLUE TRIANGLES"@
            }),
            SceneMode::AltBlink => l matches Some(s) && s@ == (if show != 0 {
                "LEFT: RED"@
            } else {
                "RIGHT: BLUE"@
            }),
            _ => l is None,
        },
{
    match scene {
        SceneMode::HexTri => if show != 0 {
            Some("LEFT: GREEN HEXAGONS")
        } else {
            Some("RIGHT: BLUE TRIANGLES")
        },
        SceneMode::AltBlink => if show != 0 {
            Some("LEFT: RED")
        } else {
            Some("RIGHT: BLUE")
        },
        _ => None,
    }
}

/// Where a label of `len` characters goes on a window of that width: in the
/// middle, in letters that grow with the window.
pub fn label_place(gw: i32, len: usize) -> (p: LabelPlace)
    requires
        0 <= gw,
        len <= 100,
    ensures
        p.scale == clamped(gw as int / 640, 2, 6),
        ({
            let room = gw - len * 6 * p.scale;
            p.x == (if room >= 0 {
                room / 2
            } else {
                -(-room / 2)
            })
        }),
{
    let wide: u32 = gw as u32 / 640;
    let scale: i32 = if wide < 2 {
        2
    } else if wide > 6 {
        6
    } else {
        wide as i32
    };
    assert(len * 6 * scale <= 3600) by (nonlinear_arith)
        requires
            len <= 100,
            2 <= scale <= 6,
    ;
    assert(len * 6 * scale >= 0) by (nonlinear_arith)
        requires
            2 <= scale <= 6,
    ;
    assert(len * 6 <= 600);
    let six: i32 = len as i32 * 6;
    let width: i32 = six * scale;
    let room: i32 = gw - width;
    let x: i32 = if room >= 0 {
        (room as u32 / 2) as i32
    } else {
        -(((-room) as u32 / 2) as i32)
    };
    LabelPlace { x, scale }
}

/// The left-edge display: its letters, the distance of its lines and the
/// vertical places of the ten lines.
#[derive(Clone, Copy, Debug, PartialEq, Eq)]
pub struct HudLayout {
    pub scale: i32,
    pub line_height: i32,
    pub x: i32,
    pub y: [i32; 10],
}

/// The place of the `i`-th line: there is half a line of space after the fifth.
pub open spec fn hud_y(line_height: int, i: int) -> int {
    10 + i * line_height + (if i >= 5 {
        line_height / 2
    } else {
        0
    })
}

/// Lays out the left-edge display of a window of that width.
pub fn hud_layout(gw: i32) -> (l: HudLayout)
    requires
        0 <= gw,
    ensures
        l.scale == clamped(gw as int / 1500, 1, 3),
        l.line_height == 7 * l.scale + 4,
        l.x == 12,
        forall|i: int| 0 <= i < 10 ==> #[trigger] l.y@[i] == hud_y(l.line_height as int, i),
{
    let wide: u32 = gw as u32 / 1500;
    let scale: i32 = if wide < 1 {
        1
    } else if wide > 3 {
        3
    } else {
        wide as i32
    };
    let lh: i32 = 7 * scale + 4;
    let half: i32 = (lh as u32 / 2) as i32;
    let y: [i32; 10] = [
        10,
        10 + lh,
        10 + 2 * lh,
        10 + 3 * lh,
        10 + 4 * lh,
        10 + 5 * lh + half,
        10 + 6 * lh + half,
        10 + 7 * lh + half,
        10 + 8 * lh + half,
        10 + 9 * lh + half,
    ];
    proof {
        let h = lh as int;
        assert(y@[0] == hud_y(h, 0) && y@[1] == hud_y(h, 1) && y@[2] == hud_y(h, 2));
        assert(y@[3] == hud_y(h, 3) && y@[4] == hud_y(h, 4) && y@[5] == hud_y(h, 5));
        assert(y@[6] == hud_y(h, 6) && y@[7] == hud_y(h, 7) && y@[8] == hud_y(h, 8));
        assert(y@[9] == hud_y(h, 9));
        assert forall|i: int| 0 <= i < 10 implies #[trigger] y@[i] == hud_y(h, i) by {
            assert(i == 0 || i == 1 || i == 2 || i == 3 || i == 4 || i == 5 || i == 6 || i == 7
                || i == 8 || i == 9);
        }
    }
    HudLayout { scale, line_height: lh, x: 12, y }
}

/// The mark before a timing on the display, and whether it is the chosen one.
pub fn hud_mark(target: TimingTarget, row: TimingTarget) -> (m: (&'static str, bool))
    ensures
        m.1 == (row == target),
        m.0@ == (if row == target {
            ">"@
        } else {
            " "@
        }),
{
    if row == target {
        (">", true)
    } else {
        (" ", false)
    }
}

/// The name under which the profile would be saved, for the display.
pub fn hud_profile(base: Option<&str>, refresh: Option<i64>) -> (t: String)
    ensures
        t@ == (match (text::chars_if_any(base), refresh) {
            (Some(b), Some(r)) => "  JSON <"@ + nvtimings::key_of(b, r as int) + ">"@,
            (Some(b), None) => "  JSON <"@ + b + "> (rate unknown)"@,
            (None, _) => "  JSON <unreadable EDID>"@,
        }),
{
    match base {
        Some(b) => {
            let mut t: String = "  JSON <".to_owned();
            match refresh {
                Some(r) => {
                    t.append(nvtimings::key_for(b, r).as_str());
                    t.append(">");
                },
                None => {
                    t.append(b);
                    t.append("> (rate unknown)");
                },
            }
            t
        },
        None => "  JSON <unreadable EDID>".to_owned(),
    }
}

/// Whether the timing registers are live, for the display.
pub fn hud_registers(live: Option<bool>) -> (t: &'static str)
    ensures
        t@ == (match live {
            Some(true) => "  TIMING REGS LIVE"@,
            Some(false) => "  TIMING REGS UNVERIFIED"@,
            None => "  TIMING REGS UNCHECKED"@,
        }),
{
    match live {
        Some(true) => "  TIMING REGS LIVE",
        Some(false) => "  TIMING REGS UNVERIFIED",
        None => "  TIMING REGS UNCHECKED",
    }
}

/// The step of the timing keys, for the display.
pub fn hud_step(step_us: u32) -> (t: String)
    ensures
        t@ == "  STEP "@ + text::decimal(step_us as nat) + " US (K=SWITCH)"@,
{
    let mut t: String = "  STEP ".to_owned();
    text::push_decimal(&mut t, step_us as u64);
    t.append(" US (K=SWITCH)");
    t
}

/// Whether the timing registers are live, for the log.
pub fn log_registers(live: Option<bool>) -> (t: &'static str)
    ensures
        t@ == (match live {
            Some(true) => "regs live"@,
            Some(false) => "regs unverified"@,
            None => "regs unprobed"@,
        }),
{
    match live {
        Some(true) => "regs live",
        Some(false) => "regs unverified",
        None => "regs unprobed",
    }
}

/// The name under which the profile would be saved, for the log.
pub fn log_profile(base: Option<&str>, refresh: i64) -> (t: String)
    ensures
        t@ == (match text::chars_if_any(base) {
            Some(b) if b.len() > 0 => "[json "@ + nvtimings::key_of(b, refresh as int) + "]"@,
            _ => "[json unreadable]"@,
        }),
{
    match base {
        Some(b) => if text::chars_of(b).len() > 0 {
            let mut t: String = "[json ".to_owned();
            t.append(nvtimings::key_for(b, refresh).as_str());
            t.append("]");
            t
        } else {
            "[json unreadable]".to_owned()
        },
        None => "[json unreadable]".to_owned(),
    }
}

} // verus!
