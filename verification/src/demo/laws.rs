//! What the demo's keys and figures promise.

use crate::demo;
use crate::demo::{
    Asked, CameraType, DemoState, FrameAccum, FrameStats, FrameTimer, SceneMode, TimingTarget,
};
use crate::text;
use crate::text_laws;
use vstd::prelude::*;

verus! {

/// The lowering and the raising timing key undo each other, in small steps and
/// in large ones: both ask for a change, by opposite amounts, and the first of
/// each pair never raises.
pub proof fn timing_keys_undo_each_other(s: DemoState, lower: char, raise: char)
    requires
        (lower == ',' && raise == '.') || (lower == ';' && raise == ':') || (lower == '[' && raise
            == ']') || (lower == '{' && raise == '}'),
    ensures
        s.keyed(lower).0 == s,
        s.keyed(raise).0 == s,
        s.keyed(lower).1 is Adjust,
        s.keyed(raise).1 is Adjust,
        s.keyed(lower).1->Adjust_0 + s.keyed(raise).1->Adjust_0 == 0,
        s.keyed(lower).1->Adjust_0 <= 0,
        s.timing_step_us > 0 ==> s.keyed(lower).1->Adjust_0 < s.keyed(raise).1->Adjust_0,
{
}

/// The small keys ask for one step, the brackets for ten times as much, and
/// with or without shift a key means the same.
pub proof fn brackets_step_ten_times_as_far(s: DemoState)
    ensures
        s.keyed('.').1 == Asked::Adjust(s.timing_step_us as int),
        s.keyed('[').1->Adjust_0 == 10 * s.keyed(',').1->Adjust_0,
        s.keyed(']').1->Adjust_0 == 10 * s.keyed('.').1->Adjust_0,
        s.keyed(';') == s.keyed(','),
        s.keyed(':') == s.keyed('.'),
        s.keyed('{') == s.keyed('['),
        s.keyed('}') == s.keyed(']'),
{
}

/// Letters mean the same in either case, but for saving and the screenshot.
pub proof fn letters_mean_the_same_in_either_case(s: DemoState)
    ensures
        s.keyed('q') == s.keyed('Q'),
        s.keyed('c') == s.keyed('C'),
        s.keyed('f') == s.keyed('F'),
        s.keyed('t') == s.keyed('T'),
        s.keyed('k') == s.keyed('K'),
        s.keyed('i') == s.keyed('I'),
        s.keyed('a') == s.keyed('A'),
        s.keyed('d') == s.keyed('D'),
        s.keyed('+') == s.keyed('='),
        s.keyed('-') == s.keyed('_'),
        s.keyed('s') == (s, Asked::SaveTimings),
        s.keyed('S') == (s, Asked::Screenshot),
        s.keyed('i') == (s, Asked::InvertEyes),
        s.keyed('q') == (s, Asked::Quit),
        s.keyed('\u{1b}') == s.keyed('q'),
{
}

/// The depth keys undo each other wherever neither end of the range stops
/// them, never leave the range, and say the depth that they set.
pub proof fn depth_keys_undo_each_other(s: DemoState)
    requires
        s.wf(),
    ensures
        s.rds_depth <= 78 ==> {
            &&& s.keyed('+').0.rds_depth == s.rds_depth + 2
            &&& s.keyed('+').0.keyed('-').0 == s
        },
        s.rds_depth >= 2 ==> s.keyed('-').0.keyed('+').0 == s,
        s.rds_depth <= s.keyed('+').0.rds_depth <= 80,
        0 <= s.keyed('-').0.rds_depth <= s.rds_depth,
        s.rds_depth > 78 ==> s.keyed('+').0.rds_depth == 80,
        s.rds_depth < 2 ==> s.keyed('-').0.rds_depth == 0,
        s.keyed('+').1 == Asked::Say(demo::depth_line(s.keyed('+').0.rds_depth as int)),
        s.keyed('-').1 == Asked::Say(demo::depth_line(s.keyed('-').0.rds_depth as int)),
        s.keyed('+').0 == (DemoState { rds_depth: s.keyed('+').0.rds_depth, ..s }),
{
}

/// The background keys undo each other in the same way.
pub proof fn background_keys_undo_each_other(s: DemoState)
    requires
        s.wf(),
    ensures
        s.rds_bg <= 39 ==> {
            &&& s.keyed('a').0.rds_bg == s.rds_bg + 1
            &&& s.keyed('a').0.keyed('d').0 == s
        },
        s.rds_bg >= 1 ==> s.keyed('d').0.keyed('a').0 == s,
        s.rds_bg == 40 ==> s.keyed('a').0 == s,
        s.rds_bg == 0 ==> s.keyed('d').0 == s,
        s.keyed('a').1 == Asked::Say(demo::background_line(s.keyed('a').0.rds_bg as int)),
        s.keyed('d').1 == Asked::Say(demo::background_line(s.keyed('d').0.rds_bg as int)),
        s.keyed('a').0 == (DemoState { rds_bg: s.keyed('a').0.rds_bg, ..s }),
{
}

/// Each digit leads to a scene of its own from wherever one is, and to nothing
/// else; between them they lead to every scene.
pub proof fn digits_lead_to_every_scene(s: DemoState, t: DemoState, scene: SceneMode)
    ensures
        s.keyed('1').0.scene == t.keyed('1').0.scene,
        s.keyed('2').0.scene == t.keyed('2').0.scene,
        s.keyed('3').0.scene == t.keyed('3').0.scene,
        s.keyed('4').0.scene == t.keyed('4').0.scene,
        s.keyed('1').0.scene == SceneMode::HexTri,
        s.keyed('2').0.scene == SceneMode::Rds,
        s.keyed('3').0.scene == SceneMode::AltBlink,
        s.keyed('4').0.scene == SceneMode::Pulsar,
        scene == s.keyed('1').0.scene || scene == s.keyed('2').0.scene || scene
            == s.keyed('3').0.scene || scene == s.keyed('4').0.scene,
        forall|c: char|
            c == '1' || c == '2' || c == '3' || c == '4' ==> (DemoState {
                scene: s.scene,
                ..(#[trigger] s.keyed(c)).0
            }) == s && s.keyed(c).1 is Say,
{
}

/// No key touches the eye being drawn, the pulsar or the lead, and a key that
/// means nothing does nothing.
pub proof fn other_keys_do_nothing(s: DemoState, c: char)
    ensures
        s.keyed(c).0.current_eye == s.current_eye,
        s.keyed(c).0.pulsar_rotate == s.pulsar_rotate,
        s.keyed(c).0.swap_phase_us == s.swap_phase_us,
        s.keyed(c).1 is Nothing ==> s.keyed(c).0 == s,
        s.keyed(c).1 is Adjust ==> c == ',' || c == ';' || c == '.' || c == ':' || c == '[' || c
            == '{' || c == ']' || c == '}',
        s.keyed(c).1 is Quit ==> c == 'q' || c == 'Q' || c == '\u{1b}',
        c == ' ' || c == '0' || c == '5' || c == 'z' || c == '\n' ==> s.keyed(c).1 is Nothing,
        s.keyed(c).0.scene != s.scene ==> c == '1' || c == '2' || c == '3' || c == '4',
        s.keyed(c).0.timing_step_us != s.timing_step_us ==> c == 'k' || c == 'K',
        s.keyed(c).0.timing_target != s.timing_target ==> c == 't' || c == 'T',
        s.keyed(c).0.camera != s.camera ==> c == 'c' || c == 'C',
        s.keyed(c).0.force_eye != s.force_eye ==> c == 'f' || c == 'F',
        s.wf() ==> s.keyed(c).0.wf(),
{
}

/// The step key makes its way through all four steps, each a power of ten, and
/// says the one it reached.
pub proof fn every_step_comes_up(s: DemoState)
    requires
        s.timing_step_us == 100,
    ensures
        ({
            let b = s.keyed('k').0;
            let c = b.keyed('k').0;
            let d = c.keyed('k').0;
            &&& b.timing_step_us == 10 * s.timing_step_us
            &&& c.timing_step_us * 10 == s.timing_step_us
            &&& d.timing_step_us * 10 == c.timing_step_us
            &&& d.timing_step_us == 1
            &&& s.keyed('k').1 == Asked::Say(demo::step_line(b.timing_step_us as int))
            &&& d.keyed('k').0 == s
        }),
{
}

/// The timing key goes on to the next timing and has it shown; four presses
/// come round.
pub proof fn the_timing_key_goes_round(s: DemoState)
    ensures
        s.keyed('t').1 is ShowTarget,
        s.keyed('t').0.timing_target != s.timing_target,
        s.keyed('t').0.keyed('t').0.keyed('t').0.keyed('t').0 == s,
        s.timing_target == TimingTarget::X ==> s.keyed('t').0.timing_target == TimingTarget::Y
            && s.keyed('t').0.keyed('t').0.timing_target == TimingTarget::W,
{
}

/// The forcing key shows the left eye only, then the right one only, then both
/// in turn; a forced eye does not depend on whose turn it is.
pub proof fn the_forcing_key_shows_one_eye(s: DemoState, eye: i32)
    requires
        s.force_eye == 0,
    ensures
        ({
            let left = s.keyed('f').0;
            let right = left.keyed('f').0;
            &&& (DemoState { current_eye: eye, ..left }).shown_eye() == 1
            &&& (DemoState { current_eye: eye, ..right }).shown_eye() == 0
            &&& (DemoState { current_eye: eye, ..right.keyed('f').0 }).shown_eye() == eye
        }),
{
}

/// The camera key switches between the two cameras, and what it says differs.
pub proof fn the_camera_key_switches(s: DemoState)
    ensures
        s.keyed('c').0.camera != s.camera,
        s.keyed('c').0 == (DemoState { camera: s.keyed('c').0.camera, ..s }),
        s.keyed('c').0.camera == CameraType::ToeIn ==> s.keyed('c').1 == Asked::Say(
            "Using toe-in stereo camera."@,
        ),
{
}

/// The shortest and the longest frame of a window enclose every frame, the sum
/// is theirs, and the window starts with the first.
pub proof fn frame_figures_enclose_every_frame(w: FrameStats, us: u64, clock: u64)
    requires
        w.has_room(us),
        w.count > 0 ==> w.min_us <= w.max_us,
        w.count == 0 ==> w.max_us == 0,
    ensures
        ({
            let t = w.counted(us, clock);
            &&& t.min_us <= us <= t.max_us
            &&& w.count > 0 ==> t.min_us <= w.min_us && w.max_us <= t.max_us
            &&& t.min_us == us || t.min_us == w.min_us
            &&& t.max_us == us || t.max_us == w.max_us
            &&& w.count == 0 ==> t.min_us == us && t.max_us == us
            &&& t.count == w.count + 1
            &&& t.sum_us - w.sum_us == us
            &&& w.window_start is None ==> t.window_start == Some(clock)
            &&& w.window_start is Some ==> t.window_start == w.window_start
        }),
{
}

/// Ending a window leaves nothing in it, and ending it again changes nothing.
pub proof fn an_ended_window_is_empty(w: FrameStats)
    ensures
        w.ended().window_start is None,
        w.ended().ended() == w.ended(),
        w.window_start is Some && w.count > 0 ==> w.ended().count == 0 && w.ended().sum_us == 0,
        w.window_start is None ==> w.ended() == w,
{
}

/// A frame is as long as the time since the one before it, the first one has no
/// length, and swaps are timed apart from frames.
pub proof fn frames_and_swaps_are_timed_apart(t: FrameTimer, now: u64)
    requires
        t.last_frame matches Some(from) ==> from <= now && t.frames.has_room((now - from) as u64)
            && t.accum.has_room((now - from) as u64),
        t.last_swap matches Some(from) ==> from <= now && t.swaps.has_room((now - from) as u64),
    ensures
        ({
            let f = t.with_frame(now);
            &&& f.last_frame == Some(now)
            &&& f.swaps == t.swaps && f.last_swap == t.last_swap
            &&& t.last_frame is None ==> f.frames == t.frames && f.accum == t.accum
            &&& t.last_frame matches Some(from) ==> f.frames.sum_us - t.frames.sum_us == now - from
                && f.accum.sum_us - t.accum.sum_us == now - from
        }),
        ({
            let s = t.with_swap(now);
            &&& s.last_swap == Some(now)
            &&& s.frames == t.frames && s.last_frame == t.last_frame
            &&& t.last_swap is None ==> s.swaps == t.swaps
            &&& t.last_swap matches Some(from) ==> s.swaps.sum_us - t.swaps.sum_us == now - from
            &&& s.report_due == t.report_due
        }),
{
    if let Some(from) = t.last_frame {
        let us = now - from;
        assert(us * us >= 0) by (nonlinear_arith);
    }
}

/// Figures since the start are due on every 512th frame and on no other one,
/// and a report stays due until it is taken.
pub proof fn a_report_comes_every_512_frames(a: FrameAccum, k: u64, t: FrameTimer, now: u64)
    requires
        a.count < u64::MAX - 512,
        a.is_due(),
        0 < k < 512,
    ensures
        !(FrameAccum { count: (a.count + k) as u64, ..a }).is_due(),
        (FrameAccum { count: (a.count + 512) as u64, ..a }).is_due(),
        !(FrameAccum { count: 0, ..a }).is_due(),
        t.report_due ==> t.with_frame(now).report_due,
{
}

/// Lines of the display follow each other by one line's height, but for the gap
/// after the fifth, and none overlaps the one above it.
pub proof fn display_lines_do_not_overlap(line_height: int, i: int)
    requires
        line_height > 0,
        0 <= i < 9,
    ensures
        i != 4 ==> demo::hud_y(line_height, i + 1) - demo::hud_y(line_height, i) == line_height,
        i == 4 ==> demo::hud_y(line_height, i + 1) - demo::hud_y(line_height, i) == line_height
            + line_height / 2,
        demo::hud_y(line_height, 0) == 10,
{
    assert((i + 1) * line_height == i * line_height + line_height) by (nonlinear_arith);
}

/// A clamped number lies in its range, and one that already did is kept.
pub proof fn clamping_keeps_what_fits(x: int, bottom: int, top: int)
    requires
        bottom <= top,
    ensures
        bottom <= demo::clamped(x, bottom, top) <= top,
        bottom <= x <= top ==> demo::clamped(x, bottom, top) == x,
        x < bottom ==> demo::clamped(x, bottom, top) == bottom,
        x > top ==> demo::clamped(x, bottom, top) == top,
{
}

/// The 512th frame makes a report due, and so does every 512th after it.
pub proof fn the_512th_frame_makes_a_report_due(t: FrameTimer, now: u64)
    requires
        t.last_frame is Some,
        t.accum.count < u64::MAX,
        !t.report_due,
    ensures
        t.with_frame(now).report_due <==> (t.accum.count + 1) % 512 == 0,
{
}

/// What the step key says names what the small keys and the brackets then ask
/// for.
pub proof fn the_step_line_names_both_amounts(s: DemoState)
    ensures
        ({
            let t = s.keyed('k').0;
            let small = text::decimal(t.keyed('.').1->Adjust_0 as nat);
            let large = text::decimal(t.keyed(']').1->Adjust_0 as nat);
            &&& s.keyed('k').1 is Say
            &&& text::has_prefix(s.keyed('k').1->Say_0, "Timing step: "@ + small)
            &&& {
                let line = s.keyed('k').1->Say_0;
                line.len() >= (large + " us)"@).len() && line.skip(
                    line.len() - (large + " us)"@).len(),
                ) == large + " us)"@
            }
        }),
{
    let t = s.keyed('k').0;
    let small = text::decimal(t.keyed('.').1->Adjust_0 as nat);
    let large = text::decimal(t.keyed(']').1->Adjust_0 as nat);
    let line = s.keyed('k').1->Say_0;
    assert(line.take(("Timing step: "@ + small).len() as int) =~= "Timing step: "@ + small);
    assert(line.skip(line.len() - (large + " us)"@).len()) =~= large + " us)"@);
}

/// The lines of the two depths tell the depths apart.
pub proof fn depth_lines_tell_their_depth(a: nat, b: nat)
    ensures
        demo::depth_line(a as int) == demo::depth_line(b as int) ==> a == b,
        demo::background_line(a as int) == demo::background_line(b as int) ==> a == b,
{
    if demo::depth_line(a as int) == demo::depth_line(b as int) {
        text_laws::a_figure_can_be_read("RDS depth (pop-out): "@, a, b, " px"@);
    }
    if demo::background_line(a as int) == demo::background_line(b as int) {
        text_laws::a_figure_can_be_read(
            "RDS background depth (convergence): "@,
            a,
            b,
            " px"@,
        );
    }
}

} // verus!
