use vstd::prelude::*;
use crate::world::World;
use crate::handlers::{
    ToggleOutcome, handle_exit, menu_toggled, rotate_cube, rotated, toggle_fullscreen,
    toggle_menu, toggled_window, total,
};
use crate::menu::{ButtonChange, close_pressed, entities_after, handle_menu_interaction, window_after};

verus! {

/// What the engine hands the handlers for one frame.
pub struct FrameInput {
    /// The fullscreen key was just pressed.
    pub fullscreen_key: bool,
    /// The exit key was just pressed.
    pub exit_key: bool,
    /// The menu key was just pressed.
    pub menu_key: bool,
    /// Time the last frame took, in nanoseconds.
    pub delta_nanos: u64,
    /// Buttons whose pointer state changed.
    pub changes: Vec<ButtonChange>,
}

/// What the handlers ask of the engine after one frame.
#[derive(Clone, Copy, Debug, PartialEq, Eq, Structural)]
pub struct FrameReport {
    /// The exit signal was sent in this frame.
    pub exit_sent: bool,
    /// What the fullscreen key did; `NoWindow` asks for a warning.
    pub fullscreen: ToggleOutcome,
}

/// Runs the frame's handlers in their fixed order: fullscreen toggle, exit,
/// cube rotation, menu toggle, menu buttons. Once the exit signal has been
/// sent no handler runs again.
pub fn run_frame(w: &mut World, input: &FrameInput) -> (r: FrameReport)
    requires
        old(w).wf(),
        old(w).cube_yaw + input.delta_nanos <= u128::MAX,
    ensures
        final(w).wf(),
        old(w).exited ==> {
            &&& r == (FrameReport { exit_sent: false, fullscreen: ToggleOutcome::Idle })
            &&& final(w).entities@ == old(w).entities@
            &&& final(w).window == old(w).window
            &&& final(w).menu_visible == old(w).menu_visible
            &&& final(w).cube_yaw == old(w).cube_yaw
            &&& final(w).exited
        },
        !old(w).exited ==> {
            let window1 = if input.fullscreen_key {
                toggled_window(old(w).window)
            } else {
                old(w).window
            };
            let visible1 = old(w).menu_visible != input.menu_key;
            let entities1 = menu_toggled(
                old(w).entities@,
                old(w).menu_visible,
                input.menu_key,
            );
            &&& r.exit_sent == input.exit_key
            &&& r.fullscreen == (if !input.fullscreen_key {
                ToggleOutcome::Idle
            } else if old(w).window is Some {
                ToggleOutcome::Toggled
            } else {
                ToggleOutcome::NoWindow
            })
            &&& final(w).exited == input.exit_key
            &&& final(w).cube_yaw == rotated(old(w).cube_yaw as int, input.delta_nanos as int)
            &&& final(w).window == window_after(window1, input.changes@)
            &&& final(w).menu_visible == (visible1 && !close_pressed(input.changes@))
            &&& final(w).entities@ == entities_after(entities1, input.changes@)
        },
{
    if w.exited {
        return FrameReport { exit_sent: false, fullscreen: ToggleOutcome::Idle };
    }
    let fullscreen = toggle_fullscreen(w, input.fullscreen_key);
    let exit_sent = handle_exit(w, input.exit_key);
    rotate_cube(w, input.delta_nanos);
    toggle_menu(w, input.menu_key);
    handle_menu_interaction(w, &input.changes);
    FrameReport { exit_sent, fullscreen }
}

/// Frame times of a run of frames.
pub open spec fn deltas_of(inputs: Seq<FrameInput>) -> Seq<u64> {
    inputs.map_values(|f: FrameInput| f.delta_nanos)
}

/// Some frame of the run has the exit key pressed.
pub open spec fn exit_requested(inputs: Seq<FrameInput>) -> bool {
    exists|i: int| 0 <= i < inputs.len() && #[trigger] inputs[i].exit_key
}

/// The total time of a prefix of a run is at most that of the whole run.
proof fn lemma_total_prefix(s: Seq<u64>, i: int)
    requires
        0 <= i <= s.len(),
    ensures
        total(s.take(i)) <= total(s),
    decreases s.len(),
{
    if i < s.len() {
        assert(s.take(i) =~= s.drop_last().take(i));
        lemma_total_prefix(s.drop_last(), i);
    } else {
        assert(s.take(i) =~= s);
    }
}

/// Runs a sequence of frames and returns how many exit signals were sent:
/// one where some frame presses the exit key and none was sent before,
/// otherwise none. A world that has already exited is left as it was.
pub fn run_frames(w: &mut World, inputs: &Vec<FrameInput>) -> (signals: u64)
    requires
        old(w).wf(),
        old(w).cube_yaw + total(deltas_of(inputs@)) <= u128::MAX,
    ensures
        final(w).wf(),
        signals == (if !old(w).exited && exit_requested(inputs@) { 1u64 } else { 0u64 }),
        final(w).exited == (old(w).exited || exit_requested(inputs@)),
        old(w).exited ==> {
            &&& final(w).entities@ == old(w).entities@
            &&& final(w).window == old(w).window
            &&& final(w).menu_visible == old(w).menu_visible
            &&& final(w).cube_yaw == old(w).cube_yaw
        },
{
    let ghost ds = deltas_of(inputs@);
    let ghost yaw0 = w.cube_yaw as int;
    let mut signals: u64 = 0;
    let mut i: usize = 0;
    while i < inputs.len()
        invariant
            i <= inputs@.len(),
            ds == deltas_of(inputs@),
            w.wf(),
            w.cube_yaw <= yaw0 + total(ds.take(i as int)),
            yaw0 + total(ds) <= u128::MAX,
            w.exited == (old(w).exited || exit_requested(inputs@.take(i as int))),
            old(w).exited ==> {
                &&& w.entities@ == old(w).entities@
                &&& w.window == old(w).window
                &&& w.menu_visible == old(w).menu_visible
                &&& w.cube_yaw == old(w).cube_yaw
            },
            signals == (if !old(w).exited && exit_requested(inputs@.take(i as int)) {
                1u64
            } else {
                0u64
            }),
        decreases inputs@.len() - i,
    {
        proof {
            assert(ds.take(i + 1).drop_last() =~= ds.take(i as int));
            assert(ds.take(i + 1).last() == inputs@[i as int].delta_nanos);
            lemma_total_prefix(ds, i + 1);
            let s0 = inputs@.take(i as int);
            let s1 = inputs@.take(i + 1);
            if exit_requested(s0) {
                let j = choose|j: int| 0 <= j < s0.len() && #[trigger] s0[j].exit_key;
                assert(s1[j] == s0[j]);
            }
            if exit_requested(s1) {
                let j = choose|j: int| 0 <= j < s1.len() && #[trigger] s1[j].exit_key;
                if j < i {
                    assert(s0[j] == s1[j]);
                }
            }
            if inputs@[i as int].exit_key {
                assert(s1[i as int].exit_key);
            }
        }
        let report = run_frame(w, &inputs[i]);
        if report.exit_sent {
            signals = signals + 1;
        }
        i = i + 1;
    }
    proof {
        assert(inputs@.take(inputs@.len() as int) =~= inputs@);
    }
    signals
}

} // verus!
