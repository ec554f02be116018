use vstd::prelude::*;
use crate::window::{WindowMode, toggle_mode, toggled};
use crate::world::{
    Entity, Role, World, count_role, despawn_menus, has_one_menu, lemma_add_menu,
    lemma_count_menu_root, lemma_filter_one_menu, lemma_filtered_menu_free, menu_free, menu_tree,
    setup_menu,
};

verus! {

/// Window mode after a toggle request; a missing window stays missing.
pub open spec fn toggled_window(w: Option<WindowMode>) -> Option<WindowMode> {
    match w {
        Some(m) => Some(toggled(m)),
        None => None,
    }
}

/// What the fullscreen key did in one frame.
#[derive(Clone, Copy, Debug, PartialEq, Eq, Structural)]
pub enum ToggleOutcome {
    /// The key was not pressed.
    Idle,
    /// The window mode was flipped.
    Toggled,
    /// The key was pressed but there is no primary window; nothing changed.
    NoWindow,
}

/// Flips the window between windowed and borderless fullscreen when the
/// fullscreen key was just pressed.
pub fn toggle_fullscreen(w: &mut World, pressed: bool) -> (r: ToggleOutcome)
    ensures
        final(w).window == (if pressed { toggled_window(old(w).window) } else { old(w).window }),
        r == (if !pressed {
            ToggleOutcome::Idle
        } else if old(w).window is Some {
            ToggleOutcome::Toggled
        } else {
            ToggleOutcome::NoWindow
        }),
        final(w).entities == old(w).entities,
        final(w).menu_visible == old(w).menu_visible,
        final(w).cube_yaw == old(w).cube_yaw,
        final(w).exited == old(w).exited,
{
    if !pressed {
        return ToggleOutcome::Idle;
    }
    match w.window {
        Some(m) => {
            w.window = Some(toggle_mode(m));
            ToggleOutcome::Toggled
        },
        None => ToggleOutcome::NoWindow,
    }
}

/// Sends the exit signal when the exit key was just pressed; returns
/// whether a signal was sent. A signal is sent at most once.
pub fn handle_exit(w: &mut World, pressed: bool) -> (sent: bool)
    ensures
        sent == (pressed && !old(w).exited),
        final(w).exited == (old(w).exited || pressed),
        final(w).entities == old(w).entities,
        final(w).window == old(w).window,
        final(w).menu_visible == old(w).menu_visible,
        final(w).cube_yaw == old(w).cube_yaw,
{
    if pressed && !w.exited {
        w.exited = true;
        true
    } else {
        false
    }
}

/// Yaw after turning at one radian per second for `delta_nanos`
/// nanoseconds: one nanoradian per nanosecond.
pub open spec fn rotated(yaw: int, delta_nanos: int) -> int {
    yaw + delta_nanos
}

/// Turns the cube about the vertical axis for the time the last frame took.
pub fn rotate_cube(w: &mut World, delta_nanos: u64)
    requires
        old(w).cube_yaw + delta_nanos <= u128::MAX,
    ensures
        final(w).cube_yaw == rotated(old(w).cube_yaw as int, delta_nanos as int),
        final(w).entities == old(w).entities,
        final(w).window == old(w).window,
        final(w).menu_visible == old(w).menu_visible,
        final(w).exited == old(w).exited,
{
    w.cube_yaw = w.cube_yaw + delta_nanos as u128;
}

/// Yaw after a run of frames that took `deltas` nanoseconds each.
pub open spec fn spun(yaw: int, deltas: Seq<u64>) -> int
    decreases deltas.len(),
{
    if deltas.len() == 0 {
        yaw
    } else {
        rotated(spun(yaw, deltas.drop_last()), deltas.last() as int)
    }
}

/// Total of a run of frame times.
pub open spec fn total(deltas: Seq<u64>) -> int
    decreases deltas.len(),
{
    if deltas.len() == 0 {
        0
    } else {
        total(deltas.drop_last()) + deltas.last()
    }
}

/// The cube's turn over a run of frames is the sum of the frame times at
/// one radian per second.
pub proof fn lemma_spin_is_total(yaw: int, deltas: Seq<u64>)
    ensures
        spun(yaw, deltas) == yaw + total(deltas),
    decreases deltas.len(),
{
    if deltas.len() > 0 {
        lemma_spin_is_total(yaw, deltas.drop_last());
    }
}

/// Entities after the menu key: unchanged when it was not pressed, the
/// menu removed when it was shown, a menu added when it was hidden.
pub open spec fn menu_toggled(s: Seq<Entity>, visible: bool, pressed: bool) -> Seq<Entity> {
    if !pressed {
        s
    } else if visible {
        s.take(s.len() - 7)
    } else {
        s + menu_tree()
    }
}

/// Entities and menu flag after `n` presses of the menu key.
pub open spec fn menu_presses(s: Seq<Entity>, visible: bool, n: nat) -> (Seq<Entity>, bool)
    decreases n,
{
    if n == 0 {
        (s, visible)
    } else {
        let p = menu_presses(s, visible, (n - 1) as nat);
        (menu_toggled(p.0, p.1, true), !p.1)
    }
}

/// From a scene without a menu, an even number of presses of the menu key
/// gives back the same entities with the menu hidden; an odd number shows
/// the menu with exactly one menu subtree added.
pub proof fn lemma_menu_presses(s: Seq<Entity>, n: nat)
    requires
        menu_free(s),
    ensures
        n % 2 == 0 ==> menu_presses(s, false, n) == (s, false),
        n % 2 == 1 ==> menu_presses(s, false, n) == (s + menu_tree(), true),
        n % 2 == 1 ==> has_one_menu(menu_presses(s, false, n).0),
        n % 2 == 1 ==> count_role(menu_presses(s, false, n).0, Role::MenuRoot) == 1,
    decreases n,
{
    if n > 0 {
        lemma_menu_presses(s, (n - 1) as nat);
        let t = s + menu_tree();
        assert(t.take(t.len() - 7) =~= s);
    }
    if n % 2 == 1 {
        lemma_add_menu(s);
        lemma_count_menu_root(s);
    }
}

/// Shows the menu when it is hidden and removes it when it is shown, each
/// time the menu key was just pressed.
pub fn toggle_menu(w: &mut World, pressed: bool)
    requires
        old(w).wf(),
    ensures
        final(w).wf(),
        final(w).menu_visible == (old(w).menu_visible != pressed),
        final(w).entities@ == menu_toggled(old(w).entities@, old(w).menu_visible, pressed),
        final(w).window == old(w).window,
        final(w).cube_yaw == old(w).cube_yaw,
        final(w).exited == old(w).exited,
{
    if pressed {
        w.menu_visible = !w.menu_visible;
        if w.menu_visible {
            setup_menu(w);
            proof {
                lemma_add_menu(old(w).entities@);
            }
        } else {
            despawn_menus(w);
            proof {
                lemma_filter_one_menu(old(w).entities@);
                lemma_filtered_menu_free(old(w).entities@);
            }
        }
    }
}

} // verus!
