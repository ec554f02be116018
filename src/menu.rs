use vstd::prelude::*;
use crate::window::{WindowMode, toggle_mode};
use crate::world::{
    Entity, Role, Tint, World, despawn_menus, has_one_menu, is_menu_role, lemma_filtered_menu_free,
    menu_free, menu_roles, not_menu,
};
use crate::handlers::toggled_window;

verus! {

/// Pointer state of a button.
#[derive(Clone, Copy, Debug, PartialEq, Eq, Structural)]
pub enum Interaction {
    Pressed,
    Hovered,
    /// Neither pressed nor hovered.
    Idle,
}

/// The two buttons of the options menu.
#[derive(Clone, Copy, Debug, PartialEq, Eq, Structural)]
pub enum ButtonKind {
    WindowMode,
    Close,
}

/// A button whose pointer state changed this frame, with its new state.
#[derive(Clone, Copy, Debug, PartialEq, Eq, Structural)]
pub struct ButtonChange {
    pub button: ButtonKind,
    pub interaction: Interaction,
}

pub open spec fn button_role(b: ButtonKind) -> Role {
    match b {
        ButtonKind::WindowMode => Role::ModeButton,
        ButtonKind::Close => Role::CloseButton,
    }
}

/// Colour of a button that the pointer has left.
pub open spec fn rest_tint(b: ButtonKind) -> Tint {
    match b {
        ButtonKind::WindowMode => Tint::ModeRest,
        ButtonKind::Close => Tint::CloseRest,
    }
}

/// `e` with tint `t` where it has role `r`.
pub open spec fn retinted(e: Entity, r: Role, t: Tint) -> Entity {
    if e.role == r {
        Entity { role: e.role, tint: t }
    } else {
        e
    }
}

pub open spec fn retint(s: Seq<Entity>, r: Role, t: Tint) -> Seq<Entity> {
    s.map_values(|e: Entity| retinted(e, r, t))
}

/// Entities after the colour changes of `cs`, taken in order.
pub open spec fn tints_after(s: Seq<Entity>, cs: Seq<ButtonChange>) -> Seq<Entity>
    decreases cs.len(),
{
    if cs.len() == 0 {
        s
    } else {
        let p = tints_after(s, cs.drop_last());
        let c = cs.last();
        match c.interaction {
            Interaction::Pressed => p,
            Interaction::Hovered => retint(p, button_role(c.button), Tint::Highlight),
            Interaction::Idle => retint(p, button_role(c.button), rest_tint(c.button)),
        }
    }
}

/// Window mode after the presses of the window-mode button in `cs`.
pub open spec fn window_after(m: Option<WindowMode>, cs: Seq<ButtonChange>) -> Option<WindowMode>
    decreases cs.len(),
{
    if cs.len() == 0 {
        m
    } else {
        let p = window_after(m, cs.drop_last());
        if cs.last() == (ButtonChange { button: ButtonKind::WindowMode, interaction: Interaction::Pressed }) {
            toggled_window(p)
        } else {
            p
        }
    }
}

pub open spec fn close_pressed(cs: Seq<ButtonChange>) -> bool {
    exists|i: int|
        0 <= i < cs.len() && #[trigger] cs[i] == (ButtonChange {
            button: ButtonKind::Close,
            interaction: Interaction::Pressed,
        })
}

/// Entities at the end of a frame with changes `cs`: recoloured, and
/// without the menu where the close button was pressed.
pub open spec fn entities_after(s: Seq<Entity>, cs: Seq<ButtonChange>) -> Seq<Entity> {
    if close_pressed(cs) {
        tints_after(s, cs).filter(not_menu())
    } else {
        tints_after(s, cs)
    }
}

/// Recolouring keeps every entity's role.
proof fn lemma_tints_keep_roles(s: Seq<Entity>, cs: Seq<ButtonChange>)
    ensures
        tints_after(s, cs).len() == s.len(),
        forall|k: int| 0 <= k < s.len() ==> (#[trigger] tints_after(s, cs)[k]).role == s[k].role,
    decreases cs.len(),
{
    if cs.len() > 0 {
        lemma_tints_keep_roles(s, cs.drop_last());
    }
}

/// Two sequences with the same roles at the same places are equally
/// well formed.
proof fn lemma_same_roles(a: Seq<Entity>, b: Seq<Entity>)
    requires
        a.len() == b.len(),
        forall|k: int| 0 <= k < a.len() ==> (#[trigger] b[k]).role == a[k].role,
    ensures
        menu_free(a) ==> menu_free(b),
        has_one_menu(a) ==> has_one_menu(b),
{
    if menu_free(a) {
        assert forall|i: int| 0 <= i < b.len() implies !is_menu_role(#[trigger] b[i].role) by {
            assert(b[i].role == a[i].role);
        }
    }
    if has_one_menu(a) {
        let k = a.len() - 7;
        assert forall|i: int| 0 <= i < b.take(k).len() implies !is_menu_role(
            #[trigger] b.take(k)[i].role,
        ) by {
            assert(b[i].role == a[i].role);
            assert(a.take(k)[i] == a[i]);
        }
        assert forall|j: int| 0 <= j < 7 implies #[trigger] b[b.len() - 7 + j].role
            == menu_roles()[j] by {
            assert(a[a.len() - 7 + j].role == menu_roles()[j]);
        }
    }
}

/// Gives tint `t` to every entity with role `r`.
fn set_tint(w: &mut World, r: Role, t: Tint)
    ensures
        final(w).entities@ == retint(old(w).entities@, r, t),
        final(w).window == old(w).window,
        final(w).menu_visible == old(w).menu_visible,
        final(w).cube_yaw == old(w).cube_yaw,
        final(w).exited == old(w).exited,
{
    let ghost orig = w.entities@;
    let mut i: usize = 0;
    while i < w.entities.len()
        invariant
            w.entities@.len() == orig.len(),
            i <= orig.len(),
            forall|k: int| 0 <= k < i ==> #[trigger] w.entities@[k] == retinted(orig[k], r, t),
            forall|k: int| i <= k < orig.len() ==> #[trigger] w.entities@[k] == orig[k],
            w.window == old(w).window,
            w.menu_visible == old(w).menu_visible,
            w.cube_yaw == old(w).cube_yaw,
            w.exited == old(w).exited,
        decreases orig.len() - i,
    {
        if w.entities[i].role == r {
            w.entities.set(i, Entity { role: r, tint: t });
        }
        i = i + 1;
    }
    assert(w.entities@ =~= retint(orig, r, t));
}

/// Acts on the buttons whose pointer state changed this frame, in order:
/// a press of the window-mode button toggles the window mode, a press of
/// the close button hides the menu, hovering highlights a button and
/// leaving it restores its resting colour. The menu entities are removed
/// once all changes have been seen.
pub fn handle_menu_interaction(w: &mut World, changes: &Vec<ButtonChange>)
    requires
        old(w).wf(),
    ensures
        final(w).wf(),
        final(w).window == window_after(old(w).window, changes@),
        final(w).menu_visible == (old(w).menu_visible && !close_pressed(changes@)),
        final(w).entities@ == entities_after(old(w).entities@, changes@),
        final(w).cube_yaw == old(w).cube_yaw,
        final(w).exited == old(w).exited,
{
    let ghost orig = w.entities@;
    let ghost cs = changes@;
    let mut closing = false;
    let mut i: usize = 0;
    while i < changes.len()
        invariant
            i <= cs.len(),
            cs == changes@,
            w.window == window_after(old(w).window, cs.take(i as int)),
            w.entities@ == tints_after(orig, cs.take(i as int)),
            closing == close_pressed(cs.take(i as int)),
            w.menu_visible == old(w).menu_visible,
            w.cube_yaw == old(w).cube_yaw,
            w.exited == old(w).exited,
        decreases cs.len() - i,
    {
        let c = changes[i];
        proof {
            assert(cs.take(i + 1).drop_last() =~= cs.take(i as int));
            assert(cs.take(i + 1).last() == c);
            if close_pressed(cs.take(i as int)) {
                let j = choose|j: int|
                    0 <= j < i && #[trigger] cs.take(i as int)[j] == (ButtonChange {
                        button: ButtonKind::Close,
                        interaction: Interaction::Pressed,
                    });
                assert(cs.take(i + 1)[j] == cs.take(i as int)[j]);
            }
            if close_pressed(cs.take(i + 1)) {
                let j = choose|j: int|
                    0 <= j < i + 1 && #[trigger] cs.take(i + 1)[j] == (ButtonChange {
                        button: ButtonKind::Close,
                        interaction: Interaction::Pressed,
                    });
                if j < i {
                    assert(cs.take(i as int)[j] == cs.take(i + 1)[j]);
                }
            }
        }
        match c.interaction {
            Interaction::Pressed => {
                match c.button {
                    ButtonKind::WindowMode => {
                        match w.window {
                            Some(m) => {
                                w.window = Some(toggle_mode(m));
                            },
                            None => {},
                        }
                    },
                    ButtonKind::Close => {
                        closing = true;
                        proof {
                            assert(cs.take(i + 1)[i as int] == c);
                        }
                    },
                }
            },
            Interaction::Hovered => {
                match c.button {
                    ButtonKind::WindowMode => set_tint(w, Role::ModeButton, Tint::Highlight),
                    ButtonKind::Close => set_tint(w, Role::CloseButton, Tint::Highlight),
                }
            },
            Interaction::Idle => {
                match c.button {
                    ButtonKind::WindowMode => set_tint(w, Role::ModeButton, Tint::ModeRest),
                    ButtonKind::Close => set_tint(w, Role::CloseButton, Tint::CloseRest),
                }
            },
        }
        i = i + 1;
    }
    proof {
        assert(cs.take(cs.len() as int) =~= cs);
        lemma_tints_keep_roles(orig, cs);
        lemma_same_roles(orig, w.entities@);
    }
    if closing {
        w.menu_visible = false;
        despawn_menus(w);
        proof {
            lemma_filtered_menu_free(tints_after(orig, cs));
        }
    }
}

} // verus!
