use vstd::prelude::*;
use crate::window::WindowMode;

verus! {

/// What an entity of the scene is for.
#[derive(Clone, Copy, Debug, PartialEq, Eq, Structural)]
pub enum Role {
    Camera,
    /// The cube that turns every frame.
    Cube,
    Light,
    /// Full-screen backdrop of the options menu; parent of the rest of it.
    MenuRoot,
    MenuPanel,
    MenuTitle,
    /// Button that toggles the window mode.
    ModeButton,
    ModeLabel,
    /// Button that closes the menu.
    CloseButton,
    CloseLabel,
}

/// Background colour of an entity, as far as the handlers change it.
#[derive(Clone, Copy, Debug, PartialEq, Eq, Structural)]
pub enum Tint {
    /// A colour that no handler changes.
    Fixed,
    /// Resting grey of the window-mode button.
    ModeRest,
    /// Resting red of the close button.
    CloseRest,
    /// Lighter grey of a hovered button.
    Highlight,
}

#[derive(Clone, Copy, Debug, PartialEq, Eq, Structural)]
pub struct Entity {
    pub role: Role,
    pub tint: Tint,
}

/// The whole state that the per-frame handlers read and change.
pub struct World {
    /// Entities in order of creation.
    pub entities: Vec<Entity>,
    /// Mode of the primary window, `None` where there is no such window.
    pub window: Option<WindowMode>,
    pub menu_visible: bool,
    /// Orientation of the cube about the vertical axis, in nanoradians
    /// turned since start-up.
    pub cube_yaw: u128,
    /// Whether the exit signal has been sent.
    pub exited: bool,
}

pub open spec fn is_menu_role(r: Role) -> bool {
    match r {
        Role::MenuRoot | Role::MenuPanel | Role::MenuTitle | Role::ModeButton | Role::ModeLabel
        | Role::CloseButton | Role::CloseLabel => true,
        _ => false,
    }
}

/// Selects the entities that survive closing the menu.
pub open spec fn not_menu() -> spec_fn(Entity) -> bool {
    |e: Entity| !is_menu_role(e.role)
}

/// Roles of one menu subtree, in the order in which they are spawned.
pub open spec fn menu_roles() -> Seq<Role> {
    seq![
        Role::MenuRoot,
        Role::MenuPanel,
        Role::MenuTitle,
        Role::ModeButton,
        Role::ModeLabel,
        Role::CloseButton,
        Role::CloseLabel,
    ]
}

pub open spec fn menu_free(s: Seq<Entity>) -> bool {
    forall|i: int| 0 <= i < s.len() ==> !is_menu_role(#[trigger] s[i].role)
}

/// `s` ends in exactly one menu subtree, and holds no other menu entity.
pub open spec fn has_one_menu(s: Seq<Entity>) -> bool {
    &&& s.len() >= 7
    &&& menu_free(s.take(s.len() - 7))
    &&& forall|j: int| 0 <= j < 7 ==> #[trigger] s[s.len() - 7 + j].role == menu_roles()[j]
}

/// Number of entities of `s` with role `r`.
pub open spec fn count_role(s: Seq<Entity>, r: Role) -> nat
    decreases s.len(),
{
    if s.len() == 0 {
        0
    } else {
        count_role(s.drop_last(), r) + if s.last().role == r { 1nat } else { 0nat }
    }
}

/// The entities that a fresh menu subtree adds: panel, title and two
/// buttons with their labels, under one root.
pub open spec fn menu_tree() -> Seq<Entity> {
    seq![
        Entity { role: Role::MenuRoot, tint: Tint::Fixed },
        Entity { role: Role::MenuPanel, tint: Tint::Fixed },
        Entity { role: Role::MenuTitle, tint: Tint::Fixed },
        Entity { role: Role::ModeButton, tint: Tint::ModeRest },
        Entity { role: Role::ModeLabel, tint: Tint::Fixed },
        Entity { role: Role::CloseButton, tint: Tint::CloseRest },
        Entity { role: Role::CloseLabel, tint: Tint::Fixed },
    ]
}

/// The scene that start-up creates: camera, cube and light.
pub open spec fn startup_scene() -> Seq<Entity> {
    seq![
        Entity { role: Role::Camera, tint: Tint::Fixed },
        Entity { role: Role::Cube, tint: Tint::Fixed },
        Entity { role: Role::Light, tint: Tint::Fixed },
    ]
}

impl World {
    /// At most one menu subtree exists, and it exists exactly when the menu
    /// is visible.
    pub open spec fn wf(&self) -> bool {
        if self.menu_visible {
            has_one_menu(self.entities@)
        } else {
            menu_free(self.entities@)
        }
    }
}

/// The start-up state: a windowed primary window, the camera, cube and
/// light, no menu, the cube unturned.
pub fn setup() -> (w: World)
    ensures
        w.wf(),
        w.entities@ == startup_scene(),
        w.window == Some(WindowMode::Windowed),
        !w.menu_visible,
        w.cube_yaw == 0,
        !w.exited,
{
    let mut entities: Vec<Entity> = Vec::new();
    entities.push(Entity { role: Role::Camera, tint: Tint::Fixed });
    entities.push(Entity { role: Role::Cube, tint: Tint::Fixed });
    entities.push(Entity { role: Role::Light, tint: Tint::Fixed });
    assert(entities@ =~= startup_scene());
    World {
        entities,
        window: Some(WindowMode::Windowed),
        menu_visible: false,
        cube_yaw: 0,
        exited: false,
    }
}

/// Spawns one menu subtree after the existing entities.
pub fn setup_menu(w: &mut World)
    ensures
        final(w).entities@ == old(w).entities@ + menu_tree(),
        final(w).window == old(w).window,
        final(w).menu_visible == old(w).menu_visible,
        final(w).cube_yaw == old(w).cube_yaw,
        final(w).exited == old(w).exited,
{
    w.entities.push(Entity { role: Role::MenuRoot, tint: Tint::Fixed });
    w.entities.push(Entity { role: Role::MenuPanel, tint: Tint::Fixed });
    w.entities.push(Entity { role: Role::MenuTitle, tint: Tint::Fixed });
    w.entities.push(Entity { role: Role::ModeButton, tint: Tint::ModeRest });
    w.entities.push(Entity { role: Role::ModeLabel, tint: Tint::Fixed });
    w.entities.push(Entity { role: Role::CloseButton, tint: Tint::CloseRest });
    w.entities.push(Entity { role: Role::CloseLabel, tint: Tint::Fixed });
    assert(w.entities@ =~= old(w).entities@ + menu_tree());
}

fn is_menu_entity(e: &Entity) -> (r: bool)
    ensures
        r == is_menu_role(e.role),
{
    match e.role {
        Role::MenuRoot | Role::MenuPanel | Role::MenuTitle | Role::ModeButton | Role::ModeLabel
        | Role::CloseButton | Role::CloseLabel => true,
        _ => false,
    }
}

/// Removes every entity of a menu subtree, keeping the others in order.
pub fn despawn_menus(w: &mut World)
    ensures
        final(w).entities@ == old(w).entities@.filter(not_menu()),
        final(w).window == old(w).window,
        final(w).menu_visible == old(w).menu_visible,
        final(w).cube_yaw == old(w).cube_yaw,
        final(w).exited == old(w).exited,
{
    let ghost pred = not_menu();
    let ghost orig = w.entities@;
    let mut kept: Vec<Entity> = Vec::new();
    let mut i: usize = 0;
    while i < w.entities.len()
        invariant
            i <= w.entities.len(),
            w.entities@ == orig,
            pred == not_menu(),
            kept@ == orig.take(i as int).filter(pred),
        decreases w.entities.len() - i,
    {
        let e = w.entities[i];
        proof {
            reveal(Seq::filter);
            assert(orig.take(i + 1).drop_last() =~= orig.take(i as int));
            assert(orig.take(i + 1).last() == e);
            assert(pred(e) == !is_menu_role(e.role));
        }
        if !is_menu_entity(&e) {
            kept.push(e);
        }
        i = i + 1;
    }
    assert(orig.take(orig.len() as int) =~= orig);
    w.entities = kept;
}

/// Filtering a menu-free sequence keeps all of it.
pub proof fn lemma_filter_menu_free(s: Seq<Entity>)
    requires
        menu_free(s),
    ensures
        s.filter(not_menu()) == s,
    decreases s.len(),
{
    reveal(Seq::filter);
    if s.len() > 0 {
        assert(menu_free(s.drop_last()));
        lemma_filter_menu_free(s.drop_last());
        assert(!is_menu_role(s[s.len() - 1].role));
        assert(s.drop_last().push(s.last()) =~= s);
    }
}

/// Filtering a sequence made of menu entities only leaves nothing.
pub proof fn lemma_filter_all_menu(s: Seq<Entity>)
    requires
        forall|i: int| 0 <= i < s.len() ==> is_menu_role(#[trigger] s[i].role),
    ensures
        s.filter(not_menu()) == Seq::<Entity>::empty(),
    decreases s.len(),
{
    reveal(Seq::filter);
    if s.len() > 0 {
        assert(is_menu_role(s[s.len() - 1].role));
        lemma_filter_all_menu(s.drop_last());
    }
}

/// Removing the menu from a sequence that ends in the one menu subtree
/// leaves the entities before it.
pub proof fn lemma_filter_one_menu(s: Seq<Entity>)
    requires
        has_one_menu(s),
    ensures
        s.filter(not_menu()) == s.take(s.len() - 7),
{
    let k = s.len() - 7;
    let a = s.take(k);
    let b = s.skip(k);
    assert(a + b =~= s);
    assert forall|i: int| 0 <= i < b.len() implies is_menu_role(#[trigger] b[i].role) by {
        assert(s[s.len() - 7 + i].role == menu_roles()[i]);
    }
    lemma_filter_all_menu(b);
    lemma_filter_menu_free(a);
    Seq::filter_distributes_over_add(a, b, not_menu());
    assert(a + Seq::<Entity>::empty() =~= a);
}

/// No menu entity survives the filter.
pub proof fn lemma_filtered_menu_free(s: Seq<Entity>)
    ensures
        menu_free(s.filter(not_menu())),
{
    broadcast use Seq::lemma_filter_pred;
    let f = s.filter(not_menu());
    assert forall|i: int| 0 <= i < f.len() implies !is_menu_role(#[trigger] f[i].role) by {
        assert(not_menu()(f[i]));
    }
}

/// Appending a menu subtree to a menu-free sequence gives one menu.
pub proof fn lemma_add_menu(s: Seq<Entity>)
    requires
        menu_free(s),
    ensures
        has_one_menu(s + menu_tree()),
{
    let t = s + menu_tree();
    assert(t.take(t.len() - 7) =~= s);
    assert forall|j: int| 0 <= j < 7 implies #[trigger] t[t.len() - 7 + j].role == menu_roles()[j] by {
        assert(t[t.len() - 7 + j] == menu_tree()[j]);
    }
}

/// A menu-free sequence with one menu subtree added holds one menu root.
pub proof fn lemma_count_menu_root(s: Seq<Entity>)
    requires
        menu_free(s),
    ensures
        count_role(s + menu_tree(), Role::MenuRoot) == 1,
{
    lemma_count_free(s);
    lemma_count_add(s, menu_tree(), Role::MenuRoot);
    let m = menu_tree();
    assert(m.drop_last() =~= m.take(6));
    assert(m.take(6).drop_last() =~= m.take(5));
    assert(m.take(5).drop_last() =~= m.take(4));
    assert(m.take(4).drop_last() =~= m.take(3));
    assert(m.take(3).drop_last() =~= m.take(2));
    assert(m.take(2).drop_last() =~= m.take(1));
    assert(m.take(1).drop_last() =~= Seq::<Entity>::empty());
    reveal_with_fuel(count_role, 8);
}

/// Counting roles distributes over concatenation.
proof fn lemma_count_add(a: Seq<Entity>, b: Seq<Entity>, r: Role)
    ensures
        count_role(a + b, r) == count_role(a, r) + count_role(b, r),
    decreases b.len(),
{
    if b.len() == 0 {
        assert(a + b =~= a);
    } else {
        assert((a + b).drop_last() =~= a + b.drop_last());
        lemma_count_add(a, b.drop_last(), r);
    }
}

/// A menu-free sequence holds no menu root.
proof fn lemma_count_free(s: Seq<Entity>)
    requires
        menu_free(s),
    ensures
        count_role(s, Role::MenuRoot) == 0,
    decreases s.len(),
{
    if s.len() > 0 {
        assert(!is_menu_role(s[s.len() - 1].role));
        lemma_count_free(s.drop_last());
    }
}

} // verus!
