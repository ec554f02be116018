use vstd::prelude::*;

verus! {

/// How the primary window is presented.
#[derive(Clone, Copy, Debug, PartialEq, Eq, Structural)]
pub enum WindowMode {
    Windowed,
    /// Borderless fullscreen on the monitor the window currently occupies.
    BorderlessFullscreen,
    /// Exclusive fullscreen.
    Fullscreen,
}

/// The mode that a toggle moves to: windowed becomes borderless
/// fullscreen, and either fullscreen mode falls back to windowed.
pub open spec fn toggled(m: WindowMode) -> WindowMode {
    match m {
        WindowMode::Windowed => WindowMode::BorderlessFullscreen,
        _ => WindowMode::Windowed,
    }
}

/// Mode reached from `m` after `n` toggles.
pub open spec fn toggled_n(m: WindowMode, n: nat) -> WindowMode
    decreases n,
{
    if n == 0 {
        m
    } else {
        toggled(toggled_n(m, (n - 1) as nat))
    }
}

/// Flips between windowed and borderless fullscreen.
pub fn toggle_mode(m: WindowMode) -> (r: WindowMode)
    ensures
        r == toggled(m),
{
    match m {
        WindowMode::Windowed => WindowMode::BorderlessFullscreen,
        _ => WindowMode::Windowed,
    }
}

/// Starting from windowed, the mode after `n` toggles is windowed when `n`
/// is even and borderless fullscreen when `n` is odd; no other mode is
/// ever reached.
pub proof fn lemma_toggles_alternate(n: nat)
    ensures
        toggled_n(WindowMode::Windowed, n) == (if n % 2 == 0 {
            WindowMode::Windowed
        } else {
            WindowMode::BorderlessFullscreen
        }),
    decreases n,
{
    if n > 0 {
        lemma_toggles_alternate((n - 1) as nat);
    }
}

} // verus!
