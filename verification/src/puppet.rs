//! Book-keeping of the puppet window: the three entities that make it up
//! (window, camera and sprite), and the window flags the user controls.
//!
//! Entities are carried as their 64-bit identifiers.

use vstd::prelude::*;

verus! {

/// Stacking order of the puppet window.
#[derive(Clone, Copy, Debug, PartialEq, Eq, Structural)]
pub enum WindowLevel {
    Normal,
    AlwaysOnTop,
}

/// The window level that the "always on top" flag selects.
pub open spec fn level_for(always_on_top: bool) -> WindowLevel {
    if always_on_top {
        WindowLevel::AlwaysOnTop
    } else {
        WindowLevel::Normal
    }
}

/// Chooses the window level for the "always on top" flag.
pub fn window_level(always_on_top: bool) -> (level: WindowLevel)
    ensures
        level == level_for(always_on_top),
{
    if always_on_top {
        WindowLevel::AlwaysOnTop
    } else {
        WindowLevel::Normal
    }
}

/// The window properties derived from the user's flags.
#[derive(Clone, Copy, Debug, PartialEq, Eq, Structural)]
pub struct WindowSettings {
    /// Whether the window shows its title bar and borders.
    pub decorations: bool,
    /// Whether the window receives the mouse.
    pub hit_test: bool,
    /// Stacking order.
    pub level: WindowLevel,
}

/// A locked window has no decorations and lets the mouse pass through.
pub open spec fn settings_for(locked: bool, always_on_top: bool) -> WindowSettings {
    WindowSettings { decorations: !locked, hit_test: !locked, level: level_for(always_on_top) }
}

/// What a request to open the puppet window must do.
#[derive(Clone, Copy, Debug, PartialEq, Eq, Structural)]
pub enum OpenAction {
    /// No image is selected: nothing happens.
    Ignore,
    /// The puppet is already shown: give this sprite the selected image.
    RefreshSprite(u64),
    /// Spawn a window, a camera and a sprite; the window gets these settings.
    Spawn(WindowSettings),
}

/// The abstract state of the puppet window.
pub struct PuppetWindowsView {
    pub window: Option<u64>,
    pub camera: Option<u64>,
    pub sprite: Option<u64>,
    pub locked: bool,
    pub always_on_top: bool,
}

impl PuppetWindowsView {
    /// Window, camera and sprite are either all tracked or none is.
    pub open spec fn tracked_together(self) -> bool {
        &&& self.window.is_some() == self.camera.is_some()
        &&& self.camera.is_some() == self.sprite.is_some()
    }

    /// The same state with nothing tracked.
    pub open spec fn cleared(self) -> PuppetWindowsView {
        PuppetWindowsView { window: None, camera: None, sprite: None, ..self }
    }

    /// The same state tracking the given entities.
    pub open spec fn tracking(self, window: u64, camera: u64, sprite: u64) -> PuppetWindowsView {
        PuppetWindowsView { window: Some(window), camera: Some(camera), sprite: Some(sprite), ..self }
    }

    pub open spec fn settings(self) -> WindowSettings {
        settings_for(self.locked, self.always_on_top)
    }

    /// What opening the puppet window does in this state.
    pub open spec fn open_action(self, image_selected: bool) -> OpenAction {
        if !image_selected {
            OpenAction::Ignore
        } else {
            match self.sprite {
                Some(sprite) => OpenAction::RefreshSprite(sprite),
                None => OpenAction::Spawn(self.settings()),
            }
        }
    }
}

/// The entities to despawn for an optionally tracked one.
pub open spec fn despawned(entity: Option<u64>) -> Seq<u64> {
    match entity {
        Some(e) => seq![e],
        None => Seq::empty(),
    }
}

/// The puppet window's entities and the flags that shape it.
pub struct PuppetWindows {
    window: Option<u64>,
    camera: Option<u64>,
    sprite: Option<u64>,
    locked: bool,
    always_on_top: bool,
}

impl View for PuppetWindows {
    type V = PuppetWindowsView;

    closed spec fn view(&self) -> PuppetWindowsView {
        PuppetWindowsView {
            window: self.window,
            camera: self.camera,
            sprite: self.sprite,
            locked: self.locked,
            always_on_top: self.always_on_top,
        }
    }
}

impl PuppetWindows {
    #[verifier::type_invariant]
    spec fn inv(self) -> bool {
        self@.tracked_together()
    }

    /// No window is open; the window is unlocked and not kept on top.
    pub fn new() -> (s: PuppetWindows)
        ensures
            s@ == (PuppetWindowsView {
                window: None,
                camera: None,
                sprite: None,
                locked: false,
                always_on_top: false,
            }),
    {
        PuppetWindows { window: None, camera: None, sprite: None, locked: false, always_on_top: false }
    }

    pub fn window(&self) -> (w: Option<u64>)
        ensures
            w == self@.window,
    {
        self.window
    }

    pub fn camera(&self) -> (c: Option<u64>)
        ensures
            c == self@.camera,
    {
        self.camera
    }

    pub fn sprite(&self) -> (s: Option<u64>)
        ensures
            s == self@.sprite,
    {
        self.sprite
    }

    pub fn locked(&self) -> (b: bool)
        ensures
            b == self@.locked,
    {
        self.locked
    }

    pub fn always_on_top(&self) -> (b: bool)
        ensures
            b == self@.always_on_top,
    {
        self.always_on_top
    }

    /// Whether the three puppet entities exist.
    pub fn is_open(&self) -> (b: bool)
        ensures
            b == self@.window.is_some(),
            b == self@.sprite.is_some(),
            b == self@.camera.is_some(),
    {
        proof {
            use_type_invariant(self);
        }
        self.window.is_some()
    }

    /// The window properties for the current flags.
    pub fn settings(&self) -> (s: WindowSettings)
        ensures
            s == self@.settings(),
    {
        WindowSettings {
            decorations: !self.locked,
            hit_test: !self.locked,
            level: window_level(self.always_on_top),
        }
    }

    /// Decides what a click on "open puppet window" does.
    pub fn open_action(&self, image_selected: bool) -> (action: OpenAction)
        ensures
            action == self@.open_action(image_selected),
            !image_selected ==> action == OpenAction::Ignore,
            image_selected ==> action != OpenAction::Ignore,
            self@.tracked_together(),
    {
        proof {
            use_type_invariant(self);
        }
        if !image_selected {
            OpenAction::Ignore
        } else {
            match self.sprite {
                Some(sprite) => OpenAction::RefreshSprite(sprite),
                None => OpenAction::Spawn(self.settings()),
            }
        }
    }

    /// Records the entities that were spawned for the puppet window.
    pub fn record_spawned(&mut self, window: u64, camera: u64, sprite: u64)
        ensures
            final(self)@ == old(self)@.tracking(window, camera, sprite),
    {
        *self = PuppetWindows {
            window: Some(window),
            camera: Some(camera),
            sprite: Some(sprite),
            locked: self.locked,
            always_on_top: self.always_on_top,
        };
    }

    /// Forgets the puppet window whose window is already gone; returns the
    /// camera and sprite, which are to be despawned in that order.
    pub fn cleanup(&mut self) -> (to_despawn: Vec<u64>)
        ensures
            to_despawn@ == despawned(old(self)@.camera) + despawned(old(self)@.sprite),
            final(self)@ == old(self)@.cleared(),
    {
        let mut to_despawn: Vec<u64> = Vec::new();
        if let Some(camera) = self.camera {
            to_despawn.push(camera);
        }
        if let Some(sprite) = self.sprite {
            to_despawn.push(sprite);
        }
        *self = PuppetWindows {
            window: None,
            camera: None,
            sprite: None,
            locked: self.locked,
            always_on_top: self.always_on_top,
        };
        to_despawn
    }

    /// Closes the puppet window; returns the window, camera and sprite, which
    /// are to be despawned in that order.
    pub fn close(&mut self) -> (to_despawn: Vec<u64>)
        ensures
            to_despawn@ == despawned(old(self)@.window) + despawned(old(self)@.camera)
                + despawned(old(self)@.sprite),
            final(self)@ == old(self)@.cleared(),
    {
        let mut to_despawn: Vec<u64> = Vec::new();
        if let Some(window) = self.window {
            to_despawn.push(window);
        }
        let rest = self.cleanup();
        let mut i: usize = 0;
        while i < rest.len()
            invariant
                0 <= i <= rest.len(),
                to_despawn@ == despawned(old(self)@.window) + rest@.subrange(0, i as int),
            decreases rest.len() - i,
        {
            to_despawn.push(rest[i]);
            assert(rest@.subrange(0, i + 1) == rest@.subrange(0, i as int).push(rest@[i as int]));
            i = i + 1;
        }
        assert(rest@.subrange(0, rest.len() as int) == rest@);
        to_despawn
    }

    /// A window was closed: if it is the puppet window, its camera and sprite
    /// are returned for despawning and the puppet is forgotten; any other
    /// window leaves everything as it was.
    pub fn window_closed(&mut self, closed: u64) -> (to_despawn: Vec<u64>)
        ensures
            old(self)@.window == Some(closed) ==> {
                &&& to_despawn@ == despawned(old(self)@.camera) + despawned(old(self)@.sprite)
                &&& final(self)@ == old(self)@.cleared()
            },
            old(self)@.window != Some(closed) ==> {
                &&& to_despawn@ == Seq::<u64>::empty()
                &&& final(self)@ == old(self)@
            },
    {
        if self.window == Some(closed) {
            self.cleanup()
        } else {
            Vec::new()
        }
    }

    /// Closing was requested for some window: when it is the configuration
    /// window, the puppet window closes with it.
    pub fn close_requested(&mut self, is_config_window: bool) -> (to_despawn: Vec<u64>)
        ensures
            is_config_window ==> {
                &&& to_despawn@ == despawned(old(self)@.window) + despawned(old(self)@.camera)
                    + despawned(old(self)@.sprite)
                &&& final(self)@ == old(self)@.cleared()
            },
            !is_config_window ==> {
                &&& to_despawn@ == Seq::<u64>::empty()
                &&& final(self)@ == old(self)@
            },
    {
        if is_config_window {
            self.close()
        } else {
            Vec::new()
        }
    }

    /// The "movable" checkbox changed: a checked box unlocks the window.
    /// Returns whether the checkbox is to be shown checked.
    pub fn set_movable(&mut self, movable: bool) -> (checked: bool)
        ensures
            final(self)@ == (PuppetWindowsView { locked: !movable, ..old(self)@ }),
            checked == movable,
    {
        proof {
            use_type_invariant(&*self);
        }
        self.locked = !movable;
        movable
    }

    /// The "always on top" checkbox changed. Returns whether the checkbox is
    /// to be shown checked.
    pub fn set_always_on_top(&mut self, always_on_top: bool) -> (checked: bool)
        ensures
            final(self)@ == (PuppetWindowsView { always_on_top, ..old(self)@ }),
            checked == always_on_top,
    {
        proof {
            use_type_invariant(&*self);
        }
        self.always_on_top = always_on_top;
        always_on_top
    }
}

/// There is never more than one puppet window: once the puppet is shown,
/// opening it again gives the existing sprite the selected image and spawns
/// nothing.
pub proof fn lemma_single_puppet_window(
    state: PuppetWindowsView,
    window: u64,
    camera: u64,
    sprite: u64,
)
    ensures
        state.tracking(window, camera, sprite).open_action(true) == OpenAction::RefreshSprite(
            sprite,
        ),
        state.tracking(window, camera, sprite).tracked_together(),
{
}

/// After the puppet window is closed, by either path, opening it spawns a
/// fresh one with the current flags, and nothing is tracked any more.
pub proof fn lemma_reopen_after_close(state: PuppetWindowsView)
    ensures
        state.cleared().open_action(true) == OpenAction::Spawn(state.settings()),
        state.cleared().tracked_together(),
        state.cleared().settings() == state.settings(),
{
}

/// A locked window shows no decorations and lets the mouse through; an
/// unlocked one has both. The level follows "always on top" alone.
pub proof fn lemma_settings_follow_flags(locked: bool, always_on_top: bool)
    ensures
        settings_for(locked, always_on_top).decorations == !locked,
        settings_for(locked, always_on_top).hit_test == !locked,
        settings_for(true, always_on_top).level == settings_for(false, always_on_top).level,
        always_on_top ==> settings_for(locked, always_on_top).level == WindowLevel::AlwaysOnTop,
        !always_on_top ==> settings_for(locked, always_on_top).level == WindowLevel::Normal,
{
}

/// Closing despawns exactly the entities that were tracked: the window,
/// camera and sprite recorded when the puppet was spawned.
pub proof fn lemma_close_despawns_what_was_spawned(
    state: PuppetWindowsView,
    window: u64,
    camera: u64,
    sprite: u64,
)
    ensures
        ({
            let open = state.tracking(window, camera, sprite);
            &&& despawned(open.window) + despawned(open.camera) + despawned(open.sprite) == seq![
                window,
                camera,
                sprite,
            ]
            &&& despawned(open.camera) + despawned(open.sprite) == seq![camera, sprite]
        }),
{
    assert(seq![window] + seq![camera] + seq![sprite] =~= seq![window, camera, sprite]);
    assert(seq![camera] + seq![sprite] =~= seq![camera, sprite]);
}

/// Without a selected image, opening does nothing, whatever the state and
/// flags; with one, it always either refreshes the shown sprite or spawns a
/// window, never both and never nothing.
pub proof fn lemma_open_needs_image(state: PuppetWindowsView)
    ensures
        state.open_action(false) == OpenAction::Ignore,
        state.open_action(true) != OpenAction::Ignore,
        state.sprite.is_some() <==> state.open_action(true) is RefreshSprite,
        state.sprite.is_none() <==> state.open_action(true) is Spawn,
{
}

} // verus!
