use vstd::prelude::*;

verus! {

/// Whether the player walks under gravity or flies freely through the level.
#[derive(Clone, Copy, Debug, PartialEq, Eq, Structural)]
pub enum PlayerMode {
    Gameplay,
    Editor,
}

/// The label under which a mode is shown on screen.
pub open spec fn mode_label(mode: PlayerMode) -> Seq<char> {
    match mode {
        PlayerMode::Gameplay => "Gameplay"@,
        PlayerMode::Editor => "Editor"@,
    }
}

/// The mode that the mode key switches to.
pub open spec fn toggled(mode: PlayerMode) -> PlayerMode {
    match mode {
        PlayerMode::Gameplay => PlayerMode::Editor,
        PlayerMode::Editor => PlayerMode::Gameplay,
    }
}

impl PlayerMode {
    /// The human-readable name of the mode.
    pub fn name(&self) -> (label: &'static str)
        ensures
            label@ == mode_label(*self),
            *self == PlayerMode::Gameplay ==> label@ == "Gameplay"@,
            *self == PlayerMode::Editor ==> label@ == "Editor"@,
    {
        match self {
            PlayerMode::Gameplay => "Gameplay",
            PlayerMode::Editor => "Editor",
        }
    }
}

/// Switches between gameplay and editor mode when the mode key was just
/// pressed this frame; leaves the mode alone otherwise.
pub fn toggle_player_mode(mode: &mut PlayerMode, mode_key_just_pressed: bool)
    ensures
        *final(mode) == (if mode_key_just_pressed { toggled(*old(mode)) } else { *old(mode) }),
        mode_key_just_pressed ==> *final(mode) != *old(mode),
        !mode_key_just_pressed ==> *final(mode) == *old(mode),
{
    if mode_key_just_pressed {
        *mode = match *mode {
            PlayerMode::Gameplay => PlayerMode::Editor,
            PlayerMode::Editor => PlayerMode::Gameplay,
        };
    }
}


/// The movement keys held down this frame.
#[derive(Clone, Copy, Debug, PartialEq, Eq)]
pub struct MoveKeys {
    /// W: move forward.
    pub forward: bool,
    /// S: move backward.
    pub back: bool,
    /// A: strafe left.
    pub left: bool,
    /// D: strafe right.
    pub right: bool,
    /// Space: fly up (editor only).
    pub up: bool,
    /// Left Control: fly down (editor only).
    pub down: bool,
}

/// The movement direction that the keys ask for, before it is normalised:
/// `x` to the player's right, `y` upward, `z` forward.
#[derive(Clone, Copy, Debug, PartialEq, Eq, Structural)]
pub struct InputAxes {
    pub x: i8,
    pub y: i8,
    pub z: i8,
}

/// One axis from a pair of opposing keys: +1 for the first alone, -1 for the
/// second alone, 0 for neither or both.
pub open spec fn key_axis(positive: bool, negative: bool) -> int {
    (if positive { 1int } else { 0int }) - (if negative { 1int } else { 0int })
}

/// The walking direction: right/left and forward/back, never vertical.
pub open spec fn gameplay_axes(keys: MoveKeys) -> InputAxes {
    InputAxes {
        x: key_axis(keys.right, keys.left) as i8,
        y: 0,
        z: key_axis(keys.forward, keys.back) as i8,
    }
}

/// The flying direction: the walking axes plus up/down.
pub open spec fn editor_axes(keys: MoveKeys) -> InputAxes {
    InputAxes {
        x: key_axis(keys.right, keys.left) as i8,
        y: key_axis(keys.up, keys.down) as i8,
        z: key_axis(keys.forward, keys.back) as i8,
    }
}

/// What the walking system does this frame: nothing outside gameplay mode.
pub open spec fn gameplay_step(mode: PlayerMode, keys: MoveKeys) -> Option<InputAxes> {
    if mode == PlayerMode::Gameplay {
        Some(gameplay_axes(keys))
    } else {
        None
    }
}

/// What the flying system does this frame: nothing outside editor mode.
pub open spec fn editor_step(mode: PlayerMode, keys: MoveKeys) -> Option<InputAxes> {
    if mode == PlayerMode::Editor {
        Some(editor_axes(keys))
    } else {
        None
    }
}

/// The squared length of an input direction.
pub open spec fn axes_length_squared(axes: InputAxes) -> int {
    axes.x * axes.x + axes.y * axes.y + axes.z * axes.z
}

/// Every component is -1, 0 or 1.
pub open spec fn unit_axes(axes: InputAxes) -> bool {
    &&& -1 <= axes.x <= 1
    &&& -1 <= axes.y <= 1
    &&& -1 <= axes.z <= 1
}

fn key_axis_of(positive: bool, negative: bool) -> (axis: i8)
    ensures
        axis == key_axis(positive, negative),
{
    let mut axis: i8 = 0;
    if positive {
        axis = axis + 1;
    }
    if negative {
        axis = axis - 1;
    }
    axis
}

impl InputAxes {
    /// The squared length of the direction; it is positive exactly when some
    /// key produced movement, which is when the direction gets normalised.
    pub fn length_squared(&self) -> (len: i32)
        ensures
            len == axes_length_squared(*self),
            len == self.x * self.x + self.y * self.y + self.z * self.z,
    {
        let x: i32 = self.x as i32;
        let y: i32 = self.y as i32;
        let z: i32 = self.z as i32;
        assert(0 <= x * x <= 16384 && 0 <= y * y <= 16384 && 0 <= z * z <= 16384) by (nonlinear_arith)
            requires
                -128 <= x <= 127,
                -128 <= y <= 127,
                -128 <= z <= 127,
        ;
        x * x + y * y + z * z
    }
}

/// The walking system's decision for one frame: outside gameplay mode it does
/// nothing (`None`); in gameplay mode it reads W/S/A/D into a horizontal
/// direction. Gravity and the scaling of that direction by speed and frame
/// time are applied by the caller.
pub fn move_player_gameplay(mode: PlayerMode, keys: MoveKeys) -> (step: Option<InputAxes>)
    ensures
        step == gameplay_step(mode, keys),
        step is Some <==> mode == PlayerMode::Gameplay,
        step matches Some(a) ==> {
            &&& a.x == (if keys.right { 1int } else { 0int }) - (if keys.left { 1int } else { 0int })
            &&& a.y == 0
            &&& a.z == (if keys.forward { 1int } else { 0int }) - (if keys.back { 1int } else { 0int })
        },
{
    match mode {
        PlayerMode::Gameplay => {},
        PlayerMode::Editor => {
            return None;
        },
    }
    let z: i8 = key_axis_of(keys.forward, keys.back);
    let x: i8 = key_axis_of(keys.right, keys.left);
    Some(InputAxes { x, y: 0, z })
}

/// The flying system's decision for one frame: outside editor mode it does
/// nothing (`None`); in editor mode it reads W/S/A/D and Space/Control into a
/// direction with a vertical component.
pub fn move_player_editor(mode: PlayerMode, keys: MoveKeys) -> (step: Option<InputAxes>)
    ensures
        step == editor_step(mode, keys),
        step is Some <==> mode == PlayerMode::Editor,
        step matches Some(a) ==> {
            &&& a.x == (if keys.right { 1int } else { 0int }) - (if keys.left { 1int } else { 0int })
            &&& a.y == (if keys.up { 1int } else { 0int }) - (if keys.down { 1int } else { 0int })
            &&& a.z == (if keys.forward { 1int } else { 0int }) - (if keys.back { 1int } else { 0int })
        },
{
    match mode {
        PlayerMode::Editor => {},
        PlayerMode::Gameplay => {
            return None;
        },
    }
    let z: i8 = key_axis_of(keys.forward, keys.back);
    let x: i8 = key_axis_of(keys.right, keys.left);
    let y: i8 = key_axis_of(keys.up, keys.down);
    Some(InputAxes { x, y, z })
}

/// Each key drives exactly its own axis: D/A give x (right positive), W/S
/// give z (forward positive), Space/Control give y (up positive) when flying
/// and nothing when walking; no key touches another axis. Walking happens
/// exactly in gameplay mode and flying exactly in editor mode.
pub proof fn lemma_keys_drive_their_axes(mode: PlayerMode, keys: MoveKeys)
    ensures
        gameplay_step(mode, keys) is Some <==> mode == PlayerMode::Gameplay,
        editor_step(mode, keys) is Some <==> mode == PlayerMode::Editor,
        gameplay_step(mode, keys) matches Some(a) ==> {
            &&& a.x == (if keys.right { 1int } else { 0int }) - (if keys.left { 1int } else { 0int })
            &&& a.y == 0
            &&& a.z == (if keys.forward { 1int } else { 0int }) - (if keys.back { 1int } else { 0int })
        },
        editor_step(mode, keys) matches Some(a) ==> {
            &&& a.x == (if keys.right { 1int } else { 0int }) - (if keys.left { 1int } else { 0int })
            &&& a.y == (if keys.up { 1int } else { 0int }) - (if keys.down { 1int } else { 0int })
            &&& a.z == (if keys.forward { 1int } else { 0int }) - (if keys.back { 1int } else { 0int })
        },
{
}

/// Pressing the mode key twice brings the player back to the mode it started
/// in, and a single press always changes the mode.
pub proof fn lemma_toggle_twice_restores(mode: PlayerMode)
    ensures
        toggled(toggled(mode)) == mode,
        toggled(mode) != mode,
{
}

/// The two modes are shown under different names.
pub proof fn lemma_mode_labels_differ()
    ensures
        mode_label(PlayerMode::Gameplay) != mode_label(PlayerMode::Editor),
{
    reveal_strlit("Gameplay");
    reveal_strlit("Editor");
    assert(mode_label(PlayerMode::Gameplay).len() != mode_label(PlayerMode::Editor).len());
}

/// In every mode exactly one of the two movement systems moves the player,
/// and a press of the mode key hands movement over to the other one.
pub proof fn lemma_exactly_one_mover(mode: PlayerMode, keys: MoveKeys)
    ensures
        gameplay_step(mode, keys) is Some <==> editor_step(mode, keys) is None,
        gameplay_step(mode, keys) is Some <==> gameplay_step(toggled(mode), keys) is None,
        editor_step(mode, keys) is Some <==> editor_step(toggled(mode), keys) is None,
{
}

/// Walking reads the same horizontal direction from the keys as flying does,
/// without the vertical component; every direction has components in
/// {-1, 0, 1}, and it is zero exactly when its squared length is.
pub proof fn lemma_walking_is_flying_flattened(keys: MoveKeys)
    ensures
        gameplay_axes(keys) == (InputAxes { y: 0, ..editor_axes(keys) }),
        unit_axes(gameplay_axes(keys)),
        unit_axes(editor_axes(keys)),
        axes_length_squared(gameplay_axes(keys)) <= 2,
        axes_length_squared(editor_axes(keys)) <= 3,
        forall|a: InputAxes| #[trigger] unit_axes(a) ==> (axes_length_squared(a) == 0 <==> (a.x == 0
            && a.y == 0 && a.z == 0)),
{
    let g = gameplay_axes(keys);
    let e = editor_axes(keys);
    lemma_unit_square(g.x as int);
    lemma_unit_square(g.z as int);
    lemma_unit_square(e.y as int);
    assert forall|a: InputAxes| #[trigger] unit_axes(a) implies (axes_length_squared(a) == 0 <==> (
    a.x == 0 && a.y == 0 && a.z == 0)) by {
        lemma_unit_square(a.x as int);
        lemma_unit_square(a.y as int);
        lemma_unit_square(a.z as int);
    }
}

proof fn lemma_unit_square(v: int)
    requires
        -1 <= v <= 1,
    ensures
        v * v == (if v == 0 { 0int } else { 1int }),
{
    if v == -1 {
    } else if v == 0 {
    } else {
    }
}

} // verus!
