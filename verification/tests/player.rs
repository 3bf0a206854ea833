use brushworks::player::{
    move_player_editor, move_player_gameplay, toggle_player_mode, InputAxes, MoveKeys, PlayerMode,
};

fn keys(forward: bool, back: bool, left: bool, right: bool, up: bool, down: bool) -> MoveKeys {
    MoveKeys { forward, back, left, right, up, down }
}

fn no_keys() -> MoveKeys {
    keys(false, false, false, false, false, false)
}

#[test]
fn mode_names() {
    assert_eq!(PlayerMode::Gameplay.name(), "Gameplay");
    assert_eq!(PlayerMode::Editor.name(), "Editor");
    assert_ne!(PlayerMode::Gameplay.name(), PlayerMode::Editor.name());
}

#[test]
fn toggle_switches_when_pressed() {
    let mut mode = PlayerMode::Editor;
    toggle_player_mode(&mut mode, true);
    assert_eq!(mode, PlayerMode::Gameplay);
    toggle_player_mode(&mut mode, true);
    assert_eq!(mode, PlayerMode::Editor);
}

#[test]
fn toggle_keeps_mode_when_not_pressed() {
    let mut mode = PlayerMode::Gameplay;
    toggle_player_mode(&mut mode, false);
    assert_eq!(mode, PlayerMode::Gameplay);
    let mut mode = PlayerMode::Editor;
    toggle_player_mode(&mut mode, false);
    assert_eq!(mode, PlayerMode::Editor);
}

#[test]
fn toggle_twice_restores_each_mode() {
    for start in [PlayerMode::Gameplay, PlayerMode::Editor] {
        let mut mode = start;
        toggle_player_mode(&mut mode, true);
        assert_ne!(mode, start);
        toggle_player_mode(&mut mode, true);
        assert_eq!(mode, start);
    }
}

#[test]
fn gameplay_movement_only_in_gameplay_mode() {
    let k = keys(true, false, false, true, true, false);
    assert_eq!(move_player_gameplay(PlayerMode::Editor, k), None);
    assert_eq!(
        move_player_gameplay(PlayerMode::Gameplay, k),
        Some(InputAxes { x: 1, y: 0, z: 1 })
    );
}

#[test]
fn editor_movement_only_in_editor_mode() {
    let k = keys(false, true, true, false, false, true);
    assert_eq!(move_player_editor(PlayerMode::Gameplay, k), None);
    assert_eq!(
        move_player_editor(PlayerMode::Editor, k),
        Some(InputAxes { x: -1, y: -1, z: -1 })
    );
}

#[test]
fn exactly_one_mover_per_mode() {
    let k = keys(true, false, true, false, true, false);
    for mode in [PlayerMode::Gameplay, PlayerMode::Editor] {
        let walking = move_player_gameplay(mode, k).is_some();
        let flying = move_player_editor(mode, k).is_some();
        assert!(walking != flying);
    }
}

#[test]
fn opposite_keys_cancel() {
    let all = keys(true, true, true, true, true, true);
    assert_eq!(
        move_player_editor(PlayerMode::Editor, all),
        Some(InputAxes { x: 0, y: 0, z: 0 })
    );
    assert_eq!(
        move_player_gameplay(PlayerMode::Gameplay, all),
        Some(InputAxes { x: 0, y: 0, z: 0 })
    );
}

#[test]
fn walking_ignores_vertical_keys() {
    let k = keys(false, false, false, false, true, false);
    assert_eq!(
        move_player_gameplay(PlayerMode::Gameplay, k),
        Some(InputAxes { x: 0, y: 0, z: 0 })
    );
    assert_eq!(
        move_player_editor(PlayerMode::Editor, k),
        Some(InputAxes { x: 0, y: 1, z: 0 })
    );
}

#[test]
fn walking_matches_flying_without_vertical() {
    let k = keys(true, false, false, true, false, true);
    let walk = move_player_gameplay(PlayerMode::Gameplay, k).unwrap();
    let fly = move_player_editor(PlayerMode::Editor, k).unwrap();
    assert_eq!(walk, InputAxes { y: 0, ..fly });
}

#[test]
fn length_squared_values() {
    assert_eq!(InputAxes { x: 0, y: 0, z: 0 }.length_squared(), 0);
    assert_eq!(InputAxes { x: 1, y: 0, z: -1 }.length_squared(), 2);
    assert_eq!(InputAxes { x: -1, y: 1, z: 1 }.length_squared(), 3);
    assert_eq!(InputAxes { x: -128, y: 127, z: 3 }.length_squared(), 16384 + 16129 + 9);
}

#[test]
fn no_keys_means_no_movement() {
    let walk = move_player_gameplay(PlayerMode::Gameplay, no_keys()).unwrap();
    assert_eq!(walk.length_squared(), 0);
    let fly = move_player_editor(PlayerMode::Editor, no_keys()).unwrap();
    assert_eq!(fly.length_squared(), 0);
}
