use action_input::{
    Action, FrameInput, InputBinding, InputManager, KeyBinding, KeyCode, MouseBinding,
    MouseButton, Movement,
};
use action_input::resolve::{actions_since, any_binding_active, contains_action, is_binding_active};

const FRAME: u64 = 16_000;

fn keys(down: &[KeyCode]) -> FrameInput {
    let mut f = FrameInput::new();
    for k in down {
        f.press_key(*k);
    }
    f
}

fn buttons(down: &[MouseButton]) -> FrameInput {
    let mut f = FrameInput::new();
    for b in down {
        f.press_button(*b);
    }
    f
}

#[test]
fn jump_scenario_buffers_for_the_buffer_time() {
    let mut m = InputManager::new();
    m.bind_action(Action::Jump, vec![InputBinding::key(KeyCode::Space)]);
    m.set_buffer_time(100_000);
    m.update(keys(&[]), FRAME);
    m.update(keys(&[]), FRAME);
    assert!(!m.is_action_buffered(&Action::Jump));

    // Frame N: the key goes down and stays down.
    m.update(keys(&[KeyCode::Space]), FRAME);
    assert!(m.is_action_just_activated(&Action::Jump));
    assert!(m.is_action_active(&Action::Jump));
    assert!(m.is_action_buffered(&Action::Jump));

    // Frames N+1 .. N+5: still buffered, no new activation.
    for _ in 1..=5 {
        m.update(keys(&[KeyCode::Space]), FRAME);
        assert!(!m.is_action_just_activated(&Action::Jump));
        assert!(m.is_action_active(&Action::Jump));
        assert!(m.is_action_buffered(&Action::Jump));
    }

    // 0.1 s minus 7 frames of 0.016 s is below zero: gone by frame N+6.
    m.update(keys(&[KeyCode::Space]), FRAME);
    assert!(!m.is_action_buffered(&Action::Jump));
    m.update(keys(&[KeyCode::Space]), FRAME);
    assert!(!m.is_action_buffered(&Action::Jump));
    assert!(!m.is_action_just_activated(&Action::Jump));
}

#[test]
fn jump_tap_is_just_activated_once() {
    let mut m = InputManager::new();
    m.bind_action(Action::Jump, vec![InputBinding::key(KeyCode::Space)]);
    m.update(keys(&[KeyCode::Space]), FRAME);
    assert!(m.is_action_just_activated(&Action::Jump));
    m.update(keys(&[]), FRAME);
    assert!(!m.is_action_just_activated(&Action::Jump));
    assert!(m.is_action_just_deactivated(&Action::Jump));
    assert!(m.is_action_buffered(&Action::Jump));
    m.update(keys(&[]), FRAME);
    assert!(!m.is_action_just_deactivated(&Action::Jump));
}

#[test]
fn sprint_with_two_keys_deactivates_once() {
    let mut m = InputManager::new();
    let sprint = Action::custom("sprint");
    m.bind_action(
        sprint.clone(),
        vec![InputBinding::key(KeyCode::LeftShift), InputBinding::key(KeyCode::RightShift)],
    );

    m.update(keys(&[KeyCode::LeftShift]), FRAME);
    assert!(m.is_action_active(&sprint));
    assert!(m.is_action_just_activated(&sprint));

    m.update(keys(&[KeyCode::LeftShift, KeyCode::RightShift]), FRAME);
    assert!(m.is_action_active(&sprint));
    assert!(!m.is_action_just_activated(&sprint));

    m.update(keys(&[KeyCode::RightShift]), FRAME);
    assert!(m.is_action_active(&sprint));
    assert!(!m.is_action_just_deactivated(&sprint));

    m.update(keys(&[]), FRAME);
    assert!(!m.is_action_active(&sprint));
    assert!(m.is_action_just_deactivated(&sprint));

    m.update(keys(&[]), FRAME);
    assert!(!m.is_action_just_deactivated(&sprint));

    // The other key alone also activates it.
    m.update(keys(&[KeyCode::RightShift]), FRAME);
    assert!(m.is_action_active(&sprint));
    assert!(m.is_action_just_activated(&sprint));
}

#[test]
fn sprint_released_together_deactivates_once() {
    let mut m = InputManager::new();
    let sprint = Action::custom("sprint");
    m.add_binding(sprint.clone(), InputBinding::key(KeyCode::A));
    m.add_binding(sprint.clone(), InputBinding::key(KeyCode::B));
    m.update(keys(&[KeyCode::A, KeyCode::B]), FRAME);
    assert!(m.is_action_active(&sprint));
    m.update(keys(&[]), FRAME);
    assert!(m.is_action_just_deactivated(&sprint));
    m.update(keys(&[]), FRAME);
    assert!(!m.is_action_just_deactivated(&sprint));
}

#[test]
fn reactivation_refreshes_instead_of_adding() {
    let mut m = InputManager::new();
    m.set_buffer_time(100_000);
    // Activated: 100 ms, less 10 ms.
    m.update(keys(&[KeyCode::X]), 10_000);
    assert!(m.is_action_buffered(&Action::Attack));
    // 50 ms left.
    m.update(keys(&[]), 40_000);
    assert!(m.is_action_buffered(&Action::Attack));
    // Activated again: back to 100 ms, less 10 ms.
    m.update(keys(&[KeyCode::X]), 10_000);
    assert!(m.is_action_just_activated(&Action::Attack));
    // Without the refresh this would be 50 - 10 - 50 < 0.
    m.update(keys(&[]), 50_000);
    assert!(m.is_action_buffered(&Action::Attack));
    m.update(keys(&[]), 40_000);
    assert!(!m.is_action_buffered(&Action::Attack));
}

#[test]
fn buffer_expires_exactly_at_buffer_time() {
    let mut m = InputManager::new();
    m.set_buffer_time(50_000);
    m.update(keys(&[KeyCode::E]), 0);
    assert!(m.is_action_buffered(&Action::Interact));
    m.update(keys(&[KeyCode::E]), 49_999);
    assert!(m.is_action_buffered(&Action::Interact));
    m.update(keys(&[KeyCode::E]), 1);
    assert!(!m.is_action_buffered(&Action::Interact));

    let mut m = InputManager::new();
    m.set_buffer_time(50_000);
    m.update(keys(&[KeyCode::E]), 20_000);
    m.update(keys(&[]), 29_999);
    assert!(m.is_action_buffered(&Action::Interact));
    m.update(keys(&[]), 1);
    assert!(!m.is_action_buffered(&Action::Interact));
}

#[test]
fn zero_time_frames_keep_the_buffer() {
    let mut m = InputManager::new();
    m.update(keys(&[KeyCode::Escape]), 0);
    assert!(m.is_action_just_activated(&Action::Pause));
    assert!(m.is_key_just_pressed(KeyCode::Escape));
    for _ in 0..100 {
        m.update(keys(&[KeyCode::Escape]), 0);
        assert!(m.is_action_buffered(&Action::Pause));
        assert!(!m.is_key_just_pressed(KeyCode::Escape));
    }
    m.update(keys(&[]), 0);
    assert!(m.is_key_just_released(KeyCode::Escape));
    assert!(m.is_action_just_deactivated(&Action::Pause));
    assert!(m.is_action_buffered(&Action::Pause));
}

#[test]
fn zero_buffer_time_buffers_nothing() {
    let mut m = InputManager::new();
    m.set_buffer_time(0);
    m.update(keys(&[KeyCode::Space]), 0);
    assert!(m.is_action_just_activated(&Action::Jump));
    assert!(!m.is_action_buffered(&Action::Jump));
}

#[test]
fn buffer_time_change_is_not_retroactive() {
    let mut m = InputManager::new();
    m.set_buffer_time(100_000);
    m.update(keys(&[KeyCode::Space]), 10_000);
    m.set_buffer_time(10_000);
    m.update(keys(&[]), 50_000);
    assert!(m.is_action_buffered(&Action::Jump));
    m.update(keys(&[KeyCode::E]), 20_000);
    assert!(!m.is_action_buffered(&Action::Interact));
    assert!(m.is_action_buffered(&Action::Jump));
}

#[test]
fn consume_takes_a_buffered_action_once() {
    let mut m = InputManager::new();
    m.update(keys(&[KeyCode::Space]), FRAME);
    assert!(m.consume_buffered_action(&Action::Jump));
    assert!(!m.is_action_buffered(&Action::Jump));
    assert!(!m.consume_buffered_action(&Action::Jump));
    assert!(m.is_action_active(&Action::Jump));
    assert!(!m.consume_buffered_action(&Action::Attack));
}

#[test]
fn modifier_must_be_held_with_the_key() {
    let mut m = InputManager::new();
    let save = Action::custom("save");
    m.bind_action(save.clone(), vec![InputBinding::key_with_modifier(KeyCode::S, KeyCode::LeftControl)]);

    m.update(keys(&[KeyCode::S]), FRAME);
    assert!(!m.is_action_active(&save));
    m.update(keys(&[KeyCode::LeftControl]), FRAME);
    assert!(!m.is_action_active(&save));
    m.update(keys(&[KeyCode::S, KeyCode::LeftControl]), FRAME);
    assert!(m.is_action_active(&save));
    assert!(m.is_action_just_activated(&save));
    // Releasing the modifier while the key stays down deactivates it.
    m.update(keys(&[KeyCode::S]), FRAME);
    assert!(!m.is_action_active(&save));
    assert!(m.is_action_just_deactivated(&save));
    // The same key also drives the default movement action.
    assert!(m.is_action_active(&Action::MoveDown));
}

#[test]
fn key_binding_with_several_modifiers() {
    let mut m = InputManager::new();
    let quit = Action::custom("quit");
    let kb = KeyBinding::new(KeyCode::Q)
        .with_modifier(KeyCode::LeftControl)
        .with_modifier(KeyCode::LeftShift);
    assert_eq!(kb.modifiers.len(), 2);
    m.bind_action(quit.clone(), vec![InputBinding::Key(kb)]);
    m.update(keys(&[KeyCode::Q, KeyCode::LeftControl]), FRAME);
    assert!(!m.is_action_active(&quit));
    m.update(keys(&[KeyCode::Q, KeyCode::LeftControl, KeyCode::LeftShift]), FRAME);
    assert!(m.is_action_active(&quit));
}

#[test]
fn movement_up_right_is_diagonal_of_unit_length() {
    let mut m = InputManager::new();
    m.update(keys(&[KeyCode::W, KeyCode::D]), FRAME);
    let v = m.get_movement_input();
    assert_eq!(v, Movement { x: 1, y: -1 });
    assert_eq!(v.length_squared(), 2);
    let len = (v.length_squared() as f32).sqrt();
    let (nx, ny) = (v.x as f32 / len, v.y as f32 / len);
    assert!(((nx * nx + ny * ny).sqrt() - 1.0).abs() < 1e-6);
}

#[test]
fn movement_without_input_is_zero() {
    let mut m = InputManager::new();
    m.update(keys(&[KeyCode::Space]), FRAME);
    let v = m.get_movement_input();
    assert_eq!(v, Movement { x: 0, y: 0 });
    assert!(v.is_zero());
    assert_eq!(v.length_squared(), 0);
}

#[test]
fn movement_opposite_directions_cancel() {
    let mut m = InputManager::new();
    m.update(keys(&[KeyCode::Left, KeyCode::Right, KeyCode::Down]), FRAME);
    let v = m.get_movement_input();
    assert_eq!(v, Movement { x: 0, y: 1 });
    assert_eq!(v.length_squared(), 1);
    m.update(keys(&[KeyCode::A]), FRAME);
    assert_eq!(m.get_movement_input(), Movement { x: -1, y: 0 });
}

#[test]
fn unbound_action_is_never_active() {
    let mut m = InputManager::new();
    m.unbind_action(&Action::Jump);
    assert!(m.get_bindings(&Action::Jump).is_none());
    m.update(keys(&[KeyCode::Space]), FRAME);
    assert!(!m.is_action_active(&Action::Jump));
    assert!(!m.is_action_just_activated(&Action::Jump));

    m.bind_action(Action::Jump, vec![]);
    assert_eq!(m.get_bindings(&Action::Jump).map(|v| v.len()), Some(0));
    m.update(keys(&[]), FRAME);
    m.update(keys(&[KeyCode::Space]), FRAME);
    assert!(!m.is_action_active(&Action::Jump));
    assert!(!m.is_action_just_activated(&Action::Jump));
    assert!(!m.is_action_buffered(&Action::Jump));
}

#[test]
fn unbinding_an_active_action_deactivates_it_next_frame() {
    let mut m = InputManager::new();
    m.update(keys(&[KeyCode::Space]), FRAME);
    assert!(m.is_action_active(&Action::Jump));
    m.unbind_action(&Action::Jump);
    // The table change takes effect on the next frame.
    assert!(m.is_action_active(&Action::Jump));
    m.update(keys(&[KeyCode::Space]), FRAME);
    assert!(!m.is_action_active(&Action::Jump));
    assert!(m.is_action_just_deactivated(&Action::Jump));
}

#[test]
fn clear_bindings_silences_every_action() {
    let mut m = InputManager::new();
    m.clear_bindings();
    m.update(keys(&[KeyCode::W, KeyCode::Space, KeyCode::E]), FRAME);
    assert!(!m.is_action_active(&Action::MoveUp));
    assert!(!m.is_action_active(&Action::Jump));
    assert!(m.is_key_down(KeyCode::W));
    assert_eq!(m.get_movement_input(), Movement { x: 0, y: 0 });
}

#[test]
fn edges_never_go_both_ways_in_one_frame() {
    let mut m = InputManager::new();
    let frames: Vec<Vec<KeyCode>> = vec![
        vec![KeyCode::W],
        vec![KeyCode::D],
        vec![KeyCode::W, KeyCode::D],
        vec![],
        vec![KeyCode::Up],
        vec![KeyCode::W],
    ];
    let watched = [KeyCode::W, KeyCode::D, KeyCode::Up];
    let actions = [Action::MoveUp, Action::MoveRight];
    for f in &frames {
        m.update(keys(f), FRAME);
        for k in &watched {
            assert!(!(m.is_key_just_pressed(*k) && m.is_key_just_released(*k)));
        }
        for a in &actions {
            assert!(!(m.is_action_just_activated(a) && m.is_action_just_deactivated(a)));
        }
    }
}

#[test]
fn raw_key_edges_follow_the_snapshots() {
    let mut m = InputManager::new();
    m.update(keys(&[KeyCode::Key1, KeyCode::Tab]), FRAME);
    assert!(m.is_key_down(KeyCode::Key1));
    assert!(m.is_key_just_pressed(KeyCode::Key1));
    assert!(m.is_key_just_pressed(KeyCode::Tab));
    assert!(!m.is_key_just_released(KeyCode::Key1));
    m.update(keys(&[KeyCode::Key1]), FRAME);
    assert!(m.is_key_down(KeyCode::Key1));
    assert!(!m.is_key_just_pressed(KeyCode::Key1));
    assert!(m.is_key_just_released(KeyCode::Tab));
    assert!(!m.is_key_down(KeyCode::Tab));
    m.update(keys(&[]), FRAME);
    assert!(m.is_key_just_released(KeyCode::Key1));
    assert!(!m.is_key_down(KeyCode::Key1));
}

#[test]
fn mouse_button_edges_and_bindings() {
    let mut m = InputManager::new();
    m.update(buttons(&[MouseButton::Left]), FRAME);
    assert!(m.is_mouse_button_down(MouseButton::Left));
    assert!(m.is_mouse_button_just_pressed(MouseButton::Left));
    assert!(m.is_action_active(&Action::Attack));
    assert!(!m.is_action_active(&Action::Defend));
    m.update(buttons(&[MouseButton::Right, MouseButton::Middle]), FRAME);
    assert!(m.is_mouse_button_just_released(MouseButton::Left));
    assert!(m.is_mouse_button_just_pressed(MouseButton::Middle));
    assert!(m.is_action_active(&Action::Defend));
    assert!(m.is_action_just_deactivated(&Action::Attack));
}

#[test]
fn nothing_pressed_snapshot_releases_everything() {
    let mut m = InputManager::new();
    m.update(keys(&[KeyCode::W, KeyCode::Enter]), FRAME);
    m.update(FrameInput::new(), FRAME);
    assert!(!m.is_key_down(KeyCode::W));
    assert!(m.is_key_just_released(KeyCode::Enter));
    assert!(m.is_action_just_deactivated(&Action::MoveUp));
}

#[test]
fn default_bindings_are_installed() {
    let m = InputManager::default();
    let up = m.get_bindings(&Action::MoveUp).unwrap();
    assert_eq!(up.len(), 2);
    match &up[0] {
        InputBinding::Key(kb) => {
            assert_eq!(kb.key, KeyCode::W);
            assert!(kb.modifiers.is_empty());
        }
        InputBinding::Mouse(_) => panic!("expected a key binding"),
    }
    let attack = m.get_bindings(&Action::Attack).unwrap();
    match &attack[0] {
        InputBinding::Mouse(mb) => assert_eq!(mb.button, MouseButton::Left),
        InputBinding::Key(_) => panic!("expected a mouse binding"),
    }
    assert!(m.get_bindings(&Action::custom("sprint")).is_none());
    assert!(!m.is_action_active(&Action::MoveUp));
    assert!(!m.is_action_buffered(&Action::MoveUp));
}

#[test]
fn add_binding_appends_to_the_list() {
    let mut m = InputManager::new();
    m.add_binding(Action::Jump, InputBinding::key(KeyCode::K));
    assert_eq!(m.get_bindings(&Action::Jump).unwrap().len(), 2);
    m.update(keys(&[KeyCode::K]), FRAME);
    assert!(m.is_action_active(&Action::Jump));
    let fire = Action::custom("fire");
    m.add_binding(fire.clone(), InputBinding::mouse(MouseButton::Middle));
    assert_eq!(m.get_bindings(&fire).unwrap().len(), 1);
    m.update(buttons(&[MouseButton::Middle]), FRAME);
    assert!(m.is_action_active(&fire));
}

#[test]
fn custom_actions_compare_by_name() {
    assert_eq!(Action::custom("sprint"), Action::Custom("sprint".to_string()));
    assert_ne!(Action::custom("sprint"), Action::custom("walk"));
    assert_ne!(Action::Jump, Action::custom("Jump"));
    let mut m = InputManager::new();
    m.bind_action(Action::custom("dash"), vec![InputBinding::key(KeyCode::F)]);
    m.update(keys(&[KeyCode::F]), FRAME);
    assert!(m.is_action_active(&Action::Custom(String::from("dash"))));
}

#[test]
fn one_key_can_drive_several_actions() {
    let mut m = InputManager::new();
    m.bind_action(Action::custom("boost"), vec![InputBinding::key(KeyCode::Space)]);
    m.update(keys(&[KeyCode::Space]), FRAME);
    assert!(m.is_action_active(&Action::Jump));
    assert!(m.is_action_active(&Action::custom("boost")));
}

#[test]
fn binding_constructors() {
    let b = MouseBinding::new(MouseButton::Right);
    assert_eq!(b.button, MouseButton::Right);
    match InputBinding::key_with_modifier(KeyCode::C, KeyCode::LeftAlt) {
        InputBinding::Key(kb) => {
            assert_eq!(kb.key, KeyCode::C);
            assert_eq!(kb.modifiers, vec![KeyCode::LeftAlt]);
        }
        InputBinding::Mouse(_) => panic!("expected a key binding"),
    }
    assert!(matches!(InputBinding::mouse(MouseButton::Middle), InputBinding::Mouse(_)));
}

#[test]
fn key_indices_round_trip() {
    for i in 0..action_input::keys::KEY_COUNT {
        assert_eq!(KeyCode::from_index(i).index(), i);
    }
    for i in 0..action_input::keys::BUTTON_COUNT {
        assert_eq!(MouseButton::from_index(i).index(), i);
    }
    assert_eq!(KeyCode::A.index(), 0);
    assert_eq!(KeyCode::Right.index(), 50);
}

#[test]
fn frame_input_records_presses() {
    let mut f = FrameInput::new();
    assert!(!f.is_key_down(KeyCode::Z));
    f.press_key(KeyCode::Z);
    f.press_button(MouseButton::Right);
    assert!(f.is_key_down(KeyCode::Z));
    assert!(f.is_button_down(MouseButton::Right));
    assert!(!f.is_button_down(MouseButton::Left));
    let g = keys(&[KeyCode::Y]);
    let d = f.pressed_since(&g);
    assert!(d.is_key_down(KeyCode::Z));
    assert!(!d.is_key_down(KeyCode::Y));
    assert!(g.pressed_since(&f).is_key_down(KeyCode::Y));
}

#[test]
fn resolver_functions_on_plain_values() {
    let down = keys(&[KeyCode::S, KeyCode::LeftControl]);
    assert!(is_binding_active(&InputBinding::key_with_modifier(KeyCode::S, KeyCode::LeftControl), &down));
    assert!(!is_binding_active(&InputBinding::key_with_modifier(KeyCode::S, KeyCode::LeftAlt), &down));
    assert!(!is_binding_active(&InputBinding::mouse(MouseButton::Left), &down));
    let list = vec![InputBinding::key(KeyCode::Q), InputBinding::key(KeyCode::S)];
    assert!(any_binding_active(&list, &down));
    assert!(!any_binding_active(&vec![], &down));

    let now = vec![Action::Jump, Action::custom("sprint"), Action::Pause];
    let before = vec![Action::Pause, Action::Attack];
    let started = actions_since(&now, &before);
    assert_eq!(started, vec![Action::Jump, Action::custom("sprint")]);
    let stopped = actions_since(&before, &now);
    assert_eq!(stopped, vec![Action::Attack]);
    assert!(contains_action(&now, &Action::custom("sprint")));
    assert!(!contains_action(&now, &Action::custom("walk")));
}
