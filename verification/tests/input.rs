use rim::input::{key_binding, Binding, Key, KeyMod};
use rim::layout::LayoutDirection;
use rim::view::FilterMethod;

const PLAIN: KeyMod = KeyMod { ctrl: false, shift: false, only_ctrl: false };
const CTRL: KeyMod = KeyMod { ctrl: true, shift: false, only_ctrl: true };
const SHIFT: KeyMod = KeyMod { ctrl: false, shift: true, only_ctrl: false };
const CTRL_SHIFT: KeyMod = KeyMod { ctrl: true, shift: true, only_ctrl: false };

const ALL_KEYS: [Key; 20] = [
    Key::Up,
    Key::Down,
    Key::Left,
    Key::Right,
    Key::A,
    Key::H,
    Key::I,
    Key::J,
    Key::K,
    Key::L,
    Key::M,
    Key::N,
    Key::O,
    Key::P,
    Key::R,
    Key::V,
    Key::W,
    Key::F5,
    Key::LAlt,
    Key::Other,
];

#[test]
fn plain_letters_move_the_selection() {
    assert_eq!(key_binding(Key::I, PLAIN), Binding::MoveSelection(0, -1));
    assert_eq!(key_binding(Key::K, PLAIN), Binding::MoveSelection(0, 1));
    assert_eq!(key_binding(Key::J, PLAIN), Binding::MoveSelection(-1, 0));
    assert_eq!(key_binding(Key::L, PLAIN), Binding::MoveSelection(1, 0));
    assert_eq!(key_binding(Key::F5, PLAIN), Binding::Reload);
}

#[test]
fn plain_keys_without_a_command_are_unbound() {
    for key in ALL_KEYS {
        let bound = key_binding(key, PLAIN);
        match key {
            Key::I | Key::J | Key::K | Key::L | Key::F5 => assert_ne!(bound, Binding::Unbound),
            _ => assert_eq!(bound, Binding::Unbound),
        }
    }
}

#[test]
fn shifted_letters_move_the_tile() {
    assert_eq!(key_binding(Key::I, SHIFT), Binding::SwapSelection(0, -1));
    assert_eq!(key_binding(Key::K, SHIFT), Binding::SwapSelection(0, 1));
    assert_eq!(key_binding(Key::J, SHIFT), Binding::SwapSelection(-1, 0));
    assert_eq!(key_binding(Key::L, SHIFT), Binding::SwapSelection(1, 0));
    for key in ALL_KEYS {
        match key {
            Key::I | Key::J | Key::K | Key::L => {},
            _ => assert_eq!(key_binding(key, SHIFT), Binding::Unbound),
        }
    }
}

#[test]
fn control_arrows_move_the_selection() {
    assert_eq!(key_binding(Key::Up, CTRL), Binding::MoveSelection(0, -1));
    assert_eq!(key_binding(Key::Down, CTRL), Binding::MoveSelection(0, 1));
    assert_eq!(key_binding(Key::Left, CTRL), Binding::MoveSelection(-1, 0));
    assert_eq!(key_binding(Key::Right, CTRL), Binding::MoveSelection(1, 0));
}

#[test]
fn control_letters_are_commands() {
    assert_eq!(key_binding(Key::R, CTRL), Binding::Reload);
    assert_eq!(key_binding(Key::L, CTRL), Binding::Filter(FilterMethod::Linear));
    assert_eq!(key_binding(Key::N, CTRL), Binding::Filter(FilterMethod::Nearest));
    assert_eq!(key_binding(Key::H, CTRL), Binding::Direction(LayoutDirection::Horizontal));
    assert_eq!(key_binding(Key::V, CTRL), Binding::Direction(LayoutDirection::Vertical));
    assert_eq!(key_binding(Key::A, CTRL), Binding::AutoDirection);
    assert_eq!(key_binding(Key::W, CTRL), Binding::CloseView);
    assert_eq!(key_binding(Key::O, CTRL), Binding::OpenFile);
    assert_eq!(key_binding(Key::M, CTRL), Binding::ToggleMaximized);
    for key in [Key::I, Key::J, Key::K, Key::P, Key::F5, Key::LAlt, Key::Other] {
        assert_eq!(key_binding(key, CTRL), Binding::Unbound);
    }
}

#[test]
fn control_shift_arrows_move_the_tile() {
    assert_eq!(key_binding(Key::Up, CTRL_SHIFT), Binding::SwapSelection(0, -1));
    assert_eq!(key_binding(Key::Down, CTRL_SHIFT), Binding::SwapSelection(0, 1));
    assert_eq!(key_binding(Key::Left, CTRL_SHIFT), Binding::SwapSelection(-1, 0));
    assert_eq!(key_binding(Key::Right, CTRL_SHIFT), Binding::SwapSelection(1, 0));
    for key in ALL_KEYS {
        match key {
            Key::Up | Key::Down | Key::Left | Key::Right => {},
            _ => assert_eq!(key_binding(key, CTRL_SHIFT), Binding::Unbound),
        }
    }
}

#[test]
fn the_key_map_ignores_how_many_modifiers_are_held() {
    let ctrl_and_more = KeyMod { ctrl: true, shift: false, only_ctrl: false };
    for key in ALL_KEYS {
        assert_eq!(key_binding(key, ctrl_and_more), key_binding(key, CTRL));
    }
}

#[test]
fn every_step_of_the_key_map_is_a_unit_step() {
    for key in ALL_KEYS {
        for keymod in [PLAIN, CTRL, SHIFT, CTRL_SHIFT] {
            match key_binding(key, keymod) {
                Binding::MoveSelection(dx, dy) | Binding::SwapSelection(dx, dy) => {
                    assert_eq!(dx.abs() + dy.abs(), 1);
                },
                _ => {},
            }
        }
    }
}
