use mychip8::chip8::keymap::{KeyMap, HOST_KEY_ESCAPE};
use mychip8::manager::{interpret, HostEvent, ManagerEvent};

#[test]
fn keymap_follows_the_layout() {
    let keymap = KeyMap::new();
    let rows: [(&str, [u8; 4]); 4] = [
        ("1234", [0x1, 0x2, 0x3, 0xC]),
        ("qwer", [0x4, 0x5, 0x6, 0xD]),
        ("asdf", [0x7, 0x8, 0x9, 0xE]),
        ("zxcv", [0xA, 0x0, 0xB, 0xF]),
    ];
    for (host, keys) in rows {
        for (c, key) in host.chars().zip(keys) {
            assert_eq!(keymap.keycode(c as i32), Some(key));
        }
    }
}

#[test]
fn keymap_maps_sixteen_host_keys() {
    let keymap = KeyMap::default();
    let mut keys: Vec<u8> = (-1000..1000).filter_map(|code| keymap.keycode(code)).collect();
    keys.sort();
    assert_eq!(keys, (0..16).collect::<Vec<u8>>());
}

#[test]
fn keymap_knows_no_other_key() {
    let keymap = KeyMap::new();
    assert_eq!(keymap.keycode('5' as i32), None);
    assert_eq!(keymap.keycode('0' as i32), None);
    assert_eq!(keymap.keycode('Q' as i32), None);
    assert_eq!(keymap.keycode(HOST_KEY_ESCAPE), None);
    assert_eq!(keymap.keycode(0), None);
    assert_eq!(keymap.keycode(-1), None);
    assert_eq!(keymap.keycode(i32::MAX), None);
    assert_eq!(keymap.keycode(i32::MIN), None);
}

#[test]
fn closing_the_window_ends_the_run() {
    assert_eq!(interpret(HostEvent::Quit, &KeyMap::new()), ManagerEvent::Quit);
}

#[test]
fn pressing_escape_ends_the_run() {
    let event = HostEvent::KeyDown { keycode: Some(HOST_KEY_ESCAPE) };
    assert_eq!(interpret(event, &KeyMap::new()), ManagerEvent::Quit);
}

#[test]
fn letting_go_of_escape_means_nothing() {
    let event = HostEvent::KeyUp { keycode: Some(HOST_KEY_ESCAPE) };
    assert_eq!(interpret(event, &KeyMap::new()), ManagerEvent::Nothing);
}

#[test]
fn a_mapped_key_goes_down_and_up() {
    let keymap = KeyMap::new();
    let down = HostEvent::KeyDown { keycode: Some('w' as i32) };
    let up = HostEvent::KeyUp { keycode: Some('w' as i32) };
    assert_eq!(interpret(down, &keymap), ManagerEvent::KeyDown(0x5));
    assert_eq!(interpret(up, &keymap), ManagerEvent::KeyUp(0x5));
    let down = HostEvent::KeyDown { keycode: Some('x' as i32) };
    assert_eq!(interpret(down, &keymap), ManagerEvent::KeyDown(0x0));
    let up = HostEvent::KeyUp { keycode: Some('v' as i32) };
    assert_eq!(interpret(up, &keymap), ManagerEvent::KeyUp(0xF));
}

#[test]
fn an_unmapped_key_means_nothing() {
    let keymap = KeyMap::new();
    let down = HostEvent::KeyDown { keycode: Some('p' as i32) };
    let up = HostEvent::KeyUp { keycode: Some('p' as i32) };
    assert_eq!(interpret(down, &keymap), ManagerEvent::Nothing);
    assert_eq!(interpret(up, &keymap), ManagerEvent::Nothing);
}

#[test]
fn a_key_without_a_code_means_nothing() {
    let keymap = KeyMap::new();
    assert_eq!(interpret(HostEvent::KeyDown { keycode: None }, &keymap), ManagerEvent::Nothing);
    assert_eq!(interpret(HostEvent::KeyUp { keycode: None }, &keymap), ManagerEvent::Nothing);
}

#[test]
fn any_other_event_means_nothing() {
    assert_eq!(interpret(HostEvent::Other, &KeyMap::new()), ManagerEvent::Nothing);
}
