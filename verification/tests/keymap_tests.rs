use chip8emu::keymap::{key_to_btn, HostKey};

#[test]
fn keypad_layout() {
    assert_eq!(key_to_btn(HostKey::Char('w')), Some(0x1));
    assert_eq!(key_to_btn(HostKey::Char('s')), Some(0x4));
    assert_eq!(key_to_btn(HostKey::Up), Some(0xC));
    assert_eq!(key_to_btn(HostKey::Down), Some(0xD));
    assert_eq!(key_to_btn(HostKey::Char('0')), Some(0x0));
    assert_eq!(key_to_btn(HostKey::Char('7')), Some(0x7));
    assert_eq!(key_to_btn(HostKey::Char('a')), Some(0xA));
    assert_eq!(key_to_btn(HostKey::Char('f')), Some(0xF));
}

#[test]
fn unmapped_keys() {
    assert_eq!(key_to_btn(HostKey::Char('g')), None);
    assert_eq!(key_to_btn(HostKey::Char('x')), None);
    assert_eq!(key_to_btn(HostKey::Char('W')), None);
    assert_eq!(key_to_btn(HostKey::Other), None);
}
