use mychip8::chip8::settings::Settings;

#[test]
fn default_settings() {
    let settings = Settings::new();
    assert_eq!(settings.cpu_freq, 700);
    assert_eq!(settings.delay_timer_freq, 60);
    assert_eq!(settings.sound_timer_freq, 60);
    assert!(!settings.increment_i_register);
    assert!(settings.shift_vx_ignore_vy);
    assert!(!settings.set_vf_when_overflow);
    assert!(!settings.mute);
    assert!(!settings.vertical_wrap);
}

#[test]
fn settings_can_be_set_one_by_one() {
    let settings = Settings {
        vertical_wrap: true,
        mute: true,
        ..Settings::new()
    };
    assert!(settings.vertical_wrap);
    assert!(settings.mute);
    assert_eq!(settings.cpu_freq, 700);
    assert_ne!(settings, Settings::new());
}
