use wirecube::{
    action_for, control_step, screen_clear, Action, ConfigError, Field, Key, Mode, ScreenClear,
    Settings,
};

#[test]
fn keys_map_to_actions() {
    assert_eq!(action_for(Key::W), Some(Action::PitchUp));
    assert_eq!(action_for(Key::Up), Some(Action::PitchUp));
    assert_eq!(action_for(Key::S), Some(Action::PitchDown));
    assert_eq!(action_for(Key::A), Some(Action::YawUp));
    assert_eq!(action_for(Key::Right), Some(Action::YawDown));
    assert_eq!(action_for(Key::Q), Some(Action::RollUp));
    assert_eq!(action_for(Key::E), Some(Action::RollDown));
    assert_eq!(action_for(Key::Z), Some(Action::FocalDown));
    assert_eq!(action_for(Key::X), Some(Action::FocalUp));
    assert_eq!(action_for(Key::R), Some(Action::Reset));
    assert_eq!(action_for(Key::Space), None);
    assert_eq!(action_for(Key::Other), None);
}

#[test]
fn steering_applies_keys_in_order() {
    let (mode, acts) = control_step(Mode::Steering, &vec![Key::W, Key::Other, Key::Z, Key::D]);
    assert_eq!(mode, Mode::Steering);
    assert_eq!(acts, vec![Action::PitchUp, Action::FocalDown, Action::YawDown]);
}

#[test]
fn no_keys_change_nothing() {
    let (mode, acts) = control_step(Mode::Steering, &vec![]);
    assert_eq!(mode, Mode::Steering);
    assert!(acts.is_empty());
}

#[test]
fn escape_exits_and_stops_reading_keys() {
    let (mode, acts) = control_step(Mode::Steering, &vec![Key::Q, Key::Escape, Key::E]);
    assert_eq!(mode, Mode::Exiting);
    assert_eq!(acts, vec![Action::RollUp]);
    let (mode, acts) = control_step(Mode::Exiting, &vec![Key::W]);
    assert_eq!(mode, Mode::Exiting);
    assert!(acts.is_empty());
}

#[test]
fn space_starts_and_holding_keeps_animation() {
    let (mode, acts) = control_step(Mode::Steering, &vec![Key::Space, Key::X]);
    assert_eq!(mode, Mode::Animating);
    assert_eq!(acts, vec![Action::FocalUp]);
    let (mode, acts) = control_step(Mode::Animating, &vec![Key::W, Key::Space]);
    assert_eq!(mode, Mode::Animating);
    assert_eq!(acts, vec![Action::PitchUp, Action::YawUp, Action::RollUp]);
    let (mode, acts) = control_step(Mode::Animating, &vec![Key::Escape]);
    assert_eq!(mode, Mode::Steering);
    assert_eq!(acts, vec![Action::PitchUp, Action::YawUp, Action::RollUp]);
}

fn defaults() -> (Option<i64>, Option<i64>, Option<bool>, Option<bool>, Option<i64>, Option<bool>) {
    (Some(25), Some(25), Some(false), Some(true), Some(60), Some(true))
}

#[test]
fn default_settings_are_accepted() {
    let (w, h, l, c, f, col) = defaults();
    let s = Settings::from_values(w, h, l, c, f, col).unwrap();
    assert_eq!(s.view_width, 25);
    assert_eq!(s.view_height, 25);
    assert!(!s.legacy_mode);
    assert!(s.clear_screen);
    assert_eq!(s.fps, 60);
    assert!(s.color);
    assert_eq!(s.frame_delay_ms(), 16);
}

#[test]
fn zero_fps_is_a_config_error() {
    let (w, h, l, c, _, col) = defaults();
    assert_eq!(
        Settings::from_values(w, h, l, c, Some(0), col),
        Err(ConfigError::Invalid(Field::Fps))
    );
    assert_eq!(
        Settings::from_values(w, h, l, c, Some(-5), col),
        Err(ConfigError::Invalid(Field::Fps))
    );
}

#[test]
fn missing_fields_are_config_errors() {
    let (w, h, l, c, f, col) = defaults();
    assert_eq!(
        Settings::from_values(None, h, l, c, f, col),
        Err(ConfigError::Missing(Field::ViewWidth))
    );
    assert_eq!(
        Settings::from_values(w, None, l, c, f, col),
        Err(ConfigError::Missing(Field::ViewHeight))
    );
    assert_eq!(
        Settings::from_values(w, h, None, c, f, col),
        Err(ConfigError::Missing(Field::LegacyMode))
    );
    assert_eq!(
        Settings::from_values(w, h, l, None, f, col),
        Err(ConfigError::Missing(Field::ClearScreen))
    );
    assert_eq!(
        Settings::from_values(w, h, l, c, None, col),
        Err(ConfigError::Missing(Field::Fps))
    );
    assert_eq!(
        Settings::from_values(w, h, l, c, f, None),
        Err(ConfigError::Missing(Field::Color))
    );
}

#[test]
fn view_sizes_out_of_range_are_config_errors() {
    let (w, h, l, c, f, col) = defaults();
    assert_eq!(
        Settings::from_values(Some(-1), h, l, c, f, col),
        Err(ConfigError::Invalid(Field::ViewWidth))
    );
    assert_eq!(
        Settings::from_values(Some(32769), h, l, c, f, col),
        Err(ConfigError::Invalid(Field::ViewWidth))
    );
    assert_eq!(
        Settings::from_values(w, Some(70000), l, c, f, col),
        Err(ConfigError::Invalid(Field::ViewHeight))
    );
    assert!(Settings::from_values(Some(0), Some(0), l, c, f, col).is_ok());
    let wide = Settings::from_values(Some(40000), Some(70000), Some(true), c, f, col).unwrap();
    assert_eq!(wide.view_width, 40000);
    assert_eq!(wide.view_height, 70000);
}

#[test]
fn frame_delay_examples() {
    let (w, h, l, c, _, col) = defaults();
    let one = Settings::from_values(w, h, l, c, Some(1), col).unwrap();
    assert_eq!(one.frame_delay_ms(), 1000);
    let fast = Settings::from_values(w, h, l, c, Some(3000), col).unwrap();
    assert_eq!(fast.frame_delay_ms(), 0);
}

#[test]
fn clearing_between_frames() {
    assert_eq!(screen_clear(true, true), ScreenClear::EscapeSequence);
    assert_eq!(screen_clear(false, true), ScreenClear::Terminal);
    assert_eq!(screen_clear(true, false), ScreenClear::Keep);
    assert_eq!(screen_clear(false, false), ScreenClear::Keep);
}

#[test]
fn field_keys() {
    assert_eq!(Field::Fps.key(), "FPS");
    assert_eq!(Field::ViewWidth.key(), "VIEW_WIDTH");
    assert_eq!(Field::FocalLength.key(), "FOCAL_LENGTH");
    assert_eq!(Field::ViewHeight.key(), "VIEW_HEIGHT");
    assert_eq!(Field::Width.key(), "WIDTH");
    assert_eq!(Field::Height.key(), "HEIGHT");
    assert_eq!(Field::Depth.key(), "DEPTH");
    assert_eq!(Field::RotateSpeed.key(), "ROTATE_SPEED");
    assert_eq!(Field::LegacyMode.key(), "LEGACY_MODE");
    assert_eq!(Field::ClearScreen.key(), "CLEAR_SCREEN");
    assert_eq!(Field::Color.key(), "COLOR");
}

#[test]
fn missing_key_reported_before_out_of_range_value() {
    assert_eq!(
        Settings::from_values(Some(-1), Some(25), Some(false), Some(true), Some(0), None),
        Err(ConfigError::Missing(Field::Color))
    );
}
