use cellfade::color::{color_policy, parse_color, Color, ColorPolicy};
use cellfade::config::{screen_col, Config};

#[test]
fn color_names_parse_case_insensitive() {
    assert_eq!(parse_color("red"), Some(Color::Red));
    assert_eq!(parse_color("RED"), Some(Color::Red));
    assert_eq!(parse_color("Green"), Some(Color::Green));
    assert_eq!(parse_color("blue"), Some(Color::Blue));
    assert_eq!(parse_color("yElLoW"), Some(Color::Yellow));
    assert_eq!(parse_color("magenta"), Some(Color::Magenta));
    assert_eq!(parse_color("CYAN"), Some(Color::Cyan));
    assert_eq!(parse_color("white"), Some(Color::White));
    assert_eq!(parse_color("Black"), Some(Color::Black));
}

#[test]
fn random_and_unknown_names_parse_to_none() {
    assert_eq!(parse_color("random"), None);
    assert_eq!(parse_color("RANDOM"), None);
    assert_eq!(parse_color("chartreuse"), None);
    assert_eq!(parse_color(""), None);
}

#[test]
fn policy_random_any_case() {
    assert_eq!(color_policy("random"), ColorPolicy::Random);
    assert_eq!(color_policy("RaNdOm"), ColorPolicy::Random);
}

#[test]
fn policy_fixed_for_recognized_names() {
    assert_eq!(color_policy("cyan"), ColorPolicy::Fixed(Color::Cyan));
    assert_eq!(color_policy("black"), ColorPolicy::Fixed(Color::Black));
}

#[test]
fn policy_unrecognized_name_falls_back_to_green() {
    assert_eq!(color_policy("sparkle"), ColorPolicy::Fixed(Color::Green));
    assert_eq!(color_policy(""), ColorPolicy::Fixed(Color::Green));
    assert_eq!(color_policy("greenish"), ColorPolicy::Fixed(Color::Green));
}

#[test]
fn config_new_builds_requested_settings() {
    let cfg = Config::new(16, 16, 10, 200, "green", false, 1).unwrap();
    assert_eq!(cfg.width, 16);
    assert_eq!(cfg.height, 16);
    assert_eq!(cfg.draw_delay, 10);
    assert_eq!(cfg.interval_delay, 200);
    assert_eq!(cfg.policy, ColorPolicy::Fixed(Color::Green));
    assert!(cfg.decay);
    assert_eq!(cfg.cycles, 1);
}

#[test]
fn config_new_rejects_oversized_grid() {
    assert!(Config::new(usize::MAX, 2, 10, 200, "green", false, 1).is_none());
    assert!(Config::new(usize::MAX / 2 + 1, 0, 10, 200, "green", false, 1).is_none());
}

#[test]
fn screen_col_doubles_the_grid_column() {
    let cfg = Config::new(16, 16, 10, 200, "green", false, 1).unwrap();
    assert_eq!(screen_col(&cfg, 0), 0);
    assert_eq!(screen_col(&cfg, 5), 10);
    assert_eq!(screen_col(&cfg, 15), 30);
}
