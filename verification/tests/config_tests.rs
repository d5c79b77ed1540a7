use ttrys::config::builder::Section;
use ttrys::config::Config;
use ttrys::game::GameMode;

#[test]
fn test_wizard_full_flow() {
    let mut builder = Config::builder();
    assert!(!builder.is_configured());
    assert_eq!(builder.current_section, Section::ChooseGameMode);

    builder.on_right();
    assert_eq!(builder.game_mode, GameMode::BType);
    builder.on_left();
    assert_eq!(builder.game_mode, GameMode::AType);

    builder.next_section();
    assert_eq!(builder.current_section, Section::ChooseInitialLevel);
    builder.on_right();
    builder.on_right();
    assert_eq!(builder.selected_level, 2);
    builder.on_left();
    assert_eq!(builder.selected_level, 1);

    // confirmation only works from the final screen
    builder.configured();
    assert!(!builder.is_configured());
    builder.next_section();
    assert_eq!(builder.current_section, Section::StartGame);
    builder.configured();
    assert!(builder.is_configured());

    let config = builder.build();
    assert_eq!(config.game_mode, GameMode::AType);
    assert_eq!(config.initial_level, 1);
}

#[test]
fn test_wizard_level_selection_wraps() {
    let mut builder = Config::builder();
    builder.next_section();
    builder.on_left();
    assert_eq!(builder.selected_level, 9);
    builder.on_right();
    assert_eq!(builder.selected_level, 0);
}

#[test]
fn test_wizard_sections_do_not_overrun() {
    let mut builder = Config::builder();
    builder.previous_section();
    assert_eq!(builder.current_section, Section::ChooseGameMode);
    builder.next_section();
    builder.next_section();
    builder.next_section();
    assert_eq!(builder.current_section, Section::StartGame);
}

#[test]
fn test_default_config() {
    let config = Config::default();
    assert_eq!(config.game_mode, GameMode::AType);
    assert_eq!(config.initial_level, 0);
}
