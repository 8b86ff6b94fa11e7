use narisha::config::{Config, KeyboardConfig};

#[test]
fn config_file_lies_under_home() {
    assert_eq!(Config::get_file("/home/ada"), "/home/ada/.config/river/narisha.toml");
}

#[test]
fn config_file_home_with_trailing_slash() {
    assert_eq!(Config::get_file("/home/ada/"), "/home/ada/.config/river/narisha.toml");
}

#[test]
fn config_file_empty_home_is_relative() {
    assert_eq!(Config::get_file(""), ".config/river/narisha.toml");
}

#[test]
fn parse_falls_back_to_no_keyboard() {
    assert_eq!(Config::parse(None), Config { keyboard: None });
}

#[test]
fn parse_keeps_loaded_config() {
    let c = Config {
        keyboard: Some(KeyboardConfig {
            layout: "fr".to_string(),
            variant: Some("bepo".to_string()),
            options: None,
            model: None,
            numlock: Some("on".to_string()),
        }),
    };
    assert_eq!(Config::parse(Some(c.clone())), c);
}
