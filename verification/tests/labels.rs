use swaywsr::config::{get_option, xdg_config_home, Config};
use swaywsr::label::resolve;

fn icon_config() -> Config {
    let mut config = Config::default();
    config.set_icon("firefox", '🌐');
    config.set_icon("kitty", '⌨');
    config
}

#[test]
fn blank_config_keeps_the_class() {
    let config = Config::default();
    assert_eq!(resolve("firefox", &config), "firefox");
    assert_eq!(resolve("", &config), "");
    assert_eq!(resolve("Some App", &config), "Some App");
}

#[test]
fn icon_precedes_the_class() {
    let config = icon_config();
    assert_eq!(resolve("firefox", &config), "🌐 firefox");
    assert_eq!(resolve("kitty", &config), "⌨ kitty");
}

#[test]
fn icon_precedes_the_alias() {
    let mut config = icon_config();
    config.set_alias("firefox", "web");
    assert_eq!(resolve("firefox", &config), "🌐 web");
}

#[test]
fn icon_alone_without_names() {
    let mut config = icon_config();
    config.set_alias("firefox", "web");
    config.set_option("no_names", true);
    assert_eq!(resolve("firefox", &config), "🌐");
}

#[test]
fn alias_without_icon() {
    let mut config = Config::default();
    config.set_alias("org.mozilla.firefox", "ff");
    assert_eq!(resolve("org.mozilla.firefox", &config), "ff");
    assert_eq!(resolve("kitty", &config), "kitty");
}

#[test]
fn name_stays_without_icon_even_if_names_are_off() {
    let mut config = Config::default();
    config.set_alias("firefox", "web");
    config.set_option("no_names", true);
    assert_eq!(resolve("firefox", &config), "web");
    assert_eq!(resolve("kitty", &config), "kitty");
}

#[test]
fn default_icon_is_used_for_unknown_classes() {
    let mut config = icon_config();
    config.set_general("default_icon", "?");
    assert_eq!(resolve("mpv", &config), "? mpv");
    assert_eq!(resolve("firefox", &config), "🌐 firefox");
    config.set_option("no_names", true);
    assert_eq!(resolve("mpv", &config), "?");
    assert_eq!(resolve("firefox", &config), "🌐");
}

#[test]
fn no_names_set_to_false_shows_names() {
    let mut config = icon_config();
    config.set_option("no_names", false);
    assert_eq!(resolve("kitty", &config), "⌨ kitty");
}

#[test]
fn later_setting_replaces_earlier() {
    let mut config = Config::default();
    config.set_icon("kitty", 'a');
    config.set_icon("kitty", 'b');
    assert_eq!(resolve("kitty", &config), "b kitty");
}

#[test]
fn options_default_to_false() {
    let mut config = Config::default();
    assert!(!get_option(&config, "no_names"));
    assert!(!get_option(&config, "remove_duplicates"));
    config.set_option("no_names", true);
    assert!(get_option(&config, "no_names"));
    assert!(!get_option(&config, "remove_duplicates"));
    config.set_option("no_names", false);
    assert!(!get_option(&config, "no_names"));
}

#[test]
fn override_only_switches_on() {
    let mut config = Config::default();
    config.set_option("remove_duplicates", true);
    config.override_options(false, false);
    assert!(!get_option(&config, "no_names"));
    assert!(get_option(&config, "remove_duplicates"));
    config.override_options(true, false);
    assert!(get_option(&config, "no_names"));
    assert!(get_option(&config, "remove_duplicates"));
    let mut other = Config::default();
    other.override_options(false, true);
    assert!(!get_option(&other, "no_names"));
    assert!(get_option(&other, "remove_duplicates"));
}

#[test]
fn config_home_prefers_the_configured_directory() {
    assert_eq!(
        xdg_config_home(Some("/etc/xdg".to_string()), Some("/home/u".to_string())),
        "/etc/xdg"
    );
    assert_eq!(xdg_config_home(None, Some("/home/u".to_string())), "/home/u/.config");
    assert_eq!(xdg_config_home(None, None), "/.config");
}
