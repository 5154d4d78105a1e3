use tilecap::paths::{config_path, default_config_path, default_output_dir, join_path, output_file_path, Config};

#[test]
fn join_semantics() {
    assert_eq!(join_path("/home/u", "x"), "/home/u/x");
    assert_eq!(join_path("/home/u/", "x"), "/home/u/x");
    assert_eq!(join_path("", "x"), "x");
    assert_eq!(join_path("/home/u", "/abs"), "/abs");
}

#[test]
fn default_locations() {
    assert_eq!(default_output_dir(Some("/home/u")), "/home/u/Pictures/Screenshots");
    assert_eq!(default_output_dir(None), "/tmp/Pictures/Screenshots");
    assert_eq!(default_config_path(Some("/xdg"), Some("/home/u")), "/xdg/tilecap/config.toml");
    assert_eq!(default_config_path(None, Some("/home/u")), "/home/u/.config/tilecap/config.toml");
    assert_eq!(default_config_path(None, None), "/tmp/.config/tilecap/config.toml");
    assert_eq!(config_path(Some("/cfg/t.toml"), Some("/xdg"), None), "/cfg/t.toml");
    assert_eq!(config_path(None, Some("/xdg"), None), "/xdg/tilecap/config.toml");
    assert_eq!(Config::with_home(Some("/h")).output_dir, "/h/Pictures/Screenshots");
}

#[test]
fn output_files() {
    assert_eq!(output_file_path("/tmp", "myshot"), "/tmp/myshot.png");
    assert_eq!(output_file_path("/tmp/", "a"), "/tmp/a.png");
    assert_eq!(output_file_path("/tmp", "/elsewhere/b"), "/elsewhere/b.png");
}
