use hyprland_autoname_workspaces::config::{
    generate_exclude_config, generate_icon_config, generate_title_config,
};
use hyprland_autoname_workspaces::rule::Rule;

#[test]
fn test_generate_title_config() {
    let mut title_icons_map: Vec<(String, Vec<(String, String)>)> = Vec::new();
    let mut inner_map: Vec<(String, String)> = Vec::new();
    inner_map.push(("Title1".to_string(), "Icon1".to_string()));
    title_icons_map.push(("Class1".to_string(), inner_map));

    let title_config = generate_title_config(title_icons_map);

    assert_eq!(title_config.len(), 1);
    assert!(title_config[0].0.is_match("Class1"));
    assert_eq!(title_config[0].1.len(), 1);
    assert!(title_config[0].1[0].0.is_match("Title1"));
    assert_eq!(title_config[0].1[0].1, "Icon1");
}

#[test]
fn test_generate_icon_config() {
    let mut icons_map: Vec<(String, String)> = Vec::new();
    icons_map.push(("Class1".to_string(), "Icon1".to_string()));

    let icons_config = generate_icon_config(icons_map);

    assert_eq!(icons_config.len(), 1);
    assert!(icons_config[0].0.is_match("Class1"));
    assert_eq!(icons_config[0].1, "Icon1");
}

#[test]
fn test_generate_exclude_config() {
    let mut exclude_map: Vec<(String, String)> = Vec::new();
    exclude_map.push(("Class1".to_string(), "Title1".to_string()));

    let exclude_config = generate_exclude_config(exclude_map);

    assert_eq!(exclude_config.len(), 1);
    assert!(exclude_config[0].0.is_match("Class1"));
    assert!(exclude_config[0].1.is_match("Title1"));
}

#[test]
fn test_regex_with_error_logging() {
    let valid_pattern = "Class1";
    let invalid_pattern = "Class1[";

    assert!(Rule::new(valid_pattern).is_some());
    assert!(Rule::new(invalid_pattern).is_none());
}
