use hyprland_autoname_workspaces::config::{
    default_class, read_config_file, Config, ConfigFileRaw, ConfigFormatRaw,
};
use hyprland_autoname_workspaces::params::Args;
use hyprland_autoname_workspaces::renamer::formatter::{
    formatter, generate_counted_clients, to_superscript, AppWorkspace, FormatVars,
};
use hyprland_autoname_workspaces::renamer::icon::IconConfig;
use hyprland_autoname_workspaces::renamer::icon::IconStatus::{Active, Inactive};
use hyprland_autoname_workspaces::renamer::{
    filter_clients, workspace_name, AppClient, ClientInfo, InvalidWorkspaceId, Renamer,
    WorkspaceKind,
};
use hyprland_autoname_workspaces::rule::Rule;
use hyprland_autoname_workspaces::text::{
    i32_to_string, i32_to_string_pad2, parse_i32, replace, trim,
};

fn args() -> Args {
    Args {
        verbose: false,
        debug: false,
        config: None,
        dump: false,
    }
}

fn renamer_with(config: &hyprland_autoname_workspaces::config::ConfigFile) -> Renamer {
    Renamer::new(
        Config {
            cfg_path: None,
            config: config.clone(),
        },
        args(),
    )
}

fn vars(entries: &[(&str, &str)]) -> FormatVars {
    let mut v = FormatVars::new();
    for (k, val) in entries {
        v.insert(k.to_string(), val.to_string());
    }
    v
}

fn client(class: &str, title: &str, active: bool, fullscreen: bool, rule: &str) -> AppClient {
    AppClient {
        initial_class: class.to_string(),
        class: class.to_string(),
        initial_title: title.to_string(),
        title: title.to_string(),
        is_active: active,
        is_fullscreen: fullscreen,
        is_dedup_inactive_fullscreen: false,
        matched_rule: Inactive(IconConfig::Class(rule.to_string(), "icon".to_string())),
    }
}

fn info(address: &str, workspace_id: i32, class: &str, title: &str) -> ClientInfo {
    ClientInfo {
        address: address.to_string(),
        workspace_id,
        initial_class: class.to_string(),
        class: class.to_string(),
        initial_title: title.to_string(),
        title: title.to_string(),
        fullscreen: false,
    }
}

#[test]
fn decimal_notation_of_integers() {
    assert_eq!(i32_to_string(0), "0");
    assert_eq!(i32_to_string(1234), "1234");
    assert_eq!(i32_to_string(-56), "-56");
    assert_eq!(i32_to_string(i32::MIN), "-2147483648");
    assert_eq!(i32_to_string_pad2(5), "05");
    assert_eq!(i32_to_string_pad2(0), "00");
    assert_eq!(i32_to_string_pad2(12), "12");
    assert_eq!(i32_to_string_pad2(-5), "-5");
}

#[test]
fn superscript_digits() {
    assert_eq!(to_superscript(0), "\u{2070}");
    assert_eq!(to_superscript(42), "\u{2074}\u{b2}");
    assert_eq!(to_superscript(1234567890), "¹²³⁴⁵⁶⁷⁸⁹⁰");
}

#[test]
fn parsing_integers_like_std() {
    assert_eq!(parse_i32("12"), Some(12));
    assert_eq!(parse_i32("-3"), Some(-3));
    assert_eq!(parse_i32("+7"), Some(7));
    assert_eq!(parse_i32("007"), Some(7));
    assert_eq!(parse_i32("2147483647"), Some(i32::MAX));
    assert_eq!(parse_i32("-2147483648"), Some(i32::MIN));
    assert_eq!(parse_i32("2147483648"), None);
    assert_eq!(parse_i32("99999999999999"), None);
    assert_eq!(parse_i32(""), None);
    assert_eq!(parse_i32("-"), None);
    assert_eq!(parse_i32("1a"), None);
    assert_eq!(parse_i32(" 1"), None);
    for s in ["0", "-0", "+12", "-98", "abc", "4294967296"] {
        assert_eq!(parse_i32(s), s.parse::<i32>().ok());
    }
}

#[test]
fn parsing_reads_back_decimal_notation() {
    for n in [0, 7, 10, -1, -45, 123456, i32::MAX, i32::MIN] {
        assert_eq!(parse_i32(&i32_to_string(n)), Some(n));
    }
}

#[test]
fn trimming_white_space() {
    assert_eq!(trim("  a b \t\n"), "a b");
    assert_eq!(trim("\u{3000}x\u{a0}"), "x");
    assert_eq!(trim("   "), "");
    assert_eq!(trim(""), "");
    for s in [" 1: term ", "\u{2003}id\u{85}", "none"] {
        assert_eq!(trim(s), s.trim());
    }
}

#[test]
fn replacing_a_pattern() {
    assert_eq!(replace("*{icon}*", "{icon}", "{default_icon}"), "*{default_icon}*");
    assert_eq!(replace("{icon}{icon}", "{icon}", "x"), "xx");
    assert_eq!(replace("aaa", "aa", "b"), "ba");
    assert_eq!(replace("none", "{icon}", "x"), "none");
}

#[test]
fn formatter_without_braces_is_unchanged() {
    let v = vars(&[("icon", "term")]);
    assert_eq!(formatter("plain text", &v), "plain text");
    assert_eq!(formatter("only { opening", &v), "only { opening");
}

#[test]
fn formatter_substitutes_nested_values() {
    let v = vars(&[("icon", "{class}!"), ("class", "kitty")]);
    assert_eq!(formatter("[{icon}]", &v), "[kitty!]");
}

#[test]
fn formatter_keeps_text_on_unknown_key() {
    let v = vars(&[("icon", "term")]);
    assert_eq!(formatter("{icon} {unknown}", &v), "{icon} {unknown}");
}

#[test]
fn formatter_stops_after_four_rounds() {
    let v = vars(&[("a", "x{a}")]);
    assert_eq!(formatter("{a}", &v), "xxxx{a}");
}

#[test]
fn format_vars_later_value_wins() {
    let mut v = FormatVars::new();
    v.insert("icon".to_string(), "old".to_string());
    v.insert("icon".to_string(), "new".to_string());
    assert_eq!(formatter("{icon}", &v), "new");
}

#[test]
fn counting_without_dedup_keeps_order() {
    let clients = vec![
        client("a", "x", false, false, "a"),
        client("a", "x", false, false, "a"),
        client("b", "y", true, false, "b"),
    ];
    let counted = generate_counted_clients(clients, false);
    assert_eq!(counted.len(), 3);
    assert!(counted.iter().all(|(_, n)| *n == 1));
    assert_eq!(counted[2].0.class, "b");
}

#[test]
fn counting_with_dedup_groups_and_orders() {
    let clients = vec![
        client("a", "x", false, false, "a"),
        client("b", "y", false, true, "b"),
        client("a", "z", false, false, "a"),
        client("c", "w", true, false, "c"),
        client("b", "v", false, true, "b"),
    ];
    let counted = generate_counted_clients(clients, true);
    let summary: Vec<(String, i32)> = counted.iter().map(|(c, n)| (c.class.clone(), *n)).collect();
    assert_eq!(
        summary,
        vec![
            ("c".to_string(), 1),
            ("b".to_string(), 2),
            ("a".to_string(), 2)
        ]
    );
    let total: i32 = counted.iter().map(|(_, n)| *n).sum();
    assert_eq!(total, 5);
}

#[test]
fn same_client_is_reflexive_and_fullscreen_flag_is_one_sided() {
    let a = client("a", "x", false, false, "a");
    assert!(a == a.clone());
    let mut merging = client("a", "x", false, true, "a");
    merging.is_dedup_inactive_fullscreen = true;
    let plain = client("a", "x", false, false, "a");
    assert!(merging == plain);
    assert!(plain != merging);
}

#[test]
fn rule_keeps_its_pattern_and_reports_captures() {
    let rule = Rule::new("(i)(t+)").unwrap();
    assert_eq!(rule.pattern(), "(i)(t+)");
    assert!(rule.is_match("kitty"));
    assert!(!rule.is_match("alacr"));
    assert_eq!(
        rule.captures("kitty"),
        Some(vec!["itt".to_string(), "i".to_string(), "tt".to_string()])
    );
    assert_eq!(rule.captures("none"), None);
    let optional = Rule::new("(a)?b").unwrap();
    assert_eq!(
        optional.captures("b"),
        Some(vec!["b".to_string(), "".to_string()])
    );
}

#[test]
fn title_rule_records_captures() {
    let mut config = read_config_file(None);
    config.title_in_class.push((
        Rule::new("kitty").unwrap(),
        vec![(Rule::new("(?i)(vim)").unwrap(), "editor".to_string())],
    ));
    let renamer = renamer_with(&config);
    let status = renamer.parse_icon(
        "kitty".to_string(),
        "kitty".to_string(),
        "zsh".to_string(),
        "nvim: main.rs".to_string(),
        false,
        &config,
    );
    assert_eq!(status.icon(), "editor");
    assert_eq!(status.rule(), "(?i)(vim)");
    assert_eq!(
        status.captures(),
        Some(vec!["vim".to_string(), "vim".to_string()])
    );
    assert!(matches!(status, Inactive(IconConfig::TitleInClass(_, _, _))));
}

#[test]
fn unmatched_window_without_default_gets_no_icon() {
    let mut raw = ConfigFileRaw::empty_file();
    raw.class = vec![];
    let config = read_config_file(Some(raw));
    let renamer = renamer_with(&config);
    let inactive = renamer.parse_icon(
        "x".to_string(),
        "x".to_string(),
        "".to_string(),
        "".to_string(),
        false,
        &config,
    );
    assert!(inactive == Inactive(IconConfig::Default("no icon".to_string())));
    assert_eq!(inactive.rule(), "DEFAULT");
    let active = renamer.parse_icon(
        "x".to_string(),
        "x".to_string(),
        "".to_string(),
        "".to_string(),
        true,
        &config,
    );
    assert!(active == Active(IconConfig::Default("no icon".to_string())));
}

#[test]
fn unfocused_window_never_gets_active_rule() {
    let mut config = read_config_file(None);
    config
        .class_active
        .push((Rule::new("kitty").unwrap(), "ACTIVE".to_string()));
    let renamer = renamer_with(&config);
    let status = renamer.parse_icon(
        "kitty".to_string(),
        "kitty".to_string(),
        "".to_string(),
        "".to_string(),
        false,
        &config,
    );
    assert!(matches!(status, Inactive(_)));
}

#[test]
fn invalid_patterns_are_left_out() {
    let mut raw = ConfigFileRaw::default();
    raw.class = vec![
        ("ok".to_string(), "1".to_string()),
        ("bad[".to_string(), "2".to_string()),
        ("fine".to_string(), "3".to_string()),
    ];
    raw.exclude = vec![
        ("good".to_string(), "bad(".to_string()),
        ("good".to_string(), "^$".to_string()),
    ];
    raw.title_in_class = vec![(
        "kitty".to_string(),
        vec![
            ("(".to_string(), "x".to_string()),
            ("vim".to_string(), "y".to_string()),
        ],
    )];
    let config = read_config_file(Some(raw));
    let patterns: Vec<String> = config.class.iter().map(|(r, _)| r.pattern()).collect();
    assert_eq!(patterns, vec!["ok".to_string(), "fine".to_string()]);
    assert_eq!(config.exclude.len(), 1);
    assert_eq!(config.title_in_class[0].1.len(), 1);
    assert_eq!(config.title_in_class[0].1[0].1, "y");
}

#[test]
fn defaults_of_an_empty_file() {
    let format = ConfigFormatRaw::default();
    assert!(!format.dedup);
    assert_eq!(format.delim, " ");
    assert_eq!(format.workspace, "{id}:{delim}{clients}");
    assert_eq!(format.workspace_empty, "{id}");
    assert_eq!(format.client, "{icon}");
    assert_eq!(format.client_active, "*{icon}*");
    assert_eq!(format.client_dup, "{icon}{counter_sup}");
    let class = default_class();
    assert_eq!(class, vec![("DEFAULT".to_string(), "\u{f059} {class}".to_string())]);
    assert_eq!(ConfigFileRaw::default().class.len(), 0);
    assert_eq!(read_config_file(None).class.len(), 1);
}

#[test]
fn workspace_names() {
    let format = ConfigFormatRaw::default();
    assert_eq!(workspace_name(1, "term web", &format), "1: term web");
    assert_eq!(workspace_name(3, "", &format), "3");
    let mut long = ConfigFormatRaw::default();
    long.workspace = "{id_long} {clients}".to_string();
    assert_eq!(workspace_name(7, "x", &long), "07 x");
    assert_eq!(workspace_name(-98, "x", &long), "-98 x");
}

#[test]
fn filtering_windows() {
    let mut raw = ConfigFileRaw::empty_file();
    raw.exclude = vec![("(?i)steam".to_string(), "^$".to_string())];
    let config = read_config_file(Some(raw));
    let clients = vec![
        info("0x1", 1, "kitty", "zsh"),
        info("0x2", 1, "", "no class"),
        info("0x3", 2, "Steam", ""),
        info("0x4", 2, "Steam", "Store"),
    ];
    let kept: Vec<String> = filter_clients(clients, &config)
        .into_iter()
        .map(|c| c.address)
        .collect();
    assert_eq!(kept, vec!["0x1".to_string(), "0x4".to_string()]);
}

#[test]
fn renaming_tracks_and_clears_workspaces() {
    let mut config = read_config_file(None);
    config
        .class
        .push((Rule::new("kitty").unwrap(), "term".to_string()));
    let mut renamer = renamer_with(&config);
    let renames = renamer.rename_workspace(
        vec![
            info("0x1", 2, "kitty", "zsh"),
            info("0x2", 5, "kitty", "vim"),
            info("0x3", 2, "kitty", "top"),
        ],
        "0x2".to_string(),
        Some((9, 0)),
    );
    assert_eq!(
        renames,
        vec![
            (9, "9".to_string()),
            (2, "2: term term".to_string()),
            (5, "5: *term*".to_string())
        ]
    );
    let mut known = renamer.known_workspaces();
    known.sort();
    assert_eq!(known, vec![2, 5]);

    let mut renames =
        renamer.rename_workspace(vec![info("0x1", 5, "kitty", "zsh")], "0x9".to_string(), None);
    renames.sort();
    assert_eq!(renames, vec![(2, "2".to_string()), (5, "5: term".to_string())]);

    assert_eq!(renamer.remove_workspace(WorkspaceKind::Regular("2".to_string())), Ok(true));
    assert_eq!(renamer.remove_workspace(WorkspaceKind::Regular("2".to_string())), Ok(false));
    assert_eq!(
        renamer.remove_workspace(WorkspaceKind::Regular("scratch".to_string())),
        Err(InvalidWorkspaceId)
    );
    assert_eq!(renamer.remove_workspace(WorkspaceKind::Special(None)), Ok(false));
    assert_eq!(renamer.known_workspaces(), vec![5]);

    let cleared = renamer.reset_workspaces(&config);
    assert_eq!(cleared, vec![(5, "5".to_string())]);
}

#[test]
fn reset_clears_every_renamed_workspace() {
    let config = read_config_file(None);
    let mut renamer = renamer_with(&config);
    let renames = renamer.rename_workspace(
        vec![info("0x1", 3, "foot", "a"), info("0x2", 1, "foot", "b"), info("0x3", 3, "foot", "c")],
        "0x0".to_string(),
        None,
    );
    let renamed: Vec<i32> = renames.iter().map(|r| r.0).collect();
    let mut cleared: Vec<i32> = renamer.reset_workspaces(&config).iter().map(|r| r.0).collect();
    assert_eq!(renamed, vec![3, 1]);
    cleared.sort();
    assert_eq!(cleared, vec![1, 3]);
}

#[test]
fn workspaces_from_clients_group_by_workspace() {
    let config = read_config_file(None);
    let mut renamer = renamer_with(&config);
    let workspaces = renamer.get_workspaces_from_clients(
        vec![info("0x1", 4, "kitty", "a"), info("0x2", 1, "foot", "b"), info("0x3", 4, "x", "c")],
        "0x3".to_string(),
        &config,
    );
    let ids: Vec<i32> = workspaces.iter().map(|w| w.id).collect();
    assert_eq!(ids, vec![4, 1]);
    assert_eq!(workspaces[0].clients.len(), 2);
    assert!(workspaces[0].clients[1].is_active);
    assert!(!workspaces[0].clients[0].is_active);
    let texts = renamer.generate_workspaces_string(workspaces, &config);
    assert_eq!(texts[&1], "\u{f059} foot");
    assert_eq!(texts[&4], "\u{f059} kitty \u{f059} x");
}

#[test]
fn reloaded_config_replaces_the_old_one() {
    let config = read_config_file(None);
    let mut renamer = renamer_with(&config);
    let mut next = read_config_file(None);
    next.format.delim = "|".to_string();
    renamer.update_config(next);
    assert_eq!(renamer.config().config.format.delim, "|");
    assert!(renamer.config().cfg_path.is_none());
    assert!(!renamer.args().verbose);
}

#[test]
fn empty_workspace_list_gives_empty_map() {
    let config = read_config_file(None);
    let renamer = renamer_with(&config);
    assert!(renamer.generate_workspaces_string(vec![], &config).is_empty());
    let ws = AppWorkspace::new(3, vec![]);
    let texts = renamer.generate_workspaces_string(vec![ws], &config);
    assert_eq!(texts[&3], "");
}
