use std::collections::HashSet;

use galaxyofdreams::astronauts::{authorized, status_change, StatusChange};
use galaxyofdreams::commands::{Command, Commands, CommandsConfig, CommandType};
use galaxyofdreams::config::Config;
use galaxyofdreams::display::{MaybeDisplay, OptDisplay};
use galaxyofdreams::filter::Filter;
use galaxyofdreams::handler::Chain;
use galaxyofdreams::joined::{Joined, JoinedConfig, ReadableDuration};
use galaxyofdreams::link_only::{has_link, LinkOnly, LinkOnlyConfig};
use galaxyofdreams::role_assign::{PartialEmoji, RoleAssignButton, RoleAssignConfig, RoleAssignMessage};
use galaxyofdreams::storage::StorageKind;
use galaxyofdreams::text::{contains_sub, parse_u64, replace_all, str_eq, strip_prefix, u64_to_string};

fn test_config() -> Config {
    Config {
        discord_api_token: "token".to_string(),
        guild_id: 1,
        http_port: None,
        http_ext_host: "example.org".to_string(),
        http_ext_port: None,
        http_ext_secure: None,
        db_uri: "sqlite://db".to_string(),
        module_config_dir: None,
    }
}

#[test]
fn http_port_defaults_to_80() {
    let mut c = test_config();
    assert_eq!(c.http_port(), 80);
    c.http_port = Some(8080);
    assert_eq!(c.http_port(), 8080);
}

#[test]
fn http_ext_url_assembly() {
    let mut c = test_config();
    assert_eq!(c.http_ext_url(), "http://example.org");
    c.http_port = Some(8080);
    assert_eq!(c.http_ext_url(), "http://example.org:8080");
    c.http_ext_port = Some(443);
    c.http_ext_secure = Some(true);
    assert_eq!(c.http_ext_url(), "https://example.org:443");
}

#[test]
fn module_config_dir_passthrough() {
    let mut c = test_config();
    assert!(c.module_config_dir(true).is_none());
    c.module_config_dir = Some("/etc/modules".to_string());
    assert_eq!(c.module_config_dir(true).unwrap().as_str(), "/etc/modules");
    // A configured directory that is not on disk is not handed out.
    assert!(c.module_config_dir(false).is_none());
}

#[test]
fn storage_kind_predicates() {
    assert!(StorageKind::Sqlite.is_sqlite());
    assert!(!StorageKind::Sqlite.is_postgres());
    assert!(StorageKind::Postgres.is_postgres());
    assert!(!StorageKind::Postgres.is_sqlite());
}

#[test]
fn commands_channel_lists() {
    let mut cfg = CommandsConfig::default();
    assert!(!cfg.enabled);
    // Default: a whitelist; nothing is allowed while it is empty.
    assert!(cfg.is_whitelist());
    assert!(!cfg.allowed(5));
    cfg.channels.insert(5);
    assert!(cfg.allowed(5));
    assert!(!cfg.allowed(6));
    // As a blacklist, membership forbids.
    cfg.whitelist = Some(false);
    assert!(!cfg.allowed(5));
    assert!(cfg.allowed(6));
}

#[test]
fn command_global_list_default() {
    let mut cmd = Command {
        use_global_list: None,
        whitelist: None,
        channels: HashSet::new(),
        command_type: CommandType::Text("hi".to_string()),
        description: "d".to_string(),
    };
    // No channel list of its own: defer to the module-wide list.
    assert!(cmd.use_global_list());
    cmd.channels.insert(9);
    assert!(!cmd.use_global_list());
    cmd.use_global_list = Some(true);
    assert!(cmd.use_global_list());
    assert!(cmd.allowed(9));
    assert!(!cmd.allowed(10));
}

#[test]
fn commands_start_empty() {
    let c = Commands::new();
    assert!(!c.config.enabled);
    assert!(c.last.is_empty());
}

#[test]
fn joined_channel_lists() {
    let j = Joined::new();
    assert!(!j.config.enabled);
    assert!(j.last.is_none());
    let mut cfg = JoinedConfig::default();
    assert!(cfg.is_whitelist());
    cfg.channels.insert(3);
    assert!(cfg.allowed(3));
    assert!(!cfg.allowed(4));
}

#[test]
fn link_detection() {
    assert!(has_link("see https://example.org/x"));
    assert!(has_link("http://example.org"));
    assert!(!has_link("no link here"));
    assert!(!has_link("almost https:/ but not quite"));
}

#[test]
fn link_only_decision() {
    let mut lo = LinkOnly::new();
    lo.config = LinkOnlyConfig::default();
    lo.config.channels.insert(7);
    // Plain message in a link-only channel: delete.
    assert!(lo.should_delete(7, "hello", false, false, None, None));
    // Other channel: keep.
    assert!(!lo.should_delete(8, "hello", false, false, None, None));
    // Message with a link: keep.
    assert!(!lo.should_delete(7, "see https://a.b", false, false, None, None));
    // Bots and system messages: keep.
    assert!(!lo.should_delete(7, "hello", true, false, None, None));
    assert!(!lo.should_delete(7, "hello", false, true, None, None));
    // A member at or above the bypass role keeps the message.
    assert!(!lo.should_delete(7, "hello", false, false, Some(10), Some(5)));
    assert!(lo.should_delete(7, "hello", false, false, Some(3), Some(5)));
}

#[test]
fn astronaut_authorization() {
    let secret = "opensesame".to_string();
    assert!(authorized(Some(&"Secret opensesame".to_string()), &secret));
    assert!(!authorized(Some(&"Secret wrong".to_string()), &secret));
    assert!(!authorized(Some(&"Bearer opensesame".to_string()), &secret));
    assert!(!authorized(Some(&"opensesame".to_string()), &secret));
    assert!(!authorized(None, &secret));
}

#[test]
fn role_assign_button_equality() {
    let button = |label: Option<&str>, role: u64| RoleAssignButton {
        emoji: None,
        label: label.map(|l| l.to_string()),
        role_id: role,
    };
    assert!(button(Some("a"), 1) == button(Some("a"), 1));
    assert!(button(Some("a"), 1) != button(Some("b"), 1));
    assert!(button(Some("a"), 1) != button(None, 1));
    assert!(button(Some("a"), 1) != button(Some("a"), 2));
    let with_emoji = |animated: bool| RoleAssignButton {
        emoji: Some(PartialEmoji { id: 9, name: "rocket".to_string(), animated }),
        label: None,
        role_id: 1,
    };
    assert!(with_emoji(false) == with_emoji(false));
    assert!(with_emoji(false) != with_emoji(true));
    assert!(with_emoji(false) != button(None, 1));
}

#[test]
fn role_assign_config_default() {
    let c = RoleAssignConfig::default();
    assert!(!c.enabled);
    assert!(c.messages.is_empty());
    let m = RoleAssignMessage {
        id: 1,
        channel_id: 2,
        message: "pick a role".to_string(),
        buttons: vec![],
    };
    assert_eq!(m.id, 1);
}

#[test]
fn opt_display_renders_only_present_values() {
    let shown = OptDisplay::new(" in #{}", Some(&5u32));
    assert_eq!(shown.render("general"), " in #general");
    let hidden: OptDisplay<&u32> = OptDisplay::new(" in #{}", None);
    assert_eq!(hidden.render("general"), "");
}

#[test]
fn maybe_display_adapts_options() {
    let v = 7u32;
    let d = Some(&v).display("val {}");
    assert!(d.value.is_some());
    assert_eq!(d.text, "val {}");
}

#[test]
fn filter_passes_ordinary_messages() {
    let f = Filter::new();
    assert!(f.passes(false, true));
    assert!(!f.passes(true, true));
    assert!(!f.passes(false, false));
}

#[test]
fn chain_holds_both_handlers() {
    let c = Chain::new(Filter::new(), Filter::new());
    assert!(c.a.passes(false, true));
    assert!(c.b.passes(false, true));
}

#[test]
fn parse_u64_cases() {
    assert_eq!(parse_u64("700"), Some(700));
    assert_eq!(parse_u64("+42"), Some(42));
    assert_eq!(parse_u64("0"), Some(0));
    assert_eq!(parse_u64("18446744073709551615"), Some(u64::MAX));
    assert_eq!(parse_u64("18446744073709551616"), None);
    assert_eq!(parse_u64(""), None);
    assert_eq!(parse_u64("+"), None);
    assert_eq!(parse_u64("12a"), None);
    assert_eq!(parse_u64("-1"), None);
    assert_eq!(parse_u64(" 1"), None);
}

#[test]
fn replace_all_cases() {
    assert_eq!(replace_all("New video: %ID%", "%ID%", "XYZ"), "New video: XYZ");
    assert_eq!(replace_all("%ID% and %ID%", "%ID%", "x"), "x and x");
    assert_eq!(replace_all("nothing", "%ID%", "x"), "nothing");
    assert_eq!(replace_all("aaa", "aa", "b"), "ba");
    assert_eq!(replace_all("", "%ID%", "x"), "");
}

#[test]
fn decimal_rendering() {
    assert_eq!(u64_to_string(0), "0");
    assert_eq!(u64_to_string(9), "9");
    assert_eq!(u64_to_string(10), "10");
    assert_eq!(u64_to_string(12345), "12345");
    assert_eq!(u64_to_string(u64::MAX), "18446744073709551615");
}

#[test]
fn string_helpers() {
    assert!(str_eq("abc", "abc"));
    assert!(!str_eq("abc", "abd"));
    assert!(!str_eq("abc", "ab"));
    assert_eq!(strip_prefix("Secret hunter2", "Secret "), Some("hunter2"));
    assert_eq!(strip_prefix("hunter2", "Secret "), None);
    assert!(contains_sub("hay needle stack", "needle"));
    assert!(!contains_sub("haystack", "needle"));
    assert!(contains_sub("anything", ""));
}

#[test]
fn readable_duration() {
    let now = 1678278264;
    let ts = [1457370320, 1458431838];
    let d = [
        "7 years 19 hours 19 minutes 4 seconds ago",
        "6 years 11 months 2 weeks 2 days ago",
    ];
    for (ts, d) in ts.into_iter().zip(d.into_iter()) {
        assert_eq!(ReadableDuration::new(ts, now).render(), d);
    }
}

#[test]
fn readable_duration_edges() {
    assert_eq!(ReadableDuration::new(500, 500).render(), "right now");
    assert_eq!(ReadableDuration::new(500, 501).render(), "1 second ago");
    assert_eq!(ReadableDuration::new(500, 440).render(), "1 minute from now");
}

#[test]
fn command_cooldown() {
    let mut c = Commands::new();
    c.config.cooldown = 10;
    assert_eq!(c.cooldown_left("hello", 100), 0);
    c.last.push(("hello".to_string(), 95));
    assert_eq!(c.cooldown_left("hello", 100), 5);
    assert_eq!(c.cooldown_left("hello", 110), 0);
    assert_eq!(c.cooldown_left("other", 100), 0);
}

#[test]
fn joined_cooldown() {
    let mut j = Joined::new();
    j.config.cooldown = 30;
    assert_eq!(j.cooldown_left(50), 0);
    j.last = Some(40);
    assert_eq!(j.cooldown_left(50), 20);
    assert_eq!(j.cooldown_left(75), 0);
}

#[test]
fn role_assign_button_lookup() {
    let button = |role: u64| RoleAssignButton { emoji: None, label: None, role_id: role };
    let m = RoleAssignMessage {
        id: 1,
        channel_id: 2,
        message: "pick".to_string(),
        buttons: vec![vec![button(1), button(2)], vec![button(6)]],
    };
    assert_eq!(m.button_at(0).unwrap().role_id, 1);
    assert_eq!(m.button_at(1).unwrap().role_id, 2);
    assert!(m.button_at(2).is_none());
    assert_eq!(m.button_at(5).unwrap().role_id, 6);
    assert!(m.button_at(6).is_none());
    assert!(m.button_at(10).is_none());
}

#[test]
fn astronaut_status_change() {
    assert_eq!(status_change(None, true), StatusChange::Insert);
    assert_eq!(status_change(None, false), StatusChange::Insert);
    assert_eq!(status_change(Some(false), true), StatusChange::Update);
    assert_eq!(status_change(Some(true), false), StatusChange::Update);
    assert_eq!(status_change(Some(true), true), StatusChange::Unchanged);
    assert_eq!(status_change(Some(false), false), StatusChange::Unchanged);
}

#[test]
fn role_assign_sanitize() {
    let button = |role: u64| RoleAssignButton { emoji: None, label: None, role_id: role };
    let msg = |id: i32, text: &str, rows: usize, cols: usize| RoleAssignMessage {
        id,
        channel_id: 9,
        message: text.to_string(),
        buttons: (0..rows).map(|_| (0..cols).map(|c| button(c as u64)).collect()).collect(),
    };
    let mut cfg = RoleAssignConfig {
        enabled: true,
        messages: vec![msg(1, "first", 2, 3), msg(2, "wide", 7, 9), msg(1, "dup", 1, 1)],
    };
    cfg.sanitize();
    assert!(cfg.enabled);
    // Duplicate id 1: only the first message with it survives, in order.
    assert_eq!(cfg.messages.len(), 2);
    assert_eq!(cfg.messages[0].id, 1);
    assert_eq!(cfg.messages[0].message, "first");
    assert_eq!(cfg.messages[1].id, 2);
    // The 7x9 grid is capped to 5x5; smaller grids stay as they are.
    assert_eq!(cfg.messages[0].buttons.len(), 2);
    assert_eq!(cfg.messages[0].buttons[0].len(), 3);
    assert_eq!(cfg.messages[1].buttons.len(), 5);
    for row in &cfg.messages[1].buttons {
        assert_eq!(row.len(), 5);
        assert_eq!(row[4].role_id, 4);
    }
}
