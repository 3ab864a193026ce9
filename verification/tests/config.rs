//! Configuration.

use heddle::app::config::{append_profile, unknown_keys, Agent, AutoExpand, Config, Profile, Ui};
use heddle::table::Table;

fn account(user: &str, homeserver: &str) -> Profile {
    Profile {
        user_id: user.into(),
        homeserver: homeserver.into(),
        default: false,
    }
}

fn profile(user: &str) -> Profile {
    account(user, "https://matrix.example.org")
}

fn profiles(all: Vec<(&str, Profile)>) -> Table<String, Profile> {
    let mut table = Table::new();
    for (name, profile) in all {
        table.insert(name.to_owned(), profile);
    }
    table
}

/// The profiles and the prefix that a file holds.
fn reload(text: &str) -> Config {
    let root: toml::Table = text.parse().expect("parses");
    let mut config = Config::default();
    if let Some(prefix) = root.get("ui").and_then(|ui| ui.get("prefix")).and_then(|p| p.as_str()) {
        config.ui.prefix = prefix.to_owned();
    }
    if let Some(all) = root.get("profile").and_then(|p| p.as_table()) {
        for (name, p) in all {
            let text = |key: &str| p.get(key).and_then(|v| v.as_str()).expect("text").to_owned();
            config.profile.insert(
                name.clone(),
                Profile {
                    user_id: text("user_id"),
                    homeserver: text("homeserver"),
                    default: p.get("default").and_then(|v| v.as_bool()).unwrap_or(false),
                },
            );
        }
    }
    config
}

#[test]
fn missing_config_yields_defaults() {
    let cfg = Config::default();
    assert_eq!(cfg.profile.len(), 0);
    assert!(cfg.agent.fallback_parse);
    assert_eq!(cfg.ui.prefix, "ctrl+a");
}

#[test]
fn parses_a_realistic_config() {
    let cfg = Config {
        profile: profiles(vec![(
            "work",
            Profile {
                user_id: "@you:example.org".into(),
                homeserver: "https://matrix.example.org".into(),
                default: true,
            },
        )]),
        agent: Agent {
            ids: vec!["@hermes:example.org".into()],
            auto_expand: "always".into(),
            ..Agent::default()
        },
        ui: Ui {
            prefix: "ctrl+b".into(),
            mouse: false,
        },
    };
    let (name, profile) = cfg.resolve_profile(None).expect("default profile");
    assert_eq!(name, "work");
    assert_eq!(profile.homeserver, "https://matrix.example.org");
    assert_eq!(cfg.agent.auto_expand(), AutoExpand::Always);
    assert!(!cfg.ui.mouse);
    assert!(cfg.agent.fallback_parse);
    assert_eq!(cfg.agent.adapters, vec!["heddle", "hermes"]);
}

#[test]
fn every_documented_key_is_a_key_heddle_reads() {
    let documented = r#"
        [profile.work]
        user_id = "@you:example.org"
        homeserver = "https://matrix.example.org"
        default = true

        [agent]
        ids = ["@hermes:example.org"]
        adapters = ["heddle", "hermes"]
        auto_expand = "running"
        fallback_parse = true
        show_commentary = true

        [ui]
        prefix = "ctrl+a"
        mouse = true
    "#;
    assert!(
        unknown_keys(documented).is_empty(),
        "{:?}",
        unknown_keys(documented)
    );
}

#[test]
fn a_setting_heddle_does_not_act_on_is_complained_about() {
    let stale = r#"
        [ui]
        prefix = "ctrl+a"
        theme = "dracula"
        images = "kitty"

        [notify]
        enabled = true
    "#;
    let complaints = unknown_keys(stale);
    assert!(complaints.iter().any(|c| c.contains("ui.theme")));
    assert!(complaints.iter().any(|c| c.contains("ui.images")));
    assert!(complaints.iter().any(|c| c.contains("[notify]")));}

#[test]
fn a_typo_in_a_profile_is_caught_too() {
    let text = r#"
        [profile.work]
        user_id = "@you:example.org"
        homserver = "https://matrix.example.org"
    "#;
    let complaints = unknown_keys(text);
    assert!(
        complaints
            .iter()
            .any(|c| c.contains("profile.work.homserver")),
        "{complaints:?}"
    );
}

#[test]
fn adapters_are_resolved_from_config() {
    let cfg = Agent {
        adapters: vec!["hermes".into()],
        ..Agent::default()
    };
    assert_eq!(cfg.adapters().ids(), vec!["hermes"]);
    let no_fallback = Agent {
        fallback_parse: false,
        ..Agent::default()
    };
    assert_eq!(no_fallback.adapters().ids(), vec!["heddle", "hermes"]);
}

#[test]
fn a_single_profile_needs_no_default_flag() {
    let cfg = Config {
        profile: profiles(vec![("only", account("@a:b", "https://b"))]),
        ..Config::default()
    };
    assert_eq!(cfg.resolve_profile(None).expect("resolved").0, "only");
}

#[test]
fn ambiguous_profiles_without_a_default_resolve_to_nothing() {
    let cfg = Config {
        profile: profiles(vec![
            ("a", account("@a:b", "https://b")),
            ("c", account("@c:d", "https://d")),
        ]),
        ..Config::default()
    };
    assert!(
        cfg.resolve_profile(None).is_none(),
        "guessing between accounts would be worse than asking"
    );
    assert!(cfg.resolve_profile(Some("c")).is_some());
}

#[test]
fn an_unknown_auto_expand_falls_back_rather_than_failing() {
    let agent = Agent {
        auto_expand: "nonsense".into(),
        ..Agent::default()
    };
    assert_eq!(agent.auto_expand(), AutoExpand::Running);
}

#[test]
fn every_sender_is_an_agent_candidate_until_told_otherwise() {
    let agent = Agent::default();
    assert!(agent.is_agent("@anyone:x"));

    let configured = Agent {
        ids: vec!["@hermes:x".into()],
        ..Agent::default()
    };
    assert!(configured.is_agent("@hermes:x"));
    assert!(!configured.is_agent("@someone-else:x"));
}

#[test]
fn logging_in_creates_a_usable_profile_from_nothing() {
    let text = append_profile("", &Config::default(), "lab", &profile("@q:example.org")).expect("writes");

    let cfg = reload(&text);
    let (name, p) = cfg
        .resolve_profile(Some("lab"))
        .expect("the profile just written must resolve");
    assert_eq!(name, "lab");
    assert_eq!(p.user_id, "@q:example.org");
    assert_eq!(cfg.resolve_profile(None).expect("default").0, "lab");
}

#[test]
fn a_second_profile_does_not_steal_the_default() {
    let first = append_profile("", &Config::default(), "first", &profile("@a:example.org")).expect("first");
    let both = append_profile(&first, &reload(&first), "second", &profile("@b:example.org")).expect("second");

    let cfg = reload(&both);
    assert_eq!(cfg.profile.len(), 2);
    assert!(cfg.profile.get("first").expect("first").default);
    assert!(
        !cfg.profile.get("second").expect("second").default,
        "adding an account must not silently redirect the bare `heddle` command"
    );
    assert_eq!(cfg.resolve_profile(None).expect("default").0, "first");
}

#[test]
fn logging_in_again_changes_nothing() {
    let after_first = append_profile("", &Config::default(), "lab", &profile("@q:example.org")).expect("first");
    assert!(
        append_profile(&after_first, &reload(&after_first), "lab", &profile("@q:example.org")).is_none(),
        "a re-login must report that it wrote nothing"
    );
}

#[test]
fn hand_written_comments_and_settings_survive() {
    let original = "# my notes, kept by hand\n\
                    [ui]\n\
                    prefix = \"ctrl+b\"  # deliberate\n";

    let text = append_profile(original, &reload(original), "lab", &profile("@q:example.org")).expect("appends");
    assert!(
        text.starts_with(original),
        "existing bytes must be untouched"
    );
    assert!(text.contains("# my notes, kept by hand"));
    assert!(text.contains("# deliberate"));

    let cfg = reload(&text);
    assert_eq!(cfg.ui.prefix, "ctrl+b");
    assert!(cfg.profile.contains_key("lab"));
}

#[test]
fn quoting_survives_a_hostile_display_name() {
    let nasty = r#"@odd"user\name:example.org"#;
    let text = append_profile("", &Config::default(), "odd", &profile(nasty)).expect("writes");

    let cfg = reload(&text);
    assert_eq!(cfg.profile.get("odd").expect("odd").user_id, nasty);
}
