//! Configuration, paths and the checks of an installation, on exact values.

use heddle::agent::protocol::{Tool, ToolStatus};
use heddle::app::config::{
    append_profile, complaints, is_expanded, missing_profile, quote, unknown_keys, AutoExpand, Config, Dirs, Profile,
    Section, Setting,
};
use heddle::app::doctor::{
    device_of, glyph_widths, permissions, report, report_line, store, terminal, tick, Finding, Probe, Status,
    StoreFacts,
};
use heddle::json::{read, Json};
use heddle::matrix::homeserver::{check_homeserver, versions_url};
use heddle::matrix::session::{
    already_or_created, bootstrap_cross_signing, Attempt, Bootstrap, CrossSigning, HeldKeys, Paths, SessionError,
};
use heddle::paths::join_path;

fn profile() -> Profile {
    Profile {
        user_id: "@q:example.org".into(),
        homeserver: "https://example.org".into(),
        default: false,
    }
}

#[test]
fn quoting_escapes_what_would_end_the_string() {
    assert_eq!(quote("a\"b\\c\nd"), "\"a\\\"b\\\\c\\nd\"");
    let line = format!("value = {}", quote("a\"b\\c\nd"));
    let back: toml::Table = line.parse().expect("parses");
    assert_eq!(back["value"].as_str(), Some("a\"b\\c\nd"));
}

#[test]
fn quoting_escapes_every_control_character_but_tab() {
    assert_eq!(quote("\u{1}\r\t\u{7f}"), "\"\\u0001\\u000D\t\\u007F\"");
    for n in 0..0x100_u32 {
        let value = format!("a{}b", char::from_u32(n).expect("a character"));
        let back: toml::Table = format!("k = {}", quote(&value)).parse().expect("parses");
        assert_eq!(back["k"].as_str(), Some(value.as_str()));
    }
}

#[test]
fn a_profile_is_added_behind_what_is_there() {
    let block = "[profile.lab]\nuser_id = \"@q:example.org\"\nhomeserver = \"https://example.org\"\ndefault = true\n";
    assert_eq!(
        append_profile("", &Config::default(), "lab", &profile()).as_deref(),
        Some(block)
    );
    assert_eq!(
        append_profile("[ui]", &Config::default(), "lab", &profile()),
        Some(format!("[ui]\n\n{block}"))
    );
    assert_eq!(
        append_profile("[ui]\n", &Config::default(), "lab", &profile()),
        Some(format!("[ui]\n\n{block}"))
    );
}

#[test]
fn a_missing_profile_is_explained() {
    assert_eq!(
        missing_profile(Some("lab"), true, "/c"),
        "no `[profile.lab]` in /c. Log in with `heddle --profile lab login` to create it, or add the block by hand"
    );
    assert_eq!(
        missing_profile(None, true, "/c"),
        "several profiles are configured and none is marked `default = true`. Pass --profile, or set the flag in /c"
    );
    assert_eq!(
        missing_profile(None, false, "/c"),
        "no profiles configured. Run `heddle login` to create one, or add a block to /c"
    );
}

#[test]
fn the_first_marked_profile_by_name_is_the_default() {
    let mut config = Config::default();
    for name in ["b", "a", "c"] {
        config.profile.insert(
            name.to_owned(),
            Profile {
                default: name != "c",
                ..profile()
            },
        );
    }
    assert_eq!(config.resolve_profile(None).expect("marked").0, "a");
    assert_eq!(config.resolve_profile(Some("c")).expect("asked for").0, "c");
    assert!(config.resolve_profile(Some("d")).is_none());
}

#[test]
fn complaints_name_the_section_or_the_key() {
    let sections = vec![
        Section {
            name: "notify".into(),
            settings: None,
        },
        Section {
            name: "ui".into(),
            settings: Some(vec![Setting {
                name: "theme".into(),
                keys: None,
            }]),
        },
        Section {
            name: "profile".into(),
            settings: Some(vec![
                Setting {
                    name: "work".into(),
                    keys: Some(vec!["user_id".into(), "homserver".into()]),
                },
                Setting {
                    name: "stray".into(),
                    keys: None,
                },
            ]),
        },
    ];
    assert_eq!(
        complaints(&sections),
        vec![
            "[notify] is not a section heddle reads",
            "`ui.theme` is not a setting heddle reads",
            "`profile.work.homserver` is not a setting heddle reads",
        ]
    );
    assert!(unknown_keys("[ui\nthis is not toml").is_empty());
}

#[test]
fn cards_open_as_configured_unless_chosen_otherwise() {
    let tool = |status| Tool {
        name: "edit".into(),
        index: 0,
        args: None,
        preview: None,
        status,
        duration_ms: None,
        mime: None,
        body: None,
        truncated: false,
    };
    assert!(is_expanded(&tool(ToolStatus::Running), AutoExpand::Running, None));
    assert!(!is_expanded(&tool(ToolStatus::Success), AutoExpand::Running, None));
    assert!(is_expanded(&tool(ToolStatus::Success), AutoExpand::Always, None));
    assert!(!is_expanded(&tool(ToolStatus::Running), AutoExpand::Never, None));
    assert!(is_expanded(&tool(ToolStatus::Success), AutoExpand::Never, Some(true)));
}

#[test]
fn standard_locations_are_joined() {
    let dirs = Dirs {
        config: "/c".into(),
        data: "/d".into(),
        state: "/s/".into(),
    };
    assert_eq!(dirs.config_file(), "/c/config.toml");
    assert_eq!(dirs.layout_file("work"), "/s/layout/work.json");
    assert_ne!(dirs.layout_file("work"), dirs.layout_file("home"));
    assert_eq!(join_path("/a", "b"), "/a/b");
}

#[test]
fn json_is_read_with_its_numbers_apart() {
    let value = read(r##"{ "b": [1, -2, 1.5, null, true], "a": "x" }"##).expect("reads");
    assert_eq!(
        value,
        Json::Object(vec![
            ("a".into(), Json::Text("x".into())),
            (
                "b".into(),
                Json::List(vec![
                    Json::Unsigned(1),
                    Json::Signed(-2),
                    Json::Float("1.5".into()),
                    Json::Null,
                    Json::Bool(true),
                ])
            ),
        ])
    );
    assert!(read("{ not json").is_err());
    assert_eq!(value.get("a"), Some(&Json::Text("x".into())));
    assert_eq!(value.get("c"), None);
    assert_eq!(Json::Null.get("a"), None);
}

#[test]
fn findings_are_reported_in_columns() {
    let fine = Finding::ok("size", "80x24");
    assert_eq!(report_line(&fine), format!("  {:24} ok", "size:"));
    assert_eq!(report_line(&Finding::fail("store", "gone")), format!("  {:24} FAIL", "store:"));
    assert!(!report(&vec![fine, Finding::warn("a", "b")]));
    assert!(report(&vec![Finding::warn("a", "b"), Finding::fail("c", "d")]));
    assert_eq!((tick(true), tick(false)), ("yes", "NO"));
    assert_eq!(Status::Warn.label(), "warn");
}

#[test]
fn a_terminal_is_judged_by_what_it_says() {
    let good = terminal(true, Some("xterm"), "truecolor", &Ok((60, 16)));
    assert_eq!(
        good,
        vec![
            Finding::ok("terminal", "stdout is a terminal"),
            Finding::ok("TERM", "xterm"),
            Finding::ok("colour", "24-bit"),
            Finding::ok("size", "60x16"),
        ]
    );
    let poor = terminal(false, None, "", &Ok((59, 16)));
    assert_eq!(poor[0].status, Status::Warn);
    assert_eq!(poor[1].detail.as_deref(), Some("unset"));
    assert_eq!(poor[2].status, Status::Warn);
    assert_eq!(
        poor[3],
        Finding::warn("size", "59x16; panes need roughly 60x16 before splitting is useful")
    );
    assert_eq!(
        terminal(true, None, "24bit", &Err("no".into()))[3],
        Finding::warn("size", "cannot be read: no")
    );
}

#[test]
fn glyphs_are_compared_with_what_is_painted() {
    let probe = |measured| Probe {
        glyph: "●".into(),
        what: "running".into(),
        expected: 1,
        measured,
    };
    assert_eq!(
        glyph_widths(&vec![probe(Ok(1))]),
        Finding::ok(
            "glyph widths",
            "the terminal paints every glyph heddle prints at the assumed width"
        )
    );
    assert_eq!(
        glyph_widths(&vec![probe(Ok(2)), probe(Ok(1)), probe(Ok(3))]),
        Finding::warn(
            "glyph widths",
            "● (running): heddle lays out 1, this terminal paints 2; ● (running): heddle lays out 1, this terminal paints 3"
        )
    );
    assert_eq!(
        glyph_widths(&vec![probe(Ok(2)), probe(Err("timed out".into()))]),
        Finding::warn("glyph widths", "could not be measured: timed out")
    );
}

#[test]
fn permissions_name_the_fix() {
    assert_eq!(permissions("it", "/x", &Some(Ok(0o100600)), 0o600), Finding::ok("it", "0600"));
    assert_eq!(permissions("it", "/x", &Some(Ok(0o100400)), 0o600), Finding::ok("it", "0400"));
    assert_eq!(
        permissions("it", "/x", &Some(Ok(0o100644)), 0o600),
        Finding::warn("it", "0644 is more permissive than 0600: chmod 600 /x")
    );
    assert_eq!(
        permissions("it", "/x", &Some(Err("gone".into())), 0o600),
        Finding::warn("it", "cannot be read: gone")
    );
    assert_eq!(
        permissions("it", "/x", &None, 0o600),
        Finding::ok("it", "not checked on this platform")
    );
}

#[test]
fn a_store_is_judged_by_its_files() {
    let facts = |session: Result<String, String>, files: Result<usize, String>| StoreFacts {
        session,
        session_mode: Some(Ok(0o600)),
        store_mode: Some(Ok(0o700)),
        files,
    };
    let unreadable = store("p", "/s", "/f", Some(&facts(Err("denied".into()), Err("denied".into()))));
    assert_eq!(unreadable[0], Finding::fail("session", "cannot be read: denied"));
    assert_eq!(unreadable[3], Finding::fail("store", "cannot be read: denied"));
    let nameless = store("p", "/s", "/f", Some(&facts(Ok("{}".into()), Ok(2))));
    assert_eq!(nameless[0], Finding::warn("session", "parses, but carries no device ID"));
    assert_eq!(nameless[1], Finding::ok("session file", "0600"));
    assert_eq!(nameless[2], Finding::ok("store directory", "0700"));
    assert_eq!(nameless[3], Finding::ok("store", "2 files in /s"));
    assert_eq!(
        store("p", "/s", "/f", None),
        vec![Finding::fail(
            "session",
            "no session for profile `p` at /f; run `heddle --profile p login`"
        )]
    );
    let nested = read(r##"{ "tokens": { "device_id": "D" } }"##).expect("json");
    assert_eq!(device_of(&nested).as_deref(), Some("D"));
}

#[test]
fn a_homeserver_is_asked_at_one_place() {
    assert_eq!(versions_url("https://x//"), "https://x/_matrix/client/versions");
    let caps = check_homeserver(
        r##"{ "versions": ["v1.1", 3, "v1.2"],
              "unstable_features": { "org.matrix.simplified_msc3575": true, "org.matrix.msc3440.stable": 1 } }"##,
    )
    .expect("answers");
    assert!(caps.sliding_sync && !caps.threads && !caps.cross_signing);
    assert_eq!(caps.versions, vec!["v1.1", "v1.2"]);
    assert_eq!(
        caps.problems(),
        vec![
            "homeserver does not advertise org.matrix.msc3440.stable; thread-per-agent-session will be unavailable",
            "homeserver does not advertise org.matrix.e2e_cross_signing; device verification will be unavailable",
        ]
    );
    assert!(check_homeserver("<html>").is_err());
}

#[test]
fn a_session_error_says_what_to_do() {
    assert_eq!(
        SessionError::NoSavedSession("p".into()).message(),
        "no saved session for profile `p`; run `heddle login`"
    );
    assert_eq!(
        SessionError::CorruptSession {
            profile: "p".into(),
            source: "eof".into()
        }
        .message(),
        "saved session for profile `p` is unreadable: eof"
    );
    assert_eq!(SessionError::Matrix("m".into()).message(), "matrix error: m");
    assert_eq!(SessionError::Build("b".into()).message(), "failed to build client: b");
    assert_eq!(
        SessionError::Io {
            path: "/x".into(),
            source: "denied".into()
        }
        .message(),
        "io error at /x: denied"
    );
    assert_eq!(
        Paths::for_profile("/data", "work").temporary(),
        "/data/profiles/work/session.json.tmp"
    );
}

#[test]
fn a_bootstrap_answers_one_challenge() {
    let all = HeldKeys {
        master: true,
        self_signing: true,
        user_signing: true,
    };
    let some = HeldKeys {
        user_signing: false,
        ..all
    };
    assert_eq!(already_or_created(Some(all)), CrossSigning::Created);
    assert_eq!(already_or_created(Some(some)), CrossSigning::AlreadyPresent);
    assert_eq!(already_or_created(None), CrossSigning::AlreadyPresent);
    assert_eq!(
        bootstrap_cross_signing(false, Attempt::Accepted, Some(some)),
        Bootstrap::Report(CrossSigning::AlreadyPresent)
    );
    assert_eq!(bootstrap_cross_signing(false, Attempt::Challenged, None), Bootstrap::Answer);
    assert_eq!(
        bootstrap_cross_signing(true, Attempt::Accepted, None),
        Bootstrap::Report(CrossSigning::Created)
    );
    assert_eq!(
        bootstrap_cross_signing(true, Attempt::Challenged, None),
        Bootstrap::Report(CrossSigning::NeedsInteractiveAuth)
    );
    assert_eq!(bootstrap_cross_signing(false, Attempt::Failed, None), Bootstrap::Fail);
}
