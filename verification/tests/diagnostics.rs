use quickrdp::clock::{DIAGNOSTICS_TIME_FORMAT, MESSAGE_TIME_FORMAT, STAMP_FORMAT};
use quickrdp::diagnostics::{
    advice, context, debug_requested, entry_text, indicator, padded_level, set_debug_mode,
    Diagnostics, LOG_HEADER,
};
use quickrdp::reset::{
    artifact_events, report_line, reset_events, reset_report, sweep_events, ArtifactSweep,
    HostSweep, RecentSweep, ResetEvent, ResetOutcomes, SweptArtifact, SweptCredential,
};
use quickrdp::shell::{
    autostart_toggle, current_theme, marked, platform_theme, recent_host, recent_item, recent_label, starts_with,
    theme_label, tray_action, tray_targets, trimmed, window_toggle, AutostartToggle, Theme,
    TrayAction, WindowToggle, AUTOSTART_LABEL,
};
use quickrdp::text::{
    contains_text, decimal, is_blank, is_white_space, same_text, signed_decimal,
};

const RULE: &str =
    "--------------------------------------------------------------------------------\n";

#[test]
fn debug_mode_is_off_until_switched_on() {
    let mut diagnostics = Diagnostics::new();
    assert!(!diagnostics.debug_enabled);
    assert_eq!(diagnostics.entry(0, "INFO", "SYSTEM", "hello", None, None), None);
    assert_eq!(diagnostics.entry_dated(Some("t"), "INFO", "SYSTEM", "hello", None, None), None);
    set_debug_mode(&mut diagnostics, true);
    assert!(diagnostics.debug_enabled);
    set_debug_mode(&mut diagnostics, false);
    assert!(!diagnostics.debug_enabled);
}

#[test]
fn entry_is_dated_when_diagnostics_are_on() {
    let mut diagnostics = Diagnostics::new();
    set_debug_mode(&mut diagnostics, true);
    let entry = diagnostics.entry(3600, "INFO", "SYSTEM", "hello", None, None).unwrap();
    assert!(entry.starts_with('\n'));
    let tail = " [i] [INFO    ] [SYSTEM]\nMessage: hello\n".to_string() + RULE;
    assert!(entry.ends_with(&tail));
    let timestamp = &entry[1..entry.len() - tail.len()];
    assert_eq!(timestamp.len(), 23);
    assert_eq!(&timestamp[4..5], "-");
    assert_eq!(&timestamp[10..11], " ");
    assert_eq!(&timestamp[19..20], ".");
}

#[test]
fn level_marks() {
    assert_eq!(indicator("ERROR"), "[!]");
    assert_eq!(indicator("WARN"), "[*]");
    assert_eq!(indicator("INFO"), "[i]");
    assert_eq!(indicator("DEBUG"), "[d]");
    assert_eq!(indicator("TRACE"), "[?]");
    assert_eq!(indicator("error"), "[?]");
}

#[test]
fn level_is_filled_to_eight_characters() {
    assert_eq!(padded_level("INFO"), "INFO    ");
    assert_eq!(padded_level("ERROR"), "ERROR   ");
    assert_eq!(padded_level(""), "        ");
    assert_eq!(padded_level("EXACTLY8"), "EXACTLY8");
    assert_eq!(padded_level("MORE THAN 8"), "MORE THAN 8");
    assert_eq!(padded_level("\u{e9}t\u{e9}"), format!("{:8}", "\u{e9}t\u{e9}"));
}

#[test]
fn plain_entry() {
    assert_eq!(
        entry_text("2024-03-02 10:11:12.345", "DEBUG", "WINDOW", "Closing login window", None, None),
        "\n2024-03-02 10:11:12.345 [d] [DEBUG   ] [WINDOW]\nMessage: Closing login window\n"
            .to_string() + RULE
    );
}

#[test]
fn entry_with_details_and_context() {
    assert_eq!(
        entry_text(
            "2024-03-02 10:11:12.345",
            "INFO",
            "RDP_LAUNCH",
            "Starting",
            Some("host srv1"),
            Some("\"C:\\\\data\""),
        ),
        "\n2024-03-02 10:11:12.345 [i] [INFO    ] [RDP_LAUNCH]\nMessage: Starting\n\
         Details: host srv1\nRDP Files Directory: \"C:\\\\data\"\n"
            .to_string() + RULE
    );
    assert_eq!(context("RDP_LAUNCH", None), "");
    assert_eq!(context("CREDENTIALS", Some("x")), "Credential Storage: Windows Credential Manager\n");
    assert_eq!(context("LDAP_CONNECTION", None), "LDAP Port: 389\n");
    assert_eq!(context("LDAP_BIND", None), "LDAP Port: 389\n");
    assert_eq!(context("LDAP_SEARCH", None), "LDAP Port: 389\n");
    assert_eq!(context("LDAP_SCAN", None), "");
}

#[test]
fn warning_comes_with_a_recommendation() {
    assert_eq!(
        entry_text("t", "WARN", "RESET", "Application reset initiated", None, None),
        "\nt [*] [WARN    ] [RESET]\nMessage: Application reset initiated\n\
         \nRecommendation: This warning may not prevent operation but should be investigated.\n"
            .to_string() + RULE
    );
}

#[test]
fn error_comes_with_its_causes() {
    assert_eq!(
        entry_text("t", "ERROR", "LDAP_SEARCH", "LDAP search failed", Some("code 32"), None),
        "\nt [!] [ERROR   ] [LDAP_SEARCH]\nMessage: LDAP search failed\nDetails: code 32\n\
         LDAP Port: 389\n\nPossible Causes:\n\
         \u{20}\u{20}\u{2022} Base DN is incorrect or domain name is wrong\n\
         \u{20}\u{20}\u{2022} LDAP filter syntax error\n\
         \u{20}\u{20}\u{2022} Insufficient permissions to search the directory\n\
         \u{20}\u{20}\u{2022} No Windows Server computers found in the domain\n\
         \u{20}\u{20}\u{2022} Connection was lost during search\n\
         \nTroubleshooting Steps:\n\
         \u{20}\u{20}1. Verify domain name is correct\n\
         \u{20}\u{20}2. Check LDAP filter syntax\n\
         \u{20}\u{20}3. Verify account has read permissions on computer objects\n"
            .to_string() + RULE
    );
}

#[test]
fn causes_by_category() {
    assert!(advice("ERROR", "LDAP_CONNECTION").contains("Port 389 is blocked by firewall"));
    assert!(advice("ERROR", "LDAP_BIND").contains("Anonymous bind is disabled"));
    assert!(advice("ERROR", "CREDENTIALS").contains("Windows Credential Manager access denied"));
    assert!(advice("ERROR", "RDP_LAUNCH").contains("%APPDATA%\\QuickRDP\\Connections"));
    assert!(advice("ERROR", "CSV_OPERATIONS").contains("hosts.csv open"));
    assert!(advice("ERROR", "HOST_CREDENTIALS").contains("TERMSRV/* entries"));
    assert_eq!(
        advice("ERROR", "SYSTEM"),
        "\nPossible Causes:\n  \u{2022} Check system event logs for more details\n  \
         \u{2022} Verify application has necessary permissions\n  \
         \u{2022} Try running as administrator\n"
    );
    assert_eq!(advice("INFO", "LDAP_BIND"), "");
    assert_eq!(advice("DEBUG", "LDAP_BIND"), "");
}

#[test]
fn log_header() {
    assert!(LOG_HEADER.starts_with(&("=".repeat(80) + "\nQuickRDP Debug Log\n")));
    assert!(LOG_HEADER.ends_with(&("\n".to_string() + &"=".repeat(80) + "\n\n")));
    assert_eq!(LOG_HEADER.lines().count(), 16);
}

#[test]
fn time_forms() {
    assert_eq!(STAMP_FORMAT, "%d/%m/%Y %H:%M:%S");
    assert_eq!(MESSAGE_TIME_FORMAT, "%Y-%m-%d %H:%M:%S");
    assert_eq!(DIAGNOSTICS_TIME_FORMAT, "%Y-%m-%d %H:%M:%S%.3f");
}

#[test]
fn decimal_numbers() {
    assert_eq!(decimal(0), "0");
    assert_eq!(decimal(7), "7");
    assert_eq!(decimal(10), "10");
    assert_eq!(decimal(1234567890), "1234567890");
    assert_eq!(decimal(u64::MAX), "18446744073709551615");
    assert_eq!(signed_decimal(0), "0");
    assert_eq!(signed_decimal(-5), "-5");
    assert_eq!(signed_decimal(42), "42");
    assert_eq!(signed_decimal(i64::MIN), "-9223372036854775808");
    assert_eq!(signed_decimal(i64::MAX), "9223372036854775807");
}

#[test]
fn text_helpers() {
    assert!(same_text("abc", "abc"));
    assert!(!same_text("abc", "abd"));
    assert!(!same_text("abc", "ab"));
    assert!(is_blank(""));
    assert!(is_blank(" \t\r\n"));
    assert!(!is_blank(" x "));
    let chars = |s: &str| -> Vec<char> { s.chars().collect() };
    assert!(contains_text(&chars("hello world"), &chars("lo w")));
    assert!(contains_text(&chars("hello"), &chars("")));
    assert!(contains_text(&chars(""), &chars("")));
    assert!(contains_text(&chars("hello"), &chars("hello")));
    assert!(contains_text(&chars("aab"), &chars("ab")));
    assert!(!contains_text(&chars("hello"), &chars("hello!")));
    assert!(!contains_text(&chars("hello"), &chars("world")));
    assert!(!contains_text(&chars(""), &chars("a")));
}

#[test]
fn report_of_a_clean_reset() {
    let events = vec![
        ResetEvent::GlobalCredentialDeleted,
        ResetEvent::HostCredentialsFound(2),
        ResetEvent::HostCredential("TERMSRV/a".to_string()),
        ResetEvent::HostCredential("TERMSRV/b".to_string()),
        ResetEvent::HostCredentialsProcessed(2),
        ResetEvent::ArtifactsDirectory("\"C:\\\\data\"".to_string()),
        ResetEvent::ArtifactDeleted("\"a.rdp\"".to_string()),
        ResetEvent::ArtifactsDeleted(1),
        ResetEvent::InventoryCleared,
        ResetEvent::RecentDeleted,
    ];
    assert_eq!(
        reset_report(&events),
        "=== QuickRDP Application Reset ===\n\n\
         \u{2713} Deleted global QuickRDP credentials\n\
         \nFound 2 RDP host credentials:\n\
         \u{20}\u{20}- TERMSRV/a\n\
         \u{20}\u{20}- TERMSRV/b\n\
         \u{2713} Processed 2 RDP host credentials\n\
         \nRDP Files in \"C:\\\\data\":\n\
         \u{20}\u{20}\u{2713} Deleted: \"a.rdp\"\n\
         \u{2713} Deleted 1 RDP files\n\
         \n\u{2713} Cleared hosts.csv\n\
         \u{2713} Deleted recent connections history\n\
         \n=== Reset Complete ===\n\
         The application has been reset to its initial state.\n\
         Please restart the application.\n"
    );
}

#[test]
fn report_of_a_reset_with_failures() {
    assert_eq!(
        report_line(&ResetEvent::GlobalCredentialKept("denied".to_string())),
        "\u{2717} Failed to delete global credentials: denied\n"
    );
    assert_eq!(
        report_line(&ResetEvent::HostCredentialKept("denied".to_string())),
        "    \u{2717} Failed to delete: denied\n"
    );
    assert_eq!(
        report_line(&ResetEvent::HostCredentialsUnlisted("none".to_string())),
        "\u{2717} No TERMSRV credentials found or error: none\n"
    );
    assert_eq!(
        report_line(&ResetEvent::ArtifactKept("\"a.rdp\"".to_string(), "locked".to_string())),
        "  \u{2717} Failed to delete \"a.rdp\": locked\n"
    );
    assert_eq!(
        report_line(&ResetEvent::ArtifactsUnreadable("denied".to_string())),
        "\u{2717} Failed to read connections directory: denied\n"
    );
    assert_eq!(
        report_line(&ResetEvent::ArtifactsAbsent),
        "  (Connections directory does not exist)\n"
    );
    assert_eq!(
        report_line(&ResetEvent::InventoryKept("denied".to_string())),
        "\n\u{2717} Failed to clear hosts.csv: denied\n"
    );
    assert_eq!(
        report_line(&ResetEvent::RecentKept("denied".to_string())),
        "\u{2717} Failed to delete recent connections: denied\n"
    );
    assert_eq!(
        report_line(&ResetEvent::RecentAbsent),
        "\u{2713} No recent connections to delete\n"
    );
    assert_eq!(
        reset_report(&vec![]),
        "=== QuickRDP Application Reset ===\n\n\n=== Reset Complete ===\n\
         The application has been reset to its initial state.\nPlease restart the application.\n"
    );
}

#[test]
fn platform_theme_follows_the_flag() {
    assert_eq!(platform_theme(Some(0)), Theme::Dark);
    assert_eq!(platform_theme(Some(1)), Theme::Light);
    assert_eq!(platform_theme(Some(7)), Theme::Light);
    assert_eq!(platform_theme(None), Theme::Dark);
    assert_eq!(Theme::Dark.name(), "dark");
    assert_eq!(Theme::Light.name(), "light");
}

#[test]
fn toggle_of_the_visible_window() {
    assert_eq!(window_toggle(true, false), WindowToggle::HideLogin);
    assert_eq!(window_toggle(true, true), WindowToggle::HideLogin);
    assert_eq!(window_toggle(false, true), WindowToggle::HideMain);
    assert_eq!(window_toggle(false, false), WindowToggle::ShowLogin);
}

#[test]
fn tray_labels() {
    assert_eq!(marked(true, AUTOSTART_LABEL), "\u{2713} Autostart with Windows");
    assert_eq!(marked(false, AUTOSTART_LABEL), "\u{2717} Autostart with Windows");
    assert_eq!(theme_label(Theme::Light, "light"), "\u{2713} Light");
    assert_eq!(theme_label(Theme::Light, "dark"), "\u{2717} Light");
    assert_eq!(theme_label(Theme::Dark, "dark"), "\u{2713} Dark");
    assert_eq!(theme_label(Theme::Dark, "blue"), "\u{2717} Dark");
    assert_eq!(recent_label("srv1", ""), "srv1");
    assert_eq!(recent_label("srv1", "Mail"), "srv1 - Mail");
}

#[test]
fn tray_items_of_recent_connections() {
    assert_eq!(recent_item("srv1"), "recent_srv1");
    assert_eq!(recent_host("recent_srv1"), Some("srv1".to_string()));
    assert_eq!(recent_host("recent_recent_x"), Some("recent_x".to_string()));
    assert_eq!(recent_host("recent_"), None);
    assert_eq!(recent_host("recent"), None);
    assert_eq!(recent_host("quit"), None);
    assert_eq!(recent_host("Recent_srv1"), None);
    assert_eq!(recent_host(""), None);
}

#[test]
fn diagnostics_are_asked_for_by_argument() {
    let arguments = |list: &[&str]| -> Vec<String> { list.iter().map(|a| a.to_string()).collect() };
    assert!(debug_requested(&arguments(&["quickrdp.exe", "--debug"])));
    assert!(debug_requested(&arguments(&["--debug-log", "x"])));
    assert!(debug_requested(&arguments(&["a", "b", "--debug", "--debug-log"])));
    assert!(!debug_requested(&arguments(&["quickrdp.exe", "--debugging", "-debug", "--DEBUG"])));
    assert!(!debug_requested(&arguments(&[])));
}

#[test]
fn tray_items_ask_for_actions() {
    assert_eq!(tray_action("recent_srv1"), TrayAction::Launch("srv1".to_string()));
    assert_eq!(tray_action("recent_"), TrayAction::Nothing);
    assert_eq!(tray_action("toggle_autostart"), TrayAction::ToggleAutostart);
    assert_eq!(tray_action("theme_light"), TrayAction::SetTheme(Theme::Light));
    assert_eq!(tray_action("theme_dark"), TrayAction::SetTheme(Theme::Dark));
    assert_eq!(tray_action("about"), TrayAction::ShowAbout);
    assert_eq!(tray_action("quit"), TrayAction::Quit);
    assert_eq!(tray_action("no_recent"), TrayAction::Nothing);
    assert_eq!(tray_action(""), TrayAction::Nothing);
}

#[test]
fn tray_click_tries_the_window_last_hidden_first() {
    assert_eq!(tray_targets("hosts"), vec!["hosts", "login", "main", "hosts"]);
    assert_eq!(tray_targets(""), vec!["", "login", "main", "hosts"]);
}

#[test]
fn saved_theme_is_trimmed() {
    assert_eq!(trimmed("  light \r\n"), "light");
    assert_eq!(trimmed("dark"), "dark");
    assert_eq!(trimmed(" a b "), "a b");
    assert_eq!(trimmed(" \t\n"), "");
    assert_eq!(trimmed(""), "");
    assert_eq!(trimmed("\u{a0}x\u{2003}y\u{3000}"), "x\u{2003}y");
    for text in ["", " ", "  x", "x  ", " x y ", "\n\tz\r\n"] {
        assert_eq!(trimmed(text), text.trim());
    }
    assert_eq!(current_theme(Some(" light\n"), Some(0)), "light");
    assert_eq!(current_theme(Some("custom"), None), "custom");
    assert_eq!(current_theme(None, Some(0)), "dark");
    assert_eq!(current_theme(None, Some(1)), "light");
    assert_eq!(current_theme(None, None), "dark");
}

#[test]
fn prefixes() {
    let chars = |s: &str| -> Vec<char> { s.chars().collect() };
    assert!(starts_with(&chars("recent_x"), &chars("recent_")));
    assert!(starts_with(&chars("recent_"), &chars("recent_")));
    assert!(starts_with(&chars("abc"), &chars("")));
    assert!(!starts_with(&chars("recent"), &chars("recent_")));
    assert!(!starts_with(&chars("Recent_x"), &chars("recent_")));
}

#[test]
fn entry_without_a_time_is_marked_as_undated() {
    let mut diagnostics = Diagnostics::new();
    set_debug_mode(&mut diagnostics, true);
    assert_eq!(
        diagnostics.entry_dated(None, "INFO", "SYSTEM", "hello", None, None),
        Some("\n(undated) [i] [INFO    ] [SYSTEM]\nMessage: hello\n".to_string() + RULE)
    );
    assert_eq!(
        diagnostics.entry_dated(Some("2024-03-02 10:11:12.345"), "INFO", "SYSTEM", "hello", None, None),
        Some("\n2024-03-02 10:11:12.345 [i] [INFO    ] [SYSTEM]\nMessage: hello\n".to_string() + RULE)
    );
    let undated = diagnostics.entry(86_400, "INFO", "SYSTEM", "hello", None, None).unwrap();
    assert!(undated.starts_with("\n(undated) [i]"));
}

#[test]
fn white_space_is_what_the_standard_library_calls_so() {
    let mut count = 0;
    for c in (0..=0x10ffffu32).filter_map(char::from_u32) {
        assert_eq!(is_white_space(c), c.is_whitespace(), "U+{:04X}", c as u32);
        if is_white_space(c) {
            count += 1;
        }
    }
    assert_eq!(count, 25);
}

#[test]
fn sweep_reports_every_credential_whatever_fails() {
    let swept = vec![
        SweptCredential { scope_key: "TERMSRV/a".to_string(), failure: None },
        SweptCredential { scope_key: "TERMSRV/b".to_string(), failure: Some("denied".to_string()) },
        SweptCredential { scope_key: "TERMSRV/c".to_string(), failure: None },
    ];
    assert_eq!(
        sweep_events(3, &swept),
        vec![
            ResetEvent::HostCredentialsFound(3),
            ResetEvent::HostCredential("TERMSRV/a".to_string()),
            ResetEvent::HostCredential("TERMSRV/b".to_string()),
            ResetEvent::HostCredentialKept("denied".to_string()),
            ResetEvent::HostCredential("TERMSRV/c".to_string()),
            ResetEvent::HostCredentialsProcessed(3),
        ]
    );
    assert_eq!(
        sweep_events(0, &vec![]),
        vec![ResetEvent::HostCredentialsFound(0), ResetEvent::HostCredentialsProcessed(0)]
    );
    assert_eq!(
        reset_report(&sweep_events(1, &swept[1..2].to_vec())),
        "=== QuickRDP Application Reset ===\n\n\nFound 1 RDP host credentials:\n  - TERMSRV/b\n    \u{2717} Failed to delete: denied\n\u{2713} Processed 1 RDP host credentials\n\n=== Reset Complete ===\nThe application has been reset to its initial state.\nPlease restart the application.\n"
    );
}

#[test]
fn toggle_of_the_start_with_the_platform() {
    assert_eq!(autostart_toggle(true), AutostartToggle::Disable);
    assert_eq!(autostart_toggle(false), AutostartToggle::Enable);
}

#[test]
fn artifacts_are_counted_as_deleted_only_where_they_were() {
    let swept = vec![
        SweptArtifact { name: "\"a.rdp\"".to_string(), failure: None },
        SweptArtifact { name: "\"b.rdp\"".to_string(), failure: Some("locked".to_string()) },
        SweptArtifact { name: "\"c.rdp\"".to_string(), failure: None },
    ];
    assert_eq!(
        artifact_events(&"\"dir\"".to_string(), &ArtifactSweep::Swept(swept)),
        vec![
            ResetEvent::ArtifactsDirectory("\"dir\"".to_string()),
            ResetEvent::ArtifactDeleted("\"a.rdp\"".to_string()),
            ResetEvent::ArtifactKept("\"b.rdp\"".to_string(), "locked".to_string()),
            ResetEvent::ArtifactDeleted("\"c.rdp\"".to_string()),
            ResetEvent::ArtifactsDeleted(2),
        ]
    );
    assert_eq!(
        artifact_events(&"d".to_string(), &ArtifactSweep::Swept(vec![])),
        vec![ResetEvent::ArtifactsDirectory("d".to_string()), ResetEvent::ArtifactsDeleted(0)]
    );
    assert_eq!(
        artifact_events(&"d".to_string(), &ArtifactSweep::Absent),
        vec![ResetEvent::ArtifactsDirectory("d".to_string()), ResetEvent::ArtifactsAbsent]
    );
    assert_eq!(
        artifact_events(&"d".to_string(), &ArtifactSweep::Unreadable("denied".to_string())),
        vec![
            ResetEvent::ArtifactsDirectory("d".to_string()),
            ResetEvent::ArtifactsUnreadable("denied".to_string()),
        ]
    );
}

#[test]
fn reset_goes_on_after_every_failure() {
    let outcomes = ResetOutcomes {
        global_failure: Some("missing".to_string()),
        hosts: HostSweep::Unlisted("none".to_string()),
        artifacts: Some(("d".to_string(), ArtifactSweep::Unreadable("denied".to_string()))),
        inventory_failure: Some("read only".to_string()),
        recent: Some(RecentSweep::Kept("locked".to_string())),
    };
    assert_eq!(
        reset_events(&outcomes),
        vec![
            ResetEvent::GlobalCredentialKept("missing".to_string()),
            ResetEvent::HostCredentialsUnlisted("none".to_string()),
            ResetEvent::ArtifactsDirectory("d".to_string()),
            ResetEvent::ArtifactsUnreadable("denied".to_string()),
            ResetEvent::InventoryKept("read only".to_string()),
            ResetEvent::RecentKept("locked".to_string()),
        ]
    );
}

#[test]
fn reset_without_a_data_directory() {
    let outcomes = ResetOutcomes {
        global_failure: None,
        hosts: HostSweep::Swept(
            1,
            vec![SweptCredential { scope_key: "TERMSRV/a".to_string(), failure: None }],
        ),
        artifacts: None,
        inventory_failure: None,
        recent: None,
    };
    assert_eq!(
        reset_events(&outcomes),
        vec![
            ResetEvent::GlobalCredentialDeleted,
            ResetEvent::HostCredentialsFound(1),
            ResetEvent::HostCredential("TERMSRV/a".to_string()),
            ResetEvent::HostCredentialsProcessed(1),
            ResetEvent::InventoryCleared,
        ]
    );
    let full = ResetOutcomes {
        global_failure: None,
        hosts: HostSweep::Swept(0, vec![]),
        artifacts: Some(("d".to_string(), ArtifactSweep::Absent)),
        inventory_failure: None,
        recent: Some(RecentSweep::Absent),
    };
    assert_eq!(reset_events(&full).last(), Some(&ResetEvent::RecentAbsent));
    let deleted = ResetOutcomes { recent: Some(RecentSweep::Deleted), ..full };
    assert_eq!(reset_events(&deleted).last(), Some(&ResetEvent::RecentDeleted));
}
