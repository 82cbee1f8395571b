use hazelnut::config::{Config, General, Watch};
use hazelnut::event_log::LogLevel;
use hazelnut::rules::{Action, Condition, Rule};
use hazelnut::theme::{Style, Theme};
use hazelnut::ui::{
    action_preview, border_style, centered_rect, clock_text, counted_title, cursor,
    dashboard_stats, editor_title, get_settings_value_display, input_display, level_icon,
    level_style, line_style, logo_line_is_primary, overlays, pad_right, popup_rect,
    recursive_indicator, rule_status_icon, rule_status_style, settings_value_display,
    shorten_path, status_bar_shows_message, tab_title, toggle_display, tri_state_display,
    tri_state_style, watch_icon, ActionTypeSelection, AppState, DashboardStats, Mode, Overlays,
    Rect, RuleEditorField, SettingsItem, Tab,
};
use hazelnut::config::Config as Configuration;

fn rule(enabled: bool) -> Rule {
    Rule { name: "r".to_string(), enabled, conditions: Condition::any(), action: Action::Nothing }
}

fn state() -> AppState {
    AppState {
        theme: Theme::Nord,
        view: Tab::Dashboard,
        mode: Mode::Normal,
        show_help: false,
        config: Config {
            general: General {
                polling_interval_secs: 5,
                log_retention: 1000,
                start_daemon_on_launch: true,
                notifications_enabled: false,
            },
            watches: vec![Watch { path: "/d".to_string(), recursive: true }],
            rules: vec![rule(true), rule(false), rule(true)],
        },
        config_path: None,
        daemon_running: false,
        selected_rule: None,
        selected_watch: None,
        log_entries: Vec::new(),
        status_message: None,
        theme_picker_index: 0,
        settings_index: 0,
        rule_editor: None,
    }
}

#[test]
fn overlays_follow_the_mode() {
    let none = Overlays { help: false, theme_picker: false, settings: false, rule_editor: false };
    assert_eq!(overlays(Mode::Normal, false), none);
    assert_eq!(overlays(Mode::Normal, true), Overlays { help: true, ..none });
    assert_eq!(overlays(Mode::Help, false), Overlays { help: true, ..none });
    assert_eq!(overlays(Mode::ThemePicker, false), Overlays { theme_picker: true, ..none });
    assert_eq!(overlays(Mode::Settings, false), Overlays { settings: true, ..none });
    assert_eq!(overlays(Mode::EditRule, false), Overlays { rule_editor: true, ..none });
    assert_eq!(
        overlays(Mode::AddRule, true),
        Overlays { help: true, rule_editor: true, ..none }
    );
}

#[test]
fn centered_rect_lies_in_the_middle() {
    let area = Rect { x: 0, y: 0, width: 100, height: 40 };
    assert_eq!(centered_rect(50, 70, area), Rect { x: 25, y: 6, width: 50, height: 28 });
    let area = Rect { x: 10, y: 5, width: 81, height: 25 };
    assert_eq!(centered_rect(50, 70, area), Rect { x: 30, y: 9, width: 40, height: 17 });
    assert_eq!(centered_rect(100, 100, area), area);
    assert_eq!(centered_rect(0, 0, area), Rect { x: 50, y: 17, width: 0, height: 0 });
    let wide = Rect { x: 0, y: 0, width: 1000, height: 1000 };
    assert_eq!(centered_rect(70, 70, wide), Rect { x: 150, y: 150, width: 700, height: 700 });
}

#[test]
fn popup_fits_the_screen() {
    let area = Rect { x: 0, y: 0, width: 100, height: 40 };
    assert_eq!(popup_rect(area, 60, 22), Rect { x: 20, y: 9, width: 60, height: 22 });
    let small = Rect { x: 0, y: 0, width: 50, height: 20 };
    assert_eq!(popup_rect(small, 60, 22), Rect { x: 2, y: 2, width: 46, height: 16 });
    let tiny = Rect { x: 0, y: 0, width: 3, height: 0 };
    assert_eq!(popup_rect(tiny, 70, 30), Rect { x: 1, y: 0, width: 0, height: 0 });
}

#[test]
fn tabs_are_marked_and_numbered() {
    assert_eq!(Tab::all(), [Tab::Dashboard, Tab::Rules, Tab::Watches, Tab::Log]);
    assert_eq!(Tab::Dashboard.index(), 0);
    assert_eq!(Tab::Rules.index(), 1);
    assert_eq!(Tab::Watches.index(), 2);
    assert_eq!(Tab::Log.index(), 3);
    assert_eq!(tab_title(Tab::Dashboard, Tab::Dashboard), "\u{25cf}  Dashboard");
    assert_eq!(tab_title(Tab::Rules, Tab::Dashboard), "\u{25cb}  Rules");
    assert_eq!(tab_title(Tab::Watches, Tab::Watches), "\u{25cf}  Watches");
    assert_eq!(tab_title(Tab::Log, Tab::Rules), "\u{25cb}  Log");
}

#[test]
fn dashboard_counts_rules() {
    let s = state();
    assert_eq!(
        dashboard_stats(&s.config),
        DashboardStats { watch_count: 1, total_rules: 3, enabled_rules: 2, disabled_rules: 1 }
    );
    let empty = Configuration {
        general: General::default(),
        watches: Vec::new(),
        rules: Vec::new(),
    };
    assert_eq!(
        dashboard_stats(&empty),
        DashboardStats { watch_count: 0, total_rules: 0, enabled_rules: 0, disabled_rules: 0 }
    );
    assert!(logo_line_is_primary(0));
    assert!(!logo_line_is_primary(1));
    assert!(logo_line_is_primary(6));
}

#[test]
fn default_settings() {
    let g = General::default();
    assert_eq!(g.polling_interval_secs, 5);
    assert_eq!(g.log_retention, 1000);
    assert!(!g.start_daemon_on_launch);
    assert!(!g.notifications_enabled);
}

#[test]
fn action_previews() {
    let mv = Action::Move { destination: "~/Invoices".to_string(), create_dirs: true };
    let cp = Action::Copy { destination: "/backup".to_string(), create_dirs: false };
    let rn = Action::Rename { pattern: "{date}_{name}".to_string() };
    let run = Action::Run { command: "gzip".to_string(), args: vec!["-9".to_string()] };
    let ar = Action::Archive { destination: "/arch".to_string() };
    assert_eq!(action_preview(&mv), "\u{2192} ~/Invoices");
    assert_eq!(action_preview(&cp), "\u{21d2} /backup");
    assert_eq!(action_preview(&rn), "\u{270e} {date}_{name}");
    assert_eq!(action_preview(&Action::Trash), "\u{1f5d1} Trash");
    assert_eq!(action_preview(&Action::Delete), "\u{26a0} Delete");
    assert_eq!(action_preview(&run), "$ gzip");
    assert_eq!(action_preview(&ar), "\u{1f4e6} Archive");
    assert_eq!(action_preview(&Action::Nothing), "\u{2205} Nothing");
    assert_eq!(ActionTypeSelection::of(&mv), ActionTypeSelection::Move);
    assert_eq!(ActionTypeSelection::of(&run), ActionTypeSelection::Run);
    assert_eq!(ActionTypeSelection::of(&Action::Nothing), ActionTypeSelection::Nothing);
}

#[test]
fn list_marks_and_styles() {
    let c = Theme::Dracula.colors();
    assert_eq!(rule_status_icon(true), "\u{2713}");
    assert_eq!(rule_status_icon(false), "\u{2717}");
    assert_eq!(rule_status_style(&c, true), c.text_success());
    assert_eq!(rule_status_style(&c, false), c.text_error());
    assert_eq!(line_style(&c, Some(2), 2), c.selected());
    assert_eq!(line_style(&c, Some(1), 2), c.text());
    assert_eq!(line_style(&c, None, 0), c.text());
    assert_eq!(border_style(&c, Tab::Rules, Tab::Rules), c.block_focus());
    assert_eq!(border_style(&c, Tab::Rules, Tab::Log), c.block());
    assert_eq!(recursive_indicator(true), " (recursive)");
    assert_eq!(recursive_indicator(false), "");
    assert_eq!(watch_icon(true), "\u{1f4c1}");
    assert_eq!(watch_icon(false), "\u{26a0}");
    assert_eq!(level_icon(LogLevel::Info), "\u{2139}");
    assert_eq!(level_icon(LogLevel::Success), "\u{2713}");
    assert_eq!(level_icon(LogLevel::Warning), "\u{26a0}");
    assert_eq!(level_icon(LogLevel::Error), "\u{2717}");
    assert_eq!(level_style(&c, LogLevel::Info), c.text_info());
    assert_eq!(level_style(&c, LogLevel::Success), c.text_success());
    assert_eq!(level_style(&c, LogLevel::Warning), c.text_warning());
    assert_eq!(level_style(&c, LogLevel::Error), c.text_error());
    assert_eq!(
        level_style(&c, LogLevel::Error),
        Style { fg: Some(c.error), bg: None, bold: false }
    );
}

#[test]
fn clock_shows_the_time_of_day() {
    assert_eq!(clock_text(0), "00:00:00");
    assert_eq!(clock_text(59), "00:00:59");
    assert_eq!(clock_text(3661), "01:01:01");
    assert_eq!(clock_text(86399), "23:59:59");
    assert_eq!(clock_text(86400), "00:00:00");
    assert_eq!(clock_text(1_700_000_000), "22:13:20");
}

#[test]
fn rule_editor_fields() {
    assert_eq!(cursor(true), "\u{25b8}");
    assert_eq!(cursor(false), " ");
    assert_eq!(input_display("", true), "\u{2502}");
    assert_eq!(input_display("abc", true), "abc\u{2502}");
    assert_eq!(input_display("", false), "(empty)");
    assert_eq!(input_display("abc", false), "abc");
    assert_eq!(toggle_display(true), "\u{2713} Yes");
    assert_eq!(toggle_display(false), "\u{2717} No");
    assert_eq!(tri_state_display(None), "\u{2500} Any");
    assert_eq!(tri_state_display(Some(true)), "\u{2713} Yes");
    assert_eq!(tri_state_display(Some(false)), "\u{2717} No");
    let c = Theme::Nord.colors();
    assert_eq!(tri_state_style(&c, None), c.text_muted());
    assert_eq!(tri_state_style(&c, Some(true)), c.text_success());
    assert_eq!(tri_state_style(&c, Some(false)), c.text_error());
    assert_eq!(editor_title(Mode::AddRule), " \u{2795} New Rule ");
    assert_eq!(editor_title(Mode::EditRule), " \u{270f} Edit Rule ");
}

#[test]
fn action_kinds_have_names_and_detail_fields() {
    let kinds = [
        ActionTypeSelection::Move,
        ActionTypeSelection::Copy,
        ActionTypeSelection::Rename,
        ActionTypeSelection::Trash,
        ActionTypeSelection::Delete,
        ActionTypeSelection::Run,
        ActionTypeSelection::Archive,
        ActionTypeSelection::Nothing,
    ];
    let names: Vec<&str> = kinds.iter().map(|a| a.name()).collect();
    assert_eq!(
        names,
        vec!["Move", "Copy", "Rename", "Trash", "Delete", "Run", "Archive", "Nothing"]
    );
    assert_eq!(ActionTypeSelection::Move.detail_field(), Some(RuleEditorField::ActionDestination));
    assert_eq!(ActionTypeSelection::Copy.detail_field(), Some(RuleEditorField::ActionDestination));
    assert_eq!(ActionTypeSelection::Archive.detail_field(), Some(RuleEditorField::ActionDestination));
    assert_eq!(ActionTypeSelection::Rename.detail_field(), Some(RuleEditorField::ActionPattern));
    assert_eq!(ActionTypeSelection::Run.detail_field(), Some(RuleEditorField::ActionCommand));
    assert_eq!(ActionTypeSelection::Trash.detail_field(), None);
    assert_eq!(ActionTypeSelection::Delete.detail_field(), None);
    assert_eq!(ActionTypeSelection::Nothing.detail_field(), None);
}

#[test]
fn padding_and_titles() {
    assert_eq!(pad_right("Theme", 8), "Theme   ");
    assert_eq!(pad_right("Theme", 5), "Theme");
    assert_eq!(pad_right("Theme", 2), "Theme");
    assert_eq!(pad_right("", 3), "   ");
    assert_eq!(pad_right("Ros\u{e9}", 6), "Ros\u{e9}  ");
    assert_eq!(counted_title(" Settings", 0, 7), " Settings (1/7) ");
    assert_eq!(counted_title(" Select Theme", 14, 15), " Select Theme (15/15) ");
}

#[test]
fn long_paths_are_shortened() {
    assert_eq!(shorten_path("/short/path"), "/short/path");
    assert_eq!(shorten_path("1234567890123456789012345"), "1234567890123456789012345");
    assert_eq!(shorten_path("12345678901234567890123456"), "...5678901234567890123456");
    assert_eq!(
        shorten_path("/home/someone/.config/tidy/config.toml"),
        "...onfig/tidy/config.toml"
    );
}

#[test]
fn settings_values() {
    let mut s = state();
    let none: Option<&str> = None;
    assert_eq!(settings_value_display(&s, SettingsItem::DaemonControl, none), "\u{25cb} Stopped");
    s.daemon_running = true;
    assert_eq!(settings_value_display(&s, SettingsItem::DaemonControl, none), "\u{25cf} Running");
    assert_eq!(settings_value_display(&s, SettingsItem::ThemeSelection, none), "Nord");
    assert_eq!(settings_value_display(&s, SettingsItem::ConfigLocation, none), "Not set");
    assert_eq!(
        settings_value_display(&s, SettingsItem::ConfigLocation, Some("/etc/tidy.toml")),
        "/etc/tidy.toml"
    );
    assert_eq!(
        settings_value_display(
            &s,
            SettingsItem::ConfigLocation,
            Some("/home/someone/.config/tidy/config.toml")
        ),
        "...onfig/tidy/config.toml"
    );
    s.config_path = Some("/my/config.toml".to_string());
    assert_eq!(
        settings_value_display(&s, SettingsItem::ConfigLocation, Some("/etc/tidy.toml")),
        "/my/config.toml"
    );
    assert_eq!(get_settings_value_display(&s, SettingsItem::ConfigLocation), "/my/config.toml");
    assert_eq!(settings_value_display(&s, SettingsItem::PollingInterval, none), "5s");
    assert_eq!(settings_value_display(&s, SettingsItem::LogRetention, none), "1000 entries");
    assert_eq!(
        settings_value_display(&s, SettingsItem::StartupBehavior, none),
        "\u{2713} Enabled"
    );
    assert_eq!(
        settings_value_display(&s, SettingsItem::Notifications, none),
        "\u{2717} Disabled (coming soon)"
    );
    s.config.general.notifications_enabled = true;
    s.config.general.start_daemon_on_launch = false;
    assert_eq!(
        get_settings_value_display(&s, SettingsItem::Notifications),
        "\u{2713} Enabled (coming soon)"
    );
    assert_eq!(
        get_settings_value_display(&s, SettingsItem::StartupBehavior),
        "\u{2717} Disabled"
    );
    assert_eq!(get_settings_value_display(&s, SettingsItem::PollingInterval), "5s");
}

#[test]
fn settings_items_are_listed_with_labels() {
    let all = SettingsItem::all();
    assert_eq!(all.len(), 7);
    assert_eq!(all[0], SettingsItem::DaemonControl);
    assert_eq!(all[6], SettingsItem::Notifications);
    assert_eq!(SettingsItem::ThemeSelection.label(), "Theme");
    assert_eq!(SettingsItem::ConfigLocation.label(), "Config Location");
    for item in all {
        assert!(!item.label().is_empty());
        assert!(!item.icon().is_empty());
    }
}

#[test]
fn status_bar_prefers_the_message() {
    let mut s = state();
    assert!(!status_bar_shows_message(&s));
    s.status_message = Some("saved".to_string());
    assert!(status_bar_shows_message(&s));
}

#[test]
fn default_config_path_lies_below_the_config_directory() {
    assert_eq!(Configuration::path_in("/home/u/.config"), "/home/u/.config/tidy/config.toml");
    assert_eq!(Configuration::path_in("/c/"), "/c/tidy/config.toml");
    if let Some(p) = Configuration::default_path() {
        assert!(p.ends_with("tidy/config.toml"));
    }
}
