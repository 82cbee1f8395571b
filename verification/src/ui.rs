//! What the interface shows: the texts, marks and places that are drawn for a given state.
//! Drawing itself is left to the caller.

use vstd::prelude::*;
use vstd::string::StringExecFns;
use crate::config::Config;
use crate::event_log::{LogEntry, LogLevel};
use crate::rules::{Action, Rule};
use crate::text::{chars_of, decimal_chars, decimal_text, digit_char, skip_chars, string_of};
use crate::theme::{Style, Theme, ThemeColors};

verus! {

/// The views of the interface, each with a tab of its own.
#[derive(Debug, Clone, Copy, PartialEq, Eq, Structural)]
pub enum Tab {
    Dashboard,
    Rules,
    Watches,
    Log,
}

/// What the interface is busy with.
#[derive(Debug, Clone, Copy, PartialEq, Eq, Structural)]
pub enum Mode {
    Normal,
    Help,
    ThemePicker,
    Settings,
    EditRule,
    AddRule,
}

/// The entries of the settings dialog.
#[derive(Debug, Clone, Copy, PartialEq, Eq, Structural)]
pub enum SettingsItem {
    DaemonControl,
    ThemeSelection,
    ConfigLocation,
    PollingInterval,
    LogRetention,
    StartupBehavior,
    Notifications,
}

/// The kinds of action that the rule editor offers.
#[derive(Debug, Clone, Copy, PartialEq, Eq, Structural)]
pub enum ActionTypeSelection {
    Move,
    Copy,
    Rename,
    Trash,
    Delete,
    Run,
    Archive,
    Nothing,
}

/// The fields of the rule editor.
#[derive(Debug, Clone, Copy, PartialEq, Eq, Structural)]
pub enum RuleEditorField {
    Name,
    Enabled,
    Extension,
    NameGlob,
    NameRegex,
    SizeGreater,
    SizeLess,
    AgeGreater,
    AgeLess,
    IsDirectory,
    IsHidden,
    ActionType,
    ActionDestination,
    ActionPattern,
    ActionCommand,
}

/// The rule editor: what was typed into each field, and which field has the focus.
#[derive(Debug, Clone)]
pub struct RuleEditorState {
    pub name: String,
    pub enabled: bool,
    pub extension: String,
    pub name_glob: String,
    pub name_regex: String,
    pub size_greater: String,
    pub size_less: String,
    pub age_greater: String,
    pub age_less: String,
    pub is_directory: Option<bool>,
    pub is_hidden: Option<bool>,
    pub action_type: ActionTypeSelection,
    pub action_destination: String,
    pub action_pattern: String,
    pub action_command: String,
    pub field: RuleEditorField,
}

/// The state of the interface.
#[derive(Debug)]
pub struct AppState {
    pub theme: Theme,
    pub view: Tab,
    pub mode: Mode,
    pub show_help: bool,
    pub config: Config,
    pub config_path: Option<String>,
    pub daemon_running: bool,
    pub selected_rule: Option<usize>,
    pub selected_watch: Option<usize>,
    pub log_entries: Vec<LogEntry>,
    pub status_message: Option<String>,
    pub theme_picker_index: usize,
    pub settings_index: usize,
    pub rule_editor: Option<RuleEditorState>,
}

/// A rectangle of the screen, in cells.
#[derive(Debug, Clone, Copy, PartialEq, Eq, Structural)]
pub struct Rect {
    pub x: u16,
    pub y: u16,
    pub width: u16,
    pub height: u16,
}

/// Which of the dialogs are drawn over the view.
#[derive(Debug, Clone, Copy, PartialEq, Eq, Structural)]
pub struct Overlays {
    pub help: bool,
    pub theme_picker: bool,
    pub settings: bool,
    pub rule_editor: bool,
}

/// The dialogs that are drawn over the view in the given mode.
pub fn overlays(mode: Mode, show_help: bool) -> (r: Overlays)
    ensures
        r.help == (show_help || mode == Mode::Help),
        r.theme_picker == (mode == Mode::ThemePicker),
        r.settings == (mode == Mode::Settings),
        r.rule_editor == (mode == Mode::EditRule || mode == Mode::AddRule),
{
    Overlays {
        help: show_help || mode == Mode::Help,
        theme_picker: mode == Mode::ThemePicker,
        settings: mode == Mode::Settings,
        rule_editor: mode == Mode::EditRule || mode == Mode::AddRule,
    }
}

/// The part of `r` that is `percent_x` hundredths of it wide and `percent_y` hundredths
/// high, and lies in its middle.
pub open spec fn centered_rect_spec(percent_x: u16, percent_y: u16, r: Rect) -> Rect {
    let width = r.width * percent_x / 100;
    let height = r.height * percent_y / 100;
    Rect {
        x: (r.x + (r.width - width) / 2) as u16,
        y: (r.y + (r.height - height) / 2) as u16,
        width: width as u16,
        height: height as u16,
    }
}

/// The rectangle in the middle of `r` that takes the given share of its width and height.
pub fn centered_rect(percent_x: u16, percent_y: u16, r: Rect) -> (c: Rect)
    requires
        percent_x <= 100,
        percent_y <= 100,
        r.x + r.width <= u16::MAX,
        r.y + r.height <= u16::MAX,
    ensures
        c == centered_rect_spec(percent_x, percent_y, r),
        r.x <= c.x,
        r.y <= c.y,
        c.x + c.width <= r.x + r.width,
        c.y + c.height <= r.y + r.height,
{
    assert(r.width * percent_x <= r.width * 100) by (nonlinear_arith)
        requires
            percent_x <= 100,
    ;
    assert(r.height * percent_y <= r.height * 100) by (nonlinear_arith)
        requires
            percent_y <= 100,
    ;
    let width: u16 = ((r.width as u32 * percent_x as u32) / 100) as u16;
    let height: u16 = ((r.height as u32 * percent_y as u32) / 100) as u16;
    Rect {
        x: r.x + (r.width - width) / 2,
        y: r.y + (r.height - height) / 2,
        width,
        height,
    }
}

/// The size that a dialog of the wanted size gets on a screen of the given size: the
/// wanted one, but four cells less than the screen at most.
pub open spec fn fitted(wanted: u16, available: u16) -> u16 {
    let room = if available >= 4 {
        (available - 4) as u16
    } else {
        0u16
    };
    if wanted <= room {
        wanted
    } else {
        room
    }
}

/// Where a dialog of the wanted size is drawn on the screen `area`: in the middle of its
/// width and height, and no larger than the screen less a margin.
pub fn popup_rect(area: Rect, width: u16, height: u16) -> (r: Rect)
    ensures
        r.width == fitted(width, area.width),
        r.height == fitted(height, area.height),
        r.x == (area.width - r.width) / 2,
        r.y == (area.height - r.height) / 2,
{
    let room_x = area.width.saturating_sub(4);
    let room_y = area.height.saturating_sub(4);
    let popup_width = if width <= room_x {
        width
    } else {
        room_x
    };
    let popup_height = if height <= room_y {
        height
    } else {
        room_y
    };
    Rect {
        x: (area.width - popup_width) / 2,
        y: (area.height - popup_height) / 2,
        width: popup_width,
        height: popup_height,
    }
}

impl Tab {
    /// The place of the view's tab.
    pub open spec fn index_spec(self) -> int {
        match self {
            Tab::Dashboard => 0,
            Tab::Rules => 1,
            Tab::Watches => 2,
            Tab::Log => 3,
        }
    }

    /// The name of the view on its tab.
    pub open spec fn title_spec(self) -> Seq<char> {
        match self {
            Tab::Dashboard => "Dashboard"@,
            Tab::Rules => "Rules"@,
            Tab::Watches => "Watches"@,
            Tab::Log => "Log"@,
        }
    }

    /// The views in the order of their tabs.
    pub fn all() -> (r: &'static [Tab])
        ensures
            r@ == seq![Tab::Dashboard, Tab::Rules, Tab::Watches, Tab::Log],
    {
        &[Tab::Dashboard, Tab::Rules, Tab::Watches, Tab::Log]
    }

    /// The place of the view's tab.
    pub fn index(self) -> (i: usize)
        ensures
            i == self.index_spec(),
    {
        match self {
            Tab::Dashboard => 0,
            Tab::Rules => 1,
            Tab::Watches => 2,
            Tab::Log => 3,
        }
    }

    /// The name of the view on its tab.
    pub fn title(self) -> (r: &'static str)
        ensures
            r@ == self.title_spec(),
    {
        match self {
            Tab::Dashboard => "Dashboard",
            Tab::Rules => "Rules",
            Tab::Watches => "Watches",
            Tab::Log => "Log",
        }
    }
}

/// The text of the tab of `view` while `current` is shown: a filled mark for the tab of
/// the view that is shown and a hollow one for the others, then the name.
pub open spec fn tab_title_spec(view: Tab, current: Tab) -> Seq<char> {
    (if view == current {
        "●"@
    } else {
        "○"@
    }) + "  "@ + view.title_spec()
}

/// The text of a tab.
pub fn tab_title(view: Tab, current: Tab) -> (r: String)
    ensures
        r@ == tab_title_spec(view, current),
{
    let mut r = String::from_str(
        if view == current {
            "●"
        } else {
            "○"
        },
    );
    r.append("  ");
    r.append(view.title());
    r
}

/// How many of the rules are enabled.
pub open spec fn enabled_count(rules: Seq<Rule>) -> nat
    decreases rules.len(),
{
    if rules.len() == 0 {
        0
    } else {
        enabled_count(rules.drop_last()) + (if rules.last().enabled {
            1nat
        } else {
            0nat
        })
    }
}

/// The numbers that the dashboard shows.
#[derive(Debug, Clone, Copy, PartialEq, Eq, Structural)]
pub struct DashboardStats {
    pub watch_count: usize,
    pub total_rules: usize,
    pub enabled_rules: usize,
    pub disabled_rules: usize,
}

/// No more rules are enabled than there are.
pub proof fn lemma_enabled_count_bound(rules: Seq<Rule>)
    ensures
        enabled_count(rules) <= rules.len(),
    decreases rules.len(),
{
    if rules.len() > 0 {
        lemma_enabled_count_bound(rules.drop_last());
    }
}

/// Counts the watched folders and the rules, enabled and disabled.
pub fn dashboard_stats(config: &Config) -> (s: DashboardStats)
    ensures
        s.watch_count == config.watches@.len(),
        s.total_rules == config.rules@.len(),
        s.enabled_rules == enabled_count(config.rules@),
        s.disabled_rules == config.rules@.len() - enabled_count(config.rules@),
{
    let mut enabled: usize = 0;
    let mut i: usize = 0;
    while i < config.rules.len()
        invariant
            i <= config.rules.len(),
            enabled == enabled_count(config.rules@.take(i as int)),
            enabled <= i,
        decreases config.rules.len() - i,
    {
        assert(config.rules@.take(i + 1).drop_last() == config.rules@.take(i as int));
        if config.rules[i].enabled {
            enabled += 1;
        }
        i += 1;
    }
    assert(config.rules@.take(i as int) == config.rules@);
    DashboardStats {
        watch_count: config.watches.len(),
        total_rules: config.rules.len(),
        enabled_rules: enabled,
        disabled_rules: config.rules.len() - enabled,
    }
}

/// Whether line `i` of the logo is drawn in the first of its two colours: the lines take
/// turns.
pub fn logo_line_is_primary(i: usize) -> (b: bool)
    ensures
        b == (i % 2 == 0),
{
    i % 2 == 0
}

/// What a list of rules shows of an action: a mark for its kind, and where the file goes or
/// what is run.
pub open spec fn action_preview_spec(action: &Action) -> Seq<char> {
    match action {
        Action::Move { destination, .. } => "→ "@ + destination@,
        Action::Copy { destination, .. } => "⇒ "@ + destination@,
        Action::Rename { pattern } => "✎ "@ + pattern@,
        Action::Trash => "🗑 Trash"@,
        Action::Delete => "⚠ Delete"@,
        Action::Run { command, .. } => "$ "@ + command@,
        Action::Archive { .. } => "📦 Archive"@,
        Action::Nothing => "∅ Nothing"@,
    }
}

/// What a list of rules shows of an action.
pub fn action_preview(action: &Action) -> (r: String)
    ensures
        r@ == action_preview_spec(action),
{
    match action {
        Action::Move { destination, .. } => {
            let mut r = String::from_str("→ ");
            r.append(destination.as_str());
            r
        },
        Action::Copy { destination, .. } => {
            let mut r = String::from_str("⇒ ");
            r.append(destination.as_str());
            r
        },
        Action::Rename { pattern } => {
            let mut r = String::from_str("✎ ");
            r.append(pattern.as_str());
            r
        },
        Action::Trash => String::from_str("🗑 Trash"),
        Action::Delete => String::from_str("⚠ Delete"),
        Action::Run { command, .. } => {
            let mut r = String::from_str("$ ");
            r.append(command.as_str());
            r
        },
        Action::Archive { .. } => String::from_str("📦 Archive"),
        Action::Nothing => String::from_str("∅ Nothing"),
    }
}

/// The mark before a rule: a tick for an enabled rule, a cross for a disabled one.
pub fn rule_status_icon(enabled: bool) -> (r: &'static str)
    ensures
        r@ == (if enabled {
            "✓"@
        } else {
            "✗"@
        }),
{
    if enabled {
        "✓"
    } else {
        "✗"
    }
}

/// The style of the mark before a rule.
pub fn rule_status_style(colors: &ThemeColors, enabled: bool) -> (r: Style)
    ensures
        r == (if enabled {
            Style::colored(colors.success)
        } else {
            Style::colored(colors.error)
        }),
{
    if enabled {
        colors.text_success()
    } else {
        colors.text_error()
    }
}

/// The style of a line of a list: that of the selected item for the selected line.
pub fn line_style(colors: &ThemeColors, selected: Option<usize>, index: usize) -> (r: Style)
    ensures
        r == (if selected == Some(index) {
            Style { fg: Some(colors.fg), bg: Some(colors.selection), bold: true }
        } else {
            Style::colored(colors.fg)
        }),
{
    match selected {
        Some(i) => {
            if i == index {
                colors.selected()
            } else {
                colors.text()
            }
        },
        None => colors.text(),
    }
}

/// The style of the border of a view's block: that of the focus for the view that is
/// shown.
pub fn border_style(colors: &ThemeColors, view: Tab, current: Tab) -> (r: Style)
    ensures
        r == (if view == current {
            Style::colored(colors.border_focus)
        } else {
            Style::colored(colors.border)
        }),
{
    if view == current {
        colors.block_focus()
    } else {
        colors.block()
    }
}

/// What is written behind the path of a watched folder.
pub fn recursive_indicator(recursive: bool) -> (r: &'static str)
    ensures
        r@ == (if recursive {
            " (recursive)"@
        } else {
            ""@
        }),
{
    if recursive {
        " (recursive)"
    } else {
        ""
    }
}

/// The mark before a watched folder: a folder where it exists, a warning where it does
/// not.
pub fn watch_icon(exists: bool) -> (r: &'static str)
    ensures
        r@ == (if exists {
            "📁"@
        } else {
            "⚠"@
        }),
{
    if exists {
        "📁"
    } else {
        "⚠"
    }
}

/// The mark before an entry of the log.
pub open spec fn level_icon_spec(level: LogLevel) -> Seq<char> {
    match level {
        LogLevel::Info => "ℹ"@,
        LogLevel::Success => "✓"@,
        LogLevel::Warning => "⚠"@,
        LogLevel::Error => "✗"@,
    }
}

/// The mark before an entry of the log.
pub fn level_icon(level: LogLevel) -> (r: &'static str)
    ensures
        r@ == level_icon_spec(level),
{
    match level {
        LogLevel::Info => "ℹ",
        LogLevel::Success => "✓",
        LogLevel::Warning => "⚠",
        LogLevel::Error => "✗",
    }
}

/// The style of the mark before an entry of the log.
pub fn level_style(colors: &ThemeColors, level: LogLevel) -> (r: Style)
    ensures
        r == Style::colored(
            match level {
                LogLevel::Info => colors.info,
                LogLevel::Success => colors.success,
                LogLevel::Warning => colors.warning,
                LogLevel::Error => colors.error,
            },
        ),
{
    match level {
        LogLevel::Info => colors.text_info(),
        LogLevel::Success => colors.text_success(),
        LogLevel::Warning => colors.text_warning(),
        LogLevel::Error => colors.text_error(),
    }
}

/// A number below a hundred written with two digits.
pub open spec fn two_digits(n: int) -> Seq<char> {
    seq![digit_char(n / 10), digit_char(n % 10)]
}

/// The time of day of a moment given in seconds since the epoch, as `HH:MM:SS` in
/// universal time.
pub open spec fn clock_text_spec(timestamp: u64) -> Seq<char> {
    let second_of_day = (timestamp % 86400) as int;
    two_digits(second_of_day / 3600) + seq![':'] + two_digits(second_of_day % 3600 / 60) + seq![
        ':',
    ] + two_digits(second_of_day % 60)
}

fn push_two_digits(v: &mut Vec<char>, n: u64)
    requires
        n < 100,
    ensures
        final(v)@ == old(v)@ + two_digits(n as int),
{
    let tens = decimal_chars(n / 10);
    let ones = decimal_chars(n % 10);
    v.push(tens[0]);
    v.push(ones[0]);
    assert(v@ == old(v)@ + two_digits(n as int));
}

/// The time of day of a moment, as the log shows it.
pub fn clock_text(timestamp: u64) -> (r: String)
    ensures
        r@ == clock_text_spec(timestamp),
{
    let second_of_day = timestamp % 86400;
    let mut v: Vec<char> = Vec::new();
    push_two_digits(&mut v, second_of_day / 3600);
    v.push(':');
    push_two_digits(&mut v, second_of_day % 3600 / 60);
    v.push(':');
    push_two_digits(&mut v, second_of_day % 60);
    assert(v@ == clock_text_spec(timestamp));
    string_of(&v)
}

/// The mark before the line that has the focus, and the blank before the others.
pub fn cursor(focused: bool) -> (r: &'static str)
    ensures
        r@ == (if focused {
            "▸"@
        } else {
            " "@
        }),
{
    if focused {
        "▸"
    } else {
        " "
    }
}

/// What a field of the rule editor shows: what was typed, with the cursor behind it where
/// the field has the focus, and a note where an unfocused field is empty.
pub open spec fn input_display_spec(value: Seq<char>, focused: bool) -> Seq<char> {
    if focused {
        value + "│"@
    } else if value.len() == 0 {
        "(empty)"@
    } else {
        value
    }
}

/// What a field of the rule editor shows.
pub fn input_display(value: &str, focused: bool) -> (r: String)
    ensures
        r@ == input_display_spec(value@, focused),
{
    if focused {
        let mut r = String::from_str(value);
        r.append("│");
        r
    } else if value.unicode_len() == 0 {
        String::from_str("(empty)")
    } else {
        String::from_str(value)
    }
}

/// What a switch of the rule editor shows.
pub fn toggle_display(value: bool) -> (r: &'static str)
    ensures
        r@ == (if value {
            "✓ Yes"@
        } else {
            "✗ No"@
        }),
{
    if value {
        "✓ Yes"
    } else {
        "✗ No"
    }
}

/// What a condition on a property of the file shows: any, yes or no.
pub open spec fn tri_state_display_spec(value: Option<bool>) -> Seq<char> {
    match value {
        None => "─ Any"@,
        Some(true) => "✓ Yes"@,
        Some(false) => "✗ No"@,
    }
}

/// What a condition on a property of the file shows.
pub fn tri_state_display(value: Option<bool>) -> (r: &'static str)
    ensures
        r@ == tri_state_display_spec(value),
{
    match value {
        None => "─ Any",
        Some(true) => "✓ Yes",
        Some(false) => "✗ No",
    }
}

/// The style of what a condition on a property of the file shows.
pub fn tri_state_style(colors: &ThemeColors, value: Option<bool>) -> (r: Style)
    ensures
        r == Style::colored(
            match value {
                None => colors.fg_muted,
                Some(true) => colors.success,
                Some(false) => colors.error,
            },
        ),
{
    match value {
        None => colors.text_muted(),
        Some(true) => colors.text_success(),
        Some(false) => colors.text_error(),
    }
}

impl ActionTypeSelection {
    /// The name of the kind of action.
    pub open spec fn name_spec(self) -> Seq<char> {
        match self {
            ActionTypeSelection::Move => "Move"@,
            ActionTypeSelection::Copy => "Copy"@,
            ActionTypeSelection::Rename => "Rename"@,
            ActionTypeSelection::Trash => "Trash"@,
            ActionTypeSelection::Delete => "Delete"@,
            ActionTypeSelection::Run => "Run"@,
            ActionTypeSelection::Archive => "Archive"@,
            ActionTypeSelection::Nothing => "Nothing"@,
        }
    }

    /// The field in which the rule editor takes what the kind of action needs to know:
    /// the destination for a move, a copy or an archive, the pattern for a new name, the
    /// command for a run, and none for the others.
    pub open spec fn detail_field_spec(self) -> Option<RuleEditorField> {
        match self {
            ActionTypeSelection::Move => Some(RuleEditorField::ActionDestination),
            ActionTypeSelection::Copy => Some(RuleEditorField::ActionDestination),
            ActionTypeSelection::Archive => Some(RuleEditorField::ActionDestination),
            ActionTypeSelection::Rename => Some(RuleEditorField::ActionPattern),
            ActionTypeSelection::Run => Some(RuleEditorField::ActionCommand),
            _ => None,
        }
    }

    /// The name of the kind of action.
    pub fn name(self) -> (r: &'static str)
        ensures
            r@ == self.name_spec(),
    {
        match self {
            ActionTypeSelection::Move => "Move",
            ActionTypeSelection::Copy => "Copy",
            ActionTypeSelection::Rename => "Rename",
            ActionTypeSelection::Trash => "Trash",
            ActionTypeSelection::Delete => "Delete",
            ActionTypeSelection::Run => "Run",
            ActionTypeSelection::Archive => "Archive",
            ActionTypeSelection::Nothing => "Nothing",
        }
    }

    /// The field in which the rule editor takes what the kind of action needs to know.
    pub fn detail_field(self) -> (r: Option<RuleEditorField>)
        ensures
            r == self.detail_field_spec(),
    {
        match self {
            ActionTypeSelection::Move => Some(RuleEditorField::ActionDestination),
            ActionTypeSelection::Copy => Some(RuleEditorField::ActionDestination),
            ActionTypeSelection::Archive => Some(RuleEditorField::ActionDestination),
            ActionTypeSelection::Rename => Some(RuleEditorField::ActionPattern),
            ActionTypeSelection::Run => Some(RuleEditorField::ActionCommand),
            _ => None,
        }
    }

    /// The kind of the given action.
    pub fn of(action: &Action) -> (r: ActionTypeSelection)
        ensures
            r == (match action {
                Action::Move { .. } => ActionTypeSelection::Move,
                Action::Copy { .. } => ActionTypeSelection::Copy,
                Action::Rename { .. } => ActionTypeSelection::Rename,
                Action::Trash => ActionTypeSelection::Trash,
                Action::Delete => ActionTypeSelection::Delete,
                Action::Run { .. } => ActionTypeSelection::Run,
                Action::Archive { .. } => ActionTypeSelection::Archive,
                Action::Nothing => ActionTypeSelection::Nothing,
            }),
    {
        match action {
            Action::Move { .. } => ActionTypeSelection::Move,
            Action::Copy { .. } => ActionTypeSelection::Copy,
            Action::Rename { .. } => ActionTypeSelection::Rename,
            Action::Trash => ActionTypeSelection::Trash,
            Action::Delete => ActionTypeSelection::Delete,
            Action::Run { .. } => ActionTypeSelection::Run,
            Action::Archive { .. } => ActionTypeSelection::Archive,
            Action::Nothing => ActionTypeSelection::Nothing,
        }
    }
}

/// The title of the rule editor.
pub fn editor_title(mode: Mode) -> (r: &'static str)
    ensures
        r@ == (if mode == Mode::AddRule {
            " ➕ New Rule "@
        } else {
            " ✏ Edit Rule "@
        }),
{
    if mode == Mode::AddRule {
        " ➕ New Rule "
    } else {
        " ✏ Edit Rule "
    }
}

/// `text` with blanks behind it up to `width` characters; a text that is as long or
/// longer stays as it is.
pub open spec fn pad_right_spec(text: Seq<char>, width: nat) -> Seq<char> {
    if text.len() >= width {
        text
    } else {
        text + Seq::new((width - text.len()) as nat, |i: int| ' ')
    }
}

/// Fills `text` with blanks up to `width` characters.
pub fn pad_right(text: &str, width: usize) -> (r: String)
    ensures
        r@ == pad_right_spec(text@, width as nat),
{
    let mut v = chars_of(text);
    let ghost start = v@;
    if v.len() >= width {
        return string_of(&v);
    }
    while v.len() < width
        invariant
            start.len() <= v@.len() <= width,
            v@ == start + Seq::new((v@.len() - start.len()) as nat, |i: int| ' '),
        decreases width - v@.len(),
    {
        v.push(' ');
    }
    string_of(&v)
}

/// The title of a dialog that shows which of its entries is chosen: the label, and in
/// brackets the place of the entry, counted from one, and the number of entries.
pub open spec fn counted_title_spec(label: Seq<char>, index: nat, count: nat) -> Seq<char> {
    label + " ("@ + decimal_text(index + 1) + "/"@ + decimal_text(count) + ") "@
}

/// The title of a dialog that shows which of its entries is chosen.
pub fn counted_title(label: &str, index: usize, count: usize) -> (r: String)
    requires
        index < usize::MAX,
    ensures
        r@ == counted_title_spec(label@, index as nat, count as nat),
{
    let mut r = String::from_str(label);
    r.append(" (");
    r.append(string_of(&decimal_chars((index + 1) as u64)).as_str());
    r.append("/");
    r.append(string_of(&decimal_chars(count as u64)).as_str());
    r.append(") ");
    r
}

impl SettingsItem {
    /// The entries of the settings dialog, in the order in which it lists them.
    pub fn all() -> (r: &'static [SettingsItem])
        ensures
            r@ == seq![
                SettingsItem::DaemonControl,
                SettingsItem::ThemeSelection,
                SettingsItem::ConfigLocation,
                SettingsItem::PollingInterval,
                SettingsItem::LogRetention,
                SettingsItem::StartupBehavior,
                SettingsItem::Notifications,
            ],
    {
        &[
            SettingsItem::DaemonControl,
            SettingsItem::ThemeSelection,
            SettingsItem::ConfigLocation,
            SettingsItem::PollingInterval,
            SettingsItem::LogRetention,
            SettingsItem::StartupBehavior,
            SettingsItem::Notifications,
        ]
    }

    /// The name of the entry.
    pub open spec fn label_spec(self) -> Seq<char> {
        match self {
            SettingsItem::DaemonControl => "Daemon"@,
            SettingsItem::ThemeSelection => "Theme"@,
            SettingsItem::ConfigLocation => "Config Location"@,
            SettingsItem::PollingInterval => "Polling Interval"@,
            SettingsItem::LogRetention => "Log Retention"@,
            SettingsItem::StartupBehavior => "Start Daemon on Launch"@,
            SettingsItem::Notifications => "Notifications"@,
        }
    }

    /// The name of the entry.
    pub fn label(self) -> (r: &'static str)
        ensures
            r@ == self.label_spec(),
    {
        match self {
            SettingsItem::DaemonControl => "Daemon",
            SettingsItem::ThemeSelection => "Theme",
            SettingsItem::ConfigLocation => "Config Location",
            SettingsItem::PollingInterval => "Polling Interval",
            SettingsItem::LogRetention => "Log Retention",
            SettingsItem::StartupBehavior => "Start Daemon on Launch",
            SettingsItem::Notifications => "Notifications",
        }
    }

    /// The mark before the entry.
    pub open spec fn icon_spec(self) -> Seq<char> {
        match self {
            SettingsItem::DaemonControl => "🔌"@,
            SettingsItem::ThemeSelection => "🎨"@,
            SettingsItem::ConfigLocation => "📄"@,
            SettingsItem::PollingInterval => "⏱"@,
            SettingsItem::LogRetention => "📜"@,
            SettingsItem::StartupBehavior => "🚀"@,
            SettingsItem::Notifications => "🔔"@,
        }
    }

    /// The mark before the entry.
    pub fn icon(self) -> (r: &'static str)
        ensures
            r@ == self.icon_spec(),
    {
        match self {
            SettingsItem::DaemonControl => "🔌",
            SettingsItem::ThemeSelection => "🎨",
            SettingsItem::ConfigLocation => "📄",
            SettingsItem::PollingInterval => "⏱",
            SettingsItem::LogRetention => "📜",
            SettingsItem::StartupBehavior => "🚀",
            SettingsItem::Notifications => "🔔",
        }
    }
}

/// A path as the settings dialog shows it: one of more than 25 characters is cut to its
/// last 22, with three dots before them.
pub open spec fn shortened(path: Seq<char>) -> Seq<char> {
    if path.len() > 25 {
        "..."@ + path.skip(path.len() - 22)
    } else {
        path
    }
}

/// Cuts a path to the length that the settings dialog has room for.
pub fn shorten_path(path: &str) -> (r: String)
    ensures
        r@ == shortened(path@),
{
    let chars = chars_of(path);
    if chars.len() > 25 {
        let mut r = String::from_str("...");
        r.append(string_of(&skip_chars(&chars, chars.len() - 22)).as_str());
        r
    } else {
        string_of(&chars)
    }
}

/// Whether a setting is shown as enabled or disabled.
pub open spec fn enabled_text(enabled: bool) -> Seq<char> {
    if enabled {
        "✓ Enabled"@
    } else {
        "✗ Disabled"@
    }
}

/// What the settings dialog shows as the value of an entry, where `default_path` is the
/// place in which the configuration is looked for when the state names none.
pub open spec fn settings_value_spec(
    state: &AppState,
    item: SettingsItem,
    default_path: Option<Seq<char>>,
) -> Seq<char> {
    match item {
        SettingsItem::DaemonControl => if state.daemon_running {
            "● Running"@
        } else {
            "○ Stopped"@
        },
        SettingsItem::ThemeSelection => state.theme.name_spec(),
        SettingsItem::ConfigLocation => match state.config_path {
            Some(p) => shortened(p@),
            None => match default_path {
                Some(d) => shortened(d),
                None => "Not set"@,
            },
        },
        SettingsItem::PollingInterval => decimal_text(
            state.config.general.polling_interval_secs as nat,
        ) + "s"@,
        SettingsItem::LogRetention => decimal_text(state.config.general.log_retention as nat)
            + " entries"@,
        SettingsItem::StartupBehavior => enabled_text(state.config.general.start_daemon_on_launch),
        SettingsItem::Notifications => enabled_text(state.config.general.notifications_enabled)
            + " (coming soon)"@,
    }
}

/// What the settings dialog shows as the value of an entry, given the place in which the
/// configuration is looked for when the state names none.
pub fn settings_value_display(state: &AppState, item: SettingsItem, default_path: Option<&str>) -> (r:
    String)
    ensures
        r@ == settings_value_spec(
            state,
            item,
            match default_path {
                Some(d) => Some(d@),
                None => None,
            },
        ),
{
    match item {
        SettingsItem::DaemonControl => {
            if state.daemon_running {
                String::from_str("● Running")
            } else {
                String::from_str("○ Stopped")
            }
        },
        SettingsItem::ThemeSelection => String::from_str(state.theme.name()),
        SettingsItem::ConfigLocation => match &state.config_path {
            Some(p) => shorten_path(p.as_str()),
            None => match default_path {
                Some(d) => shorten_path(d),
                None => String::from_str("Not set"),
            },
        },
        SettingsItem::PollingInterval => {
            let mut r = string_of(&decimal_chars(state.config.general.polling_interval_secs));
            r.append("s");
            r
        },
        SettingsItem::LogRetention => {
            let mut r = string_of(&decimal_chars(state.config.general.log_retention as u64));
            r.append(" entries");
            r
        },
        SettingsItem::StartupBehavior => {
            if state.config.general.start_daemon_on_launch {
                String::from_str("✓ Enabled")
            } else {
                String::from_str("✗ Disabled")
            }
        },
        SettingsItem::Notifications => {
            let mut r = if state.config.general.notifications_enabled {
                String::from_str("✓ Enabled")
            } else {
                String::from_str("✗ Disabled")
            };
            r.append(" (coming soon)");
            r
        },
    }
}

/// What the settings dialog shows as the value of an entry. Only the place of the
/// configuration, and only where the state names none, depends on the user's
/// environment.
pub fn get_settings_value_display(state: &AppState, item: SettingsItem) -> (r: String)
    ensures
        exists|default_path: Option<Seq<char>>|
            r@ == settings_value_spec(state, item, default_path),
        !(item == SettingsItem::ConfigLocation && state.config_path is None)
            ==> r@ == settings_value_spec(state, item, None),
{
    if item == SettingsItem::ConfigLocation && state.config_path.is_none() {
        let found = Config::default_path();
        let r = match &found {
            Some(p) => settings_value_display(state, item, Some(p.as_str())),
            None => settings_value_display(state, item, None),
        };
        proof {
            let witness = match found {
                Some(p) => Some(p@),
                None => None,
            };
            assert(r@ == settings_value_spec(state, item, witness));
        }
        r
    } else {
        let r = settings_value_display(state, item, None);
        assert(r@ == settings_value_spec(state, item, None));
        r
    }
}

/// Whether the status bar shows the message of the state in place of the key hints.
pub fn status_bar_shows_message(state: &AppState) -> (b: bool)
    ensures
        b == state.status_message is Some,
{
    state.status_message.is_some()
}

} // verus!
