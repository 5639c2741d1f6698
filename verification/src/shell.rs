//! The decisions of the application shell: which window a toggle acts
//! on, which theme follows the platform, and how the tray menu names its
//! items.

use vstd::prelude::*;
use crate::text::{chars_of, is_white_space, same_text, text_of, texts_of, whitespace};

verus! {

/// The name of the light theme.
pub const THEME_LIGHT: &'static str = "light";

/// The name of the dark theme.
pub const THEME_DARK: &'static str = "dark";

/// What begins the identifier of a tray item for a recent connection;
/// the host name follows.
pub const RECENT_ITEM_PREFIX: &'static str = "recent_";

/// What stands between host name and description on a tray item.
pub const RECENT_ITEM_SEPARATOR: &'static str = " - ";

/// The label of the login window.
pub const WINDOW_LOGIN: &'static str = "login";

/// The label of the main window.
pub const WINDOW_MAIN: &'static str = "main";

/// The label of the hosts window.
pub const WINDOW_HOSTS: &'static str = "hosts";

/// What marks a tray item whose setting is on.
pub const MARK_ON: &'static str = "✓ ";

/// What marks a tray item whose setting is off.
pub const MARK_OFF: &'static str = "✗ ";

/// The label of the tray item that switches the start with the platform.
pub const AUTOSTART_LABEL: &'static str = "Autostart with Windows";

/// The label of the tray item for the light theme.
pub const LIGHT_LABEL: &'static str = "Light";

/// The label of the tray item for the dark theme.
pub const DARK_LABEL: &'static str = "Dark";

/// The identifier of the tray item that switches the start with the
/// platform.
pub const ITEM_AUTOSTART: &'static str = "toggle_autostart";

/// The identifier of the tray item for the light theme.
pub const ITEM_LIGHT: &'static str = "theme_light";

/// The identifier of the tray item for the dark theme.
pub const ITEM_DARK: &'static str = "theme_dark";

/// The identifier of the tray item that shows the about window.
pub const ITEM_ABOUT: &'static str = "about";

/// The identifier of the tray item that quits.
pub const ITEM_QUIT: &'static str = "quit";

/// A colour theme.
#[derive(Clone, Copy, Debug, PartialEq, Eq, Structural)]
pub enum Theme {
    Light,
    Dark,
}

/// What a toggle of the start with the platform does.
#[derive(Clone, Copy, Debug, PartialEq, Eq, Structural)]
pub enum AutostartToggle {
    /// The start with the platform is on: switch it off.
    Disable,
    /// The start with the platform is off: switch it on.
    Enable,
}

/// What a toggle of the visible window does.
#[derive(Clone, Copy, Debug, PartialEq, Eq, Structural)]
pub enum WindowToggle {
    /// The login window is visible: hide it.
    HideLogin,
    /// The main window is visible: hide it.
    HideMain,
    /// Neither is visible: show the login window.
    ShowLogin,
}

/// What the choice of a tray item asks for.
#[derive(Clone, Debug, PartialEq, Eq)]
pub enum TrayAction {
    /// Launch a session to the host of a recent connection.
    Launch(String),
    /// Switch the start with the platform on or off.
    ToggleAutostart,
    /// Take the theme.
    SetTheme(Theme),
    /// Show the about window.
    ShowAbout,
    /// Quit.
    Quit,
    /// Nothing.
    Nothing,
}

/// What the choice of the tray item `item` asks for, hosts by their
/// name.
pub open spec fn tray_action_of(item: Seq<char>) -> Option<TrayActionText> {
    if RECENT_ITEM_PREFIX@.is_prefix_of(item) {
        match recent_host_of(item) {
            Some(hostname) => Some(TrayActionText::Launch(hostname)),
            None => None,
        }
    } else if item == ITEM_AUTOSTART@ {
        Some(TrayActionText::ToggleAutostart)
    } else if item == ITEM_LIGHT@ {
        Some(TrayActionText::SetTheme(Theme::Light))
    } else if item == ITEM_DARK@ {
        Some(TrayActionText::SetTheme(Theme::Dark))
    } else if item == ITEM_ABOUT@ {
        Some(TrayActionText::ShowAbout)
    } else if item == ITEM_QUIT@ {
        Some(TrayActionText::Quit)
    } else {
        None
    }
}

/// What a `TrayAction` that asks for something stands for in contracts.
pub enum TrayActionText {
    Launch(Seq<char>),
    ToggleAutostart,
    SetTheme(Theme),
    ShowAbout,
    Quit,
}

impl TrayAction {
    /// What this action stands for in contracts: nothing for `Nothing`.
    pub open spec fn text(self) -> Option<TrayActionText> {
        match self {
            TrayAction::Launch(hostname) => Some(TrayActionText::Launch(hostname@)),
            TrayAction::ToggleAutostart => Some(TrayActionText::ToggleAutostart),
            TrayAction::SetTheme(theme) => Some(TrayActionText::SetTheme(theme)),
            TrayAction::ShowAbout => Some(TrayActionText::ShowAbout),
            TrayAction::Quit => Some(TrayActionText::Quit),
            TrayAction::Nothing => None,
        }
    }
}

/// The windows to try when the tray icon is clicked, in their order:
/// the one last hidden, then the login, main and hosts windows.
pub open spec fn tray_targets_of(last_hidden: Seq<char>) -> Seq<Seq<char>> {
    seq![last_hidden, WINDOW_LOGIN@, WINDOW_MAIN@, WINDOW_HOSTS@]
}

/// `text` without the white space at its beginning and at its end.
pub open spec fn trimmed_of(text: Seq<char>) -> Seq<char>
    decreases text.len(),
{
    if text.len() == 0 {
        text
    } else if whitespace(text[0]) {
        trimmed_of(text.drop_first())
    } else {
        trimmed_end_of(text)
    }
}

/// `text` without the white space at its end.
pub open spec fn trimmed_end_of(text: Seq<char>) -> Seq<char>
    decreases text.len(),
{
    if text.len() > 0 && whitespace(text.last()) {
        trimmed_end_of(text.drop_last())
    } else {
        text
    }
}

/// The name of the theme to show: the saved one without the white space
/// around it, where one is saved, else the one that the platform asks
/// for.
pub open spec fn current_theme_of(saved: Option<Seq<char>>, light_flag: Option<u32>) -> Seq<char> {
    match saved {
        Some(name) => trimmed_of(name),
        None => match platform_theme_of(light_flag) {
            Theme::Light => THEME_LIGHT@,
            Theme::Dark => THEME_DARK@,
        },
    }
}

/// The theme that the platform asks for: light where its flag for light
/// applications is set to anything but zero, dark where it is zero or
/// cannot be read.
pub open spec fn platform_theme_of(light_flag: Option<u32>) -> Theme {
    match light_flag {
        Some(flag) => if flag == 0 {
            Theme::Dark
        } else {
            Theme::Light
        },
        None => Theme::Dark,
    }
}

/// The label of a tray item for a setting: its mark, then its name.
pub open spec fn marked_of(on: bool, label: Seq<char>) -> Seq<char> {
    if on {
        MARK_ON@ + label
    } else {
        MARK_OFF@ + label
    }
}

/// The label of the tray item for a recent connection: the host name,
/// and the description after it if there is one.
pub open spec fn recent_label_of(hostname: Seq<char>, description: Seq<char>) -> Seq<char> {
    if description.len() == 0 {
        hostname
    } else {
        hostname + RECENT_ITEM_SEPARATOR@ + description
    }
}

/// The identifier of the tray item for a recent connection to `hostname`.
pub open spec fn recent_item_of(hostname: Seq<char>) -> Seq<char> {
    RECENT_ITEM_PREFIX@ + hostname
}

/// The host that the tray item `item` connects to: what follows the
/// prefix of a recent connection, unless that is empty.
pub open spec fn recent_host_of(item: Seq<char>) -> Option<Seq<char>> {
    if RECENT_ITEM_PREFIX@.is_prefix_of(item) && item.len() > RECENT_ITEM_PREFIX@.len() {
        Some(item.subrange(RECENT_ITEM_PREFIX@.len() as int, item.len() as int))
    } else {
        None
    }
}

impl Theme {
    /// The name of the theme.
    pub fn name(&self) -> (name: String)
        ensures
            name@ == (match self {
                Theme::Light => THEME_LIGHT@,
                Theme::Dark => THEME_DARK@,
            }),
    {
        match self {
            Theme::Light => String::from_str(THEME_LIGHT),
            Theme::Dark => String::from_str(THEME_DARK),
        }
    }
}

/// The theme that the platform asks for, given its flag for light
/// applications where it could be read.
pub fn platform_theme(light_flag: Option<u32>) -> (theme: Theme)
    ensures
        theme == platform_theme_of(light_flag),
{
    match light_flag {
        Some(flag) => if flag == 0 {
            Theme::Dark
        } else {
            Theme::Light
        },
        None => Theme::Dark,
    }
}

/// What a toggle of the start with the platform does, given whether it
/// is on.
pub fn autostart_toggle(enabled: bool) -> (toggle: AutostartToggle)
    ensures
        toggle == (if enabled {
            AutostartToggle::Disable
        } else {
            AutostartToggle::Enable
        }),
{
    if enabled {
        AutostartToggle::Disable
    } else {
        AutostartToggle::Enable
    }
}

/// What a toggle does, given which windows are visible.
pub fn window_toggle(login_visible: bool, main_visible: bool) -> (toggle: WindowToggle)
    ensures
        toggle == (if login_visible {
            WindowToggle::HideLogin
        } else if main_visible {
            WindowToggle::HideMain
        } else {
            WindowToggle::ShowLogin
        }),
{
    if login_visible {
        WindowToggle::HideLogin
    } else if main_visible {
        WindowToggle::HideMain
    } else {
        WindowToggle::ShowLogin
    }
}

/// The label of a tray item for a setting.
pub fn marked(on: bool, label: &str) -> (text: String)
    ensures
        text@ == marked_of(on, label@),
{
    let mut text = if on {
        String::from_str(MARK_ON)
    } else {
        String::from_str(MARK_OFF)
    };
    text.append(label);
    text
}

/// The label of the tray item for a theme, marked as on where it is the
/// current one.
pub fn theme_label(theme: Theme, current: &str) -> (text: String)
    ensures
        text@ == (match theme {
            Theme::Light => marked_of(current@ == THEME_LIGHT@, LIGHT_LABEL@),
            Theme::Dark => marked_of(current@ == THEME_DARK@, DARK_LABEL@),
        }),
{
    match theme {
        Theme::Light => marked(same_text(current, THEME_LIGHT), LIGHT_LABEL),
        Theme::Dark => marked(same_text(current, THEME_DARK), DARK_LABEL),
    }
}

/// The label of the tray item for a recent connection.
pub fn recent_label(hostname: &str, description: &str) -> (text: String)
    ensures
        text@ == recent_label_of(hostname@, description@),
{
    let mut text = String::from_str(hostname);
    if !description.is_empty() {
        text.append(RECENT_ITEM_SEPARATOR);
        text.append(description);
    }
    text
}

/// The identifier of the tray item for a recent connection.
pub fn recent_item(hostname: &str) -> (item: String)
    ensures
        item@ == recent_item_of(hostname@),
{
    let mut item = String::from_str(RECENT_ITEM_PREFIX);
    item.append(hostname);
    item
}

/// The host that the tray item `item` connects to, if it is the item of
/// a recent connection.
#[verifier::loop_isolation(false)]
pub fn recent_host(item: &str) -> (hostname: Option<String>)
    ensures
        match hostname {
            Some(name) => recent_host_of(item@) == Some(name@),
            None => recent_host_of(item@).is_none(),
        },
{
    let chars = chars_of(item);
    let prefix = chars_of(RECENT_ITEM_PREFIX);
    if chars.len() <= prefix.len() {
        return None;
    }
    let mut i: usize = 0;
    while i < prefix.len()
        invariant
            i <= prefix@.len(),
            prefix@.len() < chars@.len(),
            forall|j: int| 0 <= j < i ==> prefix@[j] == chars@[j],
        decreases prefix@.len() - i,
    {
        if prefix[i] != chars[i] {
            assert(prefix@[i as int] != chars@.subrange(0, prefix@.len() as int)[i as int]);
            return None;
        }
        i += 1;
    }
    assert(prefix@ =~= chars@.subrange(0, prefix@.len() as int));
    Some(text_of(&chars, prefix.len(), chars.len()))
}

/// What the choice of the tray item `item` asks for.
pub fn tray_action(item: &str) -> (action: TrayAction)
    ensures
        action.text() == tray_action_of(item@),
{
    let chars = chars_of(item);
    let prefix = chars_of(RECENT_ITEM_PREFIX);
    if starts_with(&chars, &prefix) {
        match recent_host(item) {
            Some(hostname) => TrayAction::Launch(hostname),
            None => TrayAction::Nothing,
        }
    } else if same_text(item, ITEM_AUTOSTART) {
        TrayAction::ToggleAutostart
    } else if same_text(item, ITEM_LIGHT) {
        TrayAction::SetTheme(Theme::Light)
    } else if same_text(item, ITEM_DARK) {
        TrayAction::SetTheme(Theme::Dark)
    } else if same_text(item, ITEM_ABOUT) {
        TrayAction::ShowAbout
    } else if same_text(item, ITEM_QUIT) {
        TrayAction::Quit
    } else {
        TrayAction::Nothing
    }
}

/// Whether `text` begins with `prefix`.
pub fn starts_with(text: &Vec<char>, prefix: &Vec<char>) -> (answer: bool)
    ensures
        answer == prefix@.is_prefix_of(text@),
{
    if text.len() < prefix.len() {
        return false;
    }
    let mut i: usize = 0;
    while i < prefix.len()
        invariant
            i <= prefix@.len(),
            prefix@.len() <= text@.len(),
            forall|j: int| 0 <= j < i ==> prefix@[j] == text@[j],
        decreases prefix@.len() - i,
    {
        if prefix[i] != text[i] {
            assert(prefix@[i as int] != text@.subrange(0, prefix@.len() as int)[i as int]);
            return false;
        }
        i += 1;
    }
    assert(prefix@ =~= text@.subrange(0, prefix@.len() as int));
    true
}

/// The windows to try when the tray icon is clicked, in their order.
pub fn tray_targets(last_hidden: &str) -> (labels: Vec<String>)
    ensures
        texts_of(labels@) == tray_targets_of(last_hidden@),
{
    let mut labels: Vec<String> = Vec::new();
    labels.push(String::from_str(last_hidden));
    labels.push(String::from_str(WINDOW_LOGIN));
    labels.push(String::from_str(WINDOW_MAIN));
    labels.push(String::from_str(WINDOW_HOSTS));
    assert(texts_of(labels@) =~= tray_targets_of(last_hidden@));
    labels
}

/// `text` without the white space at its beginning and at its end.
pub fn trimmed(text: &str) -> (inner: String)
    ensures
        inner@ == trimmed_of(text@),
{
    let chars = chars_of(text);
    let mut start: usize = 0;
    assert(chars@.subrange(0, chars@.len() as int) =~= chars@);
    while start < chars.len() && is_white_space(chars[start])
        invariant
            start <= chars@.len(),
            trimmed_of(chars@) == trimmed_of(chars@.subrange(start as int, chars@.len() as int)),
        decreases chars@.len() - start,
    {
        assert(chars@.subrange(start as int, chars@.len() as int).drop_first() =~= chars@.subrange(
            start + 1,
            chars@.len() as int,
        ));
        start += 1;
    }
    let mut end: usize = chars.len();
    while end > start && is_white_space(chars[end - 1])
        invariant
            start <= end <= chars@.len(),
            start < chars@.len() ==> !whitespace(chars@[start as int]),
            trimmed_of(chars@) == trimmed_of(chars@.subrange(start as int, chars@.len() as int)),
            trimmed_end_of(chars@.subrange(start as int, chars@.len() as int)) == trimmed_end_of(
                chars@.subrange(start as int, end as int),
            ),
        decreases end,
    {
        assert(chars@.subrange(start as int, end as int).drop_last() =~= chars@.subrange(
            start as int,
            end - 1,
        ));
        end -= 1;
    }
    proof {
        let rest = chars@.subrange(start as int, chars@.len() as int);
        if start == chars@.len() {
            assert(rest.len() == 0);
        } else {
            assert(rest[0] == chars@[start as int]);
            let inner = chars@.subrange(start as int, end as int);
            if end > start {
                assert(inner.last() == chars@[end - 1]);
            }
        }
    }
    text_of(&chars, start, end)
}

/// The name of the theme to show, given the saved name where there is
/// one, and the platform's flag for light applications where it could be
/// read.
pub fn current_theme(saved: Option<&str>, light_flag: Option<u32>) -> (name: String)
    ensures
        name@ == current_theme_of(
            match saved {
                Some(text) => Some(text@),
                None => None,
            },
            light_flag,
        ),
{
    match saved {
        Some(text) => trimmed(text),
        None => platform_theme(light_flag).name(),
    }
}

} // verus!
