//! The settings of the application, and what follows from the theme.

use vstd::prelude::*;
use crate::text::{chars_of, same_text, Text};

verus! {

/// The settings that are kept between runs.
#[derive(Clone, Debug, PartialEq, Eq)]
pub struct AppConfig {
    /// The cookie captured at the last interactive login.
    pub account_cookie: Option<String>,
    /// The user agent of the browser that captured it.
    pub user_agent: Option<String>,
    /// The global hotkey, such as `Alt-L`.
    pub hotkey: String,
    /// Where a chosen note goes: `Clipboard` or `PreviousProgram`.
    pub destination: String,
    /// The theme: `Desktop` or `Mobile`.
    pub theme: String,
}

impl Default for AppConfig {
    /// No credential, the hotkey `Alt-L`, the clipboard as destination and
    /// the mobile theme.
    fn default() -> (config: Self)
        ensures
            config.account_cookie is None,
            config.user_agent is None,
            config.hotkey@ == "Alt-L"@,
            config.destination@ == "Clipboard"@,
            config.theme@ == "Mobile"@,
    {
        AppConfig {
            account_cookie: None,
            user_agent: None,
            hotkey: "Alt-L".to_owned(),
            destination: "Clipboard".to_owned(),
            theme: "Mobile".to_owned(),
        }
    }
}

/// How the embedded browser presents itself under a theme.
#[derive(Clone, Debug, PartialEq, Eq)]
pub struct Emulation {
    pub user_agent: String,
    pub platform: String,
    pub mobile: bool,
}

/// The user agent of the mobile theme.
pub const MOBILE_USER_AGENT: &'static str =
    "Mozilla/5.0 (iPhone; CPU iPhone OS 17_0 like Mac OS X) AppleWebKit/605.1.15 (KHTML, like Gecko) Version/17.0 Mobile/15E148 Safari/604.1";

/// The user agent of the desktop theme.
pub const DESKTOP_USER_AGENT: &'static str =
    "Mozilla/5.0 (Windows NT 10.0; Win64; x64) AppleWebKit/537.36 (KHTML, like Gecko) Chrome/120.0.0.0 Safari/537.36";

/// Whether a theme is the mobile theme.
pub open spec fn is_mobile_theme(theme: Text) -> bool {
    theme == "Mobile"@
}

/// Whether `theme` is the mobile theme.
pub fn mobile_theme(theme: &str) -> (mobile: bool)
    ensures
        mobile == is_mobile_theme(theme@),
{
    same_text(&chars_of(theme), &chars_of("Mobile"))
}

impl AppConfig {
    /// Whether a chosen note goes to the clipboard, rather than being typed
    /// into the program that had the focus.
    pub fn copies_to_clipboard(&self) -> (copies: bool)
        ensures
            copies == (self.destination@ == "Clipboard"@),
    {
        same_text(&chars_of(self.destination.as_str()), &chars_of("Clipboard"))
    }

    /// The size of the main window at start: 600 by 800 under the mobile
    /// theme, else 1280 by 960.
    pub fn initial_window_size(&self) -> (size: (i32, i32))
        ensures
            size == if is_mobile_theme(self.theme@) {
                (600i32, 800i32)
            } else {
                (1280i32, 960i32)
            },
    {
        if mobile_theme(self.theme.as_str()) {
            (600, 800)
        } else {
            (1280, 960)
        }
    }

    /// Switches between the two themes: sets the other theme and returns
    /// the size that the main window takes under it, 1200 by 900 for the
    /// desktop theme and 720 by 960 for the mobile theme.
    pub fn switch_theme(&mut self) -> (size: (i32, i32))
        ensures
            is_mobile_theme(old(self).theme@) ==> final(self).theme@ == "Desktop"@ && size == (
                1200i32,
                900i32,
            ),
            !is_mobile_theme(old(self).theme@) ==> final(self).theme@ == "Mobile"@ && size == (
                720i32,
                960i32,
            ),
            final(self).account_cookie == old(self).account_cookie,
            final(self).user_agent == old(self).user_agent,
            final(self).hotkey == old(self).hotkey,
            final(self).destination == old(self).destination,
    {
        if mobile_theme(self.theme.as_str()) {
            self.theme = "Desktop".to_owned();
            (1200, 900)
        } else {
            self.theme = "Mobile".to_owned();
            (720, 960)
        }
    }
}

/// How the embedded browser presents itself under `theme`: as an iPhone
/// under the mobile theme, else as a desktop browser.
pub fn emulation_for(theme: &str) -> (emulation: Emulation)
    ensures
        emulation.mobile == is_mobile_theme(theme@),
        emulation.user_agent@ == if is_mobile_theme(theme@) {
            MOBILE_USER_AGENT@
        } else {
            DESKTOP_USER_AGENT@
        },
        emulation.platform@ == if is_mobile_theme(theme@) {
            "iPhone"@
        } else {
            "Win32"@
        },
{
    if mobile_theme(theme) {
        Emulation {
            user_agent: MOBILE_USER_AGENT.to_owned(),
            platform: "iPhone".to_owned(),
            mobile: true,
        }
    } else {
        Emulation {
            user_agent: DESKTOP_USER_AGENT.to_owned(),
            platform: "Win32".to_owned(),
            mobile: false,
        }
    }
}

} // verus!
