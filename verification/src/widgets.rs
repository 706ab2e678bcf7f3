//! What the widgets of the bar show.
use vstd::prelude::*;

use crate::compositor::text_eq;
use crate::text::{opt_text, trim, trim_text};

verus! {

/// The icon of the launcher button.
pub const LAUNCHER_ICON: &'static str = "icons/launcher.svg";

/// The icon of the menu button.
pub const MENU_ICON: &'static str = "icons/nixos.svg";

/// The icon of the notification button.
pub const NOTIFICATION_ICON: &'static str = "icons/notification.svg";

/// The icon of the volume pill.
pub const VOLUME_ICON: &'static str = "icons/volume.svg";

/// The level the volume pill shows.
pub const VOLUME_LABEL: &'static str = "100%";

/// The cover the music pill shows.
pub const MUSIC_ART_URL: &'static str =
    "https://i.scdn.co/image/ab67616d0000b273ffcea832441929c024df21e2";

/// The track the music pill shows.
pub const MUSIC_LABEL: &'static str = "Luna Li - That's Life";

/// The mouse icon of the peripheral pill.
pub const MOUSE_ICON: &'static str = "icons/mouse.svg";

/// The mouse battery level of the peripheral pill.
pub const MOUSE_LABEL: &'static str = "57% ";

/// The keyboard icon of the peripheral pill.
pub const KEYBOARD_ICON: &'static str = "icons/keyboard.svg";

/// The keyboard layout of the peripheral pill.
pub const KEYBOARD_LABEL: &'static str = "CLMK";

/// The icon of the VPN pill while no VPN is up.
pub const VPN_OFF_ICON: &'static str = "icons/vpn_off.svg";

/// The button that opens the launcher.
pub struct LauncherWidget;

/// The button that opens the menu.
pub struct MenuWidget;

/// The button that opens the notifications.
pub struct NotificationWidget;

/// The pill that shows the volume.
pub struct VolumeWidget;

/// The pill that shows a fixed track.
pub struct MusicWidget;

/// The pill that shows the mouse battery and the keyboard layout.
pub struct PeripheralWidget {}

impl PeripheralWidget {
    pub fn new() -> PeripheralWidget {
        PeripheralWidget {  }
    }
}

/// The pill that shows whether a VPN is up.
pub struct VpnWidget {}

impl VpnWidget {
    pub fn new() -> VpnWidget {
        VpnWidget {  }
    }
}

/// The pill that shows the time.
pub struct ClockWidget {
    text: String,
}

impl ClockWidget {
    /// A clock that shows nothing yet.
    pub fn new() -> (r: ClockWidget)
        ensures
            r.text()@ == Seq::<char>::empty(),
    {
        ClockWidget { text: String::new() }
    }

    /// What the clock shows.
    pub closed spec fn text(&self) -> String {
        self.text
    }

    /// What the clock shows.
    pub fn shown(&self) -> (r: &str)
        ensures
            r@ == self.text()@,
    {
        self.text.as_str()
    }

    /// Shows the formatted time `formatted`, without surrounding whitespace.
    pub fn show_time(&mut self, formatted: &str)
        ensures
            final(self).text()@ == trim(formatted@),
    {
        self.text = trim_text(formatted);
    }
}

/// The colours of a workspace button, as `0xRRGGBB`.
#[derive(Clone, Copy, Debug, PartialEq, Eq, Structural)]
pub struct ButtonColors {
    pub background: u32,
    pub text: u32,
}

/// The colours of the button of a workspace: mauve on base when it is active,
/// text on surface when it is not.
pub fn workspace_button_colors(active: bool) -> (r: ButtonColors)
    ensures
        r.background == (if active {
            0xcba6f7u32
        } else {
            0x45475au32
        }),
        r.text == (if active {
            0x1e1e2eu32
        } else {
            0xcdd6f4u32
        }),
{
    if active {
        ButtonColors { background: 0xcba6f7, text: 0x1e1e2e }
    } else {
        ButtonColors { background: 0x45475a, text: 0xcdd6f4 }
    }
}


/// The display that the shell leaves without a bar.
pub const DISPLAY_WITHOUT_BAR: &'static str = "DP-2";

/// Whether the display named `name` gets a bar and a wallpaper: every display
/// but `DP-2`, including one that has no name.
pub fn gets_bar(name: &Option<String>) -> (r: bool)
    ensures
        r == (opt_text(*name) != Some(DISPLAY_WITHOUT_BAR@)),
{
    match name {
        Some(n) => !text_eq(n.as_str(), DISPLAY_WITHOUT_BAR),
        None => true,
    }
}

} // verus!
