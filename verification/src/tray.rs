//! The decisions of the task-tray mode: the address opened in the browser,
//! the tray icon, and what the tray menu does.

use vstd::prelude::*;

use crate::config::{IpAddress, SocketAddress, IPV4_LOOPBACK, IPV6_LOOPBACK};

verus! {

/// Whether the address is the unspecified one (`0.0.0.0` or `::`).
pub open spec fn is_unspecified(ip: IpAddress) -> bool {
    match ip {
        IpAddress::V4(bits) => bits == 0,
        IpAddress::V6(bits) => bits == 0,
    }
}

/// The address to open in the browser for a server bound to `addr`: an
/// unspecified bind address (`0.0.0.0`, `::`) cannot be browsed to, so the
/// loopback address of the same family is used instead; the port stays.
pub fn open_addr(addr: SocketAddress) -> (opened: SocketAddress)
    ensures
        opened.port == addr.port,
        !is_unspecified(addr.ip) ==> opened == addr,
        is_unspecified(addr.ip) && addr.ip is V4 ==> opened.ip == IpAddress::V4(IPV4_LOOPBACK),
        is_unspecified(addr.ip) && addr.ip is V6 ==> opened.ip == IpAddress::V6(IPV6_LOOPBACK),
{
    let unspecified = match addr.ip {
        IpAddress::V4(bits) => bits == 0,
        IpAddress::V6(bits) => bits == 0,
    };
    if unspecified {
        let ip = match addr.ip {
            IpAddress::V4(_) => IpAddress::V4(IPV4_LOOPBACK),
            IpAddress::V6(_) => IpAddress::V6(IPV6_LOOPBACK),
        };
        SocketAddress { ip, port: addr.port }
    } else {
        addr
    }
}

/// The side of the square tray icon, in pixels.
pub const TRAY_ICON_SIZE: u32 = 32;

/// The colour of every pixel of the tray icon: opaque blue, as RGBA.
pub open spec fn icon_pixel() -> Seq<u8> {
    seq![0x2bu8, 0x6cu8, 0xb0u8, 0xffu8]
}

/// The RGBA pixels of the tray icon: a plain opaque blue square of
/// `TRAY_ICON_SIZE` pixels a side, so that no icon file has to be shipped.
pub fn tray_icon_rgba() -> (rgba: Vec<u8>)
    ensures
        rgba.len() == TRAY_ICON_SIZE * TRAY_ICON_SIZE * 4,
        forall|i: int| 0 <= i < rgba.len() ==> rgba[i] == icon_pixel()[i % 4],
{
    let pixels: usize = 1024;
    let mut rgba: Vec<u8> = Vec::with_capacity(4096);
    for n in 0..pixels
        invariant
            rgba.len() == 4 * n,
            forall|i: int| 0 <= i < rgba.len() ==> rgba[i] == icon_pixel()[i % 4],
    {
        rgba.push(0x2b);
        rgba.push(0x6c);
        rgba.push(0xb0);
        rgba.push(0xff);
    }
    rgba
}

/// The item of the tray menu that was chosen.
#[derive(Debug, Clone, Copy, PartialEq, Eq, Structural)]
pub enum MenuItemChosen {
    Open,
    Autostart,
    Quit,
    /// An event of an item this menu does not know.
    Unknown,
}

/// What the tray does about a menu choice.
#[derive(Debug, Clone, Copy, PartialEq, Eq, Structural)]
pub enum MenuAction {
    /// Flush the log and leave the event loop.
    Quit,
    /// Open the server's address in the default browser.
    OpenBrowser,
    /// Read the current autostart state from the operating system and flip it.
    ToggleAutostart,
    Nothing,
}

/// The action for a menu choice. The autostart item acts only when the
/// autostart handle could be built.
pub fn menu_action(chosen: MenuItemChosen, autostart_available: bool) -> (action: MenuAction)
    ensures
        chosen == MenuItemChosen::Quit ==> action == MenuAction::Quit,
        chosen == MenuItemChosen::Open ==> action == MenuAction::OpenBrowser,
        chosen == MenuItemChosen::Autostart ==> action == (if autostart_available {
            MenuAction::ToggleAutostart
        } else {
            MenuAction::Nothing
        }),
        chosen == MenuItemChosen::Unknown ==> action == MenuAction::Nothing,
{
    match chosen {
        MenuItemChosen::Quit => MenuAction::Quit,
        MenuItemChosen::Open => MenuAction::OpenBrowser,
        MenuItemChosen::Autostart => {
            if autostart_available {
                MenuAction::ToggleAutostart
            } else {
                MenuAction::Nothing
            }
        },
        MenuItemChosen::Unknown => MenuAction::Nothing,
    }
}

/// How the autostart setting is changed after its current state was read.
#[derive(Debug, Clone, Copy, PartialEq, Eq, Structural)]
pub enum AutostartChange {
    Enable,
    Disable,
    /// The state could not be read: change nothing and disable the item.
    DisableItem,
}

/// The change for a click on the autostart item: flip the state the
/// operating system reports; when it cannot be read, change nothing (a guess
/// could enable what is already enabled) and make the item unclickable.
pub fn autostart_change(current: Option<bool>) -> (change: AutostartChange)
    ensures
        current == Some(true) ==> change == AutostartChange::Disable,
        current == Some(false) ==> change == AutostartChange::Enable,
        current is None ==> change == AutostartChange::DisableItem,
{
    match current {
        Some(true) => AutostartChange::Disable,
        Some(false) => AutostartChange::Enable,
        None => AutostartChange::DisableItem,
    }
}

/// The look of the autostart menu item.
#[derive(Debug, Clone, Copy, PartialEq, Eq, Structural)]
pub struct AutostartItem {
    pub enabled: bool,
    pub checked: bool,
}

/// The autostart item for the state read from the operating system (`None`
/// when it could not be read, or the autostart handle could not be built):
/// the item shows the state read and is clickable only when a state was read.
/// After a change the state is read again and shown, whether the change
/// reported success or not.
pub fn autostart_item(state: Option<bool>) -> (item: AutostartItem)
    ensures
        item.enabled == state is Some,
        item.checked == (state == Some(true)),
{
    match state {
        Some(enabled) => AutostartItem { enabled: true, checked: enabled },
        None => AutostartItem { enabled: false, checked: false },
    }
}

} // verus!
