use saddle_stitcher::config::{IpAddress, SocketAddress};
use saddle_stitcher::tray::{
    autostart_change, autostart_item, menu_action, open_addr, tray_icon_rgba, AutostartChange,
    AutostartItem, MenuAction, MenuItemChosen, TRAY_ICON_SIZE,
};

/// An IPv4 socket address from its four octets.
fn v4(a: u8, b: u8, c: u8, d: u8, port: u16) -> SocketAddress {
    SocketAddress { ip: IpAddress::V4(u32::from_be_bytes([a, b, c, d])), port }
}

#[test]
fn unspecified_addr_becomes_loopback() {
    // 0.0.0.0:47821
    let addr = v4(0, 0, 0, 0, 47821);
    assert_eq!(open_addr(addr), v4(127, 0, 0, 1, 47821));
}

#[test]
fn loopback_addr_is_unchanged() {
    let addr = v4(127, 0, 0, 1, 47821);
    assert_eq!(open_addr(addr), addr);
}

#[test]
fn unspecified_ipv6_becomes_ipv6_loopback() {
    let addr = SocketAddress { ip: IpAddress::V6(0), port: 8080 };
    assert_eq!(
        open_addr(addr),
        SocketAddress { ip: IpAddress::V6(1), port: 8080 }
    );
}

#[test]
fn lan_address_is_unchanged() {
    let addr = v4(192, 168, 1, 20, 3000);
    assert_eq!(open_addr(addr), addr);
}

#[test]
fn tray_icon_is_an_opaque_blue_square() {
    let rgba = tray_icon_rgba();
    assert_eq!(rgba.len(), (TRAY_ICON_SIZE * TRAY_ICON_SIZE * 4) as usize);
    for pixel in rgba.chunks(4) {
        assert_eq!(pixel, &[0x2b, 0x6c, 0xb0, 0xff]);
    }
}

#[test]
fn menu_actions() {
    assert_eq!(menu_action(MenuItemChosen::Quit, true), MenuAction::Quit);
    assert_eq!(menu_action(MenuItemChosen::Open, false), MenuAction::OpenBrowser);
    assert_eq!(
        menu_action(MenuItemChosen::Autostart, true),
        MenuAction::ToggleAutostart
    );
    assert_eq!(menu_action(MenuItemChosen::Autostart, false), MenuAction::Nothing);
    assert_eq!(menu_action(MenuItemChosen::Unknown, true), MenuAction::Nothing);
}

#[test]
fn autostart_toggle_flips_the_state_read() {
    assert_eq!(autostart_change(Some(true)), AutostartChange::Disable);
    assert_eq!(autostart_change(Some(false)), AutostartChange::Enable);
    assert_eq!(autostart_change(None), AutostartChange::DisableItem);
}

#[test]
fn autostart_item_shows_the_state_read() {
    assert_eq!(
        autostart_item(Some(true)),
        AutostartItem { enabled: true, checked: true }
    );
    assert_eq!(
        autostart_item(Some(false)),
        AutostartItem { enabled: true, checked: false }
    );
    assert_eq!(
        autostart_item(None),
        AutostartItem { enabled: false, checked: false }
    );
}
