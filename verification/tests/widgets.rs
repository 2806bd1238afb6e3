use tkbar::battery::{
    battery_data, icon_for as battery_icon, is_charging, is_critical, online_from, supply_kind,
    total, totals_fit, BatteryData, BatteryState, SupplyKind,
};
use tkbar::brightness::{
    choose_device, icon_for as brightness_icon, scroll_step, Backlight, Brightness, SetValue,
};
use tkbar::volume::{icon_for as volume_icon, is_muted, volume_field, volume_step_arg, VolState};
use tkbar::wifi::{
    connected, dbm_to_percent, display_ssid, first_connected, icon_for as wifi_icon,
    station_signal, wifi_changed, InterfaceInfo, WifiState,
};

#[test]
fn dbm_to_percent_clamps() {
    assert_eq!(dbm_to_percent(-100), 0);
    assert_eq!(dbm_to_percent(-75), 50);
    assert_eq!(dbm_to_percent(-50), 100);
    assert_eq!(dbm_to_percent(0), 100);
}

#[test]
fn dbm_extremes_do_not_overflow() {
    assert_eq!(dbm_to_percent(i32::MIN), 0);
    assert_eq!(dbm_to_percent(i32::MAX), 100);
    assert_eq!(dbm_to_percent(-60), 80);
}

#[test]
fn station_signal_prefers_average() {
    assert_eq!(station_signal(Some(-75), Some(-50)), Some(50));
    assert_eq!(station_signal(None, Some(-50)), Some(100));
    assert_eq!(station_signal(None, None), None);
}

#[test]
fn ssid_is_stripped_of_control_characters() {
    assert_eq!(display_ssid(b"home\x1b[31mnet\x07"), "home[31mnet");
    assert_eq!(display_ssid(b"caf\xc3\xa9"), "caf\u{e9}");
    assert_eq!(display_ssid(b"bad\xffbyte"), "bad\u{fffd}byte");
    assert_eq!(display_ssid(b"\x00\x1f\x7f"), "");
}

#[test]
fn first_connected_interface_needs_index_and_ssid() {
    let ifaces = vec![
        InterfaceInfo { index: None, ssid: Some(b"a".to_vec()) },
        InterfaceInfo { index: Some(3), ssid: Some(Vec::new()) },
        InterfaceInfo { index: Some(4), ssid: None },
        InterfaceInfo { index: Some(5), ssid: Some(b"net".to_vec()) },
        InterfaceInfo { index: Some(6), ssid: Some(b"other".to_vec()) },
    ];
    assert_eq!(first_connected(&ifaces), Some(3));
    assert_eq!(first_connected(&ifaces[..3]), None);
}

#[test]
fn wifi_icons() {
    assert_eq!(wifi_icon(&WifiState::Disconnected), "\u{f092e}");
    let c = |signal| WifiState::Connected { ssid: "x".to_string(), signal };
    assert_eq!(wifi_icon(&c(None)), "\u{f092f}");
    assert_eq!(wifi_icon(&c(Some(0))), "\u{f092f}");
    assert_eq!(wifi_icon(&c(Some(24))), "\u{f091f}");
    assert_eq!(wifi_icon(&c(Some(25))), "\u{f0922}");
    assert_eq!(wifi_icon(&c(Some(74))), "\u{f0925}");
    assert_eq!(wifi_icon(&c(Some(100))), "\u{f0928}");
    assert_eq!(
        connected(b"n\x1bet", Some(7)),
        WifiState::Connected { ssid: "net".to_string(), signal: Some(7) }
    );
}

#[test]
fn volume_scroll_arguments() {
    assert_eq!(volume_step_arg(5, true), "5%+");
    assert_eq!(volume_step_arg(5, false), "5%-");
    assert_eq!(volume_step_arg(100, true), "100%+");
}

#[test]
fn wifi_poller_hands_on_only_changes() {
    let c = |ssid: &str, signal| WifiState::Connected { ssid: ssid.to_string(), signal };
    assert!(wifi_changed(&None, &WifiState::Disconnected));
    assert!(!wifi_changed(&Some(WifiState::Disconnected), &WifiState::Disconnected));
    assert!(!wifi_changed(&Some(c("home", Some(70))), &c("home", Some(70))));
    assert!(wifi_changed(&Some(c("home", Some(70))), &c("home", Some(72))));
    assert!(wifi_changed(&Some(c("home", Some(70))), &c("work", Some(70))));
    assert!(wifi_changed(&Some(c("home", None)), &WifiState::Disconnected));
}

#[test]
fn volume_field_of_wpctl_output() {
    assert_eq!(volume_field("Volume: 0.84").as_deref(), Some("0.84"));
    assert!(!is_muted("Volume: 0.84"));
    assert_eq!(volume_field("Volume: 0.84 [MUTED]").as_deref(), Some("0.84"));
    assert!(is_muted("Volume: 0.84 [MUTED]"));
    assert_eq!(volume_field("Volume: 1.50").as_deref(), Some("1.50"));
    assert_eq!(volume_field(""), None);
    assert_eq!(volume_field("whatever"), None);
    assert_eq!(volume_field("  Volume:\t\n 0.5  "), Some("0.5".to_string()));
    assert_eq!(volume_field("Volume: abc").as_deref(), Some("abc"));
}

#[test]
fn volume_icons() {
    let s = |percent, muted| VolState { percent, muted };
    assert_eq!(volume_icon(&s(84, true)), "\u{f075f}");
    assert_eq!(volume_icon(&s(20, false)), "\u{f057f}");
    assert_eq!(volume_icon(&s(21, false)), "\u{f0580}");
    assert_eq!(volume_icon(&s(100, false)), "\u{f057e}");
    assert_eq!(volume_icon(&s(150, false)), "\u{f1121}");
}

#[test]
fn battery_readings_are_parsed_fail_closed() {
    assert_eq!(
        battery_data("41000000\n", " 50000000 "),
        Some(BatteryData { energy_now: 41000000, energy_full: 50000000 })
    );
    assert_eq!(battery_data("+7", "8"), Some(BatteryData { energy_now: 7, energy_full: 8 }));
    assert_eq!(battery_data("", "8"), None);
    assert_eq!(battery_data("-1", "8"), None);
    assert_eq!(battery_data("1", "18446744073709551616"), None);
    assert_eq!(battery_data("1", "18446744073709551615"), Some(BatteryData { energy_now: 1, energy_full: u64::MAX }));
    assert_eq!(battery_data("1 2", "8"), None);
    assert_eq!(battery_data("+", "8"), None);
}

#[test]
fn batteries_are_summed() {
    let a = BatteryData { energy_now: 10, energy_full: 20 };
    let b = BatteryData { energy_now: 5, energy_full: 40 };
    assert_eq!(total(&[]), BatteryState::NoBattery);
    assert_eq!(
        total(&[a, b]),
        BatteryState::Present(BatteryData { energy_now: 15, energy_full: 60 })
    );
    assert_eq!(a.merge(b), BatteryData { energy_now: 15, energy_full: 60 });
    assert!(totals_fit(&[a, b]));
    assert!(!totals_fit(&[BatteryData { energy_now: u64::MAX, energy_full: 0 }, a]));
}

#[test]
fn mains_and_battery_supplies() {
    assert_eq!(online_from("1\n"), Some(true));
    assert_eq!(online_from("0"), Some(false));
    assert_eq!(online_from("2"), Some(true));
    assert_eq!(online_from("256"), None);
    assert_eq!(online_from("yes"), None);
    assert!(is_charging(&[None, Some(false), Some(true)]));
    assert!(!is_charging(&[None, Some(false)]));
    assert_eq!(supply_kind("Battery\n"), Some(SupplyKind::Battery));
    assert_eq!(supply_kind("Mains"), Some(SupplyKind::Mains));
    assert_eq!(supply_kind("USB"), None);
}

#[test]
fn battery_icons_and_critical_level() {
    assert_eq!(battery_icon(5, true), "\u{f089f}");
    assert_eq!(battery_icon(55, true), "\u{f089d}");
    assert_eq!(battery_icon(100, true), "\u{f0085}");
    assert_eq!(battery_icon(9, false), "\u{f008e}");
    assert_eq!(battery_icon(99, false), "\u{f0082}");
    assert_eq!(battery_icon(255, false), "\u{f0079}");
    assert!(is_critical(15, false));
    assert!(!is_critical(16, false));
    assert!(!is_critical(3, true));
}

#[test]
fn battery_icons_follow_ten_percent_buckets() {
    let bucket = |p: u8| (p / 10).min(10);
    for p in 0..=u8::MAX {
        for q in 0..=u8::MAX {
            for charging in [false, true] {
                assert_eq!(
                    battery_icon(p, charging) == battery_icon(q, charging),
                    bucket(p) == bucket(q)
                );
            }
            assert_ne!(battery_icon(p, true), battery_icon(q, false));
        }
    }
}

#[test]
fn brightness_readings_and_percent() {
    let b = Brightness::from_readings("120\n", "240\n").unwrap();
    assert_eq!(b.percent(), 50);
    assert_eq!(Brightness::from_readings("1", "0"), None);
    assert_eq!(Brightness::from_readings("x", "10"), None);
    let over = Brightness { actual_brightness: 500, max_brightness: 100 };
    assert_eq!(over.percent(), 100);
    let huge = Brightness { actual_brightness: u64::MAX, max_brightness: u64::MAX };
    assert_eq!(huge.percent(), 1);
    assert_eq!(brightness_icon(1), "\u{f186}");
    assert_eq!(brightness_icon(33), "\u{f00de}");
    assert_eq!(brightness_icon(66), "\u{f00df}");
    assert_eq!(brightness_icon(67), "\u{f00e0}");
}

#[test]
fn brightness_changes_are_capped() {
    let b = Brightness { actual_brightness: 900, max_brightness: 1000 };
    assert_eq!(b.target(SetValue::Relative(5)), 950);
    assert_eq!(b.target(SetValue::Relative(20)), 1000);
    assert_eq!(b.target(SetValue::Relative(-50)), 400);
    assert_eq!(b.target(SetValue::Relative(-128)), 0);
    assert_eq!(b.target(SetValue::Absolute(1)), 1);
    assert_eq!(b.set(SetValue::Relative(-10)).actual_brightness, 800);
    let above = Brightness { actual_brightness: 2000, max_brightness: 1000 };
    assert_eq!(above.target(SetValue::Relative(-128)), 730);
    assert_eq!(above.target(SetValue::Relative(10)), 1000);
    let near_top = Brightness { actual_brightness: u64::MAX - 1, max_brightness: 1000 };
    assert_eq!(near_top.checked_set(SetValue::Relative(5)), None);
    assert_eq!(
        near_top.checked_set(SetValue::Absolute(3)),
        Some(Brightness { actual_brightness: 3, max_brightness: 1000 })
    );
    assert_eq!(
        b.checked_set(SetValue::Relative(5)),
        Some(Brightness { actual_brightness: 950, max_brightness: 1000 })
    );
    assert_eq!(scroll_step(5, true), 5);
    assert_eq!(scroll_step(200, true), 0);
    assert_eq!(scroll_step(5, false), -5);
    assert_eq!(scroll_step(200, false), -127);
}

#[test]
fn device_with_largest_maximum_is_chosen() {
    let d = |max, path: &str| Backlight { max_brightness: max, path: path.chars().collect() };
    let ds = vec![
        d(100, "/sys/class/backlight/b"),
        d(255, "/sys/class/backlight/z"),
        d(255, "/sys/class/backlight/a"),
        d(10, "/sys/class/backlight/0"),
    ];
    assert_eq!(choose_device(&ds), Some(2));
    assert_eq!(choose_device(&[]), None);
}
