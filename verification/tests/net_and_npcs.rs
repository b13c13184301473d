use sensor_bridge::netpick::{pick_wifi_ip, NetInterface};
use sensor_bridge::npcs::{EnemyPatterns, EnemyType, Explosion};

fn nic(name: &str, is_ipv4: bool, is_loopback: bool, addr: &str) -> NetInterface {
    NetInterface {
        name: name.to_string(),
        is_ipv4,
        is_loopback,
        addr: addr.to_string(),
    }
}

#[test]
fn picks_a_wireless_interface_by_case_folded_name() {
    let nics = vec![
        nic("eth0", true, false, "10.0.0.5"),
        nic("WLAN0", true, false, "192.168.1.7"),
    ];
    assert_eq!(pick_wifi_ip(&nics), Some("192.168.1.7".to_string()));
}

#[test]
fn pattern_order_beats_interface_order() {
    let nics = vec![
        nic("en0", true, false, "10.0.0.9"),
        nic("wlan1", true, false, "192.168.1.8"),
    ];
    assert_eq!(pick_wifi_ip(&nics), Some("192.168.1.8".to_string()));
}

#[test]
fn skips_loopback_and_non_ipv4_wireless_interfaces() {
    let nics = vec![
        nic("wlan0", false, false, "fe80::1"),
        nic("wlan-lo", true, true, "127.0.0.1"),
        nic("eth2", true, false, "10.1.2.3"),
    ];
    assert_eq!(pick_wifi_ip(&nics), Some("10.1.2.3".to_string()));
}

#[test]
fn falls_back_to_first_plain_ipv4_interface() {
    let nics = vec![
        nic("lo", true, true, "127.0.0.1"),
        nic("eth0", true, false, "10.0.0.5"),
        nic("eth1", true, false, "10.0.0.6"),
    ];
    assert_eq!(pick_wifi_ip(&nics), Some("10.0.0.5".to_string()));
}

#[test]
fn no_usable_interface_yields_nothing() {
    let nics = vec![nic("lo", true, true, "127.0.0.1")];
    assert_eq!(pick_wifi_ip(&nics), None);
    assert_eq!(pick_wifi_ip(&Vec::new()), None);
}

#[test]
fn explosion_keeps_its_id_and_expires_after_its_lifetime() {
    let e = Explosion::new("explosion_3".to_string(), 1000);
    assert_eq!(e.id(), "explosion_3");
    assert!(!e.expired(1000));
    assert!(!e.expired(1200));
    assert!(e.expired(1201));
}

#[test]
fn enemy_types_name_their_assets() {
    assert_eq!(EnemyType::B2.asset_name(), "b2");
    assert_eq!(EnemyType::TikiFly.asset_name(), "tiki_fly");
    assert_eq!(EnemyType::Northrop.asset_name(), "northrop");
}

#[test]
fn enemy_patterns_place_their_counts() {
    assert_eq!(EnemyPatterns::Star.enemy_count(), 13);
    assert_eq!(EnemyPatterns::Triangle.enemy_count(), 10);
    assert_eq!(EnemyPatterns::Circle.enemy_count(), 11);
}
