use netscene_lib::arp::{parse_arp_output, Device};

#[test]
fn parse_linux_style() {
    let sample = "? (192.168.1.1) at aa:bb:cc:dd:ee:ff [ether] on eth0\n? (192.168.1.2) at 11:22:33:44:55:66 [ether] on eth0";
    let devices = parse_arp_output(sample);
    assert_eq!(devices.len(), 2);
    assert_eq!(devices[0], Device { ip: "192.168.1.1".into(), mac: "aa:bb:cc:dd:ee:ff".into() });
    assert_eq!(devices[1].mac, "11:22:33:44:55:66");
}

#[test]
fn parse_macos_style() {
    let sample = "? (192.168.1.3) at 77-88-99-aa-bb-cc on en0 ifscope [ethernet]";
    let devices = parse_arp_output(sample);
    assert_eq!(devices, vec![Device { ip: "192.168.1.3".into(), mac: "77:88:99:aa:bb:cc".into() }]);
}

#[test]
fn parse_single_linux_line() {
    let devices = parse_arp_output("? (192.168.1.1) at aa:bb:cc:dd:ee:ff [ether] on eth0");
    assert_eq!(devices, vec![Device { ip: "192.168.1.1".into(), mac: "aa:bb:cc:dd:ee:ff".into() }]);
}

#[test]
fn parse_dash_line_without_scope() {
    let devices = parse_arp_output("? (192.168.1.3) at 77-88-99-aa-bb-cc on en0");
    assert_eq!(devices, vec![Device { ip: "192.168.1.3".into(), mac: "77:88:99:aa:bb:cc".into() }]);
}

#[test]
fn parse_empty_text() {
    assert_eq!(parse_arp_output(""), Vec::<Device>::new());
    assert_eq!(parse_arp_output("\n\n"), Vec::<Device>::new());
}

#[test]
fn parse_skips_headers_and_incomplete_entries() {
    let sample = "Address HWtype HWaddress Flags Mask Iface\n\
                  ? (10.0.0.7) at <incomplete> on eth0\n\
                  gateway (10.0.0.1) at 0a:1b:2c:3d:4e:5f [ether] on eth0\n";
    let devices = parse_arp_output(sample);
    assert_eq!(devices, vec![Device { ip: "10.0.0.1".into(), mac: "0a:1b:2c:3d:4e:5f".into() }]);
}

#[test]
fn parse_keeps_duplicates_and_order() {
    let sample = "10.0.0.2 at 00:00:00:00:00:02\n10.0.0.1 at 00:00:00:00:00:01\n10.0.0.2 at 00:00:00:00:00:02";
    let devices = parse_arp_output(sample);
    let ips: Vec<&str> = devices.iter().map(|d| d.ip.as_str()).collect();
    assert_eq!(ips, vec!["10.0.0.2", "10.0.0.1", "10.0.0.2"]);
}

#[test]
fn parse_keeps_hex_case_and_windows_layout() {
    let sample = "Interface: 192.168.0.5 --- 0x3\r\n  192.168.0.1           AA-BB-CC-DD-EE-0F     dynamic\r\n";
    let devices = parse_arp_output(sample);
    assert_eq!(devices, vec![Device { ip: "192.168.0.1".into(), mac: "AA:BB:CC:DD:EE:0F".into() }]);
}

#[test]
fn parse_rejects_mixed_separators() {
    assert_eq!(parse_arp_output("? (192.168.1.9) at aa:bb-cc:dd:ee:ff"), Vec::<Device>::new());
}

#[test]
fn parse_takes_first_pair_only() {
    let sample = "1.2.3.4 11:11:11:11:11:11 5.6.7.8 22:22:22:22:22:22";
    let devices = parse_arp_output(sample);
    assert_eq!(devices, vec![Device { ip: "1.2.3.4".into(), mac: "11:11:11:11:11:11".into() }]);
}

#[test]
fn parse_address_groups_of_up_to_three_digits() {
    let devices = parse_arp_output("x 1234.5.6.78901 at de:ad:be:ef:00:01");
    assert_eq!(devices, vec![Device { ip: "234.5.6.789".into(), mac: "de:ad:be:ef:00:01".into() }]);
}

#[test]
fn parse_mac_starting_inside_last_group() {
    let devices = parse_arp_output("1.2.3.412:34:56:78:9a:bc");
    assert_eq!(devices, vec![Device { ip: "1.2.3.4".into(), mac: "12:34:56:78:9a:bc".into() }]);
}
