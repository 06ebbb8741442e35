use netpolicy::inventory::{format_mac, get_interface_index, get_interfaces, replace_addresses,
    AddrRecord, LinkRecord};
use netpolicy::NetError;

fn link(index: u32, name: &str, is_up: bool, mac: Vec<u8>) -> LinkRecord {
    LinkRecord { index, name: name.to_string(), is_up, mac }
}

fn addr(if_index: u32, address: &str) -> AddrRecord {
    AddrRecord { if_index, address: address.to_string() }
}

#[test]
fn format_mac_colon_separated_hex() {
    assert_eq!(format_mac(&vec![0xaa, 0xbb, 0x01, 0x02, 0x03, 0xff]), "aa:bb:01:02:03:ff");
    assert_eq!(format_mac(&vec![]), "");
    assert_eq!(format_mac(&vec![0x00]), "00");
}

#[test]
fn inventory_attaches_addresses_by_index() {
    let links = vec![
        link(1, "lo", true, vec![0, 0, 0, 0, 0, 0]),
        link(2, "eth0", true, vec![0xde, 0xad, 0xbe, 0xef, 0x00, 0x01]),
    ];
    let addrs = vec![
        addr(1, "127.0.0.1/8"),
        addr(2, "10.0.0.1/24"),
        addr(2, "10.0.0.2/24"),
    ];
    let infos = get_interfaces(&links, &addrs);
    assert_eq!(infos.len(), 2);
    assert_eq!(infos[0].name, "lo");
    assert_eq!(infos[0].addresses, vec!["127.0.0.1/8"]);
    assert_eq!(infos[1].name, "eth0");
    assert_eq!(infos[1].addresses, vec!["10.0.0.1/24", "10.0.0.2/24"]);
    assert!(infos[1].is_up);
    assert_eq!(infos[1].mac_address, "de:ad:be:ef:00:01");
}

#[test]
fn configure_address_is_a_full_replace() {
    // after configuring one address, the interface reports exactly that
    // address; other interfaces keep theirs
    let links = vec![
        link(2, "eth0", true, vec![1, 2, 3, 4, 5, 6]),
        link(3, "eth1", false, vec![6, 5, 4, 3, 2, 1]),
    ];
    let addrs = vec![
        addr(2, "10.0.0.1/24"),
        addr(2, "10.0.0.2/24"),
        addr(3, "192.168.1.1/24"),
    ];
    let replaced = replace_addresses(&addrs, 2, "172.16.0.1/16".to_string());
    let infos = get_interfaces(&links, &replaced);
    assert_eq!(infos[0].addresses, vec!["172.16.0.1/16"]);
    assert_eq!(infos[1].addresses, vec!["192.168.1.1/24"]);
}

#[test]
fn replace_on_empty_inventory_adds_the_address() {
    let replaced = replace_addresses(&Vec::new(), 9, "10.1.1.1/32".to_string());
    assert_eq!(replaced.len(), 1);
    assert_eq!(replaced[0].if_index, 9);
    assert_eq!(replaced[0].address, "10.1.1.1/32");
}

#[test]
fn resolve_index_finds_first_match() {
    let links = vec![link(4, "eth0", true, vec![]), link(7, "eth1", true, vec![])];
    assert_eq!(get_interface_index(&links, "eth1").unwrap(), 7);
    assert_eq!(get_interface_index(&links, "eth0").unwrap(), 4);
}

#[test]
fn resolve_index_missing_name_is_not_found() {
    let links = vec![link(4, "eth0", true, vec![])];
    assert!(matches!(
        get_interface_index(&links, "wlan0"),
        Err(NetError::NotFound)
    ));
}
