use blinkscan::{get_vendor_oui, OuiError, RegistryError, Vendor};

const REGISTRY: &str = "Registry,Assignment,Organization Name,Organization Address\n\
MA-L,002272,American Micro-Fuel Device Corp.,Mumbai  IN 400 099 \n\
MA-L,010101,SomeCorp,\"1 Main Street, Springfield  US 12345 \"\n\
MA-L,405582,Nokia,Karakaari 7 Espoo  FI 02610 \n\
MA-L,00A0C6,\"Qualcomm, Inc.\",San Diego  US 92121 \n\
MA-L,405582,Nokia Duplicate,Elsewhere\n\
MA-L,CC9DA2,Eltex Enterprise Ltd.,Novosibirsk  RU 630020 \n";

fn vendor() -> Vendor {
    Vendor::new(REGISTRY.as_bytes()).unwrap()
}

fn octets(a: u8, b: u8, c: u8, d: u8, e: u8, f: u8) -> [u8; 6] {
    netdev::MacAddr::new(a, b, c, d, e, f).octets()
}

#[test]
fn should_find_specific_mac_vendor() {
    let vendor = vendor();
    let mac = octets(0x40, 0x55, 0x82, 0xc3, 0xe5, 0x5b);
    let mac = get_vendor_oui(&mac).unwrap();
    assert_eq!(vendor.search_by_mac(&mac), Some("Nokia".to_string()));
}

#[test]
fn should_find_first_mac_vendor() {
    let vendor = vendor();
    let mac = octets(0x00, 0x22, 0x72, 0xd7, 0xb5, 0x23);
    let mac = get_vendor_oui(&mac).unwrap();
    assert_eq!(
        vendor.search_by_mac(&mac),
        Some("American Micro-Fuel Device Corp.".to_string())
    );
}

#[test]
fn should_find_last_mac_vendor() {
    let vendor = vendor();
    let mac = octets(0xcc, 0x9d, 0xa2, 0x14, 0x2e, 0x6f);
    let mac = get_vendor_oui(&mac).unwrap();
    assert_eq!(
        vendor.search_by_mac(&mac),
        Some("Eltex Enterprise Ltd.".to_string())
    );
}

#[test]
fn should_handle_unknown_mac_vendor() {
    let vendor = vendor();
    let mac = octets(0xbb, 0xbb, 0xbb, 0xd2, 0xf5, 0xb6);
    let mac = get_vendor_oui(&mac).unwrap();
    assert_eq!(vendor.search_by_mac(&mac), None);
}

#[test]
fn should_pad_correctly_with_zeroes() {
    let vendor = vendor();
    let mac = octets(0x01, 0x01, 0x01, 0x67, 0xb2, 0x1d);
    let mac = get_vendor_oui(&mac).unwrap();
    assert_eq!(vendor.search_by_mac(&mac), Some("SomeCorp".to_string()));
}

#[test]
fn oui_is_uppercase_and_zero_padded() {
    assert_eq!(get_vendor_oui(&[0x01, 0x01, 0x01, 0, 0, 0]).unwrap(), "010101");
    assert_eq!(get_vendor_oui(&[0xab, 0x0d, 0xef, 0x12, 0x34, 0x56]).unwrap(), "AB0DEF");
    assert_eq!(get_vendor_oui(&[0, 0, 0, 0, 0, 0]).unwrap(), "000000");
    assert_eq!(get_vendor_oui(&[0xff, 0xff, 0xff, 0xff, 0xff, 0xff]).unwrap(), "FFFFFF");
}

#[test]
fn oui_rejects_wrong_lengths() {
    assert_eq!(get_vendor_oui(&[]), Err(OuiError::InvalidLength));
    assert_eq!(get_vendor_oui(&[1, 2, 3, 4, 5]), Err(OuiError::InvalidLength));
    assert_eq!(get_vendor_oui(&[1, 2, 3, 4, 5, 6, 7]), Err(OuiError::InvalidLength));
    assert_eq!(get_vendor_oui(&[0u8; 8]), Err(OuiError::InvalidLength));
}

#[test]
fn repeated_queries_agree_in_any_order() {
    let vendor = vendor();
    let first = vendor.search_by_mac("CC9DA2");
    let other = vendor.search_by_mac("002272");
    let unknown = vendor.search_by_mac("BBBBBB");
    assert_eq!(vendor.search_by_mac("CC9DA2"), first);
    assert_eq!(vendor.search_by_mac("002272"), other);
    assert_eq!(vendor.search_by_mac("BBBBBB"), unknown);
    assert_eq!(first, Some("Eltex Enterprise Ltd.".to_string()));
}

#[test]
fn first_record_wins_for_duplicate_prefixes() {
    let vendor = vendor();
    assert_eq!(vendor.search_by_mac("405582"), Some("Nokia".to_string()));
}

#[test]
fn quoted_fields_are_read_whole() {
    let vendor = vendor();
    assert_eq!(vendor.len(), 6);
    assert_eq!(vendor.search_by_mac("00A0C6"), Some("Qualcomm, Inc.".to_string()));
}

#[test]
fn lookup_is_case_sensitive_on_prefix() {
    let vendor = vendor();
    assert_eq!(vendor.search_by_mac("cc9da2"), None);
    assert_eq!(vendor.search_by_mac(""), None);
}

#[test]
fn row_without_name_column_gets_placeholder() {
    let vendor = Vendor::new(b"Registry,Assignment\nMA-L,ABCDEF\n").unwrap();
    assert_eq!(vendor.search_by_mac("ABCDEF"), Some("(no vendor)".to_string()));
}

#[test]
fn malformed_registry_fails_to_load() {
    let bytes = b"Registry,Assignment,Organization Name\nMA-L,002272,A\nMA-L,010101\n";
    assert!(matches!(Vendor::new(bytes), Err(RegistryError::MalformedRecord)));
}

#[test]
fn empty_registry_resolves_nothing() {
    let vendor = Vendor::new(b"").unwrap();
    assert_eq!(vendor.len(), 0);
    assert_eq!(vendor.search_by_mac("002272"), None);
}

#[test]
fn rows_become_records() {
    let vendor = Vendor::from_rows(vec![
        vec!["MA-L".to_string(), "ABCDEF".to_string(), "Acme".to_string()],
        vec!["MA-L".to_string()],
    ]);
    assert_eq!(vendor.len(), 2);
    assert_eq!(vendor.search_by_mac("ABCDEF"), Some("Acme".to_string()));
    assert_eq!(vendor.search_by_mac(""), Some("(no vendor)".to_string()));
}
