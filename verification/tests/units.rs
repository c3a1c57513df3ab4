//! The small pieces: mode codes, model constructors, trimming and
//! numerals.

use procurve_cli::digits::parse_u16;
use procurve_cli::digits::u16_to_decimal;
use procurve_cli::model::Vlan;
use procurve_cli::model::VlanMode;
use procurve_cli::model::VlanPortConfig;
use procurve_cli::model::VlanPortParticipation;
use procurve_cli::text::str_eq;
use procurve_cli::text::trim;

#[test]
fn mode_codes_are_single_characters() {
    assert_eq!(VlanMode::Tagged.code(), "T");
    assert_eq!(VlanMode::Untagged.code(), "U");
    assert_eq!(VlanMode::Excluded.code(), "E");
}

#[test]
fn vlan_keeps_id_and_name() {
    let v = Vlan::new(101, "lan");
    assert_eq!(v.id, 101);
    assert_eq!(v.name, "lan");
}

#[test]
fn participation_keeps_id_and_ports() {
    let ports = vec![VlanPortConfig::new(VlanMode::Tagged)];
    let pp = VlanPortParticipation::new(7, ports);
    assert_eq!(pp.vlan_id, 7);
    assert_eq!(pp.ports.len(), 1);
    assert!(matches!(pp.ports[0].mode, VlanMode::Tagged));
}

#[test]
fn trim_removes_leading_and_trailing_whitespace() {
    assert_eq!(trim("  P.2.22 \t\r\n"), "P.2.22");
    assert_eq!(trim(""), "");
    assert_eq!(trim("   "), "");
    assert_eq!(trim("a b"), "a b");
}

#[test]
fn str_eq_compares_contents() {
    assert!(str_eq("Include", "Include"));
    assert!(!str_eq("Include", "Exclude"));
    assert!(!str_eq("Tagged", "UnTagged"));
}

#[test]
fn decimal_numerals_round_trip() {
    assert_eq!(u16_to_decimal(0), "0");
    assert_eq!(u16_to_decimal(101), "101");
    assert_eq!(u16_to_decimal(65535), "65535");
    assert_eq!(parse_u16("0"), Some(0));
    assert_eq!(parse_u16("4095"), Some(4095));
    assert_eq!(parse_u16("65535"), Some(65535));
    assert_eq!(parse_u16("65536"), None);
    assert_eq!(parse_u16(""), None);
    assert_eq!(parse_u16("12a"), None);
    assert_eq!(parse_u16("-1"), None);
    for v in [0u16, 1, 9, 10, 4095, 4096, 65535] {
        assert_eq!(parse_u16(&u16_to_decimal(v)), Some(v));
    }
}
