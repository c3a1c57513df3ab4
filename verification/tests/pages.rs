//! Decoding the three page layouts from sample HTML bodies.

use procurve_cli::decode::html_to_description;
use procurve_cli::decode::html_to_vlan_configuration;
use procurve_cli::decode::html_to_vlan_participation;
use procurve_cli::errors::ProCurveError;
use procurve_cli::model::VlanMode;

fn input(value: Option<&str>) -> String {
    match value {
        Some(v) => format!("<input type=\"text\" value=\"{}\">\n", v),
        None => String::from("<input type=\"text\">\n"),
    }
}

fn page(inputs: &[Option<&str>]) -> String {
    let mut body = String::from("<html><head></head><body><form>\n");
    for v in inputs {
        body.push_str(&input(*v));
    }
    body.push_str("</form></body></html>\n");
    body
}

fn description_page() -> String {
    page(&[
        Some("HP ProCurve 1810G - 8 GE, P.2.22, eCos-2.0, CFE-2.1"),
        Some("PROCURVE J9449A"),
        Some(""),
        None,
        Some(" P.2.22 "),
        Some("1.3.6.1.4.1.11.2.3.7.11.103"),
        Some("2 days, 22 hours, 20 mins, 22 secs"),
        Some("22:20:22"),
        Some("01/03/1970"),
    ])
}

#[test]
fn parses_description_html_correctly() {
    let body = description_page();
    let description = html_to_description(&body)
        .expect("convert SysDescription.html into Description struct");
    assert_eq!(
        description.description,
        "HP ProCurve 1810G - 8 GE, P.2.22, eCos-2.0, CFE-2.1"
    );
    assert_eq!(description.name, "PROCURVE J9449A");
    assert_eq!(description.contact, "");
    assert_eq!(description.location, "");
    assert_eq!(description.version, "P.2.22");
    assert_eq!(description.object_id, "1.3.6.1.4.1.11.2.3.7.11.103");
    assert_eq!(description.uptime, "2 days, 22 hours, 20 mins, 22 secs");
    assert_eq!(description.current_time, "22:20:22");
    assert_eq!(description.current_date, "01/03/1970");
}

#[test]
fn empty_page_names_the_first_field() {
    match html_to_description("<html><body>nothing here</body></html>") {
        Err(ProCurveError::FieldNotFound { field }) => assert_eq!(field, "description"),
        other => panic!("expected FieldNotFound, got {:?}", other),
    }
}

#[test]
fn vlan_name_may_be_empty() {
    let body = vlan_list_page(&[("7", "  ")]);
    let vlans = html_to_vlan_configuration(&body).expect("blank name decodes");
    assert_eq!(vlans.len(), 1);
    assert_eq!(vlans[0].id, 7);
    assert_eq!(vlans[0].name, "");
}

#[test]
fn description_with_too_few_inputs_names_missing_field() {
    let body = page(&[Some("a"), Some("b"), Some("c"), Some("d"), Some("e"), Some("f")]);
    match html_to_description(&body) {
        Err(ProCurveError::FieldNotFound { field }) => assert_eq!(field, "uptime"),
        other => panic!("expected FieldNotFound, got {:?}", other),
    }
}

fn vlan_list_page(rows: &[(&str, &str)]) -> String {
    let mut inputs: Vec<Option<&str>> = Vec::new();
    for _ in 0..4 {
        inputs.push(Some("preamble"));
    }
    for (id, name) in rows {
        inputs.push(Some(*id));
        inputs.push(Some(*name));
        inputs.push(Some("unused"));
        inputs.push(Some("unused"));
    }
    for _ in 0..6 {
        inputs.push(Some("trailer"));
    }
    page(&inputs)
}

#[test]
fn parses_vlan_configuration_correctly() {
    let body = vlan_list_page(&[("1", "Default"), ("101", "lan"), ("102", "dmz")]);
    let vlans = html_to_vlan_configuration(&body)
        .expect("convert samples/VlanCreateConfig.html into list of VLANs");
    assert_eq!(vlans.len(), 3);
    // Default
    assert_eq!(vlans[0].id, 1);
    assert_eq!(vlans[0].name, "Default");
    // lan
    assert_eq!(vlans[1].id, 101);
    assert_eq!(vlans[1].name, "lan");
    // dmz
    assert_eq!(vlans[2].id, 102);
    assert_eq!(vlans[2].name, "dmz");
}

#[test]
fn vlan_id_out_of_range_fails_not_clamps() {
    let body = vlan_list_page(&[("1", "Default"), ("4096", "too-big")]);
    match html_to_vlan_configuration(&body) {
        Err(ProCurveError::Parse { text }) => assert_eq!(text, "4096"),
        other => panic!("expected Parse error, got {:?}", other),
    }
}

#[test]
fn vlan_id_largest_legal_value_decodes() {
    let body = vlan_list_page(&[("4095", "edge")]);
    let vlans = html_to_vlan_configuration(&body).expect("id 4095 is legal");
    assert_eq!(vlans.len(), 1);
    assert_eq!(vlans[0].id, 4095);
}

#[test]
fn non_numeric_vlan_id_fails() {
    let body = vlan_list_page(&[("abc", "bad")]);
    match html_to_vlan_configuration(&body) {
        Err(ProCurveError::Parse { text }) => assert_eq!(text, "abc"),
        other => panic!("expected Parse error, got {:?}", other),
    }
}

#[test]
fn empty_vlan_list_page_decodes_to_no_vlans() {
    let body = vlan_list_page(&[]);
    let vlans = html_to_vlan_configuration(&body).expect("page with no rows");
    assert_eq!(vlans.len(), 0);
}

#[test]
fn short_vlan_list_page_is_missing_field() {
    let body = page(&[Some("a"), Some("b")]);
    match html_to_vlan_configuration(&body) {
        Err(ProCurveError::FieldNotFound { field }) => assert_eq!(field, "vlan_id"),
        other => panic!("expected FieldNotFound, got {:?}", other),
    }
}

fn participation_page(blocks: &[(&str, &str, &str)]) -> String {
    let mut inputs: Vec<Option<&str>> = Vec::new();
    for _ in 0..6 {
        inputs.push(Some("preamble"));
    }
    for (port, ie, tm) in blocks {
        inputs.push(Some(*port));
        inputs.push(Some("unused"));
        inputs.push(Some(*ie));
        inputs.push(Some(*tm));
        for _ in 0..4 {
            inputs.push(Some("unused"));
        }
    }
    for _ in 0..6 {
        inputs.push(Some("trailer"));
    }
    page(&inputs)
}

#[test]
fn parses_vlan_participation_correctly() {
    let body = participation_page(&[
        ("1", "Include", "Tagged"),
        ("2", "Exclude", "UnTagged"),
        ("3", "Exclude", "UnTagged"),
        ("4", "Include", "UnTagged"),
        ("5", "Exclude", "UnTagged"),
        ("6", "Exclude", "UnTagged"),
        ("7", "Exclude", "UnTagged"),
        ("8", "Exclude", "UnTagged"),
    ]);
    let participation = html_to_vlan_participation(&body, 123)
        .expect("convert samples/VLANPortParticipation.html into list of VLANs");
    assert_eq!(participation.vlan_id, 123);
    assert_eq!(participation.ports.len(), 8);
    assert!(matches!(participation.ports[0].mode, VlanMode::Tagged));
    assert!(matches!(participation.ports[1].mode, VlanMode::Excluded));
    assert!(matches!(participation.ports[2].mode, VlanMode::Excluded));
    assert!(matches!(participation.ports[3].mode, VlanMode::Untagged));
    assert!(matches!(participation.ports[4].mode, VlanMode::Excluded));
    assert!(matches!(participation.ports[5].mode, VlanMode::Excluded));
    assert!(matches!(participation.ports[6].mode, VlanMode::Excluded));
    assert!(matches!(participation.ports[7].mode, VlanMode::Excluded));
}

#[test]
fn exclude_tagged_pair_fails() {
    let body = participation_page(&[("1", "Exclude", "Tagged")]);
    match html_to_vlan_participation(&body, 1) {
        Err(ProCurveError::UnexpectedMode { include_exclude, tag_mode }) => {
            assert_eq!(include_exclude, "Exclude");
            assert_eq!(tag_mode, "Tagged");
        }
        other => panic!("expected UnexpectedMode, got {:?}", other),
    }
}

#[test]
fn port_zero_fails() {
    let body = participation_page(&[("0", "Include", "Tagged")]);
    match html_to_vlan_participation(&body, 1) {
        Err(ProCurveError::Parse { text }) => assert_eq!(text, "0"),
        other => panic!("expected Parse error, got {:?}", other),
    }
}

#[test]
fn non_numeric_port_fails() {
    let body = participation_page(&[("one", "Include", "Tagged")]);
    match html_to_vlan_participation(&body, 1) {
        Err(ProCurveError::Parse { text }) => assert_eq!(text, "one"),
        other => panic!("expected Parse error, got {:?}", other),
    }
}

#[test]
fn short_participation_page_is_missing_field() {
    let body = page(&[Some("a")]);
    match html_to_vlan_participation(&body, 1) {
        Err(ProCurveError::FieldNotFound { field }) => assert_eq!(field, "port_num"),
        other => panic!("expected FieldNotFound, got {:?}", other),
    }
}

#[test]
fn ports_land_at_port_number_even_out_of_order() {
    let body = participation_page(&[
        ("3", "Include", "Tagged"),
        ("1", "Include", "UnTagged"),
    ]);
    let participation = html_to_vlan_participation(&body, 7).expect("out-of-order page");
    assert_eq!(participation.ports.len(), 3);
    assert!(matches!(participation.ports[0].mode, VlanMode::Untagged));
    assert!(matches!(participation.ports[1].mode, VlanMode::Excluded));
    assert!(matches!(participation.ports[2].mode, VlanMode::Tagged));
}
