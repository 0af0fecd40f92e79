use libuhdr::xmp::str_equals;
use libuhdr::{GainMapXmp, XmlAttribute, XmlNode, XmpValue};

const RDF: &str = "http://www.w3.org/1999/02/22-rdf-syntax-ns#";
const HDRGM: &str = "http://ns.adobe.com/hdr-gain-map/1.0/";

fn packet(description: &str) -> Vec<u8> {
    format!(
        "<x:xmpmeta xmlns:x=\"adobe:ns:meta/\" xmlns:rdf=\"{}\" xmlns:hdrgm=\"{}\">\
<rdf:RDF>{}</rdf:RDF></x:xmpmeta>",
        RDF, HDRGM, description
    )
    .into_bytes()
}

fn scalar(text: &str) -> Option<XmpValue> {
    Some(XmpValue::Scalar(text.to_string()))
}

fn triple(r: &str, g: &str, b: &str) -> Option<XmpValue> {
    Some(XmpValue::Triple(r.to_string(), g.to_string(), b.to_string()))
}

fn element(name: &str, attributes: &[(&str, &str)], text: Option<&str>, children: &[usize]) -> XmlNode {
    XmlNode {
        name: name.to_string(),
        text: text.map(|t| t.to_string()),
        attributes: attributes
            .iter()
            .map(|(n, v)| XmlAttribute { name: n.to_string(), value: v.to_string() })
            .collect(),
        children: children.to_vec(),
    }
}

#[test]
fn description_with_the_required_property_alone() {
    let xml = format!("<rdf:Description xmlns:rdf=\"{}\" HDRCapacityMax=\"3.0\" />", RDF);
    let xmp = GainMapXmp::new_from_xmp_bytes(xml.as_bytes()).unwrap();
    assert_eq!(
        xmp,
        GainMapXmp {
            base_rendition_is_hdr: false,
            gain_map_min: None,
            gain_map_max: None,
            gamma: None,
            offset_sdr: None,
            offset_hdr: None,
            hdr_capacity_min: None,
            hdr_capacity_max: "3.0".to_string(),
        }
    );
    assert_eq!(xmp.hdr_capacity_max.parse::<f32>(), Ok(3.0));
}

#[test]
fn properties_are_read_from_attributes() {
    let xml = packet(
        "<rdf:Description hdrgm:Version=\"1.0\" hdrgm:GainMapMin=\"-0.57609993\" \
hdrgm:GainMapMax=\"4.7090998\" hdrgm:Gamma=\"1\" hdrgm:OffsetSDR=\"0.015625\" \
hdrgm:OffsetHDR=\"0.03125\" hdrgm:HDRCapacityMin=\"0\" hdrgm:HDRCapacityMax=\"4.7090998\" \
hdrgm:BaseRenditionIsHDR=\"False\"/>",
    );
    let xmp = GainMapXmp::new_from_xmp_bytes(&xml).unwrap();
    assert_eq!(
        xmp,
        GainMapXmp {
            base_rendition_is_hdr: false,
            gain_map_min: scalar("-0.57609993"),
            gain_map_max: scalar("4.7090998"),
            gamma: scalar("1"),
            offset_sdr: scalar("0.015625"),
            offset_hdr: scalar("0.03125"),
            hdr_capacity_min: Some("0".to_string()),
            hdr_capacity_max: "4.7090998".to_string(),
        }
    );
}

#[test]
fn base_rendition_is_hdr_only_where_the_packet_says_true() {
    for (text, expected) in
        [("true", true), ("false", false), ("True", false), ("1", false), ("", false), (" true", false)]
    {
        let xml = packet(&format!(
            "<rdf:Description hdrgm:HDRCapacityMax=\"2\" hdrgm:BaseRenditionIsHDR=\"{}\"/>",
            text
        ));
        let xmp = GainMapXmp::new_from_xmp_bytes(&xml).unwrap();
        assert_eq!(xmp.base_rendition_is_hdr, expected, "{:?}", text);
    }
    let xml = packet(
        "<rdf:Description hdrgm:HDRCapacityMax=\"2\">\
<hdrgm:BaseRenditionIsHDR>true</hdrgm:BaseRenditionIsHDR></rdf:Description>",
    );
    assert!(GainMapXmp::new_from_xmp_bytes(&xml).unwrap().base_rendition_is_hdr);
}

#[test]
fn properties_are_read_from_child_elements() {
    let xml = packet(
        "<rdf:Description>\
<hdrgm:GainMapMin><rdf:Seq><rdf:li>-1.5</rdf:li><rdf:li>0</rdf:li><rdf:li>1.5</rdf:li></rdf:Seq></hdrgm:GainMapMin>\
<hdrgm:GainMapMax>\n  <rdf:Seq>\n    <rdf:li>3.0</rdf:li>\n    <rdf:li>3.5</rdf:li>\n    <rdf:li>4.0</rdf:li>\n  </rdf:Seq>\n</hdrgm:GainMapMax>\
<hdrgm:Gamma>2.2</hdrgm:Gamma>\
<hdrgm:HDRCapacityMin>0.5</hdrgm:HDRCapacityMin>\
<hdrgm:HDRCapacityMax>4.0</hdrgm:HDRCapacityMax>\
</rdf:Description>",
    );
    let xmp = GainMapXmp::new_from_xmp_bytes(&xml).unwrap();
    assert_eq!(xmp.gain_map_min, triple("-1.5", "0", "1.5"));
    assert_eq!(xmp.gain_map_max, triple("3.0", "3.5", "4.0"));
    assert_eq!(xmp.gamma, scalar("2.2"));
    assert_eq!(xmp.offset_sdr, None);
    assert_eq!(xmp.offset_hdr, None);
    assert_eq!(xmp.hdr_capacity_min, Some("0.5".to_string()));
    assert_eq!(xmp.hdr_capacity_max, "4.0");
    assert!(!xmp.base_rendition_is_hdr);
}

#[test]
fn first_three_items_of_a_sequence_count() {
    let xml = packet(
        "<rdf:Description hdrgm:HDRCapacityMax=\"1\">\
<hdrgm:OffsetSDR><rdf:Seq><rdf:other>9</rdf:other><rdf:li>1</rdf:li><!-- note -->\
<rdf:li>x</rdf:li><rdf:other>8</rdf:other><rdf:li>3</rdf:li><rdf:li>4</rdf:li></rdf:Seq></hdrgm:OffsetSDR>\
</rdf:Description>",
    );
    let xmp = GainMapXmp::new_from_xmp_bytes(&xml).unwrap();
    assert_eq!(xmp.offset_sdr, triple("1", "x", "3"));
}

#[test]
fn sequence_of_fewer_than_three_items_holds_nothing() {
    let xml = packet(
        "<rdf:Description hdrgm:HDRCapacityMax=\"1\">\
<hdrgm:OffsetHDR><rdf:Seq><rdf:li>1</rdf:li><rdf:li>2</rdf:li></rdf:Seq></hdrgm:OffsetHDR>\
<hdrgm:Gamma><rdf:Seq/></hdrgm:Gamma>\
<hdrgm:GainMapMin>7<rdf:Seq><rdf:li>1</rdf:li></rdf:Seq></hdrgm:GainMapMin>\
</rdf:Description>",
    );
    let xmp = GainMapXmp::new_from_xmp_bytes(&xml).unwrap();
    assert_eq!(xmp.offset_hdr, None);
    assert_eq!(xmp.gamma, None);
    // The text beside the sequence does not stand in for it.
    assert_eq!(xmp.gain_map_min, None);
}

#[test]
fn item_without_text_among_the_first_three_spoils_the_sequence() {
    let xml = packet(
        "<rdf:Description hdrgm:HDRCapacityMax=\"1\">\
<hdrgm:OffsetSDR><rdf:Seq><rdf:li>1</rdf:li><rdf:li/><rdf:li>3</rdf:li><rdf:li>4</rdf:li></rdf:Seq></hdrgm:OffsetSDR>\
<hdrgm:OffsetHDR><rdf:Seq><rdf:li>1</rdf:li><rdf:li>2</rdf:li><rdf:li>3</rdf:li><rdf:li/></rdf:Seq></hdrgm:OffsetHDR>\
</rdf:Description>",
    );
    let xmp = GainMapXmp::new_from_xmp_bytes(&xml).unwrap();
    assert_eq!(xmp.offset_sdr, None);
    assert_eq!(xmp.offset_hdr, triple("1", "2", "3"));
}

#[test]
fn attribute_comes_before_child_element() {
    let xml = packet(
        "<rdf:Description hdrgm:HDRCapacityMax=\"1\" hdrgm:Gamma=\"7\">\
<hdrgm:Gamma>8</hdrgm:Gamma><hdrgm:HDRCapacityMax>2</hdrgm:HDRCapacityMax>\
</rdf:Description>",
    );
    let xmp = GainMapXmp::new_from_xmp_bytes(&xml).unwrap();
    assert_eq!(xmp.gamma, scalar("7"));
    assert_eq!(xmp.hdr_capacity_max, "1");
}

#[test]
fn first_child_element_of_a_name_counts() {
    let xml = packet(
        "<rdf:Description>\
<hdrgm:HDRCapacityMax>5</hdrgm:HDRCapacityMax><hdrgm:HDRCapacityMax>6</hdrgm:HDRCapacityMax>\
<hdrgm:Gamma><rdf:Seq><rdf:li>1</rdf:li><rdf:li>2</rdf:li><rdf:li>3</rdf:li></rdf:Seq>\
<rdf:Seq><rdf:li>4</rdf:li><rdf:li>5</rdf:li><rdf:li>6</rdf:li></rdf:Seq></hdrgm:Gamma>\
<hdrgm:Gamma>9</hdrgm:Gamma>\
</rdf:Description>",
    );
    let xmp = GainMapXmp::new_from_xmp_bytes(&xml).unwrap();
    assert_eq!(xmp.hdr_capacity_max, "5");
    assert_eq!(xmp.gamma, triple("1", "2", "3"));
}

#[test]
fn first_description_of_the_document_counts() {
    let xml = packet(
        "<rdf:Description hdrgm:HDRCapacityMax=\"1\"/><rdf:Description hdrgm:HDRCapacityMax=\"2\"/>",
    );
    assert_eq!(GainMapXmp::new_from_xmp_bytes(&xml).unwrap().hdr_capacity_max, "1");
    let xml = packet(
        "<rdf:Description hdrgm:Gamma=\"1\"/><rdf:Description hdrgm:HDRCapacityMax=\"2\"/>",
    );
    assert_eq!(GainMapXmp::new_from_xmp_bytes(&xml), None);
}

#[test]
fn packet_without_the_required_property_holds_nothing() {
    let xml = packet("<rdf:Description hdrgm:HDRCapacityMin=\"0\" hdrgm:Gamma=\"1\"/>");
    assert_eq!(GainMapXmp::new_from_xmp_bytes(&xml), None);
    let xml = packet("<rdf:Description><hdrgm:HDRCapacityMax/></rdf:Description>");
    assert_eq!(GainMapXmp::new_from_xmp_bytes(&xml), None);
    let xml = packet(
        "<rdf:Description><hdrgm:HDRCapacityMax><rdf:Seq><rdf:li>1</rdf:li></rdf:Seq></hdrgm:HDRCapacityMax></rdf:Description>",
    );
    assert_eq!(GainMapXmp::new_from_xmp_bytes(&xml), None);
}

#[test]
fn packet_without_a_description_holds_nothing() {
    assert_eq!(GainMapXmp::new_from_xmp_bytes(&packet("")), None);
    assert_eq!(GainMapXmp::new_from_xmp_bytes(&packet("<rdf:Bag HDRCapacityMax=\"3\"/>")), None);
    assert_eq!(GainMapXmp::new_from_xmp_bytes(b"<description HDRCapacityMax=\"3\"/>"), None);
    assert!(GainMapXmp::new_from_xmp_bytes(b"<Description HDRCapacityMax=\"3\"/>").is_some());
}

#[test]
fn bytes_that_are_no_document_hold_nothing() {
    assert_eq!(GainMapXmp::new_from_xmp_bytes(b""), None);
    assert_eq!(GainMapXmp::new_from_xmp_bytes(b"HDRCapacityMax=3.0"), None);
    assert_eq!(GainMapXmp::new_from_xmp_bytes(b"<Description HDRCapacityMax=\"3\">"), None);
    // A prefix that no namespace is declared for.
    assert_eq!(GainMapXmp::new_from_xmp_bytes(b"<rdf:Description HDRCapacityMax=\"3.0\" />"), None);
}

#[test]
fn bytes_that_are_not_utf8_hold_nothing() {
    let mut xml = b"<Description HDRCapacityMax=\"3\" note=\"".to_vec();
    xml.push(0xFF);
    xml.extend_from_slice(b"\"/>");
    assert_eq!(GainMapXmp::new_from_xmp_bytes(&xml), None);
    assert_eq!(GainMapXmp::new_from_xmp_bytes(&[0xC3]), None);
}

#[test]
fn properties_are_read_from_plain_nodes() {
    let nodes = vec![
        element("", &[], None, &[1]),
        element("xmpmeta", &[], None, &[2]),
        element("Description", &[("HDRCapacityMax", "3.5"), ("Gamma", "2")], None, &[3, 4]),
        element("GainMapMax", &[], None, &[5]),
        element("OffsetSDR", &[], Some("0.25"), &[]),
        element("Seq", &[], None, &[6, 7, 8]),
        element("li", &[], Some("1"), &[]),
        element("li", &[], Some("2"), &[]),
        element("li", &[], Some("3"), &[]),
    ];
    assert_eq!(
        GainMapXmp::from_nodes(&nodes),
        Some(GainMapXmp {
            base_rendition_is_hdr: false,
            gain_map_min: None,
            gain_map_max: triple("1", "2", "3"),
            gamma: scalar("2"),
            offset_sdr: scalar("0.25"),
            offset_hdr: None,
            hdr_capacity_min: None,
            hdr_capacity_max: "3.5".to_string(),
        })
    );
}

#[test]
fn children_that_are_no_nodes_of_the_list_are_passed_over() {
    let nodes = vec![
        element("Description", &[], None, &[99, 2, 1]),
        element("HDRCapacityMax", &[], Some("4"), &[]),
        element("Gamma", &[], None, &[usize::MAX, 3]),
        element("Seq", &[], None, &[7, 4, 0, 5, usize::MAX, 4]),
        element("li", &[], Some("9"), &[]),
        element("li", &[], Some("8"), &[]),
    ];
    let xmp = GainMapXmp::from_nodes(&nodes).unwrap();
    assert_eq!(xmp.hdr_capacity_max, "4");
    assert_eq!(xmp.gamma, triple("9", "8", "9"));
}

#[test]
fn empty_list_of_nodes_holds_nothing() {
    assert_eq!(GainMapXmp::from_nodes(&[]), None);
    assert_eq!(GainMapXmp::from_nodes(&[element("", &[], None, &[])]), None);
}

#[test]
fn first_attribute_of_a_name_counts() {
    let nodes = vec![element(
        "Description",
        &[("Gamma", "1"), ("HDRCapacityMax", "2"), ("Gamma", "3"), ("HDRCapacityMax", "4")],
        None,
        &[],
    )];
    let xmp = GainMapXmp::from_nodes(&nodes).unwrap();
    assert_eq!(xmp.gamma, scalar("1"));
    assert_eq!(xmp.hdr_capacity_max, "2");
}

#[test]
fn strings_are_equal_where_their_characters_are() {
    assert!(str_equals("", ""));
    assert!(str_equals("Description", "Description"));
    assert!(!str_equals("Description", "description"));
    assert!(!str_equals("Description", "Descriptio"));
    assert!(!str_equals("li", "l"));
    assert!(!str_equals("", "x"));
    assert!(str_equals("\u{e9}\u{2014}", "\u{e9}\u{2014}"));
    assert!(!str_equals("\u{e9}", "e"));
}

#[test]
fn one_value_stands_for_all_three_channels() {
    let value = XmpValue::Scalar("1.5".to_string());
    assert_eq!(value.channels(), ("1.5".to_string(), "1.5".to_string(), "1.5".to_string()));
    let value = XmpValue::Triple("1".to_string(), "2".to_string(), "3".to_string());
    assert_eq!(value.channels(), ("1".to_string(), "2".to_string(), "3".to_string()));
    let (r, g, b) = XmpValue::Scalar("0.015625".to_string()).channels();
    assert_eq!(
        [r.parse::<f32>(), g.parse::<f32>(), b.parse::<f32>()],
        [Ok(0.015625), Ok(0.015625), Ok(0.015625)]
    );
}
