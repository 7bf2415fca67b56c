use harvardciter2::XmlNode;
use harvardciter2::XmlElement;
use harvardciter2::descend_xml_tree;
use harvardciter2::xml_text;
use harvardciter2::parse_owner_body;
use harvardciter2::GetOwnerError;

fn elem(name: &str, children: Vec<XmlNode>) -> XmlNode {
    XmlNode::Element(XmlElement { name: name.to_string(), children })
}

fn text(s: &str) -> XmlNode {
    XmlNode::Text(s.to_string())
}

#[test]
fn descend_finds_the_unique_descendant() {
    let tree = elem("root", vec![elem("a", vec![elem("target", vec![text("hit")])]), elem("b", vec![])]);
    let found = descend_xml_tree(&tree, &"target".to_string()).expect("one match");
    assert_eq!(xml_text(found), Some("hit".to_string()));
}

#[test]
fn descend_rejects_zero_matches() {
    let tree = elem("root", vec![elem("a", vec![])]);
    assert!(descend_xml_tree(&tree, &"target".to_string()).is_none());
}

#[test]
fn descend_rejects_two_matches() {
    let tree = elem("root", vec![elem("target", vec![]), elem("a", vec![elem("target", vec![])])]);
    assert!(descend_xml_tree(&tree, &"target".to_string()).is_none());
}

#[test]
fn descend_matches_the_root_itself() {
    let tree = elem("target", vec![text("own")]);
    let found = descend_xml_tree(&tree, &"target".to_string()).expect("the root matches");
    assert_eq!(xml_text(found), Some("own".to_string()));
}

#[test]
fn descend_counts_the_root_among_the_candidates() {
    let tree = elem("target", vec![elem("target", vec![])]);
    assert!(descend_xml_tree(&tree, &"target".to_string()).is_none());
}

#[test]
fn owner_round_trip() {
    let body = "<WhoisRecord><registrant><organization>Example Org</organization></registrant></WhoisRecord>";
    assert_eq!(parse_owner_body(body), Ok("Example Org".to_string()));
}

#[test]
fn owner_malformed_xml() {
    assert_eq!(parse_owner_body("not xml <"), Err(GetOwnerError::ParseXML));
}

#[test]
fn owner_missing_registrant() {
    assert_eq!(
        parse_owner_body("<WhoisRecord><organization>X</organization></WhoisRecord>"),
        Err(GetOwnerError::ParseRegistrant)
    );
}

#[test]
fn owner_ambiguous_registrant() {
    let body = "<r><registrant/><registrant/></r>";
    assert_eq!(parse_owner_body(body), Err(GetOwnerError::ParseRegistrant));
}

#[test]
fn owner_missing_organisation() {
    let body = "<r><registrant><name>n</name></registrant></r>";
    assert_eq!(parse_owner_body(body), Err(GetOwnerError::ParseOrganisation));
}

#[test]
fn owner_ambiguous_organisation() {
    let body = "<r><registrant><organization>a</organization><organization>b</organization></registrant></r>";
    assert_eq!(parse_owner_body(body), Err(GetOwnerError::ParseOrganisation));
}

#[test]
fn owner_empty_organisation() {
    let body = "<r><registrant><organization></organization></registrant></r>";
    assert_eq!(parse_owner_body(body), Err(GetOwnerError::NoOrganisation));
}
