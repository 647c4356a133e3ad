use n2j::failure::{Context, Error, Failure};
use n2j::os::{Cpe, Os, Osclass, Osfingerprint, Osmatch, Portused};
use n2j::ports::{PortProtocol, PortState};
use n2j::xml::{read_document, XmlNode};

fn node(xml: &str) -> XmlNode {
    read_document(xml).unwrap()
}

fn missing(name: &'static str, parent: &'static str) -> Failure {
    Failure { error: Error::MissedAttribute, context: vec![Context::Attribute { name, parent }] }
}

fn unreadable(name: &'static str, parent: &'static str) -> Failure {
    Failure {
        error: Error::FailedToParseAttribute,
        context: vec![Context::Attribute { name, parent }],
    }
}

#[test]
fn portused_is_read() {
    assert_eq!(
        Portused::parse(&node("<portused state=\"open\" proto=\"tcp\" portid=\"22\"/>")),
        Ok(Portused { state: PortState::Open, proto: PortProtocol::Tcp, portid: 22 })
    );
    assert_eq!(
        Portused::parse(&node("<portused state=\"closed\" proto=\"udp\" portid=\"-1\"/>")),
        Ok(Portused { state: PortState::Closed, proto: PortProtocol::Udp, portid: -1 })
    );
}

#[test]
fn portused_failures_name_the_attribute() {
    assert_eq!(Portused::parse(&node("<portused/>")), Err(missing("state", "portused")));
    assert_eq!(
        Portused::parse(&node("<portused state=\"ajar\" proto=\"tcp\" portid=\"1\"/>")),
        Err(unreadable("state", "portused"))
    );
    assert_eq!(
        Portused::parse(&node("<portused state=\"open\" portid=\"1\"/>")),
        Err(missing("proto", "portused"))
    );
    assert_eq!(
        Portused::parse(&node("<portused state=\"open\" proto=\"x\" portid=\"1\"/>")),
        Err(unreadable("proto", "portused"))
    );
    assert_eq!(
        Portused::parse(&node("<portused state=\"open\" proto=\"tcp\"/>")),
        Err(missing("portid", "portused"))
    );
    assert_eq!(
        Portused::parse(&node("<portused state=\"open\" proto=\"tcp\" portid=\"1.5\"/>")),
        Err(unreadable("portid", "portused"))
    );
}

#[test]
fn cpe_is_the_text_of_its_element() {
    assert_eq!(
        Cpe::parse(&node("<cpe>cpe:/o:linux:linux_kernel:5</cpe>")),
        Ok(Cpe("cpe:/o:linux:linux_kernel:5".to_string()))
    );
    assert_eq!(Cpe::parse(&node("<cpe> a <!--b--> c</cpe>")), Ok(Cpe(" a ".to_string())));
}

#[test]
fn cpe_without_text_fails_for_the_missing_element() {
    let failure = Failure {
        error: Error::MissedElement,
        context: vec![Context::Element { name: "cpe", parent: "osclass" }],
    };
    assert_eq!(Cpe::parse(&node("<cpe/>")), Err(failure.clone()));
    assert_eq!(Cpe::parse(&node("<cpe></cpe>")), Err(failure.clone()));
    assert_eq!(Cpe::parse(&node("<cpe><x/>late</cpe>")), Err(failure));
}

#[test]
fn osclass_is_read_with_its_identifiers() {
    assert_eq!(
        Osclass::parse(&node(
            "<osclass type=\"general purpose\" vendor=\"Linux\" osfamily=\"Linux\" osgen=\"5.X\" accuracy=\"100\"><cpe>cpe:/o:linux:linux_kernel:5</cpe><cpe>cpe:/o:linux:linux_kernel:4</cpe></osclass>"
        )),
        Ok(Osclass {
            ttype: "general purpose".to_string(),
            vendor: "Linux".to_string(),
            osfamily: "Linux".to_string(),
            osgen: Some("5.X".to_string()),
            accuracy: 100,
            cpe: Some(vec![
                Cpe("cpe:/o:linux:linux_kernel:5".to_string()),
                Cpe("cpe:/o:linux:linux_kernel:4".to_string()),
            ]),
        })
    );
    assert_eq!(
        Osclass::parse(&node("<osclass type=\"t\" vendor=\"v\" osfamily=\"f\" accuracy=\"-5\"/>")),
        Ok(Osclass {
            ttype: "t".to_string(),
            vendor: "v".to_string(),
            osfamily: "f".to_string(),
            osgen: None,
            accuracy: -5,
            cpe: None,
        })
    );
}

#[test]
fn osclass_failures_name_the_place() {
    assert_eq!(Osclass::parse(&node("<osclass/>")), Err(missing("type", "osclass")));
    assert_eq!(
        Osclass::parse(&node("<osclass type=\"t\"/>")),
        Err(missing("vendor", "osclass"))
    );
    assert_eq!(
        Osclass::parse(&node("<osclass type=\"t\" vendor=\"v\"/>")),
        Err(missing("osfamily", "osclass"))
    );
    assert_eq!(
        Osclass::parse(&node("<osclass type=\"t\" vendor=\"v\" osfamily=\"f\"/>")),
        Err(missing("accuracy", "osclass"))
    );
    assert_eq!(
        Osclass::parse(&node("<osclass type=\"t\" vendor=\"v\" osfamily=\"f\" accuracy=\"high\"/>")),
        Err(unreadable("accuracy", "osclass"))
    );
    assert_eq!(
        Osclass::parse(&node(
            "<osclass type=\"t\" vendor=\"v\" osfamily=\"f\" accuracy=\"1\"><cpe>a</cpe><cpe/></osclass>"
        )),
        Err(Failure {
            error: Error::MissedElement,
            context: vec![Context::Element { name: "cpe", parent: "osclass" }],
        })
    );
}

#[test]
fn osmatch_is_read_with_its_classes() {
    assert_eq!(
        Osmatch::parse(&node(
            "<osmatch name=\"Linux 5.0 - 5.4\" accuracy=\"98\" line=\"67250\"><osclass type=\"t\" vendor=\"v\" osfamily=\"f\" accuracy=\"98\"/></osmatch>"
        )),
        Ok(Osmatch {
            name: "Linux 5.0 - 5.4".to_string(),
            accuracy: 98,
            line: Some(67250),
            osclass: Some(vec![Osclass {
                ttype: "t".to_string(),
                vendor: "v".to_string(),
                osfamily: "f".to_string(),
                osgen: None,
                accuracy: 98,
                cpe: None,
            }]),
        })
    );
    assert_eq!(
        Osmatch::parse(&node("<osmatch name=\"n\" accuracy=\"1\"><cpe>x</cpe></osmatch>")),
        Ok(Osmatch { name: "n".to_string(), accuracy: 1, line: None, osclass: None })
    );
}

#[test]
fn osmatch_failures_name_the_place() {
    assert_eq!(Osmatch::parse(&node("<osmatch/>")), Err(missing("name", "osmatch")));
    assert_eq!(
        Osmatch::parse(&node("<osmatch name=\"n\"/>")),
        Err(missing("accuracy", "osmatch"))
    );
    assert_eq!(
        Osmatch::parse(&node("<osmatch name=\"n\" accuracy=\"9223372036854775808\"/>")),
        Err(unreadable("accuracy", "osmatch"))
    );
    assert_eq!(
        Osmatch::parse(&node("<osmatch name=\"n\" accuracy=\"1\" line=\"\"/>")),
        Err(unreadable("line", "osmatch"))
    );
    assert_eq!(
        Osmatch::parse(&node("<osmatch name=\"n\" accuracy=\"1\"><osclass/></osmatch>")),
        Err(missing("type", "osclass"))
    );
}

#[test]
fn osfingerprint_is_read() {
    assert_eq!(
        Osfingerprint::parse(&node("<osfingerprint fingerprint=\"OS:SCAN(V=7.94)\"/>")),
        Ok(Osfingerprint { fingerprint: "OS:SCAN(V=7.94)".to_string() })
    );
    assert_eq!(
        Osfingerprint::parse(&node("<osfingerprint/>")),
        Err(missing("fingerprint", "osfingerprint"))
    );
    assert_eq!(Osfingerprint::default(), Osfingerprint { fingerprint: String::new() });
}

#[test]
fn os_without_children_is_empty() {
    let empty = Os {
        portused: vec![],
        osmatch: vec![],
        osfingerprint: Osfingerprint { fingerprint: String::new() },
    };
    assert_eq!(Os::parse(&node("<os/>")), Ok(empty.clone()));
    assert_eq!(Os::parse(&node("<os><other/> text </os>")), Ok(empty.clone()));
    assert_eq!(Os::default(), empty);
}

#[test]
fn os_gathers_ports_and_matches_and_keeps_the_last_fingerprint() {
    assert_eq!(
        Os::parse(&node(
            "<os><portused state=\"open\" proto=\"tcp\" portid=\"22\"/><osfingerprint fingerprint=\"first\"/><osmatch name=\"a\" accuracy=\"90\"/><portused state=\"closed\" proto=\"tcp\" portid=\"1\"/><osmatch name=\"b\" accuracy=\"80\"/><osfingerprint fingerprint=\"second\"/></os>"
        )),
        Ok(Os {
            portused: vec![
                Portused { state: PortState::Open, proto: PortProtocol::Tcp, portid: 22 },
                Portused { state: PortState::Closed, proto: PortProtocol::Tcp, portid: 1 },
            ],
            osmatch: vec![
                Osmatch { name: "a".to_string(), accuracy: 90, line: None, osclass: None },
                Osmatch { name: "b".to_string(), accuracy: 80, line: None, osclass: None },
            ],
            osfingerprint: Osfingerprint { fingerprint: "second".to_string() },
        })
    );
}

#[test]
fn first_failing_child_of_os_decides() {
    assert_eq!(
        Os::parse(&node("<os><osmatch name=\"a\"/><portused/><osfingerprint/></os>")),
        Err(missing("accuracy", "osmatch"))
    );
    assert_eq!(
        Os::parse(&node("<os><osfingerprint/><portused/></os>")),
        Err(missing("fingerprint", "osfingerprint"))
    );
}
