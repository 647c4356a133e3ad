use n2j::address::Address;
use n2j::failure::{Context, Error, Failure};
use n2j::host::Host;
use n2j::hostname::{Hostname, Type};
use n2j::ip::IpAddress;
use n2j::ports::{
    Extraports, Extrareasons, Port, PortProtocol, PortState, PortStatus, Ports, Service,
    ServiceMethod,
};
use n2j::runstats::{Finished, Hosts, RunStats};
use n2j::scaninfo::ScanInfo;
use n2j::status::{HostState, Status};
use n2j::xml::{read_document, XmlAttribute, XmlFault, XmlNode};
use n2j::NmapRun;

const MINIMAL: &str =
    "<nmaprun scanner=\"nmap\" args=\"a\" start=\"0\" version=\"1\" xmloutputversion=\"1\"/>";

fn bare(error: Error) -> Failure {
    Failure { error, context: vec![] }
}

fn no_document(r: Result<NmapRun, Failure>) -> bool {
    match r {
        Err(failure) => {
            failure.error == Error::FailedToParseXml
                && failure.context.len() == 1
                && matches!(failure.context[0], Context::Fault(_))
        }
        Ok(_) => false,
    }
}

fn missing(name: &'static str, parent: &'static str) -> Failure {
    Failure { error: Error::MissedAttribute, context: vec![Context::Attribute { name, parent }] }
}

fn with_versions(mut failure: Failure, version: &str, xmloutputversion: &str) -> Failure {
    failure.context.push(Context::Versions {
        version: version.to_string(),
        xmloutputversion: xmloutputversion.to_string(),
    });
    failure
}

fn minimal_report() -> NmapRun {
    NmapRun {
        scanner: "nmap".to_string(),
        args: "a".to_string(),
        start: 0,
        version: "1".to_string(),
        xmloutputversion: "1".to_string(),
        scaninfos: None,
        runstats: None,
        hosts: None,
    }
}

#[test]
fn minimal_document_has_no_optional_parts() {
    assert_eq!(NmapRun::parse(MINIMAL), Ok(minimal_report()));
    assert_eq!(NmapRun::parse_and_fix(MINIMAL), Ok(minimal_report()));
}

#[test]
fn report_of_nmap_names_nmap() {
    let xml = "<nmaprun scanner=\"nmap\" args=\"nmap -sV -O 10.0.0.0/24\" start=\"1700000000\" startstr=\"Tue\" version=\"7.94\" xmloutputversion=\"1.05\"><verbose level=\"0\"/></nmaprun>";
    let report = NmapRun::parse(xml).unwrap();
    assert_eq!(report.scanner, "nmap");
    assert_eq!(report.args, "nmap -sV -O 10.0.0.0/24");
    assert_eq!(report.start, 1700000000);
    assert_eq!(report.version, "7.94");
    assert_eq!(report.xmloutputversion, "1.05");
}

#[test]
fn foreign_scanner_is_refused() {
    let xml = "<nmaprun scanner=\"masscan\" args=\"a\" start=\"0\" version=\"1\" xmloutputversion=\"1\"/>";
    assert_eq!(NmapRun::parse(xml), Err(bare(Error::InvalidScannerType)));
    assert_eq!(NmapRun::parse_and_fix(xml), Err(bare(Error::InvalidScannerType)));
}

#[test]
fn scanner_name_is_compared_exactly() {
    for scanner in ["Nmap", "NMAP", "nmap ", " nmap", "", "nmap2", "zenmap"] {
        let xml = format!(
            "<nmaprun scanner=\"{}\" args=\"a\" start=\"0\" version=\"1\" xmloutputversion=\"1\"/>",
            scanner
        );
        assert_eq!(NmapRun::parse(&xml), Err(bare(Error::InvalidScannerType)));
    }
}

#[test]
fn foreign_scanner_is_refused_before_the_rest_is_read() {
    assert_eq!(
        NmapRun::parse("<nmaprun scanner=\"masscan\" start=\"0\"><host/></nmaprun>"),
        Err(bare(Error::InvalidScannerType))
    );
}

#[test]
fn start_is_read_before_the_scanner() {
    assert_eq!(
        NmapRun::parse("<nmaprun scanner=\"masscan\"/>"),
        Err(missing("start", "nmaprun"))
    );
    assert_eq!(
        NmapRun::parse("<nmaprun scanner=\"masscan\" start=\"yesterday\"/>"),
        Err(Failure {
            error: Error::FailedToParseAttribute,
            context: vec![Context::Attribute { name: "start", parent: "nmaprun" }],
        })
    );
}

#[test]
fn root_attributes_are_required_in_order() {
    assert_eq!(NmapRun::parse("<nmaprun/>"), Err(missing("start", "nmaprun")));
    assert_eq!(NmapRun::parse("<nmaprun start=\"1\"/>"), Err(missing("scanner", "nmaprun")));
    assert_eq!(
        NmapRun::parse("<nmaprun start=\"1\" scanner=\"nmap\"/>"),
        Err(missing("args", "nmaprun"))
    );
    assert_eq!(
        NmapRun::parse("<nmaprun start=\"1\" scanner=\"nmap\" args=\"\"/>"),
        Err(missing("version", "nmaprun"))
    );
    assert_eq!(
        NmapRun::parse("<nmaprun start=\"1\" scanner=\"nmap\" args=\"\" version=\"7\"/>"),
        Err(missing("xmloutputversion", "nmaprun"))
    );
    assert_eq!(
        NmapRun::parse(
            "<nmaprun start=\"4294967296\" scanner=\"nmap\" args=\"\" version=\"7\" xmloutputversion=\"1\"/>"
        ),
        Err(Failure {
            error: Error::FailedToParseAttribute,
            context: vec![Context::Attribute { name: "start", parent: "nmaprun" }],
        })
    );
}

#[test]
fn root_has_to_be_an_nmaprun_element() {
    let failure = Failure {
        error: Error::MissedElement,
        context: vec![Context::Element { name: "nmaprun", parent: "root" }],
    };
    assert_eq!(
        NmapRun::parse(
            "<report scanner=\"nmap\" args=\"a\" start=\"0\" version=\"1\" xmloutputversion=\"1\"/>"
        ),
        Err(failure.clone())
    );
    assert_eq!(NmapRun::parse("<host><nmaprun/></host>"), Err(failure.clone()));
    assert_eq!(NmapRun::parse("<NmapRun scanner=\"masscan\"/>"), Err(failure));
}

#[test]
fn text_that_is_no_document_fails_as_such() {
    for xml in [
        "",
        "Starting Nmap 7.94",
        "<nmaprun",
        "<nmaprun></host>",
        "<nmaprun scanner=\"nmap\" scanner=\"nmap\"/>",
    ] {
        assert!(no_document(NmapRun::parse(xml)));
    }
}

#[test]
fn failure_of_a_text_keeps_the_words_of_the_parser() {
    assert_eq!(
        NmapRun::parse("this is not xml"),
        Err(Failure {
            error: Error::FailedToParseXml,
            context: vec![Context::Fault(XmlFault::Other(
                "unknown token at 1:1".to_string()
            ))],
        })
    );
    assert_eq!(
        NmapRun::parse("<nmaprun></host>"),
        Err(Failure {
            error: Error::FailedToParseXml,
            context: vec![Context::Fault(XmlFault::Other(
                "expected 'nmaprun' tag, not 'host' at 1:10".to_string()
            ))],
        })
    );
    assert_eq!(
        NmapRun::parse("<nmaprun>"),
        Err(Failure {
            error: Error::FailedToParseXml,
            context: vec![Context::Fault(XmlFault::UnclosedRoot)],
        })
    );
}

#[test]
fn text_out_of_bounds_fails_as_no_document() {
    let mut xml = String::from(
        "<nmaprun scanner=\"nmap\" args=\"a\" start=\"0\" version=\"1\" xmloutputversion=\"1\">",
    );
    for _ in 0..128 {
        xml.push_str("<trace>");
    }
    for _ in 0..128 {
        xml.push_str("</trace>");
    }
    xml.push_str("</nmaprun>");
    let failure = Failure {
        error: Error::FailedToParseXml,
        context: vec![Context::Fault(XmlFault::Other(
            "elements nested too deeply, or markup in the declaration of an entity".to_string(),
        ))],
    };
    assert_eq!(NmapRun::parse(&xml), Err(failure.clone()));
    assert_eq!(NmapRun::parse_and_fix(&xml), Err(failure.clone()));
    assert_eq!(
        NmapRun::parse("<!DOCTYPE t [<!ENTITY p '<b/></nmaprun>'>]><nmaprun>&p;</nmaprun>"),
        Err(failure)
    );
}

#[test]
fn unclosed_root_is_mended() {
    let open = "<nmaprun scanner=\"nmap\" args=\"a\" start=\"7\" version=\"1\" xmloutputversion=\"1\">\n<host><status state=\"up\"/></host>";
    let closed = format!("{}</nmaprun>", open);
    assert_eq!(
        NmapRun::parse(open),
        Err(Failure {
            error: Error::FailedToParseXml,
            context: vec![Context::Fault(XmlFault::UnclosedRoot)],
        })
    );
    let mended = NmapRun::parse_and_fix(open);
    assert!(mended.is_ok());
    assert_eq!(mended, NmapRun::parse(&closed));
    assert_eq!(mended, NmapRun::parse_and_fix(&closed));
    let report = mended.unwrap();
    assert_eq!(report.start, 7);
    assert_eq!(report.hosts.unwrap().len(), 1);
}

#[test]
fn mended_text_is_read_like_any_other() {
    assert_eq!(
        NmapRun::parse_and_fix("<nmaprun scanner=\"masscan\" start=\"0\">"),
        Err(bare(Error::InvalidScannerType))
    );
    assert_eq!(
        NmapRun::parse_and_fix(
            "<nmaprun scanner=\"nmap\" args=\"a\" start=\"0\" version=\"7\" xmloutputversion=\"1\"><host/>"
        ),
        Err(with_versions(
            Failure {
                error: Error::MissedElement,
                context: vec![Context::Element { name: "status", parent: "host" }],
            },
            "7",
            "1"
        ))
    );
}

#[test]
fn nothing_but_an_unclosed_root_is_mended() {
    for xml in [
        "",
        "no markup",
        "<nmaprun",
        "<nmaprun></host>",
        "<nmaprun scanner=\"nmap\" scanner=\"nmap\"/>",
        "<nmaprun scanner=\"nmap\" args=\"a\" start=\"0\" version=\"1\" xmloutputversion=\"1\"><host></nmaprun>",
    ] {
        assert!(no_document(NmapRun::parse_and_fix(xml)));
        assert_eq!(NmapRun::parse_and_fix(xml), NmapRun::parse(xml));
    }
}

#[test]
fn mending_is_tried_once() {
    let xml = "<nmaprun scanner=\"nmap\" args=\"a\" start=\"0\" version=\"1\" xmloutputversion=\"1\"><host>";
    assert_eq!(
        NmapRun::parse_and_fix(xml),
        Err(Failure {
            error: Error::FailedToParseXml,
            context: vec![Context::Fault(XmlFault::Other(
                "expected 'host' tag, not 'nmaprun' at 1:83".to_string()
            ))],
        })
    );
}

#[test]
fn failure_in_a_child_carries_the_versions() {
    let xml = "<nmaprun scanner=\"nmap\" args=\"a\" start=\"0\" version=\"7.94\" xmloutputversion=\"1.05\"><host/></nmaprun>";
    assert_eq!(
        NmapRun::parse(xml),
        Err(Failure {
            error: Error::MissedElement,
            context: vec![
                Context::Element { name: "status", parent: "host" },
                Context::Versions {
                    version: "7.94".to_string(),
                    xmloutputversion: "1.05".to_string()
                },
            ],
        })
    );
}

#[test]
fn first_failing_child_of_the_root_decides() {
    let xml = "<nmaprun scanner=\"nmap\" args=\"a\" start=\"0\" version=\"7\" xmloutputversion=\"1\"><runstats><hosts/></runstats><scaninfo/><host/></nmaprun>";
    assert_eq!(NmapRun::parse(xml), Err(with_versions(missing("up", "hosts"), "7", "1")));
    let xml = "<nmaprun scanner=\"nmap\" args=\"a\" start=\"0\" version=\"7\" xmloutputversion=\"1\"><scaninfo/><runstats><hosts/></runstats></nmaprun>";
    assert_eq!(NmapRun::parse(xml), Err(with_versions(missing("type", "scaninfo"), "7", "1")));
}

#[test]
fn failure_at_the_root_carries_no_versions() {
    assert_eq!(
        NmapRun::parse("<nmaprun start=\"1\" scanner=\"nmap\" version=\"7\" xmloutputversion=\"1\"><host/></nmaprun>"),
        Err(missing("args", "nmaprun"))
    );
}

#[test]
fn unknown_children_of_the_root_change_nothing() {
    let plain = "<nmaprun scanner=\"nmap\" args=\"a\" start=\"0\" version=\"1\" xmloutputversion=\"1\"><host><status state=\"up\"/></host><runstats/></nmaprun>";
    let noisy = "<nmaprun scanner=\"nmap\" args=\"a\" start=\"0\" version=\"1\" xmloutputversion=\"1\">\n<verbose level=\"0\"/><debugging level=\"0\"/>\n<taskbegin task=\"Ping Scan\"/><host><status state=\"up\"/></host>\n<hosthint><status state=\"down\"/></hosthint><Host/><runstats/><postscript><script/></postscript>\n</nmaprun>";
    let report = NmapRun::parse(plain).unwrap();
    assert_eq!(report.hosts.as_ref().unwrap().len(), 1);
    assert_eq!(NmapRun::parse(noisy), Ok(report));
}

#[test]
fn last_runstats_counts_and_lists_are_gathered() {
    let xml = "<nmaprun scanner=\"nmap\" args=\"a\" start=\"0\" version=\"1\" xmloutputversion=\"1\">\
        <scaninfo type=\"syn\" protocol=\"tcp\" numservices=\"2\" services=\"22,80\"/>\
        <runstats><hosts up=\"0\" down=\"0\" total=\"0\"/></runstats>\
        <host><status state=\"down\"/></host>\
        <scaninfo type=\"udp\" protocol=\"udp\" numservices=\"1\" services=\"53\"/>\
        <host><status state=\"up\"/></host>\
        <runstats><hosts up=\"1\" down=\"1\" total=\"2\"/></runstats>\
        </nmaprun>";
    let report = NmapRun::parse(xml).unwrap();
    let kinds: Vec<String> = report.scaninfos.unwrap().into_iter().map(|s| s.ttype).collect();
    assert_eq!(kinds, vec!["syn".to_string(), "udp".to_string()]);
    let states: Vec<HostState> = report.hosts.unwrap().into_iter().map(|h| h.status.state).collect();
    assert_eq!(states, vec![HostState::Down, HostState::Up]);
    assert_eq!(
        report.runstats,
        Some(RunStats { finished: None, hosts: Some(Hosts { up: 1, down: 1, total: 2 }) })
    );
}

#[test]
fn report_is_read_from_a_tree_made_by_hand() {
    let attribute = |name: &str, value: &str| XmlAttribute {
        namespace: None,
        name: name.to_string(),
        value: value.to_string(),
    };
    let root = XmlNode {
        tag: "nmaprun".to_string(),
        attributes: vec![
            attribute("xmloutputversion", "1"),
            attribute("version", "1"),
            attribute("start", "0"),
            attribute("args", "a"),
            attribute("scanner", "nmap"),
        ],
        text: None,
        children: vec![],
    };
    assert_eq!(NmapRun::from_document(&root), Ok(minimal_report()));
    assert_eq!(NmapRun::from_document(&read_document(MINIMAL).unwrap()), Ok(minimal_report()));
}

#[test]
fn attribute_with_a_namespace_is_not_the_plain_one() {
    let xml = "<nmaprun xmlns:x=\"urn:x\" scanner=\"nmap\" args=\"a\" x:start=\"0\" version=\"1\" xmloutputversion=\"1\"/>";
    assert_eq!(NmapRun::parse(xml), Err(missing("start", "nmaprun")));
}

#[test]
fn whole_report_is_read() {
    let xml = "<?xml version=\"1.0\" encoding=\"UTF-8\"?>\n\
<!DOCTYPE nmaprun>\n\
<?xml-stylesheet href=\"file:///usr/share/nmap/nmap.xsl\" type=\"text/xsl\"?>\n\
<!-- Nmap 7.94 scan initiated as: nmap -sV -oX out.xml 192.168.1.10 -->\n\
<nmaprun scanner=\"nmap\" args=\"nmap -sV -oX out.xml 192.168.1.10\" start=\"1700000000\" startstr=\"Tue Nov 14 22:13:20 2023\" version=\"7.94\" xmloutputversion=\"1.05\">\n\
<scaninfo type=\"syn\" protocol=\"tcp\" numservices=\"1000\" services=\"1,3-4,6-7,9\"/>\n\
<verbose level=\"0\"/>\n\
<debugging level=\"0\"/>\n\
<host starttime=\"1700000001\" endtime=\"1700000012\"><status state=\"up\" reason=\"arp-response\" reason_ttl=\"0\"/>\n\
<address addr=\"192.168.1.10\" addrtype=\"ipv4\"/>\n\
<address addr=\"08:00:27:4E:66:A1\" addrtype=\"mac\" vendor=\"Oracle VirtualBox virtual NIC\"/>\n\
<hostnames>\n\
<hostname name=\"target.lan\" type=\"PTR\"/>\n\
</hostnames>\n\
<ports><extraports state=\"closed\" count=\"998\">\n\
<extrareasons reason=\"reset\" count=\"998\" proto=\"tcp\" ports=\"1,3-4\"/>\n\
</extraports>\n\
<port protocol=\"tcp\" portid=\"22\"><state state=\"open\" reason=\"syn-ack\" reason_ttl=\"64\"/><service name=\"ssh\" product=\"OpenSSH\" version=\"8.9p1\" extrainfo=\"protocol 2.0\" ostype=\"Linux\" method=\"probed\" conf=\"10\"><cpe>cpe:/a:openbsd:openssh:8.9p1</cpe></service></port>\n\
<port protocol=\"tcp\" portid=\"80\"><state state=\"open|filtered\" reason=\"no-response\" reason_ttl=\"0\"/><service name=\"http\" method=\"table\" conf=\"3\"/></port>\n\
</ports>\n\
<times srtt=\"531\" rttvar=\"146\" to=\"100000\"/>\n\
</host>\n\
<runstats><finished time=\"1700000012\" timestr=\"Tue Nov 14 22:13:32 2023\" summary=\"done\" elapsed=\"12.34\" exit=\"success\"/><hosts up=\"1\" down=\"0\" total=\"1\"/>\n\
</runstats>\n\
</nmaprun>\n";
    let expected = NmapRun {
        scanner: "nmap".to_string(),
        args: "nmap -sV -oX out.xml 192.168.1.10".to_string(),
        start: 1700000000,
        version: "7.94".to_string(),
        xmloutputversion: "1.05".to_string(),
        scaninfos: Some(vec![ScanInfo {
            ttype: "syn".to_string(),
            protocol: PortProtocol::Tcp,
            numservices: 1000,
            services: "1,3-4,6-7,9".to_string(),
        }]),
        runstats: Some(RunStats {
            finished: Some(Finished { time: 1700000012, elapsed: Some("12.34".to_string()) }),
            hosts: Some(Hosts { up: 1, down: 0, total: 1 }),
        }),
        hosts: Some(vec![Host {
            start_time: Some(1700000001),
            end_time: Some(1700000012),
            timed_out: None,
            status: Status {
                state: HostState::Up,
                reason: Some("arp-response".to_string()),
                reason_ttl: Some(0),
            },
            addresses: vec![
                Address::IpAddr(IpAddress::V4([192, 168, 1, 10])),
                Address::MacAddr("08:00:27:4E:66:A1".to_string()),
            ],
            host_names: Some(vec![Hostname { name: "target.lan".to_string(), ttype: Type::Ptr }]),
            ports: Some(Ports {
                ports: vec![
                    Port {
                        protocol: PortProtocol::Tcp,
                        port_number: 22,
                        status: PortStatus {
                            state: PortState::Open,
                            reason: Some("syn-ack".to_string()),
                            reason_ttl: Some(64),
                        },
                        service: Some(Service {
                            name: "ssh".to_string(),
                            product: Some("OpenSSH".to_string()),
                            extra_info: Some("protocol 2.0".to_string()),
                            confidence_level: 10,
                            method: Some(ServiceMethod::Probed),
                        }),
                    },
                    Port {
                        protocol: PortProtocol::Tcp,
                        port_number: 80,
                        status: PortStatus {
                            state: PortState::OpenFiltered,
                            reason: Some("no-response".to_string()),
                            reason_ttl: Some(0),
                        },
                        service: Some(Service {
                            name: "http".to_string(),
                            product: None,
                            extra_info: None,
                            confidence_level: 3,
                            method: Some(ServiceMethod::Table),
                        }),
                    },
                ],
                extraports: Some(vec![Extraports {
                    state: PortState::Closed,
                    count: 998,
                    extrareasons: Some(vec![Extrareasons {
                        reason: "reset".to_string(),
                        count: 998,
                        proto: Some(PortProtocol::Tcp),
                        ports: Some("1,3-4".to_string()),
                    }]),
                }]),
            }),
            os: None,
            distance: None,
            host_scripts: None,
        }]),
    };
    assert_eq!(NmapRun::parse(xml), Ok(expected.clone()));
    assert_eq!(NmapRun::parse_and_fix(xml), Ok(expected));
}

#[test]
fn large_report_is_read() {
    let mut xml = String::from(
        "<nmaprun scanner=\"nmap\" args=\"a\" start=\"0\" version=\"1\" xmloutputversion=\"1\">\n",
    );
    for i in 0..3000u32 {
        xml.push_str(&format!(
            "<host><status state=\"up\"/><address addr=\"10.0.{}.{}\" addrtype=\"ipv4\"/>\n<ports>",
            i / 256,
            i % 256
        ));
        for port in [22u16, 80, 443, 8080] {
            xml.push_str(&format!(
                "<port protocol=\"tcp\" portid=\"{}\"><state state=\"open\"/><service name=\"s\" conf=\"3\"/></port>",
                port
            ));
        }
        xml.push_str("</ports></host>\n");
    }
    xml.push_str("</nmaprun>");
    let report = NmapRun::parse(&xml).unwrap();
    let hosts = report.hosts.unwrap();
    assert_eq!(hosts.len(), 3000);
    assert_eq!(hosts[2999].addresses, vec![Address::IpAddr(IpAddress::V4([10, 0, 11, 183]))]);
    assert!(hosts.iter().all(|h| h.ports.as_ref().unwrap().ports.len() == 4));
    assert_eq!(hosts[1500].ports.as_ref().unwrap().ports[3].port_number, 8080);
}

#[test]
fn nested_unknown_elements_are_passed_over() {
    let mut xml = String::from(
        "<nmaprun scanner=\"nmap\" args=\"a\" start=\"0\" version=\"1\" xmloutputversion=\"1\"><host>",
    );
    for _ in 0..60 {
        xml.push_str("<trace>");
    }
    xml.push_str("<status state=\"down\"/>");
    for _ in 0..60 {
        xml.push_str("</trace>");
    }
    xml.push_str("<status state=\"up\"/></host></nmaprun>");
    let report = NmapRun::parse(&xml).unwrap();
    assert_eq!(report.hosts.unwrap()[0].status.state, HostState::Up);
}
