use n2j::failure::{Context, Error, Failure};
use n2j::runstats::{Finished, Hosts, RunStats};
use n2j::xml::{read_document, XmlNode};

fn node(xml: &str) -> XmlNode {
    read_document(xml).unwrap()
}

fn missing(name: &'static str, parent: &'static str) -> Failure {
    Failure { error: Error::MissedAttribute, context: vec![Context::Attribute { name, parent }] }
}

fn unreadable(name: &'static str, parent: &'static str) -> Failure {
    Failure {
        error: Error::FailedToParseAttribute,
        context: vec![Context::Attribute { name, parent }],
    }
}

#[test]
fn finished_has_a_time_and_may_have_a_duration() {
    assert_eq!(
        Finished::parse(&node(
            "<finished time=\"1700000123\" timestr=\"Tue Nov 14\" elapsed=\"12.34\" exit=\"success\"/>"
        )),
        Ok(Finished { time: 1700000123, elapsed: Some("12.34".to_string()) })
    );
    assert_eq!(
        Finished::parse(&node("<finished time=\"-1\"/>")),
        Ok(Finished { time: -1, elapsed: None })
    );
    assert_eq!(
        Finished::parse(&node("<finished time=\"0\" elapsed=\"1e3\"/>")),
        Ok(Finished { time: 0, elapsed: Some("1e3".to_string()) })
    );
}

#[test]
fn the_duration_text_stands_for_the_same_number() {
    let finished = Finished::parse(&node("<finished time=\"0\" elapsed=\"1246.07\"/>")).unwrap();
    let seconds: f64 = finished.elapsed.unwrap().parse().unwrap();
    assert_eq!(seconds, 1246.07);
}

#[test]
fn finished_failures_name_the_attribute() {
    assert_eq!(
        Finished::parse(&node("<finished elapsed=\"1\"/>")),
        Err(missing("time", "finished"))
    );
    assert_eq!(
        Finished::parse(&node("<finished time=\"now\"/>")),
        Err(unreadable("time", "finished"))
    );
    assert_eq!(
        Finished::parse(&node("<finished time=\"1\" elapsed=\"a while\"/>")),
        Err(unreadable("elapsed", "finished"))
    );
    assert_eq!(
        Finished::parse(&node("<finished time=\"1\" elapsed=\"\"/>")),
        Err(unreadable("elapsed", "finished"))
    );
}

#[test]
fn hosts_are_counted() {
    assert_eq!(
        Hosts::parse(&node("<hosts up=\"3\" down=\"253\" total=\"256\"/>")),
        Ok(Hosts { up: 3, down: 253, total: 256 })
    );
    assert_eq!(Hosts::parse(&node("<hosts/>")), Err(missing("up", "hosts")));
    assert_eq!(Hosts::parse(&node("<hosts up=\"x\"/>")), Err(unreadable("up", "hosts")));
    assert_eq!(Hosts::parse(&node("<hosts up=\"1\"/>")), Err(missing("down", "hosts")));
    assert_eq!(
        Hosts::parse(&node("<hosts up=\"1\" down=\"\"/>")),
        Err(unreadable("down", "hosts"))
    );
    assert_eq!(
        Hosts::parse(&node("<hosts up=\"1\" down=\"2\"/>")),
        Err(missing("total", "hosts"))
    );
    assert_eq!(
        Hosts::parse(&node("<hosts up=\"1\" down=\"2\" total=\"3.0\"/>")),
        Err(unreadable("total", "hosts"))
    );
}

#[test]
fn runstats_may_be_empty() {
    assert_eq!(
        RunStats::parse(&node("<runstats/>")),
        Ok(RunStats { finished: None, hosts: None })
    );
    assert_eq!(RunStats::default(), RunStats { finished: None, hosts: None });
}

#[test]
fn runstats_keep_the_last_of_each_kind() {
    assert_eq!(
        RunStats::parse(&node(
            "<runstats><finished time=\"1\"/><hosts up=\"1\" down=\"0\" total=\"1\"/><finished time=\"2\" elapsed=\"0.5\"/><hosts up=\"2\" down=\"0\" total=\"2\"/><unknown/></runstats>"
        )),
        Ok(RunStats {
            finished: Some(Finished { time: 2, elapsed: Some("0.5".to_string()) }),
            hosts: Some(Hosts { up: 2, down: 0, total: 2 }),
        })
    );
}

#[test]
fn first_failing_child_of_runstats_decides() {
    assert_eq!(
        RunStats::parse(&node("<runstats><hosts/><finished/></runstats>")),
        Err(missing("up", "hosts"))
    );
    assert_eq!(
        RunStats::parse(&node(
            "<runstats><finished time=\"1\"/><finished/><hosts/></runstats>"
        )),
        Err(missing("time", "finished"))
    );
}
