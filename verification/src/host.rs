use crate::address::{Address, AddressView};
use crate::distance::Distance;
use crate::extract::{
    absent_if_empty, accept, all_pass, failure_of, filled, first_failure, gathered, has_child,
    latest, lemma_failure_found, lemma_first_failure_skips, lemma_gathered_skips,
    lemma_latest_from_child, lemma_latest_iff_has_child, lemma_latest_is_last, lemma_latest_skips,
    lemma_no_failure_iff_all_pass, lemma_take_next, non_empty, optional_with, push_value,
};
use crate::failure::{at_element, outcome, Error, Failure, FailureView};
use crate::hostname::{Hostname, HostnameView};
use crate::os::{Os, OsView};
use crate::ports::{Ports, PortsView};
use crate::script::{Script, ScriptView};
use crate::status::{Status, StatusView};
use crate::text::{boolean, decimal_u32, parse_bool, parse_u32, str_eq};
use crate::xml::{NodeView, XmlNode};
use vstd::prelude::*;

verus! {

/// A scanned host.
#[derive(Clone, Debug, PartialEq, Eq)]
pub struct Host {
    pub start_time: Option<u32>,
    pub end_time: Option<u32>,
    pub timed_out: Option<bool>,
    pub status: Status,
    pub addresses: Vec<Address>,
    pub host_names: Option<Vec<Hostname>>,
    pub ports: Option<Ports>,
    pub os: Option<Os>,
    pub distance: Option<Distance>,
    pub host_scripts: Option<Vec<Script>>,
}

/// The view of a host: what it holds, with its texts as sequences of characters.
pub struct HostView {
    pub start_time: Option<u32>,
    pub end_time: Option<u32>,
    pub timed_out: Option<bool>,
    pub status: StatusView,
    pub addresses: Seq<AddressView>,
    pub host_names: Option<Seq<HostnameView>>,
    pub ports: Option<PortsView>,
    pub os: Option<OsView>,
    pub distance: Option<Distance>,
    pub host_scripts: Option<Seq<ScriptView>>,
}

impl DeepView for Host {
    type V = HostView;

    open spec fn deep_view(&self) -> HostView {
        HostView {
            start_time: self.start_time,
            end_time: self.end_time,
            timed_out: self.timed_out,
            status: self.status.deep_view(),
            addresses: self.addresses.deep_view(),
            host_names: self.host_names.deep_view(),
            ports: self.ports.deep_view(),
            os: self.os.deep_view(),
            distance: self.distance.deep_view(),
            host_scripts: self.host_scripts.deep_view(),
        }
    }
}

/// How a child of a `hostscript` element fails, if it does.
pub open spec fn host_script_failure(child: NodeView) -> Option<FailureView> {
    if child.tag == "script"@ {
        failure_of(Script::parsed(child))
    } else {
        None
    }
}

/// What a `hostscript` element holds: its scripts, or nothing when it has none.
pub open spec fn host_scripts_parsed(node: NodeView) -> Result<
    Option<Seq<ScriptView>>,
    FailureView,
> {
    let failure = first_failure(node.children, |c: NodeView| host_script_failure(c));
    if failure is Some {
        Err(failure->Some_0)
    } else {
        Ok(absent_if_empty(gathered(node.children, "script"@, |c: NodeView| Script::parsed(c))))
    }
}

/// Reads a `hostscript` element.
pub fn parse_host_scripts_node(node: &XmlNode) -> (r: Result<Option<Vec<Script>>, Failure>)
    ensures
        outcome(r) == host_scripts_parsed(node.deep_view()),
{
    let mut scripts: Vec<Script> = Vec::new();
    let ghost children = node.deep_view().children;
    let mut i: usize = 0;
    while i < node.children.len()
        invariant
            i <= node.children.len(),
            children == node.deep_view().children,
            children.len() == node.children.len(),
            first_failure(children.take(i as int), |c: NodeView| host_script_failure(c)) is None,
            scripts.deep_view() == gathered(
                children.take(i as int),
                "script"@,
                |c: NodeView| Script::parsed(c),
            ),
        decreases node.children.len() - i,
    {
        let child = &node.children[i];
        proof {
            lemma_take_next(children, i as int);
        }
        if str_eq(child.tag.as_str(), "script") {
            match Script::parse(child) {
                Ok(v) => {
                    push_value(&mut scripts, v);
                },
                Err(e) => {
                    proof {
                        lemma_failure_found(
                            children,
                            |c: NodeView| host_script_failure(c),
                            i as int,
                        );
                    }
                    return Err(e);
                },
            }
        }
        i += 1;
    }
    proof {
        assert(children.take(i as int) == children);
    }
    Ok(non_empty(scripts))
}

/// How a child of a `hostnames` element fails, if it does.
pub open spec fn host_name_failure(child: NodeView) -> Option<FailureView> {
    if child.tag == "hostname"@ {
        failure_of(Hostname::parsed(child))
    } else {
        None
    }
}

/// What a `hostnames` element holds: its names, or nothing when it has none.
pub open spec fn host_names_parsed(node: NodeView) -> Result<
    Option<Seq<HostnameView>>,
    FailureView,
> {
    let failure = first_failure(node.children, |c: NodeView| host_name_failure(c));
    if failure is Some {
        Err(failure->Some_0)
    } else {
        Ok(
            absent_if_empty(
                gathered(node.children, "hostname"@, |c: NodeView| Hostname::parsed(c)),
            ),
        )
    }
}

/// Reads a `hostnames` element.
pub fn parse_host_names_node(node: &XmlNode) -> (r: Result<Option<Vec<Hostname>>, Failure>)
    ensures
        outcome(r) == host_names_parsed(node.deep_view()),
{
    let mut hostnames: Vec<Hostname> = Vec::new();
    let ghost children = node.deep_view().children;
    let mut i: usize = 0;
    while i < node.children.len()
        invariant
            i <= node.children.len(),
            children == node.deep_view().children,
            children.len() == node.children.len(),
            first_failure(children.take(i as int), |c: NodeView| host_name_failure(c)) is None,
            hostnames.deep_view() == gathered(
                children.take(i as int),
                "hostname"@,
                |c: NodeView| Hostname::parsed(c),
            ),
        decreases node.children.len() - i,
    {
        let child = &node.children[i];
        proof {
            lemma_take_next(children, i as int);
        }
        if str_eq(child.tag.as_str(), "hostname") {
            match Hostname::parse(child) {
                Ok(v) => {
                    push_value(&mut hostnames, v);
                },
                Err(e) => {
                    proof {
                        lemma_failure_found(
                            children,
                            |c: NodeView| host_name_failure(c),
                            i as int,
                        );
                    }
                    return Err(e);
                },
            }
        }
        i += 1;
    }
    proof {
        assert(children.take(i as int) == children);
    }
    Ok(non_empty(hostnames))
}

/// A list that may be absent, or nothing when the element that holds it is absent.
pub open spec fn present<T>(list: Option<Option<Seq<T>>>) -> Option<Seq<T>> {
    match list {
        Some(l) => l,
        None => None,
    }
}

impl Host {
    /// How a child of a `host` element fails, if it does.
    pub open spec fn child_failure(child: NodeView) -> Option<FailureView> {
        if child.tag == "status"@ {
            failure_of(Status::parsed(child))
        } else if child.tag == "address"@ {
            failure_of(Address::parsed(child))
        } else if child.tag == "hostnames"@ {
            failure_of(host_names_parsed(child))
        } else if child.tag == "ports"@ {
            failure_of(Ports::parsed(child))
        } else if child.tag == "os"@ {
            failure_of(Os::parsed(child))
        } else if child.tag == "distance"@ {
            failure_of(Distance::parsed(child))
        } else if child.tag == "hostscript"@ {
            failure_of(host_scripts_parsed(child))
        } else {
            None
        }
    }

    /// What a `host` element holds. The attributes are read first, then the children in
    /// document order, and the first failure ends the reading. A host needs a `status`
    /// child. Of several `status`, `hostnames`, `ports`, `os`, `distance` or `hostscript`
    /// children the last counts, and more than one is not refused; every `address` child
    /// is kept.
    pub open spec fn parsed(node: NodeView) -> Result<HostView, FailureView> {
        let start_time = optional_with(
            node.attribute("starttime"@),
            |s: Seq<char>| decimal_u32(s),
            "starttime"@,
            "host"@,
        );
        let end_time = optional_with(
            node.attribute("endtime"@),
            |s: Seq<char>| decimal_u32(s),
            "endtime"@,
            "host"@,
        );
        let timed_out = optional_with(
            node.attribute("timedout"@),
            |s: Seq<char>| boolean(s),
            "timedout"@,
            "host"@,
        );
        let failure = first_failure(node.children, |c: NodeView| Self::child_failure(c));
        let status = latest(node.children, "status"@, |c: NodeView| Status::parsed(c));
        if start_time is Err {
            Err(start_time->Err_0)
        } else if end_time is Err {
            Err(end_time->Err_0)
        } else if timed_out is Err {
            Err(timed_out->Err_0)
        } else if failure is Some {
            Err(failure->Some_0)
        } else if status is None {
            Err(at_element(Error::MissedElement, "status"@, "host"@))
        } else {
            Ok(
                HostView {
                    start_time: start_time->Ok_0,
                    end_time: end_time->Ok_0,
                    timed_out: timed_out->Ok_0,
                    status: status->Some_0,
                    addresses: gathered(
                        node.children,
                        "address"@,
                        |c: NodeView| Address::parsed(c),
                    ),
                    host_names: present(
                        latest(node.children, "hostnames"@, |c: NodeView| host_names_parsed(c)),
                    ),
                    ports: latest(node.children, "ports"@, |c: NodeView| Ports::parsed(c)),
                    os: latest(node.children, "os"@, |c: NodeView| Os::parsed(c)),
                    distance: latest(
                        node.children,
                        "distance"@,
                        |c: NodeView| Distance::parsed(c),
                    ),
                    host_scripts: present(
                        latest(
                            node.children,
                            "hostscript"@,
                            |c: NodeView| host_scripts_parsed(c),
                        ),
                    ),
                },
            )
        }
    }

    /// Reads a `host` element.
    #[verifier::loop_isolation(false)]
    pub fn parse(node: &XmlNode) -> (r: Result<Host, Failure>)
        ensures
            outcome(r) == Self::parsed(node.deep_view()),
    {
        let start_time = match node.attribute("starttime") {
            Some(s) => Some(accept(parse_u32(s), "starttime", "host")?),
            None => None,
        };
        let end_time = match node.attribute("endtime") {
            Some(s) => Some(accept(parse_u32(s), "endtime", "host")?),
            None => None,
        };
        let timed_out = match node.attribute("timedout") {
            Some(s) => Some(accept(parse_bool(s), "timedout", "host")?),
            None => None,
        };
        let mut status: Option<Status> = None;
        let mut addresses: Vec<Address> = Vec::new();
        let mut host_names: Option<Option<Vec<Hostname>>> = None;
        let mut ports: Option<Ports> = None;
        let mut os: Option<Os> = None;
        let mut distance: Option<Distance> = None;
        let mut host_scripts: Option<Option<Vec<Script>>> = None;
        let ghost children = node.deep_view().children;
        let mut i: usize = 0;
        while i < node.children.len()
            invariant
                i <= node.children.len(),
                children.len() == node.children.len(),
                first_failure(children.take(i as int), |c: NodeView| Self::child_failure(c))
                    is None,
                status.deep_view() == latest(
                    children.take(i as int),
                    "status"@,
                    |c: NodeView| Status::parsed(c),
                ),
                addresses.deep_view() == gathered(
                    children.take(i as int),
                    "address"@,
                    |c: NodeView| Address::parsed(c),
                ),
                host_names.deep_view() == latest(
                    children.take(i as int),
                    "hostnames"@,
                    |c: NodeView| host_names_parsed(c),
                ),
                ports.deep_view() == latest(
                    children.take(i as int),
                    "ports"@,
                    |c: NodeView| Ports::parsed(c),
                ),
                os.deep_view() == latest(
                    children.take(i as int),
                    "os"@,
                    |c: NodeView| Os::parsed(c),
                ),
                distance.deep_view() == latest(
                    children.take(i as int),
                    "distance"@,
                    |c: NodeView| Distance::parsed(c),
                ),
                host_scripts.deep_view() == latest(
                    children.take(i as int),
                    "hostscript"@,
                    |c: NodeView| host_scripts_parsed(c),
                ),
            decreases node.children.len() - i,
        {
            let child = &node.children[i];
            let tag = child.tag.as_str();
            proof {
                lemma_take_next(children, i as int);
                Self::lemma_tags_differ();
            }
            if str_eq(tag, "status") {
                match Status::parse(child) {
                    Ok(v) => {
                        status = Some(v);
                    },
                    Err(e) => {
                        proof {
                            lemma_failure_found(
                                children,
                                |c: NodeView| Self::child_failure(c),
                                i as int,
                            );
                        }
                        return Err(e);
                    },
                }
            } else if str_eq(tag, "address") {
                match Address::parse(child) {
                    Ok(v) => {
                        push_value(&mut addresses, v);
                    },
                    Err(e) => {
                        proof {
                            lemma_failure_found(
                                children,
                                |c: NodeView| Self::child_failure(c),
                                i as int,
                            );
                        }
                        return Err(e);
                    },
                }
            } else if str_eq(tag, "hostnames") {
                match parse_host_names_node(child) {
                    Ok(v) => {
                        host_names = Some(v);
                    },
                    Err(e) => {
                        proof {
                            lemma_failure_found(
                                children,
                                |c: NodeView| Self::child_failure(c),
                                i as int,
                            );
                        }
                        return Err(e);
                    },
                }
            } else if str_eq(tag, "ports") {
                match Ports::parse(child) {
                    Ok(v) => {
                        ports = Some(v);
                    },
                    Err(e) => {
                        proof {
                            lemma_failure_found(
                                children,
                                |c: NodeView| Self::child_failure(c),
                                i as int,
                            );
                        }
                        return Err(e);
                    },
                }
            } else if str_eq(tag, "os") {
                match Os::parse(child) {
                    Ok(v) => {
                        os = Some(v);
                    },
                    Err(e) => {
                        proof {
                            lemma_failure_found(
                                children,
                                |c: NodeView| Self::child_failure(c),
                                i as int,
                            );
                        }
                        return Err(e);
                    },
                }
            } else if str_eq(tag, "distance") {
                match Distance::parse(child) {
                    Ok(v) => {
                        distance = Some(v);
                    },
                    Err(e) => {
                        proof {
                            lemma_failure_found(
                                children,
                                |c: NodeView| Self::child_failure(c),
                                i as int,
                            );
                        }
                        return Err(e);
                    },
                }
            } else if str_eq(tag, "hostscript") {
                match parse_host_scripts_node(child) {
                    Ok(v) => {
                        host_scripts = Some(v);
                    },
                    Err(e) => {
                        proof {
                            lemma_failure_found(
                                children,
                                |c: NodeView| Self::child_failure(c),
                                i as int,
                            );
                        }
                        return Err(e);
                    },
                }
            }
            i += 1;
        }
        proof {
            assert(children.take(i as int) == children);
        }
        let status = match status {
            Some(s) => s,
            None => {
                return Err(Failure::element(Error::MissedElement, "status", "host"));
            },
        };
        let host_names = match host_names {
            Some(v) => v,
            None => None,
        };
        let host_scripts = match host_scripts {
            Some(v) => v,
            None => None,
        };
        Ok(
            Host {
                start_time,
                end_time,
                timed_out,
                status,
                addresses,
                host_names,
                ports,
                os,
                distance,
                host_scripts,
            },
        )
    }

    /// The tags of the children that a host reads differ in length, so they are seven
    /// different texts.
    proof fn lemma_tags_differ()
        ensures
            "status"@.len() == 6,
            "address"@.len() == 7,
            "hostnames"@.len() == 9,
            "ports"@.len() == 5,
            "os"@.len() == 2,
            "distance"@.len() == 8,
            "hostscript"@.len() == 10,
    {
        reveal_strlit("status");
        reveal_strlit("address");
        reveal_strlit("hostnames");
        reveal_strlit("ports");
        reveal_strlit("os");
        reveal_strlit("distance");
        reveal_strlit("hostscript");
    }
}

/// An unrecognised child of a `hostscript` element is ignored: wherever it stands among
/// the children, the element holds what it holds without it.
pub proof fn lemma_host_scripts_unknown_child(node: NodeView, k: int, child: NodeView)
    requires
        0 <= k <= node.children.len(),
        child.tag != "script"@,
    ensures
        host_scripts_parsed(node.with_child(k, child)) == host_scripts_parsed(node),
{
    lemma_first_failure_skips(node.children, k, child, |c: NodeView| host_script_failure(c));
    lemma_gathered_skips(node.children, k, child, "script"@, |c: NodeView| Script::parsed(c));
}

/// An unrecognised child of a `hostnames` element is ignored: wherever it stands among
/// the children, the element holds what it holds without it.
pub proof fn lemma_host_names_unknown_child(node: NodeView, k: int, child: NodeView)
    requires
        0 <= k <= node.children.len(),
        child.tag != "hostname"@,
    ensures
        host_names_parsed(node.with_child(k, child)) == host_names_parsed(node),
{
    lemma_first_failure_skips(node.children, k, child, |c: NodeView| host_name_failure(c));
    lemma_gathered_skips(node.children, k, child, "hostname"@, |c: NodeView| Hostname::parsed(c));
}

impl Host {
    /// Whether a tag is one of those that a `host` element reads among its children.
    pub open spec fn reads(tag: Seq<char>) -> bool {
        tag == "status"@ || tag == "address"@ || tag == "hostnames"@ || tag == "ports"@ || tag
            == "os"@ || tag == "distance"@ || tag == "hostscript"@
    }

    /// An unrecognised child of a `host` element is ignored: wherever it stands among the
    /// children, the host holds what it holds without it, or fails as it fails without it.
    pub proof fn lemma_unknown_child_ignored(node: NodeView, k: int, child: NodeView)
        requires
            0 <= k <= node.children.len(),
            !Self::reads(child.tag),
        ensures
            Self::parsed(node.with_child(k, child)) == Self::parsed(node),
    {
        let c = node.children;
        lemma_first_failure_skips(c, k, child, |c: NodeView| Self::child_failure(c));
        lemma_latest_skips(c, k, child, "status"@, |c: NodeView| Status::parsed(c));
        lemma_gathered_skips(c, k, child, "address"@, |c: NodeView| Address::parsed(c));
        lemma_latest_skips(c, k, child, "hostnames"@, |c: NodeView| host_names_parsed(c));
        lemma_latest_skips(c, k, child, "ports"@, |c: NodeView| Ports::parsed(c));
        lemma_latest_skips(c, k, child, "os"@, |c: NodeView| Os::parsed(c));
        lemma_latest_skips(c, k, child, "distance"@, |c: NodeView| Distance::parsed(c));
        lemma_latest_skips(c, k, child, "hostscript"@, |c: NodeView| host_scripts_parsed(c));
    }

    /// Whether the attributes of a `host` element are read: each of the three is absent
    /// or its text is accepted.
    pub open spec fn attributes_read(node: NodeView) -> bool {
        &&& node.attribute("starttime"@) is Some ==> decimal_u32(
            node.attribute("starttime"@)->Some_0,
        ) is Some
        &&& node.attribute("endtime"@) is Some ==> decimal_u32(
            node.attribute("endtime"@)->Some_0,
        ) is Some
        &&& node.attribute("timedout"@) is Some ==> boolean(node.attribute("timedout"@)->Some_0)
            is Some
    }

    /// A host is read if and only if its attributes are read, none of its children
    /// fails, and a `status` child is among them.
    pub proof fn lemma_read_iff(node: NodeView)
        ensures
            Self::parsed(node) is Ok <==> Self::attributes_read(node) && all_pass(
                node.children,
                |c: NodeView| Self::child_failure(c),
            ) && has_child(node.children, "status"@),
    {
        lemma_no_failure_iff_all_pass(node.children, |c: NodeView| Self::child_failure(c));
        lemma_latest_iff_has_child(node.children, "status"@, |c: NodeView| Status::parsed(c));
    }

    /// A host without a `status` child fails for the missing element, whatever children
    /// it has, as long as its own attributes are read and none of its children fails.
    pub proof fn lemma_status_needed(node: NodeView)
        requires
            !has_child(node.children, "status"@),
            Self::attributes_read(node),
            all_pass(node.children, |c: NodeView| Self::child_failure(c)),
        ensures
            Self::parsed(node) == Err::<HostView, FailureView>(
                at_element(Error::MissedElement, "status"@, "host"@),
            ),
    {
        lemma_no_failure_iff_all_pass(node.children, |c: NodeView| Self::child_failure(c));
        lemma_latest_iff_has_child(node.children, "status"@, |c: NodeView| Status::parsed(c));
    }

    /// Of several `os` children of a host the last counts: a host that is read holds
    /// what the `os` child holds after which no other comes.
    pub proof fn lemma_last_os_counts(node: NodeView, i: int)
        requires
            Self::parsed(node) is Ok,
            0 <= i < node.children.len(),
            node.children[i].tag == "os"@,
            forall|j: int| i < j < node.children.len() ==> (#[trigger] node.children[j]).tag
                != "os"@,
        ensures
            Os::parsed(node.children[i]) is Ok,
            Self::parsed(node)->Ok_0.os == Some(Os::parsed(node.children[i])->Ok_0),
    {
        Self::lemma_tags_differ();
        lemma_no_failure_iff_all_pass(node.children, |c: NodeView| Self::child_failure(c));
        lemma_latest_is_last(node.children, "os"@, |c: NodeView| Os::parsed(c), i);
    }
}

/// A `hostnames` or a `hostscript` element that is read holds no empty list: a list
/// without names or scripts is absent.
pub proof fn lemma_host_lists_filled(node: NodeView)
    ensures
        host_names_parsed(node) is Ok ==> filled(host_names_parsed(node)->Ok_0),
        host_scripts_parsed(node) is Ok ==> filled(host_scripts_parsed(node)->Ok_0),
{
}

impl Host {
    /// A host that is read holds no empty list of names or of scripts: such a list is
    /// absent. Its list of addresses is there even when it is empty.
    pub proof fn lemma_lists_filled(node: NodeView)
        requires
            Self::parsed(node) is Ok,
        ensures
            filled(Self::parsed(node)->Ok_0.host_names),
            filled(Self::parsed(node)->Ok_0.host_scripts),
    {
        let children = node.children;
        Self::lemma_tags_differ();
        lemma_no_failure_iff_all_pass(children, |c: NodeView| Self::child_failure(c));
        if latest(children, "hostnames"@, |c: NodeView| host_names_parsed(c)) is Some {
            lemma_latest_from_child(children, "hostnames"@, |c: NodeView| host_names_parsed(c));
        }
        if latest(children, "hostscript"@, |c: NodeView| host_scripts_parsed(c)) is Some {
            lemma_latest_from_child(children, "hostscript"@, |c: NodeView| host_scripts_parsed(c));
        }
    }
}

} // verus!
