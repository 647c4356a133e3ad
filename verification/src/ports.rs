use crate::extract::{
    absent_if_empty, accept, failure_of, filled, first_failure, gathered, latest,
    lemma_failure_found,
    lemma_first_failure_skips, lemma_gathered_skips, lemma_latest_skips, lemma_take_next,
    non_empty, optional_with, owned_attribute, push_value, require, required,
    required_with,
};
use crate::failure::{at_element, outcome, Error, Failure, FailureView};
use crate::text::{
    decimal_u16, decimal_u32, decimal_u8, parse_u16, parse_u32, parse_u8, str_eq,
};
use crate::xml::{NodeView, XmlNode};
use vstd::prelude::*;

verus! {

/// The protocol of a port or of a scan.
#[derive(Clone, Copy, Debug, PartialEq, Eq, Structural)]
pub enum PortProtocol {
    Ip,
    Tcp,
    Udp,
    Sctp,
}

impl DeepView for PortProtocol {
    type V = PortProtocol;

    open spec fn deep_view(&self) -> PortProtocol {
        *self
    }
}

impl PortProtocol {
    /// The protocol that a text names.
    pub open spec fn decoded(s: Seq<char>) -> Option<PortProtocol> {
        if s == "ip"@ {
            Some(PortProtocol::Ip)
        } else if s == "tcp"@ {
            Some(PortProtocol::Tcp)
        } else if s == "udp"@ {
            Some(PortProtocol::Udp)
        } else if s == "sctp"@ {
            Some(PortProtocol::Sctp)
        } else {
            None
        }
    }

    /// Reads the name of a protocol.
    pub fn decode(s: &str) -> (r: Option<PortProtocol>)
        ensures
            r == Self::decoded(s@),
    {
        if str_eq(s, "ip") {
            Some(PortProtocol::Ip)
        } else if str_eq(s, "tcp") {
            Some(PortProtocol::Tcp)
        } else if str_eq(s, "udp") {
            Some(PortProtocol::Udp)
        } else if str_eq(s, "sctp") {
            Some(PortProtocol::Sctp)
        } else {
            None
        }
    }
}

/// The state of a port. Two states are written as two names joined by `|`.
#[derive(Clone, Copy, Debug, PartialEq, Eq, Structural)]
pub enum PortState {
    Open,
    Closed,
    Filtered,
    Unfiltered,
    OpenFiltered,
    ClosedFiltered,
    Unknown,
}

impl DeepView for PortState {
    type V = PortState;

    open spec fn deep_view(&self) -> PortState {
        *self
    }
}

impl PortState {
    /// The state that a text names.
    pub open spec fn decoded(s: Seq<char>) -> Option<PortState> {
        if s == "open"@ {
            Some(PortState::Open)
        } else if s == "closed"@ {
            Some(PortState::Closed)
        } else if s == "filtered"@ {
            Some(PortState::Filtered)
        } else if s == "unfiltered"@ {
            Some(PortState::Unfiltered)
        } else if s == "open|filtered"@ {
            Some(PortState::OpenFiltered)
        } else if s == "closed|filtered"@ {
            Some(PortState::ClosedFiltered)
        } else if s == "unknown"@ {
            Some(PortState::Unknown)
        } else {
            None
        }
    }

    /// Reads the name of a port state.
    pub fn decode(s: &str) -> (r: Option<PortState>)
        ensures
            r == Self::decoded(s@),
    {
        if str_eq(s, "open") {
            Some(PortState::Open)
        } else if str_eq(s, "closed") {
            Some(PortState::Closed)
        } else if str_eq(s, "filtered") {
            Some(PortState::Filtered)
        } else if str_eq(s, "unfiltered") {
            Some(PortState::Unfiltered)
        } else if str_eq(s, "open|filtered") {
            Some(PortState::OpenFiltered)
        } else if str_eq(s, "closed|filtered") {
            Some(PortState::ClosedFiltered)
        } else if str_eq(s, "unknown") {
            Some(PortState::Unknown)
        } else {
            None
        }
    }
}

/// How a service was recognised.
#[derive(Clone, Copy, Debug, PartialEq, Eq, Structural)]
pub enum ServiceMethod {
    Table,
    Probed,
    Detection,
}

impl DeepView for ServiceMethod {
    type V = ServiceMethod;

    open spec fn deep_view(&self) -> ServiceMethod {
        *self
    }
}

impl ServiceMethod {
    /// The method that a text names.
    pub open spec fn decoded(s: Seq<char>) -> Option<ServiceMethod> {
        if s == "table"@ {
            Some(ServiceMethod::Table)
        } else if s == "probed"@ {
            Some(ServiceMethod::Probed)
        } else if s == "detection"@ {
            Some(ServiceMethod::Detection)
        } else {
            None
        }
    }

    /// Reads the name of a detection method.
    pub fn decode(s: &str) -> (r: Option<ServiceMethod>)
        ensures
            r == Self::decoded(s@),
    {
        if str_eq(s, "table") {
            Some(ServiceMethod::Table)
        } else if str_eq(s, "probed") {
            Some(ServiceMethod::Probed)
        } else if str_eq(s, "detection") {
            Some(ServiceMethod::Detection)
        } else {
            None
        }
    }
}

/// The service behind a port.
#[derive(Clone, Debug, PartialEq, Eq)]
pub struct Service {
    pub name: String,
    pub product: Option<String>,
    pub extra_info: Option<String>,
    pub confidence_level: u8,
    pub method: Option<ServiceMethod>,
}

/// The view of a service: what it holds, with its texts as sequences of characters.
pub struct ServiceView {
    pub name: Seq<char>,
    pub product: Option<Seq<char>>,
    pub extra_info: Option<Seq<char>>,
    pub confidence_level: u8,
    pub method: Option<ServiceMethod>,
}

impl DeepView for Service {
    type V = ServiceView;

    open spec fn deep_view(&self) -> ServiceView {
        ServiceView {
            name: self.name@,
            product: self.product.deep_view(),
            extra_info: self.extra_info.deep_view(),
            confidence_level: self.confidence_level,
            method: self.method,
        }
    }
}

impl Service {
    /// What a `service` element holds.
    pub open spec fn parsed(node: NodeView) -> Result<ServiceView, FailureView> {
        let name = required(node.attribute("name"@), "name"@, "service"@);
        let confidence_level = required_with(
            node.attribute("conf"@),
            |s: Seq<char>| decimal_u8(s),
            "conf"@,
            "service"@,
        );
        let method = optional_with(
            node.attribute("method"@),
            |s: Seq<char>| ServiceMethod::decoded(s),
            "method"@,
            "service"@,
        );
        if name is Err {
            Err(name->Err_0)
        } else if confidence_level is Err {
            Err(confidence_level->Err_0)
        } else if method is Err {
            Err(method->Err_0)
        } else {
            Ok(
                ServiceView {
                    name: name->Ok_0,
                    product: node.attribute("product"@),
                    extra_info: node.attribute("extrainfo"@),
                    confidence_level: confidence_level->Ok_0,
                    method: method->Ok_0,
                },
            )
        }
    }

    /// Reads a `service` element.
    pub fn parse(node: &XmlNode) -> (r: Result<Service, Failure>)
        ensures
            outcome(r) == Self::parsed(node.deep_view()),
    {
        let name = require(node, "name", "service")?.to_owned();
        let product = owned_attribute(node, "product");
        let extra_info = owned_attribute(node, "extrainfo");
        let confidence_level = accept(
            parse_u8(require(node, "conf", "service")?),
            "conf",
            "service",
        )?;
        let method = match node.attribute("method") {
            Some(s) => Some(accept(ServiceMethod::decode(s), "method", "service")?),
            None => None,
        };
        Ok(Service { name, product, extra_info, confidence_level, method })
    }
}

/// The state of a port, with the reason the scanner gives for it.
#[derive(Clone, Debug, PartialEq, Eq)]
pub struct PortStatus {
    pub state: PortState,
    pub reason: Option<String>,
    pub reason_ttl: Option<u32>,
}

/// The view of a port status: what it holds, with its texts as sequences of characters.
pub struct PortStatusView {
    pub state: PortState,
    pub reason: Option<Seq<char>>,
    pub reason_ttl: Option<u32>,
}

impl DeepView for PortStatus {
    type V = PortStatusView;

    open spec fn deep_view(&self) -> PortStatusView {
        PortStatusView {
            state: self.state,
            reason: self.reason.deep_view(),
            reason_ttl: self.reason_ttl,
        }
    }
}

impl PortStatus {
    /// What the `state` element of a port holds. Its failures are reported under the
    /// owner `portstatus`.
    pub open spec fn parsed(node: NodeView) -> Result<PortStatusView, FailureView> {
        let state = required_with(
            node.attribute("state"@),
            |s: Seq<char>| PortState::decoded(s),
            "state"@,
            "portstatus"@,
        );
        let reason_ttl = optional_with(
            node.attribute("reason_ttl"@),
            |s: Seq<char>| decimal_u32(s),
            "reason_ttl"@,
            "portstatus"@,
        );
        if state is Err {
            Err(state->Err_0)
        } else if reason_ttl is Err {
            Err(reason_ttl->Err_0)
        } else {
            Ok(
                PortStatusView {
                    state: state->Ok_0,
                    reason: node.attribute("reason"@),
                    reason_ttl: reason_ttl->Ok_0,
                },
            )
        }
    }

    /// Reads the `state` element of a port.
    pub fn parse(node: &XmlNode) -> (r: Result<PortStatus, Failure>)
        ensures
            outcome(r) == Self::parsed(node.deep_view()),
    {
        let state = accept(
            PortState::decode(require(node, "state", "portstatus")?),
            "state",
            "portstatus",
        )?;
        let reason = owned_attribute(node, "reason");
        let reason_ttl = match node.attribute("reason_ttl") {
            Some(s) => Some(accept(parse_u32(s), "reason_ttl", "portstatus")?),
            None => None,
        };
        Ok(PortStatus { state, reason, reason_ttl })
    }
}

/// A scanned port.
#[derive(Clone, Debug, PartialEq, Eq)]
pub struct Port {
    pub protocol: PortProtocol,
    pub port_number: u16,
    pub status: PortStatus,
    pub service: Option<Service>,
}

/// The view of a port: what it holds, with its texts as sequences of characters.
pub struct PortView {
    pub protocol: PortProtocol,
    pub port_number: u16,
    pub status: PortStatusView,
    pub service: Option<ServiceView>,
}

impl DeepView for Port {
    type V = PortView;

    open spec fn deep_view(&self) -> PortView {
        PortView {
            protocol: self.protocol,
            port_number: self.port_number,
            status: self.status.deep_view(),
            service: self.service.deep_view(),
        }
    }
}

impl Port {
    /// How a child of a `port` element fails, if it does.
    pub open spec fn child_failure(child: NodeView) -> Option<FailureView> {
        if child.tag == "state"@ {
            failure_of(PortStatus::parsed(child))
        } else if child.tag == "service"@ {
            failure_of(Service::parsed(child))
        } else {
            None
        }
    }

    /// What a `port` element holds. Of several `state` or `service` children the last
    /// counts. A port needs a `state` child.
    pub open spec fn parsed(node: NodeView) -> Result<PortView, FailureView> {
        let protocol = required_with(
            node.attribute("protocol"@),
            |s: Seq<char>| PortProtocol::decoded(s),
            "protocol"@,
            "port"@,
        );
        let port_number = required_with(
            node.attribute("portid"@),
            |s: Seq<char>| decimal_u16(s),
            "portid"@,
            "port"@,
        );
        let failure = first_failure(node.children, |c: NodeView| Self::child_failure(c));
        let status = latest(node.children, "state"@, |c: NodeView| PortStatus::parsed(c));
        let service = latest(node.children, "service"@, |c: NodeView| Service::parsed(c));
        if protocol is Err {
            Err(protocol->Err_0)
        } else if port_number is Err {
            Err(port_number->Err_0)
        } else if failure is Some {
            Err(failure->Some_0)
        } else if status is None {
            Err(at_element(Error::MissedElement, "state"@, "port"@))
        } else {
            Ok(
                PortView {
                    protocol: protocol->Ok_0,
                    port_number: port_number->Ok_0,
                    status: status->Some_0,
                    service,
                },
            )
        }
    }

    /// Reads a `port` element.
    #[verifier::loop_isolation(false)]
    pub fn parse(node: &XmlNode) -> (r: Result<Port, Failure>)
        ensures
            outcome(r) == Self::parsed(node.deep_view()),
    {
        let protocol = accept(
            PortProtocol::decode(require(node, "protocol", "port")?),
            "protocol",
            "port",
        )?;
        let port_number = accept(parse_u16(require(node, "portid", "port")?), "portid", "port")?;
        let mut status: Option<PortStatus> = None;
        let mut service: Option<Service> = None;
        let ghost children = node.deep_view().children;
        let mut i: usize = 0;
        while i < node.children.len()
            invariant
                i <= node.children.len(),
                children == node.deep_view().children,
                children.len() == node.children.len(),
                first_failure(children.take(i as int), |c: NodeView| Self::child_failure(c))
                    is None,
                status.deep_view() == latest(
                    children.take(i as int),
                    "state"@,
                    |c: NodeView| PortStatus::parsed(c),
                ),
                service.deep_view() == latest(
                    children.take(i as int),
                    "service"@,
                    |c: NodeView| Service::parsed(c),
                ),
            decreases node.children.len() - i,
        {
            let child = &node.children[i];
            proof {
                lemma_take_next(children, i as int);
                reveal_strlit("state");
                reveal_strlit("service");
                assert("state"@.len() != "service"@.len());
            }
            if str_eq(child.tag.as_str(), "state") {
                match PortStatus::parse(child) {
                    Ok(v) => {
                        status = Some(v);
                    },
                    Err(e) => {
                        proof {
                            lemma_failure_found(
                                children,
                                |c: NodeView| Self::child_failure(c),
                                i as int,
                            );
                        }
                        return Err(e);
                    },
                }
            } else if str_eq(child.tag.as_str(), "service") {
                match Service::parse(child) {
                    Ok(v) => {
                        service = Some(v);
                    },
                    Err(e) => {
                        proof {
                            lemma_failure_found(
                                children,
                                |c: NodeView| Self::child_failure(c),
                                i as int,
                            );
                        }
                        return Err(e);
                    },
                }
            }
            i += 1;
        }
        proof {
            assert(children.take(i as int) == children);
        }
        match status {
            Some(status) => Ok(Port { protocol, port_number, status, service }),
            None => Err(Failure::element(Error::MissedElement, "state", "port")),
        }
    }
}

/// How many ports share a state for one reason.
#[derive(Clone, Debug, PartialEq, Eq)]
pub struct Extrareasons {
    pub reason: String,
    pub count: u32,
    pub proto: Option<PortProtocol>,
    pub ports: Option<String>,
}

/// The view of a count of ports by reason: what it holds, with its texts as sequences of
/// characters.
pub struct ExtrareasonsView {
    pub reason: Seq<char>,
    pub count: u32,
    pub proto: Option<PortProtocol>,
    pub ports: Option<Seq<char>>,
}

impl DeepView for Extrareasons {
    type V = ExtrareasonsView;

    open spec fn deep_view(&self) -> ExtrareasonsView {
        ExtrareasonsView {
            reason: self.reason@,
            count: self.count,
            proto: self.proto,
            ports: self.ports.deep_view(),
        }
    }
}

impl Extrareasons {
    /// What an `extrareasons` element holds. The list of ports is kept as it is written.
    pub open spec fn parsed(node: NodeView) -> Result<ExtrareasonsView, FailureView> {
        let reason = required(node.attribute("reason"@), "reason"@, "extrareasons"@);
        let count = required_with(
            node.attribute("count"@),
            |s: Seq<char>| decimal_u32(s),
            "count"@,
            "extrareasons"@,
        );
        let proto = optional_with(
            node.attribute("proto"@),
            |s: Seq<char>| PortProtocol::decoded(s),
            "proto"@,
            "extrareasons"@,
        );
        if reason is Err {
            Err(reason->Err_0)
        } else if count is Err {
            Err(count->Err_0)
        } else if proto is Err {
            Err(proto->Err_0)
        } else {
            Ok(
                ExtrareasonsView {
                    reason: reason->Ok_0,
                    count: count->Ok_0,
                    proto: proto->Ok_0,
                    ports: node.attribute("ports"@),
                },
            )
        }
    }

    /// Reads an `extrareasons` element.
    pub fn parse(node: &XmlNode) -> (r: Result<Extrareasons, Failure>)
        ensures
            outcome(r) == Self::parsed(node.deep_view()),
    {
        let reason = require(node, "reason", "extrareasons")?.to_owned();
        let count = accept(
            parse_u32(require(node, "count", "extrareasons")?),
            "count",
            "extrareasons",
        )?;
        let proto = match node.attribute("proto") {
            Some(s) => Some(accept(PortProtocol::decode(s), "proto", "extrareasons")?),
            None => None,
        };
        let ports = owned_attribute(node, "ports");
        Ok(Extrareasons { reason, count, proto, ports })
    }
}

/// The ports that are not listed one by one: how many are in one state.
#[derive(Clone, Debug, PartialEq, Eq)]
pub struct Extraports {
    pub state: PortState,
    pub count: u32,
    pub extrareasons: Option<Vec<Extrareasons>>,
}

/// The view of a count of ports by state: what it holds, with its texts as sequences of
/// characters.
pub struct ExtraportsView {
    pub state: PortState,
    pub count: u32,
    pub extrareasons: Option<Seq<ExtrareasonsView>>,
}

impl DeepView for Extraports {
    type V = ExtraportsView;

    open spec fn deep_view(&self) -> ExtraportsView {
        ExtraportsView {
            state: self.state,
            count: self.count,
            extrareasons: self.extrareasons.deep_view(),
        }
    }
}

impl Extraports {
    /// How a child of an `extraports` element fails, if it does.
    pub open spec fn child_failure(child: NodeView) -> Option<FailureView> {
        if child.tag == "extrareasons"@ {
            failure_of(Extrareasons::parsed(child))
        } else {
            None
        }
    }

    /// What an `extraports` element holds.
    pub open spec fn parsed(node: NodeView) -> Result<ExtraportsView, FailureView> {
        let state = required_with(
            node.attribute("state"@),
            |s: Seq<char>| PortState::decoded(s),
            "state"@,
            "extraports"@,
        );
        let count = required_with(
            node.attribute("count"@),
            |s: Seq<char>| decimal_u32(s),
            "count"@,
            "extraports"@,
        );
        let failure = first_failure(node.children, |c: NodeView| Self::child_failure(c));
        if state is Err {
            Err(state->Err_0)
        } else if count is Err {
            Err(count->Err_0)
        } else if failure is Some {
            Err(failure->Some_0)
        } else {
            Ok(
                ExtraportsView {
                    state: state->Ok_0,
                    count: count->Ok_0,
                    extrareasons: absent_if_empty(
                        gathered(
                            node.children,
                            "extrareasons"@,
                            |c: NodeView| Extrareasons::parsed(c),
                        ),
                    ),
                },
            )
        }
    }

    /// Reads an `extraports` element.
    #[verifier::loop_isolation(false)]
    pub fn parse(node: &XmlNode) -> (r: Result<Extraports, Failure>)
        ensures
            outcome(r) == Self::parsed(node.deep_view()),
    {
        let state = accept(
            PortState::decode(require(node, "state", "extraports")?),
            "state",
            "extraports",
        )?;
        let count = accept(
            parse_u32(require(node, "count", "extraports")?),
            "count",
            "extraports",
        )?;
        let mut extrareasons: Vec<Extrareasons> = Vec::new();
        let ghost children = node.deep_view().children;
        let mut i: usize = 0;
        while i < node.children.len()
            invariant
                i <= node.children.len(),
                children.len() == node.children.len(),
                first_failure(children.take(i as int), |c: NodeView| Self::child_failure(c))
                    is None,
                extrareasons.deep_view() == gathered(
                    children.take(i as int),
                    "extrareasons"@,
                    |c: NodeView| Extrareasons::parsed(c),
                ),
            decreases node.children.len() - i,
        {
            let child = &node.children[i];
            proof {
                lemma_take_next(children, i as int);
            }
            if str_eq(child.tag.as_str(), "extrareasons") {
                match Extrareasons::parse(child) {
                    Ok(v) => {
                        push_value(&mut extrareasons, v);
                    },
                    Err(e) => {
                        proof {
                            lemma_failure_found(
                                children,
                                |c: NodeView| Self::child_failure(c),
                                i as int,
                            );
                        }
                        return Err(e);
                    },
                }
            }
            i += 1;
        }
        proof {
            assert(children.take(i as int) == children);
        }
        Ok(Extraports { state, count, extrareasons: non_empty(extrareasons) })
    }
}

/// The ports of a host: those listed one by one, and the counts of the others.
#[derive(Clone, Debug, PartialEq, Eq)]
pub struct Ports {
    pub ports: Vec<Port>,
    pub extraports: Option<Vec<Extraports>>,
}

/// The view of the ports of a host: what it holds, with its texts as sequences of characters.
pub struct PortsView {
    pub ports: Seq<PortView>,
    pub extraports: Option<Seq<ExtraportsView>>,
}

impl DeepView for Ports {
    type V = PortsView;

    open spec fn deep_view(&self) -> PortsView {
        PortsView { ports: self.ports.deep_view(), extraports: self.extraports.deep_view() }
    }
}

impl Ports {
    /// How a child of a `ports` element fails, if it does.
    pub open spec fn child_failure(child: NodeView) -> Option<FailureView> {
        if child.tag == "port"@ {
            failure_of(Port::parsed(child))
        } else if child.tag == "extraports"@ {
            failure_of(Extraports::parsed(child))
        } else {
            None
        }
    }

    /// What a `ports` element holds. The list of ports is there even when it is empty.
    pub open spec fn parsed(node: NodeView) -> Result<PortsView, FailureView> {
        let failure = first_failure(node.children, |c: NodeView| Self::child_failure(c));
        if failure is Some {
            Err(failure->Some_0)
        } else {
            Ok(
                PortsView {
                    ports: gathered(node.children, "port"@, |c: NodeView| Port::parsed(c)),
                    extraports: absent_if_empty(
                        gathered(
                            node.children,
                            "extraports"@,
                            |c: NodeView| Extraports::parsed(c),
                        ),
                    ),
                },
            )
        }
    }

    /// Reads a `ports` element.
    #[verifier::loop_isolation(false)]
    pub fn parse(node: &XmlNode) -> (r: Result<Ports, Failure>)
        ensures
            outcome(r) == Self::parsed(node.deep_view()),
    {
        let mut ports: Vec<Port> = Vec::new();
        let mut extraports: Vec<Extraports> = Vec::new();
        let ghost children = node.deep_view().children;
        let mut i: usize = 0;
        while i < node.children.len()
            invariant
                i <= node.children.len(),
                children.len() == node.children.len(),
                first_failure(children.take(i as int), |c: NodeView| Self::child_failure(c))
                    is None,
                ports.deep_view() == gathered(
                    children.take(i as int),
                    "port"@,
                    |c: NodeView| Port::parsed(c),
                ),
                extraports.deep_view() == gathered(
                    children.take(i as int),
                    "extraports"@,
                    |c: NodeView| Extraports::parsed(c),
                ),
            decreases node.children.len() - i,
        {
            let child = &node.children[i];
            proof {
                lemma_take_next(children, i as int);
                reveal_strlit("port");
                reveal_strlit("extraports");
                assert("port"@.len() != "extraports"@.len());
            }
            if str_eq(child.tag.as_str(), "port") {
                match Port::parse(child) {
                    Ok(v) => {
                        push_value(&mut ports, v);
                    },
                    Err(e) => {
                        proof {
                            lemma_failure_found(
                                children,
                                |c: NodeView| Self::child_failure(c),
                                i as int,
                            );
                        }
                        return Err(e);
                    },
                }
            } else if str_eq(child.tag.as_str(), "extraports") {
                match Extraports::parse(child) {
                    Ok(v) => {
                        push_value(&mut extraports, v);
                    },
                    Err(e) => {
                        proof {
                            lemma_failure_found(
                                children,
                                |c: NodeView| Self::child_failure(c),
                                i as int,
                            );
                        }
                        return Err(e);
                    },
                }
            }
            i += 1;
        }
        proof {
            assert(children.take(i as int) == children);
        }
        Ok(Ports { ports, extraports: non_empty(extraports) })
    }
}

impl Port {
    /// An unrecognised child of a `port` element is ignored: wherever it stands among the
    /// children, the port holds what it holds without it, or fails as it fails without it.
    pub proof fn lemma_unknown_child_ignored(node: NodeView, k: int, child: NodeView)
        requires
            0 <= k <= node.children.len(),
            child.tag != "state"@,
            child.tag != "service"@,
        ensures
            Self::parsed(node.with_child(k, child)) == Self::parsed(node),
    {
        let c = node.children;
        lemma_first_failure_skips(c, k, child, |c: NodeView| Self::child_failure(c));
        lemma_latest_skips(c, k, child, "state"@, |c: NodeView| PortStatus::parsed(c));
        lemma_latest_skips(c, k, child, "service"@, |c: NodeView| Service::parsed(c));
    }
}

impl Extraports {
    /// An unrecognised child of an `extraports` element is ignored, wherever it stands
    /// among the children.
    pub proof fn lemma_unknown_child_ignored(node: NodeView, k: int, child: NodeView)
        requires
            0 <= k <= node.children.len(),
            child.tag != "extrareasons"@,
        ensures
            Self::parsed(node.with_child(k, child)) == Self::parsed(node),
    {
        let c = node.children;
        lemma_first_failure_skips(c, k, child, |c: NodeView| Self::child_failure(c));
        lemma_gathered_skips(c, k, child, "extrareasons"@, |c: NodeView| Extrareasons::parsed(c));
    }
}

impl Ports {
    /// An unrecognised child of a `ports` element is ignored, wherever it stands among the
    /// children.
    pub proof fn lemma_unknown_child_ignored(node: NodeView, k: int, child: NodeView)
        requires
            0 <= k <= node.children.len(),
            child.tag != "port"@,
            child.tag != "extraports"@,
        ensures
            Self::parsed(node.with_child(k, child)) == Self::parsed(node),
    {
        let c = node.children;
        lemma_first_failure_skips(c, k, child, |c: NodeView| Self::child_failure(c));
        lemma_gathered_skips(c, k, child, "port"@, |c: NodeView| Port::parsed(c));
        lemma_gathered_skips(c, k, child, "extraports"@, |c: NodeView| Extraports::parsed(c));
    }
}

/// The elements of a port that have no children of their own hold the same whatever
/// children stand under them.
pub proof fn lemma_port_leaves_ignore_children(node: NodeView, children: Seq<NodeView>)
    ensures
        Service::parsed(node.with_children(children)) == Service::parsed(node),
        PortStatus::parsed(node.with_children(children)) == PortStatus::parsed(node),
        Extrareasons::parsed(node.with_children(children)) == Extrareasons::parsed(node),
{
}

/// The lists of ports that may be absent are never there and empty: an `extraports`
/// element that is read holds reasons or no list of them, and a `ports` element holds
/// counts or no list of them.
pub proof fn lemma_port_lists_filled(node: NodeView)
    ensures
        Extraports::parsed(node) is Ok ==> filled(Extraports::parsed(node)->Ok_0.extrareasons),
        Ports::parsed(node) is Ok ==> filled(Ports::parsed(node)->Ok_0.extraports),
{
}

} // verus!
