use crate::extract::{
    absent_if_empty, accept, failure_of, filled, first_failure, gathered, latest,
    lemma_failure_found,
    lemma_first_failure_skips, lemma_gathered_skips, lemma_latest_skips, lemma_take_next,
    non_empty, optional_with, owned_attribute, push_value, require, required,
    required_with,
};
use crate::failure::{at_element, outcome, Error, Failure, FailureView};
use crate::ports::{PortProtocol, PortState};
use crate::text::{decimal_i64, parse_i64, str_eq};
use crate::xml::{NodeView, XmlNode};
use vstd::prelude::*;

verus! {

/// A port that the guess of the operating system rests on.
#[derive(Clone, Debug, PartialEq, Eq)]
pub struct Portused {
    pub state: PortState,
    pub proto: PortProtocol,
    pub portid: i64,
}

/// The view of a port used: what it holds, with its texts as sequences of characters.
pub struct PortusedView {
    pub state: PortState,
    pub proto: PortProtocol,
    pub portid: i64,
}

impl DeepView for Portused {
    type V = PortusedView;

    open spec fn deep_view(&self) -> PortusedView {
        PortusedView { state: self.state, proto: self.proto, portid: self.portid }
    }
}

impl Portused {
    /// What a `portused` element holds.
    pub open spec fn parsed(node: NodeView) -> Result<PortusedView, FailureView> {
        let state = required_with(
            node.attribute("state"@),
            |s: Seq<char>| PortState::decoded(s),
            "state"@,
            "portused"@,
        );
        let proto = required_with(
            node.attribute("proto"@),
            |s: Seq<char>| PortProtocol::decoded(s),
            "proto"@,
            "portused"@,
        );
        let portid = required_with(
            node.attribute("portid"@),
            |s: Seq<char>| decimal_i64(s),
            "portid"@,
            "portused"@,
        );
        if state is Err {
            Err(state->Err_0)
        } else if proto is Err {
            Err(proto->Err_0)
        } else if portid is Err {
            Err(portid->Err_0)
        } else {
            Ok(PortusedView { state: state->Ok_0, proto: proto->Ok_0, portid: portid->Ok_0 })
        }
    }

    /// Reads a `portused` element.
    pub fn parse(node: &XmlNode) -> (r: Result<Portused, Failure>)
        ensures
            outcome(r) == Self::parsed(node.deep_view()),
    {
        let state = accept(
            PortState::decode(require(node, "state", "portused")?),
            "state",
            "portused",
        )?;
        let proto = accept(
            PortProtocol::decode(require(node, "proto", "portused")?),
            "proto",
            "portused",
        )?;
        let portid = accept(
            parse_i64(require(node, "portid", "portused")?),
            "portid",
            "portused",
        )?;
        Ok(Portused { state, proto, portid })
    }
}

/// A platform identifier of a class of operating systems.
#[derive(Clone, Debug, PartialEq, Eq)]
pub struct Cpe(pub String);

/// The view of a platform identifier: what it holds, with its texts as sequences of characters.
pub struct CpeView(pub Seq<char>);

impl DeepView for Cpe {
    type V = CpeView;

    open spec fn deep_view(&self) -> CpeView {
        CpeView(self.0@)
    }
}

impl Cpe {
    /// What a `cpe` element holds: the text that it begins with. Without one it fails as
    /// a missing element.
    pub open spec fn parsed(node: NodeView) -> Result<CpeView, FailureView> {
        match node.text {
            Some(t) => Ok(CpeView(t)),
            None => Err(at_element(Error::MissedElement, "cpe"@, "osclass"@)),
        }
    }

    /// Reads a `cpe` element.
    pub fn parse(node: &XmlNode) -> (r: Result<Cpe, Failure>)
        ensures
            outcome(r) == Self::parsed(node.deep_view()),
    {
        match &node.text {
            Some(t) => Ok(Cpe(t.clone())),
            None => Err(Failure::element(Error::MissedElement, "cpe", "osclass")),
        }
    }
}

/// A class of operating systems that a match belongs to.
#[derive(Clone, Debug, PartialEq, Eq)]
pub struct Osclass {
    pub ttype: String,
    pub vendor: String,
    pub osfamily: String,
    pub osgen: Option<String>,
    pub accuracy: i64,
    pub cpe: Option<Vec<Cpe>>,
}

/// The view of a class of operating systems: what it holds, with its texts as sequences of
/// characters.
pub struct OsclassView {
    pub ttype: Seq<char>,
    pub vendor: Seq<char>,
    pub osfamily: Seq<char>,
    pub osgen: Option<Seq<char>>,
    pub accuracy: i64,
    pub cpe: Option<Seq<CpeView>>,
}

impl DeepView for Osclass {
    type V = OsclassView;

    open spec fn deep_view(&self) -> OsclassView {
        OsclassView {
            ttype: self.ttype@,
            vendor: self.vendor@,
            osfamily: self.osfamily@,
            osgen: self.osgen.deep_view(),
            accuracy: self.accuracy,
            cpe: self.cpe.deep_view(),
        }
    }
}

impl Osclass {
    /// How a child of an `osclass` element fails, if it does.
    pub open spec fn child_failure(child: NodeView) -> Option<FailureView> {
        if child.tag == "cpe"@ {
            failure_of(Cpe::parsed(child))
        } else {
            None
        }
    }

    /// What an `osclass` element holds.
    pub open spec fn parsed(node: NodeView) -> Result<OsclassView, FailureView> {
        let ttype = required(node.attribute("type"@), "type"@, "osclass"@);
        let vendor = required(node.attribute("vendor"@), "vendor"@, "osclass"@);
        let osfamily = required(node.attribute("osfamily"@), "osfamily"@, "osclass"@);
        let accuracy = required_with(
            node.attribute("accuracy"@),
            |s: Seq<char>| decimal_i64(s),
            "accuracy"@,
            "osclass"@,
        );
        let failure = first_failure(node.children, |c: NodeView| Self::child_failure(c));
        if ttype is Err {
            Err(ttype->Err_0)
        } else if vendor is Err {
            Err(vendor->Err_0)
        } else if osfamily is Err {
            Err(osfamily->Err_0)
        } else if accuracy is Err {
            Err(accuracy->Err_0)
        } else if failure is Some {
            Err(failure->Some_0)
        } else {
            Ok(
                OsclassView {
                    ttype: ttype->Ok_0,
                    vendor: vendor->Ok_0,
                    osfamily: osfamily->Ok_0,
                    osgen: node.attribute("osgen"@),
                    accuracy: accuracy->Ok_0,
                    cpe: absent_if_empty(
                        gathered(node.children, "cpe"@, |c: NodeView| Cpe::parsed(c)),
                    ),
                },
            )
        }
    }

    /// Reads an `osclass` element.
    #[verifier::loop_isolation(false)]
    pub fn parse(node: &XmlNode) -> (r: Result<Osclass, Failure>)
        ensures
            outcome(r) == Self::parsed(node.deep_view()),
    {
        let ttype = require(node, "type", "osclass")?.to_owned();
        let vendor = require(node, "vendor", "osclass")?.to_owned();
        let osfamily = require(node, "osfamily", "osclass")?.to_owned();
        let osgen = owned_attribute(node, "osgen");
        let accuracy = accept(
            parse_i64(require(node, "accuracy", "osclass")?),
            "accuracy",
            "osclass",
        )?;
        let mut cpe: Vec<Cpe> = Vec::new();
        let ghost children = node.deep_view().children;
        let mut i: usize = 0;
        while i < node.children.len()
            invariant
                i <= node.children.len(),
                children.len() == node.children.len(),
                first_failure(children.take(i as int), |c: NodeView| Self::child_failure(c))
                    is None,
                cpe.deep_view() == gathered(
                    children.take(i as int),
                    "cpe"@,
                    |c: NodeView| Cpe::parsed(c),
                ),
            decreases node.children.len() - i,
        {
            let child = &node.children[i];
            proof {
                lemma_take_next(children, i as int);
            }
            if str_eq(child.tag.as_str(), "cpe") {
                match Cpe::parse(child) {
                    Ok(v) => {
                        push_value(&mut cpe, v);
                    },
                    Err(e) => {
                        proof {
                            lemma_failure_found(
                                children,
                                |c: NodeView| Self::child_failure(c),
                                i as int,
                            );
                        }
                        return Err(e);
                    },
                }
            }
            i += 1;
        }
        proof {
            assert(children.take(i as int) == children);
        }
        Ok(Osclass { ttype, vendor, osfamily, osgen, accuracy, cpe: non_empty(cpe) })
    }
}

/// An operating system that the host may run.
#[derive(Clone, Debug, PartialEq, Eq)]
pub struct Osmatch {
    pub name: String,
    pub accuracy: i64,
    pub line: Option<i64>,
    pub osclass: Option<Vec<Osclass>>,
}

/// The view of a match of an operating system: what it holds, with its texts as sequences of
/// characters.
pub struct OsmatchView {
    pub name: Seq<char>,
    pub accuracy: i64,
    pub line: Option<i64>,
    pub osclass: Option<Seq<OsclassView>>,
}

impl DeepView for Osmatch {
    type V = OsmatchView;

    open spec fn deep_view(&self) -> OsmatchView {
        OsmatchView {
            name: self.name@,
            accuracy: self.accuracy,
            line: self.line,
            osclass: self.osclass.deep_view(),
        }
    }
}

impl Osmatch {
    /// How a child of an `osmatch` element fails, if it does.
    pub open spec fn child_failure(child: NodeView) -> Option<FailureView> {
        if child.tag == "osclass"@ {
            failure_of(Osclass::parsed(child))
        } else {
            None
        }
    }

    /// What an `osmatch` element holds.
    pub open spec fn parsed(node: NodeView) -> Result<OsmatchView, FailureView> {
        let name = required(node.attribute("name"@), "name"@, "osmatch"@);
        let accuracy = required_with(
            node.attribute("accuracy"@),
            |s: Seq<char>| decimal_i64(s),
            "accuracy"@,
            "osmatch"@,
        );
        let line = optional_with(
            node.attribute("line"@),
            |s: Seq<char>| decimal_i64(s),
            "line"@,
            "osmatch"@,
        );
        let failure = first_failure(node.children, |c: NodeView| Self::child_failure(c));
        if name is Err {
            Err(name->Err_0)
        } else if accuracy is Err {
            Err(accuracy->Err_0)
        } else if line is Err {
            Err(line->Err_0)
        } else if failure is Some {
            Err(failure->Some_0)
        } else {
            Ok(
                OsmatchView {
                    name: name->Ok_0,
                    accuracy: accuracy->Ok_0,
                    line: line->Ok_0,
                    osclass: absent_if_empty(
                        gathered(node.children, "osclass"@, |c: NodeView| Osclass::parsed(c)),
                    ),
                },
            )
        }
    }

    /// Reads an `osmatch` element.
    #[verifier::loop_isolation(false)]
    pub fn parse(node: &XmlNode) -> (r: Result<Osmatch, Failure>)
        ensures
            outcome(r) == Self::parsed(node.deep_view()),
    {
        let name = require(node, "name", "osmatch")?.to_owned();
        let accuracy = accept(
            parse_i64(require(node, "accuracy", "osmatch")?),
            "accuracy",
            "osmatch",
        )?;
        let line = match node.attribute("line") {
            Some(s) => Some(accept(parse_i64(s), "line", "osmatch")?),
            None => None,
        };
        let mut osclass: Vec<Osclass> = Vec::new();
        let ghost children = node.deep_view().children;
        let mut i: usize = 0;
        while i < node.children.len()
            invariant
                i <= node.children.len(),
                children.len() == node.children.len(),
                first_failure(children.take(i as int), |c: NodeView| Self::child_failure(c))
                    is None,
                osclass.deep_view() == gathered(
                    children.take(i as int),
                    "osclass"@,
                    |c: NodeView| Osclass::parsed(c),
                ),
            decreases node.children.len() - i,
        {
            let child = &node.children[i];
            proof {
                lemma_take_next(children, i as int);
            }
            if str_eq(child.tag.as_str(), "osclass") {
                match Osclass::parse(child) {
                    Ok(v) => {
                        push_value(&mut osclass, v);
                    },
                    Err(e) => {
                        proof {
                            lemma_failure_found(
                                children,
                                |c: NodeView| Self::child_failure(c),
                                i as int,
                            );
                        }
                        return Err(e);
                    },
                }
            }
            i += 1;
        }
        proof {
            assert(children.take(i as int) == children);
        }
        Ok(Osmatch { name, accuracy, line, osclass: non_empty(osclass) })
    }
}

/// The fingerprint that the scanner took of a host's operating system.
#[derive(Clone, Debug, PartialEq, Eq)]
pub struct Osfingerprint {
    pub fingerprint: String,
}

/// The view of a fingerprint: what it holds, with its texts as sequences of characters.
pub struct OsfingerprintView {
    pub fingerprint: Seq<char>,
}

impl DeepView for Osfingerprint {
    type V = OsfingerprintView;

    open spec fn deep_view(&self) -> OsfingerprintView {
        OsfingerprintView { fingerprint: self.fingerprint@ }
    }
}

impl Default for Osfingerprint {
    fn default() -> (r: Osfingerprint)
        ensures
            r.deep_view() == (OsfingerprintView { fingerprint: Seq::empty() }),
    {
        Osfingerprint { fingerprint: String::new() }
    }
}

impl Osfingerprint {
    /// What an `osfingerprint` element holds.
    pub open spec fn parsed(node: NodeView) -> Result<OsfingerprintView, FailureView> {
        match required(node.attribute("fingerprint"@), "fingerprint"@, "osfingerprint"@) {
            Ok(fingerprint) => Ok(OsfingerprintView { fingerprint }),
            Err(e) => Err(e),
        }
    }

    /// Reads an `osfingerprint` element.
    pub fn parse(node: &XmlNode) -> (r: Result<Osfingerprint, Failure>)
        ensures
            outcome(r) == Self::parsed(node.deep_view()),
    {
        let fingerprint = require(node, "fingerprint", "osfingerprint")?.to_owned();
        Ok(Osfingerprint { fingerprint })
    }
}

/// What the scanner found out about a host's operating system.
#[derive(Clone, Debug, PartialEq, Eq)]
pub struct Os {
    pub portused: Vec<Portused>,
    pub osmatch: Vec<Osmatch>,
    pub osfingerprint: Osfingerprint,
}

/// The view of the findings on an operating system: what it holds, with its texts as sequences of
/// characters.
pub struct OsView {
    pub portused: Seq<PortusedView>,
    pub osmatch: Seq<OsmatchView>,
    pub osfingerprint: OsfingerprintView,
}

impl DeepView for Os {
    type V = OsView;

    open spec fn deep_view(&self) -> OsView {
        OsView {
            portused: self.portused.deep_view(),
            osmatch: self.osmatch.deep_view(),
            osfingerprint: self.osfingerprint.deep_view(),
        }
    }
}

impl Default for Os {
    fn default() -> (r: Os)
        ensures
            r.deep_view() == (OsView {
                portused: Seq::empty(),
                osmatch: Seq::empty(),
                osfingerprint: OsfingerprintView { fingerprint: Seq::empty() },
            }),
    {
        let r = Os {
            portused: Vec::new(),
            osmatch: Vec::new(),
            osfingerprint: Osfingerprint::default(),
        };
        assert(r.portused.deep_view() =~= Seq::empty());
        assert(r.osmatch.deep_view() =~= Seq::empty());
        r
    }
}

impl Os {
    /// How a child of an `os` element fails, if it does.
    pub open spec fn child_failure(child: NodeView) -> Option<FailureView> {
        if child.tag == "portused"@ {
            failure_of(Portused::parsed(child))
        } else if child.tag == "osmatch"@ {
            failure_of(Osmatch::parsed(child))
        } else if child.tag == "osfingerprint"@ {
            failure_of(Osfingerprint::parsed(child))
        } else {
            None
        }
    }

    /// What an `os` element holds. Both lists are there even when they are empty; of
    /// several fingerprints the last counts, and without one the fingerprint is empty.
    pub open spec fn parsed(node: NodeView) -> Result<OsView, FailureView> {
        let failure = first_failure(node.children, |c: NodeView| Self::child_failure(c));
        if failure is Some {
            Err(failure->Some_0)
        } else {
            Ok(
                OsView {
                    portused: gathered(
                        node.children,
                        "portused"@,
                        |c: NodeView| Portused::parsed(c),
                    ),
                    osmatch: gathered(node.children, "osmatch"@, |c: NodeView| Osmatch::parsed(c)),
                    osfingerprint: match latest(
                        node.children,
                        "osfingerprint"@,
                        |c: NodeView| Osfingerprint::parsed(c),
                    ) {
                        Some(f) => f,
                        None => OsfingerprintView { fingerprint: Seq::empty() },
                    },
                },
            )
        }
    }

    /// Reads an `os` element.
    #[verifier::loop_isolation(false)]
    pub fn parse(node: &XmlNode) -> (r: Result<Os, Failure>)
        ensures
            outcome(r) == Self::parsed(node.deep_view()),
    {
        let mut portused: Vec<Portused> = Vec::new();
        let mut osmatch: Vec<Osmatch> = Vec::new();
        let mut osfingerprint: Option<Osfingerprint> = None;
        let ghost children = node.deep_view().children;
        let mut i: usize = 0;
        while i < node.children.len()
            invariant
                i <= node.children.len(),
                children.len() == node.children.len(),
                first_failure(children.take(i as int), |c: NodeView| Self::child_failure(c))
                    is None,
                portused.deep_view() == gathered(
                    children.take(i as int),
                    "portused"@,
                    |c: NodeView| Portused::parsed(c),
                ),
                osmatch.deep_view() == gathered(
                    children.take(i as int),
                    "osmatch"@,
                    |c: NodeView| Osmatch::parsed(c),
                ),
                osfingerprint.deep_view() == latest(
                    children.take(i as int),
                    "osfingerprint"@,
                    |c: NodeView| Osfingerprint::parsed(c),
                ),
            decreases node.children.len() - i,
        {
            let child = &node.children[i];
            proof {
                lemma_take_next(children, i as int);
                reveal_strlit("portused");
                reveal_strlit("osmatch");
                reveal_strlit("osfingerprint");
                assert("osmatch"@.len() != "osfingerprint"@.len());
            }
            if str_eq(child.tag.as_str(), "portused") {
                match Portused::parse(child) {
                    Ok(v) => {
                        push_value(&mut portused, v);
                    },
                    Err(e) => {
                        proof {
                            lemma_failure_found(
                                children,
                                |c: NodeView| Self::child_failure(c),
                                i as int,
                            );
                        }
                        return Err(e);
                    },
                }
            } else if str_eq(child.tag.as_str(), "osmatch") {
                match Osmatch::parse(child) {
                    Ok(v) => {
                        push_value(&mut osmatch, v);
                    },
                    Err(e) => {
                        proof {
                            lemma_failure_found(
                                children,
                                |c: NodeView| Self::child_failure(c),
                                i as int,
                            );
                        }
                        return Err(e);
                    },
                }
            } else if str_eq(child.tag.as_str(), "osfingerprint") {
                match Osfingerprint::parse(child) {
                    Ok(v) => {
                        osfingerprint = Some(v);
                    },
                    Err(e) => {
                        proof {
                            lemma_failure_found(
                                children,
                                |c: NodeView| Self::child_failure(c),
                                i as int,
                            );
                        }
                        return Err(e);
                    },
                }
            }
            i += 1;
        }
        proof {
            assert(children.take(i as int) == children);
        }
        let osfingerprint = match osfingerprint {
            Some(f) => f,
            None => Osfingerprint::default(),
        };
        Ok(Os { portused, osmatch, osfingerprint })
    }
}

impl Osclass {
    /// An unrecognised child of an `osclass` element is ignored, wherever it stands among
    /// the children.
    pub proof fn lemma_unknown_child_ignored(node: NodeView, k: int, child: NodeView)
        requires
            0 <= k <= node.children.len(),
            child.tag != "cpe"@,
        ensures
            Self::parsed(node.with_child(k, child)) == Self::parsed(node),
    {
        let c = node.children;
        lemma_first_failure_skips(c, k, child, |c: NodeView| Self::child_failure(c));
        lemma_gathered_skips(c, k, child, "cpe"@, |c: NodeView| Cpe::parsed(c));
    }
}

impl Osmatch {
    /// An unrecognised child of an `osmatch` element is ignored, wherever it stands among
    /// the children.
    pub proof fn lemma_unknown_child_ignored(node: NodeView, k: int, child: NodeView)
        requires
            0 <= k <= node.children.len(),
            child.tag != "osclass"@,
        ensures
            Self::parsed(node.with_child(k, child)) == Self::parsed(node),
    {
        let c = node.children;
        lemma_first_failure_skips(c, k, child, |c: NodeView| Self::child_failure(c));
        lemma_gathered_skips(c, k, child, "osclass"@, |c: NodeView| Osclass::parsed(c));
    }
}

impl Os {
    /// An unrecognised child of an `os` element is ignored, wherever it stands among the
    /// children.
    pub proof fn lemma_unknown_child_ignored(node: NodeView, k: int, child: NodeView)
        requires
            0 <= k <= node.children.len(),
            child.tag != "portused"@,
            child.tag != "osmatch"@,
            child.tag != "osfingerprint"@,
        ensures
            Self::parsed(node.with_child(k, child)) == Self::parsed(node),
    {
        let c = node.children;
        lemma_first_failure_skips(c, k, child, |c: NodeView| Self::child_failure(c));
        lemma_gathered_skips(c, k, child, "portused"@, |c: NodeView| Portused::parsed(c));
        lemma_gathered_skips(c, k, child, "osmatch"@, |c: NodeView| Osmatch::parsed(c));
        lemma_latest_skips(c, k, child, "osfingerprint"@, |c: NodeView| Osfingerprint::parsed(c));
    }
}

/// The elements under `os` that have no children of their own hold the same whatever
/// children stand under them.
pub proof fn lemma_os_leaves_ignore_children(node: NodeView, children: Seq<NodeView>)
    ensures
        Portused::parsed(node.with_children(children)) == Portused::parsed(node),
        Cpe::parsed(node.with_children(children)) == Cpe::parsed(node),
        Osfingerprint::parsed(node.with_children(children)) == Osfingerprint::parsed(node),
{
}

/// The lists under `os` that may be absent are never there and empty: an `osmatch`
/// element that is read holds classes or no list of them, and an `osclass` element
/// holds identifiers or no list of them.
pub proof fn lemma_os_lists_filled(node: NodeView)
    ensures
        Osmatch::parsed(node) is Ok ==> filled(Osmatch::parsed(node)->Ok_0.osclass),
        Osclass::parsed(node) is Ok ==> filled(Osclass::parsed(node)->Ok_0.cpe),
{
}

} // verus!
