//! Reads the XML report of an nmap run into typed values.
//!
//! A text is first read as a document by the XML parser, if it is within the bounds in
//! which the parser is called, then the document is read element by element: `NmapRun::parse` does both, `NmapRun::parse_and_fix` also mends a
//! root element that was left open, and `NmapRun::from_document` reads a document that is
//! already there. Every function that reads an element has a specification function
//! `parsed` beside it, which says what the element holds or how reading it fails, and
//! the function is proved to give exactly that.

pub mod address;
pub mod distance;
pub mod extract;
pub mod failure;
pub mod host;
pub mod hostname;
pub mod ip;
pub mod os;
pub mod ports;
pub mod runstats;
pub mod scan;
pub mod scaninfo;
pub mod script;
pub mod status;
pub mod text;
pub mod xml;

pub use failure::{Context, Error, Failure};

use crate::extract::{
    absent_if_empty, accept, all_pass, failure_of, filled, first_failure, gathered, latest,
    lemma_failure_found, lemma_first_failure_skips, lemma_gathered_skips, lemma_latest_skips,
    lemma_no_failure_iff_all_pass, lemma_take_next, non_empty, push_value, require, required,
    required_with,
};
use crate::failure::{at_element, at_fault, bare, outcome, ContextView, FailureView};
use crate::host::{Host, HostView};
use crate::runstats::{RunStats, RunStatsView};
use crate::scaninfo::{ScanInfo, ScanInfoView};
use crate::text::{decimal_u32, parse_u32, str_eq};
use crate::scan::bounded;
use crate::xml::{
    document, read_document, unbounded_text, NodeView, XmlFault, XmlFaultView, XmlNode,
};
use vstd::prelude::*;
use vstd::string::StringExecFns;
use vstd::utf8::encode_utf8;

verus! {

/// The report of one run of the scanner.
#[derive(Clone, Debug, PartialEq, Eq)]
pub struct NmapRun {
    pub scanner: String,
    pub args: String,
    pub start: u32,
    pub version: String,
    pub xmloutputversion: String,
    pub scaninfos: Option<Vec<ScanInfo>>,
    pub runstats: Option<RunStats>,
    pub hosts: Option<Vec<Host>>,
}

/// The view of a report: what it holds, with its texts as sequences of characters.
pub struct NmapRunView {
    pub scanner: Seq<char>,
    pub args: Seq<char>,
    pub start: u32,
    pub version: Seq<char>,
    pub xmloutputversion: Seq<char>,
    pub scaninfos: Option<Seq<ScanInfoView>>,
    pub runstats: Option<RunStatsView>,
    pub hosts: Option<Seq<HostView>>,
}

impl DeepView for NmapRun {
    type V = NmapRunView;

    open spec fn deep_view(&self) -> NmapRunView {
        NmapRunView {
            scanner: self.scanner@,
            args: self.args@,
            start: self.start,
            version: self.version@,
            xmloutputversion: self.xmloutputversion@,
            scaninfos: self.scaninfos.deep_view(),
            runstats: self.runstats.deep_view(),
            hosts: self.hosts.deep_view(),
        }
    }
}

/// A failure with the versions that the report declares added to its context.
pub open spec fn with_versions(
    failure: FailureView,
    version: Seq<char>,
    xmloutputversion: Seq<char>,
) -> FailureView {
    FailureView {
        error: failure.error,
        context: failure.context.push(ContextView::Versions { version, xmloutputversion }),
    }
}

/// Adds the versions that the report declares to the context of a failure.
fn add_versions(failure: Failure, version: &String, xmloutputversion: &String) -> (r: Failure)
    ensures
        r.deep_view() == with_versions(failure.deep_view(), version@, xmloutputversion@),
{
    let mut failure = failure;
    push_value(
        &mut failure.context,
        Context::Versions {
            version: version.clone(),
            xmloutputversion: xmloutputversion.clone(),
        },
    );
    failure
}

/// The text that is added to a report whose root element was left open: the closing
/// tag of the root element.
pub open spec fn closing_tag() -> Seq<char> {
    "</nmaprun>"@
}

impl NmapRun {
    /// How a child of the root element fails, if it does.
    pub open spec fn child_failure(child: NodeView) -> Option<FailureView> {
        if child.tag == "scaninfo"@ {
            failure_of(ScanInfo::parsed(child))
        } else if child.tag == "host"@ {
            failure_of(Host::parsed(child))
        } else if child.tag == "runstats"@ {
            failure_of(RunStats::parsed(child))
        } else {
            None
        }
    }

    /// What a document holds whose root element is `root`. The root has to be an
    /// `nmaprun` element; its attributes are read in the order `start`, `scanner`, `args`,
    /// `version`, `xmloutputversion`, and a scanner other than `nmap` is refused as soon as
    /// it is read. Then the children are read in document order: every `scaninfo` and
    /// `host` is kept, of several `runstats` the last counts, and a failure among them
    /// carries the versions that the report declares.
    pub open spec fn parsed(root: NodeView) -> Result<NmapRunView, FailureView> {
        let start = required_with(
            root.attribute("start"@),
            |s: Seq<char>| decimal_u32(s),
            "start"@,
            "nmaprun"@,
        );
        let scanner = required(root.attribute("scanner"@), "scanner"@, "nmaprun"@);
        let args = required(root.attribute("args"@), "args"@, "nmaprun"@);
        let version = required(root.attribute("version"@), "version"@, "nmaprun"@);
        let xmloutputversion = required(
            root.attribute("xmloutputversion"@),
            "xmloutputversion"@,
            "nmaprun"@,
        );
        let failure = first_failure(root.children, |c: NodeView| Self::child_failure(c));
        if root.tag != "nmaprun"@ {
            Err(at_element(Error::MissedElement, "nmaprun"@, "root"@))
        } else if start is Err {
            Err(start->Err_0)
        } else if scanner is Err {
            Err(scanner->Err_0)
        } else if scanner->Ok_0 != "nmap"@ {
            Err(bare(Error::InvalidScannerType))
        } else if args is Err {
            Err(args->Err_0)
        } else if version is Err {
            Err(version->Err_0)
        } else if xmloutputversion is Err {
            Err(xmloutputversion->Err_0)
        } else if failure is Some {
            Err(with_versions(failure->Some_0, version->Ok_0, xmloutputversion->Ok_0))
        } else {
            Ok(
                NmapRunView {
                    scanner: scanner->Ok_0,
                    args: args->Ok_0,
                    start: start->Ok_0,
                    version: version->Ok_0,
                    xmloutputversion: xmloutputversion->Ok_0,
                    scaninfos: absent_if_empty(
                        gathered(root.children, "scaninfo"@, |c: NodeView| ScanInfo::parsed(c)),
                    ),
                    runstats: latest(
                        root.children,
                        "runstats"@,
                        |c: NodeView| RunStats::parsed(c),
                    ),
                    hosts: absent_if_empty(
                        gathered(root.children, "host"@, |c: NodeView| Host::parsed(c)),
                    ),
                },
            )
        }
    }

    /// What a text holds: the report in the document that the text stands for. A text
    /// that is no document fails as such, with its fault as the context.
    pub open spec fn parsed_text(text: Seq<char>) -> Result<NmapRunView, FailureView> {
        match document(text) {
            Ok(root) => Self::parsed(root),
            Err(fault) => Err(at_fault(fault)),
        }
    }

    /// What a text holds when a missing end of the root element is mended: where the
    /// fault of the text is that its root element is left open, and only there, the text
    /// is read once more with the closing tag added.
    pub open spec fn parsed_fixed(text: Seq<char>) -> Result<NmapRunView, FailureView> {
        if document(text) == Err::<NodeView, XmlFaultView>(XmlFaultView::UnclosedRoot) {
            Self::parsed_text(text + closing_tag())
        } else {
            Self::parsed_text(text)
        }
    }

    /// Reads the report in a document, given its root element.
    #[verifier::loop_isolation(false)]
    pub fn from_document(root: &XmlNode) -> (r: Result<NmapRun, Failure>)
        ensures
            outcome(r) == Self::parsed(root.deep_view()),
            r is Ok ==> r->Ok_0.scanner@ == "nmap"@,
    {
        if !str_eq(root.tag.as_str(), "nmaprun") {
            return Err(Failure::element(Error::MissedElement, "nmaprun", "root"));
        }
        let start = accept(parse_u32(require(root, "start", "nmaprun")?), "start", "nmaprun")?;
        let scanner = require(root, "scanner", "nmaprun")?.to_owned();
        if !str_eq(scanner.as_str(), "nmap") {
            return Err(Failure::new(Error::InvalidScannerType));
        }
        let args = require(root, "args", "nmaprun")?.to_owned();
        let version = require(root, "version", "nmaprun")?.to_owned();
        let xmloutputversion = require(root, "xmloutputversion", "nmaprun")?.to_owned();
        let mut scaninfos: Vec<ScanInfo> = Vec::new();
        let mut hosts: Vec<Host> = Vec::new();
        let mut runstats: Option<RunStats> = None;
        let ghost children = root.deep_view().children;
        let mut i: usize = 0;
        while i < root.children.len()
            invariant
                i <= root.children.len(),
                children.len() == root.children.len(),
                first_failure(children.take(i as int), |c: NodeView| Self::child_failure(c))
                    is None,
                scaninfos.deep_view() == gathered(
                    children.take(i as int),
                    "scaninfo"@,
                    |c: NodeView| ScanInfo::parsed(c),
                ),
                hosts.deep_view() == gathered(
                    children.take(i as int),
                    "host"@,
                    |c: NodeView| Host::parsed(c),
                ),
                runstats.deep_view() == latest(
                    children.take(i as int),
                    "runstats"@,
                    |c: NodeView| RunStats::parsed(c),
                ),
            decreases root.children.len() - i,
        {
            let child = &root.children[i];
            let tag = child.tag.as_str();
            proof {
                lemma_take_next(children, i as int);
                Self::lemma_tags_differ();
            }
            if str_eq(tag, "scaninfo") {
                match ScanInfo::parse(child) {
                    Ok(v) => {
                        push_value(&mut scaninfos, v);
                    },
                    Err(e) => {
                        proof {
                            lemma_failure_found(
                                children,
                                |c: NodeView| Self::child_failure(c),
                                i as int,
                            );
                        }
                        return Err(add_versions(e, &version, &xmloutputversion));
                    },
                }
            } else if str_eq(tag, "host") {
                match Host::parse(child) {
                    Ok(v) => {
                        push_value(&mut hosts, v);
                    },
                    Err(e) => {
                        proof {
                            lemma_failure_found(
                                children,
                                |c: NodeView| Self::child_failure(c),
                                i as int,
                            );
                        }
                        return Err(add_versions(e, &version, &xmloutputversion));
                    },
                }
            } else if str_eq(tag, "runstats") {
                match RunStats::parse(child) {
                    Ok(v) => {
                        runstats = Some(v);
                    },
                    Err(e) => {
                        proof {
                            lemma_failure_found(
                                children,
                                |c: NodeView| Self::child_failure(c),
                                i as int,
                            );
                        }
                        return Err(add_versions(e, &version, &xmloutputversion));
                    },
                }
            }
            i += 1;
        }
        proof {
            assert(children.take(i as int) == children);
        }
        Ok(
            NmapRun {
                scanner,
                args,
                start,
                version,
                xmloutputversion,
                scaninfos: non_empty(scaninfos),
                runstats,
                hosts: non_empty(hosts),
            },
        )
    }

    /// Reads the report in a text.
    pub fn parse(xml: &str) -> (r: Result<NmapRun, Failure>)
        ensures
            outcome(r) == Self::parsed_text(xml@),
            r is Ok ==> r->Ok_0.scanner@ == "nmap"@,
    {
        match read_document(xml) {
            Ok(root) => Self::from_document(&root),
            Err(fault) => Err(Failure::fault(fault)),
        }
    }

    /// Reads the report in a text, and mends a missing end of the root element: where
    /// the fault of the text is that its root element is left open, the text is read once
    /// more with the closing tag added. Nothing else is mended, and nothing is tried a
    /// third time.
    pub fn parse_and_fix(xml: &str) -> (r: Result<NmapRun, Failure>)
        ensures
            outcome(r) == Self::parsed_fixed(xml@),
            r is Ok ==> r->Ok_0.scanner@ == "nmap"@,
    {
        match read_document(xml) {
            Ok(root) => Self::from_document(&root),
            Err(XmlFault::UnclosedRoot) => {
                let mut fixed = xml.to_owned();
                fixed.append("</nmaprun>");
                Self::parse(fixed.as_str())
            },
            Err(fault) => Err(Failure::fault(fault)),
        }
    }

    /// The tags of the children that a report reads are three different texts.
    proof fn lemma_tags_differ()
        ensures
            "scaninfo"@ != "host"@,
            "scaninfo"@ != "runstats"@,
            "host"@ != "runstats"@,
    {
        reveal_strlit("scaninfo");
        reveal_strlit("host");
        reveal_strlit("runstats");
        assert("scaninfo"@[0] == 's');
        assert("runstats"@[0] == 'r');
    }
}

impl NmapRun {
    /// Whether a tag is one of those that a report reads among the children of its root.
    pub open spec fn reads(tag: Seq<char>) -> bool {
        tag == "scaninfo"@ || tag == "host"@ || tag == "runstats"@
    }

    /// Whether a root element is that of a well-formed report of the scanner: an
    /// `nmaprun` element with a start time that is a number, the scanner `nmap`, the
    /// arguments and both versions, and no child that fails.
    pub open spec fn well_formed(root: NodeView) -> bool {
        &&& root.tag == "nmaprun"@
        &&& root.attribute("start"@) is Some
        &&& decimal_u32(root.attribute("start"@)->Some_0) is Some
        &&& root.attribute("scanner"@) == Some("nmap"@)
        &&& root.attribute("args"@) is Some
        &&& root.attribute("version"@) is Some
        &&& root.attribute("xmloutputversion"@) is Some
        &&& all_pass(root.children, |c: NodeView| Self::child_failure(c))
    }

    /// A report is read if and only if it is a well-formed report of the scanner `nmap`,
    /// and a report that is read names that scanner.
    pub proof fn lemma_read_iff_well_formed(root: NodeView)
        ensures
            Self::parsed(root) is Ok <==> Self::well_formed(root),
            Self::parsed(root) is Ok ==> Self::parsed(root)->Ok_0.scanner == "nmap"@,
    {
        lemma_no_failure_iff_all_pass(root.children, |c: NodeView| Self::child_failure(c));
    }

    /// A text that stands for the document of a well-formed report is read, with or
    /// without mending, and the report names the scanner `nmap`.
    pub proof fn lemma_well_formed_text_read(text: Seq<char>)
        requires
            document(text) is Ok,
            Self::well_formed(document(text)->Ok_0),
        ensures
            Self::parsed_text(text) is Ok,
            Self::parsed_text(text)->Ok_0.scanner == "nmap"@,
            Self::parsed_fixed(text) == Self::parsed_text(text),
    {
        Self::lemma_read_iff_well_formed(document(text)->Ok_0);
    }

    /// A report that is read holds no empty list of scans or of hosts: such a list is
    /// absent.
    pub proof fn lemma_lists_filled(root: NodeView)
        requires
            Self::parsed(root) is Ok,
        ensures
            filled(Self::parsed(root)->Ok_0.scaninfos),
            filled(Self::parsed(root)->Ok_0.hosts),
    {
    }

    /// A report of another scanner is refused as such, whatever else it holds, once its
    /// root is an `nmaprun` element with a start time that is a number.
    pub proof fn lemma_foreign_scanner_refused(root: NodeView, scanner: Seq<char>)
        requires
            root.tag == "nmaprun"@,
            root.attribute("start"@) is Some,
            decimal_u32(root.attribute("start"@)->Some_0) is Some,
            root.attribute("scanner"@) == Some(scanner),
            scanner != "nmap"@,
        ensures
            Self::parsed(root) == Err::<NmapRunView, FailureView>(bare(Error::InvalidScannerType)),
    {
    }

    /// A text whose only fault is that its root element is left open is read as the text
    /// with the closing tag added is read.
    pub proof fn lemma_open_root_mended(text: Seq<char>)
        requires
            document(text) == Err::<NodeView, XmlFaultView>(XmlFaultView::UnclosedRoot),
        ensures
            Self::parsed_fixed(text) == Self::parsed_text(text + closing_tag()),
    {
    }

    /// A text that is not bounded is not read: it fails as no document, mended or not.
    pub proof fn lemma_unbounded_text_refused(text: Seq<char>)
        requires
            !bounded(encode_utf8(text)),
        ensures
            Self::parsed_text(text) == Err::<NmapRunView, FailureView>(
                at_fault(XmlFaultView::Other(unbounded_text())),
            ),
            Self::parsed_fixed(text) == Self::parsed_text(text),
    {
    }

    /// A text with any other fault, or with none, is read as it stands: mending changes
    /// nothing, and a text that is no document fails as it fails unmended.
    pub proof fn lemma_nothing_else_mended(text: Seq<char>)
        requires
            document(text) != Err::<NodeView, XmlFaultView>(XmlFaultView::UnclosedRoot),
        ensures
            Self::parsed_fixed(text) == Self::parsed_text(text),
            document(text) is Err ==> Self::parsed_fixed(text) == Err::<NmapRunView, FailureView>(
                at_fault(document(text)->Err_0),
            ),
    {
    }

    /// An unrecognised child of the root element is ignored: wherever it stands among
    /// the children, the report holds what it holds without it, or fails as it fails
    /// without it.
    pub proof fn lemma_unknown_child_ignored(root: NodeView, k: int, child: NodeView)
        requires
            0 <= k <= root.children.len(),
            !Self::reads(child.tag),
        ensures
            Self::parsed(root.with_child(k, child)) == Self::parsed(root),
    {
        let c = root.children;
        lemma_first_failure_skips(c, k, child, |c: NodeView| Self::child_failure(c));
        lemma_gathered_skips(c, k, child, "scaninfo"@, |c: NodeView| ScanInfo::parsed(c));
        lemma_gathered_skips(c, k, child, "host"@, |c: NodeView| Host::parsed(c));
        lemma_latest_skips(c, k, child, "runstats"@, |c: NodeView| RunStats::parsed(c));
    }
}

} // verus!
