use crate::xml::{XmlFault, XmlFaultView};
use vstd::prelude::*;
use vstd::string::StringExecFns;

verus! {

/// The kinds of failure.
#[derive(Clone, Copy, Debug, PartialEq, Eq, Structural)]
pub enum Error {
    /// The markup has a form that cannot be read.
    InvalidXml,
    /// An element that has to be there is missing.
    MissedElement,
    /// An attribute that has to be there is missing.
    MissedAttribute,
    /// An element is there and cannot be read.
    FailedToParseElement,
    /// An attribute is there and its text is not accepted.
    FailedToParseAttribute,
    /// The text is no XML document.
    FailedToParseXml,
    /// The report names another scanner than `nmap`.
    InvalidScannerType,
}

impl Error {
    /// The one-line message of a kind of failure.
    pub open spec fn message_text(self) -> Seq<char> {
        match self {
            Error::InvalidXml => "invalid XML format"@,
            Error::MissedElement => "missing expected element"@,
            Error::MissedAttribute => "missing required attribute"@,
            Error::FailedToParseElement => "failed to parse element"@,
            Error::FailedToParseAttribute => "failed to parse attribute"@,
            Error::FailedToParseXml => "failed to parse XML document"@,
            Error::InvalidScannerType => "this tool works only with \"nmap\" report"@,
        }
    }

    /// The one-line message of this kind of failure.
    pub fn message(&self) -> (r: &'static str)
        ensures
            r@ == self.message_text(),
    {
        match self {
            Error::InvalidXml => "invalid XML format",
            Error::MissedElement => "missing expected element",
            Error::MissedAttribute => "missing required attribute",
            Error::FailedToParseElement => "failed to parse element",
            Error::FailedToParseAttribute => "failed to parse attribute",
            Error::FailedToParseXml => "failed to parse XML document",
            Error::InvalidScannerType => "this tool works only with \"nmap\" report",
        }
    }
}

/// Where a failure arose or what caused it: an element or an attribute with its owner,
/// the versions that the report declares, or the fault of a text that is no document.
#[derive(Clone, Debug, PartialEq, Eq)]
pub enum Context {
    Element { name: &'static str, parent: &'static str },
    Attribute { name: &'static str, parent: &'static str },
    Versions { version: String, xmloutputversion: String },
    Fault(XmlFault),
}

/// The view of a context: what it holds, with its texts as sequences of characters.
pub enum ContextView {
    Element { name: Seq<char>, parent: Seq<char> },
    Attribute { name: Seq<char>, parent: Seq<char> },
    Versions { version: Seq<char>, xmloutputversion: Seq<char> },
    Fault(XmlFaultView),
}

impl DeepView for Context {
    type V = ContextView;

    open spec fn deep_view(&self) -> ContextView {
        match self {
            Context::Element { name, parent } => ContextView::Element {
                name: name@,
                parent: parent@,
            },
            Context::Attribute { name, parent } => ContextView::Attribute {
                name: name@,
                parent: parent@,
            },
            Context::Versions { version, xmloutputversion } => ContextView::Versions {
                version: version@,
                xmloutputversion: xmloutputversion@,
            },
            Context::Fault(fault) => ContextView::Fault(fault.deep_view()),
        }
    }
}

impl ContextView {
    /// The line that describes a context.
    pub open spec fn description(self) -> Seq<char> {
        match self {
            ContextView::Element { name, parent } => "element: \""@ + name + "\" (parent: \""@
                + parent + "\")"@,
            ContextView::Attribute { name, parent } => "attribute: \""@ + name
                + "\" (parent: \""@ + parent + "\")"@,
            ContextView::Versions { version, xmloutputversion } => "version: "@ + version
                + ", xmloutputversion: "@ + xmloutputversion,
            ContextView::Fault(XmlFaultView::UnclosedRoot) => "the root element is not closed"@,
            ContextView::Fault(XmlFaultView::Other(message)) => message,
        }
    }
}

impl Context {
    /// The line that describes this context.
    pub fn describe(&self) -> (r: String)
        ensures
            r@ == self.deep_view().description(),
    {
        match self {
            Context::Element { name, parent } => {
                let mut r = "element: \"".to_owned();
                r.append(name);
                r.append("\" (parent: \"");
                r.append(parent);
                r.append("\")");
                r
            },
            Context::Attribute { name, parent } => {
                let mut r = "attribute: \"".to_owned();
                r.append(name);
                r.append("\" (parent: \"");
                r.append(parent);
                r.append("\")");
                r
            },
            Context::Versions { version, xmloutputversion } => {
                let mut r = "version: ".to_owned();
                r.append(version.as_str());
                r.append(", xmloutputversion: ");
                r.append(xmloutputversion.as_str());
                r
            },
            Context::Fault(XmlFault::UnclosedRoot) => "the root element is not closed".to_owned(),
            Context::Fault(XmlFault::Other(message)) => message.clone(),
        }
    }
}

/// A failure: its kind, and the context gathered from the place where it arose outwards.
#[derive(Clone, Debug, PartialEq, Eq)]
pub struct Failure {
    pub error: Error,
    pub context: Vec<Context>,
}

/// The view of a failure: what it holds, with its texts as sequences of characters.
pub struct FailureView {
    pub error: Error,
    pub context: Seq<ContextView>,
}

impl DeepView for Failure {
    type V = FailureView;

    open spec fn deep_view(&self) -> FailureView {
        FailureView { error: self.error, context: self.context.deep_view() }
    }
}

/// A failure without context.
pub open spec fn bare(error: Error) -> FailureView {
    FailureView { error, context: Seq::empty() }
}

/// A failure of the given kind at an attribute.
pub open spec fn at_attribute(error: Error, name: Seq<char>, parent: Seq<char>) -> FailureView {
    FailureView { error, context: seq![ContextView::Attribute { name, parent }] }
}

/// A failure of the given kind at an element.
pub open spec fn at_element(error: Error, name: Seq<char>, parent: Seq<char>) -> FailureView {
    FailureView { error, context: seq![ContextView::Element { name, parent }] }
}

/// The failure of a text that is no document.
pub open spec fn at_fault(fault: XmlFaultView) -> FailureView {
    FailureView { error: Error::FailedToParseXml, context: seq![ContextView::Fault(fault)] }
}

/// The view of an outcome: that of the value, or that of the failure.
pub open spec fn outcome<T: DeepView>(r: Result<T, Failure>) -> Result<T::V, FailureView> {
    match r {
        Ok(v) => Ok(v.deep_view()),
        Err(e) => Err(e.deep_view()),
    }
}

impl Failure {
    /// A failure without context.
    pub fn new(error: Error) -> (r: Failure)
        ensures
            r.deep_view() == bare(error),
    {
        let r = Failure { error, context: Vec::new() };
        assert(r.context.deep_view() =~= Seq::empty());
        r
    }

    /// The failure of a text that is no document.
    pub fn fault(fault: XmlFault) -> (r: Failure)
        ensures
            r.deep_view() == at_fault(fault.deep_view()),
    {
        let r = Failure { error: Error::FailedToParseXml, context: vec![Context::Fault(fault)] };
        assert(r.context.deep_view() =~= seq![ContextView::Fault(fault.deep_view())]);
        r
    }

    /// A failure of the given kind at an attribute.
    pub fn attribute(error: Error, name: &'static str, parent: &'static str) -> (r: Failure)
        ensures
            r.deep_view() == at_attribute(error, name@, parent@),
    {
        let r = Failure { error, context: vec![Context::Attribute { name, parent }] };
        assert(r.context.deep_view() =~= seq![
            ContextView::Attribute { name: name@, parent: parent@ },
        ]);
        r
    }

    /// A failure of the given kind at an element.
    pub fn element(error: Error, name: &'static str, parent: &'static str) -> (r: Failure)
        ensures
            r.deep_view() == at_element(error, name@, parent@),
    {
        let r = Failure { error, context: vec![Context::Element { name, parent }] };
        assert(r.context.deep_view() =~= seq![
            ContextView::Element { name: name@, parent: parent@ },
        ]);
        r
    }
}

} // verus!
