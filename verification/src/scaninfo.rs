use crate::extract::{accept, require, required, required_with};
use crate::failure::{outcome, Failure, FailureView};
use crate::ports::PortProtocol;
use crate::text::{decimal_u32, parse_u32};
use crate::xml::{NodeView, XmlNode};
use vstd::prelude::*;

verus! {

/// One kind of scan that a run was set up to make.
#[derive(Clone, Debug, PartialEq, Eq)]
pub struct ScanInfo {
    pub ttype: String,
    pub protocol: PortProtocol,
    pub numservices: u32,
    pub services: String,
}

/// The view of a kind of scan: what it holds, with its texts as sequences of characters.
pub struct ScanInfoView {
    pub ttype: Seq<char>,
    pub protocol: PortProtocol,
    pub numservices: u32,
    pub services: Seq<char>,
}

impl DeepView for ScanInfo {
    type V = ScanInfoView;

    open spec fn deep_view(&self) -> ScanInfoView {
        ScanInfoView {
            ttype: self.ttype@,
            protocol: self.protocol,
            numservices: self.numservices,
            services: self.services@,
        }
    }
}

impl ScanInfo {
    /// What a `scaninfo` element holds.
    pub open spec fn parsed(node: NodeView) -> Result<ScanInfoView, FailureView> {
        let ttype = required(node.attribute("type"@), "type"@, "scaninfo"@);
        let protocol = required_with(
            node.attribute("protocol"@),
            |s: Seq<char>| PortProtocol::decoded(s),
            "protocol"@,
            "scaninfo"@,
        );
        let numservices = required_with(
            node.attribute("numservices"@),
            |s: Seq<char>| decimal_u32(s),
            "numservices"@,
            "scaninfo"@,
        );
        let services = required(node.attribute("services"@), "services"@, "scaninfo"@);
        if ttype is Err {
            Err(ttype->Err_0)
        } else if protocol is Err {
            Err(protocol->Err_0)
        } else if numservices is Err {
            Err(numservices->Err_0)
        } else if services is Err {
            Err(services->Err_0)
        } else {
            Ok(
                ScanInfoView {
                    ttype: ttype->Ok_0,
                    protocol: protocol->Ok_0,
                    numservices: numservices->Ok_0,
                    services: services->Ok_0,
                },
            )
        }
    }

    /// Reads a `scaninfo` element.
    pub fn parse(node: &XmlNode) -> (r: Result<ScanInfo, Failure>)
        ensures
            outcome(r) == Self::parsed(node.deep_view()),
    {
        let ttype = require(node, "type", "scaninfo")?.to_owned();
        let protocol = accept(
            PortProtocol::decode(require(node, "protocol", "scaninfo")?),
            "protocol",
            "scaninfo",
        )?;
        let numservices = accept(
            parse_u32(require(node, "numservices", "scaninfo")?),
            "numservices",
            "scaninfo",
        )?;
        let services = require(node, "services", "scaninfo")?.to_owned();
        Ok(ScanInfo { ttype, protocol, numservices, services })
    }
}

impl ScanInfo {
    /// A `scaninfo` element holds the same whatever children stand under it.
    pub proof fn lemma_children_ignored(node: NodeView, children: Seq<NodeView>)
        ensures
            Self::parsed(node.with_children(children)) == Self::parsed(node),
    {
    }
}

} // verus!
