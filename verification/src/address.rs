use crate::extract::{require, required};
use crate::failure::{at_attribute, outcome, Error, Failure, FailureView};
use crate::ip::{ip_address, parse_ip, IpAddress, IpView};
use crate::text::str_eq;
use crate::xml::{NodeView, XmlNode};
use vstd::prelude::*;

verus! {

/// An address of a host: an internet address, or a hardware address kept as it is
/// written.
#[derive(Clone, Debug, PartialEq, Eq)]
pub enum Address {
    IpAddr(IpAddress),
    MacAddr(String),
}

/// The view of an address: what it holds, with its texts as sequences of characters.
pub enum AddressView {
    IpAddr(IpView),
    MacAddr(Seq<char>),
}

impl DeepView for Address {
    type V = AddressView;

    open spec fn deep_view(&self) -> AddressView {
        match self {
            Address::IpAddr(ip) => AddressView::IpAddr(ip.deep_view()),
            Address::MacAddr(mac) => AddressView::MacAddr(mac@),
        }
    }
}

impl Address {
    /// What an `address` element holds. With the type `mac` the address is taken as it
    /// stands; with any other type it has to be an internet address.
    pub open spec fn parsed(node: NodeView) -> Result<AddressView, FailureView> {
        let addrtype = required(node.attribute("addrtype"@), "addrtype"@, "address"@);
        let addr = required(node.attribute("addr"@), "addr"@, "address"@);
        if addrtype is Err {
            Err(addrtype->Err_0)
        } else if addr is Err {
            Err(addr->Err_0)
        } else if addrtype->Ok_0 == "mac"@ {
            Ok(AddressView::MacAddr(addr->Ok_0))
        } else {
            match ip_address(addr->Ok_0) {
                Some(ip) => Ok(AddressView::IpAddr(ip)),
                None => Err(at_attribute(Error::FailedToParseAttribute, "addr"@, "address"@)),
            }
        }
    }

    /// Reads an `address` element.
    pub fn parse(node: &XmlNode) -> (r: Result<Address, Failure>)
        ensures
            outcome(r) == Self::parsed(node.deep_view()),
    {
        let addrtype = require(node, "addrtype", "address")?;
        let addr = require(node, "addr", "address")?;
        if str_eq(addrtype, "mac") {
            Ok(Address::MacAddr(addr.to_owned()))
        } else {
            match parse_ip(addr) {
                Some(ip) => Ok(Address::IpAddr(ip)),
                None => Err(Failure::attribute(Error::FailedToParseAttribute, "addr", "address")),
            }
        }
    }
}

impl Address {
    /// An `address` element holds the same whatever children stand under it.
    pub proof fn lemma_children_ignored(node: NodeView, children: Seq<NodeView>)
        ensures
            Self::parsed(node.with_children(children)) == Self::parsed(node),
    {
    }

    /// A hardware address is kept as it is written, whatever it looks like.
    pub proof fn lemma_mac_kept(node: NodeView, addr: Seq<char>)
        requires
            node.attribute("addrtype"@) == Some("mac"@),
            node.attribute("addr"@) == Some(addr),
        ensures
            Self::parsed(node) == Ok::<AddressView, FailureView>(AddressView::MacAddr(addr)),
    {
    }
}

} // verus!
