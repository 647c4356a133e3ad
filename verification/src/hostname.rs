use crate::extract::{accept, require, required, required_with};
use crate::failure::{outcome, Failure, FailureView};
use crate::text::str_eq;
use crate::xml::{NodeView, XmlNode};
use vstd::prelude::*;

verus! {

/// Where a host name comes from.
#[derive(Clone, Copy, Debug, PartialEq, Eq, Structural)]
pub enum Type {
    User,
    Dns,
    Ptr,
}

impl DeepView for Type {
    type V = Type;

    open spec fn deep_view(&self) -> Type {
        *self
    }
}

impl Type {
    /// The source that a text names. `PTR` is spelled in capitals, the others in small
    /// letters.
    pub open spec fn decoded(s: Seq<char>) -> Option<Type> {
        if s == "user"@ {
            Some(Type::User)
        } else if s == "dns"@ {
            Some(Type::Dns)
        } else if s == "PTR"@ {
            Some(Type::Ptr)
        } else {
            None
        }
    }

    /// Reads the name of a source of host names.
    pub fn decode(s: &str) -> (r: Option<Type>)
        ensures
            r == Self::decoded(s@),
    {
        if str_eq(s, "user") {
            Some(Type::User)
        } else if str_eq(s, "dns") {
            Some(Type::Dns)
        } else if str_eq(s, "PTR") {
            Some(Type::Ptr)
        } else {
            None
        }
    }
}

/// A name of a host.
#[derive(Clone, Debug, PartialEq, Eq)]
pub struct Hostname {
    pub name: String,
    pub ttype: Type,
}

/// The view of a host name: what it holds, with its texts as sequences of characters.
pub struct HostnameView {
    pub name: Seq<char>,
    pub ttype: Type,
}

impl DeepView for Hostname {
    type V = HostnameView;

    open spec fn deep_view(&self) -> HostnameView {
        HostnameView { name: self.name@, ttype: self.ttype }
    }
}

impl Hostname {
    /// What a `hostname` element holds.
    pub open spec fn parsed(node: NodeView) -> Result<HostnameView, FailureView> {
        let name = required(node.attribute("name"@), "name"@, "hostname"@);
        let ttype = required_with(
            node.attribute("type"@),
            |s: Seq<char>| Type::decoded(s),
            "type"@,
            "hostname"@,
        );
        if name is Err {
            Err(name->Err_0)
        } else if ttype is Err {
            Err(ttype->Err_0)
        } else {
            Ok(HostnameView { name: name->Ok_0, ttype: ttype->Ok_0 })
        }
    }

    /// Reads a `hostname` element.
    pub fn parse(node: &XmlNode) -> (r: Result<Hostname, Failure>)
        ensures
            outcome(r) == Self::parsed(node.deep_view()),
    {
        let name = require(node, "name", "hostname")?.to_owned();
        let ttype = accept(Type::decode(require(node, "type", "hostname")?), "type", "hostname")?;
        Ok(Hostname { name, ttype })
    }
}

impl Hostname {
    /// A `hostname` element holds the same whatever children stand under it.
    pub proof fn lemma_children_ignored(node: NodeView, children: Seq<NodeView>)
        ensures
            Self::parsed(node.with_children(children)) == Self::parsed(node),
    {
    }
}

} // verus!
