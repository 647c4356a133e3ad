use crate::extract::{accept, require, required_with};
use crate::failure::{outcome, Failure, FailureView};
use crate::text::{decimal_u32, parse_u32};
use crate::xml::{NodeView, XmlNode};
use vstd::prelude::*;

verus! {

/// The number of hops to a host.
#[derive(Clone, Copy, Debug, PartialEq, Eq, Structural)]
pub struct Distance {
    pub value: u32,
}

impl DeepView for Distance {
    type V = Distance;

    open spec fn deep_view(&self) -> Distance {
        *self
    }
}

impl Distance {
    /// What a `distance` element holds.
    pub open spec fn parsed(node: NodeView) -> Result<Distance, FailureView> {
        match required_with(
            node.attribute("value"@),
            |s: Seq<char>| decimal_u32(s),
            "value"@,
            "distance"@,
        ) {
            Ok(value) => Ok(Distance { value }),
            Err(e) => Err(e),
        }
    }

    /// Reads a `distance` element.
    pub fn parse(node: &XmlNode) -> (r: Result<Distance, Failure>)
        ensures
            outcome(r) == Self::parsed(node.deep_view()),
    {
        let value = accept(parse_u32(require(node, "value", "distance")?), "value", "distance")?;
        Ok(Distance { value })
    }
}

impl Distance {
    /// A `distance` element holds the same whatever children stand under it.
    pub proof fn lemma_children_ignored(node: NodeView, children: Seq<NodeView>)
        ensures
            Self::parsed(node.with_children(children)) == Self::parsed(node),
    {
    }
}

} // verus!
