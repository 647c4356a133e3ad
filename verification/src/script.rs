use crate::extract::{require, required};
use crate::failure::{outcome, Failure, FailureView};
use crate::xml::{NodeView, XmlNode};
use vstd::prelude::*;

verus! {

/// What a script printed.
#[derive(Clone, Debug, PartialEq, Eq)]
pub struct Script {
    pub id: String,
    pub output: String,
}

/// The view of a script: what it holds, with its texts as sequences of characters.
pub struct ScriptView {
    pub id: Seq<char>,
    pub output: Seq<char>,
}

impl DeepView for Script {
    type V = ScriptView;

    open spec fn deep_view(&self) -> ScriptView {
        ScriptView { id: self.id@, output: self.output@ }
    }
}

impl Script {
    /// What a `script` element holds.
    pub open spec fn parsed(node: NodeView) -> Result<ScriptView, FailureView> {
        let id = required(node.attribute("id"@), "id"@, "script"@);
        let output = required(node.attribute("output"@), "output"@, "script"@);
        if id is Err {
            Err(id->Err_0)
        } else if output is Err {
            Err(output->Err_0)
        } else {
            Ok(ScriptView { id: id->Ok_0, output: output->Ok_0 })
        }
    }

    /// Reads a `script` element.
    pub fn parse(node: &XmlNode) -> (r: Result<Script, Failure>)
        ensures
            outcome(r) == Self::parsed(node.deep_view()),
    {
        let id = require(node, "id", "script")?.to_owned();
        let output = require(node, "output", "script")?.to_owned();
        Ok(Script { id, output })
    }
}

impl Script {
    /// A `script` element holds the same whatever children stand under it.
    pub proof fn lemma_children_ignored(node: NodeView, children: Seq<NodeView>)
        ensures
            Self::parsed(node.with_children(children)) == Self::parsed(node),
    {
    }
}

} // verus!
