use crate::extract::{accept, optional_with, require, required_with};
use crate::failure::{outcome, Failure, FailureView};
use crate::text::{decimal_u32, parse_u32, str_eq};
use crate::xml::{NodeView, XmlNode};
use vstd::prelude::*;

verus! {

/// Whether a host answered.
#[derive(Clone, Copy, Debug, PartialEq, Eq, Structural)]
pub enum HostState {
    Up,
    Down,
    Unknown,
    Skipped,
}

impl DeepView for HostState {
    type V = HostState;

    open spec fn deep_view(&self) -> HostState {
        *self
    }
}

impl HostState {
    /// The state that a text names.
    pub open spec fn decoded(s: Seq<char>) -> Option<HostState> {
        if s == "up"@ {
            Some(HostState::Up)
        } else if s == "down"@ {
            Some(HostState::Down)
        } else if s == "unknown"@ {
            Some(HostState::Unknown)
        } else if s == "skipped"@ {
            Some(HostState::Skipped)
        } else {
            None
        }
    }

    /// Reads the name of a host state.
    pub fn decode(s: &str) -> (r: Option<HostState>)
        ensures
            r == Self::decoded(s@),
    {
        if str_eq(s, "up") {
            Some(HostState::Up)
        } else if str_eq(s, "down") {
            Some(HostState::Down)
        } else if str_eq(s, "unknown") {
            Some(HostState::Unknown)
        } else if str_eq(s, "skipped") {
            Some(HostState::Skipped)
        } else {
            None
        }
    }
}

/// The state of a host, with the reason the scanner gives for it.
#[derive(Clone, Debug, PartialEq, Eq)]
pub struct Status {
    pub state: HostState,
    pub reason: Option<String>,
    pub reason_ttl: Option<u32>,
}

/// The view of a status: what it holds, with its texts as sequences of characters.
pub struct StatusView {
    pub state: HostState,
    pub reason: Option<Seq<char>>,
    pub reason_ttl: Option<u32>,
}

impl DeepView for Status {
    type V = StatusView;

    open spec fn deep_view(&self) -> StatusView {
        StatusView {
            state: self.state,
            reason: self.reason.deep_view(),
            reason_ttl: self.reason_ttl,
        }
    }
}

impl Status {
    /// What a `status` element holds.
    pub open spec fn parsed(node: NodeView) -> Result<StatusView, FailureView> {
        let state = required_with(
            node.attribute("state"@),
            |s: Seq<char>| HostState::decoded(s),
            "state"@,
            "status"@,
        );
        let reason_ttl = optional_with(
            node.attribute("reason_ttl"@),
            |s: Seq<char>| decimal_u32(s),
            "reason_ttl"@,
            "status"@,
        );
        if state is Err {
            Err(state->Err_0)
        } else if reason_ttl is Err {
            Err(reason_ttl->Err_0)
        } else {
            Ok(
                StatusView {
                    state: state->Ok_0,
                    reason: node.attribute("reason"@),
                    reason_ttl: reason_ttl->Ok_0,
                },
            )
        }
    }

    /// Reads a `status` element.
    pub fn parse(node: &XmlNode) -> (r: Result<Status, Failure>)
        ensures
            outcome(r) == Self::parsed(node.deep_view()),
    {
        let state = accept(
            HostState::decode(require(node, "state", "status")?),
            "state",
            "status",
        )?;
        let reason = match node.attribute("reason") {
            Some(s) => Some(s.to_owned()),
            None => None,
        };
        let reason_ttl = match node.attribute("reason_ttl") {
            Some(s) => Some(accept(parse_u32(s), "reason_ttl", "status")?),
            None => None,
        };
        Ok(Status { state, reason, reason_ttl })
    }
}

impl Status {
    /// A `status` element holds the same whatever children stand under it.
    pub proof fn lemma_children_ignored(node: NodeView, children: Seq<NodeView>)
        ensures
            Self::parsed(node.with_children(children)) == Self::parsed(node),
    {
    }
}

} // verus!
