use crate::extract::{
    accept, failure_of, first_failure, latest, lemma_failure_found, lemma_first_failure_skips,
    lemma_latest_skips, lemma_take_next,
    optional_with, require, required_with,
};
use crate::failure::{outcome, Failure, FailureView};
use crate::text::{decimal_i64, is_float_literal, is_float_text, parse_i64, str_eq};
use crate::xml::{NodeView, XmlNode};
use vstd::prelude::*;

verus! {

/// When a run ended and how long it took. The duration is kept as the text of a
/// floating-point number, in seconds.
#[derive(Clone, Debug, PartialEq, Eq)]
pub struct Finished {
    pub time: i64,
    pub elapsed: Option<String>,
}

/// The view of the end of a run: what it holds, with its texts as sequences of characters.
pub struct FinishedView {
    pub time: i64,
    pub elapsed: Option<Seq<char>>,
}

impl DeepView for Finished {
    type V = FinishedView;

    open spec fn deep_view(&self) -> FinishedView {
        FinishedView { time: self.time, elapsed: self.elapsed.deep_view() }
    }
}

impl Finished {
    /// A duration's text, if it stands for a floating-point number.
    pub open spec fn duration(s: Seq<char>) -> Option<Seq<char>> {
        if is_float_literal(s) {
            Some(s)
        } else {
            None
        }
    }

    /// What a `finished` element holds.
    pub open spec fn parsed(node: NodeView) -> Result<FinishedView, FailureView> {
        let time = required_with(
            node.attribute("time"@),
            |s: Seq<char>| decimal_i64(s),
            "time"@,
            "finished"@,
        );
        let elapsed = optional_with(
            node.attribute("elapsed"@),
            |s: Seq<char>| Self::duration(s),
            "elapsed"@,
            "finished"@,
        );
        if time is Err {
            Err(time->Err_0)
        } else if elapsed is Err {
            Err(elapsed->Err_0)
        } else {
            Ok(FinishedView { time: time->Ok_0, elapsed: elapsed->Ok_0 })
        }
    }

    /// Reads a `finished` element.
    pub fn parse(node: &XmlNode) -> (r: Result<Finished, Failure>)
        ensures
            outcome(r) == Self::parsed(node.deep_view()),
            r is Ok && r->Ok_0.elapsed is Some ==> is_float_literal(r->Ok_0.elapsed->Some_0@),
    {
        let time = accept(parse_i64(require(node, "time", "finished")?), "time", "finished")?;
        let elapsed = match node.attribute("elapsed") {
            Some(s) => {
                let text = if is_float_text(s) {
                    Some(s.to_owned())
                } else {
                    None
                };
                Some(accept(text, "elapsed", "finished")?)
            },
            None => None,
        };
        Ok(Finished { time, elapsed })
    }
}

/// How many hosts were up and down at the end of a run.
#[derive(Clone, Copy, Debug, PartialEq, Eq, Structural)]
pub struct Hosts {
    pub up: i64,
    pub down: i64,
    pub total: i64,
}

impl DeepView for Hosts {
    type V = Hosts;

    open spec fn deep_view(&self) -> Hosts {
        *self
    }
}

impl Hosts {
    /// What a `hosts` element holds.
    pub open spec fn parsed(node: NodeView) -> Result<Hosts, FailureView> {
        let up = required_with(
            node.attribute("up"@),
            |s: Seq<char>| decimal_i64(s),
            "up"@,
            "hosts"@,
        );
        let down = required_with(
            node.attribute("down"@),
            |s: Seq<char>| decimal_i64(s),
            "down"@,
            "hosts"@,
        );
        let total = required_with(
            node.attribute("total"@),
            |s: Seq<char>| decimal_i64(s),
            "total"@,
            "hosts"@,
        );
        if up is Err {
            Err(up->Err_0)
        } else if down is Err {
            Err(down->Err_0)
        } else if total is Err {
            Err(total->Err_0)
        } else {
            Ok(Hosts { up: up->Ok_0, down: down->Ok_0, total: total->Ok_0 })
        }
    }

    /// Reads a `hosts` element.
    pub fn parse(node: &XmlNode) -> (r: Result<Hosts, Failure>)
        ensures
            outcome(r) == Self::parsed(node.deep_view()),
    {
        let up = accept(parse_i64(require(node, "up", "hosts")?), "up", "hosts")?;
        let down = accept(parse_i64(require(node, "down", "hosts")?), "down", "hosts")?;
        let total = accept(parse_i64(require(node, "total", "hosts")?), "total", "hosts")?;
        Ok(Hosts { up, down, total })
    }
}

/// The summary at the end of a run.
#[derive(Clone, Debug, PartialEq, Eq)]
pub struct RunStats {
    pub finished: Option<Finished>,
    pub hosts: Option<Hosts>,
}

/// The view of the summary of a run: what it holds, with its texts as sequences of characters.
pub struct RunStatsView {
    pub finished: Option<FinishedView>,
    pub hosts: Option<Hosts>,
}

impl DeepView for RunStats {
    type V = RunStatsView;

    open spec fn deep_view(&self) -> RunStatsView {
        RunStatsView { finished: self.finished.deep_view(), hosts: self.hosts.deep_view() }
    }
}

impl Default for RunStats {
    fn default() -> (r: RunStats)
        ensures
            r.deep_view() == (RunStatsView { finished: None, hosts: None }),
    {
        RunStats { finished: None, hosts: None }
    }
}

impl RunStats {
    /// How a child of a `runstats` element fails, if it does.
    pub open spec fn child_failure(child: NodeView) -> Option<FailureView> {
        if child.tag == "finished"@ {
            failure_of(Finished::parsed(child))
        } else if child.tag == "hosts"@ {
            failure_of(Hosts::parsed(child))
        } else {
            None
        }
    }

    /// What a `runstats` element holds. Of several `finished` or `hosts` children the
    /// last counts.
    pub open spec fn parsed(node: NodeView) -> Result<RunStatsView, FailureView> {
        let failure = first_failure(node.children, |c: NodeView| Self::child_failure(c));
        if failure is Some {
            Err(failure->Some_0)
        } else {
            Ok(
                RunStatsView {
                    finished: latest(
                        node.children,
                        "finished"@,
                        |c: NodeView| Finished::parsed(c),
                    ),
                    hosts: latest(node.children, "hosts"@, |c: NodeView| Hosts::parsed(c)),
                },
            )
        }
    }

    /// Reads a `runstats` element.
    #[verifier::loop_isolation(false)]
    pub fn parse(node: &XmlNode) -> (r: Result<RunStats, Failure>)
        ensures
            outcome(r) == Self::parsed(node.deep_view()),
    {
        let mut runstats = RunStats::default();
        let ghost children = node.deep_view().children;
        let mut i: usize = 0;
        while i < node.children.len()
            invariant
                i <= node.children.len(),
                children.len() == node.children.len(),
                first_failure(children.take(i as int), |c: NodeView| Self::child_failure(c))
                    is None,
                runstats.finished.deep_view() == latest(
                    children.take(i as int),
                    "finished"@,
                    |c: NodeView| Finished::parsed(c),
                ),
                runstats.hosts.deep_view() == latest(
                    children.take(i as int),
                    "hosts"@,
                    |c: NodeView| Hosts::parsed(c),
                ),
            decreases node.children.len() - i,
        {
            let child = &node.children[i];
            proof {
                lemma_take_next(children, i as int);
                reveal_strlit("finished");
                reveal_strlit("hosts");
                assert("finished"@.len() != "hosts"@.len());
            }
            if str_eq(child.tag.as_str(), "finished") {
                match Finished::parse(child) {
                    Ok(v) => {
                        runstats.finished = Some(v);
                    },
                    Err(e) => {
                        proof {
                            lemma_failure_found(
                                children,
                                |c: NodeView| Self::child_failure(c),
                                i as int,
                            );
                        }
                        return Err(e);
                    },
                }
            } else if str_eq(child.tag.as_str(), "hosts") {
                match Hosts::parse(child) {
                    Ok(v) => {
                        runstats.hosts = Some(v);
                    },
                    Err(e) => {
                        proof {
                            lemma_failure_found(
                                children,
                                |c: NodeView| Self::child_failure(c),
                                i as int,
                            );
                        }
                        return Err(e);
                    },
                }
            }
            i += 1;
        }
        proof {
            assert(children.take(i as int) == children);
        }
        Ok(runstats)
    }
}

impl RunStats {
    /// An unrecognised child of a `runstats` element is ignored, wherever it stands among
    /// the children.
    pub proof fn lemma_unknown_child_ignored(node: NodeView, k: int, child: NodeView)
        requires
            0 <= k <= node.children.len(),
            child.tag != "finished"@,
            child.tag != "hosts"@,
        ensures
            Self::parsed(node.with_child(k, child)) == Self::parsed(node),
    {
        let c = node.children;
        lemma_first_failure_skips(c, k, child, |c: NodeView| Self::child_failure(c));
        lemma_latest_skips(c, k, child, "finished"@, |c: NodeView| Finished::parsed(c));
        lemma_latest_skips(c, k, child, "hosts"@, |c: NodeView| Hosts::parsed(c));
    }
}

/// The elements under `runstats` hold the same whatever children stand under them.
pub proof fn lemma_runstats_leaves_ignore_children(node: NodeView, children: Seq<NodeView>)
    ensures
        Finished::parsed(node.with_children(children)) == Finished::parsed(node),
        Hosts::parsed(node.with_children(children)) == Hosts::parsed(node),
{
}

} // verus!
