//! Delegation chain of a turn (parent turn, subagent children).

use vstd::prelude::*;

verus! {

/// Where a turn sits in the delegation chain.
#[derive(Debug, Clone)]
pub struct TurnContext {
    pub delegation_depth: u8,
    /// Run id of the immediate parent (ledger / tracing chain).
    pub parent_run_id: Option<String>,
    /// Run id of this turn (latest exec or subagent), when known.
    pub run_id: Option<String>,
    pub parent_session_id: String,
    pub subagent_label: Option<String>,
}

/// Whether a turn is the user-facing parent or a delegated child.
#[derive(Debug, Clone, Copy, PartialEq, Eq)]
pub enum TurnMode {
    Parent,
    Child,
}

/// The character view of an optional string.
pub open spec fn opt_view(o: Option<String>) -> Option<Seq<char>> {
    match o {
        Some(s) => Some(s@),
        None => None,
    }
}

fn clone_opt(o: &Option<String>) -> (r: Option<String>)
    ensures
        opt_view(r) == opt_view(*o),
{
    match o {
        Some(s) => Some(s.clone()),
        None => None,
    }
}

impl TurnContext {
    /// Root context of a user turn on `session_id`.
    pub fn parent(session_id: &str) -> (r: Self)
        ensures
            r.delegation_depth == 0,
            r.parent_run_id is None,
            r.run_id is None,
            r.parent_session_id@ == session_id@,
            r.subagent_label is None,
    {
        TurnContext {
            delegation_depth: 0,
            parent_run_id: None,
            run_id: None,
            parent_session_id: String::from_str(session_id),
            subagent_label: None,
        }
    }

    /// Context of a subagent delegated from `parent`.
    pub fn child(parent: &Self, label: Option<String>) -> (r: Self)
        ensures
            r.delegation_depth == if parent.delegation_depth == u8::MAX {
                u8::MAX as int
            } else {
                parent.delegation_depth + 1
            },
            opt_view(r.parent_run_id) == opt_view(parent.run_id),
            r.run_id is None,
            r.parent_session_id@ == parent.parent_session_id@,
            r.subagent_label == label,
    {
        TurnContext {
            delegation_depth: parent.delegation_depth.saturating_add(1),
            parent_run_id: clone_opt(&parent.run_id),
            run_id: None,
            parent_session_id: parent.parent_session_id.clone(),
            subagent_label: label,
        }
    }

    /// Parent context immediately before `subagent` / `spawn`: attach latest exec run id.
    pub fn for_delegation(&self, active_run_id: Option<&str>) -> (r: Self)
        ensures
            r.delegation_depth == self.delegation_depth,
            opt_view(r.parent_run_id) == opt_view(self.parent_run_id),
            self.run_id is Some ==> opt_view(r.run_id) == opt_view(self.run_id),
            self.run_id is None ==> opt_view(r.run_id) == match active_run_id {
                Some(a) => Some(a@),
                None => None,
            },
            r.parent_session_id@ == self.parent_session_id@,
            opt_view(r.subagent_label) == opt_view(self.subagent_label),
    {
        let run_id = if self.run_id.is_none() {
            match active_run_id {
                Some(a) => Some(String::from_str(a)),
                None => None,
            }
        } else {
            clone_opt(&self.run_id)
        };
        TurnContext {
            delegation_depth: self.delegation_depth,
            parent_run_id: clone_opt(&self.parent_run_id),
            run_id,
            parent_session_id: self.parent_session_id.clone(),
            subagent_label: clone_opt(&self.subagent_label),
        }
    }
}

} // verus!
