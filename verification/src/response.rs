//! What the agent answers for a request once its turn is over.

use vstd::prelude::*;

use crate::review::{announce_saves, reply_with_saves, PostTurnReviewOutcome, PostTurnSave};
use crate::turn::TurnOutcome;

verus! {

/// The agent's answer to one request.
pub struct AgentResponse {
    pub text: String,
    pub session_id: String,
    pub run_id: Option<String>,
    pub executed: bool,
    /// The turn was cancelled (Ctrl+C, `/stop`, or a new message for the same scope).
    pub interrupted: bool,
    /// Skill auto-saved after a tool-heavy turn (background review).
    pub auto_saved_skill: Option<String>,
    /// Memory path appended after background memory review.
    pub auto_saved_memory: Option<String>,
}

/// The memory path a review saved.
pub open spec fn saved_memory(review: PostTurnReviewOutcome) -> Option<Seq<char>> {
    match review.memory {
        Some(PostTurnSave::Memory { path }) => Some(path@),
        _ => None,
    }
}

/// The skill a review saved.
pub open spec fn saved_skill(review: PostTurnReviewOutcome) -> Option<Seq<char>> {
    match review.skill {
        Some(PostTurnSave::Skill { name }) => Some(name@),
        _ => None,
    }
}

/// The answer to a finished turn. The background review runs only after a
/// turn that was not interrupted; what it saved is announced in the reply.
pub fn agent_response(outcome: TurnOutcome, review: &PostTurnReviewOutcome) -> (r: AgentResponse)
    ensures
        r.text@ == (if outcome.interrupted { outcome.text@ } else { reply_with_saves(outcome.text@, *review) }),
        r.session_id == outcome.session_id,
        r.run_id == outcome.last_run_id,
        r.executed == outcome.executed,
        r.interrupted == outcome.interrupted,
        match r.auto_saved_memory {
            Some(p) => !outcome.interrupted && saved_memory(*review) == Some(p@),
            None => outcome.interrupted || saved_memory(*review) is None,
        },
        match r.auto_saved_skill {
            Some(n) => !outcome.interrupted && saved_skill(*review) == Some(n@),
            None => outcome.interrupted || saved_skill(*review) is None,
        },
{
    if outcome.interrupted {
        return AgentResponse {
            text: outcome.text,
            session_id: outcome.session_id,
            run_id: outcome.last_run_id,
            executed: outcome.executed,
            interrupted: true,
            auto_saved_skill: None,
            auto_saved_memory: None,
        };
    }
    let text = announce_saves(outcome.text.as_str(), review);
    let memory = match &review.memory {
        Some(PostTurnSave::Memory { path }) => Some(path.clone()),
        _ => None,
    };
    let skill = match &review.skill {
        Some(PostTurnSave::Skill { name }) => Some(name.clone()),
        _ => None,
    };
    AgentResponse {
        text,
        session_id: outcome.session_id,
        run_id: outcome.last_run_id,
        executed: outcome.executed,
        interrupted: false,
        auto_saved_skill: skill,
        auto_saved_memory: memory,
    }
}

} // verus!
